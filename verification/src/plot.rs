//! The layout of the energy chart.
//!
//! A run keeps one sample per telemetry tick. After the run the chart is
//! laid out from the samples: which series it shows, the extent of the
//! samples along both axes, where the legend goes and which file receives
//! the drawing. Drawing itself, and the margin added around the extent, are
//! the caller's.
//!
//! Quantities are held as integer keys: any encoding in which a smaller
//! quantity has a smaller key. The layout only compares them.
use crate::config::Config;
use vstd::prelude::*;
use vstd::string::StringExecFns;

verus! {

/// One sample of the system, taken at a telemetry tick.
#[derive(Debug, Clone, Copy)]
pub struct PlotDatum {
    /// Simulated time of the sample.
    pub time: i64,
    /// Total energy of the system.
    pub total_energy: i64,
    /// Kinetic energy, where it was asked for.
    pub kinetic_energy: Option<i64>,
    /// Potential energy, where it was asked for.
    pub potential_energy: Option<i64>,
}

/// Where the legend stands.
#[derive(Clone, Copy, Debug, PartialEq, Eq, Structural)]
pub enum LegendPosition {
    /// At the right edge, halfway up: between the lines of potential and
    /// kinetic energy.
    MiddleRight,
    /// In the upper right corner.
    UpperRight,
}

/// The layout of the chart.
#[derive(Debug, Clone)]
pub struct PlotPlan {
    /// Name of the file that receives the drawing, relative to the export
    /// directory.
    pub file_name: String,
    /// Least time among the samples; `None` without samples.
    pub earliest: Option<i64>,
    /// Greatest time among the samples; `None` without samples.
    pub latest: Option<i64>,
    /// Least energy that is drawn; `None` without samples.
    pub lowest: Option<i64>,
    /// Greatest energy that is drawn; `None` without samples.
    pub highest: Option<i64>,
    /// Whether the series of potential energy is drawn.
    pub draw_potential: bool,
    /// Whether the series of kinetic energy is drawn.
    pub draw_kinetic: bool,
    /// Where the legend stands.
    pub legend: LegendPosition,
}

/// A [`PlotPlan`] as a mathematical value.
pub struct Layout {
    pub file_name: Seq<char>,
    pub earliest: Option<i64>,
    pub latest: Option<i64>,
    pub lowest: Option<i64>,
    pub highest: Option<i64>,
    pub draw_potential: bool,
    pub draw_kinetic: bool,
    pub legend: LegendPosition,
}

impl View for PlotPlan {
    type V = Layout;

    open spec fn view(&self) -> Layout {
        Layout {
            file_name: self.file_name@,
            earliest: self.earliest,
            latest: self.latest,
            lowest: self.lowest,
            highest: self.highest,
            draw_potential: self.draw_potential,
            draw_kinetic: self.draw_kinetic,
            legend: self.legend,
        }
    }
}

/// The least of the values; `None` if there are none.
pub open spec fn least(values: Seq<i64>) -> Option<i64>
    decreases values.len(),
{
    if values.len() == 0 {
        None
    } else {
        match least(values.drop_last()) {
            Some(m) if m <= values.last() => Some(m),
            _ => Some(values.last()),
        }
    }
}

/// The greatest of the values; `None` if there are none.
pub open spec fn greatest(values: Seq<i64>) -> Option<i64>
    decreases values.len(),
{
    if values.len() == 0 {
        None
    } else {
        match greatest(values.drop_last()) {
            Some(m) if m >= values.last() => Some(m),
            _ => Some(values.last()),
        }
    }
}

/// [`least`] and [`greatest`] are what their names say: one of the values,
/// with no value below, respectively above it.
pub proof fn lemma_least_and_greatest(values: Seq<i64>)
    ensures
        values.len() == 0 ==> least(values) is None && greatest(values) is None,
        values.len() > 0 ==> ({
            &&& least(values) matches Some(low)
            &&& greatest(values) matches Some(high)
            &&& values.contains(low)
            &&& values.contains(high)
            &&& forall|i: int| 0 <= i < values.len() ==> low <= #[trigger] values[i] <= high
        }),
    decreases values.len(),
{
    if values.len() > 0 {
        let init = values.drop_last();
        lemma_least_and_greatest(init);
        assert(values.last() == values[values.len() - 1]);
        if init.len() > 0 {
            let low = least(init)->0;
            let high = greatest(init)->0;
            let i = choose|i: int| 0 <= i < init.len() && init[i] == low;
            assert(values[i] == low);
            let j = choose|j: int| 0 <= j < init.len() && init[j] == high;
            assert(values[j] == high);
            assert forall|k: int| 0 <= k < values.len() implies least(values)->0 <= #[trigger] values[k]
                <= greatest(values)->0 by {
                if k < init.len() {
                    assert(init[k] == values[k]);
                }
            }
        }
    }
}

/// The file that receives the chart: `{prefix}_Energy.svg`.
pub open spec fn chart_name(prefix: Seq<char>) -> Seq<char> {
    prefix + "_Energy.svg"@
}

/// The times of the samples, in order.
pub open spec fn times(data: Seq<PlotDatum>) -> Seq<i64> {
    data.map_values(|d: PlotDatum| d.time)
}

/// The total energies of the samples, in order.
pub open spec fn total_energies(data: Seq<PlotDatum>) -> Seq<i64> {
    data.map_values(|d: PlotDatum| d.total_energy)
}

/// The kinetic energies of the samples, in order, where every sample has one.
pub open spec fn kinetic_energies(data: Seq<PlotDatum>) -> Seq<i64> {
    data.map_values(|d: PlotDatum| d.kinetic_energy->0)
}

/// The potential energies of the samples, in order, where every sample has
/// one.
pub open spec fn potential_energies(data: Seq<PlotDatum>) -> Seq<i64> {
    data.map_values(|d: PlotDatum| d.potential_energy->0)
}

/// Whether the samples hold what the chart is to show: a kinetic energy in
/// every sample if that series is wanted, and likewise a potential energy.
pub open spec fn samples_complete(data: Seq<PlotDatum>, config: Config) -> bool {
    &&& config.plot_system_kinetic_energy ==> forall|i: int|
        0 <= i < data.len() ==> (#[trigger] data[i]).kinetic_energy is Some
    &&& config.plot_system_potential_energy ==> forall|i: int|
        0 <= i < data.len() ==> (#[trigger] data[i]).potential_energy is Some
}

/// The energies that the chart shows: the total energy of every sample,
/// and the potential and the kinetic energy of every sample as far as these
/// series are drawn.
pub open spec fn plotted_energies(data: Seq<PlotDatum>, config: Config) -> Seq<i64> {
    total_energies(data) + (if config.plot_system_potential_energy {
        potential_energies(data)
    } else {
        Seq::empty()
    }) + (if config.plot_system_kinetic_energy {
        kinetic_energies(data)
    } else {
        Seq::empty()
    })
}

/// The layout of the chart of a run.
///
/// The total energy is always drawn; potential and kinetic energy are drawn
/// where the configuration asks for them. The time axis spans the times of
/// the samples, and the energy axis spans the energies that are drawn. The
/// legend stands halfway up the right edge when both potential and kinetic
/// energy are drawn, and in the upper right corner otherwise.
pub open spec fn chart_layout(data: Seq<PlotDatum>, config: Config) -> Layout {
    Layout {
        file_name: chart_name(config.export_file_name_prefix@),
        earliest: least(times(data)),
        latest: greatest(times(data)),
        lowest: least(plotted_energies(data, config)),
        highest: greatest(plotted_energies(data, config)),
        draw_potential: config.plot_system_potential_energy,
        draw_kinetic: config.plot_system_kinetic_energy,
        legend: if config.plot_system_potential_energy && config.plot_system_kinetic_energy {
            LegendPosition::MiddleRight
        } else {
            LegendPosition::UpperRight
        },
    }
}

/// The lesser of two optional values, where an absent one does not count.
pub open spec fn lower_of(a: Option<i64>, b: Option<i64>) -> Option<i64> {
    match (a, b) {
        (Some(x), Some(y)) => if x <= y {
            Some(x)
        } else {
            Some(y)
        },
        (Some(x), None) => Some(x),
        (None, y) => y,
    }
}

/// The greater of two optional values, where an absent one does not count.
pub open spec fn upper_of(a: Option<i64>, b: Option<i64>) -> Option<i64> {
    match (a, b) {
        (Some(x), Some(y)) => if x >= y {
            Some(x)
        } else {
            Some(y)
        },
        (Some(x), None) => Some(x),
        (None, y) => y,
    }
}

/// Computes [`lower_of`].
fn lesser(a: Option<i64>, b: Option<i64>) -> (m: Option<i64>)
    ensures
        m == lower_of(a, b),
{
    match (a, b) {
        (Some(x), Some(y)) => if x <= y {
            Some(x)
        } else {
            Some(y)
        },
        (Some(x), None) => Some(x),
        (None, y) => y,
    }
}

/// Computes [`upper_of`].
fn greater(a: Option<i64>, b: Option<i64>) -> (m: Option<i64>)
    ensures
        m == upper_of(a, b),
{
    match (a, b) {
        (Some(x), Some(y)) => if x >= y {
            Some(x)
        } else {
            Some(y)
        },
        (Some(x), None) => Some(x),
        (None, y) => y,
    }
}

/// The least value of two sequences put together is the lesser of their
/// least values, and likewise the greatest.
proof fn lemma_extremes_of_both(a: Seq<i64>, b: Seq<i64>)
    ensures
        least(a + b) == lower_of(least(a), least(b)),
        greatest(a + b) == upper_of(greatest(a), greatest(b)),
    decreases b.len(),
{
    if b.len() == 0 {
        assert(a + b =~= a);
    } else {
        lemma_extremes_of_both(a, b.drop_last());
        assert((a + b).drop_last() =~= a + b.drop_last());
        assert((a + b).last() == b.last());
    }
}

/// What one more sample adds to the columns of the samples before it.
proof fn lemma_columns_step(data: Seq<PlotDatum>, i: int)
    requires
        0 <= i < data.len(),
    ensures
        times(data.take(i + 1)).drop_last() == times(data.take(i)),
        times(data.take(i + 1)).last() == data[i].time,
        total_energies(data.take(i + 1)).drop_last() == total_energies(data.take(i)),
        total_energies(data.take(i + 1)).last() == data[i].total_energy,
        kinetic_energies(data.take(i + 1)).drop_last() == kinetic_energies(data.take(i)),
        kinetic_energies(data.take(i + 1)).last() == data[i].kinetic_energy->0,
        potential_energies(data.take(i + 1)).drop_last() == potential_energies(data.take(i)),
        potential_energies(data.take(i + 1)).last() == data[i].potential_energy->0,
{
    assert(data.take(i + 1).drop_last() =~= data.take(i));
    assert(times(data.take(i + 1)).drop_last() =~= times(data.take(i)));
    assert(total_energies(data.take(i + 1)).drop_last() =~= total_energies(data.take(i)));
    assert(kinetic_energies(data.take(i + 1)).drop_last() =~= kinetic_energies(data.take(i)));
    assert(potential_energies(data.take(i + 1)).drop_last() =~= potential_energies(data.take(i)));
}

/// Tests [`samples_complete`].
pub fn has_complete_samples(data: &Vec<PlotDatum>, config: &Config) -> (complete: bool)
    ensures
        complete == samples_complete(data@, *config),
{
    let mut i: usize = 0;
    while i < data.len()
        invariant
            0 <= i <= data.len(),
            config.plot_system_kinetic_energy ==> forall|k: int|
                0 <= k < i ==> (#[trigger] data@[k]).kinetic_energy is Some,
            config.plot_system_potential_energy ==> forall|k: int|
                0 <= k < i ==> (#[trigger] data@[k]).potential_energy is Some,
        decreases data.len() - i,
    {
        let d = data[i];
        if config.plot_system_kinetic_energy && d.kinetic_energy.is_none() {
            return false;
        }
        if config.plot_system_potential_energy && d.potential_energy.is_none() {
            return false;
        }
        i = i + 1;
    }
    true
}

/// Lays out the chart of the total energy of a run, with the potential and
/// the kinetic energy where the configuration asks for them.
///
/// The samples must hold every series that is to be drawn.
pub fn plot_total_energy(data: &Vec<PlotDatum>, config: &Config) -> (plan: PlotPlan)
    requires
        samples_complete(data@, *config),
    ensures
        plan@ == chart_layout(data@, *config),
{
    let mut earliest: Option<i64> = None;
    let mut latest: Option<i64> = None;
    let mut low_total: Option<i64> = None;
    let mut high_total: Option<i64> = None;
    let mut low_kinetic: Option<i64> = None;
    let mut high_kinetic: Option<i64> = None;
    let mut low_potential: Option<i64> = None;
    let mut high_potential: Option<i64> = None;
    let mut i: usize = 0;
    proof {
        assert(data@.take(0) =~= Seq::<PlotDatum>::empty());
        assert(times(data@.take(0)) =~= Seq::<i64>::empty());
        assert(total_energies(data@.take(0)) =~= Seq::<i64>::empty());
        assert(kinetic_energies(data@.take(0)) =~= Seq::<i64>::empty());
        assert(potential_energies(data@.take(0)) =~= Seq::<i64>::empty());
    }
    while i < data.len()
        invariant
            0 <= i <= data.len(),
            samples_complete(data@, *config),
            earliest == least(times(data@.take(i as int))),
            latest == greatest(times(data@.take(i as int))),
            low_total == least(total_energies(data@.take(i as int))),
            high_total == greatest(total_energies(data@.take(i as int))),
            config.plot_system_kinetic_energy ==> low_kinetic == least(
                kinetic_energies(data@.take(i as int)),
            ) && high_kinetic == greatest(kinetic_energies(data@.take(i as int))),
            !config.plot_system_kinetic_energy ==> low_kinetic is None && high_kinetic is None,
            config.plot_system_potential_energy ==> low_potential == least(
                potential_energies(data@.take(i as int)),
            ) && high_potential == greatest(potential_energies(data@.take(i as int))),
            !config.plot_system_potential_energy ==> low_potential is None && high_potential
                is None,
        decreases data.len() - i,
    {
        let d = data[i];
        proof {
            lemma_columns_step(data@, i as int);
        }
        earliest = lesser(earliest, Some(d.time));
        latest = greater(latest, Some(d.time));
        low_total = lesser(low_total, Some(d.total_energy));
        high_total = greater(high_total, Some(d.total_energy));
        if config.plot_system_kinetic_energy {
            low_kinetic = lesser(low_kinetic, d.kinetic_energy);
            high_kinetic = greater(high_kinetic, d.kinetic_energy);
        }
        if config.plot_system_potential_energy {
            low_potential = lesser(low_potential, d.potential_energy);
            high_potential = greater(high_potential, d.potential_energy);
        }
        i = i + 1;
    }
    proof {
        assert(data@.take(i as int) =~= data@);
        let potential = if config.plot_system_potential_energy {
            potential_energies(data@)
        } else {
            Seq::empty()
        };
        let kinetic = if config.plot_system_kinetic_energy {
            kinetic_energies(data@)
        } else {
            Seq::empty()
        };
        lemma_extremes_of_both(total_energies(data@), potential);
        lemma_extremes_of_both(total_energies(data@) + potential, kinetic);
    }
    let mut file_name = config.export_file_name_prefix.clone();
    file_name.append("_Energy.svg");
    PlotPlan {
        file_name,
        earliest,
        latest,
        lowest: lesser(lesser(low_total, low_potential), low_kinetic),
        highest: greater(greater(high_total, high_potential), high_kinetic),
        draw_potential: config.plot_system_potential_energy,
        draw_kinetic: config.plot_system_kinetic_energy,
        legend: if config.plot_system_potential_energy && config.plot_system_kinetic_energy {
            LegendPosition::MiddleRight
        } else {
            LegendPosition::UpperRight
        },
    }
}

} // verus!
