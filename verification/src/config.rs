//! The settings of a run.
use vstd::prelude::*;

verus! {

/// What a run is made of: how long it is, how often telemetry is due, where
/// the output goes and which outputs are wanted.
///
/// The length of a timestep is not held here: the library never computes
/// with it. It stays with the caller, who hands it to the integrator.
#[derive(Debug, Clone)]
pub struct Config {
    /// Number of steps to take.
    pub steps: i64,
    /// Telemetry is due on every step that is a multiple of this.
    pub export_step: i64,
    /// Directory that receives all output files.
    pub export_directory: String,
    /// Start of every output file's name.
    pub export_file_name_prefix: String,
    /// Write one snapshot of the whole system per telemetry tick.
    pub export_system_state: bool,
    /// Keep one append log per body.
    pub export_body_history: bool,
    /// Keep one append log of the system's aggregated parameters.
    pub export_system_parameters_history: bool,
    /// Draw the energy chart after the run.
    pub plot_system: bool,
    /// Add the kinetic energy to the chart.
    pub plot_system_kinetic_energy: bool,
    /// Add the potential energy to the chart.
    pub plot_system_potential_energy: bool,
}

impl Config {
    /// A run has no negative length, and its telemetry cadence is at least
    /// one step.
    pub open spec fn wf(&self) -> bool {
        &&& self.steps >= 0
        &&& self.export_step > 0
    }

    /// Tests [`Config::wf`].
    pub fn is_valid(&self) -> (valid: bool)
        ensures
            valid == self.wf(),
    {
        self.steps >= 0 && self.export_step > 0
    }

    /// Whether telemetry is due at `step`.
    pub open spec fn is_tick(&self, step: int) -> bool {
        step % (self.export_step as int) == 0
    }
}

} // verus!
