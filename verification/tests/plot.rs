use kepler_sim::config::Config;
use kepler_sim::plot::{has_complete_samples, plot_total_energy, LegendPosition, PlotDatum};

fn plot_config(kinetic: bool, potential: bool) -> Config {
    Config {
        steps: 10,
        export_step: 1,
        export_directory: "out".to_string(),
        export_file_name_prefix: "two_body".to_string(),
        export_system_state: false,
        export_body_history: false,
        export_system_parameters_history: false,
        plot_system: true,
        plot_system_kinetic_energy: kinetic,
        plot_system_potential_energy: potential,
    }
}

fn sample(time: i64, total: i64, kinetic: i64, potential: i64) -> PlotDatum {
    PlotDatum {
        time,
        total_energy: total,
        kinetic_energy: Some(kinetic),
        potential_energy: Some(potential),
    }
}

fn samples() -> Vec<PlotDatum> {
    vec![
        sample(10, -50, 30, -80),
        sample(20, -48, 45, -93),
        sample(30, -52, 20, -72),
    ]
}

#[test]
fn total_energy_alone_spans_the_energy_axis() {
    let plan = plot_total_energy(&samples(), &plot_config(false, false));
    assert_eq!(plan.file_name, "two_body_Energy.svg");
    assert_eq!(plan.earliest, Some(10));
    assert_eq!(plan.latest, Some(30));
    assert_eq!(plan.lowest, Some(-52));
    assert_eq!(plan.highest, Some(-48));
    assert!(!plan.draw_kinetic);
    assert!(!plan.draw_potential);
    assert_eq!(plan.legend, LegendPosition::UpperRight);
}

#[test]
fn the_energy_axis_spans_every_drawn_series() {
    let kinetic = plot_total_energy(&samples(), &plot_config(true, false));
    assert_eq!(kinetic.lowest, Some(-52));
    assert_eq!(kinetic.highest, Some(45));
    assert!(kinetic.draw_kinetic && !kinetic.draw_potential);
    assert_eq!(kinetic.legend, LegendPosition::UpperRight);

    let potential = plot_total_energy(&samples(), &plot_config(false, true));
    assert_eq!(potential.lowest, Some(-93));
    assert_eq!(potential.highest, Some(-48));
    assert!(!potential.draw_kinetic && potential.draw_potential);
    assert_eq!(potential.legend, LegendPosition::UpperRight);

    let both = plot_total_energy(&samples(), &plot_config(true, true));
    assert_eq!(both.lowest, Some(-93));
    assert_eq!(both.highest, Some(45));
    assert!(both.draw_kinetic && both.draw_potential);
    assert_eq!(both.legend, LegendPosition::MiddleRight);
    assert_eq!((both.earliest, both.latest), (Some(10), Some(30)));
}

#[test]
fn a_series_that_is_not_drawn_does_not_stretch_the_axis() {
    let data = vec![sample(0, 0, -7, 5), sample(1, 1, 3, 40)];
    let neither = plot_total_energy(&data, &plot_config(false, false));
    assert_eq!((neither.lowest, neither.highest), (Some(0), Some(1)));
    let kinetic = plot_total_energy(&data, &plot_config(true, false));
    assert_eq!((kinetic.lowest, kinetic.highest), (Some(-7), Some(3)));
    let potential = plot_total_energy(&data, &plot_config(false, true));
    assert_eq!((potential.lowest, potential.highest), (Some(0), Some(40)));
    let both = plot_total_energy(&data, &plot_config(true, true));
    assert_eq!((both.lowest, both.highest), (Some(-7), Some(40)));
}

#[test]
fn no_samples_no_extent() {
    for (kinetic, potential) in [(false, false), (true, false), (false, true), (true, true)] {
        let plan = plot_total_energy(&Vec::new(), &plot_config(kinetic, potential));
        assert_eq!(plan.earliest, None);
        assert_eq!(plan.latest, None);
        assert_eq!(plan.lowest, None);
        assert_eq!(plan.highest, None);
    }
}

#[test]
fn one_sample_is_its_own_extent() {
    let plan = plot_total_energy(&vec![sample(7, 3, 1, 2)], &plot_config(false, false));
    assert_eq!((plan.earliest, plan.latest), (Some(7), Some(7)));
    assert_eq!((plan.lowest, plan.highest), (Some(3), Some(3)));
}

#[test]
fn samples_in_any_order_and_at_the_limits() {
    let data = vec![
        sample(5, i64::MAX, 0, 0),
        sample(-3, i64::MIN, 0, 0),
        sample(4, 0, 0, 0),
    ];
    let plan = plot_total_energy(&data, &plot_config(false, false));
    assert_eq!((plan.earliest, plan.latest), (Some(-3), Some(5)));
    assert_eq!((plan.lowest, plan.highest), (Some(i64::MIN), Some(i64::MAX)));
}

#[test]
fn a_series_must_be_in_every_sample_to_be_drawn() {
    let mut data = samples();
    assert!(has_complete_samples(&data, &plot_config(true, true)));
    data[1].kinetic_energy = None;
    assert!(!has_complete_samples(&data, &plot_config(true, true)));
    assert!(!has_complete_samples(&data, &plot_config(true, false)));
    assert!(has_complete_samples(&data, &plot_config(false, true)));
    assert!(has_complete_samples(&data, &plot_config(false, false)));
    data[2].potential_energy = None;
    assert!(!has_complete_samples(&data, &plot_config(false, true)));
    assert!(has_complete_samples(&Vec::new(), &plot_config(true, true)));
}
