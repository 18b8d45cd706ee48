use kepler_sim::config::Config;
use kepler_sim::export::{
    body_history_file_name, export_system_parameters_to_csv, export_system_snapshot_to_csv,
    export_system_to_csv_by_body, system_parameters_file_name, Body, BodyHistory, Destination,
    ExportPlan,
    FileOp, SystemParameters,
};
use kepler_sim::simulation::{
    progress_message, run_simulation, Action, Activity, Outcome, RunState, RunStatus,
};
use std::collections::BTreeMap;

fn run_config(steps: i64, export_step: i64) -> Config {
    Config {
        steps,
        export_step,
        export_directory: "out".to_string(),
        export_file_name_prefix: "run".to_string(),
        export_system_state: true,
        export_body_history: true,
        export_system_parameters_history: true,
        plot_system: true,
        plot_system_kinetic_energy: false,
        plot_system_potential_energy: false,
    }
}

/// All that a run asks for when nothing fails, up to and including the stop.
fn course(config: &Config) -> Vec<Action> {
    let mut asked = Vec::new();
    let mut state = RunState::Ready;
    loop {
        let (next, action) = run_simulation(config, state, Outcome::Succeeded);
        asked.push(action);
        state = next;
        if let Action::Stop(_) = action {
            assert!(state.is_finished());
            return asked;
        }
        assert!(!state.is_finished());
        assert!(asked.len() < 100_000);
    }
}

/// The steps at which a run asks for the activity.
fn steps_of(asked: &[Action], wanted: Activity) -> Vec<i64> {
    asked
        .iter()
        .filter_map(|action| match action {
            Action::Perform { step, activity } if *activity == wanted => Some(*step),
            _ => None,
        })
        .collect()
}

fn perform(step: i64, activity: Activity) -> Action {
    Action::Perform { step, activity }
}

#[test]
fn a_run_of_two_steps_asks_for_everything_in_order() {
    let asked = course(&run_config(2, 1));
    assert_eq!(
        asked,
        vec![
            perform(0, Activity::ExportParameters),
            perform(0, Activity::ExportSnapshot),
            perform(0, Activity::ExportBodies),
            perform(1, Activity::Integrate),
            perform(1, Activity::Sample),
            perform(1, Activity::ExportParameters),
            perform(1, Activity::ExportSnapshot),
            perform(1, Activity::ExportBodies),
            perform(1, Activity::Report),
            perform(2, Activity::Integrate),
            perform(2, Activity::Sample),
            perform(2, Activity::ExportParameters),
            perform(2, Activity::ExportSnapshot),
            perform(2, Activity::ExportBodies),
            perform(2, Activity::Report),
            Action::Render,
            Action::Stop(RunStatus::Completed),
        ]
    );
}

#[test]
fn telemetry_is_due_at_multiples_of_the_cadence() {
    let asked = course(&run_config(10, 3));
    for export in [
        Activity::ExportParameters,
        Activity::ExportSnapshot,
        Activity::ExportBodies,
    ] {
        assert_eq!(steps_of(&asked, export), vec![0, 3, 6, 9]);
    }
    assert_eq!(steps_of(&asked, Activity::Sample), vec![3, 6, 9]);
    assert_eq!(steps_of(&asked, Activity::Report), vec![3, 6, 9]);
    assert_eq!(
        steps_of(&asked, Activity::Integrate),
        vec![1, 2, 3, 4, 5, 6, 7, 8, 9, 10]
    );
}

#[test]
fn the_number_of_exports_is_the_quotient_plus_one() {
    for (steps, export_step) in [(0i64, 1i64), (0, 5), (1, 1), (4, 5), (5, 5), (6, 5), (100, 7), (99, 100)] {
        let asked = course(&run_config(steps, export_step));
        let at = steps_of(&asked, Activity::ExportParameters);
        assert_eq!(at.len() as i64, steps / export_step + 1);
        for (k, step) in at.iter().enumerate() {
            assert_eq!(*step, k as i64 * export_step);
        }
    }
}

#[test]
fn what_is_switched_off_is_not_asked_for() {
    let mut config = run_config(4, 2);
    config.export_system_state = false;
    config.export_body_history = false;
    config.plot_system = false;
    assert_eq!(
        course(&config),
        vec![
            perform(0, Activity::ExportParameters),
            perform(1, Activity::Integrate),
            perform(2, Activity::Integrate),
            perform(2, Activity::ExportParameters),
            perform(2, Activity::Report),
            perform(3, Activity::Integrate),
            perform(4, Activity::Integrate),
            perform(4, Activity::ExportParameters),
            perform(4, Activity::Report),
            Action::Stop(RunStatus::Completed),
        ]
    );
    config.export_system_parameters_history = false;
    assert_eq!(
        course(&config),
        vec![
            perform(1, Activity::Integrate),
            perform(2, Activity::Integrate),
            perform(2, Activity::Report),
            perform(3, Activity::Integrate),
            perform(4, Activity::Integrate),
            perform(4, Activity::Report),
            Action::Stop(RunStatus::Completed),
        ]
    );
}

#[test]
fn a_run_of_no_steps_only_exports_the_initial_state() {
    let mut config = run_config(0, 1);
    assert_eq!(
        course(&config),
        vec![
            perform(0, Activity::ExportParameters),
            perform(0, Activity::ExportSnapshot),
            perform(0, Activity::ExportBodies),
            Action::Render,
            Action::Stop(RunStatus::Completed),
        ]
    );
    config.export_system_state = false;
    config.export_body_history = false;
    config.export_system_parameters_history = false;
    config.plot_system = false;
    assert_eq!(course(&config), vec![Action::Stop(RunStatus::Completed)]);
}

#[test]
fn a_failed_export_ends_the_run_at_once() {
    let config = run_config(5, 1);
    let (state, action) = run_simulation(&config, RunState::Ready, Outcome::Succeeded);
    assert_eq!(action, perform(0, Activity::ExportParameters));
    let (state, action) = run_simulation(&config, state, Outcome::Succeeded);
    assert_eq!(action, perform(0, Activity::ExportSnapshot));
    let (state, action) = run_simulation(&config, state, Outcome::Failed);
    let aborted = RunStatus::Aborted {
        step: 0,
        activity: Activity::ExportSnapshot,
    };
    assert_eq!(action, Action::Stop(aborted));
    assert_eq!(state, RunState::Finished(aborted));
    // Neither success nor failure brings the run back.
    for outcome in [Outcome::Succeeded, Outcome::Failed] {
        let (state, action) = run_simulation(&config, state, outcome);
        assert_eq!(action, Action::Stop(aborted));
        assert_eq!(state, RunState::Finished(aborted));
    }
}

#[test]
fn a_failure_late_in_the_run_leaves_the_chart_undrawn() {
    let config = run_config(2, 2);
    let mut state = RunState::Ready;
    let mut asked = Vec::new();
    loop {
        let failing = matches!(
            asked.last(),
            Some(Action::Perform {
                step: 2,
                activity: Activity::ExportBodies
            })
        );
        let outcome = if failing {
            Outcome::Failed
        } else {
            Outcome::Succeeded
        };
        let (next, action) = run_simulation(&config, state, outcome);
        state = next;
        asked.push(action);
        if let Action::Stop(_) = action {
            break;
        }
    }
    assert!(!asked.contains(&Action::Render));
    assert!(!asked.contains(&perform(2, Activity::Report)));
    assert_eq!(
        asked.last(),
        Some(&Action::Stop(RunStatus::Aborted {
            step: 2,
            activity: Activity::ExportBodies
        }))
    );
}

#[test]
fn a_chart_that_cannot_be_drawn_is_told_apart() {
    let config = run_config(0, 1);
    let mut state = RunState::Ready;
    let mut last = Action::Stop(RunStatus::Completed);
    for _ in 0..4 {
        let (next, action) = run_simulation(&config, state, Outcome::Succeeded);
        state = next;
        last = action;
    }
    assert_eq!(last, Action::Render);
    assert_eq!(state, RunState::Rendering);
    let (state, action) = run_simulation(&config, state, Outcome::Failed);
    assert_eq!(action, Action::Stop(RunStatus::PlotFailed));
    assert_eq!(state, RunState::Finished(RunStatus::PlotFailed));
}

#[test]
fn progress_is_a_share_and_a_duration() {
    assert_eq!(progress_message(1, 2, 360), "Progress: 50.00%, time: 6.00min");
    assert_eq!(progress_message(2, 2, 86_400), "Progress: 100.00%, time: 1.00days");
    assert_eq!(progress_message(1, 3, 15), "Progress: 33.33%, time: 15s");
    assert_eq!(progress_message(2, 3, 0), "Progress: 66.67%, time: 0s");
    assert_eq!(progress_message(0, 7, 59), "Progress: 0.00%, time: 59s");
    assert_eq!(progress_message(1, 8000, 3_600), "Progress: 0.01%, time: 1.00h");
    assert_eq!(
        progress_message(i64::MAX, i64::MAX, u64::MAX),
        "Progress: 100.00%, time: 593066617596.11y"
    );
}

#[test]
fn only_sound_configurations_are_valid() {
    assert!(run_config(0, 1).is_valid());
    assert!(run_config(10, 3).is_valid());
    assert!(!run_config(-1, 1).is_valid());
    assert!(!run_config(10, 0).is_valid());
    assert!(!run_config(10, -2).is_valid());
}

/// A directory in memory: file names and their bytes.
struct Shelf {
    present: bool,
    creatable: bool,
    files: BTreeMap<String, Vec<u8>>,
    subdirectories: Vec<String>,
}

fn empty_shelf() -> Shelf {
    Shelf {
        present: false,
        creatable: true,
        files: BTreeMap::new(),
        subdirectories: Vec::new(),
    }
}

fn look(shelf: &Shelf, name: &str) -> Destination {
    if shelf.subdirectories.iter().any(|d| d == name) {
        Destination::Other
    } else if shelf.files.contains_key(name) {
        Destination::File
    } else {
        Destination::Absent
    }
}

/// Carries a plan out on the shelf; `false` if the export fails.
fn carry_out(shelf: &mut Shelf, plan: ExportPlan) -> bool {
    for op in plan.operations {
        match op {
            FileOp::EnsureDirectory { .. } => {
                if !shelf.present {
                    if !shelf.creatable {
                        return false;
                    }
                    shelf.present = true;
                }
            }
            FileOp::Create { name, bytes } => {
                if !shelf.present || look(shelf, &name) == Destination::Other {
                    return false;
                }
                shelf.files.insert(name, bytes);
            }
            FileOp::Append { name, bytes } => match shelf.files.get_mut(&name) {
                Some(held) if shelf.present => held.extend_from_slice(&bytes),
                _ => return false,
            },
        }
    }
    plan.failure.is_none()
}

fn two_bodies(step: i64) -> Vec<Body> {
    ["sun", "earth"]
        .iter()
        .map(|name| Body {
            name: name.to_string(),
            mass: "1.0".to_string(),
            x: format!("{}.5", step),
            y: "0.0".to_string(),
            vx: "0.0".to_string(),
            vy: "1.0".to_string(),
        })
        .collect()
}

/// Runs the whole loop against the shelf and tells how the run ended.
fn run_on(shelf: &mut Shelf, config: &Config) -> RunStatus {
    let mut state = RunState::Ready;
    let mut outcome = Outcome::Succeeded;
    loop {
        let (next, action) = run_simulation(config, state, outcome);
        state = next;
        let done = match action {
            Action::Stop(status) => return status,
            Action::Render => true,
            Action::Perform { step, activity } => {
                let time = format!("{}.0", step);
                let bodies = two_bodies(step);
                match activity {
                    Activity::Integrate | Activity::Sample | Activity::Report => true,
                    Activity::ExportParameters => {
                        let name = system_parameters_file_name(&config.export_file_name_prefix);
                        let values = SystemParameters {
                            energy: "-1.0".to_string(),
                            impulse_x: "0.0".to_string(),
                            impulse_y: "2.0".to_string(),
                            center_of_mass_x: "0.5".to_string(),
                            center_of_mass_y: "0.0".to_string(),
                        };
                        let plan = export_system_parameters_to_csv(
                            config,
                            &values,
                            step,
                            &time,
                            look(shelf, &name),
                        );
                        carry_out(shelf, plan)
                    }
                    Activity::ExportSnapshot => {
                        let plan = export_system_snapshot_to_csv(config, &bodies, step, &time);
                        carry_out(shelf, plan)
                    }
                    Activity::ExportBodies => {
                        let found: Vec<BodyHistory> = bodies
                            .into_iter()
                            .map(|body| BodyHistory {
                                destination: look(
                                    shelf,
                                    &body_history_file_name(
                                        &config.export_file_name_prefix,
                                        &body.name,
                                    ),
                                ),
                                body,
                            })
                            .collect();
                        let plan = export_system_to_csv_by_body(config, &found, step, &time);
                        carry_out(shelf, plan)
                    }
                }
            }
        };
        outcome = if done {
            Outcome::Succeeded
        } else {
            Outcome::Failed
        };
    }
}

fn text_of(shelf: &Shelf, name: &str) -> String {
    String::from_utf8(shelf.files[name].clone()).unwrap()
}

#[test]
fn two_bodies_two_steps_end_to_end() {
    let config = run_config(2, 1);
    let mut shelf = empty_shelf();
    assert_eq!(run_on(&mut shelf, &config), RunStatus::Completed);
    let names: Vec<&str> = shelf.files.keys().map(|k| k.as_str()).collect();
    assert_eq!(
        names,
        vec![
            "run_0.csv",
            "run_1.csv",
            "run_2.csv",
            "run_earth.csv",
            "run_sun.csv",
            "run_system_parameters.csv",
        ]
    );
    assert_eq!(
        text_of(&shelf, "run_system_parameters.csv"),
        "Step,Time,Energy,Impulse x,Impulse y,Center of mass x,Center of mass y\n\
         0,0.0,-1.0,0.0,2.0,0.5,0.0\n\
         1,1.0,-1.0,0.0,2.0,0.5,0.0\n\
         2,2.0,-1.0,0.0,2.0,0.5,0.0\n"
    );
    assert_eq!(
        text_of(&shelf, "run_sun.csv"),
        "Time,Mass,x,y,vx,vy\n\
         0.0,1.0,0.5,0.0,0.0,1.0\n\
         1.0,1.0,1.5,0.0,0.0,1.0\n\
         2.0,1.0,2.5,0.0,0.0,1.0\n"
    );
    assert_eq!(text_of(&shelf, "run_earth.csv").lines().count(), 4);
    for step in 0..3 {
        assert_eq!(
            text_of(&shelf, &format!("run_{}.csv", step)),
            format!(
                "Time,Name,Mass,x,y,vx,vy\n\
                 {0}.0,sun,1.0,{0}.5,0.0,0.0,1.0\n\
                 {0}.0,earth,1.0,{0}.5,0.0,0.0,1.0\n",
                step
            )
        );
    }
}

#[test]
fn the_parameters_log_has_a_row_per_tick() {
    let config = run_config(10, 3);
    let mut shelf = empty_shelf();
    assert_eq!(run_on(&mut shelf, &config), RunStatus::Completed);
    let log = text_of(&shelf, "run_system_parameters.csv");
    let rows: Vec<&str> = log.lines().skip(1).collect();
    assert_eq!(rows.len(), 10 / 3 + 1);
    let steps: Vec<&str> = rows
        .iter()
        .map(|row| row.split(',').next().unwrap())
        .collect();
    assert_eq!(steps, vec!["0", "3", "6", "9"]);
    assert_eq!(log.matches("Step,").count(), 1);
}

#[test]
fn a_second_run_leaves_the_same_bytes() {
    let config = run_config(6, 2);
    let mut shelf = empty_shelf();
    assert_eq!(run_on(&mut shelf, &config), RunStatus::Completed);
    let once = shelf.files.clone();
    assert_eq!(run_on(&mut shelf, &config), RunStatus::Completed);
    assert_eq!(shelf.files, once);
    // A stale log of some other run is discarded as well.
    shelf.files.insert(
        "run_system_parameters.csv".to_string(),
        b"old header\nold row\nold row\n".to_vec(),
    );
    shelf
        .files
        .insert("run_sun.csv".to_string(), b"junk".to_vec());
    assert_eq!(run_on(&mut shelf, &config), RunStatus::Completed);
    assert_eq!(shelf.files, once);
}

#[test]
fn without_the_directory_nothing_is_written() {
    let config = run_config(2, 1);
    let mut shelf = empty_shelf();
    shelf.creatable = false;
    assert_eq!(
        run_on(&mut shelf, &config),
        RunStatus::Aborted {
            step: 0,
            activity: Activity::ExportParameters
        }
    );
    assert!(shelf.files.is_empty());
    let mut only_snapshots = config.clone();
    only_snapshots.export_system_parameters_history = false;
    only_snapshots.export_body_history = false;
    assert_eq!(
        run_on(&mut shelf, &only_snapshots),
        RunStatus::Aborted {
            step: 0,
            activity: Activity::ExportSnapshot
        }
    );
    assert!(shelf.files.is_empty());
}

#[test]
fn a_directory_in_the_way_of_a_log_aborts_the_run() {
    let config = run_config(2, 1);
    let mut shelf = empty_shelf();
    shelf.subdirectories.push("run_earth.csv".to_string());
    assert_eq!(
        run_on(&mut shelf, &config),
        RunStatus::Aborted {
            step: 0,
            activity: Activity::ExportBodies
        }
    );
    // What was written before the failure stays.
    let names: Vec<&str> = shelf.files.keys().map(|k| k.as_str()).collect();
    assert_eq!(
        names,
        vec!["run_0.csv", "run_sun.csv", "run_system_parameters.csv"]
    );
}
