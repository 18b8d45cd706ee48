use kepler_sim::config::Config;
use kepler_sim::export::{
    body_history_file_name, export_system_parameters_to_csv, export_system_snapshot_to_csv,
    export_system_to_csv_by_body, plan_append_logs, plan_snapshot, snapshot_file_name,
    system_parameters_file_name, Body, BodyHistory, Destination, ExportError, FileOp, LogEntry,
    SystemParameters,
};
use kepler_sim::records::normalize_row;

fn export_config() -> Config {
    Config {
        steps: 10,
        export_step: 2,
        export_directory: "out/run".to_string(),
        export_file_name_prefix: "sim".to_string(),
        export_system_state: true,
        export_body_history: true,
        export_system_parameters_history: true,
        plot_system: false,
        plot_system_kinetic_energy: false,
        plot_system_potential_energy: false,
    }
}

fn body(name: &str, mass: &str) -> Body {
    Body {
        name: name.to_string(),
        mass: mass.to_string(),
        x: "1.0".to_string(),
        y: "-2.5".to_string(),
        vx: "0.0".to_string(),
        vy: "3e-7".to_string(),
    }
}

fn parameters() -> SystemParameters {
    SystemParameters {
        energy: "-12.5".to_string(),
        impulse_x: "0.0".to_string(),
        impulse_y: "1.5".to_string(),
        center_of_mass_x: "0.25".to_string(),
        center_of_mass_y: "-0.75".to_string(),
    }
}

/// Bodies with what was found at the paths of their histories.
fn histories(bodies: Vec<Body>, found: Vec<Destination>) -> Vec<BodyHistory> {
    assert_eq!(bodies.len(), found.len());
    bodies
        .into_iter()
        .zip(found)
        .map(|(body, destination)| BodyHistory { body, destination })
        .collect()
}

/// The operations of a plan as short readable lines.
fn told(operations: &[FileOp]) -> Vec<String> {
    operations
        .iter()
        .map(|op| match op {
            FileOp::EnsureDirectory { path } => format!("dir {}", path),
            FileOp::Create { name, bytes } => {
                format!("create {} {:?}", name, String::from_utf8_lossy(bytes))
            }
            FileOp::Append { name, bytes } => {
                format!("append {} {:?}", name, String::from_utf8_lossy(bytes))
            }
        })
        .collect()
}

#[test]
fn file_names_follow_the_prefix() {
    let prefix = "sim".to_string();
    assert_eq!(snapshot_file_name(&prefix, 0), "sim_0.csv");
    assert_eq!(snapshot_file_name(&prefix, 5), "sim_5.csv");
    assert_eq!(snapshot_file_name(&prefix, 10), "sim_10.csv");
    assert_eq!(snapshot_file_name(&prefix, 1234567890123), "sim_1234567890123.csv");
    assert_eq!(snapshot_file_name(&prefix, -7), "sim_-7.csv");
    assert_eq!(
        snapshot_file_name(&prefix, i64::MIN),
        "sim_-9223372036854775808.csv"
    );
    assert_eq!(
        snapshot_file_name(&prefix, i64::MAX),
        "sim_9223372036854775807.csv"
    );
    assert_eq!(
        body_history_file_name(&prefix, &"earth".to_string()),
        "sim_earth.csv"
    );
    assert_eq!(
        system_parameters_file_name(&prefix),
        "sim_system_parameters.csv"
    );
}

#[test]
fn a_row_becomes_one_line() {
    assert_eq!(normalize_row(&b"a,b,c\n".to_vec()), b"a,b,c\n".to_vec());
    assert_eq!(normalize_row(&b"a,b,c".to_vec()), b"a,b,c\n".to_vec());
    assert_eq!(normalize_row(&b"a,\"b\nc\",d\n".to_vec()), b"a,\"bc\",d\n".to_vec());
    assert_eq!(normalize_row(&b"\n\n\n".to_vec()), b"\n".to_vec());
    assert_eq!(normalize_row(&Vec::new()), b"\n".to_vec());
    assert_eq!(normalize_row(&b"a\r\n".to_vec()), b"a\r\n".to_vec());
}

#[test]
fn snapshot_is_one_new_file_with_header_and_a_row_per_body() {
    let config = export_config();
    let bodies = vec![body("sun", "1000.0"), body("earth", "1.0")];
    let plan = export_system_snapshot_to_csv(&config, &bodies, 4, &"0.4".to_string());
    assert!(plan.failure.is_none());
    assert_eq!(
        told(&plan.operations),
        vec![
            "dir out/run".to_string(),
            "create sim_4.csv \"Time,Name,Mass,x,y,vx,vy\\n0.4,sun,1000.0,1.0,-2.5,0.0,3e-7\\n0.4,earth,1.0,1.0,-2.5,0.0,3e-7\\n\""
                .to_string(),
        ]
    );
}

#[test]
fn snapshot_of_no_bodies_holds_the_header_only() {
    let config = export_config();
    let plan = export_system_snapshot_to_csv(&config, &Vec::new(), 0, &"0.0".to_string());
    assert!(plan.failure.is_none());
    assert_eq!(
        told(&plan.operations),
        vec![
            "dir out/run".to_string(),
            "create sim_0.csv \"Time,Name,Mass,x,y,vx,vy\\n\"".to_string(),
        ]
    );
}

#[test]
fn snapshot_fields_are_quoted_where_needed() {
    let config = export_config();
    let bodies = vec![body("moon, \"the\" one", "0.0123"), body("two\nlines", "")];
    let plan = export_system_snapshot_to_csv(&config, &bodies, 1, &"0.1".to_string());
    assert!(plan.failure.is_none());
    match &plan.operations[1] {
        FileOp::Create { name, bytes } => {
            assert_eq!(name, "sim_1.csv");
            assert_eq!(
                String::from_utf8(bytes.clone()).unwrap(),
                "Time,Name,Mass,x,y,vx,vy\n\
                 0.1,\"moon, \"\"the\"\" one\",0.0123,1.0,-2.5,0.0,3e-7\n\
                 0.1,\"two\nlines\",,1.0,-2.5,0.0,3e-7\n"
            );
        }
        other => panic!("unexpected operation {:?}", other),
    }
}

#[test]
fn snapshots_of_two_steps_are_two_files() {
    let config = export_config();
    let bodies = vec![body("sun", "1000.0")];
    let at_five = export_system_snapshot_to_csv(&config, &bodies, 5, &"0.5".to_string());
    let at_ten = export_system_snapshot_to_csv(&config, &bodies, 10, &"1.0".to_string());
    let names: Vec<String> = [&at_five, &at_ten]
        .iter()
        .map(|plan| match &plan.operations[1] {
            FileOp::Create { name, .. } => name.clone(),
            other => panic!("unexpected operation {:?}", other),
        })
        .collect();
    assert_eq!(names, vec!["sim_5.csv".to_string(), "sim_10.csv".to_string()]);
    for plan in [&at_five, &at_ten] {
        assert_eq!(plan.operations.len(), 2);
        assert!(!plan
            .operations
            .iter()
            .any(|op| matches!(op, FileOp::Append { .. })));
    }
}

#[test]
fn parameters_log_is_begun_where_it_is_absent() {
    let config = export_config();
    for step in [0i64, 2, 8] {
        let plan = export_system_parameters_to_csv(
            &config,
            &parameters(),
            step,
            &"0.2".to_string(),
            Destination::Absent,
        );
        assert!(plan.failure.is_none());
        assert_eq!(
            told(&plan.operations),
            vec![
                "dir out/run".to_string(),
                "create sim_system_parameters.csv \"Step,Time,Energy,Impulse x,Impulse y,Center of mass x,Center of mass y\\n\"".to_string(),
                format!(
                    "append sim_system_parameters.csv \"{},0.2,-12.5,0.0,1.5,0.25,-0.75\\n\"",
                    step
                ),
            ]
        );
    }
}

#[test]
fn parameters_log_is_begun_anew_at_step_zero() {
    let config = export_config();
    let stale = export_system_parameters_to_csv(
        &config,
        &parameters(),
        0,
        &"0.0".to_string(),
        Destination::File,
    );
    let fresh = export_system_parameters_to_csv(
        &config,
        &parameters(),
        0,
        &"0.0".to_string(),
        Destination::Absent,
    );
    assert!(stale.failure.is_none());
    assert_eq!(told(&stale.operations), told(&fresh.operations));
    assert_eq!(stale.operations.len(), 3);
    assert!(matches!(stale.operations[1], FileOp::Create { .. }));
}

#[test]
fn parameters_log_grows_by_one_line_after_step_zero() {
    let config = export_config();
    let plan = export_system_parameters_to_csv(
        &config,
        &parameters(),
        6,
        &"0.6".to_string(),
        Destination::File,
    );
    assert!(plan.failure.is_none());
    assert_eq!(
        told(&plan.operations),
        vec![
            "dir out/run".to_string(),
            "append sim_system_parameters.csv \"6,0.6,-12.5,0.0,1.5,0.25,-0.75\\n\"".to_string(),
        ]
    );
}

#[test]
fn parameters_log_refuses_what_is_not_a_file() {
    let config = export_config();
    for step in [0i64, 4] {
        let plan = export_system_parameters_to_csv(
            &config,
            &parameters(),
            step,
            &"0.0".to_string(),
            Destination::Other,
        );
        assert_eq!(told(&plan.operations), vec!["dir out/run".to_string()]);
        match plan.failure {
            Some(ExportError::NotAFile { name }) => assert_eq!(name, "sim_system_parameters.csv"),
            other => panic!("unexpected failure {:?}", other),
        }
    }
}

#[test]
fn each_body_has_its_own_history() {
    let config = export_config();
    let bodies = vec![body("sun", "1000.0"), body("earth", "1.0")];
    let plan = export_system_to_csv_by_body(
        &config,
        &histories(bodies.clone(), vec![Destination::File, Destination::Absent]),
        2,
        &"0.2".to_string(),
    );
    assert!(plan.failure.is_none());
    assert_eq!(
        told(&plan.operations),
        vec![
            "dir out/run".to_string(),
            "append sim_sun.csv \"0.2,1000.0,1.0,-2.5,0.0,3e-7\\n\"".to_string(),
            "create sim_earth.csv \"Time,Mass,x,y,vx,vy\\n\"".to_string(),
            "append sim_earth.csv \"0.2,1.0,1.0,-2.5,0.0,3e-7\\n\"".to_string(),
        ]
    );
}

#[test]
fn histories_are_begun_anew_at_step_zero() {
    let config = export_config();
    let bodies = vec![body("sun", "1000.0"), body("earth", "1.0")];
    let plan = export_system_to_csv_by_body(
        &config,
        &histories(bodies.clone(), vec![Destination::File, Destination::File]),
        0,
        &"0.0".to_string(),
    );
    assert!(plan.failure.is_none());
    assert_eq!(
        told(&plan.operations),
        vec![
            "dir out/run".to_string(),
            "create sim_sun.csv \"Time,Mass,x,y,vx,vy\\n\"".to_string(),
            "append sim_sun.csv \"0.0,1000.0,1.0,-2.5,0.0,3e-7\\n\"".to_string(),
            "create sim_earth.csv \"Time,Mass,x,y,vx,vy\\n\"".to_string(),
            "append sim_earth.csv \"0.0,1.0,1.0,-2.5,0.0,3e-7\\n\"".to_string(),
        ]
    );
}

#[test]
fn a_history_that_is_not_a_file_stops_the_export_there() {
    let config = export_config();
    let bodies = vec![body("sun", "1000.0"), body("earth", "1.0"), body("moon", "0.01")];
    let plan = export_system_to_csv_by_body(
        &config,
        &histories(bodies.clone(), vec![Destination::Absent, Destination::Other, Destination::Absent]),
        2,
        &"0.2".to_string(),
    );
    assert_eq!(
        told(&plan.operations),
        vec![
            "dir out/run".to_string(),
            "create sim_sun.csv \"Time,Mass,x,y,vx,vy\\n\"".to_string(),
            "append sim_sun.csv \"0.2,1000.0,1.0,-2.5,0.0,3e-7\\n\"".to_string(),
        ]
    );
    match plan.failure {
        Some(ExportError::NotAFile { name }) => assert_eq!(name, "sim_earth.csv"),
        other => panic!("unexpected failure {:?}", other),
    }
}

#[test]
fn bodies_of_one_name_share_a_history() {
    let config = export_config();
    let bodies = vec![body("twin", "1.0"), body("twin", "2.0")];
    let later = export_system_to_csv_by_body(
        &config,
        &histories(bodies.clone(), vec![Destination::Absent, Destination::Absent]),
        2,
        &"0.2".to_string(),
    );
    assert!(later.failure.is_none());
    assert_eq!(
        told(&later.operations),
        vec![
            "dir out/run".to_string(),
            "create sim_twin.csv \"Time,Mass,x,y,vx,vy\\n\"".to_string(),
            "append sim_twin.csv \"0.2,1.0,1.0,-2.5,0.0,3e-7\\n\"".to_string(),
            "append sim_twin.csv \"0.2,2.0,1.0,-2.5,0.0,3e-7\\n\"".to_string(),
        ]
    );
    let fresh = export_system_to_csv_by_body(
        &config,
        &histories(bodies.clone(), vec![Destination::Other, Destination::Other]),
        0,
        &"0.0".to_string(),
    );
    assert_eq!(told(&fresh.operations), vec!["dir out/run".to_string()]);
    assert!(matches!(fresh.failure, Some(ExportError::NotAFile { .. })));
}

#[test]
fn a_history_line_never_spans_two_lines() {
    let config = export_config();
    let mut odd = body("odd", "1.0");
    odd.mass = "1\n0".to_string();
    let plan = export_system_to_csv_by_body(
        &config,
        &histories(vec![odd], vec![Destination::File]),
        2,
        &"0.2".to_string(),
    );
    assert!(plan.failure.is_none());
    assert_eq!(
        told(&plan.operations),
        vec![
            "dir out/run".to_string(),
            "append sim_odd.csv \"0.2,\\\"10\\\",1.0,-2.5,0.0,3e-7\\n\"".to_string(),
        ]
    );
}

#[test]
fn no_bodies_no_histories() {
    let config = export_config();
    let plan = export_system_to_csv_by_body(
        &config,
        &histories(Vec::new(), Vec::new()),
        0,
        &"0.0".to_string(),
    );
    assert!(plan.failure.is_none());
    assert_eq!(told(&plan.operations), vec!["dir out/run".to_string()]);
}

#[test]
fn logs_are_planned_from_lines() {
    let entries = vec![
        LogEntry {
            name: "a.csv".to_string(),
            destination: Destination::File,
            line: b"1\n".to_vec(),
        },
        LogEntry {
            name: "b.csv".to_string(),
            destination: Destination::Absent,
            line: b"2\n".to_vec(),
        },
    ];
    let plan = plan_append_logs(&"d".to_string(), &b"h\n".to_vec(), &entries, 3);
    assert!(plan.failure.is_none());
    assert_eq!(
        told(&plan.operations),
        vec![
            "dir d".to_string(),
            "append a.csv \"1\\n\"".to_string(),
            "create b.csv \"h\\n\"".to_string(),
            "append b.csv \"2\\n\"".to_string(),
        ]
    );
}

#[test]
fn a_snapshot_is_planned_from_records() {
    let plan = plan_snapshot(
        &"d".to_string(),
        "s_3.csv".to_string(),
        &b"h\n".to_vec(),
        &vec![b"1\n".to_vec(), Vec::new(), b"2\n".to_vec()],
    );
    assert!(plan.failure.is_none());
    assert_eq!(
        told(&plan.operations),
        vec!["dir d".to_string(), "create s_3.csv \"h\\n1\\n2\\n\"".to_string()]
    );
}

#[test]
fn every_record_is_serialized() {
    let config = export_config();
    let odd = [
        "",
        " ",
        ",",
        "\"",
        "\"\"",
        "a\nb",
        "a\r\nb",
        "\r",
        "\0",
        "\t",
        "#",
        "\\",
        "\u{e9}t\u{e9}",
        "\u{1f30d}",
        "-0.0",
        "NaN",
        "inf",
    ];
    for text in odd {
        let strange = Body {
            name: text.to_string(),
            mass: text.to_string(),
            x: text.to_string(),
            y: text.to_string(),
            vx: text.to_string(),
            vy: text.to_string(),
        };
        let snapshot = export_system_snapshot_to_csv(
            &config,
            &vec![strange.clone(), strange.clone()],
            3,
            &text.to_string(),
        );
        assert!(snapshot.failure.is_none());
        assert_eq!(snapshot.operations.len(), 2);
        let history = export_system_to_csv_by_body(
            &config,
            &histories(vec![strange.clone()], vec![Destination::Absent]),
            3,
            &text.to_string(),
        );
        assert!(history.failure.is_none());
        assert_eq!(history.operations.len(), 3);
        match &history.operations[2] {
            FileOp::Append { bytes, .. } => {
                assert_eq!(bytes.iter().filter(|b| **b == b'\n').count(), 1);
                assert_eq!(bytes.last(), Some(&b'\n'));
            }
            other => panic!("unexpected operation {:?}", other),
        }
        let values = SystemParameters {
            energy: text.to_string(),
            impulse_x: text.to_string(),
            impulse_y: text.to_string(),
            center_of_mass_x: text.to_string(),
            center_of_mass_y: text.to_string(),
        };
        let log = export_system_parameters_to_csv(
            &config,
            &values,
            3,
            &text.to_string(),
            Destination::File,
        );
        assert!(log.failure.is_none());
        assert_eq!(log.operations.len(), 2);
    }
}

#[test]
fn a_record_of_empty_fields_is_still_a_record() {
    let config = export_config();
    let empty = Body {
        name: String::new(),
        mass: String::new(),
        x: String::new(),
        y: String::new(),
        vx: String::new(),
        vy: String::new(),
    };
    let plan = export_system_snapshot_to_csv(&config, &vec![empty], 0, &String::new());
    assert!(plan.failure.is_none());
    assert_eq!(
        told(&plan.operations),
        vec![
            "dir out/run".to_string(),
            "create sim_0.csv \"Time,Name,Mass,x,y,vx,vy\\n,,,,,,\\n\"".to_string(),
        ]
    );
}
