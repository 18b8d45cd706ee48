use kepler_sim::duration::format_time;

#[test]
pub fn correctly_formats_time() {
    assert_eq!("1.00days".to_string(), format_time(86_400));
    assert_eq!("24.00h".to_string(), format_time(86_399));
    assert_eq!("23.97h".to_string(), format_time(86_300));
    assert_eq!("6.00min".to_string(), format_time(360));
    assert_eq!("28.94days".to_string(), format_time(2_500_000));
    assert_eq!("1.00months".to_string(), format_time(2_592_000));
    assert_eq!(
        "15.50y".to_string(),
        format_time((31_104_000.0 * 15.5) as u64)
    );
    assert_eq!("39.69y".to_string(), format_time(1_234_567_890));
}

/// The text that floating-point division and formatting with a precision of
/// two give. Below a minute the whole number is formatted, and a precision
/// has no effect on a whole number.
fn with_doubles(time: u64) -> String {
    if time < 60 {
        format!("{:.2}s", time)
    } else if time < 3_600 {
        format!("{:.2}min", time as f64 / 60.0)
    } else if time < 86_400 {
        format!("{:.2}h", time as f64 / 3_600.0)
    } else if time < 2_592_000 {
        format!("{:.2}days", time as f64 / 86_400.0)
    } else if time < 31_104_000 {
        format!("{:.2}months", time as f64 / 2_592_000.0)
    } else {
        format!("{:.2}y", time as f64 / 31_104_000.0)
    }
}

#[test]
fn seconds_are_whole_numbers() {
    assert_eq!(format_time(0), "0s");
    assert_eq!(format_time(15), "15s");
    assert_eq!(format_time(59), "59s");
}

#[test]
fn each_unit_starts_at_its_own_length() {
    assert_eq!(format_time(60), "1.00min");
    assert_eq!(format_time(3_599), "59.98min");
    assert_eq!(format_time(3_600), "1.00h");
    assert_eq!(format_time(86_400), "1.00days");
    assert_eq!(format_time(2_591_999), "30.00days");
    assert_eq!(format_time(2_592_000), "1.00months");
    assert_eq!(format_time(31_103_999), "12.00months");
    assert_eq!(format_time(31_104_000), "1.00y");
    assert_eq!(format_time(31_104_001), "1.00y");
}

#[test]
fn halfway_cases_follow_the_double() {
    // 1.005 h, 1.015 h, 1.125 h and 1.135 h: exact ties between hundredths.
    assert_eq!(format_time(3_618), "1.00h");
    assert_eq!(format_time(3_654), "1.01h");
    assert_eq!(format_time(4_050), "1.12h");
    assert_eq!(format_time(4_086), "1.14h");
    for time in [3_618u64, 3_654, 4_050, 4_086, 4_122] {
        assert_eq!(format_time(time), with_doubles(time));
    }
}

#[test]
fn agrees_with_doubles_on_every_short_duration() {
    let mut time: u64 = 0;
    while time < 400_000 {
        assert_eq!(format_time(time), with_doubles(time), "at {}", time);
        time += 1;
    }
}

#[test]
fn agrees_with_doubles_on_long_durations() {
    // A multiplicative walk through the durations up to 2^46 seconds.
    let mut time: u64 = 400_000;
    while time < (1u64 << 46) {
        for delta in 0..40u64 {
            let t = time + delta * 12_960;
            assert_eq!(format_time(t), with_doubles(t), "at {}", t);
        }
        time = time + time / 7 + 1;
    }
}

#[test]
fn the_largest_duration_is_written_in_years() {
    // (2^64 - 1) / 31 104 000 = 593066617596.1147...
    assert_eq!(format_time(u64::MAX), "593066617596.11y");
}
