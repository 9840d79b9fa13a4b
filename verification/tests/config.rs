use ash_voxels::config::{capture_delay_elapsed, parse_runtime_config, LaunchMode, RuntimeConfig};

fn args(values: &[&str]) -> Vec<String> {
    values.iter().map(|value| value.to_string()).collect()
}

#[test]
fn interactive_mode_is_default() {
    let config = parse_runtime_config(Vec::<String>::new()).expect("default launch config");

    assert_eq!(
        config,
        RuntimeConfig {
            launch_mode: LaunchMode::Interactive,
        }
    );
}

#[test]
fn headless_mode_accepts_path_and_delay() {
    let config = parse_runtime_config(args(&[
        "--headless-png",
        "capture.png",
        "--delay-ms",
        "1500",
    ]))
    .expect("headless launch config");

    assert_eq!(
        config,
        RuntimeConfig {
            launch_mode: LaunchMode::HeadlessCapture {
                output_path: "capture.png".to_string(),
                delay_ms: 1500,
            },
        }
    );
}

#[test]
fn headless_mode_requires_delay() {
    let error = parse_runtime_config(args(&["--headless-png", "capture.png"]))
        .expect_err("missing delay should error");

    assert!(error
        .to_string()
        .contains("--delay-ms is required when using --headless-png"));
}

#[test]
fn negative_delay_is_rejected() {
    let error = parse_runtime_config(args(&["--headless-png", "capture.png", "--delay-ms", "-1"]))
        .expect_err("negative delay should error");

    assert!(error.to_string().contains("invalid --delay-ms value"));
}

#[test]
fn invalid_delay_message_quotes_the_value() {
    let error = parse_runtime_config(args(&["--delay-ms", "-1"])).expect_err("invalid delay");
    assert_eq!(
        error.to_string(),
        "invalid --delay-ms value \"-1\"; expected a non-negative integer"
    );
}

#[test]
fn delay_without_path_is_rejected() {
    let error = parse_runtime_config(args(&["--delay-ms", "10"])).expect_err("no path");
    assert_eq!(
        error.to_string(),
        "--headless-png is required when using --delay-ms"
    );
}

#[test]
fn flag_without_value_is_rejected() {
    let error = parse_runtime_config(args(&["--headless-png"])).expect_err("no path value");
    assert_eq!(error.to_string(), "expected a file path after --headless-png");
    let error = parse_runtime_config(args(&["--headless-png", "a.png", "--delay-ms"]))
        .expect_err("no delay value");
    assert_eq!(
        error.to_string(),
        "expected a millisecond value after --delay-ms"
    );
}

#[test]
fn unknown_argument_is_rejected() {
    let error = parse_runtime_config(args(&["--fullscreen"])).expect_err("unknown argument");
    assert_eq!(
        error.to_string(),
        "unrecognized launch argument \"--fullscreen\""
    );
}

#[test]
fn later_options_replace_earlier_ones_in_either_order() {
    let config = parse_runtime_config(args(&[
        "--delay-ms",
        "+7",
        "--headless-png",
        "first.png",
        "--headless-png",
        "second.png",
    ]))
    .expect("headless launch config");
    assert_eq!(
        config.launch_mode,
        LaunchMode::HeadlessCapture {
            output_path: "second.png".to_string(),
            delay_ms: 7,
        }
    );
}

#[test]
fn delay_accepts_the_full_u64_range_and_no_more() {
    let config = parse_runtime_config(args(&[
        "--headless-png",
        "x.png",
        "--delay-ms",
        "18446744073709551615",
    ]))
    .expect("largest delay");
    assert_eq!(
        config.launch_mode,
        LaunchMode::HeadlessCapture {
            output_path: "x.png".to_string(),
            delay_ms: u64::MAX,
        }
    );
    let error = parse_runtime_config(args(&[
        "--headless-png",
        "x.png",
        "--delay-ms",
        "18446744073709551616",
    ]))
    .expect_err("delay overflow");
    assert!(error.to_string().contains("invalid --delay-ms value"));
}

#[test]
fn capture_runs_until_the_delay_has_passed() {
    assert!(!capture_delay_elapsed(999, 1000));
    assert!(capture_delay_elapsed(1000, 1000));
    assert!(capture_delay_elapsed(1001, 0));
}
