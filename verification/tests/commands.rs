use pam::cli::{required_positive, required_positive_u64, required_u64, required_utf8, Argument};
use pam::logs::{
    check_logs_options, log_file_indices, log_streams, parse_logs_arguments, select_log_entries, LogLine,
};
use pam::process_manager::LogStream;
use pam::up_command::{parse_up_arguments, validate_up_policies};

fn args(values: &[&str]) -> Vec<Argument> {
    values.iter().map(|value| Argument { text: (*value).to_owned(), utf8: true }).collect()
}

fn arg(value: &str) -> Argument {
    Argument { text: value.to_owned(), utf8: true }
}

#[test]
fn option_values_are_required_utf8_and_numeric() {
    assert_eq!(required_utf8(None, "--name").err().unwrap(), "--name requires a value");
    let broken = Argument { text: "\u{fffd}".to_owned(), utf8: false };
    assert_eq!(required_utf8(Some(&broken), "--name").err().unwrap(), "--name requires UTF-8");
    assert_eq!(required_utf8(Some(&arg("api")), "--name").unwrap(), "api");
    assert_eq!(required_positive(Some(&arg("+12")), "--workers").unwrap(), 12);
    assert_eq!(required_positive(Some(&arg("0")), "--workers").err().unwrap(), "--workers requires a positive integer");
    assert_eq!(required_positive(Some(&arg("-3")), "--workers").err().unwrap(), "--workers requires a positive integer");
    assert_eq!(required_positive_u64(Some(&arg("18446744073709551615")), "--x").unwrap(), u64::MAX);
    assert_eq!(
        required_positive_u64(Some(&arg("18446744073709551616")), "--x").err().unwrap(),
        "--x requires a positive integer"
    );
    assert_eq!(required_u64(Some(&arg("0")), "--start").unwrap(), 0);
    assert_eq!(required_u64(Some(&arg("soon")), "--start").err().unwrap(), "--start requires a non-negative integer");
}

#[test]
fn logs_options_are_read_in_order() {
    let options = parse_logs_arguments(&args(&["api", "--lines", "20", "--both", "--query", "GET /", "--include-rotated"])).unwrap();
    assert_eq!(options.name.as_deref(), Some("api"));
    assert_eq!(options.lines, 20);
    assert!(options.both && options.include_rotated && !options.errors && !options.follow);
    assert_eq!(options.query.as_deref(), Some("GET /"));
    let defaults = parse_logs_arguments(&args(&["-f", "api"])).unwrap();
    assert_eq!(defaults.lines, 100);
    assert!(defaults.follow);
    assert_eq!(parse_logs_arguments(&args(&[])).err().unwrap(), "logs requires an application name");
    assert_eq!(parse_logs_arguments(&args(&["api", "web"])).err().unwrap(), "logs accepts one application name");
    assert_eq!(parse_logs_arguments(&args(&["--tail"])).err().unwrap(), "unknown logs option: --tail");
    assert_eq!(parse_logs_arguments(&args(&["api", "--lines"])).err().unwrap(), "--lines requires a value");
    assert_eq!(
        parse_logs_arguments(&args(&["bad/name"])).err().unwrap(),
        "application name must contain 1-64 ASCII letters, digits, '.', '-' or '_'"
    );
}

#[test]
fn logs_option_combinations_are_checked() {
    let both = parse_logs_arguments(&args(&["api", "--errors", "--both"])).unwrap();
    assert_eq!(check_logs_options(&both).err().unwrap(), "logs accepts either --errors or --both, not both");
    let follow = parse_logs_arguments(&args(&["api", "--follow", "--json"])).unwrap();
    assert_eq!(
        check_logs_options(&follow).err().unwrap(),
        "logs --follow cannot be combined with structured query options"
    );
    let query = parse_logs_arguments(&args(&["api", "--query", ""])).unwrap();
    assert_eq!(check_logs_options(&query).err().unwrap(), "logs --query requires 1-256 characters without controls");
    let fine = parse_logs_arguments(&args(&["api", "--errors"])).unwrap();
    assert_eq!(check_logs_options(&fine), Ok(()));
    assert_eq!(log_streams(&fine), vec![LogStream::StandardError]);
    let plain = parse_logs_arguments(&args(&["api"])).unwrap();
    assert_eq!(log_streams(&plain), vec![LogStream::StandardOutput]);
    assert_eq!(log_file_indices(true, 3), vec![3, 2, 1, 0]);
    assert_eq!(log_file_indices(false, 3), vec![0]);
}

fn line(text: &str) -> LogLine {
    LogLine { stream: LogStream::StandardOutput, rotated_index: 0, line: text.to_owned() }
}

#[test]
fn log_queries_keep_the_newest_matching_lines() {
    let lines = vec![line("GET /a"), line("POST /b"), line("GET /c"), line("GET /d")];
    let (kept, truncated) = select_log_entries(lines, Some("GET"), 2);
    assert_eq!(kept.iter().map(|l| l.line.as_str()).collect::<Vec<_>>(), ["GET /c", "GET /d"]);
    assert!(truncated);
    let (all, cut) = select_log_entries(vec![line("a"), line("b")], None, 5);
    assert_eq!(all.len(), 2);
    assert!(!cut);
}

#[test]
fn up_options_cover_supervision_and_stop_at_the_separator() {
    let list = args(&[
        "server.php",
        "--name",
        "api",
        "--workers",
        "4",
        "--no-autorestart",
        "--health-check-failures",
        "5",
        "--memory-max-bytes",
        "1048576",
        "--",
        "--port",
        "8080",
    ]);
    let options = parse_up_arguments(&list).unwrap();
    assert_eq!(options.target, Some(0));
    assert_eq!(options.name.as_deref(), Some("api"));
    assert_eq!(options.workers, Some(4));
    assert!(!options.auto_restart);
    assert_eq!(options.health_check_failure_threshold, 5);
    assert_eq!(options.memory_max_bytes, Some(1_048_576));
    assert_eq!(options.passthrough_from, Some(11));
    assert_eq!(options.log_retain, 5);
    assert_eq!(options.restart_delay_millis, 250);
    assert_eq!(parse_up_arguments(&args(&["--log-retain", "101"])).err().unwrap(), "--log-retain cannot exceed 100");
    assert_eq!(
        parse_up_arguments(&args(&["--max-unstable-restarts", "4294967296"])).err().unwrap(),
        "--max-unstable-restarts is too large"
    );
    assert_eq!(parse_up_arguments(&args(&["--bogus"])).err().unwrap(), "unknown up option: --bogus");
    assert_eq!(
        parse_up_arguments(&args(&["a.php", "b.php"])).err().unwrap(),
        "pam up accepts at most one application target before `--`"
    );
}

#[test]
fn up_policies_are_checked_in_order() {
    let defaults = parse_up_arguments(&args(&[])).unwrap();
    assert_eq!(validate_up_policies(&defaults), Ok(()));
    let warning = parse_up_arguments(&args(&["--memory-warning-bytes", "10", "--memory-max-bytes", "5"])).unwrap();
    assert_eq!(validate_up_policies(&warning).err().unwrap(), "application warning cannot exceed its hard limit");
    let shutdown = parse_up_arguments(&args(&["--shutdown-timeout-ms", "50"])).unwrap();
    assert_eq!(
        validate_up_policies(&shutdown).err().unwrap(),
        "shutdown timeout must be between 100 and 300000 milliseconds"
    );
    let timing = parse_up_arguments(&args(&["--health-check-timeout-ms", "6000"])).unwrap();
    assert_eq!(
        validate_up_policies(&timing).err().unwrap(),
        "health check timeout must be 50-5000 milliseconds and less than the interval"
    );
}
