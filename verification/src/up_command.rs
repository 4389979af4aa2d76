//! The `up` command: the options it reads and the policies they must meet
//! before an application is started.

use vstd::prelude::*;
use crate::cli::{Argument, value_text, number_value, needs_positive, needs_non_negative, required_utf8,
    required_positive, required_positive_u64, required_u64};
use crate::text::{str_eq, concat_str};
use crate::process_manager::{DEFAULT_LOG_MAX_BYTES, DEFAULT_LOG_RETAIN, DEFAULT_SHUTDOWN_TIMEOUT_MILLIS,
    DEFAULT_HEALTH_INTERVAL_MILLIS, DEFAULT_HEALTH_TIMEOUT_MILLIS, DEFAULT_HEALTH_FAILURE_THRESHOLD,
    DEFAULT_RESTART_DELAY_MILLIS, DEFAULT_RESTART_BACKOFF_MAX_MILLIS, DEFAULT_MAX_UNSTABLE_RESTARTS,
    DEFAULT_MIN_UPTIME_MILLIS, is_zero, exceeds, valid_shutdown_timeout, recovery_policy_violation,
    health_timing_violation, validate_resource_policy, validate_shutdown_policy, validate_recovery_policy,
    validate_health_timing, ApplicationRecord, ApplicationKind, ApplicationState, RecoveryState, recovery_code,
    initial_health, initial_health_state};

verus! {

/// The largest number of rotated log files kept per stream.
pub const MAX_LOG_RETAIN: usize = 100;

/// The options of the `up` command. `target` and `passthrough_from` are
/// positions in the argument list: the application target, and where the
/// arguments handed to the application begin.
pub struct UpOptions {
    pub name: Option<String>,
    pub target: Option<usize>,
    pub workers: Option<usize>,
    pub attach: bool,
    pub json: bool,
    pub log_max_bytes: u64,
    pub log_retain: usize,
    pub memory_warning_bytes: Option<u64>,
    pub task_warning_count: Option<u64>,
    pub memory_max_bytes: Option<u64>,
    pub task_max_count: Option<u64>,
    pub environment_file: Option<String>,
    pub shutdown_timeout_millis: u64,
    pub health_check_url: Option<String>,
    pub health_check_interval_millis: u64,
    pub health_check_timeout_millis: u64,
    pub health_check_start_period_millis: u64,
    pub health_check_failure_threshold: u32,
    pub auto_restart: bool,
    pub restart_delay_millis: u64,
    pub restart_backoff_max_millis: u64,
    pub max_unstable_restarts: u32,
    pub min_uptime_millis: u64,
    pub passthrough_from: Option<usize>,
}

/// The options before any argument is read.
pub open spec fn up_defaults() -> UpOptions {
    UpOptions {
        name: None,
        target: None,
        workers: None,
        attach: false,
        json: false,
        log_max_bytes: DEFAULT_LOG_MAX_BYTES,
        log_retain: DEFAULT_LOG_RETAIN,
        memory_warning_bytes: None,
        task_warning_count: None,
        memory_max_bytes: None,
        task_max_count: None,
        environment_file: None,
        shutdown_timeout_millis: DEFAULT_SHUTDOWN_TIMEOUT_MILLIS,
        health_check_url: None,
        health_check_interval_millis: DEFAULT_HEALTH_INTERVAL_MILLIS,
        health_check_timeout_millis: DEFAULT_HEALTH_TIMEOUT_MILLIS,
        health_check_start_period_millis: 0,
        health_check_failure_threshold: DEFAULT_HEALTH_FAILURE_THRESHOLD,
        auto_restart: true,
        restart_delay_millis: DEFAULT_RESTART_DELAY_MILLIS,
        restart_backoff_max_millis: DEFAULT_RESTART_BACKOFF_MAX_MILLIS,
        max_unstable_restarts: DEFAULT_MAX_UNSTABLE_RESTARTS,
        min_uptime_millis: DEFAULT_MIN_UPTIME_MILLIS,
        passthrough_from: None,
    }
}

/// A positive `u64` option value.
pub open spec fn positive_u64(v: Option<&Argument>, option: Seq<char>) -> Result<int, Seq<char>> {
    number_value(v, option, u64::MAX as int, true, needs_positive())
}

/// A positive `usize` option value.
pub open spec fn positive_usize(v: Option<&Argument>, option: Seq<char>) -> Result<int, Seq<char>> {
    number_value(v, option, usize::MAX as int, true, needs_positive())
}

/// A positive count that must also fit in a `u32`.
pub open spec fn positive_count(v: Option<&Argument>, option: Seq<char>) -> Result<int, Seq<char>> {
    match positive_usize(v, option) {
        Err(e) => Err(e),
        Ok(n) => if n <= u32::MAX {
            Ok(n)
        } else {
            Err(option + " is too large"@)
        },
    }
}

/// The options after reading `args[i..]` on top of `st`.
pub open spec fn up_parse(args: Seq<Argument>, i: int, st: UpOptions) -> Result<UpOptions, Seq<char>>
    decreases args.len() - i,
{
    if i < 0 || i >= args.len() {
        Ok(st)
    } else {
        let w = args[i].text@;
        let v = if i + 1 < args.len() {
            Some(&args[i + 1])
        } else {
            None
        };
        if w == "--name"@ {
            match value_text(v, w) {
                Err(e) => Err(e),
                Ok(_) => up_parse(args, i + 2, UpOptions { name: Some(args[i + 1].text), ..st }),
            }
        } else if w == "--workers"@ {
            match positive_usize(v, w) {
                Err(e) => Err(e),
                Ok(n) => up_parse(args, i + 2, UpOptions { workers: Some(n as usize), ..st }),
            }
        } else if w == "--attach"@ {
            up_parse(args, i + 1, UpOptions { attach: true, ..st })
        } else if w == "--json"@ {
            up_parse(args, i + 1, UpOptions { json: true, ..st })
        } else if w == "--no-autorestart"@ {
            up_parse(args, i + 1, UpOptions { auto_restart: false, ..st })
        } else if w == "--env-file"@ {
            match value_text(v, w) {
                Err(e) => Err(e),
                Ok(_) => up_parse(args, i + 2, UpOptions { environment_file: Some(args[i + 1].text), ..st }),
            }
        } else if w == "--shutdown-timeout-ms"@ {
            match positive_u64(v, w) {
                Err(e) => Err(e),
                Ok(n) => up_parse(args, i + 2, UpOptions { shutdown_timeout_millis: n as u64, ..st }),
            }
        } else if w == "--health-check-url"@ {
            match value_text(v, w) {
                Err(e) => Err(e),
                Ok(_) => up_parse(args, i + 2, UpOptions { health_check_url: Some(args[i + 1].text), ..st }),
            }
        } else if w == "--health-check-interval-ms"@ {
            match positive_u64(v, w) {
                Err(e) => Err(e),
                Ok(n) => up_parse(args, i + 2, UpOptions { health_check_interval_millis: n as u64, ..st }),
            }
        } else if w == "--health-check-timeout-ms"@ {
            match positive_u64(v, w) {
                Err(e) => Err(e),
                Ok(n) => up_parse(args, i + 2, UpOptions { health_check_timeout_millis: n as u64, ..st }),
            }
        } else if w == "--health-check-start-period-ms"@ {
            match number_value(v, w, u64::MAX as int, false, needs_non_negative()) {
                Err(e) => Err(e),
                Ok(n) => up_parse(args, i + 2, UpOptions { health_check_start_period_millis: n as u64, ..st }),
            }
        } else if w == "--health-check-failures"@ {
            match positive_count(v, w) {
                Err(e) => Err(e),
                Ok(n) => up_parse(args, i + 2, UpOptions { health_check_failure_threshold: n as u32, ..st }),
            }
        } else if w == "--restart-delay-ms"@ {
            match positive_u64(v, w) {
                Err(e) => Err(e),
                Ok(n) => up_parse(args, i + 2, UpOptions { restart_delay_millis: n as u64, ..st }),
            }
        } else if w == "--restart-backoff-max-ms"@ {
            match positive_u64(v, w) {
                Err(e) => Err(e),
                Ok(n) => up_parse(args, i + 2, UpOptions { restart_backoff_max_millis: n as u64, ..st }),
            }
        } else if w == "--max-unstable-restarts"@ {
            match positive_count(v, w) {
                Err(e) => Err(e),
                Ok(n) => up_parse(args, i + 2, UpOptions { max_unstable_restarts: n as u32, ..st }),
            }
        } else if w == "--min-uptime-ms"@ {
            match positive_u64(v, w) {
                Err(e) => Err(e),
                Ok(n) => up_parse(args, i + 2, UpOptions { min_uptime_millis: n as u64, ..st }),
            }
        } else if w == "--log-max-bytes"@ {
            match positive_u64(v, w) {
                Err(e) => Err(e),
                Ok(n) => up_parse(args, i + 2, UpOptions { log_max_bytes: n as u64, ..st }),
            }
        } else if w == "--log-retain"@ {
            match positive_usize(v, w) {
                Err(e) => Err(e),
                Ok(n) => if n > MAX_LOG_RETAIN {
                    Err("--log-retain cannot exceed 100"@)
                } else {
                    up_parse(args, i + 2, UpOptions { log_retain: n as usize, ..st })
                },
            }
        } else if w == "--memory-warning-bytes"@ {
            match positive_u64(v, w) {
                Err(e) => Err(e),
                Ok(n) => up_parse(args, i + 2, UpOptions { memory_warning_bytes: Some(n as u64), ..st }),
            }
        } else if w == "--task-warning-count"@ {
            match positive_u64(v, w) {
                Err(e) => Err(e),
                Ok(n) => up_parse(args, i + 2, UpOptions { task_warning_count: Some(n as u64), ..st }),
            }
        } else if w == "--memory-max-bytes"@ {
            match positive_u64(v, w) {
                Err(e) => Err(e),
                Ok(n) => up_parse(args, i + 2, UpOptions { memory_max_bytes: Some(n as u64), ..st }),
            }
        } else if w == "--task-max-count"@ {
            match positive_u64(v, w) {
                Err(e) => Err(e),
                Ok(n) => up_parse(args, i + 2, UpOptions { task_max_count: Some(n as u64), ..st }),
            }
        } else if w == "--"@ {
            Ok(UpOptions { passthrough_from: Some((i + 1) as usize), ..st })
        } else if w.len() > 0 && w[0] == '-' {
            Err("unknown up option: "@ + w)
        } else if st.target is None {
            up_parse(args, i + 1, UpOptions { target: Some(i as usize), ..st })
        } else {
            Err("pam up accepts at most one application target before `--`"@)
        }
    }
}

fn positive_count_value(v: Option<&Argument>, option: &str) -> (r: Result<u32, String>)
    ensures
        match (r, positive_count(v, option@)) {
            (Ok(n), Ok(m)) => n == m,
            (Err(e), Err(m)) => e@ == m,
            _ => false,
        },
{
    match required_positive(v, option) {
        Err(e) => Err(e),
        Ok(n) => {
            if n as u64 <= u32::MAX as u64 {
                Ok(n as u32)
            } else {
                Err(concat_str(option, " is too large"))
            }
        },
    }
}

/// Reads the arguments of the `up` command, up to `--`.
pub fn parse_up_arguments(args: &Vec<Argument>) -> (r: Result<UpOptions, String>)
    ensures
        match (r, up_parse(args@, 0, up_defaults())) {
            (Ok(o), Ok(s)) => o == s,
            (Err(e), Err(m)) => e@ == m,
            _ => false,
        },
{
    let mut st = UpOptions {
        name: None,
        target: None,
        workers: None,
        attach: false,
        json: false,
        log_max_bytes: DEFAULT_LOG_MAX_BYTES,
        log_retain: DEFAULT_LOG_RETAIN,
        memory_warning_bytes: None,
        task_warning_count: None,
        memory_max_bytes: None,
        task_max_count: None,
        environment_file: None,
        shutdown_timeout_millis: DEFAULT_SHUTDOWN_TIMEOUT_MILLIS,
        health_check_url: None,
        health_check_interval_millis: DEFAULT_HEALTH_INTERVAL_MILLIS,
        health_check_timeout_millis: DEFAULT_HEALTH_TIMEOUT_MILLIS,
        health_check_start_period_millis: 0,
        health_check_failure_threshold: DEFAULT_HEALTH_FAILURE_THRESHOLD,
        auto_restart: true,
        restart_delay_millis: DEFAULT_RESTART_DELAY_MILLIS,
        restart_backoff_max_millis: DEFAULT_RESTART_BACKOFF_MAX_MILLIS,
        max_unstable_restarts: DEFAULT_MAX_UNSTABLE_RESTARTS,
        min_uptime_millis: DEFAULT_MIN_UPTIME_MILLIS,
        passthrough_from: None,
    };
    let n = args.len();
    let mut i: usize = 0;
    while i < n
        invariant
            n == args@.len(),
            i <= n + 1,
            up_parse(args@, 0, up_defaults()) == up_parse(args@, i as int, st),
        decreases n + 1 - i,
    {
        let w = args[i].text.as_str();
        let v = if i + 1 < n {
            Some(&args[i + 1])
        } else {
            None
        };
        if str_eq(w, "--name") {
            match required_utf8(v, w) {
                Err(e) => {
                    return Err(e);
                },
                Ok(_) => {
                    st.name = Some(args[i + 1].text.clone());
                    i = i + 2;
                },
            }
        } else if str_eq(w, "--workers") {
            match required_positive(v, w) {
                Err(e) => {
                    return Err(e);
                },
                Ok(k) => {
                    st.workers = Some(k);
                    i = i + 2;
                },
            }
        } else if str_eq(w, "--attach") {
            st.attach = true;
            i = i + 1;
        } else if str_eq(w, "--json") {
            st.json = true;
            i = i + 1;
        } else if str_eq(w, "--no-autorestart") {
            st.auto_restart = false;
            i = i + 1;
        } else if str_eq(w, "--env-file") {
            match required_utf8(v, w) {
                Err(e) => {
                    return Err(e);
                },
                Ok(_) => {
                    st.environment_file = Some(args[i + 1].text.clone());
                    i = i + 2;
                },
            }
        } else if str_eq(w, "--shutdown-timeout-ms") {
            match required_positive_u64(v, w) {
                Err(e) => {
                    return Err(e);
                },
                Ok(k) => {
                    st.shutdown_timeout_millis = k;
                    i = i + 2;
                },
            }
        } else if str_eq(w, "--health-check-url") {
            match required_utf8(v, w) {
                Err(e) => {
                    return Err(e);
                },
                Ok(_) => {
                    st.health_check_url = Some(args[i + 1].text.clone());
                    i = i + 2;
                },
            }
        } else if str_eq(w, "--health-check-interval-ms") {
            match required_positive_u64(v, w) {
                Err(e) => {
                    return Err(e);
                },
                Ok(k) => {
                    st.health_check_interval_millis = k;
                    i = i + 2;
                },
            }
        } else if str_eq(w, "--health-check-timeout-ms") {
            match required_positive_u64(v, w) {
                Err(e) => {
                    return Err(e);
                },
                Ok(k) => {
                    st.health_check_timeout_millis = k;
                    i = i + 2;
                },
            }
        } else if str_eq(w, "--health-check-start-period-ms") {
            match required_u64(v, w) {
                Err(e) => {
                    return Err(e);
                },
                Ok(k) => {
                    st.health_check_start_period_millis = k;
                    i = i + 2;
                },
            }
        } else if str_eq(w, "--health-check-failures") {
            match positive_count_value(v, w) {
                Err(e) => {
                    return Err(e);
                },
                Ok(k) => {
                    st.health_check_failure_threshold = k;
                    i = i + 2;
                },
            }
        } else if str_eq(w, "--restart-delay-ms") {
            match required_positive_u64(v, w) {
                Err(e) => {
                    return Err(e);
                },
                Ok(k) => {
                    st.restart_delay_millis = k;
                    i = i + 2;
                },
            }
        } else if str_eq(w, "--restart-backoff-max-ms") {
            match required_positive_u64(v, w) {
                Err(e) => {
                    return Err(e);
                },
                Ok(k) => {
                    st.restart_backoff_max_millis = k;
                    i = i + 2;
                },
            }
        } else if str_eq(w, "--max-unstable-restarts") {
            match positive_count_value(v, w) {
                Err(e) => {
                    return Err(e);
                },
                Ok(k) => {
                    st.max_unstable_restarts = k;
                    i = i + 2;
                },
            }
        } else if str_eq(w, "--min-uptime-ms") {
            match required_positive_u64(v, w) {
                Err(e) => {
                    return Err(e);
                },
                Ok(k) => {
                    st.min_uptime_millis = k;
                    i = i + 2;
                },
            }
        } else if str_eq(w, "--log-max-bytes") {
            match required_positive_u64(v, w) {
                Err(e) => {
                    return Err(e);
                },
                Ok(k) => {
                    st.log_max_bytes = k;
                    i = i + 2;
                },
            }
        } else if str_eq(w, "--log-retain") {
            match required_positive(v, w) {
                Err(e) => {
                    return Err(e);
                },
                Ok(k) => {
                    if k > MAX_LOG_RETAIN {
                        return Err(String::from_str("--log-retain cannot exceed 100"));
                    }
                    st.log_retain = k;
                    i = i + 2;
                },
            }
        } else if str_eq(w, "--memory-warning-bytes") {
            match required_positive_u64(v, w) {
                Err(e) => {
                    return Err(e);
                },
                Ok(k) => {
                    st.memory_warning_bytes = Some(k);
                    i = i + 2;
                },
            }
        } else if str_eq(w, "--task-warning-count") {
            match required_positive_u64(v, w) {
                Err(e) => {
                    return Err(e);
                },
                Ok(k) => {
                    st.task_warning_count = Some(k);
                    i = i + 2;
                },
            }
        } else if str_eq(w, "--memory-max-bytes") {
            match required_positive_u64(v, w) {
                Err(e) => {
                    return Err(e);
                },
                Ok(k) => {
                    st.memory_max_bytes = Some(k);
                    i = i + 2;
                },
            }
        } else if str_eq(w, "--task-max-count") {
            match required_positive_u64(v, w) {
                Err(e) => {
                    return Err(e);
                },
                Ok(k) => {
                    st.task_max_count = Some(k);
                    i = i + 2;
                },
            }
        } else if str_eq(w, "--") {
            st.passthrough_from = Some(i + 1);
            return Ok(st);
        } else if w.unicode_len() > 0 && w.get_char(0) == '-' {
            return Err(concat_str("unknown up option: ", w));
        } else if st.target.is_none() {
            st.target = Some(i);
            i = i + 1;
        } else {
            return Err(String::from_str("pam up accepts at most one application target before `--`"));
        }
    }
    Ok(st)
}

/// What is wrong with the resource, shutdown, recovery and health timing
/// policies of `up`, in the order they are checked, if anything.
pub open spec fn up_policy_error(o: UpOptions) -> Option<Seq<char>> {
    let zero = is_zero(o.memory_warning_bytes) || is_zero(o.task_warning_count) || is_zero(o.memory_max_bytes)
        || is_zero(o.task_max_count);
    let over = exceeds(o.memory_warning_bytes, o.memory_max_bytes) || exceeds(o.task_warning_count, o.task_max_count);
    let recovery = recovery_policy_violation(o.restart_delay_millis, o.restart_backoff_max_millis, o.max_unstable_restarts, o.min_uptime_millis);
    let timing = health_timing_violation(o.health_check_interval_millis, o.health_check_timeout_millis, o.health_check_failure_threshold);
    if zero {
        Some("application resource thresholds must be positive"@)
    } else if over {
        Some("application warning cannot exceed its hard limit"@)
    } else if !valid_shutdown_timeout(o.shutdown_timeout_millis) {
        Some("shutdown timeout must be between 100 and 300000 milliseconds"@)
    } else if recovery != 0 {
        Some(match recovery {
            1 => "restart delay must be 10-60000 milliseconds"@,
            2 => "restart backoff maximum must be at least the delay and at most 300000 milliseconds"@,
            3 => "maximum unstable restarts must be 1-100"@,
            _ => "minimum stable uptime must be 1000-3600000 milliseconds"@,
        })
    } else if timing != 0 {
        Some(match timing {
            1 => "health check interval must be 250-3600000 milliseconds"@,
            2 => "health check timeout must be 50-5000 milliseconds and less than the interval"@,
            _ => "health check failure threshold must be 1-100"@,
        })
    } else {
        None
    }
}

/// Checks the policies that `up` validates before it resolves a health check
/// URL: resource thresholds, shutdown timeout, recovery, health timing.
pub fn validate_up_policies(o: &UpOptions) -> (r: Result<(), String>)
    ensures
        match r {
            Ok(()) => up_policy_error(*o) is None,
            Err(e) => up_policy_error(*o) == Some(e@),
        },
{
    proof {
        reveal_strlit("application");
        reveal_strlit(" resource thresholds must be positive");
        reveal_strlit(" warning cannot exceed its hard limit");
        reveal_strlit("application resource thresholds must be positive");
        reveal_strlit("application warning cannot exceed its hard limit");
    }
    if let Err(e) = validate_resource_policy(o.memory_warning_bytes, o.task_warning_count, o.memory_max_bytes, o.task_max_count, "application") {
        return Err(e);
    }
    if let Err(e) = validate_shutdown_policy(o.shutdown_timeout_millis) {
        return Err(e);
    }
    if let Err(e) = validate_recovery_policy(o.restart_delay_millis, o.restart_backoff_max_millis, o.max_unstable_restarts, o.min_uptime_millis) {
        return Err(e);
    }
    validate_health_timing(o.health_check_interval_millis, o.health_check_timeout_millis, o.health_check_failure_threshold)
}

/// Where a new application's files live and how it was launched.
pub struct LaunchFacts {
    pub name: String,
    pub laravel: bool,
    pub working_directory: String,
    pub command: Vec<String>,
    pub master_state_file: String,
    pub stdout_log: String,
    pub stderr_log: String,
    pub environment_file: Option<String>,
    pub health_check: Option<(String, String)>,
    pub now_millis: u64,
}

/// The record `up` writes for an application that became ready: the options
/// it was started with, fresh health and recovery bookkeeping, and the
/// desired state online.
pub fn new_application_record(o: &UpOptions, facts: LaunchFacts) -> (r: ApplicationRecord)
    ensures
        r.schema_version == 2,
        r.name == facts.name,
        r.kind_code == (if facts.laravel { 2u8 } else { 1u8 }),
        r.working_directory == facts.working_directory,
        r.command == facts.command,
        r.master_state_file == facts.master_state_file,
        r.stdout_log == facts.stdout_log,
        r.stderr_log == facts.stderr_log,
        r.log_max_bytes == o.log_max_bytes,
        r.log_retain == o.log_retain,
        r.memory_warning_bytes == o.memory_warning_bytes,
        r.task_warning_count == o.task_warning_count,
        r.memory_max_bytes == o.memory_max_bytes,
        r.task_max_count == o.task_max_count,
        r.environment_file == facts.environment_file,
        r.shutdown_timeout_millis == o.shutdown_timeout_millis,
        r.health_check_address == (match facts.health_check {
            Some(h) => Some(h.0),
            None => None,
        }),
        r.health_check_path == (match facts.health_check {
            Some(h) => Some(h.1),
            None => None,
        }),
        r.health_check_interval_millis == o.health_check_interval_millis,
        r.health_check_timeout_millis == o.health_check_timeout_millis,
        r.health_check_start_period_millis == o.health_check_start_period_millis,
        r.health_check_failure_threshold == o.health_check_failure_threshold,
        r.consecutive_health_failures == 0,
        r.last_health_check_at_millis is None,
        r.last_health_success_at_millis is None,
        r.health_state_code == initial_health(o.health_check_url is Some, o.health_check_start_period_millis),
        r.total_unhealthy_restart_count == 0,
        r.desired_state_code == 1,
        r.auto_restart == o.auto_restart,
        r.restart_delay_millis == o.restart_delay_millis,
        r.restart_backoff_max_millis == o.restart_backoff_max_millis,
        r.max_unstable_restarts == o.max_unstable_restarts,
        r.min_uptime_millis == o.min_uptime_millis,
        r.unstable_restart_count == 0,
        r.total_auto_restart_count == 0,
        r.next_restart_at_millis is None,
        r.recovery_state_code == (if o.auto_restart {
            recovery_code(RecoveryState::Healthy)
        } else {
            recovery_code(RecoveryState::Disabled)
        }),
        r.created_at_millis == facts.now_millis,
{
    let kind = if facts.laravel {
        ApplicationKind::LaravelOctane.code()
    } else {
        ApplicationKind::Runtime.code()
    };
    let recovery = if o.auto_restart {
        RecoveryState::Healthy.code()
    } else {
        RecoveryState::Disabled.code()
    };
    let (address, path) = match facts.health_check {
        Some((a, p)) => (Some(a), Some(p)),
        None => (None, None),
    };
    ApplicationRecord {
        schema_version: 2,
        name: facts.name,
        kind_code: kind,
        working_directory: facts.working_directory,
        command: facts.command,
        master_state_file: facts.master_state_file,
        stdout_log: facts.stdout_log,
        stderr_log: facts.stderr_log,
        log_max_bytes: o.log_max_bytes,
        log_retain: o.log_retain,
        memory_warning_bytes: o.memory_warning_bytes,
        task_warning_count: o.task_warning_count,
        memory_max_bytes: o.memory_max_bytes,
        task_max_count: o.task_max_count,
        environment_file: facts.environment_file,
        shutdown_timeout_millis: o.shutdown_timeout_millis,
        health_check_address: address,
        health_check_path: path,
        health_check_interval_millis: o.health_check_interval_millis,
        health_check_timeout_millis: o.health_check_timeout_millis,
        health_check_start_period_millis: o.health_check_start_period_millis,
        health_check_failure_threshold: o.health_check_failure_threshold,
        consecutive_health_failures: 0,
        last_health_check_at_millis: None,
        last_health_success_at_millis: None,
        health_state_code: initial_health_state(o.health_check_url.is_some(), o.health_check_start_period_millis),
        total_unhealthy_restart_count: 0,
        desired_state_code: ApplicationState::Online.code(),
        auto_restart: o.auto_restart,
        restart_delay_millis: o.restart_delay_millis,
        restart_backoff_max_millis: o.restart_backoff_max_millis,
        max_unstable_restarts: o.max_unstable_restarts,
        min_uptime_millis: o.min_uptime_millis,
        unstable_restart_count: 0,
        total_auto_restart_count: 0,
        next_restart_at_millis: None,
        recovery_state_code: recovery,
        created_at_millis: facts.now_millis,
    }
}

/// An argument of the supervisor `up` launches: a text of its own, or the
/// argument at a position of the `up` argument list, handed on as given.
#[derive(Clone, Debug, PartialEq, Eq)]
pub enum LaunchArgument {
    Text(String),
    Given(usize),
}

pub open spec fn launch_view(a: LaunchArgument) -> (bool, Seq<char>, int) {
    match a {
        LaunchArgument::Text(s) => (true, s@, 0),
        LaunchArgument::Given(i) => (false, Seq::empty(), i as int),
    }
}

pub open spec fn text_argument(s: Seq<char>) -> (bool, Seq<char>, int) {
    (true, s, 0)
}

pub open spec fn given_argument(i: int) -> (bool, Seq<char>, int) {
    (false, Seq::empty(), i)
}

/// Whether `up` starts a Laravel Octane server: the directory has an
/// `artisan` file and no target was given.
pub open spec fn starts_laravel(o: UpOptions, artisan: bool) -> bool {
    artisan && o.target is None
}

/// The arguments handed on to the application: those after `--`.
pub open spec fn passthrough(o: UpOptions, args_len: int) -> Seq<(bool, Seq<char>, int)> {
    match o.passthrough_from {
        Some(k) => if k < args_len {
            seq![text_argument("--"@)] + Seq::new((args_len - k) as nat, |j: int| given_argument(k + j))
        } else {
            Seq::empty()
        },
        None => Seq::empty(),
    }
}

/// The arguments `up` launches the supervisor with: `octane:start` for a
/// Laravel application, else `start`, the target (`index.php` by default)
/// and the state file; then the worker count where one was given, then `--`
/// and the application's own arguments where there are any.
pub open spec fn launch_plan(o: UpOptions, args_len: int, artisan: bool, state_file: Seq<char>) -> Seq<(bool, Seq<char>, int)> {
    let head = if starts_laravel(o, artisan) {
        seq![text_argument("octane:start"@)]
    } else {
        seq![
            text_argument("start"@),
            match o.target {
                Some(i) => given_argument(i as int),
                None => text_argument("index.php"@),
            },
            text_argument("--state-file"@),
            text_argument(state_file),
        ]
    };
    let workers = match o.workers {
        Some(w) => seq![text_argument("--workers"@), text_argument(crate::text::decimal_text(w as nat))],
        None => Seq::empty(),
    };
    head + workers + passthrough(o, args_len)
}

/// The supervisor's arguments for an `up` whose argument list has
/// `args_len` entries, given whether the directory has an `artisan` file and
/// the state file the supervisor is to write.
pub fn launch_arguments(o: &UpOptions, args_len: usize, artisan: bool, state_file: &str) -> (r: Vec<LaunchArgument>)
    ensures
        r@.map_values(|a: LaunchArgument| launch_view(a)) == launch_plan(*o, args_len as int, artisan, state_file@),
{
    let mut out: Vec<LaunchArgument> = Vec::new();
    if artisan && o.target.is_none() {
        out.push(LaunchArgument::Text(String::from_str("octane:start")));
    } else {
        out.push(LaunchArgument::Text(String::from_str("start")));
        match o.target {
            Some(i) => out.push(LaunchArgument::Given(i)),
            None => out.push(LaunchArgument::Text(String::from_str("index.php"))),
        }
        out.push(LaunchArgument::Text(String::from_str("--state-file")));
        out.push(LaunchArgument::Text(String::from_str(state_file)));
    }
    if let Some(w) = o.workers {
        out.push(LaunchArgument::Text(String::from_str("--workers")));
        let mut count = String::new();
        crate::text::push_decimal_text(&mut count, w as u64);
        assert(count@ =~= crate::text::decimal_text(w as nat));
        out.push(LaunchArgument::Text(count));
    }
    let ghost before = out@.map_values(|a: LaunchArgument| launch_view(a));
    proof {
        let o_ = *o;
        let head = if starts_laravel(o_, artisan) {
            seq![text_argument("octane:start"@)]
        } else {
            seq![
                text_argument("start"@),
                match o_.target {
                    Some(i) => given_argument(i as int),
                    None => text_argument("index.php"@),
                },
                text_argument("--state-file"@),
                text_argument(state_file@),
            ]
        };
        let workers = match o_.workers {
            Some(w) => seq![text_argument("--workers"@), text_argument(crate::text::decimal_text(w as nat))],
            None => Seq::<(bool, Seq<char>, int)>::empty(),
        };
        assert(before =~= head + workers);
    }
    if let Some(k) = o.passthrough_from {
        if k < args_len {
            out.push(LaunchArgument::Text(String::from_str("--")));
            let mut j = k;
            while j < args_len
                invariant
                    k <= j <= args_len,
                    out@.map_values(|a: LaunchArgument| launch_view(a)) == before + seq![text_argument("--"@)]
                        + Seq::new((j - k) as nat, |m: int| given_argument(k + m)),
                decreases args_len - j,
            {
                let ghost prev = out@.map_values(|a: LaunchArgument| launch_view(a));
                out.push(LaunchArgument::Given(j));
                assert(out@.map_values(|a: LaunchArgument| launch_view(a)) =~= prev.push(given_argument(j as int)));
                assert(Seq::new((j + 1 - k) as nat, |m: int| given_argument(k + m)) =~= Seq::new((j - k) as nat, |m: int|
                    given_argument(k + m)).push(given_argument(j as int)));
                assert(before + seq![text_argument("--"@)] + Seq::new((j + 1 - k) as nat, |m: int| given_argument(k + m))
                    =~= (before + seq![text_argument("--"@)] + Seq::new((j - k) as nat, |m: int| given_argument(k + m))).push(
                    given_argument(j as int)));
                j = j + 1;
            }
            assert(before + seq![text_argument("--"@)] + Seq::new((args_len - k) as nat, |m: int| given_argument(k + m))
                =~= before + passthrough(*o, args_len as int));
            return out;
        }
    }
    assert(passthrough(*o, args_len as int) =~= Seq::empty());
    assert(before + passthrough(*o, args_len as int) =~= before);
    out
}

} // verus!
