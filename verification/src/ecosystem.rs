//! The applications a `pam.toml` ecosystem file declares: how each is
//! checked, and the `up` command that creates one that does not exist yet.

use vstd::prelude::*;
use crate::text::{chars_of, quoted, debug_quoted, push_decimal_text, decimal_text};
use crate::process_manager::{
    valid_application_name, validate_name, validate_resource_policy, validate_recovery_policy,
    validate_shutdown_policy, validate_health_start_period, validate_health_timing, recovery_policy_violation,
    health_timing_violation, valid_shutdown_timeout, is_zero, exceeds, MAX_HEALTH_START_PERIOD_MILLIS,
};

verus! {

/// The most applications one ecosystem file may declare.
pub const MAX_ECOSYSTEM_APPLICATIONS: usize = 1024;

/// An application as the ecosystem file declares it, defaults filled in.
pub struct EcosystemApplication {
    pub kind_code: u8,
    pub script: Option<String>,
    pub workers: usize,
    pub cwd: String,
    pub arguments: Vec<String>,
    pub autostart: bool,
    pub env_file: Option<String>,
    pub shutdown_timeout_millis: u64,
    pub health_check_url: Option<String>,
    pub health_check_interval_millis: u64,
    pub health_check_timeout_millis: u64,
    pub health_check_start_period_millis: u64,
    pub health_check_failure_threshold: u32,
    pub auto_restart: bool,
    pub restart_delay_millis: u64,
    pub restart_backoff_max_millis: u64,
    pub max_unstable_restarts: u32,
    pub min_uptime_millis: u64,
    pub memory_warning_bytes: Option<u64>,
    pub task_warning_count: Option<u64>,
    pub memory_max_bytes: Option<u64>,
    pub task_max_count: Option<u64>,
}

/// What the file system says of an application's paths and health check
/// URL: the outcome of resolving its environment file and of reading its
/// health check URL (each looked at only where the application sets one),
/// its working directory as resolved beneath the ecosystem root, and whether
/// an `artisan` file is there.
pub struct ApplicationChecks {
    pub environment_file: Result<(), String>,
    pub health_check_url: Result<(), String>,
    pub working_directory: Result<String, String>,
    pub has_artisan: bool,
}

/// Checks the ecosystem file's shape: schema 1 and 1 to 1024 applications.
pub fn validate_ecosystem(schema_version: u8, application_count: usize) -> (r: Result<(), String>)
    ensures
        r.is_ok() == (schema_version == 1 && 1 <= application_count <= MAX_ECOSYSTEM_APPLICATIONS),
        r matches Err(e) ==> e@ == "pam.toml requires schema_version = 1 and 1-1024 applications"@,
{
    if schema_version != 1 || application_count == 0 || application_count > MAX_ECOSYSTEM_APPLICATIONS {
        return Err(String::from_str("pam.toml requires schema_version = 1 and 1-1024 applications"));
    }
    Ok(())
}

/// An argument holds a NUL, line feed or carriage return.
pub open spec fn has_control(argument: Seq<char>) -> bool {
    exists|i: int| 0 <= i < argument.len() && (argument[i] == '\0' || argument[i] == '\n' || argument[i] == '\r')
}

/// What is wrong with a declared application, in the order it is checked,
/// if anything.
pub open spec fn application_error(name: Seq<char>, a: EcosystemApplication, c: ApplicationChecks) -> Option<
    Seq<char>,
> {
    let label = "application "@ + debug_quoted(name);
    let zero = is_zero(a.memory_warning_bytes) || is_zero(a.task_warning_count) || is_zero(a.memory_max_bytes)
        || is_zero(a.task_max_count);
    let over = exceeds(a.memory_warning_bytes, a.memory_max_bytes) || exceeds(a.task_warning_count, a.task_max_count);
    let recovery = recovery_policy_violation(
        a.restart_delay_millis,
        a.restart_backoff_max_millis,
        a.max_unstable_restarts,
        a.min_uptime_millis,
    );
    let timing = health_timing_violation(
        a.health_check_interval_millis,
        a.health_check_timeout_millis,
        a.health_check_failure_threshold,
    );
    let laravel = a.kind_code == 2;
    if !valid_application_name(name) {
        Some("application name must contain 1-64 ASCII letters, digits, '.', '-' or '_'"@)
    } else if !(a.kind_code == 1 || a.kind_code == 2) {
        Some(label + " kind_code must be 1 or 2"@)
    } else if a.workers == 0 || a.workers > 256 {
        Some(label + " workers must be 1-256"@)
    } else if zero {
        Some(label + " resource thresholds must be positive"@)
    } else if over {
        Some(label + " warning cannot exceed its hard limit"@)
    } else if recovery != 0 {
        Some(
            match recovery {
                1 => "restart delay must be 10-60000 milliseconds"@,
                2 => "restart backoff maximum must be at least the delay and at most 300000 milliseconds"@,
                3 => "maximum unstable restarts must be 1-100"@,
                _ => "minimum stable uptime must be 1000-3600000 milliseconds"@,
            },
        )
    } else if !valid_shutdown_timeout(a.shutdown_timeout_millis) {
        Some("shutdown timeout must be between 100 and 300000 milliseconds"@)
    } else if a.health_check_start_period_millis > MAX_HEALTH_START_PERIOD_MILLIS {
        Some("health check start period must be 0-3600000 milliseconds"@)
    } else if a.health_check_start_period_millis > 0 && a.health_check_url is None {
        Some("health check start period requires a health check URL"@)
    } else if a.env_file is Some && c.environment_file is Err {
        Some(c.environment_file->Err_0@)
    } else if timing != 0 {
        Some(
            match timing {
                1 => "health check interval must be 250-3600000 milliseconds"@,
                2 => "health check timeout must be 50-5000 milliseconds and less than the interval"@,
                _ => "health check failure threshold must be 1-100"@,
            },
        )
    } else if a.health_check_url is Some && c.health_check_url is Err {
        Some(c.health_check_url->Err_0@)
    } else if a.health_check_url is Some && !a.auto_restart {
        Some(label + " health checks require auto_restart = true"@)
    } else if laravel && a.script is Some {
        Some("Laravel application "@ + debug_quoted(name) + " cannot set script"@)
    } else if c.working_directory is Err {
        Some(c.working_directory->Err_0@)
    } else if laravel && !c.has_artisan {
        Some("Laravel application "@ + debug_quoted(name) + " requires artisan in "@ + c.working_directory->Ok_0@)
    } else if exists|i: int| 0 <= i < a.arguments@.len() && has_control(#[trigger] a.arguments@[i]@) {
        Some(label + " contains invalid argument controls"@)
    } else {
        None
    }
}

fn argument_has_control(argument: &str) -> (r: bool)
    ensures
        r == has_control(argument@),
{
    let chars = chars_of(argument);
    let mut i: usize = 0;
    while i < chars.len()
        invariant
            chars@ == argument@,
            i <= chars@.len(),
            forall|k: int| 0 <= k < i ==> !(chars@[k] == '\0' || chars@[k] == '\n' || chars@[k] == '\r'),
        decreases chars.len() - i,
    {
        let c = chars[i];
        if c == '\0' || c == '\n' || c == '\r' {
            return true;
        }
        i = i + 1;
    }
    false
}

fn labelled(prefix: &str, name: &str, suffix: &str) -> (r: String)
    ensures
        r@ == prefix@ + debug_quoted(name@) + suffix@,
{
    let mut out = String::from_str(prefix);
    let q = quoted(name);
    out.append(q.as_str());
    out.append(suffix);
    out
}

/// Checks one declared application, in the order the manager does: its name,
/// kind, worker count, resource, recovery, shutdown and health policies, the
/// file system outcomes in `checks`, and its arguments.
#[verifier::rlimit(80)]
#[verifier::loop_isolation(false)]
pub fn validate_ecosystem_application(name: &str, application: &EcosystemApplication, checks: &ApplicationChecks) -> (r:
    Result<(), String>)
    ensures
        match r {
            Ok(()) => application_error(name@, *application, *checks) is None,
            Err(e) => application_error(name@, *application, *checks) == Some(e@),
        },
{
    let a = application;
    if let Err(e) = validate_name(name) {
        return Err(e);
    }
    if !(a.kind_code == 1 || a.kind_code == 2) {
        return Err(labelled("application ", name, " kind_code must be 1 or 2"));
    }
    if a.workers == 0 || a.workers > 256 {
        return Err(labelled("application ", name, " workers must be 1-256"));
    }
    let label = labelled("application ", name, "");
    proof {
        reveal_strlit("");
        assert(label@ =~= "application "@ + debug_quoted(name@));
    }
    if let Err(e) = validate_resource_policy(
        a.memory_warning_bytes,
        a.task_warning_count,
        a.memory_max_bytes,
        a.task_max_count,
        label.as_str(),
    ) {
        return Err(e);
    }
    if let Err(e) = validate_recovery_policy(
        a.restart_delay_millis,
        a.restart_backoff_max_millis,
        a.max_unstable_restarts,
        a.min_uptime_millis,
    ) {
        return Err(e);
    }
    if let Err(e) = validate_shutdown_policy(a.shutdown_timeout_millis) {
        return Err(e);
    }
    if let Err(e) = validate_health_start_period(a.health_check_start_period_millis, a.health_check_url.is_some()) {
        return Err(e);
    }
    if a.env_file.is_some() {
        if let Err(e) = &checks.environment_file {
            return Err(e.clone());
        }
    }
    if let Err(e) = validate_health_timing(
        a.health_check_interval_millis,
        a.health_check_timeout_millis,
        a.health_check_failure_threshold,
    ) {
        return Err(e);
    }
    if a.health_check_url.is_some() {
        if let Err(e) = &checks.health_check_url {
            return Err(e.clone());
        }
        if !a.auto_restart {
            return Err(labelled("application ", name, " health checks require auto_restart = true"));
        }
    }
    let laravel = a.kind_code == 2;
    if laravel && a.script.is_some() {
        return Err(labelled("Laravel application ", name, " cannot set script"));
    }
    let cwd = match &checks.working_directory {
        Err(e) => {
            return Err(e.clone());
        },
        Ok(c) => c,
    };
    if laravel && !checks.has_artisan {
        let mut e = labelled("Laravel application ", name, " requires artisan in ");
        e.append(cwd.as_str());
        return Err(e);
    }
    let mut i: usize = 0;
    while i < a.arguments.len()
        invariant
            i <= a.arguments@.len(),
            forall|k: int| 0 <= k < i ==> !has_control(#[trigger] a.arguments@[k]@),
        decreases a.arguments.len() - i,
    {
        if argument_has_control(a.arguments[i].as_str()) {
            assert(has_control(a.arguments@[i as int]@));
            return Err(labelled("application ", name, " contains invalid argument controls"));
        }
        i = i + 1;
    }
    Ok(())
}

/// The texts of a list of strings.
pub open spec fn texts(v: Seq<String>) -> Seq<Seq<char>> {
    v.map_values(|s: String| s@)
}

/// A flag followed by a number.
pub open spec fn flag_number(flag: Seq<char>, value: int) -> Seq<Seq<char>> {
    seq![flag, decimal_text(value as nat)]
}

/// A flag followed by a number, where there is one.
pub open spec fn optional_flag_number(flag: Seq<char>, value: Option<u64>) -> Seq<Seq<char>> {
    match value {
        Some(v) => flag_number(flag, v as int),
        None => Seq::empty(),
    }
}

/// The health check flags of an application with a health check URL.
pub open spec fn health_flags(a: EcosystemApplication) -> Seq<Seq<char>> {
    match a.health_check_url {
        Some(url) => seq!["--health-check-url"@, url@] + flag_number(
            "--health-check-interval-ms"@,
            a.health_check_interval_millis as int,
        ) + flag_number("--health-check-timeout-ms"@, a.health_check_timeout_millis as int) + flag_number(
            "--health-check-start-period-ms"@,
            a.health_check_start_period_millis as int,
        ) + flag_number("--health-check-failures"@, a.health_check_failure_threshold as int),
        None => Seq::empty(),
    }
}

/// The recovery, shutdown and resource flags of an application.
pub open spec fn policy_flags(a: EcosystemApplication) -> Seq<Seq<char>> {
    (if a.auto_restart {
        Seq::empty()
    } else {
        seq!["--no-autorestart"@]
    }) + flag_number("--shutdown-timeout-ms"@, a.shutdown_timeout_millis as int) + flag_number(
        "--restart-delay-ms"@,
        a.restart_delay_millis as int,
    ) + flag_number("--restart-backoff-max-ms"@, a.restart_backoff_max_millis as int) + flag_number(
        "--max-unstable-restarts"@,
        a.max_unstable_restarts as int,
    ) + flag_number("--min-uptime-ms"@, a.min_uptime_millis as int) + optional_flag_number(
        "--memory-warning-bytes"@,
        a.memory_warning_bytes,
    ) + optional_flag_number("--task-warning-count"@, a.task_warning_count) + optional_flag_number(
        "--memory-max-bytes"@,
        a.memory_max_bytes,
    ) + optional_flag_number("--task-max-count"@, a.task_max_count)
}

/// The arguments of the `up` command that creates a declared application
/// that has no record yet: its name and workers, its resolved environment
/// file, health check, policies, the script of a runtime application
/// (`index.php` where none is declared) and its own arguments after `--`.
pub open spec fn up_arguments_of(name: Seq<char>, a: EcosystemApplication, environment_file: Option<Seq<char>>) -> Seq<
    Seq<char>,
> {
    seq!["up"@, "--name"@, name] + flag_number("--workers"@, a.workers as int) + (match environment_file {
        Some(path) => seq!["--env-file"@, path],
        None => Seq::empty(),
    }) + health_flags(a) + policy_flags(a) + (if a.kind_code == 1 {
        seq![
            match a.script {
                Some(s) => s@,
                None => "index.php"@,
            },
        ]
    } else {
        Seq::empty()
    }) + (if a.arguments@.len() > 0 {
        seq!["--"@] + texts(a.arguments@)
    } else {
        Seq::empty()
    })
}

fn push_text(out: &mut Vec<String>, text: String)
    ensures
        texts(final(out)@) == texts(old(out)@).push(text@),
{
    out.push(text);
    assert(texts(out@) =~= texts(old(out)@).push(text@));
}

fn push_flag_number(out: &mut Vec<String>, flag: &str, value: u64)
    ensures
        texts(final(out)@) == texts(old(out)@) + flag_number(flag@, value as int),
{
    push_text(out, String::from_str(flag));
    let mut digits = String::new();
    push_decimal_text(&mut digits, value);
    proof {
        assert(digits@ =~= decimal_text(value as nat));
    }
    push_text(out, digits);
    assert(texts(out@) =~= texts(old(out)@) + flag_number(flag@, value as int));
}

fn push_optional_flag_number(out: &mut Vec<String>, flag: &str, value: Option<u64>)
    ensures
        texts(final(out)@) == texts(old(out)@) + optional_flag_number(flag@, value),
{
    match value {
        Some(v) => push_flag_number(out, flag, v),
        None => {
            assert(texts(out@) =~= texts(old(out)@) + optional_flag_number(flag@, value));
        },
    }
}

#[verifier::rlimit(60)]
fn push_health_flags(out: &mut Vec<String>, a: &EcosystemApplication)
    ensures
        texts(final(out)@) == texts(old(out)@) + health_flags(*a),
{
    let ghost start = texts(out@);
    match &a.health_check_url {
        Some(url) => {
            push_text(out, String::from_str("--health-check-url"));
            push_text(out, url.clone());
            push_flag_number(out, "--health-check-interval-ms", a.health_check_interval_millis);
            push_flag_number(out, "--health-check-timeout-ms", a.health_check_timeout_millis);
            push_flag_number(out, "--health-check-start-period-ms", a.health_check_start_period_millis);
            push_flag_number(out, "--health-check-failures", a.health_check_failure_threshold as u64);
        },
        None => {},
    }
    assert(texts(out@) =~= start + health_flags(*a));
}

#[verifier::rlimit(60)]
fn push_policy_flags(out: &mut Vec<String>, a: &EcosystemApplication)
    ensures
        texts(final(out)@) == texts(old(out)@) + policy_flags(*a),
{
    let ghost start = texts(out@);
    if !a.auto_restart {
        push_text(out, String::from_str("--no-autorestart"));
    }
    push_flag_number(out, "--shutdown-timeout-ms", a.shutdown_timeout_millis);
    push_flag_number(out, "--restart-delay-ms", a.restart_delay_millis);
    push_flag_number(out, "--restart-backoff-max-ms", a.restart_backoff_max_millis);
    push_flag_number(out, "--max-unstable-restarts", a.max_unstable_restarts as u64);
    push_flag_number(out, "--min-uptime-ms", a.min_uptime_millis);
    push_optional_flag_number(out, "--memory-warning-bytes", a.memory_warning_bytes);
    push_optional_flag_number(out, "--task-warning-count", a.task_warning_count);
    push_optional_flag_number(out, "--memory-max-bytes", a.memory_max_bytes);
    push_optional_flag_number(out, "--task-max-count", a.task_max_count);
    assert(texts(out@) =~= start + policy_flags(*a));
}

/// The arguments of the `up` command that creates a declared application;
/// `environment_file` is its environment file as resolved.
#[verifier::rlimit(60)]
pub fn up_arguments(name: &str, application: &EcosystemApplication, environment_file: Option<&str>) -> (r: Vec<
    String,
>)
    ensures
        texts(r@) == up_arguments_of(
            name@,
            *application,
            match environment_file {
                Some(p) => Some(p@),
                None => None,
            },
        ),
{
    let a = application;
    let mut out: Vec<String> = Vec::new();
    push_text(&mut out, String::from_str("up"));
    push_text(&mut out, String::from_str("--name"));
    push_text(&mut out, String::from_str(name));
    push_flag_number(&mut out, "--workers", a.workers as u64);
    let ghost head = texts(out@);
    match environment_file {
        Some(path) => {
            push_text(&mut out, String::from_str("--env-file"));
            push_text(&mut out, String::from_str(path));
        },
        None => {},
    }
    let ghost with_env = texts(out@);
    push_health_flags(&mut out, a);
    push_policy_flags(&mut out, a);
    let ghost with_policy = texts(out@);
    if a.kind_code == 1 {
        let script = match &a.script {
            Some(s) => s.clone(),
            None => String::from_str("index.php"),
        };
        push_text(&mut out, script);
    }
    let ghost with_script = texts(out@);
    if a.arguments.len() > 0 {
        push_text(&mut out, String::from_str("--"));
        let ghost before = texts(out@);
        let mut i: usize = 0;
        while i < a.arguments.len()
            invariant
                i <= a.arguments@.len(),
                texts(out@) == before + texts(a.arguments@.take(i as int)),
            decreases a.arguments.len() - i,
        {
            push_text(&mut out, a.arguments[i].clone());
            proof {
                assert(texts(a.arguments@.take(i + 1)) =~= texts(a.arguments@.take(i as int)).push(a.arguments@[i as int]@));
            }
            i = i + 1;
        }
        proof {
            assert(a.arguments@.take(a.arguments@.len() as int) =~= a.arguments@);
        }
    }
    proof {
        let env_view = match environment_file {
            Some(p) => Some(p@),
            None => None,
        };
        assert(with_env =~= head + (match env_view {
            Some(path) => seq!["--env-file"@, path],
            None => Seq::empty(),
        }));
        assert(texts(out@) =~= up_arguments_of(name@, *a, env_view));
    }
    out
}

} // verus!
