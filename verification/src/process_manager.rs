//! Decisions of the per-user process manager: application records, recovery
//! backoff, health state, retention of histories and the systemd unit text.
//!
//! Reading and writing records, signalling processes and probing sockets stay
//! with the caller; every rule they follow is here.

use vstd::prelude::*;
use vstd::arithmetic::power2::*;
use vstd::bits::*;
use vstd::utf8::*;
use crate::text::{push_char, str_eq, concat_str, first_char, lemma_first_char};
use crate::text::{push_decimal_text, decimal_text};
use crate::resource_monitor::ResourceSnapshot;

verus! {

pub const MAX_DEPLOY_HISTORY: usize = 50;
pub const MAX_RESOURCE_HISTORY: usize = 120;
pub const SUPERVISION_INTERVAL_MILLIS: u64 = 250;
pub const DEFAULT_RESTART_DELAY_MILLIS: u64 = 250;
pub const DEFAULT_RESTART_BACKOFF_MAX_MILLIS: u64 = 15_000;
pub const DEFAULT_MAX_UNSTABLE_RESTARTS: u32 = 10;
pub const DEFAULT_MIN_UPTIME_MILLIS: u64 = 30_000;
pub const DEFAULT_HEALTH_INTERVAL_MILLIS: u64 = 5_000;
pub const DEFAULT_HEALTH_TIMEOUT_MILLIS: u64 = 1_000;
pub const DEFAULT_HEALTH_FAILURE_THRESHOLD: u32 = 3;
pub const MAX_HEALTH_START_PERIOD_MILLIS: u64 = 3_600_000;
pub const DEFAULT_SHUTDOWN_TIMEOUT_MILLIS: u64 = 20_000;
pub const MIN_SHUTDOWN_TIMEOUT_MILLIS: u64 = 100;
pub const MAX_SHUTDOWN_TIMEOUT_MILLIS: u64 = 300_000;
pub const DEFAULT_LOG_MAX_BYTES: u64 = 10_485_760;
pub const DEFAULT_LOG_RETAIN: usize = 5;
pub const MAX_HEALTH_PATH_BYTES: usize = 1024;

/// Operations a client asks of the daemon.
#[derive(Clone, Copy, Debug, PartialEq, Eq, Structural)]
pub enum DaemonOperation {
    Ping,
    Stop,
    Execute,
}

impl DaemonOperation {
    /// The integer written on the wire.
    pub fn code(self) -> (c: u8)
        ensures
            c == match self {
                DaemonOperation::Ping => 1u8,
                DaemonOperation::Stop => 2u8,
                DaemonOperation::Execute => 3u8,
            },
    {
        match self {
            DaemonOperation::Ping => 1,
            DaemonOperation::Stop => 2,
            DaemonOperation::Execute => 3,
        }
    }
}

/// What an application runs.
#[derive(Clone, Copy, Debug, PartialEq, Eq, Structural)]
pub enum ApplicationKind {
    Runtime,
    LaravelOctane,
}

impl ApplicationKind {
    /// The integer stored in records.
    pub fn code(self) -> (c: u8)
        ensures
            c == match self {
                ApplicationKind::Runtime => 1u8,
                ApplicationKind::LaravelOctane => 2u8,
            },
    {
        match self {
            ApplicationKind::Runtime => 1,
            ApplicationKind::LaravelOctane => 2,
        }
    }
}

/// Whether an application should be running.
#[derive(Clone, Copy, Debug, PartialEq, Eq, Structural)]
pub enum ApplicationState {
    Online,
    Stopped,
}

impl ApplicationState {
    /// The integer stored in records.
    pub fn code(self) -> (c: u8)
        ensures
            c == match self {
                ApplicationState::Online => 1u8,
                ApplicationState::Stopped => 2u8,
            },
    {
        match self {
            ApplicationState::Online => 1,
            ApplicationState::Stopped => 2,
        }
    }
}

/// Phase of a traffic rollout.
#[derive(Clone, Copy, Debug, PartialEq, Eq, Structural)]
pub enum RolloutPhase {
    Stable,
    Evaluating,
    Promoted,
    Aborted,
}

impl RolloutPhase {
    /// The integer reported to clients.
    pub fn code(self) -> (c: u8)
        ensures
            c == match self {
                RolloutPhase::Stable => 1u8,
                RolloutPhase::Evaluating => 2u8,
                RolloutPhase::Promoted => 3u8,
                RolloutPhase::Aborted => 4u8,
            },
    {
        match self {
            RolloutPhase::Stable => 1,
            RolloutPhase::Evaluating => 2,
            RolloutPhase::Promoted => 3,
            RolloutPhase::Aborted => 4,
        }
    }
}

/// Outcome of evaluating a rollout.
#[derive(Clone, Copy, Debug, PartialEq, Eq, Structural)]
pub enum RolloutDecision {
    Pending,
    Promoted,
    Aborted,
    DeadlineAborted,
}

impl RolloutDecision {
    /// The integer reported to clients.
    pub fn code(self) -> (c: u8)
        ensures
            c == match self {
                RolloutDecision::Pending => 1u8,
                RolloutDecision::Promoted => 2u8,
                RolloutDecision::Aborted => 3u8,
                RolloutDecision::DeadlineAborted => 4u8,
            },
    {
        match self {
            RolloutDecision::Pending => 1,
            RolloutDecision::Promoted => 2,
            RolloutDecision::Aborted => 3,
            RolloutDecision::DeadlineAborted => 4,
        }
    }
}

/// Which log of an application.
#[derive(Clone, Copy, Debug, PartialEq, Eq, Structural)]
pub enum LogStream {
    StandardOutput,
    StandardError,
}

impl LogStream {
    /// The integer reported to clients.
    pub fn code(self) -> (c: u8)
        ensures
            c == match self {
                LogStream::StandardOutput => 1u8,
                LogStream::StandardError => 2u8,
            },
    {
        match self {
            LogStream::StandardOutput => 1,
            LogStream::StandardError => 2,
        }
    }
}

/// Resource warnings of an application against its thresholds.
#[derive(Clone, Copy, Debug, PartialEq, Eq, Structural)]
pub enum ResourceAlertState {
    Healthy,
    MemoryWarning,
    TaskWarning,
    MemoryAndTaskWarning,
    Unavailable,
}

impl ResourceAlertState {
    /// The integer stored in resource history.
    pub fn code(self) -> (c: u8)
        ensures
            c == match self {
                ResourceAlertState::Healthy => 1u8,
                ResourceAlertState::MemoryWarning => 2u8,
                ResourceAlertState::TaskWarning => 3u8,
                ResourceAlertState::MemoryAndTaskWarning => 4u8,
                ResourceAlertState::Unavailable => 5u8,
            },
    {
        match self {
            ResourceAlertState::Healthy => 1,
            ResourceAlertState::MemoryWarning => 2,
            ResourceAlertState::TaskWarning => 3,
            ResourceAlertState::MemoryAndTaskWarning => 4,
            ResourceAlertState::Unavailable => 5,
        }
    }
}

/// Whether hard resource limits are enforced by the service manager.
#[derive(Clone, Copy, Debug, PartialEq, Eq, Structural)]
pub enum ResourceEnforcementState {
    Enforced,
    NotRequested,
    Unverified,
}

impl ResourceEnforcementState {
    /// The integer reported to clients.
    pub fn code(self) -> (c: u8)
        ensures
            c == match self {
                ResourceEnforcementState::Enforced => 1u8,
                ResourceEnforcementState::NotRequested => 2u8,
                ResourceEnforcementState::Unverified => 3u8,
            },
    {
        match self {
            ResourceEnforcementState::Enforced => 1,
            ResourceEnforcementState::NotRequested => 2,
            ResourceEnforcementState::Unverified => 3,
        }
    }
}

/// Automatic recovery state of an application.
#[derive(Clone, Copy, Debug, PartialEq, Eq, Structural)]
pub enum RecoveryState {
    Healthy,
    Backoff,
    Stabilizing,
    CircuitOpen,
    Disabled,
}

impl RecoveryState {
    /// The integer stored in records.
    pub fn code(self) -> (c: u8)
        ensures
            c == recovery_code(self),
    {
        match self {
            RecoveryState::Healthy => 1,
            RecoveryState::Backoff => 2,
            RecoveryState::Stabilizing => 3,
            RecoveryState::CircuitOpen => 4,
            RecoveryState::Disabled => 5,
        }
    }
}

pub open spec fn recovery_code(state: RecoveryState) -> u8 {
    match state {
        RecoveryState::Healthy => 1u8,
        RecoveryState::Backoff => 2u8,
        RecoveryState::Stabilizing => 3u8,
        RecoveryState::CircuitOpen => 4u8,
        RecoveryState::Disabled => 5u8,
    }
}

/// Health of an application as seen by its HTTP probe.
#[derive(Clone, Copy, Debug, PartialEq, Eq, Structural)]
pub enum HealthState {
    Disabled,
    Healthy,
    Failing,
    Unhealthy,
    Starting,
}

impl HealthState {
    /// The integer stored in records.
    pub fn code(self) -> (c: u8)
        ensures
            c == health_code(self),
    {
        match self {
            HealthState::Disabled => 1,
            HealthState::Healthy => 2,
            HealthState::Failing => 3,
            HealthState::Unhealthy => 4,
            HealthState::Starting => 5,
        }
    }
}

pub open spec fn health_code(state: HealthState) -> u8 {
    match state {
        HealthState::Disabled => 1u8,
        HealthState::Healthy => 2u8,
        HealthState::Failing => 3u8,
        HealthState::Unhealthy => 4u8,
        HealthState::Starting => 5u8,
    }
}

/// What a deployment history entry records.
#[derive(Clone, Copy, Debug, PartialEq, Eq, Structural)]
pub enum DeploymentEventKind {
    Baseline,
    Deploy,
    Rollback,
}

impl DeploymentEventKind {
    /// The integer stored in deployment history.
    pub fn code(self) -> (c: u8)
        ensures
            c == match self {
                DeploymentEventKind::Baseline => 1u8,
                DeploymentEventKind::Deploy => 2u8,
                DeploymentEventKind::Rollback => 3u8,
            },
    {
        match self {
            DeploymentEventKind::Baseline => 1,
            DeploymentEventKind::Deploy => 2,
            DeploymentEventKind::Rollback => 3,
        }
    }
}

/// What a deploy or rollback did.
#[derive(Clone, Copy, Debug, PartialEq, Eq, Structural)]
pub enum DeploymentAction {
    Activated,
    RolledBack,
    Unchanged,
}

impl DeploymentAction {
    /// The integer reported to clients.
    pub fn code(self) -> (c: u8)
        ensures
            c == match self {
                DeploymentAction::Activated => 1u8,
                DeploymentAction::RolledBack => 2u8,
                DeploymentAction::Unchanged => 3u8,
            },
    {
        match self {
            DeploymentAction::Activated => 1,
            DeploymentAction::RolledBack => 2,
            DeploymentAction::Unchanged => 3,
        }
    }
}

/// What reconciling one application of an ecosystem file did.
#[derive(Clone, Copy, Debug, PartialEq, Eq, Structural)]
pub enum ReconcileAction {
    Created,
    Unchanged,
    Scaled,
    Restarted,
    Disabled,
    PolicyUpdated,
    ResourceLimitsUpdated,
}

impl ReconcileAction {
    /// The integer reported to clients.
    pub fn code(self) -> (c: u8)
        ensures
            c == match self {
                ReconcileAction::Created => 1u8,
                ReconcileAction::Unchanged => 2u8,
                ReconcileAction::Scaled => 3u8,
                ReconcileAction::Restarted => 4u8,
                ReconcileAction::Disabled => 5u8,
                ReconcileAction::PolicyUpdated => 6u8,
                ReconcileAction::ResourceLimitsUpdated => 7u8,
            },
    {
        match self {
            ReconcileAction::Created => 1,
            ReconcileAction::Unchanged => 2,
            ReconcileAction::Scaled => 3,
            ReconcileAction::Restarted => 4,
            ReconcileAction::Disabled => 5,
            ReconcileAction::PolicyUpdated => 6,
            ReconcileAction::ResourceLimitsUpdated => 7,
        }
    }
}

// ---------------------------------------------------------------------------
// Names and policies

pub open spec fn is_name_char(c: char) -> bool {
    ('a' <= c <= 'z') || ('A' <= c <= 'Z') || ('0' <= c <= '9') || c == '-' || c == '_' || c == '.'
}

/// An application name: 1 to 64 ASCII letters, digits, `.`, `-` or `_`,
/// and neither `.` nor `..`.
pub open spec fn valid_application_name(name: Seq<char>) -> bool {
    &&& 1 <= name.len() <= 64
    &&& forall|i: int| 0 <= i < name.len() ==> is_name_char(#[trigger] name[i])
    &&& name != seq!['.']
    &&& name != seq!['.', '.']
}

/// Accepts exactly the names that are safe as file names of records.
pub fn validate_name(name: &str) -> (r: Result<(), String>)
    ensures
        r.is_ok() == valid_application_name(name@),
        r matches Err(e) ==> e@ == "application name must contain 1-64 ASCII letters, digits, '.', '-' or '_'"@,
{
    let n = name.unicode_len();
    let mut ok = 1 <= n && n <= 64;
    if ok {
        let mut i: usize = 0;
        while i < n
            invariant
                n == name@.len(),
                i <= n,
                ok == (forall|k: int| 0 <= k < i ==> is_name_char(#[trigger] name@[k])),
            decreases n - i,
        {
            let c = name.get_char(i);
            let good = ('a' <= c && c <= 'z') || ('A' <= c && c <= 'Z') || ('0' <= c && c <= '9')
                || c == '-' || c == '_' || c == '.';
            if !good {
                ok = false;
            }
            i = i + 1;
        }
        if ok && n <= 2 {
            let first = name.get_char(0);
            if first == '.' && (n == 1 || name.get_char(1) == '.') {
                ok = false;
            }
            proof {
                if n == 1 && first != '.' {
                    assert(name@ != seq!['.']);
                }
                if n == 2 && !ok {
                    assert(name@ =~= seq!['.', '.']);
                }
                if n == 1 && !ok {
                    assert(name@ =~= seq!['.']);
                }
            }
        }
    }
    if ok {
        Ok(())
    } else {
        Err(String::from_str("application name must contain 1-64 ASCII letters, digits, '.', '-' or '_'"))
    }
}

/// A shutdown timeout within the accepted bounds.
pub open spec fn valid_shutdown_timeout(timeout_millis: u64) -> bool {
    MIN_SHUTDOWN_TIMEOUT_MILLIS <= timeout_millis <= MAX_SHUTDOWN_TIMEOUT_MILLIS
}

/// Accepts a shutdown timeout of 100 to 300000 milliseconds.
pub fn validate_shutdown_policy(timeout_millis: u64) -> (r: Result<(), String>)
    ensures
        r.is_ok() == valid_shutdown_timeout(timeout_millis),
        r matches Err(e) ==> e@ == "shutdown timeout must be between 100 and 300000 milliseconds"@,
{
    if timeout_millis < MIN_SHUTDOWN_TIMEOUT_MILLIS || timeout_millis > MAX_SHUTDOWN_TIMEOUT_MILLIS {
        return Err(String::from_str("shutdown timeout must be between 100 and 300000 milliseconds"));
    }
    Ok(())
}

/// Accepts a health start period of at most an hour, and a positive one only
/// where a health check is configured.
pub fn validate_health_start_period(start_period_millis: u64, health_check_configured: bool) -> (r:
    Result<(), String>)
    ensures
        r.is_ok() == (start_period_millis <= MAX_HEALTH_START_PERIOD_MILLIS && (start_period_millis
            == 0 || health_check_configured)),
        r matches Err(e) ==> e@ == (if start_period_millis > MAX_HEALTH_START_PERIOD_MILLIS {
            "health check start period must be 0-3600000 milliseconds"@
        } else {
            "health check start period requires a health check URL"@
        }),
{
    if start_period_millis > MAX_HEALTH_START_PERIOD_MILLIS {
        return Err(String::from_str("health check start period must be 0-3600000 milliseconds"));
    }
    if start_period_millis > 0 && !health_check_configured {
        return Err(String::from_str("health check start period requires a health check URL"));
    }
    Ok(())
}

/// The first rule of the recovery policy that the values break, if any:
/// 1 delay, 2 maximum delay, 3 restart count, 4 minimum uptime.
pub open spec fn recovery_policy_violation(
    delay_millis: u64,
    maximum_delay_millis: u64,
    maximum_restarts: u32,
    minimum_uptime_millis: u64,
) -> u8 {
    if !(10 <= delay_millis <= 60_000) {
        1
    } else if !(delay_millis <= maximum_delay_millis <= 300_000) {
        2
    } else if !(1 <= maximum_restarts <= 100) {
        3
    } else if !(1_000 <= minimum_uptime_millis <= 3_600_000) {
        4
    } else {
        0
    }
}

/// Accepts a recovery policy whose delays, restart budget and uptime are in range.
pub fn validate_recovery_policy(
    delay_millis: u64,
    maximum_delay_millis: u64,
    maximum_restarts: u32,
    minimum_uptime_millis: u64,
) -> (r: Result<(), String>)
    ensures
        r.is_ok() == (recovery_policy_violation(delay_millis, maximum_delay_millis, maximum_restarts, minimum_uptime_millis) == 0),
        r matches Err(e) ==> e@ == (match recovery_policy_violation(delay_millis, maximum_delay_millis, maximum_restarts, minimum_uptime_millis) {
            1 => "restart delay must be 10-60000 milliseconds"@,
            2 => "restart backoff maximum must be at least the delay and at most 300000 milliseconds"@,
            3 => "maximum unstable restarts must be 1-100"@,
            _ => "minimum stable uptime must be 1000-3600000 milliseconds"@,
        }),
{
    if delay_millis < 10 || delay_millis > 60_000 {
        return Err(String::from_str("restart delay must be 10-60000 milliseconds"));
    }
    if maximum_delay_millis < delay_millis || maximum_delay_millis > 300_000 {
        return Err(String::from_str("restart backoff maximum must be at least the delay and at most 300000 milliseconds"));
    }
    if maximum_restarts < 1 || maximum_restarts > 100 {
        return Err(String::from_str("maximum unstable restarts must be 1-100"));
    }
    if minimum_uptime_millis < 1_000 || minimum_uptime_millis > 3_600_000 {
        return Err(String::from_str("minimum stable uptime must be 1000-3600000 milliseconds"));
    }
    Ok(())
}

pub open spec fn is_zero(value: Option<u64>) -> bool {
    value == Some(0u64)
}

pub open spec fn exceeds(warning: Option<u64>, maximum: Option<u64>) -> bool {
    warning is Some && maximum is Some && warning->0 > maximum->0
}

/// Accepts resource thresholds that are positive and whose warnings do not
/// exceed their hard limits.
pub fn validate_resource_policy(
    memory_warning_bytes: Option<u64>,
    task_warning_count: Option<u64>,
    memory_max_bytes: Option<u64>,
    task_max_count: Option<u64>,
    label: &str,
) -> (r: Result<(), String>)
    ensures
        ({
            let zero = is_zero(memory_warning_bytes) || is_zero(task_warning_count) || is_zero(memory_max_bytes) || is_zero(task_max_count);
            let over = exceeds(memory_warning_bytes, memory_max_bytes) || exceeds(task_warning_count, task_max_count);
            &&& r.is_ok() == (!zero && !over)
            &&& r matches Err(e) ==> e@ == label@ + (if zero {
                " resource thresholds must be positive"@
            } else {
                " warning cannot exceed its hard limit"@
            })
        }),
{
    let zero = matches!(memory_warning_bytes, Some(0)) || matches!(task_warning_count, Some(0))
        || matches!(memory_max_bytes, Some(0)) || matches!(task_max_count, Some(0));
    if zero {
        return Err(concat_str(label, " resource thresholds must be positive"));
    }
    let memory_over = match (memory_warning_bytes, memory_max_bytes) {
        (Some(warning), Some(maximum)) => warning > maximum,
        _ => false,
    };
    let task_over = match (task_warning_count, task_max_count) {
        (Some(warning), Some(maximum)) => warning > maximum,
        _ => false,
    };
    if memory_over || task_over {
        return Err(concat_str(label, " warning cannot exceed its hard limit"));
    }
    Ok(())
}

/// The first rule of the health timing that the values break, if any:
/// 1 interval, 2 timeout, 3 failure threshold.
pub open spec fn health_timing_violation(interval_millis: u64, timeout_millis: u64, failure_threshold: u32) -> u8 {
    if !(250 <= interval_millis <= 3_600_000) {
        1
    } else if !(50 <= timeout_millis <= 5_000) || timeout_millis >= interval_millis {
        2
    } else if !(1 <= failure_threshold <= 100) {
        3
    } else {
        0
    }
}

/// Accepts a probe interval, a timeout below it, and a failure threshold in range.
pub fn validate_health_timing(interval_millis: u64, timeout_millis: u64, failure_threshold: u32) -> (r:
    Result<(), String>)
    ensures
        r.is_ok() == (health_timing_violation(interval_millis, timeout_millis, failure_threshold) == 0),
        r matches Err(e) ==> e@ == (match health_timing_violation(interval_millis, timeout_millis, failure_threshold) {
            1 => "health check interval must be 250-3600000 milliseconds"@,
            2 => "health check timeout must be 50-5000 milliseconds and less than the interval"@,
            _ => "health check failure threshold must be 1-100"@,
        }),
{
    if interval_millis < 250 || interval_millis > 3_600_000 {
        return Err(String::from_str("health check interval must be 250-3600000 milliseconds"));
    }
    if timeout_millis < 50 || timeout_millis > 5_000 || timeout_millis >= interval_millis {
        return Err(String::from_str("health check timeout must be 50-5000 milliseconds and less than the interval"));
    }
    if failure_threshold < 1 || failure_threshold > 100 {
        return Err(String::from_str("health check failure threshold must be 1-100"));
    }
    Ok(())
}

// ---------------------------------------------------------------------------
// Application records and automatic recovery

/// The persisted state of one managed application. Paths are kept as text and
/// the health check address as the `IP:port` text it was configured with.
#[derive(Clone, Debug)]
pub struct ApplicationRecord {
    pub schema_version: u8,
    pub name: String,
    pub kind_code: u8,
    pub working_directory: String,
    pub command: Vec<String>,
    pub master_state_file: String,
    pub stdout_log: String,
    pub stderr_log: String,
    pub log_max_bytes: u64,
    pub log_retain: usize,
    pub memory_warning_bytes: Option<u64>,
    pub task_warning_count: Option<u64>,
    pub memory_max_bytes: Option<u64>,
    pub task_max_count: Option<u64>,
    pub environment_file: Option<String>,
    pub shutdown_timeout_millis: u64,
    pub health_check_address: Option<String>,
    pub health_check_path: Option<String>,
    pub health_check_interval_millis: u64,
    pub health_check_timeout_millis: u64,
    pub health_check_start_period_millis: u64,
    pub health_check_failure_threshold: u32,
    pub consecutive_health_failures: u32,
    pub last_health_check_at_millis: Option<u64>,
    pub last_health_success_at_millis: Option<u64>,
    pub health_state_code: u8,
    pub total_unhealthy_restart_count: u64,
    pub desired_state_code: u8,
    pub auto_restart: bool,
    pub restart_delay_millis: u64,
    pub restart_backoff_max_millis: u64,
    pub max_unstable_restarts: u32,
    pub min_uptime_millis: u64,
    pub unstable_restart_count: u32,
    pub total_auto_restart_count: u64,
    pub next_restart_at_millis: Option<u64>,
    pub recovery_state_code: u8,
    pub created_at_millis: u64,
}

/// `value + 1`, stopping at the largest `u32`.
pub open spec fn saturating_incr_u32(value: u32) -> u32 {
    if value == u32::MAX { u32::MAX } else { (value + 1) as u32 }
}

/// `a + b`, stopping at the largest `u64`.
pub open spec fn saturating_add_u64(a: u64, b: int) -> u64 {
    if a + b > u64::MAX { u64::MAX } else { (a + b) as u64 }
}

/// The delay before the restart numbered `attempt` (from 1): the base delay
/// doubled for each earlier attempt (at most twenty doublings), stopping at
/// the largest `u64`, and never above the configured maximum.
pub open spec fn backoff_delay(delay: u64, maximum: u64, attempt: u32) -> u64 {
    let exponent: nat = if attempt <= 1 { 0 } else if attempt - 1 > 20 { 20 } else { (attempt - 1) as nat };
    let scaled = delay * pow2(exponent);
    let saturated: u64 = if scaled > u64::MAX { u64::MAX } else { scaled as u64 };
    if saturated < maximum { saturated } else { maximum }
}

/// The record after one more unstable exit at time `now`: the restart count
/// grows; past the budget the circuit opens, otherwise a restart is scheduled
/// after the backoff delay.
pub open spec fn after_unstable_exit(record: ApplicationRecord, now: u64) -> ApplicationRecord {
    let count = saturating_incr_u32(record.unstable_restart_count);
    if count > record.max_unstable_restarts {
        ApplicationRecord {
            unstable_restart_count: count,
            recovery_state_code: recovery_code(RecoveryState::CircuitOpen),
            next_restart_at_millis: None,
            ..record
        }
    } else {
        ApplicationRecord {
            unstable_restart_count: count,
            recovery_state_code: recovery_code(RecoveryState::Backoff),
            next_restart_at_millis: Some(saturating_add_u64(now, backoff_delay(record.restart_delay_millis, record.restart_backoff_max_millis, count) as int)),
            ..record
        }
    }
}

/// The multiplier `2^exponent` for an exponent of at most twenty.
fn doubling_multiplier(exponent: u32) -> (m: u64)
    requires
        exponent <= 20,
    ensures
        m == pow2(exponent as nat),
{
    proof {
        lemma2_to64();
        lemma_pow2_strictly_increases(exponent as nat, 21);
        lemma_u64_shl_is_mul(1, exponent as u64);
    }
    1u64 << (exponent as u64)
}

/// Records one more unstable exit at time `now` and schedules the next
/// restart with exponential backoff, or opens the circuit when the restart
/// budget is spent.
pub fn schedule_recovery(record: &mut ApplicationRecord, now: u64)
    ensures
        *final(record) == after_unstable_exit(*old(record), now),
{
    record.unstable_restart_count = record.unstable_restart_count.saturating_add(1);
    if record.unstable_restart_count > record.max_unstable_restarts {
        record.recovery_state_code = RecoveryState::CircuitOpen.code();
        record.next_restart_at_millis = None;
        return;
    }
    let count = record.unstable_restart_count;
    let exponent: u32 = if count <= 1 { 0 } else if count - 1 > 20 { 20 } else { count - 1 };
    let multiplier = doubling_multiplier(exponent);
    let scaled: u64 = match record.restart_delay_millis.checked_mul(multiplier) {
        Some(value) => value,
        None => u64::MAX,
    };
    let delay = if scaled < record.restart_backoff_max_millis { scaled } else { record.restart_backoff_max_millis };
    record.recovery_state_code = RecoveryState::Backoff.code();
    record.next_restart_at_millis = Some(now.saturating_add(delay));
}

/// The recovery backoff never waits longer than its configured maximum, never
/// shrinks from one attempt to the next, and (below the maximum and the
/// twentieth doubling) doubles with each attempt.
pub proof fn lemma_backoff_is_exponential_and_bounded(delay: u64, maximum: u64, attempt: u32)
    requires
        1 <= attempt < u32::MAX,
    ensures
        backoff_delay(delay, maximum, attempt) <= maximum,
        backoff_delay(delay, maximum, attempt) <= backoff_delay(delay, maximum, (attempt + 1) as u32),
        attempt <= 20 && 2 * backoff_delay(delay, maximum, attempt) <= maximum && 2 * delay * pow2((attempt - 1) as nat) <= u64::MAX
            ==> backoff_delay(delay, maximum, (attempt + 1) as u32) == 2 * backoff_delay(delay, maximum, attempt),
{
    let e: nat = if attempt <= 1 { 0 } else if attempt - 1 > 20 { 20 } else { (attempt - 1) as nat };
    let e2: nat = if attempt + 1 <= 1 { 0 } else if attempt > 20 { 20 } else { attempt as nat };
    if e2 > e {
        assert(e2 == e + 1);
        lemma_pow2_adds(e, 1);
        lemma2_to64();
        assert(pow2(e2) == pow2(e) * 2);
        assert(delay * pow2(e2) == 2 * (delay * pow2(e))) by (nonlinear_arith)
            requires pow2(e2) == pow2(e) * 2;
        assert(delay * pow2(e) >= 0) by (nonlinear_arith);
    } else {
        assert(e2 == e);
    }
}

/// Once the restart budget is spent, one more unstable exit opens the circuit
/// and cancels any scheduled restart.
pub proof fn lemma_exhausted_budget_opens_the_circuit(record: ApplicationRecord, now: u64)
    requires
        record.unstable_restart_count >= record.max_unstable_restarts,
        record.max_unstable_restarts < u32::MAX,
    ensures
        after_unstable_exit(record, now).recovery_state_code == recovery_code(RecoveryState::CircuitOpen),
        after_unstable_exit(record, now).next_restart_at_millis is None,
{
}

/// The health state of a freshly started application: disabled without a
/// health check, starting while a start period applies, healthy otherwise.
pub open spec fn initial_health(configured: bool, start_period_millis: u64) -> u8 {
    if !configured {
        health_code(HealthState::Disabled)
    } else if start_period_millis > 0 {
        health_code(HealthState::Starting)
    } else {
        health_code(HealthState::Healthy)
    }
}

/// The health state of a freshly started application.
pub fn initial_health_state(configured: bool, start_period_millis: u64) -> (code: u8)
    ensures
        code == initial_health(configured, start_period_millis),
{
    if !configured {
        HealthState::Disabled.code()
    } else if start_period_millis > 0 {
        HealthState::Starting.code()
    } else {
        HealthState::Healthy.code()
    }
}

/// The record of an application that was (re)started on request: online,
/// with a fresh restart budget and health state.
pub open spec fn after_manual_start(record: ApplicationRecord) -> ApplicationRecord {
    ApplicationRecord {
        desired_state_code: 1u8,
        unstable_restart_count: 0u32,
        next_restart_at_millis: None,
        recovery_state_code: if record.auto_restart {
            recovery_code(RecoveryState::Healthy)
        } else {
            recovery_code(RecoveryState::Disabled)
        },
        consecutive_health_failures: 0u32,
        health_state_code: initial_health(record.health_check_address is Some, record.health_check_start_period_millis),
        ..record
    }
}

/// Resets recovery and health bookkeeping for an application started on request.
pub fn reset_recovery(record: &mut ApplicationRecord)
    ensures
        *final(record) == after_manual_start(*old(record)),
{
    record.desired_state_code = ApplicationState::Online.code();
    record.unstable_restart_count = 0;
    record.next_restart_at_millis = None;
    record.recovery_state_code = if record.auto_restart {
        RecoveryState::Healthy.code()
    } else {
        RecoveryState::Disabled.code()
    };
    record.consecutive_health_failures = 0;
    record.health_state_code = initial_health_state(
        record.health_check_address.is_some(),
        record.health_check_start_period_millis,
    );
}

/// Whether the health start period of a master started at `started_at_millis`
/// has passed at time `now`.
pub fn health_start_period_elapsed(started_at_millis: u64, start_period_millis: u64, now: u64) -> (r: bool)
    ensures
        r == (now >= started_at_millis && now - started_at_millis >= start_period_millis) || (now < started_at_millis && start_period_millis == 0),
{
    now.saturating_sub(started_at_millis) >= start_period_millis
}

/// The earlier of two optional deadlines.
pub fn earliest_deadline(current: Option<u64>, candidate: Option<u64>) -> (r: Option<u64>)
    ensures
        r == match (current, candidate) {
            (Some(a), Some(b)) => Some(if a <= b { a } else { b }),
            (None, c) => c,
            (c, None) => c,
        },
{
    match (current, candidate) {
        (Some(current), Some(candidate)) => Some(if current <= candidate { current } else { candidate }),
        (None, candidate) => candidate,
        (current, None) => current,
    }
}

/// How long the supervisor sleeps, in milliseconds: until the earliest
/// scheduled restart (at least one millisecond), and never longer than the
/// supervision interval.
pub fn next_supervision_delay(now_millis: u64, earliest_restart: Option<u64>) -> (delay: u64)
    ensures
        delay == match earliest_restart {
            None => SUPERVISION_INTERVAL_MILLIS,
            Some(deadline) => {
                let wait: int = if deadline > now_millis { deadline - now_millis } else { 1 };
                if wait < SUPERVISION_INTERVAL_MILLIS { wait as u64 } else { SUPERVISION_INTERVAL_MILLIS }
            },
        },
        1 <= delay <= SUPERVISION_INTERVAL_MILLIS,
{
    match earliest_restart {
        None => SUPERVISION_INTERVAL_MILLIS,
        Some(deadline) => {
            let remaining = deadline.saturating_sub(now_millis);
            let wait = if remaining < 1 { 1 } else { remaining };
            if wait < SUPERVISION_INTERVAL_MILLIS { wait } else { SUPERVISION_INTERVAL_MILLIS }
        },
    }
}

/// What one pass of the supervisor does with one application.
#[derive(Clone, Copy, Debug, PartialEq, Eq, Structural)]
pub enum SupervisionStep {
    /// Nothing to do.
    Skip,
    /// The master stayed up long enough: the record was marked healthy; persist it.
    Stabilized,
    /// A restart was scheduled (or the circuit opened); persist the record.
    Scheduled,
    /// A restart is scheduled for later.
    Waiting,
    /// The scheduled restart is due: restart the application now.
    Restart,
}

/// The decision of one supervision pass for one application, given when its
/// master started if it is running, and the current time.
pub open spec fn supervision_plan(record: ApplicationRecord, running_since: Option<u64>, now: u64) -> (
    ApplicationRecord,
    SupervisionStep,
) {
    if record.desired_state_code != 1 || !record.auto_restart {
        (record, SupervisionStep::Skip)
    } else if running_since is Some {
        let started = running_since->0;
        if record.recovery_state_code == recovery_code(RecoveryState::Stabilizing)
            && (if now >= started { now - started } else { 0int }) >= record.min_uptime_millis {
            (
                ApplicationRecord {
                    unstable_restart_count: 0u32,
                    next_restart_at_millis: None,
                    recovery_state_code: recovery_code(RecoveryState::Healthy),
                    ..record
                },
                SupervisionStep::Stabilized,
            )
        } else {
            (record, SupervisionStep::Skip)
        }
    } else if record.recovery_state_code == recovery_code(RecoveryState::CircuitOpen) {
        (record, SupervisionStep::Skip)
    } else if record.recovery_state_code != recovery_code(RecoveryState::Backoff) || record.next_restart_at_millis is None {
        (after_unstable_exit(record, now), SupervisionStep::Scheduled)
    } else if record.next_restart_at_millis->0 > now {
        (record, SupervisionStep::Waiting)
    } else {
        (record, SupervisionStep::Restart)
    }
}

/// Decides what supervision does with one application and updates its record.
pub fn plan_supervision(record: &mut ApplicationRecord, running_since: Option<u64>, now: u64) -> (step: SupervisionStep)
    ensures
        (*final(record), step) == supervision_plan(*old(record), running_since, now),
{
    if record.desired_state_code != ApplicationState::Online.code() || !record.auto_restart {
        return SupervisionStep::Skip;
    }
    if let Some(started) = running_since {
        if record.recovery_state_code == RecoveryState::Stabilizing.code()
            && now.saturating_sub(started) >= record.min_uptime_millis {
            record.unstable_restart_count = 0;
            record.next_restart_at_millis = None;
            record.recovery_state_code = RecoveryState::Healthy.code();
            return SupervisionStep::Stabilized;
        }
        return SupervisionStep::Skip;
    }
    if record.recovery_state_code == RecoveryState::CircuitOpen.code() {
        return SupervisionStep::Skip;
    }
    if record.recovery_state_code != RecoveryState::Backoff.code() || record.next_restart_at_millis.is_none() {
        schedule_recovery(record, now);
        return SupervisionStep::Scheduled;
    }
    match record.next_restart_at_millis {
        Some(deadline) => {
            if deadline > now {
                SupervisionStep::Waiting
            } else {
                SupervisionStep::Restart
            }
        },
        None => SupervisionStep::Restart,
    }
}

/// Records the outcome of an automatic restart: a successful one counts and
/// waits for the master to stabilize, a failed one is another unstable exit
/// at time `now`.
pub fn record_restart_outcome(record: &mut ApplicationRecord, succeeded: bool, now: u64)
    ensures
        succeeded ==> *final(record) == (ApplicationRecord {
            total_auto_restart_count: saturating_add_u64(old(record).total_auto_restart_count, 1),
            next_restart_at_millis: None,
            recovery_state_code: recovery_code(RecoveryState::Stabilizing),
            ..*old(record)
        }),
        !succeeded ==> *final(record) == after_unstable_exit(*old(record), now),
{
    if succeeded {
        record.total_auto_restart_count = record.total_auto_restart_count.saturating_add(1);
        record.next_restart_at_millis = None;
        record.recovery_state_code = RecoveryState::Stabilizing.code();
    } else {
        schedule_recovery(record, now);
    }
}

/// Whether a health probe result still describes the application as it is
/// now: online, with the same probe target, and the same master process.
pub fn health_result_applies(
    record: &ApplicationRecord,
    address: &str,
    path: &str,
    running_pid: Option<u32>,
    probed_pid: u32,
) -> (r: bool)
    ensures
        r == (record.desired_state_code == 1 && record.health_check_address is Some
            && record.health_check_address->0@ == address@ && record.health_check_path is Some
            && record.health_check_path->0@ == path@ && running_pid == Some(probed_pid)),
{
    if record.desired_state_code != ApplicationState::Online.code() {
        return false;
    }
    let same_address = match &record.health_check_address {
        Some(current) => str_eq(current.as_str(), address),
        None => false,
    };
    let same_path = match &record.health_check_path {
        Some(current) => str_eq(current.as_str(), path),
        None => false,
    };
    let same_pid = match running_pid {
        Some(pid) => pid == probed_pid,
        None => false,
    };
    same_address && same_path && same_pid
}

/// The record after a health probe finished at `checked_at`: a success resets
/// the failure count; a failure counts, and at the threshold marks the
/// application unhealthy.
pub open spec fn after_health_result(record: ApplicationRecord, checked_at: u64, success: bool) -> ApplicationRecord {
    if success {
        ApplicationRecord {
            last_health_check_at_millis: Some(checked_at),
            consecutive_health_failures: 0u32,
            last_health_success_at_millis: Some(checked_at),
            health_state_code: health_code(HealthState::Healthy),
            ..record
        }
    } else {
        let failures = saturating_incr_u32(record.consecutive_health_failures);
        if failures >= record.health_check_failure_threshold {
            ApplicationRecord {
                last_health_check_at_millis: Some(checked_at),
                consecutive_health_failures: failures,
                health_state_code: health_code(HealthState::Unhealthy),
                total_unhealthy_restart_count: saturating_add_u64(record.total_unhealthy_restart_count, 1),
                ..record
            }
        } else {
            ApplicationRecord {
                last_health_check_at_millis: Some(checked_at),
                consecutive_health_failures: failures,
                health_state_code: health_code(HealthState::Failing),
                ..record
            }
        }
    }
}

/// Applies a health probe result to the record; returns whether the master
/// must now be killed so that recovery restarts it.
pub fn apply_health_result(record: &mut ApplicationRecord, checked_at_millis: u64, success: bool) -> (kill: bool)
    ensures
        *final(record) == after_health_result(*old(record), checked_at_millis, success),
        kill == (final(record).health_state_code == health_code(HealthState::Unhealthy) && !success),
{
    record.last_health_check_at_millis = Some(checked_at_millis);
    if success {
        record.consecutive_health_failures = 0;
        record.last_health_success_at_millis = Some(checked_at_millis);
        record.health_state_code = HealthState::Healthy.code();
        return false;
    }
    record.consecutive_health_failures = record.consecutive_health_failures.saturating_add(1);
    if record.consecutive_health_failures >= record.health_check_failure_threshold {
        record.health_state_code = HealthState::Unhealthy.code();
        record.total_unhealthy_restart_count = record.total_unhealthy_restart_count.saturating_add(1);
        return true;
    }
    record.health_state_code = HealthState::Failing.code();
    false
}

/// Resource warnings of an application for one observation.
pub fn resource_alert_state(record: &ApplicationRecord, resources: &ResourceSnapshot) -> (state: ResourceAlertState)
    ensures
        ({
            let memory = record.memory_warning_bytes is Some && resources.rss_bytes >= record.memory_warning_bytes->0;
            let tasks = record.task_warning_count is Some && resources.tasks >= record.task_warning_count->0;
            state == if !resources.observed {
                ResourceAlertState::Unavailable
            } else if memory && tasks {
                ResourceAlertState::MemoryAndTaskWarning
            } else if memory {
                ResourceAlertState::MemoryWarning
            } else if tasks {
                ResourceAlertState::TaskWarning
            } else {
                ResourceAlertState::Healthy
            }
        }),
{
    if !resources.observed {
        return ResourceAlertState::Unavailable;
    }
    let memory = match record.memory_warning_bytes {
        Some(limit) => resources.rss_bytes >= limit,
        None => false,
    };
    let tasks = match record.task_warning_count {
        Some(limit) => resources.tasks >= limit,
        None => false,
    };
    match (memory, tasks) {
        (false, false) => ResourceAlertState::Healthy,
        (true, false) => ResourceAlertState::MemoryWarning,
        (false, true) => ResourceAlertState::TaskWarning,
        (true, true) => ResourceAlertState::MemoryAndTaskWarning,
    }
}

// ---------------------------------------------------------------------------
// Histories

/// One observation of an application's resources.
#[derive(Clone, Copy, Debug)]
pub struct ResourceHistoryEntry {
    pub observed_at_millis: u64,
    pub state_code: u8,
    pub workers: usize,
    pub rss_bytes: u64,
    pub tasks: u64,
    pub alert_state_code: u8,
}

/// The recent resource observations of one application, oldest first.
#[derive(Clone, Debug)]
pub struct ResourceHistory {
    pub schema_version: u8,
    pub name: String,
    pub entries: Vec<ResourceHistoryEntry>,
}

/// One activation of a release directory.
#[derive(Clone, Debug)]
pub struct DeploymentEntry {
    pub release_directory: String,
    pub activated_at_millis: u64,
    pub event_kind_code: u8,
}

/// The recent deployments of one application, oldest first.
#[derive(Clone, Debug)]
pub struct DeploymentHistory {
    pub schema_version: u8,
    pub name: String,
    pub entries: Vec<DeploymentEntry>,
}

/// The newest `limit` items of `items`.
pub open spec fn retained<T>(items: Seq<T>, limit: nat) -> Seq<T> {
    if items.len() > limit {
        items.skip(items.len() - limit)
    } else {
        items
    }
}

/// Appending to a bounded history keeps at most `limit` entries, the newest
/// one last, and drops only the oldest.
pub proof fn lemma_retention_is_bounded<T>(items: Seq<T>, entry: T, limit: nat)
    requires
        limit > 0,
    ensures
        retained(items.push(entry), limit).len() <= limit,
        retained(items.push(entry), limit).len() == if items.len() + 1 > limit { limit } else { items.len() + 1 },
        retained(items.push(entry), limit).last() == entry,
        forall|i: int| 0 <= i < retained(items.push(entry), limit).len() ==>
            #[trigger] retained(items.push(entry), limit)[i]
                == items.push(entry)[items.len() + 1 - retained(items.push(entry), limit).len() + i],
{
}

pub(crate) fn keep_newest<T>(entries: &mut Vec<T>, limit: usize)
    ensures
        final(entries)@ == retained(old(entries)@, limit as nat),
{
    let len = entries.len();
    if len > limit {
        let newest = entries.split_off(len - limit);
        *entries = newest;
    }
}

/// Records a resource observation, keeping the newest 120.
pub fn append_resource_entry(history: &mut ResourceHistory, entry: ResourceHistoryEntry)
    ensures
        final(history).schema_version == old(history).schema_version,
        final(history).name == old(history).name,
        final(history).entries@ == retained(old(history).entries@.push(entry), MAX_RESOURCE_HISTORY as nat),
{
    history.entries.push(entry);
    keep_newest(&mut history.entries, MAX_RESOURCE_HISTORY);
}

/// Records a deployment, keeping the newest 50.
pub fn append_deployment_entry(history: &mut DeploymentHistory, entry: DeploymentEntry)
    ensures
        final(history).schema_version == old(history).schema_version,
        final(history).name == old(history).name,
        final(history).entries@ == retained(old(history).entries@.push(entry), MAX_DEPLOY_HISTORY as nat),
{
    history.entries.push(entry);
    keep_newest(&mut history.entries, MAX_DEPLOY_HISTORY);
}

// ---------------------------------------------------------------------------
// Commands, log names and the service unit

/// The text of each argument.
pub open spec fn texts(items: Seq<String>) -> Seq<Seq<char>> {
    items.map_values(|item: String| item@)
}

/// Index of the first item equal to `target`, or the length when none is.
pub open spec fn first_position(items: Seq<Seq<char>>, target: Seq<char>) -> int
    decreases items.len(),
{
    if items.len() == 0 {
        0
    } else if items[0] == target {
        0
    } else {
        1 + first_position(items.drop_first(), target)
    }
}

proof fn lemma_first_position(items: Seq<Seq<char>>, target: Seq<char>, i: int)
    requires
        0 <= i <= items.len(),
        forall|k: int| 0 <= k < i ==> items[k] != target,
        i == items.len() || items[i] == target,
    ensures
        first_position(items, target) == i,
    decreases i,
{
    if i > 0 {
        assert forall|k: int| 0 <= k < i - 1 implies items.drop_first()[k] != target by {
            assert(items.drop_first()[k] == items[k + 1]);
        }
        if i < items.len() {
            assert(items.drop_first()[i - 1] == items[i]);
        }
        lemma_first_position(items.drop_first(), target, i - 1);
    }
}

fn position_of(command: &Vec<String>, target: &str) -> (i: usize)
    ensures
        i as int == first_position(texts(command@), target@),
        i <= command@.len(),
{
    let mut i: usize = 0;
    while i < command.len()
        invariant
            i <= command@.len(),
            forall|k: int| 0 <= k < i ==> texts(command@)[k] != target@,
        decreases command.len() - i,
    {
        if str_eq(command[i].as_str(), target) {
            proof {
                lemma_first_position(texts(command@), target@, i as int);
            }
            return i;
        }
        i = i + 1;
    }
    proof {
        lemma_first_position(texts(command@), target@, i as int);
    }
    i
}

/// The arguments after setting `option` to `value`: the value after an
/// existing option is replaced; otherwise the pair goes before the first `--`,
/// or at the end.
pub open spec fn with_option(command: Seq<Seq<char>>, option: Seq<char>, value: Seq<char>) -> Seq<Seq<char>> {
    let i = first_position(command, option);
    if i + 1 < command.len() {
        command.update(i + 1, value)
    } else {
        let j = first_position(command, "--"@);
        command.take(j) + seq![option, value] + command.skip(j)
    }
}

/// Sets a command-line option to a value in a launch command.
pub fn set_command_option(command: &mut Vec<String>, option: &str, value: &str)
    ensures
        texts(final(command)@) == with_option(texts(old(command)@), option@, value@),
{
    let index = position_of(command, option);
    if index < command.len() && index + 1 < command.len() {
        command.set(index + 1, String::from_str(value));
        proof {
            assert(texts(command@) =~= texts(old(command)@).update(index + 1, value@));
        }
        return;
    }
    let separator = position_of(command, "--");
    command.insert(separator, String::from_str(value));
    command.insert(separator, String::from_str(option));
    proof {
        assert(texts(command@) =~= texts(old(command)@).take(separator as int) + seq![option@, value@]
            + texts(old(command)@).skip(separator as int));
    }
}

/// Setting an option that a command does not hold yet keeps every old
/// argument in place and order and adds the option and its value once: at
/// the end when the command holds no `--`, else just before the first `--`.
/// Where the option is followed by a value, only that value changes. Either
/// way the program (the first argument) stays, unless it is itself `--`.
pub proof fn lemma_setting_an_option(command: Seq<Seq<char>>, option: Seq<char>, value: Seq<char>)
    ensures
        (forall|k: int| 0 <= k < command.len() ==> #[trigger] command[k] != option) && (forall|k: int|
            0 <= k < command.len() ==> #[trigger] command[k] != "--"@) ==> with_option(command, option, value) == command
            + seq![option, value],
        forall|j: int| 0 <= j < command.len() && #[trigger] command[j] == "--"@ && (forall|k: int| 0 <= k < j ==> command[k]
            != "--"@) && (forall|k: int| 0 <= k < command.len() ==> command[k] != option) ==> with_option(
            command,
            option,
            value,
        ) == command.take(j) + seq![option, value] + command.skip(j),
        forall|i: int| 0 <= i && i + 1 < command.len() && #[trigger] command[i] == option && (forall|k: int| 0 <= k < i
            ==> command[k] != option) ==> with_option(command, option, value) == command.update(i + 1, value),
        command.len() > 0 && command[0] != "--"@ ==> with_option(command, option, value).len() > 0 && with_option(
            command,
            option,
            value,
        )[0] == command[0],
{
    if forall|k: int| 0 <= k < command.len() ==> #[trigger] command[k] != option {
        lemma_first_position(command, option, command.len() as int);
    }
    if forall|k: int| 0 <= k < command.len() ==> #[trigger] command[k] != "--"@ {
        lemma_first_position(command, "--"@, command.len() as int);
        assert(command.take(command.len() as int) =~= command);
        assert(command.skip(command.len() as int) =~= Seq::<Seq<char>>::empty());
    }
    assert forall|j: int| 0 <= j < command.len() && #[trigger] command[j] == "--"@ && (forall|k: int| 0 <= k < j
        ==> command[k] != "--"@) && (forall|k: int| 0 <= k < command.len() ==> command[k] != option) implies with_option(
        command,
        option,
        value,
    ) == command.take(j) + seq![option, value] + command.skip(j) by {
        lemma_first_position(command, "--"@, j);
        lemma_first_position(command, option, command.len() as int);
    }
    assert forall|i: int| 0 <= i && i + 1 < command.len() && #[trigger] command[i] == option && (forall|k: int| 0 <= k < i
        ==> command[k] != option) implies with_option(command, option, value) == command.update(i + 1, value) by {
        lemma_first_position(command, option, i);
    }
    if command.len() > 0 && command[0] != "--"@ {
        lemma_first_position_bounds(command, option);
        lemma_first_position_bounds(command, "--"@);
        let i = first_position(command, option);
        if !(i + 1 < command.len()) {
            let j = first_position(command, "--"@);
            if j == 0 {
                assert(command[0] == "--"@);
            }
            assert((command.take(j) + seq![option, value] + command.skip(j))[0] == command[0]);
        }
    }
}

proof fn lemma_first_position_bounds(items: Seq<Seq<char>>, target: Seq<char>)
    ensures
        0 <= first_position(items, target) <= items.len(),
        first_position(items, target) < items.len() ==> items[first_position(items, target)] == target,
    decreases items.len(),
{
    if items.len() > 0 && items[0] != target {
        lemma_first_position_bounds(items.drop_first(), target);
    }
}

/// The name of the `index`-th rotated copy of a log file.
pub fn rotated_log_path(path: &str, index: usize) -> (r: String)
    ensures
        r@ == path@ + seq!['.'] + decimal_text(index as nat),
{
    let mut out = String::from_str(path);
    push_char(&mut out, '.');
    push_decimal_text(&mut out, index as u64);
    out
}

/// A path as systemd reads it in `ExecStart=`: `%` doubled, spaces as `\x20`.
pub open spec fn unit_escaped(path: Seq<char>) -> Seq<char>
    decreases path.len(),
{
    if path.len() == 0 {
        Seq::empty()
    } else {
        let c = path.last();
        unit_escaped(path.drop_last()) + if c == '%' {
            seq!['%', '%']
        } else if c == ' ' {
            seq!['\\', 'x', '2', '0']
        } else {
            seq![c]
        }
    }
}

fn escape_unit_path(path: &str) -> (r: String)
    ensures
        r@ == unit_escaped(path@),
{
    let chars = crate::text::chars_of(path);
    let mut out = String::new();
    let mut i: usize = 0;
    while i < chars.len()
        invariant
            chars@ == path@,
            i <= chars@.len(),
            out@ == unit_escaped(path@.take(i as int)),
        decreases chars.len() - i,
    {
        let c = chars[i];
        if c == '%' {
            push_char(&mut out, '%');
            push_char(&mut out, '%');
        } else if c == ' ' {
            push_char(&mut out, '\\');
            push_char(&mut out, 'x');
            push_char(&mut out, '2');
            push_char(&mut out, '0');
        } else {
            push_char(&mut out, c);
        }
        proof {
            assert(path@.take(i + 1).drop_last() =~= path@.take(i as int));
        }
        i = i + 1;
    }
    proof {
        assert(path@.take(chars@.len() as int) =~= path@);
    }
    out
}

pub open spec fn unit_head() -> Seq<char> {
    "[Unit]\nDescription=PAM per-user process manager\nAfter=network.target\n\n[Service]\nType=simple\nExecStart="@
}

pub open spec fn unit_middle() -> Seq<char> {
    " __pamd\nExecStop="@
}

pub open spec fn unit_tail() -> Seq<char> {
    " daemon stop\nRestart=on-failure\nRestartSec=1\nNoNewPrivileges=true\nPrivateTmp=true\nProtectSystem=strict\n\n[Install]\nWantedBy=default.target\n"@
}

/// The systemd user unit that runs the daemon of the executable at `executable`.
pub fn systemd_unit(executable: &str) -> (r: Result<String, String>)
    ensures
        match r {
            Ok(unit) => !executable@.contains('\n') && !executable@.contains('\r') && unit@ == unit_head()
                + unit_escaped(executable@) + unit_middle() + unit_escaped(executable@) + unit_tail(),
            Err(e) => (executable@.contains('\n') || executable@.contains('\r'))
                && e@ == "PAM executable path cannot contain control characters"@,
        },
{
    let chars = crate::text::chars_of(executable);
    let mut i: usize = 0;
    while i < chars.len()
        invariant
            chars@ == executable@,
            i <= chars@.len(),
            forall|k: int| 0 <= k < i ==> chars@[k] != '\n' && chars@[k] != '\r',
        decreases chars.len() - i,
    {
        if chars[i] == '\n' || chars[i] == '\r' {
            proof {
                if chars@[i as int] == '\n' {
                    assert(executable@.contains('\n'));
                } else {
                    assert(executable@.contains('\r'));
                }
            }
            return Err(String::from_str("PAM executable path cannot contain control characters"));
        }
        i = i + 1;
    }
    let escaped = escape_unit_path(executable);
    let mut unit = String::from_str("[Unit]\nDescription=PAM per-user process manager\nAfter=network.target\n\n[Service]\nType=simple\nExecStart=");
    unit.append(escaped.as_str());
    unit.append(" __pamd\nExecStop=");
    unit.append(escaped.as_str());
    unit.append(" daemon stop\nRestart=on-failure\nRestartSec=1\nNoNewPrivileges=true\nPrivateTmp=true\nProtectSystem=strict\n\n[Install]\nWantedBy=default.target\n");
    Ok(unit)
}

/// The commands that run inside the daemon rather than in the caller.
pub open spec fn is_managed_command(c: Seq<char>) -> bool {
    c == "up"@ || c == "ps"@ || c == "status"@ || c == "describe"@ || c == "reload"@ || c == "restart"@
        || c == "scale"@ || c == "stop"@ || c == "delete"@ || c == "save"@ || c == "resurrect"@
        || c == "monit"@ || c == "monit:history"@ || c == "dashboard"@ || c == "dashboard:start"@
        || c == "dashboard:status"@ || c == "dashboard:stop"@ || c == "deploy"@ || c == "deploy:history"@
        || c == "rollback"@ || c == "traffic:start"@ || c == "traffic:set"@ || c == "traffic:promote"@
        || c == "traffic:abort"@ || c == "traffic:status"@ || c == "traffic:evaluate"@ || c == "traffic:stop"@
}

/// Whether a command runs inside the daemon.
pub fn daemon_managed_command(command: &str) -> (r: bool)
    ensures
        r == is_managed_command(command@),
{
    str_eq(command, "up") || str_eq(command, "ps") || str_eq(command, "status") || str_eq(command, "describe")
        || str_eq(command, "reload") || str_eq(command, "restart") || str_eq(command, "scale")
        || str_eq(command, "stop") || str_eq(command, "delete") || str_eq(command, "save")
        || str_eq(command, "resurrect") || str_eq(command, "monit") || str_eq(command, "monit:history")
        || str_eq(command, "dashboard") || str_eq(command, "dashboard:start") || str_eq(command, "dashboard:status")
        || str_eq(command, "dashboard:stop") || str_eq(command, "deploy") || str_eq(command, "deploy:history")
        || str_eq(command, "rollback") || str_eq(command, "traffic:start") || str_eq(command, "traffic:set")
        || str_eq(command, "traffic:promote") || str_eq(command, "traffic:abort") || str_eq(command, "traffic:status")
        || str_eq(command, "traffic:evaluate") || str_eq(command, "traffic:stop")
}

/// Compares two SHA-256 digests in time independent of where they differ.
pub fn constant_time_digest_eq(expected: &[u8; 32], supplied: &[u8; 32]) -> (r: bool)
    ensures
        r == (expected@ == supplied@),
{
    let mut difference: u8 = 0;
    let mut i: usize = 0;
    while i < 32
        invariant
            i <= 32,
            expected@.len() == 32,
            supplied@.len() == 32,
            (difference == 0) == (forall|k: int| 0 <= k < i ==> expected@[k] == supplied@[k]),
        decreases 32 - i,
    {
        let left = expected[i];
        let right = supplied[i];
        let d = difference;
        assert(((d | (left ^ right)) == 0u8) == (d == 0u8 && left == right)) by (bit_vector);
        difference = difference | (left ^ right);
        i = i + 1;
    }
    proof {
        if difference == 0 {
            assert(expected@ =~= supplied@);
        }
    }
    difference == 0
}

// ---------------------------------------------------------------------------
// Health check targets

/// The authority and path of a health check URL: the text after `http://`
/// up to the first `/`, and the rest starting at that `/` (just `/` when
/// there is none).
pub open spec fn health_url_parts(value: Seq<char>) -> Option<(Seq<char>, Seq<char>)> {
    let scheme = "http://"@;
    if value.len() < scheme.len() || value.take(scheme.len() as int) != scheme {
        None
    } else {
        let rest = value.skip(scheme.len() as int);
        let k = first_char(rest, '/');
        if k < rest.len() {
            Some((rest.take(k), rest.skip(k)))
        } else {
            Some((rest, seq!['/']))
        }
    }
}

/// Splits a health check URL into the authority (an `IP:port` to be parsed by
/// the caller) and the request path.
pub fn split_health_check_url(value: &str) -> (r: Result<(String, String), String>)
    ensures
        match (r, health_url_parts(value@)) {
            (Ok((authority, path)), Some((a, p))) => authority@ == a && path@ == p,
            (Err(e), None) => e@ == "health check URL must use http://"@,
            _ => false,
        },
{
    let chars = crate::text::chars_of(value);
    let scheme = crate::text::chars_of("http://");
    proof {
        reveal_strlit("http://");
    }
    let mut matches = chars.len() >= 7;
    if matches {
        let mut i: usize = 0;
        while i < 7
            invariant
                i <= 7,
                chars@ == value@,
                scheme@ == "http://"@,
                scheme@.len() == 7,
                chars@.len() >= 7,
                matches == (forall|k: int| 0 <= k < i ==> chars@[k] == scheme@[k]),
            decreases 7 - i,
        {
            if chars[i] != scheme[i] {
                matches = false;
            }
            i = i + 1;
        }
        proof {
            if matches {
                assert(value@.take(7) =~= "http://"@);
            } else {
                assert(value@.take(7) != "http://"@);
            }
        }
    }
    if !matches {
        return Err(String::from_str("health check URL must use http://"));
    }
    let len = chars.len();
    let mut k: usize = 7;
    while k < len && chars[k] != '/'
        invariant
            7 <= k <= len,
            len == chars@.len(),
            forall|j: int| 7 <= j < k ==> chars@[j] != '/',
        decreases len - k,
    {
        k = k + 1;
    }
    proof {
        let rest = value@.skip(7);
        assert forall|j: int| 0 <= j < k - 7 implies rest[j] != '/' by {
            assert(rest[j] == chars@[j + 7]);
        }
        if k < len {
            assert(rest[k - 7] == chars@[k as int]);
        }
        lemma_first_char(rest, '/', k - 7);
        assert(rest.take(k - 7) =~= chars@.subrange(7, k as int));
        assert(rest.skip(k - 7) =~= chars@.subrange(k as int, len as int));
        assert(rest =~= chars@.subrange(7, len as int));
    }
    let authority = crate::text::string_of(&chars, 7, k);
    if k < len {
        Ok((authority, crate::text::string_of(&chars, k, len)))
    } else {
        proof {
            reveal_strlit("/");
        }
        Ok((authority, String::from_str("/")))
    }
}

/// Whether `s` holds `%0d` or `%0a` in either case.
pub open spec fn has_encoded_line_break(s: Seq<char>) -> bool {
    exists|i: int| 0 <= i && i + 2 < s.len() && #[trigger] s[i] == '%' && s[i + 1] == '0'
        && (s[i + 2] == 'd' || s[i + 2] == 'D' || s[i + 2] == 'a' || s[i + 2] == 'A')
}

/// A request path safe to send in a health probe.
pub open spec fn valid_health_path(path: Seq<char>) -> bool {
    &&& encode_utf8(path).len() <= MAX_HEALTH_PATH_BYTES
    &&& path.len() > 0 && path[0] == '/'
    &&& !path.contains('\0') && !path.contains('\r') && !path.contains('\n') && !path.contains(' ')
    &&& !has_encoded_line_break(path)
}

/// Accepts a health probe path of at most 1024 bytes that starts with `/`
/// and can carry no control characters, spaces or encoded line breaks.
pub fn validate_health_check_path(path: &str) -> (r: Result<(), String>)
    ensures
        r.is_ok() == valid_health_path(path@),
        r matches Err(e) ==> e@ == "health check path is invalid or exceeds 1024 bytes"@,
{
    let byte_len = path.as_bytes().len();
    let chars = crate::text::chars_of(path);
    let len = chars.len();
    let mut ok = byte_len <= MAX_HEALTH_PATH_BYTES && len > 0 && chars[0] == '/';
    let mut i: usize = 0;
    while i < len
        invariant
            chars@ == path@,
            len == chars@.len(),
            i <= len,
            ok ==> (forall|k: int| 0 <= k < i ==> chars@[k] != '\0' && chars@[k] != '\r' && chars@[k] != '\n' && chars@[k] != ' '),
            ok ==> (forall|k: int| 0 <= k < i && k + 2 < len ==> !(#[trigger] chars@[k] == '%' && chars@[k + 1] == '0'
                && (chars@[k + 2] == 'd' || chars@[k + 2] == 'D' || chars@[k + 2] == 'a' || chars@[k + 2] == 'A'))),
            !ok ==> !valid_health_path(path@),
            ok ==> encode_utf8(path@).len() <= MAX_HEALTH_PATH_BYTES && len > 0 && chars@[0] == '/',
        decreases len - i,
    {
        let c = chars[i];
        if c == '\0' || c == '\r' || c == '\n' || c == ' ' {
            proof {
                assert(path@[i as int] == c);
            }
            ok = false;
        }
        if len >= 2 && i < len - 2 && c == '%' && chars[i + 1] == '0' {
            let t = chars[i + 2];
            if t == 'd' || t == 'D' || t == 'a' || t == 'A' {
                proof {
                    assert(has_encoded_line_break(path@));
                }
                ok = false;
            }
        }
        i = i + 1;
    }
    if ok {
        proof {
            assert(!path@.contains('\0'));
            assert(!path@.contains('\r'));
            assert(!path@.contains('\n'));
            assert(!path@.contains(' '));
        }
        Ok(())
    } else {
        Err(String::from_str("health check path is invalid or exceeds 1024 bytes"))
    }
}

// ---------------------------------------------------------------------------
// Reconciling an application with its ecosystem declaration

/// The supervision policy an ecosystem file declares for one application,
/// after its environment file and health check URL were resolved.
#[derive(Clone, Debug)]
pub struct DeclaredPolicy {
    pub workers: usize,
    pub environment_file: Option<String>,
    pub health_check_address: Option<String>,
    pub health_check_path: Option<String>,
    pub health_check_interval_millis: u64,
    pub health_check_timeout_millis: u64,
    pub health_check_start_period_millis: u64,
    pub health_check_failure_threshold: u32,
    pub shutdown_timeout_millis: u64,
    pub auto_restart: bool,
    pub restart_delay_millis: u64,
    pub restart_backoff_max_millis: u64,
    pub max_unstable_restarts: u32,
    pub min_uptime_millis: u64,
    pub memory_warning_bytes: Option<u64>,
    pub task_warning_count: Option<u64>,
    pub memory_max_bytes: Option<u64>,
    pub task_max_count: Option<u64>,
}

/// Which parts of an existing record differ from the declaration.
#[derive(Clone, Copy, Debug, PartialEq, Eq, Structural)]
pub struct PolicyChanges {
    pub policy: bool,
    pub limits: bool,
    pub environment: bool,
    pub health: bool,
}

pub open spec fn optional_text(value: Option<String>) -> Option<Seq<char>> {
    match value {
        Some(text) => Some(text@),
        None => None,
    }
}

/// The differences between a record and a declaration.
pub open spec fn policy_changes(record: ApplicationRecord, declared: DeclaredPolicy) -> PolicyChanges {
    PolicyChanges {
        limits: record.memory_max_bytes != declared.memory_max_bytes || record.task_max_count != declared.task_max_count,
        environment: optional_text(record.environment_file) != optional_text(declared.environment_file),
        health: optional_text(record.health_check_address) != optional_text(declared.health_check_address)
            || optional_text(record.health_check_path) != optional_text(declared.health_check_path)
            || record.health_check_interval_millis != declared.health_check_interval_millis
            || record.health_check_timeout_millis != declared.health_check_timeout_millis
            || record.health_check_start_period_millis != declared.health_check_start_period_millis
            || record.health_check_failure_threshold != declared.health_check_failure_threshold,
        policy: record.memory_warning_bytes != declared.memory_warning_bytes
            || record.task_warning_count != declared.task_warning_count
            || record.auto_restart != declared.auto_restart
            || record.restart_delay_millis != declared.restart_delay_millis
            || record.restart_backoff_max_millis != declared.restart_backoff_max_millis
            || record.max_unstable_restarts != declared.max_unstable_restarts
            || record.min_uptime_millis != declared.min_uptime_millis
            || record.shutdown_timeout_millis != declared.shutdown_timeout_millis,
    }
}

fn same_optional_text(a: &Option<String>, b: &Option<String>) -> (r: bool)
    ensures
        r == (optional_text(*a) == optional_text(*b)),
{
    match (a, b) {
        (Some(x), Some(y)) => str_eq(x.as_str(), y.as_str()),
        (None, None) => true,
        _ => false,
    }
}

fn copy_optional_text(value: &Option<String>) -> (r: Option<String>)
    ensures
        optional_text(r) == optional_text(*value),
{
    match value {
        Some(text) => Some(String::from_str(text.as_str())),
        None => None,
    }
}

/// Compares an application record with its declaration and, where anything
/// differs, takes over the declared policy: health bookkeeping starts afresh,
/// and recovery is disabled when automatic restarts are.
pub fn reconcile_record(record: &mut ApplicationRecord, declared: &DeclaredPolicy) -> (changes: PolicyChanges)
    ensures
        changes == policy_changes(*old(record), *declared),
        !(changes.policy || changes.limits || changes.environment || changes.health) ==> *final(record) == *old(record),
        (changes.policy || changes.limits || changes.environment || changes.health) ==> {
            &&& final(record).memory_warning_bytes == declared.memory_warning_bytes
            &&& final(record).task_warning_count == declared.task_warning_count
            &&& final(record).memory_max_bytes == declared.memory_max_bytes
            &&& final(record).task_max_count == declared.task_max_count
            &&& final(record).auto_restart == declared.auto_restart
            &&& final(record).restart_delay_millis == declared.restart_delay_millis
            &&& final(record).restart_backoff_max_millis == declared.restart_backoff_max_millis
            &&& final(record).max_unstable_restarts == declared.max_unstable_restarts
            &&& final(record).min_uptime_millis == declared.min_uptime_millis
            &&& final(record).shutdown_timeout_millis == declared.shutdown_timeout_millis
            &&& optional_text(final(record).environment_file) == optional_text(declared.environment_file)
            &&& optional_text(final(record).health_check_address) == optional_text(declared.health_check_address)
            &&& optional_text(final(record).health_check_path) == optional_text(declared.health_check_path)
            &&& final(record).health_check_interval_millis == declared.health_check_interval_millis
            &&& final(record).health_check_timeout_millis == declared.health_check_timeout_millis
            &&& final(record).health_check_start_period_millis == declared.health_check_start_period_millis
            &&& final(record).health_check_failure_threshold == declared.health_check_failure_threshold
            &&& final(record).consecutive_health_failures == 0
            &&& final(record).last_health_check_at_millis is None
            &&& final(record).health_state_code == initial_health(declared.health_check_address is Some,
                declared.health_check_start_period_millis)
            &&& final(record).recovery_state_code == if declared.auto_restart {
                old(record).recovery_state_code
            } else {
                recovery_code(RecoveryState::Disabled)
            }
            &&& final(record).next_restart_at_millis == if declared.auto_restart {
                old(record).next_restart_at_millis
            } else {
                None
            }
            &&& final(record).name == old(record).name
            &&& final(record).command == old(record).command
            &&& final(record).desired_state_code == old(record).desired_state_code
            &&& final(record).unstable_restart_count == old(record).unstable_restart_count
            &&& final(record).schema_version == old(record).schema_version
            &&& final(record).kind_code == old(record).kind_code
            &&& final(record).working_directory == old(record).working_directory
            &&& final(record).master_state_file == old(record).master_state_file
            &&& final(record).stdout_log == old(record).stdout_log
            &&& final(record).stderr_log == old(record).stderr_log
            &&& final(record).log_max_bytes == old(record).log_max_bytes
            &&& final(record).log_retain == old(record).log_retain
            &&& final(record).last_health_success_at_millis == old(record).last_health_success_at_millis
            &&& final(record).total_unhealthy_restart_count == old(record).total_unhealthy_restart_count
            &&& final(record).total_auto_restart_count == old(record).total_auto_restart_count
            &&& final(record).created_at_millis == old(record).created_at_millis
        },
{
    let limits = record.memory_max_bytes != declared.memory_max_bytes || record.task_max_count != declared.task_max_count;
    let environment = !same_optional_text(&record.environment_file, &declared.environment_file);
    let health = !same_optional_text(&record.health_check_address, &declared.health_check_address)
        || !same_optional_text(&record.health_check_path, &declared.health_check_path)
        || record.health_check_interval_millis != declared.health_check_interval_millis
        || record.health_check_timeout_millis != declared.health_check_timeout_millis
        || record.health_check_start_period_millis != declared.health_check_start_period_millis
        || record.health_check_failure_threshold != declared.health_check_failure_threshold;
    let policy = record.memory_warning_bytes != declared.memory_warning_bytes
        || record.task_warning_count != declared.task_warning_count
        || record.auto_restart != declared.auto_restart
        || record.restart_delay_millis != declared.restart_delay_millis
        || record.restart_backoff_max_millis != declared.restart_backoff_max_millis
        || record.max_unstable_restarts != declared.max_unstable_restarts
        || record.min_uptime_millis != declared.min_uptime_millis
        || record.shutdown_timeout_millis != declared.shutdown_timeout_millis;
    if policy || limits || environment || health {
        record.memory_warning_bytes = declared.memory_warning_bytes;
        record.task_warning_count = declared.task_warning_count;
        record.memory_max_bytes = declared.memory_max_bytes;
        record.task_max_count = declared.task_max_count;
        record.auto_restart = declared.auto_restart;
        record.restart_delay_millis = declared.restart_delay_millis;
        record.restart_backoff_max_millis = declared.restart_backoff_max_millis;
        record.max_unstable_restarts = declared.max_unstable_restarts;
        record.min_uptime_millis = declared.min_uptime_millis;
        record.shutdown_timeout_millis = declared.shutdown_timeout_millis;
        record.environment_file = copy_optional_text(&declared.environment_file);
        record.health_check_address = copy_optional_text(&declared.health_check_address);
        record.health_check_path = copy_optional_text(&declared.health_check_path);
        record.health_check_interval_millis = declared.health_check_interval_millis;
        record.health_check_timeout_millis = declared.health_check_timeout_millis;
        record.health_check_start_period_millis = declared.health_check_start_period_millis;
        record.health_check_failure_threshold = declared.health_check_failure_threshold;
        record.consecutive_health_failures = 0;
        record.last_health_check_at_millis = None;
        record.health_state_code = initial_health_state(
            record.health_check_address.is_some(),
            record.health_check_start_period_millis,
        );
        if !record.auto_restart {
            record.recovery_state_code = RecoveryState::Disabled.code();
            record.next_restart_at_millis = None;
        }
    }
    PolicyChanges { policy, limits, environment, health }
}

/// What reconciling an existing, enabled application must still do.
#[derive(Clone, Copy, Debug, PartialEq, Eq, Structural)]
pub enum ReconcileStep {
    /// Restart the running master so that it picks up the new configuration.
    RestartRunning,
    /// Start the application again: its master is not running.
    Start,
    /// Change the number of workers of the running master.
    Scale,
    /// Nothing to run.
    Done,
}

/// The next step and the reported action for an existing, enabled
/// application, given whether its master runs and with how many workers.
pub open spec fn reconcile_plan(changes: PolicyChanges, running_workers: Option<usize>, declared_workers: usize) -> (
    ReconcileStep,
    ReconcileAction,
) {
    if (changes.limits || changes.environment || changes.health) && running_workers is Some {
        (ReconcileStep::RestartRunning, if changes.limits {
            ReconcileAction::ResourceLimitsUpdated
        } else {
            ReconcileAction::Restarted
        })
    } else if running_workers is None {
        (ReconcileStep::Start, ReconcileAction::Restarted)
    } else if running_workers->0 != declared_workers {
        (ReconcileStep::Scale, ReconcileAction::Scaled)
    } else if changes.policy {
        (ReconcileStep::Done, ReconcileAction::PolicyUpdated)
    } else {
        (ReconcileStep::Done, ReconcileAction::Unchanged)
    }
}

/// Decides how to bring an existing, enabled application in line with its
/// declaration.
pub fn reconcile_next_step(changes: PolicyChanges, running_workers: Option<usize>, declared_workers: usize) -> (r: (
    ReconcileStep,
    ReconcileAction,
))
    ensures
        r == reconcile_plan(changes, running_workers, declared_workers),
{
    let configuration_changed = changes.limits || changes.environment || changes.health;
    match running_workers {
        Some(workers) => {
            if configuration_changed {
                if changes.limits {
                    (ReconcileStep::RestartRunning, ReconcileAction::ResourceLimitsUpdated)
                } else {
                    (ReconcileStep::RestartRunning, ReconcileAction::Restarted)
                }
            } else if workers != declared_workers {
                (ReconcileStep::Scale, ReconcileAction::Scaled)
            } else if changes.policy {
                (ReconcileStep::Done, ReconcileAction::PolicyUpdated)
            } else {
                (ReconcileStep::Done, ReconcileAction::Unchanged)
            }
        },
        None => (ReconcileStep::Start, ReconcileAction::Restarted),
    }
}

} // verus!
