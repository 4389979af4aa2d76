use pam::process_manager::{
    append_deployment_entry, append_resource_entry, apply_health_result, constant_time_digest_eq,
    daemon_managed_command, earliest_deadline, health_start_period_elapsed, initial_health_state,
    next_supervision_delay, plan_supervision, reconcile_next_step, record_restart_outcome,
    reset_recovery, resource_alert_state, rotated_log_path, schedule_recovery, set_command_option,
    split_health_check_url, systemd_unit, validate_health_check_path, validate_health_start_period,
    validate_health_timing, validate_name, validate_recovery_policy, validate_resource_policy,
    validate_shutdown_policy, ApplicationKind, ApplicationRecord, ApplicationState,
    DaemonOperation, DeploymentAction, DeploymentEntry, DeploymentEventKind, DeploymentHistory,
    HealthState, LogStream, PolicyChanges, ReconcileAction, ReconcileStep, RecoveryState,
    ResourceAlertState, ResourceEnforcementState, ResourceHistory, ResourceHistoryEntry,
    RolloutDecision, RolloutPhase, SupervisionStep, DEFAULT_HEALTH_FAILURE_THRESHOLD,
    DEFAULT_HEALTH_INTERVAL_MILLIS, DEFAULT_HEALTH_TIMEOUT_MILLIS, DEFAULT_LOG_MAX_BYTES,
    DEFAULT_LOG_RETAIN, DEFAULT_SHUTDOWN_TIMEOUT_MILLIS, MAX_DEPLOY_HISTORY,
    MAX_RESOURCE_HISTORY, MAX_SHUTDOWN_TIMEOUT_MILLIS, MIN_SHUTDOWN_TIMEOUT_MILLIS,
    SUPERVISION_INTERVAL_MILLIS,
};
use pam::resource_monitor::ResourceSnapshot;
use std::time::Duration;

fn record() -> ApplicationRecord {
    ApplicationRecord {
        schema_version: 2,
        name: "api".to_owned(),
        kind_code: 1,
        working_directory: "/srv/api".to_owned(),
        command: vec!["pam".to_owned(), "start".to_owned()],
        master_state_file: "state.json".to_owned(),
        stdout_log: "out.log".to_owned(),
        stderr_log: "error.log".to_owned(),
        log_max_bytes: DEFAULT_LOG_MAX_BYTES,
        log_retain: DEFAULT_LOG_RETAIN,
        memory_warning_bytes: None,
        task_warning_count: None,
        memory_max_bytes: None,
        task_max_count: None,
        environment_file: None,
        shutdown_timeout_millis: DEFAULT_SHUTDOWN_TIMEOUT_MILLIS,
        health_check_address: None,
        health_check_path: None,
        health_check_interval_millis: DEFAULT_HEALTH_INTERVAL_MILLIS,
        health_check_timeout_millis: DEFAULT_HEALTH_TIMEOUT_MILLIS,
        health_check_start_period_millis: 0,
        health_check_failure_threshold: DEFAULT_HEALTH_FAILURE_THRESHOLD,
        consecutive_health_failures: 0,
        last_health_check_at_millis: None,
        last_health_success_at_millis: None,
        health_state_code: HealthState::Disabled.code(),
        total_unhealthy_restart_count: 0,
        desired_state_code: ApplicationState::Online.code(),
        auto_restart: true,
        restart_delay_millis: 100,
        restart_backoff_max_millis: 250,
        max_unstable_restarts: 3,
        min_uptime_millis: 1_000,
        unstable_restart_count: 0,
        total_auto_restart_count: 0,
        next_restart_at_millis: None,
        recovery_state_code: RecoveryState::Healthy.code(),
        created_at_millis: 1,
    }
}

#[test]
fn application_names_are_bounded_and_path_safe() {
    for accepted in ["api", "billing-api", "tenant_1", "api.production"] {
        assert!(validate_name(accepted).is_ok());
    }
    for rejected in ["", ".", "..", "../api", "api/log", "ápi"] {
        assert!(validate_name(rejected).is_err(), "{rejected}");
    }
}

#[test]
fn public_integer_codes_are_sequential() {
    assert_eq!(
        [
            DaemonOperation::Ping.code(),
            DaemonOperation::Stop.code(),
            DaemonOperation::Execute.code(),
        ],
        [1, 2, 3]
    );
    assert_eq!(
        [
            ApplicationKind::Runtime.code(),
            ApplicationKind::LaravelOctane.code()
        ],
        [1, 2]
    );
    assert_eq!(
        [
            ReconcileAction::Created.code(),
            ReconcileAction::Unchanged.code(),
            ReconcileAction::Scaled.code(),
            ReconcileAction::Restarted.code(),
            ReconcileAction::Disabled.code(),
            ReconcileAction::PolicyUpdated.code(),
            ReconcileAction::ResourceLimitsUpdated.code(),
        ],
        [1, 2, 3, 4, 5, 6, 7]
    );
    assert_eq!(
        [
            DeploymentEventKind::Baseline.code(),
            DeploymentEventKind::Deploy.code(),
            DeploymentEventKind::Rollback.code(),
        ],
        [1, 2, 3]
    );
    assert_eq!(
        [
            DeploymentAction::Activated.code(),
            DeploymentAction::RolledBack.code(),
            DeploymentAction::Unchanged.code(),
        ],
        [1, 2, 3]
    );
    assert_eq!(
        [
            ApplicationState::Online.code(),
            ApplicationState::Stopped.code()
        ],
        [1, 2]
    );
    assert_eq!(
        [
            RolloutPhase::Stable.code(),
            RolloutPhase::Evaluating.code(),
            RolloutPhase::Promoted.code(),
            RolloutPhase::Aborted.code(),
        ],
        [1, 2, 3, 4]
    );
    assert_eq!(
        [
            RolloutDecision::Pending.code(),
            RolloutDecision::Promoted.code(),
            RolloutDecision::Aborted.code(),
            RolloutDecision::DeadlineAborted.code(),
        ],
        [1, 2, 3, 4]
    );
    assert_eq!(
        [
            LogStream::StandardOutput.code(),
            LogStream::StandardError.code(),
        ],
        [1, 2]
    );
    assert_eq!(
        [
            ResourceAlertState::Healthy.code(),
            ResourceAlertState::MemoryWarning.code(),
            ResourceAlertState::TaskWarning.code(),
            ResourceAlertState::MemoryAndTaskWarning.code(),
            ResourceAlertState::Unavailable.code(),
        ],
        [1, 2, 3, 4, 5]
    );
    assert_eq!(
        [
            ResourceEnforcementState::Enforced.code(),
            ResourceEnforcementState::NotRequested.code(),
            ResourceEnforcementState::Unverified.code(),
        ],
        [1, 2, 3]
    );
    assert_eq!(
        [
            RecoveryState::Healthy.code(),
            RecoveryState::Backoff.code(),
            RecoveryState::Stabilizing.code(),
            RecoveryState::CircuitOpen.code(),
            RecoveryState::Disabled.code(),
        ],
        [1, 2, 3, 4, 5]
    );
    assert_eq!(
        [
            HealthState::Disabled.code(),
            HealthState::Healthy.code(),
            HealthState::Failing.code(),
            HealthState::Unhealthy.code(),
            HealthState::Starting.code(),
        ],
        [1, 2, 3, 4, 5]
    );
}

#[test]
fn recovery_backoff_is_exponential_bounded_and_opens_the_circuit() {
    let mut record = record();
    for (now, deadline) in [(1_000, 1_100), (2_000, 2_200), (3_000, 3_250)] {
        schedule_recovery(&mut record, now);
        assert_eq!(record.recovery_state_code, RecoveryState::Backoff.code());
        assert_eq!(record.next_restart_at_millis, Some(deadline));
    }
    schedule_recovery(&mut record, 4_000);
    assert_eq!(record.recovery_state_code, RecoveryState::CircuitOpen.code());
    assert_eq!(record.next_restart_at_millis, None);
}

#[test]
fn supervision_wakes_for_the_earliest_backoff_without_busy_spinning() {
    let interval = Duration::from_millis(SUPERVISION_INTERVAL_MILLIS);
    assert_eq!(earliest_deadline(None, Some(1_050)), Some(1_050));
    assert_eq!(earliest_deadline(Some(1_080), Some(1_020)), Some(1_020));
    assert_eq!(earliest_deadline(Some(1_020), None), Some(1_020));
    assert_eq!(Duration::from_millis(next_supervision_delay(1_000, None)), interval);
    assert_eq!(
        Duration::from_millis(next_supervision_delay(1_000, Some(1_010))),
        Duration::from_millis(10)
    );
    assert_eq!(
        Duration::from_millis(next_supervision_delay(1_000, Some(2_000))),
        interval
    );
    assert_eq!(
        Duration::from_millis(next_supervision_delay(1_000, Some(999))),
        Duration::from_millis(1)
    );
}

#[test]
fn shutdown_timeout_policy_is_bounded() {
    assert!(validate_shutdown_policy(MIN_SHUTDOWN_TIMEOUT_MILLIS).is_ok());
    assert!(validate_shutdown_policy(MAX_SHUTDOWN_TIMEOUT_MILLIS).is_ok());
    assert!(validate_shutdown_policy(MIN_SHUTDOWN_TIMEOUT_MILLIS - 1).is_err());
    assert!(validate_shutdown_policy(MAX_SHUTDOWN_TIMEOUT_MILLIS + 1).is_err());
}

#[test]
fn health_start_period_suppresses_liveness_until_elapsed() {
    let started_at_millis = 10_000;
    assert!(!health_start_period_elapsed(started_at_millis, 30_000, 39_999));
    assert!(health_start_period_elapsed(started_at_millis, 30_000, 40_000));
    assert!(health_start_period_elapsed(started_at_millis, 0, 10_000));
    assert!(!health_start_period_elapsed(started_at_millis, 30_000, 9_000));
    assert!(validate_health_start_period(3_600_000, true).is_ok());
    assert!(validate_health_start_period(3_600_001, true).is_err());
    assert!(validate_health_start_period(1, false).is_err());
}

#[test]
fn health_check_urls_split_and_paths_refuse_header_injection() {
    let (authority, path) = split_health_check_url("http://127.0.0.1:8080/health?full=1").unwrap();
    assert_eq!(authority, "127.0.0.1:8080");
    assert_eq!(path, "/health?full=1");
    assert!(validate_health_check_path(&path).is_ok());
    assert_eq!(
        split_health_check_url("https://127.0.0.1:8080/health").unwrap_err(),
        "health check URL must use http://"
    );
    let (authority, path) = split_health_check_url("http://127.0.0.1").unwrap();
    assert_eq!(authority, "127.0.0.1");
    assert_eq!(path, "/");
    let (_, injected) = split_health_check_url("http://127.0.0.1:8080/health%0d%0aHost:evil").unwrap();
    assert_eq!(
        validate_health_check_path(&injected).unwrap_err(),
        "health check path is invalid or exceeds 1024 bytes"
    );
    assert!(validate_health_check_path("/a b").is_err());
    assert!(validate_health_check_path(&format!("/{}", "a".repeat(1024))).is_err());
}

#[test]
fn rotated_log_names_are_stable() {
    assert_eq!(rotated_log_path("api.log", 3), "api.log.3");
}

#[test]
fn worker_option_is_replaced_or_inserted_before_application_arguments() {
    let mut existing = vec![
        "pam".to_owned(),
        "start".to_owned(),
        "--workers".to_owned(),
        "1".to_owned(),
    ];
    set_command_option(&mut existing, "--workers", "4");
    assert_eq!(existing, ["pam", "start", "--workers", "4"]);

    let mut missing = vec![
        "pam".to_owned(),
        "start".to_owned(),
        "--".to_owned(),
        "--port=1".to_owned(),
    ];
    set_command_option(&mut missing, "--workers", "2");
    assert_eq!(missing, ["pam", "start", "--workers", "2", "--", "--port=1"]);
}

#[test]
fn systemd_unit_runs_the_daemon_in_the_foreground() {
    let unit = systemd_unit("/opt/PAM Runtime/pam").unwrap();
    assert!(unit.contains("Type=simple"));
    assert!(unit.contains("ExecStart=/opt/PAM\\x20Runtime/pam __pamd"));
    assert!(unit.contains("NoNewPrivileges=true"));
    assert!(!unit.contains("ProtectHome="));
}

#[test]
fn ecosystem_contract_rejects_unknown_fields_and_string_kinds() {
    assert!(validate_resource_policy(Some(3), None, Some(2), None, "api").is_err());
}

#[test]
fn deployment_history_retention_is_bounded() {
    let mut history = DeploymentHistory {
        schema_version: 1,
        name: "api".to_owned(),
        entries: Vec::new(),
    };
    for index in 0..=MAX_DEPLOY_HISTORY {
        append_deployment_entry(
            &mut history,
            DeploymentEntry {
                release_directory: index.to_string(),
                activated_at_millis: index as u64,
                event_kind_code: DeploymentEventKind::Deploy.code(),
            },
        );
    }
    assert_eq!(history.entries.len(), MAX_DEPLOY_HISTORY);
    assert_eq!(history.entries[0].release_directory, "1");
}

#[test]
fn resource_history_retention_is_bounded() {
    let mut history = ResourceHistory {
        schema_version: 1,
        name: "api".to_owned(),
        entries: Vec::new(),
    };
    for index in 0..=MAX_RESOURCE_HISTORY {
        append_resource_entry(
            &mut history,
            ResourceHistoryEntry {
                observed_at_millis: index as u64,
                state_code: ApplicationState::Online.code(),
                workers: 1,
                rss_bytes: index as u64,
                tasks: 1,
                alert_state_code: ResourceAlertState::Healthy.code(),
            },
        );
    }
    assert_eq!(history.entries.len(), MAX_RESOURCE_HISTORY);
    assert_eq!(history.entries[0].observed_at_millis, 1);
}

#[test]
fn names_reject_overlong_and_accept_sixty_four_bytes() {
    assert!(validate_name(&"a".repeat(64)).is_ok());
    assert!(validate_name(&"a".repeat(65)).is_err());
    assert_eq!(
        validate_name("").unwrap_err(),
        "application name must contain 1-64 ASCII letters, digits, '.', '-' or '_'"
    );
}

#[test]
fn recovery_and_health_policies_report_the_first_broken_rule() {
    assert!(validate_recovery_policy(250, 15_000, 10, 30_000).is_ok());
    assert_eq!(
        validate_recovery_policy(9, 15_000, 10, 30_000).unwrap_err(),
        "restart delay must be 10-60000 milliseconds"
    );
    assert_eq!(
        validate_recovery_policy(250, 100, 10, 30_000).unwrap_err(),
        "restart backoff maximum must be at least the delay and at most 300000 milliseconds"
    );
    assert_eq!(
        validate_recovery_policy(250, 15_000, 0, 30_000).unwrap_err(),
        "maximum unstable restarts must be 1-100"
    );
    assert_eq!(
        validate_recovery_policy(250, 15_000, 10, 999).unwrap_err(),
        "minimum stable uptime must be 1000-3600000 milliseconds"
    );
    assert!(validate_health_timing(5_000, 1_000, 3).is_ok());
    assert_eq!(
        validate_health_timing(249, 100, 3).unwrap_err(),
        "health check interval must be 250-3600000 milliseconds"
    );
    assert_eq!(
        validate_health_timing(1_000, 1_000, 3).unwrap_err(),
        "health check timeout must be 50-5000 milliseconds and less than the interval"
    );
    assert_eq!(
        validate_health_timing(1_000, 100, 101).unwrap_err(),
        "health check failure threshold must be 1-100"
    );
    assert_eq!(
        validate_resource_policy(Some(0), None, None, None, "api").unwrap_err(),
        "api resource thresholds must be positive"
    );
    assert_eq!(
        validate_resource_policy(None, Some(9), None, Some(8), "web").unwrap_err(),
        "web warning cannot exceed its hard limit"
    );
}

#[test]
fn health_probe_failures_reach_the_threshold_and_request_a_restart() {
    let mut record = record();
    record.health_check_failure_threshold = 2;
    assert!(!apply_health_result(&mut record, 10, false));
    assert_eq!(record.health_state_code, HealthState::Failing.code());
    assert!(apply_health_result(&mut record, 20, false));
    assert_eq!(record.health_state_code, HealthState::Unhealthy.code());
    assert_eq!(record.total_unhealthy_restart_count, 1);
    assert!(!apply_health_result(&mut record, 30, true));
    assert_eq!(record.consecutive_health_failures, 0);
    assert_eq!(record.last_health_success_at_millis, Some(30));
    assert_eq!(record.health_state_code, HealthState::Healthy.code());
}

#[test]
fn supervision_schedules_waits_restarts_and_stabilizes() {
    let mut record = record();
    assert_eq!(plan_supervision(&mut record, None, 1_000), SupervisionStep::Scheduled);
    assert_eq!(record.next_restart_at_millis, Some(1_100));
    assert_eq!(plan_supervision(&mut record, None, 1_050), SupervisionStep::Waiting);
    assert_eq!(plan_supervision(&mut record, None, 1_100), SupervisionStep::Restart);
    record_restart_outcome(&mut record, true, 1_100);
    assert_eq!(record.recovery_state_code, RecoveryState::Stabilizing.code());
    assert_eq!(record.total_auto_restart_count, 1);
    assert_eq!(plan_supervision(&mut record, Some(1_100), 1_500), SupervisionStep::Skip);
    assert_eq!(plan_supervision(&mut record, Some(1_100), 2_100), SupervisionStep::Stabilized);
    assert_eq!(record.recovery_state_code, RecoveryState::Healthy.code());
    assert_eq!(record.unstable_restart_count, 0);
    record.desired_state_code = ApplicationState::Stopped.code();
    assert_eq!(plan_supervision(&mut record, None, 3_000), SupervisionStep::Skip);
}

#[test]
fn manual_start_resets_recovery_and_health() {
    let mut record = record();
    record.unstable_restart_count = 3;
    record.recovery_state_code = RecoveryState::CircuitOpen.code();
    record.health_check_address = Some("127.0.0.1:8080".to_owned());
    record.health_check_start_period_millis = 5_000;
    reset_recovery(&mut record);
    assert_eq!(record.unstable_restart_count, 0);
    assert_eq!(record.recovery_state_code, RecoveryState::Healthy.code());
    assert_eq!(record.health_state_code, HealthState::Starting.code());
    assert_eq!(initial_health_state(true, 0), HealthState::Healthy.code());
    assert_eq!(initial_health_state(false, 10), HealthState::Disabled.code());
}

#[test]
fn resource_alerts_follow_the_warning_thresholds() {
    let mut record = record();
    record.memory_warning_bytes = Some(1_000);
    record.task_warning_count = Some(10);
    let snapshot = |rss_bytes, tasks, observed| ResourceSnapshot {
        rss_bytes,
        tasks,
        processes: 1,
        observed,
    };
    assert_eq!(resource_alert_state(&record, &snapshot(1, 1, false)), ResourceAlertState::Unavailable);
    assert_eq!(resource_alert_state(&record, &snapshot(999, 9, true)), ResourceAlertState::Healthy);
    assert_eq!(resource_alert_state(&record, &snapshot(1_000, 9, true)), ResourceAlertState::MemoryWarning);
    assert_eq!(resource_alert_state(&record, &snapshot(1, 10, true)), ResourceAlertState::TaskWarning);
    assert_eq!(
        resource_alert_state(&record, &snapshot(1_000, 10, true)),
        ResourceAlertState::MemoryAndTaskWarning
    );
}

#[test]
fn daemon_commands_and_digests() {
    assert!(daemon_managed_command("traffic:evaluate"));
    assert!(daemon_managed_command("up"));
    assert!(!daemon_managed_command("start"));
    let a = [7u8; 32];
    let mut b = [7u8; 32];
    assert!(constant_time_digest_eq(&a, &b));
    b[31] = 8;
    assert!(!constant_time_digest_eq(&a, &b));
}

#[test]
fn systemd_unit_refuses_line_breaks_and_escapes_percent() {
    assert!(systemd_unit("/opt/pam\n").is_err());
    let unit = systemd_unit("/opt/100%/pam").unwrap();
    assert!(unit.contains("ExecStart=/opt/100%%/pam __pamd"));
    assert!(unit.contains("ExecStop=/opt/100%%/pam daemon stop"));
}

#[test]
fn reconcile_restarts_scales_or_reports_policy_changes() {
    let unchanged = PolicyChanges { policy: false, limits: false, environment: false, health: false };
    let limits = PolicyChanges { limits: true, ..unchanged };
    let policy = PolicyChanges { policy: true, ..unchanged };
    assert_eq!(
        reconcile_next_step(limits, Some(2), 2),
        (ReconcileStep::RestartRunning, ReconcileAction::ResourceLimitsUpdated)
    );
    assert_eq!(reconcile_next_step(unchanged, None, 2), (ReconcileStep::Start, ReconcileAction::Restarted));
    assert_eq!(reconcile_next_step(unchanged, Some(1), 2), (ReconcileStep::Scale, ReconcileAction::Scaled));
    assert_eq!(reconcile_next_step(policy, Some(2), 2), (ReconcileStep::Done, ReconcileAction::PolicyUpdated));
    assert_eq!(reconcile_next_step(unchanged, Some(2), 2), (ReconcileStep::Done, ReconcileAction::Unchanged));
}
