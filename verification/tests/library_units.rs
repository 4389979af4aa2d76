use bytes::Bytes;
use pam::cli::Argument;
use pam::mobile::{valid_composer_part, AndroidAbi};
use pam::php::{
    captured_run_result, default_access_log_sample_rate, default_body_read_timeout_ms, default_header_read_timeout_ms,
    default_http3, default_max_body_bytes, default_max_concurrent_requests, default_max_header_bytes,
    default_max_headers, default_max_response_bytes, default_max_response_chunk_bytes, default_metrics_path,
    default_request_timeout_ms, default_response_stream_queue_capacity, default_websocket_compression,
    default_websocket_heartbeat_ms, default_websocket_max_connections, default_websocket_max_message_bytes,
    default_websocket_queue_capacity, default_websocket_resume_ttl_seconds, default_websocket_timeout_ms,
    normalize_exit_status, to_c_buffer,
};
use pam::process_manager::{health_result_applies, reconcile_record, DeclaredPolicy};
use pam::project::{clean, clean_after_dev, cleanup_targets, discover, discover_cleanable, ArtifactInspection, ArtifactState, DirectoryProbe, ProjectContext, ProjectKind};
use pam::protocol::{default_native_output_limit, JsonPhpHttpResponse, NativeHeader};
use pam::sandbox::{collect_capabilities, environment_names, wildcard_or_absent, Capability};
use pam::up_command::{new_application_record, parse_up_arguments, LaunchFacts};

#[test]
fn runtime_defaults_are_the_documented_limits() {
    assert_eq!(default_max_body_bytes(), 2 * 1024 * 1024);
    assert_eq!(default_max_header_bytes(), 32 * 1024);
    assert!(default_max_headers() > 0);
    assert!(default_request_timeout_ms() > 0);
    assert!(default_max_concurrent_requests() > 0);
    assert!(default_response_stream_queue_capacity() > 0);
    assert!(default_max_response_bytes() >= default_max_response_chunk_bytes());
    assert!(default_header_read_timeout_ms() > 0 && default_body_read_timeout_ms() > 0);
    assert!(default_metrics_path().starts_with('/'));
    assert!(default_websocket_max_connections() > 0 && default_websocket_max_message_bytes() > 0);
    assert!(default_websocket_queue_capacity() > 0 && default_websocket_heartbeat_ms() > 0);
    assert!(default_websocket_timeout_ms() > 0 && default_websocket_resume_ttl_seconds() > 0);
    let _ = (default_http3(), default_websocket_compression(), default_access_log_sample_rate());
    assert_eq!(default_native_output_limit(), 8 * 1024 * 1024);
}

#[test]
fn exit_statuses_and_c_arguments_are_normalised() {
    assert_eq!(normalize_exit_status(0), 0);
    assert_eq!(normalize_exit_status(255), 255);
    assert_eq!(normalize_exit_status(-1), 70);
    assert_eq!(normalize_exit_status(256), 70);
    assert_eq!(to_c_buffer(b"php").unwrap(), b"php\0".to_vec());
    assert_eq!(to_c_buffer(b"a\0b").unwrap_err(), "arguments cannot contain a NUL byte");
    assert_eq!(captured_run_result(Ok(3), Ok(())), Ok(3));
    assert_eq!(captured_run_result(Err("script".to_owned()), Err("cleanup".to_owned())), Err("script".to_owned()));
    assert_eq!(captured_run_result(Ok(0), Err("cleanup".to_owned())), Err("cleanup".to_owned()));
}

#[test]
fn json_responses_become_byte_responses() {
    let response = JsonPhpHttpResponse {
        status: 201,
        headers: vec![NativeHeader { name: "x-id".to_owned(), values: vec!["7".to_owned()] }],
        body: "créé".to_owned(),
        chunks: vec!["a".to_owned(), "bc".to_owned()],
    }
    .into_php();
    assert_eq!(response.status, 201);
    assert_eq!(response.headers[0].name, "x-id");
    assert_eq!(response.body, Bytes::from("créé"));
    assert_eq!(response.chunks, vec![Bytes::from("a"), Bytes::from("bc")]);
}

#[test]
fn android_targets_and_composer_parts() {
    assert_eq!(AndroidAbi::Arm64.rust_target(), "aarch64-linux-android");
    assert_eq!(AndroidAbi::X86_64.rust_target(), "x86_64-linux-android");
    assert!(valid_composer_part("pam-native"));
    assert!(!valid_composer_part("Pam"));
    assert!(!valid_composer_part(""));
}

#[test]
fn capabilities_are_grouped_and_environment_names_deduplicated() {
    let capabilities = vec![
        Capability { kind: 1, resources: vec!["/data".to_owned()] },
        Capability { kind: 5, resources: vec!["HOME".to_owned(), "PATH".to_owned()] },
        Capability { kind: 1, resources: vec!["/tmp".to_owned()] },
    ];
    let groups = collect_capabilities(&capabilities).unwrap();
    assert_eq!(groups.read, vec!["/data".to_owned(), "/tmp".to_owned()]);
    assert_eq!(groups.environment, vec!["HOME".to_owned(), "PATH".to_owned()]);
    assert!(groups.write.is_empty() && groups.network.is_empty() && groups.process.is_empty());
    assert_eq!(
        collect_capabilities(&vec![Capability { kind: 9, resources: Vec::new() }]).unwrap_err(),
        "unknown capability kind 9; expected an integer from 1 to 5"
    );
    assert_eq!(wildcard_or_absent("network", &Vec::new()), Ok(false));
    assert_eq!(wildcard_or_absent("network", &vec!["*".to_owned()]), Ok(true));
    assert_eq!(
        wildcard_or_absent("network", &vec!["example.com".to_owned()]).unwrap_err(),
        "network capabilities currently require exactly [\"*\"]; selective network access needs the PAM broker and is denied closed"
    );
    assert_eq!(
        environment_names(&vec!["HOME".to_owned(), "PATH".to_owned(), "HOME".to_owned()]).unwrap(),
        vec!["HOME".to_owned(), "PATH".to_owned()]
    );
    assert!(environment_names(&vec!["BAD NAME".to_owned()]).is_err());
}

fn probe(directory: &str) -> DirectoryProbe {
    DirectoryProbe {
        directory: directory.to_owned(),
        manifest_type: None,
        has_native_manifest: false,
        has_artisan: false,
        composer_requires: None,
    }
}

#[test]
fn discovery_takes_the_nearest_recognised_directory() {
    let mut parent = probe("/srv/app");
    parent.has_artisan = true;
    let found = discover(&vec![probe("/srv/app/public"), parent]).unwrap();
    assert_eq!((found.root.as_str(), found.kind), ("/srv/app", ProjectKind::Laravel));
    let mut typed = probe("/srv/shop");
    typed.manifest_type = Some(6);
    assert_eq!(discover(&vec![typed]).unwrap().kind, ProjectKind::Product);
    assert!(discover(&vec![probe("/tmp")]).is_none());
}

#[test]
fn cleanup_after_dev_removes_whole_build_trees() {
    let context = ProjectContext { root: "/srv/app".to_owned(), kind: ProjectKind::Api };
    let inspections: Vec<ArtifactInspection> = cleanup_targets(ProjectKind::Api, true)
        .iter()
        .enumerate()
        .map(|(index, (path, _))| ArtifactInspection {
            shown_path: format!("/srv/app/{path}"),
            state: if index == 0 {
                ArtifactState::Directory { bytes: 10, files: 2, complete: true }
            } else {
                ArtifactState::Missing
            },
        })
        .collect();
    let report = clean_after_dev(&context, "/srv/app", &inspections).unwrap();
    assert_eq!((report.operation_code, report.bytes, report.files), (3, 10, 2));
    assert_eq!((report.schema_version, report.result_code), (1, 1));
    assert_eq!(report.root, "/srv/app");
    assert!(report.entries[0].existed && !report.entries[1].existed);
}

#[test]
fn cleanup_target_lists_end_with_tooling_and_nest_caches() {
    for all in [false, true] {
        let raw = cleanup_targets(ProjectKind::Raw, all);
        assert_eq!(cleanup_targets(ProjectKind::Api, all), raw);
        assert_eq!(cleanup_targets(ProjectKind::Laravel, all), raw);
        let product = cleanup_targets(ProjectKind::Product, all);
        for list in [&raw, &product] {
            assert_eq!(list[list.len() - 15].0, "android/.gradle");
            assert_eq!(list[list.len() - 1].0, ".ruff_cache");
            for (i, (a, _)) in list.iter().enumerate() {
                assert!(!a.starts_with('/') && !a.ends_with('/'));
                for (b, _) in &list[i + 1..] {
                    assert_ne!(a, b);
                }
            }
        }
    }
    let full = cleanup_targets(ProjectKind::Raw, true);
    for (cache, _) in cleanup_targets(ProjectKind::Raw, false) {
        assert!(full.iter().any(|(p, _)| cache == *p || cache.starts_with(&format!("{p}/"))));
    }
}

#[test]
fn cleanup_preview_removes_nothing_even_when_a_scan_is_incomplete() {
    let context = ProjectContext { root: "/srv/app".to_owned(), kind: ProjectKind::Api };
    let inspections: Vec<ArtifactInspection> = cleanup_targets(ProjectKind::Api, false)
        .iter()
        .enumerate()
        .map(|(index, (path, _))| ArtifactInspection {
            shown_path: format!("/srv/app/{path}"),
            state: if index == 0 {
                ArtifactState::Directory { bytes: 10, files: 2, complete: false }
            } else {
                ArtifactState::Missing
            },
        })
        .collect();
    let report = clean(&context, false, true, "/srv/app", &inspections).unwrap();
    assert_eq!(report.operation_code, 1);
    assert!(report.entries.iter().all(|entry| !entry.removed));
    assert!(clean(&context, false, false, "/srv/app", &inspections).is_err());
}

#[test]
fn cleanable_projects_fall_back_to_cargo_workspaces() {
    let empty = DirectoryProbe {
        directory: "/work".to_owned(),
        manifest_type: None,
        has_native_manifest: false,
        has_artisan: false,
        composer_requires: None,
    };
    let found = discover_cleanable(&vec![empty.clone()], Some("/work".to_owned())).unwrap();
    assert_eq!((found.root.as_str(), found.kind), ("/work", ProjectKind::Raw));
    assert!(discover_cleanable(&vec![empty.clone()], None).is_none());
    let laravel = DirectoryProbe { has_artisan: true, ..empty };
    assert_eq!(discover_cleanable(&vec![laravel], Some("/work".to_owned())).unwrap().kind, ProjectKind::Laravel);
}

fn record() -> pam::process_manager::ApplicationRecord {
    let options = parse_up_arguments(&vec![Argument { text: "server.php".to_owned(), utf8: true }]).unwrap();
    new_application_record(
        &options,
        LaunchFacts {
            name: "api".to_owned(),
            laravel: false,
            working_directory: "/srv/api".to_owned(),
            command: vec!["pam".to_owned(), "up".to_owned()],
            master_state_file: "/run/api.json".to_owned(),
            stdout_log: "/var/log/api.out".to_owned(),
            stderr_log: "/var/log/api.err".to_owned(),
            environment_file: None,
            health_check: Some(("127.0.0.1:8080".to_owned(), "/health".to_owned())),
            now_millis: 1_000,
        },
    )
}

#[test]
fn new_records_and_health_results_follow_the_launch() {
    let r = record();
    assert_eq!((r.name.as_str(), r.kind_code, r.desired_state_code), ("api", 1, 1));
    assert!(health_result_applies(&r, "127.0.0.1:8080", "/health", Some(42), 42));
    assert!(!health_result_applies(&r, "127.0.0.1:8080", "/health", Some(43), 42));
    assert!(!health_result_applies(&r, "127.0.0.1:9090", "/health", Some(42), 42));
}

#[test]
fn reconciling_a_record_takes_over_the_declared_policy() {
    let mut r = record();
    let declared = DeclaredPolicy {
        workers: 2,
        environment_file: None,
        health_check_address: r.health_check_address.clone(),
        health_check_path: r.health_check_path.clone(),
        health_check_interval_millis: r.health_check_interval_millis,
        health_check_timeout_millis: r.health_check_timeout_millis,
        health_check_start_period_millis: r.health_check_start_period_millis,
        health_check_failure_threshold: r.health_check_failure_threshold,
        shutdown_timeout_millis: r.shutdown_timeout_millis,
        auto_restart: r.auto_restart,
        restart_delay_millis: r.restart_delay_millis,
        restart_backoff_max_millis: r.restart_backoff_max_millis,
        max_unstable_restarts: r.max_unstable_restarts,
        min_uptime_millis: r.min_uptime_millis,
        memory_warning_bytes: r.memory_warning_bytes,
        task_warning_count: r.task_warning_count,
        memory_max_bytes: Some(1_000_000),
        task_max_count: r.task_max_count,
    };
    let changes = reconcile_record(&mut r, &declared);
    assert!(changes.limits && !changes.environment && !changes.health && !changes.policy);
    assert_eq!(r.memory_max_bytes, Some(1_000_000));
    let again = reconcile_record(&mut r, &declared);
    assert!(!again.limits && !again.policy);
}
