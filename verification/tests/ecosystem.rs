use pam::ecosystem::{up_arguments, validate_ecosystem, validate_ecosystem_application, ApplicationChecks, EcosystemApplication};

fn application() -> EcosystemApplication {
    EcosystemApplication {
        kind_code: 1,
        script: None,
        workers: 2,
        cwd: ".".to_owned(),
        arguments: Vec::new(),
        autostart: true,
        env_file: None,
        shutdown_timeout_millis: 20_000,
        health_check_url: None,
        health_check_interval_millis: 5_000,
        health_check_timeout_millis: 1_000,
        health_check_start_period_millis: 0,
        health_check_failure_threshold: 3,
        auto_restart: true,
        restart_delay_millis: 250,
        restart_backoff_max_millis: 15_000,
        max_unstable_restarts: 10,
        min_uptime_millis: 30_000,
        memory_warning_bytes: None,
        task_warning_count: None,
        memory_max_bytes: None,
        task_max_count: None,
    }
}

fn checks() -> ApplicationChecks {
    ApplicationChecks {
        environment_file: Ok(()),
        health_check_url: Ok(()),
        working_directory: Ok("/srv/app".to_owned()),
        has_artisan: true,
    }
}

#[test]
fn ecosystem_file_shape_is_checked() {
    assert_eq!(validate_ecosystem(1, 3), Ok(()));
    let message = "pam.toml requires schema_version = 1 and 1-1024 applications".to_owned();
    assert_eq!(validate_ecosystem(2, 3), Err(message.clone()));
    assert_eq!(validate_ecosystem(1, 0), Err(message.clone()));
    assert_eq!(validate_ecosystem(1, 1025), Err(message));
}

#[test]
fn declared_applications_are_checked_in_order() {
    assert_eq!(validate_ecosystem_application("api", &application(), &checks()), Ok(()));
    let mut a = application();
    a.kind_code = 3;
    assert_eq!(
        validate_ecosystem_application("api", &a, &checks()).unwrap_err(),
        "application \"api\" kind_code must be 1 or 2"
    );
    let mut a = application();
    a.workers = 257;
    assert_eq!(validate_ecosystem_application("api", &a, &checks()).unwrap_err(), "application \"api\" workers must be 1-256");
    let mut a = application();
    a.memory_warning_bytes = Some(10);
    a.memory_max_bytes = Some(5);
    assert_eq!(
        validate_ecosystem_application("api", &a, &checks()).unwrap_err(),
        "application \"api\" warning cannot exceed its hard limit"
    );
    let mut a = application();
    a.health_check_url = Some("http://127.0.0.1:8080/health".to_owned());
    a.auto_restart = false;
    assert_eq!(
        validate_ecosystem_application("api", &a, &checks()).unwrap_err(),
        "application \"api\" health checks require auto_restart = true"
    );
    let mut failed_url = checks();
    failed_url.health_check_url = Err("health check URL must target a loopback address".to_owned());
    assert_eq!(
        validate_ecosystem_application("api", &a, &failed_url).unwrap_err(),
        "health check URL must target a loopback address"
    );
    assert_eq!(
        validate_ecosystem_application("bad name", &application(), &checks()).unwrap_err(),
        "application name must contain 1-64 ASCII letters, digits, '.', '-' or '_'"
    );
}

#[test]
fn laravel_applications_need_artisan_and_no_script() {
    let mut a = application();
    a.kind_code = 2;
    let mut no_artisan = checks();
    no_artisan.has_artisan = false;
    assert_eq!(
        validate_ecosystem_application("web", &a, &no_artisan).unwrap_err(),
        "Laravel application \"web\" requires artisan in /srv/app"
    );
    a.script = Some("server.php".to_owned());
    assert_eq!(validate_ecosystem_application("web", &a, &checks()).unwrap_err(), "Laravel application \"web\" cannot set script");
    let mut a = application();
    a.arguments = vec!["ok".to_owned(), "bad\nline".to_owned()];
    assert_eq!(
        validate_ecosystem_application("api", &a, &checks()).unwrap_err(),
        "application \"api\" contains invalid argument controls"
    );
    let mut missing = checks();
    missing.working_directory = Err("service cwd must stay beneath the pam.toml directory".to_owned());
    assert_eq!(
        validate_ecosystem_application("api", &application(), &missing).unwrap_err(),
        "service cwd must stay beneath the pam.toml directory"
    );
}

#[test]
fn creation_command_carries_the_declaration() {
    let mut a = application();
    a.health_check_url = Some("http://127.0.0.1:8080/health".to_owned());
    a.auto_restart = false;
    a.memory_max_bytes = Some(1_000_000);
    a.arguments = vec!["--port".to_owned(), "9000".to_owned()];
    let arguments = up_arguments("api", &a, Some("/srv/app/.env"));
    assert_eq!(
        arguments,
        vec![
            "up", "--name", "api", "--workers", "2", "--env-file", "/srv/app/.env", "--health-check-url",
            "http://127.0.0.1:8080/health", "--health-check-interval-ms", "5000", "--health-check-timeout-ms", "1000",
            "--health-check-start-period-ms", "0", "--health-check-failures", "3", "--no-autorestart",
            "--shutdown-timeout-ms", "20000", "--restart-delay-ms", "250", "--restart-backoff-max-ms", "15000",
            "--max-unstable-restarts", "10", "--min-uptime-ms", "30000", "--memory-max-bytes", "1000000", "index.php",
            "--", "--port", "9000",
        ]
    );
    let mut laravel = application();
    laravel.kind_code = 2;
    let arguments = up_arguments("web", &laravel, None);
    assert_eq!(arguments.last().map(String::as_str), Some("30000"));
}
