use pam::daemon::{error_response, execution_response, plan_daemon_request, success_response, DaemonRequest, DaemonStep};

fn request(operation_code: u8, command: Option<&str>, cwd: Option<&str>) -> DaemonRequest {
    DaemonRequest {
        schema_version: 1,
        operation_code,
        command: command.map(str::to_owned),
        arguments: vec!["api".to_owned()],
        working_directory: cwd.map(str::to_owned),
    }
}

#[test]
fn daemon_requests_are_answered_or_executed() {
    assert!(matches!(plan_daemon_request(request(1, None, None)), Ok(DaemonStep::Reply { stop: false })));
    assert!(matches!(plan_daemon_request(request(2, None, None)), Ok(DaemonStep::Reply { stop: true })));
    match plan_daemon_request(request(3, Some("restart"), Some("/srv"))) {
        Ok(DaemonStep::Execute { command, arguments, working_directory }) => {
            assert_eq!((command.as_str(), working_directory.as_str()), ("restart", "/srv"));
            assert_eq!(arguments, vec!["api".to_owned()]);
        }
        _ => panic!("restart runs through the daemon"),
    }
}

#[test]
fn daemon_refuses_what_it_does_not_run() {
    let mut old = request(1, None, None);
    old.schema_version = 2;
    assert_eq!(plan_daemon_request(old).err().unwrap(), "unsupported daemon schema");
    assert_eq!(plan_daemon_request(request(9, None, None)).err().unwrap(), "unsupported daemon operation");
    assert_eq!(plan_daemon_request(request(3, None, Some("/"))).err().unwrap(), "execute requires command");
    assert_eq!(plan_daemon_request(request(3, Some("clean"), Some("/"))).err().unwrap(), "command is not allowed through pamd");
    assert_eq!(plan_daemon_request(request(3, Some("ps"), None)).err().unwrap(), "execute requires cwd");
    let mut many = request(3, Some("ps"), Some("/"));
    many.arguments = vec!["x".to_owned(); 257];
    assert_eq!(plan_daemon_request(many).err().unwrap(), "command is not allowed through pamd");
}

#[test]
fn daemon_responses_carry_the_outcome() {
    let ok = success_response(7);
    assert!(ok.ok && ok.exit_code == 0 && ok.message == "ok" && ok.pid == 7);
    let failed = error_response(7, "boom".to_owned());
    assert!(!failed.ok && failed.exit_code == 1 && failed.message == "boom");
    let ran = execution_response(7, Some(3), Some("out".to_owned()), Some("err".to_owned())).unwrap();
    assert_eq!((ran.exit_code, ran.stdout.as_str(), ran.stderr.as_str()), (3, "out", "err"));
    assert_eq!(execution_response(7, Some(300), Some(String::new()), Some(String::new())).unwrap().exit_code, 1);
    assert_eq!(execution_response(7, None, Some(String::new()), Some(String::new())).unwrap().exit_code, 1);
    assert_eq!(execution_response(7, Some(0), None, Some(String::new())).err().unwrap(), "manager stdout is not UTF-8");
    assert_eq!(
        execution_response(7, Some(0), Some("a".repeat(2_097_152)), Some("b".to_owned())).err().unwrap(),
        "manager response exceeds 2 MiB"
    );
}
