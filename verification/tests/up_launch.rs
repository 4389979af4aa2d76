use pam::cli::Argument;
use pam::up_command::{launch_arguments, parse_up_arguments, LaunchArgument};

fn args(items: &[&str]) -> Vec<Argument> {
    items.iter().map(|item| Argument { text: item.to_string(), utf8: true }).collect()
}

fn text(value: &str) -> LaunchArgument {
    LaunchArgument::Text(value.to_owned())
}

#[test]
fn runtime_launch_names_target_state_workers_and_passthrough() {
    let given = args(&["server.php", "--workers", "4", "--", "--port", "8080"]);
    let options = parse_up_arguments(&given).unwrap();
    assert_eq!(
        launch_arguments(&options, given.len(), true, "/run/pam/api.master.json"),
        vec![
            text("start"),
            LaunchArgument::Given(0),
            text("--state-file"),
            text("/run/pam/api.master.json"),
            text("--workers"),
            text("4"),
            text("--"),
            LaunchArgument::Given(4),
            LaunchArgument::Given(5),
        ]
    );
}

#[test]
fn laravel_launch_starts_octane_without_a_target() {
    let given = args(&["--"]);
    let options = parse_up_arguments(&given).unwrap();
    assert_eq!(launch_arguments(&options, given.len(), true, "/run/state.json"), vec![text("octane:start")]);
    assert_eq!(
        launch_arguments(&options, given.len(), false, "/run/state.json"),
        vec![text("start"), text("index.php"), text("--state-file"), text("/run/state.json")]
    );
}
