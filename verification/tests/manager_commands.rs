use pam::cli::Argument;
use pam::manager_commands::{
    parse_config_arguments, parse_deploy_arguments, parse_history_arguments, parse_json_only, parse_name_json,
    parse_rollback_arguments,
};
use pam::traffic::parse_evaluate_arguments;

fn args(values: &[&str]) -> Vec<Argument> {
    values.iter().map(|value| Argument { text: (*value).to_owned(), utf8: true }).collect()
}

const NAME_RULE: &str = "application name must contain 1-64 ASCII letters, digits, '.', '-' or '_'";

#[test]
fn json_only_commands_take_nothing_else() {
    assert_eq!(parse_json_only(&args(&[]), "list"), Ok(false));
    assert_eq!(parse_json_only(&args(&["--json"]), "list"), Ok(true));
    assert_eq!(parse_json_only(&args(&["--json", "--json"]), "list").unwrap_err(), "list accepts only --json");
}

#[test]
fn name_commands_take_one_valid_name() {
    assert_eq!(parse_name_json(&args(&["api", "--json"]), "stop"), Ok(("api".to_owned(), true)));
    assert_eq!(
        parse_name_json(&args(&["api", "web"]), "stop").unwrap_err(),
        "stop requires one application name and optional --json"
    );
    assert_eq!(
        parse_name_json(&args(&["--force"]), "stop").unwrap_err(),
        "stop requires one application name and optional --json"
    );
    assert_eq!(parse_name_json(&args(&["--json"]), "stop").unwrap_err(), "stop requires an application name");
    assert_eq!(parse_name_json(&args(&["a b"]), "stop").unwrap_err(), NAME_RULE);
}

#[test]
fn config_commands_take_an_optional_path() {
    assert_eq!(parse_config_arguments(&args(&[]), "apply"), Ok((None, false)));
    assert_eq!(parse_config_arguments(&args(&["--json", "site/pam.toml"]), "apply"), Ok((Some(1), true)));
    assert_eq!(
        parse_config_arguments(&args(&["a.toml", "b.toml"]), "config:check").unwrap_err(),
        "config:check accepts a pam.toml path and optional --json"
    );
}

#[test]
fn deploy_takes_a_name_and_a_release() {
    assert_eq!(parse_deploy_arguments(&args(&["api", "--json", "releases/7"])), Ok(("api".to_owned(), 2, true)));
    assert_eq!(
        parse_deploy_arguments(&args(&["api"])).unwrap_err(),
        "deploy requires NAME RELEASE_DIRECTORY and optional --json"
    );
    let mut raw = args(&["api", "releases/7"]);
    raw[0].utf8 = false;
    assert_eq!(parse_deploy_arguments(&raw).unwrap_err(), "deploy name requires UTF-8");
}

#[test]
fn rollback_steps_are_bounded_by_the_history() {
    assert_eq!(parse_rollback_arguments(&args(&["api"])), Ok(("api".to_owned(), 1, false)));
    assert_eq!(parse_rollback_arguments(&args(&["--steps", "3", "api", "--json"])), Ok(("api".to_owned(), 3, true)));
    assert_eq!(parse_rollback_arguments(&args(&["api", "--steps", "51"])).unwrap_err(), "--steps cannot exceed 50");
    assert_eq!(parse_rollback_arguments(&args(&["api", "--steps", "0"])).unwrap_err(), "--steps requires a positive integer");
    assert_eq!(parse_rollback_arguments(&args(&["api", "--steps"])).unwrap_err(), "--steps requires a value");
    assert_eq!(parse_rollback_arguments(&args(&["api", "-x"])).unwrap_err(), "unknown rollback option: -x");
    assert_eq!(parse_rollback_arguments(&args(&["api", "web"])).unwrap_err(), "rollback accepts one application name");
    assert_eq!(parse_rollback_arguments(&args(&[])).unwrap_err(), "rollback requires an application name");
}

#[test]
fn traffic_evaluation_needs_its_thresholds() {
    assert_eq!(
        parse_evaluate_arguments(&args(&[
            "edge",
            "--min-candidate-requests",
            "100",
            "--max-candidate-error-bps",
            "50",
            "--json"
        ])),
        Ok(("edge".to_owned(), 100, 50, true))
    );
    assert_eq!(
        parse_evaluate_arguments(&args(&["edge", "--max-candidate-error-bps", "50"])).unwrap_err(),
        "traffic:evaluate requires --min-candidate-requests"
    );
    assert_eq!(
        parse_evaluate_arguments(&args(&["edge", "--min-candidate-requests", "1"])).unwrap_err(),
        "traffic:evaluate requires --max-candidate-error-bps"
    );
    assert_eq!(
        parse_evaluate_arguments(&args(&["--min-candidate-requests", "0"])).unwrap_err(),
        "--min-candidate-requests requires a positive integer"
    );
    assert_eq!(parse_evaluate_arguments(&args(&[])).unwrap_err(), "traffic:evaluate requires a name");
    assert_eq!(parse_evaluate_arguments(&args(&["a", "b"])).unwrap_err(), "traffic:evaluate accepts one name");
}

#[test]
fn history_arguments_bound_the_sample_count() {
    assert_eq!(parse_history_arguments(&args(&[])), Ok((None, false, false, 120)));
    assert_eq!(
        parse_history_arguments(&args(&["api", "--limit", "5", "--record", "--json"])),
        Ok((Some("api".to_owned()), true, true, 5))
    );
    assert_eq!(parse_history_arguments(&args(&["--limit", "121"])).unwrap_err(), "--limit cannot exceed 120");
    assert_eq!(parse_history_arguments(&args(&["--limit", "0"])).unwrap_err(), "--limit requires a positive integer");
    assert_eq!(parse_history_arguments(&args(&["--all"])).unwrap_err(), "unknown monit:history option: --all");
    assert_eq!(
        parse_history_arguments(&args(&["a", "b"])).unwrap_err(),
        "monit:history accepts at most one application name"
    );
    assert_eq!(parse_history_arguments(&args(&["a b"])).unwrap_err(), NAME_RULE);
}
