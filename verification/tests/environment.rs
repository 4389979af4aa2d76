use pam::environment_file::parse_environment;

fn value<'a>(vars: &'a [(String, String)], key: &str) -> &'a str {
    vars.iter().find(|(name, _)| name == key).map(|(_, value)| value.as_str()).unwrap()
}

#[test]
fn environment_files_are_literal_private_and_cannot_redirect_manager_state() {
    let environment = parse_environment("# comment\nexport APP_MODE=production\nLITERAL='$HOME'\nEMPTY=\n").unwrap();
    assert_eq!(value(&environment, "APP_MODE"), "production");
    assert_eq!(value(&environment, "LITERAL"), "$HOME");
    assert_eq!(value(&environment, "EMPTY"), "");
    assert!(parse_environment("PAM_MANAGER_STATE_DIR=/tmp/redirected\n").unwrap_err().contains("reserved"));
}

#[test]
fn environment_lines_are_checked_and_ordered_by_name() {
    let environment = parse_environment("B=2\nA = \"one\" \nB=3\r\n").unwrap();
    assert_eq!(environment, vec![("A".to_owned(), "one".to_owned()), ("B".to_owned(), "3".to_owned())]);
    assert_eq!(parse_environment("\nnot a pair\n").unwrap_err(), "environment file line 2 requires KEY=VALUE");
    assert_eq!(parse_environment("1A=x").unwrap_err(), "environment file line 1 has an invalid key");
    assert_eq!(parse_environment("A='x").unwrap_err(), "environment file line 1 has unmatched quotes");
    assert_eq!(parse_environment("A='").unwrap_err(), "environment file line 1 has unmatched quotes");
    assert_eq!(parse_environment("A=x\ry").unwrap_err(), "environment file line 1 has control characters");
    let many: String = (0..257).map(|i| format!("V{i}=x\n")).collect();
    assert_eq!(parse_environment(&many).unwrap_err(), "environment file cannot exceed 256 variables");
}
