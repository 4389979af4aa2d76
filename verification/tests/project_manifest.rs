use pam::project::{CommandTarget, ProjectKind, RegisteredCommand};
use pam::project_commands::{
    check_registrations, read_command_entry, valid_command_name, CommandDefinition, JsonArguments, JsonEnvironment,
};
use pam::project_manifest::{validate_project_manifest, valid_project_version, ProjectManifestFields, VersionField};

fn fields() -> ProjectManifestFields {
    ProjectManifestFields {
        schema: Some(1),
        kind: Some(1),
        surface_codes: None,
        contract_path: None,
        name: Some("Shop".to_owned()),
        version: VersionField::Text("1.2.3-beta.1".to_owned()),
    }
}

#[test]
fn project_versions_are_semver_cores_with_suffixes() {
    assert!(valid_project_version("1.2.3"));
    assert!(valid_project_version("10.0.1-rc.2"));
    assert!(!valid_project_version("1.2"));
    assert!(!valid_project_version("1.2.3-"));
    assert!(!valid_project_version("1.2.3-beta_1"));
    assert!(!valid_project_version("v1.2.3"));
}

#[test]
fn manifests_match_the_discovered_project() {
    assert_eq!(validate_project_manifest(&fields(), ProjectKind::Api, &Ok(true)), Ok(()));
    let mut f = fields();
    f.schema = Some(2);
    assert_eq!(
        validate_project_manifest(&f, ProjectKind::Api, &Ok(true)).unwrap_err(),
        "unsupported pam.json schema 2; expected 1"
    );
    assert_eq!(
        validate_project_manifest(&fields(), ProjectKind::Laravel, &Ok(true)).unwrap_err(),
        "pam.json type 1 does not match the discovered Laravel project type 3"
    );
    let mut f = fields();
    f.name = Some("   ".to_owned());
    assert_eq!(validate_project_manifest(&f, ProjectKind::Api, &Ok(true)).unwrap_err(), "pam.json name must be a non-empty string");
    let mut f = fields();
    f.name = Some("a\nb".to_owned());
    assert_eq!(
        validate_project_manifest(&f, ProjectKind::Api, &Ok(true)).unwrap_err(),
        "pam.json name must be safe and at most 80 characters"
    );
    let mut f = fields();
    f.version = VersionField::NotText;
    assert_eq!(
        validate_project_manifest(&f, ProjectKind::Api, &Ok(true)).unwrap_err(),
        "pam.json version must use MAJOR.MINOR.PATCH SemVer"
    );
    let mut f = fields();
    f.version = VersionField::Text(format!("1.2.3-{}", "a".repeat(60)));
    assert_eq!(validate_project_manifest(&f, ProjectKind::Api, &Ok(true)).unwrap_err(), "pam.json version must be at most 64 bytes");
}

#[test]
fn product_workspaces_declare_their_surfaces_and_contracts() {
    let mut f = fields();
    f.kind = Some(6);
    f.surface_codes = Some(vec![Some(1), Some(2), Some(3)]);
    f.contract_path = Some("packages/contracts".to_owned());
    assert_eq!(validate_project_manifest(&f, ProjectKind::Product, &Ok(true)), Ok(()));
    assert_eq!(
        validate_project_manifest(&f, ProjectKind::Product, &Ok(false)).unwrap_err(),
        "product workspace contracts must be a real project-local directory"
    );
    f.surface_codes = Some(vec![Some(1), Some(3)]);
    assert_eq!(
        validate_project_manifest(&f, ProjectKind::Product, &Ok(true)).unwrap_err(),
        "product workspace surfaceCodes must be the integer array [1, 2, 3]"
    );
    f.surface_codes = Some(vec![Some(1), Some(2), Some(3)]);
    f.contract_path = Some("contracts".to_owned());
    assert_eq!(
        validate_project_manifest(&f, ProjectKind::Product, &Ok(true)).unwrap_err(),
        "product workspace contractPath must be packages/contracts"
    );
}

#[test]
fn command_declarations_are_read_strictly() {
    assert!(valid_command_name("db:seed"));
    assert!(!valid_command_name("Seed"));
    let entry = read_command_entry("db:seed", &CommandDefinition::Text("bin/seed.php".to_owned())).unwrap();
    assert!(entry.script);
    assert_eq!((entry.target.as_str(), entry.description.as_str()), ("bin/seed.php", "Application command"));
    let object = CommandDefinition::Object {
        script: None,
        bin: Some("bin/tool".to_owned()),
        description: Some("Runs the tool".to_owned()),
        arguments: JsonArguments::List(vec![Some("--fast".to_owned())]),
        environment: JsonEnvironment::Entries(vec![("TOOL_MODE".to_owned(), Some("ci".to_owned()))]),
    };
    let entry = read_command_entry("tool", &object).unwrap();
    assert!(!entry.script);
    assert_eq!(entry.arguments, vec!["--fast".to_owned()]);
    assert_eq!(entry.environment, vec![("TOOL_MODE".to_owned(), "ci".to_owned())]);
    assert_eq!(read_command_entry("Bad", &object).err().unwrap(), "invalid PAM command name \"Bad\"");
    assert_eq!(read_command_entry("x", &CommandDefinition::Other).err().unwrap(), "PAM command x must be a string or object");
    let both = CommandDefinition::Object {
        script: Some("a.php".to_owned()),
        bin: Some("b".to_owned()),
        description: None,
        arguments: JsonArguments::Absent,
        environment: JsonEnvironment::Absent,
    };
    assert_eq!(read_command_entry("x", &both).err().unwrap(), "PAM command x must declare exactly one of script or bin");
    let bad_env = CommandDefinition::Object {
        script: Some("a.php".to_owned()),
        bin: None,
        description: None,
        arguments: JsonArguments::List(vec![]),
        environment: JsonEnvironment::Entries(vec![("lower".to_owned(), Some("x".to_owned()))]),
    };
    assert_eq!(read_command_entry("x", &bad_env).err().unwrap(), "PAM command x contains an invalid environment entry");
    let bad_args = CommandDefinition::Object {
        script: Some("a.php".to_owned()),
        bin: None,
        description: None,
        arguments: JsonArguments::List(vec![None]),
        environment: JsonEnvironment::Absent,
    };
    assert_eq!(read_command_entry("x", &bad_args).err().unwrap(), "PAM command x contains an invalid argument");
}

fn command(name: &str) -> RegisteredCommand {
    RegisteredCommand {
        name: name.to_owned(),
        description: "Application command".to_owned(),
        target: CommandTarget::PhpScript(format!("/srv/app/{name}.php")),
        arguments: Vec::new(),
        environment: Vec::new(),
    }
}

#[test]
fn registrations_are_sorted_unique_and_never_shadow_built_ins() {
    let protected = vec!["up".to_owned(), "deploy".to_owned()];
    let sorted = check_registrations(vec![command("seed"), command("audit"), command("migrate")], &protected).unwrap();
    let names: Vec<&str> = sorted.iter().map(|c| c.name.as_str()).collect();
    assert_eq!(names, vec!["audit", "migrate", "seed"]);
    assert_eq!(
        check_registrations(vec![command("up"), command("deploy"), command("x"), command("x")], &protected).unwrap_err(),
        "PAM command registration deploy shadows a built-in command"
    );
    assert_eq!(
        check_registrations(vec![command("z"), command("b"), command("z"), command("b")], &protected).unwrap_err(),
        "duplicate PAM command registration: b"
    );
}
