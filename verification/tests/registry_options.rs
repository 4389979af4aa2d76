use pam::cli::Argument;
use pam::registry_options::{parse_adopt_options, parse_payload_options, parse_registry_options, AdoptOptions};

fn args(values: &[&str]) -> Vec<Argument> {
    values.iter().map(|value| Argument { text: (*value).to_owned(), utf8: true }).collect()
}

#[test]
fn resolve_options_name_their_requirements() {
    let version = "1.4.0".to_owned();
    let base = ["--root", "root.json", "--root-sha256", "abc", "--catalog", "catalog.json"];
    let mut full: Vec<&str> = base.to_vec();
    full.extend(["--package", "acme/camera", "--surface-code", "2", "--native-protocol", "3", "--json"]);
    let options = parse_registry_options(&args(&full), &version, true).unwrap();
    assert_eq!(options.root, Some(1));
    assert_eq!(options.catalog, Some(5));
    assert_eq!(options.root_sha256.as_deref(), Some("abc"));
    assert_eq!(options.surface_code, Some(2));
    assert_eq!(options.native_protocol, Some(3));
    assert_eq!(options.pam_version, "1.4.0");
    assert!(options.json);

    assert_eq!(
        parse_registry_options(&args(&["--json"]), &version, true).err().unwrap(),
        "registry resolution requires --root, --root-sha256, and --catalog"
    );
    assert_eq!(
        parse_registry_options(&args(&base), &version, true).err().unwrap(),
        "registry resolution requires --package"
    );
    let mut native: Vec<&str> = base.to_vec();
    native.extend(["--package", "acme/camera", "--surface-code", "2"]);
    assert_eq!(
        parse_registry_options(&args(&native), &version, true).err().unwrap(),
        "Native registry resolution requires --native-protocol"
    );
    assert_eq!(
        parse_registry_options(&args(&["--surface-code", "x"]), &version, true).err().unwrap(),
        "--surface-code must be 1, 2, or 3"
    );
    assert_eq!(
        parse_registry_options(&args(&["--bogus"]), &version, true).err().unwrap(),
        "unknown registry resolve option \"--bogus\""
    );
    assert_eq!(parse_registry_options(&args(&["--root"]), &version, true).err().unwrap(), "--root requires a path");
    assert!(parse_registry_options(&args(&["--pam-version", "one"]), &version, true)
        .err()
        .unwrap()
        .starts_with("invalid --pam-version: "));
}

#[test]
fn matrix_options_need_both_protocols() {
    let version = "1.4.0".to_owned();
    let base = ["--root", "r", "--root-sha256", "abc", "--catalog", "c", "--native-protocol", "1"];
    assert_eq!(
        parse_registry_options(&args(&base), &version, false).err().unwrap(),
        "registry matrix requires --desktop-protocol"
    );
    assert_eq!(
        parse_registry_options(&args(&["--package", "a/b"]), &version, false).err().unwrap(),
        "unknown registry matrix option \"--package\""
    );
    assert!(parse_registry_options(&args(&[]), &"x".to_owned(), false)
        .err()
        .unwrap()
        .starts_with("invalid PAM package version: "));
}

#[test]
fn adopt_options_require_project_root_and_catalog() {
    let options =
        parse_adopt_options(&args(&["--project", "app", "--next-root", "r.json", "--next-catalog", "c.json", "--json"]))
            .unwrap();
    assert_eq!(options, AdoptOptions { project: 1, next_root: 3, next_catalog: 5, at_unix: None, json: true });
    let options =
        parse_adopt_options(&args(&["--at-unix", "7", "--next-catalog", "c", "--next-root", "r", "--project", "p"]))
            .unwrap();
    assert_eq!((options.at_unix, options.project, options.next_root, options.next_catalog), (Some(7), 7, 5, 3));
    assert_eq!(parse_adopt_options(&args(&["--next-root", "r"])).unwrap_err(), "registry adoption requires --project");
    assert_eq!(
        parse_adopt_options(&args(&["--project", "p", "--next-root", "r"])).unwrap_err(),
        "registry adoption requires --next-catalog"
    );
    assert_eq!(parse_adopt_options(&args(&["--project"])).unwrap_err(), "--project requires a path");
    assert_eq!(parse_adopt_options(&args(&["--at-unix", "x"])).unwrap_err(), "--at-unix must be an unsigned integer");
    assert_eq!(parse_adopt_options(&args(&["--force"])).unwrap_err(), "unknown registry adopt option \"--force\"");
}

#[test]
fn payload_options_require_a_document() {
    assert_eq!(parse_payload_options(&args(&["--document", "root.json"])), Ok((1, None)));
    assert_eq!(parse_payload_options(&args(&["--output", "out", "--document", "d"])), Ok((3, Some(1))));
    assert_eq!(parse_payload_options(&args(&[])).unwrap_err(), "registry payload requires --document");
    assert_eq!(parse_payload_options(&args(&["--output"])).unwrap_err(), "--output requires a path");
    assert_eq!(parse_payload_options(&args(&["-x"])).unwrap_err(), "unknown registry payload option \"-x\"");
}
