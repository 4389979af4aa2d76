use pam::cli::Argument;
use pam::mobile::{AndroidAbi, BuildMode};
use pam::mobile_commands::{parse_generator, parse_mobile_options, parse_project_only, parse_runtime_use};

fn args(values: &[&str]) -> Vec<Argument> {
    values.iter().map(|value| Argument { text: (*value).to_owned(), utf8: true }).collect()
}

#[test]
fn build_options_read_mode_abis_and_project() {
    let options = parse_mobile_options(&args(&["--release", "app", "--abi", "x64", "--abi", "x86_64"]), true).unwrap();
    assert_eq!((options.project, options.mode), (Some(1), BuildMode::Release));
    assert_eq!(options.abis, vec![AndroidAbi::X86_64]);
    let options = parse_mobile_options(&args(&[]), false).unwrap();
    assert_eq!((options.project, options.mode), (None, BuildMode::Debug));
    assert_eq!(options.abis, vec![AndroidAbi::Arm64, AndroidAbi::X86_64]);
    assert_eq!(
        parse_mobile_options(&args(&["--release"]), false).err().unwrap(),
        "`pam mobile dev` only supports debug builds"
    );
    assert_eq!(parse_mobile_options(&args(&["--abi"]), true).err().unwrap(), "--abi requires arm64-v8a or x86_64");
    assert_eq!(
        parse_mobile_options(&args(&["--abi", "mips"]), true).err().unwrap(),
        "unsupported Android ABI \"mips\"; expected arm64-v8a or x86_64"
    );
    assert_eq!(parse_mobile_options(&args(&["--fast"]), true).err().unwrap(), "unknown mobile option --fast");
    assert_eq!(
        parse_mobile_options(&args(&["a", "b"]), true).err().unwrap(),
        "mobile commands accept at most one project directory"
    );
}

#[test]
fn single_project_commands_take_at_most_one_path() {
    assert_eq!(parse_project_only(&args(&[])), Ok(None));
    assert_eq!(parse_project_only(&args(&["app"])), Ok(Some(0)));
    assert_eq!(parse_project_only(&args(&["app", "extra"])).unwrap_err(), "unexpected mobile argument extra");
}

#[test]
fn runtime_use_and_generators_read_their_values() {
    assert_eq!(parse_runtime_use(&args(&["8.4", "app"])), Ok(("8.4".to_owned(), Some(1))));
    assert_eq!(parse_runtime_use(&args(&[])).unwrap_err(), "`pam mobile runtime:use` requires 8.4 or 8.5");
    assert_eq!(parse_runtime_use(&args(&["8.4", "a", "b"])).unwrap_err(), "unexpected runtime argument b");
    assert_eq!(parse_generator(&args(&["Checkout"])), Ok(("Checkout".to_owned(), None)));
    assert_eq!(
        parse_generator(&args(&["checkout"])).unwrap_err(),
        "generator names must start with an uppercase ASCII letter and contain only letters or digits"
    );
    assert_eq!(parse_generator(&args(&[])).unwrap_err(), "generator commands require a PascalCase name");
    let mut raw = args(&["Checkout"]);
    raw[0].utf8 = false;
    assert_eq!(parse_generator(&raw).unwrap_err(), "generator names must be valid UTF-8");
}
