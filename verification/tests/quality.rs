use pam::quality::{formatter_command, InstalledTools, ToolArgument};

fn render(arguments: &[ToolArgument], paths: &[&str]) -> Vec<String> {
    let mut out = Vec::new();
    for argument in arguments {
        match argument {
            ToolArgument::Text(text) => out.push((*text).to_owned()),
            ToolArgument::Paths { fallback } => {
                if paths.is_empty() {
                    out.extend(fallback.iter().map(|text| (*text).to_owned()));
                } else {
                    out.extend(paths.iter().map(|path| (*path).to_owned()));
                }
            },
        }
    }
    out
}

fn none() -> InstalledTools {
    InstalledTools { native_format: false, pint: false, php_cs_fixer: false, phpcs: false, phpcbf: false }
}

#[test]
fn selects_contextual_formatters_and_check_flags() {
    let pint_only = InstalledTools { pint: true, ..none() };
    let plan = formatter_command(pint_only, true).unwrap();
    assert_eq!(plan.binary, "pint");
    assert_eq!(render(&plan.arguments, &[]), vec!["--test".to_owned()]);

    let with_native = InstalledTools { native_format: true, ..pint_only };
    let plan = formatter_command(with_native, false).unwrap();
    assert_eq!(plan.binary, "pam-native-format");
    assert_eq!(render(&plan.arguments, &[]), vec!["src".to_owned()]);
}

#[test]
fn fixer_and_code_sniffer_follow_the_check_flag() {
    let fixer = InstalledTools { php_cs_fixer: true, ..none() };
    let plan = formatter_command(fixer, true).unwrap();
    assert_eq!(render(&plan.arguments, &["app"]), ["fix", "--dry-run", "--diff", "app"]);
    let sniffer = InstalledTools { phpcs: true, phpcbf: true, ..none() };
    assert_eq!(formatter_command(sniffer, true).unwrap().binary, "phpcs");
    assert_eq!(formatter_command(sniffer, false).unwrap().binary, "phpcbf");
    assert!(formatter_command(InstalledTools { phpcs: true, ..none() }, false).is_none());
    assert!(formatter_command(none(), true).is_none());
}
