//! Which code formatter a PHP project runs, and with which arguments.

use vstd::prelude::*;

verus! {

/// The formatter binaries a project has under `vendor/bin`.
#[derive(Clone, Copy, Debug)]
pub struct InstalledTools {
    pub native_format: bool,
    pub pint: bool,
    pub php_cs_fixer: bool,
    pub phpcs: bool,
    pub phpcbf: bool,
}

/// An argument of a formatter run: fixed text, or the paths the caller gave
/// (the fallback text when none were given, if there is one).
#[derive(Clone, Copy, Debug)]
pub enum ToolArgument {
    Text(&'static str),
    Paths { fallback: Option<&'static str> },
}

/// What a run of the chosen formatter looks like: its binary under
/// `vendor/bin` and its arguments.
pub struct FormatterPlan {
    pub binary: &'static str,
    pub arguments: Vec<ToolArgument>,
}

/// The formatter plan as a specification sees it.
pub open spec fn planned(binary: Seq<char>, arguments: Seq<ToolArgument>) -> (Seq<char>, Seq<ToolArgument>) {
    (binary, arguments)
}

/// The first installed formatter, in the order pam-native-format, Laravel
/// Pint, PHP-CS-Fixer, PHP_CodeSniffer, with its check or fix arguments.
pub open spec fn formatter_choice(tools: InstalledTools, check: bool) -> Option<(Seq<char>, Seq<ToolArgument>)> {
    let fallback_src = ToolArgument::Paths { fallback: Some("src") };
    let fallback_here = ToolArgument::Paths { fallback: Some(".") };
    if tools.native_format {
        Some(planned("pam-native-format"@, if check {
            seq![ToolArgument::Text("--check"), fallback_src]
        } else {
            seq![fallback_src]
        }))
    } else if tools.pint {
        Some(planned("pint"@, if check {
            seq![ToolArgument::Text("--test"), ToolArgument::Paths { fallback: None }]
        } else {
            seq![ToolArgument::Paths { fallback: None }]
        }))
    } else if tools.php_cs_fixer {
        Some(planned("php-cs-fixer"@, if check {
            seq![ToolArgument::Text("fix"), ToolArgument::Text("--dry-run"), ToolArgument::Text("--diff"), fallback_here]
        } else {
            seq![ToolArgument::Text("fix"), fallback_here]
        }))
    } else if check && tools.phpcs {
        Some(planned("phpcs"@, seq![fallback_here]))
    } else if !check && tools.phpcbf {
        Some(planned("phpcbf"@, seq![fallback_here]))
    } else {
        None
    }
}

/// Chooses the formatter to run and its arguments; `check` asks for a run
/// that reports without rewriting files.
pub fn formatter_command(tools: InstalledTools, check: bool) -> (r: Option<FormatterPlan>)
    ensures
        match (r, formatter_choice(tools, check)) {
            (Some(plan), Some((binary, arguments))) => plan.binary@ == binary && plan.arguments@ == arguments,
            (None, None) => true,
            _ => false,
        },
{
    if tools.native_format {
        let mut arguments = Vec::new();
        if check {
            arguments.push(ToolArgument::Text("--check"));
        }
        arguments.push(ToolArgument::Paths { fallback: Some("src") });
        proof {
            if check {
                assert(arguments@ =~= seq![ToolArgument::Text("--check"), ToolArgument::Paths { fallback: Some("src") }]);
            } else {
                assert(arguments@ =~= seq![ToolArgument::Paths { fallback: Some("src") }]);
            }
        }
        return Some(FormatterPlan { binary: "pam-native-format", arguments });
    }
    if tools.pint {
        let mut arguments = Vec::new();
        if check {
            arguments.push(ToolArgument::Text("--test"));
        }
        arguments.push(ToolArgument::Paths { fallback: None });
        proof {
            if check {
                assert(arguments@ =~= seq![ToolArgument::Text("--test"), ToolArgument::Paths { fallback: None }]);
            } else {
                assert(arguments@ =~= seq![ToolArgument::Paths { fallback: None }]);
            }
        }
        return Some(FormatterPlan { binary: "pint", arguments });
    }
    if tools.php_cs_fixer {
        let mut arguments = vec![ToolArgument::Text("fix")];
        if check {
            arguments.push(ToolArgument::Text("--dry-run"));
            arguments.push(ToolArgument::Text("--diff"));
        }
        arguments.push(ToolArgument::Paths { fallback: Some(".") });
        proof {
            if check {
                assert(arguments@ =~= seq![ToolArgument::Text("fix"), ToolArgument::Text("--dry-run"), ToolArgument::Text("--diff"), ToolArgument::Paths { fallback: Some(".") }]);
            } else {
                assert(arguments@ =~= seq![ToolArgument::Text("fix"), ToolArgument::Paths { fallback: Some(".") }]);
            }
        }
        return Some(FormatterPlan { binary: "php-cs-fixer", arguments });
    }
    if check && tools.phpcs {
        return Some(FormatterPlan { binary: "phpcs", arguments: vec![ToolArgument::Paths { fallback: Some(".") }] });
    }
    if !check && tools.phpcbf {
        return Some(FormatterPlan { binary: "phpcbf", arguments: vec![ToolArgument::Paths { fallback: Some(".") }] });
    }
    None
}

} // verus!
