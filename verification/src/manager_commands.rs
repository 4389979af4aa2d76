//! The arguments of the process manager's smaller commands: those that take
//! only `--json`, one application name, an ecosystem file, a deployment or
//! a rollback, and the resource history.

use vstd::prelude::*;
use crate::cli::{Argument, value_text, required_utf8, required_positive, number_value, needs_positive};
use crate::text::{concat_str, str_eq, push_decimal_text, decimal_text};
use crate::process_manager::{valid_application_name, validate_name, MAX_DEPLOY_HISTORY, MAX_RESOURCE_HISTORY};

verus! {

/// The argument is exactly `--json`.
pub open spec fn is_json_flag(a: Argument) -> bool {
    a.text@ == "--json"@
}

/// The argument looks like an option: it starts with `-`.
pub open spec fn is_dashed(a: Argument) -> bool {
    a.text@.len() > 0 && a.text@[0] == '-'
}

fn json_flag(a: &Argument) -> (r: bool)
    ensures
        r == is_json_flag(*a),
{
    str_eq(a.text.as_str(), "--json")
}

fn dashed(a: &Argument) -> (r: bool)
    ensures
        r == is_dashed(*a),
{
    a.text.unicode_len() > 0 && a.text.get_char(0) == '-'
}

/// What a command that takes only `--json` makes of its arguments.
pub open spec fn json_only(args: Seq<Argument>, command: Seq<char>) -> Result<bool, Seq<char>> {
    if args.len() == 0 {
        Ok(false)
    } else if args.len() == 1 && is_json_flag(args[0]) {
        Ok(true)
    } else {
        Err(command + " accepts only --json"@)
    }
}

/// Reads the arguments of a command that takes only `--json`.
pub fn parse_json_only(args: &Vec<Argument>, command: &str) -> (r: Result<bool, String>)
    ensures
        match (r, json_only(args@, command@)) {
            (Ok(b), Ok(c)) => b == c,
            (Err(e), Err(m)) => e@ == m,
            _ => false,
        },
{
    if args.len() == 0 {
        Ok(false)
    } else if args.len() == 1 && json_flag(&args[0]) {
        Ok(true)
    } else {
        Err(concat_str(command, " accepts only --json"))
    }
}

/// The name and `--json` flag read from `args[i..]` on top of what was read
/// before.
pub open spec fn name_json_scan(args: Seq<Argument>, i: int, name: Option<Seq<char>>, json: bool, command: Seq<char>) -> Result<
    (Option<Seq<char>>, bool),
    Seq<char>,
>
    decreases args.len() - i,
{
    if i < 0 || i >= args.len() {
        Ok((name, json))
    } else if is_json_flag(args[i]) {
        name_json_scan(args, i + 1, name, true, command)
    } else if is_dashed(args[i]) || name is Some {
        Err(command + " requires one application name and optional --json"@)
    } else {
        name_json_scan(args, i + 1, Some(args[i].text@), json, command)
    }
}

/// What a command that takes one application name and `--json` makes of
/// its arguments.
pub open spec fn name_json(args: Seq<Argument>, command: Seq<char>) -> Result<(Seq<char>, bool), Seq<char>> {
    match name_json_scan(args, 0, None, false, command) {
        Err(e) => Err(e),
        Ok((None, _)) => Err(command + " requires an application name"@),
        Ok((Some(n), json)) => if valid_application_name(n) {
            Ok((n, json))
        } else {
            Err("application name must contain 1-64 ASCII letters, digits, '.', '-' or '_'"@)
        },
    }
}

/// Reads the arguments of a command that takes one application name and an
/// optional `--json`.
pub fn parse_name_json(args: &Vec<Argument>, command: &str) -> (r: Result<(String, bool), String>)
    ensures
        match (r, name_json(args@, command@)) {
            (Ok((n, j)), Ok((m, k))) => n@ == m && j == k,
            (Err(e), Err(m)) => e@ == m,
            _ => false,
        },
{
    let mut name: Option<String> = None;
    let mut json = false;
    let mut i: usize = 0;
    while i < args.len()
        invariant
            i <= args@.len(),
            name_json_scan(args@, 0, None, false, command@) == name_json_scan(
                args@,
                i as int,
                match name {
                    Some(s) => Some(s@),
                    None => None,
                },
                json,
                command@,
            ),
        decreases args.len() - i,
    {
        let a = &args[i];
        if json_flag(a) {
            json = true;
        } else if dashed(a) || name.is_some() {
            return Err(concat_str(command, " requires one application name and optional --json"));
        } else {
            name = Some(a.text.clone());
        }
        i = i + 1;
    }
    let name = match name {
        None => {
            return Err(concat_str(command, " requires an application name"));
        },
        Some(n) => n,
    };
    if let Err(e) = validate_name(name.as_str()) {
        return Err(e);
    }
    Ok((name, json))
}

/// The ecosystem file's position and the `--json` flag read from `args[i..]`.
pub open spec fn config_scan(args: Seq<Argument>, i: int, path: Option<usize>, json: bool, command: Seq<char>) -> Result<
    (Option<usize>, bool),
    Seq<char>,
>
    decreases args.len() - i,
{
    if i < 0 || i >= args.len() {
        Ok((path, json))
    } else if is_json_flag(args[i]) {
        config_scan(args, i + 1, path, true, command)
    } else if is_dashed(args[i]) || path is Some {
        Err(command + " accepts a pam.toml path and optional --json"@)
    } else {
        config_scan(args, i + 1, Some(i as usize), json, command)
    }
}

/// Reads the arguments of an ecosystem command: the position of the
/// `pam.toml` path (`None` for `pam.toml` in the current directory) and the
/// `--json` flag.
pub fn parse_config_arguments(args: &Vec<Argument>, command: &str) -> (r: Result<(Option<usize>, bool), String>)
    ensures
        match (r, config_scan(args@, 0, None, false, command@)) {
            (Ok(o), Ok(s)) => o == s,
            (Err(e), Err(m)) => e@ == m,
            _ => false,
        },
{
    let mut path: Option<usize> = None;
    let mut json = false;
    let mut i: usize = 0;
    while i < args.len()
        invariant
            i <= args@.len(),
            config_scan(args@, 0, None, false, command@) == config_scan(args@, i as int, path, json, command@),
        decreases args.len() - i,
    {
        let a = &args[i];
        if json_flag(a) {
            json = true;
        } else if dashed(a) || path.is_some() {
            return Err(concat_str(command, " accepts a pam.toml path and optional --json"));
        } else {
            path = Some(i);
        }
        i = i + 1;
    }
    Ok((path, json))
}

/// The positions of the arguments of `deploy` that are not `--json`.
pub open spec fn deploy_values(args: Seq<Argument>, n: int) -> Seq<usize>
    decreases n,
{
    if n <= 0 {
        Seq::empty()
    } else if is_json_flag(args[n - 1]) {
        deploy_values(args, n - 1)
    } else {
        deploy_values(args, n - 1).push((n - 1) as usize)
    }
}

/// What `deploy` makes of its arguments: the application name, the position
/// of the release directory and the `--json` flag.
pub open spec fn deploy_request(args: Seq<Argument>) -> Result<(Seq<char>, usize, bool), Seq<char>> {
    let values = deploy_values(args, args.len() as int);
    let json = exists|i: int| 0 <= i < args.len() && is_json_flag(#[trigger] args[i]);
    if values.len() != 2 {
        Err("deploy requires NAME RELEASE_DIRECTORY and optional --json"@)
    } else {
        match value_text(Some(&args[values[0] as int]), "deploy name"@) {
            Err(e) => Err(e),
            Ok(name) => if valid_application_name(name) {
                Ok((name, values[1], json))
            } else {
                Err("application name must contain 1-64 ASCII letters, digits, '.', '-' or '_'"@)
            },
        }
    }
}

/// Reads the arguments of `deploy NAME RELEASE_DIRECTORY [--json]`.
pub fn parse_deploy_arguments(args: &Vec<Argument>) -> (r: Result<(String, usize, bool), String>)
    ensures
        match (r, deploy_request(args@)) {
            (Ok((n, p, j)), Ok((m, q, k))) => n@ == m && p == q && j == k,
            (Err(e), Err(m)) => e@ == m,
            _ => false,
        },
{
    let mut values: Vec<usize> = Vec::new();
    let mut json = false;
    let mut i: usize = 0;
    while i < args.len()
        invariant
            i <= args@.len(),
            values@ == deploy_values(args@, i as int),
            json == exists|k: int| 0 <= k < i && is_json_flag(#[trigger] args@[k]),
            forall|k: int| 0 <= k < values@.len() ==> values@[k] < i,
        decreases args.len() - i,
    {
        if json_flag(&args[i]) {
            json = true;
        } else {
            values.push(i);
        }
        i = i + 1;
    }
    if values.len() != 2 {
        return Err(String::from_str("deploy requires NAME RELEASE_DIRECTORY and optional --json"));
    }
    let name = match required_utf8(Some(&args[values[0]]), "deploy name") {
        Ok(n) => n,
        Err(e) => {
            return Err(e);
        },
    };
    if let Err(e) = validate_name(name.as_str()) {
        return Err(e);
    }
    Ok((name, values[1], json))
}

/// The name, step count and `--json` flag read from `args[i..]` by
/// `rollback`.
pub open spec fn rollback_scan(args: Seq<Argument>, i: int, name: Option<Seq<char>>, steps: int, json: bool) -> Result<
    (Option<Seq<char>>, int, bool),
    Seq<char>,
>
    decreases args.len() - i,
{
    if i < 0 || i >= args.len() {
        Ok((name, steps, json))
    } else {
        let w = args[i].text@;
        if w == "--steps"@ {
            let v = if i + 1 < args.len() {
                Some(&args[i + 1])
            } else {
                None
            };
            match number_value(v, w, usize::MAX as int, true, needs_positive()) {
                Err(e) => Err(e),
                Ok(n) => rollback_scan(args, i + 2, name, n, json),
            }
        } else if w == "--json"@ {
            rollback_scan(args, i + 1, name, steps, true)
        } else if w.len() > 0 && w[0] == '-' {
            Err("unknown rollback option: "@ + w)
        } else if name is None {
            rollback_scan(args, i + 1, Some(w), steps, json)
        } else {
            Err("rollback accepts one application name"@)
        }
    }
}

/// What `rollback` makes of its arguments: the application name, how many
/// deployments to step back (1 by default, at most the history kept) and
/// the `--json` flag.
pub open spec fn rollback_request(args: Seq<Argument>) -> Result<(Seq<char>, int, bool), Seq<char>> {
    match rollback_scan(args, 0, None, 1, false) {
        Err(e) => Err(e),
        Ok((None, _, _)) => Err("rollback requires an application name"@),
        Ok((Some(n), steps, json)) => if !valid_application_name(n) {
            Err("application name must contain 1-64 ASCII letters, digits, '.', '-' or '_'"@)
        } else if steps > MAX_DEPLOY_HISTORY {
            Err("--steps cannot exceed "@ + decimal_text(MAX_DEPLOY_HISTORY as nat))
        } else {
            Ok((n, steps, json))
        },
    }
}

/// Reads the arguments of `rollback NAME [--steps N] [--json]`.
pub fn parse_rollback_arguments(args: &Vec<Argument>) -> (r: Result<(String, usize, bool), String>)
    ensures
        match (r, rollback_request(args@)) {
            (Ok((n, s, j)), Ok((m, t, k))) => n@ == m && s == t && j == k,
            (Err(e), Err(m)) => e@ == m,
            _ => false,
        },
{
    let mut name: Option<String> = None;
    let mut steps: usize = 1;
    let mut json = false;
    let n = args.len();
    let mut i: usize = 0;
    while i < n
        invariant
            n == args@.len(),
            i <= n + 1,
            rollback_scan(args@, 0, None, 1, false) == rollback_scan(
                args@,
                i as int,
                match name {
                    Some(s) => Some(s@),
                    None => None,
                },
                steps as int,
                json,
            ),
        decreases n + 1 - i,
    {
        let w = args[i].text.as_str();
        if str_eq(w, "--steps") {
            let v = if i + 1 < n {
                Some(&args[i + 1])
            } else {
                None
            };
            match required_positive(v, w) {
                Err(e) => {
                    return Err(e);
                },
                Ok(k) => {
                    steps = k;
                    i = i + 2;
                },
            }
        } else if str_eq(w, "--json") {
            json = true;
            i = i + 1;
        } else if w.unicode_len() > 0 && w.get_char(0) == '-' {
            return Err(concat_str("unknown rollback option: ", w));
        } else if name.is_none() {
            name = Some(args[i].text.clone());
            i = i + 1;
        } else {
            return Err(String::from_str("rollback accepts one application name"));
        }
    }
    let name = match name {
        None => {
            return Err(String::from_str("rollback requires an application name"));
        },
        Some(s) => s,
    };
    if let Err(e) = validate_name(name.as_str()) {
        return Err(e);
    }
    if steps > MAX_DEPLOY_HISTORY {
        let mut e = String::from_str("--steps cannot exceed ");
        push_decimal_text(&mut e, MAX_DEPLOY_HISTORY as u64);
        return Err(e);
    }
    Ok((name, steps, json))
}

/// What `monit:history` has read from `args[i..]`: the application name, if
/// any, `--json`, `--record`, and how many samples to show.
pub open spec fn history_scan(
    args: Seq<Argument>,
    i: int,
    st: (Option<Seq<char>>, bool, bool, int),
) -> Result<(Option<Seq<char>>, bool, bool, int), Seq<char>>
    decreases args.len() - i,
{
    if i < 0 || i >= args.len() {
        Ok(st)
    } else {
        let w = args[i].text@;
        if w == "--json"@ {
            history_scan(args, i + 1, (st.0, true, st.2, st.3))
        } else if w == "--record"@ {
            history_scan(args, i + 1, (st.0, st.1, true, st.3))
        } else if w == "--limit"@ {
            let v = if i + 1 < args.len() {
                Some(&args[i + 1])
            } else {
                None
            };
            match number_value(v, w, usize::MAX as int, true, needs_positive()) {
                Err(e) => Err(e),
                Ok(n) => if n > MAX_RESOURCE_HISTORY {
                    Err("--limit cannot exceed "@ + decimal_text(MAX_RESOURCE_HISTORY as nat))
                } else {
                    history_scan(args, i + 2, (st.0, st.1, st.2, n))
                },
            }
        } else if w.len() > 0 && w[0] == '-' {
            Err("unknown monit:history option: "@ + w)
        } else if st.0 is None {
            history_scan(args, i + 1, (Some(w), st.1, st.2, st.3))
        } else {
            Err("monit:history accepts at most one application name"@)
        }
    }
}

/// What `monit:history` makes of its arguments: an optional valid name,
/// `--json`, `--record`, and the number of samples to show (all that are
/// kept by default).
pub open spec fn history_request(args: Seq<Argument>) -> Result<(Option<Seq<char>>, bool, bool, int), Seq<char>> {
    match history_scan(args, 0, (None, false, false, MAX_RESOURCE_HISTORY as int)) {
        Err(e) => Err(e),
        Ok(st) => if st.0 matches Some(n) && !valid_application_name(n) {
            Err("application name must contain 1-64 ASCII letters, digits, '.', '-' or '_'"@)
        } else {
            Ok(st)
        },
    }
}

/// Reads the arguments of `monit:history [NAME] [--limit N] [--record]
/// [--json]`.
pub fn parse_history_arguments(args: &Vec<Argument>) -> (r: Result<(Option<String>, bool, bool, usize), String>)
    ensures
        match (r, history_request(args@)) {
            (Ok((n, j, rec, l)), Ok((m, k, s, t))) => (match n {
                Some(x) => Some(x@),
                None => None,
            }) == m && j == k && rec == s && l == t,
            (Err(e), Err(m)) => e@ == m,
            _ => false,
        },
{
    let mut name: Option<String> = None;
    let mut json = false;
    let mut record = false;
    let mut limit: usize = MAX_RESOURCE_HISTORY;
    let n = args.len();
    let mut i: usize = 0;
    while i < n
        invariant
            n == args@.len(),
            i <= n + 1,
            history_scan(args@, 0, (None, false, false, MAX_RESOURCE_HISTORY as int)) == history_scan(
                args@,
                i as int,
                (
                    match name {
                        Some(s) => Some(s@),
                        None => None,
                    },
                    json,
                    record,
                    limit as int,
                ),
            ),
        decreases n + 1 - i,
    {
        let w = args[i].text.as_str();
        if str_eq(w, "--json") {
            json = true;
            i = i + 1;
        } else if str_eq(w, "--record") {
            record = true;
            i = i + 1;
        } else if str_eq(w, "--limit") {
            let v = if i + 1 < n {
                Some(&args[i + 1])
            } else {
                None
            };
            match required_positive(v, w) {
                Err(e) => {
                    return Err(e);
                },
                Ok(k) => {
                    if k > MAX_RESOURCE_HISTORY {
                        let mut e = String::from_str("--limit cannot exceed ");
                        push_decimal_text(&mut e, MAX_RESOURCE_HISTORY as u64);
                        return Err(e);
                    }
                    limit = k;
                    i = i + 2;
                },
            }
        } else if w.unicode_len() > 0 && w.get_char(0) == '-' {
            return Err(concat_str("unknown monit:history option: ", w));
        } else if name.is_none() {
            name = Some(args[i].text.clone());
            i = i + 1;
        } else {
            return Err(String::from_str("monit:history accepts at most one application name"));
        }
    }
    if let Some(s) = &name {
        if let Err(e) = validate_name(s.as_str()) {
            return Err(e);
        }
    }
    Ok((name, json, record, limit))
}

} // verus!
