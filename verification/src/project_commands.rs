//! The commands a project and its Composer packages register with PAM: how
//! each declaration is read, and how the registrations are checked together.

use vstd::prelude::*;
use vstd::utf8::encode_utf8;
use crate::text::{chars_of, byte_len, concat_str, quoted, debug_quoted, str_eq, is_ascii_lower, is_ascii_upper,
    is_ascii_digit, ascii_lower, ascii_upper, ascii_digit};
use crate::hexutil::{text_less, str_less, lemma_text_less_strict_total};
use crate::project::RegisteredCommand;
use crate::project_manifest::has_line_control;

verus! {

/// A declaration's `arguments`: absent, not an array, or an array whose
/// elements are strings (`Some`) or other values (`None`).
pub enum JsonArguments {
    Absent,
    NotList,
    List(Vec<Option<String>>),
}

/// A declaration's `environment`: absent, not an object, or its entries,
/// whose values are strings (`Some`) or other values (`None`).
pub enum JsonEnvironment {
    Absent,
    NotObject,
    Entries(Vec<(String, Option<String>)>),
}

/// How a command is declared: by a script path alone, by an object, or by
/// some other JSON value. In an object, `script`, `bin` and `description`
/// are there where they are strings.
pub enum CommandDefinition {
    Text(String),
    Object {
        script: Option<String>,
        bin: Option<String>,
        description: Option<String>,
        arguments: JsonArguments,
        environment: JsonEnvironment,
    },
    Other,
}

/// A declaration as read: whether its target is a PHP script (else an
/// executable), the target path as declared, the description, the
/// arguments and the environment.
pub struct CommandEntry {
    pub script: bool,
    pub target: String,
    pub description: String,
    pub arguments: Vec<String>,
    pub environment: Vec<(String, String)>,
}

/// A character of a command name: lowercase ASCII letter, digit, `:`, `-`
/// or `_`.
pub open spec fn is_command_name_char(c: char) -> bool {
    is_ascii_lower(c) || is_ascii_digit(c) || c == ':' || c == '-' || c == '_'
}

/// A command name: 1 to 96 bytes of such characters.
pub open spec fn is_command_name(v: Seq<char>) -> bool {
    &&& v.len() > 0
    &&& encode_utf8(v).len() <= 96
    &&& forall|i: int| 0 <= i < v.len() ==> is_command_name_char(#[trigger] v[i])
}

/// Whether a command name is acceptable.
pub fn valid_command_name(name: &str) -> (r: bool)
    ensures
        r == is_command_name(name@),
{
    let chars = chars_of(name);
    if chars.len() == 0 || byte_len(name) > 96 {
        return false;
    }
    let mut i: usize = 0;
    while i < chars.len()
        invariant
            chars@ == name@,
            i <= chars@.len(),
            forall|k: int| 0 <= k < i ==> is_command_name_char(#[trigger] chars@[k]),
        decreases chars.len() - i,
    {
        let c = chars[i];
        if !(ascii_lower(c) || ascii_digit(c) || c == ':' || c == '-' || c == '_') {
            assert(!is_command_name_char(chars@[i as int]));
            return false;
        }
        i = i + 1;
    }
    true
}

/// An argument or environment value: at most 4096 bytes, no line break or
/// NUL.
pub open spec fn is_safe_value(v: Seq<char>) -> bool {
    encode_utf8(v).len() <= 4096 && !has_line_control(v)
}

fn safe_value(v: &str) -> (r: bool)
    ensures
        r == is_safe_value(v@),
{
    if byte_len(v) > 4096 {
        return false;
    }
    let chars = chars_of(v);
    let mut i: usize = 0;
    while i < chars.len()
        invariant
            chars@ == v@,
            i <= chars@.len(),
            forall|k: int| 0 <= k < i ==> !(chars@[k] == '\n' || chars@[k] == '\r' || chars@[k] == '\0'),
        decreases chars.len() - i,
    {
        let c = chars[i];
        if c == '\n' || c == '\r' || c == '\0' {
            return false;
        }
        i = i + 1;
    }
    true
}

/// An environment variable name: 1 to 128 bytes of uppercase ASCII letters,
/// digits and `_`.
pub open spec fn is_environment_key(v: Seq<char>) -> bool {
    &&& v.len() > 0
    &&& encode_utf8(v).len() <= 128
    &&& forall|i: int| 0 <= i < v.len() ==> (is_ascii_upper(#[trigger] v[i]) || is_ascii_digit(v[i]) || v[i] == '_')
}

fn environment_key(v: &str) -> (r: bool)
    ensures
        r == is_environment_key(v@),
{
    let chars = chars_of(v);
    if chars.len() == 0 || byte_len(v) > 128 {
        return false;
    }
    let mut i: usize = 0;
    while i < chars.len()
        invariant
            chars@ == v@,
            i <= chars@.len(),
            forall|k: int| 0 <= k < i ==> (is_ascii_upper(#[trigger] chars@[k]) || is_ascii_digit(chars@[k])
                || chars@[k] == '_'),
        decreases chars.len() - i,
    {
        let c = chars[i];
        if !(ascii_upper(c) || ascii_digit(c) || c == '_') {
            return false;
        }
        i = i + 1;
    }
    true
}

/// An argument that is a safe string.
pub open spec fn valid_argument(o: Option<String>) -> bool {
    match o {
        Some(s) => is_safe_value(s@),
        None => false,
    }
}

/// An environment entry with a valid name and a safe string value.
pub open spec fn valid_environment_entry(p: (String, Option<String>)) -> bool {
    is_environment_key(p.0@) && valid_argument(p.1)
}

/// The arguments a declaration gives, or why they are refused.
pub open spec fn arguments_of(name: Seq<char>, a: JsonArguments) -> Result<Seq<Seq<char>>, Seq<char>> {
    match a {
        JsonArguments::Absent => Ok(Seq::empty()),
        JsonArguments::NotList => Err("PAM command "@ + name + " arguments must be an array of at most 32 strings"@),
        JsonArguments::List(values) => if values@.len() > 32 {
            Err("PAM command "@ + name + " arguments must be an array of at most 32 strings"@)
        } else if exists|i: int| 0 <= i < values@.len() && !valid_argument(#[trigger] values@[i]) {
            Err("PAM command "@ + name + " contains an invalid argument"@)
        } else {
            Ok(values@.map_values(|o: Option<String>| o->Some_0@))
        },
    }
}

/// The environment a declaration gives, or why it is refused.
pub open spec fn environment_of(name: Seq<char>, e: JsonEnvironment) -> Result<Seq<(Seq<char>, Seq<char>)>, Seq<char>> {
    match e {
        JsonEnvironment::Absent => Ok(Seq::empty()),
        JsonEnvironment::NotObject => Err(
            "PAM command "@ + name + " environment must be an object of at most 32 strings"@,
        ),
        JsonEnvironment::Entries(entries) => if entries@.len() > 32 {
            Err("PAM command "@ + name + " environment must be an object of at most 32 strings"@)
        } else if exists|i: int| 0 <= i < entries@.len() && !valid_environment_entry(#[trigger] entries@[i]) {
            Err("PAM command "@ + name + " contains an invalid environment entry"@)
        } else {
            Ok(entries@.map_values(|p: (String, Option<String>)| (p.0@, p.1->Some_0@)))
        },
    }
}

#[verifier::loop_isolation(false)]
fn read_arguments(name: &str, a: &JsonArguments) -> (r: Result<Vec<String>, String>)
    ensures
        match (r, arguments_of(name@, *a)) {
            (Ok(v), Ok(w)) => v@.map_values(|s: String| s@) == w,
            (Err(e), Err(m)) => e@ == m,
            _ => false,
        },
{
    let values = match a {
        JsonArguments::Absent => {
            let v: Vec<String> = Vec::new();
            assert(v@.map_values(|s: String| s@) =~= Seq::<Seq<char>>::empty());
            return Ok(v);
        },
        JsonArguments::NotList => {
            let mut e = concat_str("PAM command ", name);
            e.append(" arguments must be an array of at most 32 strings");
            return Err(e);
        },
        JsonArguments::List(values) => values,
    };
    if values.len() > 32 {
        let mut e = concat_str("PAM command ", name);
        e.append(" arguments must be an array of at most 32 strings");
        return Err(e);
    }
    let mut out: Vec<String> = Vec::new();
    let mut i: usize = 0;
    while i < values.len()
        invariant
            i <= values@.len(),
            forall|k: int| 0 <= k < i ==> valid_argument(#[trigger] values@[k]),
            out@.map_values(|s: String| s@) == values@.take(i as int).map_values(|o: Option<String>| o->Some_0@),
        decreases values.len() - i,
    {
        let ok = match &values[i] {
            Some(s) => safe_value(s.as_str()),
            None => false,
        };
        if !ok {
            assert(!valid_argument(values@[i as int]));
            let mut e = concat_str("PAM command ", name);
            e.append(" contains an invalid argument");
            return Err(e);
        }
        let s = match &values[i] {
            Some(s) => s.clone(),
            None => String::new(),
        };
        let ghost before = out@;
        out.push(s);
        proof {
            assert(values@.take(i + 1) =~= values@.take(i as int).push(values@[i as int]));
            assert(out@ =~= before.push(s));
            assert(s@ == values@[i as int]->Some_0@);
            let prev = values@.take(i as int).map_values(|o: Option<String>| o->Some_0@);
            let cur = out@.map_values(|s: String| s@);
            let want = values@.take(i + 1).map_values(|o: Option<String>| o->Some_0@);
            assert forall|k: int| 0 <= k < i + 1 implies #[trigger] cur[k] == want[k] by {
                if k < i {
                    assert(before.map_values(|s: String| s@)[k] == prev[k]);
                }
            }
            assert(out@.map_values(|s: String| s@) =~= values@.take(i + 1).map_values(
                |o: Option<String>| o->Some_0@,
            ));
        }
        i = i + 1;
    }
    proof {
        assert(values@.take(values@.len() as int) =~= values@);
    }
    Ok(out)
}

#[verifier::loop_isolation(false)]
fn read_environment(name: &str, e: &JsonEnvironment) -> (r: Result<Vec<(String, String)>, String>)
    ensures
        match (r, environment_of(name@, *e)) {
            (Ok(v), Ok(w)) => v@.map_values(|p: (String, String)| (p.0@, p.1@)) == w,
            (Err(e), Err(m)) => e@ == m,
            _ => false,
        },
{
    let entries = match e {
        JsonEnvironment::Absent => {
            let v: Vec<(String, String)> = Vec::new();
            assert(v@.map_values(|p: (String, String)| (p.0@, p.1@)) =~= Seq::<(Seq<char>, Seq<char>)>::empty());
            return Ok(v);
        },
        JsonEnvironment::NotObject => {
            let mut m = concat_str("PAM command ", name);
            m.append(" environment must be an object of at most 32 strings");
            return Err(m);
        },
        JsonEnvironment::Entries(entries) => entries,
    };
    if entries.len() > 32 {
        let mut m = concat_str("PAM command ", name);
        m.append(" environment must be an object of at most 32 strings");
        return Err(m);
    }
    let mut out: Vec<(String, String)> = Vec::new();
    let mut i: usize = 0;
    while i < entries.len()
        invariant
            i <= entries@.len(),
            forall|k: int| 0 <= k < i ==> valid_environment_entry(#[trigger] entries@[k]),
            out@.map_values(|p: (String, String)| (p.0@, p.1@)) == entries@.take(i as int).map_values(
                |p: (String, Option<String>)| (p.0@, p.1->Some_0@),
            ),
        decreases entries.len() - i,
    {
        let (key, value) = &entries[i];
        let ok = environment_key(key.as_str()) && match value {
            Some(s) => safe_value(s.as_str()),
            None => false,
        };
        if !ok {
            assert(!valid_environment_entry(entries@[i as int]));
            let mut m = concat_str("PAM command ", name);
            m.append(" contains an invalid environment entry");
            return Err(m);
        }
        let v = match value {
            Some(s) => s.clone(),
            None => String::new(),
        };
        let k = key.clone();
        let ghost before = out@;
        out.push((k, v));
        proof {
            assert(entries@.take(i + 1) =~= entries@.take(i as int).push(entries@[i as int]));
            assert(out@ =~= before.push((k, v)));
            assert(k@ == entries@[i as int].0@ && v@ == entries@[i as int].1->Some_0@);
            let prev = entries@.take(i as int).map_values(|p: (String, Option<String>)| (p.0@, p.1->Some_0@));
            let cur = out@.map_values(|p: (String, String)| (p.0@, p.1@));
            let want = entries@.take(i + 1).map_values(|p: (String, Option<String>)| (p.0@, p.1->Some_0@));
            assert forall|j: int| 0 <= j < i + 1 implies #[trigger] cur[j] == want[j] by {
                if j < i {
                    assert(before.map_values(|p: (String, String)| (p.0@, p.1@))[j] == prev[j]);
                }
            }
            assert(out@.map_values(|p: (String, String)| (p.0@, p.1@)) =~= entries@.take(i + 1).map_values(
                |p: (String, Option<String>)| (p.0@, p.1->Some_0@),
            ));
        }
        i = i + 1;
    }
    proof {
        assert(entries@.take(entries@.len() as int) =~= entries@);
    }
    Ok(out)
}

/// What one declaration gives: whether it names a script, the target as
/// declared, the description, the arguments and the environment; or why it
/// is refused.
pub open spec fn command_entry_of(name: Seq<char>, d: CommandDefinition) -> Result<
    (bool, Seq<char>, Seq<char>, Seq<Seq<char>>, Seq<(Seq<char>, Seq<char>)>),
    Seq<char>,
> {
    if !is_command_name(name) {
        Err("invalid PAM command name "@ + debug_quoted(name))
    } else {
        match d {
            CommandDefinition::Text(script) => Ok((true, script@, "Application command"@, Seq::empty(), Seq::empty())),
            CommandDefinition::Other => Err("PAM command "@ + name + " must be a string or object"@),
            CommandDefinition::Object { script, bin, description, arguments, environment } => {
                if script is None && bin is None {
                    Err("PAM command "@ + name + " requires script or bin"@)
                } else if script is Some && bin is Some {
                    Err("PAM command "@ + name + " must declare exactly one of script or bin"@)
                } else {
                    match arguments_of(name, arguments) {
                        Err(e) => Err(e),
                        Ok(args) => match environment_of(name, environment) {
                            Err(e) => Err(e),
                            Ok(env) => Ok(
                                (
                                    script is Some,
                                    if script is Some {
                                        script->0@
                                    } else {
                                        bin->0@
                                    },
                                    match description {
                                        Some(t) => t@,
                                        None => "Application command"@,
                                    },
                                    args,
                                    env,
                                ),
                            ),
                        },
                    }
                }
            },
        }
    }
}

/// The view of a read declaration.
pub open spec fn entry_view(e: CommandEntry) -> (bool, Seq<char>, Seq<char>, Seq<Seq<char>>, Seq<(Seq<char>, Seq<char>)>) {
    (
        e.script,
        e.target@,
        e.description@,
        e.arguments@.map_values(|s: String| s@),
        e.environment@.map_values(|p: (String, String)| (p.0@, p.1@)),
    )
}

/// Reads one command declaration; resolving its target is the caller's.
pub fn read_command_entry(name: &str, definition: &CommandDefinition) -> (r: Result<CommandEntry, String>)
    ensures
        match (r, command_entry_of(name@, *definition)) {
            (Ok(e), Ok(v)) => entry_view(e) == v,
            (Err(e), Err(m)) => e@ == m,
            _ => false,
        },
{
    if !valid_command_name(name) {
        let q = quoted(name);
        return Err(concat_str("invalid PAM command name ", q.as_str()));
    }
    match definition {
        CommandDefinition::Text(script) => {
            let e = CommandEntry {
                script: true,
                target: script.clone(),
                description: String::from_str("Application command"),
                arguments: Vec::new(),
                environment: Vec::new(),
            };
            assert(entry_view(e).3 =~= Seq::<Seq<char>>::empty());
            assert(entry_view(e).4 =~= Seq::<(Seq<char>, Seq<char>)>::empty());
            Ok(e)
        },
        CommandDefinition::Other => {
            let mut e = concat_str("PAM command ", name);
            e.append(" must be a string or object");
            Err(e)
        },
        CommandDefinition::Object { script, bin, description, arguments, environment } => {
            let (is_script, target) = match (script, bin) {
                (Some(s), None) => (true, s.clone()),
                (None, Some(b)) => (false, b.clone()),
                (None, None) => {
                    let mut e = concat_str("PAM command ", name);
                    e.append(" requires script or bin");
                    return Err(e);
                },
                (Some(_), Some(_)) => {
                    let mut e = concat_str("PAM command ", name);
                    e.append(" must declare exactly one of script or bin");
                    return Err(e);
                },
            };
            let description = match description {
                Some(t) => t.clone(),
                None => String::from_str("Application command"),
            };
            let args = match read_arguments(name, arguments) {
                Ok(v) => v,
                Err(e) => {
                    return Err(e);
                },
            };
            let env = match read_environment(name, environment) {
                Ok(v) => v,
                Err(e) => {
                    return Err(e);
                },
            };
            Ok(CommandEntry { script: is_script, target, description, arguments: args, environment: env })
        },
    }
}

/// `n` is one of the protected names.
pub open spec fn is_protected(protected: Seq<String>, n: Seq<char>) -> bool {
    exists|j: int| 0 <= j < protected.len() && (#[trigger] protected[j])@ == n
}

/// Command `i` has a name that another command has too.
pub open spec fn repeated_at(cs: Seq<RegisteredCommand>, i: int) -> bool {
    exists|j: int| 0 <= j < cs.len() && j != i && (#[trigger] cs[j]).name@ == cs[i].name@
}

/// Command `i` has the first protected name, in name order.
pub open spec fn first_shadowing(cs: Seq<RegisteredCommand>, protected: Seq<String>, i: int) -> bool {
    &&& 0 <= i < cs.len()
    &&& is_protected(protected, cs[i].name@)
    &&& forall|j: int|
        0 <= j < cs.len() && is_protected(protected, (#[trigger] cs[j]).name@) ==> !text_less(cs[j].name@, cs[i].name@)
}

/// Command `i` has the first repeated name, in name order.
pub open spec fn first_repeated(cs: Seq<RegisteredCommand>, i: int) -> bool {
    &&& 0 <= i < cs.len()
    &&& repeated_at(cs, i)
    &&& forall|j: int| 0 <= j < cs.len() && #[trigger] repeated_at(cs, j) ==> !text_less(cs[j].name@, cs[i].name@)
}

/// Commands in strictly increasing order of name.
pub open spec fn commands_sorted(cs: Seq<RegisteredCommand>) -> bool {
    forall|i: int, j: int| 0 <= i < j < cs.len() ==> text_less(#[trigger] cs[i].name@, #[trigger] cs[j].name@)
}

fn protected_name(protected: &Vec<String>, name: &str) -> (r: bool)
    ensures
        r == is_protected(protected@, name@),
{
    let mut j: usize = 0;
    while j < protected.len()
        invariant
            j <= protected@.len(),
            forall|k: int| 0 <= k < j ==> (#[trigger] protected@[k])@ != name@,
        decreases protected.len() - j,
    {
        if str_eq(protected[j].as_str(), name) {
            assert(protected@[j as int]@ == name@);
            return true;
        }
        j = j + 1;
    }
    false
}

fn insert_command(sorted: &mut Vec<RegisteredCommand>, c: RegisteredCommand)
    requires
        commands_sorted(old(sorted)@),
        forall|q: int| 0 <= q < old(sorted)@.len() ==> (#[trigger] old(sorted)@[q]).name@ != c.name@,
    ensures
        commands_sorted(final(sorted)@),
        final(sorted)@.to_multiset() == old(sorted)@.to_multiset().insert(c),
{
    let mut p: usize = 0;
    while p < sorted.len() && str_less(sorted[p].name.as_str(), c.name.as_str())
        invariant
            p <= sorted@.len(),
            forall|q: int| 0 <= q < p ==> text_less((#[trigger] sorted@[q]).name@, c.name@),
        decreases sorted.len() - p,
    {
        p = p + 1;
    }
    let ghost before = sorted@;
    proof {
        if p < before.len() {
            lemma_text_less_strict_total(before[p as int].name@, c.name@, c.name@);
            assert(text_less(c.name@, before[p as int].name@));
        }
    }
    sorted.insert(p, c);
    proof {
        assert forall|i: int, j: int| 0 <= i < j < sorted@.len() implies text_less(
            #[trigger] sorted@[i].name@,
            #[trigger] sorted@[j].name@,
        ) by {
            if j < p {
                assert(sorted@[i] == before[i] && sorted@[j] == before[j]);
            } else if j == p {
                assert(sorted@[i] == before[i]);
            } else if i == p {
                assert(sorted@[j] == before[j - 1]);
                if j - 1 > p {
                    assert(text_less(before[p as int].name@, before[j - 1].name@));
                    lemma_text_less_strict_total(c.name@, before[p as int].name@, before[j - 1].name@);
                }
            } else if i < p {
                assert(sorted@[i] == before[i] && sorted@[j] == before[j - 1]);
            } else {
                assert(sorted@[i] == before[i - 1] && sorted@[j] == before[j - 1]);
            }
        }
        vstd::seq_lib::to_multiset_insert(before, p as int, c);
    }
}

/// Checks the commands gathered from a project and its packages, and orders
/// them by name: no command may take a protected name (a built-in command
/// that packages may not override) and no name may be registered twice. The
/// first offending name in name order is reported.
#[verifier::rlimit(60)]
pub fn check_registrations(commands: Vec<RegisteredCommand>, protected: &Vec<String>) -> (r: Result<
    Vec<RegisteredCommand>,
    String,
>)
    ensures
        match r {
            Ok(v) => {
                &&& forall|i: int| 0 <= i < commands@.len() ==> !is_protected(protected@, (#[trigger] commands@[i]).name@)
                &&& forall|i: int| 0 <= i < commands@.len() ==> !#[trigger] repeated_at(commands@, i)
                &&& v@.to_multiset() == commands@.to_multiset()
                &&& commands_sorted(v@)
            },
            Err(e) => if exists|i: int| 0 <= i < commands@.len() && is_protected(protected@, (#[trigger] commands@[i]).name@) {
                exists|i: int|
                    #[trigger] first_shadowing(commands@, protected@, i) && e@ == "PAM command registration "@
                        + commands@[i].name@ + " shadows a built-in command"@
            } else {
                exists|i: int|
                    #[trigger] first_repeated(commands@, i) && e@ == "duplicate PAM command registration: "@
                        + commands@[i].name@
            },
        },
{
    let n = commands.len();
    let mut best: Option<usize> = None;
    let mut i: usize = 0;
    while i < n
        invariant
            n == commands@.len(),
            i <= n,
            match best {
                Some(b) => b < i && is_protected(protected@, commands@[b as int].name@) && forall|j: int|
                    0 <= j < i && is_protected(protected@, (#[trigger] commands@[j]).name@) ==> !text_less(
                        commands@[j].name@,
                        commands@[b as int].name@,
                    ),
                None => forall|j: int| 0 <= j < i ==> !is_protected(protected@, (#[trigger] commands@[j]).name@),
            },
        decreases n - i,
    {
        if protected_name(protected, commands[i].name.as_str()) {
            match best {
                None => {
                    proof {
                        let own = commands@[i as int].name@;
                        lemma_text_less_strict_total(own, own, own);
                    }
                    best = Some(i);
                },
                Some(b) => {
                    if str_less(commands[i].name.as_str(), commands[b].name.as_str()) {
                        proof {
                            assert forall|j: int|
                                0 <= j < i + 1 && is_protected(protected@, (#[trigger] commands@[j]).name@) implies !text_less(
                                commands@[j].name@,
                                commands@[i as int].name@,
                            ) by {
                                lemma_text_less_strict_total(
                                    commands@[j].name@,
                                    commands@[i as int].name@,
                                    commands@[b as int].name@,
                                );
                            }
                        }
                        best = Some(i);
                    }
                },
            }
        }
        i = i + 1;
    }
    if let Some(b) = best {
        let mut e = concat_str("PAM command registration ", commands[b].name.as_str());
        e.append(" shadows a built-in command");
        assert(first_shadowing(commands@, protected@, b as int));
        return Err(e);
    }
    let mut dup: Option<usize> = None;
    let mut i: usize = 0;
    while i < n
        invariant
            n == commands@.len(),
            i <= n,
            match dup {
                Some(b) => b < i && repeated_at(commands@, b as int) && forall|j: int|
                    0 <= j < i && #[trigger] repeated_at(commands@, j) ==> !text_less(
                        commands@[j].name@,
                        commands@[b as int].name@,
                    ),
                None => forall|j: int| 0 <= j < i ==> !#[trigger] repeated_at(commands@, j),
            },
        decreases n - i,
    {
        let mut repeated = false;
        let mut j: usize = 0;
        while j < n
            invariant
                n == commands@.len(),
                i < n,
                j <= n,
                repeated == exists|k: int| 0 <= k < j && k != i && (#[trigger] commands@[k]).name@ == commands@[i as int].name@,
            decreases n - j,
        {
            if j != i && str_eq(commands[j].name.as_str(), commands[i].name.as_str()) {
                repeated = true;
            }
            j = j + 1;
        }
        if repeated {
            match dup {
                None => {
                    proof {
                        let own = commands@[i as int].name@;
                        lemma_text_less_strict_total(own, own, own);
                    }
                    dup = Some(i);
                },
                Some(b) => {
                    if str_less(commands[i].name.as_str(), commands[b].name.as_str()) {
                        proof {
                            assert forall|j: int|
                                0 <= j < i + 1 && #[trigger] repeated_at(commands@, j) implies !text_less(
                                commands@[j].name@,
                                commands@[i as int].name@,
                            ) by {
                                lemma_text_less_strict_total(
                                    commands@[j].name@,
                                    commands@[i as int].name@,
                                    commands@[b as int].name@,
                                );
                            }
                        }
                        dup = Some(i);
                    }
                },
            }
        }
        i = i + 1;
    }
    if let Some(b) = dup {
        let e = concat_str("duplicate PAM command registration: ", commands[b].name.as_str());
        assert(first_repeated(commands@, b as int));
        return Err(e);
    }
    let ghost orig = commands@;
    let mut rest = commands;
    let mut sorted: Vec<RegisteredCommand> = Vec::new();
    let ghost mut k: int = 0;
    proof {
        assert(orig.skip(0) =~= orig);
        assert(orig.take(0) =~= Seq::<RegisteredCommand>::empty());
        broadcast use vstd::seq_lib::group_to_multiset_ensures;
        assert(sorted@ =~= Seq::<RegisteredCommand>::empty());
    }
    while rest.len() > 0
        invariant
            0 <= k <= orig.len(),
            rest@ == orig.skip(k),
            commands_sorted(sorted@),
            sorted@.to_multiset() == orig.take(k).to_multiset(),
            forall|j: int| 0 <= j < orig.len() ==> !#[trigger] repeated_at(orig, j),
        decreases rest.len(),
    {
        let c = rest.remove(0);
        proof {
            assert(c == orig[k]);
            assert forall|q: int| 0 <= q < sorted@.len() implies (#[trigger] sorted@[q]).name@ != c.name@ by {
                broadcast use vstd::seq_lib::group_to_multiset_ensures;
                assert(sorted@.contains(sorted@[q]));
                assert(sorted@.to_multiset().count(sorted@[q]) > 0);
                assert(orig.take(k).contains(sorted@[q]));
                let j = choose|j: int| 0 <= j < orig.take(k).len() && orig.take(k)[j] == sorted@[q];
                assert(orig[j] == sorted@[q]);
                if orig[j].name@ == c.name@ {
                    assert(repeated_at(orig, k));
                }
            }
        }
        insert_command(&mut sorted, c);
        proof {
            broadcast use vstd::seq_lib::group_to_multiset_ensures;
            assert(orig.take(k + 1) =~= orig.take(k).push(orig[k]));
            assert(rest@ =~= orig.skip(k + 1));
            k = k + 1;
        }
    }
    proof {
        assert(orig.skip(k).len() == 0);
        assert(orig.take(k) =~= orig);
    }
    Ok(sorted)
}

} // verus!
