//! The `KEY=VALUE` environment files an application may be started with.

use vstd::prelude::*;
use crate::text::{chars_of, string_of, str_eq, push_decimal_text, decimal_text, split_on, split_ranges, first_char, lemma_first_char, is_ascii_alpha, is_ascii_alnum, ascii_alpha, ascii_alnum};
use crate::hexutil::{text_less, str_less, lemma_text_less_strict_total};
use crate::dashboard::{trimmed, trim_range, has_prefix};
use crate::mobile::starts_with_chars;
use crate::mobile_manifest::{contains_any, holds_any};

verus! {

/// The most variables an environment file may set.
pub const MAX_ENVIRONMENT_VARIABLES: usize = 256;

/// A variable name: an ASCII letter or `_`, then ASCII letters, digits and `_`.
pub open spec fn is_variable_name(k: Seq<char>) -> bool {
    &&& k.len() > 0
    &&& (is_ascii_alpha(k[0]) || k[0] == '_')
    &&& forall|i: int| 0 <= i < k.len() ==> is_ascii_alnum(#[trigger] k[i]) || k[i] == '_'
}

/// A character that opens or closes a quoted value.
pub open spec fn is_quote(c: char) -> bool {
    c == '\'' || c == '"'
}

/// The value without its matching quotes, or `None` where a quote is left
/// unmatched.
pub open spec fn unquoted(v: Seq<char>) -> Option<Seq<char>> {
    if v.len() >= 2 && ((v[0] == '\'' && v.last() == '\'') || (v[0] == '"' && v.last() == '"')) {
        Some(v.subrange(1, v.len() - 1))
    } else if v.len() >= 1 && (is_quote(v[0]) || is_quote(v.last())) {
        None
    } else {
        Some(v)
    }
}

/// Variables kept in increasing order of name, a later value for a name
/// replacing the earlier one.
pub open spec fn assign(vars: Seq<(Seq<char>, Seq<char>)>, k: Seq<char>, v: Seq<char>) -> Seq<(Seq<char>, Seq<char>)>
    decreases vars.len(),
{
    if vars.len() == 0 {
        seq![(k, v)]
    } else if vars[0].0 == k {
        seq![(k, v)] + vars.drop_first()
    } else if text_less(k, vars[0].0) {
        seq![(k, v)] + vars
    } else {
        seq![vars[0]] + assign(vars.drop_first(), k, v)
    }
}

/// What line `i` (counted from 0) does to the variables read so far.
pub open spec fn line_effect(line: Seq<char>, i: int, vars: Seq<(Seq<char>, Seq<char>)>) -> Result<
    Seq<(Seq<char>, Seq<char>)>,
    Seq<char>,
> {
    let t = trimmed(line);
    let at = "environment file line "@ + decimal_text((i + 1) as nat);
    if t.len() == 0 || t[0] == '#' {
        Ok(vars)
    } else {
        let body = if has_prefix(t, "export "@) {
            t.skip("export "@.len() as int)
        } else {
            t
        };
        let k = first_char(body, '=');
        if k >= body.len() {
            Err(at + " requires KEY=VALUE"@)
        } else {
            let key = trimmed(body.take(k));
            if !is_variable_name(key) {
                Err(at + " has an invalid key"@)
            } else if key == "PAM_MANAGER_STATE_DIR"@ || key == "PAM_MANAGER_RUNTIME_DIR"@ {
                Err(at + " overrides reserved manager state"@)
            } else {
                match unquoted(trimmed(body.skip(k + 1))) {
                    None => Err(at + " has unmatched quotes"@),
                    Some(value) => if contains_any(value, "\0\n\r"@) {
                        Err(at + " has control characters"@)
                    } else if assign(vars, key, value).len() > MAX_ENVIRONMENT_VARIABLES {
                        Err("environment file cannot exceed 256 variables"@)
                    } else {
                        Ok(assign(vars, key, value))
                    },
                }
            }
        }
    }
}

/// The variables after the lines from `i` on.
pub open spec fn lines_effect(lines: Seq<Seq<char>>, i: int, vars: Seq<(Seq<char>, Seq<char>)>) -> Result<
    Seq<(Seq<char>, Seq<char>)>,
    Seq<char>,
>
    decreases lines.len() - i,
{
    if i < 0 || i >= lines.len() {
        Ok(vars)
    } else {
        match line_effect(lines[i], i, vars) {
            Err(e) => Err(e),
            Ok(next) => lines_effect(lines, i + 1, next),
        }
    }
}

/// What an environment file's text sets, in increasing order of name.
pub open spec fn environment_of(contents: Seq<char>) -> Result<Seq<(Seq<char>, Seq<char>)>, Seq<char>> {
    lines_effect(split_on(contents, '\n'), 0, Seq::empty())
}

/// The name and value texts of a list of variables.
pub open spec fn variable_views(vars: Seq<(String, String)>) -> Seq<(Seq<char>, Seq<char>)> {
    vars.map_values(|p: (String, String)| (p.0@, p.1@))
}

proof fn lemma_assign_at(vars: Seq<(Seq<char>, Seq<char>)>, k: Seq<char>, v: Seq<char>, p: int)
    requires
        0 <= p <= vars.len(),
        forall|q: int| 0 <= q < p ==> text_less(#[trigger] vars[q].0, k),
        p == vars.len() || !text_less(vars[p].0, k),
    ensures
        assign(vars, k, v) == (if p < vars.len() && vars[p].0 == k {
            vars.take(p) + seq![(k, v)] + vars.skip(p + 1)
        } else {
            vars.take(p) + seq![(k, v)] + vars.skip(p)
        }),
    decreases p,
{
    if p == 0 {
        if vars.len() > 0 && vars[0].0 != k {
            lemma_text_less_strict_total(vars[0].0, k, k);
        }
        assert(vars.take(0) + seq![(k, v)] + vars.skip(1) =~= seq![(k, v)] + vars.drop_first());
        assert(vars.take(0) + seq![(k, v)] + vars.skip(0) =~= seq![(k, v)] + vars);
    } else {
        lemma_text_less_strict_total(vars[0].0, k, vars[0].0);
        lemma_text_less_strict_total(k, vars[0].0, k);
        assert forall|q: int| 0 <= q < p - 1 implies text_less(#[trigger] vars.drop_first()[q].0, k) by {
            assert(vars.drop_first()[q] == vars[q + 1]);
        }
        if p < vars.len() {
            assert(vars.drop_first()[p - 1] == vars[p]);
        }
        lemma_assign_at(vars.drop_first(), k, v, p - 1);
        let rest = vars.drop_first();
        if p < vars.len() && vars[p].0 == k {
            assert(seq![vars[0]] + (rest.take(p - 1) + seq![(k, v)] + rest.skip(p)) =~= vars.take(p) + seq![(k, v)]
                + vars.skip(p + 1));
        } else {
            assert(seq![vars[0]] + (rest.take(p - 1) + seq![(k, v)] + rest.skip(p - 1)) =~= vars.take(p) + seq![(k, v)]
                + vars.skip(p));
        }
    }
}

/// Sets a variable in the ordered list.
fn assign_variable(vars: &mut Vec<(String, String)>, key: String, value: String)
    ensures
        variable_views(final(vars)@) == assign(variable_views(old(vars)@), key@, value@),
{
    let ghost before = variable_views(vars@);
    let mut p: usize = 0;
    while p < vars.len() && str_less(vars[p].0.as_str(), key.as_str())
        invariant
            p <= vars@.len(),
            before == variable_views(vars@),
            forall|q: int| 0 <= q < p ==> text_less(#[trigger] before[q].0, key@),
        decreases vars.len() - p,
    {
        p = p + 1;
    }
    proof {
        lemma_assign_at(before, key@, value@, p as int);
    }
    let ghost shown = (key@, value@);
    if p < vars.len() && str_eq(vars[p].0.as_str(), key.as_str()) {
        vars.set(p, (key, value));
        proof {
            assert(variable_views(vars@) =~= before.take(p as int) + seq![shown] + before.skip(p + 1));
        }
    } else {
        vars.insert(p, (key, value));
        proof {
            assert(variable_views(vars@) =~= before.take(p as int) + seq![shown] + before.skip(p as int));
        }
    }
}

fn line_error(index: usize, what: &str) -> (r: String)
    requires
        index < usize::MAX,
    ensures
        r@ == "environment file line "@ + decimal_text((index + 1) as nat) + what@,
{
    let mut m = String::from_str("environment file line ");
    push_decimal_text(&mut m, (index + 1) as u64);
    m.append(what);
    m
}

fn variable_name(chars: &Vec<char>) -> (r: bool)
    ensures
        r == is_variable_name(chars@),
{
    if chars.len() == 0 || !(ascii_alpha(chars[0]) || chars[0] == '_') {
        return false;
    }
    let mut i: usize = 0;
    while i < chars.len()
        invariant
            i <= chars@.len(),
            forall|k: int| 0 <= k < i ==> is_ascii_alnum(#[trigger] chars@[k]) || chars@[k] == '_',
        decreases chars.len() - i,
    {
        if !(ascii_alnum(chars[i]) || chars[i] == '_') {
            return false;
        }
        i = i + 1;
    }
    true
}

/// Applies one line of an environment file to the variables read so far.
#[verifier::loop_isolation(false)]
fn apply_line(line: &str, index: usize, vars: &mut Vec<(String, String)>) -> (r: Result<(), String>)
    requires
        index < usize::MAX,
    ensures
        match (r, line_effect(line@, index as int, variable_views(old(vars)@))) {
            (Ok(()), Ok(next)) => variable_views(final(vars)@) == next,
            (Err(e), Err(m)) => e@ == m,
            _ => false,
        },
{
    let raw = chars_of(line);
    let t = trim_range(&raw, 0, raw.len());
    proof {
        assert(raw@.subrange(0, raw@.len() as int) =~= line@);
    }
    let chars = chars_of(t.as_str());
    if chars.len() == 0 || chars[0] == '#' {
        return Ok(());
    }
    let prefix = chars_of("export ");
    let start = if starts_with_chars(&chars, &prefix) {
        prefix.len()
    } else {
        0
    };
    let body = string_of(&chars, start, chars.len());
    proof {
        assert(chars@.subrange(start as int, chars@.len() as int) =~= if has_prefix(t@, "export "@) {
            t@.skip("export "@.len() as int)
        } else {
            t@
        });
    }
    let b = chars_of(body.as_str());
    let n = b.len();
    let mut k: usize = 0;
    while k < n && b[k] != '='
        invariant
            n == b@.len(),
            k <= n,
            forall|j: int| 0 <= j < k ==> b@[j] != '=',
        decreases n - k,
    {
        k = k + 1;
    }
    proof {
        lemma_first_char(b@, '=', k as int);
    }
    if k >= n {
        return Err(line_error(index, " requires KEY=VALUE"));
    }
    proof {
        assert(b@.subrange(0, k as int) =~= b@.take(k as int));
        assert(b@.subrange(k + 1, n as int) =~= b@.skip(k + 1));
    }
    let key = trim_range(&b, 0, k);
    let key_chars = chars_of(key.as_str());
    if !variable_name(&key_chars) {
        return Err(line_error(index, " has an invalid key"));
    }
    if str_eq(key.as_str(), "PAM_MANAGER_STATE_DIR") || str_eq(key.as_str(), "PAM_MANAGER_RUNTIME_DIR") {
        return Err(line_error(index, " overrides reserved manager state"));
    }
    let raw_value = trim_range(&b, k + 1, n);
    let v = chars_of(raw_value.as_str());
    let m = v.len();
    let value = if m >= 2 && ((v[0] == '\'' && v[m - 1] == '\'') || (v[0] == '"' && v[m - 1] == '"')) {
        string_of(&v, 1, m - 1)
    } else if m >= 1 && (v[0] == '\'' || v[0] == '"' || v[m - 1] == '\'' || v[m - 1] == '"') {
        return Err(line_error(index, " has unmatched quotes"));
    } else {
        proof {
            assert(v@.subrange(0, m as int) =~= v@);
        }
        string_of(&v, 0, m)
    };
    if holds_any(value.as_str(), "\0\n\r") {
        return Err(line_error(index, " has control characters"));
    }
    let ghost before = variable_views(vars@);
    assign_variable(vars, key, value);
    if vars.len() > MAX_ENVIRONMENT_VARIABLES {
        return Err(String::from_str("environment file cannot exceed 256 variables"));
    }
    Ok(())
}

/// Reads the variables an environment file sets: blank lines and `#`
/// comments are skipped, `export ` may open a line, values are taken
/// literally after removing one pair of matching quotes, and a later
/// assignment replaces an earlier one. The result is ordered by name.
pub fn parse_environment(contents: &str) -> (r: Result<Vec<(String, String)>, String>)
    ensures
        match (r, environment_of(contents@)) {
            (Ok(vars), Ok(expected)) => variable_views(vars@) == expected,
            (Err(e), Err(m)) => e@ == m,
            _ => false,
        },
{
    let chars = chars_of(contents);
    let n = chars.len();
    let parts = split_ranges(&chars, 0, n, '\n');
    let ghost lines = split_on(chars@.subrange(0, n as int), '\n');
    proof {
        assert(chars@.subrange(0, n as int) =~= contents@);
    }
    let mut vars: Vec<(String, String)> = Vec::new();
    assert(variable_views(vars@) =~= Seq::<(Seq<char>, Seq<char>)>::empty());
    let mut i: usize = 0;
    while i < parts.len()
        invariant
            n == chars@.len(),
            lines == split_on(contents@, '\n'),
            parts@.len() == lines.len(),
            forall|j: int| 0 <= j < parts@.len() ==> {
                &&& 0 <= (#[trigger] parts@[j]).0 <= parts@[j].1 <= n
                &&& chars@.subrange(parts@[j].0 as int, parts@[j].1 as int) == lines[j]
            },
            i <= parts@.len(),
            environment_of(contents@) == lines_effect(lines, i as int, variable_views(vars@)),
        decreases parts.len() - i,
    {
        let (a, b) = parts[i];
        let line = string_of(&chars, a, b);
        match apply_line(line.as_str(), i, &mut vars) {
            Err(e) => {
                return Err(e);
            },
            Ok(()) => {},
        }
        i = i + 1;
    }
    Ok(vars)
}

/// Names in strictly increasing order: no name twice.
pub open spec fn strictly_ordered(vars: Seq<(Seq<char>, Seq<char>)>) -> bool {
    forall|i: int, j: int| 0 <= i < j < vars.len() ==> text_less(#[trigger] vars[i].0, #[trigger] vars[j].0)
}

/// Setting a variable keeps names in strictly increasing order, holds the
/// new value under its name, and brings in no other name.
pub proof fn lemma_assign_keeps_order(vars: Seq<(Seq<char>, Seq<char>)>, k: Seq<char>, v: Seq<char>)
    requires
        strictly_ordered(vars),
    ensures
        strictly_ordered(assign(vars, k, v)),
        assign(vars, k, v).contains((k, v)),
        forall|i: int| 0 <= i < assign(vars, k, v).len() ==> #[trigger] assign(vars, k, v)[i].0 == k || exists|j: int|
            0 <= j < vars.len() && vars[j] == assign(vars, k, v)[i],
    decreases vars.len(),
{
    let r = assign(vars, k, v);
    if vars.len() == 0 {
        assert(r[0] == (k, v));
    } else if vars[0].0 == k {
        assert(r[0] == (k, v));
        assert forall|i: int, j: int| 0 <= i < j < r.len() implies text_less(#[trigger] r[i].0, #[trigger] r[j].0) by {
            if i > 0 {
                assert(r[i] == vars[i] && r[j] == vars[j]);
            } else {
                assert(r[j] == vars[j]);
            }
        }
        assert forall|i: int| 0 <= i < r.len() implies #[trigger] r[i].0 == k || exists|j: int| 0 <= j < vars.len() && vars[j] == r[i] by {
            if i > 0 {
                assert(r[i] == vars[i]);
            }
        }
    } else if text_less(k, vars[0].0) {
        assert(r[0] == (k, v));
        assert forall|i: int, j: int| 0 <= i < j < r.len() implies text_less(#[trigger] r[i].0, #[trigger] r[j].0) by {
            if i > 0 {
                assert(r[i] == vars[i - 1] && r[j] == vars[j - 1]);
            } else {
                assert(r[j] == vars[j - 1]);
                if j > 1 {
                    lemma_text_less_strict_total(k, vars[0].0, vars[j - 1].0);
                }
            }
        }
        assert forall|i: int| 0 <= i < r.len() implies #[trigger] r[i].0 == k || exists|j: int| 0 <= j < vars.len() && vars[j] == r[i] by {
            if i > 0 {
                assert(r[i] == vars[i - 1]);
            }
        }
    } else {
        let rest = vars.drop_first();
        assert forall|i: int, j: int| 0 <= i < j < rest.len() implies text_less(#[trigger] rest[i].0, #[trigger] rest[j].0) by {
            assert(rest[i] == vars[i + 1] && rest[j] == vars[j + 1]);
        }
        lemma_assign_keeps_order(rest, k, v);
        lemma_text_less_strict_total(vars[0].0, k, vars[0].0);
        let tail = assign(rest, k, v);
        assert(r == seq![vars[0]] + tail);
        assert forall|i: int, j: int| 0 <= i < j < r.len() implies text_less(#[trigger] r[i].0, #[trigger] r[j].0) by {
            if i > 0 {
                assert(r[i] == tail[i - 1] && r[j] == tail[j - 1]);
            } else {
                assert(r[j] == tail[j - 1]);
                if tail[j - 1].0 != k {
                    let q = choose|q: int| 0 <= q < rest.len() && rest[q] == tail[j - 1];
                    assert(rest[q] == vars[q + 1]);
                }
            }
        }
        assert(tail.contains((k, v)));
        let w = choose|w: int| 0 <= w < tail.len() && tail[w] == (k, v);
        assert(r[w + 1] == (k, v));
        assert forall|i: int| 0 <= i < r.len() implies #[trigger] r[i].0 == k || exists|j: int| 0 <= j < vars.len() && vars[j] == r[i] by {
            if i > 0 {
                assert(r[i] == tail[i - 1]);
                if tail[i - 1].0 != k {
                    let q = choose|q: int| 0 <= q < rest.len() && rest[q] == tail[i - 1];
                    assert(vars[q + 1] == r[i]);
                }
            } else {
                assert(vars[0] == r[0]);
            }
        }
    }
}

/// Reading the lines from `i` on keeps names in strictly increasing order.
pub proof fn lemma_lines_keep_order(lines: Seq<Seq<char>>, i: int, vars: Seq<(Seq<char>, Seq<char>)>)
    requires
        strictly_ordered(vars),
        lines_effect(lines, i, vars) is Ok,
    ensures
        strictly_ordered(lines_effect(lines, i, vars)->Ok_0),
    decreases lines.len() - i,
{
    if 0 <= i < lines.len() {
        let line = lines[i];
        let t = trimmed(line);
        if !(t.len() == 0 || t[0] == '#') {
            let body = if has_prefix(t, "export "@) {
                t.skip("export "@.len() as int)
            } else {
                t
            };
            let k = first_char(body, '=');
            if k < body.len() {
                let key = trimmed(body.take(k));
                match unquoted(trimmed(body.skip(k + 1))) {
                    Some(value) => {
                        lemma_assign_keeps_order(vars, key, value);
                    },
                    None => {},
                }
            }
        }
        let next = line_effect(line, i, vars)->Ok_0;
        lemma_lines_keep_order(lines, i + 1, next);
    }
}

/// An environment file sets each name at most once, in increasing order.
pub proof fn lemma_environment_is_ordered(contents: Seq<char>)
    requires
        environment_of(contents) is Ok,
    ensures
        strictly_ordered(environment_of(contents)->Ok_0),
{
    lemma_lines_keep_order(split_on(contents, '\n'), 0, Seq::empty());
}

} // verus!
