//! The `logs` command: its options, which streams and files it reads, and
//! which lines it reports.

use vstd::prelude::*;
use vstd::utf8::*;
use crate::cli::{Argument, value_text, number_value, needs_positive, required_utf8, required_positive};
use crate::text::{str_eq, concat_str, byte_len};
use crate::process_manager::{LogStream, valid_application_name, validate_name, retained, keep_newest};
use crate::project::{contains_text, text_contains};
use crate::mobile_manifest::{contains_any, holds_any};

verus! {

/// The options of the `logs` command.
pub struct LogsOptions {
    pub name: Option<String>,
    pub lines: usize,
    pub errors: bool,
    pub both: bool,
    pub follow: bool,
    pub json: bool,
    pub query: Option<String>,
    pub include_rotated: bool,
}

/// The options before any argument is read: the last 100 lines of standard
/// output.
pub open spec fn logs_defaults() -> LogsOptions {
    LogsOptions {
        name: None,
        lines: 100,
        errors: false,
        both: false,
        follow: false,
        json: false,
        query: None,
        include_rotated: false,
    }
}

/// The options after reading `args[i..]` on top of `st`.
pub open spec fn logs_parse(args: Seq<Argument>, i: int, st: LogsOptions) -> Result<LogsOptions, Seq<char>>
    decreases args.len() - i,
{
    if i < 0 || i >= args.len() {
        Ok(st)
    } else {
        let w = args[i].text@;
        let v = if i + 1 < args.len() {
            Some(&args[i + 1])
        } else {
            None
        };
        if w == "--lines"@ {
            match number_value(v, "--lines"@, usize::MAX as int, true, needs_positive()) {
                Err(e) => Err(e),
                Ok(n) => logs_parse(args, i + 2, LogsOptions { lines: n as usize, ..st }),
            }
        } else if w == "--errors"@ {
            logs_parse(args, i + 1, LogsOptions { errors: true, ..st })
        } else if w == "--both"@ {
            logs_parse(args, i + 1, LogsOptions { both: true, ..st })
        } else if w == "--follow"@ || w == "-f"@ {
            logs_parse(args, i + 1, LogsOptions { follow: true, ..st })
        } else if w == "--json"@ {
            logs_parse(args, i + 1, LogsOptions { json: true, ..st })
        } else if w == "--query"@ {
            match value_text(v, "--query"@) {
                Err(e) => Err(e),
                Ok(_) => logs_parse(args, i + 2, LogsOptions { query: Some(args[i + 1].text), ..st }),
            }
        } else if w == "--include-rotated"@ {
            logs_parse(args, i + 1, LogsOptions { include_rotated: true, ..st })
        } else if w.len() > 0 && w[0] == '-' {
            Err("unknown logs option: "@ + w)
        } else if st.name is None {
            logs_parse(args, i + 1, LogsOptions { name: Some(args[i].text), ..st })
        } else {
            Err("logs accepts one application name"@)
        }
    }
}

/// What reading the arguments of `logs` gives: the options, with an
/// application name that is present and valid.
pub open spec fn logs_request(args: Seq<Argument>) -> Result<LogsOptions, Seq<char>> {
    match logs_parse(args, 0, logs_defaults()) {
        Err(e) => Err(e),
        Ok(st) => if st.name is None {
            Err("logs requires an application name"@)
        } else if !valid_application_name(st.name->0@) {
            Err("application name must contain 1-64 ASCII letters, digits, '.', '-' or '_'"@)
        } else {
            Ok(st)
        },
    }
}

/// Reads the arguments of the `logs` command.
pub fn parse_logs_arguments(args: &Vec<Argument>) -> (r: Result<LogsOptions, String>)
    ensures
        match (r, logs_request(args@)) {
            (Ok(o), Ok(s)) => o == s,
            (Err(e), Err(m)) => e@ == m,
            _ => false,
        },
{
    let mut st = LogsOptions {
        name: None,
        lines: 100,
        errors: false,
        both: false,
        follow: false,
        json: false,
        query: None,
        include_rotated: false,
    };
    let n = args.len();
    let mut i: usize = 0;
    while i < n
        invariant
            n == args@.len(),
            i <= n + 1,
            logs_parse(args@, 0, logs_defaults()) == logs_parse(args@, i as int, st),
        decreases n + 1 - i,
    {
        let w = args[i].text.as_str();
        let v = if i + 1 < n {
            Some(&args[i + 1])
        } else {
            None
        };
        if str_eq(w, "--lines") {
            match required_positive(v, "--lines") {
                Err(e) => {
                    return Err(e);
                },
                Ok(k) => {
                    st.lines = k;
                    i = i + 2;
                },
            }
        } else if str_eq(w, "--errors") {
            st.errors = true;
            i = i + 1;
        } else if str_eq(w, "--both") {
            st.both = true;
            i = i + 1;
        } else if str_eq(w, "--follow") || str_eq(w, "-f") {
            st.follow = true;
            i = i + 1;
        } else if str_eq(w, "--json") {
            st.json = true;
            i = i + 1;
        } else if str_eq(w, "--query") {
            match required_utf8(v, "--query") {
                Err(e) => {
                    return Err(e);
                },
                Ok(_) => {
                    st.query = Some(args[i + 1].text.clone());
                    i = i + 2;
                },
            }
        } else if str_eq(w, "--include-rotated") {
            st.include_rotated = true;
            i = i + 1;
        } else if w.unicode_len() > 0 && w.get_char(0) == '-' {
            return Err(concat_str("unknown logs option: ", w));
        } else if st.name.is_none() {
            st.name = Some(args[i].text.clone());
            i = i + 1;
        } else {
            return Err(String::from_str("logs accepts one application name"));
        }
    }
    match &st.name {
        None => Err(String::from_str("logs requires an application name")),
        Some(name) => {
            if let Err(e) = validate_name(name.as_str()) {
                return Err(e);
            }
            Ok(st)
        },
    }
}

/// A query of 1 to 256 bytes with no NUL or line break.
pub open spec fn is_valid_query(q: Seq<char>) -> bool {
    q.len() > 0 && encode_utf8(q).len() <= 256 && !contains_any(q, "\0\n\r"@)
}

/// What is wrong with a combination of `logs` options, if anything.
pub open spec fn logs_options_error(o: LogsOptions) -> Option<Seq<char>> {
    if o.errors && o.both {
        Some("logs accepts either --errors or --both, not both"@)
    } else if o.follow && (o.json || o.query is Some || o.include_rotated) {
        Some("logs --follow cannot be combined with structured query options"@)
    } else if o.query is Some && !is_valid_query(o.query->0@) {
        Some("logs --query requires 1-256 characters without controls"@)
    } else {
        None
    }
}

/// Rejects combinations of `logs` options that cannot be served together.
pub fn check_logs_options(o: &LogsOptions) -> (r: Result<(), String>)
    ensures
        match r {
            Ok(()) => logs_options_error(*o) is None,
            Err(e) => logs_options_error(*o) == Some(e@),
        },
{
    if o.errors && o.both {
        return Err(String::from_str("logs accepts either --errors or --both, not both"));
    }
    if o.follow && (o.json || o.query.is_some() || o.include_rotated) {
        return Err(String::from_str("logs --follow cannot be combined with structured query options"));
    }
    if let Some(q) = &o.query {
        let text = q.as_str();
        if text.unicode_len() == 0 || byte_len(text) > 256 || holds_any(text, "\0\n\r") {
            return Err(String::from_str("logs --query requires 1-256 characters without controls"));
        }
    }
    Ok(())
}

/// The streams to read: both, the errors alone, or standard output.
pub open spec fn streams_of(o: LogsOptions) -> Seq<LogStream> {
    if o.both {
        seq![LogStream::StandardOutput, LogStream::StandardError]
    } else if o.errors {
        seq![LogStream::StandardError]
    } else {
        seq![LogStream::StandardOutput]
    }
}

/// The log streams the options select, in reading order.
pub fn log_streams(o: &LogsOptions) -> (r: Vec<LogStream>)
    ensures
        r@ == streams_of(*o),
{
    if o.both {
        vec![LogStream::StandardOutput, LogStream::StandardError]
    } else if o.errors {
        vec![LogStream::StandardError]
    } else {
        vec![LogStream::StandardOutput]
    }
}

/// The rotation indices of the files of one stream, oldest first: `retain`
/// down to 1 when rotated files are included, then the live file, 0.
pub fn log_file_indices(include_rotated: bool, retain: usize) -> (r: Vec<usize>)
    requires
        retain < usize::MAX,
    ensures
        include_rotated ==> r@.len() == retain + 1 && forall|k: int| 0 <= k < r@.len() ==> #[trigger] r@[k] == retain - k,
        !include_rotated ==> r@ == seq![0usize],
{
    let mut out: Vec<usize> = Vec::new();
    if include_rotated {
        let mut index = retain;
        while index > 0
            invariant
                index <= retain,
                out@.len() == retain - index,
                forall|k: int| 0 <= k < out@.len() ==> #[trigger] out@[k] == retain - k,
            decreases index,
        {
            out.push(index);
            index = index - 1;
        }
    }
    out.push(0);
    out
}

/// A log line with where it came from.
pub struct LogLine {
    pub stream: LogStream,
    pub rotated_index: usize,
    pub line: String,
}

/// A line is reported when there is no query or the line holds it.
pub open spec fn line_matches(query: Option<Seq<char>>, line: Seq<char>) -> bool {
    match query {
        None => true,
        Some(q) => contains_text(line, q),
    }
}

/// The lines that match, in order.
pub open spec fn matching(lines: Seq<LogLine>, query: Option<Seq<char>>) -> Seq<LogLine>
    decreases lines.len(),
{
    if lines.len() == 0 {
        Seq::empty()
    } else {
        let before = matching(lines.drop_last(), query);
        if line_matches(query, lines.last().line@) {
            before.push(lines.last())
        } else {
            before
        }
    }
}

/// Keeps the newest `limit` lines that match the query, and tells whether
/// older matching lines were dropped.
pub fn select_log_entries(lines: Vec<LogLine>, query: Option<&str>, limit: usize) -> (r: (Vec<LogLine>, bool))
    requires
        limit > 0,
    ensures
        ({
            let q = match query {
                Some(t) => Some(t@),
                None => None,
            };
            let m = matching(lines@, q);
            &&& r.0@ == retained(m, limit as nat)
            &&& r.1 == (m.len() > limit)
        }),
{
    let ghost q = match query {
        Some(t) => Some(t@),
        None => None,
    };
    let ghost all = lines@;
    let mut rest = lines;
    let mut kept: Vec<LogLine> = Vec::new();
    let ghost mut k: int = 0;
    proof {
        assert(all.skip(0) =~= all);
        assert(all.take(0) =~= Seq::<LogLine>::empty());
    }
    while rest.len() > 0
        invariant
            0 <= k <= all.len(),
            rest@ == all.skip(k),
            kept@ == matching(all.take(k), q),
            q == match query {
                Some(t) => Some(t@),
                None => None::<Seq<char>>,
            },
        decreases rest.len(),
    {
        let item = rest.remove(0);
        proof {
            assert(item == all[k]);
            assert(all.take(k + 1).drop_last() =~= all.take(k));
            assert(all.take(k + 1).last() == all[k]);
        }
        let hit = match query {
            None => true,
            Some(t) => text_contains(item.line.as_str(), t),
        };
        if hit {
            kept.push(item);
        }
        proof {
            assert(rest@ =~= all.skip(k + 1));
            k = k + 1;
        }
    }
    proof {
        assert(all.skip(k).len() == 0);
        assert(all.take(k) =~= all);
    }
    let truncated = kept.len() > limit;
    keep_newest(&mut kept, limit);
    (kept, truncated)
}

} // verus!
