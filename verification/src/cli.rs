//! Command-line arguments and the values that options take.

use vstd::prelude::*;
use crate::text::{chars_of, concat_str, parse_unsigned, parse_u64_chars};

verus! {

/// A command-line argument: its text, with any invalid UTF-8 replaced, and
/// whether it was valid UTF-8 to begin with.
#[derive(Clone, Debug)]
pub struct Argument {
    pub text: String,
    pub utf8: bool,
}

/// The text of an option's value: missing, not UTF-8, or the text.
pub open spec fn value_text(value: Option<&Argument>, option: Seq<char>) -> Result<Seq<char>, Seq<char>> {
    match value {
        None => Err(option + " requires a value"@),
        Some(a) => if a.utf8 {
            Ok(a.text@)
        } else {
            Err(option + " requires UTF-8"@)
        },
    }
}

/// The value of an option, which must be present and valid UTF-8.
pub fn required_utf8(value: Option<&Argument>, option: &str) -> (r: Result<String, String>)
    ensures
        match (r, value_text(value, option@)) {
            (Ok(t), Ok(s)) => t@ == s,
            (Err(e), Err(m)) => e@ == m,
            _ => false,
        },
{
    match value {
        None => Err(concat_str(option, " requires a value")),
        Some(a) => {
            if a.utf8 {
                Ok(a.text.clone())
            } else {
                Err(concat_str(option, " requires UTF-8"))
            }
        },
    }
}

/// An option's value read as an unsigned integer no larger than `max`,
/// positive where `positive` asks for it; `expects` names what the option
/// takes in its error.
pub open spec fn number_value(value: Option<&Argument>, option: Seq<char>, max: int, positive: bool, expects: Seq<char>) -> Result<int, Seq<char>> {
    match value_text(value, option) {
        Err(e) => Err(e),
        Ok(t) => match parse_unsigned(t, max) {
            Some(n) => if positive && n == 0 {
                Err(option + expects)
            } else {
                Ok(n)
            },
            None => Err(option + expects),
        },
    }
}

/// The error text of an option that takes a positive integer.
pub open spec fn needs_positive() -> Seq<char> {
    " requires a positive integer"@
}

/// The error text of an option that takes a non-negative integer.
pub open spec fn needs_non_negative() -> Seq<char> {
    " requires a non-negative integer"@
}

fn number(value: Option<&Argument>, option: &str, positive: bool, expects: &str) -> (r: Result<u64, String>)
    ensures
        match (r, number_value(value, option@, u64::MAX as int, positive, expects@)) {
            (Ok(n), Ok(m)) => n == m,
            (Err(e), Err(m)) => e@ == m,
            _ => false,
        },
{
    let text = match required_utf8(value, option) {
        Ok(t) => t,
        Err(e) => {
            return Err(e);
        },
    };
    let chars = chars_of(text.as_str());
    proof {
        assert(chars@.subrange(0, chars@.len() as int) =~= chars@);
    }
    match parse_u64_chars(&chars, 0, chars.len()) {
        Some(n) => {
            if positive && n == 0 {
                Err(concat_str(option, expects))
            } else {
                Ok(n)
            }
        },
        None => Err(concat_str(option, expects)),
    }
}

/// An option's value as a positive `usize`.
pub fn required_positive(value: Option<&Argument>, option: &str) -> (r: Result<usize, String>)
    ensures
        match (r, number_value(value, option@, usize::MAX as int, true, needs_positive())) {
            (Ok(n), Ok(m)) => n == m,
            (Err(e), Err(m)) => e@ == m,
            _ => false,
        },
{
    proof {
        reveal_strlit(" requires a positive integer");
    }
    match number(value, option, true, " requires a positive integer") {
        Ok(n) => {
            if n <= usize::MAX as u64 {
                Ok(n as usize)
            } else {
                Err(concat_str(option, " requires a positive integer"))
            }
        },
        Err(e) => Err(e),
    }
}

/// An option's value as a positive `u64`.
pub fn required_positive_u64(value: Option<&Argument>, option: &str) -> (r: Result<u64, String>)
    ensures
        match (r, number_value(value, option@, u64::MAX as int, true, needs_positive())) {
            (Ok(n), Ok(m)) => n == m,
            (Err(e), Err(m)) => e@ == m,
            _ => false,
        },
{
    number(value, option, true, " requires a positive integer")
}

/// An option's value as a `u64`.
pub fn required_u64(value: Option<&Argument>, option: &str) -> (r: Result<u64, String>)
    ensures
        match (r, number_value(value, option@, u64::MAX as int, false, needs_non_negative())) {
            (Ok(n), Ok(m)) => n == m,
            (Err(e), Err(m)) => e@ == m,
            _ => false,
        },
{
    number(value, option, false, " requires a non-negative integer")
}

} // verus!
