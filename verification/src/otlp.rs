//! The headers an OTLP trace exporter sends with each batch, read from the
//! `key=value,...` form of the OpenTelemetry environment.

use vstd::prelude::*;
use vstd::utf8::*;
use crate::text::{chars_of, split_on, split_ranges};
use crate::dashboard::{trimmed, trim_range};
use crate::protocol::str_from_utf8;

verus! {

/// The value of an ASCII hexadecimal digit, in either case.
pub open spec fn hex_digit(b: u8) -> Option<u8> {
    if 48 <= b <= 57 {
        Some((b - 48) as u8)
    } else if 97 <= b <= 102 {
        Some((b - 87) as u8)
    } else if 65 <= b <= 70 {
        Some((b - 55) as u8)
    } else {
        None
    }
}

fn hex(b: u8) -> (r: Option<u8>)
    ensures
        r == hex_digit(b),
{
    if 48 <= b && b <= 57 {
        Some(b - 48)
    } else if 97 <= b && b <= 102 {
        Some(b - 87)
    } else if 65 <= b && b <= 70 {
        Some(b - 55)
    } else {
        None
    }
}

/// The bytes that `%XX` escapes stand for, from position `i` on; `None` where
/// a `%` is not followed by two hexadecimal digits.
pub open spec fn percent_decoded_from(b: Seq<u8>, i: int) -> Option<Seq<u8>>
    decreases b.len() - i,
{
    if i < 0 || i >= b.len() {
        Some(Seq::empty())
    } else if b[i] == 37 {
        if i + 2 >= b.len() || hex_digit(b[i + 1]) is None || hex_digit(b[i + 2]) is None {
            None
        } else {
            match percent_decoded_from(b, i + 3) {
                None => None,
                Some(rest) => Some(seq![(hex_digit(b[i + 1])->0 * 16 + hex_digit(b[i + 2])->0) as u8] + rest),
            }
        }
    } else {
        match percent_decoded_from(b, i + 1) {
            None => None,
            Some(rest) => Some(seq![b[i]] + rest),
        }
    }
}

/// What decoding the escapes of a header value gives: the text, or why not.
pub open spec fn percent_decoded(value: Seq<char>) -> Result<Seq<char>, Seq<char>> {
    match percent_decoded_from(encode_utf8(value), 0) {
        None => Err("OTLP header contains invalid percent encoding"@),
        Some(bytes) => if valid_utf8(bytes) {
            Ok(decode_utf8(bytes))
        } else {
            Err("OTLP header is not valid UTF-8"@)
        },
    }
}

proof fn lemma_decoded_step(b: Seq<u8>, i: int, out: Seq<u8>)
    requires
        0 <= i < b.len(),
        percent_decoded_from(b, 0) == (match percent_decoded_from(b, i) {
            None => None,
            Some(rest) => Some(out + rest),
        }),
    ensures
        b[i] != 37 ==> percent_decoded_from(b, 0) == (match percent_decoded_from(b, i + 1) {
            None => None,
            Some(rest) => Some(out.push(b[i]) + rest),
        }),
{
    if b[i] != 37 {
        match percent_decoded_from(b, i + 1) {
            None => {},
            Some(rest) => {
                assert(out + (seq![b[i]] + rest) =~= out.push(b[i]) + rest);
            },
        }
    }
}

/// Decodes the `%XX` escapes of a header value; the result must be UTF-8.
pub fn percent_decode(value: &str) -> (r: Result<String, String>)
    ensures
        match (r, percent_decoded(value@)) {
            (Ok(t), Ok(s)) => t@ == s,
            (Err(e), Err(m)) => e@ == m,
            _ => false,
        },
{
    let bytes = value.as_bytes();
    let ghost b = bytes@;
    let n = bytes.len();
    let mut out: Vec<u8> = Vec::new();
    let mut i: usize = 0;
    assert(out@ + Seq::<u8>::empty() =~= Seq::<u8>::empty());
    while i < n
        invariant
            b == bytes@,
            b == encode_utf8(value@),
            n == b.len(),
            i <= n,
            percent_decoded_from(b, 0) == (match percent_decoded_from(b, i as int) {
                None => None,
                Some(rest) => Some(out@ + rest),
            }),
        decreases n - i,
    {
        if bytes[i] == 37 {
            if n - i <= 2 {
                return Err(String::from_str("OTLP header contains invalid percent encoding"));
            }
            let high = match hex(bytes[i + 1]) {
                Some(h) => h,
                None => {
                    return Err(String::from_str("OTLP header contains invalid percent encoding"));
                },
            };
            let low = match hex(bytes[i + 2]) {
                Some(l) => l,
                None => {
                    return Err(String::from_str("OTLP header contains invalid percent encoding"));
                },
            };
            let byte = high * 16 + low;
            let ghost before = out@;
            out.push(byte);
            proof {
                match percent_decoded_from(b, i + 3) {
                    None => {},
                    Some(rest) => {
                        assert(before + (seq![byte] + rest) =~= out@ + rest);
                    },
                }
            }
            i = i + 3;
        } else {
            proof {
                lemma_decoded_step(b, i as int, out@);
            }
            out.push(bytes[i]);
            i = i + 1;
        }
    }
    proof {
        assert(out@ + Seq::<u8>::empty() =~= out@);
    }
    match str_from_utf8(out.as_slice()) {
        Ok(text) => Ok(String::from_str(text)),
        Err(_) => Err(String::from_str("OTLP header is not valid UTF-8")),
    }
}

/// A byte of a header name: a token character (upper case letters are
/// folded to lower case, which is a token character too).
pub open spec fn header_name_byte(b: u8) -> bool {
    ||| b == 33
    ||| 35 <= b <= 39
    ||| b == 42 || b == 43 || b == 45 || b == 46
    ||| 48 <= b <= 57
    ||| 65 <= b <= 90
    ||| 94 <= b <= 122
    ||| b == 124 || b == 126
}

/// The bytes `http::HeaderName::try_from(&str)` accepts: 1 to 65535 bytes,
/// each a `header_name_byte`.
pub open spec fn http_header_name_accepted(name: Seq<u8>) -> bool {
    1 <= name.len() <= 65535 && forall|i: int| 0 <= i < name.len() ==> header_name_byte(#[trigger] name[i])
}

/// Asks `http::HeaderName::try_from` whether a text is a header name.
#[verifier::external_body]
fn header_name_accepted(name: &str) -> (r: bool)
    ensures
        r == http_header_name_accepted(encode_utf8(name@)),
{
    http::HeaderName::try_from(name).is_ok()
}

/// A byte `http::HeaderValue` accepts: visible characters, space, tab and
/// bytes from 128 on; not other control characters or DEL.
pub open spec fn header_value_byte(b: u8) -> bool {
    (b >= 32 && b != 127) || b == 9
}

/// Asks `http::HeaderValue::try_from(String)` whether a text is a header
/// value; it accepts exactly the texts made of `header_value_byte` bytes.
#[verifier::external_body]
fn header_value_accepted(value: String) -> (r: bool)
    ensures
        r == forall|i: int| 0 <= i < encode_utf8(value@).len() ==> header_value_byte(#[trigger] encode_utf8(value@)[i]),
{
    http::HeaderValue::try_from(value).is_ok()
}

/// What an entry of the headers variable gives: a name and a value, or why not.
pub open spec fn header_entry(entry: Seq<char>) -> Result<(Seq<char>, Seq<char>), Seq<char>> {
    let k = crate::text::first_char(entry, '=');
    if k >= entry.len() {
        Err("OTLP headers must use key=value entries"@)
    } else {
        let name = trimmed(entry.take(k));
        if !http_header_name_accepted(encode_utf8(name)) {
            Err("OTLP headers contain an invalid name"@)
        } else {
            match percent_decoded(trimmed(entry.skip(k + 1))) {
                Err(e) => Err(e),
                Ok(value) => if forall|i: int| 0 <= i < encode_utf8(value).len() ==> header_value_byte(#[trigger] encode_utf8(value)[i]) {
                    Ok((name, value))
                } else {
                    Err("OTLP headers contain an invalid value"@)
                },
            }
        }
    }
}

/// The headers that the comma-separated entries `parts[i..]` give, after
/// those gathered so far; blank entries are skipped.
pub open spec fn headers_from(parts: Seq<Seq<char>>, i: int, gathered: Seq<(Seq<char>, Seq<char>)>) -> Result<
    Seq<(Seq<char>, Seq<char>)>,
    Seq<char>,
>
    decreases parts.len() - i,
{
    if i < 0 || i >= parts.len() {
        Ok(gathered)
    } else if trimmed(parts[i]).len() == 0 {
        headers_from(parts, i + 1, gathered)
    } else {
        match header_entry(trimmed(parts[i])) {
            Err(e) => Err(e),
            Ok(pair) => headers_from(parts, i + 1, gathered.push(pair)),
        }
    }
}

/// The name and value texts of a list of header pairs.
pub open spec fn pair_views(pairs: Seq<(String, String)>) -> Seq<(Seq<char>, Seq<char>)> {
    pairs.map_values(|p: (String, String)| (p.0@, p.1@))
}

fn entry_pair(entry: &str) -> (r: Result<(String, String), String>)
    ensures
        match (r, header_entry(entry@)) {
            (Ok(p), Ok(q)) => p.0@ == q.0 && p.1@ == q.1,
            (Err(e), Err(m)) => e@ == m,
            _ => false,
        },
{
    let chars = chars_of(entry);
    let n = chars.len();
    let mut k: usize = 0;
    while k < n && chars[k] != '='
        invariant
            n == chars@.len(),
            k <= n,
            forall|j: int| 0 <= j < k ==> chars@[j] != '=',
        decreases n - k,
    {
        k = k + 1;
    }
    proof {
        crate::text::lemma_first_char(chars@, '=', k as int);
    }
    if k >= n {
        return Err(String::from_str("OTLP headers must use key=value entries"));
    }
    proof {
        assert(chars@.subrange(0, k as int) =~= chars@.take(k as int));
        assert(chars@.subrange(k + 1, n as int) =~= chars@.skip(k + 1));
    }
    let name = trim_range(&chars, 0, k);
    if !header_name_accepted(name.as_str()) {
        return Err(String::from_str("OTLP headers contain an invalid name"));
    }
    let raw = trim_range(&chars, k + 1, n);
    let value = match percent_decode(raw.as_str()) {
        Ok(v) => v,
        Err(e) => {
            return Err(e);
        },
    };
    let checked = value.clone();
    if !header_value_accepted(checked) {
        return Err(String::from_str("OTLP headers contain an invalid value"));
    }
    Ok((name, value))
}

/// Reads `key=value` entries separated by commas, each trimmed, blank ones
/// skipped, values percent-decoded; names and values must be valid HTTP
/// header text. The pairs come in order; a later pair for a name replaces an
/// earlier one when they are inserted into a header map.
pub fn parse_headers(raw: &str) -> (r: Result<Vec<(String, String)>, String>)
    ensures
        match (r, headers_from(split_on(raw@, ','), 0, Seq::empty())) {
            (Ok(pairs), Ok(expected)) => pair_views(pairs@) == expected,
            (Err(e), Err(m)) => e@ == m,
            _ => false,
        },
{
    let chars = chars_of(raw);
    let n = chars.len();
    let parts = split_ranges(&chars, 0, n, ',');
    let ghost ps = split_on(chars@.subrange(0, n as int), ',');
    proof {
        assert(chars@.subrange(0, n as int) =~= raw@);
    }
    let mut pairs: Vec<(String, String)> = Vec::new();
    let mut i: usize = 0;
    assert(pair_views(pairs@) =~= Seq::<(Seq<char>, Seq<char>)>::empty());
    while i < parts.len()
        invariant
            n == chars@.len(),
            ps == split_on(raw@, ','),
            parts@.len() == ps.len(),
            forall|j: int| 0 <= j < parts@.len() ==> {
                &&& 0 <= (#[trigger] parts@[j]).0 <= parts@[j].1 <= n
                &&& chars@.subrange(parts@[j].0 as int, parts@[j].1 as int) == ps[j]
            },
            i <= parts@.len(),
            headers_from(ps, 0, Seq::empty()) == headers_from(ps, i as int, pair_views(pairs@)),
        decreases parts.len() - i,
    {
        let (a, b) = parts[i];
        let entry = trim_range(&chars, a, b);
        if entry.as_str().unicode_len() == 0 {
            i = i + 1;
        } else {
            match entry_pair(entry.as_str()) {
                Err(e) => {
                    return Err(e);
                },
                Ok(pair) => {
                    let ghost before = pair_views(pairs@);
                    let ghost shown = (pair.0@, pair.1@);
                    pairs.push(pair);
                    proof {
                        assert(pair_views(pairs@) =~= before.push(shown));
                    }
                    i = i + 1;
                },
            }
        }
    }
    Ok(pairs)
}

} // verus!
