//! Character and string helpers shared by the validators.

use vstd::prelude::*;

verus! {

/// Appends one character to a string (`String::push`).
#[verifier::external_body]
pub(crate) fn push_char(s: &mut String, c: char)
    ensures
        final(s)@ == old(s)@.push(c),
{
    s.push(c);
}

/// Whether two string slices hold the same characters.
pub(crate) fn str_eq(a: &str, b: &str) -> (r: bool)
    ensures
        r == (a@ == b@),
{
    let x = String::from_str(a);
    let y = String::from_str(b);
    x == y
}

/// A string holding the given slice followed by another.
pub(crate) fn concat_str(a: &str, b: &str) -> (r: String)
    ensures
        r@ == a@ + b@,
{
    let mut out = String::from_str(a);
    out.append(b);
    out
}

/// The characters of a string slice, in order.
pub(crate) fn chars_of(s: &str) -> (v: Vec<char>)
    ensures
        v@ == s@,
{
    let n = s.unicode_len();
    let mut out: Vec<char> = Vec::new();
    let mut i: usize = 0;
    while i < n
        invariant
            n == s@.len(),
            i <= n,
            out@ == s@.take(i as int),
        decreases n - i,
    {
        out.push(s.get_char(i));
        i = i + 1;
    }
    out
}

/// A string holding the given characters.
pub(crate) fn string_of(chars: &[char], from: usize, to: usize) -> (r: String)
    requires
        from <= to <= chars@.len(),
    ensures
        r@ == chars@.subrange(from as int, to as int),
{
    let mut out = String::new();
    let mut i = from;
    while i < to
        invariant
            from <= i <= to,
            to <= chars@.len(),
            out@ == chars@.subrange(from as int, i as int),
        decreases to - i,
    {
        push_char(&mut out, chars[i]);
        proof {
            assert(chars@.subrange(from as int, i + 1) =~= chars@.subrange(from as int, i as int).push(chars@[i as int]));
        }
        i = i + 1;
    }
    out
}

/// Unicode `White_Space`, the separators of `split_whitespace` and `trim`.
pub open spec fn is_whitespace(c: char) -> bool {
    ('\u{9}' <= c <= '\u{d}') || c == ' ' || c == '\u{85}' || c == '\u{a0}' || c == '\u{1680}'
        || ('\u{2000}' <= c <= '\u{200a}') || c == '\u{2028}' || c == '\u{2029}' || c == '\u{202f}'
        || c == '\u{205f}' || c == '\u{3000}'
}

pub(crate) fn char_is_whitespace(c: char) -> (r: bool)
    ensures
        r == is_whitespace(c),
{
    ('\u{9}' <= c && c <= '\u{d}') || c == ' ' || c == '\u{85}' || c == '\u{a0}' || c == '\u{1680}'
        || ('\u{2000}' <= c && c <= '\u{200a}') || c == '\u{2028}' || c == '\u{2029}' || c == '\u{202f}'
        || c == '\u{205f}' || c == '\u{3000}'
}

/// Length of the run of non-whitespace characters at the start of `s`.
pub open spec fn token_len(s: Seq<char>) -> nat
    decreases s.len(),
{
    if s.len() == 0 || is_whitespace(s[0]) {
        0
    } else {
        1 + token_len(s.drop_first())
    }
}

/// The whitespace-separated words of `s`, as `split_whitespace` yields them.
pub open spec fn words(s: Seq<char>) -> Seq<Seq<char>>
    decreases s.len(),
{
    if s.len() == 0 {
        Seq::empty()
    } else if is_whitespace(s[0]) {
        words(s.drop_first())
    } else {
        proof {
            lemma_token_len_bounds(s);
        }
        seq![s.take(token_len(s) as int)] + words(s.skip(token_len(s) as int))
    }
}

pub proof fn lemma_token_len_bounds(s: Seq<char>)
    ensures
        token_len(s) <= s.len(),
        s.len() > 0 && !is_whitespace(s[0]) ==> token_len(s) >= 1,
        forall|i: int| 0 <= i < token_len(s) ==> !is_whitespace(#[trigger] s[i]),
        token_len(s) < s.len() ==> is_whitespace(s[token_len(s) as int]),
    decreases s.len(),
{
    if s.len() > 0 && !is_whitespace(s[0]) {
        lemma_token_len_bounds(s.drop_first());
        assert forall|i: int| 0 <= i < token_len(s) implies !is_whitespace(#[trigger] s[i]) by {
            if i > 0 {
                assert(s[i] == s.drop_first()[i - 1]);
            }
        }
    }
}

/// A run without whitespace that ends at whitespace or at the end is the token.
proof fn lemma_token_len_exact(s: Seq<char>, n: int)
    requires
        0 <= n <= s.len(),
        forall|i: int| 0 <= i < n ==> !is_whitespace(#[trigger] s[i]),
        n == s.len() || is_whitespace(s[n]),
    ensures
        token_len(s) == n,
    decreases n,
{
    if n > 0 {
        let t = s.drop_first();
        assert forall|i: int| 0 <= i < n - 1 implies !is_whitespace(#[trigger] t[i]) by {
            assert(t[i] == s[i + 1]);
        }
        if n < s.len() {
            assert(t[n - 1] == s[n]);
        }
        lemma_token_len_exact(t, n - 1);
    }
}

/// Position of the first non-whitespace character at or after `from`, or `to`.
fn skip_whitespace(chars: &[char], from: usize, to: usize) -> (i: usize)
    requires
        from <= to <= chars@.len(),
    ensures
        from <= i <= to,
        forall|k: int| from <= k < i ==> is_whitespace(#[trigger] chars@[k]),
        i < to ==> !is_whitespace(chars@[i as int]),
{
    let mut i = from;
    while i < to && char_is_whitespace(chars[i])
        invariant
            from <= i <= to,
            to <= chars@.len(),
            forall|k: int| from <= k < i ==> is_whitespace(#[trigger] chars@[k]),
        decreases to - i,
    {
        i = i + 1;
    }
    i
}

/// Position of the first whitespace character at or after `from`, or `to`.
fn skip_word(chars: &[char], from: usize, to: usize) -> (i: usize)
    requires
        from <= to <= chars@.len(),
    ensures
        from <= i <= to,
        forall|k: int| from <= k < i ==> !is_whitespace(#[trigger] chars@[k]),
        i < to ==> is_whitespace(chars@[i as int]),
{
    let mut i = from;
    while i < to && !char_is_whitespace(chars[i])
        invariant
            from <= i <= to,
            to <= chars@.len(),
            forall|k: int| from <= k < i ==> !is_whitespace(#[trigger] chars@[k]),
        decreases to - i,
    {
        i = i + 1;
    }
    i
}

/// Skipping leading whitespace does not change the words.
proof fn lemma_words_skip_whitespace(s: Seq<char>, n: int)
    requires
        0 <= n <= s.len(),
        forall|k: int| 0 <= k < n ==> is_whitespace(#[trigger] s[k]),
    ensures
        words(s) == words(s.skip(n)),
    decreases n,
{
    if n > 0 {
        assert(s.drop_first().skip(n - 1) =~= s.skip(n));
        assert forall|k: int| 0 <= k < n - 1 implies is_whitespace(#[trigger] s.drop_first()[k]) by {
            assert(s.drop_first()[k] == s[k + 1]);
        }
        lemma_words_skip_whitespace(s.drop_first(), n - 1);
    } else {
        assert(s.skip(0) =~= s);
    }
}

/// The words of the characters `from..to`, located as index pairs.
pub(crate) fn word_at(chars: &[char], from: usize, to: usize, index: usize) -> (r: Option<(usize, usize)>)
    requires
        from <= to <= chars@.len(),
    ensures
        ({
            let ws = words(chars@.subrange(from as int, to as int));
            match r {
                None => ws.len() <= index,
                Some((a, b)) => {
                    &&& index < ws.len()
                    &&& from <= a <= b <= to
                    &&& ws[index as int] == chars@.subrange(a as int, b as int)
                },
            }
        }),
{
    let mut i = from;
    let mut seen: usize = 0;
    loop
        invariant
            from <= i <= to,
            to <= chars@.len(),
            seen <= index,
            words(chars@.subrange(from as int, to as int)).len() == seen + words(chars@.subrange(i as int, to as int)).len(),
            words(chars@.subrange(from as int, to as int)).skip(seen as int) == words(chars@.subrange(i as int, to as int)),
        decreases to - i,
    {
        let start = skip_whitespace(chars, i, to);
        proof {
            let s = chars@.subrange(i as int, to as int);
            assert forall|k: int| 0 <= k < start - i implies is_whitespace(#[trigger] s[k]) by {
                assert(s[k] == chars@[i + k]);
            }
            lemma_words_skip_whitespace(s, start - i);
            assert(s.skip(start - i) =~= chars@.subrange(start as int, to as int));
        }
        if start == to {
            proof {
                assert(chars@.subrange(start as int, to as int).len() == 0);
            }
            return None;
        }
        let end = skip_word(chars, start, to);
        proof {
            let t = chars@.subrange(start as int, to as int);
            assert(t[0] == chars@[start as int]);
            assert forall|k: int| 0 <= k < end - start implies !is_whitespace(#[trigger] t[k]) by {
                assert(t[k] == chars@[start + k]);
            }
            if end < to {
                assert(t[end - start] == chars@[end as int]);
            }
            lemma_token_len_exact(t, end - start);
            assert(t.take(end - start) =~= chars@.subrange(start as int, end as int));
            assert(t.skip(end - start) =~= chars@.subrange(end as int, to as int));
            assert(words(t) == seq![chars@.subrange(start as int, end as int)] + words(chars@.subrange(end as int, to as int)));
        }
        if seen == index {
            proof {
                let all = words(chars@.subrange(from as int, to as int));
                assert(all.skip(seen as int)[0] == all[seen as int]);
            }
            return Some((start, end));
        }
        proof {
            let all = words(chars@.subrange(from as int, to as int));
            let rest = words(chars@.subrange(end as int, to as int));
            assert(all.skip(seen as int + 1) =~= all.skip(seen as int).drop_first());
            assert(seq![chars@.subrange(start as int, end as int)].add(rest).drop_first() =~= rest);
        }
        seen = seen + 1;
        i = end;
    }
}

/// Whether `s` is all ASCII digits.
pub open spec fn all_digits(s: Seq<char>) -> bool {
    forall|i: int| 0 <= i < s.len() ==> '0' <= #[trigger] s[i] <= '9'
}

/// The number that a run of ASCII digits spells in decimal.
pub open spec fn digits_value(s: Seq<char>) -> int
    decreases s.len(),
{
    if s.len() == 0 {
        0
    } else {
        digits_value(s.drop_last()) * 10 + (s.last() as int - 48)
    }
}

/// What `str::parse` gives for an unsigned integer type whose largest value is
/// `max`: an optional `+`, then one or more ASCII digits whose value fits.
pub open spec fn parse_unsigned(s: Seq<char>, max: int) -> Option<int> {
    let digits = if s.len() > 0 && s[0] == '+' { s.drop_first() } else { s };
    if digits.len() > 0 && all_digits(digits) && digits_value(digits) <= max {
        Some(digits_value(digits))
    } else {
        None
    }
}

proof fn lemma_digits_value_nonneg_monotone(s: Seq<char>, n: int)
    requires
        all_digits(s),
        0 <= n <= s.len(),
    ensures
        0 <= digits_value(s.take(n)) <= digits_value(s),
    decreases s.len(),
{
    if s.len() > 0 {
        if n == s.len() {
            assert(s.take(n) =~= s);
            lemma_digits_value_nonneg_monotone(s.drop_last(), n - 1);
            assert(s.drop_last().take(n - 1) =~= s.drop_last());
        } else {
            assert(s.drop_last().take(n) =~= s.take(n));
            lemma_digits_value_nonneg_monotone(s.drop_last(), n);
            lemma_digits_value_nonneg_monotone(s.drop_last(), s.len() - 1);
            assert(s.drop_last().take(s.len() - 1) =~= s.drop_last());
        }
    } else {
        assert(s.take(n) =~= s);
    }
}

/// Parses `chars[from..to]` as `str::parse::<u64>` does.
pub(crate) fn parse_u64_chars(chars: &[char], from: usize, to: usize) -> (r: Option<u64>)
    requires
        from <= to <= chars@.len(),
    ensures
        ({
            let p = parse_unsigned(chars@.subrange(from as int, to as int), u64::MAX as int);
            &&& r is Some == p is Some
            &&& r matches Some(v) ==> v == p->0
        }),
{
    let ghost s = chars@.subrange(from as int, to as int);
    let mut start = from;
    if start < to && chars[start] == '+' {
        start = start + 1;
    }
    let ghost digits = chars@.subrange(start as int, to as int);
    proof {
        if from < to {
            assert(s[0] == chars@[from as int]);
        }
        if from < to && chars@[from as int] == '+' {
            assert(s.drop_first() =~= digits);
        } else {
            assert(s =~= digits);
        }
    }
    if start == to {
        return None;
    }
    let mut value: u64 = 0;
    let mut i = start;
    while i < to
        invariant
            start <= i <= to,
            to <= chars@.len(),
            digits == chars@.subrange(start as int, to as int),
            digits.len() > 0,
            parse_unsigned(chars@.subrange(from as int, to as int), u64::MAX as int) == (if all_digits(digits)
                && digits_value(digits) <= u64::MAX { Some(digits_value(digits)) } else { None::<int> }),
            all_digits(digits.take(i - start)),
            value as int == digits_value(digits.take(i - start)),
        decreases to - i,
    {
        let c = chars[i];
        proof {
            assert(digits.take(i - start + 1).drop_last() =~= digits.take(i - start));
            assert(digits.take(i - start + 1).last() == c);
        }
        if !('0' <= c && c <= '9') {
            proof {
                assert(digits[i - start] == c);
            }
            return None;
        }
        let d = (c as u32 - 48) as u64;
        let next = match value.checked_mul(10) {
            Some(v) => v.checked_add(d),
            None => None,
        };
        match next {
            Some(v) => {
                value = v;
            },
            None => {
                proof {
                    let t = digits.take(i - start + 1);
                    assert(digits_value(t) > u64::MAX);
                    if all_digits(digits) {
                        lemma_digits_value_nonneg_monotone(digits, i - start + 1);
                    }
                }
                return None;
            },
        }
        i = i + 1;
    }
    proof {
        assert(digits.take(to - start) =~= digits);
    }
    Some(value)
}

/// Decimal digits of a natural number, as characters.
pub open spec fn decimal_text(n: nat) -> Seq<char>
    decreases n,
{
    if n < 10 {
        seq![((48 + n) as u8) as char]
    } else {
        decimal_text(n / 10) + seq![((48 + n % 10) as u8) as char]
    }
}

/// Appends the decimal digits of `n`.
pub(crate) fn push_decimal_text(out: &mut String, n: u64)
    ensures
        final(out)@ == old(out)@ + decimal_text(n as nat),
    decreases n,
{
    if n >= 10 {
        push_decimal_text(out, n / 10);
    }
    let digit = (n % 10) as u8;
    push_char(out, (48 + digit) as char);
}

/// Index of the first `c` in `s`, or the length when there is none.
pub open spec fn first_char(s: Seq<char>, c: char) -> int
    decreases s.len(),
{
    if s.len() == 0 {
        0
    } else if s[0] == c {
        0
    } else {
        1 + first_char(s.drop_first(), c)
    }
}

pub proof fn lemma_first_char(s: Seq<char>, c: char, i: int)
    requires
        0 <= i <= s.len(),
        forall|k: int| 0 <= k < i ==> s[k] != c,
        i == s.len() || s[i] == c,
    ensures
        first_char(s, c) == i,
    decreases i,
{
    if i > 0 {
        assert forall|k: int| 0 <= k < i - 1 implies s.drop_first()[k] != c by {
            assert(s.drop_first()[k] == s[k + 1]);
        }
        if i < s.len() {
            assert(s.drop_first()[i - 1] == s[i]);
        }
        lemma_first_char(s.drop_first(), c, i - 1);
    }
}

/// The parts of `s` between occurrences of `c`, as `str::split` yields them.
pub open spec fn split_on(s: Seq<char>, c: char) -> Seq<Seq<char>>
    decreases s.len(),
{
    let k = first_char(s, c);
    if k >= s.len() || k < 0 {
        seq![s]
    } else {
        seq![s.take(k)] + split_on(s.skip(k + 1), c)
    }
}

pub proof fn lemma_first_char_bounds(s: Seq<char>, c: char)
    ensures
        0 <= first_char(s, c) <= s.len(),
        forall|k: int| 0 <= k < first_char(s, c) ==> s[k] != c,
        first_char(s, c) < s.len() ==> s[first_char(s, c)] == c,
    decreases s.len(),
{
    if s.len() > 0 && s[0] != c {
        lemma_first_char_bounds(s.drop_first(), c);
        assert forall|k: int| 0 <= k < first_char(s, c) implies s[k] != c by {
            if k > 0 {
                assert(s[k] == s.drop_first()[k - 1]);
            }
        }
    }
}

/// The parts of `chars[from..to]` between occurrences of `c`, as index ranges.
pub(crate) fn split_ranges(chars: &[char], from: usize, to: usize, c: char) -> (parts: Vec<(usize, usize)>)
    requires
        from <= to <= chars@.len(),
    ensures
        parts@.len() == split_on(chars@.subrange(from as int, to as int), c).len(),
        forall|i: int| 0 <= i < parts@.len() ==> {
            &&& from <= (#[trigger] parts@[i]).0 <= parts@[i].1 <= to
            &&& chars@.subrange(parts@[i].0 as int, parts@[i].1 as int) == split_on(chars@.subrange(from as int, to as int), c)[i]
        },
{
    let mut parts: Vec<(usize, usize)> = Vec::new();
    let mut start = from;
    loop
        invariant
            from <= start <= to,
            to <= chars@.len(),
            split_on(chars@.subrange(from as int, to as int), c) == parts@.map_values(|r: (usize, usize)| chars@.subrange(r.0 as int, r.1 as int))
                + split_on(chars@.subrange(start as int, to as int), c),
            forall|i: int| 0 <= i < parts@.len() ==> from <= (#[trigger] parts@[i]).0 <= parts@[i].1 <= to,
        decreases to - start,
    {
        let mut k = start;
        while k < to && chars[k] != c
            invariant
                start <= k <= to,
                to <= chars@.len(),
                forall|j: int| start <= j < k ==> chars@[j] != c,
            decreases to - k,
        {
            k = k + 1;
        }
        let ghost rest = chars@.subrange(start as int, to as int);
        proof {
            assert forall|j: int| 0 <= j < k - start implies rest[j] != c by {
                assert(rest[j] == chars@[start + j]);
            }
            if k < to {
                assert(rest[k - start] == chars@[k as int]);
            }
            lemma_first_char(rest, c, k - start);
            assert(rest.take(k - start) =~= chars@.subrange(start as int, k as int));
        }
        let ghost old_parts = parts@;
        parts.push((start, k));
        proof {
            assert(parts@.map_values(|r: (usize, usize)| chars@.subrange(r.0 as int, r.1 as int))
                =~= old_parts.map_values(|r: (usize, usize)| chars@.subrange(r.0 as int, r.1 as int))
                .push(chars@.subrange(start as int, k as int)));
        }
        if k == to {
            proof {
                assert(rest =~= chars@.subrange(start as int, k as int));
                let all = split_on(chars@.subrange(from as int, to as int), c);
                assert(all =~= parts@.map_values(|r: (usize, usize)| chars@.subrange(r.0 as int, r.1 as int)));
                assert forall|i: int| 0 <= i < parts@.len() implies
                    chars@.subrange((#[trigger] parts@[i]).0 as int, parts@[i].1 as int) == all[i] by {
                }
            }
            return parts;
        }
        proof {
            assert(rest.skip(k - start + 1) =~= chars@.subrange(k + 1, to as int));
        }
        start = k + 1;
    }
}

pub open spec fn is_ascii_upper(c: char) -> bool {
    'A' <= c <= 'Z'
}

pub open spec fn is_ascii_lower(c: char) -> bool {
    'a' <= c <= 'z'
}

pub open spec fn is_ascii_digit(c: char) -> bool {
    '0' <= c <= '9'
}

pub open spec fn is_ascii_alpha(c: char) -> bool {
    is_ascii_upper(c) || is_ascii_lower(c)
}

pub open spec fn is_ascii_alnum(c: char) -> bool {
    is_ascii_alpha(c) || is_ascii_digit(c)
}

pub(crate) fn ascii_upper(c: char) -> (r: bool)
    ensures
        r == is_ascii_upper(c),
{
    'A' <= c && c <= 'Z'
}

pub(crate) fn ascii_lower(c: char) -> (r: bool)
    ensures
        r == is_ascii_lower(c),
{
    'a' <= c && c <= 'z'
}

pub(crate) fn ascii_digit(c: char) -> (r: bool)
    ensures
        r == is_ascii_digit(c),
{
    '0' <= c && c <= '9'
}

pub(crate) fn ascii_alpha(c: char) -> (r: bool)
    ensures
        r == is_ascii_alpha(c),
{
    ascii_upper(c) || ascii_lower(c)
}

pub(crate) fn ascii_alnum(c: char) -> (r: bool)
    ensures
        r == is_ascii_alnum(c),
{
    ascii_alpha(c) || ascii_digit(c)
}

/// Number of bytes of the UTF-8 encoding of a string slice.
pub(crate) fn byte_len(s: &str) -> (n: usize)
    ensures
        n == vstd::utf8::encode_utf8(s@).len(),
{
    s.as_bytes().len()
}

/// A string as `{:?}` shows it: in double quotes, with quotes, backslashes
/// and control characters escaped.
pub uninterp spec fn debug_quoted(text: Seq<char>) -> Seq<char>;

/// Formats a string with `{:?}` (`<str as Debug>::fmt`).
#[verifier::external_body]
pub(crate) fn quoted(text: &str) -> (r: String)
    ensures
        r@ == debug_quoted(text@),
{
    format!("{text:?}")
}

/// `value` parsed as `str::parse::<u32>` does, from `chars[from..to]`.
pub(crate) fn parse_u32_chars(chars: &[char], from: usize, to: usize) -> (r: Option<u32>)
    requires
        from <= to <= chars@.len(),
    ensures
        ({
            let p = parse_unsigned(chars@.subrange(from as int, to as int), u32::MAX as int);
            &&& r is Some == p is Some
            &&& r matches Some(v) ==> v == p->0
        }),
{
    match parse_u64_chars(chars, from, to) {
        Some(v) => {
            if v <= u32::MAX as u64 {
                Some(v as u32)
            } else {
                None
            }
        },
        None => None,
    }
}

} // verus!