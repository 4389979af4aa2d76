//! Escaping of Prometheus label values.

use vstd::prelude::*;
use crate::text::push_char;

verus! {

/// The text a single character of a label value becomes.
pub open spec fn escape_char(c: char) -> Seq<char> {
    if c == '\\' {
        seq!['\\', '\\']
    } else if c == '"' {
        seq!['\\', '"']
    } else if c == '\n' {
        seq!['\\', 'n']
    } else {
        seq![c]
    }
}

/// A label value with backslash, double quote and newline escaped.
pub open spec fn escape_label(s: Seq<char>) -> Seq<char>
    decreases s.len(),
{
    if s.len() == 0 {
        Seq::empty()
    } else {
        escape_label(s.drop_last()) + escape_char(s.last())
    }
}

/// Reads an escaped label value back into the original text.
pub open spec fn unescape_label(s: Seq<char>) -> Seq<char>
    decreases s.len(),
{
    if s.len() == 0 {
        Seq::empty()
    } else if s[0] == '\\' && s.len() >= 2 {
        let c = if s[1] == 'n' { '\n' } else { s[1] };
        seq![c] + unescape_label(s.subrange(2, s.len() as int))
    } else {
        seq![s[0]] + unescape_label(s.drop_first())
    }
}

proof fn lemma_escape_append(a: Seq<char>, b: Seq<char>)
    ensures
        escape_label(a + b) == escape_label(a) + escape_label(b),
    decreases b.len(),
{
    if b.len() == 0 {
        assert(a + b =~= a);
        assert(escape_label(b) =~= Seq::<char>::empty());
        assert(escape_label(a) + escape_label(b) =~= escape_label(a));
    } else {
        let b0 = b.drop_last();
        lemma_escape_append(a, b0);
        assert((a + b).drop_last() =~= a + b0);
        assert((a + b).last() == b.last());
        assert(escape_label(a) + escape_label(b0) + escape_char(b.last()) =~= escape_label(a) + (
        escape_label(b0) + escape_char(b.last())));
    }
}

/// Escaping a label value loses nothing: reading the escaped text back
/// gives the original value.
pub proof fn lemma_label_roundtrip(s: Seq<char>)
    ensures
        unescape_label(escape_label(s)) == s,
    decreases s.len(),
{
    if s.len() > 0 {
        let rest = s.drop_first();
        lemma_label_roundtrip(rest);
        assert(s =~= seq![s[0]] + rest);
        lemma_escape_append(seq![s[0]], rest);
        let e = escape_char(s[0]);
        assert(escape_label(seq![s[0]]) =~= e) by {
            assert(seq![s[0]].drop_last() =~= Seq::<char>::empty());
            assert(escape_label(Seq::<char>::empty()) =~= Seq::<char>::empty());
            assert(Seq::<char>::empty() + e =~= e);
        }
        let t = e + escape_label(rest);
        if e.len() == 2 {
            assert(t.subrange(2, t.len() as int) =~= escape_label(rest));
        } else {
            assert(t.drop_first() =~= escape_label(rest));
        }
    }
}

/// Escapes backslash, double quote and newline, in that order, so that a
/// value can stand inside a quoted Prometheus label.
pub fn label(value: &str) -> (escaped: String)
    ensures
        escaped@ == escape_label(value@),
{
    let n = value.unicode_len();
    let mut out = String::new();
    let mut i: usize = 0;
    while i < n
        invariant
            n as nat == value@.len(),
            i <= n,
            out@ == escape_label(value@.subrange(0, i as int)),
        decreases n - i,
    {
        let c = value.get_char(i);
        proof {
            let pre = value@.subrange(0, i as int);
            let next = value@.subrange(0, i as int + 1);
            assert(next.drop_last() =~= pre);
            assert(next.last() == c);
        }
        if c == '\\' {
            push_char(&mut out, '\\');
            push_char(&mut out, '\\');
        } else if c == '"' {
            push_char(&mut out, '\\');
            push_char(&mut out, '"');
        } else if c == '\n' {
            push_char(&mut out, '\\');
            push_char(&mut out, 'n');
        } else {
            push_char(&mut out, c);
        }
        proof {
            let next = value@.subrange(0, i as int + 1);
            assert(out@ =~= escape_label(next));
        }
        i = i + 1;
    }
    assert(value@.subrange(0, n as int) =~= value@);
    out
}

} // verus!
