//! Lowercase hexadecimal text and byte-wise string order.

use vstd::prelude::*;
use vstd::utf8::*;
use crate::text::push_char;

verus! {

/// A byte that is a lowercase hexadecimal digit.
pub open spec fn is_lower_hex_byte(b: u8) -> bool {
    (48 <= b <= 57) || (97 <= b <= 102)
}

/// `value` spells exactly `n` bytes as lowercase hexadecimal digits.
pub open spec fn is_lower_hex_of(value: Seq<u8>, n: int) -> bool {
    value.len() == 2 * n && forall|i: int| 0 <= i < value.len() ==> is_lower_hex_byte(#[trigger] value[i])
}

pub open spec fn hex_value(b: u8) -> int {
    if b <= 57 {
        b - 48
    } else {
        b - 87
    }
}

/// The bytes spelled by a string of hexadecimal digit pairs.
pub open spec fn hex_decoded(value: Seq<u8>) -> Seq<u8> {
    Seq::new((value.len() / 2) as nat, |i: int| (hex_value(value[2 * i]) * 16 + hex_value(value[2 * i + 1])) as u8)
}

pub open spec fn hex_char(v: int) -> char {
    if v < 10 {
        ((48 + v) as u8) as char
    } else {
        ((87 + v) as u8) as char
    }
}

/// The lowercase hexadecimal spelling of some bytes, two digits per byte.
pub open spec fn hex_encoded(bytes: Seq<u8>) -> Seq<char>
    decreases bytes.len(),
{
    if bytes.len() == 0 {
        Seq::empty()
    } else {
        hex_encoded(bytes.drop_last()) + seq![hex_char(bytes.last() as int / 16), hex_char(bytes.last() as int % 16)]
    }
}

proof fn lemma_hex_encoded_len(bytes: Seq<u8>)
    ensures
        hex_encoded(bytes).len() == 2 * bytes.len(),
    decreases bytes.len(),
{
    if bytes.len() > 0 {
        lemma_hex_encoded_len(bytes.drop_last());
    }
}

/// Whether a string spells exactly `n` bytes in lowercase hexadecimal.
pub fn is_lower_hex(value: &str, n: usize) -> (ok: bool)
    ensures
        ok == is_lower_hex_of(encode_utf8(value@), n as int),
{
    let bytes = value.as_bytes();
    let len = bytes.len();
    if len % 2 != 0 || len / 2 != n {
        return false;
    }
    let mut i: usize = 0;
    while i < bytes.len()
        invariant
            i <= bytes@.len(),
            bytes@ == encode_utf8(value@),
            forall|k: int| 0 <= k < i ==> is_lower_hex_byte(#[trigger] bytes@[k]),
        decreases bytes.len() - i,
    {
        let b = bytes[i];
        if !((48 <= b && b <= 57) || (97 <= b && b <= 102)) {
            assert(!is_lower_hex_byte(bytes@[i as int]));
            return false;
        }
        i = i + 1;
    }
    true
}

fn hex_nibble(b: u8) -> (v: u8)
    requires
        is_lower_hex_byte(b),
    ensures
        v as int == hex_value(b),
        v < 16,
{
    if b <= 57 {
        b - 48
    } else {
        b - 87
    }
}

/// Decodes a string already known to spell bytes in lowercase hexadecimal.
pub fn decode_lower_hex(value: &str) -> (bytes: Vec<u8>)
    requires
        is_lower_hex_of(encode_utf8(value@), encode_utf8(value@).len() as int / 2),
    ensures
        bytes@ == hex_decoded(encode_utf8(value@)),
{
    let text = value.as_bytes();
    let len = text.len();
    let half = len / 2;
    let mut out: Vec<u8> = Vec::new();
    let mut i: usize = 0;
    while i < half
        invariant
            i <= half,
            len == text@.len(),
            half == len / 2,
            text@ == encode_utf8(value@),
            is_lower_hex_of(text@, half as int),
            out@ =~= hex_decoded(text@).take(i as int),
        decreases half - i,
    {
        assert(is_lower_hex_byte(text@[2 * i as int]));
        assert(is_lower_hex_byte(text@[2 * i as int + 1]));
        assert(2 * i + 1 < text@.len());
        let high = hex_nibble(text[2 * i]);
        let low = hex_nibble(text[2 * i + 1]);
        out.push(high * 16 + low);
        i = i + 1;
    }
    out
}

/// Spells bytes as lowercase hexadecimal, two digits per byte.
pub fn encode_hex(bytes: &[u8]) -> (text: String)
    ensures
        text@ == hex_encoded(bytes@),
{
    let mut out = String::new();
    let mut i: usize = 0;
    while i < bytes.len()
        invariant
            i <= bytes@.len(),
            out@ == hex_encoded(bytes@.take(i as int)),
        decreases bytes.len() - i,
    {
        let b = bytes[i];
        let high = b / 16;
        let low = b % 16;
        push_char(&mut out, if high < 10 { (48 + high) as char } else { (87 + high) as char });
        push_char(&mut out, if low < 10 { (48 + low) as char } else { (87 + low) as char });
        proof {
            let next = bytes@.take(i as int + 1);
            assert(next.drop_last() =~= bytes@.take(i as int));
            assert(next.last() == b);
            assert(out@ =~= hex_encoded(next));
        }
        i = i + 1;
    }
    assert(bytes@.take(bytes@.len() as int) =~= bytes@);
    out
}

/// Byte-wise lexicographic order, the order of Rust strings.
pub open spec fn bytes_less(a: Seq<u8>, b: Seq<u8>) -> bool
    decreases a.len(),
{
    if b.len() == 0 {
        false
    } else if a.len() == 0 {
        true
    } else if a[0] != b[0] {
        a[0] < b[0]
    } else {
        bytes_less(a.drop_first(), b.drop_first())
    }
}

/// The order of two strings.
pub open spec fn text_less(a: Seq<char>, b: Seq<char>) -> bool {
    bytes_less(encode_utf8(a), encode_utf8(b))
}

/// Whether `a` sorts strictly before `b`.
pub fn str_less(a: &str, b: &str) -> (r: bool)
    ensures
        r == text_less(a@, b@),
{
    let x = a.as_bytes();
    let y = b.as_bytes();
    let mut i: usize = 0;
    assert(x@.skip(0) =~= x@);
    assert(y@.skip(0) =~= y@);
    while i < x.len() && i < y.len()
        invariant
            i <= x@.len(),
            i <= y@.len(),
            x@ == encode_utf8(a@),
            y@ == encode_utf8(b@),
            x@.take(i as int) == y@.take(i as int),
            bytes_less(x@, y@) == bytes_less(x@.skip(i as int), y@.skip(i as int)),
        decreases x.len() - i,
    {
        if x[i] != y[i] {
            proof {
                assert(x@.skip(i as int)[0] == x@[i as int]);
                assert(y@.skip(i as int)[0] == y@[i as int]);
                assert(x@.skip(i as int).len() > 0 && y@.skip(i as int).len() > 0);
                assert(bytes_less(x@.skip(i as int), y@.skip(i as int)) == (x@[i as int] < y@[i as int]));
            }
            return x[i] < y[i];
        }
        proof {
            assert(x@.skip(i as int).drop_first() =~= x@.skip(i as int + 1));
            assert(y@.skip(i as int).drop_first() =~= y@.skip(i as int + 1));
            assert(x@.take(i as int + 1) =~= x@.take(i as int).push(x@[i as int]));
            assert(y@.take(i as int + 1) =~= y@.take(i as int).push(y@[i as int]));
        }
        i = i + 1;
    }
    i < y.len()
}

/// No byte string sorts before itself.
pub proof fn lemma_bytes_less_irreflexive(a: Seq<u8>)
    ensures
        !bytes_less(a, a),
    decreases a.len(),
{
    if a.len() > 0 {
        lemma_bytes_less_irreflexive(a.drop_first());
    }
}

/// Byte-wise order is transitive.
pub proof fn lemma_bytes_less_transitive(a: Seq<u8>, b: Seq<u8>, c: Seq<u8>)
    requires
        bytes_less(a, b),
        bytes_less(b, c),
    ensures
        bytes_less(a, c),
    decreases a.len(),
{
    if a.len() > 0 && a[0] == b[0] && b[0] == c[0] {
        lemma_bytes_less_transitive(a.drop_first(), b.drop_first(), c.drop_first());
    }
}

/// Of two different byte strings, one sorts before the other.
pub proof fn lemma_bytes_less_total(a: Seq<u8>, b: Seq<u8>)
    requires
        a != b,
    ensures
        bytes_less(a, b) || bytes_less(b, a),
    decreases a.len(),
{
    if a.len() == 0 {
        assert(b.len() != 0 || a =~= b);
    } else if b.len() == 0 {
    } else if a[0] == b[0] {
        if a.drop_first() == b.drop_first() {
            assert(a =~= b) by {
                assert(a.len() == a.drop_first().len() + 1 && b.len() == b.drop_first().len() + 1);
                assert forall|i: int| 0 <= i < a.len() implies a[i] == b[i] by {
                    if i > 0 {
                        assert(a[i] == a.drop_first()[i - 1]);
                        assert(b[i] == b.drop_first()[i - 1]);
                    }
                }
            }
        }
        lemma_bytes_less_total(a.drop_first(), b.drop_first());
    }
}

/// String order is a strict total order: irreflexive, transitive, and total
/// on different strings.
pub proof fn lemma_text_less_strict_total(a: Seq<char>, b: Seq<char>, c: Seq<char>)
    ensures
        !text_less(a, a),
        text_less(a, b) && text_less(b, c) ==> text_less(a, c),
        a != b ==> text_less(a, b) || text_less(b, a),
{
    lemma_bytes_less_irreflexive(encode_utf8(a));
    if text_less(a, b) && text_less(b, c) {
        lemma_bytes_less_transitive(encode_utf8(a), encode_utf8(b), encode_utf8(c));
    }
    if a != b {
        encode_utf8_decode_utf8(a);
        encode_utf8_decode_utf8(b);
        lemma_bytes_less_total(encode_utf8(a), encode_utf8(b));
    }
}

} // verus!
