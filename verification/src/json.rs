//! Byte-exact JSON framing for the documents whose signatures the registry
//! checks: compact output, fields in declaration order, strings escaped
//! the way the reference serializer escapes them.

use vstd::prelude::*;
use vstd::utf8::*;

verus! {

/// Lowercase hexadecimal digit for a value below 16.
pub open spec fn hex_digit(v: int) -> u8 {
    if v < 10 {
        (48 + v) as u8
    } else {
        (87 + v) as u8
    }
}

/// How one byte of a string appears inside a JSON string literal.
pub open spec fn json_escape_byte(b: u8) -> Seq<u8> {
    if b == 0x22 {
        seq![0x5cu8, 0x22u8]
    } else if b == 0x5c {
        seq![0x5cu8, 0x5cu8]
    } else if b == 0x08 {
        seq![0x5cu8, 0x62u8]
    } else if b == 0x0c {
        seq![0x5cu8, 0x66u8]
    } else if b == 0x0a {
        seq![0x5cu8, 0x6eu8]
    } else if b == 0x0d {
        seq![0x5cu8, 0x72u8]
    } else if b == 0x09 {
        seq![0x5cu8, 0x74u8]
    } else if b < 0x20 {
        seq![0x5cu8, 0x75u8, 0x30u8, 0x30u8, hex_digit(b as int / 16), hex_digit(b as int % 16)]
    } else {
        seq![b]
    }
}

/// The escaped body of a JSON string.
pub open spec fn json_escaped(bytes: Seq<u8>) -> Seq<u8>
    decreases bytes.len(),
{
    if bytes.len() == 0 {
        Seq::empty()
    } else {
        json_escaped(bytes.drop_last()) + json_escape_byte(bytes.last())
    }
}

/// A JSON string literal holding `text`.
pub open spec fn json_string(text: Seq<char>) -> Seq<u8> {
    seq![0x22u8] + json_escaped(encode_utf8(text)) + seq![0x22u8]
}

/// Decimal digits of a natural number.
pub open spec fn decimal(n: nat) -> Seq<u8>
    decreases n,
{
    if n < 10 {
        seq![(48 + n) as u8]
    } else {
        decimal(n / 10) + seq![(48 + n % 10) as u8]
    }
}

/// Appends raw bytes.
pub fn push_bytes(out: &mut Vec<u8>, bytes: &[u8])
    ensures
        final(out)@ == old(out)@ + bytes@,
{
    let mut i: usize = 0;
    while i < bytes.len()
        invariant
            i <= bytes@.len(),
            out@ == old(out)@ + bytes@.take(i as int),
        decreases bytes.len() - i,
    {
        out.push(bytes[i]);
        i = i + 1;
        assert(out@ =~= old(out)@ + bytes@.take(i as int));
    }
    assert(bytes@.take(bytes@.len() as int) =~= bytes@);
}

/// Appends the UTF-8 bytes of a string slice.
pub fn push_text(out: &mut Vec<u8>, text: &str)
    ensures
        final(out)@ == old(out)@ + encode_utf8(text@),
{
    push_bytes(out, text.as_bytes());
}

fn push_hex_digit(out: &mut Vec<u8>, v: u8)
    requires
        v < 16,
    ensures
        final(out)@ == old(out)@.push(hex_digit(v as int)),
{
    if v < 10 {
        out.push(48 + v);
    } else {
        out.push(87 + v);
    }
}

/// Appends the escaped form of one byte.
fn push_escaped_byte(out: &mut Vec<u8>, b: u8)
    ensures
        final(out)@ == old(out)@ + json_escape_byte(b),
{
    if b == 0x22 {
        out.push(0x5c);
        out.push(0x22);
    } else if b == 0x5c {
        out.push(0x5c);
        out.push(0x5c);
    } else if b == 0x08 {
        out.push(0x5c);
        out.push(0x62);
    } else if b == 0x0c {
        out.push(0x5c);
        out.push(0x66);
    } else if b == 0x0a {
        out.push(0x5c);
        out.push(0x6e);
    } else if b == 0x0d {
        out.push(0x5c);
        out.push(0x72);
    } else if b == 0x09 {
        out.push(0x5c);
        out.push(0x74);
    } else if b < 0x20 {
        out.push(0x5c);
        out.push(0x75);
        out.push(0x30);
        out.push(0x30);
        push_hex_digit(out, b / 16);
        push_hex_digit(out, b % 16);
    } else {
        out.push(b);
    }
    assert(final(out)@ =~= old(out)@ + json_escape_byte(b));
}

/// Appends a JSON string literal holding `text`.
pub fn push_json_string(out: &mut Vec<u8>, text: &str)
    ensures
        final(out)@ == old(out)@ + json_string(text@),
{
    let bytes = text.as_bytes();
    out.push(0x22);
    let ghost start = out@;
    let mut i: usize = 0;
    while i < bytes.len()
        invariant
            i <= bytes@.len(),
            bytes@ == encode_utf8(text@),
            out@ == start + json_escaped(bytes@.take(i as int)),
        decreases bytes.len() - i,
    {
        proof {
            let next = bytes@.take(i as int + 1);
            assert(next.drop_last() =~= bytes@.take(i as int));
            assert(next.last() == bytes@[i as int]);
        }
        push_escaped_byte(out, bytes[i]);
        i = i + 1;
        assert(out@ =~= start + json_escaped(bytes@.take(i as int)));
    }
    assert(bytes@.take(bytes@.len() as int) =~= bytes@);
    out.push(0x22);
    assert(out@ =~= old(out)@ + json_string(text@));
}

/// Appends the decimal digits of `n`.
pub fn push_decimal(out: &mut Vec<u8>, n: u64)
    ensures
        final(out)@ == old(out)@ + decimal(n as nat),
    decreases n,
{
    if n >= 10 {
        push_decimal(out, n / 10);
    }
    out.push(48 + (n % 10) as u8);
    assert(final(out)@ =~= old(out)@ + decimal(n as nat));
}

} // verus!
