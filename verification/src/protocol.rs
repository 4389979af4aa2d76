//! The framing that the PHP dispatcher uses to hand a finished HTTP
//! response back to the server: a magic prefix followed by a big-endian
//! binary record of status, headers, body and streamed chunks.

use vstd::prelude::*;
use vstd::utf8::*;
use bytes::Bytes;

verus! {

/// Most distinct header names one response may carry.
pub const MAX_NATIVE_HEADER_NAMES: u16 = 256;
/// Most values one header name may carry.
pub const MAX_NATIVE_HEADER_VALUES: u16 = 256;
/// Most streamed chunks one response may carry.
pub const MAX_NATIVE_RESPONSE_CHUNKS: u32 = 4096;

#[verifier::external_type_specification]
#[verifier::external_body]
pub struct ExBytes(Bytes);

/// The bytes a `Bytes` buffer holds.
pub uninterp spec fn bytes_contents(b: Bytes) -> Seq<u8>;

/// `Bytes::copy_from_slice`: a buffer holding a copy of `data`.
#[verifier::external_body]
fn bytes_copy_from_slice(data: &[u8]) -> (b: Bytes)
    ensures
        bytes_contents(b) == data@,
{
    Bytes::copy_from_slice(data)
}

/// `Bytes::from(String)`: a buffer holding the UTF-8 encoding of `text`.
#[verifier::external_body]
fn bytes_from_string(text: String) -> (b: Bytes)
    ensures
        bytes_contents(b) == encode_utf8(text@),
{
    Bytes::from(text)
}

/// The text that `Display` renders for the `Utf8Error` that
/// `std::str::from_utf8` gives on `bytes` (it names where decoding stopped,
/// which depends on the bytes alone).
pub uninterp spec fn utf8_error_detail(bytes: Seq<u8>) -> Seq<char>;

/// `std::str::from_utf8`: succeeds exactly on well-formed UTF-8 and then
/// yields the decoded text; otherwise gives the error as its `Display`
/// renders it.
#[verifier::external_body]
pub(crate) fn str_from_utf8(data: &[u8]) -> (r: Result<&str, String>)
    ensures
        r is Ok <==> valid_utf8(data@),
        r matches Ok(s) ==> s@ == decode_utf8(data@),
        r matches Err(detail) ==> detail@ == utf8_error_detail(data@),
{
    core::str::from_utf8(data).map_err(|error| format!("{error}"))
}

/// The kinds of failure of the binary framing, as a specification sees them.
#[derive(PartialEq, Eq, Structural, Clone, Copy)]
pub enum NativeFailure {
    Truncated,
    TooManyHeaderNames,
    TooManyHeaderValues,
    NotUtf8,
    TooManyChunks,
    TrailingBytes,
}

/// A refused binary response. Metadata that is not UTF-8 carries what the
/// decoder said of it.
#[derive(Clone, Debug)]
pub enum NativeError {
    Truncated,
    TooManyHeaderNames,
    TooManyHeaderValues,
    NotUtf8(String),
    TooManyChunks,
    TrailingBytes,
}

impl NativeError {
    pub open spec fn failure(self) -> NativeFailure {
        match self {
            NativeError::Truncated => NativeFailure::Truncated,
            NativeError::TooManyHeaderNames => NativeFailure::TooManyHeaderNames,
            NativeError::TooManyHeaderValues => NativeFailure::TooManyHeaderValues,
            NativeError::NotUtf8(_) => NativeFailure::NotUtf8,
            NativeError::TooManyChunks => NativeFailure::TooManyChunks,
            NativeError::TrailingBytes => NativeFailure::TrailingBytes,
        }
    }

    /// The message the dispatcher reports for this failure.
    pub fn message(&self) -> (r: String)
        ensures
            match *self {
                NativeError::Truncated => r@ == "truncated native HTTP response"@,
                NativeError::TooManyHeaderNames => r@ == "native HTTP response contains too many header names"@,
                NativeError::TooManyHeaderValues => r@ == "native HTTP response header contains too many values"@,
                NativeError::NotUtf8(detail) => r@ == "native HTTP metadata is not UTF-8: "@ + detail@,
                NativeError::TooManyChunks => r@ == "native HTTP response contains too many chunks"@,
                NativeError::TrailingBytes => r@ == "native HTTP response contains trailing bytes"@,
            },
    {
        match self {
            NativeError::Truncated => String::from_str("truncated native HTTP response"),
            NativeError::TooManyHeaderNames => String::from_str(
                "native HTTP response contains too many header names",
            ),
            NativeError::TooManyHeaderValues => String::from_str(
                "native HTTP response header contains too many values",
            ),
            NativeError::NotUtf8(detail) => {
                let mut text = String::from_str("native HTTP metadata is not UTF-8: ");
                text.append(detail.as_str());
                text
            },
            NativeError::TooManyChunks => String::from_str(
                "native HTTP response contains too many chunks",
            ),
            NativeError::TrailingBytes => String::from_str(
                "native HTTP response contains trailing bytes",
            ),
        }
    }
}

/// One response header: a name and its values in order.
#[derive(Debug)]
pub struct NativeHeader {
    pub name: String,
    pub values: Vec<String>,
}

impl NativeHeader {
    pub open spec fn view_pair(self) -> (Seq<char>, Seq<Seq<char>>) {
        (self.name@, self.values@.map_values(|v: String| v@))
    }
}

/// A finished HTTP response handed back by PHP.
#[derive(Debug)]
pub struct PhpHttpResponse {
    pub status: u16,
    pub headers: Vec<NativeHeader>,
    pub body: Bytes,
    pub chunks: Vec<Bytes>,
}

/// A response as a specification sees it.
pub struct ResponseSpec {
    pub status: u16,
    pub headers: Seq<(Seq<char>, Seq<Seq<char>>)>,
    pub body: Seq<u8>,
    pub chunks: Seq<Seq<u8>>,
}

pub open spec fn headers_view(hs: Seq<NativeHeader>) -> Seq<(Seq<char>, Seq<Seq<char>>)> {
    hs.map_values(|h: NativeHeader| h.view_pair())
}

pub open spec fn chunks_view(cs: Seq<Bytes>) -> Seq<Seq<u8>> {
    cs.map_values(|c: Bytes| bytes_contents(c))
}

impl PhpHttpResponse {
    pub open spec fn spec(self) -> ResponseSpec {
        ResponseSpec {
            status: self.status,
            headers: headers_view(self.headers@),
            body: bytes_contents(self.body),
            chunks: chunks_view(self.chunks@),
        }
    }
}

/// Position of the header called `name`, or -1 when there is none.
pub open spec fn header_position(hs: Seq<(Seq<char>, Seq<Seq<char>>)>, name: Seq<char>) -> int
    decreases hs.len(),
{
    if hs.len() == 0 {
        -1
    } else if header_position(hs.drop_last(), name) >= 0 {
        header_position(hs.drop_last(), name)
    } else if hs.last().0 == name {
        hs.len() - 1
    } else {
        -1
    }
}

/// Header map insertion: a name already present keeps its place and takes
/// the new values; a new name goes last.
pub open spec fn insert_header(
    hs: Seq<(Seq<char>, Seq<Seq<char>>)>,
    name: Seq<char>,
    values: Seq<Seq<char>>,
) -> Seq<(Seq<char>, Seq<Seq<char>>)> {
    let p = header_position(hs, name);
    if p >= 0 {
        hs.update(p, (name, values))
    } else {
        hs.push((name, values))
    }
}

pub open spec fn be_u16(b: Seq<u8>) -> u16 {
    (b[0] as int * 256 + b[1] as int) as u16
}

pub open spec fn be_u32(b: Seq<u8>) -> u32 {
    (b[0] as int * 16777216 + b[1] as int * 65536 + b[2] as int * 256 + b[3] as int) as u32
}

pub open spec fn spec_take(s: Seq<u8>, n: int) -> Result<(Seq<u8>, Seq<u8>), NativeFailure> {
    if 0 <= n <= s.len() {
        Ok((s.take(n), s.skip(n)))
    } else {
        Err(NativeFailure::Truncated)
    }
}

pub open spec fn spec_u16(s: Seq<u8>) -> Result<(u16, Seq<u8>), NativeFailure> {
    match spec_take(s, 2) {
        Ok((b, r)) => Ok((be_u16(b), r)),
        Err(e) => Err(e),
    }
}

pub open spec fn spec_u32(s: Seq<u8>) -> Result<(u32, Seq<u8>), NativeFailure> {
    match spec_take(s, 4) {
        Ok((b, r)) => Ok((be_u32(b), r)),
        Err(e) => Err(e),
    }
}

pub open spec fn spec_text(s: Seq<u8>, n: int) -> Result<(Seq<char>, Seq<u8>), NativeFailure> {
    match spec_take(s, n) {
        Ok((b, r)) => if valid_utf8(b) {
            Ok((decode_utf8(b), r))
        } else {
            Err(NativeFailure::NotUtf8)
        },
        Err(e) => Err(e),
    }
}

/// `count` length-prefixed header values.
pub open spec fn spec_values(s: Seq<u8>, count: nat) -> Result<(Seq<Seq<char>>, Seq<u8>), NativeFailure>
    decreases count,
{
    if count == 0 {
        Ok((Seq::empty(), s))
    } else {
        match spec_values(s, (count - 1) as nat) {
            Ok((vs, r)) => match spec_u32(r) {
                Ok((len, r2)) => match spec_text(r2, len as int) {
                    Ok((t, r3)) => Ok((vs.push(t), r3)),
                    Err(e) => Err(e),
                },
                Err(e) => Err(e),
            },
            Err(e) => Err(e),
        }
    }
}

/// One header record: name, value count, values.
pub open spec fn spec_header(s: Seq<u8>) -> Result<(Seq<char>, Seq<Seq<char>>, Seq<u8>), NativeFailure> {
    match spec_u16(s) {
        Ok((name_len, r1)) => match spec_text(r1, name_len as int) {
            Ok((name, r2)) => match spec_u16(r2) {
                Ok((count, r3)) => if count > MAX_NATIVE_HEADER_VALUES {
                    Err(NativeFailure::TooManyHeaderValues)
                } else {
                    match spec_values(r3, count as nat) {
                        Ok((vs, r4)) => Ok((name, vs, r4)),
                        Err(e) => Err(e),
                    }
                },
                Err(e) => Err(e),
            },
            Err(e) => Err(e),
        },
        Err(e) => Err(e),
    }
}

/// `count` header records folded into a header map.
pub open spec fn spec_headers(s: Seq<u8>, count: nat) -> Result<(Seq<(Seq<char>, Seq<Seq<char>>)>, Seq<u8>), NativeFailure>
    decreases count,
{
    if count == 0 {
        Ok((Seq::empty(), s))
    } else {
        match spec_headers(s, (count - 1) as nat) {
            Ok((hs, r)) => match spec_header(r) {
                Ok((name, vs, r2)) => Ok((insert_header(hs, name, vs), r2)),
                Err(e) => Err(e),
            },
            Err(e) => Err(e),
        }
    }
}

/// `count` length-prefixed chunks.
pub open spec fn spec_chunks(s: Seq<u8>, count: nat) -> Result<(Seq<Seq<u8>>, Seq<u8>), NativeFailure>
    decreases count,
{
    if count == 0 {
        Ok((Seq::empty(), s))
    } else {
        match spec_chunks(s, (count - 1) as nat) {
            Ok((cs, r)) => match spec_u32(r) {
                Ok((len, r2)) => match spec_take(r2, len as int) {
                    Ok((c, r3)) => Ok((cs.push(c), r3)),
                    Err(e) => Err(e),
                },
                Err(e) => Err(e),
            },
            Err(e) => Err(e),
        }
    }
}

/// The tail of the record after the headers: body, chunk count, chunks,
/// and nothing more.
pub open spec fn spec_payload_tail(
    status: u16,
    hs: Seq<(Seq<char>, Seq<Seq<char>>)>,
    s: Seq<u8>,
) -> Result<ResponseSpec, NativeFailure> {
    match spec_u32(s) {
        Ok((body_len, r1)) => match spec_take(r1, body_len as int) {
            Ok((body, r2)) => match spec_u32(r2) {
                Ok((count, r3)) => if count > MAX_NATIVE_RESPONSE_CHUNKS {
                    Err(NativeFailure::TooManyChunks)
                } else {
                    match spec_chunks(r3, count as nat) {
                        Ok((cs, r4)) => if r4.len() == 0 {
                            Ok(ResponseSpec { status, headers: hs, body, chunks: cs })
                        } else {
                            Err(NativeFailure::TrailingBytes)
                        },
                        Err(e) => Err(e),
                    }
                },
                Err(e) => Err(e),
            },
            Err(e) => Err(e),
        },
        Err(e) => Err(e),
    }
}

/// The binary response record that follows the magic prefix.
pub open spec fn spec_binary_response(s: Seq<u8>) -> Result<ResponseSpec, NativeFailure> {
    match spec_u16(s) {
        Ok((status, r1)) => match spec_u16(r1) {
            Ok((count, r2)) => if count > MAX_NATIVE_HEADER_NAMES {
                Err(NativeFailure::TooManyHeaderNames)
            } else {
                match spec_headers(r2, count as nat) {
                    Ok((hs, r3)) => spec_payload_tail(status, hs, r3),
                    Err(e) => Err(e),
                }
            },
            Err(e) => Err(e),
        },
        Err(e) => Err(e),
    }
}

/// The prefix that marks a binary response: 0x89, "PAM", version 1.
pub open spec fn binary_magic() -> Seq<u8> {
    seq![0x89u8, 0x50u8, 0x41u8, 0x4du8, 1u8]
}

pub open spec fn has_binary_magic(s: Seq<u8>) -> bool {
    s.len() >= 5 && s.take(5) == binary_magic()
}

struct BinaryResponseCursor<'a> {
    remaining: &'a [u8],
}

impl<'a> BinaryResponseCursor<'a> {
    fn new(remaining: &'a [u8]) -> (c: Self)
        ensures
            c.remaining@ == remaining@,
    {
        Self { remaining }
    }

    fn take(&mut self, length: usize) -> (r: Result<&'a [u8], NativeError>)
        ensures
            match spec_take(old(self).remaining@, length as int) {
                Ok((v, rest)) => r matches Ok(b) && b@ == v && final(self).remaining@ == rest,
                Err(e) => r matches Err(err) && err.failure() == e,
            },
    {
        if length > self.remaining.len() {
            return Err(NativeError::Truncated);
        }
        let (value, remaining) = self.remaining.split_at(length);
        self.remaining = remaining;
        assert(value@ =~= old(self).remaining@.take(length as int));
        assert(remaining@ =~= old(self).remaining@.skip(length as int));
        Ok(value)
    }

    fn u16(&mut self) -> (r: Result<u16, NativeError>)
        ensures
            match spec_u16(old(self).remaining@) {
                Ok((v, rest)) => r == Ok::<u16, NativeError>(v) && final(self).remaining@ == rest,
                Err(e) => r matches Err(err) && err.failure() == e,
            },
    {
        let bytes = self.take(2)?;
        Ok((bytes[0] as u16) * 256 + (bytes[1] as u16))
    }

    fn u32(&mut self) -> (r: Result<u32, NativeError>)
        ensures
            match spec_u32(old(self).remaining@) {
                Ok((v, rest)) => r == Ok::<u32, NativeError>(v) && final(self).remaining@ == rest,
                Err(e) => r matches Err(err) && err.failure() == e,
            },
    {
        let bytes = self.take(4)?;
        Ok((bytes[0] as u32) * 16777216 + (bytes[1] as u32) * 65536 + (bytes[2] as u32) * 256
            + (bytes[3] as u32))
    }

    fn utf8(&mut self, length: usize) -> (r: Result<&'a str, NativeError>)
        ensures
            match spec_text(old(self).remaining@, length as int) {
                Ok((v, rest)) => r matches Ok(t) && t@ == v && final(self).remaining@ == rest,
                Err(e) => r matches Err(err) && err.failure() == e,
            },
            r matches Err(NativeError::NotUtf8(detail)) ==> detail@ == utf8_error_detail(old(self).remaining@.take(length as int)),
    {
        let bytes = self.take(length)?;
        match str_from_utf8(bytes) {
            Ok(text) => Ok(text),
            Err(error) => Err(NativeError::NotUtf8(error)),
        }
    }

    fn is_empty(&self) -> (b: bool)
        ensures
            b == (self.remaining@.len() == 0),
    {
        self.remaining.is_empty()
    }
}

/// Inserts a header into the list, replacing the values of a header that
/// already has this name.
fn insert_native_header(headers: &mut Vec<NativeHeader>, name: String, values: Vec<String>)
    ensures
        headers_view(final(headers)@) == insert_header(
            headers_view(old(headers)@),
            name@,
            values@.map_values(|v: String| v@),
        ),
{
    let ghost hs = headers_view(old(headers)@);
    let mut index: usize = 0;
    while index < headers.len()
        invariant
            headers_view(headers@) == hs,
            headers@ == old(headers)@,
            index <= headers.len(),
            forall|k: int| 0 <= k < index ==> #[trigger] hs[k].0 != name@,
        decreases headers.len() - index,
    {
        if headers[index].name == name {
            proof {
                lemma_header_position_first(hs, name@, index as int);
            }
            let ghost before = headers@;
            headers.set(index, NativeHeader { name, values });
            proof {
                assert(headers_view(headers@) =~= hs.update(
                    index as int,
                    (name@, values@.map_values(|v: String| v@)),
                ));
            }
            return;
        }
        index = index + 1;
    }
    proof {
        lemma_header_position_absent(hs, name@);
    }
    headers.push(NativeHeader { name, values });
    assert(headers_view(headers@) =~= hs.push((name@, values@.map_values(|v: String| v@))));
}

proof fn lemma_header_position_first(hs: Seq<(Seq<char>, Seq<Seq<char>>)>, name: Seq<char>, i: int)
    requires
        0 <= i < hs.len(),
        hs[i].0 == name,
        forall|k: int| 0 <= k < i ==> #[trigger] hs[k].0 != name,
    ensures
        header_position(hs, name) == i,
    decreases hs.len(),
{
    if i < hs.len() - 1 {
        lemma_header_position_first(hs.drop_last(), name, i);
    } else {
        lemma_header_position_absent(hs.drop_last(), name);
    }
}

proof fn lemma_header_position_absent(hs: Seq<(Seq<char>, Seq<Seq<char>>)>, name: Seq<char>)
    requires
        forall|k: int| 0 <= k < hs.len() ==> #[trigger] hs[k].0 != name,
    ensures
        header_position(hs, name) == -1,
    decreases hs.len(),
{
    if hs.len() > 0 {
        lemma_header_position_absent(hs.drop_last(), name);
    }
}

proof fn lemma_values_error_sticks(s: Seq<u8>, k: nat, n: nat)
    requires
        k <= n,
        spec_values(s, k) is Err,
    ensures
        spec_values(s, n) == spec_values(s, k),
    decreases n,
{
    if n > k {
        lemma_values_error_sticks(s, k, (n - 1) as nat);
    }
}

proof fn lemma_headers_error_sticks(s: Seq<u8>, k: nat, n: nat)
    requires
        k <= n,
        spec_headers(s, k) is Err,
    ensures
        spec_headers(s, n) == spec_headers(s, k),
    decreases n,
{
    if n > k {
        lemma_headers_error_sticks(s, k, (n - 1) as nat);
    }
}

proof fn lemma_chunks_error_sticks(s: Seq<u8>, k: nat, n: nat)
    requires
        k <= n,
        spec_chunks(s, k) is Err,
    ensures
        spec_chunks(s, n) == spec_chunks(s, k),
    decreases n,
{
    if n > k {
        lemma_chunks_error_sticks(s, k, (n - 1) as nat);
    }
}

#[verifier::loop_isolation(false)]
fn parse_header_values<'a>(cursor: &mut BinaryResponseCursor<'a>, count: u16) -> (r: Result<
    Vec<String>,
    NativeError,
>)
    ensures
        match spec_values(old(cursor).remaining@, count as nat) {
            Ok((vs, rest)) => r matches Ok(v) && v@.map_values(|x: String| x@) == vs
                && final(cursor).remaining@ == rest,
            Err(e) => r matches Err(err) && err.failure() == e,
        },
{
    let ghost start = cursor.remaining@;
    let mut values: Vec<String> = Vec::new();
    let mut i: u16 = 0;
    while i < count
        invariant
            i <= count,
            spec_values(start, i as nat) matches Ok((vs, rest)) && values@.map_values(
                |x: String| x@,
            ) == vs && cursor.remaining@ == rest,
        decreases count - i,
    {
        let ghost before = values@.map_values(|x: String| x@);
        let length = match cursor.u32() {
            Ok(v) => v,
            Err(e) => {
                proof {
                    assert(spec_values(start, (i + 1) as nat) == Err::<(Seq<Seq<char>>, Seq<u8>), NativeFailure>(e.failure()));
                    lemma_values_error_sticks(start, (i + 1) as nat, count as nat);
                }
                return Err(e);
            },
        };
        let text = match cursor.utf8(length as usize) {
            Ok(t) => t,
            Err(e) => {
                proof {
                    assert(spec_values(start, (i + 1) as nat) == Err::<(Seq<Seq<char>>, Seq<u8>), NativeFailure>(e.failure()));
                    lemma_values_error_sticks(start, (i + 1) as nat, count as nat);
                }
                return Err(e);
            },
        };
        values.push(text.to_owned());
        proof {
            assert(values@.map_values(|x: String| x@) =~= before.push(text@));
        }
        i = i + 1;
    }
    Ok(values)
}

fn parse_header<'a>(cursor: &mut BinaryResponseCursor<'a>) -> (r: Result<
    (String, Vec<String>),
    NativeError,
>)
    ensures
        match spec_header(old(cursor).remaining@) {
            Ok((name, vs, rest)) => r matches Ok((n, v)) && n@ == name && v@.map_values(
                |x: String| x@,
            ) == vs && final(cursor).remaining@ == rest,
            Err(e) => r matches Err(err) && err.failure() == e,
        },
{
    let name_length = cursor.u16()?;
    let name = cursor.utf8(name_length as usize)?.to_owned();
    let value_count = cursor.u16()?;
    if value_count > MAX_NATIVE_HEADER_VALUES {
        return Err(NativeError::TooManyHeaderValues);
    }
    let values = parse_header_values(cursor, value_count)?;
    Ok((name, values))
}

#[verifier::loop_isolation(false)]
fn parse_headers<'a>(cursor: &mut BinaryResponseCursor<'a>, count: u16) -> (r: Result<
    Vec<NativeHeader>,
    NativeError,
>)
    ensures
        match spec_headers(old(cursor).remaining@, count as nat) {
            Ok((hs, rest)) => r matches Ok(v) && headers_view(v@) == hs && final(cursor).remaining@
                == rest,
            Err(e) => r matches Err(err) && err.failure() == e,
        },
{
    let ghost start = cursor.remaining@;
    let mut headers: Vec<NativeHeader> = Vec::new();
    let mut h: u16 = 0;
    while h < count
        invariant
            h <= count,
            spec_headers(start, h as nat) matches Ok((hs, rest)) && headers_view(headers@) == hs
                && cursor.remaining@ == rest,
        decreases count - h,
    {
        let (name, values) = match parse_header(cursor) {
            Ok(v) => v,
            Err(e) => {
                proof {
                    lemma_headers_error_sticks(start, (h + 1) as nat, count as nat);
                }
                return Err(e);
            },
        };
        insert_native_header(&mut headers, name, values);
        h = h + 1;
    }
    Ok(headers)
}

#[verifier::loop_isolation(false)]
fn parse_chunks<'a>(cursor: &mut BinaryResponseCursor<'a>, count: u32) -> (r: Result<
    Vec<Bytes>,
    NativeError,
>)
    ensures
        match spec_chunks(old(cursor).remaining@, count as nat) {
            Ok((cs, rest)) => r matches Ok(v) && chunks_view(v@) == cs && final(cursor).remaining@
                == rest,
            Err(e) => r matches Err(err) && err.failure() == e,
        },
{
    let ghost start = cursor.remaining@;
    let mut chunks: Vec<Bytes> = Vec::new();
    let mut c: u32 = 0;
    while c < count
        invariant
            c <= count,
            spec_chunks(start, c as nat) matches Ok((cs, rest)) && chunks_view(chunks@) == cs
                && cursor.remaining@ == rest,
        decreases count - c,
    {
        let ghost before = chunks_view(chunks@);
        let length = match cursor.u32() {
            Ok(v) => v,
            Err(e) => {
                proof {
                    lemma_chunks_error_sticks(start, (c + 1) as nat, count as nat);
                }
                return Err(e);
            },
        };
        let chunk_bytes = match cursor.take(length as usize) {
            Ok(b) => b,
            Err(e) => {
                proof {
                    lemma_chunks_error_sticks(start, (c + 1) as nat, count as nat);
                }
                return Err(e);
            },
        };
        let chunk = bytes_copy_from_slice(chunk_bytes);
        chunks.push(chunk);
        proof {
            assert(chunks_view(chunks@) =~= before.push(bytes_contents(chunk)));
        }
        c = c + 1;
    }
    Ok(chunks)
}

/// Parses the binary record that follows the magic prefix.
pub fn parse_binary_http_response(payload: &[u8]) -> (r: Result<PhpHttpResponse, NativeError>)
    ensures
        match spec_binary_response(payload@) {
            Ok(spec) => r matches Ok(resp) && resp.spec() == spec,
            Err(e) => r matches Err(err) && err.failure() == e,
        },
{
    let mut cursor = BinaryResponseCursor::new(payload);
    let status = cursor.u16()?;
    let header_count = cursor.u16()?;
    if header_count > MAX_NATIVE_HEADER_NAMES {
        return Err(NativeError::TooManyHeaderNames);
    }
    let headers = parse_headers(&mut cursor, header_count)?;
    let body_length = cursor.u32()?;
    let body = bytes_copy_from_slice(cursor.take(body_length as usize)?);
    let chunk_count = cursor.u32()?;
    if chunk_count > MAX_NATIVE_RESPONSE_CHUNKS {
        return Err(NativeError::TooManyChunks);
    }
    let chunks = parse_chunks(&mut cursor, chunk_count)?;
    if !cursor.is_empty() {
        return Err(NativeError::TrailingBytes);
    }
    Ok(PhpHttpResponse { status, headers, body, chunks })
}

/// Whether the dispatcher finished the request or parked it on an
/// asynchronous operation.
#[derive(PartialEq, Eq, Structural, Clone, Copy, Debug)]
pub enum PhpDispatchState {
    Complete,
    Suspended,
}

impl PhpDispatchState {
    /// The state an integer code stands for: 1 complete, 2 suspended.
    pub fn from_code(value: u8) -> (r: Option<Self>)
        ensures
            r == (if value == 1 {
                Some(PhpDispatchState::Complete)
            } else if value == 2 {
                Some(PhpDispatchState::Suspended)
            } else {
                None
            }),
    {
        match value {
            1 => Some(PhpDispatchState::Complete),
            2 => Some(PhpDispatchState::Suspended),
            _ => None,
        }
    }
}

/// The asynchronous operation a suspended request waits on.
#[derive(PartialEq, Eq, Structural, Clone, Copy, Debug)]
pub enum PhpOperationKind {
    Timer,
    Stream,
    Dns,
    FileRead,
    FileWrite,
    Process,
    Signal,
    ResponseChunk,
}

impl PhpOperationKind {
    pub open spec fn code(self) -> u8 {
        match self {
            PhpOperationKind::Timer => 1,
            PhpOperationKind::Stream => 2,
            PhpOperationKind::Dns => 3,
            PhpOperationKind::FileRead => 4,
            PhpOperationKind::FileWrite => 5,
            PhpOperationKind::Process => 6,
            PhpOperationKind::Signal => 7,
            PhpOperationKind::ResponseChunk => 8,
        }
    }

    /// The kind an integer code from 1 to 8 stands for.
    pub fn from_code(value: u8) -> (r: Option<Self>)
        ensures
            r matches Some(k) ==> k.code() == value,
            r is None <==> !(1 <= value <= 8),
    {
        match value {
            1 => Some(PhpOperationKind::Timer),
            2 => Some(PhpOperationKind::Stream),
            3 => Some(PhpOperationKind::Dns),
            4 => Some(PhpOperationKind::FileRead),
            5 => Some(PhpOperationKind::FileWrite),
            6 => Some(PhpOperationKind::Process),
            7 => Some(PhpOperationKind::Signal),
            8 => Some(PhpOperationKind::ResponseChunk),
            _ => None,
        }
    }
}

/// Output limit of a native operation when the envelope names none: 8 MiB.
pub fn default_native_output_limit() -> (n: usize)
    ensures
        n == 8 * 1024 * 1024,
{
    8 * 1024 * 1024
}

/// A response as the JSON envelope carries it.
#[derive(Debug)]
pub struct JsonPhpHttpResponse {
    pub status: u16,
    pub headers: Vec<NativeHeader>,
    pub body: String,
    pub chunks: Vec<String>,
}

impl JsonPhpHttpResponse {
    /// The response with body and chunks held as raw bytes.
    pub fn into_php(self) -> (r: PhpHttpResponse)
        ensures
            r.status == self.status,
            headers_view(r.headers@) == headers_view(self.headers@),
            bytes_contents(r.body) == encode_utf8(self.body@),
            r.chunks@.len() == self.chunks@.len(),
            forall|i: int|
                0 <= i < r.chunks@.len() ==> bytes_contents(#[trigger] r.chunks@[i])
                    == encode_utf8(self.chunks@[i]@),
    {
        let JsonPhpHttpResponse { status, headers, body, chunks } = self;
        let mut converted: Vec<Bytes> = Vec::new();
        let mut i: usize = 0;
        while i < chunks.len()
            invariant
                i <= chunks@.len(),
                converted@.len() == i,
                forall|k: int|
                    0 <= k < i ==> bytes_contents(#[trigger] converted@[k]) == encode_utf8(
                        chunks@[k]@,
                    ),
            decreases chunks.len() - i,
        {
            let chunk = chunks[i].clone();
            converted.push(bytes_from_string(chunk));
            i = i + 1;
        }
        PhpHttpResponse { status, headers, body: bytes_from_string(body), chunks: converted }
    }
}

/// An asynchronous operation requested by a suspended request.
#[derive(Debug)]
pub struct PhpOperation {
    pub kind: PhpOperationKind,
    pub delay_micros: u64,
    pub read_file_descriptors: Vec<i32>,
    pub write_file_descriptors: Vec<i32>,
    pub host: Option<String>,
    pub path: Option<String>,
    pub data: Option<String>,
    pub atomic: bool,
    pub arguments: Vec<String>,
    pub stdin: Option<String>,
    pub max_output_bytes: usize,
    pub signal: Option<i32>,
    pub response: Option<JsonPhpHttpResponse>,
    pub chunk: Option<String>,
}

/// What one dispatch call handed back.
#[derive(Debug)]
pub struct PhpDispatchEnvelope {
    pub state: PhpDispatchState,
    pub response: Option<PhpHttpResponse>,
    pub operation: Option<PhpOperation>,
}

/// Returns the record after the binary magic prefix, or `None` when the
/// payload does not start with it.
pub fn strip_binary_magic(payload: &[u8]) -> (r: Option<&[u8]>)
    ensures
        has_binary_magic(payload@) ==> (r matches Some(rest) && rest@ == payload@.skip(5)),
        !has_binary_magic(payload@) ==> r is None,
{
    if payload.len() >= 5 && payload[0] == 0x89 && payload[1] == 0x50 && payload[2] == 0x41
        && payload[3] == 0x4d && payload[4] == 1 {
        assert(payload@.take(5) =~= binary_magic());
        let rest = &payload[5..payload.len()];
        Some(rest)
    } else {
        proof {
            if has_binary_magic(payload@) {
                assert(payload@.take(5)[0] == payload@[0]);
                assert(payload@.take(5)[1] == payload@[1]);
                assert(payload@.take(5)[2] == payload@[2]);
                assert(payload@.take(5)[3] == payload@[3]);
                assert(payload@.take(5)[4] == payload@[4]);
            }
        }
        None
    }
}

/// Decodes a dispatch payload in the binary framing: a complete response
/// with no operation. `Ok(None)` means the payload is not in the binary
/// framing and is a JSON envelope instead.
pub fn parse_dispatch_envelope(payload: &[u8]) -> (r: Result<Option<PhpDispatchEnvelope>, NativeError>)
    ensures
        !has_binary_magic(payload@) ==> r matches Ok(None),
        has_binary_magic(payload@) ==> match spec_binary_response(payload@.skip(5)) {
            Ok(spec) => r matches Ok(Some(env)) && env.state == PhpDispatchState::Complete
                && env.operation is None && (env.response matches Some(resp) && resp.spec() == spec),
            Err(e) => r matches Err(err) && err.failure() == e,
        },
{
    match strip_binary_magic(payload) {
        Some(response) => {
            let response = parse_binary_http_response(response)?;
            Ok(
                Some(
                    PhpDispatchEnvelope {
                        state: PhpDispatchState::Complete,
                        response: Some(response),
                        operation: None,
                    },
                ),
            )
        },
        None => Ok(None),
    }
}

} // verus!
