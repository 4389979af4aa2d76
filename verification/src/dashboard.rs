//! Requests to the manager's live dashboard: when a request's headers are
//! complete, who may see the dashboard, and what each request is answered.

use vstd::prelude::*;
use vstd::utf8::*;
use base64::Engine;
use crate::text::{chars_of, string_of, str_eq, concat_str, push_decimal_text, decimal_text, words, word_at,
    is_whitespace, char_is_whitespace, first_char, lemma_first_char};
use crate::mobile::starts_with_chars;
use crate::protocol::str_from_utf8;
use crate::plugin_registry::{sha256, sha256_digest};

verus! {

/// The most header bytes a dashboard request may carry.
pub const MAX_DASHBOARD_REQUEST_BYTES: usize = 16384;

/// Where reading a request stands after some bytes arrived.
#[derive(Clone, Copy, Debug, PartialEq, Eq, Structural)]
pub enum ReadProgress {
    /// The headers have not ended yet: read more.
    Incomplete,
    /// The headers ended with an empty line.
    Complete,
    /// More than 16 KiB arrived: the request is refused.
    TooLarge,
}

/// The bytes hold an empty line: CR LF CR LF.
pub open spec fn has_blank_line(b: Seq<u8>) -> bool {
    exists|i: int| 0 <= i && i + 4 <= b.len() && #[trigger] b[i] == 13 && b[i + 1] == 10 && b[i + 2] == 13 && b[i + 3] == 10
}

/// Decides, after a read, whether the request is too large, complete, or
/// needs more bytes.
pub fn after_read(request: &[u8]) -> (r: ReadProgress)
    ensures
        r == (if request@.len() > MAX_DASHBOARD_REQUEST_BYTES {
            ReadProgress::TooLarge
        } else if has_blank_line(request@) {
            ReadProgress::Complete
        } else {
            ReadProgress::Incomplete
        }),
{
    let n = request.len();
    if n > MAX_DASHBOARD_REQUEST_BYTES {
        return ReadProgress::TooLarge;
    }
    let mut i: usize = 0;
    while i + 4 <= n
        invariant
            n == request@.len(),
            n <= MAX_DASHBOARD_REQUEST_BYTES,
            i <= n,
            forall|k: int| 0 <= k < i && k + 4 <= n ==> !(#[trigger] request@[k] == 13 && request@[k + 1] == 10
                && request@[k + 2] == 13 && request@[k + 3] == 10),
        decreases n - i,
    {
        if request[i] == 13 && request[i + 1] == 10 && request[i + 2] == 13 && request[i + 3] == 10 {
            assert(request@[i as int] == 13 && request@[i + 1] == 10 && request@[i + 2] == 13 && request@[i + 3] == 10);
            return ReadProgress::Complete;
        }
        i = i + 1;
    }
    ReadProgress::Incomplete
}

/// The answer to a dashboard request.
#[derive(Clone, Copy, Debug, PartialEq, Eq, Structural)]
pub enum DashboardReply {
    /// 400: the request line is not `METHOD TARGET HTTP/1.1`.
    BadRequest,
    /// 401: no valid credential was offered.
    Unauthorized,
    /// 405: only GET is served.
    MethodNotAllowed,
    /// 200: the dashboard page.
    Page,
    /// 200: the health document.
    Health,
    /// 404: any other target.
    NotFound,
}

/// `base64::engine::general_purpose::STANDARD.decode`: the bytes that a
/// standard-alphabet, padded base64 text decodes to, if it is valid.
pub uninterp spec fn base64_standard_decoded(text: Seq<u8>) -> Option<Seq<u8>>;

/// Decodes standard base64 with `base64::engine::general_purpose::STANDARD`;
/// the result is the named decoding of the text's bytes.
#[verifier::external_body]
fn base64_decode(text: &str) -> (r: Option<Vec<u8>>)
    ensures
        r is Some == base64_standard_decoded(encode_utf8(text@)) is Some,
        r matches Some(v) ==> v@ == base64_standard_decoded(encode_utf8(text@))->0,
{
    base64::engine::general_purpose::STANDARD.decode(text).ok()
}

/// `p` begins `h`.
pub open spec fn has_prefix(h: Seq<char>, p: Seq<char>) -> bool {
    p.len() <= h.len() && h.take(p.len() as int) == p
}

/// The credential an `Authorization` value carries: a Bearer token as it is,
/// or the password of HTTP Basic user `pam`.
pub open spec fn dashboard_credential(h: Seq<char>) -> Option<Seq<char>> {
    if has_prefix(h, "Bearer "@) {
        Some(h.skip("Bearer "@.len() as int))
    } else if has_prefix(h, "Basic "@) {
        match base64_standard_decoded(encode_utf8(h.skip("Basic "@.len() as int))) {
            None => None,
            Some(bytes) => if valid_utf8(bytes) && has_prefix(decode_utf8(bytes), "pam:"@) {
                Some(decode_utf8(bytes).skip("pam:"@.len() as int))
            } else {
                None
            },
        }
    } else {
        None
    }
}

/// Reads the credential of an `Authorization` header value.
pub fn live_dashboard_credential(header: &str) -> (r: Option<String>)
    ensures
        match (r, dashboard_credential(header@)) {
            (Some(c), Some(d)) => c@ == d,
            (None, None) => true,
            _ => false,
        },
{
    let chars = chars_of(header);
    let bearer = chars_of("Bearer ");
    if starts_with_chars(&chars, &bearer) {
        return Some(string_of(&chars, bearer.len(), chars.len()));
    }
    let basic = chars_of("Basic ");
    if !starts_with_chars(&chars, &basic) {
        return None;
    }
    let encoded = string_of(&chars, basic.len(), chars.len());
    let bytes = match base64_decode(encoded.as_str()) {
        Some(bytes) => bytes,
        None => {
            return None;
        },
    };
    let text = match str_from_utf8(bytes.as_slice()) {
        Ok(text) => text,
        Err(_) => {
            return None;
        },
    };
    let decoded = chars_of(text);
    let user = chars_of("pam:");
    if starts_with_chars(&decoded, &user) {
        Some(string_of(&decoded, user.len(), decoded.len()))
    } else {
        None
    }
}

/// The position of the first CR LF at or after `i`, or the end.
pub open spec fn crlf_from(s: Seq<char>, i: int) -> int
    decreases s.len() - i,
{
    if i < 0 || i + 1 >= s.len() {
        s.len() as int
    } else if s[i] == '\r' && s[i + 1] == '\n' {
        i
    } else {
        crlf_from(s, i + 1)
    }
}

pub proof fn lemma_crlf_from_bounds(s: Seq<char>, i: int)
    requires
        0 <= i,
    ensures
        i <= crlf_from(s, i) || crlf_from(s, i) == s.len(),
        crlf_from(s, i) <= s.len(),
        crlf_from(s, i) < s.len() ==> crlf_from(s, i) + 1 < s.len(),
    decreases s.len() - i,
{
    if i + 1 < s.len() && !(s[i] == '\r' && s[i + 1] == '\n') {
        lemma_crlf_from_bounds(s, i + 1);
    }
}

fn find_crlf(chars: &Vec<char>, i: usize) -> (e: usize)
    requires
        i <= chars@.len(),
    ensures
        e == crlf_from(chars@, i as int),
{
    let n = chars.len();
    let mut j = i;
    while j < n && j + 1 < n && !(chars[j] == '\r' && chars[j + 1] == '\n')
        invariant
            n == chars@.len(),
            i <= j,
            j <= n,
            crlf_from(chars@, i as int) == crlf_from(chars@, j as int),
        decreases n - j,
    {
        j = j + 1;
    }
    if j < n && j + 1 < n {
        j
    } else {
        n
    }
}

/// A header line split at its first `:` into name and value.
pub open spec fn header_split(line: Seq<char>) -> Option<(Seq<char>, Seq<char>)> {
    let k = first_char(line, ':');
    if k < line.len() {
        Some((line.take(k), line.skip(k + 1)))
    } else {
        None
    }
}

/// ASCII lowercase of a character; others stay as they are.
pub open spec fn ascii_lowercase(c: char) -> char {
    if 'A' <= c <= 'Z' {
        ((c as u8) + 32) as char
    } else {
        c
    }
}

/// The header name is `Authorization`, in any ASCII case.
pub open spec fn is_authorization_name(name: Seq<char>) -> bool {
    let a = "authorization"@;
    name.len() == a.len() && forall|i: int| 0 <= i < a.len() ==> #[trigger] ascii_lowercase(name[i]) == a[i]
}

/// The value of the first header line, from position `i` on, that is an
/// `Authorization` header.
pub open spec fn authorization_from(s: Seq<char>, i: int) -> Option<Seq<char>>
    decreases s.len() - i,
{
    if i < 0 || i > s.len() {
        None
    } else {
        let e = crlf_from(s, i);
        let line = s.subrange(i, if e < i { i } else { e });
        let named = match header_split(line) {
            Some(parts) => is_authorization_name(parts.0),
            None => false,
        };
        if named {
            Some(header_split(line)->Some_0.1)
        } else if e >= s.len() || e < i {
            None
        } else {
            proof {
                lemma_crlf_from_bounds(s, i);
            }
            authorization_from(s, e + 2)
        }
    }
}

/// Leading whitespace characters.
pub open spec fn leading_space(v: Seq<char>) -> int
    decreases v.len(),
{
    if v.len() > 0 && is_whitespace(v[0]) {
        1 + leading_space(v.drop_first())
    } else {
        0
    }
}

/// Trailing whitespace characters.
pub open spec fn trailing_space(v: Seq<char>) -> int
    decreases v.len(),
{
    if v.len() > 0 && is_whitespace(v.last()) {
        1 + trailing_space(v.drop_last())
    } else {
        0
    }
}

/// The text without leading and trailing whitespace, as `str::trim` gives it.
pub open spec fn trimmed(v: Seq<char>) -> Seq<char> {
    if leading_space(v) >= v.len() {
        Seq::empty()
    } else {
        v.subrange(leading_space(v), v.len() - trailing_space(v))
    }
}

proof fn lemma_leading_space(v: Seq<char>, k: int)
    requires
        0 <= k <= v.len(),
        forall|j: int| 0 <= j < k ==> is_whitespace(#[trigger] v[j]),
        k == v.len() || !is_whitespace(v[k]),
    ensures
        leading_space(v) == k,
    decreases k,
{
    if k > 0 {
        assert forall|j: int| 0 <= j < k - 1 implies is_whitespace(#[trigger] v.drop_first()[j]) by {
            assert(v.drop_first()[j] == v[j + 1]);
        }
        if k < v.len() {
            assert(v.drop_first()[k - 1] == v[k]);
        }
        lemma_leading_space(v.drop_first(), k - 1);
    }
}

proof fn lemma_trailing_space(v: Seq<char>, k: int)
    requires
        0 <= k <= v.len(),
        forall|j: int| v.len() - k <= j < v.len() ==> is_whitespace(#[trigger] v[j]),
        k == v.len() || !is_whitespace(v[v.len() - k - 1]),
    ensures
        trailing_space(v) == k,
    decreases k,
{
    if k > 0 {
        assert forall|j: int| v.drop_last().len() - (k - 1) <= j < v.drop_last().len() implies is_whitespace(
            #[trigger] v.drop_last()[j],
        ) by {
            assert(v.drop_last()[j] == v[j]);
        }
        if k < v.len() {
            assert(v.drop_last()[v.drop_last().len() - (k - 1) - 1] == v[v.len() - k - 1]);
        }
        lemma_trailing_space(v.drop_last(), k - 1);
    }
}

/// The characters `from..to` without leading and trailing whitespace.
pub(crate) fn trim_range(chars: &Vec<char>, from: usize, to: usize) -> (r: String)
    requires
        from <= to <= chars@.len(),
    ensures
        r@ == trimmed(chars@.subrange(from as int, to as int)),
{
    let ghost v = chars@.subrange(from as int, to as int);
    let mut a = from;
    while a < to && char_is_whitespace(chars[a])
        invariant
            from <= a <= to <= chars@.len(),
            v == chars@.subrange(from as int, to as int),
            forall|j: int| 0 <= j < a - from ==> is_whitespace(#[trigger] v[j]),
        decreases to - a,
    {
        a = a + 1;
    }
    proof {
        lemma_leading_space(v, a - from);
    }
    if a == to {
        return String::new();
    }
    let mut b = to;
    while b > a && char_is_whitespace(chars[b - 1])
        invariant
            from <= a < to,
            a <= b <= to <= chars@.len(),
            v == chars@.subrange(from as int, to as int),
            forall|j: int| b - from <= j < v.len() ==> is_whitespace(#[trigger] v[j]),
            !is_whitespace(v[a - from]),
        decreases b - a,
    {
        b = b - 1;
    }
    proof {
        lemma_trailing_space(v, to - b);
    }
    let r = string_of(chars, a, b);
    assert(r@ =~= trimmed(v));
    r
}

/// `line[i..e]` names the `Authorization` header, in any ASCII case.
fn authorization_name(chars: &Vec<char>, from: usize, to: usize) -> (r: bool)
    requires
        from <= to <= chars@.len(),
    ensures
        r == is_authorization_name(chars@.subrange(from as int, to as int)),
{
    let expected = chars_of("authorization");
    if to - from != expected.len() {
        return false;
    }
    let ghost name = chars@.subrange(from as int, to as int);
    let mut i: usize = 0;
    while i < expected.len()
        invariant
            expected@ == "authorization"@,
            name == chars@.subrange(from as int, to as int),
            to - from == expected@.len(),
            from <= to <= chars@.len(),
            i <= expected@.len(),
            forall|k: int| 0 <= k < i ==> #[trigger] ascii_lowercase(name[k]) == expected@[k],
        decreases expected.len() - i,
    {
        let c = chars[from + i];
        let lower = if 'A' <= c && c <= 'Z' {
            ((c as u8) + 32) as char
        } else {
            c
        };
        assert(name[i as int] == c);
        assert(lower == ascii_lowercase(c));
        if lower != expected[i] {
            return false;
        }
        i = i + 1;
    }
    true
}

/// Finds the value of the first `Authorization` header from position `from` on.
fn find_authorization(chars: &Vec<char>, from: usize) -> (r: Option<String>)
    requires
        from <= chars@.len(),
    ensures
        match (r, authorization_from(chars@, from as int)) {
            (Some(v), Some(w)) => v@ == trimmed(w),
            (None, None) => true,
            _ => false,
        },
{
    let n = chars.len();
    let mut i = from;
    while i <= n
        invariant
            n == chars@.len(),
            from <= i,
            authorization_from(chars@, from as int) == authorization_from(chars@, i as int),
        decreases n + 1 - i,
    {
        let e = find_crlf(chars, i);
        proof {
            lemma_crlf_from_bounds(chars@, i as int);
        }
        let end = if e < i { i } else { e };
        let ghost line = chars@.subrange(i as int, end as int);
        let mut k = i;
        while k < end && chars[k] != ':'
            invariant
                n == chars@.len(),
                i <= k <= end <= n,
                line == chars@.subrange(i as int, end as int),
                forall|j: int| 0 <= j < k - i ==> line[j] != ':',
            decreases end - k,
        {
            k = k + 1;
        }
        proof {
            lemma_first_char(line, ':', k - i);
        }
        if k < end {
            proof {
                assert(line.take(k - i) =~= chars@.subrange(i as int, k as int));
                assert(line.skip(k - i + 1) =~= chars@.subrange(k + 1, end as int));
            }
            if authorization_name(chars, i, k) {
                return Some(trim_range(chars, k + 1, end));
            }
        }
        if e >= n {
            return None;
        }
        i = e + 2;
    }
    None
}

/// `expected` and `supplied` hold the same 32 bytes; the comparison looks at
/// every byte whatever they hold.
fn same_digest(expected: &[u8; 32], supplied: &Vec<u8>) -> (r: bool)
    requires
        supplied@.len() == 32,
    ensures
        r == (expected@ == supplied@),
{
    let mut difference: u8 = 0;
    let mut i: usize = 0;
    while i < 32
        invariant
            i <= 32,
            supplied@.len() == 32,
            expected@.len() == 32,
            (difference == 0) == (forall|k: int| 0 <= k < i ==> expected@[k] == supplied@[k]),
        decreases 32 - i,
    {
        let left = expected[i];
        let right = supplied[i];
        let d = difference;
        assert((d | (left ^ right)) == 0u8 <==> (d == 0u8 && left == right)) by (bit_vector);
        difference = difference | (left ^ right);
        i = i + 1;
    }
    assert(expected@ =~= supplied@ <==> forall|k: int| 0 <= k < 32 ==> expected@[k] == supplied@[k]);
    difference == 0
}

/// The words of the request line: method, target, version; missing ones are empty.
pub open spec fn request_word(line: Seq<char>, i: int) -> Seq<char> {
    if i < words(line).len() {
        words(line)[i]
    } else {
        Seq::empty()
    }
}

/// The credential the request carries matches the dashboard token's digest.
pub open spec fn request_authorized(s: Seq<char>, expected: Seq<u8>) -> bool {
    let e = crlf_from(s, 0);
    e < s.len() && authorization_from(s, e + 2) is Some && dashboard_credential(trimmed(authorization_from(s, e + 2)->0))
        is Some && sha256_digest(encode_utf8(dashboard_credential(trimmed(authorization_from(s, e + 2)->0))->0)) == expected
}

/// The answer to a request whose headers are `s`, for a dashboard whose token
/// has the SHA-256 digest `expected`.
pub open spec fn dashboard_reply(s: Seq<char>, expected: Seq<u8>) -> DashboardReply {
    let line = s.subrange(0, crlf_from(s, 0));
    if words(line).len() > 3 || request_word(line, 2) != "HTTP/1.1"@ {
        DashboardReply::BadRequest
    } else if !request_authorized(s, expected) {
        DashboardReply::Unauthorized
    } else if request_word(line, 0) != "GET"@ {
        DashboardReply::MethodNotAllowed
    } else if request_word(line, 1) == "/"@ {
        DashboardReply::Page
    } else if request_word(line, 1) == "/health"@ {
        DashboardReply::Health
    } else {
        DashboardReply::NotFound
    }
}

fn word_text(chars: &Vec<char>, to: usize, index: usize) -> (r: String)
    requires
        to <= chars@.len(),
    ensures
        r@ == request_word(chars@.subrange(0, to as int), index as int),
{
    match word_at(chars, 0, to, index) {
        Some((a, b)) => string_of(chars, a, b),
        None => String::new(),
    }
}

/// Decides the answer to a dashboard request from its header text.
pub fn route_dashboard_request(request: &str, expected: &[u8; 32]) -> (r: DashboardReply)
    ensures
        r == dashboard_reply(request@, expected@),
{
    let chars = chars_of(request);
    let n = chars.len();
    let e = find_crlf(&chars, 0);
    proof {
        lemma_crlf_from_bounds(chars@, 0);
    }
    let method = word_text(&chars, e, 0);
    let target = word_text(&chars, e, 1);
    let version = word_text(&chars, e, 2);
    let extra = word_at(&chars, 0, e, 3);
    if extra.is_some() || !str_eq(version.as_str(), "HTTP/1.1") {
        return DashboardReply::BadRequest;
    }
    let authorized = if e < n {
        match find_authorization(&chars, e + 2) {
            None => false,
            Some(value) => match live_dashboard_credential(value.as_str()) {
                None => false,
                Some(credential) => {
                    let digest = sha256(credential.as_str().as_bytes());
                    same_digest(expected, &digest)
                },
            },
        }
    } else {
        false
    };
    if !authorized {
        return DashboardReply::Unauthorized;
    }
    if !str_eq(method.as_str(), "GET") {
        return DashboardReply::MethodNotAllowed;
    }
    if str_eq(target.as_str(), "/") {
        DashboardReply::Page
    } else if str_eq(target.as_str(), "/health") {
        DashboardReply::Health
    } else {
        DashboardReply::NotFound
    }
}

/// The headers every dashboard response carries after its length.
pub open spec fn fixed_headers() -> Seq<char> {
    "\r\nConnection: close\r\nCache-Control: no-store\r\nPragma: no-cache\r\nX-Content-Type-Options: nosniff\r\nX-Frame-Options: DENY\r\nReferrer-Policy: no-referrer\r\nContent-Security-Policy: default-src 'none'; style-src 'unsafe-inline'; base-uri 'none'; frame-ancestors 'none'; form-action 'none'\r\n"@
}

/// Header lines, each ended by CR LF.
pub open spec fn header_lines(extra: Seq<Seq<char>>) -> Seq<char>
    decreases extra.len(),
{
    if extra.len() == 0 {
        Seq::empty()
    } else {
        header_lines(extra.drop_last()) + extra.last() + "\r\n"@
    }
}

/// The status line and headers of a dashboard response, up to the empty line.
pub open spec fn response_head(status: Seq<char>, content_type: Seq<char>, body_len: nat, extra: Seq<Seq<char>>) -> Seq<char> {
    "HTTP/1.1 "@ + status + "\r\nContent-Type: "@ + content_type + "\r\nContent-Length: "@ + decimal_text(body_len)
        + fixed_headers() + header_lines(extra) + "\r\n"@
}

/// Writes the status line and headers of a dashboard response.
pub fn http_response_head(status: &str, content_type: &str, body_len: usize, extra: &Vec<&str>) -> (r: String)
    ensures
        r@ == response_head(status@, content_type@, body_len as nat, extra@.map_values(|h: &str| h@)),
{
    let mut out = concat_str("HTTP/1.1 ", status);
    out.append("\r\nContent-Type: ");
    out.append(content_type);
    out.append("\r\nContent-Length: ");
    push_decimal_text(&mut out, body_len as u64);
    out.append("\r\nConnection: close\r\nCache-Control: no-store\r\nPragma: no-cache\r\nX-Content-Type-Options: nosniff\r\nX-Frame-Options: DENY\r\nReferrer-Policy: no-referrer\r\nContent-Security-Policy: default-src 'none'; style-src 'unsafe-inline'; base-uri 'none'; frame-ancestors 'none'; form-action 'none'\r\n");
    let ghost start = out@;
    let mut i: usize = 0;
    while i < extra.len()
        invariant
            i <= extra@.len(),
            out@ == start + header_lines(extra@.map_values(|h: &str| h@).take(i as int)),
        decreases extra.len() - i,
    {
        out.append(extra[i]);
        out.append("\r\n");
        proof {
            let hs = extra@.map_values(|h: &str| h@);
            assert(hs.take(i + 1).drop_last() =~= hs.take(i as int));
            assert(hs.take(i + 1).last() == extra@[i as int]@);
            assert(out@ =~= start + header_lines(hs.take(i + 1)));
        }
        i = i + 1;
    }
    out.append("\r\n");
    proof {
        let hs = extra@.map_values(|h: &str| h@);
        assert(hs.take(i as int) =~= hs);
        assert(out@ =~= response_head(status@, content_type@, body_len as nat, hs));
    }
    out
}

impl DashboardReply {
    /// The status line's code and reason.
    pub fn status(self) -> (r: &'static str)
        ensures
            r@ == match self {
                DashboardReply::BadRequest => "400 Bad Request"@,
                DashboardReply::Unauthorized => "401 Unauthorized"@,
                DashboardReply::MethodNotAllowed => "405 Method Not Allowed"@,
                DashboardReply::NotFound => "404 Not Found"@,
                _ => "200 OK"@,
            },
    {
        match self {
            DashboardReply::BadRequest => "400 Bad Request",
            DashboardReply::Unauthorized => "401 Unauthorized",
            DashboardReply::MethodNotAllowed => "405 Method Not Allowed",
            DashboardReply::NotFound => "404 Not Found",
            _ => "200 OK",
        }
    }

    /// The content type of the body.
    pub fn content_type(self) -> (r: &'static str)
        ensures
            r@ == match self {
                DashboardReply::Page => "text/html; charset=utf-8"@,
                DashboardReply::Health => "application/json; charset=utf-8"@,
                _ => "text/plain; charset=utf-8"@,
            },
    {
        match self {
            DashboardReply::Page => "text/html; charset=utf-8",
            DashboardReply::Health => "application/json; charset=utf-8",
            _ => "text/plain; charset=utf-8",
        }
    }

    /// The fixed body of the answer; the page is rendered apart.
    pub fn body(self) -> (r: &'static str)
        ensures
            r@ == match self {
                DashboardReply::BadRequest => "Malformed HTTP request.\n"@,
                DashboardReply::Unauthorized => "Authentication required. Use HTTP Basic user pam with the dashboard token as password, or a Bearer token.\n"@,
                DashboardReply::MethodNotAllowed => "Only GET is supported.\n"@,
                DashboardReply::NotFound => "Not found.\n"@,
                DashboardReply::Health => "{\"schemaVersion\":1,\"stateCode\":1,\"healthy\":true}"@,
                DashboardReply::Page => ""@,
            },
    {
        match self {
            DashboardReply::BadRequest => "Malformed HTTP request.\n",
            DashboardReply::Unauthorized => "Authentication required. Use HTTP Basic user pam with the dashboard token as password, or a Bearer token.\n",
            DashboardReply::MethodNotAllowed => "Only GET is supported.\n",
            DashboardReply::NotFound => "Not found.\n",
            DashboardReply::Health => "{\"schemaVersion\":1,\"stateCode\":1,\"healthy\":true}",
            DashboardReply::Page => "",
        }
    }

    /// The header the answer adds, if any.
    pub fn extra_header(self) -> (r: Option<&'static str>)
        ensures
            match self {
                DashboardReply::Unauthorized => r matches Some(h) && h@ == "WWW-Authenticate: Basic realm=\"PAM manager\", charset=\"UTF-8\""@,
                DashboardReply::MethodNotAllowed => r matches Some(h) && h@ == "Allow: GET"@,
                _ => r is None,
            },
    {
        match self {
            DashboardReply::Unauthorized => Some("WWW-Authenticate: Basic realm=\"PAM manager\", charset=\"UTF-8\""),
            DashboardReply::MethodNotAllowed => Some("Allow: GET"),
            _ => None,
        }
    }
}

/// The answer to a request whose headers exceed 16 KiB: status, body.
pub fn too_large_reply() -> (r: (&'static str, &'static str))
    ensures
        r.0@ == "431 Request Header Fields Too Large"@,
        r.1@ == "Request headers exceed 16 KiB.\n"@,
{
    ("431 Request Header Fields Too Large", "Request headers exceed 16 KiB.\n")
}

} // verus!
