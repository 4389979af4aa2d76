//! The hot reload bundle `pam mobile dev` serves to a device: its binary
//! layout, its version, and how the small HTTP server answers requests.

use vstd::prelude::*;
use vstd::utf8::encode_utf8;
use crate::text::{chars_of, words, word_at, push_decimal_text, decimal_text};
use crate::plugin_registry::{sha256, sha256_digest};
use crate::hexutil::{encode_hex, hex_encoded, text_less, str_less, lemma_text_less_strict_total};
use crate::protocol::str_from_utf8;

verus! {

/// The largest hot reload bundle: 16 MiB.
pub const MAX_DEV_BUNDLE_BYTES: usize = 16_777_216;

/// Two bytes of `n`, least significant first.
pub open spec fn le16(n: int) -> Seq<u8> {
    seq![(n % 256) as u8, ((n / 256) % 256) as u8]
}

/// Four bytes of `n`, least significant first.
pub open spec fn le32(n: int) -> Seq<u8> {
    seq![(n % 256) as u8, ((n / 256) % 256) as u8, ((n / 65536) % 256) as u8, ((n / 16777216) % 256) as u8]
}

/// A relative path with `\` written as `/`.
pub open spec fn forward_slashes(p: Seq<char>) -> Seq<char> {
    p.map_values(|c: char| if c == '\\' { '/' } else { c })
}

/// The encoding of files `0..n`: for each, the path's length (two bytes),
/// the path, the contents' length (four bytes) and the contents.
pub open spec fn encoded_files(files: Seq<(Seq<char>, Seq<u8>)>, n: int) -> Seq<u8>
    decreases n,
{
    if n <= 0 {
        Seq::empty()
    } else {
        let path = encode_utf8(forward_slashes(files[n - 1].0));
        encoded_files(files, n - 1) + le16(path.len() as int) + path + le32(files[n - 1].1.len() as int)
            + files[n - 1].1
    }
}

/// The first refusal among files `0..n`: a read failure, a path longer than
/// 65535 bytes, or contents longer than 4294967295 bytes.
pub open spec fn files_error(files: Seq<(Seq<char>, Result<Seq<u8>, Seq<char>>)>, n: int) -> Option<Seq<char>>
    decreases n,
{
    if n <= 0 {
        None
    } else if files_error(files, n - 1) is Some {
        files_error(files, n - 1)
    } else {
        match files[n - 1].1 {
            Err(e) => Some(e),
            Ok(contents) => if encode_utf8(forward_slashes(files[n - 1].0)).len() > 65535 {
                Some("hot reload path is too long"@)
            } else if contents.len() > 4294967295 {
                Some("hot reload file is too large"@)
            } else {
                None
            },
        }
    }
}

/// The files with their contents, once every read succeeded.
pub open spec fn read_files(files: Seq<(Seq<char>, Result<Seq<u8>, Seq<char>>)>) -> Seq<(Seq<char>, Seq<u8>)> {
    files.map_values(|f: (Seq<char>, Result<Seq<u8>, Seq<char>>)| (f.0, f.1->Ok_0))
}

/// The view of the files handed to the encoder.
pub open spec fn files_view(files: Seq<(String, Result<Vec<u8>, String>)>) -> Seq<
    (Seq<char>, Result<Seq<u8>, Seq<char>>),
> {
    files.map_values(
        |f: (String, Result<Vec<u8>, String>)|
            (
                f.0@,
                match f.1 {
                    Ok(b) => Ok(b@),
                    Err(e) => Err(e@),
                },
            ),
    )
}

/// The bundle of some files: `PNA1`, the number of files (four bytes), then
/// each file's entry.
pub open spec fn bundle_of(files: Seq<(Seq<char>, Seq<u8>)>) -> Seq<u8> {
    seq![80u8, 78u8, 65u8, 49u8] + le32(files.len() as int) + encoded_files(files, files.len() as int)
}

fn push_le16(out: &mut Vec<u8>, n: u16)
    ensures
        final(out)@ == old(out)@ + le16(n as int),
{
    out.push((n % 256) as u8);
    out.push((n / 256) as u8);
    assert(final(out)@ =~= old(out)@ + le16(n as int));
}

fn push_le32(out: &mut Vec<u8>, n: u32)
    ensures
        final(out)@ == old(out)@ + le32(n as int),
{
    out.push((n % 256) as u8);
    out.push(((n / 256) % 256) as u8);
    out.push(((n / 65536) % 256) as u8);
    out.push((n / 16777216) as u8);
    assert(final(out)@ =~= old(out)@ + le32(n as int));
}

fn slashed(path: &str) -> (r: String)
    ensures
        r@ == forward_slashes(path@),
{
    let chars = chars_of(path);
    let mut text = String::new();
    let mut i: usize = 0;
    while i < chars.len()
        invariant
            chars@ == path@,
            i <= chars@.len(),
            text@ == forward_slashes(path@.take(i as int)),
        decreases chars.len() - i,
    {
        let c = chars[i];
        let d = if c == '\\' {
            '/'
        } else {
            c
        };
        crate::text::push_char(&mut text, d);
        proof {
            assert(forward_slashes(path@.take(i + 1)) =~= forward_slashes(path@.take(i as int)).push(d));
        }
        i = i + 1;
    }
    proof {
        assert(path@.take(chars@.len() as int) =~= path@);
    }
    text
}

fn path_bytes(path: &str) -> (r: Vec<u8>)
    ensures
        r@ == encode_utf8(forward_slashes(path@)),
{
    let text = slashed(path);
    let bytes = text.as_str().as_bytes();
    let mut out: Vec<u8> = Vec::new();
    let mut j: usize = 0;
    while j < bytes.len()
        invariant
            j <= bytes@.len(),
            out@ == bytes@.take(j as int),
        decreases bytes.len() - j,
    {
        out.push(bytes[j]);
        proof {
            assert(bytes@.take(j + 1) =~= bytes@.take(j as int).push(bytes@[j as int]));
        }
        j = j + 1;
    }
    proof {
        assert(bytes@.take(bytes@.len() as int) =~= bytes@);
    }
    out
}

/// File `i` comes before file `j` in a bundle: its path (with `/`) sorts
/// first, or the paths are equal and it was listed first.
pub open spec fn comes_before(keys: Seq<Seq<char>>, i: int, j: int) -> bool {
    text_less(keys[i], keys[j]) || (keys[i] == keys[j] && i < j)
}

/// `order` lists every file once, in bundle order: by path, and in listing
/// order among equal paths.
pub open spec fn is_bundle_order(keys: Seq<Seq<char>>, order: Seq<usize>) -> bool {
    &&& order.len() == keys.len()
    &&& forall|k: int| 0 <= k < order.len() ==> #[trigger] order[k] < keys.len()
    &&& forall|a: int, b: int| 0 <= a < b < order.len() ==> comes_before(keys, #[trigger] order[a] as int, #[trigger] order[b] as int)
}

/// The sort keys of listed files: their paths with `/` for `\`.
pub open spec fn path_keys(paths: Seq<String>) -> Seq<Seq<char>> {
    paths.map_values(|p: String| forward_slashes(p@))
}

/// Orders listed files for the bundle, as a stable sort by path.
pub fn bundle_order(paths: &Vec<String>) -> (order: Vec<usize>)
    ensures
        is_bundle_order(path_keys(paths@), order@),
{
    let ghost keys = path_keys(paths@);
    let mut slashed_paths: Vec<String> = Vec::new();
    let mut i: usize = 0;
    while i < paths.len()
        invariant
            i <= paths@.len(),
            keys == path_keys(paths@),
            slashed_paths@.len() == i,
            forall|k: int| 0 <= k < i ==> (#[trigger] slashed_paths@[k])@ == keys[k],
        decreases paths.len() - i,
    {
        slashed_paths.push(slashed(paths[i].as_str()));
        i = i + 1;
    }
    let mut order: Vec<usize> = Vec::new();
    let mut i: usize = 0;
    while i < paths.len()
        invariant
            i <= paths@.len(),
            keys == path_keys(paths@),
            slashed_paths@.len() == paths@.len(),
            forall|k: int| 0 <= k < paths@.len() ==> (#[trigger] slashed_paths@[k])@ == keys[k],
            order@.len() == i,
            forall|k: int| 0 <= k < order@.len() ==> #[trigger] order@[k] < i,
            forall|a: int, b: int| 0 <= a < b < order@.len() ==> comes_before(keys, #[trigger] order@[a] as int, #[trigger] order@[b] as int),
        decreases paths.len() - i,
    {
        let mut p: usize = 0;
        while p < order.len() && !str_less(slashed_paths[i].as_str(), slashed_paths[order[p]].as_str())
            invariant
                p <= order@.len(),
                i < paths@.len(),
                slashed_paths@.len() == paths@.len(),
                forall|k: int| 0 <= k < paths@.len() ==> (#[trigger] slashed_paths@[k])@ == keys[k],
                forall|k: int| 0 <= k < order@.len() ==> #[trigger] order@[k] < i,
                forall|q: int| 0 <= q < p ==> !text_less(keys[i as int], keys[#[trigger] order@[q] as int]),
            decreases order.len() - p,
        {
            p = p + 1;
        }
        let ghost before = order@;
        proof {
            assert forall|q: int| 0 <= q < p implies comes_before(keys, #[trigger] before[q] as int, i as int) by {
                let e = before[q] as int;
                lemma_text_less_strict_total(keys[e], keys[i as int], keys[i as int]);
            }
            if p < before.len() {
                assert(text_less(keys[i as int], keys[before[p as int] as int]));
            }
        }
        order.insert(p, i);
        proof {
            assert forall|a: int, b: int| 0 <= a < b < order@.len() implies comes_before(
                keys,
                #[trigger] order@[a] as int,
                #[trigger] order@[b] as int,
            ) by {
                if b < p {
                    assert(order@[a] == before[a] && order@[b] == before[b]);
                } else if b == p {
                    assert(order@[a] == before[a]);
                } else if a == p {
                    assert(order@[b] == before[b - 1]);
                    let e = before[b - 1] as int;
                    let f = before[p as int] as int;
                    assert(text_less(keys[i as int], keys[f]));
                    if b - 1 > p {
                        assert(comes_before(keys, f, e));
                        lemma_text_less_strict_total(keys[i as int], keys[f], keys[e]);
                    }
                } else if a < p {
                    assert(order@[a] == before[a] && order@[b] == before[b - 1]);
                } else {
                    assert(order@[a] == before[a - 1] && order@[b] == before[b - 1]);
                }
            }
            assert forall|k: int| 0 <= k < order@.len() implies #[trigger] order@[k] < i + 1 by {
                if k < p {
                    assert(order@[k] == before[k]);
                } else if k > p {
                    assert(order@[k] == before[k - 1]);
                }
            }
        }
        i = i + 1;
    }
    order
}

proof fn lemma_files_error_settles(files: Seq<(Seq<char>, Result<Seq<u8>, Seq<char>>)>, m: int, n: int)
    requires
        0 <= m <= n,
        files_error(files, m) is Some,
    ensures
        files_error(files, n) == files_error(files, m),
    decreases n - m,
{
    if m < n {
        lemma_files_error_settles(files, m, n - 1);
    }
}

proof fn lemma_encoded_prefix(a: Seq<(Seq<char>, Seq<u8>)>, b: Seq<(Seq<char>, Seq<u8>)>, n: int)
    requires
        0 <= n <= a.len(),
        n <= b.len(),
        forall|k: int| 0 <= k < n ==> a[k] == b[k],
    ensures
        encoded_files(a, n) == encoded_files(b, n),
    decreases n,
{
    if n > 0 {
        lemma_encoded_prefix(a, b, n - 1);
    }
}

/// The sort keys of listed files.
pub open spec fn file_keys(files: Seq<(String, Result<Vec<u8>, String>)>) -> Seq<Seq<char>> {
    files.map_values(|f: (String, Result<Vec<u8>, String>)| forward_slashes(f.0@))
}

/// Listed files taken in a given order.
pub open spec fn in_order(
    view: Seq<(Seq<char>, Result<Seq<u8>, Seq<char>>)>,
    order: Seq<usize>,
) -> Seq<(Seq<char>, Result<Seq<u8>, Seq<char>>)> {
    order.map_values(|k: usize| view[k as int])
}

/// Encodes the hot reload bundle from each file's path relative to the
/// bundle root and the outcome of reading it, the files taken in bundle
/// order (by path); refuses more than 4294967295 files, and stops at the
/// first failed read or oversized path or file in that order.
#[verifier::rlimit(60)]
pub fn encode_dev_bundle(files: &Vec<(String, Result<Vec<u8>, String>)>) -> (r: Result<Vec<u8>, String>)
    ensures
        match r {
            Ok(bytes) => {
                &&& files@.len() <= 4294967295
                &&& exists|order: Seq<usize>|
                    {
                        &&& #[trigger] is_bundle_order(file_keys(files@), order)
                        &&& files_error(in_order(files_view(files@), order), files@.len() as int) is None
                        &&& bytes@ == bundle_of(read_files(in_order(files_view(files@), order)))
                    }
            },
            Err(e) => if files@.len() > 4294967295 {
                e@ == "too many hot reload files"@
            } else {
                exists|order: Seq<usize>|
                    #[trigger] is_bundle_order(file_keys(files@), order) && files_error(
                        in_order(files_view(files@), order),
                        files@.len() as int,
                    ) == Some(e@)
            },
        },
{
    if files.len() > 4294967295 {
        return Err(String::from_str("too many hot reload files"));
    }
    let mut names: Vec<String> = Vec::new();
    let mut j: usize = 0;
    while j < files.len()
        invariant
            j <= files@.len(),
            names@.len() == j,
            forall|k: int| 0 <= k < j ==> (#[trigger] names@[k])@ == files@[k].0@,
        decreases files.len() - j,
    {
        names.push(files[j].0.clone());
        j = j + 1;
    }
    let order = bundle_order(&names);
    proof {
        assert(path_keys(names@) =~= file_keys(files@));
    }
    let ghost view = in_order(files_view(files@), order@);
    let ghost read = read_files(view);
    let mut out: Vec<u8> = Vec::new();
    out.push(80u8);
    out.push(78u8);
    out.push(65u8);
    out.push(49u8);
    push_le32(&mut out, files.len() as u32);
    let ghost head = out@;
    assert(head =~= seq![80u8, 78u8, 65u8, 49u8] + le32(files@.len() as int));
    let mut i: usize = 0;
    while i < files.len()
        invariant
            i <= files@.len(),
            files@.len() <= 4294967295,
            is_bundle_order(file_keys(files@), order@),
            view == in_order(files_view(files@), order@),
            read == read_files(view),
            files_error(view, i as int) is None,
            out@ == head + encoded_files(read, i as int),
        decreases files.len() - i,
    {
        let index = order[i];
        let (path, contents) = &files[index];
        assert(view[i as int] == files_view(files@)[index as int]);
        assert(view[i as int] == (path@, match contents {
            Ok(b) => Ok::<Seq<u8>, Seq<char>>(b@),
            Err(e) => Err(e@),
        }));
        let bytes = match contents {
            Err(e) => {
                proof {
                    assert(files_error(view, i + 1) == Some(e@));
                    lemma_files_error_settles(view, i + 1, files@.len() as int);
                }
                return Err(e.clone());
            },
            Ok(b) => b,
        };
        let p = path_bytes(path.as_str());
        if p.len() > 65535 {
            proof {
                assert(files_error(view, i + 1) == Some("hot reload path is too long"@));
                lemma_files_error_settles(view, i + 1, files@.len() as int);
            }
            return Err(String::from_str("hot reload path is too long"));
        }
        if bytes.len() > 4294967295 {
            proof {
                assert(files_error(view, i + 1) == Some("hot reload file is too large"@));
                lemma_files_error_settles(view, i + 1, files@.len() as int);
            }
            return Err(String::from_str("hot reload file is too large"));
        }
        let ghost before = out@;
        push_le16(&mut out, p.len() as u16);
        let mut k: usize = 0;
        let ghost mid = out@;
        while k < p.len()
            invariant
                k <= p@.len(),
                out@ == mid + p@.take(k as int),
            decreases p.len() - k,
        {
            out.push(p[k]);
            proof {
                assert(p@.take(k + 1) =~= p@.take(k as int).push(p@[k as int]));
            }
            k = k + 1;
        }
        push_le32(&mut out, bytes.len() as u32);
        let ghost mid2 = out@;
        let mut k: usize = 0;
        while k < bytes.len()
            invariant
                k <= bytes@.len(),
                out@ == mid2 + bytes@.take(k as int),
            decreases bytes.len() - k,
        {
            out.push(bytes[k]);
            proof {
                assert(bytes@.take(k + 1) =~= bytes@.take(k as int).push(bytes@[k as int]));
            }
            k = k + 1;
        }
        proof {
            assert(p@.take(p@.len() as int) =~= p@);
            assert(bytes@.take(bytes@.len() as int) =~= bytes@);
            assert(read[i as int] == (path@, bytes@));
            assert(files_error(view, i + 1) is None);
            assert(out@ =~= head + encoded_files(read, i + 1));
        }
        i = i + 1;
    }
    Ok(out)
}

/// The version a device compares to know a new bundle is ready: the
/// lowercase hex SHA-256 of the bundle. Refuses a bundle over 16 MiB.
pub fn dev_bundle_version(bundle: &Vec<u8>) -> (r: Result<String, String>)
    ensures
        match r {
            Ok(v) => bundle@.len() <= MAX_DEV_BUNDLE_BYTES && v@ == hex_encoded(sha256_digest(bundle@)),
            Err(e) => bundle@.len() > MAX_DEV_BUNDLE_BYTES
                && e@ == "hot reload bundle exceeds 16 MiB; reduce development assets"@,
        },
{
    if bundle.len() > MAX_DEV_BUNDLE_BYTES {
        return Err(String::from_str("hot reload bundle exceeds 16 MiB; reduce development assets"));
    }
    let digest = sha256(bundle.as_slice());
    Ok(encode_hex(digest.as_slice()))
}

/// What the hot reload server sends back.
#[derive(Clone, Copy, Debug, PartialEq, Eq, Structural)]
pub enum HotReloadRoute {
    Status,
    Bundle,
    NotFound,
}

/// The first line of a request, without its line ending.
pub open spec fn first_line(text: Seq<char>) -> Seq<char> {
    let k = crate::text::first_char(text, '\n');
    let line = if k < text.len() {
        text.take(k)
    } else {
        text
    };
    if line.len() > 0 && line.last() == '\r' {
        line.drop_last()
    } else {
        line
    }
}

/// The request path: the second word of the first line, `/` where there is
/// none.
pub open spec fn request_path(text: Seq<char>) -> Seq<char> {
    let ws = words(first_line(text));
    if ws.len() > 1 {
        ws[1]
    } else {
        "/"@
    }
}

/// The route of a request path.
pub open spec fn route_of(path: Seq<char>) -> HotReloadRoute {
    if path.len() >= 7 && path.take(7) == "/status"@ {
        HotReloadRoute::Status
    } else if path.len() >= 7 && path.take(7) == "/bundle"@ {
        HotReloadRoute::Bundle
    } else {
        HotReloadRoute::NotFound
    }
}

/// Routes a request by its text: `/status…` to the version, `/bundle…` to
/// the bundle, anything else to 404.
pub fn route_request_text(text: &str) -> (r: HotReloadRoute)
    ensures
        r == route_of(request_path(text@)),
{
    let chars = chars_of(text);
    let n = chars.len();
    let mut k: usize = 0;
    while k < n && chars[k] != '\n'
        invariant
            chars@ == text@,
            n == chars@.len(),
            k <= n,
            forall|j: int| 0 <= j < k ==> chars@[j] != '\n',
        decreases n - k,
    {
        k = k + 1;
    }
    proof {
        crate::text::lemma_first_char(chars@, '\n', k as int);
    }
    let mut end = k;
    if end > 0 && chars[end - 1] == '\r' {
        end = end - 1;
    }
    proof {
        let line = if k < n {
            text@.take(k as int)
        } else {
            text@
        };
        assert(chars@.subrange(0, end as int) =~= first_line(text@)) by {
            if k < n {
                assert(line =~= chars@.subrange(0, k as int));
            } else {
                assert(line =~= chars@.subrange(0, n as int));
            }
        }
    }
    let path: Vec<char> = match word_at(&chars, 0, end, 1) {
        Some((a, b)) => {
            let mut p: Vec<char> = Vec::new();
            let mut j = a;
            while j < b
                invariant
                    a <= j <= b,
                    b <= chars@.len(),
                    p@ == chars@.subrange(a as int, j as int),
                decreases b - j,
            {
                p.push(chars[j]);
                proof {
                    assert(chars@.subrange(a as int, j + 1) =~= chars@.subrange(a as int, j as int).push(chars@[j as int]));
                }
                j = j + 1;
            }
            p
        },
        None => {
            let p = chars_of("/");
            p
        },
    };
    assert(path@ == request_path(text@));
    let status = chars_of("/status");
    let bundle = chars_of("/bundle");
    proof {
        reveal_strlit("/status");
        reveal_strlit("/bundle");
    }
    if path.len() >= 7 && prefix_is(&path, &status) {
        HotReloadRoute::Status
    } else if path.len() >= 7 && prefix_is(&path, &bundle) {
        HotReloadRoute::Bundle
    } else {
        HotReloadRoute::NotFound
    }
}

fn prefix_is(v: &Vec<char>, prefix: &Vec<char>) -> (r: bool)
    requires
        prefix@.len() <= v@.len(),
    ensures
        r == (v@.take(prefix@.len() as int) == prefix@),
{
    let mut i: usize = 0;
    while i < prefix.len()
        invariant
            prefix@.len() <= v@.len(),
            i <= prefix@.len(),
            forall|j: int| 0 <= j < i ==> v@[j] == prefix@[j],
        decreases prefix.len() - i,
    {
        if v[i] != prefix[i] {
            assert(v@.take(prefix@.len() as int)[i as int] != prefix@[i as int]);
            return false;
        }
        i = i + 1;
    }
    assert(v@.take(prefix@.len() as int) =~= prefix@);
    true
}

/// The text `String::from_utf8_lossy` makes of some bytes.
pub uninterp spec fn utf8_lossy_text(bytes: Seq<u8>) -> Seq<char>;

/// Decodes bytes with `String::from_utf8_lossy`, which puts U+FFFD for each
/// invalid sequence; the contract only names the result.
#[verifier::external_body]
fn lossy_text(bytes: &[u8]) -> (r: String)
    ensures
        r@ == utf8_lossy_text(bytes@),
{
    String::from_utf8_lossy(bytes).into_owned()
}

/// Routes the bytes of a request as the server read them.
pub fn route_request(request: &[u8]) -> (r: HotReloadRoute)
    ensures
        r == route_of(request_path(utf8_lossy_text(request@))),
{
    let text = lossy_text(request);
    route_request_text(text.as_str())
}

/// The head of a successful answer carrying `length` bytes of a content type.
pub open spec fn response_head(content_type: Seq<char>, length: nat) -> Seq<char> {
    "HTTP/1.1 200 OK\r\nContent-Type: "@ + content_type + "\r\nContent-Length: "@ + decimal_text(length)
        + "\r\nCache-Control: no-store\r\nConnection: close\r\n\r\n"@
}

/// The head of a successful answer.
pub fn hot_reload_response_head(content_type: &str, length: usize) -> (r: String)
    ensures
        r@ == response_head(content_type@, length as nat),
{
    let mut out = String::from_str("HTTP/1.1 200 OK\r\nContent-Type: ");
    out.append(content_type);
    out.append("\r\nContent-Length: ");
    push_decimal_text(&mut out, length as u64);
    out.append("\r\nCache-Control: no-store\r\nConnection: close\r\n\r\n");
    out
}

/// How long a project change must stay the same before the bundle is
/// rebuilt: 400 ms.
pub const HOT_RELOAD_DEBOUNCE_MILLIS: u64 = 400;

/// What the hot reload server knows of the project: the fingerprint the
/// bundle was built from, and a change seen since (its fingerprint and when
/// it was first seen, in milliseconds of a monotonic clock).
#[derive(Clone, Copy, Debug)]
pub struct ReloadWatch {
    pub built: (u64, u128),
    pub pending: Option<((u64, u128), u64)>,
}

/// The watch after observing fingerprint `next` at `now_millis`, and whether
/// the bundle is to be rebuilt: a change is taken once the same fingerprint
/// was seen again after the debounce; a new change restarts the wait; going
/// back to the built fingerprint forgets the change.
pub open spec fn watch_step(w: ReloadWatch, next: (u64, u128), now_millis: u64) -> (ReloadWatch, bool) {
    if next == w.built {
        (ReloadWatch { built: w.built, pending: None }, false)
    } else if w.pending matches Some((candidate, seen)) && candidate == next && now_millis >= seen && now_millis
        - seen >= HOT_RELOAD_DEBOUNCE_MILLIS {
        (ReloadWatch { built: next, pending: None }, true)
    } else if w.pending matches Some((candidate, _)) && candidate == next {
        (w, false)
    } else {
        (ReloadWatch { built: w.built, pending: Some((next, now_millis)) }, false)
    }
}

/// Observes the project's fingerprint once: the next watch, and whether to
/// rebuild the bundle now.
pub fn observe_project(watch: ReloadWatch, next: (u64, u128), now_millis: u64) -> (r: (ReloadWatch, bool))
    ensures
        r == watch_step(watch, next, now_millis),
{
    if next.0 == watch.built.0 && next.1 == watch.built.1 {
        return (ReloadWatch { built: watch.built, pending: None }, false);
    }
    match watch.pending {
        Some((candidate, seen)) => {
            if candidate.0 == next.0 && candidate.1 == next.1 {
                if now_millis >= seen && now_millis - seen >= HOT_RELOAD_DEBOUNCE_MILLIS {
                    (ReloadWatch { built: next, pending: None }, true)
                } else {
                    (watch, false)
                }
            } else {
                (ReloadWatch { built: watch.built, pending: Some((next, now_millis)) }, false)
            }
        },
        None => (ReloadWatch { built: watch.built, pending: Some((next, now_millis)) }, false),
    }
}

/// A change is rebuilt only after it was seen twice, the debounce apart, and
/// a rebuild always leaves the watch on the new fingerprint with nothing
/// pending.
pub proof fn lemma_rebuild_needs_a_settled_change(w: ReloadWatch, next: (u64, u128), now_millis: u64)
    ensures
        watch_step(w, next, now_millis).1 ==> {
            &&& next != w.built
            &&& w.pending matches Some((candidate, seen)) && candidate == next && seen + HOT_RELOAD_DEBOUNCE_MILLIS
                <= now_millis
            &&& watch_step(w, next, now_millis).0 == (ReloadWatch { built: next, pending: None })
        },
        !watch_step(w, next, now_millis).1 ==> watch_step(w, next, now_millis).0.built == w.built,
{
}

} // verus!
