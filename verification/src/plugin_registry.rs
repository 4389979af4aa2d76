//! Trust decisions of the signed plugin registry: the registry root and its
//! keys, threshold signatures over canonical JSON payloads, the plugin
//! catalog, release resolution and the compatibility matrix.
//!
//! Documents are parsed from JSON by the caller; hashing, Ed25519 and SemVer
//! are the outside crates' work behind the trusted items below.

use vstd::prelude::*;
use vstd::utf8::*;
use sha2::Digest;
use crate::text::{push_char, str_eq, chars_of, byte_len, concat_str, first_char, lemma_first_char, decimal_text,
    push_decimal_text, is_ascii_lower, is_ascii_digit, ascii_lower, ascii_digit};
use crate::json::{push_text, push_json_string, push_decimal, json_string, decimal};
use crate::hexutil::{is_lower_hex, is_lower_hex_of, decode_lower_hex, hex_decoded, encode_hex, hex_encoded, str_less,
    text_less};

verus! {

pub const SCHEMA_VERSION: u8 = 1;
pub const MAX_KEYS: usize = 32;
pub const MAX_SIGNATURES: usize = 64;
pub const MAX_PLUGINS: usize = 10_000;
pub const MAX_REVOCATIONS: usize = 10_000;
pub const CLOCK_SKEW_SECONDS: u64 = 300;
pub const ROOT_MAX_VALIDITY_SECONDS: u64 = 31_622_400;
pub const CATALOG_MAX_VALIDITY_SECONDS: u64 = 604_800;

// ---------------------------------------------------------------------------
// Documents

/// A signing key of the registry. Only keys with state 1 count as active.
#[derive(Clone, Debug)]
pub struct RegistryKey {
    pub key_id: String,
    pub public_key: String,
    pub state_code: u8,
}

/// A signature by one registry key, in lowercase hex.
#[derive(Clone, Debug)]
pub struct DocumentSignature {
    pub key_id: String,
    pub signature: String,
}

/// The registry root: its identity, validity window, keys and threshold.
#[derive(Clone, Debug)]
pub struct RegistryRoot {
    pub schema_version: u8,
    pub registry: String,
    pub generation: u32,
    pub issued_at_unix: u64,
    pub expires_at_unix: u64,
    pub threshold: u8,
    pub keys: Vec<RegistryKey>,
    pub signatures: Vec<DocumentSignature>,
    pub previous_signatures: Vec<DocumentSignature>,
}

/// What a release declares it runs with.
#[derive(Clone, Debug)]
pub struct PluginCompatibility {
    pub pam: String,
    pub native_protocol: Option<u32>,
    pub desktop_protocol: Option<u32>,
}

/// One installable plugin release.
#[derive(Clone, Debug)]
pub struct PluginRelease {
    pub package: String,
    pub version: String,
    pub artifact_kind_code: u8,
    pub artifact_url: String,
    pub sha256: String,
    pub published_at_unix: u64,
    pub surface_codes: Vec<u8>,
    pub compatibility: PluginCompatibility,
}

/// A release that must no longer be installed.
#[derive(Clone, Debug)]
pub struct PluginRevocation {
    pub package: String,
    pub version: String,
    pub reason_code: u8,
    pub revoked_at_unix: u64,
}

/// The signed list of releases of one registry root generation.
#[derive(Clone, Debug)]
pub struct PluginCatalog {
    pub schema_version: u8,
    pub registry: String,
    pub root_generation: u32,
    pub sequence: u64,
    pub generated_at_unix: u64,
    pub expires_at_unix: u64,
    pub plugins: Vec<PluginRelease>,
    pub revocations: Vec<PluginRevocation>,
    pub signatures: Vec<DocumentSignature>,
}

// ---------------------------------------------------------------------------
// Outside crates

/// The SHA-256 digest of some bytes (`sha2::Sha256::digest`).
pub uninterp spec fn sha256_digest(bytes: Seq<u8>) -> Seq<u8>;

/// Hashes bytes with `sha2::Sha256::digest`; the digest is 32 bytes long.
#[verifier::external_body]
pub(crate) fn sha256(bytes: &[u8]) -> (digest: Vec<u8>)
    ensures
        digest@ == sha256_digest(bytes@),
        digest@.len() == 32,
{
    sha2::Sha256::digest(bytes).to_vec()
}

/// Whether `ed25519_dalek::VerifyingKey::from_bytes` accepts 32 bytes as a
/// public key (they decompress to a curve point).
pub uninterp spec fn ed25519_key_accepted(public_key: Seq<u8>) -> bool;

/// Whether `ed25519_dalek::VerifyingKey::verify_strict` accepts a signature
/// of a message under a public key.
pub uninterp spec fn ed25519_strictly_verifies(public_key: Seq<u8>, message: Seq<u8>, signature: Seq<u8>) -> bool;

/// Calls `ed25519_dalek::VerifyingKey::from_bytes` on a 32-byte public key and
/// reports whether it was accepted.
#[verifier::external_body]
fn ed25519_public_key_accepted(public_key: &[u8]) -> (ok: bool)
    requires
        public_key@.len() == 32,
    ensures
        ok == ed25519_key_accepted(public_key@),
{
    match <&[u8; 32]>::try_from(public_key) {
        Ok(bytes) => ed25519_dalek::VerifyingKey::from_bytes(bytes).is_ok(),
        Err(_) => false,
    }
}

/// Calls `ed25519_dalek::VerifyingKey::verify_strict` with the key made from
/// `public_key` and the signature made by `ed25519_dalek::Signature::from_bytes`
/// from `signature`, and reports whether it verified.
#[verifier::external_body]
fn ed25519_verify_strict(public_key: &[u8], message: &[u8], signature: &[u8]) -> (ok: bool)
    requires
        public_key@.len() == 32,
        signature@.len() == 64,
        ed25519_key_accepted(public_key@),
    ensures
        ok == ed25519_strictly_verifies(public_key@, message@, signature@),
{
    match (<&[u8; 32]>::try_from(public_key), <&[u8; 64]>::try_from(signature)) {
        (Ok(key), Ok(signature)) => match ed25519_dalek::VerifyingKey::from_bytes(key) {
            Ok(key) => key.verify_strict(message, &ed25519_dalek::Signature::from_bytes(signature)).is_ok(),
            Err(_) => false,
        },
        _ => false,
    }
}

/// The error text of `semver::Version::parse` on a text, `None` where it parses.
pub uninterp spec fn semver_version_error(text: Seq<char>) -> Option<Seq<char>>;

/// The error text of `semver::VersionReq::parse` on a text, `None` where it parses.
pub uninterp spec fn semver_requirement_error(text: Seq<char>) -> Option<Seq<char>>;

/// Whether `semver::VersionReq::matches` holds of a requirement and a version.
pub uninterp spec fn semver_requirement_matches(requirement: Seq<char>, version: Seq<char>) -> bool;

/// Whether one version precedes another in SemVer order (`<` on `semver::Version`).
pub uninterp spec fn semver_precedes(left: Seq<char>, right: Seq<char>) -> bool;

/// Parses a version with `semver::Version::parse`; an error carries its text.
#[verifier::external_body]
pub(crate) fn semver_parse_version(text: &str) -> (r: Result<(), String>)
    ensures
        match r {
            Ok(()) => semver_version_error(text@) is None,
            Err(e) => semver_version_error(text@) == Some(e@),
        },
{
    match semver::Version::parse(text) {
        Ok(_) => Ok(()),
        Err(error) => Err(error.to_string()),
    }
}

/// Parses a requirement with `semver::VersionReq::parse`; an error carries its text.
#[verifier::external_body]
fn semver_parse_requirement(text: &str) -> (r: Result<(), String>)
    ensures
        match r {
            Ok(()) => semver_requirement_error(text@) is None,
            Err(e) => semver_requirement_error(text@) == Some(e@),
        },
{
    match semver::VersionReq::parse(text) {
        Ok(_) => Ok(()),
        Err(error) => Err(error.to_string()),
    }
}

/// Whether a requirement and a version both parse and
/// `semver::VersionReq::matches` holds of them.
#[verifier::external_body]
fn semver_matches(requirement: &str, version: &str) -> (r: bool)
    ensures
        r == (semver_requirement_error(requirement@) is None && semver_version_error(version@) is None
            && semver_requirement_matches(requirement@, version@)),
{
    match (semver::VersionReq::parse(requirement), semver::Version::parse(version)) {
        (Ok(requirement), Ok(version)) => requirement.matches(&version),
        _ => false,
    }
}

/// Whether two versions both parse and the first precedes the second.
#[verifier::external_body]
fn semver_less(left: &str, right: &str) -> (r: bool)
    ensures
        r == (semver_version_error(left@) is None && semver_version_error(right@) is None
            && semver_precedes(left@, right@)),
{
    match (semver::Version::parse(left), semver::Version::parse(right)) {
        (Ok(left), Ok(right)) => left < right,
        _ => false,
    }
}

// ---------------------------------------------------------------------------
// Field rules

pub open spec fn is_slug_char(c: char) -> bool {
    is_ascii_lower(c) || is_ascii_digit(c) || c == '.' || c == '_' || c == '-'
}

/// A vendor or package slug: 1 to 100 bytes of lowercase ASCII letters,
/// digits, `.`, `_` and `-`.
pub open spec fn is_slug(v: Seq<char>) -> bool {
    &&& v.len() > 0
    &&& encode_utf8(v).len() <= 100
    &&& forall|i: int| 0 <= i < v.len() ==> is_slug_char(#[trigger] v[i])
}

fn slug_range(chars: &[char], from: usize, to: usize) -> (r: bool)
    requires
        from <= to <= chars@.len(),
    ensures
        r == is_slug(chars@.subrange(from as int, to as int)),
{
    let ghost part = chars@.subrange(from as int, to as int);
    if from == to {
        return false;
    }
    let mut i = from;
    while i < to
        invariant
            from <= i <= to,
            to <= chars@.len(),
            part == chars@.subrange(from as int, to as int),
            forall|k: int| 0 <= k < i - from ==> is_slug_char(#[trigger] part[k]),
        decreases to - i,
    {
        let c = chars[i];
        proof {
            assert(part[i - from] == c);
        }
        if !(ascii_lower(c) || ascii_digit(c) || c == '.' || c == '_' || c == '-') {
            return false;
        }
        i = i + 1;
    }
    proof {
        assert(is_ascii_chars(part));
        is_ascii_chars_encode_utf8(part);
    }
    to - from <= 100
}

/// Whether a text is a valid slug.
pub fn valid_slug(value: &str) -> (r: bool)
    ensures
        r == is_slug(value@),
{
    let chars = chars_of(value);
    proof {
        assert(chars@.subrange(0, chars@.len() as int) =~= value@);
    }
    slug_range(&chars, 0, chars.len())
}

/// The error for a plugin package name, if any: it must be `vendor/package`
/// (split at the first `/`) with two valid slugs.
pub open spec fn package_error(v: Seq<char>) -> Option<Seq<char>> {
    let k = first_char(v, '/');
    if k >= v.len() {
        Some("plugin package must use Composer vendor/package syntax"@)
    } else if !is_slug(v.take(k)) || !is_slug(v.skip(k + 1)) {
        Some("plugin package must use lowercase Composer vendor/package syntax"@)
    } else {
        None
    }
}

pub open spec fn check_result(r: Result<(), String>, error: Option<Seq<char>>) -> bool {
    match r {
        Ok(()) => error is None,
        Err(e) => error == Some(e@),
    }
}

/// Accepts a plugin package name of the form `vendor/package`.
pub fn validate_package(value: &str) -> (r: Result<(), String>)
    ensures
        check_result(r, package_error(value@)),
{
    let chars = chars_of(value);
    let n = chars.len();
    let mut k: usize = 0;
    while k < n && chars[k] != '/'
        invariant
            k <= n,
            n == chars@.len(),
            forall|j: int| 0 <= j < k ==> chars@[j] != '/',
        decreases n - k,
    {
        k = k + 1;
    }
    proof {
        lemma_first_char(value@, '/', k as int);
    }
    if k == n {
        return Err(String::from_str("plugin package must use Composer vendor/package syntax"));
    }
    proof {
        assert(value@.take(k as int) =~= chars@.subrange(0, k as int));
        assert(value@.skip(k + 1) =~= chars@.subrange(k + 1, n as int));
    }
    if !slug_range(&chars, 0, k) || !slug_range(&chars, k + 1, n) {
        return Err(String::from_str("plugin package must use lowercase Composer vendor/package syntax"));
    }
    Ok(())
}

/// `label must contain N lowercase hex bytes`.
pub open spec fn hex_error(label: Seq<char>, bytes: nat) -> Seq<char> {
    label + " must contain "@ + decimal_text(bytes) + " lowercase hex bytes"@
}

/// Accepts exactly `bytes` bytes spelled in lowercase hexadecimal.
pub fn validate_lower_hex(value: &str, bytes: usize, label: &str) -> (r: Result<(), String>)
    ensures
        check_result(r, if is_lower_hex_of(encode_utf8(value@), bytes as int) {
            None
        } else {
            Some(hex_error(label@, bytes as nat))
        }),
{
    if is_lower_hex(value, bytes) {
        Ok(())
    } else {
        let mut message = concat_str(label, " must contain ");
        push_decimal_text(&mut message, bytes as u64);
        message.append(" lowercase hex bytes");
        Err(message)
    }
}

/// The error for a signature's shape, if any: a 32-byte key id and a 64-byte
/// signature, both in lowercase hex.
pub open spec fn signature_shape_error(signature: DocumentSignature) -> Option<Seq<char>> {
    if !is_lower_hex_of(encode_utf8(signature.key_id@), 32) {
        Some(hex_error("registry signature keyId"@, 32))
    } else if !is_lower_hex_of(encode_utf8(signature.signature@), 64) {
        Some(hex_error("registry signature"@, 64))
    } else {
        None
    }
}

/// Accepts a signature whose key id and signature are lowercase hex of the
/// right length.
pub fn validate_signature_shape(signature: &DocumentSignature) -> (r: Result<(), String>)
    ensures
        check_result(r, signature_shape_error(*signature)),
{
    match validate_lower_hex(signature.key_id.as_str(), 32, "registry signature keyId") {
        Err(e) => Err(e),
        Ok(()) => validate_lower_hex(signature.signature.as_str(), 64, "registry signature"),
    }
}

/// Characters an HTTPS URL of the registry may not hold anywhere.
pub open spec fn is_url_forbidden(c: char) -> bool {
    c == ' ' || c == '\t' || c == '\n' || c == '\x0c' || c == '\r' || c == '\0' || c == '#' || c == '\\'
}

/// A bounded HTTPS URL: `https://`, a non-empty authority without `@`, at
/// most 2048 bytes, and no ASCII whitespace, NUL, `#` or `\`.
pub open spec fn is_bounded_https(v: Seq<char>) -> bool {
    let scheme = "https://"@;
    &&& v.len() >= scheme.len() && v.take(scheme.len() as int) == scheme
    &&& encode_utf8(v).len() <= 2048
    &&& forall|i: int| 0 <= i < v.len() ==> !is_url_forbidden(#[trigger] v[i])
    &&& first_char(v.skip(scheme.len() as int), '/') > 0
    &&& !v.skip(scheme.len() as int).take(first_char(v.skip(scheme.len() as int), '/')).contains('@')
}

/// Accepts a bounded HTTPS URL; the error names the field.
pub fn validate_https(value: &str, label: &str) -> (r: Result<(), String>)
    ensures
        check_result(r, if is_bounded_https(value@) { None } else { Some(label@ + " must be a bounded HTTPS URL"@) }),
{
    let chars = chars_of(value);
    let n = chars.len();
    let scheme = chars_of("https://");
    proof {
        reveal_strlit("https://");
    }
    let mut ok = n >= 8 && byte_len(value) <= 2048;
    if ok {
        let mut i: usize = 0;
        while i < 8
            invariant
                i <= 8,
                n >= 8,
                chars@.len() == n,
                scheme@ == "https://"@,
                scheme@.len() == 8,
                ok == (forall|k: int| 0 <= k < i ==> chars@[k] == scheme@[k]),
            decreases 8 - i,
        {
            if chars[i] != scheme[i] {
                ok = false;
            }
            i = i + 1;
        }
        proof {
            if ok {
                assert(value@.take(8) =~= "https://"@);
            } else {
                assert(value@.take(8) != "https://"@);
            }
        }
    }
    if ok {
        let mut i: usize = 0;
        while i < n
            invariant
                i <= n,
                chars@ == value@,
                n == chars@.len(),
                ok == (forall|k: int| 0 <= k < i ==> !is_url_forbidden(#[trigger] chars@[k])),
            decreases n - i,
        {
            let c = chars[i];
            if c == ' ' || c == '\t' || c == '\n' || c == '\x0c' || c == '\r' || c == '\0' || c == '#' || c == '\\' {
                ok = false;
            }
            i = i + 1;
        }
    }
    if ok {
        let mut k: usize = 8;
        let mut at = false;
        while k < n && chars[k] != '/'
            invariant
                8 <= k <= n,
                n == chars@.len(),
                forall|j: int| 8 <= j < k ==> chars@[j] != '/',
                at == (exists|j: int| 8 <= j < k && chars@[j] == '@'),
            decreases n - k,
        {
            if chars[k] == '@' {
                at = true;
            }
            k = k + 1;
        }
        proof {
            let rest = value@.skip(8);
            assert forall|j: int| 0 <= j < k - 8 implies rest[j] != '/' by {
                assert(rest[j] == chars@[j + 8]);
            }
            if k < n {
                assert(rest[k - 8] == chars@[k as int]);
            }
            lemma_first_char(rest, '/', k - 8);
            let authority = rest.take(k - 8);
            if at {
                let j = choose|j: int| 8 <= j < k && chars@[j] == '@';
                assert(authority[j - 8] == '@');
            } else {
                assert forall|j: int| 0 <= j < authority.len() implies authority[j] != '@' by {
                    assert(authority[j] == chars@[j + 8]);
                }
            }
        }
        if k == 8 || at {
            ok = false;
        }
    }
    if ok {
        Ok(())
    } else {
        Err(concat_str(label, " must be a bounded HTTPS URL"))
    }
}

/// Accepts a SemVer release version.
pub fn validate_version(value: &str) -> (r: Result<(), String>)
    ensures
        check_result(r, match semver_version_error(value@) {
            None => None,
            Some(error) => Some("plugin version is not SemVer: "@ + error),
        }),
{
    match semver_parse_version(value) {
        Ok(()) => Ok(()),
        Err(error) => Err(concat_str("plugin version is not SemVer: ", error.as_str())),
    }
}

/// Accepts a SemVer requirement of at most 128 bytes.
pub fn validate_version_requirement(value: &str) -> (r: Result<(), String>)
    ensures
        check_result(r, if encode_utf8(value@).len() > 128 {
            Some("plugin PAM compatibility requirement is too long"@)
        } else {
            match semver_requirement_error(value@) {
                None => None,
                Some(error) => Some("plugin PAM compatibility requirement is invalid: "@ + error),
            }
        }),
{
    if byte_len(value) > 128 {
        return Err(String::from_str("plugin PAM compatibility requirement is too long"));
    }
    match semver_parse_requirement(value) {
        Ok(()) => Ok(()),
        Err(error) => Err(concat_str("plugin PAM compatibility requirement is invalid: ", error.as_str())),
    }
}

/// Refuses a catalog older than the sequence the project already accepted.
pub fn enforce_minimum_sequence(sequence: u64, minimum: Option<u64>) -> (r: Result<(), String>)
    ensures
        check_result(r, match minimum {
            Some(m) if sequence < m => Some("plugin catalog sequence "@ + decimal_text(sequence as nat)
                + " is older than the required minimum "@ + decimal_text(m as nat)),
            _ => None,
        }),
{
    match minimum {
        Some(m) => {
            if sequence < m {
                let mut message = String::from_str("plugin catalog sequence ");
                push_decimal_text(&mut message, sequence);
                message.append(" is older than the required minimum ");
                push_decimal_text(&mut message, m);
                Err(message)
            } else {
                Ok(())
            }
        },
        None => Ok(()),
    }
}

/// Decodes lowercase hex known to spell exactly `bytes` bytes.
fn decode_hex(value: &str, bytes: usize, label: &str) -> (r: Result<Vec<u8>, String>)
    ensures
        match r {
            Ok(decoded) => is_lower_hex_of(encode_utf8(value@), bytes as int) && decoded@ == hex_decoded(encode_utf8(value@))
                && decoded@.len() == bytes,
            Err(e) => !is_lower_hex_of(encode_utf8(value@), bytes as int) && e@ == hex_error(label@, bytes as nat),
        },
{
    match validate_lower_hex(value, bytes, label) {
        Err(e) => Err(e),
        Ok(()) => {
            let decoded = decode_lower_hex(value);
            Ok(decoded)
        },
    }
}

// ---------------------------------------------------------------------------
// Canonical signing payloads (compact JSON, fields in declaration order)

pub open spec fn lit(s: Seq<char>) -> Seq<u8> {
    encode_utf8(s)
}

/// Items separated by commas.
pub open spec fn json_list(items: Seq<Seq<u8>>) -> Seq<u8>
    decreases items.len(),
{
    if items.len() == 0 {
        Seq::empty()
    } else if items.len() == 1 {
        items[0]
    } else {
        json_list(items.drop_last()) + seq![0x2cu8] + items.last()
    }
}

pub open spec fn json_array(items: Seq<Seq<u8>>) -> Seq<u8> {
    seq![0x5bu8] + json_list(items) + seq![0x5du8]
}

pub open spec fn json_optional(value: Option<u32>) -> Seq<u8> {
    match value {
        Some(v) => decimal(v as nat),
        None => lit("null"@),
    }
}

pub open spec fn key_json(key: RegistryKey) -> Seq<u8> {
    lit("{\"keyId\":"@) + json_string(key.key_id@) + lit(",\"publicKey\":"@) + json_string(key.public_key@)
        + lit(",\"stateCode\":"@) + decimal(key.state_code as nat) + lit("}"@)
}

/// The bytes that the root's keys sign: the root without its signatures.
pub open spec fn root_payload(root: RegistryRoot) -> Seq<u8> {
    lit("{\"schemaVersion\":"@) + decimal(root.schema_version as nat) + lit(",\"registry\":"@)
        + json_string(root.registry@) + lit(",\"generation\":"@) + decimal(root.generation as nat)
        + lit(",\"issuedAtUnix\":"@) + decimal(root.issued_at_unix as nat) + lit(",\"expiresAtUnix\":"@)
        + decimal(root.expires_at_unix as nat) + lit(",\"threshold\":"@) + decimal(root.threshold as nat)
        + lit(",\"keys\":"@) + json_array(root.keys@.map_values(|k: RegistryKey| key_json(k))) + lit("}"@)
}

pub open spec fn release_head_json(release: PluginRelease) -> Seq<u8> {
    lit("{\"package\":"@) + json_string(release.package@) + lit(",\"version\":"@) + json_string(release.version@)
        + lit(",\"artifactKindCode\":"@) + decimal(release.artifact_kind_code as nat) + lit(",\"artifactUrl\":"@)
        + json_string(release.artifact_url@) + lit(",\"sha256\":"@) + json_string(release.sha256@)
        + lit(",\"publishedAtUnix\":"@) + decimal(release.published_at_unix as nat)
}

pub open spec fn compatibility_json(compatibility: PluginCompatibility) -> Seq<u8> {
    lit(",\"compatibility\":{\"pam\":"@) + json_string(compatibility.pam@)
        + lit(",\"nativeProtocol\":"@) + json_optional(compatibility.native_protocol)
        + lit(",\"desktopProtocol\":"@) + json_optional(compatibility.desktop_protocol) + lit("}}"@)
}

pub open spec fn release_json(release: PluginRelease) -> Seq<u8> {
    release_head_json(release) + lit(",\"surfaceCodes\":"@)
        + json_array(release.surface_codes@.map_values(|c: u8| decimal(c as nat)))
        + compatibility_json(release.compatibility)
}

pub open spec fn revocation_json(item: PluginRevocation) -> Seq<u8> {
    lit("{\"package\":"@) + json_string(item.package@) + lit(",\"version\":"@) + json_string(item.version@)
        + lit(",\"reasonCode\":"@) + decimal(item.reason_code as nat) + lit(",\"revokedAtUnix\":"@)
        + decimal(item.revoked_at_unix as nat) + lit("}"@)
}

/// The bytes that the registry keys sign for a catalog: the catalog without
/// its signatures.
pub open spec fn catalog_payload(catalog: PluginCatalog) -> Seq<u8> {
    lit("{\"schemaVersion\":"@) + decimal(catalog.schema_version as nat) + lit(",\"registry\":"@)
        + json_string(catalog.registry@) + lit(",\"rootGeneration\":"@) + decimal(catalog.root_generation as nat)
        + lit(",\"sequence\":"@) + decimal(catalog.sequence as nat) + lit(",\"generatedAtUnix\":"@)
        + decimal(catalog.generated_at_unix as nat) + lit(",\"expiresAtUnix\":"@)
        + decimal(catalog.expires_at_unix as nat) + lit(",\"plugins\":"@)
        + json_array(catalog.plugins@.map_values(|r: PluginRelease| release_json(r))) + lit(",\"revocations\":"@)
        + json_array(catalog.revocations@.map_values(|r: PluginRevocation| revocation_json(r))) + lit("}"@)
}

proof fn lemma_json_list_push(items: Seq<Seq<u8>>, item: Seq<u8>)
    ensures
        json_list(items.push(item)) == if items.len() == 0 {
            item
        } else {
            json_list(items) + seq![0x2cu8] + item
        },
{
    assert(items.push(item).drop_last() =~= items);
}

fn push_key(out: &mut Vec<u8>, key: &RegistryKey)
    ensures
        final(out)@ == old(out)@ + key_json(*key),
{
    push_text(out, "{\"keyId\":");
    push_json_string(out, key.key_id.as_str());
    push_text(out, ",\"publicKey\":");
    push_json_string(out, key.public_key.as_str());
    push_text(out, ",\"stateCode\":");
    push_decimal(out, key.state_code as u64);
    push_text(out, "}");
    assert(final(out)@ =~= old(out)@ + key_json(*key));
}

fn push_keys(out: &mut Vec<u8>, keys: &Vec<RegistryKey>)
    ensures
        final(out)@ == old(out)@ + json_array(keys@.map_values(|k: RegistryKey| key_json(k))),
{
    let ghost start = out@;
    out.push(0x5b);
    let mut i: usize = 0;
    while i < keys.len()
        invariant
            i <= keys@.len(),
            out@ == start + seq![0x5bu8] + json_list(keys@.take(i as int).map_values(|k: RegistryKey| key_json(k))),
        decreases keys.len() - i,
    {
        if i > 0 {
            out.push(0x2c);
        }
        push_key(out, &keys[i]);
        proof {
            let done = keys@.take(i as int).map_values(|k: RegistryKey| key_json(k));
            assert(keys@.take(i + 1).map_values(|k: RegistryKey| key_json(k)) =~= done.push(key_json(keys@[i as int])));
            lemma_json_list_push(done, key_json(keys@[i as int]));
        }
        i = i + 1;
    }
    out.push(0x5d);
    assert(keys@.take(keys@.len() as int) =~= keys@);
    assert(out@ =~= start + json_array(keys@.map_values(|k: RegistryKey| key_json(k))));
}

fn push_optional(out: &mut Vec<u8>, value: Option<u32>)
    ensures
        final(out)@ == old(out)@ + json_optional(value),
{
    match value {
        Some(v) => push_decimal(out, v as u64),
        None => push_text(out, "null"),
    }
}

fn push_codes(out: &mut Vec<u8>, codes: &Vec<u8>)
    ensures
        final(out)@ == old(out)@ + json_array(codes@.map_values(|c: u8| decimal(c as nat))),
{
    let ghost start = out@;
    out.push(0x5b);
    let mut i: usize = 0;
    while i < codes.len()
        invariant
            i <= codes@.len(),
            out@ == start + seq![0x5bu8] + json_list(codes@.take(i as int).map_values(|c: u8| decimal(c as nat))),
        decreases codes.len() - i,
    {
        if i > 0 {
            out.push(0x2c);
        }
        push_decimal(out, codes[i] as u64);
        proof {
            let done = codes@.take(i as int).map_values(|c: u8| decimal(c as nat));
            assert(codes@.take(i + 1).map_values(|c: u8| decimal(c as nat)) =~= done.push(decimal(codes@[i as int] as nat)));
            lemma_json_list_push(done, decimal(codes@[i as int] as nat));
        }
        i = i + 1;
    }
    out.push(0x5d);
    assert(codes@.take(codes@.len() as int) =~= codes@);
    assert(out@ =~= start + json_array(codes@.map_values(|c: u8| decimal(c as nat))));
}

fn push_release_head(out: &mut Vec<u8>, release: &PluginRelease)
    ensures
        final(out)@ == old(out)@ + release_head_json(*release),
{
    push_text(out, "{\"package\":");
    push_json_string(out, release.package.as_str());
    push_text(out, ",\"version\":");
    push_json_string(out, release.version.as_str());
    push_text(out, ",\"artifactKindCode\":");
    push_decimal(out, release.artifact_kind_code as u64);
    push_text(out, ",\"artifactUrl\":");
    push_json_string(out, release.artifact_url.as_str());
    push_text(out, ",\"sha256\":");
    push_json_string(out, release.sha256.as_str());
    push_text(out, ",\"publishedAtUnix\":");
    push_decimal(out, release.published_at_unix);
    assert(final(out)@ =~= old(out)@ + release_head_json(*release));
}

fn push_compatibility(out: &mut Vec<u8>, compatibility: &PluginCompatibility)
    ensures
        final(out)@ == old(out)@ + compatibility_json(*compatibility),
{
    push_text(out, ",\"compatibility\":{\"pam\":");
    push_json_string(out, compatibility.pam.as_str());
    push_text(out, ",\"nativeProtocol\":");
    push_optional(out, compatibility.native_protocol);
    push_text(out, ",\"desktopProtocol\":");
    push_optional(out, compatibility.desktop_protocol);
    push_text(out, "}}");
    assert(final(out)@ =~= old(out)@ + compatibility_json(*compatibility));
}

fn push_release(out: &mut Vec<u8>, release: &PluginRelease)
    ensures
        final(out)@ == old(out)@ + release_json(*release),
{
    push_release_head(out, release);
    push_text(out, ",\"surfaceCodes\":");
    push_codes(out, &release.surface_codes);
    push_compatibility(out, &release.compatibility);
    assert(final(out)@ =~= old(out)@ + release_json(*release));
}

fn push_releases(out: &mut Vec<u8>, releases: &Vec<PluginRelease>)
    ensures
        final(out)@ == old(out)@ + json_array(releases@.map_values(|r: PluginRelease| release_json(r))),
{
    let ghost start = out@;
    out.push(0x5b);
    let mut i: usize = 0;
    while i < releases.len()
        invariant
            i <= releases@.len(),
            out@ == start + seq![0x5bu8] + json_list(releases@.take(i as int).map_values(|r: PluginRelease| release_json(r))),
        decreases releases.len() - i,
    {
        if i > 0 {
            out.push(0x2c);
        }
        push_release(out, &releases[i]);
        proof {
            let done = releases@.take(i as int).map_values(|r: PluginRelease| release_json(r));
            assert(releases@.take(i + 1).map_values(|r: PluginRelease| release_json(r)) =~= done.push(release_json(releases@[i as int])));
            lemma_json_list_push(done, release_json(releases@[i as int]));
        }
        i = i + 1;
    }
    out.push(0x5d);
    assert(releases@.take(releases@.len() as int) =~= releases@);
    assert(out@ =~= start + json_array(releases@.map_values(|r: PluginRelease| release_json(r))));
}

fn push_revocation(out: &mut Vec<u8>, item: &PluginRevocation)
    ensures
        final(out)@ == old(out)@ + revocation_json(*item),
{
    push_text(out, "{\"package\":");
    push_json_string(out, item.package.as_str());
    push_text(out, ",\"version\":");
    push_json_string(out, item.version.as_str());
    push_text(out, ",\"reasonCode\":");
    push_decimal(out, item.reason_code as u64);
    push_text(out, ",\"revokedAtUnix\":");
    push_decimal(out, item.revoked_at_unix);
    push_text(out, "}");
    assert(final(out)@ =~= old(out)@ + revocation_json(*item));
}

fn push_revocations(out: &mut Vec<u8>, items: &Vec<PluginRevocation>)
    ensures
        final(out)@ == old(out)@ + json_array(items@.map_values(|r: PluginRevocation| revocation_json(r))),
{
    let ghost start = out@;
    out.push(0x5b);
    let mut i: usize = 0;
    while i < items.len()
        invariant
            i <= items@.len(),
            out@ == start + seq![0x5bu8] + json_list(items@.take(i as int).map_values(|r: PluginRevocation| revocation_json(r))),
        decreases items.len() - i,
    {
        if i > 0 {
            out.push(0x2c);
        }
        push_revocation(out, &items[i]);
        proof {
            let done = items@.take(i as int).map_values(|r: PluginRevocation| revocation_json(r));
            assert(items@.take(i + 1).map_values(|r: PluginRevocation| revocation_json(r)) =~= done.push(revocation_json(items@[i as int])));
            lemma_json_list_push(done, revocation_json(items@[i as int]));
        }
        i = i + 1;
    }
    out.push(0x5d);
    assert(items@.take(items@.len() as int) =~= items@);
    assert(out@ =~= start + json_array(items@.map_values(|r: PluginRevocation| revocation_json(r))));
}

/// The canonical bytes that registry keys sign for a root.
pub fn canonical_root_payload(root: &RegistryRoot) -> (r: Result<Vec<u8>, String>)
    ensures
        r matches Ok(bytes) && bytes@ == root_payload(*root),
{
    let mut out: Vec<u8> = Vec::new();
    push_text(&mut out, "{\"schemaVersion\":");
    push_decimal(&mut out, root.schema_version as u64);
    push_text(&mut out, ",\"registry\":");
    push_json_string(&mut out, root.registry.as_str());
    push_text(&mut out, ",\"generation\":");
    push_decimal(&mut out, root.generation as u64);
    push_text(&mut out, ",\"issuedAtUnix\":");
    push_decimal(&mut out, root.issued_at_unix);
    push_text(&mut out, ",\"expiresAtUnix\":");
    push_decimal(&mut out, root.expires_at_unix);
    push_text(&mut out, ",\"threshold\":");
    push_decimal(&mut out, root.threshold as u64);
    push_text(&mut out, ",\"keys\":");
    push_keys(&mut out, &root.keys);
    push_text(&mut out, "}");
    assert(out@ =~= root_payload(*root));
    Ok(out)
}

/// The canonical bytes that registry keys sign for a catalog.
pub fn canonical_catalog_payload(catalog: &PluginCatalog) -> (r: Result<Vec<u8>, String>)
    ensures
        r matches Ok(bytes) && bytes@ == catalog_payload(*catalog),
{
    let mut out: Vec<u8> = Vec::new();
    push_text(&mut out, "{\"schemaVersion\":");
    push_decimal(&mut out, catalog.schema_version as u64);
    push_text(&mut out, ",\"registry\":");
    push_json_string(&mut out, catalog.registry.as_str());
    push_text(&mut out, ",\"rootGeneration\":");
    push_decimal(&mut out, catalog.root_generation as u64);
    push_text(&mut out, ",\"sequence\":");
    push_decimal(&mut out, catalog.sequence);
    push_text(&mut out, ",\"generatedAtUnix\":");
    push_decimal(&mut out, catalog.generated_at_unix);
    push_text(&mut out, ",\"expiresAtUnix\":");
    push_decimal(&mut out, catalog.expires_at_unix);
    push_text(&mut out, ",\"plugins\":");
    push_releases(&mut out, &catalog.plugins);
    push_text(&mut out, ",\"revocations\":");
    push_revocations(&mut out, &catalog.revocations);
    push_text(&mut out, "}");
    assert(out@ =~= catalog_payload(*catalog));
    Ok(out)
}

// ---------------------------------------------------------------------------
// Threshold signatures

/// The active key with a given id: the last key with state 1 and that id.
pub open spec fn active_key(keys: Seq<RegistryKey>, key_id: Seq<char>) -> Option<RegistryKey>
    decreases keys.len(),
{
    if keys.len() == 0 {
        None
    } else if keys.last().state_code == 1 && keys.last().key_id@ == key_id {
        Some(keys.last())
    } else {
        active_key(keys.drop_last(), key_id)
    }
}

/// Checks one signature: one by an unknown or inactive key does not count;
/// one by an active key must decode and verify, and then counts.
pub open spec fn signature_check(payload: Seq<u8>, signed: DocumentSignature, keys: Seq<RegistryKey>) -> Result<bool, Seq<char>> {
    match active_key(keys, signed.key_id@) {
        None => Ok(false),
        Some(key) => {
            if !is_lower_hex_of(encode_utf8(key.public_key@), 32) {
                Err(hex_error("registry public key"@, 32))
            } else if !is_lower_hex_of(encode_utf8(signed.signature@), 64) {
                Err(hex_error("registry signature"@, 64))
            } else {
                let public_key = hex_decoded(encode_utf8(key.public_key@));
                let signature = hex_decoded(encode_utf8(signed.signature@));
                if !ed25519_key_accepted(public_key) {
                    Err("registry public key is not valid Ed25519"@)
                } else if !ed25519_strictly_verifies(public_key, payload, signature) {
                    Err("registry signature from "@ + signed.key_id@ + " is invalid"@)
                } else {
                    Ok(true)
                }
            }
        },
    }
}

/// The number of counting signatures, or the first signature error.
pub open spec fn verified_count(payload: Seq<u8>, signatures: Seq<DocumentSignature>, keys: Seq<RegistryKey>) -> Result<nat, Seq<char>>
    decreases signatures.len(),
{
    if signatures.len() == 0 {
        Ok(0)
    } else {
        match verified_count(payload, signatures.drop_last(), keys) {
            Err(e) => Err(e),
            Ok(n) => match signature_check(payload, signatures.last(), keys) {
                Err(e) => Err(e),
                Ok(counted) => Ok(if counted { n + 1 } else { n }),
            },
        }
    }
}

/// Why a payload is not signed by `threshold` active keys, if it is not.
pub open spec fn threshold_error(payload: Seq<u8>, signatures: Seq<DocumentSignature>, keys: Seq<RegistryKey>, threshold: u8) -> Option<Seq<char>> {
    match verified_count(payload, signatures, keys) {
        Err(e) => Some(e),
        Ok(n) => if n < threshold {
            Some("registry signature threshold is not met: "@ + decimal_text(n) + "/"@ + decimal_text(threshold as nat))
        } else {
            None
        },
    }
}

fn find_active_key<'a>(keys: &'a Vec<RegistryKey>, key_id: &str) -> (r: Option<&'a RegistryKey>)
    ensures
        match r {
            Some(key) => active_key(keys@, key_id@) == Some(*key),
            None => active_key(keys@, key_id@) is None,
        },
{
    let mut i = keys.len();
    assert(keys@.take(keys@.len() as int) =~= keys@);
    while i > 0
        invariant
            i <= keys@.len(),
            active_key(keys@, key_id@) == active_key(keys@.take(i as int), key_id@),
        decreases i,
    {
        let key = &keys[i - 1];
        proof {
            assert(keys@.take(i as int).drop_last() =~= keys@.take(i - 1));
            assert(keys@.take(i as int).last() == keys@[i - 1]);
        }
        if key.state_code == 1 && str_eq(key.key_id.as_str(), key_id) {
            return Some(key);
        }
        i = i - 1;
    }
    None
}

fn check_signature(payload: &[u8], signed: &DocumentSignature, keys: &Vec<RegistryKey>) -> (r: Result<bool, String>)
    ensures
        match (r, signature_check(payload@, *signed, keys@)) {
            (Ok(a), Ok(b)) => a == b,
            (Err(e), Err(m)) => e@ == m,
            _ => false,
        },
{
    let key = match find_active_key(keys, signed.key_id.as_str()) {
        None => return Ok(false),
        Some(key) => key,
    };
    let public_key = match decode_hex(key.public_key.as_str(), 32, "registry public key") {
        Err(e) => return Err(e),
        Ok(bytes) => bytes,
    };
    let signature = match decode_hex(signed.signature.as_str(), 64, "registry signature") {
        Err(e) => return Err(e),
        Ok(bytes) => bytes,
    };
    if !ed25519_public_key_accepted(public_key.as_slice()) {
        return Err(String::from_str("registry public key is not valid Ed25519"));
    }
    if !ed25519_verify_strict(public_key.as_slice(), payload, signature.as_slice()) {
        let mut message = concat_str("registry signature from ", signed.key_id.as_str());
        message.append(" is invalid");
        return Err(message);
    }
    Ok(true)
}

/// Accepts a payload signed by at least `threshold` distinct active keys;
/// every signature by an active key must verify.
pub fn verify_threshold(payload: &[u8], signatures: &Vec<DocumentSignature>, keys: &Vec<RegistryKey>, threshold: u8) -> (r:
    Result<(), String>)
    ensures
        check_result(r, threshold_error(payload@, signatures@, keys@, threshold)),
{
    let mut verified: usize = 0;
    let mut i: usize = 0;
    while i < signatures.len()
        invariant
            i <= signatures@.len(),
            verified <= i,
            verified_count(payload@, signatures@.take(i as int), keys@) == Ok::<nat, Seq<char>>(verified as nat),
        decreases signatures.len() - i,
    {
        proof {
            assert(signatures@.take(i + 1).drop_last() =~= signatures@.take(i as int));
            assert(signatures@.take(i + 1).last() == signatures@[i as int]);
        }
        match check_signature(payload, &signatures[i], keys) {
            Err(e) => {
                proof {
                    lemma_errors_persist(payload@, signatures@, keys@, i + 1);
                }
                return Err(e);
            },
            Ok(counted) => {
                if counted {
                    verified = verified + 1;
                }
            },
        }
        i = i + 1;
    }
    assert(signatures@.take(signatures@.len() as int) =~= signatures@);
    if verified < threshold as usize {
        let mut message = String::from_str("registry signature threshold is not met: ");
        push_decimal_text(&mut message, verified as u64);
        push_char(&mut message, '/');
        push_decimal_text(&mut message, threshold as u64);
        proof {
            reveal_strlit("/");
            assert(message@ =~= "registry signature threshold is not met: "@ + decimal_text(verified as nat) + "/"@
                + decimal_text(threshold as nat));
        }
        return Err(message);
    }
    Ok(())
}

/// Once a prefix of the signatures fails, the whole list fails the same way.
proof fn lemma_errors_persist(payload: Seq<u8>, signatures: Seq<DocumentSignature>, keys: Seq<RegistryKey>, n: int)
    requires
        0 <= n <= signatures.len(),
        verified_count(payload, signatures.take(n), keys) is Err,
    ensures
        verified_count(payload, signatures, keys) == verified_count(payload, signatures.take(n), keys),
    decreases signatures.len() - n,
{
    if n < signatures.len() {
        assert(signatures.take(n + 1).drop_last() =~= signatures.take(n));
        lemma_errors_persist(payload, signatures, keys, n + 1);
    } else {
        assert(signatures.take(n) =~= signatures);
    }
}

// ---------------------------------------------------------------------------
// The registry root

/// Whether `ids[i]` sorts strictly before `ids[i + 1]`.
pub open spec fn adjacent_less(ids: Seq<Seq<char>>, i: int) -> bool {
    text_less(ids[i], ids[i + 1])
}

/// Strictly increasing, so sorted and without duplicates.
pub open spec fn sorted_unique(ids: Seq<Seq<char>>) -> bool {
    forall|i: int| 0 <= i < ids.len() - 1 ==> #[trigger] adjacent_less(ids, i)
}

pub open spec fn key_ids(keys: Seq<RegistryKey>) -> Seq<Seq<char>> {
    keys.map_values(|k: RegistryKey| k.key_id@)
}

pub open spec fn signature_ids(signatures: Seq<DocumentSignature>) -> Seq<Seq<char>> {
    signatures.map_values(|s: DocumentSignature| s.key_id@)
}

fn keys_sorted_unique(keys: &Vec<RegistryKey>) -> (r: bool)
    ensures
        r == sorted_unique(key_ids(keys@)),
{
    let mut i: usize = 1;
    while i < keys.len()
        invariant
            1 <= i,
            forall|k: int| 0 <= k < i - 1 && k < keys@.len() - 1 ==> #[trigger] adjacent_less(key_ids(keys@), k),
        decreases keys.len() - i,
    {
        if !str_less(keys[i - 1].key_id.as_str(), keys[i].key_id.as_str()) {
            assert(!adjacent_less(key_ids(keys@), i - 1));
            return false;
        }
        i = i + 1;
    }
    true
}

fn signatures_sorted_unique(signatures: &Vec<DocumentSignature>) -> (r: bool)
    ensures
        r == sorted_unique(signature_ids(signatures@)),
{
    let mut i: usize = 1;
    while i < signatures.len()
        invariant
            1 <= i,
            forall|k: int| 0 <= k < i - 1 && k < signatures@.len() - 1 ==> #[trigger] adjacent_less(signature_ids(signatures@), k),
        decreases signatures.len() - i,
    {
        if !str_less(signatures[i - 1].key_id.as_str(), signatures[i].key_id.as_str()) {
            assert(!adjacent_less(signature_ids(signatures@), i - 1));
            return false;
        }
        i = i + 1;
    }
    true
}

/// The first shape error among some signatures, in order.
pub open spec fn first_shape_error(signatures: Seq<DocumentSignature>) -> Option<Seq<char>>
    decreases signatures.len(),
{
    if signatures.len() == 0 {
        None
    } else {
        match first_shape_error(signatures.drop_last()) {
            Some(e) => Some(e),
            None => signature_shape_error(signatures.last()),
        }
    }
}

proof fn lemma_first_error_persists(signatures: Seq<DocumentSignature>, n: int)
    requires
        0 <= n <= signatures.len(),
        first_shape_error(signatures.take(n)) is Some,
    ensures
        first_shape_error(signatures) == first_shape_error(signatures.take(n)),
    decreases signatures.len() - n,
{
    if n < signatures.len() {
        assert(signatures.take(n + 1).drop_last() =~= signatures.take(n));
        lemma_first_error_persists(signatures, n + 1);
    } else {
        assert(signatures.take(n) =~= signatures);
    }
}

fn check_signature_shapes(signatures: &Vec<DocumentSignature>) -> (r: Result<(), String>)
    ensures
        check_result(r, first_shape_error(signatures@)),
{
    let mut i: usize = 0;
    while i < signatures.len()
        invariant
            i <= signatures@.len(),
            first_shape_error(signatures@.take(i as int)) is None,
        decreases signatures.len() - i,
    {
        proof {
            assert(signatures@.take(i + 1).drop_last() =~= signatures@.take(i as int));
        }
        match validate_signature_shape(&signatures[i]) {
            Err(e) => {
                proof {
                    lemma_first_error_persists(signatures@, i + 1);
                }
                return Err(e);
            },
            Ok(()) => {},
        }
        i = i + 1;
    }
    assert(signatures@.take(signatures@.len() as int) =~= signatures@);
    Ok(())
}

/// The error for one registry key, if any: its state is 1, 2 or 3, its
/// public key is 32 bytes of lowercase hex, and its id is the hex SHA-256
/// of those bytes.
pub open spec fn key_error(key: RegistryKey) -> Option<Seq<char>> {
    if !(1 <= key.state_code <= 3) {
        Some("registry key stateCode must be 1, 2, or 3"@)
    } else if !is_lower_hex_of(encode_utf8(key.public_key@), 32) {
        Some(hex_error("registry public key"@, 32))
    } else if key.key_id@ != hex_encoded(sha256_digest(hex_decoded(encode_utf8(key.public_key@)))) {
        Some("registry keyId does not match its public key"@)
    } else {
        None
    }
}

pub open spec fn first_key_error(keys: Seq<RegistryKey>) -> Option<Seq<char>>
    decreases keys.len(),
{
    if keys.len() == 0 {
        None
    } else {
        match first_key_error(keys.drop_last()) {
            Some(e) => Some(e),
            None => key_error(keys.last()),
        }
    }
}

proof fn lemma_first_key_error_persists(keys: Seq<RegistryKey>, n: int)
    requires
        0 <= n <= keys.len(),
        first_key_error(keys.take(n)) is Some,
    ensures
        first_key_error(keys) == first_key_error(keys.take(n)),
    decreases keys.len() - n,
{
    if n < keys.len() {
        assert(keys.take(n + 1).drop_last() =~= keys.take(n));
        lemma_first_key_error_persists(keys, n + 1);
    } else {
        assert(keys.take(n) =~= keys);
    }
}

/// The hex key id of a public key: its SHA-256 in lowercase hex.
pub fn key_id_of(public_key: &[u8]) -> (id: String)
    ensures
        id@ == hex_encoded(sha256_digest(public_key@)),
{
    let digest = sha256(public_key);
    encode_hex(digest.as_slice())
}

fn check_key(key: &RegistryKey) -> (r: Result<(), String>)
    ensures
        check_result(r, key_error(*key)),
{
    if key.state_code < 1 || key.state_code > 3 {
        return Err(String::from_str("registry key stateCode must be 1, 2, or 3"));
    }
    let public_key = match decode_hex(key.public_key.as_str(), 32, "registry public key") {
        Err(e) => return Err(e),
        Ok(bytes) => bytes,
    };
    let expected = key_id_of(public_key.as_slice());
    if !str_eq(key.key_id.as_str(), expected.as_str()) {
        return Err(String::from_str("registry keyId does not match its public key"));
    }
    Ok(())
}

fn check_keys(keys: &Vec<RegistryKey>) -> (r: Result<(), String>)
    ensures
        check_result(r, first_key_error(keys@)),
{
    let mut i: usize = 0;
    while i < keys.len()
        invariant
            i <= keys@.len(),
            first_key_error(keys@.take(i as int)) is None,
        decreases keys.len() - i,
    {
        proof {
            assert(keys@.take(i + 1).drop_last() =~= keys@.take(i as int));
        }
        match check_key(&keys[i]) {
            Err(e) => {
                proof {
                    lemma_first_key_error_persists(keys@, i + 1);
                }
                return Err(e);
            },
            Ok(()) => {},
        }
        i = i + 1;
    }
    assert(keys@.take(keys@.len() as int) =~= keys@);
    Ok(())
}

/// The number of keys with state 1.
pub open spec fn active_count(keys: Seq<RegistryKey>) -> nat
    decreases keys.len(),
{
    if keys.len() == 0 {
        0
    } else {
        active_count(keys.drop_last()) + if keys.last().state_code == 1 { 1nat } else { 0nat }
    }
}

fn count_active(keys: &Vec<RegistryKey>) -> (n: usize)
    ensures
        n == active_count(keys@),
{
    let mut n: usize = 0;
    let mut i: usize = 0;
    while i < keys.len()
        invariant
            i <= keys@.len(),
            n <= i,
            n == active_count(keys@.take(i as int)),
        decreases keys.len() - i,
    {
        proof {
            assert(keys@.take(i + 1).drop_last() =~= keys@.take(i as int));
        }
        if keys[i].state_code == 1 {
            n = n + 1;
        }
        i = i + 1;
    }
    assert(keys@.take(keys@.len() as int) =~= keys@);
    n
}

pub open spec fn saturating_add_u64(a: u64, b: u64) -> int {
    if a + b > u64::MAX { u64::MAX as int } else { a + b }
}

/// Why a registry root is not well formed at time `now`, if it is not; the
/// rules are checked in this order.
pub open spec fn root_structure_error(root: RegistryRoot, now: u64) -> Option<Seq<char>> {
    if root.schema_version != SCHEMA_VERSION || root.generation == 0 || root.keys@.len() == 0
        || root.keys@.len() > MAX_KEYS || root.signatures@.len() > MAX_SIGNATURES
        || root.previous_signatures@.len() > MAX_SIGNATURES {
        Some("registry root violates schema 1 bounds"@)
    } else if !is_bounded_https(root.registry@) {
        Some("registry must be a bounded HTTPS URL"@)
    } else if root.expires_at_unix <= now {
        Some("registry root is expired"@)
    } else if root.issued_at_unix > saturating_add_u64(now, CLOCK_SKEW_SECONDS) || root.expires_at_unix <= root.issued_at_unix
        || root.expires_at_unix - root.issued_at_unix > ROOT_MAX_VALIDITY_SECONDS {
        Some("registry root validity window is invalid or exceeds 366 days"@)
    } else if root.threshold == 0 || root.threshold > active_count(root.keys@) {
        Some("registry root threshold exceeds its active key count"@)
    } else if !sorted_unique(key_ids(root.keys@)) {
        Some("registry keys must be sorted and unique"@)
    } else if !sorted_unique(signature_ids(root.signatures@)) {
        Some("root signatures must be sorted and unique"@)
    } else if !sorted_unique(signature_ids(root.previous_signatures@)) {
        Some("previous root signatures must be sorted and unique"@)
    } else if first_shape_error(root.signatures@ + root.previous_signatures@) is Some {
        first_shape_error(root.signatures@ + root.previous_signatures@)
    } else {
        first_key_error(root.keys@)
    }
}

fn check_root_window(root: &RegistryRoot, now: u64) -> (r: Result<(), String>)
    ensures
        check_result(r, if root.expires_at_unix <= now {
            Some("registry root is expired"@)
        } else if root.issued_at_unix > saturating_add_u64(now, CLOCK_SKEW_SECONDS) || root.expires_at_unix <= root.issued_at_unix
            || root.expires_at_unix - root.issued_at_unix > ROOT_MAX_VALIDITY_SECONDS {
            Some("registry root validity window is invalid or exceeds 366 days"@)
        } else {
            None
        }),
{
    if root.expires_at_unix <= now {
        return Err(String::from_str("registry root is expired"));
    }
    if root.issued_at_unix > now.saturating_add(CLOCK_SKEW_SECONDS) || root.expires_at_unix <= root.issued_at_unix
        || root.expires_at_unix - root.issued_at_unix > ROOT_MAX_VALIDITY_SECONDS {
        return Err(String::from_str("registry root validity window is invalid or exceeds 366 days"));
    }
    Ok(())
}

proof fn lemma_first_shape_error_concat(a: Seq<DocumentSignature>, b: Seq<DocumentSignature>)
    ensures
        first_shape_error(a + b) == match first_shape_error(a) {
            Some(e) => Some(e),
            None => first_shape_error(b),
        },
    decreases b.len(),
{
    if b.len() == 0 {
        assert(a + b =~= a);
    } else {
        assert((a + b).drop_last() =~= a + b.drop_last());
        assert((a + b).last() == b.last());
        lemma_first_shape_error_concat(a, b.drop_last());
    }
}

fn check_all_signature_shapes(first: &Vec<DocumentSignature>, second: &Vec<DocumentSignature>) -> (r: Result<(), String>)
    ensures
        check_result(r, first_shape_error(first@ + second@)),
{
    proof {
        lemma_first_shape_error_concat(first@, second@);
    }
    match check_signature_shapes(first) {
        Err(e) => Err(e),
        Ok(()) => check_signature_shapes(second),
    }
}

/// Accepts a registry root that is well formed at time `now`: schema
/// bounds, an HTTPS identity, a current validity window of at most 366 days,
/// a threshold within its active keys, sorted unique keys and signatures,
/// well-shaped signatures, and key ids that are the SHA-256 of their keys.
pub fn validate_root_structure(root: &RegistryRoot, now: u64) -> (r: Result<(), String>)
    ensures
        check_result(r, root_structure_error(*root, now)),
{
    if root.schema_version != SCHEMA_VERSION || root.generation == 0 || root.keys.len() == 0
        || root.keys.len() > MAX_KEYS || root.signatures.len() > MAX_SIGNATURES
        || root.previous_signatures.len() > MAX_SIGNATURES {
        return Err(String::from_str("registry root violates schema 1 bounds"));
    }
    match validate_https(root.registry.as_str(), "registry") {
        Err(e) => {
            proof {
                reveal_strlit("registry");
                reveal_strlit(" must be a bounded HTTPS URL");
                reveal_strlit("registry must be a bounded HTTPS URL");
                assert(e@ =~= "registry must be a bounded HTTPS URL"@);
            }
            return Err(e);
        },
        Ok(()) => {},
    }
    match check_root_window(root, now) {
        Err(e) => return Err(e),
        Ok(()) => {},
    }
    let active = count_active(&root.keys);
    if root.threshold == 0 || root.threshold as usize > active {
        return Err(String::from_str("registry root threshold exceeds its active key count"));
    }
    if !keys_sorted_unique(&root.keys) {
        return Err(String::from_str("registry keys must be sorted and unique"));
    }
    if !signatures_sorted_unique(&root.signatures) {
        return Err(String::from_str("root signatures must be sorted and unique"));
    }
    if !signatures_sorted_unique(&root.previous_signatures) {
        return Err(String::from_str("previous root signatures must be sorted and unique"));
    }
    match check_all_signature_shapes(&root.signatures, &root.previous_signatures) {
        Err(e) => return Err(e),
        Ok(()) => {},
    }
    check_keys(&root.keys)
}

/// Accepts a registry root that is well formed at its own issue time.
pub fn validate_root_shape(root: &RegistryRoot) -> (r: Result<(), String>)
    ensures
        check_result(r, root_structure_error(*root, root.issued_at_unix)),
{
    validate_root_structure(root, root.issued_at_unix)
}

/// Why the bytes of a registry root are not the trusted ones, if they are not:
/// the expected fingerprint must be 32 bytes of lowercase hex and equal the
/// SHA-256 of the bytes.
pub open spec fn fingerprint_error(expected: Seq<char>, bytes: Seq<u8>) -> Option<Seq<char>> {
    if !is_lower_hex_of(encode_utf8(expected), 32) {
        Some(hex_error("root SHA-256"@, 32))
    } else if hex_encoded(sha256_digest(bytes)) != expected {
        Some("registry root fingerprint mismatch: expected "@ + expected + ", received "@
            + hex_encoded(sha256_digest(bytes)))
    } else {
        None
    }
}

/// Accepts root document bytes whose SHA-256 is the pinned fingerprint.
pub fn check_root_fingerprint(expected_sha256: &str, bytes: &[u8]) -> (r: Result<(), String>)
    ensures
        check_result(r, fingerprint_error(expected_sha256@, bytes@)),
{
    match validate_lower_hex(expected_sha256, 32, "root SHA-256") {
        Err(e) => return Err(e),
        Ok(()) => {},
    }
    let actual = key_id_of(bytes);
    if !str_eq(actual.as_str(), expected_sha256) {
        let mut message = concat_str("registry root fingerprint mismatch: expected ", expected_sha256);
        message.append(", received ");
        message.append(actual.as_str());
        return Err(message);
    }
    Ok(())
}

/// Why a parsed registry root cannot be trusted at time `now`, if it cannot:
/// it must be well formed and signed by its own threshold of active keys.
pub open spec fn root_trust_error(root: RegistryRoot, now: u64) -> Option<Seq<char>> {
    match root_structure_error(root, now) {
        Some(e) => Some(e),
        None => threshold_error(root_payload(root), root.signatures@, root.keys@, root.threshold),
    }
}

/// Accepts a parsed registry root that is well formed and signed by its own
/// threshold of active keys.
pub fn verify_root(root: &RegistryRoot, now: u64) -> (r: Result<(), String>)
    ensures
        check_result(r, root_trust_error(*root, now)),
{
    match validate_root_structure(root, now) {
        Err(e) => return Err(e),
        Ok(()) => {},
    }
    let payload = match canonical_root_payload(root) {
        Ok(bytes) => bytes,
        Err(e) => return Err(e),
    };
    verify_threshold(payload.as_slice(), &root.signatures, &root.keys, root.threshold)
}

// ---------------------------------------------------------------------------
// The plugin catalog

/// `(package, version)` pairs in Rust's tuple order.
pub open spec fn pair_less(p1: Seq<char>, v1: Seq<char>, p2: Seq<char>, v2: Seq<char>) -> bool {
    text_less(p1, p2) || (p1 == p2 && text_less(v1, v2))
}

pub open spec fn release_step(plugins: Seq<PluginRelease>, i: int) -> bool {
    pair_less(plugins[i].package@, plugins[i].version@, plugins[i + 1].package@, plugins[i + 1].version@)
}

pub open spec fn revocation_step(items: Seq<PluginRevocation>, i: int) -> bool {
    pair_less(items[i].package@, items[i].version@, items[i + 1].package@, items[i + 1].version@)
}

fn pair_lt(p1: &str, v1: &str, p2: &str, v2: &str) -> (r: bool)
    ensures
        r == pair_less(p1@, v1@, p2@, v2@),
{
    str_less(p1, p2) || (str_eq(p1, p2) && str_less(v1, v2))
}

fn releases_sorted_unique(plugins: &Vec<PluginRelease>) -> (r: bool)
    ensures
        r == forall|i: int| 0 <= i < plugins@.len() - 1 ==> #[trigger] release_step(plugins@, i),
{
    let mut i: usize = 1;
    while i < plugins.len()
        invariant
            1 <= i,
            forall|k: int| 0 <= k < i - 1 && k < plugins@.len() - 1 ==> #[trigger] release_step(plugins@, k),
        decreases plugins.len() - i,
    {
        let a = &plugins[i - 1];
        let b = &plugins[i];
        if !pair_lt(a.package.as_str(), a.version.as_str(), b.package.as_str(), b.version.as_str()) {
            assert(!release_step(plugins@, i - 1));
            return false;
        }
        i = i + 1;
    }
    true
}

fn revocations_sorted_unique(items: &Vec<PluginRevocation>) -> (r: bool)
    ensures
        r == forall|i: int| 0 <= i < items@.len() - 1 ==> #[trigger] revocation_step(items@, i),
{
    let mut i: usize = 1;
    while i < items.len()
        invariant
            1 <= i,
            forall|k: int| 0 <= k < i - 1 && k < items@.len() - 1 ==> #[trigger] revocation_step(items@, k),
        decreases items.len() - i,
    {
        let a = &items[i - 1];
        let b = &items[i];
        if !pair_lt(a.package.as_str(), a.version.as_str(), b.package.as_str(), b.version.as_str()) {
            assert(!revocation_step(items@, i - 1));
            return false;
        }
        i = i + 1;
    }
    true
}

pub open spec fn code_step(codes: Seq<u8>, i: int) -> bool {
    codes[i] < codes[i + 1]
}

/// One to three surface codes, each 1, 2 or 3, strictly increasing.
pub open spec fn surface_codes_valid(codes: Seq<u8>) -> bool {
    &&& 0 < codes.len() <= 3
    &&& forall|i: int| 0 <= i < codes.len() - 1 ==> #[trigger] code_step(codes, i)
    &&& forall|i: int| 0 <= i < codes.len() ==> 1 <= #[trigger] codes[i] <= 3
}

fn check_surface_codes(codes: &Vec<u8>) -> (r: bool)
    ensures
        r == surface_codes_valid(codes@),
{
    if codes.len() == 0 || codes.len() > 3 {
        return false;
    }
    let mut i: usize = 0;
    while i < codes.len()
        invariant
            i <= codes@.len(),
            forall|k: int| 0 <= k < i && k < codes@.len() - 1 ==> #[trigger] code_step(codes@, k),
            forall|k: int| 0 <= k < i ==> 1 <= #[trigger] codes@[k] <= 3,
        decreases codes.len() - i,
    {
        if codes[i] < 1 || codes[i] > 3 {
            return false;
        }
        if i + 1 < codes.len() && codes[i] >= codes[i + 1] {
            assert(!code_step(codes@, i as int));
            return false;
        }
        i = i + 1;
    }
    true
}

fn contains_code(codes: &Vec<u8>, code: u8) -> (r: bool)
    ensures
        r == codes@.contains(code),
{
    let mut i: usize = 0;
    while i < codes.len()
        invariant
            i <= codes@.len(),
            forall|k: int| 0 <= k < i ==> codes@[k] != code,
        decreases codes.len() - i,
    {
        if codes[i] == code {
            return true;
        }
        i = i + 1;
    }
    false
}

/// Whether `(package, version)` is revoked.
pub open spec fn is_revoked(items: Seq<PluginRevocation>, package: Seq<char>, version: Seq<char>) -> bool {
    exists|j: int| 0 <= j < items.len() && #[trigger] items[j].package@ == package && items[j].version@ == version
}

fn revoked(items: &Vec<PluginRevocation>, package: &str, version: &str) -> (r: bool)
    ensures
        r == is_revoked(items@, package@, version@),
{
    let mut j: usize = 0;
    while j < items.len()
        invariant
            j <= items@.len(),
            forall|k: int| 0 <= k < j ==> !(#[trigger] items@[k].package@ == package@ && items@[k].version@ == version@),
        decreases items.len() - j,
    {
        if str_eq(items[j].package.as_str(), package) && str_eq(items[j].version.as_str(), version) {
            return true;
        }
        j = j + 1;
    }
    false
}

pub open spec fn version_error(v: Seq<char>) -> Option<Seq<char>> {
    match semver_version_error(v) {
        None => None,
        Some(error) => Some("plugin version is not SemVer: "@ + error),
    }
}

pub open spec fn requirement_error(v: Seq<char>) -> Option<Seq<char>> {
    if encode_utf8(v).len() > 128 {
        Some("plugin PAM compatibility requirement is too long"@)
    } else {
        match semver_requirement_error(v) {
            None => None,
            Some(error) => Some("plugin PAM compatibility requirement is invalid: "@ + error),
        }
    }
}

/// The error for the identity and artifact of a release, if any.
pub open spec fn release_artifact_error(plugin: PluginRelease) -> Option<Seq<char>> {
    if package_error(plugin.package@) is Some {
        package_error(plugin.package@)
    } else if version_error(plugin.version@) is Some {
        version_error(plugin.version@)
    } else if !(1 <= plugin.artifact_kind_code <= 3) {
        Some("plugin artifactKindCode must be 1, 2, or 3"@)
    } else if (plugin.artifact_kind_code == 2 && !plugin.surface_codes@.contains(2u8))
        || (plugin.artifact_kind_code == 3 && !plugin.surface_codes@.contains(3u8)) {
        Some("native and Desktop artifacts must target their matching surface"@)
    } else if !is_bounded_https(plugin.artifact_url@) {
        Some("plugin artifact URL must be a bounded HTTPS URL"@)
    } else if !is_lower_hex_of(encode_utf8(plugin.sha256@), 32) {
        Some(hex_error("plugin SHA-256"@, 32))
    } else {
        None
    }
}

/// The error for one release of a catalog generated at `generated`, if any.
pub open spec fn release_error(plugin: PluginRelease, generated: u64, revocations: Seq<PluginRevocation>) -> Option<Seq<char>> {
    if release_artifact_error(plugin) is Some {
        release_artifact_error(plugin)
    } else if plugin.published_at_unix > generated || !surface_codes_valid(plugin.surface_codes@) {
        Some("plugin release has invalid timestamps or surface codes"@)
    } else if requirement_error(plugin.compatibility.pam@) is Some {
        requirement_error(plugin.compatibility.pam@)
    } else if plugin.surface_codes@.contains(2u8) && plugin.compatibility.native_protocol is None {
        Some("Native plugins must declare nativeProtocol compatibility"@)
    } else if plugin.surface_codes@.contains(3u8) && plugin.compatibility.desktop_protocol is None {
        Some("Desktop plugins must declare desktopProtocol compatibility"@)
    } else if is_revoked(revocations, plugin.package@, plugin.version@) {
        Some("a revoked plugin release cannot remain installable"@)
    } else {
        None
    }
}

fn check_release_artifact(plugin: &PluginRelease) -> (r: Result<(), String>)
    ensures
        check_result(r, release_artifact_error(*plugin)),
{
    match validate_package(plugin.package.as_str()) {
        Err(e) => return Err(e),
        Ok(()) => {},
    }
    match validate_version(plugin.version.as_str()) {
        Err(e) => return Err(e),
        Ok(()) => {},
    }
    if plugin.artifact_kind_code < 1 || plugin.artifact_kind_code > 3 {
        return Err(String::from_str("plugin artifactKindCode must be 1, 2, or 3"));
    }
    if (plugin.artifact_kind_code == 2 && !contains_code(&plugin.surface_codes, 2))
        || (plugin.artifact_kind_code == 3 && !contains_code(&plugin.surface_codes, 3)) {
        return Err(String::from_str("native and Desktop artifacts must target their matching surface"));
    }
    match validate_https(plugin.artifact_url.as_str(), "plugin artifact URL") {
        Err(e) => {
            proof {
                reveal_strlit("plugin artifact URL");
                reveal_strlit(" must be a bounded HTTPS URL");
                reveal_strlit("plugin artifact URL must be a bounded HTTPS URL");
                assert(e@ =~= "plugin artifact URL must be a bounded HTTPS URL"@);
            }
            return Err(e);
        },
        Ok(()) => {},
    }
    validate_lower_hex(plugin.sha256.as_str(), 32, "plugin SHA-256")
}

fn check_release(plugin: &PluginRelease, generated: u64, revocations: &Vec<PluginRevocation>) -> (r: Result<(), String>)
    ensures
        check_result(r, release_error(*plugin, generated, revocations@)),
{
    match check_release_artifact(plugin) {
        Err(e) => return Err(e),
        Ok(()) => {},
    }
    if plugin.published_at_unix > generated || !check_surface_codes(&plugin.surface_codes) {
        return Err(String::from_str("plugin release has invalid timestamps or surface codes"));
    }
    match validate_version_requirement(plugin.compatibility.pam.as_str()) {
        Err(e) => return Err(e),
        Ok(()) => {},
    }
    if contains_code(&plugin.surface_codes, 2) && plugin.compatibility.native_protocol.is_none() {
        return Err(String::from_str("Native plugins must declare nativeProtocol compatibility"));
    }
    if contains_code(&plugin.surface_codes, 3) && plugin.compatibility.desktop_protocol.is_none() {
        return Err(String::from_str("Desktop plugins must declare desktopProtocol compatibility"));
    }
    if revoked(revocations, plugin.package.as_str(), plugin.version.as_str()) {
        return Err(String::from_str("a revoked plugin release cannot remain installable"));
    }
    Ok(())
}

pub open spec fn first_release_error(plugins: Seq<PluginRelease>, generated: u64, revocations: Seq<PluginRevocation>) -> Option<Seq<char>>
    decreases plugins.len(),
{
    if plugins.len() == 0 {
        None
    } else {
        match first_release_error(plugins.drop_last(), generated, revocations) {
            Some(e) => Some(e),
            None => release_error(plugins.last(), generated, revocations),
        }
    }
}

proof fn lemma_first_release_error_persists(plugins: Seq<PluginRelease>, generated: u64, revocations: Seq<PluginRevocation>, n: int)
    requires
        0 <= n <= plugins.len(),
        first_release_error(plugins.take(n), generated, revocations) is Some,
    ensures
        first_release_error(plugins, generated, revocations) == first_release_error(plugins.take(n), generated, revocations),
    decreases plugins.len() - n,
{
    if n < plugins.len() {
        assert(plugins.take(n + 1).drop_last() =~= plugins.take(n));
        lemma_first_release_error_persists(plugins, generated, revocations, n + 1);
    } else {
        assert(plugins.take(n) =~= plugins);
    }
}

fn check_releases(plugins: &Vec<PluginRelease>, generated: u64, revocations: &Vec<PluginRevocation>) -> (r: Result<(), String>)
    ensures
        check_result(r, first_release_error(plugins@, generated, revocations@)),
{
    let mut i: usize = 0;
    while i < plugins.len()
        invariant
            i <= plugins@.len(),
            first_release_error(plugins@.take(i as int), generated, revocations@) is None,
        decreases plugins.len() - i,
    {
        proof {
            assert(plugins@.take(i + 1).drop_last() =~= plugins@.take(i as int));
        }
        match check_release(&plugins[i], generated, revocations) {
            Err(e) => {
                proof {
                    lemma_first_release_error_persists(plugins@, generated, revocations@, i + 1);
                }
                return Err(e);
            },
            Ok(()) => {},
        }
        i = i + 1;
    }
    assert(plugins@.take(plugins@.len() as int) =~= plugins@);
    Ok(())
}

/// The error for one revocation, if any.
pub open spec fn revocation_error(item: PluginRevocation, generated: u64) -> Option<Seq<char>> {
    if package_error(item.package@) is Some {
        package_error(item.package@)
    } else if version_error(item.version@) is Some {
        version_error(item.version@)
    } else if !(1 <= item.reason_code <= 4) || item.revoked_at_unix > generated {
        Some("plugin revocation has an invalid reasonCode or timestamp"@)
    } else {
        None
    }
}

pub open spec fn first_revocation_error(items: Seq<PluginRevocation>, generated: u64) -> Option<Seq<char>>
    decreases items.len(),
{
    if items.len() == 0 {
        None
    } else {
        match first_revocation_error(items.drop_last(), generated) {
            Some(e) => Some(e),
            None => revocation_error(items.last(), generated),
        }
    }
}

proof fn lemma_first_revocation_error_persists(items: Seq<PluginRevocation>, generated: u64, n: int)
    requires
        0 <= n <= items.len(),
        first_revocation_error(items.take(n), generated) is Some,
    ensures
        first_revocation_error(items, generated) == first_revocation_error(items.take(n), generated),
    decreases items.len() - n,
{
    if n < items.len() {
        assert(items.take(n + 1).drop_last() =~= items.take(n));
        lemma_first_revocation_error_persists(items, generated, n + 1);
    } else {
        assert(items.take(n) =~= items);
    }
}

fn check_revocation(item: &PluginRevocation, generated: u64) -> (r: Result<(), String>)
    ensures
        check_result(r, revocation_error(*item, generated)),
{
    match validate_package(item.package.as_str()) {
        Err(e) => return Err(e),
        Ok(()) => {},
    }
    match validate_version(item.version.as_str()) {
        Err(e) => return Err(e),
        Ok(()) => {},
    }
    if item.reason_code < 1 || item.reason_code > 4 || item.revoked_at_unix > generated {
        return Err(String::from_str("plugin revocation has an invalid reasonCode or timestamp"));
    }
    Ok(())
}

fn check_revocations(items: &Vec<PluginRevocation>, generated: u64) -> (r: Result<(), String>)
    ensures
        check_result(r, first_revocation_error(items@, generated)),
{
    let mut i: usize = 0;
    while i < items.len()
        invariant
            i <= items@.len(),
            first_revocation_error(items@.take(i as int), generated) is None,
        decreases items.len() - i,
    {
        proof {
            assert(items@.take(i + 1).drop_last() =~= items@.take(i as int));
        }
        match check_revocation(&items[i], generated) {
            Err(e) => {
                proof {
                    lemma_first_revocation_error_persists(items@, generated, i + 1);
                }
                return Err(e);
            },
            Ok(()) => {},
        }
        i = i + 1;
    }
    assert(items@.take(items@.len() as int) =~= items@);
    Ok(())
}

/// Why a catalog is not fit to be signed, if it is not; the rules are
/// checked in this order.
pub open spec fn catalog_shape_error(catalog: PluginCatalog) -> Option<Seq<char>> {
    if catalog.schema_version != SCHEMA_VERSION || catalog.root_generation == 0 || catalog.sequence == 0
        || catalog.plugins@.len() > MAX_PLUGINS || catalog.revocations@.len() > MAX_REVOCATIONS
        || catalog.signatures@.len() > MAX_SIGNATURES || catalog.expires_at_unix <= catalog.generated_at_unix
        || catalog.expires_at_unix - catalog.generated_at_unix > CATALOG_MAX_VALIDITY_SECONDS {
        Some("plugin catalog violates schema 1 bounds"@)
    } else if !is_bounded_https(catalog.registry@) {
        Some("registry must be a bounded HTTPS URL"@)
    } else if !(forall|i: int| 0 <= i < catalog.plugins@.len() - 1 ==> #[trigger] release_step(catalog.plugins@, i)) {
        Some("plugin releases must be sorted and unique"@)
    } else if first_shape_error(catalog.signatures@) is Some {
        first_shape_error(catalog.signatures@)
    } else if !(forall|i: int| 0 <= i < catalog.revocations@.len() - 1 ==> #[trigger] revocation_step(catalog.revocations@, i)) {
        Some("plugin revocations must be sorted and unique"@)
    } else if !sorted_unique(signature_ids(catalog.signatures@)) {
        Some("catalog signatures must be sorted and unique"@)
    } else if first_release_error(catalog.plugins@, catalog.generated_at_unix, catalog.revocations@) is Some {
        first_release_error(catalog.plugins@, catalog.generated_at_unix, catalog.revocations@)
    } else {
        first_revocation_error(catalog.revocations@, catalog.generated_at_unix)
    }
}

/// Accepts a catalog whose shape is fit to be signed: schema bounds, an
/// HTTPS identity, sorted unique releases, revocations and signatures, and
/// valid releases none of which is revoked.
pub fn validate_catalog_shape_for_signing(catalog: &PluginCatalog) -> (r: Result<(), String>)
    ensures
        check_result(r, catalog_shape_error(*catalog)),
{
    if catalog.schema_version != SCHEMA_VERSION || catalog.root_generation == 0 || catalog.sequence == 0
        || catalog.plugins.len() > MAX_PLUGINS || catalog.revocations.len() > MAX_REVOCATIONS
        || catalog.signatures.len() > MAX_SIGNATURES || catalog.expires_at_unix <= catalog.generated_at_unix
        || catalog.expires_at_unix - catalog.generated_at_unix > CATALOG_MAX_VALIDITY_SECONDS {
        return Err(String::from_str("plugin catalog violates schema 1 bounds"));
    }
    match validate_https(catalog.registry.as_str(), "registry") {
        Err(e) => {
            proof {
                reveal_strlit("registry");
                reveal_strlit(" must be a bounded HTTPS URL");
                reveal_strlit("registry must be a bounded HTTPS URL");
                assert(e@ =~= "registry must be a bounded HTTPS URL"@);
            }
            return Err(e);
        },
        Ok(()) => {},
    }
    if !releases_sorted_unique(&catalog.plugins) {
        return Err(String::from_str("plugin releases must be sorted and unique"));
    }
    match check_signature_shapes(&catalog.signatures) {
        Err(e) => return Err(e),
        Ok(()) => {},
    }
    if !revocations_sorted_unique(&catalog.revocations) {
        return Err(String::from_str("plugin revocations must be sorted and unique"));
    }
    if !signatures_sorted_unique(&catalog.signatures) {
        return Err(String::from_str("catalog signatures must be sorted and unique"));
    }
    match check_releases(&catalog.plugins, catalog.generated_at_unix, &catalog.revocations) {
        Err(e) => return Err(e),
        Ok(()) => {},
    }
    check_revocations(&catalog.revocations, catalog.generated_at_unix)
}

/// Why a catalog cannot be trusted under a root at time `now`, if it cannot:
/// it must belong to the root, be current within the root's validity, be
/// well formed, and be signed by the root's threshold of active keys.
pub open spec fn catalog_trust_error(catalog: PluginCatalog, root: RegistryRoot, now: u64) -> Option<Seq<char>> {
    if catalog.registry@ != root.registry@ || catalog.root_generation != root.generation {
        Some("plugin catalog does not match the trusted registry root"@)
    } else if catalog.generated_at_unix > saturating_add_u64(now, CLOCK_SKEW_SECONDS)
        || catalog.generated_at_unix < root.issued_at_unix || catalog.expires_at_unix <= now
        || catalog.expires_at_unix <= catalog.generated_at_unix || catalog.expires_at_unix > root.expires_at_unix
        || catalog.expires_at_unix - catalog.generated_at_unix > CATALOG_MAX_VALIDITY_SECONDS {
        Some("plugin catalog timestamps are invalid or expired"@)
    } else if catalog_shape_error(catalog) is Some {
        catalog_shape_error(catalog)
    } else {
        threshold_error(catalog_payload(catalog), catalog.signatures@, root.keys@, root.threshold)
    }
}

/// Accepts a catalog that a trusted root vouches for at time `now`.
pub fn validate_catalog(catalog: &PluginCatalog, root: &RegistryRoot, now: u64) -> (r: Result<(), String>)
    ensures
        check_result(r, catalog_trust_error(*catalog, *root, now)),
{
    if !str_eq(catalog.registry.as_str(), root.registry.as_str()) || catalog.root_generation != root.generation {
        return Err(String::from_str("plugin catalog does not match the trusted registry root"));
    }
    if catalog.generated_at_unix > now.saturating_add(CLOCK_SKEW_SECONDS)
        || catalog.generated_at_unix < root.issued_at_unix || catalog.expires_at_unix <= now
        || catalog.expires_at_unix <= catalog.generated_at_unix || catalog.expires_at_unix > root.expires_at_unix
        || catalog.expires_at_unix - catalog.generated_at_unix > CATALOG_MAX_VALIDITY_SECONDS {
        return Err(String::from_str("plugin catalog timestamps are invalid or expired"));
    }
    match validate_catalog_shape_for_signing(catalog) {
        Err(e) => return Err(e),
        Ok(()) => {},
    }
    let payload = match canonical_catalog_payload(catalog) {
        Ok(bytes) => bytes,
        Err(e) => return Err(e),
    };
    verify_threshold(payload.as_slice(), &catalog.signatures, &root.keys, root.threshold)
}

// ---------------------------------------------------------------------------
// Resolution and compatibility

/// Whether a release's PAM requirement admits the running PAM version.
pub open spec fn pam_admits(release: PluginRelease, pam_version: Seq<char>) -> bool {
    semver_requirement_error(release.compatibility.pam@) is None && semver_version_error(pam_version) is None
        && semver_requirement_matches(release.compatibility.pam@, pam_version)
}

/// Whether a release can be installed for a package on a surface with the
/// running PAM version and protocols.
pub open spec fn is_candidate(
    release: PluginRelease,
    package: Seq<char>,
    surface_code: u8,
    pam_version: Seq<char>,
    native_protocol: Option<u32>,
    desktop_protocol: Option<u32>,
) -> bool {
    &&& release.package@ == package
    &&& release.surface_codes@.contains(surface_code)
    &&& pam_admits(release, pam_version)
    &&& (surface_code == 2 ==> release.compatibility.native_protocol == native_protocol)
    &&& (surface_code == 3 ==> release.compatibility.desktop_protocol == desktop_protocol)
    &&& semver_version_error(release.version@) is None
}

/// The index of the candidate with the greatest version (the last of equals),
/// as `Iterator::max_by` picks it.
pub open spec fn best_candidate(
    plugins: Seq<PluginRelease>,
    package: Seq<char>,
    surface_code: u8,
    pam_version: Seq<char>,
    native_protocol: Option<u32>,
    desktop_protocol: Option<u32>,
) -> Option<int>
    decreases plugins.len(),
{
    if plugins.len() == 0 {
        None
    } else {
        let previous = best_candidate(plugins.drop_last(), package, surface_code, pam_version, native_protocol, desktop_protocol);
        let i = plugins.len() - 1;
        if !is_candidate(plugins[i], package, surface_code, pam_version, native_protocol, desktop_protocol) {
            previous
        } else {
            match previous {
                None => Some(i),
                Some(j) => if semver_precedes(plugins[i].version@, plugins[j].version@) {
                    Some(j)
                } else {
                    Some(i)
                },
            }
        }
    }
}

proof fn lemma_best_candidate_bounds(
    plugins: Seq<PluginRelease>,
    package: Seq<char>,
    surface_code: u8,
    pam_version: Seq<char>,
    native_protocol: Option<u32>,
    desktop_protocol: Option<u32>,
)
    ensures
        best_candidate(plugins, package, surface_code, pam_version, native_protocol, desktop_protocol) matches Some(i)
            ==> 0 <= i < plugins.len() && is_candidate(plugins[i], package, surface_code, pam_version, native_protocol, desktop_protocol),
    decreases plugins.len(),
{
    if plugins.len() > 0 {
        lemma_best_candidate_bounds(plugins.drop_last(), package, surface_code, pam_version, native_protocol, desktop_protocol);
    }
}

/// SemVer precedence among the versions of a list of releases behaves as
/// `Ord` on `semver::Version` does: never both ways, and not-before chains.
pub open spec fn precedence_is_ordered(plugins: Seq<PluginRelease>) -> bool {
    &&& forall|a: int, b: int| 0 <= a < plugins.len() && 0 <= b < plugins.len() && semver_precedes(
        #[trigger] plugins[a].version@,
        #[trigger] plugins[b].version@,
    ) ==> !semver_precedes(plugins[b].version@, plugins[a].version@)
    &&& forall|a: int, b: int, c: int| 0 <= a < plugins.len() && 0 <= b < plugins.len() && 0 <= c < plugins.len()
        && !semver_precedes(#[trigger] plugins[a].version@, #[trigger] plugins[b].version@) && !semver_precedes(
        plugins[b].version@,
        #[trigger] plugins[c].version@,
    ) ==> !semver_precedes(plugins[a].version@, plugins[c].version@)
}

/// The release resolution picks is a candidate that no other candidate
/// outranks: no candidate's version comes after its version. And it picks
/// one exactly when there is a candidate at all.
pub proof fn lemma_resolved_release_is_newest(
    plugins: Seq<PluginRelease>,
    package: Seq<char>,
    surface_code: u8,
    pam_version: Seq<char>,
    native_protocol: Option<u32>,
    desktop_protocol: Option<u32>,
)
    requires
        precedence_is_ordered(plugins),
    ensures
        best_candidate(plugins, package, surface_code, pam_version, native_protocol, desktop_protocol) matches Some(i) ==> {
            &&& 0 <= i < plugins.len()
            &&& is_candidate(plugins[i], package, surface_code, pam_version, native_protocol, desktop_protocol)
            &&& forall|k: int| 0 <= k < plugins.len() && is_candidate(#[trigger] plugins[k], package, surface_code,
                pam_version, native_protocol, desktop_protocol) ==> !semver_precedes(plugins[i].version@, plugins[k].version@)
        },
        best_candidate(plugins, package, surface_code, pam_version, native_protocol, desktop_protocol) is None <==> !exists|k: int|
            0 <= k < plugins.len() && is_candidate(#[trigger] plugins[k], package, surface_code, pam_version,
            native_protocol, desktop_protocol),
    decreases plugins.len(),
{
    if plugins.len() > 0 {
        let before = plugins.drop_last();
        let last = plugins.len() - 1;
        assert forall|a: int| 0 <= a < before.len() implies #[trigger] before[a] == plugins[a] by {}
        assert(precedence_is_ordered(before)) by {
            assert forall|a: int, b: int| 0 <= a < before.len() && 0 <= b < before.len() && semver_precedes(
                #[trigger] before[a].version@,
                #[trigger] before[b].version@,
            ) implies !semver_precedes(before[b].version@, before[a].version@) by {
                assert(before[a] == plugins[a] && before[b] == plugins[b]);
            }
            assert forall|a: int, b: int, c: int| 0 <= a < before.len() && 0 <= b < before.len() && 0 <= c < before.len()
                && !semver_precedes(#[trigger] before[a].version@, #[trigger] before[b].version@) && !semver_precedes(
                before[b].version@,
                #[trigger] before[c].version@,
            ) implies !semver_precedes(before[a].version@, before[c].version@) by {
                assert(before[a] == plugins[a] && before[b] == plugins[b] && before[c] == plugins[c]);
            }
        }
        lemma_resolved_release_is_newest(before, package, surface_code, pam_version, native_protocol, desktop_protocol);
        let previous = best_candidate(before, package, surface_code, pam_version, native_protocol, desktop_protocol);
        let v = plugins[last].version@;
        // Precedence is irreflexive on the listed versions.
        assert(!semver_precedes(v, v)) by {
            if semver_precedes(plugins[last].version@, plugins[last].version@) {
                assert(!semver_precedes(plugins[last].version@, plugins[last].version@));
            }
        }
        if is_candidate(plugins[last], package, surface_code, pam_version, native_protocol, desktop_protocol) {
            match previous {
                None => {
                    assert forall|k: int| 0 <= k < plugins.len() && is_candidate(#[trigger] plugins[k], package, surface_code,
                        pam_version, native_protocol, desktop_protocol) implies !semver_precedes(v, plugins[k].version@) by {
                        if k < last {
                            assert(before[k] == plugins[k]);
                        }
                    }
                },
                Some(j) => {
                    assert(before[j] == plugins[j]);
                    if semver_precedes(v, plugins[j].version@) {
                        assert(!semver_precedes(plugins[j].version@, v));
                        assert forall|k: int| 0 <= k < plugins.len() && is_candidate(#[trigger] plugins[k], package,
                            surface_code, pam_version, native_protocol, desktop_protocol) implies !semver_precedes(
                            plugins[j].version@,
                            plugins[k].version@,
                        ) by {
                            if k < last {
                                assert(before[k] == plugins[k]);
                            }
                        }
                    } else {
                        assert forall|k: int| 0 <= k < plugins.len() && is_candidate(#[trigger] plugins[k], package,
                            surface_code, pam_version, native_protocol, desktop_protocol) implies !semver_precedes(
                            v,
                            plugins[k].version@,
                        ) by {
                            if k < last {
                                assert(before[k] == plugins[k]);
                                assert(!semver_precedes(plugins[j].version@, plugins[k].version@));
                                assert(!semver_precedes(plugins[last].version@, plugins[j].version@));
                            }
                        }
                    }
                },
            }
        } else {
            assert forall|k: int| 0 <= k < plugins.len() && is_candidate(#[trigger] plugins[k], package, surface_code,
                pam_version, native_protocol, desktop_protocol) implies k < last by {}
            if let Some(i) = previous {
                assert(before[i] == plugins[i]);
                assert forall|k: int| 0 <= k < plugins.len() && is_candidate(#[trigger] plugins[k], package, surface_code,
                    pam_version, native_protocol, desktop_protocol) implies !semver_precedes(plugins[i].version@,
                    plugins[k].version@) by {
                    assert(before[k] == plugins[k]);
                }
            } else {
                if exists|k: int| 0 <= k < plugins.len() && is_candidate(#[trigger] plugins[k], package, surface_code,
                    pam_version, native_protocol, desktop_protocol) {
                    let k = choose|k: int| 0 <= k < plugins.len() && is_candidate(#[trigger] plugins[k], package,
                        surface_code, pam_version, native_protocol, desktop_protocol);
                    assert(before[k] == plugins[k]);
                }
            }
        }
        if previous is Some || is_candidate(plugins[last], package, surface_code, pam_version, native_protocol, desktop_protocol) {
            if let Some(j) = previous {
                assert(before[j] == plugins[j]);
            }
        } else {
            if exists|k: int| 0 <= k < plugins.len() && is_candidate(#[trigger] plugins[k], package, surface_code,
                pam_version, native_protocol, desktop_protocol) {
                let k = choose|k: int| 0 <= k < plugins.len() && is_candidate(#[trigger] plugins[k], package, surface_code,
                    pam_version, native_protocol, desktop_protocol);
                assert(before[k] == plugins[k]);
            }
        }
    }
}

fn release_is_candidate(
    release: &PluginRelease,
    package: &str,
    surface_code: u8,
    pam_version: &str,
    native_protocol: Option<u32>,
    desktop_protocol: Option<u32>,
) -> (r: bool)
    ensures
        r == is_candidate(*release, package@, surface_code, pam_version@, native_protocol, desktop_protocol),
{
    if !str_eq(release.package.as_str(), package) || !contains_code(&release.surface_codes, surface_code) {
        return false;
    }
    if !semver_matches(release.compatibility.pam.as_str(), pam_version) {
        return false;
    }
    if surface_code == 2 && release.compatibility.native_protocol != native_protocol {
        return false;
    }
    if surface_code == 3 && release.compatibility.desktop_protocol != desktop_protocol {
        return false;
    }
    semver_parse_version(release.version.as_str()).is_ok()
}

/// The error when no release can be installed.
pub open spec fn no_release_error(package: Seq<char>, pam_version: Seq<char>, surface_code: u8) -> Seq<char> {
    "no signed, non-revoked "@ + package + " release is compatible with PAM "@ + pam_version + " on surface "@
        + decimal_text(surface_code as nat)
}

/// The newest release of a package that is compatible with the running PAM
/// version and, on the native and desktop surfaces, with the runtime protocol.
pub fn resolve_release<'a>(
    catalog: &'a PluginCatalog,
    package: &str,
    surface_code: u8,
    pam_version: &str,
    native_protocol: Option<u32>,
    desktop_protocol: Option<u32>,
) -> (r: Result<&'a PluginRelease, String>)
    ensures
        match (r, best_candidate(catalog.plugins@, package@, surface_code, pam_version@, native_protocol, desktop_protocol)) {
            (Ok(release), Some(i)) => 0 <= i < catalog.plugins@.len() && *release == catalog.plugins@[i],
            (Err(e), None) => e@ == no_release_error(package@, pam_version@, surface_code),
            _ => false,
        },
{
    let plugins = &catalog.plugins;
    let mut best: Option<usize> = None;
    let mut i: usize = 0;
    while i < plugins.len()
        invariant
            i <= plugins@.len(),
            plugins@ == catalog.plugins@,
            best is None ==> best_candidate(plugins@.take(i as int), package@, surface_code, pam_version@, native_protocol,
                desktop_protocol) is None,
            best is Some ==> best_candidate(plugins@.take(i as int), package@, surface_code, pam_version@, native_protocol,
                desktop_protocol) == Some(best->0 as int) && best->0 < i,
        decreases plugins.len() - i,
    {
        proof {
            let next = plugins@.take(i + 1);
            assert(next.drop_last() =~= plugins@.take(i as int));
            assert(next[i as int] == plugins@[i as int]);
            if let Some(j) = best {
                assert(next[j as int] == plugins@[j as int]);
            }
        }
        if release_is_candidate(&plugins[i], package, surface_code, pam_version, native_protocol, desktop_protocol) {
            proof {
                lemma_best_candidate_bounds(plugins@.take(i as int), package@, surface_code, pam_version@,
                    native_protocol, desktop_protocol);
                if let Some(j) = best {
                    assert(plugins@.take(i as int)[j as int] == plugins@[j as int]);
                }
            }
            best = match best {
                None => Some(i),
                Some(j) => if semver_less(plugins[i].version.as_str(), plugins[j].version.as_str()) {
                    Some(j)
                } else {
                    Some(i)
                },
            };
        } else {
            proof {
                let next = plugins@.take(i + 1);
                assert(!is_candidate(next[next.len() - 1], package@, surface_code, pam_version@, native_protocol, desktop_protocol));
                assert(best_candidate(next, package@, surface_code, pam_version@, native_protocol, desktop_protocol)
                    == best_candidate(plugins@.take(i as int), package@, surface_code, pam_version@, native_protocol, desktop_protocol));
            }
        }
        i = i + 1;
    }
    assert(plugins@.take(plugins@.len() as int) =~= plugins@);
    match best {
        Some(j) => Ok(&plugins[j]),
        None => {
            let mut message = concat_str("no signed, non-revoked ", package);
            message.append(" release is compatible with PAM ");
            message.append(pam_version);
            message.append(" on surface ");
            push_decimal_text(&mut message, surface_code as u64);
            Err(message)
        },
    }
}

/// How a release fares on one surface.
#[derive(Clone, Copy, Debug, PartialEq, Eq, Structural)]
pub enum CompatibilityResult {
    Compatible,
    PamVersionMismatch,
    ProtocolMismatch,
}

impl CompatibilityResult {
    /// The integer reported in the matrix.
    pub fn code(self) -> (c: u8)
        ensures
            c == match self {
                CompatibilityResult::Compatible => 1u8,
                CompatibilityResult::PamVersionMismatch => 2u8,
                CompatibilityResult::ProtocolMismatch => 3u8,
            },
    {
        match self {
            CompatibilityResult::Compatible => 1,
            CompatibilityResult::PamVersionMismatch => 2,
            CompatibilityResult::ProtocolMismatch => 3,
        }
    }
}

/// One row of the compatibility matrix: a release on one of its surfaces.
#[derive(Clone, Debug)]
pub struct CompatibilityMatrixEntry {
    pub package: String,
    pub version: String,
    pub surface_code: u8,
    pub result_code: u8,
    pub artifact_kind_code: u8,
    pub sha256: String,
}

pub open spec fn entry_view(e: CompatibilityMatrixEntry) -> (Seq<char>, Seq<char>, u8, u8, u8, Seq<char>) {
    (e.package@, e.version@, e.surface_code, e.result_code, e.artifact_kind_code, e.sha256@)
}

/// The result code of a release on a surface.
pub open spec fn surface_result(release: PluginRelease, surface_code: u8, pam_version: Seq<char>, native_protocol: u32, desktop_protocol: u32) -> u8 {
    if !pam_admits(release, pam_version) {
        2
    } else if (surface_code == 2 && release.compatibility.native_protocol != Some(native_protocol))
        || (surface_code == 3 && release.compatibility.desktop_protocol != Some(desktop_protocol)) {
        3
    } else {
        1
    }
}

pub open spec fn release_rows(release: PluginRelease, pam_version: Seq<char>, native_protocol: u32, desktop_protocol: u32) -> Seq<(Seq<char>, Seq<char>, u8, u8, u8, Seq<char>)> {
    release.surface_codes@.map_values(|code: u8| (release.package@, release.version@, code,
        surface_result(release, code, pam_version, native_protocol, desktop_protocol), release.artifact_kind_code, release.sha256@))
}

/// The rows of the matrix: each release on each surface it declares, in order.
pub open spec fn matrix_rows(plugins: Seq<PluginRelease>, pam_version: Seq<char>, native_protocol: u32, desktop_protocol: u32) -> Seq<(Seq<char>, Seq<char>, u8, u8, u8, Seq<char>)>
    decreases plugins.len(),
{
    if plugins.len() == 0 {
        Seq::empty()
    } else {
        matrix_rows(plugins.drop_last(), pam_version, native_protocol, desktop_protocol)
            + release_rows(plugins.last(), pam_version, native_protocol, desktop_protocol)
    }
}

fn copy_text(s: &String) -> (r: String)
    ensures
        r@ == s@,
{
    String::from_str(s.as_str())
}

/// The compatibility of every release of a catalog on every surface it declares.
pub fn compatibility_matrix_entries(catalog: &PluginCatalog, pam_version: &str, native_protocol: u32, desktop_protocol: u32) -> (entries: Vec<CompatibilityMatrixEntry>)
    ensures
        entries@.map_values(|e: CompatibilityMatrixEntry| entry_view(e)) == matrix_rows(catalog.plugins@, pam_version@, native_protocol, desktop_protocol),
{
    let mut entries: Vec<CompatibilityMatrixEntry> = Vec::new();
    let mut i: usize = 0;
    while i < catalog.plugins.len()
        invariant
            i <= catalog.plugins@.len(),
            entries@.map_values(|e: CompatibilityMatrixEntry| entry_view(e)) == matrix_rows(catalog.plugins@.take(i as int), pam_version@, native_protocol, desktop_protocol),
        decreases catalog.plugins.len() - i,
    {
        let release = &catalog.plugins[i];
        let pam_matches = semver_matches(release.compatibility.pam.as_str(), pam_version);
        let ghost before = entries@.map_values(|e: CompatibilityMatrixEntry| entry_view(e));
        let mut k: usize = 0;
        while k < release.surface_codes.len()
            invariant
                k <= release.surface_codes@.len(),
                release == catalog.plugins@[i as int],
                pam_matches == pam_admits(*release, pam_version@),
                entries@.map_values(|e: CompatibilityMatrixEntry| entry_view(e)) == before
                    + release_rows(*release, pam_version@, native_protocol, desktop_protocol).take(k as int),
            decreases release.surface_codes.len() - k,
        {
            let code = release.surface_codes[k];
            let result = if !pam_matches {
                CompatibilityResult::PamVersionMismatch
            } else if (code == 2 && release.compatibility.native_protocol != Some(native_protocol))
                || (code == 3 && release.compatibility.desktop_protocol != Some(desktop_protocol)) {
                CompatibilityResult::ProtocolMismatch
            } else {
                CompatibilityResult::Compatible
            };
            let entry = CompatibilityMatrixEntry {
                package: copy_text(&release.package),
                version: copy_text(&release.version),
                surface_code: code,
                result_code: result.code(),
                artifact_kind_code: release.artifact_kind_code,
                sha256: copy_text(&release.sha256),
            };
            let ghost previous = entries@;
            entries.push(entry);
            proof {
                assert(entries@.map_values(|e: CompatibilityMatrixEntry| entry_view(e)) =~= previous.map_values(
                    |e: CompatibilityMatrixEntry| entry_view(e)).push(entry_view(entry)));
                assert(release_rows(*release, pam_version@, native_protocol, desktop_protocol).take(k + 1)
                    =~= release_rows(*release, pam_version@, native_protocol, desktop_protocol).take(k as int).push(entry_view(entry)));
            }
            k = k + 1;
        }
        proof {
            assert(release_rows(*release, pam_version@, native_protocol, desktop_protocol).take(k as int)
                =~= release_rows(*release, pam_version@, native_protocol, desktop_protocol));
            assert(catalog.plugins@.take(i + 1).drop_last() =~= catalog.plugins@.take(i as int));
        }
        i = i + 1;
    }
    assert(catalog.plugins@.take(catalog.plugins@.len() as int) =~= catalog.plugins@);
    entries
}

/// How many rows of one surface there are, and how many are compatible.
#[derive(Clone, Copy, Debug, PartialEq, Eq, Structural)]
pub struct SurfaceCompatibilitySummary {
    pub surface_code: u8,
    pub total_entries: usize,
    pub compatible_entries: usize,
}

pub open spec fn surface_total(entries: Seq<CompatibilityMatrixEntry>, code: u8) -> nat
    decreases entries.len(),
{
    if entries.len() == 0 {
        0
    } else {
        surface_total(entries.drop_last(), code) + if entries.last().surface_code == code { 1nat } else { 0nat }
    }
}

pub open spec fn surface_compatible(entries: Seq<CompatibilityMatrixEntry>, code: u8) -> nat
    decreases entries.len(),
{
    if entries.len() == 0 {
        0
    } else {
        surface_compatible(entries.drop_last(), code) + if entries.last().surface_code == code
            && entries.last().result_code == 1 { 1nat } else { 0nat }
    }
}

fn summarize_surface(entries: &Vec<CompatibilityMatrixEntry>, code: u8) -> (s: SurfaceCompatibilitySummary)
    ensures
        s.surface_code == code,
        s.total_entries == surface_total(entries@, code),
        s.compatible_entries == surface_compatible(entries@, code),
{
    let mut total: usize = 0;
    let mut compatible: usize = 0;
    let mut i: usize = 0;
    while i < entries.len()
        invariant
            i <= entries@.len(),
            compatible <= total <= i,
            total == surface_total(entries@.take(i as int), code),
            compatible == surface_compatible(entries@.take(i as int), code),
        decreases entries.len() - i,
    {
        proof {
            assert(entries@.take(i + 1).drop_last() =~= entries@.take(i as int));
        }
        if entries[i].surface_code == code {
            total = total + 1;
            if entries[i].result_code == 1 {
                compatible = compatible + 1;
            }
        }
        i = i + 1;
    }
    assert(entries@.take(entries@.len() as int) =~= entries@);
    SurfaceCompatibilitySummary { surface_code: code, total_entries: total, compatible_entries: compatible }
}

/// Totals per surface (codes 1, 2 and 3, in that order).
pub fn compatibility_surface_summaries(entries: &Vec<CompatibilityMatrixEntry>) -> (summaries: Vec<SurfaceCompatibilitySummary>)
    ensures
        summaries@.len() == 3,
        forall|i: int| 0 <= i < 3 ==> {
            &&& (#[trigger] summaries@[i]).surface_code == i + 1
            &&& summaries@[i].total_entries == surface_total(entries@, (i + 1) as u8)
            &&& summaries@[i].compatible_entries == surface_compatible(entries@, (i + 1) as u8)
        },
{
    let mut summaries: Vec<SurfaceCompatibilitySummary> = Vec::new();
    summaries.push(summarize_surface(entries, 1));
    summaries.push(summarize_surface(entries, 2));
    summaries.push(summarize_surface(entries, 3));
    summaries
}

// ---------------------------------------------------------------------------
// Root rotation

/// Why `next` cannot replace the trusted root `current` at time `now`, if it
/// cannot: it must be well formed, keep the registry, increment the
/// generation by one, and be signed both by its own threshold of keys and by
/// the current root's threshold of keys.
pub open spec fn rotation_error(current: RegistryRoot, next: RegistryRoot, now: u64) -> Option<Seq<char>> {
    if root_structure_error(next, now) is Some {
        root_structure_error(next, now)
    } else if next.registry@ != current.registry@ || next.generation != current.generation + 1 {
        Some("next registry root must retain the registry and increment generation by one"@)
    } else if threshold_error(root_payload(next), next.signatures@, next.keys@, next.threshold) is Some {
        threshold_error(root_payload(next), next.signatures@, next.keys@, next.threshold)
    } else {
        threshold_error(root_payload(next), next.previous_signatures@, current.keys@, current.threshold)
    }
}

/// Accepts `next` as the successor of the trusted root `current`.
pub fn verify_next_root(current: &RegistryRoot, next: &RegistryRoot, now: u64) -> (r: Result<(), String>)
    ensures
        check_result(r, rotation_error(*current, *next, now)),
{
    match validate_root_structure(next, now) {
        Err(e) => return Err(e),
        Ok(()) => {},
    }
    if !str_eq(next.registry.as_str(), current.registry.as_str()) || current.generation == u32::MAX
        || next.generation != current.generation + 1 {
        return Err(String::from_str("next registry root must retain the registry and increment generation by one"));
    }
    let payload = match canonical_root_payload(next) {
        Ok(bytes) => bytes,
        Err(e) => return Err(e),
    };
    match verify_threshold(payload.as_slice(), &next.signatures, &next.keys, next.threshold) {
        Err(e) => return Err(e),
        Ok(()) => {},
    }
    verify_threshold(payload.as_slice(), &next.previous_signatures, &current.keys, current.threshold)
}

/// A rotation is accepted only with both the new root's own signatures and
/// the current root's signatures over the new root meeting their thresholds.
pub proof fn lemma_rotation_requires_both_thresholds(current: RegistryRoot, next: RegistryRoot, now: u64)
    requires
        rotation_error(current, next, now) is None,
    ensures
        threshold_error(root_payload(next), next.signatures@, next.keys@, next.threshold) is None,
        threshold_error(root_payload(next), next.previous_signatures@, current.keys@, current.threshold) is None,
        next.generation == current.generation + 1,
        next.registry@ == current.registry@,
{
}

// ---------------------------------------------------------------------------
// Project registry files

/// A project's registry configuration (`pam-registry.json`); paths are
/// project-relative text.
#[derive(Clone, Debug)]
pub struct ProjectRegistryConfig {
    pub schema_version: u8,
    pub root_path: String,
    pub root_sha256: String,
    pub catalog_path: String,
    pub native_protocol: Option<u32>,
    pub desktop_protocol: Option<u32>,
}

/// What a project last accepted from its registry.
#[derive(Clone, Debug)]
pub struct ProjectRegistryState {
    pub schema_version: u8,
    pub registry: String,
    pub root_sha256: String,
    pub root_generation: u32,
    pub catalog_sequence: u64,
}

/// A release resolved from a verified catalog.
#[derive(Clone, Debug)]
pub struct VerifiedRelease {
    pub registry: String,
    pub root_sha256: String,
    pub root_generation: u32,
    pub catalog_sequence: u64,
    pub package: String,
    pub version: String,
    pub artifact_kind_code: u8,
    pub artifact_url: String,
    pub sha256: String,
}

/// `Option<u32>` as `{:?}` shows it.
pub open spec fn debug_optional(value: Option<u32>) -> Seq<char> {
    match value {
        Some(v) => "Some("@ + decimal_text(v as nat) + ")"@,
        None => "None"@,
    }
}

fn push_debug_optional(out: &mut String, value: Option<u32>)
    ensures
        final(out)@ == old(out)@ + debug_optional(value),
{
    match value {
        Some(v) => {
            out.append("Some(");
            push_decimal_text(out, v as u64);
            out.append(")");
        },
        None => out.append("None"),
    }
}

/// Why the project's declared protocols do not fit the running runtime on a
/// surface, if they do not.
pub open spec fn protocol_error(config: ProjectRegistryConfig, surface_code: u8, native_protocol: Option<u32>, desktop_protocol: Option<u32>) -> Option<Seq<char>> {
    if surface_code == 2 && config.native_protocol != native_protocol {
        Some("pam-registry.json nativeProtocol "@ + debug_optional(config.native_protocol)
            + " does not match runtime protocol "@ + debug_optional(native_protocol))
    } else if surface_code == 3 && config.desktop_protocol != desktop_protocol {
        Some("pam-registry.json desktopProtocol "@ + debug_optional(config.desktop_protocol)
            + " does not match runtime protocol "@ + debug_optional(desktop_protocol))
    } else {
        None
    }
}

/// Refuses to resolve for a runtime whose protocol differs from the project's.
pub fn check_runtime_protocols(config: &ProjectRegistryConfig, surface_code: u8, native_protocol: Option<u32>, desktop_protocol: Option<u32>) -> (r:
    Result<(), String>)
    ensures
        check_result(r, protocol_error(*config, surface_code, native_protocol, desktop_protocol)),
{
    if surface_code == 2 && config.native_protocol != native_protocol {
        let mut message = String::from_str("pam-registry.json nativeProtocol ");
        push_debug_optional(&mut message, config.native_protocol);
        message.append(" does not match runtime protocol ");
        push_debug_optional(&mut message, native_protocol);
        return Err(message);
    }
    if surface_code == 3 && config.desktop_protocol != desktop_protocol {
        let mut message = String::from_str("pam-registry.json desktopProtocol ");
        push_debug_optional(&mut message, config.desktop_protocol);
        message.append(" does not match runtime protocol ");
        push_debug_optional(&mut message, desktop_protocol);
        return Err(message);
    }
    Ok(())
}

/// Why a resolved release contradicts what the project accepted, if it does.
pub open spec fn accepted_state_error(state: ProjectRegistryState, release: VerifiedRelease) -> Option<Seq<char>> {
    if state.registry@ != release.registry@ {
        Some("signed registry identity does not match the accepted project state"@)
    } else if state.root_sha256@ != release.root_sha256@ {
        Some("trusted registry root changed without an authenticated rotation"@)
    } else if release.root_generation < state.root_generation {
        Some("signed registry root generation would roll the project back"@)
    } else {
        None
    }
}

/// Refuses a release from another registry, another root, or an older root
/// generation than the project accepted.
pub fn check_accepted_state(state: &ProjectRegistryState, release: &VerifiedRelease) -> (r: Result<(), String>)
    ensures
        check_result(r, accepted_state_error(*state, *release)),
{
    if !str_eq(state.registry.as_str(), release.registry.as_str()) {
        return Err(String::from_str("signed registry identity does not match the accepted project state"));
    }
    if !str_eq(state.root_sha256.as_str(), release.root_sha256.as_str()) {
        return Err(String::from_str("trusted registry root changed without an authenticated rotation"));
    }
    if release.root_generation < state.root_generation {
        return Err(String::from_str("signed registry root generation would roll the project back"));
    }
    Ok(())
}

/// Resolves a release from a catalog under an already trusted root: the
/// catalog must be vouched for, no older than `minimum_sequence`, and hold a
/// compatible release.
pub fn resolve_verified(
    root: &RegistryRoot,
    root_sha256: &str,
    catalog: &PluginCatalog,
    package: &str,
    surface_code: u8,
    pam_version: &str,
    native_protocol: Option<u32>,
    desktop_protocol: Option<u32>,
    minimum_sequence: Option<u64>,
    now: u64,
) -> (r: Result<VerifiedRelease, String>)
    ensures
        match r {
            Ok(release) => {
                &&& catalog_trust_error(*catalog, *root, now) is None
                &&& (minimum_sequence matches Some(m) ==> catalog.sequence >= m)
                &&& best_candidate(catalog.plugins@, package@, surface_code, pam_version@, native_protocol, desktop_protocol) matches Some(i)
                &&& release.registry@ == catalog.registry@
                &&& release.root_sha256@ == root_sha256@
                &&& release.root_generation == catalog.root_generation
                &&& release.catalog_sequence == catalog.sequence
                &&& release.package@ == catalog.plugins@[i].package@
                &&& release.version@ == catalog.plugins@[i].version@
                &&& release.artifact_kind_code == catalog.plugins@[i].artifact_kind_code
                &&& release.artifact_url@ == catalog.plugins@[i].artifact_url@
                &&& release.sha256@ == catalog.plugins@[i].sha256@
            },
            Err(e) => if catalog_trust_error(*catalog, *root, now) is Some {
                catalog_trust_error(*catalog, *root, now) == Some(e@)
            } else if minimum_sequence matches Some(m) && catalog.sequence < m {
                e@ == "plugin catalog sequence "@ + decimal_text(catalog.sequence as nat)
                    + " is older than the required minimum "@ + decimal_text(minimum_sequence->0 as nat)
            } else {
                best_candidate(catalog.plugins@, package@, surface_code, pam_version@, native_protocol, desktop_protocol) is None
                    && e@ == no_release_error(package@, pam_version@, surface_code)
            },
        },
{
    match validate_catalog(catalog, root, now) {
        Err(e) => return Err(e),
        Ok(()) => {},
    }
    match enforce_minimum_sequence(catalog.sequence, minimum_sequence) {
        Err(e) => return Err(e),
        Ok(()) => {},
    }
    let release = match resolve_release(catalog, package, surface_code, pam_version, native_protocol, desktop_protocol) {
        Err(e) => return Err(e),
        Ok(release) => release,
    };
    Ok(VerifiedRelease {
        registry: copy_text(&catalog.registry),
        root_sha256: String::from_str(root_sha256),
        root_generation: catalog.root_generation,
        catalog_sequence: catalog.sequence,
        package: copy_text(&release.package),
        version: copy_text(&release.version),
        artifact_kind_code: release.artifact_kind_code,
        artifact_url: copy_text(&release.artifact_url),
        sha256: copy_text(&release.sha256),
    })
}

/// Whether the project's accepted state still describes its current trusted root.
pub open spec fn adoption_state_matches(state: Option<ProjectRegistryState>, current: RegistryRoot, config_root_sha256: Seq<char>) -> bool {
    match state {
        None => true,
        Some(s) => s.registry@ == current.registry@ && s.root_sha256@ == config_root_sha256 && s.root_generation == current.generation,
    }
}

/// Refuses to adopt a rotation when the accepted state has drifted from the
/// current trusted root.
pub fn check_adoption_state(state: &Option<ProjectRegistryState>, current: &RegistryRoot, config_root_sha256: &str) -> (r:
    Result<(), String>)
    ensures
        check_result(r, if adoption_state_matches(*state, *current, config_root_sha256@) {
            None
        } else {
            Some("project registry state does not match the current trusted root"@)
        }),
{
    match state {
        None => Ok(()),
        Some(s) => {
            if !str_eq(s.registry.as_str(), current.registry.as_str()) || !str_eq(s.root_sha256.as_str(), config_root_sha256)
                || s.root_generation != current.generation {
                Err(String::from_str("project registry state does not match the current trusted root"))
            } else {
                Ok(())
            }
        },
    }
}

/// The state a project holds after adopting a new root and catalog.
pub fn adopted_state(next_root: &RegistryRoot, next_root_sha256: &str, next_catalog: &PluginCatalog) -> (state: ProjectRegistryState)
    ensures
        state.schema_version == SCHEMA_VERSION,
        state.registry@ == next_root.registry@,
        state.root_sha256@ == next_root_sha256@,
        state.root_generation == next_root.generation,
        state.catalog_sequence == next_catalog.sequence,
{
    ProjectRegistryState {
        schema_version: SCHEMA_VERSION,
        registry: copy_text(&next_root.registry),
        root_sha256: String::from_str(next_root_sha256),
        root_generation: next_root.generation,
        catalog_sequence: next_catalog.sequence,
    }
}

/// The configuration a project holds after adopting a new root and catalog:
/// the new documents and fingerprint, with the declared protocols kept.
pub fn adopted_config(current: &ProjectRegistryConfig, next_root_path: &str, next_root_sha256: &str, next_catalog_path: &str) -> (config:
    ProjectRegistryConfig)
    ensures
        config.schema_version == SCHEMA_VERSION,
        config.root_path@ == next_root_path@,
        config.root_sha256@ == next_root_sha256@,
        config.catalog_path@ == next_catalog_path@,
        config.native_protocol == current.native_protocol,
        config.desktop_protocol == current.desktop_protocol,
{
    ProjectRegistryConfig {
        schema_version: SCHEMA_VERSION,
        root_path: String::from_str(next_root_path),
        root_sha256: String::from_str(next_root_sha256),
        catalog_path: String::from_str(next_catalog_path),
        native_protocol: current.native_protocol,
        desktop_protocol: current.desktop_protocol,
    }
}

pub open spec fn same_config(a: ProjectRegistryConfig, b: ProjectRegistryConfig) -> bool {
    a.schema_version == b.schema_version && a.root_path@ == b.root_path@ && a.root_sha256@ == b.root_sha256@
        && a.catalog_path@ == b.catalog_path@ && a.native_protocol == b.native_protocol
        && a.desktop_protocol == b.desktop_protocol
}

/// What to do with an unfinished rotation found on disk.
#[derive(Clone, Copy, Debug, PartialEq, Eq, Structural)]
pub enum RotationRecovery {
    /// The configuration was not switched yet: restore the previous state and
    /// discard the receipt.
    RestorePrevious,
    /// The configuration was switched: write the new state and discard the receipt.
    Finalize,
}

/// Decides how to finish or undo an interrupted rotation from its receipt and
/// the configuration on disk.
pub fn plan_rotation_recovery(
    receipt_schema_version: u8,
    receipt_operation_code: u8,
    previous_root_sha256: &str,
    next_config: &ProjectRegistryConfig,
    config: &ProjectRegistryConfig,
) -> (r: Result<RotationRecovery, String>)
    ensures
        match r {
            Ok(RotationRecovery::RestorePrevious) => receipt_schema_version == SCHEMA_VERSION && receipt_operation_code == 1
                && config.root_sha256@ == previous_root_sha256@,
            Ok(RotationRecovery::Finalize) => receipt_schema_version == SCHEMA_VERSION && receipt_operation_code == 1
                && config.root_sha256@ != previous_root_sha256@ && same_config(*config, *next_config),
            Err(e) => if receipt_schema_version != SCHEMA_VERSION || receipt_operation_code != 1 {
                e@ == "invalid project registry rotation receipt"@
            } else {
                config.root_sha256@ != previous_root_sha256@ && !same_config(*config, *next_config)
                    && e@ == "registry rotation receipt does not match project configuration"@
            },
        },
{
    if receipt_schema_version != SCHEMA_VERSION || receipt_operation_code != 1 {
        return Err(String::from_str("invalid project registry rotation receipt"));
    }
    if str_eq(config.root_sha256.as_str(), previous_root_sha256) {
        return Ok(RotationRecovery::RestorePrevious);
    }
    let same = config.schema_version == next_config.schema_version
        && str_eq(config.root_path.as_str(), next_config.root_path.as_str())
        && str_eq(config.root_sha256.as_str(), next_config.root_sha256.as_str())
        && str_eq(config.catalog_path.as_str(), next_config.catalog_path.as_str())
        && config.native_protocol == next_config.native_protocol
        && config.desktop_protocol == next_config.desktop_protocol;
    if !same {
        return Err(String::from_str("registry rotation receipt does not match project configuration"));
    }
    Ok(RotationRecovery::Finalize)
}

} // verus!
