//! The rules a project's `pam.json` manifest follows, checked on the values
//! read from it.

use vstd::prelude::*;
use vstd::utf8::encode_utf8;
use crate::text::{chars_of, string_of, first_char, lemma_first_char, is_ascii_alnum, ascii_alnum, byte_len, decimal_text, push_decimal_text, str_eq};
use crate::rpc::{is_numeric_version, valid_version};
use crate::dashboard::{trimmed, trim_range};
use crate::project::{ProjectKind, kind_code};

verus! {

/// How the manifest's `version` looks: absent, not a string, or a string.
pub enum VersionField {
    Absent,
    NotText,
    Text(String),
}

/// What the manifest holds for the checks: `schema` and `type` where they
/// are unsigned integers; the product workspace's `surfaceCodes` where it is
/// an array (each element where it is an unsigned integer) and its
/// `contractPath` where it is a string; `name` where it is a string; and
/// `version`.
pub struct ProjectManifestFields {
    pub schema: Option<u64>,
    pub kind: Option<u64>,
    pub surface_codes: Option<Vec<Option<u64>>>,
    pub contract_path: Option<String>,
    pub name: Option<String>,
    pub version: VersionField,
}

/// A character allowed in a version's pre-release suffix.
pub open spec fn is_suffix_char(c: char) -> bool {
    is_ascii_alnum(c) || c == '.' || c == '-'
}

/// `MAJOR.MINOR.PATCH`, optionally followed by `-` and a non-empty suffix of
/// ASCII letters, digits, `.` and `-`.
pub open spec fn is_project_version(v: Seq<char>) -> bool {
    let k = first_char(v, '-');
    if k >= v.len() {
        is_numeric_version(v)
    } else {
        &&& is_numeric_version(v.take(k))
        &&& v.skip(k + 1).len() > 0
        &&& forall|i: int| 0 <= i < v.skip(k + 1).len() ==> is_suffix_char(#[trigger] v.skip(k + 1)[i])
    }
}

/// Whether a project version is `MAJOR.MINOR.PATCH` with an optional suffix.
#[verifier::loop_isolation(false)]
pub fn valid_project_version(value: &str) -> (r: bool)
    ensures
        r == is_project_version(value@),
{
    let chars = chars_of(value);
    let n = chars.len();
    let mut k: usize = 0;
    while k < n && chars[k] != '-'
        invariant
            chars@ == value@,
            n == chars@.len(),
            k <= n,
            forall|j: int| 0 <= j < k ==> chars@[j] != '-',
        decreases n - k,
    {
        k = k + 1;
    }
    proof {
        lemma_first_char(chars@, '-', k as int);
    }
    if k >= n {
        return valid_version(value);
    }
    let core = string_of(&chars, 0, k);
    proof {
        assert(chars@.subrange(0, k as int) =~= value@.take(k as int));
    }
    if !valid_version(core.as_str()) {
        return false;
    }
    if k + 1 >= n {
        assert(value@.skip(k + 1).len() == 0);
        return false;
    }
    let mut i = k + 1;
    while i < n
        invariant
            chars@ == value@,
            n == chars@.len(),
            k + 1 <= i <= n,
            forall|j: int| 0 <= j < i - (k + 1) ==> is_suffix_char(#[trigger] value@.skip(k + 1)[j]),
        decreases n - i,
    {
        let c = chars[i];
        assert(value@.skip(k + 1)[i - (k + 1)] == c);
        if !(ascii_alnum(c) || c == '.' || c == '-') {
            assert(!is_suffix_char(value@.skip(k + 1)[i - (k + 1)]));
            return false;
        }
        i = i + 1;
    }
    true
}

/// The name of a kind of project as shown to users.
pub open spec fn kind_label(kind: ProjectKind) -> Seq<char> {
    match kind {
        ProjectKind::Api => "API"@,
        ProjectKind::Native => "PAM Native"@,
        ProjectKind::Laravel => "Laravel"@,
        ProjectKind::Desktop => "PAM Desktop"@,
        ProjectKind::Raw => "PAM Runtime"@,
        ProjectKind::Product => "PAM Product"@,
    }
}

/// A name holds a line break or NUL.
pub open spec fn has_line_control(v: Seq<char>) -> bool {
    exists|i: int| 0 <= i < v.len() && (v[i] == '\n' || v[i] == '\r' || v[i] == '\0')
}

/// The surface codes of a product workspace are exactly 1, 2, 3.
pub open spec fn surfaces_complete(codes: Seq<Option<u64>>) -> bool {
    codes =~= seq![Some(1u64), Some(2u64), Some(3u64)]
}

/// What is wrong with a project manifest, in the order it is checked, if
/// anything. `contracts` is what inspecting a product workspace's contracts
/// directory found: whether it is a real directory, or the failure.
pub open spec fn manifest_error(f: ProjectManifestFields, kind: ProjectKind, contracts: Result<bool, String>) -> Option<
    Seq<char>,
> {
    if f.schema is None {
        Some("pam.json schema must be the integer 1"@)
    } else if f.schema->0 != 1 {
        Some("unsupported pam.json schema "@ + decimal_text(f.schema->0 as nat) + "; expected 1"@)
    } else if f.kind is None {
        Some("pam.json type must be an integer from 1 through 6"@)
    } else if f.kind->0 != kind_code(kind) {
        Some(
            "pam.json type "@ + decimal_text(f.kind->0 as nat) + " does not match the discovered "@ + kind_label(kind)
                + " project type "@ + decimal_text(kind_code(kind) as nat),
        )
    } else if kind == ProjectKind::Product && (f.surface_codes is None || !surfaces_complete(
        f.surface_codes->0@,
    )) {
        Some("product workspace surfaceCodes must be the integer array [1, 2, 3]"@)
    } else if kind == ProjectKind::Product && !(f.contract_path matches Some(p) && p@ == "packages/contracts"@) {
        Some("product workspace contractPath must be packages/contracts"@)
    } else if kind == ProjectKind::Product && contracts is Err {
        Some(contracts->Err_0@)
    } else if kind == ProjectKind::Product && contracts == Ok::<bool, String>(false) {
        Some("product workspace contracts must be a real project-local directory"@)
    } else if f.name is None || trimmed(f.name->0@).len() == 0 {
        Some("pam.json name must be a non-empty string"@)
    } else if f.name->0@.len() > 80 || has_line_control(f.name->0@) {
        Some("pam.json name must be safe and at most 80 characters"@)
    } else if f.version is NotText || (f.version matches VersionField::Text(v) && !is_project_version(v@)) {
        Some("pam.json version must use MAJOR.MINOR.PATCH SemVer"@)
    } else if f.version matches VersionField::Text(v) && encode_utf8(v@).len() > 64 {
        Some("pam.json version must be at most 64 bytes"@)
    } else {
        None
    }
}

fn line_control(v: &str) -> (r: bool)
    ensures
        r == has_line_control(v@),
{
    let chars = chars_of(v);
    let mut i: usize = 0;
    while i < chars.len()
        invariant
            chars@ == v@,
            i <= chars@.len(),
            forall|k: int| 0 <= k < i ==> !(chars@[k] == '\n' || chars@[k] == '\r' || chars@[k] == '\0'),
        decreases chars.len() - i,
    {
        let c = chars[i];
        if c == '\n' || c == '\r' || c == '\0' {
            return true;
        }
        i = i + 1;
    }
    false
}

fn described(prefix: &str, n: u64, suffix: &str) -> (r: String)
    ensures
        r@ == prefix@ + decimal_text(n as nat) + suffix@,
{
    let mut out = String::from_str(prefix);
    push_decimal_text(&mut out, n);
    out.append(suffix);
    out
}

/// Checks the values read from a project's `pam.json` against the project
/// discovered on disk: schema 1, the same project type, a product's
/// workspace, a safe name, and a SemVer version where there is one.
#[verifier::rlimit(60)]
pub fn validate_project_manifest(fields: &ProjectManifestFields, kind: ProjectKind, contracts: &Result<bool, String>) -> (r:
    Result<(), String>)
    ensures
        match r {
            Ok(()) => manifest_error(*fields, kind, *contracts) is None,
            Err(e) => manifest_error(*fields, kind, *contracts) == Some(e@),
        },
{
    let schema = match fields.schema {
        None => {
            return Err(String::from_str("pam.json schema must be the integer 1"));
        },
        Some(s) => s,
    };
    if schema != 1 {
        return Err(described("unsupported pam.json schema ", schema, "; expected 1"));
    }
    let found = match fields.kind {
        None => {
            return Err(String::from_str("pam.json type must be an integer from 1 through 6"));
        },
        Some(k) => k,
    };
    let code = kind.code();
    if found != code as u64 {
        let mut e = described("pam.json type ", found, " does not match the discovered ");
        e.append(kind.label());
        e.append(" project type ");
        push_decimal_text(&mut e, code as u64);
        return Err(e);
    }
    let product = match kind {
        ProjectKind::Product => true,
        _ => false,
    };
    if product {
        let complete = match &fields.surface_codes {
            None => false,
            Some(codes) => codes.len() == 3 && codes[0] == Some(1u64) && codes[1] == Some(2u64) && codes[2] == Some(
                3u64,
            ),
        };
        if !complete {
            return Err(String::from_str("product workspace surfaceCodes must be the integer array [1, 2, 3]"));
        }
        let contract_path_ok = match &fields.contract_path {
            Some(p) => str_eq(p.as_str(), "packages/contracts"),
            None => false,
        };
        if !contract_path_ok {
            return Err(String::from_str("product workspace contractPath must be packages/contracts"));
        }
        match contracts {
            Err(e) => {
                return Err(e.clone());
            },
            Ok(false) => {
                return Err(String::from_str("product workspace contracts must be a real project-local directory"));
            },
            Ok(true) => {},
        }
    }
    let name = match &fields.name {
        None => {
            return Err(String::from_str("pam.json name must be a non-empty string"));
        },
        Some(n) => n,
    };
    let name_chars = chars_of(name.as_str());
    proof {
        assert(name_chars@.subrange(0, name_chars@.len() as int) =~= name@);
    }
    let trimmed_name = trim_range(&name_chars, 0, name_chars.len());
    if trimmed_name.unicode_len() == 0 {
        return Err(String::from_str("pam.json name must be a non-empty string"));
    }
    if name_chars.len() > 80 || line_control(name.as_str()) {
        return Err(String::from_str("pam.json name must be safe and at most 80 characters"));
    }
    match &fields.version {
        VersionField::Absent => {},
        VersionField::NotText => {
            return Err(String::from_str("pam.json version must use MAJOR.MINOR.PATCH SemVer"));
        },
        VersionField::Text(v) => {
            if !valid_project_version(v.as_str()) {
                return Err(String::from_str("pam.json version must use MAJOR.MINOR.PATCH SemVer"));
            }
            if byte_len(v.as_str()) > 64 {
                return Err(String::from_str("pam.json version must be at most 64 bytes"));
            }
        },
    }
    Ok(())
}

} // verus!
