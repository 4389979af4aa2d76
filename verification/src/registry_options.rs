//! The options of the registry's `resolve`, `matrix`, `adopt` and `payload`
//! commands.

use vstd::prelude::*;
use crate::cli::Argument;
use crate::text::{str_eq, chars_of, concat_str, quoted, debug_quoted, parse_unsigned, parse_u64_chars};
use crate::plugin_registry::{semver_version_error, semver_parse_version, package_error, validate_package};

verus! {

/// The options shared by `resolve` and `matrix`, and those of `resolve`.
/// Paths are positions in the argument list; `pam_version` is the version
/// text, which parses as SemVer.
pub struct RegistryOptions {
    pub root: Option<usize>,
    pub root_sha256: Option<String>,
    pub catalog: Option<usize>,
    pub at_unix: Option<u64>,
    pub minimum_sequence: Option<u64>,
    pub json: bool,
    pub package: Option<String>,
    pub surface_code: Option<u8>,
    pub pam_version: String,
    pub native_protocol: Option<u32>,
    pub desktop_protocol: Option<u32>,
}

/// The text of an option's value, as the registry commands ask for it.
pub open spec fn registry_value(v: Option<&Argument>, option: Seq<char>) -> Result<Seq<char>, Seq<char>> {
    match v {
        None => Err(option + " requires a value"@),
        Some(a) => if a.utf8 {
            Ok(a.text@)
        } else {
            Err(option + " must be valid UTF-8"@)
        },
    }
}

fn value_of(v: Option<&Argument>, option: &str) -> (r: Result<String, String>)
    ensures
        match (r, registry_value(v, option@)) {
            (Ok(t), Ok(s)) => t@ == s,
            (Err(e), Err(m)) => e@ == m,
            _ => false,
        },
{
    match v {
        None => Err(concat_str(option, " requires a value")),
        Some(a) => {
            if a.utf8 {
                Ok(a.text.clone())
            } else {
                Err(concat_str(option, " must be valid UTF-8"))
            }
        },
    }
}

/// A number option's value: an unsigned integer no larger than `max`.
pub open spec fn registry_number(v: Option<&Argument>, option: Seq<char>, max: int, fails: Seq<char>) -> Result<int, Seq<char>> {
    match registry_value(v, option) {
        Err(e) => Err(e),
        Ok(t) => match parse_unsigned(t, max) {
            Some(n) => Ok(n),
            None => Err(fails),
        },
    }
}

fn number_of(v: Option<&Argument>, option: &str, max: u64, fails: &str) -> (r: Result<u64, String>)
    ensures
        match (r, registry_number(v, option@, max as int, fails@)) {
            (Ok(n), Ok(m)) => n == m,
            (Err(e), Err(m)) => e@ == m,
            _ => false,
        },
{
    let text = match value_of(v, option) {
        Ok(t) => t,
        Err(e) => {
            return Err(e);
        },
    };
    let chars = chars_of(text.as_str());
    proof {
        assert(chars@.subrange(0, chars@.len() as int) =~= chars@);
    }
    match parse_u64_chars(&chars, 0, chars.len()) {
        Some(n) => {
            if n <= max {
                Ok(n)
            } else {
                Err(String::from_str(fails))
            }
        },
        None => Err(String::from_str(fails)),
    }
}

/// The options after reading `args[i..]` on top of `st`; `resolve` tells
/// the `resolve` command (which also takes `--package` and
/// `--surface-code`) from `matrix`.
pub open spec fn registry_parse(args: Seq<Argument>, i: int, st: RegistryOptions, resolve: bool) -> Result<
    RegistryOptions,
    Seq<char>,
>
    decreases args.len() - i,
{
    if i < 0 || i >= args.len() {
        Ok(st)
    } else {
        let w = args[i].text@;
        let v = if i + 1 < args.len() {
            Some(&args[i + 1])
        } else {
            None
        };
        if w == "--root"@ {
            if v is None {
                Err(w + " requires a path"@)
            } else {
                registry_parse(args, i + 2, RegistryOptions { root: Some((i + 1) as usize), ..st }, resolve)
            }
        } else if w == "--root-sha256"@ {
            match registry_value(v, w) {
                Err(e) => Err(e),
                Ok(_) => registry_parse(args, i + 2, RegistryOptions { root_sha256: Some(args[i + 1].text), ..st }, resolve),
            }
        } else if w == "--catalog"@ {
            if v is None {
                Err(w + " requires a path"@)
            } else {
                registry_parse(args, i + 2, RegistryOptions { catalog: Some((i + 1) as usize), ..st }, resolve)
            }
        } else if w == "--at-unix"@ {
            match registry_number(v, w, u64::MAX as int, "--at-unix must be an unsigned integer"@) {
                Err(e) => Err(e),
                Ok(n) => registry_parse(args, i + 2, RegistryOptions { at_unix: Some(n as u64), ..st }, resolve),
            }
        } else if w == "--minimum-sequence"@ {
            match registry_number(v, w, u64::MAX as int, "--minimum-sequence must be an unsigned integer"@) {
                Err(e) => Err(e),
                Ok(n) => registry_parse(args, i + 2, RegistryOptions { minimum_sequence: Some(n as u64), ..st }, resolve),
            }
        } else if resolve && w == "--package"@ {
            match registry_value(v, w) {
                Err(e) => Err(e),
                Ok(_) => registry_parse(args, i + 2, RegistryOptions { package: Some(args[i + 1].text), ..st }, resolve),
            }
        } else if resolve && w == "--surface-code"@ {
            match registry_number(v, w, u8::MAX as int, "--surface-code must be 1, 2, or 3"@) {
                Err(e) => Err(e),
                Ok(n) => registry_parse(args, i + 2, RegistryOptions { surface_code: Some(n as u8), ..st }, resolve),
            }
        } else if w == "--pam-version"@ {
            match registry_value(v, w) {
                Err(e) => Err(e),
                Ok(t) => match semver_version_error(t) {
                    Some(e) => Err("invalid --pam-version: "@ + e),
                    None => registry_parse(args, i + 2, RegistryOptions { pam_version: args[i + 1].text, ..st }, resolve),
                },
            }
        } else if w == "--native-protocol"@ {
            match registry_number(v, w, u32::MAX as int, "--native-protocol must be an integer"@) {
                Err(e) => Err(e),
                Ok(n) => registry_parse(args, i + 2, RegistryOptions { native_protocol: Some(n as u32), ..st }, resolve),
            }
        } else if w == "--desktop-protocol"@ {
            match registry_number(v, w, u32::MAX as int, "--desktop-protocol must be an integer"@) {
                Err(e) => Err(e),
                Ok(n) => registry_parse(args, i + 2, RegistryOptions { desktop_protocol: Some(n as u32), ..st }, resolve),
            }
        } else if w == "--json"@ {
            registry_parse(args, i + 1, RegistryOptions { json: true, ..st }, resolve)
        } else {
            Err((if resolve {
                "unknown registry resolve option "@
            } else {
                "unknown registry matrix option "@
            }) + debug_quoted(w))
        }
    }
}

/// The options before any argument is read, with the given version text.
pub open spec fn registry_defaults(version: String) -> RegistryOptions {
    RegistryOptions {
        root: None,
        root_sha256: None,
        catalog: None,
        at_unix: None,
        minimum_sequence: None,
        json: false,
        package: None,
        surface_code: None,
        pam_version: version,
        native_protocol: None,
        desktop_protocol: None,
    }
}

/// What the `resolve` or `matrix` arguments give, with `default_version`
/// (this program's version) unless `--pam-version` replaces it, and the
/// command's own requirements checked.
pub open spec fn registry_request(args: Seq<Argument>, default_version: String, resolve: bool) -> Result<
    RegistryOptions,
    Seq<char>,
> {
    if semver_version_error(default_version@) is Some {
        Err("invalid PAM package version: "@ + semver_version_error(default_version@)->0)
    } else {
        match registry_parse(args, 0, registry_defaults(default_version), resolve) {
            Err(e) => Err(e),
            Ok(o) => if o.root is None || o.root_sha256 is None || o.catalog is None {
                Err(if resolve {
                    "registry resolution requires --root, --root-sha256, and --catalog"@
                } else {
                    "registry matrix requires --root, --root-sha256, and --catalog"@
                })
            } else if resolve {
                if o.package is None {
                    Err("registry resolution requires --package"@)
                } else if package_error(o.package->0@) is Some {
                    Err(package_error(o.package->0@)->0)
                } else if o.surface_code is None || !(1 <= o.surface_code->0 <= 3) {
                    Err("registry resolution requires --surface-code 1, 2, or 3"@)
                } else if o.surface_code->0 == 2 && o.native_protocol is None {
                    Err("Native registry resolution requires --native-protocol"@)
                } else if o.surface_code->0 == 3 && o.desktop_protocol is None {
                    Err("Desktop registry resolution requires --desktop-protocol"@)
                } else {
                    Ok(o)
                }
            } else if o.native_protocol is None {
                Err("registry matrix requires --native-protocol"@)
            } else if o.desktop_protocol is None {
                Err("registry matrix requires --desktop-protocol"@)
            } else {
                Ok(o)
            },
        }
    }
}

/// Reads the arguments of `registry resolve` (`resolve` true) or
/// `registry matrix`.
#[verifier::rlimit(60)]
pub fn parse_registry_options(args: &Vec<Argument>, default_version: &String, resolve: bool) -> (r: Result<
    RegistryOptions,
    String,
>)
    ensures
        match (r, registry_request(args@, *default_version, resolve)) {
            (Ok(o), Ok(s)) => o == s,
            (Err(e), Err(m)) => e@ == m,
            _ => false,
        },
{
    if let Err(e) = semver_parse_version(default_version.as_str()) {
        return Err(concat_str("invalid PAM package version: ", e.as_str()));
    }
    let mut st = RegistryOptions {
        root: None,
        root_sha256: None,
        catalog: None,
        at_unix: None,
        minimum_sequence: None,
        json: false,
        package: None,
        surface_code: None,
        pam_version: default_version.clone(),
        native_protocol: None,
        desktop_protocol: None,
    };
    let n = args.len();
    let mut i: usize = 0;
    while i < n
        invariant
            n == args@.len(),
            i <= n + 1,
            semver_version_error(default_version@) is None,
            registry_parse(args@, 0, registry_defaults(*default_version), resolve) == registry_parse(
                args@,
                i as int,
                st,
                resolve,
            ),
        decreases n + 1 - i,
    {
        let w = args[i].text.as_str();
        let v = if i + 1 < n {
            Some(&args[i + 1])
        } else {
            None
        };
        if str_eq(w, "--root") {
            if v.is_none() {
                return Err(concat_str(w, " requires a path"));
            }
            st.root = Some(i + 1);
            i = i + 2;
        } else if str_eq(w, "--root-sha256") {
            match value_of(v, w) {
                Err(e) => {
                    return Err(e);
                },
                Ok(t) => {
                    st.root_sha256 = Some(args[i + 1].text.clone());
                    i = i + 2;
                },
            }
        } else if str_eq(w, "--catalog") {
            if v.is_none() {
                return Err(concat_str(w, " requires a path"));
            }
            st.catalog = Some(i + 1);
            i = i + 2;
        } else if str_eq(w, "--at-unix") {
            match number_of(v, w, u64::MAX, "--at-unix must be an unsigned integer") {
                Err(e) => {
                    return Err(e);
                },
                Ok(k) => {
                    st.at_unix = Some(k);
                    i = i + 2;
                },
            }
        } else if str_eq(w, "--minimum-sequence") {
            match number_of(v, w, u64::MAX, "--minimum-sequence must be an unsigned integer") {
                Err(e) => {
                    return Err(e);
                },
                Ok(k) => {
                    st.minimum_sequence = Some(k);
                    i = i + 2;
                },
            }
        } else if resolve && str_eq(w, "--package") {
            match value_of(v, w) {
                Err(e) => {
                    return Err(e);
                },
                Ok(_) => {
                    st.package = Some(args[i + 1].text.clone());
                    i = i + 2;
                },
            }
        } else if resolve && str_eq(w, "--surface-code") {
            match number_of(v, w, 255, "--surface-code must be 1, 2, or 3") {
                Err(e) => {
                    return Err(e);
                },
                Ok(k) => {
                    st.surface_code = Some(k as u8);
                    i = i + 2;
                },
            }
        } else if str_eq(w, "--pam-version") {
            match value_of(v, w) {
                Err(e) => {
                    return Err(e);
                },
                Ok(t) => {
                    if let Err(e) = semver_parse_version(t.as_str()) {
                        return Err(concat_str("invalid --pam-version: ", e.as_str()));
                    }
                    st.pam_version = args[i + 1].text.clone();
                    i = i + 2;
                },
            }
        } else if str_eq(w, "--native-protocol") {
            match number_of(v, w, 4294967295, "--native-protocol must be an integer") {
                Err(e) => {
                    return Err(e);
                },
                Ok(k) => {
                    st.native_protocol = Some(k as u32);
                    i = i + 2;
                },
            }
        } else if str_eq(w, "--desktop-protocol") {
            match number_of(v, w, 4294967295, "--desktop-protocol must be an integer") {
                Err(e) => {
                    return Err(e);
                },
                Ok(k) => {
                    st.desktop_protocol = Some(k as u32);
                    i = i + 2;
                },
            }
        } else if str_eq(w, "--json") {
            st.json = true;
            i = i + 1;
        } else {
            let shown = quoted(w);
            return Err(concat_str(
                if resolve {
                    "unknown registry resolve option "
                } else {
                    "unknown registry matrix option "
                },
                shown.as_str(),
            ));
        }
    }
    if st.root.is_none() || st.root_sha256.is_none() || st.catalog.is_none() {
        return Err(String::from_str(
            if resolve {
                "registry resolution requires --root, --root-sha256, and --catalog"
            } else {
                "registry matrix requires --root, --root-sha256, and --catalog"
            },
        ));
    }
    if resolve {
        match &st.package {
            None => {
                return Err(String::from_str("registry resolution requires --package"));
            },
            Some(p) => {
                if let Err(e) = validate_package(p.as_str()) {
                    return Err(e);
                }
            },
        }
        match st.surface_code {
            None => {
                return Err(String::from_str("registry resolution requires --surface-code 1, 2, or 3"));
            },
            Some(code) => {
                if code < 1 || code > 3 {
                    return Err(String::from_str("registry resolution requires --surface-code 1, 2, or 3"));
                }
                if code == 2 && st.native_protocol.is_none() {
                    return Err(String::from_str("Native registry resolution requires --native-protocol"));
                }
                if code == 3 && st.desktop_protocol.is_none() {
                    return Err(String::from_str("Desktop registry resolution requires --desktop-protocol"));
                }
            },
        }
        return Ok(st);
    }
    if st.native_protocol.is_none() {
        return Err(String::from_str("registry matrix requires --native-protocol"));
    }
    if st.desktop_protocol.is_none() {
        return Err(String::from_str("registry matrix requires --desktop-protocol"));
    }
    Ok(st)
}

/// The options of `registry adopt`; paths are positions in the argument list.
#[derive(Clone, Copy, Debug, PartialEq, Eq, Structural)]
pub struct AdoptOptions {
    pub project: usize,
    pub next_root: usize,
    pub next_catalog: usize,
    pub at_unix: Option<u64>,
    pub json: bool,
}

/// What has been read of the `adopt` arguments: the project, next root and
/// next catalog positions, `--at-unix` and `--json`.
pub type AdoptState = (Option<usize>, Option<usize>, Option<usize>, Option<u64>, bool);

/// The `adopt` options after reading `args[i..]` on top of `st`.
pub open spec fn adopt_parse(args: Seq<Argument>, i: int, st: AdoptState) -> Result<AdoptState, Seq<char>>
    decreases args.len() - i,
{
    if i < 0 || i >= args.len() {
        Ok(st)
    } else {
        let w = args[i].text@;
        let v = if i + 1 < args.len() {
            Some(&args[i + 1])
        } else {
            None
        };
        if w == "--project"@ || w == "--next-root"@ || w == "--next-catalog"@ {
            if v is None {
                Err(w + " requires a path"@)
            } else {
                let at = Some((i + 1) as usize);
                adopt_parse(
                    args,
                    i + 2,
                    if w == "--project"@ {
                        (at, st.1, st.2, st.3, st.4)
                    } else if w == "--next-root"@ {
                        (st.0, at, st.2, st.3, st.4)
                    } else {
                        (st.0, st.1, at, st.3, st.4)
                    },
                )
            }
        } else if w == "--at-unix"@ {
            match registry_number(v, w, u64::MAX as int, "--at-unix must be an unsigned integer"@) {
                Err(e) => Err(e),
                Ok(n) => adopt_parse(args, i + 2, (st.0, st.1, st.2, Some(n as u64), st.4)),
            }
        } else if w == "--json"@ {
            adopt_parse(args, i + 1, (st.0, st.1, st.2, st.3, true))
        } else {
            Err("unknown registry adopt option "@ + debug_quoted(w))
        }
    }
}

/// What the `adopt` arguments give: the project, next root and next catalog
/// are required, in that order.
pub open spec fn adopt_request(args: Seq<Argument>) -> Result<AdoptOptions, Seq<char>> {
    match adopt_parse(args, 0, (None, None, None, None, false)) {
        Err(e) => Err(e),
        Ok((project, next_root, next_catalog, at_unix, json)) => if project is None {
            Err("registry adoption requires --project"@)
        } else if next_root is None {
            Err("registry adoption requires --next-root"@)
        } else if next_catalog is None {
            Err("registry adoption requires --next-catalog"@)
        } else {
            Ok(
                AdoptOptions {
                    project: project->0,
                    next_root: next_root->0,
                    next_catalog: next_catalog->0,
                    at_unix,
                    json,
                },
            )
        },
    }
}

/// Reads the arguments of `registry adopt`.
pub fn parse_adopt_options(args: &Vec<Argument>) -> (r: Result<AdoptOptions, String>)
    ensures
        match (r, adopt_request(args@)) {
            (Ok(o), Ok(s)) => o == s,
            (Err(e), Err(m)) => e@ == m,
            _ => false,
        },
{
    let mut st: AdoptState = (None, None, None, None, false);
    let n = args.len();
    let mut i: usize = 0;
    while i < n
        invariant
            n == args@.len(),
            i <= n + 1,
            adopt_parse(args@, 0, (None, None, None, None, false)) == adopt_parse(args@, i as int, st),
        decreases n + 1 - i,
    {
        let w = args[i].text.as_str();
        let v = if i + 1 < n {
            Some(&args[i + 1])
        } else {
            None
        };
        let project = str_eq(w, "--project");
        let next_root = str_eq(w, "--next-root");
        let next_catalog = str_eq(w, "--next-catalog");
        if project || next_root || next_catalog {
            if v.is_none() {
                return Err(concat_str(w, " requires a path"));
            }
            if project {
                st.0 = Some(i + 1);
            } else if next_root {
                st.1 = Some(i + 1);
            } else {
                st.2 = Some(i + 1);
            }
            i = i + 2;
        } else if str_eq(w, "--at-unix") {
            match number_of(v, w, u64::MAX, "--at-unix must be an unsigned integer") {
                Err(e) => {
                    return Err(e);
                },
                Ok(k) => {
                    st.3 = Some(k);
                    i = i + 2;
                },
            }
        } else if str_eq(w, "--json") {
            st.4 = true;
            i = i + 1;
        } else {
            let shown = quoted(w);
            return Err(concat_str("unknown registry adopt option ", shown.as_str()));
        }
    }
    let (project, next_root, next_catalog, at_unix, json) = st;
    let project = match project {
        None => {
            return Err(String::from_str("registry adoption requires --project"));
        },
        Some(p) => p,
    };
    let next_root = match next_root {
        None => {
            return Err(String::from_str("registry adoption requires --next-root"));
        },
        Some(p) => p,
    };
    let next_catalog = match next_catalog {
        None => {
            return Err(String::from_str("registry adoption requires --next-catalog"));
        },
        Some(p) => p,
    };
    Ok(AdoptOptions { project, next_root, next_catalog, at_unix, json })
}

/// The `payload` options after reading `args[i..]`: the positions of the
/// signing document and of the output file.
pub open spec fn payload_parse(args: Seq<Argument>, i: int, st: (Option<usize>, Option<usize>)) -> Result<
    (Option<usize>, Option<usize>),
    Seq<char>,
>
    decreases args.len() - i,
{
    if i < 0 || i >= args.len() {
        Ok(st)
    } else {
        let w = args[i].text@;
        if w == "--document"@ || w == "--output"@ {
            if i + 1 >= args.len() {
                Err(w + " requires a path"@)
            } else if w == "--document"@ {
                payload_parse(args, i + 2, (Some((i + 1) as usize), st.1))
            } else {
                payload_parse(args, i + 2, (st.0, Some((i + 1) as usize)))
            }
        } else {
            Err("unknown registry payload option "@ + debug_quoted(w))
        }
    }
}

/// What the `payload` arguments give: the signing document's position, which
/// is required, and the output file's, if any.
pub open spec fn payload_request(args: Seq<Argument>) -> Result<(usize, Option<usize>), Seq<char>> {
    match payload_parse(args, 0, (None, None)) {
        Err(e) => Err(e),
        Ok((document, output)) => match document {
            None => Err("registry payload requires --document"@),
            Some(d) => Ok((d, output)),
        },
    }
}

/// Reads the arguments of `registry payload`: the positions of the signing
/// document and of the output file, if any.
pub fn parse_payload_options(args: &Vec<Argument>) -> (r: Result<(usize, Option<usize>), String>)
    ensures
        match (r, payload_request(args@)) {
            (Ok(o), Ok(s)) => o == s,
            (Err(e), Err(m)) => e@ == m,
            _ => false,
        },
{
    let mut document: Option<usize> = None;
    let mut output: Option<usize> = None;
    let n = args.len();
    let mut i: usize = 0;
    while i < n
        invariant
            n == args@.len(),
            i <= n + 1,
            payload_parse(args@, 0, (None, None)) == payload_parse(args@, i as int, (document, output)),
        decreases n + 1 - i,
    {
        let w = args[i].text.as_str();
        let is_document = str_eq(w, "--document");
        if is_document || str_eq(w, "--output") {
            if i + 1 >= n {
                return Err(concat_str(w, " requires a path"));
            }
            if is_document {
                document = Some(i + 1);
            } else {
                output = Some(i + 1);
            }
            i = i + 2;
        } else {
            let shown = quoted(w);
            return Err(concat_str("unknown registry payload option ", shown.as_str()));
        }
    }
    match document {
        None => Err(String::from_str("registry payload requires --document")),
        Some(d) => Ok((d, output)),
    }
}

} // verus!
