//! The native application manifest of a mobile project and the rules it is
//! held to before a build.

use vstd::prelude::*;
use vstd::utf8::*;
use crate::text::{str_eq, chars_of, byte_len, concat_str, push_decimal_text, decimal_text, quoted, debug_quoted,
    is_whitespace, char_is_whitespace, is_ascii_alnum, ascii_alnum};
use crate::mobile::{is_module_name, is_class_name, is_application_id, is_uri_scheme, is_deep_link_host,
    valid_module_name, valid_class_name, valid_application_id, valid_uri_scheme, valid_deep_link_host};

verus! {

/// The PHP runtime a project asks for.
pub struct RuntimeRequest {
    pub php: String,
    pub channel: String,
}

/// An Android deep link.
pub struct AndroidDeepLink {
    pub scheme: String,
    pub host: Option<String>,
    pub path_prefix: Option<String>,
    pub auto_verify: bool,
}

/// The Android section of a manifest.
pub struct AndroidOptions {
    pub min_sdk: u32,
    pub target_sdk: u32,
    pub permissions: Vec<String>,
    pub deep_links: Vec<AndroidDeepLink>,
}

/// A native module or view: a name and the Kotlin class behind it.
pub struct NativeBinding {
    pub name: String,
    pub class: String,
}

/// A path as the manifest gives it: its text, whether it is absolute, and
/// its components, each `Some(name)` for a plain name and `None` for a root,
/// prefix, `.` or `..`.
pub struct ProjectPath {
    pub text: String,
    pub absolute: bool,
    pub components: Vec<Option<String>>,
}

/// A native application manifest.
pub struct NativeManifest {
    pub version: u32,
    pub application_id: String,
    pub name: String,
    pub entry: ProjectPath,
    pub runtime: RuntimeRequest,
    pub version_code: u32,
    pub version_name: String,
    pub android: AndroidOptions,
    pub modules: Vec<NativeBinding>,
    pub views: Vec<NativeBinding>,
}

/// What the project directory holds for the manifest: where the entry
/// script resolves to, whether it is a file, and whether Composer's
/// autoloader is installed.
pub struct ProjectFiles {
    pub entry_location: String,
    pub entry_is_file: bool,
    pub autoload_is_file: bool,
}

/// The first error among `f(0)`, ..., `f(n - 1)`.
pub open spec fn first_error(f: spec_fn(int) -> Option<Seq<char>>, n: int) -> Option<Seq<char>>
    decreases n,
{
    if n <= 0 {
        None
    } else if first_error(f, n - 1) is Some {
        first_error(f, n - 1)
    } else {
        f(n - 1)
    }
}

proof fn lemma_first_error_settles(f: spec_fn(int) -> Option<Seq<char>>, m: int, n: int)
    requires
        0 <= m <= n,
        first_error(f, m) is Some,
    ensures
        first_error(f, n) == first_error(f, m),
    decreases n - m,
{
    if m < n {
        lemma_first_error_settles(f, m, n - 1);
    }
}

/// A non-empty relative path made of plain names only.
pub open spec fn is_safe_relative(path: ProjectPath) -> bool {
    &&& path.text@.len() > 0
    &&& !path.absolute
    &&& forall|i: int| 0 <= i < path.components@.len() ==> (#[trigger] path.components@[i]) is Some
}

/// Accepts a project-relative path: not empty, not absolute, and with no
/// root, prefix, `.` or `..` component.
pub fn validate_relative_path(path: &ProjectPath) -> (r: Result<(), String>)
    ensures
        match r {
            Ok(()) => is_safe_relative(*path),
            Err(e) => !is_safe_relative(*path) && e@ == "unsafe project-relative path "@ + path.text@,
        },
{
    let mut plain = path.text.as_str().unicode_len() > 0 && !path.absolute;
    let mut i: usize = 0;
    while i < path.components.len() && plain
        invariant
            i <= path.components@.len(),
            plain ==> path.text@.len() > 0 && !path.absolute,
            plain ==> forall|k: int| 0 <= k < i ==> (#[trigger] path.components@[k]) is Some,
            !plain ==> !is_safe_relative(*path),
        decreases path.components.len() - i,
    {
        if path.components[i].is_none() {
            plain = false;
        }
        i = i + 1;
    }
    if plain {
        Ok(())
    } else {
        Err(concat_str("unsafe project-relative path ", path.text.as_str()))
    }
}

/// The text holds one of the characters of `bad`.
pub open spec fn contains_any(v: Seq<char>, bad: Seq<char>) -> bool {
    exists|i: int| 0 <= i < v.len() && bad.contains(#[trigger] v[i])
}

pub(crate) fn holds_any(value: &str, bad: &str) -> (r: bool)
    ensures
        r == contains_any(value@, bad@),
{
    let chars = chars_of(value);
    let bad_chars = chars_of(bad);
    let mut i: usize = 0;
    while i < chars.len()
        invariant
            chars@ == value@,
            bad_chars@ == bad@,
            i <= chars@.len(),
            forall|k: int| 0 <= k < i ==> !bad@.contains(#[trigger] value@[k]),
        decreases chars.len() - i,
    {
        let mut j: usize = 0;
        while j < bad_chars.len()
            invariant
                chars@ == value@,
                bad_chars@ == bad@,
                i < chars@.len(),
                j <= bad_chars@.len(),
                forall|q: int| 0 <= q < j ==> bad@[q] != value@[i as int],
            decreases bad_chars.len() - j,
        {
            if bad_chars[j] == chars[i] {
                assert(bad@.contains(value@[i as int]));
                return true;
            }
            j = j + 1;
        }
        i = i + 1;
    }
    false
}

/// Every character is whitespace, as `str::trim` leaves nothing.
pub open spec fn all_whitespace(v: Seq<char>) -> bool {
    forall|i: int| 0 <= i < v.len() ==> is_whitespace(#[trigger] v[i])
}

fn blank(value: &str) -> (r: bool)
    ensures
        r == all_whitespace(value@),
{
    let chars = chars_of(value);
    let mut i: usize = 0;
    while i < chars.len()
        invariant
            chars@ == value@,
            i <= chars@.len(),
            forall|k: int| 0 <= k < i ==> is_whitespace(#[trigger] value@[k]),
        decreases chars.len() - i,
    {
        if !char_is_whitespace(chars[i]) {
            return false;
        }
        i = i + 1;
    }
    true
}

/// What is wrong with binding `i` of a list of modules or views, if anything.
/// `noun` is `module` or `view`; `class_prefix` opens the message for a bad class.
pub open spec fn declared_binding_error(bs: Seq<NativeBinding>, i: int, noun: Seq<char>, class_prefix: Seq<char>) -> Option<Seq<char>> {
    if !is_module_name(bs[i].name@) {
        Some("native "@ + noun + " name "@ + debug_quoted(bs[i].name@) + " must use lowercase letters, digits, dots, _ or -"@)
    } else if !is_class_name(bs[i].class@) {
        Some(class_prefix + debug_quoted(bs[i].class@))
    } else if exists|q: int| 0 <= q < i && #[trigger] bs[q].name@ == bs[i].name@ {
        Some("duplicate native "@ + noun + " name "@ + debug_quoted(bs[i].name@))
    } else {
        None
    }
}

pub open spec fn declared_binding_errors(bs: Seq<NativeBinding>, noun: Seq<char>, class_prefix: Seq<char>) -> spec_fn(int) -> Option<Seq<char>> {
    |i: int| declared_binding_error(bs, i, noun, class_prefix)
}

fn check_binding(bs: &Vec<NativeBinding>, i: usize, noun: &str, class_prefix: &str) -> (r: Result<(), String>)
    requires
        i < bs@.len(),
    ensures
        match r {
            Ok(()) => declared_binding_error(bs@, i as int, noun@, class_prefix@) is None,
            Err(e) => declared_binding_error(bs@, i as int, noun@, class_prefix@) == Some(e@),
        },
{
    let b = &bs[i];
    if !valid_module_name(b.name.as_str()) {
        let mut m = String::from_str("native ");
        m.append(noun);
        m.append(" name ");
        m.append(quoted(b.name.as_str()).as_str());
        m.append(" must use lowercase letters, digits, dots, _ or -");
        return Err(m);
    }
    if !valid_class_name(b.class.as_str()) {
        return Err(concat_str(class_prefix, quoted(b.class.as_str()).as_str()));
    }
    let mut dup = false;
    let mut j: usize = 0;
    while j < i && !dup
        invariant
            i < bs@.len(),
            j <= i,
            dup == exists|q: int| 0 <= q < j && #[trigger] bs@[q].name@ == bs@[i as int].name@,
        decreases i - j,
    {
        if str_eq(bs[j].name.as_str(), bs[i].name.as_str()) {
            assert(bs@[j as int].name@ == bs@[i as int].name@);
            dup = true;
        }
        j = j + 1;
    }
    if dup {
        let mut m = String::from_str("duplicate native ");
        m.append(noun);
        m.append(" name ");
        m.append(quoted(bs[i].name.as_str()).as_str());
        return Err(m);
    }
    Ok(())
}

fn check_bindings(bs: &Vec<NativeBinding>, noun: &str, class_prefix: &str) -> (r: Result<(), String>)
    ensures
        match r {
            Ok(()) => first_error(declared_binding_errors(bs@, noun@, class_prefix@), bs@.len() as int) is None,
            Err(e) => first_error(declared_binding_errors(bs@, noun@, class_prefix@), bs@.len() as int) == Some(e@),
        },
{
    let ghost f = declared_binding_errors(bs@, noun@, class_prefix@);
    let n = bs.len();
    let mut i: usize = 0;
    while i < n
        invariant
            n == bs@.len(),
            i <= n,
            f == declared_binding_errors(bs@, noun@, class_prefix@),
            first_error(f, i as int) is None,
        decreases n - i,
    {
        let r = check_binding(bs, i, noun, class_prefix);
        assert(f(i as int) == declared_binding_error(bs@, i as int, noun@, class_prefix@));
        if let Err(m) = r {
            proof {
                assert(first_error(f, i + 1) == Some(m@));
                lemma_first_error_settles(f, i + 1, n as int);
            }
            return Err(m);
        }
        i = i + 1;
    }
    Ok(())
}

/// A permission of the form `android.permission.` followed by ASCII letters,
/// digits, `_` and `.`.
pub open spec fn is_manifest_permission(v: Seq<char>) -> bool {
    let prefix = "android.permission."@;
    &&& v.len() >= prefix.len()
    &&& v.take(prefix.len() as int) == prefix
    &&& forall|i: int| 0 <= i < v.len() ==> is_ascii_alnum(#[trigger] v[i]) || v[i] == '_' || v[i] == '.'
}

fn manifest_permission(value: &str) -> (r: bool)
    ensures
        r == is_manifest_permission(value@),
{
    let chars = chars_of(value);
    let prefix = chars_of("android.permission.");
    if chars.len() < prefix.len() {
        return false;
    }
    let mut i: usize = 0;
    while i < prefix.len()
        invariant
            chars@ == value@,
            prefix@ == "android.permission."@,
            prefix@.len() <= chars@.len(),
            i <= prefix@.len(),
            forall|k: int| 0 <= k < i ==> chars@[k] == prefix@[k],
        decreases prefix.len() - i,
    {
        if chars[i] != prefix[i] {
            assert(chars@.take(prefix@.len() as int)[i as int] != prefix@[i as int]);
            return false;
        }
        i = i + 1;
    }
    assert(chars@.take(prefix@.len() as int) =~= prefix@);
    let mut i: usize = 0;
    while i < chars.len()
        invariant
            chars@ == value@,
            i <= chars@.len(),
            forall|k: int| 0 <= k < i ==> is_ascii_alnum(#[trigger] value@[k]) || value@[k] == '_' || value@[k] == '.',
        decreases chars.len() - i,
    {
        let c = chars[i];
        if !(ascii_alnum(c) || c == '_' || c == '.') {
            return false;
        }
        i = i + 1;
    }
    true
}

pub open spec fn permission_errors(ps: Seq<String>) -> spec_fn(int) -> Option<Seq<char>> {
    |i: int| if is_manifest_permission(ps[i]@) {
        None
    } else {
        Some("invalid Android permission "@ + debug_quoted(ps[i]@))
    }
}

fn check_permissions(ps: &Vec<String>) -> (r: Result<(), String>)
    ensures
        match r {
            Ok(()) => first_error(permission_errors(ps@), ps@.len() as int) is None,
            Err(e) => first_error(permission_errors(ps@), ps@.len() as int) == Some(e@),
        },
{
    let ghost f = permission_errors(ps@);
    let n = ps.len();
    let mut i: usize = 0;
    while i < n
        invariant
            n == ps@.len(),
            i <= n,
            f == permission_errors(ps@),
            first_error(f, i as int) is None,
        decreases n - i,
    {
        if !manifest_permission(ps[i].as_str()) {
            let m = concat_str("invalid Android permission ", quoted(ps[i].as_str()).as_str());
            proof {
                assert(first_error(f, i + 1) == Some(m@));
                lemma_first_error_settles(f, i + 1, n as int);
            }
            return Err(m);
        }
        i = i + 1;
    }
    Ok(())
}

/// A path prefix that starts with `/`, holds at most 512 bytes, and none of
/// line breaks, NUL, `"`, `<`, `>` or `&`.
pub open spec fn is_safe_path_prefix(v: Seq<char>) -> bool {
    &&& v.len() > 0
    &&& v[0] == '/'
    &&& encode_utf8(v).len() <= 512
    &&& !contains_any(v, "\n\r\0\"<>&"@)
}

/// What is wrong with a deep link, if anything.
pub open spec fn link_error(l: AndroidDeepLink) -> Option<Seq<char>> {
    if !is_uri_scheme(l.scheme@) {
        Some("invalid Android deep-link scheme "@ + debug_quoted(l.scheme@))
    } else if l.host is Some && !is_deep_link_host(l.host->0@) {
        Some("invalid Android deep-link host "@ + debug_quoted(l.host->0@))
    } else if l.path_prefix is Some && !is_safe_path_prefix(l.path_prefix->0@) {
        Some("Android deep-link pathPrefix "@ + debug_quoted(l.path_prefix->0@) + " must be an absolute safe path"@)
    } else if l.auto_verify && (l.scheme@ != "https"@ || l.host is None) {
        Some("Android autoVerify deep links require scheme \"https\" and a host"@)
    } else {
        None
    }
}

pub open spec fn link_errors(ls: Seq<AndroidDeepLink>) -> spec_fn(int) -> Option<Seq<char>> {
    |i: int| link_error(ls[i])
}

fn check_link(l: &AndroidDeepLink) -> (r: Result<(), String>)
    ensures
        match r {
            Ok(()) => link_error(*l) is None,
            Err(e) => link_error(*l) == Some(e@),
        },
{
    if !valid_uri_scheme(l.scheme.as_str()) {
        return Err(concat_str("invalid Android deep-link scheme ", quoted(l.scheme.as_str()).as_str()));
    }
    if let Some(host) = &l.host {
        if !valid_deep_link_host(host.as_str()) {
            return Err(concat_str("invalid Android deep-link host ", quoted(host.as_str()).as_str()));
        }
    }
    if let Some(path) = &l.path_prefix {
        let p = path.as_str();
        let safe = p.unicode_len() > 0 && p.get_char(0) == '/' && byte_len(p) <= 512 && !holds_any(p, "\n\r\0\"<>&");
        if !safe {
            let mut m = concat_str("Android deep-link pathPrefix ", quoted(p).as_str());
            m.append(" must be an absolute safe path");
            return Err(m);
        }
    }
    if l.auto_verify && (!str_eq(l.scheme.as_str(), "https") || l.host.is_none()) {
        return Err(String::from_str("Android autoVerify deep links require scheme \"https\" and a host"));
    }
    Ok(())
}

fn check_links(ls: &Vec<AndroidDeepLink>) -> (r: Result<(), String>)
    ensures
        match r {
            Ok(()) => first_error(link_errors(ls@), ls@.len() as int) is None,
            Err(e) => first_error(link_errors(ls@), ls@.len() as int) == Some(e@),
        },
{
    let ghost f = link_errors(ls@);
    let n = ls.len();
    let mut i: usize = 0;
    while i < n
        invariant
            n == ls@.len(),
            i <= n,
            f == link_errors(ls@),
            first_error(f, i as int) is None,
        decreases n - i,
    {
        if let Err(m) = check_link(&ls[i]) {
            proof {
                assert(first_error(f, i + 1) == Some(m@));
                lemma_first_error_settles(f, i + 1, n as int);
            }
            return Err(m);
        }
        i = i + 1;
    }
    Ok(())
}

/// A version name that is usable: 1 to 64 bytes with no line break or NUL.
pub open spec fn is_safe_version_name(v: Seq<char>) -> bool {
    v.len() > 0 && encode_utf8(v).len() <= 64 && !contains_any(v, "\n\r\0"@)
}

/// What is wrong with a manifest and the project files it names, if anything.
pub open spec fn manifest_error(m: NativeManifest, files: ProjectFiles) -> Option<Seq<char>> {
    if m.version != 1 {
        Some("unsupported Pam Native manifest version "@ + decimal_text(m.version as nat) + "; expected 1"@)
    } else if m.runtime.php@ != "8.4"@ && m.runtime.php@ != "8.5"@ {
        Some("runtime.php must be 8.4 or 8.5"@)
    } else if m.runtime.channel@ != "stable"@ {
        Some("runtime.channel currently supports only \"stable\""@)
    } else if !is_application_id(m.application_id@) {
        Some("applicationId must be a dot-separated Java package name"@)
    } else if all_whitespace(m.name@) || m.name@.len() > 80 {
        Some("application name must contain between 1 and 80 characters"@)
    } else if m.version_code == 0 {
        Some("versionCode must be a positive integer"@)
    } else if !is_safe_version_name(m.version_name@) {
        Some("versionName must be a safe string no longer than 64 bytes"@)
    } else if m.android.min_sdk < 26 || m.android.min_sdk > m.android.target_sdk {
        Some("Android minSdk must be at least 26 and no greater than targetSdk"@)
    } else if m.android.target_sdk > 36 {
        Some("this Pam Native release supports targetSdk up to 36"@)
    } else if !is_safe_relative(m.entry) {
        Some("unsafe project-relative path "@ + m.entry.text@)
    } else if !files.entry_is_file {
        Some("mobile entry "@ + files.entry_location@ + " does not exist"@)
    } else if !files.autoload_is_file {
        Some("vendor/autoload.php is missing; run `pam composer install` first"@)
    } else if first_error(declared_binding_errors(m.modules@, "module"@, "invalid Kotlin class name "@), m.modules@.len() as int) is Some {
        first_error(declared_binding_errors(m.modules@, "module"@, "invalid Kotlin class name "@), m.modules@.len() as int)
    } else if first_error(declared_binding_errors(m.views@, "view"@, "invalid native view factory class "@), m.views@.len() as int) is Some {
        first_error(declared_binding_errors(m.views@, "view"@, "invalid native view factory class "@), m.views@.len() as int)
    } else if first_error(permission_errors(m.android.permissions@), m.android.permissions@.len() as int) is Some {
        first_error(permission_errors(m.android.permissions@), m.android.permissions@.len() as int)
    } else {
        first_error(link_errors(m.android.deep_links@), m.android.deep_links@.len() as int)
    }
}

/// Checks a native manifest and the project files it names, in the order a
/// build needs them: format version, runtime, application identity and
/// version, SDK levels, the entry script, the Composer autoloader, then each
/// module, view, permission and deep link.
pub fn validate_manifest(manifest: &NativeManifest, files: &ProjectFiles) -> (r: Result<(), String>)
    ensures
        match r {
            Ok(()) => manifest_error(*manifest, *files) is None,
            Err(e) => manifest_error(*manifest, *files) == Some(e@),
        },
{
    if manifest.version != 1 {
        let mut m = String::from_str("unsupported Pam Native manifest version ");
        push_decimal_text(&mut m, manifest.version as u64);
        m.append("; expected 1");
        return Err(m);
    }
    if !str_eq(manifest.runtime.php.as_str(), "8.4") && !str_eq(manifest.runtime.php.as_str(), "8.5") {
        return Err(String::from_str("runtime.php must be 8.4 or 8.5"));
    }
    if !str_eq(manifest.runtime.channel.as_str(), "stable") {
        return Err(String::from_str("runtime.channel currently supports only \"stable\""));
    }
    if !valid_application_id(manifest.application_id.as_str()) {
        return Err(String::from_str("applicationId must be a dot-separated Java package name"));
    }
    if blank(manifest.name.as_str()) || manifest.name.as_str().unicode_len() > 80 {
        return Err(String::from_str("application name must contain between 1 and 80 characters"));
    }
    if manifest.version_code == 0 {
        return Err(String::from_str("versionCode must be a positive integer"));
    }
    let version_name = manifest.version_name.as_str();
    if version_name.unicode_len() == 0 || byte_len(version_name) > 64 || holds_any(version_name, "\n\r\0") {
        return Err(String::from_str("versionName must be a safe string no longer than 64 bytes"));
    }
    if manifest.android.min_sdk < 26 || manifest.android.min_sdk > manifest.android.target_sdk {
        return Err(String::from_str("Android minSdk must be at least 26 and no greater than targetSdk"));
    }
    if manifest.android.target_sdk > 36 {
        return Err(String::from_str("this Pam Native release supports targetSdk up to 36"));
    }
if let Err(e) = validate_relative_path(&manifest.entry) {
        return Err(e);
    }
    if !files.entry_is_file {
        let mut m = concat_str("mobile entry ", files.entry_location.as_str());
        m.append(" does not exist");
        return Err(m);
    }
    if !files.autoload_is_file {
        return Err(String::from_str("vendor/autoload.php is missing; run `pam composer install` first"));
    }
if let Err(e) = check_bindings(&manifest.modules, "module", "invalid Kotlin class name ") {
        return Err(e);
    }
if let Err(e) = check_bindings(&manifest.views, "view", "invalid native view factory class ") {
        return Err(e);
    }
if let Err(e) = check_permissions(&manifest.android.permissions) {
        return Err(e);
    }
    check_links(&manifest.android.deep_links)
}

} // verus!
