//! The manifest a native mobile plugin package ships, and the rules it is
//! held to against the application that installs it.

use vstd::prelude::*;
use vstd::utf8::*;
use crate::text::{chars_of, byte_len, concat_str, push_decimal_text, decimal_text, quoted, debug_quoted};
use crate::mobile::{is_php_class_name, is_application_id, is_android_permission, is_maven_coordinate, release_version, binding_error, valid_php_class_name, valid_application_id, valid_android_permission, valid_maven_coordinate, parse_release_version, validate_binding};
use crate::mobile_manifest::{ProjectPath, NativeBinding, is_safe_relative, validate_relative_path, contains_any,
    holds_any};

verus! {

/// The plugin protocol this SDK implements.
pub const PLUGIN_PROTOCOL_VERSION: u32 = 1;

/// A path a plugin declares, with how it resolved inside the plugin's
/// package: `Ok(inside)` where it resolved, `inside` telling whether it stays
/// under the package root, or `Err` with the text of the resolution failure.
pub struct PluginPath {
    pub path: ProjectPath,
    pub resolved: Result<bool, String>,
}

/// The SDK versions a plugin supports: from `minimum` up to, but not
/// including, `maximum_exclusive`.
pub struct PluginCompatibility {
    pub minimum: String,
    pub maximum_exclusive: String,
}

/// The PHP side of a plugin.
pub struct PluginPhp {
    pub provider: Option<String>,
}

/// The Android side of a plugin.
pub struct PluginAndroid {
    pub namespace: Option<String>,
    pub min_sdk: u32,
    pub permissions: Vec<String>,
    pub repositories: Vec<String>,
    pub dependencies: Vec<String>,
    pub local_aars: Vec<PluginPath>,
    pub source_dirs: Vec<PluginPath>,
    pub resource_dirs: Vec<PluginPath>,
    pub asset_dirs: Vec<PluginPath>,
    pub jni_lib_dirs: Vec<PluginPath>,
    pub manifest: Option<PluginPath>,
    pub consumer_rules: Option<PluginPath>,
}

/// A plugin manifest.
pub struct PluginManifest {
    pub version: u32,
    pub protocol: u32,
    pub pam_native: PluginCompatibility,
    pub php: PluginPhp,
    pub android: PluginAndroid,
    pub modules: Vec<NativeBinding>,
    pub views: Vec<NativeBinding>,
}

/// The first element of `s` that `g` finds fault with, and its fault.
pub open spec fn first_in<T>(s: Seq<T>, g: spec_fn(T) -> Option<Seq<char>>) -> Option<Seq<char>>
    decreases s.len(),
{
    if s.len() == 0 {
        None
    } else if g(s[0]) is Some {
        g(s[0])
    } else {
        first_in(s.drop_first(), g)
    }
}

proof fn lemma_first_in_step<T>(s: Seq<T>, g: spec_fn(T) -> Option<Seq<char>>, i: int)
    requires
        0 <= i < s.len(),
    ensures
        first_in(s.skip(i), g) == (if g(s[i]) is Some {
            g(s[i])
        } else {
            first_in(s.skip(i + 1), g)
        }),
{
    assert(s.skip(i)[0] == s[i]);
    assert(s.skip(i).drop_first() =~= s.skip(i + 1));
}

proof fn lemma_first_in_concat<T>(a: Seq<T>, b: Seq<T>, g: spec_fn(T) -> Option<Seq<char>>)
    ensures
        first_in(a + b, g) == (if first_in(a, g) is Some {
            first_in(a, g)
        } else {
            first_in(b, g)
        }),
    decreases a.len(),
{
    if a.len() == 0 {
        assert(a + b =~= b);
    } else {
        assert((a + b)[0] == a[0]);
        assert((a + b).drop_first() =~= a.drop_first() + b);
        lemma_first_in_concat(a.drop_first(), b, g);
    }
}

/// The element of an optional value, as a sequence of zero or one.
pub open spec fn optional<T>(o: Option<T>) -> Seq<T> {
    match o {
        Some(x) => seq![x],
        None => Seq::empty(),
    }
}

/// The paths a plugin declares, in the order they are checked.
pub open spec fn plugin_paths(a: PluginAndroid) -> Seq<PluginPath> {
    a.local_aars@ + a.source_dirs@ + a.resource_dirs@ + a.asset_dirs@ + a.jni_lib_dirs@ + optional(a.manifest)
        + optional(a.consumer_rules)
}

/// What is wrong with a declared path of a plugin, if anything.
pub open spec fn path_error(package: Seq<char>, p: PluginPath) -> Option<Seq<char>> {
    let shown = p.path.text@;
    if !is_safe_relative(p.path) {
        Some("plugin "@ + package + " path "@ + shown + ": "@ + ("unsafe project-relative path "@ + shown))
    } else {
        match p.resolved {
            Err(e) => Some("plugin "@ + package + " path "@ + shown + " cannot be resolved: "@ + e@),
            Ok(inside) => if inside {
                None
            } else {
                Some("plugin "@ + package + " path "@ + shown + " escapes its Composer package"@)
            },
        }
    }
}

pub open spec fn path_errors(package: Seq<char>) -> spec_fn(PluginPath) -> Option<Seq<char>> {
    |p: PluginPath| path_error(package, p)
}

fn check_path(package: &str, p: &PluginPath) -> (r: Result<(), String>)
    ensures
        match r {
            Ok(()) => path_error(package@, *p) is None,
            Err(e) => path_error(package@, *p) == Some(e@),
        },
{
    let shown = p.path.text.as_str();
    let mut head = concat_str("plugin ", package);
    head.append(" path ");
    head.append(shown);
    if let Err(e) = validate_relative_path(&p.path) {
        head.append(": ");
        head.append(e.as_str());
        return Err(head);
    }
    match &p.resolved {
        Err(e) => {
            head.append(" cannot be resolved: ");
            head.append(e.as_str());
            Err(head)
        },
        Ok(inside) => {
            if *inside {
                Ok(())
            } else {
                head.append(" escapes its Composer package");
                Err(head)
            }
        },
    }
}

fn check_path_list(package: &str, list: &Vec<PluginPath>) -> (r: Result<(), String>)
    ensures
        match r {
            Ok(()) => first_in(list@, path_errors(package@)) is None,
            Err(e) => first_in(list@, path_errors(package@)) == Some(e@),
        },
{
    let ghost g = path_errors(package@);
    let mut i: usize = 0;
    assert(list@.skip(0) =~= list@);
    while i < list.len()
        invariant
            i <= list@.len(),
            g == path_errors(package@),
            first_in(list@, g) == first_in(list@.skip(i as int), g),
        decreases list.len() - i,
    {
        proof {
            lemma_first_in_step(list@, g, i as int);
        }
        if let Err(e) = check_path(package, &list[i]) {
            return Err(e);
        }
        i = i + 1;
    }
    assert(list@.skip(i as int).len() == 0);
    Ok(())
}

fn check_optional_path(package: &str, o: &Option<PluginPath>) -> (r: Result<(), String>)
    ensures
        match r {
            Ok(()) => first_in(optional(*o), path_errors(package@)) is None,
            Err(e) => first_in(optional(*o), path_errors(package@)) == Some(e@),
        },
{
    match o {
        Some(p) => {
            let ghost s = optional(*o);
            assert(s[0] == *p);
            assert(s.drop_first().len() == 0);
            assert(first_in(s.drop_first(), path_errors(package@)) is None);
            check_path(package, p)
        },
        None => Ok(()),
    }
}

/// Checks every declared path of a plugin, in the order of `plugin_paths`.
fn check_plugin_paths(package: &str, a: &PluginAndroid) -> (r: Result<(), String>)
    ensures
        match r {
            Ok(()) => first_in(plugin_paths(*a), path_errors(package@)) is None,
            Err(e) => first_in(plugin_paths(*a), path_errors(package@)) == Some(e@),
        },
{
    let ghost g = path_errors(package@);
    let ghost s1 = a.local_aars@;
    let ghost s2 = s1 + a.source_dirs@;
    let ghost s3 = s2 + a.resource_dirs@;
    let ghost s4 = s3 + a.asset_dirs@;
    let ghost s5 = s4 + a.jni_lib_dirs@;
    let ghost s6 = s5 + optional(a.manifest);
    let ghost s7 = s6 + optional(a.consumer_rules);
    proof {
        lemma_first_in_concat(s1, a.source_dirs@, g);
        lemma_first_in_concat(s2, a.resource_dirs@, g);
        lemma_first_in_concat(s3, a.asset_dirs@, g);
        lemma_first_in_concat(s4, a.jni_lib_dirs@, g);
        lemma_first_in_concat(s5, optional(a.manifest), g);
        lemma_first_in_concat(s6, optional(a.consumer_rules), g);
        assert(s7 == plugin_paths(*a));
    }
    if let Err(e) = check_path_list(package, &a.local_aars) {
        return Err(e);
    }
    if let Err(e) = check_path_list(package, &a.source_dirs) {
        return Err(e);
    }
    if let Err(e) = check_path_list(package, &a.resource_dirs) {
        return Err(e);
    }
    if let Err(e) = check_path_list(package, &a.asset_dirs) {
        return Err(e);
    }
    if let Err(e) = check_path_list(package, &a.jni_lib_dirs) {
        return Err(e);
    }
    if let Err(e) = check_optional_path(package, &a.manifest) {
        return Err(e);
    }
    check_optional_path(package, &a.consumer_rules)
}

pub open spec fn permission_faults(package: Seq<char>) -> spec_fn(String) -> Option<Seq<char>> {
    |p: String| if is_android_permission(p@) {
        None
    } else {
        Some("plugin "@ + package + " has invalid Android permission "@ + debug_quoted(p@))
    }
}

/// A repository URL that uses HTTPS, holds no line break, NUL or `"`, and
/// is at most 2048 bytes.
pub open spec fn is_safe_repository(v: Seq<char>) -> bool {
    &&& v.len() >= 8
    &&& v.take(8) == "https://"@
    &&& !contains_any(v, "\n\r\0\""@)
    &&& encode_utf8(v).len() <= 2048
}

pub open spec fn repository_faults(package: Seq<char>) -> spec_fn(String) -> Option<Seq<char>> {
    |r: String| if is_safe_repository(r@) {
        None
    } else {
        Some("plugin "@ + package + " repository URLs must use HTTPS and contain no control characters"@)
    }
}

pub open spec fn dependency_faults(package: Seq<char>) -> spec_fn(String) -> Option<Seq<char>> {
    |d: String| if is_maven_coordinate(d@) {
        None
    } else {
        Some("plugin "@ + package + " has invalid Maven dependency "@ + debug_quoted(d@))
    }
}

pub open spec fn binding_faults(package: Seq<char>, kind: Seq<char>) -> spec_fn(NativeBinding) -> Option<Seq<char>> {
    |b: NativeBinding| binding_error(package, kind, b.name@, b.class@)
}

fn starts_https(value: &str) -> (r: bool)
    ensures
        r == (value@.len() >= 8 && value@.take(8) == "https://"@),
{
    let chars = chars_of(value);
    let prefix = chars_of("https://");
    proof {
        reveal_strlit("https://");
    }
    if chars.len() < 8 {
        return false;
    }
    let mut i: usize = 0;
    while i < 8
        invariant
            chars@ == value@,
            prefix@ == "https://"@,
            prefix@.len() == 8,
            8 <= chars@.len(),
            i <= 8,
            forall|k: int| 0 <= k < i ==> chars@[k] == prefix@[k],
        decreases 8 - i,
    {
        if chars[i] != prefix[i] {
            assert(chars@.take(8)[i as int] != prefix@[i as int]);
            return false;
        }
        i = i + 1;
    }
    assert(chars@.take(8) =~= prefix@);
    true
}

fn fault_text(package: &str, middle: &str, value: &str) -> (r: String)
    ensures
        r@ == "plugin "@ + package@ + middle@ + debug_quoted(value@),
{
    let mut out = concat_str("plugin ", package);
    out.append(middle);
    out.append(quoted(value).as_str());
    out
}

fn check_permissions(package: &str, list: &Vec<String>) -> (r: Result<(), String>)
    ensures
        match r {
            Ok(()) => first_in(list@, permission_faults(package@)) is None,
            Err(e) => first_in(list@, permission_faults(package@)) == Some(e@),
        },
{
    let ghost g = permission_faults(package@);
    let mut i: usize = 0;
    assert(list@.skip(0) =~= list@);
    while i < list.len()
        invariant
            i <= list@.len(),
            g == permission_faults(package@),
            first_in(list@, g) == first_in(list@.skip(i as int), g),
        decreases list.len() - i,
    {
        proof {
            lemma_first_in_step(list@, g, i as int);
        }
        if !valid_android_permission(list[i].as_str()) {
            return Err(fault_text(package, " has invalid Android permission ", list[i].as_str()));
        }
        i = i + 1;
    }
    assert(list@.skip(i as int).len() == 0);
    Ok(())
}

fn check_repositories(package: &str, list: &Vec<String>) -> (r: Result<(), String>)
    ensures
        match r {
            Ok(()) => first_in(list@, repository_faults(package@)) is None,
            Err(e) => first_in(list@, repository_faults(package@)) == Some(e@),
        },
{
    let ghost g = repository_faults(package@);
    let mut i: usize = 0;
    assert(list@.skip(0) =~= list@);
    while i < list.len()
        invariant
            i <= list@.len(),
            g == repository_faults(package@),
            first_in(list@, g) == first_in(list@.skip(i as int), g),
        decreases list.len() - i,
    {
        proof {
            lemma_first_in_step(list@, g, i as int);
        }
        let url = list[i].as_str();
        if !starts_https(url) || holds_any(url, "\n\r\0\"") || byte_len(url) > 2048 {
            let mut m = concat_str("plugin ", package);
            m.append(" repository URLs must use HTTPS and contain no control characters");
            return Err(m);
        }
        i = i + 1;
    }
    assert(list@.skip(i as int).len() == 0);
    Ok(())
}

fn check_dependencies(package: &str, list: &Vec<String>) -> (r: Result<(), String>)
    ensures
        match r {
            Ok(()) => first_in(list@, dependency_faults(package@)) is None,
            Err(e) => first_in(list@, dependency_faults(package@)) == Some(e@),
        },
{
    let ghost g = dependency_faults(package@);
    let mut i: usize = 0;
    assert(list@.skip(0) =~= list@);
    while i < list.len()
        invariant
            i <= list@.len(),
            g == dependency_faults(package@),
            first_in(list@, g) == first_in(list@.skip(i as int), g),
        decreases list.len() - i,
    {
        proof {
            lemma_first_in_step(list@, g, i as int);
        }
        if !valid_maven_coordinate(list[i].as_str()) {
            return Err(fault_text(package, " has invalid Maven dependency ", list[i].as_str()));
        }
        i = i + 1;
    }
    assert(list@.skip(i as int).len() == 0);
    Ok(())
}

fn check_bindings(package: &str, kind: &str, list: &Vec<NativeBinding>) -> (r: Result<(), String>)
    ensures
        match r {
            Ok(()) => first_in(list@, binding_faults(package@, kind@)) is None,
            Err(e) => first_in(list@, binding_faults(package@, kind@)) == Some(e@),
        },
{
    let ghost g = binding_faults(package@, kind@);
    let mut i: usize = 0;
    assert(list@.skip(0) =~= list@);
    while i < list.len()
        invariant
            i <= list@.len(),
            g == binding_faults(package@, kind@),
            first_in(list@, g) == first_in(list@.skip(i as int), g),
        decreases list.len() - i,
    {
        proof {
            lemma_first_in_step(list@, g, i as int);
        }
        if let Err(e) = validate_binding(package, kind, list[i].name.as_str(), list[i].class.as_str()) {
            return Err(e);
        }
        i = i + 1;
    }
    assert(list@.skip(i as int).len() == 0);
    Ok(())
}

/// `a` comes before `b` as `(major, minor, patch)`.
pub open spec fn version_before(a: (u32, u32, u32), b: (u32, u32, u32)) -> bool {
    a.0 < b.0 || (a.0 == b.0 && (a.1 < b.1 || (a.1 == b.1 && a.2 < b.2)))
}

fn before(a: (u32, u32, u32), b: (u32, u32, u32)) -> (r: bool)
    ensures
        r == version_before(a, b),
{
    a.0 < b.0 || (a.0 == b.0 && (a.1 < b.1 || (a.1 == b.1 && a.2 < b.2)))
}

/// What is wrong with a plugin's manifest for an application whose minimum
/// SDK is `app_min_sdk`, on the installed SDK version `current` (written
/// `current_text`), if anything.
pub open spec fn plugin_manifest_error(
    package: Seq<char>,
    m: PluginManifest,
    app_min_sdk: u32,
    current: (u32, u32, u32),
    current_text: Seq<char>,
) -> Option<Seq<char>> {
    let minimum = release_version(m.pam_native.minimum@);
    let maximum = release_version(m.pam_native.maximum_exclusive@);
    let a = m.android;
    if m.version != 1 {
        Some("plugin "@ + package + " uses unsupported manifest version "@ + decimal_text(m.version as nat) + "; expected 1"@)
    } else if m.protocol != PLUGIN_PROTOCOL_VERSION {
        Some("plugin "@ + package + " requires protocol "@ + decimal_text(m.protocol as nat) + ", but this SDK implements 1"@)
    } else if minimum is Err {
        Some("plugin "@ + package + " has invalid pamNative.minimum: "@ + minimum->Err_0)
    } else if maximum is Err {
        Some("plugin "@ + package + " has invalid pamNative.maximumExclusive: "@ + maximum->Err_0)
    } else if !version_before(minimum->Ok_0, maximum->Ok_0) {
        Some("plugin "@ + package + " compatibility minimum must be lower than maximumExclusive"@)
    } else if version_before(current, minimum->Ok_0) || !version_before(current, maximum->Ok_0) {
        Some("plugin "@ + package + " supports Pam Native "@ + m.pam_native.minimum@ + " through "@
            + m.pam_native.maximum_exclusive@ + ", exclusive; installed SDK is "@ + current_text)
    } else if m.php.provider is Some && !is_php_class_name(m.php.provider->0@) {
        Some("plugin "@ + package + " has invalid PHP provider "@ + debug_quoted(m.php.provider->0@))
    } else if a.min_sdk < 26 || a.min_sdk > app_min_sdk {
        Some("plugin "@ + package + " requires Android minSdk "@ + decimal_text(a.min_sdk as nat) + ", but the app uses "@
            + decimal_text(app_min_sdk as nat) + "; plugin minSdk must be between 26 and the app minSdk"@)
    } else if a.namespace is Some && !is_application_id(a.namespace->0@) {
        Some("plugin "@ + package + " has invalid Android namespace "@ + debug_quoted(a.namespace->0@))
    } else if first_in(a.permissions@, permission_faults(package)) is Some {
        first_in(a.permissions@, permission_faults(package))
    } else if first_in(a.repositories@, repository_faults(package)) is Some {
        first_in(a.repositories@, repository_faults(package))
    } else if first_in(a.dependencies@, dependency_faults(package)) is Some {
        first_in(a.dependencies@, dependency_faults(package))
    } else if first_in(plugin_paths(a), path_errors(package)) is Some {
        first_in(plugin_paths(a), path_errors(package))
    } else if first_in(m.modules@, binding_faults(package, "module"@)) is Some {
        first_in(m.modules@, binding_faults(package, "module"@))
    } else {
        first_in(m.views@, binding_faults(package, "view"@))
    }
}

/// Checks a plugin's manifest against the application and the installed SDK:
/// format and protocol, the supported SDK range, the PHP provider, Android
/// settings and declared paths, then each module and view binding.
pub fn validate_plugin_manifest(
    package: &str,
    manifest: &PluginManifest,
    app_min_sdk: u32,
    current: (u32, u32, u32),
    current_text: &str,
) -> (r: Result<(), String>)
    ensures
        match r {
            Ok(()) => plugin_manifest_error(package@, *manifest, app_min_sdk, current, current_text@) is None,
            Err(e) => plugin_manifest_error(package@, *manifest, app_min_sdk, current, current_text@) == Some(e@),
        },
{
    if manifest.version != 1 {
        let mut m = concat_str("plugin ", package);
        m.append(" uses unsupported manifest version ");
        push_decimal_text(&mut m, manifest.version as u64);
        m.append("; expected 1");
        return Err(m);
    }
    if manifest.protocol != PLUGIN_PROTOCOL_VERSION {
        let mut m = concat_str("plugin ", package);
        m.append(" requires protocol ");
        push_decimal_text(&mut m, manifest.protocol as u64);
        m.append(", but this SDK implements 1");
        return Err(m);
    }
    let minimum = match parse_release_version(manifest.pam_native.minimum.as_str()) {
        Ok(v) => v,
        Err(e) => {
            let mut m = concat_str("plugin ", package);
            m.append(" has invalid pamNative.minimum: ");
            m.append(e.as_str());
            return Err(m);
        },
    };
    let maximum = match parse_release_version(manifest.pam_native.maximum_exclusive.as_str()) {
        Ok(v) => v,
        Err(e) => {
            let mut m = concat_str("plugin ", package);
            m.append(" has invalid pamNative.maximumExclusive: ");
            m.append(e.as_str());
            return Err(m);
        },
    };
    if !before(minimum, maximum) {
        let mut m = concat_str("plugin ", package);
        m.append(" compatibility minimum must be lower than maximumExclusive");
        return Err(m);
    }
    if before(current, minimum) || !before(current, maximum) {
        let mut m = concat_str("plugin ", package);
        m.append(" supports Pam Native ");
        m.append(manifest.pam_native.minimum.as_str());
        m.append(" through ");
        m.append(manifest.pam_native.maximum_exclusive.as_str());
        m.append(", exclusive; installed SDK is ");
        m.append(current_text);
        return Err(m);
    }
    if let Some(provider) = &manifest.php.provider {
        if !valid_php_class_name(provider.as_str()) {
            return Err(fault_text(package, " has invalid PHP provider ", provider.as_str()));
        }
    }
    let a = &manifest.android;
    if a.min_sdk < 26 || a.min_sdk > app_min_sdk {
        let mut m = concat_str("plugin ", package);
        m.append(" requires Android minSdk ");
        push_decimal_text(&mut m, a.min_sdk as u64);
        m.append(", but the app uses ");
        push_decimal_text(&mut m, app_min_sdk as u64);
        m.append("; plugin minSdk must be between 26 and the app minSdk");
        return Err(m);
    }
    if let Some(namespace) = &a.namespace {
        if !valid_application_id(namespace.as_str()) {
            return Err(fault_text(package, " has invalid Android namespace ", namespace.as_str()));
        }
    }
    if let Err(e) = check_permissions(package, &a.permissions) {
        return Err(e);
    }
    if let Err(e) = check_repositories(package, &a.repositories) {
        return Err(e);
    }
    if let Err(e) = check_dependencies(package, &a.dependencies) {
        return Err(e);
    }
    if let Err(e) = check_plugin_paths(package, a) {
        return Err(e);
    }
    if let Err(e) = check_bindings(package, "module", &manifest.modules) {
        return Err(e);
    }
    check_bindings(package, "view", &manifest.views)
}

} // verus!
