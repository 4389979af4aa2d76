//! Project kinds, discovery from what each ancestor directory holds, and the
//! scoped cleanup of regenerable build artifacts.

use vstd::prelude::*;
use crate::text::{str_eq, chars_of, concat_str};

verus! {

/// What kind of PAM project a directory holds.
#[derive(Clone, Copy, Debug, PartialEq, Eq, Structural)]
pub enum ProjectKind {
    Api,
    Native,
    Laravel,
    Desktop,
    Raw,
    Product,
}

pub open spec fn kind_code(kind: ProjectKind) -> u8 {
    match kind {
        ProjectKind::Api => 1u8,
        ProjectKind::Native => 2u8,
        ProjectKind::Laravel => 3u8,
        ProjectKind::Desktop => 4u8,
        ProjectKind::Raw => 5u8,
        ProjectKind::Product => 6u8,
    }
}

impl ProjectKind {
    /// The name shown to users.
    pub fn label(self) -> (r: &'static str)
        ensures
            r@ == match self {
                ProjectKind::Api => "API"@,
                ProjectKind::Native => "PAM Native"@,
                ProjectKind::Laravel => "Laravel"@,
                ProjectKind::Desktop => "PAM Desktop"@,
                ProjectKind::Raw => "PAM Runtime"@,
                ProjectKind::Product => "PAM Product"@,
            },
    {
        match self {
            ProjectKind::Api => "API",
            ProjectKind::Native => "PAM Native",
            ProjectKind::Laravel => "Laravel",
            ProjectKind::Desktop => "PAM Desktop",
            ProjectKind::Raw => "PAM Runtime",
            ProjectKind::Product => "PAM Product",
        }
    }

    /// The integer of the project contract.
    pub fn code(self) -> (c: u8)
        ensures
            c == kind_code(self),
    {
        match self {
            ProjectKind::Api => 1,
            ProjectKind::Native => 2,
            ProjectKind::Laravel => 3,
            ProjectKind::Desktop => 4,
            ProjectKind::Raw => 5,
            ProjectKind::Product => 6,
        }
    }

    /// The kind with a contract integer, if there is one.
    pub fn from_code(code: u8) -> (r: Option<Self>)
        ensures
            match r {
                Some(kind) => kind_code(kind) == code,
                None => !(1 <= code <= 6),
            },
    {
        match code {
            1 => Some(ProjectKind::Api),
            2 => Some(ProjectKind::Native),
            3 => Some(ProjectKind::Laravel),
            4 => Some(ProjectKind::Desktop),
            5 => Some(ProjectKind::Raw),
            6 => Some(ProjectKind::Product),
            _ => None,
        }
    }
}

/// A discovered project: its root directory and kind.
#[derive(Clone, Debug, PartialEq, Eq)]
pub struct ProjectContext {
    pub root: String,
    pub kind: ProjectKind,
}

/// What a registered project command runs.
#[derive(Clone, Debug, PartialEq, Eq)]
pub enum CommandTarget {
    PhpScript(String),
    Executable(String),
}

/// A command that a project or one of its packages registers.
#[derive(Clone, Debug, PartialEq, Eq)]
pub struct RegisteredCommand {
    pub name: String,
    pub description: String,
    pub target: CommandTarget,
    pub arguments: Vec<String>,
    pub environment: Vec<(String, String)>,
}

/// Whether `needle` occurs in `text`.
pub open spec fn contains_text(text: Seq<char>, needle: Seq<char>) -> bool {
    exists|i: int| 0 <= i && i + needle.len() <= text.len() && #[trigger] text.subrange(i, i + needle.len()) == needle
}

pub(crate) fn text_contains(text: &str, needle: &str) -> (r: bool)
    ensures
        r == contains_text(text@, needle@),
{
    let t = chars_of(text);
    let n = chars_of(needle);
    if n.len() > t.len() {
        return false;
    }
    let mut i: usize = 0;
    let tl = t.len();
    let last = tl - n.len();
    while i <= last
        invariant
            t@ == text@,
            n@ == needle@,
            n@.len() <= t@.len(),
            last == t@.len() - n@.len(),
            tl == t@.len(),
            i <= last + 1,
            forall|j: int| 0 <= j < i ==> #[trigger] text@.subrange(j, j + needle@.len()) != needle@,
        decreases t.len() - i,
    {
        let mut k: usize = 0;
        let mut same = true;
        while k < n.len()
            invariant
                k <= n@.len(),
                i <= last,
                tl == t@.len(),
                n@.len() <= t@.len(),
                last == t@.len() - n@.len(),
                same == (forall|m: int| 0 <= m < k ==> t@[i + m] == n@[m]),
            decreases n.len() - k,
        {
            if t[i + k] != n[k] {
                same = false;
            }
            k = k + 1;
        }
        if same {
            assert(text@.subrange(i as int, i + needle@.len()) =~= needle@);
            return true;
        }
        proof {
            let m = choose|m: int| 0 <= m < n@.len() && t@[i + m] != n@[m];
            assert(text@.subrange(i as int, i + needle@.len())[m] != needle@[m]);
        }
        i = i + 1;
    }
    proof {
        assert forall|j: int| 0 <= j && j + needle@.len() <= text@.len() implies #[trigger] text@.subrange(j, j + needle@.len()) != needle@ by {
            assert(j < i);
        }
    }
    false
}

fn text_starts_with(text: &str, prefix: &str) -> (r: bool)
    ensures
        r == (prefix@.len() <= text@.len() && text@.take(prefix@.len() as int) == prefix@),
{
    let t = chars_of(text);
    let p = chars_of(prefix);
    if p.len() > t.len() {
        return false;
    }
    let mut k: usize = 0;
    while k < p.len()
        invariant
            k <= p@.len(),
            p@.len() <= t@.len(),
            t@ == text@,
            p@ == prefix@,
            forall|m: int| 0 <= m < k ==> t@[m] == p@[m],
        decreases p.len() - k,
    {
        if t[k] != p[k] {
            assert(text@.take(prefix@.len() as int)[k as int] != prefix@[k as int]);
            return false;
        }
        k = k + 1;
    }
    assert(text@.take(prefix@.len() as int) =~= prefix@);
    true
}

/// The kind a `composer.json` implies from the package names it requires.
pub open spec fn composer_kind_of(names: Seq<Seq<char>>) -> Option<ProjectKind> {
    if exists|i: int| 0 <= i < names.len() && contains_text(#[trigger] names[i], "pam-native"@) {
        Some(ProjectKind::Native)
    } else if exists|i: int| 0 <= i < names.len() && #[trigger] names[i] == "laravel/framework"@ {
        Some(ProjectKind::Laravel)
    } else if exists|i: int| 0 <= i < names.len() && (#[trigger] names[i] == "pushinbr/pam-desktop"@
        || contains_text(names[i], "pam/desktop"@)) {
        Some(ProjectKind::Desktop)
    } else if exists|i: int| 0 <= i < names.len() && (#[trigger] names[i]).len() >= 4
        && names[i].take(4) == "pam/"@ {
        Some(ProjectKind::Api)
    } else {
        None
    }
}

/// Which kind the required packages imply, by precedence: a `pam-native`
/// package makes a native project; else `laravel/framework` a Laravel one;
/// else the desktop package (or one whose name holds `pam/desktop`) a
/// desktop one; else any `pam/` package an API; else nothing.
pub proof fn lemma_composer_kind_precedence(names: Seq<Seq<char>>, i: int)
    requires
        0 <= i < names.len(),
    ensures
        contains_text(names[i], "pam-native"@) ==> composer_kind_of(names) == Some(ProjectKind::Native),
        (forall|k: int| 0 <= k < names.len() ==> !contains_text(#[trigger] names[k], "pam-native"@)) && names[i]
            == "laravel/framework"@ ==> composer_kind_of(names) == Some(ProjectKind::Laravel),
        (forall|k: int| 0 <= k < names.len() ==> !contains_text(#[trigger] names[k], "pam-native"@) && names[k]
            != "laravel/framework"@) && (names[i] == "pushinbr/pam-desktop"@ || contains_text(names[i], "pam/desktop"@))
            ==> composer_kind_of(names) == Some(ProjectKind::Desktop),
        (forall|k: int| 0 <= k < names.len() ==> !contains_text(#[trigger] names[k], "pam-native"@) && names[k]
            != "laravel/framework"@ && names[k] != "pushinbr/pam-desktop"@ && !contains_text(names[k], "pam/desktop"@))
            && names[i].len() >= 4 && names[i].take(4) == "pam/"@ ==> composer_kind_of(names) == Some(ProjectKind::Api),
{
}

/// Packages that name no PAM kind imply none.
pub proof fn lemma_composer_kind_none(names: Seq<Seq<char>>)
    requires
        forall|k: int| 0 <= k < names.len() ==> !contains_text(#[trigger] names[k], "pam-native"@) && names[k]
            != "laravel/framework"@ && names[k] != "pushinbr/pam-desktop"@ && !contains_text(names[k], "pam/desktop"@)
            && !(names[k].len() >= 4 && names[k].take(4) == "pam/"@),
    ensures
        composer_kind_of(names) is None,
{
}

pub open spec fn texts(items: Seq<String>) -> Seq<Seq<char>> {
    items.map_values(|s: String| s@)
}

/// The kind a `composer.json` implies, from the names under `require`.
pub fn composer_kind(required: &Vec<String>) -> (r: Option<ProjectKind>)
    ensures
        r == composer_kind_of(texts(required@)),
{
    let ghost names = texts(required@);
    let mut native = false;
    let mut laravel = false;
    let mut desktop = false;
    let mut api = false;
    let mut i: usize = 0;
    while i < required.len()
        invariant
            i <= required@.len(),
            names == texts(required@),
            native == exists|k: int| 0 <= k < i && contains_text(#[trigger] names[k], "pam-native"@),
            laravel == exists|k: int| 0 <= k < i && #[trigger] names[k] == "laravel/framework"@,
            desktop == exists|k: int| 0 <= k < i && (#[trigger] names[k] == "pushinbr/pam-desktop"@
                || contains_text(names[k], "pam/desktop"@)),
            api == exists|k: int| 0 <= k < i && (#[trigger] names[k]).len() >= 4 && names[k].take(4) == "pam/"@,
        decreases required.len() - i,
    {
        let name = required[i].as_str();
        proof {
            reveal_strlit("pam/");
            assert(names[i as int] == name@);
        }
        if text_contains(name, "pam-native") {
            native = true;
        }
        if str_eq(name, "laravel/framework") {
            laravel = true;
        }
        if str_eq(name, "pushinbr/pam-desktop") || text_contains(name, "pam/desktop") {
            desktop = true;
        }
        if text_starts_with(name, "pam/") {
            api = true;
        }
        i = i + 1;
    }
    if native {
        Some(ProjectKind::Native)
    } else if laravel {
        Some(ProjectKind::Laravel)
    } else if desktop {
        Some(ProjectKind::Desktop)
    } else if api {
        Some(ProjectKind::Api)
    } else {
        None
    }
}

/// What one directory holds that tells its project kind: the `type` of a
/// readable `pam.json`, whether `pam-native.json` and `artisan` are files,
/// and the required package names of a readable `composer.json`.
#[derive(Clone, Debug)]
pub struct DirectoryProbe {
    pub directory: String,
    pub manifest_type: Option<u8>,
    pub has_native_manifest: bool,
    pub has_artisan: bool,
    pub composer_requires: Option<Vec<String>>,
}

/// The kind one directory shows, checked in this order: `pam.json`,
/// `pam-native.json`, `artisan`, `composer.json`.
pub open spec fn probe_kind(probe: DirectoryProbe) -> Option<ProjectKind> {
    let manifest = match probe.manifest_type {
        Some(code) => if 1 <= code <= 6 {
            Some(match code {
                1 => ProjectKind::Api,
                2 => ProjectKind::Native,
                3 => ProjectKind::Laravel,
                4 => ProjectKind::Desktop,
                5 => ProjectKind::Raw,
                _ => ProjectKind::Product,
            })
        } else {
            None::<ProjectKind>
        },
        None => None,
    };
    if manifest is Some {
        manifest
    } else if probe.has_native_manifest {
        Some(ProjectKind::Native)
    } else if probe.has_artisan {
        Some(ProjectKind::Laravel)
    } else {
        match probe.composer_requires {
            Some(names) => composer_kind_of(texts(names@)),
            None => None,
        }
    }
}

fn kind_of_probe(probe: &DirectoryProbe) -> (r: Option<ProjectKind>)
    ensures
        r == probe_kind(*probe),
{
    let manifest = match probe.manifest_type {
        Some(code) => ProjectKind::from_code(code),
        None => None,
    };
    if manifest.is_some() {
        return manifest;
    }
    if probe.has_native_manifest {
        return Some(ProjectKind::Native);
    }
    if probe.has_artisan {
        return Some(ProjectKind::Laravel);
    }
    match &probe.composer_requires {
        Some(names) => composer_kind(names),
        None => None,
    }
}

/// The index of the first directory (nearest first) that shows a kind.
pub open spec fn first_project(probes: Seq<DirectoryProbe>) -> Option<int>
    decreases probes.len(),
{
    if probes.len() == 0 {
        None
    } else if probe_kind(probes[0]) is Some {
        Some(0)
    } else {
        match first_project(probes.drop_first()) {
            Some(i) => Some(i + 1),
            None => None,
        }
    }
}

/// The nearest enclosing project, given what each directory from the start
/// directory up to the file-system root holds, nearest first.
pub fn discover(probes: &Vec<DirectoryProbe>) -> (r: Option<ProjectContext>)
    ensures
        match (r, first_project(probes@)) {
            (Some(context), Some(i)) => 0 <= i < probes@.len() && context.root@ == probes@[i].directory@
                && Some(context.kind) == probe_kind(probes@[i]),
            (None, None) => true,
            _ => false,
        },
{
    let mut i: usize = 0;
    assert(probes@.skip(0) =~= probes@);
    while i < probes.len()
        invariant
            i <= probes@.len(),
            first_project(probes@) == match first_project(probes@.skip(i as int)) {
                Some(k) => Some(k + i),
                None => None,
            },
        decreases probes.len() - i,
    {
        proof {
            assert(probes@.skip(i as int)[0] == probes@[i as int]);
            assert(probes@.skip(i as int).drop_first() =~= probes@.skip(i + 1));
        }
        if let Some(kind) = kind_of_probe(&probes[i]) {
            return Some(ProjectContext { root: String::from_str(probes[i].directory.as_str()), kind });
        }
        i = i + 1;
    }
    proof {
        assert(probes@.skip(i as int).len() == 0);
    }
    None
}

/// The project a cleanup applies to: the nearest enclosing project, else
/// the start directory itself (resolved, given as `cargo_root` when it is a
/// directory holding `Cargo.toml`) as a plain project.
pub fn discover_cleanable(probes: &Vec<DirectoryProbe>, cargo_root: Option<String>) -> (r: Option<ProjectContext>)
    ensures
        match first_project(probes@) {
            Some(i) => r matches Some(context) && 0 <= i < probes@.len() && context.root@ == probes@[i].directory@
                && Some(context.kind) == probe_kind(probes@[i]),
            None => match cargo_root {
                Some(root) => r matches Some(context) && context.root@ == root@ && context.kind == ProjectKind::Raw,
                None => r is None,
            },
        },
{
    match discover(probes) {
        Some(context) => Some(context),
        None => match cargo_root {
            Some(root) => Some(ProjectContext { root, kind: ProjectKind::Raw }),
            None => None,
        },
    }
}

// ---------------------------------------------------------------------------
// Cleanup

/// What a cleanup target holds.
#[derive(Clone, Copy, Debug, PartialEq, Eq, Structural)]
pub enum CleanupArtifactKind {
    Cache,
    Build,
}

impl CleanupArtifactKind {
    /// The integer reported for an entry.
    pub fn code(self) -> (c: u8)
        ensures
            c == match self {
                CleanupArtifactKind::Cache => 1u8,
                CleanupArtifactKind::Build => 2u8,
            },
    {
        match self {
            CleanupArtifactKind::Cache => 1,
            CleanupArtifactKind::Build => 2,
        }
    }
}

pub open spec fn tooling_targets() -> Seq<(Seq<char>, CleanupArtifactKind)> {
    seq![("android/.gradle"@, CleanupArtifactKind::Cache), ("android/.kotlin"@, CleanupArtifactKind::Cache), ("android/build"@, CleanupArtifactKind::Build), ("android/app/build"@, CleanupArtifactKind::Build), ("android/plugin-api/build"@, CleanupArtifactKind::Build), ("android/macrobenchmark/build"@, CleanupArtifactKind::Build), (".build"@, CleanupArtifactKind::Build), ("ios/.build"@, CleanupArtifactKind::Build), ("scripts/__pycache__"@, CleanupArtifactKind::Cache), ("tests/__pycache__"@, CleanupArtifactKind::Cache), ("benchmarks/__pycache__"@, CleanupArtifactKind::Cache), ("benchmarks/package/__pycache__"@, CleanupArtifactKind::Cache), (".pytest_cache"@, CleanupArtifactKind::Cache), (".mypy_cache"@, CleanupArtifactKind::Cache), (".ruff_cache"@, CleanupArtifactKind::Cache)]
}

/// The regenerable artifacts cleaned for a project kind, relative to its
/// root; `all` widens the cleanup from caches to whole build trees.
pub open spec fn cleanup_plan(kind: ProjectKind, all: bool) -> Seq<(Seq<char>, CleanupArtifactKind)> {
    if kind == ProjectKind::Product {
        if all {
            seq![("apps/server/.pam/cache"@, CleanupArtifactKind::Cache), ("apps/server/.pam/phpunit-cache"@, CleanupArtifactKind::Cache), ("apps/native/.pam/cache"@, CleanupArtifactKind::Cache), ("apps/native/.pam/phpunit-cache"@, CleanupArtifactKind::Cache), ("apps/native/.pam-native/android"@, CleanupArtifactKind::Build), ("apps/native/.pam-native/ios"@, CleanupArtifactKind::Build), ("apps/desktop/.pam/cache"@, CleanupArtifactKind::Cache), ("apps/desktop/target"@, CleanupArtifactKind::Build)] + tooling_targets()
        } else {
            seq![("apps/server/.pam/cache"@, CleanupArtifactKind::Cache), ("apps/server/.pam/phpunit-cache"@, CleanupArtifactKind::Cache), ("apps/native/.pam/cache"@, CleanupArtifactKind::Cache), ("apps/native/.pam/phpunit-cache"@, CleanupArtifactKind::Cache), ("apps/native/.pam-native/android/app/build"@, CleanupArtifactKind::Build), ("apps/native/.pam-native/android/build"@, CleanupArtifactKind::Build), ("apps/native/.pam-native/android/gradle-home/caches"@, CleanupArtifactKind::Cache), ("apps/native/.pam-native/ios/App/DerivedData"@, CleanupArtifactKind::Build), ("apps/desktop/target/debug/incremental"@, CleanupArtifactKind::Cache), ("apps/desktop/target/release/incremental"@, CleanupArtifactKind::Cache), ("apps/desktop/.pam/cache"@, CleanupArtifactKind::Cache)] + tooling_targets()
        }
    } else if all {
        seq![(".pam/cache"@, CleanupArtifactKind::Cache), (".pam/phpunit-cache"@, CleanupArtifactKind::Cache), (".pam-native/android"@, CleanupArtifactKind::Build), (".pam-native/ios"@, CleanupArtifactKind::Build), ("target"@, CleanupArtifactKind::Build)] + tooling_targets()
    } else {
        seq![(".pam/cache"@, CleanupArtifactKind::Cache), (".pam/phpunit-cache"@, CleanupArtifactKind::Cache), (".pam-native/android/app/build"@, CleanupArtifactKind::Build), (".pam-native/android/build"@, CleanupArtifactKind::Build), (".pam-native/android/gradle-home/caches"@, CleanupArtifactKind::Cache), (".pam-native/android/gradle-home/daemon"@, CleanupArtifactKind::Cache), (".pam-native/android/gradle-home/native"@, CleanupArtifactKind::Cache), (".pam-native/android/gradle-home/notifications"@, CleanupArtifactKind::Cache), (".pam-native/ios/App/DerivedData"@, CleanupArtifactKind::Build), ("target/debug/incremental"@, CleanupArtifactKind::Cache), ("target/release/incremental"@, CleanupArtifactKind::Cache)] + tooling_targets()
    }
}

pub open spec fn target_views(targets: Seq<(&'static str, CleanupArtifactKind)>) -> Seq<(Seq<char>, CleanupArtifactKind)> {
    targets.map_values(|t: (&'static str, CleanupArtifactKind)| (t.0@, t.1))
}

fn push_tooling_targets(targets: &mut Vec<(&'static str, CleanupArtifactKind)>)
    ensures
        target_views(final(targets)@) == target_views(old(targets)@) + tooling_targets(),
{
    targets.push(("android/.gradle", CleanupArtifactKind::Cache));
    targets.push(("android/.kotlin", CleanupArtifactKind::Cache));
    targets.push(("android/build", CleanupArtifactKind::Build));
    targets.push(("android/app/build", CleanupArtifactKind::Build));
    targets.push(("android/plugin-api/build", CleanupArtifactKind::Build));
    targets.push(("android/macrobenchmark/build", CleanupArtifactKind::Build));
    targets.push((".build", CleanupArtifactKind::Build));
    targets.push(("ios/.build", CleanupArtifactKind::Build));
    targets.push(("scripts/__pycache__", CleanupArtifactKind::Cache));
    targets.push(("tests/__pycache__", CleanupArtifactKind::Cache));
    targets.push(("benchmarks/__pycache__", CleanupArtifactKind::Cache));
    targets.push(("benchmarks/package/__pycache__", CleanupArtifactKind::Cache));
    targets.push((".pytest_cache", CleanupArtifactKind::Cache));
    targets.push((".mypy_cache", CleanupArtifactKind::Cache));
    targets.push((".ruff_cache", CleanupArtifactKind::Cache));
    assert(target_views(targets@) =~= target_views(old(targets)@) + tooling_targets());
}

/// The cleanup targets of a project kind.
pub fn cleanup_targets(kind: ProjectKind, all: bool) -> (targets: Vec<(&'static str, CleanupArtifactKind)>)
    ensures
        target_views(targets@) == cleanup_plan(kind, all),
{
    let mut targets: Vec<(&'static str, CleanupArtifactKind)> = Vec::new();
    if kind == ProjectKind::Product {
        if all {
    targets.push(("apps/server/.pam/cache", CleanupArtifactKind::Cache));
    targets.push(("apps/server/.pam/phpunit-cache", CleanupArtifactKind::Cache));
    targets.push(("apps/native/.pam/cache", CleanupArtifactKind::Cache));
    targets.push(("apps/native/.pam/phpunit-cache", CleanupArtifactKind::Cache));
    targets.push(("apps/native/.pam-native/android", CleanupArtifactKind::Build));
    targets.push(("apps/native/.pam-native/ios", CleanupArtifactKind::Build));
    targets.push(("apps/desktop/.pam/cache", CleanupArtifactKind::Cache));
    targets.push(("apps/desktop/target", CleanupArtifactKind::Build));
        } else {
    targets.push(("apps/server/.pam/cache", CleanupArtifactKind::Cache));
    targets.push(("apps/server/.pam/phpunit-cache", CleanupArtifactKind::Cache));
    targets.push(("apps/native/.pam/cache", CleanupArtifactKind::Cache));
    targets.push(("apps/native/.pam/phpunit-cache", CleanupArtifactKind::Cache));
    targets.push(("apps/native/.pam-native/android/app/build", CleanupArtifactKind::Build));
    targets.push(("apps/native/.pam-native/android/build", CleanupArtifactKind::Build));
    targets.push(("apps/native/.pam-native/android/gradle-home/caches", CleanupArtifactKind::Cache));
    targets.push(("apps/native/.pam-native/ios/App/DerivedData", CleanupArtifactKind::Build));
    targets.push(("apps/desktop/target/debug/incremental", CleanupArtifactKind::Cache));
    targets.push(("apps/desktop/target/release/incremental", CleanupArtifactKind::Cache));
    targets.push(("apps/desktop/.pam/cache", CleanupArtifactKind::Cache));
        }
    } else if all {
    targets.push((".pam/cache", CleanupArtifactKind::Cache));
    targets.push((".pam/phpunit-cache", CleanupArtifactKind::Cache));
    targets.push((".pam-native/android", CleanupArtifactKind::Build));
    targets.push((".pam-native/ios", CleanupArtifactKind::Build));
    targets.push(("target", CleanupArtifactKind::Build));
    } else {
    targets.push((".pam/cache", CleanupArtifactKind::Cache));
    targets.push((".pam/phpunit-cache", CleanupArtifactKind::Cache));
    targets.push((".pam-native/android/app/build", CleanupArtifactKind::Build));
    targets.push((".pam-native/android/build", CleanupArtifactKind::Build));
    targets.push((".pam-native/android/gradle-home/caches", CleanupArtifactKind::Cache));
    targets.push((".pam-native/android/gradle-home/daemon", CleanupArtifactKind::Cache));
    targets.push((".pam-native/android/gradle-home/native", CleanupArtifactKind::Cache));
    targets.push((".pam-native/android/gradle-home/notifications", CleanupArtifactKind::Cache));
    targets.push((".pam-native/ios/App/DerivedData", CleanupArtifactKind::Build));
    targets.push(("target/debug/incremental", CleanupArtifactKind::Cache));
    targets.push(("target/release/incremental", CleanupArtifactKind::Cache));
    }
    let ghost head = target_views(targets@);
    push_tooling_targets(&mut targets);
    assert(target_views(targets@) =~= cleanup_plan(kind, all));
    targets
}

/// What inspecting one cleanup target found. An I/O failure carries the
/// message to report.
#[derive(Clone, Debug)]
pub enum ArtifactState {
    Missing,
    Failed(String),
    Symlink,
    NotDirectory,
    OutsideProject,
    Directory { bytes: u64, files: u64, complete: bool },
}

/// One inspected target: its path as shown in messages, and what it holds.
#[derive(Clone, Debug)]
pub struct ArtifactInspection {
    pub shown_path: String,
    pub state: ArtifactState,
}

/// One line of the cleanup report.
#[derive(Clone, Debug)]
pub struct CleanupEntry {
    pub path: String,
    pub kind_code: u8,
    pub existed: bool,
    pub bytes: u64,
    pub files: u64,
    pub complete: bool,
    pub removed: bool,
}

/// What a cleanup found (and, once carried out, removed).
#[derive(Clone, Debug)]
pub struct CleanupReport {
    pub schema_version: u8,
    pub result_code: u8,
    pub operation_code: u8,
    pub project_type_code: u8,
    pub root: String,
    pub bytes: u64,
    pub files: u64,
    pub entries: Vec<CleanupEntry>,
}

pub open spec fn entry_view(e: CleanupEntry) -> (Seq<char>, u8, bool, u64, u64, bool, bool) {
    (e.path@, e.kind_code, e.existed, e.bytes, e.files, e.complete, e.removed)
}

pub open spec fn kind_number(kind: CleanupArtifactKind) -> u8 {
    match kind {
        CleanupArtifactKind::Cache => 1u8,
        CleanupArtifactKind::Build => 2u8,
    }
}

/// The report line for one target, or why the cleanup must stop there.
pub open spec fn inspection_outcome(target: (Seq<char>, CleanupArtifactKind), inspection: ArtifactInspection, dry_run: bool) -> Result<
    (Seq<char>, u8, bool, u64, u64, bool, bool),
    Seq<char>,
> {
    match inspection.state {
        ArtifactState::Missing => Ok((target.0, kind_number(target.1), false, 0u64, 0u64, true, false)),
        ArtifactState::Failed(message) => Err(message@),
        ArtifactState::Symlink => Err("refusing to clean generated artifact symlink "@ + inspection.shown_path@),
        ArtifactState::NotDirectory => Err("refusing to clean non-directory artifact "@ + inspection.shown_path@),
        ArtifactState::OutsideProject => Err(
            "refusing to clean artifact path that resolves through a symlink or outside the project: "@
                + inspection.shown_path@,
        ),
        ArtifactState::Directory { bytes, files, complete } => if !complete && !dry_run {
            Err("refusing to clean incompletely scanned artifact "@ + inspection.shown_path@)
        } else {
            Ok((target.0, kind_number(target.1), true, bytes, files, complete, false))
        },
    }
}

/// The report lines of the first `n` targets, or the first refusal.
pub open spec fn cleanup_lines(
    targets: Seq<(Seq<char>, CleanupArtifactKind)>,
    inspections: Seq<ArtifactInspection>,
    dry_run: bool,
    n: nat,
) -> Result<Seq<(Seq<char>, u8, bool, u64, u64, bool, bool)>, Seq<char>>
    decreases n,
{
    if n == 0 {
        Ok(Seq::empty())
    } else {
        match cleanup_lines(targets, inspections, dry_run, (n - 1) as nat) {
            Err(e) => Err(e),
            Ok(lines) => match inspection_outcome(targets[n - 1], inspections[n - 1], dry_run) {
                Err(e) => Err(e),
                Ok(line) => Ok(lines.push(line)),
            },
        }
    }
}

pub open spec fn total_bytes(lines: Seq<(Seq<char>, u8, bool, u64, u64, bool, bool)>) -> nat
    decreases lines.len(),
{
    if lines.len() == 0 { 0 } else { total_bytes(lines.drop_last()) + lines.last().3 as nat }
}

pub open spec fn total_files(lines: Seq<(Seq<char>, u8, bool, u64, u64, bool, bool)>) -> nat
    decreases lines.len(),
{
    if lines.len() == 0 { 0 } else { total_files(lines.drop_last()) + lines.last().4 as nat }
}

pub open spec fn state_bytes(inspections: Seq<ArtifactInspection>) -> nat
    decreases inspections.len(),
{
    if inspections.len() == 0 {
        0
    } else {
        state_bytes(inspections.drop_last()) + match inspections.last().state {
            ArtifactState::Directory { bytes, .. } => bytes as nat,
            _ => 0nat,
        }
    }
}

pub open spec fn state_files(inspections: Seq<ArtifactInspection>) -> nat
    decreases inspections.len(),
{
    if inspections.len() == 0 {
        0
    } else {
        state_files(inspections.drop_last()) + match inspections.last().state {
            ArtifactState::Directory { files, .. } => files as nat,
            _ => 0nat,
        }
    }
}

proof fn lemma_error_persists(
    targets: Seq<(Seq<char>, CleanupArtifactKind)>,
    inspections: Seq<ArtifactInspection>,
    dry_run: bool,
    n: nat,
    m: nat,
)
    requires
        n <= m,
        cleanup_lines(targets, inspections, dry_run, n) is Err,
    ensures
        cleanup_lines(targets, inspections, dry_run, m) == cleanup_lines(targets, inspections, dry_run, n),
    decreases m - n,
{
    if n < m {
        lemma_error_persists(targets, inspections, dry_run, n, (m - 1) as nat);
    }
}

/// The operation a cleanup reports: 1 preview, 2 caches, 3 everything.
pub open spec fn operation_of(all: bool, dry_run: bool) -> u8 {
    if dry_run { 1 } else if all { 3 } else { 2 }
}

/// The result of planning a cleanup: the report of every target, or the
/// first refusal.
pub open spec fn cleanup_outcome(
    r: Result<CleanupReport, String>,
    kind: ProjectKind,
    all: bool,
    dry_run: bool,
    root: Seq<char>,
    inspections: Seq<ArtifactInspection>,
) -> bool {
    match (r, cleanup_lines(cleanup_plan(kind, all), inspections, dry_run, inspections.len())) {
        (Ok(report), Ok(lines)) => {
            &&& report.entries@.map_values(|e: CleanupEntry| entry_view(e)) == lines
            &&& report.schema_version == 1 && report.result_code == 1
            &&& report.operation_code == operation_of(all, dry_run)
            &&& report.project_type_code == kind_code(kind)
            &&& report.root@ == root
            &&& report.bytes == total_bytes(lines) && report.files == total_files(lines)
        },
        (Err(e), Err(m)) => e@ == m,
        _ => false,
    }
}

/// Plans the cleanup of a project from the inspection of each of its
/// targets (in the order of `cleanup_targets`): stops at the first target
/// that cannot be cleaned safely, otherwise reports every target with its
/// size. Removal of the existing targets is left to the caller, which marks
/// them removed.
pub fn clean(context: &ProjectContext, all: bool, dry_run: bool, root: &str, inspections: &Vec<ArtifactInspection>) -> (r:
    Result<CleanupReport, String>)
    requires
        inspections@.len() == cleanup_plan(context.kind, all).len(),
        state_bytes(inspections@) <= u64::MAX,
        state_files(inspections@) <= u64::MAX,
    ensures
        cleanup_outcome(r, context.kind, all, dry_run, root@, inspections@),
{
    let targets = cleanup_targets(context.kind, all);
    let ghost plan = cleanup_plan(context.kind, all);
    let mut entries: Vec<CleanupEntry> = Vec::new();
    let mut bytes: u64 = 0;
    let mut files: u64 = 0;
    let mut i: usize = 0;
    assert(entries@.map_values(|e: CleanupEntry| entry_view(e)) =~= Seq::empty());
    assert(inspections@.take(0) =~= Seq::empty());
    while i < targets.len()
        invariant
            i <= targets@.len(),
            plan == cleanup_plan(context.kind, all),
            target_views(targets@) == plan,
            inspections@.len() == plan.len(),
            state_bytes(inspections@) <= u64::MAX,
            state_files(inspections@) <= u64::MAX,
            cleanup_lines(plan, inspections@, dry_run, i as nat) == Ok::<Seq<(Seq<char>, u8, bool, u64, u64, bool, bool)>, Seq<char>>(
                entries@.map_values(|e: CleanupEntry| entry_view(e))),
            bytes == total_bytes(entries@.map_values(|e: CleanupEntry| entry_view(e))),
            files == total_files(entries@.map_values(|e: CleanupEntry| entry_view(e))),
            bytes <= state_bytes(inspections@.take(i as int)),
            files <= state_files(inspections@.take(i as int)),
        decreases targets.len() - i,
    {
        let (relative, kind) = targets[i];
        let inspection = &inspections[i];
        proof {
            assert(plan[i as int] == (relative@, kind));
            assert(inspections@.take(i + 1).drop_last() =~= inspections@.take(i as int));
            lemma_state_totals_monotone(inspections@, i + 1);
        }
        let ghost before = entries@;
        match &inspection.state {
            ArtifactState::Missing => {
                entries.push(CleanupEntry {
                    path: String::from_str(relative),
                    kind_code: kind.code(),
                    existed: false,
                    bytes: 0,
                    files: 0,
                    complete: true,
                    removed: false,
                });
            },
            ArtifactState::Failed(message) => {
                proof {
                    lemma_error_persists(plan, inspections@, dry_run, (i + 1) as nat, inspections@.len() as nat);
                }
                return Err(String::from_str(message.as_str()));
            },
            ArtifactState::Symlink => {
                proof {
                    lemma_error_persists(plan, inspections@, dry_run, (i + 1) as nat, inspections@.len() as nat);
                }
                return Err(concat_str("refusing to clean generated artifact symlink ", inspection.shown_path.as_str()));
            },
            ArtifactState::NotDirectory => {
                proof {
                    lemma_error_persists(plan, inspections@, dry_run, (i + 1) as nat, inspections@.len() as nat);
                }
                return Err(concat_str("refusing to clean non-directory artifact ", inspection.shown_path.as_str()));
            },
            ArtifactState::OutsideProject => {
                proof {
                    lemma_error_persists(plan, inspections@, dry_run, (i + 1) as nat, inspections@.len() as nat);
                }
                return Err(concat_str(
                    "refusing to clean artifact path that resolves through a symlink or outside the project: ",
                    inspection.shown_path.as_str(),
                ));
            },
            ArtifactState::Directory { bytes: size, files: count, complete } => {
                if !*complete && !dry_run {
                    proof {
                        lemma_error_persists(plan, inspections@, dry_run, (i + 1) as nat, inspections@.len() as nat);
                    }
                    return Err(concat_str("refusing to clean incompletely scanned artifact ", inspection.shown_path.as_str()));
                }
                bytes = bytes + *size;
                files = files + *count;
                entries.push(CleanupEntry {
                    path: String::from_str(relative),
                    kind_code: kind.code(),
                    existed: true,
                    bytes: *size,
                    files: *count,
                    complete: *complete,
                    removed: false,
                });
            },
        }
        proof {
            let views = entries@.map_values(|e: CleanupEntry| entry_view(e));
            assert(views =~= before.map_values(|e: CleanupEntry| entry_view(e)).push(views.last()));
            assert(views.drop_last() =~= before.map_values(|e: CleanupEntry| entry_view(e)));
        }
        i = i + 1;
    }
    Ok(CleanupReport {
        schema_version: 1,
        result_code: 1,
        operation_code: if dry_run { 1 } else if all { 3 } else { 2 },
        project_type_code: context.kind.code(),
        root: String::from_str(root),
        bytes,
        files,
        entries,
    })
}

proof fn lemma_state_totals_monotone(inspections: Seq<ArtifactInspection>, n: int)
    requires
        0 <= n <= inspections.len(),
    ensures
        state_bytes(inspections.take(n)) <= state_bytes(inspections),
        state_files(inspections.take(n)) <= state_files(inspections),
    decreases inspections.len() - n,
{
    if n < inspections.len() {
        lemma_state_totals_monotone(inspections, n + 1);
        assert(inspections.take(n + 1).drop_last() =~= inspections.take(n));
    } else {
        assert(inspections.take(n) =~= inspections);
    }
}

/// Plans the full cleanup that runs before development starts: exactly
/// the cleanup of every target, without preview.
pub fn clean_after_dev(context: &ProjectContext, root: &str, inspections: &Vec<ArtifactInspection>) -> (r: Result<CleanupReport, String>)
    requires
        inspections@.len() == cleanup_plan(context.kind, true).len(),
        state_bytes(inspections@) <= u64::MAX,
        state_files(inspections@) <= u64::MAX,
    ensures
        cleanup_outcome(r, context.kind, true, false, root@, inspections@),
{
    clean(context, true, false, root, inspections)
}

/// A preview removes nothing: every line of its report is marked as not
/// removed. And it goes through whenever every target is missing or a real
/// directory inside the project, even one that was not scanned completely.
pub proof fn lemma_preview_removes_nothing(
    targets: Seq<(Seq<char>, CleanupArtifactKind)>,
    inspections: Seq<ArtifactInspection>,
    n: nat,
)
    requires
        n <= targets.len(),
        n <= inspections.len(),
    ensures
        cleanup_lines(targets, inspections, true, n) matches Ok(lines) ==> forall|i: int| 0 <= i < lines.len() ==> !(#[trigger] lines[i]).6,
        (forall|i: int| 0 <= i < n ==> (#[trigger] inspections[i]).state is Missing || inspections[i].state is Directory)
            ==> cleanup_lines(targets, inspections, true, n) is Ok,
    decreases n,
{
    if n > 0 {
        lemma_preview_removes_nothing(targets, inspections, (n - 1) as nat);
        if (forall|i: int| 0 <= i < n ==> (#[trigger] inspections[i]).state is Missing || inspections[i].state is Directory) {
            assert(inspections[n - 1].state is Missing || inspections[n - 1].state is Directory);
        }
    }
}

/// Whether `a` and `b` differ: in length, or at some index from `i` on.
pub open spec fn texts_differ_from(a: Seq<char>, b: Seq<char>, i: nat) -> bool
    decreases a.len() - i,
{
    if a.len() != b.len() {
        true
    } else if i >= a.len() {
        false
    } else {
        a[i as int] != b[i as int] || texts_differ_from(a, b, i + 1)
    }
}

proof fn lemma_texts_differ(a: Seq<char>, b: Seq<char>, i: nat)
    requires
        texts_differ_from(a, b, i),
    ensures
        a != b,
    decreases a.len() - i,
{
    if a.len() == b.len() && i < a.len() && a[i as int] == b[i as int] {
        lemma_texts_differ(a, b, i + 1);
    }
}

/// Whether the path of `s[i]` differs from those of `s[j..]`.
pub open spec fn differs_from_rest(s: Seq<(Seq<char>, CleanupArtifactKind)>, i: int, j: nat) -> bool
    decreases s.len() - j,
{
    if j >= s.len() {
        true
    } else {
        texts_differ_from(s[i].0, s[j as int].0, 0) && differs_from_rest(s, i, j + 1)
    }
}

/// Whether the paths of `s[i..]` differ pairwise.
pub open spec fn distinct_from(s: Seq<(Seq<char>, CleanupArtifactKind)>, i: nat) -> bool
    decreases s.len() - i,
{
    if i >= s.len() {
        true
    } else {
        differs_from_rest(s, i as int, i + 1) && distinct_from(s, i + 1)
    }
}

proof fn lemma_distinct_from(s: Seq<(Seq<char>, CleanupArtifactKind)>, i: nat)
    requires
        distinct_from(s, i),
    ensures
        forall|a: int, b: int| i <= a < b < s.len() ==> #[trigger] s[a].0 != #[trigger] s[b].0,
    decreases s.len() - i,
{
    if i < s.len() {
        lemma_distinct_from(s, i + 1);
        assert forall|b: int| i < b < s.len() implies s[i as int].0 != s[b].0 by {
            lemma_differs_from_rest(s, i as int, i + 1, b);
        }
    }
}

proof fn lemma_differs_from_rest(s: Seq<(Seq<char>, CleanupArtifactKind)>, i: int, j: nat, b: int)
    requires
        differs_from_rest(s, i, j),
        j <= b < s.len(),
    ensures
        s[i].0 != s[b].0,
    decreases b - j,
{
    if b == j {
        lemma_texts_differ(s[i].0, s[b].0, 0);
    } else {
        lemma_differs_from_rest(s, i, j + 1, b);
    }
}

/// A component `.` or `..` starts at index `i` of `p`.
pub open spec fn dot_component_at(p: Seq<char>, i: int) -> bool {
    p[i] == '.' && (i + 1 == p.len() || p[i + 1] == '/' || (p[i + 1] == '.' && (i + 2 == p.len() || p[i + 2] == '/')))
}

/// A relative path of normal components: not empty, no leading, trailing
/// or doubled `/`, and no component `.` or `..`.
pub open spec fn is_relative_normal_path(p: Seq<char>) -> bool {
    &&& p.len() > 0
    &&& p[0] != '/'
    &&& p[p.len() - 1] != '/'
    &&& forall|i: int| 0 <= i < p.len() - 1 && #[trigger] p[i] == '/' ==> p[i + 1] != '/'
    &&& forall|i: int| 0 <= i < p.len() && (i == 0 || p[i - 1] == '/') ==> !#[trigger] dot_component_at(p, i)
}

pub open spec fn normal_at(p: Seq<char>, i: int) -> bool {
    &&& (i < p.len() - 1 && p[i] == '/' ==> p[i + 1] != '/')
    &&& ((i == 0 || p[i - 1] == '/') ==> !dot_component_at(p, i))
}

pub open spec fn normal_from(p: Seq<char>, i: nat) -> bool
    decreases p.len() - i,
{
    if i >= p.len() {
        true
    } else {
        normal_at(p, i as int) && normal_from(p, i + 1)
    }
}

proof fn lemma_normal_from(p: Seq<char>, i: nat, k: int)
    requires
        normal_from(p, i),
        i <= k < p.len(),
    ensures
        normal_at(p, k),
    decreases k - i,
{
    if k > i {
        lemma_normal_from(p, i + 1, k);
    }
}

proof fn lemma_relative_normal(p: Seq<char>)
    requires
        p.len() > 0 && p[0] != '/' && p[p.len() - 1] != '/',
        normal_from(p, 0),
    ensures
        is_relative_normal_path(p),
{
    assert forall|i: int| 0 <= i < p.len() - 1 && #[trigger] p[i] == '/' implies p[i + 1] != '/' by {
        lemma_normal_from(p, 0, i);
    }
    assert forall|i: int| 0 <= i < p.len() && (i == 0 || p[i - 1] == '/') implies !#[trigger] dot_component_at(p, i) by {
        lemma_normal_from(p, 0, i);
    }
}

pub open spec fn all_normal_from(s: Seq<(Seq<char>, CleanupArtifactKind)>, i: nat) -> bool
    decreases s.len() - i,
{
    if i >= s.len() {
        true
    } else {
        let p = s[i as int].0;
        p.len() > 0 && p[0] != '/' && p[p.len() - 1] != '/' && normal_from(p, 0) && all_normal_from(s, i + 1)
    }
}

proof fn lemma_all_normal_from(s: Seq<(Seq<char>, CleanupArtifactKind)>, i: nat, k: int)
    requires
        all_normal_from(s, i),
        i <= k < s.len(),
    ensures
        is_relative_normal_path(s[k].0),
    decreases k - i,
{
    if k > i {
        lemma_all_normal_from(s, i + 1, k);
    } else {
        lemma_relative_normal(s[k].0);
    }
}

/// Path `q` is `p` or lies beneath it, component-wise.
pub open spec fn is_within(p: Seq<char>, q: Seq<char>) -> bool {
    q == p || (q.len() > p.len() && q.take(p.len() as int) == p && q[p.len() as int] == '/')
}

pub open spec fn same_from(p: Seq<char>, q: Seq<char>, i: nat) -> bool
    decreases p.len() - i,
{
    if i >= p.len() {
        true
    } else {
        i < q.len() && p[i as int] == q[i as int] && same_from(p, q, i + 1)
    }
}

proof fn lemma_same_from(p: Seq<char>, q: Seq<char>, i: nat)
    requires
        same_from(p, q, i),
        p.len() <= q.len(),
    ensures
        forall|k: int| i <= k < p.len() ==> p[k] == #[trigger] q[k],
    decreases p.len() - i,
{
    if i < p.len() {
        lemma_same_from(p, q, i + 1);
    }
}

pub open spec fn within_check(p: Seq<char>, q: Seq<char>) -> bool {
    p.len() <= q.len() && same_from(p, q, 0) && (q.len() == p.len() || q[p.len() as int] == '/')
}

proof fn lemma_within_check(p: Seq<char>, q: Seq<char>)
    requires
        within_check(p, q),
    ensures
        is_within(p, q),
{
    lemma_same_from(p, q, 0);
    if q.len() == p.len() {
        assert(q =~= p);
    } else {
        assert(q.take(p.len() as int) =~= p);
    }
}

/// Whether path `q` lies within one of the paths of `full[j..]`.
pub open spec fn covered_from(q: Seq<char>, full: Seq<(Seq<char>, CleanupArtifactKind)>, j: nat) -> bool
    decreases full.len() - j,
{
    if j >= full.len() {
        false
    } else {
        within_check(full[j as int].0, q) || covered_from(q, full, j + 1)
    }
}

proof fn lemma_covered_from(q: Seq<char>, full: Seq<(Seq<char>, CleanupArtifactKind)>, j: nat)
    requires
        covered_from(q, full, j),
    ensures
        exists|m: int| 0 <= m < full.len() && is_within(#[trigger] full[m].0, q),
    decreases full.len() - j,
{
    if within_check(full[j as int].0, q) {
        lemma_within_check(full[j as int].0, q);
    } else {
        lemma_covered_from(q, full, j + 1);
    }
}

pub open spec fn all_covered_from(
    caches: Seq<(Seq<char>, CleanupArtifactKind)>,
    full: Seq<(Seq<char>, CleanupArtifactKind)>,
    i: nat,
) -> bool
    decreases caches.len() - i,
{
    if i >= caches.len() {
        true
    } else {
        covered_from(caches[i as int].0, full, 0) && all_covered_from(caches, full, i + 1)
    }
}

proof fn lemma_all_covered_from(
    caches: Seq<(Seq<char>, CleanupArtifactKind)>,
    full: Seq<(Seq<char>, CleanupArtifactKind)>,
    i: nat,
    k: int,
)
    requires
        all_covered_from(caches, full, i),
        i <= k < caches.len(),
    ensures
        exists|m: int| 0 <= m < full.len() && is_within(#[trigger] full[m].0, caches[k].0),
    decreases k - i,
{
    if k > i {
        lemma_all_covered_from(caches, full, i + 1, k);
    } else {
        lemma_covered_from(caches[k].0, full, 0);
    }
}

#[verifier::rlimit(100)]
#[verifier::spinoff_prover]
proof fn lemma_product_full_distinct()
    ensures
        distinct_from(cleanup_plan(ProjectKind::Product, true), 0),
{
    reveal_strlit("apps/server/.pam/cache");
    reveal_strlit("apps/server/.pam/phpunit-cache");
    reveal_strlit("apps/native/.pam/cache");
    reveal_strlit("apps/native/.pam/phpunit-cache");
    reveal_strlit("apps/native/.pam-native/android");
    reveal_strlit("apps/native/.pam-native/ios");
    reveal_strlit("apps/desktop/.pam/cache");
    reveal_strlit("apps/desktop/target");
    reveal_strlit("android/.gradle");
    reveal_strlit("android/.kotlin");
    reveal_strlit("android/build");
    reveal_strlit("android/app/build");
    reveal_strlit("android/plugin-api/build");
    reveal_strlit("android/macrobenchmark/build");
    reveal_strlit(".build");
    reveal_strlit("ios/.build");
    reveal_strlit("scripts/__pycache__");
    reveal_strlit("tests/__pycache__");
    reveal_strlit("benchmarks/__pycache__");
    reveal_strlit("benchmarks/package/__pycache__");
    reveal_strlit(".pytest_cache");
    reveal_strlit(".mypy_cache");
    reveal_strlit(".ruff_cache");
    reveal_with_fuel(texts_differ_from, 55);
    reveal_with_fuel(differs_from_rest, 28);
    reveal_with_fuel(distinct_from, 28);
}

#[verifier::rlimit(100)]
#[verifier::spinoff_prover]
proof fn lemma_product_full_normal()
    ensures
        all_normal_from(cleanup_plan(ProjectKind::Product, true), 0),
{
    reveal_strlit("apps/server/.pam/cache");
    reveal_strlit("apps/server/.pam/phpunit-cache");
    reveal_strlit("apps/native/.pam/cache");
    reveal_strlit("apps/native/.pam/phpunit-cache");
    reveal_strlit("apps/native/.pam-native/android");
    reveal_strlit("apps/native/.pam-native/ios");
    reveal_strlit("apps/desktop/.pam/cache");
    reveal_strlit("apps/desktop/target");
    reveal_strlit("android/.gradle");
    reveal_strlit("android/.kotlin");
    reveal_strlit("android/build");
    reveal_strlit("android/app/build");
    reveal_strlit("android/plugin-api/build");
    reveal_strlit("android/macrobenchmark/build");
    reveal_strlit(".build");
    reveal_strlit("ios/.build");
    reveal_strlit("scripts/__pycache__");
    reveal_strlit("tests/__pycache__");
    reveal_strlit("benchmarks/__pycache__");
    reveal_strlit("benchmarks/package/__pycache__");
    reveal_strlit(".pytest_cache");
    reveal_strlit(".mypy_cache");
    reveal_strlit(".ruff_cache");
    reveal_with_fuel(normal_from, 55);
    reveal_with_fuel(all_normal_from, 28);
}

#[verifier::rlimit(100)]
#[verifier::spinoff_prover]
proof fn lemma_product_caches_distinct()
    ensures
        distinct_from(cleanup_plan(ProjectKind::Product, false), 0),
{
    reveal_strlit("apps/server/.pam/cache");
    reveal_strlit("apps/server/.pam/phpunit-cache");
    reveal_strlit("apps/native/.pam/cache");
    reveal_strlit("apps/native/.pam/phpunit-cache");
    reveal_strlit("apps/native/.pam-native/android/app/build");
    reveal_strlit("apps/native/.pam-native/android/build");
    reveal_strlit("apps/native/.pam-native/android/gradle-home/caches");
    reveal_strlit("apps/native/.pam-native/ios/App/DerivedData");
    reveal_strlit("apps/desktop/target/debug/incremental");
    reveal_strlit("apps/desktop/target/release/incremental");
    reveal_strlit("apps/desktop/.pam/cache");
    reveal_strlit("android/.gradle");
    reveal_strlit("android/.kotlin");
    reveal_strlit("android/build");
    reveal_strlit("android/app/build");
    reveal_strlit("android/plugin-api/build");
    reveal_strlit("android/macrobenchmark/build");
    reveal_strlit(".build");
    reveal_strlit("ios/.build");
    reveal_strlit("scripts/__pycache__");
    reveal_strlit("tests/__pycache__");
    reveal_strlit("benchmarks/__pycache__");
    reveal_strlit("benchmarks/package/__pycache__");
    reveal_strlit(".pytest_cache");
    reveal_strlit(".mypy_cache");
    reveal_strlit(".ruff_cache");
    reveal_with_fuel(texts_differ_from, 55);
    reveal_with_fuel(differs_from_rest, 28);
    reveal_with_fuel(distinct_from, 28);
}

#[verifier::rlimit(100)]
#[verifier::spinoff_prover]
proof fn lemma_product_caches_normal()
    ensures
        all_normal_from(cleanup_plan(ProjectKind::Product, false), 0),
{
    reveal_strlit("apps/server/.pam/cache");
    reveal_strlit("apps/server/.pam/phpunit-cache");
    reveal_strlit("apps/native/.pam/cache");
    reveal_strlit("apps/native/.pam/phpunit-cache");
    reveal_strlit("apps/native/.pam-native/android/app/build");
    reveal_strlit("apps/native/.pam-native/android/build");
    reveal_strlit("apps/native/.pam-native/android/gradle-home/caches");
    reveal_strlit("apps/native/.pam-native/ios/App/DerivedData");
    reveal_strlit("apps/desktop/target/debug/incremental");
    reveal_strlit("apps/desktop/target/release/incremental");
    reveal_strlit("apps/desktop/.pam/cache");
    reveal_strlit("android/.gradle");
    reveal_strlit("android/.kotlin");
    reveal_strlit("android/build");
    reveal_strlit("android/app/build");
    reveal_strlit("android/plugin-api/build");
    reveal_strlit("android/macrobenchmark/build");
    reveal_strlit(".build");
    reveal_strlit("ios/.build");
    reveal_strlit("scripts/__pycache__");
    reveal_strlit("tests/__pycache__");
    reveal_strlit("benchmarks/__pycache__");
    reveal_strlit("benchmarks/package/__pycache__");
    reveal_strlit(".pytest_cache");
    reveal_strlit(".mypy_cache");
    reveal_strlit(".ruff_cache");
    reveal_with_fuel(normal_from, 55);
    reveal_with_fuel(all_normal_from, 28);
}

#[verifier::rlimit(100)]
#[verifier::spinoff_prover]
proof fn lemma_plain_full_distinct()
    ensures
        distinct_from(cleanup_plan(ProjectKind::Raw, true), 0),
{
    reveal_strlit(".pam/cache");
    reveal_strlit(".pam/phpunit-cache");
    reveal_strlit(".pam-native/android");
    reveal_strlit(".pam-native/ios");
    reveal_strlit("target");
    reveal_strlit("android/.gradle");
    reveal_strlit("android/.kotlin");
    reveal_strlit("android/build");
    reveal_strlit("android/app/build");
    reveal_strlit("android/plugin-api/build");
    reveal_strlit("android/macrobenchmark/build");
    reveal_strlit(".build");
    reveal_strlit("ios/.build");
    reveal_strlit("scripts/__pycache__");
    reveal_strlit("tests/__pycache__");
    reveal_strlit("benchmarks/__pycache__");
    reveal_strlit("benchmarks/package/__pycache__");
    reveal_strlit(".pytest_cache");
    reveal_strlit(".mypy_cache");
    reveal_strlit(".ruff_cache");
    reveal_with_fuel(texts_differ_from, 55);
    reveal_with_fuel(differs_from_rest, 28);
    reveal_with_fuel(distinct_from, 28);
}

#[verifier::rlimit(100)]
#[verifier::spinoff_prover]
proof fn lemma_plain_full_normal()
    ensures
        all_normal_from(cleanup_plan(ProjectKind::Raw, true), 0),
{
    reveal_strlit(".pam/cache");
    reveal_strlit(".pam/phpunit-cache");
    reveal_strlit(".pam-native/android");
    reveal_strlit(".pam-native/ios");
    reveal_strlit("target");
    reveal_strlit("android/.gradle");
    reveal_strlit("android/.kotlin");
    reveal_strlit("android/build");
    reveal_strlit("android/app/build");
    reveal_strlit("android/plugin-api/build");
    reveal_strlit("android/macrobenchmark/build");
    reveal_strlit(".build");
    reveal_strlit("ios/.build");
    reveal_strlit("scripts/__pycache__");
    reveal_strlit("tests/__pycache__");
    reveal_strlit("benchmarks/__pycache__");
    reveal_strlit("benchmarks/package/__pycache__");
    reveal_strlit(".pytest_cache");
    reveal_strlit(".mypy_cache");
    reveal_strlit(".ruff_cache");
    reveal_with_fuel(normal_from, 55);
    reveal_with_fuel(all_normal_from, 28);
}

#[verifier::rlimit(100)]
#[verifier::spinoff_prover]
proof fn lemma_plain_caches_distinct()
    ensures
        distinct_from(cleanup_plan(ProjectKind::Raw, false), 0),
{
    reveal_strlit(".pam/cache");
    reveal_strlit(".pam/phpunit-cache");
    reveal_strlit(".pam-native/android/app/build");
    reveal_strlit(".pam-native/android/build");
    reveal_strlit(".pam-native/android/gradle-home/caches");
    reveal_strlit(".pam-native/android/gradle-home/daemon");
    reveal_strlit(".pam-native/android/gradle-home/native");
    reveal_strlit(".pam-native/android/gradle-home/notifications");
    reveal_strlit(".pam-native/ios/App/DerivedData");
    reveal_strlit("target/debug/incremental");
    reveal_strlit("target/release/incremental");
    reveal_strlit("android/.gradle");
    reveal_strlit("android/.kotlin");
    reveal_strlit("android/build");
    reveal_strlit("android/app/build");
    reveal_strlit("android/plugin-api/build");
    reveal_strlit("android/macrobenchmark/build");
    reveal_strlit(".build");
    reveal_strlit("ios/.build");
    reveal_strlit("scripts/__pycache__");
    reveal_strlit("tests/__pycache__");
    reveal_strlit("benchmarks/__pycache__");
    reveal_strlit("benchmarks/package/__pycache__");
    reveal_strlit(".pytest_cache");
    reveal_strlit(".mypy_cache");
    reveal_strlit(".ruff_cache");
    reveal_with_fuel(texts_differ_from, 55);
    reveal_with_fuel(differs_from_rest, 28);
    reveal_with_fuel(distinct_from, 28);
}

#[verifier::rlimit(100)]
#[verifier::spinoff_prover]
proof fn lemma_plain_caches_normal()
    ensures
        all_normal_from(cleanup_plan(ProjectKind::Raw, false), 0),
{
    reveal_strlit(".pam/cache");
    reveal_strlit(".pam/phpunit-cache");
    reveal_strlit(".pam-native/android/app/build");
    reveal_strlit(".pam-native/android/build");
    reveal_strlit(".pam-native/android/gradle-home/caches");
    reveal_strlit(".pam-native/android/gradle-home/daemon");
    reveal_strlit(".pam-native/android/gradle-home/native");
    reveal_strlit(".pam-native/android/gradle-home/notifications");
    reveal_strlit(".pam-native/ios/App/DerivedData");
    reveal_strlit("target/debug/incremental");
    reveal_strlit("target/release/incremental");
    reveal_strlit("android/.gradle");
    reveal_strlit("android/.kotlin");
    reveal_strlit("android/build");
    reveal_strlit("android/app/build");
    reveal_strlit("android/plugin-api/build");
    reveal_strlit("android/macrobenchmark/build");
    reveal_strlit(".build");
    reveal_strlit("ios/.build");
    reveal_strlit("scripts/__pycache__");
    reveal_strlit("tests/__pycache__");
    reveal_strlit("benchmarks/__pycache__");
    reveal_strlit("benchmarks/package/__pycache__");
    reveal_strlit(".pytest_cache");
    reveal_strlit(".mypy_cache");
    reveal_strlit(".ruff_cache");
    reveal_with_fuel(normal_from, 55);
    reveal_with_fuel(all_normal_from, 28);
}

#[verifier::rlimit(100)]
#[verifier::spinoff_prover]
proof fn lemma_product_caches_covered()
    ensures
        all_covered_from(cleanup_plan(ProjectKind::Product, false), cleanup_plan(ProjectKind::Product, true), 0),
{
    reveal_strlit("apps/server/.pam/cache");
    reveal_strlit("apps/server/.pam/phpunit-cache");
    reveal_strlit("apps/native/.pam/cache");
    reveal_strlit("apps/native/.pam/phpunit-cache");
    reveal_strlit("apps/native/.pam-native/android");
    reveal_strlit("apps/native/.pam-native/ios");
    reveal_strlit("apps/desktop/.pam/cache");
    reveal_strlit("apps/desktop/target");
    reveal_strlit("apps/server/.pam/cache");
    reveal_strlit("apps/server/.pam/phpunit-cache");
    reveal_strlit("apps/native/.pam/cache");
    reveal_strlit("apps/native/.pam/phpunit-cache");
    reveal_strlit("apps/native/.pam-native/android/app/build");
    reveal_strlit("apps/native/.pam-native/android/build");
    reveal_strlit("apps/native/.pam-native/android/gradle-home/caches");
    reveal_strlit("apps/native/.pam-native/ios/App/DerivedData");
    reveal_strlit("apps/desktop/target/debug/incremental");
    reveal_strlit("apps/desktop/target/release/incremental");
    reveal_strlit("apps/desktop/.pam/cache");
    reveal_strlit("android/.gradle");
    reveal_strlit("android/.kotlin");
    reveal_strlit("android/build");
    reveal_strlit("android/app/build");
    reveal_strlit("android/plugin-api/build");
    reveal_strlit("android/macrobenchmark/build");
    reveal_strlit(".build");
    reveal_strlit("ios/.build");
    reveal_strlit("scripts/__pycache__");
    reveal_strlit("tests/__pycache__");
    reveal_strlit("benchmarks/__pycache__");
    reveal_strlit("benchmarks/package/__pycache__");
    reveal_strlit(".pytest_cache");
    reveal_strlit(".mypy_cache");
    reveal_strlit(".ruff_cache");
    reveal_with_fuel(same_from, 55);
    reveal_with_fuel(covered_from, 28);
    reveal_with_fuel(all_covered_from, 28);
}

#[verifier::rlimit(100)]
#[verifier::spinoff_prover]
proof fn lemma_plain_caches_covered()
    ensures
        all_covered_from(cleanup_plan(ProjectKind::Raw, false), cleanup_plan(ProjectKind::Raw, true), 0),
{
    reveal_strlit(".pam/cache");
    reveal_strlit(".pam/phpunit-cache");
    reveal_strlit(".pam-native/android");
    reveal_strlit(".pam-native/ios");
    reveal_strlit("target");
    reveal_strlit(".pam/cache");
    reveal_strlit(".pam/phpunit-cache");
    reveal_strlit(".pam-native/android/app/build");
    reveal_strlit(".pam-native/android/build");
    reveal_strlit(".pam-native/android/gradle-home/caches");
    reveal_strlit(".pam-native/android/gradle-home/daemon");
    reveal_strlit(".pam-native/android/gradle-home/native");
    reveal_strlit(".pam-native/android/gradle-home/notifications");
    reveal_strlit(".pam-native/ios/App/DerivedData");
    reveal_strlit("target/debug/incremental");
    reveal_strlit("target/release/incremental");
    reveal_strlit("android/.gradle");
    reveal_strlit("android/.kotlin");
    reveal_strlit("android/build");
    reveal_strlit("android/app/build");
    reveal_strlit("android/plugin-api/build");
    reveal_strlit("android/macrobenchmark/build");
    reveal_strlit(".build");
    reveal_strlit("ios/.build");
    reveal_strlit("scripts/__pycache__");
    reveal_strlit("tests/__pycache__");
    reveal_strlit("benchmarks/__pycache__");
    reveal_strlit("benchmarks/package/__pycache__");
    reveal_strlit(".pytest_cache");
    reveal_strlit(".mypy_cache");
    reveal_strlit(".ruff_cache");
    reveal_with_fuel(same_from, 55);
    reveal_with_fuel(covered_from, 28);
    reveal_with_fuel(all_covered_from, 28);
    assert(covered_from(cleanup_plan(ProjectKind::Raw, false)[0].0, cleanup_plan(ProjectKind::Raw, true), 0));
    assert(covered_from(cleanup_plan(ProjectKind::Raw, false)[1].0, cleanup_plan(ProjectKind::Raw, true), 0));
    assert(covered_from(cleanup_plan(ProjectKind::Raw, false)[2].0, cleanup_plan(ProjectKind::Raw, true), 0));
    assert(covered_from(cleanup_plan(ProjectKind::Raw, false)[3].0, cleanup_plan(ProjectKind::Raw, true), 0));
    assert(covered_from(cleanup_plan(ProjectKind::Raw, false)[4].0, cleanup_plan(ProjectKind::Raw, true), 0));
    assert(covered_from(cleanup_plan(ProjectKind::Raw, false)[5].0, cleanup_plan(ProjectKind::Raw, true), 0));
    assert(covered_from(cleanup_plan(ProjectKind::Raw, false)[6].0, cleanup_plan(ProjectKind::Raw, true), 0));
    assert(covered_from(cleanup_plan(ProjectKind::Raw, false)[7].0, cleanup_plan(ProjectKind::Raw, true), 0));
    assert(covered_from(cleanup_plan(ProjectKind::Raw, false)[8].0, cleanup_plan(ProjectKind::Raw, true), 0));
    assert(covered_from(cleanup_plan(ProjectKind::Raw, false)[9].0, cleanup_plan(ProjectKind::Raw, true), 0));
    assert(covered_from(cleanup_plan(ProjectKind::Raw, false)[10].0, cleanup_plan(ProjectKind::Raw, true), 0));
    assert(covered_from(cleanup_plan(ProjectKind::Raw, false)[11].0, cleanup_plan(ProjectKind::Raw, true), 0));
    assert(covered_from(cleanup_plan(ProjectKind::Raw, false)[12].0, cleanup_plan(ProjectKind::Raw, true), 0));
    assert(covered_from(cleanup_plan(ProjectKind::Raw, false)[13].0, cleanup_plan(ProjectKind::Raw, true), 0));
    assert(covered_from(cleanup_plan(ProjectKind::Raw, false)[14].0, cleanup_plan(ProjectKind::Raw, true), 0));
    assert(covered_from(cleanup_plan(ProjectKind::Raw, false)[15].0, cleanup_plan(ProjectKind::Raw, true), 0));
    assert(covered_from(cleanup_plan(ProjectKind::Raw, false)[16].0, cleanup_plan(ProjectKind::Raw, true), 0));
    assert(covered_from(cleanup_plan(ProjectKind::Raw, false)[17].0, cleanup_plan(ProjectKind::Raw, true), 0));
    assert(covered_from(cleanup_plan(ProjectKind::Raw, false)[18].0, cleanup_plan(ProjectKind::Raw, true), 0));
    assert(covered_from(cleanup_plan(ProjectKind::Raw, false)[19].0, cleanup_plan(ProjectKind::Raw, true), 0));
    assert(covered_from(cleanup_plan(ProjectKind::Raw, false)[20].0, cleanup_plan(ProjectKind::Raw, true), 0));
    assert(covered_from(cleanup_plan(ProjectKind::Raw, false)[21].0, cleanup_plan(ProjectKind::Raw, true), 0));
    assert(covered_from(cleanup_plan(ProjectKind::Raw, false)[22].0, cleanup_plan(ProjectKind::Raw, true), 0));
    assert(covered_from(cleanup_plan(ProjectKind::Raw, false)[23].0, cleanup_plan(ProjectKind::Raw, true), 0));
    assert(covered_from(cleanup_plan(ProjectKind::Raw, false)[24].0, cleanup_plan(ProjectKind::Raw, true), 0));
    assert(covered_from(cleanup_plan(ProjectKind::Raw, false)[25].0, cleanup_plan(ProjectKind::Raw, true), 0));
}

proof fn lemma_plan_checks(kind: ProjectKind, all: bool)
    ensures
        distinct_from(cleanup_plan(kind, all), 0),
        all_normal_from(cleanup_plan(kind, all), 0),
        all_covered_from(cleanup_plan(kind, false), cleanup_plan(kind, true), 0),
{
    if kind == ProjectKind::Product {
        lemma_product_caches_covered();
        if all {
            lemma_product_full_distinct();
            lemma_product_full_normal();
        } else {
            lemma_product_caches_distinct();
            lemma_product_caches_normal();
        }
    } else {
        lemma_plain_caches_covered();
        assert(cleanup_plan(kind, false) == cleanup_plan(ProjectKind::Raw, false));
        assert(cleanup_plan(kind, true) == cleanup_plan(ProjectKind::Raw, true));
        if all {
            lemma_plain_full_distinct();
            lemma_plain_full_normal();
        } else {
            lemma_plain_caches_distinct();
            lemma_plain_caches_normal();
        }
    }
}

/// Every list of cleanup targets ends with the workspace tooling targets;
/// its paths differ pairwise and are relative, of normal components only;
/// each target of the cache cleanup lies within a target of the full one;
/// and every kind of project but a product workspace is cleaned alike.
pub proof fn lemma_cleanup_targets_shape(kind: ProjectKind, all: bool)
    ensures
        cleanup_plan(kind, all).len() >= tooling_targets().len(),
        cleanup_plan(kind, all).subrange(
            cleanup_plan(kind, all).len() - tooling_targets().len(),
            cleanup_plan(kind, all).len() as int,
        ) == tooling_targets(),
        kind != ProjectKind::Product ==> cleanup_plan(kind, all) == cleanup_plan(ProjectKind::Raw, all),
        forall|i: int, j: int| 0 <= i < j < cleanup_plan(kind, all).len() ==> #[trigger] cleanup_plan(kind, all)[i].0
            != #[trigger] cleanup_plan(kind, all)[j].0,
        forall|i: int| 0 <= i < cleanup_plan(kind, all).len() ==> is_relative_normal_path(#[trigger] cleanup_plan(kind, all)[i].0),
        forall|i: int| 0 <= i < cleanup_plan(kind, false).len() ==> exists|j: int| 0 <= j < cleanup_plan(kind, true).len()
            && is_within(#[trigger] cleanup_plan(kind, true)[j].0, #[trigger] cleanup_plan(kind, false)[i].0),
{
    let plan = cleanup_plan(kind, all);
    assert(plan.subrange(plan.len() - tooling_targets().len(), plan.len() as int) =~= tooling_targets());
    lemma_plan_checks(kind, all);
    lemma_distinct_from(plan, 0);
    assert forall|i: int| 0 <= i < plan.len() implies is_relative_normal_path(#[trigger] plan[i].0) by {
        lemma_all_normal_from(plan, 0, i);
    }
    assert forall|i: int| 0 <= i < cleanup_plan(kind, false).len() implies exists|j: int| 0 <= j < cleanup_plan(kind, true).len()
        && is_within(#[trigger] cleanup_plan(kind, true)[j].0, #[trigger] cleanup_plan(kind, false)[i].0) by {
        lemma_all_covered_from(cleanup_plan(kind, false), cleanup_plan(kind, true), 0, i);
    }
}

} // verus!
