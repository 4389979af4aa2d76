//! Finding the native plugins among a project's installed Composer packages:
//! which packages declare a plugin, the installed SDK version, the order in
//! which plugins are linked, and names that two plugins cannot share.

use vstd::prelude::*;
use crate::text::{str_eq, concat_str, quoted, debug_quoted};
use crate::hexutil::{text_less, str_less, lemma_text_less_strict_total};
use crate::mobile::{is_composer_package, installed_sdk_version, valid_composer_package, parse_installed_sdk_version};
use crate::mobile_manifest::{ProjectPath, is_safe_relative, validate_relative_path};

verus! {

/// The Composer package of the Pam Native SDK.
pub const NATIVE_PACKAGE: &'static str = "pushinbr/pam-native";

/// An installed Composer package: its name, version, install path, and the
/// plugin descriptor it declares under `extra.pam-native.plugin`, if any.
pub struct ComposerPackage {
    pub name: String,
    pub version: String,
    pub install_path: Option<ProjectPath>,
    pub plugin: Option<ProjectPath>,
}

/// The version text of the first package named `name`.
pub open spec fn version_of(packages: Seq<ComposerPackage>, name: Seq<char>) -> Option<Seq<char>>
    decreases packages.len(),
{
    if packages.len() == 0 {
        None
    } else if packages[0].name@ == name {
        Some(packages[0].version@)
    } else {
        version_of(packages.drop_first(), name)
    }
}

/// The installed SDK version: its text and what it reads as.
pub open spec fn installed_native(packages: Seq<ComposerPackage>) -> Result<(Seq<char>, (u32, u32, u32)), Seq<char>> {
    match version_of(packages, NATIVE_PACKAGE@) {
        None => Err("Composer package "@ + NATIVE_PACKAGE@ + " is required for a Pam Native mobile project"@),
        Some(text) => match installed_sdk_version(text) {
            Err(e) => Err(e),
            Ok(v) => Ok((text, v)),
        },
    }
}

/// Finds the installed Pam Native SDK among the packages and reads its version.
pub fn installed_native_version(packages: &Vec<ComposerPackage>) -> (r: Result<(String, (u32, u32, u32)), String>)
    ensures
        match (r, installed_native(packages@)) {
            (Ok((t, v)), Ok((s, w))) => t@ == s && v == w,
            (Err(e), Err(m)) => e@ == m,
            _ => false,
        },
{
    let mut i: usize = 0;
    assert(packages@.skip(0) =~= packages@);
    while i < packages.len()
        invariant
            i <= packages@.len(),
            version_of(packages@, NATIVE_PACKAGE@) == version_of(packages@.skip(i as int), NATIVE_PACKAGE@),
        decreases packages.len() - i,
    {
        proof {
            assert(packages@.skip(i as int)[0] == packages@[i as int]);
            assert(packages@.skip(i as int).drop_first() =~= packages@.skip(i + 1));
        }
        if str_eq(packages[i].name.as_str(), NATIVE_PACKAGE) {
            let text = packages[i].version.clone();
            return match parse_installed_sdk_version(text.as_str()) {
                Ok(v) => Ok((text, v)),
                Err(e) => Err(e),
            };
        }
        i = i + 1;
    }
    assert(packages@.skip(i as int).len() == 0);
    let mut m = concat_str("Composer package ", NATIVE_PACKAGE);
    m.append(" is required for a Pam Native mobile project");
    Err(m)
}

/// An install path Composer may use: not empty, not absolute, and with no
/// root or prefix component (`None` components stand for those, and for `.`
/// and `..`, which are allowed here).
pub open spec fn is_safe_install_path(path: ProjectPath, roots: Seq<bool>) -> bool {
    &&& path.text@.len() > 0
    &&& !path.absolute
    &&& forall|i: int| 0 <= i < roots.len() ==> !#[trigger] roots[i]
}

/// What checking a package's plugin declaration gives: `Ok(false)` for a
/// package that declares no plugin, `Ok(true)` for a well-formed declaration.
/// `install_roots` tells, for each component of the install path, whether it
/// is a root or a prefix.
pub open spec fn plugin_package_check(p: ComposerPackage, install_roots: Seq<bool>) -> Result<bool, Seq<char>> {
    if p.plugin is None {
        Ok(false)
    } else if p.install_path is None {
        Err("Pam Native plugin package "@ + p.name@ + " has no Composer install-path"@)
    } else if !is_composer_package(p.name@) {
        Err("Pam Native plugin package name "@ + debug_quoted(p.name@) + " is invalid"@)
    } else if !is_safe_install_path(p.install_path->0, install_roots) {
        Err("unsafe Composer install path "@ + p.install_path->0.text@)
    } else if !is_safe_relative(p.plugin->0) {
        Err("unsafe project-relative path "@ + p.plugin->0.text@)
    } else {
        Ok(true)
    }
}

/// Checks what a package declares about a plugin, before its files are read.
pub fn check_plugin_package(p: &ComposerPackage, install_roots: &Vec<bool>) -> (r: Result<bool, String>)
    ensures
        match (r, plugin_package_check(*p, install_roots@)) {
            (Ok(a), Ok(b)) => a == b,
            (Err(e), Err(m)) => e@ == m,
            _ => false,
        },
{
    let descriptor = match &p.plugin {
        None => {
            return Ok(false);
        },
        Some(d) => d,
    };
    let install = match &p.install_path {
        None => {
            let mut m = concat_str("Pam Native plugin package ", p.name.as_str());
            m.append(" has no Composer install-path");
            return Err(m);
        },
        Some(path) => path,
    };
    if !valid_composer_package(p.name.as_str()) {
        let mut m = concat_str("Pam Native plugin package name ", quoted(p.name.as_str()).as_str());
        m.append(" is invalid");
        return Err(m);
    }
    let mut safe = install.text.as_str().unicode_len() > 0 && !install.absolute;
    let mut i: usize = 0;
    while i < install_roots.len() && safe
        invariant
            i <= install_roots@.len(),
            safe ==> install.text@.len() > 0 && !install.absolute,
            safe ==> forall|k: int| 0 <= k < i ==> !#[trigger] install_roots@[k],
            !safe ==> !is_safe_install_path(*install, install_roots@),
        decreases install_roots.len() - i,
    {
        if install_roots[i] {
            safe = false;
        }
        i = i + 1;
    }
    if !safe {
        return Err(concat_str("unsafe Composer install path ", install.text.as_str()));
    }
    match validate_relative_path(descriptor) {
        Err(e) => Err(e),
        Ok(()) => Ok(true),
    }
}

/// The names of the modules and views a plugin binds.
pub struct PluginBindings {
    pub package: String,
    pub modules: Vec<String>,
    pub views: Vec<String>,
}

/// `order` lists every position of `packages` once, with names in
/// non-decreasing order and equal names in their original order.
pub open spec fn sorted_order(packages: Seq<Seq<char>>, order: Seq<usize>) -> bool {
    &&& order.len() == packages.len()
    &&& forall|i: int| 0 <= i < order.len() ==> #[trigger] order[i] < packages.len()
    &&& order.no_duplicates()
    &&& forall|a: int, b: int|
        0 <= a < b < order.len() ==> !text_less(packages[#[trigger] order[b] as int], packages[#[trigger] order[a] as int])
            && (packages[order[a] as int] == packages[order[b] as int] ==> order[a] < order[b])
}

/// The order in which plugins are linked: by package name, ties kept in the
/// order they were found.
pub fn plugin_order(packages: &Vec<String>) -> (order: Vec<usize>)
    ensures
        sorted_order(packages@.map_values(|p: String| p@), order@),
{
    let ghost names = packages@.map_values(|p: String| p@);
    let mut order: Vec<usize> = Vec::new();
    let mut k: usize = 0;
    while k < packages.len()
        invariant
            k <= packages@.len(),
            names == packages@.map_values(|p: String| p@),
            order@.len() == k,
            forall|i: int| 0 <= i < order@.len() ==> #[trigger] order@[i] < k,
            order@.no_duplicates(),
            forall|a: int, b: int|
                0 <= a < b < order@.len() ==> !text_less(names[#[trigger] order@[b] as int], names[#[trigger] order@[a] as int])
                    && (names[order@[a] as int] == names[order@[b] as int] ==> order@[a] < order@[b]),
        decreases packages.len() - k,
    {
        let key = packages[k].as_str();
        let mut p: usize = 0;
        while p < order.len() && !str_less(key, packages[order[p]].as_str())
            invariant
                p <= order@.len(),
                k < packages@.len(),
                forall|i: int| 0 <= i < order@.len() ==> #[trigger] order@[i] < k,
                key@ == names[k as int],
                names == packages@.map_values(|x: String| x@),
                forall|q: int| 0 <= q < p ==> !text_less(names[k as int], names[#[trigger] order@[q] as int]),
            decreases order.len() - p,
        {
            p = p + 1;
        }
        let ghost before = order@;
        proof {
            if p < before.len() {
                assert(text_less(names[k as int], names[before[p as int] as int]));
            }
        }
        order.insert(p, k);
        proof {
            assert forall|i: int| 0 <= i < order@.len() implies #[trigger] order@[i] < k + 1 by {
                if i < p {
                    assert(order@[i] == before[i]);
                } else if i > p {
                    assert(order@[i] == before[i - 1]);
                }
            }
            assert forall|a: int, b: int| 0 <= a < b < order@.len() implies order@[a] != order@[b] by {
                if a < p && b < p {
                    assert(order@[a] == before[a] && order@[b] == before[b]);
                } else if a < p && b == p {
                    assert(order@[a] == before[a]);
                } else if a < p {
                    assert(order@[a] == before[a] && order@[b] == before[b - 1]);
                } else if a == p {
                    assert(order@[b] == before[b - 1]);
                } else {
                    assert(order@[a] == before[a - 1] && order@[b] == before[b - 1]);
                }
            }
            assert forall|a: int, b: int|
                0 <= a < b < order@.len() implies !text_less(names[#[trigger] order@[b] as int], names[#[trigger] order@[a] as int])
                    && (names[order@[a] as int] == names[order@[b] as int] ==> order@[a] < order@[b]) by {
                if b < p {
                    assert(order@[a] == before[a] && order@[b] == before[b]);
                } else if b == p {
                    assert(order@[a] == before[a]);
                    lemma_text_less_strict_total(names[k as int], names[before[a] as int], names[k as int]);
                } else if a == p {
                    let x = names[k as int];
                    let y = names[before[p as int] as int];
                    let z = names[before[b - 1] as int];
                    assert(order@[b] == before[b - 1]);
                    assert(text_less(x, y));
                    if b - 1 > p {
                        assert(!text_less(z, y));
                        lemma_text_less_strict_total(y, z, z);
                        lemma_text_less_strict_total(x, y, z);
                    }
                    lemma_text_less_strict_total(x, z, x);
                } else if a < p {
                    assert(order@[a] == before[a] && order@[b] == before[b - 1]);
                } else {
                    assert(order@[a] == before[a - 1] && order@[b] == before[b - 1]);
                }
            }
        }
        k = k + 1;
    }
    order
}

/// A name a plugin claims: the plugin, whether it is a view (or a module),
/// and the position of the name in that plugin's list.
pub open spec fn claims_of(p: int, plugin: PluginBindings) -> Seq<(int, bool, int)> {
    Seq::new(plugin.modules@.len(), |i: int| (p, false, i)) + Seq::new(plugin.views@.len(), |i: int| (p, true, i))
}

/// Every claim of the first `n` plugins, in the order they are checked.
pub open spec fn claims_upto(plugins: Seq<PluginBindings>, n: int) -> Seq<(int, bool, int)>
    decreases n,
{
    if n <= 0 {
        Seq::empty()
    } else {
        claims_upto(plugins, n - 1) + claims_of(n - 1, plugins[n - 1])
    }
}

/// The name a claim makes.
pub open spec fn claimed_name(plugins: Seq<PluginBindings>, c: (int, bool, int)) -> Seq<char> {
    if c.1 {
        plugins[c.0].views@[c.2]@
    } else {
        plugins[c.0].modules@[c.2]@
    }
}

/// What is wrong with claim `i`, if anything: its name is already the
/// application's, or an earlier plugin's of the same kind.
pub open spec fn claim_error(
    app_modules: Seq<String>,
    app_views: Seq<String>,
    plugins: Seq<PluginBindings>,
    claims: Seq<(int, bool, int)>,
    i: int,
) -> Option<Seq<char>> {
    let c = claims[i];
    let name = claimed_name(plugins, c);
    let taken = (exists|j: int| 0 <= j < (if c.1 { app_views.len() } else { app_modules.len() }) && (if c.1 {
        app_views[j]@
    } else {
        app_modules[j]@
    }) == name) || (exists|j: int| 0 <= j < i && #[trigger] claims[j].1 == c.1 && claimed_name(plugins, claims[j]) == name);
    if taken {
        Some("duplicate native "@ + (if c.1 { "view"@ } else { "module"@ }) + " name "@ + debug_quoted(name)
            + " introduced by plugin "@ + plugins[c.0].package@)
    } else {
        None
    }
}

/// The first error among the first `n` claims.
pub open spec fn claims_error(
    app_modules: Seq<String>,
    app_views: Seq<String>,
    plugins: Seq<PluginBindings>,
    claims: Seq<(int, bool, int)>,
    n: int,
) -> Option<Seq<char>>
    decreases n,
{
    if n <= 0 {
        None
    } else if claims_error(app_modules, app_views, plugins, claims, n - 1) is Some {
        claims_error(app_modules, app_views, plugins, claims, n - 1)
    } else {
        claim_error(app_modules, app_views, plugins, claims, n - 1)
    }
}

proof fn lemma_claims_error_settles(
    app_modules: Seq<String>,
    app_views: Seq<String>,
    plugins: Seq<PluginBindings>,
    claims: Seq<(int, bool, int)>,
    m: int,
    n: int,
)
    requires
        0 <= m <= n,
        claims_error(app_modules, app_views, plugins, claims, m) is Some,
    ensures
        claims_error(app_modules, app_views, plugins, claims, n) == claims_error(app_modules, app_views, plugins, claims, m),
    decreases n - m,
{
    if m < n {
        lemma_claims_error_settles(app_modules, app_views, plugins, claims, m, n - 1);
    }
}

fn claims_list(plugins: &Vec<PluginBindings>) -> (r: Vec<(usize, bool, usize)>)
    ensures
        r@.map_values(|c: (usize, bool, usize)| (c.0 as int, c.1, c.2 as int)) == claims_upto(plugins@, plugins@.len() as int),
{
    let mut out: Vec<(usize, bool, usize)> = Vec::new();
    let mut p: usize = 0;
    while p < plugins.len()
        invariant
            p <= plugins@.len(),
            out@.map_values(|c: (usize, bool, usize)| (c.0 as int, c.1, c.2 as int)) == claims_upto(plugins@, p as int),
        decreases plugins.len() - p,
    {
        let ghost start = claims_upto(plugins@, p as int);
        let mut i: usize = 0;
        while i < plugins[p].modules.len()
            invariant
                p < plugins@.len(),
                i <= plugins@[p as int].modules@.len(),
                out@.map_values(|c: (usize, bool, usize)| (c.0 as int, c.1, c.2 as int)) == start + Seq::new(
                    i as nat,
                    |j: int| (p as int, false, j),
                ),
            decreases plugins[p as int].modules@.len() - i,
        {
            let ghost before = out@;
            out.push((p, false, i));
            proof {
                let f = |c: (usize, bool, usize)| (c.0 as int, c.1, c.2 as int);
                assert(out@.map_values(f) =~= before.map_values(f).push((p as int, false, i as int)));
                assert(Seq::new((i + 1) as nat, |j: int| (p as int, false, j)) =~= Seq::new(i as nat, |j: int| (p as int, false, j)).push(
                    (p as int, false, i as int),
                ));
                assert(out@.map_values(f) =~= start + Seq::new((i + 1) as nat, |j: int| (p as int, false, j)));
            }
            i = i + 1;
        }
        let ghost middle = start + Seq::new(plugins@[p as int].modules@.len(), |j: int| (p as int, false, j));
        let mut i: usize = 0;
        while i < plugins[p].views.len()
            invariant
                p < plugins@.len(),
                i <= plugins@[p as int].views@.len(),
                out@.map_values(|c: (usize, bool, usize)| (c.0 as int, c.1, c.2 as int)) == middle + Seq::new(
                    i as nat,
                    |j: int| (p as int, true, j),
                ),
            decreases plugins[p as int].views@.len() - i,
        {
            let ghost before = out@;
            out.push((p, true, i));
            proof {
                let f = |c: (usize, bool, usize)| (c.0 as int, c.1, c.2 as int);
                assert(out@.map_values(f) =~= before.map_values(f).push((p as int, true, i as int)));
                assert(Seq::new((i + 1) as nat, |j: int| (p as int, true, j)) =~= Seq::new(i as nat, |j: int| (p as int, true, j)).push(
                    (p as int, true, i as int),
                ));
                assert(out@.map_values(f) =~= middle + Seq::new((i + 1) as nat, |j: int| (p as int, true, j)));
            }
            i = i + 1;
        }
        proof {
            assert(claims_upto(plugins@, p + 1) =~= middle + Seq::new(plugins@[p as int].views@.len(), |j: int| (p as int, true, j)));
        }
        p = p + 1;
    }
    out
}

fn name_of<'a>(plugins: &'a Vec<PluginBindings>, c: (usize, bool, usize)) -> (r: &'a str)
    requires
        c.0 < plugins@.len(),
        c.1 ==> c.2 < plugins@[c.0 as int].views@.len(),
        !c.1 ==> c.2 < plugins@[c.0 as int].modules@.len(),
    ensures
        r@ == claimed_name(plugins@, (c.0 as int, c.1, c.2 as int)),
{
    if c.1 {
        plugins[c.0].views[c.2].as_str()
    } else {
        plugins[c.0].modules[c.2].as_str()
    }
}

/// Rejects a module or view name that a plugin takes when the application or
/// an earlier plugin already has it; plugins are checked in the given order,
/// each with its modules before its views.
#[verifier::loop_isolation(false)]
pub fn validate_plugin_bindings(app_modules: &Vec<String>, app_views: &Vec<String>, plugins: &Vec<PluginBindings>) -> (r:
    Result<(), String>)
    ensures
        ({
            let claims = claims_upto(plugins@, plugins@.len() as int);
            match r {
                Ok(()) => claims_error(app_modules@, app_views@, plugins@, claims, claims.len() as int) is None,
                Err(e) => claims_error(app_modules@, app_views@, plugins@, claims, claims.len() as int) == Some(e@),
            }
        }),
{
    let list = claims_list(plugins);
    let ghost claims = claims_upto(plugins@, plugins@.len() as int);
    assert(claims.len() == list@.len());
    proof {
        assert forall|i: int| 0 <= i < claims.len() implies {
            let c = #[trigger] claims[i];
            &&& 0 <= c.0 < plugins@.len()
            &&& c.1 ==> 0 <= c.2 < plugins@[c.0].views@.len()
            &&& !c.1 ==> 0 <= c.2 < plugins@[c.0].modules@.len()
        } by {
            lemma_claims_in_range(plugins@, plugins@.len() as int, i);
        }
    }
    let n = list.len();
    let mut i: usize = 0;
    while i < n
        invariant
            n == list@.len(),
            i <= n,
            claims_error(app_modules@, app_views@, plugins@, claims, i as int) is None,
        decreases n - i,
    {
        let c = list[i];
        assert(claims[i as int] == (c.0 as int, c.1, c.2 as int));
        let name = name_of(plugins, c);
        let app = if c.1 {
            app_views
        } else {
            app_modules
        };
        let mut taken = false;
        let mut j: usize = 0;
        while j < app.len() && !taken
            invariant
                j <= app@.len(),
                taken ==> exists|q: int| 0 <= q < app@.len() && app@[q]@ == name@,
                !taken ==> forall|q: int| 0 <= q < j ==> app@[q]@ != name@,
            decreases app.len() - j,
        {
            if str_eq(app[j].as_str(), name) {
                taken = true;
            }
            j = j + 1;
        }
        let mut j: usize = 0;
        while j < i && !taken
            invariant
                j <= i,
                taken ==> (exists|q: int| 0 <= q < app@.len() && app@[q]@ == name@) || (exists|q: int|
                    0 <= q < i && #[trigger] claims[q].1 == c.1 && claimed_name(plugins@, claims[q]) == name@),
                !taken ==> forall|q: int| 0 <= q < app@.len() ==> app@[q]@ != name@,
                !taken ==> forall|q: int| 0 <= q < j ==> !(#[trigger] claims[q].1 == c.1 && claimed_name(plugins@, claims[q]) == name@),
            decreases i - j,
        {
            let d = list[j];
            assert(claims[j as int] == (d.0 as int, d.1, d.2 as int));
            if d.1 == c.1 && str_eq(name_of(plugins, d), name) {
                taken = true;
            }
            j = j + 1;
        }
        if taken {
            let mut m = String::from_str("duplicate native ");
            m.append(if c.1 {
                "view"
            } else {
                "module"
            });
            m.append(" name ");
            m.append(quoted(name).as_str());
            m.append(" introduced by plugin ");
            m.append(plugins[c.0].package.as_str());
            proof {
                assert(claim_error(app_modules@, app_views@, plugins@, claims, i as int) == Some(m@));
                lemma_claims_error_settles(app_modules@, app_views@, plugins@, claims, i + 1, n as int);
            }
            return Err(m);
        }
        assert(claim_error(app_modules@, app_views@, plugins@, claims, i as int) is None);
        i = i + 1;
    }
    Ok(())
}

proof fn lemma_claims_in_range(plugins: Seq<PluginBindings>, n: int, i: int)
    requires
        0 <= n <= plugins.len(),
        0 <= i < claims_upto(plugins, n).len(),
    ensures
        ({
            let c = claims_upto(plugins, n)[i];
            &&& 0 <= c.0 < n
            &&& c.1 ==> 0 <= c.2 < plugins[c.0].views@.len()
            &&& !c.1 ==> 0 <= c.2 < plugins[c.0].modules@.len()
        }),
    decreases n,
{
    if n > 0 {
        let prior = claims_upto(plugins, n - 1);
        if i < prior.len() {
            lemma_claims_in_range(plugins, n - 1, i);
        }
    }
}

} // verus!
