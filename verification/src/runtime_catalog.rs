//! The catalog of Android PHP runtimes a Pam Native SDK ships, and how a
//! project's PHP series picks one.

use vstd::prelude::*;
use crate::text::{str_eq, concat_str, push_decimal_text, decimal_text};

verus! {

/// One runtime build of the catalog.
pub struct RuntimeRelease {
    pub php_version: String,
    pub runtime_revision: u32,
    pub source_url: String,
    pub source_sha256: String,
    pub android_api: u32,
    pub ndk_version: String,
    pub extensions: Vec<String>,
}

/// The runtime catalog: the default channel, the release id of each PHP
/// series, and the releases by id (each key once, as the catalog's JSON
/// objects hold them).
pub struct RuntimeCatalog {
    pub schema_version: u32,
    pub default: String,
    pub channels: Vec<(String, String)>,
    pub releases: Vec<(String, RuntimeRelease)>,
}

/// Where `key` first stands among the keys of `pairs`.
pub open spec fn key_position<V>(pairs: Seq<(String, V)>, key: Seq<char>) -> Option<int>
    decreases pairs.len(),
{
    if pairs.len() == 0 {
        None
    } else {
        match key_position(pairs.drop_last(), key) {
            Some(i) => Some(i),
            None => if pairs.last().0@ == key {
                Some(pairs.len() - 1)
            } else {
                None
            },
        }
    }
}

proof fn lemma_key_position<V>(pairs: Seq<(String, V)>, key: Seq<char>, n: int)
    requires
        0 <= n <= pairs.len(),
        forall|k: int| 0 <= k < n ==> (#[trigger] pairs[k]).0@ != key,
    ensures
        key_position(pairs.take(n), key) is None,
        n < pairs.len() && pairs[n].0@ == key ==> key_position(pairs.take(n + 1), key) == Some(n),
    decreases n,
{
    if n > 0 {
        assert(pairs.take(n).drop_last() =~= pairs.take(n - 1));
        lemma_key_position(pairs, key, n - 1);
    }
    if n < pairs.len() {
        assert(pairs.take(n + 1).drop_last() =~= pairs.take(n));
    }
}

proof fn lemma_key_position_prefix<V>(pairs: Seq<(String, V)>, key: Seq<char>, n: int)
    requires
        0 <= n <= pairs.len(),
        key_position(pairs.take(n), key) is Some,
    ensures
        key_position(pairs, key) == key_position(pairs.take(n), key),
    decreases pairs.len() - n,
{
    if n < pairs.len() {
        assert(pairs.take(n + 1).drop_last() =~= pairs.take(n));
        lemma_key_position_prefix(pairs, key, n + 1);
    } else {
        assert(pairs.take(n) =~= pairs);
    }
}

fn find_key<V>(pairs: &Vec<(String, V)>, key: &str) -> (r: Option<usize>)
    ensures
        match (r, key_position(pairs@, key@)) {
            (Some(i), Some(j)) => i == j && i < pairs@.len(),
            (None, None) => true,
            _ => false,
        },
{
    let mut i: usize = 0;
    while i < pairs.len()
        invariant
            i <= pairs@.len(),
            forall|k: int| 0 <= k < i ==> (#[trigger] pairs@[k]).0@ != key@,
        decreases pairs.len() - i,
    {
        if str_eq(pairs[i].0.as_str(), key) {
            proof {
                lemma_key_position(pairs@, key@, i as int);
                lemma_key_position_prefix(pairs@, key@, i + 1);
            }
            return Some(i);
        }
        i = i + 1;
    }
    proof {
        lemma_key_position(pairs@, key@, pairs@.len() as int);
        assert(pairs@.take(pairs@.len() as int) =~= pairs@);
    }
    None
}

/// Why a catalog cannot be used, if it cannot: schema 1 and a default that
/// names a channel.
pub open spec fn catalog_error(c: RuntimeCatalog) -> Option<Seq<char>> {
    if c.schema_version != 1 {
        Some("unsupported runtime catalog schema "@ + decimal_text(c.schema_version as nat) + "; expected 1"@)
    } else if key_position(c.channels@, c.default@) is None {
        Some("runtime catalog default does not name a channel"@)
    } else {
        None
    }
}

/// Checks a runtime catalog read from the SDK.
pub fn check_runtime_catalog(catalog: &RuntimeCatalog) -> (r: Result<(), String>)
    ensures
        match r {
            Ok(()) => catalog_error(*catalog) is None,
            Err(e) => catalog_error(*catalog) == Some(e@),
        },
{
    if catalog.schema_version != 1 {
        let mut e = String::from_str("unsupported runtime catalog schema ");
        push_decimal_text(&mut e, catalog.schema_version as u64);
        e.append("; expected 1");
        return Err(e);
    }
    if find_key(&catalog.channels, catalog.default.as_str()).is_none() {
        return Err(String::from_str("runtime catalog default does not name a channel"));
    }
    Ok(())
}

/// The runtime a PHP series picks: the release id its channel names and the
/// release's position, or why there is none.
pub open spec fn runtime_choice(c: RuntimeCatalog, php: Seq<char>, channel: Seq<char>) -> Result<
    (Seq<char>, int),
    Seq<char>,
> {
    match key_position(c.channels@, php) {
        None => Err("PHP "@ + php + " has no "@ + channel + " runtime in this Pam Native SDK"@),
        Some(i) => match key_position(c.releases@, c.channels@[i].1@) {
            None => Err("runtime catalog points to missing release "@ + c.channels@[i].1@),
            Some(j) => Ok((c.channels@[i].1@, j)),
        },
    }
}

/// Picks the runtime for a project's PHP series (`channel` only names it in
/// the error): the release id and where the release stands in the catalog.
pub fn resolve_runtime_release(catalog: &RuntimeCatalog, php: &str, channel: &str) -> (r: Result<
    (String, usize),
    String,
>)
    ensures
        match (r, runtime_choice(*catalog, php@, channel@)) {
            (Ok((id, j)), Ok((jd, k))) => id@ == jd && j == k && j < catalog.releases@.len(),
            (Err(e), Err(m)) => e@ == m,
            _ => false,
        },
{
    let i = match find_key(&catalog.channels, php) {
        None => {
            let mut e = concat_str("PHP ", php);
            e.append(" has no ");
            e.append(channel);
            e.append(" runtime in this Pam Native SDK");
            return Err(e);
        },
        Some(i) => i,
    };
    let id = catalog.channels[i].1.clone();
    match find_key(&catalog.releases, id.as_str()) {
        None => Err(concat_str("runtime catalog points to missing release ", id.as_str())),
        Some(j) => Ok((id, j)),
    }
}

/// Accepts the PHP series a project may switch to: 8.4 or 8.5.
pub fn check_php_series(php: &str) -> (r: Result<(), String>)
    ensures
        r.is_ok() == (php@ == "8.4"@ || php@ == "8.5"@),
        r matches Err(e) ==> e@ == "PHP runtime must be 8.4 or 8.5"@,
{
    if str_eq(php, "8.4") || str_eq(php, "8.5") {
        Ok(())
    } else {
        Err(String::from_str("PHP runtime must be 8.4 or 8.5"))
    }
}

} // verus!
