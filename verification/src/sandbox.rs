//! The capability sandbox of packages: what a capability manifest grants,
//! and the filesystem and system-call rules that enforce it.

use vstd::prelude::*;
use crate::paths::{ascending_paths, is_resolved_path, insert_paths};
use crate::text::{split_on, split_ranges};
use crate::text::{str_eq, chars_of, concat_str, quoted, debug_quoted, push_decimal_text, decimal_text,
    is_ascii_alnum, ascii_alnum};

verus! {

pub const CAPABILITY_FILESYSTEM_READ: u8 = 1;
pub const CAPABILITY_FILESYSTEM_WRITE: u8 = 2;
pub const CAPABILITY_NETWORK: u8 = 3;
pub const CAPABILITY_PROCESS: u8 = 4;
pub const CAPABILITY_ENVIRONMENT: u8 = 5;

/// One capability of a manifest: its kind and the resources it names.
#[derive(Clone, Debug)]
pub struct Capability {
    pub kind: u8,
    pub resources: Vec<String>,
}

/// The resources granted per capability kind, in manifest order.
#[derive(Clone, Debug)]
pub struct CapabilityResources {
    pub read: Vec<String>,
    pub write: Vec<String>,
    pub network: Vec<String>,
    pub process: Vec<String>,
    pub environment: Vec<String>,
}

pub open spec fn texts(items: Seq<String>) -> Seq<Seq<char>> {
    items.map_values(|s: String| s@)
}

/// The resources of all capabilities of one kind, in order.
pub open spec fn resources_of(capabilities: Seq<Capability>, kind: u8) -> Seq<Seq<char>>
    decreases capabilities.len(),
{
    if capabilities.len() == 0 {
        Seq::empty()
    } else {
        resources_of(capabilities.drop_last(), kind) + if capabilities.last().kind == kind {
            texts(capabilities.last().resources@)
        } else {
            Seq::empty()
        }
    }
}

/// The first capability kind outside 1 to 5, if any.
pub open spec fn unknown_kind(capabilities: Seq<Capability>) -> Option<u8>
    decreases capabilities.len(),
{
    if capabilities.len() == 0 {
        None
    } else {
        match unknown_kind(capabilities.drop_last()) {
            Some(k) => Some(k),
            None => if 1 <= capabilities.last().kind <= 5 { None } else { Some(capabilities.last().kind) },
        }
    }
}

fn append_all(out: &mut Vec<String>, items: &Vec<String>)
    ensures
        texts(final(out)@) == texts(old(out)@) + texts(items@),
{
    let mut i: usize = 0;
    while i < items.len()
        invariant
            i <= items@.len(),
            texts(out@) == texts(old(out)@) + texts(items@.take(i as int)),
        decreases items.len() - i,
    {
        let ghost prev = out@;
        out.push(String::from_str(items[i].as_str()));
        proof {
            assert(texts(out@) =~= texts(prev).push(items@[i as int]@));
            assert(texts(items@.take(i + 1)) =~= texts(items@.take(i as int)).push(items@[i as int]@));
            assert(texts(out@) =~= texts(old(out)@) + texts(items@.take(i + 1)));
        }
        i = i + 1;
    }
    assert(items@.take(items@.len() as int) =~= items@);
}

/// Groups the resources of a manifest's capabilities by kind, refusing an
/// unknown kind.
pub fn collect_capabilities(capabilities: &Vec<Capability>) -> (r: Result<CapabilityResources, String>)
    ensures
        match r {
            Ok(groups) => unknown_kind(capabilities@) is None
                && texts(groups.read@) == resources_of(capabilities@, 1)
                && texts(groups.write@) == resources_of(capabilities@, 2)
                && texts(groups.network@) == resources_of(capabilities@, 3)
                && texts(groups.process@) == resources_of(capabilities@, 4)
                && texts(groups.environment@) == resources_of(capabilities@, 5),
            Err(e) => unknown_kind(capabilities@) matches Some(k) && e@ == "unknown capability kind "@
                + decimal_text(k as nat) + "; expected an integer from 1 to 5"@,
        },
{
    let mut groups = CapabilityResources {
        read: Vec::new(),
        write: Vec::new(),
        network: Vec::new(),
        process: Vec::new(),
        environment: Vec::new(),
    };
    let mut i: usize = 0;
    while i < capabilities.len()
        invariant
            i <= capabilities@.len(),
            unknown_kind(capabilities@.take(i as int)) is None,
            texts(groups.read@) == resources_of(capabilities@.take(i as int), 1),
            texts(groups.write@) == resources_of(capabilities@.take(i as int), 2),
            texts(groups.network@) == resources_of(capabilities@.take(i as int), 3),
            texts(groups.process@) == resources_of(capabilities@.take(i as int), 4),
            texts(groups.environment@) == resources_of(capabilities@.take(i as int), 5),
        decreases capabilities.len() - i,
    {
        let capability = &capabilities[i];
        proof {
            let next = capabilities@.take(i + 1);
            assert(next.drop_last() =~= capabilities@.take(i as int));
            assert(next.last() == capabilities@[i as int]);
        }
        if capability.kind < 1 || capability.kind > 5 {
            proof {
                lemma_unknown_kind_persists(capabilities@, i + 1);
            }
            let mut message = String::from_str("unknown capability kind ");
            push_decimal_text(&mut message, capability.kind as u64);
            message.append("; expected an integer from 1 to 5");
            return Err(message);
        }
        if capability.kind == 1 {
            append_all(&mut groups.read, &capability.resources);
        } else if capability.kind == 2 {
            append_all(&mut groups.write, &capability.resources);
        } else if capability.kind == 3 {
            append_all(&mut groups.network, &capability.resources);
        } else if capability.kind == 4 {
            append_all(&mut groups.process, &capability.resources);
        } else {
            append_all(&mut groups.environment, &capability.resources);
        }
        proof {
            let next = capabilities@.take(i + 1);
            assert(resources_of(next, 1) =~= resources_of(capabilities@.take(i as int), 1) + if capability.kind == 1 {
                texts(capability.resources@) } else { Seq::empty() });
        }
        i = i + 1;
    }
    assert(capabilities@.take(capabilities@.len() as int) =~= capabilities@);
    Ok(groups)
}

proof fn lemma_unknown_kind_persists(capabilities: Seq<Capability>, n: int)
    requires
        0 <= n <= capabilities.len(),
        unknown_kind(capabilities.take(n)) is Some,
    ensures
        unknown_kind(capabilities) == unknown_kind(capabilities.take(n)),
    decreases capabilities.len() - n,
{
    if n < capabilities.len() {
        assert(capabilities.take(n + 1).drop_last() =~= capabilities.take(n));
        lemma_unknown_kind_persists(capabilities, n + 1);
    } else {
        assert(capabilities.take(n) =~= capabilities);
    }
}

/// Network and process capabilities can only be granted whole: no resources
/// deny, exactly `["*"]` allows, anything else is refused.
pub fn wildcard_or_absent(name: &str, resources: &Vec<String>) -> (r: Result<bool, String>)
    ensures
        match r {
            Ok(allowed) => (resources@.len() == 0 && !allowed)
                || (resources@.len() == 1 && resources@[0]@ == "*"@ && allowed),
            Err(e) => !(resources@.len() == 0 || (resources@.len() == 1 && resources@[0]@ == "*"@))
                && e@ == name@ + " capabilities currently require exactly [\"*\"]; selective "@ + name@
                    + " access needs the PAM broker and is denied closed"@,
        },
{
    if resources.len() == 0 {
        return Ok(false);
    }
    if resources.len() == 1 && str_eq(resources[0].as_str(), "*") {
        return Ok(true);
    }
    let mut message = concat_str(name, " capabilities currently require exactly [\"*\"]; selective ");
    message.append(name);
    message.append(" access needs the PAM broker and is denied closed");
    Err(message)
}

/// An environment variable name a capability may keep: non-empty ASCII
/// letters, digits and `_`.
pub open spec fn is_environment_name(v: Seq<char>) -> bool {
    v.len() > 0 && forall|i: int| 0 <= i < v.len() ==> is_ascii_alnum(#[trigger] v[i]) || v[i] == '_'
}

fn environment_name(value: &str) -> (r: bool)
    ensures
        r == is_environment_name(value@),
{
    let chars = chars_of(value);
    if chars.len() == 0 {
        return false;
    }
    let mut i: usize = 0;
    while i < chars.len()
        invariant
            chars@ == value@,
            i <= chars@.len(),
            forall|k: int| 0 <= k < i ==> is_ascii_alnum(#[trigger] chars@[k]) || chars@[k] == '_',
        decreases chars.len() - i,
    {
        if !(ascii_alnum(chars[i]) || chars[i] == '_') {
            return false;
        }
        i = i + 1;
    }
    true
}

/// The first invalid environment name, if any.
pub open spec fn first_invalid_name(names: Seq<Seq<char>>) -> Option<Seq<char>>
    decreases names.len(),
{
    if names.len() == 0 {
        None
    } else {
        match first_invalid_name(names.drop_last()) {
            Some(n) => Some(n),
            None => if is_environment_name(names.last()) { None } else { Some(names.last()) },
        }
    }
}

/// Each distinct item in order of first appearance.
pub open spec fn distinct_in_order(items: Seq<Seq<char>>) -> Seq<Seq<char>>
    decreases items.len(),
{
    if items.len() == 0 {
        Seq::empty()
    } else if distinct_in_order(items.drop_last()).contains(items.last()) {
        distinct_in_order(items.drop_last())
    } else {
        distinct_in_order(items.drop_last()).push(items.last())
    }
}

fn contains_text(items: &Vec<String>, value: &str) -> (r: bool)
    ensures
        r == texts(items@).contains(value@),
{
    let mut i: usize = 0;
    while i < items.len()
        invariant
            i <= items@.len(),
            forall|k: int| 0 <= k < i ==> texts(items@)[k] != value@,
        decreases items.len() - i,
    {
        if str_eq(items[i].as_str(), value) {
            assert(texts(items@)[i as int] == value@);
            return true;
        }
        i = i + 1;
    }
    false
}

fn distinct_texts(items: &Vec<String>) -> (r: Vec<String>)
    ensures
        texts(r@) == distinct_in_order(texts(items@)),
{
    let mut out: Vec<String> = Vec::new();
    let mut i: usize = 0;
    while i < items.len()
        invariant
            i <= items@.len(),
            texts(out@) == distinct_in_order(texts(items@.take(i as int))),
        decreases items.len() - i,
    {
        proof {
            assert(texts(items@.take(i + 1)).drop_last() =~= texts(items@.take(i as int)));
            assert(texts(items@.take(i + 1)).last() == items@[i as int]@);
        }
        if !contains_text(&out, items[i].as_str()) {
            let ghost before = out@;
            out.push(String::from_str(items[i].as_str()));
            assert(texts(out@) =~= texts(before).push(items@[i as int]@));
        }
        i = i + 1;
    }
    assert(items@.take(items@.len() as int) =~= items@);
    out
}

/// The environment variables a policy keeps: every name must be valid; each
/// is kept once.
pub fn environment_names(names: &Vec<String>) -> (r: Result<Vec<String>, String>)
    ensures
        match r {
            Ok(kept) => first_invalid_name(texts(names@)) is None && texts(kept@) == distinct_in_order(texts(names@)),
            Err(e) => first_invalid_name(texts(names@)) matches Some(n) && e@ == "invalid environment capability "@
                + debug_quoted(n),
        },
{
    let mut i: usize = 0;
    while i < names.len()
        invariant
            i <= names@.len(),
            first_invalid_name(texts(names@.take(i as int))) is None,
        decreases names.len() - i,
    {
        proof {
            assert(texts(names@.take(i + 1)).drop_last() =~= texts(names@.take(i as int)));
            assert(texts(names@.take(i + 1)).last() == names@[i as int]@);
        }
        if !environment_name(names[i].as_str()) {
            proof {
                lemma_invalid_name_persists(texts(names@), i + 1);
                assert(texts(names@.take(i + 1)) =~= texts(names@).take(i + 1));
            }
            let shown = quoted(names[i].as_str());
            return Err(concat_str("invalid environment capability ", shown.as_str()));
        }
        i = i + 1;
    }
    assert(names@.take(names@.len() as int) =~= names@);
    Ok(distinct_texts(names))
}

proof fn lemma_invalid_name_persists(names: Seq<Seq<char>>, n: int)
    requires
        0 <= n <= names.len(),
        first_invalid_name(names.take(n)) is Some,
    ensures
        first_invalid_name(names) == first_invalid_name(names.take(n)),
    decreases names.len() - n,
{
    if n < names.len() {
        assert(names.take(n + 1).drop_last() =~= names.take(n));
        lemma_invalid_name_persists(names, n + 1);
    } else {
        assert(names.take(n) =~= names);
    }
}

/// A filesystem resource names a path relative to the sandbox root: no
/// root and no `..` component.
pub open spec fn is_relative_resource(r: Seq<char>) -> bool {
    &&& (r.len() == 0 || r[0] != '/')
    &&& forall|i: int| 0 <= i < split_on(r, '/').len() ==> #[trigger] split_on(r, '/')[i] != seq!['.', '.']
}

fn relative_resource(resource: &str) -> (r: bool)
    ensures
        r == is_relative_resource(resource@),
{
    let chars = chars_of(resource);
    let n = chars.len();
    if n > 0 && chars[0] == '/' {
        return false;
    }
    let parts = split_ranges(chars.as_slice(), 0, n, '/');
    assert(chars@.subrange(0, n as int) =~= resource@);
    let mut i: usize = 0;
    while i < parts.len()
        invariant
            n == chars@.len(),
            chars@ == resource@,
            chars@.subrange(0, n as int) == resource@,
            parts@.len() == split_on(resource@, '/').len(),
            forall|k: int| 0 <= k < parts@.len() ==> {
                &&& 0 <= (#[trigger] parts@[k]).0 <= parts@[k].1 <= n
                &&& chars@.subrange(parts@[k].0 as int, parts@[k].1 as int) == split_on(resource@, '/')[k]
            },
            i <= parts@.len(),
            forall|k: int| 0 <= k < i ==> #[trigger] split_on(resource@, '/')[k] != seq!['.', '.'],
        decreases parts.len() - i,
    {
        let (from, to) = parts[i];
        let ghost part = split_on(resource@, '/')[i as int];
        assert(part == chars@.subrange(from as int, to as int));
        if to - from == 2 && chars[from] == '.' && chars[from + 1] == '.' {
            assert(part =~= seq!['.', '.']);
            return false;
        }
        assert(part != seq!['.', '.']) by {
            if part.len() == 2 {
                assert(part[0] == chars@[from as int]);
                assert(part[1] == chars@[from + 1]);
            }
        }
        i = i + 1;
    }
    true
}

/// Whether a resolved path lies at or beneath a resolved root, component by
/// component.
pub open spec fn is_beneath(path: Seq<char>, root: Seq<char>) -> bool {
    ||| root == seq!['/']
    ||| path == root
    ||| (path.len() > root.len() && path.take(root.len() as int) == root && path[root.len() as int] == '/')
}

fn beneath(path: &str, root: &str) -> (r: bool)
    ensures
        r == is_beneath(path@, root@),
{
    let p = chars_of(path);
    let q = chars_of(root);
    if q.len() == 1 && q[0] == '/' {
        assert(root@ =~= seq!['/']);
        return true;
    }
    assert(root@ != seq!['/']) by {
        if root@ == seq!['/'] {
            assert(q@.len() == 1 && q@[0] == '/');
        }
    }
    if str_eq(path, root) {
        return true;
    }
    if p.len() <= q.len() {
        return false;
    }
    let mut i: usize = 0;
    while i < q.len()
        invariant
            p@ == path@,
            q@ == root@,
            q@.len() < p@.len(),
            root@ != seq!['/'],
            i <= q@.len(),
            forall|k: int| 0 <= k < i ==> p@[k] == q@[k],
        decreases q.len() - i,
    {
        if p[i] != q[i] {
            assert(path@.take(root@.len() as int)[i as int] != root@[i as int]);
            return false;
        }
        i = i + 1;
    }
    assert(path@.take(root@.len() as int) =~= root@);
    p[q.len()] == '/'
}

pub open spec fn resolution_text(r: Result<String, String>) -> Seq<char> {
    match r {
        Ok(p) => p@,
        Err(e) => e@,
    }
}

/// Why one filesystem resource cannot be granted, given what resolving it
/// beneath the root gave (its canonical path, or the error's text).
pub open spec fn resource_refusal(root: Seq<char>, resource: Seq<char>, resolved: Result<String, String>) -> Option<Seq<char>> {
    if !is_relative_resource(resource) {
        Some("sandbox filesystem resource must be relative: "@ + debug_quoted(resource))
    } else {
        match resolved {
            Err(e) => Some("cannot resolve sandbox filesystem resource "@ + debug_quoted(resource) + ": "@ + e@),
            Ok(p) => if is_beneath(p@, root) {
                None
            } else {
                Some("sandbox filesystem resource escapes its root: "@ + debug_quoted(resource))
            },
        }
    }
}

/// The first refusal among the first `n` resources.
pub open spec fn first_resource_refusal(root: Seq<char>, resources: Seq<Seq<char>>, resolved: Seq<Result<String, String>>, n: nat) -> Option<
    Seq<char>,
>
    decreases n,
{
    if n == 0 {
        None
    } else {
        match first_resource_refusal(root, resources, resolved, (n - 1) as nat) {
            Some(e) => Some(e),
            None => resource_refusal(root, resources[n - 1], resolved[n - 1]),
        }
    }
}

/// The paths a filesystem capability grants: each resource must be
/// relative, resolve, and stay beneath the root; the resolved paths are
/// kept in path order, each once.
pub fn policy_paths(root: &str, resources: &Vec<String>, resolved: &Vec<Result<String, String>>) -> (r: Result<Vec<String>, String>)
    requires
        resolved@.len() == resources@.len(),
        forall|i: int| 0 <= i < resolved@.len() ==> (#[trigger] resolved@[i] matches Ok(p) ==> is_resolved_path(p@)),
    ensures
        match first_resource_refusal(root@, texts(resources@), resolved@, resources@.len()) {
            Some(e) => r matches Err(m) && m@ == e,
            None => r matches Ok(paths) && ascending_paths(texts(paths@))
                && texts(paths@).to_set() == resolved@.map_values(|x: Result<String, String>| resolution_text(x)).to_set(),
        },
        r matches Ok(paths) ==> forall|i: int| 0 <= i < paths@.len() ==> is_resolved_path(#[trigger] paths@[i]@),
{
    let mut accepted: Vec<String> = Vec::new();
    let mut i: usize = 0;
    while i < resources.len()
        invariant
            resolved@.len() == resources@.len(),
            i <= resources@.len(),
            first_resource_refusal(root@, texts(resources@), resolved@, i as nat) is None,
            texts(accepted@) == resolved@.take(i as int).map_values(|x: Result<String, String>| resolution_text(x)),
            forall|k: int| 0 <= k < accepted@.len() ==> is_resolved_path(#[trigger] texts(accepted@)[k]),
            forall|k: int| 0 <= k < resolved@.len() ==> (#[trigger] resolved@[k] matches Ok(p) ==> is_resolved_path(p@)),
        decreases resources.len() - i,
    {
        let resource = resources[i].as_str();
        proof {
            assert(texts(resources@)[i as int] == resource@);
        }
        if !relative_resource(resource) {
            proof { lemma_resource_refusal_persists(root@, texts(resources@), resolved@, (i + 1) as nat, resources@.len() as nat); }
            let shown = quoted(resource);
            return Err(concat_str("sandbox filesystem resource must be relative: ", shown.as_str()));
        }
        match &resolved[i] {
            Err(error) => {
                proof { lemma_resource_refusal_persists(root@, texts(resources@), resolved@, (i + 1) as nat, resources@.len() as nat); }
                let shown = quoted(resource);
                let mut message = concat_str("cannot resolve sandbox filesystem resource ", shown.as_str());
                message.append(": ");
                message.append(error.as_str());
                return Err(message);
            },
            Ok(path) => {
                if !beneath(path.as_str(), root) {
                    proof { lemma_resource_refusal_persists(root@, texts(resources@), resolved@, (i + 1) as nat, resources@.len() as nat); }
                    let shown = quoted(resource);
                    return Err(concat_str("sandbox filesystem resource escapes its root: ", shown.as_str()));
                }
                let ghost before = accepted@;
                accepted.push(String::from_str(path.as_str()));
                proof {
                    assert(resolved@[i as int] matches Ok(p) ==> is_resolved_path(p@));
                    assert(resolved@.take(i + 1) =~= resolved@.take(i as int).push(resolved@[i as int]));
                    assert(texts(accepted@) =~= texts(before).push(path@));
                }
            },
        }
        i = i + 1;
    }
    assert(resolved@.take(resolved@.len() as int) =~= resolved@);
    let mut paths: Vec<String> = Vec::new();
    proof {
        assert(texts(paths@) =~= Seq::<Seq<char>>::empty());
        assert(texts(paths@).to_set() =~= Set::<Seq<char>>::empty());
    }
    insert_paths(&mut paths, &accepted);
    assert(texts(paths@).to_set() =~= texts(accepted@).to_set());
    proof {
        assert forall|i: int| 0 <= i < paths@.len() implies is_resolved_path(#[trigger] paths@[i]@) by {
            assert(texts(paths@)[i] == paths@[i]@);
            assert(texts(paths@).to_set().contains(paths@[i]@));
            assert(texts(accepted@).to_set().contains(paths@[i]@));
            let k = choose|k: int| 0 <= k < texts(accepted@).len() && texts(accepted@)[k] == paths@[i]@;
        }
    }
    Ok(paths)
}

proof fn lemma_resource_refusal_persists(root: Seq<char>, resources: Seq<Seq<char>>, resolved: Seq<Result<String, String>>, n: nat, m: nat)
    requires
        n <= m,
        first_resource_refusal(root, resources, resolved, n) is Some,
    ensures
        first_resource_refusal(root, resources, resolved, m) == first_resource_refusal(root, resources, resolved, n),
    decreases m - n,
{
    if n < m {
        lemma_resource_refusal_persists(root, resources, resolved, n, (m - 1) as nat);
    }
}

/// A capability manifest must be of schema 1.
pub fn check_manifest_schema(schema_version: u8) -> (r: Result<(), String>)
    ensures
        schema_version == 1 <==> r is Ok,
        r matches Err(e) ==> e@ == "unsupported capability manifest schema "@ + decimal_text(schema_version as nat),
{
    if schema_version == 1 {
        Ok(())
    } else {
        let mut message = String::from_str("unsupported capability manifest schema ");
        push_decimal_text(&mut message, schema_version as u64);
        Err(message)
    }
}

// ---------------------------------------------------------------------------
// Enforcement

/// A checked capability policy: resolved read and write paths, the kept
/// environment variables, and whether networking and process creation stay.
#[derive(Clone, Debug)]
pub struct Policy {
    read_paths: Vec<String>,
    write_paths: Vec<String>,
    environment: Vec<String>,
    allow_network: bool,
    allow_processes: bool,
}

/// One classic BPF instruction of a seccomp filter.
#[derive(Clone, Copy, Debug, PartialEq, Eq, Structural)]
pub struct FilterInstruction {
    pub code: u16,
    pub jt: u8,
    pub jf: u8,
    pub k: u32,
}

pub const BPF_LD_W_ABS: u16 = 0x20;
pub const BPF_JMP_JEQ_K: u16 = 0x15;
pub const BPF_RET_K: u16 = 0x06;
pub const SECCOMP_RET_ALLOW: u32 = 0x7fff_0000;
pub const SECCOMP_RET_ERRNO_EPERM: u32 = 0x0005_0001;

/// What applying a policy must enforce: the paths that stay readable (the
/// policy's and the runtime support paths that exist, in path order, each
/// once), the writable paths, the names of the environment variables kept,
/// the variable set to mark the sandbox, and the seccomp program (none when
/// nothing is denied; an error when it would not fit).
#[derive(Debug)]
pub struct SandboxPlan {
    pub read_paths: Vec<String>,
    pub write_paths: Vec<String>,
    pub keep_environment: Vec<String>,
    pub marker: (String, String),
    pub filter: Result<Option<Vec<FilterInstruction>>, String>,
}

pub open spec fn increasing(s: Seq<u32>) -> bool {
    forall|i: int, j: int| 0 <= i < j < s.len() ==> s[i] < s[j]
}

/// The system calls a policy denies.
pub open spec fn denied_set(allow_network: bool, allow_processes: bool, process: Seq<u32>, network: Seq<u32>) -> Set<u32> {
    (if allow_processes { Set::empty() } else { process.to_set() }).union(
        if allow_network { Set::empty() } else { network.to_set() })
}

/// The seccomp instructions that deny each call of `denied` with `EPERM`.
pub open spec fn deny_rules(denied: Seq<u32>) -> Seq<FilterInstruction>
    decreases denied.len(),
{
    if denied.len() == 0 {
        Seq::empty()
    } else {
        deny_rules(denied.drop_last()) + seq![
            FilterInstruction { code: BPF_JMP_JEQ_K, jt: 0, jf: 1, k: denied.last() },
            FilterInstruction { code: BPF_RET_K, jt: 0, jf: 0, k: SECCOMP_RET_ERRNO_EPERM },
        ]
    }
}

/// The seccomp program: load the system call number, deny each listed call,
/// allow everything else.
pub open spec fn filter_program(denied: Seq<u32>) -> Seq<FilterInstruction> {
    seq![FilterInstruction { code: BPF_LD_W_ABS, jt: 0, jf: 0, k: 0 }] + deny_rules(denied)
        + seq![FilterInstruction { code: BPF_RET_K, jt: 0, jf: 0, k: SECCOMP_RET_ALLOW }]
}

fn insert_sorted(v: &mut Vec<u32>, x: u32)
    requires
        increasing(old(v)@),
    ensures
        increasing(final(v)@),
        final(v)@.to_set() == old(v)@.to_set().insert(x),
{
    let mut p: usize = 0;
    while p < v.len() && v[p] < x
        invariant
            p <= v@.len(),
            forall|k: int| 0 <= k < p ==> v@[k] < x,
        decreases v.len() - p,
    {
        p = p + 1;
    }
    if p < v.len() && v[p] == x {
        assert(v@.to_set().insert(x) =~= v@.to_set());
        return;
    }
    let ghost before = v@;
    v.insert(p, x);
    proof {
        assert forall|i: int, j: int| 0 <= i < j < v@.len() implies v@[i] < v@[j] by {
            if j < p {
                assert(v@[i] == before[i] && v@[j] == before[j]);
            } else if j == p {
                assert(v@[i] == before[i]);
            } else if i < p {
                assert(v@[j] == before[j - 1]);
                assert(v@[i] == before[i]);
                assert(before[i] < x);
                assert(x <= before[p as int]);
            } else if i == p {
                assert(v@[j] == before[j - 1]);
                assert(x <= before[p as int]);
                assert(x != before[p as int]);
            } else {
                assert(v@[i] == before[i - 1] && v@[j] == before[j - 1]);
            }
        }
        assert forall|y: u32| v@.to_set().contains(y) == before.to_set().insert(x).contains(y) by {
            if v@.contains(y) {
                let k = choose|k: int| 0 <= k < v@.len() && v@[k] == y;
                if k < p {
                    assert(before[k] == y);
                } else if k > p {
                    assert(before[k - 1] == y);
                }
            }
            if before.contains(y) {
                let k = choose|k: int| 0 <= k < before.len() && before[k] == y;
                if k < p {
                    assert(v@[k] == y);
                } else {
                    assert(v@[k + 1] == y);
                }
            }
            if y == x {
                assert(v@[p as int] == x);
            }
        }
        assert(v@.to_set() =~= before.to_set().insert(x));
    }
}

fn insert_all(v: &mut Vec<u32>, items: &Vec<u32>)
    requires
        increasing(old(v)@),
    ensures
        increasing(final(v)@),
        final(v)@.to_set() == old(v)@.to_set().union(items@.to_set()),
{
    let mut i: usize = 0;
    while i < items.len()
        invariant
            i <= items@.len(),
            increasing(v@),
            v@.to_set() == old(v)@.to_set().union(items@.take(i as int).to_set()),
        decreases items.len() - i,
    {
        insert_sorted(v, items[i]);
        proof {
            assert(items@.take(i + 1) =~= items@.take(i as int).push(items@[i as int]));
            items@.take(i as int).lemma_push_to_set_commute(items@[i as int]);
            assert(items@.take(i + 1).to_set() =~= items@.take(i as int).to_set().insert(items@[i as int]));
            assert(v@.to_set() =~= old(v)@.to_set().union(items@.take(i + 1).to_set()));
        }
        i = i + 1;
    }
    assert(items@.take(items@.len() as int) =~= items@);
}

/// The system calls to deny, ascending and each once.
pub fn denied_syscalls(allow_network: bool, allow_processes: bool, process_syscalls: &Vec<u32>, network_syscalls: &Vec<u32>) -> (denied:
    Vec<u32>)
    ensures
        increasing(denied@),
        denied@.to_set() == denied_set(allow_network, allow_processes, process_syscalls@, network_syscalls@),
{
    let mut denied: Vec<u32> = Vec::new();
    assert(denied@.to_set() =~= Set::empty());
    if !allow_processes {
        insert_all(&mut denied, process_syscalls);
    }
    let ghost after_process = denied@.to_set();
    if !allow_network {
        insert_all(&mut denied, network_syscalls);
    }
    assert(denied@.to_set() =~= denied_set(allow_network, allow_processes, process_syscalls@, network_syscalls@));
    denied
}

/// The seccomp program for a policy, or none when nothing is denied.
pub fn syscall_filter(allow_network: bool, allow_processes: bool, process_syscalls: &Vec<u32>, network_syscalls: &Vec<u32>) -> (r:
    Result<Option<Vec<FilterInstruction>>, String>)
    ensures
        exists|denied: Seq<u32>| {
            &&& increasing(denied)
            &&& denied.to_set() == denied_set(allow_network, allow_processes, process_syscalls@, network_syscalls@)
            &&& match r {
                Ok(None) => denied.len() == 0,
                Ok(Some(program)) => denied.len() > 0 && program@ == filter_program(denied) && program@.len() <= u16::MAX,
                Err(e) => denied.len() > 0 && filter_program(denied).len() > u16::MAX && e@ == "seccomp filter is too large"@,
            }
        },
{
    let denied = denied_syscalls(allow_network, allow_processes, process_syscalls, network_syscalls);
    if denied.len() == 0 {
        return Ok(None);
    }
    if denied.len() > 32766 {
        proof {
            lemma_program_len(denied@);
        }
        return Err(String::from_str("seccomp filter is too large"));
    }
    let mut filters: Vec<FilterInstruction> = Vec::new();
    filters.push(FilterInstruction { code: BPF_LD_W_ABS, jt: 0, jf: 0, k: 0 });
    let mut i: usize = 0;
    while i < denied.len()
        invariant
            i <= denied@.len(),
            filters@ == seq![FilterInstruction { code: BPF_LD_W_ABS, jt: 0, jf: 0, k: 0 }] + deny_rules(denied@.take(i as int)),
        decreases denied.len() - i,
    {
        filters.push(FilterInstruction { code: BPF_JMP_JEQ_K, jt: 0, jf: 1, k: denied[i] });
        filters.push(FilterInstruction { code: BPF_RET_K, jt: 0, jf: 0, k: SECCOMP_RET_ERRNO_EPERM });
        proof {
            assert(denied@.take(i + 1).drop_last() =~= denied@.take(i as int));
            assert(filters@ =~= seq![FilterInstruction { code: BPF_LD_W_ABS, jt: 0, jf: 0, k: 0 }] + deny_rules(denied@.take(i + 1)));
        }
        i = i + 1;
    }
    filters.push(FilterInstruction { code: BPF_RET_K, jt: 0, jf: 0, k: SECCOMP_RET_ALLOW });
    proof {
        assert(denied@.take(denied@.len() as int) =~= denied@);
        lemma_program_len(denied@);
        assert(filters@ =~= filter_program(denied@));
    }
    Ok(Some(filters))
}

proof fn lemma_program_len(denied: Seq<u32>)
    ensures
        deny_rules(denied).len() == 2 * denied.len(),
        filter_program(denied).len() == 2 * denied.len() + 2,
    decreases denied.len(),
{
    if denied.len() > 0 {
        lemma_program_len(denied.drop_last());
    }
}

/// The variable a sandboxed process finds set, and its value.
pub open spec fn sandbox_marker() -> (Seq<char>, Seq<char>) {
    ("PAM_SANDBOX_ACTIVE"@, "1"@)
}

/// Whether a variable survives sandboxing: the ini entries always, and the
/// names the policy grants (the marker is set afresh, whatever it held).
pub open spec fn keeps_variable(granted: Seq<Seq<char>>, name: Seq<char>) -> bool {
    name == "PAM_INI_ENTRIES"@ || (name != "PAM_SANDBOX_ACTIVE"@ && granted.contains(name))
}

pub open spec fn variable_views(vars: Seq<(String, String)>) -> Seq<(Seq<char>, Seq<char>)> {
    vars.map_values(|v: (String, String)| (v.0@, v.1@))
}

/// The variables of `vars` that survive, in order.
pub open spec fn kept_variables(granted: Seq<Seq<char>>, vars: Seq<(Seq<char>, Seq<char>)>) -> Seq<(Seq<char>, Seq<char>)>
    decreases vars.len(),
{
    if vars.len() == 0 {
        Seq::empty()
    } else if keeps_variable(granted, vars.last().0) {
        kept_variables(granted, vars.drop_last()).push(vars.last())
    } else {
        kept_variables(granted, vars.drop_last())
    }
}

impl Policy {
    /// A policy from resolved paths and checked environment names.
    pub fn new(read_paths: Vec<String>, write_paths: Vec<String>, environment: Vec<String>, allow_network: bool, allow_processes: bool) -> (p:
        Self)
        requires
            forall|i: int| 0 <= i < read_paths@.len() ==> is_resolved_path(#[trigger] read_paths@[i]@),
            forall|i: int| 0 <= i < write_paths@.len() ==> is_resolved_path(#[trigger] write_paths@[i]@),
        ensures
            p.read_paths() == texts(read_paths@),
            p.write_paths() == texts(write_paths@),
            p.environment() == texts(environment@),
            p.allows_network() == allow_network,
            p.allows_processes() == allow_processes,
            p.well_formed(),
    {
        Policy { read_paths, write_paths, environment, allow_network, allow_processes }
    }

    /// Every path of the policy is resolved.
    pub closed spec fn well_formed(self) -> bool {
        &&& forall|i: int| 0 <= i < self.read_paths@.len() ==> is_resolved_path(#[trigger] self.read_paths@[i]@)
        &&& forall|i: int| 0 <= i < self.write_paths@.len() ==> is_resolved_path(#[trigger] self.write_paths@[i]@)
    }

    pub closed spec fn read_paths(self) -> Seq<Seq<char>> {
        texts(self.read_paths@)
    }

    pub closed spec fn write_paths(self) -> Seq<Seq<char>> {
        texts(self.write_paths@)
    }

    pub closed spec fn environment(self) -> Seq<Seq<char>> {
        texts(self.environment@)
    }

    pub closed spec fn allows_network(self) -> bool {
        self.allow_network
    }

    pub closed spec fn allows_processes(self) -> bool {
        self.allow_processes
    }

    /// What applying the policy enforces, given the runtime support paths
    /// that exist (resolved) and the system calls that create processes and
    /// open network connections on this architecture. The readable paths
    /// are the policy's and the support paths, in path order, each once.
    pub fn apply(&self, support_paths: &Vec<String>, process_syscalls: &Vec<u32>, network_syscalls: &Vec<u32>) -> (plan: SandboxPlan)
        requires
            self.well_formed(),
            forall|i: int| 0 <= i < support_paths@.len() ==> is_resolved_path(#[trigger] support_paths@[i]@),
        ensures
            ascending_paths(texts(plan.read_paths@)),
            texts(plan.read_paths@).to_set() == (self.read_paths() + texts(support_paths@)).to_set(),
            texts(plan.write_paths@) == self.write_paths(),
            texts(plan.keep_environment@) == self.environment().push("PAM_INI_ENTRIES"@),
            (plan.marker.0@, plan.marker.1@) == sandbox_marker(),
            exists|denied: Seq<u32>| {
                &&& increasing(denied)
                &&& denied.to_set() == denied_set(self.allows_network(), self.allows_processes(), process_syscalls@, network_syscalls@)
                &&& match plan.filter {
                    Ok(None) => denied.len() == 0,
                    Ok(Some(program)) => denied.len() > 0 && program@ == filter_program(denied),
                    Err(e) => denied.len() > 0 && filter_program(denied).len() > u16::MAX && e@ == "seccomp filter is too large"@,
                }
            },
    {
        let mut read_paths: Vec<String> = Vec::new();
        proof {
            assert(texts(read_paths@) =~= Seq::<Seq<char>>::empty());
            assert(texts(read_paths@).to_set() =~= Set::<Seq<char>>::empty());
        }
        insert_paths(&mut read_paths, &self.read_paths);
        insert_paths(&mut read_paths, support_paths);
        proof {
            assert(texts(self.read_paths@ + support_paths@) =~= texts(self.read_paths@) + texts(support_paths@));
            assert forall|x: Seq<char>| (texts(self.read_paths@) + texts(support_paths@)).to_set().contains(x)
                == texts(self.read_paths@).to_set().union(texts(support_paths@).to_set()).contains(x) by {
                let a = texts(self.read_paths@);
                let b = texts(support_paths@);
                if (a + b).contains(x) {
                    let k = choose|k: int| 0 <= k < (a + b).len() && (a + b)[k] == x;
                    if k < a.len() {
                        assert(a[k] == x);
                    } else {
                        assert(b[k - a.len()] == x);
                    }
                }
                if a.contains(x) {
                    let k = choose|k: int| 0 <= k < a.len() && a[k] == x;
                    assert((a + b)[k] == x);
                }
                if b.contains(x) {
                    let k = choose|k: int| 0 <= k < b.len() && b[k] == x;
                    assert((a + b)[k + a.len()] == x);
                }
            }
            assert((texts(self.read_paths@) + texts(support_paths@)).to_set()
                =~= texts(self.read_paths@).to_set().union(texts(support_paths@).to_set()));
        }
        let mut write_paths: Vec<String> = Vec::new();
        copy_into(&mut write_paths, &self.write_paths);
        let mut keep_environment: Vec<String> = Vec::new();
        copy_into(&mut keep_environment, &self.environment);
        proof {
            assert(texts(Seq::<String>::empty()) =~= Seq::<Seq<char>>::empty());
        }
        let ghost granted = texts(keep_environment@);
        keep_environment.push(String::from_str("PAM_INI_ENTRIES"));
        assert(texts(keep_environment@) =~= granted.push("PAM_INI_ENTRIES"@));
        SandboxPlan {
            read_paths,
            write_paths,
            keep_environment,
            marker: (String::from_str("PAM_SANDBOX_ACTIVE"), String::from_str("1")),
            filter: syscall_filter(self.allow_network, self.allow_processes, process_syscalls, network_syscalls),
        }
    }

    /// The process environment once the policy applies: the variables of
    /// `current` that survive, in order, then the sandbox marker.
    pub fn sandbox_environment(&self, current: &Vec<(String, String)>) -> (r: Vec<(String, String)>)
        ensures
            variable_views(r@) == kept_variables(self.environment(), variable_views(current@)).push(sandbox_marker()),
    {
        let mut out: Vec<(String, String)> = Vec::new();
        let mut i: usize = 0;
        assert(variable_views(out@) =~= Seq::empty());
        while i < current.len()
            invariant
                i <= current@.len(),
                variable_views(out@) == kept_variables(self.environment(), variable_views(current@.take(i as int))),
            decreases current.len() - i,
        {
            let name = current[i].0.as_str();
            proof {
                assert(variable_views(current@.take(i + 1)).drop_last() =~= variable_views(current@.take(i as int)));
                assert(variable_views(current@.take(i + 1)).last() == (current@[i as int].0@, current@[i as int].1@));
            }
            let kept = str_eq(name, "PAM_INI_ENTRIES")
                || (!str_eq(name, "PAM_SANDBOX_ACTIVE") && contains_text(&self.environment, name));
            if kept {
                let ghost before = out@;
                out.push((String::from_str(name), String::from_str(current[i].1.as_str())));
                assert(variable_views(out@) =~= variable_views(before).push((current@[i as int].0@, current@[i as int].1@)));
            }
            i = i + 1;
        }
        assert(current@.take(current@.len() as int) =~= current@);
        let ghost before = out@;
        out.push((String::from_str("PAM_SANDBOX_ACTIVE"), String::from_str("1")));
        assert(variable_views(out@) =~= variable_views(before).push(sandbox_marker()));
        out
    }
}

/// Network and process capabilities are granted whole or not at all.
pub open spec fn whole_grant(resources: Seq<Seq<char>>) -> bool {
    resources.len() == 0 || (resources.len() == 1 && resources[0] == "*"@)
}

pub open spec fn partial_grant_refusal(name: Seq<char>) -> Seq<char> {
    name + " capabilities currently require exactly [\"*\"]; selective "@ + name + " access needs the PAM broker and is denied closed"@
}

/// Why the grouped capabilities of a manifest cannot make a policy, checked
/// in order: read paths, write paths, network, processes, environment.
pub open spec fn policy_refusal(
    root: Seq<char>,
    groups: CapabilityResources,
    read_resolved: Seq<Result<String, String>>,
    write_resolved: Seq<Result<String, String>>,
) -> Option<Seq<char>> {
    match first_resource_refusal(root, texts(groups.read@), read_resolved, groups.read@.len()) {
        Some(e) => Some(e),
        None => match first_resource_refusal(root, texts(groups.write@), write_resolved, groups.write@.len()) {
            Some(e) => Some(e),
            None => if !whole_grant(texts(groups.network@)) {
                Some(partial_grant_refusal("network"@))
            } else if !whole_grant(texts(groups.process@)) {
                Some(partial_grant_refusal("process"@))
            } else {
                match first_invalid_name(texts(groups.environment@)) {
                    Some(n) => Some("invalid environment capability "@ + debug_quoted(n)),
                    None => None,
                }
            },
        },
    }
}

/// The policy of a capability manifest whose capabilities were grouped by
/// kind, given the resolved sandbox root and what resolving each read and
/// write resource beneath it gave.
pub fn load_policy(
    root: &str,
    groups: &CapabilityResources,
    read_resolved: &Vec<Result<String, String>>,
    write_resolved: &Vec<Result<String, String>>,
) -> (r: Result<Policy, String>)
    requires
        read_resolved@.len() == groups.read@.len(),
        write_resolved@.len() == groups.write@.len(),
        forall|i: int| 0 <= i < read_resolved@.len() ==> (#[trigger] read_resolved@[i] matches Ok(p) ==> is_resolved_path(p@)),
        forall|i: int| 0 <= i < write_resolved@.len() ==> (#[trigger] write_resolved@[i] matches Ok(p) ==> is_resolved_path(p@)),
    ensures
        match policy_refusal(root@, *groups, read_resolved@, write_resolved@) {
            Some(e) => r matches Err(m) && m@ == e,
            None => r matches Ok(p) && {
                &&& p.well_formed()
                &&& ascending_paths(p.read_paths())
                &&& p.read_paths().to_set() == read_resolved@.map_values(|x: Result<String, String>| resolution_text(x)).to_set()
                &&& ascending_paths(p.write_paths())
                &&& p.write_paths().to_set() == write_resolved@.map_values(|x: Result<String, String>| resolution_text(x)).to_set()
                &&& p.allows_network() == (groups.network@.len() == 1)
                &&& p.allows_processes() == (groups.process@.len() == 1)
                &&& p.environment() == distinct_in_order(texts(groups.environment@))
            },
        },
{
    let read_paths = match policy_paths(root, &groups.read, read_resolved) {
        Ok(paths) => paths,
        Err(e) => return Err(e),
    };
    let write_paths = match policy_paths(root, &groups.write, write_resolved) {
        Ok(paths) => paths,
        Err(e) => return Err(e),
    };
    let allow_network = match wildcard_or_absent("network", &groups.network) {
        Ok(allowed) => allowed,
        Err(e) => return Err(e),
    };
    let allow_processes = match wildcard_or_absent("process", &groups.process) {
        Ok(allowed) => allowed,
        Err(e) => return Err(e),
    };
    let environment = match environment_names(&groups.environment) {
        Ok(names) => names,
        Err(e) => return Err(e),
    };
    Ok(Policy::new(read_paths, write_paths, environment, allow_network, allow_processes))
}

fn copy_into(out: &mut Vec<String>, items: &Vec<String>)
    ensures
        texts(final(out)@) == texts(old(out)@) + texts(items@),
{
    append_all(out, items);
}

} // verus!
