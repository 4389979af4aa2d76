//! Resource usage of a process tree, read from `/proc`-style text.

use vstd::prelude::*;
use crate::text::{chars_of, words, word_at, parse_unsigned, parse_u64_chars};

verus! {

/// Memory and task usage summed over a process tree.
#[derive(Clone, Copy, Debug)]
pub struct ResourceSnapshot {
    pub rss_bytes: u64,
    pub tasks: u64,
    pub processes: u64,
    pub observed: bool,
}

impl ResourceSnapshot {
    /// Nothing observed.
    pub fn empty() -> (s: Self)
        ensures
            s == (ResourceSnapshot { rss_bytes: 0, tasks: 0, processes: 0, observed: false }),
    {
        ResourceSnapshot { rss_bytes: 0, tasks: 0, processes: 0, observed: false }
    }
}

/// Index of the last `) ` in `s`, or -1 when there is none.
pub open spec fn last_close_paren(s: Seq<char>) -> int
    decreases s.len(),
{
    if s.len() < 2 {
        -1
    } else if s[s.len() - 2] == ')' && s[s.len() - 1] == ' ' {
        s.len() - 2
    } else {
        last_close_paren(s.drop_last())
    }
}

/// The parent pid in a `/proc/<pid>/stat` line: the second field after the
/// last `) ` (the command name may itself hold spaces and parentheses).
pub open spec fn stat_parent_of(stat: Seq<char>) -> Option<u32> {
    let k = last_close_paren(stat);
    if k < 0 {
        None
    } else {
        let fields = words(stat.skip(k + 2));
        if fields.len() < 2 {
            None
        } else {
            match parse_unsigned(fields[1], u32::MAX as int) {
                Some(v) => Some(v as u32),
                None => None,
            }
        }
    }
}

/// Reads the parent pid from the text of a `/proc/<pid>/stat` file.
pub fn stat_parent(stat: &str) -> (r: Option<u32>)
    ensures
        r == stat_parent_of(stat@),
{
    let chars = chars_of(stat);
    let len = chars.len();
    let mut k = len;
    assert(stat@.take(len as int) =~= stat@);
    while k >= 2 && !(chars[k - 2] == ')' && chars[k - 1] == ' ')
        invariant
            k <= len,
            len == chars@.len(),
            chars@ == stat@,
            last_close_paren(stat@) == last_close_paren(stat@.take(k as int)),
        decreases k,
    {
        proof {
            assert(stat@.take(k as int).drop_last() =~= stat@.take(k - 1));
        }
        k = k - 1;
    }
    if k < 2 {
        proof {
            assert(last_close_paren(stat@.take(k as int)) == -1);
        }
        return None;
    }
    proof {
        let t = stat@.take(k as int);
        assert(t[t.len() - 2] == chars@[k - 2] && t[t.len() - 1] == chars@[k - 1]);
        assert(last_close_paren(t) == k - 2);
        assert(stat@.skip(k as int) =~= chars@.subrange(k as int, len as int));
    }
    match word_at(&chars, k, len, 1) {
        None => None,
        Some((a, b)) => {
            match parse_u64_chars(&chars, a, b) {
                Some(v) => {
                    if v <= u32::MAX as u64 {
                        Some(v as u32)
                    } else {
                        None
                    }
                },
                None => None,
            }
        },
    }
}

/// Index of the first line break in `s`, or its length when there is none.
pub open spec fn line_break(s: Seq<char>) -> int
    decreases s.len(),
{
    if s.len() == 0 {
        0
    } else if s[0] == '\n' {
        0
    } else {
        1 + line_break(s.drop_first())
    }
}

proof fn lemma_line_break(s: Seq<char>, i: int)
    requires
        0 <= i <= s.len(),
        forall|k: int| 0 <= k < i ==> s[k] != '\n',
        i == s.len() || s[i] == '\n',
    ensures
        line_break(s) == i,
    decreases i,
{
    if i > 0 {
        assert forall|k: int| 0 <= k < i - 1 implies s.drop_first()[k] != '\n' by {
            assert(s.drop_first()[k] == s[k + 1]);
        }
        if i < s.len() {
            assert(s.drop_first()[i - 1] == s[i]);
        }
        lemma_line_break(s.drop_first(), i - 1);
    }
}

/// The first line of `s`, without its `\n` or `\r\n` ending.
pub open spec fn first_line(s: Seq<char>) -> Seq<char> {
    let n = line_break(s);
    if n < s.len() && n > 0 && s[n - 1] == '\r' {
        s.take(n - 1)
    } else {
        s.take(n)
    }
}

/// What follows `key` on the first line of `s` that starts with it, as
/// `lines().find_map(|line| line.strip_prefix(key))` finds it.
pub open spec fn keyed_line_rest(s: Seq<char>, key: Seq<char>) -> Option<Seq<char>>
    decreases s.len(),
{
    if s.len() == 0 {
        None
    } else {
        let line = first_line(s);
        if line.len() >= key.len() && line.take(key.len() as int) == key {
            Some(line.skip(key.len() as int))
        } else if line_break(s) < s.len() {
            proof {
                lemma_line_break_bound(s);
            }
            keyed_line_rest(s.skip(line_break(s) + 1), key)
        } else {
            None
        }
    }
}

pub proof fn lemma_line_break_bound(s: Seq<char>)
    ensures
        0 <= line_break(s) <= s.len(),
    decreases s.len(),
{
    if s.len() > 0 && s[0] != '\n' {
        lemma_line_break_bound(s.drop_first());
    }
}

/// The number after `key` in a `/proc/<pid>/status` text, 0 when the key is
/// missing or not followed by a number.
pub open spec fn status_value_of(status: Seq<char>, key: Seq<char>) -> u64 {
    match keyed_line_rest(status, key) {
        None => 0,
        Some(rest) => {
            let fields = words(rest);
            if fields.len() == 0 {
                0
            } else {
                match parse_unsigned(fields[0], u64::MAX as int) {
                    Some(v) => v as u64,
                    None => 0,
                }
            }
        },
    }
}

/// Reads the number after `key` in the text of a `/proc/<pid>/status` file.
pub fn status_value(status: &str, key: &str) -> (v: u64)
    ensures
        v == status_value_of(status@, key@),
{
    let chars = chars_of(status);
    let keys = chars_of(key);
    let len = chars.len();
    let klen = keys.len();
    let mut i: usize = 0;
    assert(status@.skip(0) =~= status@);
    loop
        invariant
            i <= len,
            len == chars@.len(),
            chars@ == status@,
            keys@ == key@,
            klen == keys@.len(),
            keyed_line_rest(status@, key@) == keyed_line_rest(status@.skip(i as int), key@),
        decreases len - i,
    {
        if i == len {
            proof {
                assert(status@.skip(i as int).len() == 0);
            }
            return 0;
        }
        let mut j = i;
        while j < len && chars[j] != '\n'
            invariant
                i <= j <= len,
                len == chars@.len(),
                forall|k: int| i <= k < j ==> chars@[k] != '\n',
            decreases len - j,
        {
            j = j + 1;
        }
        let end = if j < len && j > i && chars[j - 1] == '\r' { j - 1 } else { j };
        let ghost t = status@.skip(i as int);
        proof {
            assert forall|k: int| 0 <= k < j - i implies t[k] != '\n' by {
                assert(t[k] == chars@[i + k]);
            }
            if j < len {
                assert(t[j - i] == chars@[j as int]);
            }
            lemma_line_break(t, j - i);
            if j < len && j > i {
                assert(t[j - i - 1] == chars@[j - 1]);
            }
            assert(first_line(t) =~= chars@.subrange(i as int, end as int));
        }
        let mut matches = end - i >= klen;
        if matches {
            let mut k: usize = 0;
            while k < klen
                invariant
                    k <= klen,
                    klen == keys@.len(),
                    i + klen <= end <= len,
                    len == chars@.len(),
                    matches == (forall|m: int| 0 <= m < k ==> chars@[i + m] == keys@[m]),
                decreases klen - k,
            {
                if chars[i + k] != keys[k] {
                    matches = false;
                }
                k = k + 1;
            }
            proof {
                let line = chars@.subrange(i as int, end as int);
                if matches {
                    assert(line.take(klen as int) =~= keys@);
                } else {
                    let m = choose|m: int| 0 <= m < klen && chars@[i + m] != keys@[m];
                    assert(line.take(klen as int)[m] != keys@[m]);
                }
            }
        }
        if matches {
            proof {
                assert(first_line(t).skip(klen as int) =~= chars@.subrange(i + klen, end as int));
            }
            return match word_at(&chars, i + klen, end, 0) {
                None => 0,
                Some((a, b)) => match parse_u64_chars(&chars, a, b) {
                    Some(v) => v,
                    None => 0,
                },
            };
        }
        if j == len {
            return 0;
        }
        proof {
            assert(t.skip(j - i + 1) =~= status@.skip(j + 1));
        }
        i = j + 1;
    }
}

// ---------------------------------------------------------------------------
// Process trees

/// One process as listed in `/proc`: its pid, the text of its `stat` file,
/// and the text of its `status` file where it could be read.
#[derive(Clone, Debug)]
pub struct ProcEntry {
    pub pid: u32,
    pub stat: String,
    pub status: Option<String>,
}

/// The parent of `pid` among the listed processes whose stat line parses.
pub open spec fn parent_in(entries: Seq<ProcEntry>, pid: u32) -> Option<u32>
    decreases entries.len(),
{
    if entries.len() == 0 {
        None
    } else if entries.last().pid == pid && stat_parent_of(entries.last().stat@) is Some {
        stat_parent_of(entries.last().stat@)
    } else {
        parent_in(entries.drop_last(), pid)
    }
}

/// The status text of `pid` among the listed processes, if it was read.
pub open spec fn status_in(entries: Seq<ProcEntry>, pid: u32) -> Option<Seq<char>>
    decreases entries.len(),
{
    if entries.len() == 0 {
        None
    } else if entries.last().pid == pid {
        match entries.last().status {
            Some(text) => Some(text@),
            None => None,
        }
    } else {
        status_in(entries.drop_last(), pid)
    }
}

/// The process `steps` generations above `pid`, if the chain is listed.
pub open spec fn ancestor(entries: Seq<ProcEntry>, pid: u32, steps: nat) -> Option<u32>
    decreases steps,
{
    if steps == 0 {
        Some(pid)
    } else {
        match parent_in(entries, pid) {
            None => None,
            Some(parent) => ancestor(entries, parent, (steps - 1) as nat),
        }
    }
}

/// Whether `pid` is `root` or one of its descendants.
pub open spec fn in_tree(entries: Seq<ProcEntry>, root: u32, pid: u32) -> bool {
    exists|steps: nat| #[trigger] ancestor(entries, pid, steps) == Some(root)
}

/// Adds one process's status to a snapshot: counted if its status was read,
/// with resident memory in bytes and threads summed, saturating.
pub open spec fn add_status(snapshot: ResourceSnapshot, status: Option<Seq<char>>) -> ResourceSnapshot {
    match status {
        None => snapshot,
        Some(text) => {
            let rss = crate::resource_monitor::status_value_of(text, "VmRSS:"@) * 1024;
            let rss_bytes = if rss > u64::MAX { u64::MAX as int } else { rss };
            let total = snapshot.rss_bytes + rss_bytes;
            let tasks = snapshot.tasks + status_value_of(text, "Threads:"@);
            ResourceSnapshot {
                rss_bytes: if total > u64::MAX { u64::MAX } else { total as u64 },
                tasks: if tasks > u64::MAX { u64::MAX } else { tasks as u64 },
                processes: (snapshot.processes + 1) as u64,
                observed: true,
            }
        },
    }
}

/// The snapshot of the processes `members`, in that order.
pub open spec fn snapshot_over(entries: Seq<ProcEntry>, members: Seq<u32>) -> ResourceSnapshot
    decreases members.len(),
{
    if members.len() == 0 {
        ResourceSnapshot { rss_bytes: 0, tasks: 0, processes: 0, observed: false }
    } else {
        add_status(snapshot_over(entries, members.drop_last()), status_in(entries, members.last()))
    }
}

pub open spec fn distinct_pids(entries: Seq<ProcEntry>) -> bool {
    forall|i: int, j: int| 0 <= i < j < entries.len() ==> entries[i].pid != entries[j].pid
}

proof fn lemma_parent_in_unlisted(entries: Seq<ProcEntry>, pid: u32)
    requires
        forall|i: int| 0 <= i < entries.len() ==> #[trigger] entries[i].pid != pid,
    ensures
        parent_in(entries, pid) is None,
    decreases entries.len(),
{
    if entries.len() > 0 {
        assert(entries[entries.len() - 1].pid != pid);
        assert forall|i: int| 0 <= i < entries.drop_last().len() implies #[trigger] entries.drop_last()[i].pid != pid by {
            assert(entries.drop_last()[i] == entries[i]);
        }
        lemma_parent_in_unlisted(entries.drop_last(), pid);
    }
}

proof fn lemma_parent_in_entry(entries: Seq<ProcEntry>, i: int)
    requires
        distinct_pids(entries),
        0 <= i < entries.len(),
    ensures
        parent_in(entries, entries[i].pid) == stat_parent_of(entries[i].stat@),
        status_in(entries, entries[i].pid) == match entries[i].status {
            Some(text) => Some(text@),
            None => None::<Seq<char>>,
        },
    decreases entries.len(),
{
    if i < entries.len() - 1 {
        assert(entries.last().pid != entries[i].pid);
        assert(entries.drop_last()[i] == entries[i]);
        lemma_parent_in_entry(entries.drop_last(), i);
    } else {
        assert forall|k: int| 0 <= k < entries.drop_last().len() implies #[trigger] entries.drop_last()[k].pid != entries[i].pid by {
            assert(entries.drop_last()[k] == entries[k]);
        }
        lemma_parent_in_unlisted(entries.drop_last(), entries[i].pid);
    }
}

proof fn lemma_parent_in_listed(entries: Seq<ProcEntry>, pid: u32)
    requires
        parent_in(entries, pid) is Some,
    ensures
        exists|i: int| 0 <= i < entries.len() && #[trigger] entries[i].pid == pid
            && stat_parent_of(entries[i].stat@) == parent_in(entries, pid),
    decreases entries.len(),
{
    if !(entries.last().pid == pid && stat_parent_of(entries.last().stat@) is Some) {
        lemma_parent_in_listed(entries.drop_last(), pid);
        let i = choose|i: int| 0 <= i < entries.drop_last().len() && #[trigger] entries.drop_last()[i].pid == pid
            && stat_parent_of(entries.drop_last()[i].stat@) == parent_in(entries.drop_last(), pid);
        assert(entries[i] == entries.drop_last()[i]);
    } else {
        assert(entries[entries.len() - 1].pid == pid);
    }
}

proof fn lemma_status_in_unlisted(entries: Seq<ProcEntry>, pid: u32)
    requires
        forall|i: int| 0 <= i < entries.len() ==> #[trigger] entries[i].pid != pid,
    ensures
        status_in(entries, pid) is None,
    decreases entries.len(),
{
    if entries.len() > 0 {
        assert(entries[entries.len() - 1].pid != pid);
        assert forall|i: int| 0 <= i < entries.drop_last().len() implies #[trigger] entries.drop_last()[i].pid != pid by {
            assert(entries.drop_last()[i] == entries[i]);
        }
        lemma_status_in_unlisted(entries.drop_last(), pid);
    }
}

/// Everything in the tree is reached: a selection that holds the root and,
/// with each member, all its listed children, holds the whole tree.
proof fn lemma_closed_selection_covers_tree(entries: Seq<ProcEntry>, root: u32, selected: Seq<u32>, pid: u32, steps: nat)
    requires
        selected.contains(root),
        forall|q: u32, i: int| #![trigger selected.contains(q), entries[i]]
            selected.contains(q) && 0 <= i < entries.len() && stat_parent_of(entries[i].stat@) == Some(q)
            ==> selected.contains(entries[i].pid),
        distinct_pids(entries),
        ancestor(entries, pid, steps) == Some(root),
    ensures
        selected.contains(pid),
    decreases steps,
{
    if steps > 0 {
        let parent = parent_in(entries, pid)->0;
        lemma_closed_selection_covers_tree(entries, root, selected, parent, (steps - 1) as nat);
        lemma_parent_in_listed(entries, pid);
        let i = choose|i: int| 0 <= i < entries.len() && #[trigger] entries[i].pid == pid
            && stat_parent_of(entries[i].stat@) == parent_in(entries, pid);
        assert(selected.contains(parent));
        assert(selected.contains(entries[i].pid));
    }
}

fn stat_parents(entries: &Vec<ProcEntry>) -> (parents: Vec<Option<u32>>)
    ensures
        parents@.len() == entries@.len(),
        forall|i: int| 0 <= i < entries@.len() ==> parents@[i] == stat_parent_of(#[trigger] entries@[i].stat@),
{
    let mut parents: Vec<Option<u32>> = Vec::new();
    let mut i: usize = 0;
    while i < entries.len()
        invariant
            i <= entries@.len(),
            parents@.len() == i,
            forall|k: int| 0 <= k < i ==> parents@[k] == stat_parent_of(#[trigger] entries@[k].stat@),
        decreases entries.len() - i,
    {
        parents.push(stat_parent(entries[i].stat.as_str()));
        i = i + 1;
    }
    parents
}

fn contains_pid(items: &Vec<u32>, pid: u32) -> (r: bool)
    ensures
        r == items@.contains(pid),
{
    let mut i: usize = 0;
    while i < items.len()
        invariant
            i <= items@.len(),
            forall|k: int| 0 <= k < i ==> items@[k] != pid,
        decreases items.len() - i,
    {
        if items[i] == pid {
            return true;
        }
        i = i + 1;
    }
    false
}

/// The members of the process tree rooted at `root_pid`, each once.
fn tree_members(root_pid: u32, entries: &Vec<ProcEntry>) -> (selected: Vec<u32>)
    requires
        distinct_pids(entries@),
    ensures
        selected@.no_duplicates(),
        forall|p: u32| selected@.contains(p) <==> in_tree(entries@, root_pid, p),
        selected@.len() <= entries@.len() + 1,
{
    let parents = stat_parents(entries);
    let n = entries.len();
    let ghost candidates: Set<u32> = entries@.map_values(|e: ProcEntry| e.pid).to_set().insert(root_pid);
    proof {
        entries@.map_values(|e: ProcEntry| e.pid).lemma_cardinality_of_set();
        assert(ancestor(entries@, root_pid, 0) == Some(root_pid));
    }
    let mut selected: Vec<u32> = Vec::new();
    let mut pending: Vec<u32> = vec![root_pid];
    loop
        invariant
            n == entries@.len(),
            parents@.len() == n,
            forall|i: int| 0 <= i < n ==> parents@[i] == stat_parent_of(#[trigger] entries@[i].stat@),
            distinct_pids(entries@),
            candidates == entries@.map_values(|e: ProcEntry| e.pid).to_set().insert(root_pid),
            candidates.finite(),
            candidates.len() <= n + 1,
            selected@.no_duplicates(),
            forall|k: int| 0 <= k < selected@.len() ==> candidates.contains(#[trigger] selected@[k]),
            forall|k: int| 0 <= k < pending@.len() ==> candidates.contains(#[trigger] pending@[k]),
            forall|k: int| 0 <= k < selected@.len() ==> in_tree(entries@, root_pid, #[trigger] selected@[k]),
            forall|k: int| 0 <= k < pending@.len() ==> in_tree(entries@, root_pid, #[trigger] pending@[k]),
            selected@.contains(root_pid) || pending@.contains(root_pid),
            forall|q: u32, i: int| #![trigger selected@.contains(q), entries@[i]]
                selected@.contains(q) && 0 <= i < n && stat_parent_of(entries@[i].stat@) == Some(q)
                ==> selected@.contains(entries@[i].pid) || pending@.contains(entries@[i].pid),
            selected@.len() <= n + 1,
        ensures
            pending@.len() == 0,
        decreases n + 1 - selected@.len(), pending@.len(),
    {
        proof {
            selected@.unique_seq_to_set();
            assert(selected@.to_set().subset_of(candidates));
            vstd::set_lib::lemma_len_subset(selected@.to_set(), candidates);
        }
        let ghost pending_full = pending@;
        let next = pending.pop();
        let q = match next {
            None => break,
            Some(q) => q,
        };
        proof {
            assert(pending_full == pending@.push(q));
            assert forall|c: u32| pending_full.contains(c) implies c == q || pending@.contains(c) by {
                let j = choose|j: int| 0 <= j < pending_full.len() && pending_full[j] == c;
                if j < pending@.len() {
                    assert(pending@[j] == c);
                }
            }
        }
        if contains_pid(&selected, q) {
            proof {
                if pending_full.contains(root_pid) && !selected@.contains(root_pid) {
                    assert(root_pid == q || pending@.contains(root_pid));
                }
            }
            continue;
        }
        let ghost before = selected@;
        selected.push(q);
        proof {
            assert(selected@.no_duplicates()) by {
                assert forall|a: int, b: int| 0 <= a < b < selected@.len() implies selected@[a] != selected@[b] by {
                    assert(selected@[a] == before[a]);
                    if b == selected@.len() - 1 {
                        assert(before.contains(before[a]));
                    } else {
                        assert(selected@[b] == before[b]);
                    }
                }
            }
            selected@.unique_seq_to_set();
            assert(selected@.to_set().subset_of(candidates)) by {
                assert forall|x: u32| selected@.to_set().contains(x) implies candidates.contains(x) by {
                    let j = choose|j: int| 0 <= j < selected@.len() && selected@[j] == x;
                    if j < before.len() {
                        assert(before[j] == x);
                        assert(candidates.contains(before[j]));
                    }
                }
            }
            vstd::set_lib::lemma_len_subset(selected@.to_set(), candidates);
        }
        let ghost q_steps: nat = choose|steps: nat| #[trigger] ancestor(entries@, q, steps) == Some(root_pid);
        let ghost pending_before = pending@;
        let mut i: usize = 0;
        while i < n
            invariant
                i <= n,
                n == entries@.len(),
                parents@.len() == n,
                forall|k: int| 0 <= k < n ==> parents@[k] == stat_parent_of(#[trigger] entries@[k].stat@),
                distinct_pids(entries@),
                candidates == entries@.map_values(|e: ProcEntry| e.pid).to_set().insert(root_pid),
                ancestor(entries@, q, q_steps) == Some(root_pid),
                pending@.len() >= pending_before.len(),
                pending@.take(pending_before.len() as int) == pending_before,
                forall|k: int| 0 <= k < pending@.len() ==> candidates.contains(#[trigger] pending@[k]),
                forall|k: int| 0 <= k < pending@.len() ==> in_tree(entries@, root_pid, #[trigger] pending@[k]),
                forall|k: int| 0 <= k < i && stat_parent_of(entries@[k].stat@) == Some(q)
                    ==> pending@.contains(#[trigger] entries@[k].pid),
            decreases n - i,
        {
            if parents[i] == Some(q) {
                let child = entries[i].pid;
                proof {
                    lemma_parent_in_entry(entries@, i as int);
                    assert(ancestor(entries@, child, q_steps + 1) == Some(root_pid));
                    assert(entries@.map_values(|e: ProcEntry| e.pid)[i as int] == child);
                    assert(candidates.contains(child));
                }
                let ghost pending_old = pending@;
                pending.push(child);
                proof {
                    assert forall|k: int| 0 <= k < i && stat_parent_of(entries@[k].stat@) == Some(q)
                        implies pending@.contains(#[trigger] entries@[k].pid) by {
                        let j = choose|j: int| 0 <= j < pending_old.len() && pending_old[j] == entries@[k].pid;
                        assert(pending@[j] == entries@[k].pid);
                    }
                    assert(pending@[pending@.len() - 1] == child);
                    assert(pending@.take(pending_before.len() as int) =~= pending_before);
                }
            }
            i = i + 1;
        }
        proof {
            assert forall|p: u32, k: int| #![trigger selected@.contains(p), entries@[k]]
                selected@.contains(p) && 0 <= k < n && stat_parent_of(entries@[k].stat@) == Some(p)
                implies selected@.contains(entries@[k].pid) || pending@.contains(entries@[k].pid) by {
                if p != q {
                    assert(before.contains(p)) by {
                        let j = choose|j: int| 0 <= j < selected@.len() && selected@[j] == p;
                        assert(before[j] == p);
                    }
                    if pending_before.contains(entries@[k].pid) {
                        let j = choose|j: int| 0 <= j < pending_before.len() && pending_before[j] == entries@[k].pid;
                        assert(pending@[j] == pending_before[j]);
                    } else if entries@[k].pid == q {
                        assert(selected@[selected@.len() - 1] == q);
                    } else {
                        assert(before.contains(entries@[k].pid)) ;
                        let j = choose|j: int| 0 <= j < before.len() && before[j] == entries@[k].pid;
                        assert(selected@[j] == before[j]);
                    }
                }
            }
            if !pending@.contains(root_pid) && !before.contains(root_pid) {
                assert(q == root_pid);
            }
            if before.contains(root_pid) {
                let j = choose|j: int| 0 <= j < before.len() && before[j] == root_pid;
                assert(selected@[j] == root_pid);
            }
            if pending_before.contains(root_pid) {
                let j = choose|j: int| 0 <= j < pending_before.len() && pending_before[j] == root_pid;
                assert(pending@[j] == root_pid);
            }
            if q == root_pid {
                assert(selected@[selected@.len() - 1] == root_pid);
            }
        }
    }
    proof {
        assert forall|p: u32| selected@.contains(p) <==> in_tree(entries@, root_pid, p) by {
            if in_tree(entries@, root_pid, p) {
                let steps = choose|steps: nat| #[trigger] ancestor(entries@, p, steps) == Some(root_pid);
                lemma_closed_selection_covers_tree(entries@, root_pid, selected@, p, steps);
            }
            if selected@.contains(p) {
                let j = choose|j: int| 0 <= j < selected@.len() && selected@[j] == p;
                assert(in_tree(entries@, root_pid, selected@[j]));
            }
        }
    }
    selected
}

fn status_of(entries: &Vec<ProcEntry>, pid: u32) -> (r: Option<&String>)
    requires
        distinct_pids(entries@),
    ensures
        match r {
            Some(text) => status_in(entries@, pid) == Some(text@),
            None => status_in(entries@, pid) is None,
        },
{
    let mut i: usize = 0;
    while i < entries.len()
        invariant
            i <= entries@.len(),
            distinct_pids(entries@),
            forall|k: int| 0 <= k < i ==> #[trigger] entries@[k].pid != pid,
        decreases entries.len() - i,
    {
        if entries[i].pid == pid {
            proof {
                lemma_parent_in_entry(entries@, i as int);
            }
            return match &entries[i].status {
                Some(text) => Some(text),
                None => None,
            };
        }
        i = i + 1;
    }
    proof {
        lemma_status_in_unlisted(entries@, pid);
    }
    None
}

/// Memory, threads and process count of the tree rooted at `root_pid`, from
/// a listing of `/proc` in which each pid occurs once. A member whose status
/// could not be read is not counted.
pub fn process_tree(root_pid: u32, entries: &Vec<ProcEntry>) -> (snapshot: ResourceSnapshot)
    requires
        distinct_pids(entries@),
        entries@.len() < u64::MAX,
    ensures
        exists|members: Seq<u32>| {
            &&& members.no_duplicates()
            &&& (forall|p: u32| members.contains(p) <==> in_tree(entries@, root_pid, p))
            &&& snapshot == snapshot_over(entries@, members)
        },
{
    let members = tree_members(root_pid, entries);
    let mut snapshot = ResourceSnapshot::empty();
    let mut i: usize = 0;
    while i < members.len()
        invariant
            i <= members@.len(),
            distinct_pids(entries@),
            snapshot == snapshot_over(entries@, members@.take(i as int)),
            snapshot.processes <= i,
            members@.len() <= entries@.len() + 1,
        decreases members.len() - i,
    {
        assert(members@.take(i + 1).drop_last() =~= members@.take(i as int));
        if let Some(text) = status_of(entries, members[i]) {
            let memory = status_value(text.as_str(), "VmRSS:");
            let rss = match memory.checked_mul(1024) {
                Some(value) => value,
                None => u64::MAX,
            };
            snapshot = ResourceSnapshot {
                rss_bytes: snapshot.rss_bytes.saturating_add(rss),
                tasks: snapshot.tasks.saturating_add(status_value(text.as_str(), "Threads:")),
                processes: snapshot.processes + 1,
                observed: true,
            };
        }
        i = i + 1;
    }
    assert(members@.take(members@.len() as int) =~= members@);
    snapshot
}

} // verus!
