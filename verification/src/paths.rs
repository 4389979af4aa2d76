//! Resolved filesystem paths and the order in which path lists are kept.
//!
//! A resolved path (what `canonicalize` yields) is absolute and made of
//! normal components only. For such paths the component-wise order of
//! `PathBuf` is the character order of their text with `/` ranked below
//! every other character, and two paths are equal exactly when their texts
//! are.

use vstd::prelude::*;
use crate::text::{chars_of, split_on, split_ranges, str_eq};

verus! {

pub open spec fn texts(items: Seq<String>) -> Seq<Seq<char>> {
    items.map_values(|s: String| s@)
}

/// A component other than empty, `.` or `..`.
pub open spec fn is_normal_component(s: Seq<char>) -> bool {
    s.len() > 0 && s != seq!['.'] && s != seq!['.', '.']
}

/// An absolute path whose components are all normal: a leading `/`, no
/// doubled or trailing `/`, no `.` or `..` component.
pub open spec fn is_resolved_path(p: Seq<char>) -> bool {
    &&& p.len() > 0
    &&& p[0] == '/'
    &&& p.len() > 1 ==> forall|i: int|
        0 <= i < split_on(p.drop_first(), '/').len() ==> is_normal_component(#[trigger] split_on(p.drop_first(), '/')[i])
}

/// Whether a path is resolved.
pub fn resolved_path(p: &str) -> (r: bool)
    ensures
        r == is_resolved_path(p@),
{
    let chars = chars_of(p);
    let n = chars.len();
    if n == 0 || chars[0] != '/' {
        return false;
    }
    if n == 1 {
        return true;
    }
    let parts = split_ranges(chars.as_slice(), 1, n, '/');
    assert(chars@.subrange(1, n as int) =~= p@.drop_first());
    let mut i: usize = 0;
    while i < parts.len()
        invariant
            n == chars@.len(),
            chars@ == p@,
            n > 1,
            chars@.subrange(1, n as int) == p@.drop_first(),
            parts@.len() == split_on(p@.drop_first(), '/').len(),
            forall|k: int| 0 <= k < parts@.len() ==> {
                &&& 1 <= (#[trigger] parts@[k]).0 <= parts@[k].1 <= n
                &&& chars@.subrange(parts@[k].0 as int, parts@[k].1 as int) == split_on(p@.drop_first(), '/')[k]
            },
            i <= parts@.len(),
            forall|k: int| 0 <= k < i ==> is_normal_component(#[trigger] split_on(p@.drop_first(), '/')[k]),
        decreases parts.len() - i,
    {
        let (from, to) = parts[i];
        let ghost part = split_on(p@.drop_first(), '/')[i as int];
        assert(part == chars@.subrange(from as int, to as int));
        if to == from {
            return false;
        }
        if to - from == 1 && chars[from] == '.' {
            assert(part =~= seq!['.']);
            return false;
        }
        if to - from == 2 && chars[from] == '.' && chars[from + 1] == '.' {
            assert(part =~= seq!['.', '.']);
            return false;
        }
        assert(part.len() > 0);
        assert(part != seq!['.']) by {
            if part.len() == 1 {
                assert(part[0] == chars@[from as int]);
            }
        }
        assert(part != seq!['.', '.']) by {
            if part.len() == 2 {
                assert(part[0] == chars@[from as int]);
                assert(part[1] == chars@[from + 1]);
            }
        }
        i = i + 1;
    }
    true
}

/// The rank of a character in the path order: `/` before everything else.
pub open spec fn path_rank(c: char) -> int {
    if c == '/' { -1 } else { c as int }
}

/// Whether path text `a` comes before `b`.
pub open spec fn path_precedes(a: Seq<char>, b: Seq<char>) -> bool
    decreases a.len(),
{
    if a.len() == 0 {
        b.len() > 0
    } else if b.len() == 0 {
        false
    } else if a[0] != b[0] {
        path_rank(a[0]) < path_rank(b[0])
    } else {
        path_precedes(a.drop_first(), b.drop_first())
    }
}

/// Strictly ascending in the path order, hence each path once.
pub open spec fn ascending_paths(s: Seq<Seq<char>>) -> bool {
    forall|i: int, j: int| 0 <= i < j < s.len() ==> path_precedes(#[trigger] s[i], #[trigger] s[j])
}

/// No path comes before itself.
pub proof fn lemma_path_order_irreflexive(a: Seq<char>)
    ensures
        !path_precedes(a, a),
    decreases a.len(),
{
    if a.len() > 0 {
        lemma_path_order_irreflexive(a.drop_first());
    }
}

/// Of two different paths, one comes first.
pub proof fn lemma_path_order_total(a: Seq<char>, b: Seq<char>)
    requires
        a != b,
    ensures
        path_precedes(a, b) || path_precedes(b, a),
    decreases a.len(),
{
    if a.len() > 0 && b.len() > 0 && a[0] == b[0] {
        if a.drop_first() == b.drop_first() {
            assert(a =~= seq![a[0]] + a.drop_first());
            assert(b =~= seq![b[0]] + b.drop_first());
        }
        lemma_path_order_total(a.drop_first(), b.drop_first());
    } else if a.len() == 0 && b.len() == 0 {
        assert(a =~= b);
    } else if a.len() > 0 && b.len() > 0 {
        assert((a[0] as int) != (b[0] as int)) by {
            if (a[0] as int) == (b[0] as int) {
                assert(a[0] == b[0]);
            }
        }
        lemma_char_code(a[0]);
        lemma_char_code(b[0]);
        assert(path_rank(a[0]) != path_rank(b[0]));
    }
}

proof fn lemma_char_code(c: char)
    ensures
        c as int >= 0,
        (c as u32) as int == c as int,
{
}

/// The path order is transitive.
pub proof fn lemma_path_order_transitive(a: Seq<char>, b: Seq<char>, c: Seq<char>)
    requires
        path_precedes(a, b),
        path_precedes(b, c),
    ensures
        path_precedes(a, c),
    decreases a.len(),
{
    if a.len() > 0 && b.len() > 0 && c.len() > 0 && a[0] == b[0] && b[0] == c[0] {
        lemma_path_order_transitive(a.drop_first(), b.drop_first(), c.drop_first());
    }
}

/// Whether `a` comes before `b` in the path order.
pub fn path_before(a: &str, b: &str) -> (r: bool)
    ensures
        r == path_precedes(a@, b@),
{
    let x = chars_of(a);
    let y = chars_of(b);
    let mut i: usize = 0;
    assert(a@.skip(0) =~= a@);
    assert(b@.skip(0) =~= b@);
    while i < x.len() && i < y.len() && x[i] == y[i]
        invariant
            x@ == a@,
            y@ == b@,
            i <= x@.len(),
            i <= y@.len(),
            path_precedes(a@, b@) == path_precedes(a@.skip(i as int), b@.skip(i as int)),
        decreases x.len() - i,
    {
        proof {
            assert(a@.skip(i as int).drop_first() =~= a@.skip(i + 1));
            assert(b@.skip(i as int).drop_first() =~= b@.skip(i + 1));
        }
        i = i + 1;
    }
    if i == x.len() {
        assert(a@.skip(i as int).len() == 0);
        return i < y.len();
    }
    if i == y.len() {
        assert(b@.skip(i as int).len() == 0);
        return false;
    }
    assert(a@.skip(i as int)[0] == x@[i as int]);
    proof {
        lemma_char_code(x@[i as int]);
        lemma_char_code(y@[i as int]);
    }
    assert(b@.skip(i as int)[0] == y@[i as int]);
    if x[i] == '/' {
        true
    } else if y[i] == '/' {
        false
    } else {
        (x[i] as u32) < (y[i] as u32)
    }
}

/// Adds a path to an ascending list unless it is there already.
pub fn insert_path(out: &mut Vec<String>, p: &str)
    requires
        ascending_paths(texts(old(out)@)),
    ensures
        ascending_paths(texts(final(out)@)),
        texts(final(out)@).to_set() == texts(old(out)@).to_set().insert(p@),
{
    let mut k: usize = 0;
    while k < out.len() && path_before(out[k].as_str(), p)
        invariant
            k <= out@.len(),
            forall|i: int| 0 <= i < k ==> path_precedes(#[trigger] texts(out@)[i], p@),
        decreases out.len() - k,
    {
        k = k + 1;
    }
    if k < out.len() && str_eq(out[k].as_str(), p) {
        assert(texts(out@)[k as int] == p@);
        assert(texts(out@).to_set().insert(p@) =~= texts(out@).to_set());
        return;
    }
    let ghost before = texts(out@);
    proof {
        if k < before.len() {
            lemma_path_order_total(before[k as int], p@);
        }
    }
    out.insert(k, String::from_str(p));
    let ghost after = texts(out@);
    proof {
        assert(after =~= before.insert(k as int, p@));
        assert forall|i: int, j: int| 0 <= i < j < after.len() implies path_precedes(#[trigger] after[i], #[trigger] after[j]) by {
            if j < k {
                assert(after[i] == before[i] && after[j] == before[j]);
            } else if j == k {
                assert(after[i] == before[i]);
            } else if i < k {
                assert(after[j] == before[j - 1]);
                assert(after[i] == before[i]);
                if j - 1 > k {
                    assert(path_precedes(before[k as int], before[j - 1]));
                    lemma_path_order_transitive(p@, before[k as int], before[j - 1]);
                }
                lemma_path_order_transitive(before[i], p@, before[j - 1]);
            } else if i == k {
                assert(after[j] == before[j - 1]);
                if j - 1 > k {
                    assert(path_precedes(before[k as int], before[j - 1]));
                    lemma_path_order_transitive(p@, before[k as int], before[j - 1]);
                }
            } else {
                assert(after[i] == before[i - 1] && after[j] == before[j - 1]);
            }
        }
        assert forall|y: Seq<char>| after.to_set().contains(y) == before.to_set().insert(p@).contains(y) by {
            if after.contains(y) {
                let m = choose|m: int| 0 <= m < after.len() && after[m] == y;
                if m < k {
                    assert(before[m] == y);
                } else if m > k {
                    assert(before[m - 1] == y);
                }
            }
            if before.contains(y) {
                let m = choose|m: int| 0 <= m < before.len() && before[m] == y;
                if m < k {
                    assert(after[m] == y);
                } else {
                    assert(after[m + 1] == y);
                }
            }
            if y == p@ {
                assert(after[k as int] == p@);
            }
        }
        assert(after.to_set() =~= before.to_set().insert(p@));
    }
}

/// Adds every path of `items` to an ascending list.
pub fn insert_paths(out: &mut Vec<String>, items: &Vec<String>)
    requires
        ascending_paths(texts(old(out)@)),
    ensures
        ascending_paths(texts(final(out)@)),
        texts(final(out)@).to_set() == texts(old(out)@).to_set().union(texts(items@).to_set()),
{
    let mut i: usize = 0;
    while i < items.len()
        invariant
            i <= items@.len(),
            ascending_paths(texts(out@)),
            texts(out@).to_set() == texts(old(out)@).to_set().union(texts(items@.take(i as int)).to_set()),
        decreases items.len() - i,
    {
        insert_path(out, items[i].as_str());
        proof {
            let prev = texts(items@.take(i as int));
            assert(texts(items@.take(i + 1)) =~= prev.push(items@[i as int]@));
            prev.lemma_push_to_set_commute(items@[i as int]@);
            assert(texts(out@).to_set() =~= texts(old(out)@).to_set().union(texts(items@.take(i + 1)).to_set()));
        }
        i = i + 1;
    }
    assert(items@.take(items@.len() as int) =~= items@);
}

/// Two ascending path lists that hold the same paths are the same list.
pub proof fn lemma_ascending_paths_unique(a: Seq<Seq<char>>, b: Seq<Seq<char>>)
    requires
        ascending_paths(a),
        ascending_paths(b),
        a.to_set() == b.to_set(),
    ensures
        a == b,
    decreases a.len() + b.len(),
{
    if a.len() == 0 || b.len() == 0 {
        if a.len() > 0 {
            assert(a.to_set().contains(a[0]));
        }
        if b.len() > 0 {
            assert(b.to_set().contains(b[0]));
        }
        assert(a =~= b);
    } else {
        // The last element of each is the greatest of the common set.
        let x = a.last();
        let y = b.last();
        assert(a.to_set().contains(x));
        assert(b.to_set().contains(y));
        let ia = choose|m: int| 0 <= m < a.len() && a[m] == y;
        let ib = choose|m: int| 0 <= m < b.len() && b[m] == x;
        if x != y {
            if ia < a.len() - 1 {
                assert(path_precedes(a[ia], a[a.len() - 1]));
            } else {
                assert(a[ia] == x);
            }
            if ib < b.len() - 1 {
                assert(path_precedes(b[ib], b[b.len() - 1]));
            } else {
                assert(b[ib] == y);
            }
            lemma_path_order_transitive(x, y, x);
            lemma_path_order_irreflexive(x);
        }
        let a2 = a.drop_last();
        let b2 = b.drop_last();
        assert forall|z: Seq<char>| a2.to_set().contains(z) == b2.to_set().contains(z) by {
            if a2.contains(z) {
                let m = choose|m: int| 0 <= m < a2.len() && a2[m] == z;
                assert(a[m] == z);
                assert(path_precedes(a[m], a[a.len() - 1]));
                assert(b.to_set().contains(z));
                let n = choose|n: int| 0 <= n < b.len() && b[n] == z;
                if n == b.len() - 1 {
                    lemma_path_order_irreflexive(z);
                }
                assert(b2[n] == z);
            }
            if b2.contains(z) {
                let m = choose|m: int| 0 <= m < b2.len() && b2[m] == z;
                assert(b[m] == z);
                assert(path_precedes(b[m], b[b.len() - 1]));
                assert(a.to_set().contains(z));
                let n = choose|n: int| 0 <= n < a.len() && a[n] == z;
                if n == a.len() - 1 {
                    lemma_path_order_irreflexive(z);
                }
                assert(a2[n] == z);
            }
        }
        assert(a2.to_set() =~= b2.to_set());
        lemma_ascending_paths_unique(a2, b2);
        assert(a =~= a2.push(x));
        assert(b =~= b2.push(y));
    }
}

} // verus!
