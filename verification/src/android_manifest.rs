//! The deep-link block that the mobile tooling keeps inside the Android
//! manifest's main activity.

use vstd::prelude::*;
use crate::text::{chars_of, string_of};
use crate::mobile_manifest::AndroidDeepLink;

verus! {

/// The line that opens the generated block.
pub open spec fn start_marker() -> Seq<char> {
    "            <!-- pam:deep-links -->\n"@
}

/// The line that closes the generated block.
pub open spec fn end_marker() -> Seq<char> {
    "            <!-- /pam:deep-links -->\n"@
}

/// `needle` occurs in `s` at position `i`.
pub open spec fn occurs_at(s: Seq<char>, needle: Seq<char>, i: int) -> bool {
    0 <= i && i + needle.len() <= s.len() && s.subrange(i, i + needle.len()) == needle
}

/// The first position from `from` on where `needle` occurs in `s`.
pub open spec fn find_from(s: Seq<char>, needle: Seq<char>, from: int) -> Option<int>
    decreases s.len() + 1 - from,
{
    if from < 0 || from + needle.len() > s.len() {
        None
    } else if occurs_at(s, needle, from) {
        Some(from)
    } else {
        find_from(s, needle, from + 1)
    }
}

fn find_chars(s: &Vec<char>, needle: &Vec<char>, from: usize) -> (r: Option<usize>)
    ensures
        match (r, find_from(s@, needle@, from as int)) {
            (Some(i), Some(j)) => i == j,
            (None, None) => true,
            _ => false,
        },
        r matches Some(i) ==> from <= i && occurs_at(s@, needle@, i as int),
{
    let n = s.len();
    let m = needle.len();
    if m > n {
        return None;
    }
    let mut i = from;
    while i <= n - m
        invariant
            n == s@.len(),
            m == needle@.len(),
            m <= n,
            from <= i,
            find_from(s@, needle@, from as int) == find_from(s@, needle@, i as int),
        decreases n - m + 1 - i,
    {
        let mut k: usize = 0;
        let mut same = true;
        while k < m && same
            invariant
                i + m <= n,
                n == s@.len(),
                m == needle@.len(),
                k <= m,
                same == (forall|j: int| 0 <= j < k ==> s@[i + j] == needle@[j]),
            decreases m - k,
        {
            if s[i + k] != needle[k] {
                same = false;
            }
            k = k + 1;
        }
        proof {
            if same {
                assert(s@.subrange(i as int, i + m) =~= needle@);
            } else {
                assert(s@.subrange(i as int, i + m) != needle@) by {
                    let j = choose|j: int| 0 <= j < k && s@[i + j] != needle@[j];
                    assert(s@.subrange(i as int, i + m)[j] == s@[i + j]);
                }
            }
        }
        if same {
            return Some(i);
        }
        i = i + 1;
    }
    None
}

/// The intent filter of one deep link.
pub open spec fn link_filter(l: AndroidDeepLink) -> Seq<char> {
    "            <intent-filter"@ + (if l.auto_verify { " android:autoVerify=\"true\""@ } else { Seq::empty() }) + ">\n"@
        + "    <action android:name=\"android.intent.action.VIEW\" />\n"@
        + "    <category android:name=\"android.intent.category.DEFAULT\" />\n"@
        + "    <category android:name=\"android.intent.category.BROWSABLE\" />\n"@ + "    <data android:scheme=\""@
        + l.scheme@ + "\""@ + (match l.host {
        Some(h) => " android:host=\""@ + h@ + "\""@,
        None => Seq::empty(),
    }) + (match l.path_prefix {
        Some(p) => " android:pathPrefix=\""@ + p@ + "\""@,
        None => Seq::empty(),
    }) + " />\n"@ + "    </intent-filter>\n"@
}

/// The intent filters of links `0..n`.
pub open spec fn link_filters(links: Seq<AndroidDeepLink>, n: int) -> Seq<char>
    decreases n,
{
    if n <= 0 {
        Seq::empty()
    } else {
        link_filters(links, n - 1) + link_filter(links[n - 1])
    }
}

/// The manifest text without an earlier generated block.
pub open spec fn without_block(s: Seq<char>) -> Result<Seq<char>, Seq<char>> {
    match find_from(s, start_marker(), 0) {
        None => Ok(s),
        Some(start) => match find_from(s, end_marker(), start + start_marker().len()) {
            None => Err("Android manifest has an incomplete PAM deep-link block"@),
            Some(p) => Ok(s.take(start) + s.skip(p + end_marker().len())),
        },
    }
}

/// Where the main activity's closing tag starts in `t`.
pub open spec fn block_position(t: Seq<char>) -> Option<int> {
    match find_from(t, "android:name=\".PamActivity\""@, 0) {
        None => None,
        Some(a) => find_from(t, "</activity>"@, a),
    }
}

/// The manifest text with a block of intent filters for `links` just before
/// the main activity closes; no block at all where there are no links.
pub open spec fn with_deep_links_of(s: Seq<char>, links: Seq<AndroidDeepLink>) -> Result<Seq<char>, Seq<char>> {
    match without_block(s) {
        Err(e) => Err(e),
        Ok(t) => if links.len() == 0 {
            Ok(t)
        } else {
            match find_from(t, "android:name=\".PamActivity\""@, 0) {
                None => Err("Android manifest has no PamActivity element"@),
                Some(a) => match block_position(t) {
                    None => Err("Android manifest has no closing PamActivity element"@),
                    Some(e) => Ok(t.take(e) + start_marker() + link_filters(links, links.len() as int) + end_marker()
                        + t.skip(e)),
                },
            }
        },
    }
}

/// A second generated block would not be mistaken for the first: `t` holds no
/// start marker before the place where the block goes, and no link's filter
/// text holds the end marker.
pub open spec fn markers_unambiguous(t: Seq<char>, links: Seq<AndroidDeepLink>) -> bool {
    &&& if links.len() == 0 {
        find_from(t, start_marker(), 0) is None
    } else {
        forall|q: int|
            #![trigger occurs_at(t, start_marker(), q)]
            0 <= q && (block_position(t) matches Some(e) && q + start_marker().len() <= e) ==> !occurs_at(
                t,
                start_marker(),
                q,
            )
    }
    &&& forall|q: int| !occurs_at(link_filters(links, links.len() as int), end_marker(), q)
}

proof fn lemma_first_occurrence(x: Seq<char>, needle: Seq<char>, from: int, p: int)
    requires
        0 <= from <= p,
        occurs_at(x, needle, p),
        forall|q: int| from <= q < p ==> !occurs_at(x, needle, q),
    ensures
        find_from(x, needle, from) == Some(p),
    decreases p - from,
{
    if from < p {
        lemma_first_occurrence(x, needle, from + 1, p);
    }
}

proof fn lemma_markers_end_in_newline()
    ensures
        start_marker().len() == 36,
        end_marker().len() == 37,
        start_marker()[35] == '\n',
        end_marker()[36] == '\n',
        forall|k: int| 0 <= k < 35 ==> start_marker()[k] != '\n',
        forall|k: int| 0 <= k < 36 ==> end_marker()[k] != '\n',
{
    reveal_strlit("            <!-- pam:deep-links -->\n");
    reveal_strlit("            <!-- /pam:deep-links -->\n");
}

/// Writing the same deep links into a manifest a second time gives back the
/// manifest unchanged: the block written before is found and replaced.
pub proof fn lemma_deep_links_idempotent(s: Seq<char>, links: Seq<AndroidDeepLink>)
    requires
        without_block(s) matches Ok(t) && markers_unambiguous(t, links),
        with_deep_links_of(s, links) is Ok,
    ensures
        with_deep_links_of(with_deep_links_of(s, links)->Ok_0, links) == with_deep_links_of(s, links),
{
    let t = without_block(s)->Ok_0;
    let m = start_marker();
    let en = end_marker();
    if links.len() == 0 {
        assert(with_deep_links_of(s, links) == Ok::<Seq<char>, Seq<char>>(t));
        assert(without_block(t) == Ok::<Seq<char>, Seq<char>>(t));
    } else {
        lemma_markers_end_in_newline();
        let e = block_position(t)->Some_0;
        let f = link_filters(links, links.len() as int);
        let u = t.take(e) + m + f + en + t.skip(e);
        assert(with_deep_links_of(s, links) == Ok::<Seq<char>, Seq<char>>(u));
        assert(0 <= e <= t.len()) by {
            let a = find_from(t, "android:name=\".PamActivity\""@, 0)->Some_0;
            lemma_found_occurs(t, "</activity>"@, a);
        }
        assert(u.subrange(e, e + m.len()) =~= m);
        assert forall|q: int| 0 <= q < e implies !occurs_at(u, m, q) by {
            if q + m.len() <= e {
                assert(u.subrange(q, q + m.len()) =~= t.subrange(q, q + m.len()));
                assert(!occurs_at(t, m, q));
            } else if occurs_at(u, m, q) {
                assert(u.subrange(q, q + m.len())[35] == u[q + 35]);
                assert(u[q + 35] == m[q + 35 - e]);
            }
        }
        lemma_first_occurrence(u, m, 0, e);
        let fs = e + m.len();
        let es = fs + f.len();
        assert(u.subrange(es, es + en.len()) =~= en);
        assert forall|q: int| fs <= q < es implies !occurs_at(u, en, q) by {
            if q + en.len() <= es {
                assert(u.subrange(q, q + en.len()) =~= f.subrange(q - fs, q - fs + en.len()));
                assert(!occurs_at(f, en, q - fs));
            } else if occurs_at(u, en, q) {
                assert(u.subrange(q, q + en.len())[36] == u[q + 36]);
                assert(u[q + 36] == en[q + 36 - es]);
            }
        }
        lemma_first_occurrence(u, en, fs, es);
        assert(u.take(e) + u.skip(es + en.len()) =~= t);
        assert(without_block(u) == Ok::<Seq<char>, Seq<char>>(t));
    }
}

proof fn lemma_found_occurs(x: Seq<char>, needle: Seq<char>, from: int)
    requires
        find_from(x, needle, from) is Some,
    ensures
        from <= find_from(x, needle, from)->Some_0,
        occurs_at(x, needle, find_from(x, needle, from)->Some_0),
    decreases x.len() + 1 - from,
{
    if !occurs_at(x, needle, from) {
        lemma_found_occurs(x, needle, from + 1);
    }
}

#[verifier::rlimit(40)]
fn append_link_filter(out: &mut String, l: &AndroidDeepLink)
    ensures
        final(out)@ == old(out)@ + link_filter(*l),
{
    let ghost before = out@;
    out.append("            <intent-filter");
    if l.auto_verify {
        out.append(" android:autoVerify=\"true\"");
    }
    out.append(">\n");
    out.append("    <action android:name=\"android.intent.action.VIEW\" />\n");
    out.append("    <category android:name=\"android.intent.category.DEFAULT\" />\n");
    out.append("    <category android:name=\"android.intent.category.BROWSABLE\" />\n");
    out.append("    <data android:scheme=\"");
    out.append(l.scheme.as_str());
    out.append("\"");
    if let Some(h) = &l.host {
        out.append(" android:host=\"");
        out.append(h.as_str());
        out.append("\"");
    }
    if let Some(p) = &l.path_prefix {
        out.append(" android:pathPrefix=\"");
        out.append(p.as_str());
        out.append("\"");
    }
    out.append(" />\n");
    out.append("    </intent-filter>\n");
    assert(out@ =~= before + link_filter(*l));
}

/// Rewrites an Android manifest's text so that its main activity declares
/// exactly the given deep links, replacing any block generated before.
pub fn with_deep_links(contents: &str, links: &Vec<AndroidDeepLink>) -> (r: Result<String, String>)
    ensures
        match (r, with_deep_links_of(contents@, links@)) {
            (Ok(t), Ok(u)) => t@ == u,
            (Err(e), Err(m)) => e@ == m,
            _ => false,
        },
{
    let s = chars_of(contents);
    let start_text = chars_of("            <!-- pam:deep-links -->\n");
    let end_text = chars_of("            <!-- /pam:deep-links -->\n");
    let t: Vec<char> = match find_chars(&s, &start_text, 0) {
        None => s,
        Some(start) => {
            let n = s.len();
            assert(occurs_at(s@, start_text@, start as int));
            match find_chars(&s, &end_text, start + start_text.len()) {
                None => {
                    return Err(String::from_str("Android manifest has an incomplete PAM deep-link block"));
                },
                Some(p) => {
                    assert(occurs_at(s@, end_text@, p as int));
                    let mut kept: Vec<char> = Vec::new();
                    let mut i: usize = 0;
                    while i < start
                        invariant
                            i <= start,
                            start <= s@.len(),
                            kept@ == s@.take(i as int),
                        decreases start - i,
                    {
                        kept.push(s[i]);
                        proof {
                            assert(s@.take(i + 1) =~= s@.take(i as int).push(s@[i as int]));
                        }
                        i = i + 1;
                    }
                    let ghost head = kept@;
                    let mut i = p + end_text.len();
                    while i < s.len()
                        invariant
                            p + end_text@.len() <= i <= s@.len(),
                            kept@ == head + s@.subrange(p + end_text@.len(), i as int),
                        decreases s.len() - i,
                    {
                        kept.push(s[i]);
                        proof {
                            assert(s@.subrange(p + end_text@.len(), i + 1) =~= s@.subrange(p + end_text@.len(), i as int).push(
                                s@[i as int],
                            ));
                        }
                        i = i + 1;
                    }
                    proof {
                        assert(s@.subrange(p + end_text@.len(), s@.len() as int) =~= s@.skip(p + end_text@.len()));
                    }
                    kept
                },
            }
        },
    };
    let ghost tv = t@;
    assert(without_block(contents@) == Ok::<Seq<char>, Seq<char>>(tv));
    if links.len() == 0 {
        proof {
            assert(t@.subrange(0, t@.len() as int) =~= t@);
        }
        return Ok(string_of(&t, 0, t.len()));
    }
    let activity = chars_of("android:name=\".PamActivity\"");
    let closing = chars_of("</activity>");
    let a = match find_chars(&t, &activity, 0) {
        None => {
            return Err(String::from_str("Android manifest has no PamActivity element"));
        },
        Some(a) => a,
    };
    let e = match find_chars(&t, &closing, a) {
        None => {
            return Err(String::from_str("Android manifest has no closing PamActivity element"));
        },
        Some(e) => e,
    };
    let mut out = string_of(&t, 0, e);
    out.append("            <!-- pam:deep-links -->\n");
    let ghost head = out@;
    let mut i: usize = 0;
    while i < links.len()
        invariant
            i <= links@.len(),
            out@ == head + link_filters(links@, i as int),
        decreases links.len() - i,
    {
        append_link_filter(&mut out, &links[i]);
        i = i + 1;
    }
    out.append("            <!-- /pam:deep-links -->\n");
    let tail = string_of(&t, e, t.len());
    out.append(tail.as_str());
    proof {
        assert(t@.subrange(0, e as int) =~= t@.take(e as int));
        assert(t@.subrange(e as int, t@.len() as int) =~= t@.skip(e as int));
        assert(out@ =~= t@.take(e as int) + start_marker() + link_filters(links@, links@.len() as int) + end_marker() + t@.skip(e as int));
    }
    Ok(out)
}

} // verus!
