//! Narrowing a file scan with the index: the files whose indexed symbols
//! or content hold a term, each once, in path order.
//!
//! Querying the index is the caller's; it hands over the stored paths of
//! the documents that matched (or nothing when the index cannot answer).

use vstd::prelude::*;
use crate::agent::{lemma_text_total, text_lt};
use crate::paths::{components, join_path, path_components, path_join};

verus! {

/// Order of component lists: component by component (each compared as
/// text), a prefix first.
pub open spec fn comps_lt(a: Seq<Seq<char>>, b: Seq<Seq<char>>) -> bool
    decreases a.len(),
{
    if a.len() == 0 {
        b.len() > 0
    } else if b.len() == 0 {
        false
    } else if a[0] != b[0] {
        text_lt(a[0], b[0])
    } else {
        comps_lt(a.skip(1), b.skip(1))
    }
}

proof fn lemma_comps_total(a: Seq<Seq<char>>, b: Seq<Seq<char>>)
    ensures
        comps_lt(a, b) || comps_lt(b, a) || a == b,
    decreases a.len(),
{
    if a.len() > 0 && b.len() > 0 {
        if a[0] == b[0] {
            lemma_comps_total(a.skip(1), b.skip(1));
            if a.skip(1) == b.skip(1) {
                assert(a =~= seq![a[0]] + a.skip(1));
                assert(b =~= seq![b[0]] + b.skip(1));
            }
        } else {
            lemma_text_total(a[0], b[0]);
        }
    } else if a.len() == 0 && b.len() == 0 {
        assert(a =~= b);
    }
}

/// Text order of characters.
fn text_less(a: &Vec<char>, b: &Vec<char>) -> (r: bool)
    ensures
        r == text_lt(a@, b@),
{
    let mut i: usize = 0;
    assert(a@.skip(0) =~= a@);
    assert(b@.skip(0) =~= b@);
    while i < a.len() && i < b.len() && a[i] == b[i]
        invariant
            i <= a@.len(),
            i <= b@.len(),
            text_lt(a@, b@) == text_lt(a@.skip(i as int), b@.skip(i as int)),
        decreases a@.len() - i,
    {
        assert(a@.skip(i as int).skip(1) =~= a@.skip(i + 1));
        assert(b@.skip(i as int).skip(1) =~= b@.skip(i + 1));
        i += 1;
    }
    if i < a.len() && i < b.len() {
        assert(a@.skip(i as int)[0] == a@[i as int]);
        assert(b@.skip(i as int)[0] == b@[i as int]);
        a[i] < b[i]
    } else {
        i == a.len() && i < b.len()
    }
}

/// Equality of characters.
fn text_same(a: &Vec<char>, b: &Vec<char>) -> (r: bool)
    ensures
        r == (a@ == b@),
{
    if a.len() != b.len() {
        return false;
    }
    let mut i: usize = 0;
    while i < a.len()
        invariant
            i <= a@.len() == b@.len(),
            forall|k: int| 0 <= k < i ==> a@[k] == b@[k],
        decreases a@.len() - i,
    {
        if a[i] != b[i] {
            return false;
        }
        i += 1;
    }
    assert(a@ =~= b@);
    true
}

/// Views of component lists.
pub open spec fn comp_views(v: Seq<Vec<char>>) -> Seq<Seq<char>> {
    v.map_values(|c: Vec<char>| c@)
}

/// Component order and equality of two component lists.
fn comps_order(a: &Vec<Vec<char>>, b: &Vec<Vec<char>>) -> (r: (bool, bool))
    ensures
        r.0 == comps_lt(comp_views(a@), comp_views(b@)),
        r.1 == (comp_views(a@) == comp_views(b@)),
{
    let ghost av = comp_views(a@);
    let ghost bv = comp_views(b@);
    let mut i: usize = 0;
    assert(av.skip(0) =~= av);
    assert(bv.skip(0) =~= bv);
    while i < a.len() && i < b.len() && text_same(&a[i], &b[i])
        invariant
            i <= a@.len(),
            i <= b@.len(),
            av == comp_views(a@),
            bv == comp_views(b@),
            forall|k: int| 0 <= k < i ==> av[k] == bv[k],
            comps_lt(av, bv) == comps_lt(av.skip(i as int), bv.skip(i as int)),
        decreases a@.len() - i,
    {
        assert(av.skip(i as int).skip(1) =~= av.skip(i + 1));
        assert(bv.skip(i as int).skip(1) =~= bv.skip(i + 1));
        assert(av.skip(i as int)[0] == av[i as int]);
        i += 1;
    }
    if i < a.len() && i < b.len() {
        assert(av.skip(i as int)[0] == av[i as int]);
        assert(bv.skip(i as int)[0] == bv[i as int]);
        let lt = text_less(&a[i], &b[i]);
        assert(av != bv) by {
            if av == bv {
                assert(av[i as int] == bv[i as int]);
            }
        }
        (lt, false)
    } else {
        let same = i == a.len() && i == b.len();
        proof {
            if same {
                assert(av =~= bv);
            }
            if av == bv {
                assert(av.len() == bv.len());
            }
        }
        (i == a.len() && i < b.len(), same)
    }
}

/// Component lists strictly increasing.
pub open spec fn strictly_sorted(s: Seq<Seq<Seq<char>>>) -> bool {
    forall|k: int| 0 <= k < s.len() - 1 ==> comps_lt(#[trigger] s[k], s[k + 1])
}

/// Component lists of paths.
pub open spec fn path_keys(v: Seq<String>) -> Seq<Seq<Seq<char>>> {
    v.map_values(|p: String| components(p@))
}

/// A stored path joined to the root.
#[verifier::opaque]
pub open spec fn joined(root: Seq<char>, rel: Seq<char>) -> Seq<char> {
    path_join(root, rel)
}

/// Whether two paths have the same components (name the same file).
#[verifier::opaque]
pub open spec fn same_file(a: Seq<char>, b: Seq<char>) -> bool {
    components(a) == components(b)
}

/// Whether `out` lists the files under `root` at the `matched` stored
/// paths: each joined to the root, each file once (paths with the same
/// components are the same file), in component order.
pub open spec fn lists_files(root: Seq<char>, matched: Seq<String>, out: Seq<String>) -> bool {
    &&& strictly_sorted(path_keys(out))
    &&& from_matches(root, matched, matched.len() as int, out)
    &&& all_listed(root, matched, matched.len() as int, out)
}

/// Component lists of stored keys.
pub open spec fn key_views(v: Seq<Vec<Vec<char>>>) -> Seq<Seq<Seq<char>>> {
    v.map_values(|c: Vec<Vec<char>>| comp_views(c@))
}

/// Where a key goes among strictly sorted keys: after the last smaller
/// one, or the position of an equal one (`true`).
fn find_slot(keys: &Vec<Vec<Vec<char>>>, pk: &Vec<Vec<char>>) -> (r: (usize, bool))
    ensures
        r.0 <= keys@.len(),
        forall|j: int| r.0 <= j < keys@.len() ==> comps_lt(comp_views(pk@), #[trigger] key_views(keys@)[j]),
        r.1 ==> r.0 > 0 && key_views(keys@)[r.0 - 1] == comp_views(pk@),
        !r.1 && r.0 > 0 ==> comps_lt(key_views(keys@)[r.0 - 1], comp_views(pk@)),
{
    let ghost kv = key_views(keys@);
    let ghost pkv = comp_views(pk@);
    let mut k: usize = keys.len();
    while k > 0
        invariant
            k <= keys@.len(),
            kv == key_views(keys@),
            pkv == comp_views(pk@),
            forall|j: int| k <= j < keys@.len() ==> comps_lt(pkv, #[trigger] kv[j]),
        decreases k,
    {
        let (lt, same) = comps_order(&keys[k - 1], pk);
        assert(kv[k - 1] == comp_views(keys@[k - 1]@));
        if same {
            return (k, true);
        }
        if lt {
            return (k, false);
        }
        proof {
            lemma_comps_total(kv[k - 1], pkv);
        }
        k -= 1;
    }
    (0, false)
}

proof fn lemma_insert_sorted(before: Seq<Seq<Seq<char>>>, k: int, x: Seq<Seq<char>>)
    requires
        0 <= k <= before.len(),
        strictly_sorted(before),
        forall|j: int| k <= j < before.len() ==> comps_lt(x, #[trigger] before[j]),
        k > 0 ==> comps_lt(before[k - 1], x),
    ensures
        strictly_sorted(before.insert(k, x)),
{
    let after = before.insert(k, x);
    assert forall|m: int| 0 <= m < after.len() - 1 implies comps_lt(#[trigger] after[m], after[m + 1]) by {
        if m + 1 < k {
            assert(after[m] == before[m] && after[m + 1] == before[m + 1]);
        } else if m + 1 == k {
            assert(after[m] == before[m]);
        } else if m == k {
            assert(after[m + 1] == before[m]);
        } else {
            assert(after[m] == before[m - 1] && after[m + 1] == before[m]);
        }
    }
}

/// The listed path at `k`.
pub open spec fn listed_at(out: Seq<String>, k: int) -> Seq<char> {
    out[k]@
}

/// Each listed file comes from one of the first `i` matches.
pub open spec fn from_matches(root: Seq<char>, matched: Seq<String>, i: int, out: Seq<String>) -> bool {
    forall|k: int| 0 <= k < out.len() ==> exists|m: int| 0 <= m < i
        && #[trigger] listed_at(out, k) == joined(root, matched[m]@)
}

/// Each of the first `i` matches is listed (by its components).
pub open spec fn all_listed(root: Seq<char>, matched: Seq<String>, i: int, out: Seq<String>) -> bool {
    forall|m: int| 0 <= m < i ==> exists|k: int| 0 <= k < out.len()
        && same_file(#[trigger] joined(root, matched[m]@), out[k]@)
}

proof fn lemma_dup_listed(root: Seq<char>, matched: Seq<String>, i: int, out: Seq<String>, k: int)
    requires
        0 <= i < matched.len(),
        0 <= k < out.len(),
        from_matches(root, matched, i, out),
        all_listed(root, matched, i, out),
        same_file(joined(root, matched[i]@), out[k]@),
    ensures
        from_matches(root, matched, i + 1, out),
        all_listed(root, matched, i + 1, out),
{
    assert forall|j: int| 0 <= j < out.len() implies exists|m: int| 0 <= m < i + 1
        && #[trigger] listed_at(out, j) == joined(root, matched[m]@) by {
        let m0 = choose|m0: int| 0 <= m0 < i && listed_at(out, j) == joined(root, matched[m0]@);
    }
    assert forall|m: int| 0 <= m < i + 1 implies exists|j: int| 0 <= j < out.len()
        && same_file(#[trigger] joined(root, matched[m]@), out[j]@) by {
        if m == i {
            assert(same_file(joined(root, matched[m]@), out[k]@));
        }
    }
}

proof fn lemma_insert_listed(root: Seq<char>, matched: Seq<String>, i: int, out: Seq<String>, k: int, p: String)
    requires
        0 <= i < matched.len(),
        0 <= k <= out.len(),
        from_matches(root, matched, i, out),
        all_listed(root, matched, i, out),
        p@ == joined(root, matched[i]@),
    ensures
        from_matches(root, matched, i + 1, out.insert(k, p)),
        all_listed(root, matched, i + 1, out.insert(k, p)),
{
    let after = out.insert(k, p);
    assert forall|j: int| 0 <= j < after.len() implies exists|m: int| 0 <= m < i + 1
        && #[trigger] listed_at(after, j) == joined(root, matched[m]@) by {
        if j == k {
            assert(listed_at(after, j) == joined(root, matched[i]@));
        } else if j < k {
            assert(listed_at(after, j) == listed_at(out, j));
        } else {
            assert(listed_at(after, j) == listed_at(out, j - 1));
        }
    }
    assert forall|m: int| 0 <= m < i + 1 implies exists|j: int| 0 <= j < after.len()
        && same_file(#[trigger] joined(root, matched[m]@), after[j]@) by {
        if m == i {
            reveal(same_file);
            assert(same_file(joined(root, matched[m]@), after[k]@));
        } else {
            let j0 = choose|j0: int| 0 <= j0 < out.len()
                && same_file(joined(root, matched[m]@), out[j0]@);
            if j0 < k {
                assert(after[j0] == out[j0]);
            } else {
                assert(after[j0 + 1] == out[j0]);
            }
        }
    }
}

/// The files under `root` at the matched stored paths.
pub fn files_from_matches(root: &str, matched: &[String]) -> (r: Vec<String>)
    ensures
        lists_files(root@, matched@, r@),
{
    let mut out: Vec<String> = Vec::new();
    let mut keys: Vec<Vec<Vec<char>>> = Vec::new();
    let mut i: usize = 0;
    assert(key_views(keys@) =~= path_keys(out@));
    while i < matched.len()
        invariant
            i <= matched@.len(),
            key_views(keys@) == path_keys(out@),
            strictly_sorted(path_keys(out@)),
            from_matches(root@, matched@, i as int, out@),
            all_listed(root@, matched@, i as int, out@),
        decreases matched@.len() - i,
    {
        let p = join_path(root, matched[i].as_str());
        proof {
            reveal(joined);
        }
        assert(p@ == joined(root@, matched@[i as int]@));
        let pk = path_components(p.as_str());
        let ghost pkv = comp_views(pk@);
        assert(pkv == components(p@));
        let (k, dup) = find_slot(&keys, &pk);
        if dup {
            proof {
                assert(path_keys(out@)[k - 1] == components(out@[k - 1]@));
                reveal(same_file);
                assert(same_file(joined(root@, matched@[i as int]@), out@[k - 1]@));
                lemma_dup_listed(root@, matched@, i as int, out@, k - 1);
            }
        } else {
            let ghost before = path_keys(out@);
            let ghost old_out = out@;
            proof {
                lemma_insert_sorted(before, k as int, pkv);
                lemma_insert_listed(root@, matched@, i as int, old_out, k as int, p);
            }
            out.insert(k, p);
            keys.insert(k, pk);
            proof {
                assert(path_keys(out@) =~= before.insert(k as int, pkv));
                assert(key_views(keys@) =~= before.insert(k as int, pkv));
            }
        }
        i += 1;
    }
    out
}

/// The files whose indexed symbols hold the name: `matched` is what the
/// index's `symbols` field gave for it, or `None` when the index cannot
/// answer.
pub fn find_files_with_symbol(root: &str, matched: Option<Vec<String>>) -> (r: Option<Vec<String>>)
    ensures
        match matched {
            Some(m) => r matches Some(v) && lists_files(root@, m@, v@),
            None => r is None,
        },
{
    match matched {
        Some(m) => Some(files_from_matches(root, m.as_slice())),
        None => None,
    }
}

/// The files whose indexed content holds the term: `matched` is what the
/// index's `content` field gave for it, or `None` when the index cannot
/// answer.
pub fn find_files_with_content(root: &str, matched: Option<Vec<String>>) -> (r: Option<Vec<String>>)
    ensures
        match matched {
            Some(m) => r matches Some(v) && lists_files(root@, m@, v@),
            None => r is None,
        },
{
    match matched {
        Some(m) => Some(files_from_matches(root, m.as_slice())),
        None => None,
    }
}

} // verus!
