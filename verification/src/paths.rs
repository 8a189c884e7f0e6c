//! `/`-separated path handling: components, prefix stripping, joining and
//! lexical normalisation, following `std::path` on Unix.

use vstd::prelude::*;
use crate::text::{join, push_char, push_chars, to_chars};

verus! {

/// Segments of a path split at every `/` (empty ones included).
pub open spec fn split_slash_from(s: Seq<char>, cur: Seq<char>) -> Seq<Seq<char>>
    decreases s.len(),
{
    if s.len() == 0 {
        seq![cur]
    } else if s[0] == '/' {
        seq![cur] + split_slash_from(s.drop_first(), seq![])
    } else {
        split_slash_from(s.drop_first(), cur.push(s[0]))
    }
}

/// Whether a segment names a directory entry (not empty, not `.`).
pub open spec fn is_normal(seg: Seq<char>) -> bool {
    seg.len() > 0 && seg != seq!['.']
}

/// Components of `path` as `Path::components` yields them: `/` for a root,
/// a leading `.` kept, then every non-empty segment other than `.`.
pub open spec fn components(path: Seq<char>) -> Seq<Seq<char>> {
    let segs = split_slash_from(path, seq![]);
    let head: Seq<Seq<char>> = if path.len() > 0 && path[0] == '/' {
        seq![seq!['/']]
    } else if segs[0] == seq!['.'] {
        seq![seq!['.']]
    } else {
        seq![]
    };
    head + segs.filter(|g: Seq<char>| is_normal(g))
}

/// Text of a component list: a root followed by the rest joined with `/`,
/// or all joined with `/`.
pub open spec fn components_text(cs: Seq<Seq<char>>) -> Seq<char> {
    if cs.len() > 0 && cs[0] == seq!['/'] {
        seq!['/'] + join(cs.drop_first(), seq!['/'])
    } else {
        join(cs, seq!['/'])
    }
}

/// `Path::strip_prefix` followed by `display`: the rest of `path` after the
/// components of `base`, when they are a prefix of its components.
pub open spec fn strip_prefix(path: Seq<char>, base: Seq<char>) -> Option<Seq<char>> {
    let pc = components(path);
    let bc = components(base);
    if bc.len() <= pc.len() && pc.take(bc.len() as int) == bc {
        Some(join(pc.skip(bc.len() as int), seq!['/']))
    } else {
        None
    }
}

/// `Path::join`: an absolute `rel` replaces `base`; otherwise a `/` is put
/// between them unless `base` is empty or already ends with one.
pub open spec fn path_join(base: Seq<char>, rel: Seq<char>) -> Seq<char> {
    if rel.len() > 0 && rel[0] == '/' {
        rel
    } else if base.len() == 0 || base.last() == '/' {
        base + rel
    } else {
        base + seq!['/'] + rel
    }
}

/// Lexical normalisation step: `.` is dropped, `..` removes the last
/// component (never a lone root), anything else is appended.
pub open spec fn normalize_step(acc: Seq<Seq<char>>, c: Seq<char>) -> Seq<Seq<char>> {
    if c == seq!['.'] {
        acc
    } else if c == seq!['.', '.'] {
        if acc.len() == 0 || (acc.len() == 1 && acc[0] == seq!['/']) {
            acc
        } else {
            acc.drop_last()
        }
    } else {
        acc.push(c)
    }
}

/// Components after normalising the first `n`.
pub open spec fn normalize_fold(cs: Seq<Seq<char>>, n: int) -> Seq<Seq<char>>
    decreases n,
{
    if n <= 0 {
        seq![]
    } else {
        normalize_step(normalize_fold(cs, n - 1), cs[n - 1])
    }
}

/// `normalize_path`: components with `.` and `..` resolved lexically, `.`
/// when nothing is left.
pub open spec fn normalized(path: Seq<char>) -> Seq<char> {
    let cs = components(path);
    let out = normalize_fold(cs, cs.len() as int);
    if out.len() == 0 {
        seq!['.']
    } else {
        components_text(out)
    }
}

/// Splits at every `/`.
fn split_slash(s: &Vec<char>) -> (r: Vec<Vec<char>>)
    ensures
        r@.map_values(|g: Vec<char>| g@) == split_slash_from(s@, seq![]),
        r@.len() >= 1,
{
    let mut out: Vec<Vec<char>> = Vec::new();
    let mut cur: Vec<char> = Vec::new();
    let mut i: usize = 0;
    assert(s@.skip(0) =~= s@);
    while i < s.len()
        invariant
            i <= s@.len(),
            split_slash_from(s@, seq![]) == out@.map_values(|g: Vec<char>| g@) + split_slash_from(s@.skip(i as int), cur@),
        decreases s@.len() - i,
    {
        assert(s@.skip(i as int).drop_first() =~= s@.skip(i + 1));
        if s[i] == '/' {
            let ghost prev = out@.map_values(|g: Vec<char>| g@);
            let ghost c0 = cur@;
            out.push(cur);
            assert(out@.map_values(|g: Vec<char>| g@) =~= prev.push(c0));
            assert(prev.push(c0) + split_slash_from(s@.skip(i + 1), seq![]) =~= prev + (seq![c0] + split_slash_from(s@.skip(i + 1), seq![])));
            cur = Vec::new();
            assert(cur@ =~= Seq::<char>::empty());
        } else {
            cur.push(s[i]);
        }
        i += 1;
    }
    assert(s@.skip(i as int) =~= Seq::<char>::empty());
    let ghost prev = out@.map_values(|g: Vec<char>| g@);
    let ghost c0 = cur@;
    out.push(cur);
    assert(out@.map_values(|g: Vec<char>| g@) =~= prev + seq![c0]);
    out
}

fn is_dot(g: &Vec<char>) -> (b: bool)
    ensures
        b == (g@ == seq!['.']),
{
    if g.len() == 1 && g[0] == '.' {
        assert(g@ =~= seq!['.']);
        true
    } else {
        false
    }
}

fn is_dot_dot(g: &Vec<char>) -> (b: bool)
    ensures
        b == (g@ == seq!['.', '.']),
{
    if g.len() == 2 && g[0] == '.' && g[1] == '.' {
        assert(g@ =~= seq!['.', '.']);
        true
    } else {
        false
    }
}

fn is_root(g: &Vec<char>) -> (b: bool)
    ensures
        b == (g@ == seq!['/']),
{
    if g.len() == 1 && g[0] == '/' {
        assert(g@ =~= seq!['/']);
        true
    } else {
        false
    }
}

/// `Path::components` as character vectors.
pub fn path_components(path: &str) -> (r: Vec<Vec<char>>)
    ensures
        r@.map_values(|g: Vec<char>| g@) == components(path@),
{
    let s = to_chars(path);
    let segs = split_slash(&s);
    let ghost sv = segs@.map_values(|g: Vec<char>| g@);
    let mut out: Vec<Vec<char>> = Vec::new();
    if s.len() > 0 && s[0] == '/' {
        let mut root = Vec::new();
        root.push('/');
        assert(root@ =~= seq!['/']);
        out.push(root);
    } else if is_dot(&segs[0]) {
        let mut dot = Vec::new();
        dot.push('.');
        assert(dot@ =~= seq!['.']);
        out.push(dot);
    }
    let ghost head = out@.map_values(|g: Vec<char>| g@);
    let mut i: usize = 0;
    while i < segs.len()
        invariant
            i <= segs@.len(),
            sv == segs@.map_values(|g: Vec<char>| g@),
            out@.map_values(|g: Vec<char>| g@) == head + sv.take(i as int).filter(|g: Seq<char>| is_normal(g)),
        decreases segs@.len() - i,
    {
        let g = &segs[i];
        assert(sv.take(i + 1).drop_last() =~= sv.take(i as int));
        proof {
            sv.take(i as int).lemma_filter_push(sv[i as int], |g: Seq<char>| is_normal(g));
            assert(sv.take(i + 1) =~= sv.take(i as int).push(sv[i as int]));
        }
        if g.len() > 0 && !is_dot(g) {
            let ghost prev = out@.map_values(|g: Vec<char>| g@);
            out.push(g.clone());
            assert(out@.map_values(|g: Vec<char>| g@) =~= prev.push(sv[i as int]));
        }
        i += 1;
    }
    assert(sv.take(sv.len() as int) =~= sv);
    out
}

/// Text of a component list.
pub fn components_to_string(cs: &Vec<Vec<char>>) -> (r: String)
    ensures
        r@ == components_text(cs@.map_values(|g: Vec<char>| g@)),
{
    let ghost cv = cs@.map_values(|g: Vec<char>| g@);
    let mut s = String::new();
    let start: usize = if cs.len() > 0 && is_root(&cs[0]) {
        push_char(&mut s, '/');
        1
    } else {
        0
    };
    let ghost pre = s@;
    let mut i = start;
    assert(cv.skip(start as int).take(0) =~= Seq::<Seq<char>>::empty());
    while i < cs.len()
        invariant
            start <= i <= cs@.len(),
            cv == cs@.map_values(|g: Vec<char>| g@),
            s@ == pre + join(cv.subrange(start as int, i as int), seq!['/']),
        decreases cs@.len() - i,
    {
        let ghost prev = cv.subrange(start as int, i as int);
        let ghost next = cv.subrange(start as int, i + 1);
        assert(next.drop_last() =~= prev);
        if i > start {
            push_char(&mut s, '/');
        }
        push_chars(&mut s, cs[i].as_slice());
        proof {
            if i > start {
                assert(s@ =~= pre + (join(prev, seq!['/']) + seq!['/'] + cv[i as int]));
            } else {
                assert(next =~= seq![cv[i as int]]);
                assert(s@ =~= pre + cv[i as int]);
            }
        }
        i += 1;
    }
    proof {
        if start == 1 {
            assert(cv.subrange(1, cv.len() as int) =~= cv.drop_first());
        } else {
            assert(cv.subrange(0, cv.len() as int) =~= cv);
            assert(pre =~= Seq::<char>::empty());
        }
    }
    s
}

fn seqs_equal(a: &Vec<char>, b: &Vec<char>) -> (r: bool)
    ensures
        r == (a@ == b@),
{
    if a.len() != b.len() {
        return false;
    }
    let mut i: usize = 0;
    while i < a.len()
        invariant
            a@.len() == b@.len(),
            i <= a@.len(),
            forall|k: int| 0 <= k < i ==> a@[k] == b@[k],
        decreases a@.len() - i,
    {
        if a[i] != b[i] {
            return false;
        }
        i += 1;
    }
    assert(a@ =~= b@);
    true
}

/// `path.strip_prefix(base)` displayed, or `None` when `base` is not a
/// component prefix of `path`.
pub fn strip_path_prefix(path: &str, base: &str) -> (r: Option<String>)
    ensures
        r is Some <==> strip_prefix(path@, base@) is Some,
        r matches Some(s) ==> Some(s@) == strip_prefix(path@, base@),
{
    let pc = path_components(path);
    let bc = path_components(base);
    let ghost pv = pc@.map_values(|g: Vec<char>| g@);
    let ghost bv = bc@.map_values(|g: Vec<char>| g@);
    if bc.len() > pc.len() {
        return None;
    }
    let mut i: usize = 0;
    while i < bc.len()
        invariant
            bc@.len() <= pc@.len(),
            i <= bc@.len(),
            pv == pc@.map_values(|g: Vec<char>| g@),
            bv == bc@.map_values(|g: Vec<char>| g@),
            pv == components(path@),
            bv == components(base@),
            forall|k: int| 0 <= k < i ==> pv[k] == bv[k],
        decreases bc@.len() - i,
    {
        if !seqs_equal(&pc[i], &bc[i]) {
            assert(pv.take(bv.len() as int)[i as int] != bv[i as int]);
            return None;
        }
        i += 1;
    }
    assert(pv.take(bv.len() as int) =~= bv);
    let n = pc.len();
    let m = bc.len();
    let mut s = String::new();
    let mut j = m;
    while j < n
        invariant
            m <= j <= n == pc@.len(),
            m == bc@.len(),
            pv == pc@.map_values(|g: Vec<char>| g@),
            s@ == join(pv.subrange(m as int, j as int), seq!['/']),
        decreases n - j,
    {
        let ghost prev = pv.subrange(m as int, j as int);
        let ghost next = pv.subrange(m as int, j + 1);
        assert(next.drop_last() =~= prev);
        if j > m {
            push_char(&mut s, '/');
        }
        push_chars(&mut s, pc[j].as_slice());
        proof {
            if j > m {
                assert(s@ =~= join(prev, seq!['/']) + seq!['/'] + pv[j as int]);
            } else {
                assert(next =~= seq![pv[j as int]]);
                assert(s@ =~= pv[j as int]);
            }
        }
        j += 1;
    }
    assert(pv.subrange(m as int, n as int) =~= pv.skip(m as int));
    Some(s)
}

/// `base.join(rel)`.
pub fn join_path(base: &str, rel: &str) -> (r: String)
    ensures
        r@ == path_join(base@, rel@),
{
    let b = to_chars(base);
    let r = to_chars(rel);
    if r.len() > 0 && r[0] == '/' {
        return crate::text::from_chars(r.as_slice());
    }
    let mut s = crate::text::from_chars(b.as_slice());
    if !(b.len() == 0 || b[b.len() - 1] == '/') {
        push_char(&mut s, '/');
    }
    push_chars(&mut s, r.as_slice());
    s
}

/// Resolves `.` and `..` in `path` lexically (`.` when nothing is left).
pub fn normalize_path(path: &str) -> (r: String)
    ensures
        r@ == normalized(path@),
{
    let cs = path_components(path);
    let ghost cv = cs@.map_values(|g: Vec<char>| g@);
    let mut out: Vec<Vec<char>> = Vec::new();
    let mut i: usize = 0;
    while i < cs.len()
        invariant
            i <= cs@.len(),
            cv == cs@.map_values(|g: Vec<char>| g@),
            out@.map_values(|g: Vec<char>| g@) == normalize_fold(cv, i as int),
        decreases cs@.len() - i,
    {
        let c = &cs[i];
        let ghost prev = out@.map_values(|g: Vec<char>| g@);
        if is_dot(c) {
        } else if is_dot_dot(c) {
            if out.len() == 0 || (out.len() == 1 && is_root(&out[0])) {
            } else {
                out.pop();
                assert(out@.map_values(|g: Vec<char>| g@) =~= prev.drop_last());
            }
        } else {
            out.push(c.clone());
            assert(out@.map_values(|g: Vec<char>| g@) =~= prev.push(cv[i as int]));
        }
        i += 1;
    }
    if out.len() == 0 {
        let mut s = String::new();
        push_char(&mut s, '.');
        s
    } else {
        components_to_string(&out)
    }
}

/// `path_value` resolved against `index_root` unless it is absolute.
pub fn resolve_full_path(path_value: &str, index_root: &str) -> (r: String)
    ensures
        r@ == (if path_value@.len() > 0 && path_value@[0] == '/' { path_value@ } else { path_join(index_root@, path_value@) }),
{
    let v = to_chars(path_value);
    if v.len() > 0 && v[0] == '/' {
        crate::text::from_chars(v.as_slice())
    } else {
        join_path(index_root, path_value)
    }
}

/// The path shown for a result: `full_path` relative to the search root, or
/// `None` when it lies outside it.
pub fn scoped_display_path(full_path: &str, search_root: &str) -> (r: Option<String>)
    ensures
        r is Some <==> strip_prefix(full_path@, search_root@) is Some,
        r matches Some(s) ==> Some(s@) == strip_prefix(full_path@, search_root@),
{
    strip_path_prefix(full_path, search_root)
}

} // verus!
