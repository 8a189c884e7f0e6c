//! Expanding result ids for agents: every line of the scanned files whose
//! stable id was asked for comes back with its context, ordered by path
//! and line.

use vstd::prelude::*;
use crate::hashing::{spec_stable_result_id, stable_result_id};
use crate::scan::{count_distinct, file_views, rel_path, relative_path, string_lines, ScannedFile};
use crate::snippets::{context_from_lines, context_window, line_to_snippet, spec_snippet, views};
use crate::text::{lines, split_lines, str_eq, to_chars};
use vstd::multiset::Multiset;
use vstd::seq_lib::{to_multiset_build, to_multiset_insert};

verus! {

/// One expanded id.
#[derive(Debug, Clone)]
pub struct AgentExpandResult {
    pub id: String,
    pub path: String,
    /// 1-based line of the id.
    pub line: usize,
    /// First line of the context.
    pub start_line: usize,
    /// Last line of the context.
    pub end_line: usize,
    pub snippet: String,
    pub context_before: Vec<String>,
    pub context_after: Vec<String>,
}

/// Id, path, line, first and last context line, snippet, context before and after.
pub type ExpandView = (Seq<char>, Seq<char>, usize, usize, usize, Seq<char>, Seq<Seq<char>>, Seq<Seq<char>>);

impl View for AgentExpandResult {
    type V = ExpandView;

    open spec fn view(&self) -> ExpandView {
        (self.id@, self.path@, self.line, self.start_line, self.end_line, self.snippet@,
            views(self.context_before@), views(self.context_after@))
    }
}

/// What the expansion reports about itself.
#[derive(Debug, Clone)]
pub struct AgentExpandMeta {
    pub schema_version: String,
    pub stage: String,
    /// Distinct ids asked for.
    pub requested_ids: usize,
    /// Lines found.
    pub resolved_ids: usize,
    pub context: usize,
    pub search_root: String,
}

/// The expansion's answer.
#[derive(Debug, Clone)]
pub struct AgentExpandPayload {
    pub meta: AgentExpandMeta,
    pub results: Vec<AgentExpandResult>,
}

/// Why expansion failed.
#[derive(Debug, Clone, Copy, PartialEq, Eq, Structural)]
pub enum ExpandError {
    /// A line's snippet would be cut inside a character.
    SnippetSplitsCharacter,
}

/// Context of a line: none with zero context or an empty file.
pub open spec fn expand_context(ls: Seq<Seq<char>>, line_num: int, context: usize) -> (Seq<Seq<char>>, Seq<Seq<char>>) {
    if context == 0 || ls.len() == 0 {
        (seq![], seq![])
    } else {
        context_window(ls, line_num, context as int)
    }
}

/// The expansion of line `j` (0-based) of a file, given its snippet.
pub open spec fn expansion(rel: Seq<char>, ls: Seq<Seq<char>>, j: int, snippet: Seq<char>, context: usize) -> ExpandView {
    let line_num = j + 1;
    let cx = expand_context(ls, line_num, context);
    let start = if line_num >= cx.0.len() { line_num - cx.0.len() } else { 0 };
    (spec_stable_result_id(rel, line_num as nat, snippet), rel, line_num as usize, start as usize,
        (line_num + cx.1.len()) as usize, snippet, cx.0, cx.1)
}

/// Expansions of lines `j..` of one file whose ids are wanted.
pub open spec fn line_expansions(rel: Seq<char>, ls: Seq<Seq<char>>, wanted: Seq<Seq<char>>, context: usize, j: int) -> Seq<ExpandView>
    decreases ls.len() - j,
{
    if j < 0 || j >= ls.len() {
        seq![]
    } else {
        let rest = line_expansions(rel, ls, wanted, context, j + 1);
        match spec_snippet(ls[j], 150) {
            Some(sn) => if wanted.contains(spec_stable_result_id(rel, (j + 1) as nat, sn)) {
                seq![expansion(rel, ls, j, sn, context)] + rest
            } else {
                rest
            },
            None => rest,
        }
    }
}

/// Expansions in files `i..`, in file order.
pub open spec fn file_expansions(files: Seq<(Seq<char>, Seq<char>)>, root: Seq<char>, wanted: Seq<Seq<char>>, context: usize, i: int) -> Seq<ExpandView>
    decreases files.len() - i,
{
    if i < 0 || i >= files.len() {
        seq![]
    } else {
        line_expansions(rel_path(files[i].0, root), lines(files[i].1), wanted, context, 0)
            + file_expansions(files, root, wanted, context, i + 1)
    }
}

/// Whether every line of every file has a snippet.
pub open spec fn snippets_cut(files: Seq<(Seq<char>, Seq<char>)>) -> bool {
    forall|i: int, j: int| 0 <= i < files.len() && 0 <= j < lines(files[i].1).len() ==>
        (#[trigger] spec_snippet(lines(files[i].1)[j], 150)) is Some
}

/// Lexicographic order of texts, by character.
pub open spec fn text_lt(a: Seq<char>, b: Seq<char>) -> bool
    decreases a.len(),
{
    if a.len() == 0 {
        b.len() > 0
    } else if b.len() == 0 {
        false
    } else if a[0] != b[0] {
        a[0] < b[0]
    } else {
        text_lt(a.skip(1), b.skip(1))
    }
}

/// Expansions ordered by path, then line.
pub open spec fn expand_le(a: ExpandView, b: ExpandView) -> bool {
    text_lt(a.1, b.1) || (a.1 == b.1 && a.2 <= b.2)
}

/// Each expansion is ordered before the next.
pub open spec fn expand_sorted(s: Seq<ExpandView>) -> bool {
    forall|k: int| 0 <= k < s.len() - 1 ==> expand_le(#[trigger] s[k], s[k + 1])
}

pub proof fn lemma_text_total(a: Seq<char>, b: Seq<char>)
    ensures
        text_lt(a, b) || text_lt(b, a) || a == b,
    decreases a.len(),
{
    if a.len() > 0 && b.len() > 0 && a[0] == b[0] {
        lemma_text_total(a.skip(1), b.skip(1));
        if a.skip(1) == b.skip(1) {
            assert(a =~= seq![a[0]] + a.skip(1));
            assert(b =~= seq![b[0]] + b.skip(1));
        }
    } else if a.len() == 0 && b.len() == 0 {
        assert(a =~= b);
    }
}

/// Whether `a` is ordered before `b` by path, then line.
fn result_le(a: &AgentExpandResult, b: &AgentExpandResult) -> (r: bool)
    ensures
        r == expand_le(a@, b@),
{
    let av = to_chars(a.path.as_str());
    let bv = to_chars(b.path.as_str());
    let mut i: usize = 0;
    assert(av@.skip(0) =~= av@);
    assert(bv@.skip(0) =~= bv@);
    while i < av.len() && i < bv.len() && av[i] == bv[i]
        invariant
            i <= av@.len(),
            i <= bv@.len(),
            av@ == a.path@,
            bv@ == b.path@,
            forall|k: int| 0 <= k < i ==> av@[k] == bv@[k],
            text_lt(av@, bv@) == text_lt(av@.skip(i as int), bv@.skip(i as int)),
        decreases av@.len() - i,
    {
        proof {
            let x = av@.skip(i as int);
            let y = bv@.skip(i as int);
            assert(x.skip(1) =~= av@.skip(i + 1));
            assert(y.skip(1) =~= bv@.skip(i + 1));
        }
        i += 1;
    }
    let lt = if i == av.len() {
        i < bv.len()
    } else if i == bv.len() {
        false
    } else {
        av[i] < bv[i]
    };
    assert(lt == text_lt(av@, bv@)) by {
        assert(av@.skip(i as int).len() == av@.len() - i);
        if i < av@.len() && i < bv@.len() {
            assert(av@.skip(i as int)[0] == av@[i as int]);
            assert(bv@.skip(i as int)[0] == bv@[i as int]);
        }
    }
    let eq = i == av.len() && i == bv.len();
    assert(eq == (av@ == bv@)) by {
        if eq {
            assert(av@ =~= bv@);
        }
        if av@ == bv@ {
            if i < av@.len() {
                assert(av@[i as int] == bv@[i as int]);
            }
        }
    }
    lt || (eq && a.line <= b.line)
}

/// Views of results.
pub open spec fn result_views(v: Seq<AgentExpandResult>) -> Seq<ExpandView> {
    v.map_values(|r: AgentExpandResult| r@)
}

/// Sorts results by path, then line.
fn sort_results(v: Vec<AgentExpandResult>) -> (r: Vec<AgentExpandResult>)
    ensures
        expand_sorted(result_views(r@)),
        result_views(r@).to_multiset() == result_views(v@).to_multiset(),
{
    let ghost all = result_views(v@);
    let mut src = v;
    let mut out: Vec<AgentExpandResult> = Vec::new();
    proof {
        broadcast use vstd::multiset::group_multiset_axioms;
        assert(result_views(out@) =~= Seq::<ExpandView>::empty());
        vstd::seq_lib::to_multiset_len(result_views(out@));
        vstd::multiset::lemma_multiset_empty_len(result_views(out@).to_multiset());
        assert(result_views(out@).to_multiset() =~= Multiset::<ExpandView>::empty());
        assert(Multiset::<ExpandView>::empty().add(all.to_multiset()) =~= all.to_multiset());
    }
    while src.len() > 0
        invariant
            expand_sorted(result_views(out@)),
            result_views(out@).to_multiset().add(result_views(src@).to_multiset()) == all.to_multiset(),
        decreases src@.len(),
    {
        let ghost src_before = result_views(src@);
        let x = src.pop().unwrap();
        let ghost xv = x@;
        proof {
            assert(src_before =~= result_views(src@).push(xv));
            to_multiset_build(result_views(src@), xv);
        }
        let mut k: usize = out.len();
        while k > 0 && !result_le(&out[k - 1], &x)
            invariant
                k <= out@.len(),
                forall|m: int| k <= m < out@.len() ==> !expand_le(#[trigger] result_views(out@)[m], xv),
                x@ == xv,
            decreases k,
        {
            k -= 1;
        }
        let ghost before = result_views(out@);
        out.insert(k, x);
        proof {
            let after = result_views(out@);
            assert(after =~= before.insert(k as int, xv));
            to_multiset_insert(before, k as int, xv);
            assert forall|m: int| 0 <= m < after.len() - 1 implies expand_le(#[trigger] after[m], after[m + 1]) by {
                if m + 1 < k {
                    assert(after[m] == before[m] && after[m + 1] == before[m + 1]);
                    assert(expand_le(before[m], before[m + 1]));
                } else if m + 1 == k {
                    assert(after[m] == before[m]);
                } else if m == k {
                    assert(after[m + 1] == before[m]);
                    assert(!expand_le(before[k as int], xv));
                    lemma_text_total(before[k as int].1, xv.1);
                } else {
                    assert(after[m] == before[m - 1] && after[m + 1] == before[m]);
                    assert(expand_le(before[m - 1], before[m]));
                }
            }
        }
    }
    proof {
        broadcast use vstd::multiset::group_multiset_axioms;
        assert(result_views(src@) =~= Seq::<ExpandView>::empty());
        vstd::seq_lib::to_multiset_len(result_views(src@));
        vstd::multiset::lemma_multiset_empty_len(result_views(src@).to_multiset());
        assert(result_views(src@).to_multiset() =~= Multiset::<ExpandView>::empty());
        assert(result_views(out@).to_multiset().add(Multiset::<ExpandView>::empty()) =~= result_views(out@).to_multiset());
    }
    out
}

/// Whether `p` is one of `v`.
fn has_id(v: &[String], p: &str) -> (b: bool)
    ensures
        b == views(v@).contains(p@),
{
    let mut i: usize = 0;
    while i < v.len()
        invariant
            i <= v@.len(),
            forall|k: int| 0 <= k < i ==> v@[k]@ != p@,
        decreases v@.len() - i,
    {
        if str_eq(v[i].as_str(), p) {
            assert(views(v@)[i as int] == p@);
            return true;
        }
        i += 1;
    }
    assert(!views(v@).contains(p@)) by {
        if views(v@).contains(p@) {
            let k = choose|k: int| 0 <= k < views(v@).len() && views(v@)[k] == p@;
            assert(v@[k]@ == p@);
        }
    }
    false
}

/// Number of distinct texts.
fn count_distinct_ids(ids: &[String]) -> (n: usize)
    ensures
        n == count_distinct(views(ids@)),
{
    let ghost ps = views(ids@);
    let mut n: usize = 0;
    let mut i: usize = 0;
    while i < ids.len()
        invariant
            i <= ids@.len(),
            ps == views(ids@),
            n == count_distinct(ps.take(i as int)),
            n <= i,
        decreases ids@.len() - i,
    {
        let seen = has_id(&ids[0..i], ids[i].as_str());
        proof {
            assert(views(ids@.subrange(0, i as int)) =~= ps.take(i as int));
            let t = ps.take(i + 1);
            assert(t.drop_last() =~= ps.take(i as int));
            assert(t.last() == ids@[i as int]@);
        }
        if !seen {
            n += 1;
        }
        i += 1;
    }
    assert(ps.take(ids@.len() as int) =~= ps);
    n
}

proof fn lemma_line_expansions_unfold(rel: Seq<char>, ls: Seq<Seq<char>>, wanted: Seq<Seq<char>>, context: usize, j: int)
    requires
        0 <= j < ls.len(),
    ensures
        line_expansions(rel, ls, wanted, context, j) == match spec_snippet(ls[j], 150) {
            Some(sn) => if wanted.contains(spec_stable_result_id(rel, (j + 1) as nat, sn)) {
                seq![expansion(rel, ls, j, sn, context)] + line_expansions(rel, ls, wanted, context, j + 1)
            } else {
                line_expansions(rel, ls, wanted, context, j + 1)
            },
            None => line_expansions(rel, ls, wanted, context, j + 1),
        },
{
}

/// Expands the wanted ids over the scanned files: each line whose stable
/// id (of its path relative to the root, its 1-based number and its
/// snippet) was asked for is returned with its context, ordered by path
/// and line.
pub fn run_expand(ids: &[String], search_root: &str, files: &[ScannedFile], context: usize) -> (r: Result<AgentExpandPayload, ExpandError>)
    ensures
        r is Err <==> !snippets_cut(file_views(files@)),
        r matches Ok(p) ==> {
            &&& expand_sorted(result_views(p.results@))
            &&& result_views(p.results@).to_multiset()
                == file_expansions(file_views(files@), search_root@, views(ids@), context, 0).to_multiset()
            &&& p.meta.requested_ids == count_distinct(views(ids@))
            &&& p.meta.resolved_ids == p.results@.len()
            &&& p.meta.context == context
            &&& p.meta.search_root@ == search_root@
            &&& p.meta.schema_version@ == "1"@
            &&& p.meta.stage@ == "expand"@
        },
{
    let ghost fv = file_views(files@);
    let ghost wanted = views(ids@);
    let ghost all = file_expansions(fv, search_root@, wanted, context, 0);
    let mut found: Vec<AgentExpandResult> = Vec::new();
    let mut i: usize = 0;
    while i < files.len()
        invariant
            i <= files@.len(),
            fv == file_views(files@),
            wanted == views(ids@),
            all == file_expansions(fv, search_root@, wanted, context, 0),
            all == result_views(found@) + file_expansions(fv, search_root@, wanted, context, i as int),
            forall|a: int, b: int| 0 <= a < i && 0 <= b < lines(fv[a].1).len() ==>
                (#[trigger] spec_snippet(lines(fv[a].1)[b], 150)) is Some,
        decreases files@.len() - i,
    {
        assert(fv[i as int] == (files@[i as int].path@, files@[i as int].content@));
        let rel = relative_path(files[i].path.as_str(), search_root);
        let ls = string_lines(files[i].content.as_str());
        let ghost lsv = views(ls@);
        let mut j: usize = 0;
        while j < ls.len()
            invariant
                i < files@.len(),
                j <= ls@.len(),
                fv == file_views(files@),
                wanted == views(ids@),
                lsv == views(ls@),
                lsv == lines(fv[i as int].1),
                rel@ == rel_path(fv[i as int].0, search_root@),
                all == result_views(found@) + line_expansions(rel@, lsv, wanted, context, j as int)
                    + file_expansions(fv, search_root@, wanted, context, i + 1),
                forall|a: int, b: int| 0 <= a < i && 0 <= b < lines(fv[a].1).len() ==>
                    (#[trigger] spec_snippet(lines(fv[a].1)[b], 150)) is Some,
                forall|b: int| 0 <= b < j ==> (#[trigger] spec_snippet(lsv[b], 150)) is Some,
            decreases ls@.len() - j,
        {
            let line = ls[j].as_str();
            assert(lsv[j as int] == line@);
            proof {
                lemma_line_expansions_unfold(rel@, lsv, wanted, context, j as int);
            }
            let snippet = match line_to_snippet(line) {
                Some(s) => s,
                None => {
                    proof {
                        assert(spec_snippet(lines(fv[i as int].1)[j as int], 150) is None);
                    }
                    return Err(ExpandError::SnippetSplitsCharacter);
                },
            };
            let line_num = j + 1;
            let id = stable_result_id(rel.as_str(), line_num, snippet.as_str());
            let ghost before = result_views(found@);
            let ghost rest = line_expansions(rel@, lsv, wanted, context, j + 1)
                + file_expansions(fv, search_root@, wanted, context, i + 1);
            if has_id(ids, id.as_str()) {
                let (cb, ca) = context_from_lines(&ls, line_num, context);
                proof {
                    assert(views(ca@).len() == ca@.len());
                    assert(views(cb@).len() == cb@.len());
                }
                let start_line = line_num.saturating_sub(cb.len());
                let end_line = line_num + ca.len();
                let res = AgentExpandResult {
                    id,
                    path: rel.clone(),
                    line: line_num,
                    start_line,
                    end_line,
                    snippet,
                    context_before: cb,
                    context_after: ca,
                };
                let ghost rv = res@;
                assert(rv == expansion(rel@, lsv, j as int, snippet@, context));
                found.push(res);
                assert(result_views(found@) =~= before.push(rv));
                assert(before.push(rv) + rest =~= before + (seq![rv] + rest));
            } else {
                assert(before + rest =~= before + line_expansions(rel@, lsv, wanted, context, j as int)
                    + file_expansions(fv, search_root@, wanted, context, i + 1));
            }
            j += 1;
        }
        proof {
            assert(line_expansions(rel@, lsv, wanted, context, j as int) =~= Seq::<ExpandView>::empty());
            assert(result_views(found@) + Seq::<ExpandView>::empty() =~= result_views(found@));
            assert forall|a: int, b: int| 0 <= a < i + 1 && 0 <= b < lines(fv[a].1).len() implies
                (#[trigger] spec_snippet(lines(fv[a].1)[b], 150)) is Some by {
                if a == i {
                    assert(spec_snippet(lsv[b], 150) is Some);
                }
            }
        }
        i += 1;
    }
    proof {
        assert(file_expansions(fv, search_root@, wanted, context, i as int) =~= Seq::<ExpandView>::empty());
        assert(all =~= result_views(found@));
    }
    let resolved = found.len();
    let requested = count_distinct_ids(ids);
    let results = sort_results(found);
    proof {
        vstd::seq_lib::to_multiset_len(result_views(results@));
        vstd::seq_lib::to_multiset_len(all);
    }
    Ok(AgentExpandPayload {
        meta: AgentExpandMeta {
            schema_version: String::from_str("1"),
            stage: String::from_str("expand"),
            requested_ids: requested,
            resolved_ids: resolved,
            context,
            search_root: String::from_str(search_root),
        },
        results,
    })
}


/// A located line, as `agent locate` reports it.
#[derive(Debug, Clone)]
pub struct LocateEntry {
    /// Stable id of the line, which `agent expand` accepts.
    pub id: String,
    /// Path relative to the search root.
    pub path: String,
    /// 1-based line.
    pub line: usize,
    /// The line's snippet.
    pub snippet: String,
}

/// The located entry for a result at `path`, `line` with `snippet`: its id
/// is the line's stable id.
pub fn locate_entry(path: &str, line: usize, snippet: &str) -> (e: LocateEntry)
    ensures
        e.id@ == spec_stable_result_id(path@, line as nat, snippet@),
        e.path@ == path@,
        e.line == line,
        e.snippet@ == snippet@,
{
    LocateEntry {
        id: stable_result_id(path, line, snippet),
        path: String::from_str(path),
        line,
        snippet: String::from_str(snippet),
    }
}

proof fn lemma_line_expansions_hold(rel: Seq<char>, ls: Seq<Seq<char>>, wanted: Seq<Seq<char>>, context: usize, start: int, j: int, sn: Seq<char>)
    requires
        0 <= start <= j < ls.len(),
        spec_snippet(ls[j], 150) == Some(sn),
        wanted.contains(spec_stable_result_id(rel, (j + 1) as nat, sn)),
    ensures
        line_expansions(rel, ls, wanted, context, start).contains(expansion(rel, ls, j, sn, context)),
    decreases j - start,
{
    let e = expansion(rel, ls, j, sn, context);
    let rest = line_expansions(rel, ls, wanted, context, start + 1);
    if start == j {
        assert(line_expansions(rel, ls, wanted, context, start) == seq![e] + rest);
        assert((seq![e] + rest)[0] == e);
    } else {
        lemma_line_expansions_hold(rel, ls, wanted, context, start + 1, j, sn);
        let k = choose|k: int| 0 <= k < rest.len() && rest[k] == e;
        match spec_snippet(ls[start], 150) {
            Some(s0) => if wanted.contains(spec_stable_result_id(rel, (start + 1) as nat, s0)) {
                let x = expansion(rel, ls, start, s0, context);
                assert((seq![x] + rest)[k + 1] == e);
            } else {
            },
            None => {},
        }
    }
}

proof fn lemma_file_expansions_hold(files: Seq<(Seq<char>, Seq<char>)>, root: Seq<char>, wanted: Seq<Seq<char>>, context: usize, start: int, i: int, j: int, sn: Seq<char>)
    requires
        0 <= start <= i < files.len(),
        0 <= j < lines(files[i].1).len(),
        spec_snippet(lines(files[i].1)[j], 150) == Some(sn),
        wanted.contains(spec_stable_result_id(rel_path(files[i].0, root), (j + 1) as nat, sn)),
    ensures
        file_expansions(files, root, wanted, context, start).contains(
            expansion(rel_path(files[i].0, root), lines(files[i].1), j, sn, context)),
    decreases i - start,
{
    let e = expansion(rel_path(files[i].0, root), lines(files[i].1), j, sn, context);
    let here = line_expansions(rel_path(files[start].0, root), lines(files[start].1), wanted, context, 0);
    let rest = file_expansions(files, root, wanted, context, start + 1);
    assert(file_expansions(files, root, wanted, context, start) == here + rest);
    if start == i {
        lemma_line_expansions_hold(rel_path(files[i].0, root), lines(files[i].1), wanted, context, 0, j, sn);
        let k = choose|k: int| 0 <= k < here.len() && here[k] == e;
        assert((here + rest)[k] == e);
    } else {
        lemma_file_expansions_hold(files, root, wanted, context, start + 1, i, j, sn);
        let k = choose|k: int| 0 <= k < rest.len() && rest[k] == e;
        assert((here + rest)[here.len() + k] == e);
    }
}

proof fn lemma_line_expansions_wanted(rel: Seq<char>, ls: Seq<Seq<char>>, wanted: Seq<Seq<char>>, context: usize, start: int)
    ensures
        forall|k: int| 0 <= k < line_expansions(rel, ls, wanted, context, start).len() ==>
            wanted.contains((#[trigger] line_expansions(rel, ls, wanted, context, start)[k]).0),
    decreases ls.len() - start,
{
    if 0 <= start < ls.len() {
        lemma_line_expansions_wanted(rel, ls, wanted, context, start + 1);
        let rest = line_expansions(rel, ls, wanted, context, start + 1);
        match spec_snippet(ls[start], 150) {
            Some(s0) => if wanted.contains(spec_stable_result_id(rel, (start + 1) as nat, s0)) {
                let x = expansion(rel, ls, start, s0, context);
                assert forall|k: int| 0 <= k < (seq![x] + rest).len() implies wanted.contains((#[trigger] (seq![x] + rest)[k]).0) by {
                    if k > 0 {
                        assert((seq![x] + rest)[k] == rest[k - 1]);
                    }
                }
            },
            None => {},
        }
    }
}

proof fn lemma_file_expansions_wanted(files: Seq<(Seq<char>, Seq<char>)>, root: Seq<char>, wanted: Seq<Seq<char>>, context: usize, start: int)
    ensures
        forall|k: int| 0 <= k < file_expansions(files, root, wanted, context, start).len() ==>
            wanted.contains((#[trigger] file_expansions(files, root, wanted, context, start)[k]).0),
    decreases files.len() - start,
{
    if 0 <= start < files.len() {
        lemma_file_expansions_wanted(files, root, wanted, context, start + 1);
        let here = line_expansions(rel_path(files[start].0, root), lines(files[start].1), wanted, context, 0);
        let rest = file_expansions(files, root, wanted, context, start + 1);
        lemma_line_expansions_wanted(rel_path(files[start].0, root), lines(files[start].1), wanted, context, 0);
        assert forall|k: int| 0 <= k < (here + rest).len() implies wanted.contains((#[trigger] (here + rest)[k]).0) by {
            if k < here.len() {
                assert((here + rest)[k] == here[k]);
            } else {
                assert((here + rest)[k] == rest[k - here.len()]);
            }
        }
    }
}

/// Locate and expand agree: a line whose stable id (of its path relative
/// to the root, its number and its snippet) is asked for is expanded.
pub proof fn law_locate_expand_round_trip(
    files: Seq<(Seq<char>, Seq<char>)>,
    root: Seq<char>,
    wanted: Seq<Seq<char>>,
    context: usize,
    i: int,
    j: int,
    sn: Seq<char>,
)
    requires
        0 <= i < files.len(),
        0 <= j < lines(files[i].1).len(),
        spec_snippet(lines(files[i].1)[j], 150) == Some(sn),
        wanted.contains(spec_stable_result_id(rel_path(files[i].0, root), (j + 1) as nat, sn)),
    ensures
        file_expansions(files, root, wanted, context, 0).contains(
            expansion(rel_path(files[i].0, root), lines(files[i].1), j, sn, context)),
{
    lemma_file_expansions_hold(files, root, wanted, context, 0, i, j, sn);
}

/// Expand only gives lines whose ids were asked for.
pub proof fn law_expansions_are_wanted(files: Seq<(Seq<char>, Seq<char>)>, root: Seq<char>, wanted: Seq<Seq<char>>, context: usize)
    ensures
        forall|k: int| 0 <= k < file_expansions(files, root, wanted, context, 0).len() ==>
            wanted.contains((#[trigger] file_expansions(files, root, wanted, context, 0)[k]).0),
{
    lemma_file_expansions_wanted(files, root, wanted, context, 0);
}

} // verus!
