//! Context packs: the lines around search hits of one file, with
//! overlapping or adjacent line ranges merged into single blocks.

use vstd::prelude::*;
use vstd::seq_lib::to_multiset_insert;
use crate::text::{join, join_lines, lines, split_lines, to_chars};

verus! {

/// A single code block within a context pack.
#[derive(Debug, Clone)]
pub struct ContextBlock {
    /// Starting line (1-indexed).
    pub start_line: usize,
    /// Ending line (1-indexed, inclusive).
    pub end_line: usize,
    /// The text content.
    pub text: String,
}

/// Context pack for one file.
#[derive(Debug, Clone)]
pub struct ContextPack {
    /// File path.
    pub path: String,
    /// Code blocks with merged ranges.
    pub blocks: Vec<ContextBlock>,
}

/// Builds context packs by merging the line ranges around hits.
#[derive(Debug, Clone, Copy)]
pub struct ContextPackBuilder {
    context_lines: usize,
}

/// Line `x` lies in one of the ranges.
pub open spec fn covers(rs: Seq<(usize, usize)>, x: int) -> bool {
    exists|i: int| #[trigger] covers_at(rs, i, x)
}

/// Range `i` of `rs` holds line `x`.
pub open spec fn covers_at(rs: Seq<(usize, usize)>, i: int, x: int) -> bool {
    0 <= i < rs.len() && rs[i].0 <= x && x <= rs[i].1
}

/// Ranges sorted by start.
pub open spec fn sorted_by_start(rs: Seq<(usize, usize)>) -> bool {
    forall|i: int, j: int| 0 <= i < j < rs.len() ==> rs[i].0 <= rs[j].0
}

/// Each range has start <= end.
pub open spec fn well_formed(rs: Seq<(usize, usize)>) -> bool {
    forall|i: int| 0 <= i < rs.len() ==> rs[i].0 <= rs[i].1
}

/// Ranges in increasing order with at least one line between neighbours.
pub open spec fn separated(rs: Seq<(usize, usize)>) -> bool {
    &&& well_formed(rs)
    &&& forall|i: int, j: int| 0 <= i < j < rs.len() ==> rs[i].1 + 1 < rs[j].0
}

/// Finished ranges and the open one after the first `n` ranges (`n >= 1`).
pub open spec fn merge_fold(rs: Seq<(usize, usize)>, n: int) -> (Seq<(usize, usize)>, (usize, usize))
    decreases n,
{
    if n <= 1 {
        (seq![], rs[0])
    } else {
        let (done, cur) = merge_fold(rs, n - 1);
        let (s, e) = rs[n - 1];
        if s <= cur.1 + 1 {
            (done, (cur.0, if cur.1 >= e { cur.1 } else { e }))
        } else {
            (done.push(cur), (s, e))
        }
    }
}

/// `merge_ranges`: neighbouring ranges that overlap or touch are joined.
pub open spec fn merged(rs: Seq<(usize, usize)>) -> Seq<(usize, usize)> {
    if rs.len() == 0 {
        seq![]
    } else {
        let (done, cur) = merge_fold(rs, rs.len() as int);
        done.push(cur)
    }
}

/// Block start/end for a merged range over a file of `n` lines.
pub open spec fn block_bounds(r: (usize, usize), n: int) -> (int, int) {
    (if r.0 >= 1 { r.0 as int } else { 1 }, if r.1 <= n { r.1 as int } else { n })
}

/// The block for a merged range over lines `ls`: lines `start..=end`
/// joined, or empty when the range lies past the file's end.
pub open spec fn block_of(r: (usize, usize), ls: Seq<Seq<char>>) -> (usize, usize, Seq<char>) {
    let (a, b) = block_bounds(r, ls.len() as int);
    let text = if a - 1 <= b { join(ls.subrange(a - 1, b), seq!['\n']) } else { seq![] };
    (a as usize, b as usize, text)
}

/// Range of lines around `line` with `ctx` lines of context, saturating.
pub open spec fn range_around(line: usize, ctx: usize) -> (usize, usize) {
    (if line >= ctx { (line - ctx) as usize } else { 0usize },
     if line + ctx <= usize::MAX { (line + ctx) as usize } else { usize::MAX })
}

impl ContextBlock {
    pub open spec fn view_tuple(&self) -> (usize, usize, Seq<char>) {
        (self.start_line, self.end_line, self.text@)
    }
}

impl ContextPackBuilder {
    /// Number of context lines around each hit.
    pub closed spec fn spec_context_lines(&self) -> usize {
        self.context_lines
    }

    /// Creates a builder that keeps `context_lines` lines around each hit.
    pub fn new(context_lines: usize) -> (b: ContextPackBuilder)
        ensures
            b.spec_context_lines() == context_lines,
    {
        ContextPackBuilder { context_lines }
    }

    /// Merges overlapping or adjacent ranges, left to right.
    pub fn merge_ranges(ranges: &[(usize, usize)]) -> (r: Vec<(usize, usize)>)
        ensures
            r@ == merged(ranges@),
    {
        if ranges.len() == 0 {
            return Vec::new();
        }
        let mut out: Vec<(usize, usize)> = Vec::new();
        let mut current = ranges[0];
        let mut i: usize = 1;
        while i < ranges.len()
            invariant
                1 <= i <= ranges@.len(),
                merge_fold(ranges@, i as int) == (out@, current),
            decreases ranges@.len() - i,
        {
            let (start, end) = ranges[i];
            if start <= current.1 || start - current.1 == 1 {
                if end > current.1 {
                    current = (current.0, end);
                }
            } else {
                out.push(current);
                current = (start, end);
            }
            i += 1;
        }
        out.push(current);
        out
    }

    /// Line ranges around the hits of one file, sorted by start and merged.
    pub fn ranges_for_lines(&self, hit_lines: &[usize]) -> (r: Vec<(usize, usize)>)
        ensures
            exists|sorted: Seq<(usize, usize)>| {
                &&& sorted.to_multiset() == hit_lines@.map_values(|l: usize| range_around(l, self.spec_context_lines())).to_multiset()
                &&& sorted_by_start(sorted)
                &&& r@ == merged(sorted)
            },
    {
        let ctx = self.context_lines;
        let mut ranges: Vec<(usize, usize)> = Vec::new();
        let mut i: usize = 0;
        while i < hit_lines.len()
            invariant
                ctx == self.spec_context_lines(),
                i <= hit_lines@.len(),
                ranges@ == hit_lines@.take(i as int).map_values(|l: usize| range_around(l, ctx)),
            decreases hit_lines@.len() - i,
        {
            let line = hit_lines[i];
            let start = if line >= ctx { line - ctx } else { 0 };
            let end = line.saturating_add(ctx);
            ranges.push((start, end));
            assert(hit_lines@.take(i + 1).map_values(|l: usize| range_around(l, ctx)) =~= hit_lines@.take(i as int).map_values(|l: usize| range_around(l, ctx)).push(range_around(line, ctx)));
            i += 1;
        }
        assert(hit_lines@.take(hit_lines@.len() as int) =~= hit_lines@);
        let sorted = sort_by_start(&ranges);
        Self::merge_ranges(sorted.as_slice())
    }

    /// Blocks for merged ranges over a file's content: each range is clamped
    /// to the file's lines and their text is joined with newlines.
    pub fn blocks_for_content(merged_ranges: &[(usize, usize)], content: &str) -> (r: Vec<ContextBlock>)
        ensures
            r@.map_values(|b: ContextBlock| b.view_tuple()) == merged_ranges@.map_values(
                |m: (usize, usize)| block_of(m, lines(content@)),
            ),
    {
        let chars = to_chars(content);
        let ls = split_lines(chars.as_slice());
        let ghost lsv = ls@.map_values(|l: Vec<char>| l@);
        let n = ls.len();
        let mut blocks: Vec<ContextBlock> = Vec::new();
        let mut i: usize = 0;
        while i < merged_ranges.len()
            invariant
                i <= merged_ranges@.len(),
                n == ls@.len() == lsv.len(),
                lsv == ls@.map_values(|l: Vec<char>| l@),
                lsv == lines(content@),
                blocks@.map_values(|b: ContextBlock| b.view_tuple()) == merged_ranges@.take(i as int).map_values(
                    |m: (usize, usize)| block_of(m, lsv),
                ),
            decreases merged_ranges@.len() - i,
        {
            let (start, end) = merged_ranges[i];
            let actual_start = if start >= 1 { start } else { 1 };
            let actual_end = if end <= n { end } else { n };
            let text = if actual_start - 1 <= actual_end {
                join_lines(&ls, actual_start - 1, actual_end)
            } else {
                String::new()
            };
            let block = ContextBlock { start_line: actual_start, end_line: actual_end, text };
            let ghost prev = blocks@.map_values(|b: ContextBlock| b.view_tuple());
            let ghost bv = block.view_tuple();
            blocks.push(block);
            assert(blocks@.map_values(|b: ContextBlock| b.view_tuple()) =~= prev.push(bv));
            assert(merged_ranges@.take(i + 1).map_values(|m: (usize, usize)| block_of(m, lsv))
                =~= merged_ranges@.take(i as int).map_values(|m: (usize, usize)| block_of(m, lsv)).push(block_of(merged_ranges@[i as int], lsv)));
            i += 1;
        }
        assert(merged_ranges@.take(merged_ranges@.len() as int) =~= merged_ranges@);
        blocks
    }
}

/// Sorts ranges by start, keeping equal starts in their original order.
pub fn sort_by_start(ranges: &Vec<(usize, usize)>) -> (r: Vec<(usize, usize)>)
    ensures
        r@.to_multiset() == ranges@.to_multiset(),
        sorted_by_start(r@),
{
    let mut out: Vec<(usize, usize)> = Vec::new();
    let mut i: usize = 0;
    assert(out@ =~= ranges@.take(0));
    while i < ranges.len()
        invariant
            i <= ranges@.len(),
            out@.to_multiset() == ranges@.take(i as int).to_multiset(),
            sorted_by_start(out@),
        decreases ranges@.len() - i,
    {
        let x = ranges[i];
        let mut pos: usize = out.len();
        while pos > 0 && out[pos - 1].0 > x.0
            invariant
                pos <= out@.len(),
                forall|k: int| pos <= k < out@.len() ==> out@[k].0 > x.0,
            decreases pos,
        {
            pos -= 1;
        }
        let ghost before = out@;
        out.insert(pos, x);
        proof {
            to_multiset_insert(before, pos as int, x);
            assert(ranges@.take(i + 1) =~= ranges@.take(i as int).push(x));
            vstd::seq_lib::to_multiset_build(ranges@.take(i as int), x);
            assert forall|a: int, b: int| 0 <= a < b < out@.len() implies out@[a].0 <= out@[b].0 by {
                if b < pos {
                } else if b == pos {
                    if a < pos {
                        assert(pos > 0 ==> before[pos - 1].0 <= x.0);
                    }
                } else if a < pos {
                    assert(out@[a] == before[a]);
                    assert(out@[b] == before[b - 1]);
                    if a == b - 1 {
                    } else {
                    }
                } else if a == pos {
                    assert(out@[b] == before[b - 1]);
                } else {
                }
            }
        }
        i += 1;
    }
    assert(ranges@.take(ranges@.len() as int) =~= ranges@);
    out
}

proof fn lemma_merge_invariant(rs: Seq<(usize, usize)>, n: int)
    requires
        1 <= n <= rs.len(),
        sorted_by_start(rs),
        well_formed(rs),
    ensures
        ({
            let (done, cur) = merge_fold(rs, n);
            &&& separated(done.push(cur))
            &&& cur.0 <= rs[n - 1].0
            &&& forall|x: int| #![trigger covers(done.push(cur), x)] #![trigger covers(rs.take(n), x)]
                covers(done.push(cur), x) <==> covers(rs.take(n), x)
        }),
    decreases n,
{
    if n == 1 {
        let (done, cur) = merge_fold(rs, n);
        assert(done.push(cur) =~= seq![rs[0]]);
        assert(rs.take(1) =~= seq![rs[0]]);
    } else {
        lemma_merge_invariant(rs, n - 1);
        let (done0, cur0) = merge_fold(rs, n - 1);
        let (s, e) = rs[n - 1];
        assert(rs[n - 2].0 <= rs[n - 1].0);
        assert(rs.take(n) =~= rs.take(n - 1).push(rs[n - 1]));
        let (done, cur) = merge_fold(rs, n);
        if s <= cur0.1 + 1 {
            assert(done == done0);
            assert forall|x: int| covers(done.push(cur), x) <==> covers(rs.take(n), x) by {
                let old_all = done0.push(cur0);
                if covers(done.push(cur), x) {
                    let i = choose|i: int| #[trigger] covers_at(done.push(cur), i, x);
                    if i < done.len() {
                        assert(old_all[i] == done.push(cur)[i]);
                        assert(covers_at(old_all, i, x));
                        assert(covers(rs.take(n - 1), x));
                        let j = choose|j: int| #[trigger] covers_at(rs.take(n - 1), j, x);
                        assert(rs.take(n)[j] == rs.take(n - 1)[j]);
                        assert(covers_at(rs.take(n), j, x));
                    } else {
                        if x <= cur0.1 {
                            assert(old_all[done0.len() as int] == cur0);
                            assert(covers_at(old_all, done0.len() as int, x));
                            assert(covers(old_all, x));
                            assert(covers(rs.take(n - 1), x));
                            let j = choose|j: int| #[trigger] covers_at(rs.take(n - 1), j, x);
                            assert(rs.take(n)[j] == rs.take(n - 1)[j]);
                            assert(covers_at(rs.take(n), j, x));
                        } else {
                            assert(rs.take(n)[n - 1] == rs[n - 1]);
                            assert(covers_at(rs.take(n), n - 1, x));
                        }
                    }
                }
                if covers(rs.take(n), x) {
                    let j = choose|j: int| #[trigger] covers_at(rs.take(n), j, x);
                    if j < n - 1 {
                        assert(rs.take(n - 1)[j] == rs.take(n)[j]);
                        assert(covers_at(rs.take(n - 1), j, x));
                        assert(covers(old_all, x));
                        let i = choose|i: int| #[trigger] covers_at(old_all, i, x);
                        if i < done0.len() {
                            assert(done.push(cur)[i] == old_all[i]);
                            assert(covers_at(done.push(cur), i, x));
                        } else {
                            assert(done.push(cur)[done.len() as int] == cur);
                            assert(covers_at(done.push(cur), done.len() as int, x));
                        }
                    } else {
                        assert(done.push(cur)[done.len() as int] == cur);
                        assert(covers_at(done.push(cur), done.len() as int, x));
                    }
                }
            }
            assert forall|i: int, j: int| 0 <= i < j < done.push(cur).len() implies done.push(cur)[i].1 + 1 < done.push(cur)[j].0 by {
                let old_all = done0.push(cur0);
                assert(old_all[i] == done.push(cur)[i]);
                if j < done.len() {
                    assert(old_all[j] == done.push(cur)[j]);
                } else {
                    assert(old_all[done0.len() as int] == cur0);
                }
            }
            assert forall|i: int| 0 <= i < done.push(cur).len() implies done.push(cur)[i].0 <= done.push(cur)[i].1 by {
                let old_all = done0.push(cur0);
                if i < done.len() {
                    assert(old_all[i] == done.push(cur)[i]);
                } else {
                    assert(old_all[done0.len() as int] == cur0);
                }
            }
        } else {
            assert(done == done0.push(cur0));
            assert(cur == rs[n - 1]);
            assert forall|x: int| covers(done.push(cur), x) <==> covers(rs.take(n), x) by {
                let old_all = done0.push(cur0);
                assert(done.push(cur) =~= old_all.push(rs[n - 1]));
                if covers(done.push(cur), x) {
                    let i = choose|i: int| #[trigger] covers_at(done.push(cur), i, x);
                    if i < old_all.len() {
                        assert(old_all[i] == done.push(cur)[i]);
                        assert(covers_at(old_all, i, x));
                        assert(covers(old_all, x));
                        assert(covers(rs.take(n - 1), x));
                        let j = choose|j: int| #[trigger] covers_at(rs.take(n - 1), j, x);
                        assert(rs.take(n)[j] == rs.take(n - 1)[j]);
                        assert(covers_at(rs.take(n), j, x));
                    } else {
                        assert(rs.take(n)[n - 1] == rs[n - 1]);
                        assert(covers_at(rs.take(n), n - 1, x));
                    }
                }
                if covers(rs.take(n), x) {
                    let j = choose|j: int| #[trigger] covers_at(rs.take(n), j, x);
                    if j < n - 1 {
                        assert(rs.take(n - 1)[j] == rs.take(n)[j]);
                        assert(covers_at(rs.take(n - 1), j, x));
                        assert(covers(rs.take(n - 1), x));
                        assert(covers(old_all, x));
                        let i = choose|i: int| #[trigger] covers_at(old_all, i, x);
                        assert(done.push(cur)[i] == old_all[i]);
                        assert(covers_at(done.push(cur), i, x));
                    } else {
                        assert(done.push(cur)[old_all.len() as int] == rs[n - 1]);
                        assert(covers_at(done.push(cur), old_all.len() as int, x));
                    }
                }
            }
            assert forall|i: int, j: int| 0 <= i < j < done.push(cur).len() implies done.push(cur)[i].1 + 1 < done.push(cur)[j].0 by {
                let old_all = done0.push(cur0);
                assert(done.push(cur) =~= old_all.push(rs[n - 1]));
                if j < old_all.len() {
                    assert(old_all[i] == done.push(cur)[i]);
                    assert(old_all[j] == done.push(cur)[j]);
                } else {
                    assert(old_all[i] == done.push(cur)[i]);
                    if i < done0.len() {
                        assert(old_all[i].1 + 1 < old_all[done0.len() as int].0);
                    }
                }
            }
            assert forall|i: int| 0 <= i < done.push(cur).len() implies done.push(cur)[i].0 <= done.push(cur)[i].1 by {
                let old_all = done0.push(cur0);
                assert(done.push(cur) =~= old_all.push(rs[n - 1]));
                if i < old_all.len() {
                    assert(old_all[i] == done.push(cur)[i]);
                }
            }
        }
    }
}

/// Merging sorted well-formed ranges yields ranges in increasing order with
/// a gap of at least one line between neighbours, covering exactly the
/// lines the input ranges cover.
pub proof fn law_merge_ranges(rs: Seq<(usize, usize)>)
    requires
        sorted_by_start(rs),
        well_formed(rs),
    ensures
        separated(merged(rs)),
        forall|x: int| covers(merged(rs), x) <==> covers(rs, x),
{
    if rs.len() > 0 {
        lemma_merge_invariant(rs, rs.len() as int);
        assert(rs.take(rs.len() as int) =~= rs);
    }
}

} // verus!
