//! Scan-mode search: every line of every scanned file that passes the path
//! filters is tested against the query, in file order, until the result
//! limit is reached.

use vstd::prelude::*;
use crate::filters::{spec_matches_file_type, matches_file_type, matches_glob_compiled, should_exclude_compiled, CompiledGlob};
use crate::paths::{strip_prefix, strip_path_prefix};
use crate::regex_engine::{regex_matches, CompiledRegex};
use crate::snippets::{context_window, get_context_from_lines, line_to_snippet, spec_snippet, views};
use crate::text::{contains, lines, lowercase, split_lines, str_contains, str_eq, to_chars, to_lowercase};

verus! {

/// A file read by the scanner.
#[derive(Debug, Clone)]
pub struct ScannedFile {
    /// Path of the file.
    pub path: String,
    /// Text of the file.
    pub content: String,
    /// Language detected from the extension.
    pub language: Option<String>,
}

/// The path filters of a search.
pub struct PathFilters<'a> {
    /// File-type filter (`-t`).
    pub file_type: Option<&'a str>,
    /// Glob the path must match.
    pub glob: Option<&'a CompiledGlob>,
    /// Glob the path must not match.
    pub exclude: Option<&'a CompiledGlob>,
    /// Configured exclude globs.
    pub config_excludes: &'a [CompiledGlob],
}

/// Whether a relative path passes all filters.
pub open spec fn passes_filters(f: PathFilters, rel: Seq<char>) -> bool {
    &&& spec_matches_file_type(rel, match f.file_type {
        Some(t) => Some(t@),
        None => None,
    })
    &&& match f.glob {
        Some(g) => g.spec_is_match(rel),
        None => true,
    }
    &&& match f.exclude {
        Some(g) => !g.spec_is_match(rel),
        None => true,
    }
    &&& forall|k: int| 0 <= k < f.config_excludes@.len() ==> !(#[trigger] f.config_excludes@[k]).spec_is_match(rel)
}

/// Applies the path filters.
pub fn path_passes(f: &PathFilters, rel: &str) -> (b: bool)
    ensures
        b == passes_filters(*f, rel@),
{
    if !matches_file_type(rel, f.file_type) {
        return false;
    }
    if !matches_glob_compiled(rel, f.glob) {
        return false;
    }
    if should_exclude_compiled(rel, f.exclude) {
        return false;
    }
    let mut k: usize = 0;
    while k < f.config_excludes.len()
        invariant
            k <= f.config_excludes@.len(),
            forall|m: int| 0 <= m < k ==> !(#[trigger] f.config_excludes@[m]).spec_is_match(rel@),
        decreases f.config_excludes@.len() - k,
    {
        if should_exclude_compiled(rel, Some(&f.config_excludes[k])) {
            return false;
        }
        k += 1;
    }
    true
}

/// Path of a scanned file relative to the root (the full path when it does
/// not lie under the root).
pub open spec fn rel_path(path: Seq<char>, root: Seq<char>) -> Seq<char> {
    match strip_prefix(path, root) {
        Some(r) => r,
        None => path,
    }
}

/// Computes the relative path of a scanned file.
pub fn relative_path(path: &str, root: &str) -> (r: String)
    ensures
        r@ == rel_path(path@, root@),
{
    match strip_path_prefix(path, root) {
        Some(r) => r,
        None => String::from_str(path),
    }
}

/// How lines are tested.
pub open spec fn line_matches(regex: Option<(Seq<char>, bool)>, query: Seq<char>, case_sensitive: bool, line: Seq<char>) -> bool {
    match regex {
        Some((p, ci)) => regex_matches(p, ci, line),
        None => if case_sensitive {
            contains(line, query)
        } else {
            contains(lowercase(line), lowercase(query))
        },
    }
}

/// A hit: relative path, snippet (none where cutting it would split a
/// character), 1-based line and context lines.
pub type HitView = (Seq<char>, Option<Seq<char>>, usize, Seq<Seq<char>>, Seq<Seq<char>>);

/// Hits among lines `j..` of one file.
pub open spec fn line_hits(
    rel: Seq<char>,
    ls: Seq<Seq<char>>,
    regex: Option<(Seq<char>, bool)>,
    query: Seq<char>,
    case_sensitive: bool,
    context: usize,
    j: int,
) -> Seq<HitView>
    decreases ls.len() - j,
{
    if j < 0 || j >= ls.len() {
        seq![]
    } else {
        let rest = line_hits(rel, ls, regex, query, case_sensitive, context, j + 1);
        if line_matches(regex, query, case_sensitive, ls[j]) {
            let cw = context_window(ls, j + 1, context as int);
            seq![(rel, spec_snippet(ls[j], 150), (j + 1) as usize, cw.0, cw.1)] + rest
        } else {
            rest
        }
    }
}

/// Hits in files `i..`, in order, skipping files whose relative path fails the filters.
pub open spec fn file_hits(
    files: Seq<(Seq<char>, Seq<char>)>,
    root: Seq<char>,
    f: PathFilters,
    regex: Option<(Seq<char>, bool)>,
    query: Seq<char>,
    case_sensitive: bool,
    context: usize,
    i: int,
) -> Seq<HitView>
    decreases files.len() - i,
{
    if i < 0 || i >= files.len() {
        seq![]
    } else {
        let rest = file_hits(files, root, f, regex, query, case_sensitive, context, i + 1);
        let rel = rel_path(files[i].0, root);
        if passes_filters(f, rel) {
            line_hits(rel, lines(files[i].1), regex, query, case_sensitive, context, 0) + rest
        } else {
            rest
        }
    }
}

/// A scan hit.
#[derive(Debug, Clone)]
pub struct ScanHit {
    /// Path relative to the search root.
    pub path: String,
    /// Trimmed line, cut at 150 bytes.
    pub snippet: String,
    /// 1-based line.
    pub line: usize,
    /// Lines before the hit.
    pub context_before: Vec<String>,
    /// Lines after the hit.
    pub context_after: Vec<String>,
}

impl View for ScanHit {
    type V = HitView;

    open spec fn view(&self) -> HitView {
        (self.path@, Some(self.snippet@), self.line, views(self.context_before@), views(self.context_after@))
    }
}

/// Number of distinct elements.
pub open spec fn count_distinct(s: Seq<Seq<char>>) -> nat
    decreases s.len(),
{
    if s.len() == 0 {
        0
    } else if s.drop_last().contains(s.last()) {
        count_distinct(s.drop_last())
    } else {
        count_distinct(s.drop_last()) + 1
    }
}

/// Result of a scan.
#[derive(Debug, Clone)]
pub struct ScanOutcome {
    /// Hits, in file and line order.
    pub hits: Vec<ScanHit>,
    /// Number of distinct files among the hits.
    pub files_with_matches: usize,
    /// Number of hits.
    pub total_matches: usize,
}

/// Why a scan failed.
#[derive(Debug, Clone, PartialEq, Eq)]
pub enum ScanError {
    /// No regex and an empty query.
    EmptyQuery,
    /// A hit's snippet would be cut inside a character.
    SnippetSplitsCharacter,
}

/// Views of scanned files as (path, content).
pub open spec fn file_views(files: Seq<ScannedFile>) -> Seq<(Seq<char>, Seq<char>)> {
    files.map_values(|f: ScannedFile| (f.path@, f.content@))
}

/// The regex as pattern and case flag.
pub open spec fn regex_view(regex: Option<&CompiledRegex>) -> Option<(Seq<char>, bool)> {
    match regex {
        Some(r) => Some((r.pattern(), r.folds_case())),
        None => None,
    }
}

pub fn string_lines(content: &str) -> (r: Vec<String>)
    ensures
        views(r@) == lines(content@),
{
    let cv = to_chars(content);
    let ls = split_lines(cv.as_slice());
    let ghost lsv = ls@.map_values(|l: Vec<char>| l@);
    let mut out: Vec<String> = Vec::new();
    let mut i: usize = 0;
    while i < ls.len()
        invariant
            i <= ls@.len(),
            lsv == ls@.map_values(|l: Vec<char>| l@),
            views(out@) == lsv.take(i as int),
        decreases ls@.len() - i,
    {
        let s = crate::text::from_chars(ls[i].as_slice());
        let ghost prev = views(out@);
        out.push(s);
        assert(views(out@) =~= prev.push(lsv[i as int]));
        assert(lsv.take(i + 1) =~= lsv.take(i as int).push(lsv[i as int]));
        i += 1;
    }
    assert(lsv.take(lsv.len() as int) =~= lsv);
    out
}

fn count_distinct_paths(hits: &Vec<ScanHit>) -> (n: usize)
    ensures
        n == count_distinct(hits@.map_values(|h: ScanHit| h.path@)),
{
    let ghost ps = hits@.map_values(|h: ScanHit| h.path@);
    let mut n: usize = 0;
    let mut i: usize = 0;
    while i < hits.len()
        invariant
            i <= hits@.len(),
            ps == hits@.map_values(|h: ScanHit| h.path@),
            n == count_distinct(ps.take(i as int)),
            n <= i,
        decreases hits@.len() - i,
    {
        let mut seen = false;
        let mut k: usize = 0;
        while k < i
            invariant
                k <= i < hits@.len(),
                ps == hits@.map_values(|h: ScanHit| h.path@),
                seen <==> exists|m: int| 0 <= m < k && ps[m] == ps[i as int],
            decreases i - k,
        {
            proof {
                assert(ps[k as int] == hits@[k as int].path@);
                assert(ps[i as int] == hits@[i as int].path@);
            }
            if !seen && str_eq(hits[k].path.as_str(), hits[i].path.as_str()) {
                seen = true;
            }
            k += 1;
        }
        let ghost t = ps.take(i + 1);
        assert(t.drop_last() =~= ps.take(i as int));
        assert(t.last() == ps[i as int]);
        assert(seen <==> ps.take(i as int).contains(ps[i as int])) by {
            if seen {
                let m = choose|m: int| 0 <= m < i && ps[m] == ps[i as int];
                assert(ps.take(i as int)[m] == ps[i as int]);
            }
            if ps.take(i as int).contains(ps[i as int]) {
                let m = choose|m: int| 0 <= m < i && ps.take(i as int)[m] == ps[i as int];
                assert(ps[m] == ps[i as int]);
            }
        }
        if !seen {
            n += 1;
        }
        i += 1;
    }
    assert(ps.take(hits@.len() as int) =~= ps);
    n
}

/// No more distinct elements than elements.
pub proof fn lemma_count_distinct_le(s: Seq<Seq<char>>)
    ensures
        count_distinct(s) <= s.len(),
    decreases s.len(),
{
    if s.len() > 0 {
        lemma_count_distinct_le(s.drop_last());
    }
}

proof fn lemma_line_hits_unfold(
    rel: Seq<char>,
    ls: Seq<Seq<char>>,
    regex: Option<(Seq<char>, bool)>,
    query: Seq<char>,
    cs: bool,
    context: usize,
    j: int,
)
    requires
        0 <= j < ls.len(),
    ensures
        line_hits(rel, ls, regex, query, cs, context, j) == if line_matches(regex, query, cs, ls[j]) {
            seq![(rel, spec_snippet(ls[j], 150), (j + 1) as usize, context_window(ls, j + 1, context as int).0, context_window(ls, j + 1, context as int).1)]
                + line_hits(rel, ls, regex, query, cs, context, j + 1)
        } else {
            line_hits(rel, ls, regex, query, cs, context, j + 1)
        },
{
}

/// Scans files for lines matching the query (a regex when given, else a
/// substring, case-insensitive unless asked otherwise); stops after
/// `max_results` hits.
pub fn scan_search(
    query: &str,
    root: &str,
    files: &[ScannedFile],
    max_results: usize,
    context: usize,
    filters: &PathFilters,
    regex: Option<&CompiledRegex>,
    case_sensitive: bool,
) -> (r: Result<ScanOutcome, ScanError>)
    ensures
        ({
            let all = file_hits(file_views(files@), root@, *filters, regex_view(regex), query@, case_sensitive, context, 0);
            let n = if all.len() < max_results { all.len() as int } else { max_results as int };
            &&& (r matches Err(ScanError::EmptyQuery)) <==> (regex is None && query@.len() == 0)
            &&& (r matches Err(ScanError::SnippetSplitsCharacter)) <==> (!(regex is None && query@.len() == 0)
                && exists|k: int| 0 <= k < n && (#[trigger] all[k]).1 is None)
            &&& r matches Ok(o) ==> {
                &&& o.hits@.map_values(|h: ScanHit| h@) == all.take(n)
                &&& o.total_matches == o.hits@.len()
                &&& o.files_with_matches == count_distinct(o.hits@.map_values(|h: ScanHit| h.path@))
                &&& o.total_matches <= max_results
                &&& o.files_with_matches <= o.total_matches
            }
        }),
{
    if regex.is_none() && query.is_empty() {
        return Err(ScanError::EmptyQuery);
    }
    let ghost fv = file_views(files@);
    let ghost rv = regex_view(regex);
    let ghost all = file_hits(fv, root@, *filters, rv, query@, case_sensitive, context, 0);
    let query_lower = to_lowercase(query);
    let mut hits: Vec<ScanHit> = Vec::new();
    let mut i: usize = 0;
    while i < files.len() && hits.len() < max_results
        invariant
            i <= files@.len(),
            !(regex is None && query@.len() == 0),
            fv == file_views(files@),
            rv == regex_view(regex),
            query_lower@ == lowercase(query@),
            all == file_hits(fv, root@, *filters, rv, query@, case_sensitive, context, 0),
            hits@.len() <= max_results,
            hits@.len() <= all.len(),
            all.take(hits@.len() as int) == hits@.map_values(|h: ScanHit| h@),
            hits@.len() < max_results ==> all == hits@.map_values(|h: ScanHit| h@) + file_hits(fv, root@, *filters, rv, query@, case_sensitive, context, i as int),
        decreases files@.len() - i,
    {
        let ghost prefix = hits@.map_values(|h: ScanHit| h@);
        let rel = relative_path(files[i].path.as_str(), root);
        assert(fv[i as int] == (files@[i as int].path@, files@[i as int].content@));
        if path_passes(filters, rel.as_str()) {
            let ls = string_lines(files[i].content.as_str());
            let ghost lsv = views(ls@);
            let mut j: usize = 0;
            while j < ls.len() && hits.len() < max_results
                invariant
                    i < files@.len(),
                    !(regex is None && query@.len() == 0),
                    fv == file_views(files@),
                    all == file_hits(fv, root@, *filters, rv, query@, case_sensitive, context, 0),
                    j <= ls@.len(),
                    lsv == views(ls@),
                    lsv == lines(files@[i as int].content@),
                    rv == regex_view(regex),
                    query_lower@ == lowercase(query@),
                    hits@.len() <= max_results,
                    hits@.len() <= all.len(),
                    all.take(hits@.len() as int) == hits@.map_values(|h: ScanHit| h@),
                    hits@.len() < max_results ==> all == hits@.map_values(|h: ScanHit| h@) + line_hits(rel@, lsv, rv, query@, case_sensitive, context, j as int)
                        + file_hits(fv, root@, *filters, rv, query@, case_sensitive, context, i + 1),
                decreases ls@.len() - j,
            {
                let line = ls[j].as_str();
                let matched = match regex {
                    Some(re) => re.is_match(line),
                    None => if case_sensitive {
                        str_contains(line, query)
                    } else {
                        let ll = to_lowercase(line);
                        str_contains(ll.as_str(), query_lower.as_str())
                    },
                };
                proof {
                    lemma_line_hits_unfold(rel@, lsv, rv, query@, case_sensitive, context, j as int);
                    assert(lsv[j as int] == line@);
                }
                let ghost before = hits@.map_values(|h: ScanHit| h@);
                let ghost rest = line_hits(rel@, lsv, rv, query@, case_sensitive, context, j + 1)
                    + file_hits(fv, root@, *filters, rv, query@, case_sensitive, context, i + 1);
                if matched {
                    let snippet = match line_to_snippet(line) {
                        Some(s) => s,
                        None => {
                            proof {
                                let k = before.len() as int;
                                assert(all[k].1 is None);
                                assert(k < all.len());
                            }
                            return Err(ScanError::SnippetSplitsCharacter);
                        },
                    };
                    let (cb, ca) = get_context_from_lines(&ls, j + 1, context);
                    let hit = ScanHit {
                        path: rel.clone(),
                        snippet,
                        line: j + 1,
                        context_before: cb,
                        context_after: ca,
                    };
                    let ghost hv = hit@;
                    hits.push(hit);
                    assert(hits@.map_values(|h: ScanHit| h@) =~= before.push(hv));
                    assert(before.push(hv) + rest =~= before + (seq![hv] + rest));
                    assert(all.take(hits@.len() as int) =~= before.push(hv));
                } else {
                    assert(before + rest =~= before + line_hits(rel@, lsv, rv, query@, case_sensitive, context, j as int)
                        + file_hits(fv, root@, *filters, rv, query@, case_sensitive, context, i + 1));
                }
                j += 1;
            }
            proof {
                if hits@.len() < max_results {
                    assert(line_hits(rel@, lsv, rv, query@, case_sensitive, context, j as int) =~= Seq::<HitView>::empty());
                    assert(hits@.map_values(|h: ScanHit| h@) + Seq::<HitView>::empty() =~= hits@.map_values(|h: ScanHit| h@));
                }
            }
        }
        i += 1;
    }
    proof {
        let hv = hits@.map_values(|h: ScanHit| h@);
        let n = if all.len() < max_results { all.len() as int } else { max_results as int };
        if hits@.len() < max_results {
            assert(file_hits(fv, root@, *filters, rv, query@, case_sensitive, context, i as int) =~= Seq::<HitView>::empty());
            assert(all =~= hv);
            assert(all.take(all.len() as int) =~= all);
        }
        assert(all.take(n) =~= hv);
        assert forall|k: int| 0 <= k < n implies (#[trigger] all[k]).1 is Some by {
            assert(all[k] == all.take(n)[k]);
            assert(hv[k] == hits@[k]@);
        }
    }
    let total = hits.len();
    let distinct = count_distinct_paths(&hits);
    proof {
        lemma_count_distinct_le(hits@.map_values(|h: ScanHit| h.path@));
    }
    Ok(ScanOutcome { hits, files_with_matches: distinct, total_matches: total })
}

} // verus!
