//! Index search decisions: which mode answers a query, how a fuzzy query
//! is split into terms, and how the documents the index returned become
//! candidates (scoped to the search root, filtered, given a snippet and a
//! line).
//!
//! Running queries against the index and scoring are the caller's; the
//! stored fields of each returned document are handed over in rank order.

use vstd::prelude::*;
use crate::filters::CompiledGlob;
use crate::paths::{normalized, normalize_path, path_join, join_path, resolve_full_path, scoped_display_path, strip_prefix};
use crate::scan::{passes_filters, path_passes, PathFilters};
use crate::snippets::{find_snippet_with_line, holds_query_word, law_snippet_at_first_match, spec_find_snippet, spec_snippet};
use crate::text::{byte_len, lines, split_words, str_eq, to_chars, words};

verus! {

/// Whether a query runs against the index or scans files.
#[derive(Debug, Clone, Copy, PartialEq, Eq, Structural)]
pub enum IndexMode {
    Index,
    Scan,
}

/// The mode asked for: scanning without an index or for a regex.
pub fn requested_mode(no_index: bool, regex: bool) -> (m: IndexMode)
    ensures
        m == if no_index || regex { IndexMode::Scan } else { IndexMode::Index },
{
    if no_index || regex {
        IndexMode::Scan
    } else {
        IndexMode::Index
    }
}

/// Documents fetched from the index for `max_candidates` candidates: five
/// times as many (saturating), at least one.
pub fn fetch_limit(max_candidates: usize) -> (n: usize)
    ensures
        n == if max_candidates * 5 > usize::MAX { usize::MAX as int } else if max_candidates == 0 { 1 } else { max_candidates * 5 },
{
    let n = match max_candidates.checked_mul(5) {
        Some(v) => v,
        None => usize::MAX,
    };
    if n < 1 {
        1
    } else {
        n
    }
}

/// Edit distance allowed for a fuzzy term: 1 up to four bytes, else 2.
pub open spec fn fuzzy_distance(term: Seq<char>) -> u8 {
    if byte_len(term) <= 4 { 1 } else { 2 }
}

/// The terms of a fuzzy query with their edit distances; `None` when the
/// query has no words.
pub fn fuzzy_terms(query: &str) -> (r: Option<Vec<(String, u8)>>)
    ensures
        r is None <==> words(query@).len() == 0,
        r matches Some(ts) ==> ts@.len() == words(query@).len()
            && forall|k: int| 0 <= k < ts@.len() ==> (#[trigger] ts@[k]).0@ == words(query@)[k]
                && ts@[k].1 == fuzzy_distance(words(query@)[k]),
{
    let qv = to_chars(query);
    let ws = split_words(qv.as_slice());
    let ghost wv = ws@.map_values(|w: Vec<char>| w@);
    if ws.len() == 0 {
        return None;
    }
    let mut out: Vec<(String, u8)> = Vec::new();
    let mut i: usize = 0;
    while i < ws.len()
        invariant
            i <= ws@.len(),
            wv == ws@.map_values(|w: Vec<char>| w@),
            wv == words(query@),
            out@.len() == i,
            forall|k: int| 0 <= k < i ==> (#[trigger] out@[k]).0@ == wv[k] && out@[k].1 == fuzzy_distance(wv[k]),
        decreases ws@.len() - i,
    {
        let term = crate::text::from_chars(ws[i].as_slice());
        let d: u8 = if term.as_str().len() <= 4 { 1 } else { 2 };
        out.push((term, d));
        i += 1;
    }
    Some(out)
}

/// The stored fields of a document returned by the index.
#[derive(Debug, Clone)]
pub struct StoredDoc {
    /// `path`, as indexed.
    pub path: Option<String>,
    /// `content`.
    pub content: Option<String>,
    /// `line_number`: first line of the document.
    pub line_number: Option<u64>,
    /// `doc_type`: `file` or `symbol`.
    pub doc_type: Option<String>,
    /// `symbol_id`.
    pub symbol_id: Option<String>,
    /// `symbol_end_line`.
    pub symbol_end_line: Option<u64>,
}

/// A candidate result of an index search.
#[derive(Debug, Clone)]
pub struct IndexCandidate {
    /// Position of its document among those the index returned.
    pub rank: usize,
    /// Path as stored in the index.
    pub stored_path: String,
    /// Path resolved against the index root.
    pub full_path: String,
    /// Path relative to the search root.
    pub display_path: String,
    pub snippet: String,
    /// 1-based line of the match.
    pub line: Option<usize>,
    pub symbol_id: Option<String>,
    pub symbol_start: Option<u32>,
    pub symbol_end: Option<u32>,
}

/// Rank, stored, full and display path, snippet, line, symbol id, symbol lines.
pub type CandView = (usize, Seq<char>, Seq<char>, Seq<char>, Seq<char>, Option<usize>, Option<Seq<char>>, Option<u32>, Option<u32>);

impl View for IndexCandidate {
    type V = CandView;

    open spec fn view(&self) -> CandView {
        (self.rank, self.stored_path@, self.full_path@, self.display_path@, self.snippet@, self.line,
            match self.symbol_id {
                Some(s) => Some(s@),
                None => None,
            },
            self.symbol_start, self.symbol_end)
    }
}

/// Why candidates could not be made.
#[derive(Debug, Clone, Copy, PartialEq, Eq, Structural)]
pub enum CandidateError {
    /// A snippet would be cut inside a character.
    SnippetSplitsCharacter,
    /// A document's line plus its offset does not fit in a `usize`.
    LineOutOfRange,
}

/// A stored text field, or a default.
pub open spec fn field_or(v: Option<String>, d: Seq<char>) -> Seq<char> {
    match v {
        Some(s) => s@,
        None => d,
    }
}

/// The full path of a stored path: itself when absolute, else under the index root.
pub open spec fn full_path_of(stored: Seq<char>, index_root: Seq<char>) -> Seq<char> {
    if stored.len() > 0 && stored[0] == '/' { stored } else { path_join(index_root, stored) }
}

/// A number narrowed to `u32` as a cast does.
pub open spec fn narrow_u32(v: u64) -> u32 {
    v as u32
}

/// What one document yields: nothing when it lies outside the search root
/// or fails the filters; else a candidate whose line is the snippet's
/// line shifted by the document's first line (or, for a symbol without a
/// matching line, the symbol's first line).
pub open spec fn doc_candidate(query: Seq<char>, index_root: Seq<char>, search_root: Seq<char>, f: PathFilters, rank: usize, d: StoredDoc) -> Result<Option<CandView>, CandidateError> {
    let stored = field_or(d.path, "unknown"@);
    let full = full_path_of(stored, index_root);
    match strip_prefix(full, search_root) {
        None => Ok(None),
        Some(display) => if !passes_filters(f, display) {
            Ok(None)
        } else {
            let offset = match d.line_number {
                Some(n) => n as usize,
                None => 1usize,
            };
            let is_symbol = field_or(d.doc_type, Seq::empty()) == "symbol"@;
            match spec_find_snippet(field_or(d.content, Seq::empty()), query, 150) {
                None => Err(CandidateError::SnippetSplitsCharacter),
                Some((snippet, found)) => {
                    let shift: int = if offset >= 1 { offset - 1 } else { 0 };
                    match found {
                        Some(l) if l + shift > usize::MAX => Err(CandidateError::LineOutOfRange),
                        _ => {
                            let line: Option<usize> = match found {
                                Some(l) => Some((l + shift) as usize),
                                None => if is_symbol { Some(offset) } else { None },
                            };
                            Ok(Some((
                                rank, stored, full, display, snippet, line,
                                if is_symbol {
                                    match d.symbol_id {
                                        Some(s) => Some(s@),
                                        None => None,
                                    }
                                } else {
                                    None
                                },
                                if is_symbol { Some(narrow_u32(offset as u64)) } else { None },
                                if is_symbol {
                                    match d.symbol_end_line {
                                        Some(v) => Some(narrow_u32(v)),
                                        None => None,
                                    }
                                } else {
                                    None
                                },
                            )))
                        },
                    }
                },
            }
        },
    }
}

/// A stored number as a `usize`.
fn u64_to_usize(v: u64) -> (r: usize)
    ensures
        r == v as usize,
{
    #[verifier::truncate]
    (v as usize)
}

/// A stored number narrowed to `u32`.
fn u64_to_u32(v: u64) -> (r: u32)
    ensures
        r == narrow_u32(v),
{
    #[verifier::truncate]
    (v as u32)
}

/// A `usize` narrowed to `u32` through `u64`.
fn usize_to_u32(v: usize) -> (r: u32)
    ensures
        r == narrow_u32(v as u64),
{
    u64_to_u32(v as u64)
}

/// Makes the candidate of one document.
pub fn candidate_from_doc(
    query: &str,
    index_root: &str,
    search_root: &str,
    filters: &PathFilters,
    rank: usize,
    doc: &StoredDoc,
) -> (r: Result<Option<IndexCandidate>, CandidateError>)
    ensures
        match r {
            Ok(Some(c)) => doc_candidate(query@, index_root@, search_root@, *filters, rank, *doc) == Ok::<Option<CandView>, CandidateError>(Some(c@)),
            Ok(None) => doc_candidate(query@, index_root@, search_root@, *filters, rank, *doc) == Ok::<Option<CandView>, CandidateError>(None),
            Err(e) => doc_candidate(query@, index_root@, search_root@, *filters, rank, *doc) == Err::<Option<CandView>, CandidateError>(e),
        },
{
    let stored = match &doc.path {
        Some(p) => p.clone(),
        None => String::from_str("unknown"),
    };
    let full = resolve_full_path(stored.as_str(), index_root);
    let display = match scoped_display_path(full.as_str(), search_root) {
        Some(d) => d,
        None => return Ok(None),
    };
    if !path_passes(filters, display.as_str()) {
        return Ok(None);
    }
    let offset: usize = match doc.line_number {
        Some(n) => u64_to_usize(n),
        None => 1,
    };
    let is_symbol = match &doc.doc_type {
        Some(t) => str_eq(t.as_str(), "symbol"),
        None => {
            proof {
                reveal_strlit("symbol");
            }
            false
        },
    };
    let no_content = String::new();
    let content: &str = match &doc.content {
        Some(c) => c.as_str(),
        None => no_content.as_str(),
    };
    let (snippet, found) = match find_snippet_with_line(content, query, 150) {
        Some(p) => p,
        None => return Err(CandidateError::SnippetSplitsCharacter),
    };
    let shift = offset.saturating_sub(1);
    let line = match found {
        Some(l) => {
            if l > usize::MAX - shift {
                return Err(CandidateError::LineOutOfRange);
            }
            Some(l + shift)
        },
        None => {
            if is_symbol {
                Some(offset)
            } else {
                None
            }
        },
    };
    let symbol_id = if is_symbol {
        match &doc.symbol_id {
            Some(s) => Some(s.clone()),
            None => None,
        }
    } else {
        None
    };
    let symbol_start = if is_symbol { Some(usize_to_u32(offset)) } else { None };
    let symbol_end = if is_symbol {
        match doc.symbol_end_line {
            Some(v) => Some(u64_to_u32(v)),
            None => None,
        }
    } else {
        None
    };
    Ok(Some(IndexCandidate {
        rank,
        stored_path: stored,
        full_path: full,
        display_path: display,
        snippet,
        line,
        symbol_id,
        symbol_start,
        symbol_end,
    }))
}

/// Candidates from documents `i..`, after `acc`, stopping at `max`.
pub open spec fn collect_from(query: Seq<char>, index_root: Seq<char>, search_root: Seq<char>, f: PathFilters, max: usize,
    docs: Seq<StoredDoc>, i: int, acc: Seq<CandView>) -> Result<Seq<CandView>, CandidateError>
    decreases docs.len() - i,
{
    if i < 0 || i >= docs.len() || acc.len() >= max {
        Ok(acc)
    } else {
        match doc_candidate(query, index_root, search_root, f, i as usize, docs[i]) {
            Err(e) => Err(e),
            Ok(None) => collect_from(query, index_root, search_root, f, max, docs, i + 1, acc),
            Ok(Some(c)) => collect_from(query, index_root, search_root, f, max, docs, i + 1, acc.push(c)),
        }
    }
}

/// Views of candidates.
pub open spec fn cand_views(v: Seq<IndexCandidate>) -> Seq<CandView> {
    v.map_values(|c: IndexCandidate| c@)
}

/// Makes candidates from the documents the index returned, in rank order,
/// until `max_candidates` are found.
pub fn collect_index_candidates(
    query: &str,
    index_root: &str,
    search_root: &str,
    max_candidates: usize,
    filters: &PathFilters,
    docs: &[StoredDoc],
) -> (r: Result<Vec<IndexCandidate>, CandidateError>)
    ensures
        match r {
            Ok(cs) => collect_from(query@, index_root@, search_root@, *filters, max_candidates, docs@, 0, seq![]) == Ok::<Seq<CandView>, CandidateError>(cand_views(cs@)),
            Err(e) => collect_from(query@, index_root@, search_root@, *filters, max_candidates, docs@, 0, seq![]) == Err::<Seq<CandView>, CandidateError>(e),
        },
{
    let mut out: Vec<IndexCandidate> = Vec::new();
    let mut i: usize = 0;
    assert(cand_views(out@) =~= Seq::<CandView>::empty());
    while i < docs.len()
        invariant
            i <= docs@.len(),
            collect_from(query@, index_root@, search_root@, *filters, max_candidates, docs@, 0, seq![])
                == collect_from(query@, index_root@, search_root@, *filters, max_candidates, docs@, i as int, cand_views(out@)),
        decreases docs@.len() - i,
    {
        if out.len() >= max_candidates {
            return Ok(out);
        }
        match candidate_from_doc(query, index_root, search_root, filters, i, &docs[i]) {
            Err(e) => return Err(e),
            Ok(None) => {},
            Ok(Some(c)) => {
                let ghost before = cand_views(out@);
                let ghost cv = c@;
                out.push(c);
                assert(cand_views(out@) =~= before.push(cv));
            },
        }
        i += 1;
    }
    Ok(out)
}

/// The search root: the requested path (the working directory when none),
/// made absolute against the working directory and normalised.
pub open spec fn search_root_of(cwd: Seq<char>, path: Option<Seq<char>>) -> Seq<char> {
    let requested = match path {
        Some(p) => p,
        None => cwd,
    };
    let absolute = if requested.len() > 0 && requested[0] == '/' { requested } else { path_join(cwd, requested) };
    normalized(absolute)
}

/// Resolves the search root against the working directory `cwd`.
pub fn resolve_search_root(cwd: &str, path: Option<&str>) -> (r: String)
    ensures
        r@ == search_root_of(cwd@, match path {
            Some(p) => Some(p@),
            None => None,
        }),
{
    let requested: &str = match path {
        Some(p) => p,
        None => cwd,
    };
    let rv = to_chars(requested);
    let absolute = if rv.len() > 0 && rv[0] == '/' {
        String::from_str(requested)
    } else {
        join_path(cwd, requested)
    };
    normalize_path(absolute.as_str())
}

/// How a search is answered.
#[derive(Debug, Clone, Copy, PartialEq, Eq, Structural)]
pub enum SearchRoute {
    /// Keyword candidates reranked with embeddings (needs the index).
    Hybrid,
    /// Keyword search in the index.
    Index,
    /// Scanning files; `index_missing` when an index search was wanted
    /// but there is no index (the fallback is reported).
    Scan { index_missing: bool },
}

/// Routes a search: semantic and hybrid modes always use the index (no
/// scan fallback); keyword search uses the index when it was asked for and
/// exists, and scans otherwise.
pub fn search_route(mode: Option<crate::hybrid::SearchMode>, requested: IndexMode, index_exists: bool) -> (r: SearchRoute)
    ensures
        r == match mode {
            Some(crate::hybrid::SearchMode::Semantic) | Some(crate::hybrid::SearchMode::Hybrid) => SearchRoute::Hybrid,
            _ => if requested == IndexMode::Index && index_exists {
                SearchRoute::Index
            } else {
                SearchRoute::Scan { index_missing: requested == IndexMode::Index && !index_exists }
            },
        },
{
    match mode {
        Some(crate::hybrid::SearchMode::Semantic) | Some(crate::hybrid::SearchMode::Hybrid) => SearchRoute::Hybrid,
        _ => {
            let want_index = match requested {
                IndexMode::Index => true,
                IndexMode::Scan => false,
            };
            if want_index && index_exists {
                SearchRoute::Index
            } else {
                SearchRoute::Scan { index_missing: want_index && !index_exists }
            }
        },
    }
}

/// A document whose full path lies outside the search root, or whose path
/// under the root fails the filters, yields no candidate.
pub proof fn law_candidates_in_scope(query: Seq<char>, index_root: Seq<char>, search_root: Seq<char>, f: PathFilters, rank: usize, d: StoredDoc)
    ensures
        strip_prefix(full_path_of(field_or(d.path, "unknown"@), index_root), search_root) is None
            ==> doc_candidate(query, index_root, search_root, f, rank, d) == Ok::<Option<CandView>, CandidateError>(None),
        strip_prefix(full_path_of(field_or(d.path, "unknown"@), index_root), search_root) matches Some(display)
            && !passes_filters(f, display)
            ==> doc_candidate(query, index_root, search_root, f, rank, d) == Ok::<Option<CandView>, CandidateError>(None),
{
}

/// In a document that starts at line `n` of its file, when line `j` (0-based)
/// of the document is the first to hold a word of the query (ignoring
/// case), the candidate is reported at file line `n + j`, with the snippet
/// of that line.
pub proof fn law_candidate_line(query: Seq<char>, index_root: Seq<char>, search_root: Seq<char>, f: PathFilters, rank: usize, d: StoredDoc, n: u64, j: int)
    requires
        strip_prefix(full_path_of(field_or(d.path, "unknown"@), index_root), search_root) matches Some(display) && passes_filters(f, display),
        d.line_number == Some(n),
        1 <= n,
        n + j <= usize::MAX,
        0 <= j < lines(field_or(d.content, Seq::empty())).len(),
        holds_query_word(lines(field_or(d.content, Seq::empty()))[j], query),
        forall|i: int| 0 <= i < j ==> !holds_query_word(#[trigger] lines(field_or(d.content, Seq::empty()))[i], query),
        spec_snippet(lines(field_or(d.content, Seq::empty()))[j], 150) is Some,
    ensures
        doc_candidate(query, index_root, search_root, f, rank, d) matches Ok(Some(c))
            && c.5 == Some((n + j) as usize)
            && Some(c.4) == spec_snippet(lines(field_or(d.content, Seq::empty()))[j], 150),
{
    law_snippet_at_first_match(field_or(d.content, Seq::empty()), query, 150, j);
}

} // verus!
