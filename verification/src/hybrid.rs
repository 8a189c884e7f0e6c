//! Search modes and the integer side of hybrid search: how many keyword
//! candidates are reranked, and which lines a candidate's symbol spans.
//! Scores are the caller's (floating point).

use vstd::prelude::*;
use crate::text::{lowercase, push_str, str_eq, to_lowercase};

verus! {

/// How a query is answered.
#[derive(Debug, Clone, Copy, PartialEq, Eq, Structural)]
pub enum SearchMode {
    /// Keyword (BM25) search only.
    Keyword,
    /// Embedding similarity only.
    Semantic,
    /// Keyword candidates reranked by embeddings.
    Hybrid,
}

impl Default for SearchMode {
    fn default() -> (m: SearchMode)
        ensures
            m == SearchMode::Keyword,
    {
        SearchMode::Keyword
    }
}

/// The name of a mode.
pub open spec fn mode_name(m: SearchMode) -> Seq<char> {
    match m {
        SearchMode::Keyword => "keyword"@,
        SearchMode::Semantic => "semantic"@,
        SearchMode::Hybrid => "hybrid"@,
    }
}

/// The mode a text names, by full name or initial, in any case.
pub open spec fn mode_parsed(s: Seq<char>) -> Option<SearchMode> {
    let l = lowercase(s);
    if l == "keyword"@ || l == "k"@ {
        Some(SearchMode::Keyword)
    } else if l == "semantic"@ || l == "s"@ {
        Some(SearchMode::Semantic)
    } else if l == "hybrid"@ || l == "h"@ {
        Some(SearchMode::Hybrid)
    } else {
        None
    }
}

impl SearchMode {
    /// The mode's name.
    pub fn as_str(&self) -> (s: &'static str)
        ensures
            s@ == mode_name(*self),
    {
        match self {
            SearchMode::Keyword => "keyword",
            SearchMode::Semantic => "semantic",
            SearchMode::Hybrid => "hybrid",
        }
    }

    /// The mode's name, as an owned string.
    pub fn to_string(&self) -> (s: String)
        ensures
            s@ == mode_name(*self),
    {
        String::from_str(self.as_str())
    }

    /// Reads a mode; the error says which text named none.
    pub fn parse(s: &str) -> (r: Result<SearchMode, String>)
        ensures
            match mode_parsed(s@) {
                Some(m) => r == Ok::<SearchMode, String>(m),
                None => r matches Err(e) && e@ == "Unknown search mode: "@ + s@,
            },
    {
        let l = to_lowercase(s);
        let v = l.as_str();
        if str_eq(v, "keyword") || str_eq(v, "k") {
            Ok(SearchMode::Keyword)
        } else if str_eq(v, "semantic") || str_eq(v, "s") {
            Ok(SearchMode::Semantic)
        } else if str_eq(v, "hybrid") || str_eq(v, "h") {
            Ok(SearchMode::Hybrid)
        } else {
            let mut e = String::new();
            push_str(&mut e, "Unknown search mode: ");
            push_str(&mut e, s);
            Err(e)
        }
    }
}

impl std::str::FromStr for SearchMode {
    type Err = String;

    fn from_str(s: &str) -> (r: Result<SearchMode, String>)
        ensures
            match mode_parsed(s@) {
                Some(m) => r == Ok::<SearchMode, String>(m),
                None => r matches Err(e) && e@ == "Unknown search mode: "@ + s@,
            },
    {
        SearchMode::parse(s)
    }
}

/// Keyword candidates reranked: the configured number, or (when that is
/// zero) twenty per wanted result, between 50 and 500.
pub open spec fn effective_k(candidate_k: usize, max_results: usize) -> int {
    if candidate_k > 0 {
        candidate_k as int
    } else {
        let n = max_results * 20;
        if n < 50 { 50 } else if n > 500 { 500 } else { n }
    }
}

/// Number of keyword candidates to rerank.
pub fn effective_candidate_k(candidate_k: usize, max_results: usize) -> (k: usize)
    requires
        candidate_k > 0 || max_results * 20 <= usize::MAX,
    ensures
        k == effective_k(candidate_k, max_results),
{
    if candidate_k > 0 {
        candidate_k
    } else {
        let n = max_results * 20;
        if n < 50 {
            50
        } else if n > 500 {
            500
        } else {
            n
        }
    }
}

/// A line number as stored with a chunk (`as u32`).
pub open spec fn line_as_u32(l: usize) -> u32 {
    l as u32
}

/// The lines a keyword candidate spans: its symbol's, or else its matched line.
pub open spec fn spec_chunk_bounds(symbol_start: Option<u32>, symbol_end: Option<u32>, line: Option<usize>) -> (Option<u32>, Option<u32>) {
    let from_line = match line {
        Some(l) => Some(line_as_u32(l)),
        None => None,
    };
    (
        match symbol_start {
            Some(s) => Some(s),
            None => from_line,
        },
        match symbol_end {
            Some(e) => Some(e),
            None => from_line,
        },
    )
}

/// Converts a line to `u32` as a cast does.
pub fn line_to_u32(l: usize) -> (r: u32)
    ensures
        r == line_as_u32(l),
{
    #[verifier::truncate]
    (l as u32)
}

/// The lines a keyword candidate spans.
pub fn chunk_bounds(symbol_start: Option<u32>, symbol_end: Option<u32>, line: Option<usize>) -> (r: (Option<u32>, Option<u32>))
    ensures
        r == spec_chunk_bounds(symbol_start, symbol_end, line),
{
    let from_line = match line {
        Some(l) => Some(line_to_u32(l)),
        None => None,
    };
    let start = match symbol_start {
        Some(s) => Some(s),
        None => from_line,
    };
    let end = match symbol_end {
        Some(e) => Some(e),
        None => from_line,
    };
    (start, end)
}

} // verus!
