//! Snippets and context windows around matched lines.

use vstd::prelude::*;
use vstd::utf8::{decode_utf8, encode_utf8, encode_utf8_decode_utf8, is_char_boundary};
use crate::text::{byte_len, contains, contains_chars, lines, lowercase, push_str, split_lines, split_words, to_chars, to_lowercase, trim, trim_string, words};

verus! {

/// `...`, appended to a cut snippet.
pub open spec fn ellipsis() -> Seq<char> {
    seq!['.', '.', '.']
}

/// The trimmed line, or its first `max` bytes followed by `...` when longer.
/// `None` when byte `max` falls inside a character (where slicing the
/// string would panic).
pub open spec fn spec_snippet(line: Seq<char>, max: usize) -> Option<Seq<char>> {
    let t = trim(line);
    if byte_len(t) <= max {
        Some(t)
    } else if is_char_boundary(encode_utf8(t), max as int) {
        Some(decode_utf8(encode_utf8(t).subrange(0, max as int)) + ellipsis())
    } else {
        None
    }
}

/// Snippet of a line: trimmed, cut to `max_len` bytes with `...`.
pub fn snippet_of(line: &str, max_len: usize) -> (r: Option<String>)
    ensures
        r is Some <==> spec_snippet(line@, max_len) is Some,
        r matches Some(s) ==> Some(s@) == spec_snippet(line@, max_len),
{
    let t = trim_string(line);
    if t.as_str().len() <= max_len {
        return Some(t);
    }
    if !t.as_str().is_char_boundary(max_len) {
        return None;
    }
    let (head, _) = t.as_str().split_at(max_len);
    proof {
        encode_utf8_decode_utf8(head@);
    }
    let mut s = head.to_owned();
    push_str(&mut s, "...");
    proof {
        reveal_strlit("...");
    }
    Some(s)
}

/// Snippet of a matched line, cut at 150 bytes.
pub fn line_to_snippet(line: &str) -> (r: Option<String>)
    ensures
        r is Some <==> spec_snippet(line@, 150) is Some,
        r matches Some(s) ==> Some(s@) == spec_snippet(line@, 150),
{
    snippet_of(line, 150)
}

/// Some term occurs in the line.
pub open spec fn has_term(line_lower: Seq<char>, terms: Seq<Seq<char>>) -> bool {
    exists|k: int| 0 <= k < terms.len() && contains(line_lower, #[trigger] terms[k])
}

/// Index of the first line at or after `i` whose lower-case form holds a term, or -1.
pub open spec fn first_term_line(ls: Seq<Seq<char>>, terms: Seq<Seq<char>>, i: int) -> int
    decreases ls.len() - i,
{
    if i < 0 || i >= ls.len() {
        -1
    } else if has_term(lowercase(ls[i]), terms) {
        i
    } else {
        first_term_line(ls, terms, i + 1)
    }
}

/// Index of the first line at or after `i` that is not blank, or -1.
pub open spec fn first_nonblank(ls: Seq<Seq<char>>, i: int) -> int
    decreases ls.len() - i,
{
    if i < 0 || i >= ls.len() {
        -1
    } else if trim(ls[i]).len() > 0 {
        i
    } else {
        first_nonblank(ls, i + 1)
    }
}

/// Snippet and 1-based line of the first line holding a query term; without
/// such a line, the snippet of the first non-blank line and no line number.
/// `None` where cutting a snippet would split a character.
pub open spec fn spec_find_snippet(content: Seq<char>, query: Seq<char>, max: usize) -> Option<(Seq<char>, Option<usize>)> {
    let ls = lines(content);
    let terms = words(lowercase(query));
    let j = first_term_line(ls, terms, 0);
    if j >= 0 {
        match spec_snippet(ls[j], max) {
            Some(s) => Some((s, Some((j + 1) as usize))),
            None => None,
        }
    } else {
        let k = first_nonblank(ls, 0);
        if k >= 0 {
            match spec_snippet(ls[k], max) {
                Some(s) => Some((s, None)),
                None => None,
            }
        } else {
            Some((seq![], None))
        }
    }
}

proof fn lemma_first_term_skip(ls: Seq<Seq<char>>, terms: Seq<Seq<char>>, i: int)
    requires
        0 <= i <= ls.len(),
        forall|k: int| 0 <= k < i ==> !has_term(lowercase(#[trigger] ls[k]), terms),
    ensures
        first_term_line(ls, terms, 0) == first_term_line(ls, terms, i),
    decreases i,
{
    if i > 0 {
        lemma_first_term_skip(ls, terms, i - 1);
    }
}

proof fn lemma_first_nonblank_skip(ls: Seq<Seq<char>>, i: int)
    requires
        0 <= i <= ls.len(),
        forall|k: int| 0 <= k < i ==> trim(#[trigger] ls[k]).len() == 0,
    ensures
        first_nonblank(ls, 0) == first_nonblank(ls, i),
    decreases i,
{
    if i > 0 {
        lemma_first_nonblank_skip(ls, i - 1);
    }
}

/// Finds the snippet for a document: the first line holding a query term
/// (case-insensitively), else the first non-blank line.
pub fn find_snippet_with_line(content: &str, query: &str, max_len: usize) -> (r: Option<(String, Option<usize>)>)
    ensures
        r is Some <==> spec_find_snippet(content@, query@, max_len) is Some,
        r matches Some(p) ==> Some((p.0@, p.1)) == spec_find_snippet(content@, query@, max_len),
{
    let ql = to_lowercase(query);
    let qv = to_chars(ql.as_str());
    let terms = split_words(qv.as_slice());
    let ghost tv = terms@.map_values(|t: Vec<char>| t@);
    let cv = to_chars(content);
    let ls = split_lines(cv.as_slice());
    let ghost lsv = ls@.map_values(|l: Vec<char>| l@);
    let mut i: usize = 0;
    while i < ls.len()
        invariant
            i <= ls@.len(),
            lsv == ls@.map_values(|l: Vec<char>| l@),
            lsv == lines(content@),
            tv == terms@.map_values(|t: Vec<char>| t@),
            tv == words(lowercase(query@)),
            forall|k: int| 0 <= k < i ==> !has_term(lowercase(#[trigger] lsv[k]), tv),
        decreases ls@.len() - i,
    {
        let line = crate::text::from_chars(ls[i].as_slice());
        let lower = to_lowercase(line.as_str());
        let lv = to_chars(lower.as_str());
        let mut t: usize = 0;
        let mut found = false;
        while t < terms.len()
            invariant
                t <= terms@.len(),
                tv == terms@.map_values(|t: Vec<char>| t@),
                lv@ == lowercase(lsv[i as int]),
                i < lsv.len(),
                found ==> has_term(lv@, tv),
                !found ==> forall|k: int| 0 <= k < t ==> !contains(lv@, #[trigger] tv[k]),
            decreases terms@.len() - t,
        {
            if !found && contains_chars(lv.as_slice(), terms[t].as_slice()) {
                assert(contains(lv@, tv[t as int]));
                found = true;
            }
            t += 1;
        }
        if found {
            proof {
                lemma_first_term_skip(lsv, tv, i as int);
            }
            return match snippet_of(line.as_str(), max_len) {
                Some(s) => Some((s, Some(i + 1))),
                None => None,
            };
        }
        assert(!has_term(lowercase(lsv[i as int]), tv));
        i += 1;
    }
    proof {
        lemma_first_term_skip(lsv, tv, lsv.len() as int);
    }
    let mut k: usize = 0;
    while k < ls.len()
        invariant
            k <= ls@.len(),
            lsv == ls@.map_values(|l: Vec<char>| l@),
            lsv == lines(content@),
            first_term_line(lsv, words(lowercase(query@)), 0) == -1,
            forall|m: int| 0 <= m < k ==> trim(#[trigger] lsv[m]).len() == 0,
        decreases ls@.len() - k,
    {
        let line = crate::text::from_chars(ls[k].as_slice());
        let t = trim_string(line.as_str());
        if !t.as_str().is_empty() {
            proof {
                lemma_first_nonblank_skip(lsv, k as int);
            }
            return match snippet_of(line.as_str(), max_len) {
                Some(s) => Some((s, None)),
                None => None,
            };
        }
        assert(trim(lsv[k as int]).len() == 0);
        k += 1;
    }
    proof {
        lemma_first_nonblank_skip(lsv, lsv.len() as int);
    }
    Some((String::new(), None))
}

// ------------------------------------------------------------------
// Context windows
// ------------------------------------------------------------------

/// Lines before and after line `line_num` (1-based) with `context` lines
/// each way, clipped to the file.
pub open spec fn context_window(ls: Seq<Seq<char>>, line_num: int, context: int) -> (Seq<Seq<char>>, Seq<Seq<char>>) {
    let idx = if line_num >= 1 { line_num - 1 } else { 0 };
    let start = if idx >= context { idx - context } else { 0 };
    let end = if idx + context + 1 <= ls.len() { idx + context + 1 } else { ls.len() as int };
    (ls.subrange(start, idx), if idx + 1 < end { ls.subrange(idx + 1, end) } else { seq![] })
}

/// Views of a vector of strings.
pub open spec fn views(v: Seq<String>) -> Seq<Seq<char>> {
    v.map_values(|s: String| s@)
}

fn copy_range(ls: &Vec<String>, a: usize, b: usize) -> (r: Vec<String>)
    requires
        a <= b <= ls@.len(),
    ensures
        views(r@) == views(ls@).subrange(a as int, b as int),
{
    let mut r: Vec<String> = Vec::new();
    let mut i = a;
    while i < b
        invariant
            a <= i <= b <= ls@.len(),
            views(r@) == views(ls@).subrange(a as int, i as int),
        decreases b - i,
    {
        let ghost prev = views(r@);
        let c = ls[i].clone();
        assert(c@ == ls@[i as int]@);
        r.push(c);
        assert(views(r@) =~= prev.push(c@));
        assert(views(ls@).subrange(a as int, i + 1) =~= views(ls@).subrange(a as int, i as int).push(views(ls@)[i as int]));
        i += 1;
    }
    r
}

/// Context lines around a matched line of a file's lines (`idx` must not
/// lie past the end, where slicing would panic).
pub fn get_context_from_lines(ls: &Vec<String>, line_num: usize, context: usize) -> (r: (Vec<String>, Vec<String>))
    requires
        ls@.len() == 0 || line_num <= ls@.len() + 1,
    ensures
        ls@.len() == 0 ==> r.0@.len() == 0 && r.1@.len() == 0,
        ls@.len() > 0 ==> (views(r.0@), views(r.1@)) == context_window(views(ls@), line_num as int, context as int),
{
    if ls.len() == 0 {
        return (Vec::new(), Vec::new());
    }
    let n = ls.len();
    let idx = if line_num >= 1 { line_num - 1 } else { 0 };
    let start = if idx >= context { idx - context } else { 0 };
    let end = if context < n - idx { idx + context + 1 } else { n };
    let before = copy_range(ls, start, idx);
    let after = if idx + 1 < end { copy_range(ls, idx + 1, end) } else { Vec::new() };
    (before, after)
}

/// Like `get_context_from_lines`, but nothing at all with zero context.
pub fn context_from_lines(ls: &Vec<String>, line_num: usize, context: usize) -> (r: (Vec<String>, Vec<String>))
    requires
        ls@.len() == 0 || line_num <= ls@.len() + 1,
    ensures
        (context == 0 || ls@.len() == 0) ==> r.0@.len() == 0 && r.1@.len() == 0,
        (context > 0 && ls@.len() > 0) ==> (views(r.0@), views(r.1@)) == context_window(views(ls@), line_num as int, context as int),
{
    if context == 0 || ls.len() == 0 {
        return (Vec::new(), Vec::new());
    }
    get_context_from_lines(ls, line_num, context)
}

/// Lines before and after 1-based line `line_num` read from a file: the
/// `context` lines before it and after it, clipped to the file.
pub open spec fn around_line(ls: Seq<Seq<char>>, line_num: int, context: int) -> (Seq<Seq<char>>, Seq<Seq<char>>) {
    let start = if line_num >= context + 1 { line_num - context - 1 } else { 0 };
    let end = if line_num + context <= ls.len() { line_num + context } else { ls.len() as int };
    (if line_num > 1 { ls.subrange(start, line_num - 1) } else { seq![] },
     if line_num < ls.len() { ls.subrange(line_num, end) } else { seq![] })
}

/// Context around a line of a file already read into lines.
pub fn context_around(ls: &Vec<String>, line_num: usize, context: usize) -> (r: (Vec<String>, Vec<String>))
    requires
        line_num <= ls@.len() + 1,
    ensures
        (views(r.0@), views(r.1@)) == around_line(views(ls@), line_num as int, context as int),
{
    let n = ls.len();
    let start = if line_num >= 1 && line_num - 1 >= context { line_num - 1 - context } else { 0 };
    let end = if line_num <= n && context <= n - line_num { line_num + context } else { n };
    let before = if line_num > 1 { copy_range(ls, start, line_num - 1) } else { Vec::new() };
    let after = if line_num < n { copy_range(ls, line_num, end) } else { Vec::new() };
    (before, after)
}

/// Context for an optional line: nothing without a line or with zero context.
pub fn context_for_line(ls: &Vec<String>, line_num: Option<usize>, context: usize) -> (r: (Vec<String>, Vec<String>))
    requires
        line_num matches Some(l) ==> l <= ls@.len() + 1,
    ensures
        (context == 0 || line_num is None) ==> r.0@.len() == 0 && r.1@.len() == 0,
        line_num is Some && context > 0 ==> (views(r.0@), views(r.1@)) == around_line(views(ls@), line_num.unwrap() as int, context as int),
{
    if context == 0 {
        return (Vec::new(), Vec::new());
    }
    match line_num {
        Some(l) => context_around(ls, l, context),
        None => (Vec::new(), Vec::new()),
    }
}

/// Whether `line` holds one of the words of `query`, comparing both in
/// lower case.
pub open spec fn holds_query_word(line: Seq<char>, query: Seq<char>) -> bool {
    let ws = words(lowercase(query));
    exists|w: int| 0 <= w < ws.len() && contains(lowercase(line), #[trigger] ws[w])
}

/// When line `j` is the first line holding a word of the query (ignoring
/// case in both), the snippet is cut from that line and carries its 1-based
/// number.
pub proof fn law_snippet_at_first_match(content: Seq<char>, query: Seq<char>, max: usize, j: int)
    requires
        0 <= j < lines(content).len(),
        holds_query_word(lines(content)[j], query),
        forall|i: int| 0 <= i < j ==> !holds_query_word(#[trigger] lines(content)[i], query),
    ensures
        spec_find_snippet(content, query, max) == match spec_snippet(lines(content)[j], max) {
            Some(s) => Some((s, Some((j + 1) as usize))),
            None => None,
        },
{
    let ls = lines(content);
    let terms = words(lowercase(query));
    assert forall|k: int| 0 <= k < j implies !has_term(lowercase(#[trigger] ls[k]), terms) by {
        assert(!holds_query_word(ls[k], query));
    }
    lemma_first_term_skip(ls, terms, j);
    assert(has_term(lowercase(ls[j]), terms));
}

/// When no line holds a word of the query (ignoring case), the snippet
/// carries no line number.
pub proof fn law_snippet_without_match(content: Seq<char>, query: Seq<char>, max: usize)
    requires
        forall|i: int| 0 <= i < lines(content).len() ==> !holds_query_word(#[trigger] lines(content)[i], query),
    ensures
        spec_find_snippet(content, query, max) matches Some(p) ==> p.1 is None,
{
    let ls = lines(content);
    let terms = words(lowercase(query));
    assert forall|k: int| 0 <= k < ls.len() implies !has_term(lowercase(#[trigger] ls[k]), terms) by {
        assert(!holds_query_word(ls[k], query));
    }
    lemma_first_term_skip(ls, terms, ls.len() as int);
}

/// Queries that differ only in case give the same snippet.
pub proof fn law_snippet_ignores_query_case(content: Seq<char>, q1: Seq<char>, q2: Seq<char>, max: usize)
    requires
        lowercase(q1) == lowercase(q2),
    ensures
        spec_find_snippet(content, q1, max) == spec_find_snippet(content, q2, max),
{
}

} // verus!
