//! Lookups over scanned files: the call sites of a function, the references
//! to a name, the files that import a given file, symbols by name and the
//! definitions of a symbol.
//!
//! Reading the files is the caller's; here are the rules that pick lines
//! and symbols out of them.

use vstd::prelude::*;
use crate::regex_engine::{regex_compiles, regex_escaped, regex_first_start, regex_matches, escape_regex, CompiledRegex};
use crate::filters::{file_name, last_dot, lemma_last_dot_bounds, path_file_name};
use crate::index_plan::sym_views;
use crate::scan::{count_distinct, file_views, lemma_count_distinct_le, passes_filters, path_passes, rel_path, relative_path, string_lines, PathFilters, ScannedFile};
use crate::symbols::{kind_name, Symbol, SymbolExtractor, SymbolKind, SymbolView};
use crate::syntax_tree::symbols_or_empty;
use crate::snippets::views;
use crate::text::{contains, from_chars, lines, lowercase, push_str, str_contains, str_eq, to_lowercase, trim, trim_string};

verus! {

/// A line picked out of a file.
#[derive(Debug, Clone)]
pub struct LineHit {
    /// Path relative to the root.
    pub path: String,
    /// 1-based line number.
    pub line: usize,
    /// The line, trimmed.
    pub code: String,
}

/// Path, line number and trimmed text of a line hit.
pub type LineHitView = (Seq<char>, usize, Seq<char>);

impl View for LineHit {
    type V = LineHitView;

    open spec fn view(&self) -> LineHitView {
        (self.path@, self.line, self.code@)
    }
}

/// Views of line hits.
pub open spec fn hit_views(v: Seq<LineHit>) -> Seq<LineHitView> {
    v.map_values(|h: LineHit| h@)
}

/// The lines among the first `n` of `ls` that `keep` selects, as hits of
/// `path`.
pub open spec fn lines_where(path: Seq<char>, ls: Seq<Seq<char>>, keep: spec_fn(Seq<char>) -> bool, n: int) -> Seq<LineHitView>
    decreases n,
{
    if n <= 0 {
        seq![]
    } else {
        let prev = lines_where(path, ls, keep, n - 1);
        if keep(ls[n - 1]) {
            prev.push((path, n as usize, trim(ls[n - 1])))
        } else {
            prev
        }
    }
}

/// The lines `keep` selects in the first `n` files, in file order, each
/// file named relative to `root`.
pub open spec fn files_where(fs: Seq<(Seq<char>, Seq<char>)>, root: Seq<char>, keep: spec_fn(Seq<char>) -> bool, n: int) -> Seq<LineHitView>
    decreases n,
{
    if n <= 0 {
        seq![]
    } else {
        let ls = lines(fs[n - 1].1);
        files_where(fs, root, keep, n - 1) + lines_where(rel_path(fs[n - 1].0, root), ls, keep, ls.len() as int)
    }
}

// ------------------------------------------------------------------
// Callers
// ------------------------------------------------------------------

/// The pattern of a call of `function`: the name as a word, then `(`.
pub open spec fn caller_pattern(function: Seq<char>) -> Seq<char> {
    "\\b"@ + regex_escaped(function) + "\\s*\\("@
}

/// Whether a line declares a function (such lines are not call sites).
pub open spec fn declares_function(line: Seq<char>) -> bool {
    let l = lowercase(line);
    contains(l, "function "@) || contains(l, "fn "@) || contains(l, "def "@) || contains(l, "func "@)
}

/// Whether a line is a call site for the call pattern `pattern`.
pub open spec fn call_site(pattern: Seq<char>) -> spec_fn(Seq<char>) -> bool {
    |l: Seq<char>| regex_matches(pattern, false, l) && !declares_function(l)
}

fn declares_function_exec(line: &str) -> (b: bool)
    ensures
        b == declares_function(line@),
{
    let l = to_lowercase(line);
    str_contains(l.as_str(), "function ") || str_contains(l.as_str(), "fn ") || str_contains(l.as_str(), "def ")
        || str_contains(l.as_str(), "func ")
}

proof fn lemma_push_hit(out: Seq<LineHit>, h: LineHit)
    ensures
        hit_views(out.push(h)) == hit_views(out).push(h@),
{
    assert(hit_views(out.push(h)) =~= hit_views(out).push(h@));
}

/// Appends the call sites in one file.
fn call_sites_in(re: &CompiledRegex, rel: &str, content: &str, out: &mut Vec<LineHit>)
    requires
        !re.folds_case(),
    ensures
        hit_views(final(out)@) == hit_views(old(out)@) + lines_where(rel@, lines(content@), call_site(re.pattern()), lines(content@).len() as int),
{
    let ls = string_lines(content);
    let ghost lsv = lines(content@);
    let ghost keep = call_site(re.pattern());
    let ghost start = hit_views(out@);
    let mut j: usize = 0;
    assert(start + lines_where(rel@, lsv, keep, 0) =~= start);
    while j < ls.len()
        invariant
            j <= ls@.len(),
            views(ls@) == lsv,
            keep == call_site(re.pattern()),
            !re.folds_case(),
            hit_views(out@) == start + lines_where(rel@, lsv, keep, j as int),
        decreases ls@.len() - j,
    {
        let line = ls[j].as_str();
        assert(line@ == lsv[j as int]);
        if re.is_match(line) && !declares_function_exec(line) {
            let h = LineHit { path: String::from_str(rel), line: j + 1, code: trim_string(line) };
            proof {
                lemma_push_hit(out@, h);
            }
            out.push(h);
            assert(hit_views(out@) =~= start + lines_where(rel@, lsv, keep, j + 1));
        } else {
            assert(lines_where(rel@, lsv, keep, j + 1) == lines_where(rel@, lsv, keep, j as int));
        }
        j += 1;
    }
}

/// The call sites of `function` in `files`, in file and line order: lines
/// where the name is followed by `(`, leaving out lines that declare a
/// function. `None` when the call pattern does not compile.
pub fn find_callers(function: &str, root: &str, files: &[ScannedFile]) -> (r: Option<Vec<LineHit>>)
    ensures
        r is Some <==> regex_compiles(caller_pattern(function@), false),
        r matches Some(v) ==> hit_views(v@) == files_where(file_views(files@), root@, call_site(caller_pattern(function@)), files@.len() as int),
{
    let mut pattern = String::from_str("\\b");
    let esc = escape_regex(function);
    push_str(&mut pattern, esc.as_str());
    push_str(&mut pattern, "\\s*\\(");
    assert(pattern@ == caller_pattern(function@));
    let re = match CompiledRegex::new(pattern.as_str(), false) {
        Some(re) => re,
        None => return None,
    };
    let ghost fs = file_views(files@);
    let ghost keep = call_site(caller_pattern(function@));
    let mut out: Vec<LineHit> = Vec::new();
    let mut i: usize = 0;
    while i < files.len()
        invariant
            i <= files@.len(),
            fs == file_views(files@),
            re.pattern() == caller_pattern(function@),
            !re.folds_case(),
            keep == call_site(caller_pattern(function@)),
            hit_views(out@) == files_where(fs, root@, keep, i as int),
        decreases files@.len() - i,
    {
        let rel = relative_path(files[i].path.as_str(), root);
        assert(fs[i as int] == (files@[i as int].path@, files@[i as int].content@));
        call_sites_in(&re, rel.as_str(), files[i].content.as_str(), &mut out);
        i += 1;
    }
    Some(out)
}


// ------------------------------------------------------------------
// References
// ------------------------------------------------------------------

/// A reference to a name.
#[derive(Debug, Clone)]
pub struct ReferenceHit {
    /// Path relative to the root.
    pub path: String,
    /// 1-based line number.
    pub line: usize,
    /// 1-based byte column where the name starts.
    pub column: usize,
    /// The line, trimmed.
    pub code: String,
}

/// Path, line, column and trimmed text of a reference.
pub type ReferenceView = (Seq<char>, usize, usize, Seq<char>);

impl View for ReferenceHit {
    type V = ReferenceView;

    open spec fn view(&self) -> ReferenceView {
        (self.path@, self.line, self.column, self.code@)
    }
}

/// Views of references.
pub open spec fn reference_views(v: Seq<ReferenceHit>) -> Seq<ReferenceView> {
    v.map_values(|h: ReferenceHit| h@)
}

/// The pattern of a reference to `name`: the name as a whole word.
pub open spec fn reference_pattern(name: Seq<char>) -> Seq<char> {
    "\\b"@ + regex_escaped(name) + "\\b"@
}

/// The references among the first `n` lines of `ls`.
pub open spec fn refs_in_lines(path: Seq<char>, ls: Seq<Seq<char>>, pattern: Seq<char>, n: int) -> Seq<ReferenceView>
    decreases n,
{
    if n <= 0 {
        seq![]
    } else {
        let prev = refs_in_lines(path, ls, pattern, n - 1);
        match regex_first_start(pattern, false, ls[n - 1]) {
            Some(s) => prev.push((path, n as usize, (s + 1) as usize, trim(ls[n - 1]))),
            None => prev,
        }
    }
}

/// The references in the first `n` files.
pub open spec fn refs_in_files(fs: Seq<(Seq<char>, Seq<char>)>, root: Seq<char>, pattern: Seq<char>, n: int) -> Seq<ReferenceView>
    decreases n,
{
    if n <= 0 {
        seq![]
    } else {
        let ls = lines(fs[n - 1].1);
        refs_in_files(fs, root, pattern, n - 1) + refs_in_lines(rel_path(fs[n - 1].0, root), ls, pattern, ls.len() as int)
    }
}

/// The first `cap` elements of `s` (all of them when there are fewer).
pub open spec fn capped<T>(s: Seq<T>, cap: int) -> Seq<T> {
    if s.len() <= cap {
        s
    } else {
        s.take(cap)
    }
}

proof fn lemma_capped_push<T>(s: Seq<T>, x: T, cap: int)
    requires
        cap >= 0,
    ensures
        capped(s, cap).len() <= cap,
        capped(s.push(x), cap) == if capped(s, cap).len() < cap {
            capped(s, cap).push(x)
        } else {
            capped(s, cap)
        },
{
    if s.len() < cap {
    } else {
        assert(s.push(x).take(cap) =~= capped(s, cap));
    }
}

/// The references `find_references` reports: with a positive limit, the
/// first `max_results` references over all files; with a limit of 0, the
/// first reference of the first file.
pub open spec fn reported_references(fs: Seq<(Seq<char>, Seq<char>)>, root: Seq<char>, pattern: Seq<char>, max_results: usize) -> Seq<ReferenceView> {
    if max_results == 0 {
        capped(refs_in_files(fs, root, pattern, if fs.len() == 0 { 0 } else { 1 }), 1)
    } else {
        capped(refs_in_files(fs, root, pattern, fs.len() as int), max_results as int)
    }
}

proof fn lemma_push_ref(out: Seq<ReferenceHit>, h: ReferenceHit)
    ensures
        reference_views(out.push(h)) == reference_views(out).push(h@),
{
    assert(reference_views(out.push(h)) =~= reference_views(out).push(h@));
}

/// Appends the references in one file while fewer than `cap` are held.
fn refs_in(re: &CompiledRegex, rel: &str, content: &str, cap: usize, out: &mut Vec<ReferenceHit>, Ghost(before): Ghost<Seq<ReferenceView>>)
    requires
        !re.folds_case(),
        reference_views(old(out)@) == capped(before, cap as int),
    ensures
        reference_views(final(out)@) == capped(before + refs_in_lines(rel@, lines(content@), re.pattern(), lines(content@).len() as int), cap as int),
{
    let ls = string_lines(content);
    let ghost lsv = lines(content@);
    let ghost p = re.pattern();
    let mut j: usize = 0;
    assert(before + refs_in_lines(rel@, lsv, p, 0) =~= before);
    while j < ls.len()
        invariant
            j <= ls@.len(),
            views(ls@) == lsv,
            p == re.pattern(),
            !re.folds_case(),
            reference_views(out@) == capped(before + refs_in_lines(rel@, lsv, p, j as int), cap as int),
        decreases ls@.len() - j,
    {
        let line = ls[j].as_str();
        assert(line@ == lsv[j as int]);
        let ghost prefix = before + refs_in_lines(rel@, lsv, p, j as int);
        match re.find_start(line) {
            Some(s) => {
                let h = ReferenceHit { path: String::from_str(rel), line: j + 1, column: s + 1, code: trim_string(line) };
                assert(before + refs_in_lines(rel@, lsv, p, j + 1) =~= prefix.push(h@));
                proof {
                    lemma_capped_push(prefix, h@, cap as int);
                }
                if out.len() < cap {
                    proof {
                        lemma_push_ref(out@, h);
                    }
                    out.push(h);
                }
            },
            None => {
                assert(before + refs_in_lines(rel@, lsv, p, j + 1) =~= prefix);
            },
        }
        j += 1;
    }
}

/// The references command never reports more than its limit (one when
/// the limit is 0).
pub proof fn law_references_within_limit(fs: Seq<(Seq<char>, Seq<char>)>, root: Seq<char>, pattern: Seq<char>, max_results: usize)
    ensures
        reported_references(fs, root, pattern, max_results).len() <= if max_results == 0 { 1 } else { max_results as int },
{
}

/// The references to `name` (the name as a whole word) in `files`, in file
/// and line order, at most `max_results` of them; with a limit of 0 only
/// the first reference of the first file. `None` when the pattern does not
/// compile.
pub fn find_references(name: &str, root: &str, files: &[ScannedFile], max_results: usize) -> (r: Option<Vec<ReferenceHit>>)
    ensures
        r is Some <==> regex_compiles(reference_pattern(name@), false),
        r matches Some(v) ==> reference_views(v@) == reported_references(file_views(files@), root@, reference_pattern(name@), max_results),
{
    let mut pattern = String::from_str("\\b");
    let esc = escape_regex(name);
    push_str(&mut pattern, esc.as_str());
    push_str(&mut pattern, "\\b");
    assert(pattern@ == reference_pattern(name@));
    let re = match CompiledRegex::new(pattern.as_str(), false) {
        Some(re) => re,
        None => return None,
    };
    let ghost fs = file_views(files@);
    let ghost p = reference_pattern(name@);
    let cap: usize = if max_results == 0 { 1 } else { max_results };
    let nfiles: usize = if max_results == 0 { if files.len() == 0 { 0 } else { 1 } } else { files.len() };
    let mut out: Vec<ReferenceHit> = Vec::new();
    let mut i: usize = 0;
    assert(reference_views(out@) =~= capped(refs_in_files(fs, root@, p, 0), cap as int));
    while i < nfiles
        invariant
            i <= nfiles <= files@.len(),
            fs == file_views(files@),
            re.pattern() == p,
            !re.folds_case(),
            reference_views(out@) == capped(refs_in_files(fs, root@, p, i as int), cap as int),
        decreases nfiles - i,
    {
        let rel = relative_path(files[i].path.as_str(), root);
        assert(fs[i as int] == (files@[i as int].path@, files@[i as int].content@));
        refs_in(&re, rel.as_str(), files[i].content.as_str(), cap, &mut out, Ghost(refs_in_files(fs, root@, p, i as int)));
        i += 1;
    }
    Some(out)
}


// ------------------------------------------------------------------
// Dependents
// ------------------------------------------------------------------

/// `Path::file_stem` of a file name: the name before its last `.`, or the
/// whole name when it has no `.` or only a leading one.
pub open spec fn stem_of_name(name: Seq<char>) -> Seq<char> {
    let k = last_dot(name);
    if k <= 0 {
        name
    } else {
        name.take(k)
    }
}

/// The stem that imports of `file` name: the stem of its file name, or the
/// text itself when it has no file name.
pub open spec fn target_stem(file: Seq<char>) -> Seq<char> {
    match file_name(file) {
        Some(n) => stem_of_name(n),
        None => file,
    }
}

/// Computes `target_stem`.
pub fn stem_of(file: &str) -> (r: String)
    ensures
        r@ == target_stem(file@),
{
    match path_file_name(file) {
        None => String::from_str(file),
        Some(name) => {
            proof {
                lemma_last_dot_bounds(name@);
            }
            let mut k: usize = name.len();
            while k > 0 && name[k - 1] != '.'
                invariant
                    k <= name@.len(),
                    forall|i: int| k <= i < name@.len() ==> name@[i] != '.',
                decreases k,
            {
                k -= 1;
            }
            proof {
                if k > 0 {
                    assert(last_dot(name@) == k - 1) by {
                        if last_dot(name@) > k - 1 {
                            assert(name@[last_dot(name@)] == '.');
                        }
                        if last_dot(name@) < k - 1 {
                            assert(name@[k - 1] == '.');
                        }
                    }
                } else {
                    assert(last_dot(name@) == -1) by {
                        if last_dot(name@) >= 0 {
                            assert(name@[last_dot(name@)] == '.');
                        }
                    }
                }
            }
            if k <= 1 {
                from_chars(name.as_slice())
            } else {
                let mut t: Vec<char> = Vec::new();
                let mut i: usize = 0;
                while i < k - 1
                    invariant
                        i <= k - 1,
                        k <= name@.len(),
                        t@ == name@.take(i as int),
                    decreases k - 1 - i,
                {
                    t.push(name[i]);
                    assert(t@ =~= name@.take(i + 1));
                    i += 1;
                }
                from_chars(t.as_slice())
            }
        },
    }
}

/// The import patterns that name `stem`: string imports (`import`, `from`,
/// `require`), bare module imports, `use`/`mod` items and parenthesised
/// imports.
pub open spec fn dependent_patterns(stem: Seq<char>) -> Seq<Seq<char>> {
    seq![
        "(?:import|from|require)\\s*[\\(\\s]?['\"](?:[./]*"@ + regex_escaped(stem) + ")['\"]"@,
        "(?:import|from)\\s+"@ + regex_escaped(stem) + "(?:\\s|$|,)"@,
        "(?:use|mod)\\s+(?:crate::)?"@ + regex_escaped(stem) + "(?:::|;|\\s)"@,
        "import\\s+[\\(\\s]*['\"](?:[./]*"@ + regex_escaped(stem) + ")['\"]"@,
    ]
}

/// Whether a line matches one of the patterns that compile.
pub open spec fn imports_any(ps: Seq<Seq<char>>) -> spec_fn(Seq<char>) -> bool {
    |l: Seq<char>| exists|k: int| 0 <= k < ps.len() && regex_compiles(ps[k], false) && #[trigger] regex_matches(ps[k], false, l)
}

/// Like `files_where`, leaving out the files whose relative path contains
/// `skip`.
pub open spec fn files_where_except(fs: Seq<(Seq<char>, Seq<char>)>, root: Seq<char>, skip: Seq<char>, keep: spec_fn(Seq<char>) -> bool, n: int) -> Seq<LineHitView>
    decreases n,
{
    if n <= 0 {
        seq![]
    } else {
        let ls = lines(fs[n - 1].1);
        let rel = rel_path(fs[n - 1].0, root);
        let prev = files_where_except(fs, root, skip, keep, n - 1);
        if contains(rel, skip) {
            prev
        } else {
            prev + lines_where(rel, ls, keep, ls.len() as int)
        }
    }
}

fn pattern_with(prefix: &str, esc: &str, suffix: &str) -> (r: String)
    ensures
        r@ == prefix@ + esc@ + suffix@,
{
    let mut p = String::from_str(prefix);
    push_str(&mut p, esc);
    push_str(&mut p, suffix);
    p
}

fn compile_opt(pattern: String) -> (r: (String, Option<CompiledRegex>))
    ensures
        r.0@ == pattern@,
        r.1 is Some <==> regex_compiles(pattern@, false),
        r.1 matches Some(c) ==> c.pattern() == pattern@ && !c.folds_case(),
{
    let c = CompiledRegex::new(pattern.as_str(), false);
    (pattern, c)
}

/// Whether `line` matches one of the compiled patterns.
fn matches_any(res: &Vec<Option<CompiledRegex>>, line: &str, Ghost(ps): Ghost<Seq<Seq<char>>>) -> (b: bool)
    requires
        res@.len() == ps.len(),
        forall|k: int| 0 <= k < ps.len() ==> ((#[trigger] res@[k]) is Some <==> regex_compiles(ps[k], false)),
        forall|k: int| 0 <= k < ps.len() ==> ((#[trigger] res@[k]) matches Some(c) ==> c.pattern() == ps[k] && !c.folds_case()),
    ensures
        b == (imports_any(ps))(line@),
{
    let mut k: usize = 0;
    while k < res.len()
        invariant
            k <= res@.len() == ps.len(),
            forall|m: int| 0 <= m < ps.len() ==> ((#[trigger] res@[m]) is Some <==> regex_compiles(ps[m], false)),
            forall|m: int| 0 <= m < ps.len() ==> ((#[trigger] res@[m]) matches Some(c) ==> c.pattern() == ps[m] && !c.folds_case()),
            forall|m: int| 0 <= m < k ==> !(regex_compiles(ps[m], false) && #[trigger] regex_matches(ps[m], false, line@)),
        decreases res@.len() - k,
    {
        match &res[k] {
            Some(re) => {
                if re.is_match(line) {
                    assert(regex_compiles(ps[k as int], false) && regex_matches(ps[k as int], false, line@));
                    return true;
                }
            },
            None => {},
        }
        k += 1;
    }
    false
}

/// Appends the lines of one file that import the target.
fn imports_in(res: &Vec<Option<CompiledRegex>>, rel: &str, content: &str, out: &mut Vec<LineHit>, Ghost(ps): Ghost<Seq<Seq<char>>>)
    requires
        res@.len() == ps.len(),
        forall|k: int| 0 <= k < ps.len() ==> ((#[trigger] res@[k]) is Some <==> regex_compiles(ps[k], false)),
        forall|k: int| 0 <= k < ps.len() ==> ((#[trigger] res@[k]) matches Some(c) ==> c.pattern() == ps[k] && !c.folds_case()),
    ensures
        hit_views(final(out)@) == hit_views(old(out)@) + lines_where(rel@, lines(content@), imports_any(ps), lines(content@).len() as int),
{
    let ls = string_lines(content);
    let ghost lsv = lines(content@);
    let ghost keep = imports_any(ps);
    let ghost start = hit_views(out@);
    let mut j: usize = 0;
    assert(start + lines_where(rel@, lsv, keep, 0) =~= start);
    while j < ls.len()
        invariant
            j <= ls@.len(),
            views(ls@) == lsv,
            keep == imports_any(ps),
            res@.len() == ps.len(),
            forall|k: int| 0 <= k < ps.len() ==> ((#[trigger] res@[k]) is Some <==> regex_compiles(ps[k], false)),
            forall|k: int| 0 <= k < ps.len() ==> ((#[trigger] res@[k]) matches Some(c) ==> c.pattern() == ps[k] && !c.folds_case()),
            hit_views(out@) == start + lines_where(rel@, lsv, keep, j as int),
        decreases ls@.len() - j,
    {
        let line = ls[j].as_str();
        assert(line@ == lsv[j as int]);
        if matches_any(res, line, Ghost(ps)) {
            let h = LineHit { path: String::from_str(rel), line: j + 1, code: trim_string(line) };
            proof {
                lemma_push_hit(out@, h);
            }
            out.push(h);
            assert(hit_views(out@) =~= start + lines_where(rel@, lsv, keep, j + 1));
        } else {
            assert(lines_where(rel@, lsv, keep, j + 1) == lines_where(rel@, lsv, keep, j as int));
        }
        j += 1;
    }
}

/// The lines of `files` that import `file`: lines matching one of the
/// import patterns for the file's stem (those patterns that compile), in
/// file and line order, leaving out files whose relative path contains the
/// stem.
pub fn find_dependents(file: &str, root: &str, files: &[ScannedFile]) -> (r: Vec<LineHit>)
    ensures
        hit_views(r@) == files_where_except(file_views(files@), root@, target_stem(file@), imports_any(dependent_patterns(target_stem(file@))), files@.len() as int),
{
    let stem = stem_of(file);
    let esc = escape_regex(stem.as_str());
    let ghost ps = dependent_patterns(target_stem(file@));
    let p0 = pattern_with("(?:import|from|require)\\s*[\\(\\s]?['\"](?:[./]*", esc.as_str(), ")['\"]");
    let p1 = pattern_with("(?:import|from)\\s+", esc.as_str(), "(?:\\s|$|,)");
    let p2 = pattern_with("(?:use|mod)\\s+(?:crate::)?", esc.as_str(), "(?:::|;|\\s)");
    let p3 = pattern_with("import\\s+[\\(\\s]*['\"](?:[./]*", esc.as_str(), ")['\"]");
    let (_, c0) = compile_opt(p0);
    let (_, c1) = compile_opt(p1);
    let (_, c2) = compile_opt(p2);
    let (_, c3) = compile_opt(p3);
    let mut res: Vec<Option<CompiledRegex>> = Vec::new();
    res.push(c0);
    res.push(c1);
    res.push(c2);
    res.push(c3);
    assert(ps.len() == 4);
    assert(forall|k: int| 0 <= k < ps.len() ==> ((#[trigger] res@[k]) is Some <==> regex_compiles(ps[k], false)));
    assert(forall|k: int| 0 <= k < ps.len() ==> ((#[trigger] res@[k]) matches Some(c) ==> c.pattern() == ps[k] && !c.folds_case()));
    let ghost fs = file_views(files@);
    let ghost keep = imports_any(ps);
    let mut out: Vec<LineHit> = Vec::new();
    let mut i: usize = 0;
    while i < files.len()
        invariant
            i <= files@.len(),
            fs == file_views(files@),
            stem@ == target_stem(file@),
            keep == imports_any(ps),
            res@.len() == ps.len(),
            forall|k: int| 0 <= k < ps.len() ==> ((#[trigger] res@[k]) is Some <==> regex_compiles(ps[k], false)),
            forall|k: int| 0 <= k < ps.len() ==> ((#[trigger] res@[k]) matches Some(c) ==> c.pattern() == ps[k] && !c.folds_case()),
            hit_views(out@) == files_where_except(fs, root@, stem@, keep, i as int),
        decreases files@.len() - i,
    {
        let rel = relative_path(files[i].path.as_str(), root);
        assert(fs[i as int] == (files@[i as int].path@, files@[i as int].content@));
        if !str_contains(rel.as_str(), stem.as_str()) {
            imports_in(&res, rel.as_str(), files[i].content.as_str(), &mut out, Ghost(ps));
        }
        i += 1;
    }
    out
}


// ------------------------------------------------------------------
// Symbols
// ------------------------------------------------------------------

/// A symbol found by name.
#[derive(Debug, Clone)]
pub struct SymbolHit {
    pub name: String,
    /// Lower-case kind name.
    pub kind: String,
    /// Path relative to the root.
    pub path: String,
    /// 1-based line.
    pub line: usize,
}

/// Name, kind name, path and line of a symbol hit.
pub type SymbolHitView = (Seq<char>, Seq<char>, Seq<char>, usize);

impl View for SymbolHit {
    type V = SymbolHitView;

    open spec fn view(&self) -> SymbolHitView {
        (self.name@, self.kind@, self.path@, self.line)
    }
}

/// Views of symbol hits.
pub open spec fn symbol_hit_views(v: Seq<SymbolHit>) -> Seq<SymbolHitView> {
    v.map_values(|h: SymbolHit| h@)
}

/// The view of an optional string.
pub open spec fn opt_chars(s: Option<&str>) -> Option<Seq<char>> {
    match s {
        Some(t) => Some(t@),
        None => None,
    }
}

/// The language of a scanned file.
pub open spec fn file_language(f: ScannedFile) -> Option<Seq<char>> {
    match f.language {
        Some(l) => Some(l@),
        None => None,
    }
}

/// Whether a symbol answers a search for `name` (its name contains `name`,
/// ignoring case) of type `symbol_type` (its kind name equals the type in
/// lower case).
pub open spec fn symbol_selected(name: Seq<char>, symbol_type: Option<Seq<char>>, s: SymbolView) -> bool {
    &&& contains(lowercase(s.0), lowercase(name))
    &&& match symbol_type {
        Some(t) => kind_name(s.1) == lowercase(t),
        None => true,
    }
}

/// The selected symbols among the first `n` of `syms`, as hits in `path`.
pub open spec fn symbol_hits_of(name: Seq<char>, symbol_type: Option<Seq<char>>, path: Seq<char>, syms: Seq<SymbolView>, n: int) -> Seq<SymbolHitView>
    decreases n,
{
    if n <= 0 {
        seq![]
    } else {
        let prev = symbol_hits_of(name, symbol_type, path, syms, n - 1);
        let s = syms[n - 1];
        if symbol_selected(name, symbol_type, s) {
            prev.push((s.0, kind_name(s.1), path, s.2))
        } else {
            prev
        }
    }
}

/// The symbols of one file that answer a search for `name` and
/// `symbol_type`, in order.
pub fn symbol_hits(name: &str, symbol_type: Option<&str>, path: &str, syms: &[Symbol]) -> (r: Vec<SymbolHit>)
    ensures
        symbol_hit_views(r@) == symbol_hits_of(name@, opt_chars(symbol_type), path@, sym_views(syms@), syms@.len() as int),
{
    let name_lower = to_lowercase(name);
    let type_lower: Option<String> = match symbol_type {
        Some(t) => Some(to_lowercase(t)),
        None => None,
    };
    let ghost ss = sym_views(syms@);
    let mut out: Vec<SymbolHit> = Vec::new();
    let mut i: usize = 0;
    while i < syms.len()
        invariant
            i <= syms@.len(),
            ss == sym_views(syms@),
            name_lower@ == lowercase(name@),
            type_lower matches Some(t) ==> symbol_type is Some && t@ == lowercase(symbol_type->0@),
            type_lower is None <==> symbol_type is None,
            symbol_hit_views(out@) == symbol_hits_of(name@, opt_chars(symbol_type), path@, ss, i as int),
        decreases syms@.len() - i,
    {
        let s = &syms[i];
        assert(ss[i as int] == s@);
        let lname = to_lowercase(s.name.as_str());
        let selected = str_contains(lname.as_str(), name_lower.as_str()) && match &type_lower {
            Some(t) => str_eq(s.kind.as_str(), t.as_str()),
            None => true,
        };
        if selected {
            let h = SymbolHit { name: s.name.clone(), kind: s.kind.to_string(), path: String::from_str(path), line: s.line };
            assert(h.name@ == s.name@);
            let ghost prev = symbol_hit_views(out@);
            out.push(h);
            assert(symbol_hit_views(out@) =~= prev.push(h@));
        }
        i += 1;
    }
    out
}

/// Whether a scanned file is searched for symbols: its relative path passes
/// the filters and, when a language is asked for, it has that language.
pub open spec fn symbol_file_kept(f: PathFilters, lang: Option<Seq<char>>, root: Seq<char>, file: ScannedFile) -> bool {
    &&& passes_filters(f, rel_path(file.path@, root))
    &&& match lang {
        Some(l) => file_language(file) == Some(l),
        None => true,
    }
}

/// Which files are searched for symbols.
pub fn symbol_file_mask(lang: Option<&str>, root: &str, filters: &PathFilters, files: &[ScannedFile]) -> (r: Vec<bool>)
    ensures
        r@.len() == files@.len(),
        forall|k: int| 0 <= k < files@.len() ==> r@[k] == symbol_file_kept(*filters, opt_chars(lang), root@, #[trigger] files@[k]),
{
    let mut out: Vec<bool> = Vec::new();
    let mut i: usize = 0;
    while i < files.len()
        invariant
            i <= files@.len(),
            out@.len() == i,
            forall|k: int| 0 <= k < i ==> out@[k] == symbol_file_kept(*filters, opt_chars(lang), root@, #[trigger] files@[k]),
        decreases files@.len() - i,
    {
        let rel = relative_path(files[i].path.as_str(), root);
        let lang_ok = match lang {
            Some(l) => match &files[i].language {
                Some(fl) => str_eq(fl.as_str(), l),
                None => false,
            },
            None => true,
        };
        out.push(path_passes(filters, rel.as_str()) && lang_ok);
        i += 1;
    }
    out
}

/// The symbols `extract_each` gives a file.
pub open spec fn file_symbols(file: ScannedFile, wanted: bool) -> Seq<SymbolView> {
    match file.language {
        Some(l) => if wanted { symbols_or_empty(l@, file.content@) } else { seq![] },
        None => seq![],
    }
}

/// The symbols of each file: extracted for the files that are `wanted` and
/// have a language (none for an unsupported language), empty for the
/// others.
pub fn extract_each(files: &[ScannedFile], wanted: &[bool]) -> (r: Vec<Vec<Symbol>>)
    requires
        wanted@.len() == files@.len(),
    ensures
        r@.len() == files@.len(),
        forall|k: int| 0 <= k < files@.len() ==> sym_views((#[trigger] r@[k])@) == file_symbols(files@[k], wanted@[k]),
{
    let extractor = SymbolExtractor::new();
    let mut out: Vec<Vec<Symbol>> = Vec::new();
    let mut i: usize = 0;
    while i < files.len()
        invariant
            i <= files@.len() == wanted@.len(),
            out@.len() == i,
            forall|k: int| 0 <= k < i ==> sym_views((#[trigger] out@[k])@) == file_symbols(files@[k], wanted@[k]),
        decreases files@.len() - i,
    {
        let syms: Vec<Symbol> = if wanted[i] {
            match &files[i].language {
                Some(l) => match extractor.extract(files[i].content.as_str(), l.as_str()) {
                    Ok(v) => v,
                    Err(_) => Vec::new(),
                },
                None => Vec::new(),
            }
        } else {
            Vec::new()
        };
        assert(sym_views(syms@) =~= file_symbols(files@[i as int], wanted@[i as int]));
        out.push(syms);
        i += 1;
    }
    out
}

/// Result of a symbol search.
#[derive(Debug, Clone)]
pub struct SymbolSearch {
    /// Hits in file and symbol order.
    pub hits: Vec<SymbolHit>,
    /// Number of distinct relative paths searched.
    pub files_searched: usize,
}

/// The hits over the first `n` files, `syms[k]` being the symbols of file `k`.
pub open spec fn symbol_search_hits(
    name: Seq<char>,
    symbol_type: Option<Seq<char>>,
    lang: Option<Seq<char>>,
    root: Seq<char>,
    f: PathFilters,
    files: Seq<ScannedFile>,
    syms: Seq<Seq<SymbolView>>,
    n: int,
) -> Seq<SymbolHitView>
    decreases n,
{
    if n <= 0 {
        seq![]
    } else {
        let prev = symbol_search_hits(name, symbol_type, lang, root, f, files, syms, n - 1);
        if symbol_file_kept(f, lang, root, files[n - 1]) {
            prev + symbol_hits_of(name, symbol_type, rel_path(files[n - 1].path@, root), syms[n - 1], syms[n - 1].len() as int)
        } else {
            prev
        }
    }
}

/// The relative paths of the searched files among the first `n`.
pub open spec fn searched_paths(lang: Option<Seq<char>>, root: Seq<char>, f: PathFilters, files: Seq<ScannedFile>, n: int) -> Seq<Seq<char>>
    decreases n,
{
    if n <= 0 {
        seq![]
    } else {
        let prev = searched_paths(lang, root, f, files, n - 1);
        if symbol_file_kept(f, lang, root, files[n - 1]) {
            prev.push(rel_path(files[n - 1].path@, root))
        } else {
            prev
        }
    }
}

/// Views of per-file symbol lists.
pub open spec fn sym_lists(v: Seq<Vec<Symbol>>) -> Seq<Seq<SymbolView>> {
    v.map_values(|s: Vec<Symbol>| sym_views(s@))
}

/// Number of distinct strings in `v`.
pub fn count_distinct_strings(v: &Vec<String>) -> (n: usize)
    ensures
        n == count_distinct(views(v@)),
{
    let ghost ps = views(v@);
    let mut n: usize = 0;
    let mut i: usize = 0;
    while i < v.len()
        invariant
            i <= v@.len(),
            ps == views(v@),
            n == count_distinct(ps.take(i as int)),
            n <= i,
        decreases v@.len() - i,
    {
        let mut seen = false;
        let mut k: usize = 0;
        while k < i
            invariant
                k <= i < v@.len(),
                ps == views(v@),
                seen <==> exists|m: int| 0 <= m < k && ps[m] == ps[i as int],
            decreases i - k,
        {
            assert(ps[k as int] == v@[k as int]@ && ps[i as int] == v@[i as int]@);
            if !seen && str_eq(v[k].as_str(), v[i].as_str()) {
                seen = true;
            }
            k += 1;
        }
        let ghost t = ps.take(i + 1);
        assert(t.drop_last() =~= ps.take(i as int));
        assert(seen <==> ps.take(i as int).contains(ps[i as int])) by {
            if seen {
                let m = choose|m: int| 0 <= m < i && ps[m] == ps[i as int];
                assert(ps.take(i as int)[m] == ps[i as int]);
            }
            if ps.take(i as int).contains(ps[i as int]) {
                let m = choose|m: int| 0 <= m < i && ps.take(i as int)[m] == ps[i as int];
                assert(ps[m] == ps[i as int]);
            }
        }
        if !seen {
            n += 1;
        }
        i += 1;
    }
    assert(ps.take(v@.len() as int) =~= ps);
    n
}

/// Searches the given symbols of each file (`symbols[k]` belongs to
/// `files[k]`) for `name`: files whose relative path fails the filters, or
/// whose language is not `lang` when one is asked for, are skipped; the
/// others are counted once per distinct relative path.
pub fn search_symbols(
    name: &str,
    symbol_type: Option<&str>,
    lang: Option<&str>,
    root: &str,
    filters: &PathFilters,
    files: &[ScannedFile],
    symbols: &[Vec<Symbol>],
) -> (r: SymbolSearch)
    requires
        symbols@.len() == files@.len(),
    ensures
        symbol_hit_views(r.hits@) == symbol_search_hits(name@, opt_chars(symbol_type), opt_chars(lang), root@, *filters, files@, sym_lists(symbols@), files@.len() as int),
        r.files_searched == count_distinct(searched_paths(opt_chars(lang), root@, *filters, files@, files@.len() as int)),
{
    let mask = symbol_file_mask(lang, root, filters, files);
    let ghost ss = sym_lists(symbols@);
    let mut hits: Vec<SymbolHit> = Vec::new();
    let mut paths: Vec<String> = Vec::new();
    let mut i: usize = 0;
    while i < files.len()
        invariant
            i <= files@.len() == symbols@.len() == mask@.len(),
            ss == sym_lists(symbols@),
            forall|k: int| 0 <= k < files@.len() ==> mask@[k] == symbol_file_kept(*filters, opt_chars(lang), root@, #[trigger] files@[k]),
            symbol_hit_views(hits@) == symbol_search_hits(name@, opt_chars(symbol_type), opt_chars(lang), root@, *filters, files@, ss, i as int),
            views(paths@) == searched_paths(opt_chars(lang), root@, *filters, files@, i as int),
        decreases files@.len() - i,
    {
        if mask[i] {
            let rel = relative_path(files[i].path.as_str(), root);
            let found = symbol_hits(name, symbol_type, rel.as_str(), symbols[i].as_slice());
            assert(ss[i as int] == sym_views(symbols@[i as int]@));
            let ghost before = symbol_hit_views(hits@);
            let ghost pv = views(paths@);
            let mut found = found;
            let ghost fv = symbol_hit_views(found@);
            hits.append(&mut found);
            assert(symbol_hit_views(hits@) =~= before + fv);
            paths.push(rel);
            assert(views(paths@) =~= pv.push(rel_path(files@[i as int].path@, root@)));
        }
        i += 1;
    }
    let n = count_distinct_strings(&paths);
    SymbolSearch { hits, files_searched: n }
}

// ------------------------------------------------------------------
// Definitions
// ------------------------------------------------------------------

/// Kinds that define something (functions and types), as opposed to
/// variables and members.
pub open spec fn defines(k: SymbolKind) -> bool {
    match k {
        SymbolKind::Function | SymbolKind::Class | SymbolKind::Interface | SymbolKind::Type | SymbolKind::Struct
        | SymbolKind::Enum | SymbolKind::Trait => true,
        _ => false,
    }
}

/// A defining symbol named `name`, ignoring case.
pub open spec fn exact_definition(name: Seq<char>, s: SymbolView) -> bool {
    defines(s.1) && lowercase(s.0) == lowercase(name)
}

/// A defining symbol whose name contains `name` without equalling it,
/// ignoring case.
pub open spec fn partial_definition(name: Seq<char>, s: SymbolView) -> bool {
    defines(s.1) && lowercase(s.0) != lowercase(name) && contains(lowercase(s.0), lowercase(name))
}

/// A symbol of file `file` in the flattened list.
pub type Located = (int, SymbolView);

/// The symbols of the first `n` files, each with its file's index.
pub open spec fn located(syms: Seq<Seq<SymbolView>>, n: int) -> Seq<Located>
    decreases n,
{
    if n <= 0 {
        seq![]
    } else {
        located(syms, n - 1) + syms[n - 1].map_values(|s: SymbolView| (n - 1, s))
    }
}

/// The entries among the first `n` of `ls` that `exact` (or, when not
/// `exact`, the partial test) selects.
pub open spec fn definitions_where(name: Seq<char>, ls: Seq<Located>, exact: bool, n: int) -> Seq<Located>
    decreases n,
{
    if n <= 0 {
        seq![]
    } else {
        let prev = definitions_where(name, ls, exact, n - 1);
        let e = ls[n - 1];
        if (exact && exact_definition(name, e.1)) || (!exact && partial_definition(name, e.1)) {
            prev.push(e)
        } else {
            prev
        }
    }
}

/// The definitions reported for `name`: the exact ones when there are any,
/// else the partial ones, in file and symbol order.
pub open spec fn definitions_for(name: Seq<char>, ls: Seq<Located>) -> Seq<Located> {
    let exact = definitions_where(name, ls, true, ls.len() as int);
    if exact.len() > 0 {
        exact
    } else {
        definitions_where(name, ls, false, ls.len() as int)
    }
}

/// A definition found for a name.
#[derive(Debug, Clone)]
pub struct DefinitionHit {
    pub name: String,
    /// Lower-case kind name.
    pub kind: String,
    /// Path relative to the root.
    pub path: String,
    /// 1-based line.
    pub line: usize,
    /// 1-based column.
    pub column: usize,
    /// Index of the file in the searched list.
    pub file: usize,
}

/// Name, kind name, path, line, column and file index of a definition.
pub type DefinitionView = (Seq<char>, Seq<char>, Seq<char>, usize, usize, usize);

impl View for DefinitionHit {
    type V = DefinitionView;

    open spec fn view(&self) -> DefinitionView {
        (self.name@, self.kind@, self.path@, self.line, self.column, self.file)
    }
}

/// The view of a located symbol as a definition in `files`.
pub open spec fn definition_view(files: Seq<ScannedFile>, root: Seq<char>, e: Located) -> DefinitionView {
    (e.1.0, kind_name(e.1.1), rel_path(files[e.0].path@, root), e.1.2, e.1.3, e.0 as usize)
}

/// The definitions reported for `name` over per-file symbols.
pub open spec fn definition_views(name: Seq<char>, files: Seq<ScannedFile>, root: Seq<char>, syms: Seq<Seq<SymbolView>>) -> Seq<DefinitionView> {
    definitions_for(name, located(syms, syms.len() as int)).map_values(|e: Located| definition_view(files, root, e))
}

proof fn lemma_located_index(syms: Seq<Seq<SymbolView>>, n: int)
    requires
        0 <= n <= syms.len(),
    ensures
        forall|k: int| 0 <= k < located(syms, n).len() ==> 0 <= (#[trigger] located(syms, n)[k]).0 < n,
    decreases n,
{
    if n > 0 {
        lemma_located_index(syms, n - 1);
        let prev = located(syms, n - 1);
        let tail = syms[n - 1].map_values(|s: SymbolView| (n - 1, s));
        assert forall|k: int| 0 <= k < located(syms, n).len() implies 0 <= (#[trigger] located(syms, n)[k]).0 < n by {
            if k < prev.len() {
                assert(located(syms, n)[k] == prev[k]);
            } else {
                assert(located(syms, n)[k] == tail[k - prev.len()]);
            }
        }
    }
}

/// The `(file, symbol)` positions of the entries that `definitions_where`
/// selects in one pass.
fn definition_pass(
    name_lower: &String,
    symbols: &[Vec<Symbol>],
    flat: &Vec<(usize, usize)>,
    exact: bool,
    Ghost(name): Ghost<Seq<char>>,
    Ghost(lv): Ghost<Seq<Located>>,
) -> (r: Vec<(usize, usize)>)
    requires
        name_lower@ == lowercase(name),
        flat@.len() == lv.len(),
        forall|k: int| 0 <= k < flat@.len() ==> {
            let (f, j) = #[trigger] flat@[k];
            &&& f < symbols@.len()
            &&& j < symbols@[f as int]@.len()
            &&& lv[k] == (f as int, symbols@[f as int]@[j as int]@)
        },
    ensures
        r@.len() == definitions_where(name, lv, exact, lv.len() as int).len(),
        forall|m: int| 0 <= m < r@.len() ==> {
            let (f, j) = #[trigger] r@[m];
            &&& f < symbols@.len()
            &&& j < symbols@[f as int]@.len()
            &&& definitions_where(name, lv, exact, lv.len() as int)[m] == (f as int, symbols@[f as int]@[j as int]@)
        },
{
    let ghost mut chosen: Seq<Located> = seq![];
    let mut got: Vec<(usize, usize)> = Vec::new();
    let mut k: usize = 0;
    while k < flat.len()
        invariant
            k <= flat@.len() == lv.len(),
            name_lower@ == lowercase(name),
            forall|m: int| 0 <= m < flat@.len() ==> {
                let (f, j) = #[trigger] flat@[m];
                &&& f < symbols@.len()
                &&& j < symbols@[f as int]@.len()
                &&& lv[m] == (f as int, symbols@[f as int]@[j as int]@)
            },
            chosen == definitions_where(name, lv, exact, k as int),
            got@.len() == chosen.len(),
            forall|m: int| 0 <= m < got@.len() ==> {
                let (f, j) = #[trigger] got@[m];
                &&& f < symbols@.len()
                &&& j < symbols@[f as int]@.len()
                &&& chosen[m] == (f as int, symbols@[f as int]@[j as int]@)
            },
        decreases flat@.len() - k,
    {
        let (f, j) = flat[k];
        let s = &symbols[f][j];
        let ghost e = lv[k as int];
        assert(e.1 == s@);
        let defining = match s.kind {
            SymbolKind::Function | SymbolKind::Class | SymbolKind::Interface | SymbolKind::Type | SymbolKind::Struct
            | SymbolKind::Enum | SymbolKind::Trait => true,
            _ => false,
        };
        let lname = to_lowercase(s.name.as_str());
        let same = str_eq(lname.as_str(), name_lower.as_str());
        let take = defining && if exact {
            same
        } else {
            !same && str_contains(lname.as_str(), name_lower.as_str())
        };
        if take {
            got.push((f, j));
            proof {
                chosen = chosen.push(e);
            }
        }
        k += 1;
    }
    got
}

/// The definitions of `name` among the given symbols of each file
/// (`symbols[k]` belongs to `files[k]`).
pub fn find_definitions(name: &str, root: &str, files: &[ScannedFile], symbols: &[Vec<Symbol>]) -> (r: Vec<DefinitionHit>)
    requires
        symbols@.len() == files@.len(),
    ensures
        r@.map_values(|d: DefinitionHit| d@) == definition_views(name@, files@, root@, sym_lists(symbols@)),
{
    let name_lower = to_lowercase(name);
    let ghost ss = sym_lists(symbols@);
    // flatten, remembering each symbol's file
    let mut flat: Vec<(usize, usize)> = Vec::new();
    let ghost mut lv: Seq<Located> = seq![];
    let mut i: usize = 0;
    while i < symbols.len()
        invariant
            i <= symbols@.len() == files@.len(),
            ss == sym_lists(symbols@),
            lv == located(ss, i as int),
            flat@.len() == lv.len(),
            forall|k: int| 0 <= k < flat@.len() ==> {
                let (f, j) = #[trigger] flat@[k];
                &&& f < symbols@.len()
                &&& j < symbols@[f as int]@.len()
                &&& lv[k] == (f as int, symbols@[f as int]@[j as int]@)
            },
        decreases symbols@.len() - i,
    {
        let mut j: usize = 0;
        let ghost base = lv;
        let ghost row = symbols@[i as int]@;
        assert(ss[i as int] == sym_views(row));
        while j < symbols[i].len()
            invariant
                i < symbols@.len() == files@.len(),
                j <= row.len(),
                row == symbols@[i as int]@,
                ss == sym_lists(symbols@),
                lv == base + sym_views(row).take(j as int).map_values(|s: SymbolView| (i as int, s)),
                flat@.len() == lv.len(),
                forall|k: int| 0 <= k < flat@.len() ==> {
                    let (f, jj) = #[trigger] flat@[k];
                    &&& f < symbols@.len()
                    &&& jj < symbols@[f as int]@.len()
                    &&& lv[k] == (f as int, symbols@[f as int]@[jj as int]@)
                },
            decreases row.len() - j,
        {
            proof {
                let old_lv = lv;
                lv = lv.push((i as int, row[j as int]@));
                assert(sym_views(row).take(j + 1).map_values(|s: SymbolView| (i as int, s))
                    =~= sym_views(row).take(j as int).map_values(|s: SymbolView| (i as int, s)).push((i as int, row[j as int]@)));
            }
            flat.push((i, j));
            j += 1;
        }
        assert(sym_views(row).take(row.len() as int) =~= sym_views(row));
        assert(located(ss, i + 1) == located(ss, i as int) + ss[i as int].map_values(|s: SymbolView| (i as int, s)));
        i += 1;
    }
    // pick the exact matches, else the partial ones
    let exact = definition_pass(&name_lower, symbols, &flat, true, Ghost(name@), Ghost(lv));
    let picked = if exact.len() > 0 {
        exact
    } else {
        definition_pass(&name_lower, symbols, &flat, false, Ghost(name@), Ghost(lv))
    };
    let ghost chosen = definitions_for(name@, lv);
    // build the hits
    let mut out: Vec<DefinitionHit> = Vec::new();
    let mut k: usize = 0;
    proof {
        lemma_located_index(ss, ss.len() as int);
    }
    while k < picked.len()
        invariant
            k <= picked@.len() == chosen.len(),
            chosen == definitions_for(name@, lv),
            lv == located(ss, ss.len() as int),
            ss.len() == symbols@.len() == files@.len(),
            forall|m: int| 0 <= m < picked@.len() ==> {
                let (f, j) = #[trigger] picked@[m];
                &&& f < symbols@.len()
                &&& j < symbols@[f as int]@.len()
                &&& chosen[m] == (f as int, symbols@[f as int]@[j as int]@)
            },
            out@.map_values(|d: DefinitionHit| d@) == chosen.take(k as int).map_values(|e: Located| definition_view(files@, root@, e)),
        decreases picked@.len() - k,
    {
        let (f, j) = picked[k];
        let s = &symbols[f][j];
        let d = DefinitionHit {
            name: s.name.clone(),
            kind: s.kind.to_string(),
            path: relative_path(files[f].path.as_str(), root),
            line: s.line,
            column: s.column,
            file: f,
        };
        assert(d.name@ == s.name@);
        let ghost prev = out@.map_values(|d: DefinitionHit| d@);
        out.push(d);
        assert(chosen.take(k + 1) =~= chosen.take(k as int).push(chosen[k as int]));
        assert(out@.map_values(|d: DefinitionHit| d@) =~= prev.push(d@));
        assert(d@ == definition_view(files@, root@, chosen[k as int]));
        assert(chosen.take(k + 1).map_values(|e: Located| definition_view(files@, root@, e))
            =~= chosen.take(k as int).map_values(|e: Located| definition_view(files@, root@, e)).push(definition_view(files@, root@, chosen[k as int])));
        k += 1;
    }
    assert(chosen.take(chosen.len() as int) =~= chosen);
    out
}


// ------------------------------------------------------------------
// Laws
// ------------------------------------------------------------------

/// Kinds that count as definitions: functions, classes, interfaces, type
/// aliases, structs, enums and traits.
pub open spec fn definition_kind(k: SymbolKind) -> bool {
    ||| k is Function
    ||| k is Class
    ||| k is Interface
    ||| k is Type
    ||| k is Struct
    ||| k is Enum
    ||| k is Trait
}

proof fn lemma_located_has(syms: Seq<Seq<SymbolView>>, n: int, f: int, j: int)
    requires
        0 <= f < n <= syms.len(),
        0 <= j < syms[f].len(),
    ensures
        exists|k: int| 0 <= k < located(syms, n).len() && located(syms, n)[k] == (f, syms[f][j]),
    decreases n,
{
    let prev = located(syms, n - 1);
    let tail = syms[n - 1].map_values(|s: SymbolView| (n - 1, s));
    if f == n - 1 {
        assert(located(syms, n)[prev.len() + j] == tail[j]);
    } else {
        lemma_located_has(syms, n - 1, f, j);
        let k = choose|k: int| 0 <= k < prev.len() && prev[k] == (f, syms[f][j]);
        assert(located(syms, n)[k] == prev[k]);
    }
}

proof fn lemma_exact_selected(name: Seq<char>, ls: Seq<Located>, n: int, i: int)
    requires
        0 <= i < n <= ls.len(),
        exact_definition(name, ls[i].1),
    ensures
        exists|m: int| 0 <= m < definitions_where(name, ls, true, n).len() && definitions_where(name, ls, true, n)[m] == ls[i],
    decreases n,
{
    let prev = definitions_where(name, ls, true, n - 1);
    if i == n - 1 {
        assert(definitions_where(name, ls, true, n)[prev.len() as int] == ls[i]);
    } else {
        lemma_exact_selected(name, ls, n - 1, i);
        let m = choose|m: int| 0 <= m < prev.len() && prev[m] == ls[i];
        assert(definitions_where(name, ls, true, n)[m] == prev[m]);
    }
}

proof fn lemma_selected_define(name: Seq<char>, ls: Seq<Located>, exact: bool, n: int)
    requires
        0 <= n <= ls.len(),
    ensures
        forall|m: int| 0 <= m < definitions_where(name, ls, exact, n).len() ==> {
            let e = #[trigger] definitions_where(name, ls, exact, n)[m];
            &&& definition_kind(e.1.1)
            &&& (lowercase(e.1.0) == lowercase(name) || contains(lowercase(e.1.0), lowercase(name)))
            &&& (exact ==> lowercase(e.1.0) == lowercase(name))
        },
    decreases n,
{
    if n > 0 {
        lemma_selected_define(name, ls, exact, n - 1);
        let prev = definitions_where(name, ls, exact, n - 1);
        let cur = definitions_where(name, ls, exact, n);
        assert forall|m: int| 0 <= m < cur.len() implies {
            let e = #[trigger] cur[m];
            &&& definition_kind(e.1.1)
            &&& (lowercase(e.1.0) == lowercase(name) || contains(lowercase(e.1.0), lowercase(name)))
            &&& (exact ==> lowercase(e.1.0) == lowercase(name))
        } by {
            if m < prev.len() {
                assert(cur[m] == prev[m]);
            }
        }
    }
}

/// A symbol of a defining kind (function, class, interface, type, struct,
/// enum or trait) whose name equals the requested name, ignoring case, is
/// among the definitions found, with its name, kind, relative path, line,
/// column and file.
pub proof fn law_exact_definitions_found(name: Seq<char>, files: Seq<ScannedFile>, root: Seq<char>, syms: Seq<Seq<SymbolView>>, f: int, j: int)
    requires
        syms.len() == files.len(),
        0 <= f < syms.len(),
        0 <= j < syms[f].len(),
        definition_kind(syms[f][j].1),
        lowercase(syms[f][j].0) == lowercase(name),
    ensures
        exists|k: int| 0 <= k < definition_views(name, files, root, syms).len() && definition_views(name, files, root, syms)[k] == (
            syms[f][j].0,
            kind_name(syms[f][j].1),
            rel_path(files[f].path@, root),
            syms[f][j].2,
            syms[f][j].3,
            f as usize,
        ),
{
    let ls = located(syms, syms.len() as int);
    lemma_located_has(syms, syms.len() as int, f, j);
    let i = choose|k: int| 0 <= k < ls.len() && ls[k] == (f, syms[f][j]);
    lemma_exact_selected(name, ls, ls.len() as int, i);
    let exact = definitions_where(name, ls, true, ls.len() as int);
    let m = choose|m: int| 0 <= m < exact.len() && exact[m] == ls[i];
    assert(definitions_for(name, ls) == exact);
    assert(definition_views(name, files, root, syms)[m] == definition_view(files, root, ls[i]));
}

proof fn lemma_partial_selected(name: Seq<char>, ls: Seq<Located>, n: int, i: int)
    requires
        0 <= i < n <= ls.len(),
        partial_definition(name, ls[i].1),
    ensures
        exists|m: int| 0 <= m < definitions_where(name, ls, false, n).len() && definitions_where(name, ls, false, n)[m] == ls[i],
    decreases n,
{
    let prev = definitions_where(name, ls, false, n - 1);
    if i == n - 1 {
        assert(definitions_where(name, ls, false, n)[prev.len() as int] == ls[i]);
    } else {
        lemma_partial_selected(name, ls, n - 1, i);
        let m = choose|m: int| 0 <= m < prev.len() && prev[m] == ls[i];
        assert(definitions_where(name, ls, false, n)[m] == prev[m]);
    }
}

proof fn lemma_no_exact(name: Seq<char>, ls: Seq<Located>, n: int)
    requires
        0 <= n <= ls.len(),
        forall|i: int| 0 <= i < n ==> !exact_definition(name, #[trigger] ls[i].1),
    ensures
        definitions_where(name, ls, true, n).len() == 0,
    decreases n,
{
    if n > 0 {
        lemma_no_exact(name, ls, n - 1);
    }
}

proof fn lemma_located_from(syms: Seq<Seq<SymbolView>>, n: int, k: int)
    requires
        0 <= n <= syms.len(),
        0 <= k < located(syms, n).len(),
    ensures
        exists|f: int, j: int| 0 <= f < n && 0 <= j < syms[f].len() && located(syms, n)[k] == (f, #[trigger] syms[f][j]),
    decreases n,
{
    let prev = located(syms, n - 1);
    let tail = syms[n - 1].map_values(|s: SymbolView| (n - 1, s));
    if k < prev.len() {
        lemma_located_from(syms, n - 1, k);
        assert(located(syms, n)[k] == prev[k]);
    } else {
        assert(located(syms, n)[k] == tail[k - prev.len()]);
        assert(located(syms, n)[k] == (n - 1, syms[n - 1][k - prev.len()]));
    }
}

/// When no symbol of a defining kind is named exactly by the requested name
/// (ignoring case), each symbol of a defining kind whose name contains it
/// (ignoring case) is among the definitions found.
pub proof fn law_partial_definitions_found(name: Seq<char>, files: Seq<ScannedFile>, root: Seq<char>, syms: Seq<Seq<SymbolView>>, f: int, j: int)
    requires
        syms.len() == files.len(),
        forall|g: int, i: int| 0 <= g < syms.len() && 0 <= i < syms[g].len() && definition_kind(#[trigger] syms[g][i].1)
            ==> lowercase(syms[g][i].0) != lowercase(name),
        0 <= f < syms.len(),
        0 <= j < syms[f].len(),
        definition_kind(syms[f][j].1),
        contains(lowercase(syms[f][j].0), lowercase(name)),
    ensures
        exists|k: int| 0 <= k < definition_views(name, files, root, syms).len() && definition_views(name, files, root, syms)[k] == (
            syms[f][j].0,
            kind_name(syms[f][j].1),
            rel_path(files[f].path@, root),
            syms[f][j].2,
            syms[f][j].3,
            f as usize,
        ),
{
    let ls = located(syms, syms.len() as int);
    assert forall|i: int| 0 <= i < ls.len() implies !exact_definition(name, #[trigger] ls[i].1) by {
        lemma_located_from(syms, syms.len() as int, i);
    }
    lemma_no_exact(name, ls, ls.len() as int);
    lemma_located_has(syms, syms.len() as int, f, j);
    let i = choose|k: int| 0 <= k < ls.len() && ls[k] == (f, syms[f][j]);
    lemma_partial_selected(name, ls, ls.len() as int, i);
    let part = definitions_where(name, ls, false, ls.len() as int);
    let m = choose|m: int| 0 <= m < part.len() && part[m] == ls[i];
    assert(definitions_for(name, ls) == part);
    assert(definition_views(name, files, root, syms)[m] == definition_view(files, root, ls[i]));
}

/// Every definition found is of a defining kind and is named by the
/// requested name or contains it, ignoring case; when some symbol is named
/// exactly by it, only such symbols are reported.
pub proof fn law_definitions_are_defining(name: Seq<char>, files: Seq<ScannedFile>, root: Seq<char>, syms: Seq<Seq<SymbolView>>)
    ensures
        forall|k: int| 0 <= k < definition_views(name, files, root, syms).len() ==> {
            let d = #[trigger] definition_views(name, files, root, syms)[k];
            &&& exists|kind: SymbolKind| definition_kind(kind) && d.1 == kind_name(kind)
            &&& (lowercase(d.0) == lowercase(name) || contains(lowercase(d.0), lowercase(name)))
        },
        (exists|f: int, j: int| 0 <= f < syms.len() && 0 <= j < syms[f].len() && definition_kind(#[trigger] syms[f][j].1)
            && lowercase(syms[f][j].0) == lowercase(name)) ==>
            forall|k: int| 0 <= k < definition_views(name, files, root, syms).len() ==>
                lowercase((#[trigger] definition_views(name, files, root, syms)[k]).0) == lowercase(name),
{
    let ls = located(syms, syms.len() as int);
    lemma_selected_define(name, ls, true, ls.len() as int);
    lemma_selected_define(name, ls, false, ls.len() as int);
    let chosen = definitions_for(name, ls);
    let out = definition_views(name, files, root, syms);
    assert forall|k: int| 0 <= k < out.len() implies {
        let d = #[trigger] out[k];
        &&& exists|kind: SymbolKind| definition_kind(kind) && d.1 == kind_name(kind)
        &&& (lowercase(d.0) == lowercase(name) || contains(lowercase(d.0), lowercase(name)))
    } by {
        assert(out[k] == definition_view(files, root, chosen[k]));
        let kind = chosen[k].1.1;
        assert(definition_kind(kind) && out[k].1 == kind_name(kind));
    }
    if exists|f: int, j: int| 0 <= f < syms.len() && 0 <= j < syms[f].len() && definition_kind(#[trigger] syms[f][j].1)
        && lowercase(syms[f][j].0) == lowercase(name) {
        let (f, j) = choose|f: int, j: int| 0 <= f < syms.len() && 0 <= j < syms[f].len() && definition_kind(#[trigger] syms[f][j].1)
            && lowercase(syms[f][j].0) == lowercase(name);
        lemma_located_has(syms, syms.len() as int, f, j);
        let i = choose|k: int| 0 <= k < ls.len() && ls[k] == (f, syms[f][j]);
        lemma_exact_selected(name, ls, ls.len() as int, i);
        assert(chosen == definitions_where(name, ls, true, ls.len() as int));
        assert forall|k: int| 0 <= k < out.len() implies lowercase((#[trigger] out[k]).0) == lowercase(name) by {
            assert(out[k] == definition_view(files, root, chosen[k]));
        }
    }
}


/// The hit for line `i` (0-based) of `ls` in the file at `path`.
pub open spec fn line_hit(path: Seq<char>, ls: Seq<Seq<char>>, i: int) -> LineHitView {
    (path, (i + 1) as usize, trim(ls[i]))
}

proof fn lemma_lines_origin(path: Seq<char>, ls: Seq<Seq<char>>, keep: spec_fn(Seq<char>) -> bool, n: int, m: int)
    requires
        0 <= n <= ls.len(),
        0 <= m < lines_where(path, ls, keep, n).len(),
    ensures
        exists|i: int| 0 <= i < n && keep(ls[i]) && lines_where(path, ls, keep, n)[m] == #[trigger] line_hit(path, ls, i),
    decreases n,
{
    let prev = lines_where(path, ls, keep, n - 1);
    let cur = lines_where(path, ls, keep, n);
    if m < prev.len() {
        lemma_lines_origin(path, ls, keep, n - 1, m);
        assert(cur[m] == prev[m]);
        let i = choose|i: int| 0 <= i < n - 1 && keep(ls[i]) && prev[m] == #[trigger] line_hit(path, ls, i);
        assert(keep(ls[i]) && cur[m] == line_hit(path, ls, i));
    } else {
        assert(keep(ls[n - 1]) && cur[m] == line_hit(path, ls, n - 1));
    }
}

proof fn lemma_lines_has(path: Seq<char>, ls: Seq<Seq<char>>, keep: spec_fn(Seq<char>) -> bool, n: int, i: int)
    requires
        0 <= i < n <= ls.len(),
        keep(ls[i]),
    ensures
        exists|m: int| 0 <= m < lines_where(path, ls, keep, n).len()
            && #[trigger] lines_where(path, ls, keep, n)[m] == line_hit(path, ls, i),
    decreases n,
{
    let prev = lines_where(path, ls, keep, n - 1);
    if i == n - 1 {
        assert(lines_where(path, ls, keep, n)[prev.len() as int] == line_hit(path, ls, i));
    } else {
        lemma_lines_has(path, ls, keep, n - 1, i);
        let m = choose|m: int| 0 <= m < prev.len() && #[trigger] prev[m] == line_hit(path, ls, i);
        assert(lines_where(path, ls, keep, n)[m] == prev[m]);
    }
}

/// The hit for line `i` (0-based) of file `f`.
pub open spec fn file_hit(fs: Seq<(Seq<char>, Seq<char>)>, root: Seq<char>, f: int, i: int) -> LineHitView {
    line_hit(rel_path(fs[f].0, root), lines(fs[f].1), i)
}

proof fn lemma_files_origin(fs: Seq<(Seq<char>, Seq<char>)>, root: Seq<char>, keep: spec_fn(Seq<char>) -> bool, n: int, m: int)
    requires
        0 <= n <= fs.len(),
        0 <= m < files_where(fs, root, keep, n).len(),
    ensures
        exists|f: int, i: int| 0 <= f < n && 0 <= i < lines(fs[f].1).len() && keep(lines(fs[f].1)[i])
            && files_where(fs, root, keep, n)[m] == #[trigger] file_hit(fs, root, f, i),
    decreases n,
{
    let prev = files_where(fs, root, keep, n - 1);
    let ls = lines(fs[n - 1].1);
    let rel = rel_path(fs[n - 1].0, root);
    let tail = lines_where(rel, ls, keep, ls.len() as int);
    let cur = files_where(fs, root, keep, n);
    if m < prev.len() {
        lemma_files_origin(fs, root, keep, n - 1, m);
        assert(cur[m] == prev[m]);
        let (f, i) = choose|f: int, i: int| 0 <= f < n - 1
            && 0 <= i < lines(fs[f].1).len() && keep(lines(fs[f].1)[i])
            && prev[m] == #[trigger] file_hit(fs, root, f, i);
        assert(cur[m] == file_hit(fs, root, f, i));
    } else {
        lemma_lines_origin(rel, ls, keep, ls.len() as int, m - prev.len());
        assert(cur[m] == tail[m - prev.len()]);
        let i = choose|i: int| 0 <= i < ls.len() && keep(ls[i]) && tail[m - prev.len()] == #[trigger] line_hit(rel, ls, i);
        assert(cur[m] == file_hit(fs, root, n - 1, i));
    }
}

proof fn lemma_files_has(fs: Seq<(Seq<char>, Seq<char>)>, root: Seq<char>, keep: spec_fn(Seq<char>) -> bool, n: int, f: int, i: int)
    requires
        0 <= f < n <= fs.len(),
        0 <= i < lines(fs[f].1).len(),
        keep(lines(fs[f].1)[i]),
    ensures
        exists|m: int| 0 <= m < files_where(fs, root, keep, n).len()
            && #[trigger] files_where(fs, root, keep, n)[m] == file_hit(fs, root, f, i),
    decreases n,
{
    let prev = files_where(fs, root, keep, n - 1);
    let h = file_hit(fs, root, f, i);
    if f == n - 1 {
        let ls = lines(fs[n - 1].1);
        let rel = rel_path(fs[n - 1].0, root);
        lemma_lines_has(rel, ls, keep, ls.len() as int, i);
        let tail = lines_where(rel, ls, keep, ls.len() as int);
        let m = choose|m: int| 0 <= m < tail.len() && #[trigger] tail[m] == line_hit(rel, ls, i);
        assert(files_where(fs, root, keep, n)[prev.len() + m] == tail[m]);
    } else {
        lemma_files_has(fs, root, keep, n - 1, f, i);
        let m = choose|m: int| 0 <= m < prev.len() && #[trigger] prev[m] == h;
        assert(files_where(fs, root, keep, n)[m] == prev[m]);
    }
}

/// Whether a line, in lower case, holds one of the words that mark a
/// function declaration: `function `, `fn `, `def ` or `func `.
pub open spec fn mentions_declaration(line: Seq<char>) -> bool {
    let l = lowercase(line);
    ||| contains(l, "function "@)
    ||| contains(l, "fn "@)
    ||| contains(l, "def "@)
    ||| contains(l, "func "@)
}

/// Each call site found for `function` is a line of one of the files that
/// matches its call pattern (`\b`, the escaped name, optional spaces and
/// `(`) and holds none of
/// `function `, `fn `, `def `, `func ` in lower case; the hit gives the
/// file's relative path, the line's 1-based number and its trimmed text.
pub proof fn law_call_site_hits(function: Seq<char>, files: Seq<ScannedFile>, root: Seq<char>, m: int)
    requires
        0 <= m < files_where(file_views(files), root, call_site(caller_pattern(function)), files.len() as int).len(),
    ensures
        exists|f: int, i: int| 0 <= f < files.len() && 0 <= i < lines(files[f].content@).len()
            && regex_matches("\\b"@ + regex_escaped(function) + "\\s*\\("@, false, lines(files[f].content@)[i])
            && !mentions_declaration(lines(files[f].content@)[i])
            && files_where(file_views(files), root, call_site(caller_pattern(function)), files.len() as int)[m]
                == #[trigger] file_hit(file_views(files), root, f, i),
{
    let fs = file_views(files);
    let keep = call_site(caller_pattern(function));
    lemma_files_origin(fs, root, keep, files.len() as int, m);
    let (f, i) = choose|f: int, i: int| 0 <= f < files.len()
        && 0 <= i < lines(fs[f].1).len() && keep(lines(fs[f].1)[i])
        && files_where(fs, root, keep, files.len() as int)[m] == #[trigger] file_hit(fs, root, f, i);
    assert(fs[f] == (files[f].path@, files[f].content@));
}

/// Each line of the files that matches the call pattern of `function` and
/// holds none of `function `, `fn `, `def `, `func ` in lower case is found
/// as a call site.
pub proof fn law_call_sites_found(function: Seq<char>, files: Seq<ScannedFile>, root: Seq<char>, f: int, i: int)
    requires
        0 <= f < files.len(),
        0 <= i < lines(files[f].content@).len(),
        regex_matches("\\b"@ + regex_escaped(function) + "\\s*\\("@, false, lines(files[f].content@)[i]),
        !mentions_declaration(lines(files[f].content@)[i]),
    ensures
        exists|m: int| 0 <= m < files_where(file_views(files), root, call_site(caller_pattern(function)), files.len() as int).len()
            && #[trigger] files_where(file_views(files), root, call_site(caller_pattern(function)), files.len() as int)[m]
                == file_hit(file_views(files), root, f, i),
{
    let fs = file_views(files);
    let keep = call_site(caller_pattern(function));
    assert(fs[f] == (files[f].path@, files[f].content@));
    assert(keep(lines(fs[f].1)[i]));
    lemma_files_has(fs, root, keep, files.len() as int, f, i);
}

proof fn lemma_except_has(fs: Seq<(Seq<char>, Seq<char>)>, root: Seq<char>, skip: Seq<char>, keep: spec_fn(Seq<char>) -> bool, n: int, f: int, i: int)
    requires
        0 <= f < n <= fs.len(),
        0 <= i < lines(fs[f].1).len(),
        !contains(rel_path(fs[f].0, root), skip),
        keep(lines(fs[f].1)[i]),
    ensures
        exists|m: int| 0 <= m < files_where_except(fs, root, skip, keep, n).len()
            && #[trigger] files_where_except(fs, root, skip, keep, n)[m] == file_hit(fs, root, f, i),
    decreases n,
{
    let prev = files_where_except(fs, root, skip, keep, n - 1);
    let h = file_hit(fs, root, f, i);
    if f == n - 1 {
        let ls = lines(fs[n - 1].1);
        let rel = rel_path(fs[n - 1].0, root);
        lemma_lines_has(rel, ls, keep, ls.len() as int, i);
        let tail = lines_where(rel, ls, keep, ls.len() as int);
        let m = choose|m: int| 0 <= m < tail.len() && #[trigger] tail[m] == line_hit(rel, ls, i);
        assert(files_where_except(fs, root, skip, keep, n)[prev.len() + m] == tail[m]);
    } else {
        lemma_except_has(fs, root, skip, keep, n - 1, f, i);
        let m = choose|m: int| 0 <= m < prev.len() && #[trigger] prev[m] == h;
        assert(files_where_except(fs, root, skip, keep, n)[m] == prev[m]);
    }
}

proof fn lemma_except_origin(fs: Seq<(Seq<char>, Seq<char>)>, root: Seq<char>, skip: Seq<char>, keep: spec_fn(Seq<char>) -> bool, n: int, m: int)
    requires
        0 <= n <= fs.len(),
        0 <= m < files_where_except(fs, root, skip, keep, n).len(),
    ensures
        exists|f: int, i: int| 0 <= f < n && 0 <= i < lines(fs[f].1).len() && keep(lines(fs[f].1)[i])
            && !contains(rel_path(fs[f].0, root), skip)
            && files_where_except(fs, root, skip, keep, n)[m] == #[trigger] file_hit(fs, root, f, i),
    decreases n,
{
    let prev = files_where_except(fs, root, skip, keep, n - 1);
    let ls = lines(fs[n - 1].1);
    let rel = rel_path(fs[n - 1].0, root);
    let tail = lines_where(rel, ls, keep, ls.len() as int);
    let cur = files_where_except(fs, root, skip, keep, n);
    if m < prev.len() {
        lemma_except_origin(fs, root, skip, keep, n - 1, m);
        assert(cur[m] == prev[m]);
        let (f, i) = choose|f: int, i: int| 0 <= f < n - 1
            && 0 <= i < lines(fs[f].1).len() && keep(lines(fs[f].1)[i])
            && !contains(rel_path(fs[f].0, root), skip)
            && prev[m] == #[trigger] file_hit(fs, root, f, i);
        assert(cur[m] == file_hit(fs, root, f, i));
    } else {
        lemma_lines_origin(rel, ls, keep, ls.len() as int, m - prev.len());
        assert(cur[m] == tail[m - prev.len()]);
        let i = choose|i: int| 0 <= i < ls.len() && keep(ls[i]) && tail[m - prev.len()] == #[trigger] line_hit(rel, ls, i);
        assert(cur[m] == file_hit(fs, root, n - 1, i));
    }
}

/// The import forms recognised for a file whose stem is `stem` (with the
/// stem escaped as a literal): a quoted path after `import`, `from` or
/// `require`; a bare module after `import` or `from` (as in Python, ended
/// by a space, a comma or the line's end); a `use` or `mod` item (as in
/// Rust); and a quoted path after `import` with parentheses.
pub open spec fn import_form(stem: Seq<char>, p: Seq<char>) -> bool {
    let s = regex_escaped(stem);
    ||| p == "(?:import|from|require)\\s*[\\(\\s]?['\"](?:[./]*"@ + s + ")['\"]"@
    ||| p == "(?:import|from)\\s+"@ + s + "(?:\\s|$|,)"@
    ||| p == "(?:use|mod)\\s+(?:crate::)?"@ + s + "(?:::|;|\\s)"@
    ||| p == "import\\s+[\\(\\s]*['\"](?:[./]*"@ + s + ")['\"]"@
}

/// A line that one of the import forms for the target's stem matches (a
/// form that compiles), in a file whose relative path does not contain the
/// stem, is reported as a dependent line, with the file's relative path,
/// the line's 1-based number and its trimmed text.
pub proof fn law_dependents_found(file: Seq<char>, files: Seq<ScannedFile>, root: Seq<char>, p: Seq<char>, f: int, i: int)
    requires
        import_form(target_stem(file), p),
        regex_compiles(p, false),
        0 <= f < files.len(),
        0 <= i < lines(files[f].content@).len(),
        regex_matches(p, false, lines(files[f].content@)[i]),
        !contains(rel_path(files[f].path@, root), target_stem(file)),
    ensures
        exists|m: int| 0 <= m < files_where_except(file_views(files), root, target_stem(file), imports_any(dependent_patterns(target_stem(file))), files.len() as int).len()
            && #[trigger] files_where_except(file_views(files), root, target_stem(file), imports_any(dependent_patterns(target_stem(file))), files.len() as int)[m]
                == file_hit(file_views(files), root, f, i),
{
    let stem = target_stem(file);
    let fs = file_views(files);
    let ps = dependent_patterns(stem);
    let keep = imports_any(ps);
    let line = lines(files[f].content@)[i];
    assert(fs[f] == (files[f].path@, files[f].content@));
    let k: int = if p == ps[0] { 0 } else if p == ps[1] { 1 } else if p == ps[2] { 2 } else { 3 };
    assert(ps[k] == p);
    assert(regex_compiles(ps[k], false) && regex_matches(ps[k], false, line));
    assert(keep(lines(fs[f].1)[i]));
    lemma_except_has(fs, root, stem, keep, files.len() as int, f, i);
}

/// Each dependent line reported is a line that some import form for the
/// target's stem matches, in a file whose relative path does not contain
/// the stem.
pub proof fn law_dependent_hits(file: Seq<char>, files: Seq<ScannedFile>, root: Seq<char>, m: int)
    requires
        0 <= m < files_where_except(file_views(files), root, target_stem(file), imports_any(dependent_patterns(target_stem(file))), files.len() as int).len(),
    ensures
        exists|f: int, i: int, p: Seq<char>| 0 <= f < files.len() && 0 <= i < lines(files[f].content@).len()
            && #[trigger] import_form(target_stem(file), p) && regex_compiles(p, false)
            && regex_matches(p, false, lines(files[f].content@)[i])
            && !contains(rel_path(files[f].path@, root), target_stem(file))
            && files_where_except(file_views(files), root, target_stem(file), imports_any(dependent_patterns(target_stem(file))), files.len() as int)[m]
                == #[trigger] file_hit(file_views(files), root, f, i),
{
    let stem = target_stem(file);
    let fs = file_views(files);
    let ps = dependent_patterns(stem);
    let keep = imports_any(ps);
    lemma_except_origin(fs, root, stem, keep, files.len() as int, m);
    let (f, i) = choose|f: int, i: int| 0 <= f < files.len() && 0 <= i < lines(fs[f].1).len() && keep(lines(fs[f].1)[i])
        && !contains(rel_path(fs[f].0, root), stem)
        && files_where_except(fs, root, stem, keep, files.len() as int)[m] == #[trigger] file_hit(fs, root, f, i);
    assert(fs[f] == (files[f].path@, files[f].content@));
    let line = lines(fs[f].1)[i];
    let k = choose|k: int| 0 <= k < ps.len() && regex_compiles(ps[k], false) && #[trigger] regex_matches(ps[k], false, line);
    assert(import_form(stem, ps[k]));
}

/// The reference for line `i` (0-based) of file `f` when the pattern
/// first matches at byte `s`.
pub open spec fn ref_hit(fs: Seq<(Seq<char>, Seq<char>)>, root: Seq<char>, f: int, i: int, s: usize) -> ReferenceView {
    (rel_path(fs[f].0, root), (i + 1) as usize, (s + 1) as usize, trim(lines(fs[f].1)[i]))
}

/// The reference for line `i` (0-based) of `ls` in the file at `path`
/// when the pattern first matches at byte `s`.
pub open spec fn line_ref(path: Seq<char>, ls: Seq<Seq<char>>, i: int, s: usize) -> ReferenceView {
    (path, (i + 1) as usize, (s + 1) as usize, trim(ls[i]))
}

proof fn lemma_refs_lines_origin(path: Seq<char>, ls: Seq<Seq<char>>, pattern: Seq<char>, n: int, m: int)
    requires
        0 <= n <= ls.len(),
        0 <= m < refs_in_lines(path, ls, pattern, n).len(),
    ensures
        exists|i: int, s: usize| 0 <= i < n && regex_first_start(pattern, false, ls[i]) == Some(s)
            && refs_in_lines(path, ls, pattern, n)[m] == #[trigger] line_ref(path, ls, i, s),
    decreases n,
{
    let prev = refs_in_lines(path, ls, pattern, n - 1);
    let cur = refs_in_lines(path, ls, pattern, n);
    if m < prev.len() {
        lemma_refs_lines_origin(path, ls, pattern, n - 1, m);
        match regex_first_start(pattern, false, ls[n - 1]) {
            Some(s) => assert(cur[m] == prev[m]),
            None => assert(cur[m] == prev[m]),
        }
    } else {
        match regex_first_start(pattern, false, ls[n - 1]) {
            Some(s) => {
                assert(cur[m] == line_ref(path, ls, n - 1, s));
            },
            None => {},
        }
    }
}

proof fn lemma_refs_files_origin(fs: Seq<(Seq<char>, Seq<char>)>, root: Seq<char>, pattern: Seq<char>, n: int, m: int)
    requires
        0 <= n <= fs.len(),
        0 <= m < refs_in_files(fs, root, pattern, n).len(),
    ensures
        exists|f: int, i: int, s: usize| 0 <= f < n && 0 <= i < lines(fs[f].1).len()
            && regex_first_start(pattern, false, lines(fs[f].1)[i]) == Some(s)
            && refs_in_files(fs, root, pattern, n)[m] == #[trigger] ref_hit(fs, root, f, i, s),
    decreases n,
{
    let prev = refs_in_files(fs, root, pattern, n - 1);
    let ls = lines(fs[n - 1].1);
    let rel = rel_path(fs[n - 1].0, root);
    let tail = refs_in_lines(rel, ls, pattern, ls.len() as int);
    let cur = refs_in_files(fs, root, pattern, n);
    if m < prev.len() {
        lemma_refs_files_origin(fs, root, pattern, n - 1, m);
        assert(cur[m] == prev[m]);
        let (f, i, s) = choose|f: int, i: int, s: usize| 0 <= f < n - 1 && 0 <= i < lines(fs[f].1).len()
            && regex_first_start(pattern, false, lines(fs[f].1)[i]) == Some(s)
            && prev[m] == #[trigger] ref_hit(fs, root, f, i, s);
        assert(cur[m] == ref_hit(fs, root, f, i, s));
    } else {
        lemma_refs_lines_origin(rel, ls, pattern, ls.len() as int, m - prev.len());
        assert(cur[m] == tail[m - prev.len()]);
        let (i, s) = choose|i: int, s: usize| 0 <= i < ls.len() && regex_first_start(pattern, false, ls[i]) == Some(s)
            && tail[m - prev.len()] == #[trigger] line_ref(rel, ls, i, s);
        assert(cur[m] == ref_hit(fs, root, n - 1, i, s));
    }
}

/// Each reference reported for `name` is a line of one of the files where
/// the whole-word pattern (`\b`, the escaped name, `\b`) matches; it gives
/// the file's relative path, the line's 1-based number, the 1-based byte
/// column where the first match starts and the trimmed line.
pub proof fn law_reference_hits(name: Seq<char>, files: Seq<ScannedFile>, root: Seq<char>, max_results: usize, m: int)
    requires
        0 <= m < reported_references(file_views(files), root, reference_pattern(name), max_results).len(),
    ensures
        exists|f: int, i: int, s: usize| 0 <= f < files.len() && 0 <= i < lines(files[f].content@).len()
            && regex_first_start("\\b"@ + regex_escaped(name) + "\\b"@, false, lines(files[f].content@)[i]) == Some(s)
            && reported_references(file_views(files), root, reference_pattern(name), max_results)[m]
                == #[trigger] ref_hit(file_views(files), root, f, i, s),
{
    let fs = file_views(files);
    let p = reference_pattern(name);
    let n: int = if max_results == 0 { if fs.len() == 0 { 0 } else { 1 } } else { fs.len() as int };
    let all = refs_in_files(fs, root, p, n);
    let rep = reported_references(fs, root, p, max_results);
    assert(rep[m] == all[m]);
    lemma_refs_files_origin(fs, root, p, n, m);
    let (f, i, s) = choose|f: int, i: int, s: usize| 0 <= f < n && 0 <= i < lines(fs[f].1).len()
        && regex_first_start(p, false, lines(fs[f].1)[i]) == Some(s)
        && all[m] == #[trigger] ref_hit(fs, root, f, i, s);
    assert(fs[f] == (files[f].path@, files[f].content@));
}

/// The stem imports name and the extension split the file name at its
/// last `.`: the stem, a `.`, and the extension give back the file name,
/// and the extension holds no `.`; without an extension the stem is the
/// whole file name.
pub proof fn law_stem_and_extension(file: Seq<char>)
    ensures
        file_name(file) matches Some(name) ==> match crate::filters::extension(file) {
            Some(e) => target_stem(file) + seq!['.'] + e == name
                && forall|i: int| 0 <= i < e.len() ==> e[i] != '.',
            None => target_stem(file) == name,
        },
{
    match file_name(file) {
        Some(name) => {
            lemma_last_dot_bounds(name);
            let k = last_dot(name);
            if k > 0 {
                assert(name.take(k) + seq!['.'] + name.skip(k + 1) =~= name);
                let e = name.skip(k + 1);
                assert forall|i: int| 0 <= i < e.len() implies e[i] != '.' by {
                    assert(e[i] == name[k + 1 + i]);
                }
            }
        },
        None => {},
    }
}

} // verus!
