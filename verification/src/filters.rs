//! File filters shared by search and symbol commands: file-type filters by
//! extension, and glob patterns compiled to case-insensitive regexes.

use vstd::prelude::*;
use crate::regex_engine::{regex_compiles, regex_matches, CompiledRegex};
use crate::text::{lowercase, push_str, replace_all, replace_str, str_eq, to_chars, to_lowercase};

verus! {

// ------------------------------------------------------------------
// Path names
// ------------------------------------------------------------------

/// A finished path segment replaces the last name unless it is empty or `.`.
pub open spec fn close_segment(cur: Seq<char>, best: Option<Seq<char>>) -> Option<Seq<char>> {
    if cur.len() > 0 && cur != seq!['.'] {
        Some(cur)
    } else {
        best
    }
}

/// Last non-empty, non-`.` segment of `s`, scanning from the current segment.
pub open spec fn last_segment_from(s: Seq<char>, cur: Seq<char>, best: Option<Seq<char>>) -> Option<Seq<char>>
    decreases s.len(),
{
    if s.len() == 0 {
        close_segment(cur, best)
    } else if s[0] == '/' {
        last_segment_from(s.drop_first(), seq![], close_segment(cur, best))
    } else {
        last_segment_from(s.drop_first(), cur.push(s[0]), best)
    }
}

/// `Path::file_name` for a `/`-separated path: the last normal component.
pub open spec fn file_name(path: Seq<char>) -> Option<Seq<char>> {
    match last_segment_from(path, seq![], None) {
        Some(name) => if name == seq!['.', '.'] { None } else { Some(name) },
        None => None,
    }
}

/// Index of the last `.` in `s`, or -1.
pub open spec fn last_dot(s: Seq<char>) -> int
    decreases s.len(),
{
    if s.len() == 0 {
        -1
    } else if s.last() == '.' {
        s.len() - 1
    } else {
        last_dot(s.drop_last())
    }
}

/// `Path::extension`: the text after the last `.` of the file name, unless
/// the name has no `.` or only a leading one.
pub open spec fn extension(path: Seq<char>) -> Option<Seq<char>> {
    match file_name(path) {
        Some(name) => {
            let k = last_dot(name);
            if k <= 0 {
                None
            } else {
                Some(name.skip(k + 1))
            }
        },
        None => None,
    }
}

/// The extension, or empty when there is none.
pub open spec fn extension_or_empty(path: Seq<char>) -> Seq<char> {
    match extension(path) {
        Some(e) => e,
        None => seq![],
    }
}

pub proof fn lemma_last_dot_bounds(s: Seq<char>)
    ensures
        -1 <= last_dot(s) < s.len(),
        last_dot(s) >= 0 ==> s[last_dot(s)] == '.',
        forall|i: int| last_dot(s) < i < s.len() ==> s[i] != '.',
    decreases s.len(),
{
    if s.len() > 0 && s.last() != '.' {
        lemma_last_dot_bounds(s.drop_last());
        assert forall|i: int| last_dot(s) < i < s.len() implies s[i] != '.' by {
            if i < s.len() - 1 {
                assert(s.drop_last()[i] == s[i]);
            }
        }
    }
}

/// The file name of `path`, if any.
pub fn path_file_name(path: &str) -> (r: Option<Vec<char>>)
    ensures
        r is Some <==> file_name(path@) is Some,
        r matches Some(n) ==> Some(n@) == file_name(path@),
{
    let s = to_chars(path);
    let mut cur: Vec<char> = Vec::new();
    let mut best: Option<Vec<char>> = None;
    let mut i: usize = 0;
    assert(s@.skip(0) =~= s@);
    while i < s.len()
        invariant
            i <= s@.len(),
            s@ == path@,
            last_segment_from(path@, seq![], None) == last_segment_from(s@.skip(i as int), cur@, match best {
                Some(b) => Some(b@),
                None => None,
            }),
        decreases s@.len() - i,
    {
        assert(s@.skip(i as int).drop_first() =~= s@.skip(i + 1));
        if s[i] == '/' {
            if cur.len() > 0 && !(cur.len() == 1 && cur[0] == '.') {
                assert(cur@ != seq!['.']);
                best = Some(cur);
            } else {
                proof {
                    if cur@.len() == 1 {
                        assert(cur@ =~= seq!['.']);
                    }
                }
            }
            cur = Vec::new();
            assert(cur@ =~= Seq::<char>::empty());
        } else {
            cur.push(s[i]);
        }
        i += 1;
    }
    assert(s@.skip(i as int) =~= Seq::<char>::empty());
    if cur.len() > 0 && !(cur.len() == 1 && cur[0] == '.') {
        assert(cur@ != seq!['.']);
        best = Some(cur);
    } else {
        proof {
            if cur@.len() == 1 {
                assert(cur@ =~= seq!['.']);
            }
        }
    }
    match best {
        Some(b) => {
            if b.len() == 2 && b[0] == '.' && b[1] == '.' {
                assert(b@ =~= seq!['.', '.']);
                None
            } else {
                assert(b@ != seq!['.', '.']);
                Some(b)
            }
        },
        None => None,
    }
}

/// `Path::extension` of `path` as a string.
pub fn path_extension(path: &str) -> (r: Option<String>)
    ensures
        r is Some <==> extension(path@) is Some,
        r matches Some(e) ==> Some(e@) == extension(path@),
{
    match path_file_name(path) {
        None => None,
        Some(name) => {
            proof {
                lemma_last_dot_bounds(name@);
            }
            let mut k: usize = name.len();
            while k > 0 && name[k - 1] != '.'
                invariant
                    k <= name@.len(),
                    forall|i: int| k <= i < name@.len() ==> name@[i] != '.',
                decreases k,
            {
                k -= 1;
            }
            // k - 1 is the last dot, or k == 0 when there is none
            proof {
                if k > 0 {
                    assert(last_dot(name@) == k - 1) by {
                        lemma_last_dot_bounds(name@);
                        if last_dot(name@) > k - 1 {
                            assert(name@[last_dot(name@)] == '.');
                        }
                        if last_dot(name@) < k - 1 {
                            assert(name@[k - 1] == '.');
                        }
                    }
                } else {
                    assert(last_dot(name@) == -1) by {
                        lemma_last_dot_bounds(name@);
                        if last_dot(name@) >= 0 {
                            assert(name@[last_dot(name@)] == '.');
                        }
                    }
                }
            }
            if k <= 1 {
                None
            } else {
                let ext = crate::text::slice_chars(&name, k, name.len());
                assert(ext@ =~= name@.skip(k as int));
                Some(crate::text::from_chars(ext.as_slice()))
            }
        },
    }
}

// ------------------------------------------------------------------
// File-type filter
// ------------------------------------------------------------------

/// Whether extension `ext` belongs to the file type named `filter`
/// (`lower` is the filter in lower case).
pub open spec fn type_matches(lower: Seq<char>, filter: Seq<char>, ext: Seq<char>) -> bool {
    if lower == "rust"@ || lower == "rs"@ {
        ext == "rs"@
    } else if lower == "typescript"@ || lower == "ts"@ {
        ext == "ts"@ || ext == "tsx"@
    } else if lower == "javascript"@ || lower == "js"@ {
        ext == "js"@ || ext == "jsx"@
    } else if lower == "python"@ || lower == "py"@ {
        ext == "py"@
    } else if lower == "go"@ {
        ext == "go"@
    } else if lower == "c"@ {
        ext == "c"@ || ext == "h"@
    } else if lower == "cpp"@ || lower == "c++"@ {
        ext == "cpp"@ || ext == "hpp"@ || ext == "cc"@ || ext == "cxx"@
    } else if lower == "java"@ {
        ext == "java"@
    } else if lower == "ruby"@ || lower == "rb"@ {
        ext == "rb"@
    } else if lower == "php"@ {
        ext == "php"@
    } else if lower == "swift"@ {
        ext == "swift"@
    } else if lower == "kotlin"@ || lower == "kt"@ {
        ext == "kt"@ || ext == "kts"@
    } else if lower == "scala"@ {
        ext == "scala"@
    } else if lower == "lua"@ {
        ext == "lua"@
    } else if lower == "shell"@ || lower == "sh"@ || lower == "bash"@ {
        ext == "sh"@ || ext == "bash"@
    } else if lower == "yaml"@ || lower == "yml"@ {
        ext == "yaml"@ || ext == "yml"@
    } else if lower == "json"@ {
        ext == "json"@
    } else if lower == "toml"@ {
        ext == "toml"@
    } else if lower == "md"@ || lower == "markdown"@ {
        ext == "md"@ || ext == "markdown"@
    } else {
        ext == filter
    }
}

/// Whether `path` passes the optional file-type filter.
pub open spec fn spec_matches_file_type(path: Seq<char>, file_type: Option<Seq<char>>) -> bool {
    match file_type {
        None => true,
        Some(f) => type_matches(lowercase(f), f, extension_or_empty(path)),
    }
}

fn type_matches_exec(lower: &str, filter: &str, ext: &str) -> (b: bool)
    ensures
        b == type_matches(lower@, filter@, ext@),
{
    if str_eq(lower, "rust") || str_eq(lower, "rs") {
        str_eq(ext, "rs")
    } else if str_eq(lower, "typescript") || str_eq(lower, "ts") {
        str_eq(ext, "ts") || str_eq(ext, "tsx")
    } else if str_eq(lower, "javascript") || str_eq(lower, "js") {
        str_eq(ext, "js") || str_eq(ext, "jsx")
    } else if str_eq(lower, "python") || str_eq(lower, "py") {
        str_eq(ext, "py")
    } else if str_eq(lower, "go") {
        str_eq(ext, "go")
    } else if str_eq(lower, "c") {
        str_eq(ext, "c") || str_eq(ext, "h")
    } else if str_eq(lower, "cpp") || str_eq(lower, "c++") {
        str_eq(ext, "cpp") || str_eq(ext, "hpp") || str_eq(ext, "cc") || str_eq(ext, "cxx")
    } else if str_eq(lower, "java") {
        str_eq(ext, "java")
    } else if str_eq(lower, "ruby") || str_eq(lower, "rb") {
        str_eq(ext, "rb")
    } else if str_eq(lower, "php") {
        str_eq(ext, "php")
    } else if str_eq(lower, "swift") {
        str_eq(ext, "swift")
    } else if str_eq(lower, "kotlin") || str_eq(lower, "kt") {
        str_eq(ext, "kt") || str_eq(ext, "kts")
    } else if str_eq(lower, "scala") {
        str_eq(ext, "scala")
    } else if str_eq(lower, "lua") {
        str_eq(ext, "lua")
    } else if str_eq(lower, "shell") || str_eq(lower, "sh") || str_eq(lower, "bash") {
        str_eq(ext, "sh") || str_eq(ext, "bash")
    } else if str_eq(lower, "yaml") || str_eq(lower, "yml") {
        str_eq(ext, "yaml") || str_eq(ext, "yml")
    } else if str_eq(lower, "json") {
        str_eq(ext, "json")
    } else if str_eq(lower, "toml") {
        str_eq(ext, "toml")
    } else if str_eq(lower, "md") || str_eq(lower, "markdown") {
        str_eq(ext, "md") || str_eq(ext, "markdown")
    } else {
        str_eq(ext, filter)
    }
}

/// Whether the file at `path` has the given type (always true without a
/// filter). Known type names accept their usual extensions; any other
/// filter must equal the extension.
pub fn matches_file_type(path: &str, file_type: Option<&str>) -> (b: bool)
    ensures
        b == spec_matches_file_type(path@, match file_type {
            Some(f) => Some(f@),
            None => None,
        }),
{
    match file_type {
        None => true,
        Some(filter) => {
            let ext = match path_extension(path) {
                Some(e) => e,
                None => String::new(),
            };
            let lower = to_lowercase(filter);
            type_matches_exec(lower.as_str(), filter, ext.as_str())
        },
    }
}

// ------------------------------------------------------------------
// Globs
// ------------------------------------------------------------------

/// The regex a glob compiles to: `.` escaped, `**/` matching any directory
/// prefix, `/**` any suffix, `**` anything, `*` anything but `/`; matched
/// case-insensitively via a leading `(?i)`.
pub open spec fn glob_regex(pattern: Seq<char>) -> Seq<char> {
    let s1 = replace_all(pattern, "."@, "\\."@);
    let s2 = replace_all(s1, "**/"@, "{{DOUBLESTARSLASH}}"@);
    let s3 = replace_all(s2, "/**"@, "{{SLASHDOUBLESTAR}}"@);
    let s4 = replace_all(s3, "**"@, ".*"@);
    let s5 = replace_all(s4, "*"@, "[^/]*"@);
    let s6 = replace_all(s5, "{{DOUBLESTARSLASH}}"@, "(.*/)?"@);
    let s7 = replace_all(s6, "{{SLASHDOUBLESTAR}}"@, "(/.*)?"@);
    "(?i)"@ + s7
}

/// Translates a glob to its regex text.
pub fn glob_to_regex(pattern: &str) -> (r: String)
    ensures
        r@ == glob_regex(pattern@),
{
    proof {
        reveal_strlit(".");
        reveal_strlit("**/");
        reveal_strlit("/**");
        reveal_strlit("**");
        reveal_strlit("*");
        reveal_strlit("{{DOUBLESTARSLASH}}");
        reveal_strlit("{{SLASHDOUBLESTAR}}");
    }
    let s1 = replace_str(pattern, ".", "\\.");
    let s2 = replace_str(s1.as_str(), "**/", "{{DOUBLESTARSLASH}}");
    let s3 = replace_str(s2.as_str(), "/**", "{{SLASHDOUBLESTAR}}");
    let s4 = replace_str(s3.as_str(), "**", ".*");
    let s5 = replace_str(s4.as_str(), "*", "[^/]*");
    let s6 = replace_str(s5.as_str(), "{{DOUBLESTARSLASH}}", "(.*/)?");
    let s7 = replace_str(s6.as_str(), "{{SLASHDOUBLESTAR}}", "(/.*)?");
    let mut r = String::new();
    push_str(&mut r, "(?i)");
    push_str(&mut r, s7.as_str());
    r
}

/// A glob pattern compiled once for repeated matching.
pub struct CompiledGlob {
    regex: CompiledRegex,
}

impl CompiledGlob {
    /// The glob's regex text.
    pub closed spec fn regex_text(&self) -> Seq<char> {
        self.regex.pattern()
    }

    /// Whether the glob's regex folds case on its own (it does not: case
    /// folding comes from the `(?i)` in its text).
    pub closed spec fn folds_case(&self) -> bool {
        self.regex.folds_case()
    }

    /// Whether this glob matches `path`.
    pub open spec fn spec_is_match(&self, path: Seq<char>) -> bool {
        regex_matches(self.regex_text(), self.folds_case(), path)
    }

    /// Compiles a glob; `None` when its regex does not compile.
    pub fn new(pattern: &str) -> (r: Option<CompiledGlob>)
        ensures
            r is Some <==> regex_compiles(glob_regex(pattern@), false),
            r matches Some(g) ==> g.regex_text() == glob_regex(pattern@) && !g.folds_case(),
    {
        let text = glob_to_regex(pattern);
        match CompiledRegex::new(text.as_str(), false) {
            Some(regex) => Some(CompiledGlob { regex }),
            None => None,
        }
    }

    /// Whether `path` matches this glob.
    pub fn is_match(&self, path: &str) -> (b: bool)
        ensures
            b == self.spec_is_match(path@),
    {
        self.regex.is_match(path)
    }
}

/// Whether `path` passes an optional compiled glob (true without one).
pub fn matches_glob_compiled(path: &str, glob: Option<&CompiledGlob>) -> (b: bool)
    ensures
        b == match glob {
            Some(g) => g.spec_is_match(path@),
            None => true,
        },
{
    match glob {
        Some(g) => g.is_match(path),
        None => true,
    }
}

/// Whether `path` matches the glob `pattern`: false when the glob does not
/// compile.
pub open spec fn spec_matches_glob(path: Seq<char>, pattern: Seq<char>) -> bool {
    regex_compiles(glob_regex(pattern), false) && regex_matches(glob_regex(pattern), false, path)
}

/// Whether `path` passes an optional glob pattern (true without one).
pub fn matches_glob(path: &str, glob_pattern: Option<&str>) -> (b: bool)
    ensures
        b == match glob_pattern {
            Some(p) => spec_matches_glob(path@, p@),
            None => true,
        },
{
    match glob_pattern {
        None => true,
        Some(pattern) => match CompiledGlob::new(pattern) {
            Some(g) => g.is_match(path),
            None => false,
        },
    }
}

/// Whether `path` is excluded by an optional compiled glob.
pub fn should_exclude_compiled(path: &str, exclude: Option<&CompiledGlob>) -> (b: bool)
    ensures
        b == match exclude {
            Some(g) => g.spec_is_match(path@),
            None => false,
        },
{
    match exclude {
        Some(g) => matches_glob_compiled(path, Some(g)),
        None => false,
    }
}

/// Whether `path` is excluded by an optional glob pattern.
pub fn should_exclude(path: &str, exclude_pattern: Option<&str>) -> (b: bool)
    ensures
        b == match exclude_pattern {
            Some(p) => spec_matches_glob(path@, p@),
            None => false,
        },
{
    match exclude_pattern {
        None => false,
        Some(pattern) => matches_glob(path, Some(pattern)),
    }
}

/// A path is excluded exactly when an exclude pattern is given and the path
/// matches it as a glob.
pub proof fn law_exclude_is_glob_match(path: Seq<char>, pattern: Seq<char>)
    ensures
        spec_matches_glob(path, pattern) == (regex_compiles(glob_regex(pattern), false)
            && regex_matches(glob_regex(pattern), false, path)),
{
}

/// The file types by name (any case) and the extensions each accepts:
/// rust/rs: rs; typescript/ts: ts, tsx; javascript/js: js, jsx;
/// python/py: py; go: go; c: c, h; cpp/c++: cpp, hpp, cc, cxx; java: java;
/// ruby/rb: rb; php: php; swift: swift; kotlin/kt: kt, kts; scala: scala;
/// lua: lua; shell/sh/bash: sh, bash; yaml/yml: yaml, yml; json: json;
/// toml: toml; md/markdown: md, markdown. Any other filter accepts exactly
/// the extension equal to it, and no filter accepts every path.
#[verifier::rlimit(60)]
pub proof fn law_file_types(path: Seq<char>, filter: Seq<char>)
    ensures
        (lowercase(filter) == "rust"@ || lowercase(filter) == "rs"@) ==> (spec_matches_file_type(path, Some(filter)) <==> (extension_or_empty(path) == "rs"@)),
        (lowercase(filter) == "typescript"@ || lowercase(filter) == "ts"@) ==> (spec_matches_file_type(path, Some(filter)) <==> (extension_or_empty(path) == "ts"@ || extension_or_empty(path) == "tsx"@)),
        (lowercase(filter) == "javascript"@ || lowercase(filter) == "js"@) ==> (spec_matches_file_type(path, Some(filter)) <==> (extension_or_empty(path) == "js"@ || extension_or_empty(path) == "jsx"@)),
        (lowercase(filter) == "python"@ || lowercase(filter) == "py"@) ==> (spec_matches_file_type(path, Some(filter)) <==> (extension_or_empty(path) == "py"@)),
        (lowercase(filter) == "go"@) ==> (spec_matches_file_type(path, Some(filter)) <==> (extension_or_empty(path) == "go"@)),
        (lowercase(filter) == "c"@) ==> (spec_matches_file_type(path, Some(filter)) <==> (extension_or_empty(path) == "c"@ || extension_or_empty(path) == "h"@)),
        (lowercase(filter) == "cpp"@ || lowercase(filter) == "c++"@) ==> (spec_matches_file_type(path, Some(filter)) <==> (extension_or_empty(path) == "cpp"@ || extension_or_empty(path) == "hpp"@ || extension_or_empty(path) == "cc"@ || extension_or_empty(path) == "cxx"@)),
        (lowercase(filter) == "java"@) ==> (spec_matches_file_type(path, Some(filter)) <==> (extension_or_empty(path) == "java"@)),
        (lowercase(filter) == "ruby"@ || lowercase(filter) == "rb"@) ==> (spec_matches_file_type(path, Some(filter)) <==> (extension_or_empty(path) == "rb"@)),
        (lowercase(filter) == "php"@) ==> (spec_matches_file_type(path, Some(filter)) <==> (extension_or_empty(path) == "php"@)),
        (lowercase(filter) == "swift"@) ==> (spec_matches_file_type(path, Some(filter)) <==> (extension_or_empty(path) == "swift"@)),
        (lowercase(filter) == "kotlin"@ || lowercase(filter) == "kt"@) ==> (spec_matches_file_type(path, Some(filter)) <==> (extension_or_empty(path) == "kt"@ || extension_or_empty(path) == "kts"@)),
        (lowercase(filter) == "scala"@) ==> (spec_matches_file_type(path, Some(filter)) <==> (extension_or_empty(path) == "scala"@)),
        (lowercase(filter) == "lua"@) ==> (spec_matches_file_type(path, Some(filter)) <==> (extension_or_empty(path) == "lua"@)),
        (lowercase(filter) == "shell"@ || lowercase(filter) == "sh"@ || lowercase(filter) == "bash"@) ==> (spec_matches_file_type(path, Some(filter)) <==> (extension_or_empty(path) == "sh"@ || extension_or_empty(path) == "bash"@)),
        (lowercase(filter) == "yaml"@ || lowercase(filter) == "yml"@) ==> (spec_matches_file_type(path, Some(filter)) <==> (extension_or_empty(path) == "yaml"@ || extension_or_empty(path) == "yml"@)),
        (lowercase(filter) == "json"@) ==> (spec_matches_file_type(path, Some(filter)) <==> (extension_or_empty(path) == "json"@)),
        (lowercase(filter) == "toml"@) ==> (spec_matches_file_type(path, Some(filter)) <==> (extension_or_empty(path) == "toml"@)),
        (lowercase(filter) == "md"@ || lowercase(filter) == "markdown"@) ==> (spec_matches_file_type(path, Some(filter)) <==> (extension_or_empty(path) == "md"@ || extension_or_empty(path) == "markdown"@)),
        !((lowercase(filter) == "rust"@ || lowercase(filter) == "rs"@ || lowercase(filter) == "typescript"@ || lowercase(filter) == "ts"@ || lowercase(filter) == "javascript"@ || lowercase(filter) == "js"@ || lowercase(filter) == "python"@ || lowercase(filter) == "py"@ || lowercase(filter) == "go"@ || lowercase(filter) == "c"@ || lowercase(filter) == "cpp"@ || lowercase(filter) == "c++"@ || lowercase(filter) == "java"@ || lowercase(filter) == "ruby"@ || lowercase(filter) == "rb"@ || lowercase(filter) == "php"@ || lowercase(filter) == "swift"@ || lowercase(filter) == "kotlin"@ || lowercase(filter) == "kt"@ || lowercase(filter) == "scala"@ || lowercase(filter) == "lua"@ || lowercase(filter) == "shell"@ || lowercase(filter) == "sh"@ || lowercase(filter) == "bash"@ || lowercase(filter) == "yaml"@ || lowercase(filter) == "yml"@ || lowercase(filter) == "json"@ || lowercase(filter) == "toml"@ || lowercase(filter) == "md"@ || lowercase(filter) == "markdown"@)) ==> (spec_matches_file_type(path, Some(filter)) <==> extension_or_empty(path) == filter),
        spec_matches_file_type(path, None),
{
    reveal_strlit("bash");
    reveal_strlit("c");
    reveal_strlit("c++");
    reveal_strlit("cc");
    reveal_strlit("cpp");
    reveal_strlit("cxx");
    reveal_strlit("go");
    reveal_strlit("h");
    reveal_strlit("hpp");
    reveal_strlit("java");
    reveal_strlit("javascript");
    reveal_strlit("js");
    reveal_strlit("json");
    reveal_strlit("jsx");
    reveal_strlit("kotlin");
    reveal_strlit("kt");
    reveal_strlit("kts");
    reveal_strlit("lua");
    reveal_strlit("markdown");
    reveal_strlit("md");
    reveal_strlit("php");
    reveal_strlit("py");
    reveal_strlit("python");
    reveal_strlit("rb");
    reveal_strlit("rs");
    reveal_strlit("ruby");
    reveal_strlit("rust");
    reveal_strlit("scala");
    reveal_strlit("sh");
    reveal_strlit("shell");
    reveal_strlit("swift");
    reveal_strlit("toml");
    reveal_strlit("ts");
    reveal_strlit("tsx");
    reveal_strlit("typescript");
    reveal_strlit("yaml");
    reveal_strlit("yml");
    assert("bash"@[0] == 'b' && "bash"@[1] == 'a' && "bash"@[2] == 's' && "bash"@[3] == 'h' && "bash"@.len() == 4);
    assert("c"@[0] == 'c' && "c"@.len() == 1);
    assert("c++"@[0] == 'c' && "c++"@[1] == '+' && "c++"@[2] == '+' && "c++"@.len() == 3);
    assert("cc"@[0] == 'c' && "cc"@[1] == 'c' && "cc"@.len() == 2);
    assert("cpp"@[0] == 'c' && "cpp"@[1] == 'p' && "cpp"@[2] == 'p' && "cpp"@.len() == 3);
    assert("cxx"@[0] == 'c' && "cxx"@[1] == 'x' && "cxx"@[2] == 'x' && "cxx"@.len() == 3);
    assert("go"@[0] == 'g' && "go"@[1] == 'o' && "go"@.len() == 2);
    assert("h"@[0] == 'h' && "h"@.len() == 1);
    assert("hpp"@[0] == 'h' && "hpp"@[1] == 'p' && "hpp"@[2] == 'p' && "hpp"@.len() == 3);
    assert("java"@[0] == 'j' && "java"@[1] == 'a' && "java"@[2] == 'v' && "java"@[3] == 'a' && "java"@.len() == 4);
    assert("javascript"@[0] == 'j' && "javascript"@[1] == 'a' && "javascript"@[2] == 'v' && "javascript"@[3] == 'a' && "javascript"@[4] == 's' && "javascript"@[5] == 'c' && "javascript"@[6] == 'r' && "javascript"@[7] == 'i' && "javascript"@[8] == 'p' && "javascript"@[9] == 't' && "javascript"@.len() == 10);
    assert("js"@[0] == 'j' && "js"@[1] == 's' && "js"@.len() == 2);
    assert("json"@[0] == 'j' && "json"@[1] == 's' && "json"@[2] == 'o' && "json"@[3] == 'n' && "json"@.len() == 4);
    assert("jsx"@[0] == 'j' && "jsx"@[1] == 's' && "jsx"@[2] == 'x' && "jsx"@.len() == 3);
    assert("kotlin"@[0] == 'k' && "kotlin"@[1] == 'o' && "kotlin"@[2] == 't' && "kotlin"@[3] == 'l' && "kotlin"@[4] == 'i' && "kotlin"@[5] == 'n' && "kotlin"@.len() == 6);
    assert("kt"@[0] == 'k' && "kt"@[1] == 't' && "kt"@.len() == 2);
    assert("kts"@[0] == 'k' && "kts"@[1] == 't' && "kts"@[2] == 's' && "kts"@.len() == 3);
    assert("lua"@[0] == 'l' && "lua"@[1] == 'u' && "lua"@[2] == 'a' && "lua"@.len() == 3);
    assert("markdown"@[0] == 'm' && "markdown"@[1] == 'a' && "markdown"@[2] == 'r' && "markdown"@[3] == 'k' && "markdown"@[4] == 'd' && "markdown"@[5] == 'o' && "markdown"@[6] == 'w' && "markdown"@[7] == 'n' && "markdown"@.len() == 8);
    assert("md"@[0] == 'm' && "md"@[1] == 'd' && "md"@.len() == 2);
    assert("php"@[0] == 'p' && "php"@[1] == 'h' && "php"@[2] == 'p' && "php"@.len() == 3);
    assert("py"@[0] == 'p' && "py"@[1] == 'y' && "py"@.len() == 2);
    assert("python"@[0] == 'p' && "python"@[1] == 'y' && "python"@[2] == 't' && "python"@[3] == 'h' && "python"@[4] == 'o' && "python"@[5] == 'n' && "python"@.len() == 6);
    assert("rb"@[0] == 'r' && "rb"@[1] == 'b' && "rb"@.len() == 2);
    assert("rs"@[0] == 'r' && "rs"@[1] == 's' && "rs"@.len() == 2);
    assert("ruby"@[0] == 'r' && "ruby"@[1] == 'u' && "ruby"@[2] == 'b' && "ruby"@[3] == 'y' && "ruby"@.len() == 4);
    assert("rust"@[0] == 'r' && "rust"@[1] == 'u' && "rust"@[2] == 's' && "rust"@[3] == 't' && "rust"@.len() == 4);
    assert("scala"@[0] == 's' && "scala"@[1] == 'c' && "scala"@[2] == 'a' && "scala"@[3] == 'l' && "scala"@[4] == 'a' && "scala"@.len() == 5);
    assert("sh"@[0] == 's' && "sh"@[1] == 'h' && "sh"@.len() == 2);
    assert("shell"@[0] == 's' && "shell"@[1] == 'h' && "shell"@[2] == 'e' && "shell"@[3] == 'l' && "shell"@[4] == 'l' && "shell"@.len() == 5);
    assert("swift"@[0] == 's' && "swift"@[1] == 'w' && "swift"@[2] == 'i' && "swift"@[3] == 'f' && "swift"@[4] == 't' && "swift"@.len() == 5);
    assert("toml"@[0] == 't' && "toml"@[1] == 'o' && "toml"@[2] == 'm' && "toml"@[3] == 'l' && "toml"@.len() == 4);
    assert("ts"@[0] == 't' && "ts"@[1] == 's' && "ts"@.len() == 2);
    assert("tsx"@[0] == 't' && "tsx"@[1] == 's' && "tsx"@[2] == 'x' && "tsx"@.len() == 3);
    assert("typescript"@[0] == 't' && "typescript"@[1] == 'y' && "typescript"@[2] == 'p' && "typescript"@[3] == 'e' && "typescript"@[4] == 's' && "typescript"@[5] == 'c' && "typescript"@[6] == 'r' && "typescript"@[7] == 'i' && "typescript"@[8] == 'p' && "typescript"@[9] == 't' && "typescript"@.len() == 10);
    assert("yaml"@[0] == 'y' && "yaml"@[1] == 'a' && "yaml"@[2] == 'm' && "yaml"@[3] == 'l' && "yaml"@.len() == 4);
    assert("yml"@[0] == 'y' && "yml"@[1] == 'm' && "yml"@[2] == 'l' && "yml"@.len() == 3);
}

/// `s` with each `.` written as `\.`: the glob's dots match only dots.
pub open spec fn dots_escaped(s: Seq<char>) -> Seq<char>
    decreases s.len(),
{
    if s.len() == 0 {
        seq![]
    } else if s[0] == '.' {
        seq!['\\', '.'] + dots_escaped(s.drop_first())
    } else {
        seq![s[0]] + dots_escaped(s.drop_first())
    }
}

proof fn lemma_replace_absent(s: Seq<char>, p: Seq<char>, t: Seq<char>, k: int)
    requires
        0 <= k < p.len(),
        forall|i: int| 0 <= i < s.len() ==> s[i] != p[k],
    ensures
        replace_all(s, p, t) == s,
    decreases s.len(),
{
    if s.len() > 0 {
        if p.len() <= s.len() && s.take(p.len() as int) == p {
            assert(s.take(p.len() as int)[k] == s[k]);
        }
        lemma_replace_absent(s.drop_first(), p, t, k);
        assert(seq![s[0]] + s.drop_first() =~= s);
    }
}

proof fn lemma_replace_dots(s: Seq<char>)
    ensures
        replace_all(s, "."@, "\\."@) == dots_escaped(s),
    decreases s.len(),
{
    reveal_strlit(".");
    reveal_strlit("\\.");
    if s.len() > 0 {
        lemma_replace_dots(s.drop_first());
        if s[0] == '.' {
            assert(s.take(1) =~= "."@);
            assert(s.skip(1) =~= s.drop_first());
            assert("\\."@ =~= seq!['\\', '.']);
        } else {
            assert(s.take(1) != "."@) by {
                assert(s.take(1)[0] == s[0]);
            }
        }
    }
}

proof fn lemma_dots_absent(s: Seq<char>, c: char)
    requires
        c != '\\' && c != '.',
        forall|i: int| 0 <= i < s.len() ==> s[i] != c,
    ensures
        forall|i: int| 0 <= i < dots_escaped(s).len() ==> dots_escaped(s)[i] != c,
    decreases s.len(),
{
    if s.len() > 0 {
        assert forall|i: int| 0 <= i < s.drop_first().len() implies s.drop_first()[i] != c by {
            assert(s.drop_first()[i] == s[i + 1]);
        }
        lemma_dots_absent(s.drop_first(), c);
        let rest = dots_escaped(s.drop_first());
        assert(s[0] != c);
        let head: Seq<char> = if s[0] == '.' { seq!['\\', '.'] } else { seq![s[0]] };
        assert(dots_escaped(s) == head + rest);
        assert forall|i: int| 0 <= i < dots_escaped(s).len() implies dots_escaped(s)[i] != c by {
            if i >= head.len() {
                assert(dots_escaped(s)[i] == rest[i - head.len()]);
            }
        }
    }
}

/// A glob's regex always starts with `(?i)`: globs match regardless of
/// case. A glob without `*` and `{` is matched as its own text with each
/// `.` standing for a dot only: its regex is `(?i)` followed by the text
/// with every `.` escaped.
pub proof fn law_glob_regex(pattern: Seq<char>)
    ensures
        glob_regex(pattern).len() >= 4 && glob_regex(pattern).take(4) == "(?i)"@,
        (forall|i: int| 0 <= i < pattern.len() ==> pattern[i] != '*' && pattern[i] != '{') ==>
            glob_regex(pattern) == "(?i)"@ + dots_escaped(pattern),
{
    reveal_strlit("(?i)");
    reveal_strlit("**/");
    reveal_strlit("/**");
    reveal_strlit("**");
    reveal_strlit("*");
    reveal_strlit("{{DOUBLESTARSLASH}}");
    reveal_strlit("{{SLASHDOUBLESTAR}}");
    let s1 = replace_all(pattern, "."@, "\\."@);
    let s2 = replace_all(s1, "**/"@, "{{DOUBLESTARSLASH}}"@);
    let s3 = replace_all(s2, "/**"@, "{{SLASHDOUBLESTAR}}"@);
    let s4 = replace_all(s3, "**"@, ".*"@);
    let s5 = replace_all(s4, "*"@, "[^/]*"@);
    let s6 = replace_all(s5, "{{DOUBLESTARSLASH}}"@, "(.*/)?"@);
    let s7 = replace_all(s6, "{{SLASHDOUBLESTAR}}"@, "(/.*)?"@);
    assert(("(?i)"@ + s7).take(4) =~= "(?i)"@);
    if forall|i: int| 0 <= i < pattern.len() ==> pattern[i] != '*' && pattern[i] != '{' {
        lemma_replace_dots(pattern);
        lemma_dots_absent(pattern, '*');
        lemma_dots_absent(pattern, '{');
        assert(forall|i: int| 0 <= i < s1.len() ==> s1[i] != '*');
        assert(forall|i: int| 0 <= i < s1.len() ==> s1[i] != '{');
        lemma_replace_absent(s1, "**/"@, "{{DOUBLESTARSLASH}}"@, 0);
        lemma_replace_absent(s2, "/**"@, "{{SLASHDOUBLESTAR}}"@, 1);
        lemma_replace_absent(s3, "**"@, ".*"@, 0);
        lemma_replace_absent(s4, "*"@, "[^/]*"@, 0);
        lemma_replace_absent(s5, "{{DOUBLESTARSLASH}}"@, "(.*/)?"@, 0);
        lemma_replace_absent(s6, "{{SLASHDOUBLESTAR}}"@, "(/.*)?"@, 0);
    }
}

} // verus!
