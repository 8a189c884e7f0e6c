//! Which files a directory walk keeps, and the language of a file by its
//! extension.

use vstd::prelude::*;
use crate::filters::{extension, path_extension};
use crate::text::{contains, lowercase, str_contains, str_eq, to_lowercase};

verus! {

/// The language named by an extension (already in lower case).
pub open spec fn language_of_ext(e: Seq<char>) -> Option<Seq<char>> {
    if e == "rs"@ {
        Some("rust"@)
    } else if e == "ts"@ || e == "tsx"@ {
        Some("typescript"@)
    } else if e == "js"@ || e == "jsx"@ {
        Some("javascript"@)
    } else if e == "py"@ {
        Some("python"@)
    } else if e == "go"@ {
        Some("go"@)
    } else if e == "java"@ {
        Some("java"@)
    } else if e == "c"@ || e == "h"@ {
        Some("c"@)
    } else if e == "cpp"@ || e == "cc"@ || e == "hpp"@ {
        Some("cpp"@)
    } else if e == "cs"@ {
        Some("csharp"@)
    } else if e == "rb"@ {
        Some("ruby"@)
    } else if e == "php"@ {
        Some("php"@)
    } else if e == "swift"@ {
        Some("swift"@)
    } else if e == "kt"@ || e == "kts"@ {
        Some("kotlin"@)
    } else if e == "scala"@ {
        Some("scala"@)
    } else if e == "lua"@ {
        Some("lua"@)
    } else {
        None
    }
}

/// Language of a file extension (compared in lower case).
pub fn detect_language(ext: &str) -> (r: Option<String>)
    ensures
        match r {
            Some(l) => language_of_ext(lowercase(ext@)) == Some(l@),
            None => language_of_ext(lowercase(ext@)) is None,
        },
{
    let lower = to_lowercase(ext);
    let e = lower.as_str();
    let name: Option<&str> = if str_eq(e, "rs") {
        Some("rust")
    } else if str_eq(e, "ts") || str_eq(e, "tsx") {
        Some("typescript")
    } else if str_eq(e, "js") || str_eq(e, "jsx") {
        Some("javascript")
    } else if str_eq(e, "py") {
        Some("python")
    } else if str_eq(e, "go") {
        Some("go")
    } else if str_eq(e, "java") {
        Some("java")
    } else if str_eq(e, "c") || str_eq(e, "h") {
        Some("c")
    } else if str_eq(e, "cpp") || str_eq(e, "cc") || str_eq(e, "hpp") {
        Some("cpp")
    } else if str_eq(e, "cs") {
        Some("csharp")
    } else if str_eq(e, "rb") {
        Some("ruby")
    } else if str_eq(e, "php") {
        Some("php")
    } else if str_eq(e, "swift") {
        Some("swift")
    } else if str_eq(e, "kt") || str_eq(e, "kts") {
        Some("kotlin")
    } else if str_eq(e, "scala") {
        Some("scala")
    } else if str_eq(e, "lua") {
        Some("lua")
    } else {
        None
    };
    match name {
        Some(n) => Some(String::from_str(n)),
        None => None,
    }
}

/// The language of a path by its extension, or the empty string.
pub open spec fn path_language(path: Seq<char>) -> Seq<char> {
    match extension(path) {
        Some(e) => match language_of_ext(lowercase(e)) {
            Some(l) => l,
            None => Seq::empty(),
        },
        None => Seq::empty(),
    }
}

/// The language of a path by its extension, or the empty string.
pub fn language_of_path(path: &str) -> (r: String)
    ensures
        r@ == path_language(path@),
{
    match path_extension(path) {
        Some(e) => match detect_language(e.as_str()) {
            Some(l) => l,
            None => String::new(),
        },
        None => String::new(),
    }
}

/// The extensions a scan keeps by default.
pub open spec fn default_extensions() -> Seq<Seq<char>> {
    seq![
        "rs"@, "ts"@, "tsx"@, "js"@, "jsx"@, "py"@, "go"@, "java"@, "c"@, "cpp"@, "h"@, "hpp"@,
        "cs"@, "rb"@, "php"@, "swift"@, "kt"@, "kts"@, "scala"@, "lua"@, "md"@, "txt"@, "json"@,
        "yaml"@, "toml"@,
    ]
}

/// Views of a list of strings.
pub open spec fn string_views(v: Seq<String>) -> Seq<Seq<char>> {
    v.map_values(|s: String| s@)
}

/// Walks a directory for source files, honouring `.gitignore` unless told
/// otherwise and skipping paths that contain an exclude pattern.
#[derive(Debug, Clone)]
pub struct FileScanner {
    /// Directory to walk.
    pub root: String,
    /// Extensions (lower case) of the files kept.
    pub extensions: Vec<String>,
    /// Substrings that exclude a path.
    pub exclude_patterns: Vec<String>,
    /// Whether `.gitignore` rules apply.
    pub respect_gitignore: bool,
}

/// Whether a path contains one of the patterns.
pub open spec fn excluded_by(path: Seq<char>, patterns: Seq<Seq<char>>) -> bool {
    exists|k: int| 0 <= k < patterns.len() && contains(path, #[trigger] patterns[k])
}

/// Whether a walked file is kept: no exclude pattern occurs in its path and
/// its extension, in lower case, is one of the scanner's.
pub open spec fn keeps_path(s: FileScanner, path: Seq<char>) -> bool {
    &&& !excluded_by(path, string_views(s.exclude_patterns@))
    &&& match extension(path) {
        Some(e) => string_views(s.extensions@).contains(lowercase(e)),
        None => false,
    }
}

/// Whether the walk descends into an entry with this file name (the index
/// directory is skipped; a name that is not valid text is entered).
pub open spec fn enters(name: Option<Seq<char>>) -> bool {
    match name {
        Some(n) => n != ".cgrep"@,
        None => true,
    }
}

/// Whether the walk descends into an entry with this file name.
pub fn enters_entry(name: Option<&str>) -> (b: bool)
    ensures
        b == enters(match name {
            Some(n) => Some(n@),
            None => None,
        }),
{
    match name {
        Some(n) => !str_eq(n, ".cgrep"),
        None => true,
    }
}

impl FileScanner {
    /// A scanner of `root` with the default extensions and no excludes.
    pub fn new(root: &str) -> (s: FileScanner)
        ensures
            s.root@ == root@,
            string_views(s.extensions@) == default_extensions(),
            s.exclude_patterns@.len() == 0,
            s.respect_gitignore,
    {
        let mut extensions: Vec<String> = Vec::new();
        extensions.push(String::from_str("rs"));
        extensions.push(String::from_str("ts"));
        extensions.push(String::from_str("tsx"));
        extensions.push(String::from_str("js"));
        extensions.push(String::from_str("jsx"));
        extensions.push(String::from_str("py"));
        extensions.push(String::from_str("go"));
        extensions.push(String::from_str("java"));
        extensions.push(String::from_str("c"));
        extensions.push(String::from_str("cpp"));
        extensions.push(String::from_str("h"));
        extensions.push(String::from_str("hpp"));
        extensions.push(String::from_str("cs"));
        extensions.push(String::from_str("rb"));
        extensions.push(String::from_str("php"));
        extensions.push(String::from_str("swift"));
        extensions.push(String::from_str("kt"));
        extensions.push(String::from_str("kts"));
        extensions.push(String::from_str("scala"));
        extensions.push(String::from_str("lua"));
        extensions.push(String::from_str("md"));
        extensions.push(String::from_str("txt"));
        extensions.push(String::from_str("json"));
        extensions.push(String::from_str("yaml"));
        extensions.push(String::from_str("toml"));
        assert(string_views(extensions@) =~= default_extensions());
        FileScanner {
            root: String::from_str(root),
            extensions,
            exclude_patterns: Vec::new(),
            respect_gitignore: true,
        }
    }

    /// A scanner of `root` that also skips paths containing any of `excludes`.
    pub fn with_excludes(root: &str, excludes: Vec<String>) -> (s: FileScanner)
        ensures
            s.root@ == root@,
            string_views(s.extensions@) == default_extensions(),
            s.exclude_patterns@ == excludes@,
            s.respect_gitignore,
    {
        let mut scanner = FileScanner::new(root);
        scanner.exclude_patterns = excludes;
        scanner
    }

    /// The same scanner, honouring `.gitignore` or not.
    pub fn with_gitignore(self, respect: bool) -> (s: FileScanner)
        ensures
            s.root == self.root,
            s.extensions == self.extensions,
            s.exclude_patterns == self.exclude_patterns,
            s.respect_gitignore == respect,
    {
        let mut s = self;
        s.respect_gitignore = respect;
        s
    }

    /// Whether a walked file is kept.
    pub fn keeps(&self, path: &str) -> (b: bool)
        ensures
            b == keeps_path(*self, path@),
    {
        let ghost pats = string_views(self.exclude_patterns@);
        let mut k: usize = 0;
        while k < self.exclude_patterns.len()
            invariant
                k <= self.exclude_patterns@.len(),
                pats == string_views(self.exclude_patterns@),
                forall|m: int| 0 <= m < k ==> !contains(path@, #[trigger] pats[m]),
            decreases self.exclude_patterns@.len() - k,
        {
            if str_contains(path, self.exclude_patterns[k].as_str()) {
                assert(contains(path@, pats[k as int]));
                return false;
            }
            k += 1;
        }
        assert(!excluded_by(path@, pats));
        let ext = match path_extension(path) {
            Some(e) => e,
            None => return false,
        };
        let lower = to_lowercase(ext.as_str());
        let ghost exts = string_views(self.extensions@);
        let mut i: usize = 0;
        while i < self.extensions.len()
            invariant
                i <= self.extensions@.len(),
                exts == string_views(self.extensions@),
                forall|m: int| 0 <= m < i ==> exts[m] != lower@,
                !excluded_by(path@, string_views(self.exclude_patterns@)),
                extension(path@) == Some(ext@),
                lower@ == lowercase(ext@),
            decreases self.extensions@.len() - i,
        {
            if str_eq(self.extensions[i].as_str(), lower.as_str()) {
                assert(exts[i as int] == lower@);
                assert(exts.contains(lower@));
                return true;
            }
            i += 1;
        }
        false
    }
}

/// The languages known by extension (in lower case): rs: rust; ts, tsx: typescript; js, jsx: javascript; py: python; go: go; java: java; c, h: c; cpp, cc, hpp: cpp; cs: csharp; rb: ruby; php: php; swift: swift; kt, kts: kotlin; scala: scala; lua: lua. Any other
/// extension names no language.
#[verifier::rlimit(60)]
pub proof fn law_languages_by_extension(e: Seq<char>)
    ensures
        language_of_ext("rs"@) == Some("rust"@),
        language_of_ext("ts"@) == Some("typescript"@),
        language_of_ext("tsx"@) == Some("typescript"@),
        language_of_ext("js"@) == Some("javascript"@),
        language_of_ext("jsx"@) == Some("javascript"@),
        language_of_ext("py"@) == Some("python"@),
        language_of_ext("go"@) == Some("go"@),
        language_of_ext("java"@) == Some("java"@),
        language_of_ext("c"@) == Some("c"@),
        language_of_ext("h"@) == Some("c"@),
        language_of_ext("cpp"@) == Some("cpp"@),
        language_of_ext("cc"@) == Some("cpp"@),
        language_of_ext("hpp"@) == Some("cpp"@),
        language_of_ext("cs"@) == Some("csharp"@),
        language_of_ext("rb"@) == Some("ruby"@),
        language_of_ext("php"@) == Some("php"@),
        language_of_ext("swift"@) == Some("swift"@),
        language_of_ext("kt"@) == Some("kotlin"@),
        language_of_ext("kts"@) == Some("kotlin"@),
        language_of_ext("scala"@) == Some("scala"@),
        language_of_ext("lua"@) == Some("lua"@),
        !(e == "rs"@ || e == "ts"@ || e == "tsx"@ || e == "js"@ || e == "jsx"@ || e == "py"@ || e == "go"@ || e == "java"@ || e == "c"@ || e == "h"@ || e == "cpp"@ || e == "cc"@ || e == "hpp"@ || e == "cs"@ || e == "rb"@ || e == "php"@ || e == "swift"@ || e == "kt"@ || e == "kts"@ || e == "scala"@ || e == "lua"@) ==> language_of_ext(e) is None,
{
    reveal_strlit("c");
    assert("c"@[0] == 'c' && "c"@.len() == 1);
    reveal_strlit("cc");
    assert("cc"@[0] == 'c' && "cc"@[1] == 'c' && "cc"@.len() == 2);
    reveal_strlit("cpp");
    assert("cpp"@[0] == 'c' && "cpp"@[1] == 'p' && "cpp"@[2] == 'p' && "cpp"@.len() == 3);
    reveal_strlit("cs");
    assert("cs"@[0] == 'c' && "cs"@[1] == 's' && "cs"@.len() == 2);
    reveal_strlit("csharp");
    assert("csharp"@[0] == 'c' && "csharp"@[1] == 's' && "csharp"@[2] == 'h' && "csharp"@[3] == 'a' && "csharp"@[4] == 'r' && "csharp"@[5] == 'p' && "csharp"@.len() == 6);
    reveal_strlit("go");
    assert("go"@[0] == 'g' && "go"@[1] == 'o' && "go"@.len() == 2);
    reveal_strlit("h");
    assert("h"@[0] == 'h' && "h"@.len() == 1);
    reveal_strlit("hpp");
    assert("hpp"@[0] == 'h' && "hpp"@[1] == 'p' && "hpp"@[2] == 'p' && "hpp"@.len() == 3);
    reveal_strlit("java");
    assert("java"@[0] == 'j' && "java"@[1] == 'a' && "java"@[2] == 'v' && "java"@[3] == 'a' && "java"@.len() == 4);
    reveal_strlit("javascript");
    assert("javascript"@[0] == 'j' && "javascript"@[1] == 'a' && "javascript"@[2] == 'v' && "javascript"@[3] == 'a' && "javascript"@[4] == 's' && "javascript"@[5] == 'c' && "javascript"@[6] == 'r' && "javascript"@[7] == 'i' && "javascript"@[8] == 'p' && "javascript"@[9] == 't' && "javascript"@.len() == 10);
    reveal_strlit("js");
    assert("js"@[0] == 'j' && "js"@[1] == 's' && "js"@.len() == 2);
    reveal_strlit("jsx");
    assert("jsx"@[0] == 'j' && "jsx"@[1] == 's' && "jsx"@[2] == 'x' && "jsx"@.len() == 3);
    reveal_strlit("kotlin");
    assert("kotlin"@[0] == 'k' && "kotlin"@[1] == 'o' && "kotlin"@[2] == 't' && "kotlin"@[3] == 'l' && "kotlin"@[4] == 'i' && "kotlin"@[5] == 'n' && "kotlin"@.len() == 6);
    reveal_strlit("kt");
    assert("kt"@[0] == 'k' && "kt"@[1] == 't' && "kt"@.len() == 2);
    reveal_strlit("kts");
    assert("kts"@[0] == 'k' && "kts"@[1] == 't' && "kts"@[2] == 's' && "kts"@.len() == 3);
    reveal_strlit("lua");
    assert("lua"@[0] == 'l' && "lua"@[1] == 'u' && "lua"@[2] == 'a' && "lua"@.len() == 3);
    reveal_strlit("php");
    assert("php"@[0] == 'p' && "php"@[1] == 'h' && "php"@[2] == 'p' && "php"@.len() == 3);
    reveal_strlit("py");
    assert("py"@[0] == 'p' && "py"@[1] == 'y' && "py"@.len() == 2);
    reveal_strlit("python");
    assert("python"@[0] == 'p' && "python"@[1] == 'y' && "python"@[2] == 't' && "python"@[3] == 'h' && "python"@[4] == 'o' && "python"@[5] == 'n' && "python"@.len() == 6);
    reveal_strlit("rb");
    assert("rb"@[0] == 'r' && "rb"@[1] == 'b' && "rb"@.len() == 2);
    reveal_strlit("rs");
    assert("rs"@[0] == 'r' && "rs"@[1] == 's' && "rs"@.len() == 2);
    reveal_strlit("ruby");
    assert("ruby"@[0] == 'r' && "ruby"@[1] == 'u' && "ruby"@[2] == 'b' && "ruby"@[3] == 'y' && "ruby"@.len() == 4);
    reveal_strlit("rust");
    assert("rust"@[0] == 'r' && "rust"@[1] == 'u' && "rust"@[2] == 's' && "rust"@[3] == 't' && "rust"@.len() == 4);
    reveal_strlit("scala");
    assert("scala"@[0] == 's' && "scala"@[1] == 'c' && "scala"@[2] == 'a' && "scala"@[3] == 'l' && "scala"@[4] == 'a' && "scala"@.len() == 5);
    reveal_strlit("swift");
    assert("swift"@[0] == 's' && "swift"@[1] == 'w' && "swift"@[2] == 'i' && "swift"@[3] == 'f' && "swift"@[4] == 't' && "swift"@.len() == 5);
    reveal_strlit("ts");
    assert("ts"@[0] == 't' && "ts"@[1] == 's' && "ts"@.len() == 2);
    reveal_strlit("tsx");
    assert("tsx"@[0] == 't' && "tsx"@[1] == 's' && "tsx"@[2] == 'x' && "tsx"@.len() == 3);
    reveal_strlit("typescript");
    assert("typescript"@[0] == 't' && "typescript"@[1] == 'y' && "typescript"@[2] == 'p' && "typescript"@[3] == 'e' && "typescript"@[4] == 's' && "typescript"@[5] == 'c' && "typescript"@[6] == 'r' && "typescript"@[7] == 'i' && "typescript"@[8] == 'p' && "typescript"@[9] == 't' && "typescript"@.len() == 10);
}

} // verus!
