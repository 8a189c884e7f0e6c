//! Regular expressions, matched by the `regex` crate.
//!
//! What a pattern matches is not restated here: it is named by
//! `regex_matches`, a function of the pattern, the case-folding flag and the
//! haystack alone.

use vstd::prelude::*;

verus! {

#[verifier::external_type_specification]
#[verifier::external_body]
pub struct ExRegex(regex::Regex);

/// Whether `pattern` compiles (with case folding when `case_insensitive`).
pub uninterp spec fn regex_compiles(pattern: Seq<char>, case_insensitive: bool) -> bool;

/// Whether the compiled `pattern` matches somewhere in `haystack`.
pub uninterp spec fn regex_matches(pattern: Seq<char>, case_insensitive: bool, haystack: Seq<char>) -> bool;

/// A compiled regular expression together with the pattern it came from.
pub struct CompiledRegex {
    regex: regex::Regex,
    source: Ghost<Seq<char>>,
    case_insensitive: bool,
}

impl CompiledRegex {
    /// The pattern this regex was compiled from.
    pub closed spec fn pattern(&self) -> Seq<char> {
        self.source@
    }

    /// Whether matching folds case.
    pub closed spec fn folds_case(&self) -> bool {
        self.case_insensitive
    }
}

/// `regex::RegexBuilder::new(pattern).case_insensitive(ci).build()`: succeeds
/// exactly when the pattern compiles, and remembers the pattern.
#[verifier::external_body]
pub(crate) fn regex_build(pattern: &str, case_insensitive: bool) -> (r: Option<CompiledRegex>)
    ensures
        r is Some <==> regex_compiles(pattern@, case_insensitive),
        r matches Some(c) ==> c.pattern() == pattern@ && c.folds_case() == case_insensitive,
{
    regex::RegexBuilder::new(pattern)
        .case_insensitive(case_insensitive)
        .build()
        .ok()
        .map(|regex| CompiledRegex { regex, source: Ghost(pattern@), case_insensitive })
}

/// `regex::Regex::is_match`: named `regex_matches` of the pattern and text.
#[verifier::external_body]
pub(crate) fn regex_is_match(re: &CompiledRegex, haystack: &str) -> (b: bool)
    ensures
        b == regex_matches(re.pattern(), re.folds_case(), haystack@),
{
    re.regex.is_match(haystack)
}

impl CompiledRegex {
    /// Compiles `pattern`; `None` when it is not a valid regex.
    pub fn new(pattern: &str, case_insensitive: bool) -> (r: Option<CompiledRegex>)
        ensures
            r is Some <==> regex_compiles(pattern@, case_insensitive),
            r matches Some(c) ==> c.pattern() == pattern@ && c.folds_case() == case_insensitive,
    {
        regex_build(pattern, case_insensitive)
    }

    /// Whether the regex matches somewhere in `haystack`.
    pub fn is_match(&self, haystack: &str) -> (b: bool)
        ensures
            b == regex_matches(self.pattern(), self.folds_case(), haystack@),
    {
        regex_is_match(self, haystack)
    }
}

/// Byte offset at which the leftmost match of the compiled `pattern` starts
/// in `haystack`, or `None` when it does not match.
pub uninterp spec fn regex_first_start(pattern: Seq<char>, case_insensitive: bool, haystack: Seq<char>) -> Option<usize>;

/// `regex::Regex::find` followed by `Match::start`: named
/// `regex_first_start` of the pattern and text. A match is found exactly
/// when the regex matches; its start is a byte offset into the haystack,
/// whose length never reaches `usize::MAX`.
#[verifier::external_body]
pub(crate) fn regex_find_start(re: &CompiledRegex, haystack: &str) -> (r: Option<usize>)
    ensures
        r == regex_first_start(re.pattern(), re.folds_case(), haystack@),
        r is Some <==> regex_matches(re.pattern(), re.folds_case(), haystack@),
        r matches Some(s) ==> s < usize::MAX,
{
    re.regex.find(haystack).map(|m| m.start())
}

impl CompiledRegex {
    /// Byte offset of the leftmost match in `haystack`, if any.
    pub fn find_start(&self, haystack: &str) -> (r: Option<usize>)
        ensures
            r == regex_first_start(self.pattern(), self.folds_case(), haystack@),
            r is Some <==> regex_matches(self.pattern(), self.folds_case(), haystack@),
            r matches Some(s) ==> s < usize::MAX,
    {
        regex_find_start(self, haystack)
    }
}

/// The characters that have a meaning in a regex and are escaped.
pub open spec fn is_regex_meta(c: char) -> bool {
    ||| c == '\\' || c == '.' || c == '+' || c == '*' || c == '?' || c == '('
    ||| c == ')' || c == '|' || c == '[' || c == ']' || c == '{' || c == '}'
    ||| c == '^' || c == '$' || c == '#' || c == '&' || c == '-' || c == '~'
}

/// The pattern `regex::escape` makes of a text: each meta character gets a
/// backslash in front of it, every other character stays as it is.
pub open spec fn regex_escaped(text: Seq<char>) -> Seq<char>
    decreases text.len(),
{
    if text.len() == 0 {
        seq![]
    } else {
        let c = text.last();
        regex_escaped(text.drop_last()) + if is_regex_meta(c) {
            seq!['\\', c]
        } else {
            seq![c]
        }
    }
}

/// `regex::escape`: puts a backslash before each meta character of the
/// text (`regex_syntax::escape_into`, which tests `is_meta_character`).
#[verifier::external_body]
pub(crate) fn escape_regex(text: &str) -> (r: String)
    ensures
        r@ == regex_escaped(text@),
{
    regex::escape(text)
}

/// `regex::Regex::replace_all` with each match replaced by its highlighted
/// form (`colorize_match`). The result depends on how the terminal colours
/// are controlled, so nothing is stated.
#[verifier::external_body]
pub(crate) fn highlight_all(re: &CompiledRegex, text: &str) -> String {
    re.regex.replace_all(text, |caps: &regex::Captures| crate::output::colorize_match(&caps[0], true)).to_string()
}

} // verus!
