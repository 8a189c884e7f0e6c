//! Terminal colours for results, and highlighting of query matches.
//!
//! Colouring is the `colored` crate's; whether it emits escape codes
//! depends on its global control (the environment and terminal), so only
//! the uncoloured forms are stated here.

use vstd::prelude::*;
use crate::regex_engine::{escape_regex, highlight_all, CompiledRegex};
use crate::text::{decimal, decimal_chars, from_chars, split_words, to_chars};

verus! {

/// `colored::Colorize::cyan`, shown with `to_string`.
#[verifier::external_body]
fn paint_cyan(text: &str) -> String {
    colored::Colorize::cyan(text).to_string()
}

/// `colored::Colorize::yellow`, shown with `to_string`.
#[verifier::external_body]
fn paint_yellow(text: &str) -> String {
    colored::Colorize::yellow(text).to_string()
}

/// `colored::Colorize::red` then `bold`, shown with `to_string`.
#[verifier::external_body]
fn paint_red_bold(text: &str) -> String {
    colored::Colorize::bold(colored::Colorize::red(text)).to_string()
}

/// `colored::Colorize::dimmed`, shown with `to_string`.
#[verifier::external_body]
fn paint_dimmed(text: &str) -> String {
    colored::Colorize::dimmed(text).to_string()
}

/// `colored::Colorize::green`, shown with `to_string`.
#[verifier::external_body]
fn paint_green(text: &str) -> String {
    colored::Colorize::green(text).to_string()
}

/// `colored::Colorize::bold`, shown with `to_string`.
#[verifier::external_body]
fn paint_bold(text: &str) -> String {
    colored::Colorize::bold(text).to_string()
}

/// A file path, in cyan when colouring.
pub fn colorize_path(text: &str, use_color: bool) -> (r: String)
    ensures
        !use_color ==> r@ == text@,
{
    if use_color {
        paint_cyan(text)
    } else {
        String::from_str(text)
    }
}

/// A line number, in yellow when colouring.
pub fn colorize_line_num(num: usize, use_color: bool) -> (r: String)
    ensures
        !use_color ==> r@ == decimal(num as nat),
{
    let digits = from_chars(decimal_chars(num).as_slice());
    if use_color {
        paint_yellow(digits.as_str())
    } else {
        digits
    }
}

/// A match, in bold red when colouring.
pub fn colorize_match(text: &str, use_color: bool) -> (r: String)
    ensures
        !use_color ==> r@ == text@,
{
    if use_color {
        paint_red_bold(text)
    } else {
        String::from_str(text)
    }
}

/// A context line, dimmed when colouring.
pub fn colorize_context(text: &str, use_color: bool) -> (r: String)
    ensures
        !use_color ==> r@ == text@,
{
    if use_color {
        paint_dimmed(text)
    } else {
        String::from_str(text)
    }
}

/// A symbol kind, in green when colouring.
pub fn colorize_kind(text: &str, use_color: bool) -> (r: String)
    ensures
        !use_color ==> r@ == text@,
{
    if use_color {
        paint_green(text)
    } else {
        String::from_str(text)
    }
}

/// A symbol name, in bold when colouring.
pub fn colorize_name(text: &str, use_color: bool) -> (r: String)
    ensures
        !use_color ==> r@ == text@,
{
    if use_color {
        paint_bold(text)
    } else {
        String::from_str(text)
    }
}

/// Highlights, case-insensitively, every occurrence of each word of the
/// query; without colour the text is returned as it is.
pub fn highlight_matches(text: &str, query: &str, use_color: bool) -> (r: String)
    ensures
        !use_color ==> r@ == text@,
{
    if !use_color {
        return String::from_str(text);
    }
    let qv = to_chars(query);
    let terms = split_words(qv.as_slice());
    let mut result = String::from_str(text);
    let mut i: usize = 0;
    while i < terms.len()
        invariant
            i <= terms@.len(),
        decreases terms@.len() - i,
    {
        let term = from_chars(terms[i].as_slice());
        let pattern = escape_regex(term.as_str());
        match CompiledRegex::new(pattern.as_str(), true) {
            Some(re) => {
                result = highlight_all(&re, result.as_str());
            },
            None => {},
        }
        i += 1;
    }
    result
}

/// Highlights every match of the search regex; without colour the text is
/// returned as it is.
pub fn highlight_matches_regex(text: &str, re: &CompiledRegex, use_color: bool) -> (r: String)
    ensures
        !use_color ==> r@ == text@,
{
    if !use_color {
        return String::from_str(text);
    }
    highlight_all(re, text)
}

} // verus!
