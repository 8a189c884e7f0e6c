//! How agent instruction files are edited: a block is appended only when
//! it is not already there, and removing it cleans up what is left.

use vstd::prelude::*;
use crate::text::{contains, join, lines, lowercase, replace_all, replace_str, split_lines, str_contains, to_chars,
    to_lowercase, join_lines, trim, trim_string};

verus! {

/// Whether `content` is already in `existing`, whole or trimmed.
pub open spec fn block_present(existing: Seq<char>, content: Seq<char>) -> bool {
    contains(existing, content) || contains(existing, trim(content))
}

/// Whether appending `content` to a file holding `existing` is needless.
pub fn already_present(existing: &str, content: &str) -> (b: bool)
    ensures
        b == block_present(existing@, content@),
{
    if str_contains(existing, content) {
        return true;
    }
    let t = trim_string(content);
    str_contains(existing, t.as_str())
}

/// `content` with every occurrence of the trimmed `block` taken out.
pub open spec fn block_removed(content: Seq<char>, block: Seq<char>) -> Seq<char> {
    let b = trim(block);
    if b.len() == 0 {
        content
    } else {
        replace_all(content, b, seq![])
    }
}

/// What is left of a file once `block` is removed: the remaining lines,
/// joined with `\n` and trimmed.
pub open spec fn cleaned_without(content: Seq<char>, block: Seq<char>) -> Seq<char> {
    trim(join(lines(block_removed(content, block)), seq!['\n']))
}

/// Removes `block` from a file's `content`: `None` when the trimmed block
/// is not in it; otherwise what is left (empty when nothing is).
pub fn without_block(content: &str, block: &str) -> (r: Option<String>)
    ensures
        r is Some <==> contains(content@, trim(block@)),
        r matches Some(c) ==> c@ == cleaned_without(content@, block@),
{
    let b = trim_string(block);
    if !str_contains(content, b.as_str()) {
        return None;
    }
    let removed = if b.as_str().is_empty() {
        proof {
            assert(b@.len() == 0);
        }
        String::from_str(content)
    } else {
        proof {
            assert(b@.len() > 0);
        }
        replace_str(content, b.as_str(), "")
    };
    assert(removed@ == block_removed(content@, block@)) by {
        if b@.len() > 0 {
            reveal_strlit("");
            assert(""@ =~= Seq::<char>::empty());
        }
    }
    let rv = to_chars(removed.as_str());
    let ls = split_lines(rv.as_slice());
    let joined = join_lines(&ls, 0, ls.len());
    assert(ls@.map_values(|l: Vec<char>| l@).subrange(0, ls@.len() as int) =~= lines(removed@));
    Some(trim_string(joined.as_str()))
}

/// The name an agent goes by in the uninstall hint: lower case, with
/// spaces turned into `-`.
pub open spec fn agent_slug(agent: Seq<char>) -> Seq<char> {
    replace_all(lowercase(agent), seq![' '], seq!['-'])
}

/// Computes `agent_slug`.
pub fn slug_of(agent: &str) -> (r: String)
    ensures
        r@ == agent_slug(agent@),
{
    let l = to_lowercase(agent);
    proof {
        reveal_strlit(" ");
        reveal_strlit("-");
    }
    assert(" "@ =~= seq![' ']);
    assert("-"@ =~= seq!['-']);
    replace_str(l.as_str(), " ", "-")
}

} // verus!
