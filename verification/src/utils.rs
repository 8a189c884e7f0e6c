//! Locating the index: the index directory's name, a directory's parent,
//! and the answer once the nearest directory holding an index is known.
//!
//! Asking the file system whether a directory holds an index is the
//! caller's; the walk goes from the start directory up through its parents.

use vstd::prelude::*;
use crate::paths::{components, components_text, join_path, path_components, path_join, components_to_string};
use crate::text::str_eq;

verus! {

/// Name of the index directory.
pub const INDEX_DIR: &'static str = ".cgrep";

/// Where an index was found.
#[derive(Debug, Clone)]
pub struct IndexRoot {
    /// Directory holding the index directory.
    pub root: String,
    /// The index directory.
    pub index_path: String,
    /// Whether it is above the start directory.
    pub is_parent: bool,
}

/// The parent of a path, by its components: none for an empty path or a
/// lone root.
pub open spec fn parent_of(path: Seq<char>) -> Option<Seq<char>> {
    let cs = components(path);
    if cs.len() == 0 || (cs.len() == 1 && cs[0] == seq!['/']) {
        None
    } else {
        Some(components_text(cs.drop_last()))
    }
}

/// The parent directory of a path (the next directory of the upward walk).
pub fn parent_dir(path: &str) -> (r: Option<String>)
    ensures
        match r {
            Some(p) => parent_of(path@) == Some(p@),
            None => parent_of(path@) is None,
        },
{
    let mut cs = path_components(path);
    let ghost all = cs@.map_values(|c: Vec<char>| c@);
    if cs.len() == 0 {
        return None;
    }
    if cs.len() == 1 && cs[0].len() == 1 && cs[0][0] == '/' {
        assert(all[0] =~= seq!['/']);
        return None;
    }
    proof {
        if all.len() == 1 {
            assert(all[0] != seq!['/']) by {
                if all[0] == seq!['/'] {
                    assert(cs@[0]@.len() == 1 && cs@[0]@[0] == '/');
                }
            }
        }
    }
    cs.pop();
    assert(cs@.map_values(|c: Vec<char>| c@) =~= all.drop_last());
    Some(components_to_string(&cs))
}

/// The answer for an index found in `current` while walking up from `original`.
pub fn index_root_at(current: &str, original: &str) -> (r: IndexRoot)
    ensures
        r.root@ == current@,
        r.index_path@ == path_join(current@, ".cgrep"@),
        r.is_parent == (current@ != original@),
{
    IndexRoot {
        root: String::from_str(current),
        index_path: join_path(current, INDEX_DIR),
        is_parent: !str_eq(current, original),
    }
}

/// The first directory of the walk that holds an index: `dirs` are the
/// start and its successive parents, `has_index[k]` whether `dirs[k]`
/// holds an index directory.
pub fn find_index_root(dirs: &[String], has_index: &[bool]) -> (r: Option<IndexRoot>)
    requires
        dirs@.len() == has_index@.len(),
    ensures
        match r {
            Some(ir) => exists|k: int| 0 <= k < dirs@.len() && #[trigger] has_index@[k]
                && (forall|m: int| 0 <= m < k ==> !has_index@[m])
                && ir.root@ == dirs@[k]@ && ir.index_path@ == path_join(dirs@[k]@, ".cgrep"@)
                && ir.is_parent == (dirs@[k]@ != dirs@[0]@),
            None => forall|k: int| 0 <= k < has_index@.len() ==> !has_index@[k],
        },
{
    let mut k: usize = 0;
    while k < dirs.len()
        invariant
            k <= dirs@.len() == has_index@.len(),
            forall|m: int| 0 <= m < k ==> !has_index@[m],
        decreases dirs@.len() - k,
    {
        if has_index[k] {
            let ir = index_root_at(dirs[k].as_str(), dirs[0].as_str());
            assert(has_index@[k as int]);
            return Some(ir);
        }
        k += 1;
    }
    None
}

/// The index directory for `path`: the one found above it, else its own.
pub fn get_index_path(path: &str, found: Option<IndexRoot>) -> (r: String)
    ensures
        match found {
            Some(ir) => r@ == ir.index_path@,
            None => r@ == path_join(path@, ".cgrep"@),
        },
{
    match found {
        Some(ir) => ir.index_path,
        None => join_path(path, INDEX_DIR),
    }
}

/// The directory holding the index for `path`: the one found, else `path`.
pub fn get_root_with_index(path: &str, found: Option<IndexRoot>) -> (r: String)
    ensures
        match found {
            Some(ir) => r@ == ir.root@,
            None => r@ == path@,
        },
{
    match found {
        Some(ir) => ir.root,
        None => String::from_str(path),
    }
}

} // verus!
