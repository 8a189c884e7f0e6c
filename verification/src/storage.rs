//! Rules of the embedding store: how a file's stale symbols are removed,
//! when stored vectors are out of date, and which kind of store is
//! current. The SQL itself runs in the caller.

use vstd::prelude::*;
use crate::text::{decimal, decimal_chars, join, push_char, push_chars, push_str, str_eq};

verus! {

/// Most ids bound as parameters of one statement.
pub const MAX_BOUND_IDS: usize = 900;

/// How the symbols of a file that are no longer present are removed.
#[derive(Debug, Clone, Copy, PartialEq, Eq, Structural)]
pub enum StaleSymbolRemoval {
    /// The file has no symbols left: remove all of its rows.
    DeleteAll,
    /// Remove rows whose id is not among the bound parameters.
    BoundIds,
    /// Remove rows whose id is not in a temporary table of the ids.
    TempTable,
}

/// Chooses how stale symbols are removed for a file with `ids` symbols.
pub fn stale_symbol_removal(ids: usize) -> (r: StaleSymbolRemoval)
    ensures
        r == if ids == 0 {
            StaleSymbolRemoval::DeleteAll
        } else if ids <= 900 {
            StaleSymbolRemoval::BoundIds
        } else {
            StaleSymbolRemoval::TempTable
        },
{
    if ids == 0 {
        StaleSymbolRemoval::DeleteAll
    } else if ids <= MAX_BOUND_IDS {
        StaleSymbolRemoval::BoundIds
    } else {
        StaleSymbolRemoval::TempTable
    }
}

/// `?2, ?3, …` up to the `n`th id (parameter 1 is the path).
pub open spec fn placeholders(n: nat) -> Seq<Seq<char>>
    decreases n,
{
    if n == 0 {
        seq![]
    } else {
        placeholders((n - 1) as nat).push(seq!['?'] + decimal(n + 1))
    }
}

/// The statement removing a file's rows whose id is not among `n` bound ids.
pub open spec fn delete_stale_sql(n: nat) -> Seq<char> {
    "DELETE FROM symbol_embeddings WHERE path = ?1 AND symbol_id NOT IN ("@ + join(placeholders(n), seq![',', ' ']) + seq![')']
}

/// Builds the statement removing a file's rows whose id is not among `n`
/// bound ids.
pub fn delete_stale_query(n: usize) -> (q: String)
    requires
        n < usize::MAX,
    ensures
        q@ == delete_stale_sql(n as nat),
{
    let mut q = String::new();
    push_str(&mut q, "DELETE FROM symbol_embeddings WHERE path = ?1 AND symbol_id NOT IN (");
    let ghost head = q@;
    let mut i: usize = 0;
    while i < n
        invariant
            i <= n < usize::MAX,
            q@ == head + join(placeholders(i as nat), seq![',', ' ']),
        decreases n - i,
    {
        let ghost prev = q@;
        if i > 0 {
            push_char(&mut q, ',');
            push_char(&mut q, ' ');
        }
        push_char(&mut q, '?');
        push_chars(&mut q, decimal_chars(i + 2).as_slice());
        proof {
            let ps = placeholders((i + 1) as nat);
            assert(ps.drop_last() =~= placeholders(i as nat));
            assert(ps.last() == seq!['?'] + decimal((i + 2) as nat));
            if i > 0 {
                assert(q@ =~= head + (join(placeholders(i as nat), seq![',', ' ']) + seq![',', ' '] + ps.last()));
            } else {
                assert(placeholders(0) =~= Seq::<Seq<char>>::empty());
                assert(ps.len() == 1);
                assert(q@ =~= head + ps[0]);
            }
        }
        i += 1;
    }
    push_char(&mut q, ')');
    assert(q@ =~= delete_stale_sql(n as nat));
    q
}

/// Whether a file's stored vectors are out of date: the stored hash is
/// missing or differs.
pub fn hash_is_stale(stored: Option<&str>, current: &str) -> (b: bool)
    ensures
        b == match stored {
            Some(s) => s@ != current@,
            None => true,
        },
{
    match stored {
        Some(s) => !str_eq(s, current),
        None => true,
    }
}

/// Whether the store's `unit` setting says it holds symbol vectors.
pub fn is_symbol_unit(unit: Option<&str>) -> (b: bool)
    ensures
        b == match unit {
            Some(u) => u@ == "symbol"@,
            None => false,
        },
{
    match unit {
        Some(u) => str_eq(u, "symbol"),
        None => false,
    }
}

/// A symbol count as stored (`as u32`).
pub fn stored_count(n: usize) -> (r: u32)
    ensures
        r == n as u32,
{
    #[verifier::truncate]
    (n as u32)
}

} // verus!
