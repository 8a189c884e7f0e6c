//! Content hashes and stable identifiers built on BLAKE3.

use vstd::prelude::*;
use vstd::utf8::encode_utf8;
use crate::text::{decimal, decimal_chars, hex, hex_chars, lemma_hex_len, push_chars, push_char, push_str};

verus! {

/// The 32-byte BLAKE3 digest of `data`.
pub uninterp spec fn blake3_digest(data: Seq<u8>) -> Seq<u8>;

/// `blake3::hash`: the digest's bytes are named `blake3_digest` of the input.
#[verifier::external_body]
fn blake3_hash_bytes(data: &[u8]) -> (r: [u8; 32])
    ensures
        r@ == blake3_digest(data@),
{
    *blake3::hash(data).as_bytes()
}

/// Lower-case hex of the BLAKE3 digest of `data` (what `Hash::to_hex` gives).
pub open spec fn blake3_hex(data: Seq<u8>) -> Seq<char> {
    hex(blake3_digest(data))
}

/// The hex digest of `data`, 64 characters.
pub fn hash_hex(data: &[u8]) -> (r: String)
    ensures
        r@ == blake3_hex(data@),
        r@.len() == 64,
{
    let digest = blake3_hash_bytes(data);
    let h = hex_chars(&digest);
    proof {
        lemma_hex_len(digest@);
    }
    crate::text::from_chars(h.as_slice())
}

/// The first `n` characters of the hex digest of `data`.
pub fn hash_hex_prefix(data: &[u8], n: usize) -> (r: String)
    requires
        n <= 64,
    ensures
        r@ == blake3_hex(data@).take(n as int),
        blake3_digest(data@).len() == 32,
{
    let digest = blake3_hash_bytes(data);
    let h = hex_chars(&digest);
    proof {
        lemma_hex_len(digest@);
    }
    let mut r = String::new();
    let mut i: usize = 0;
    while i < n
        invariant
            i <= n <= h@.len(),
            r@ == h@.take(i as int),
        decreases n - i,
    {
        push_char(&mut r, h[i]);
        assert(h@.take(i + 1) =~= h@.take(i as int).push(h@[i as int]));
        i += 1;
    }
    r
}

/// `path:line:snippet`, the text a result id is derived from.
pub open spec fn result_id_input(path: Seq<char>, line: Seq<char>, snippet: Seq<char>) -> Seq<char> {
    path + seq![':'] + line + seq![':'] + snippet
}

/// Stable id of a located line: the first 16 hex digits of the BLAKE3 hash
/// of `path:line:snippet`.
pub open spec fn spec_stable_result_id(path: Seq<char>, line: nat, snippet: Seq<char>) -> Seq<char> {
    blake3_hex(encode_utf8(result_id_input(path, decimal(line), snippet))).take(16)
}

/// Stable 16-hex-digit id of a result at `path`, `line` with `snippet`.
pub fn stable_result_id(path: &str, line: usize, snippet: &str) -> (r: String)
    ensures
        r@ == spec_stable_result_id(path@, line as nat, snippet@),
        r@.len() == 16,
{
    let mut input = String::new();
    push_str(&mut input, path);
    push_char(&mut input, ':');
    push_chars(&mut input, decimal_chars(line).as_slice());
    push_char(&mut input, ':');
    push_str(&mut input, snippet);
    assert(input@ =~= result_id_input(path@, decimal(line as nat), snippet@));
    let r = hash_hex_prefix(input.as_str().as_bytes(), 16);
    proof {
        lemma_hex_len(blake3_digest(encode_utf8(input@)));
    }
    r
}

/// Id of a hybrid result: like `stable_result_id`, with an empty line field
/// when the line is unknown.
pub open spec fn spec_generate_result_id(path: Seq<char>, line: Option<usize>, snippet: Seq<char>) -> Seq<char> {
    let l = match line {
        Some(n) => decimal(n as nat),
        None => Seq::<char>::empty(),
    };
    blake3_hex(encode_utf8(result_id_input(path, l, snippet))).take(16)
}

/// Stable id of a hybrid search result.
pub fn generate_result_id(path: &str, line: Option<usize>, snippet: &str) -> (r: String)
    ensures
        r@ == spec_generate_result_id(path@, line, snippet@),
        r@.len() == 16,
{
    let mut input = String::new();
    push_str(&mut input, path);
    push_char(&mut input, ':');
    let ghost l = match line {
        Some(n) => decimal(n as nat),
        None => Seq::<char>::empty(),
    };
    match line {
        Some(n) => push_chars(&mut input, decimal_chars(n).as_slice()),
        None => {},
    }
    push_char(&mut input, ':');
    push_str(&mut input, snippet);
    assert(input@ =~= result_id_input(path@, l, snippet@));
    let r = hash_hex_prefix(input.as_str().as_bytes(), 16);
    proof {
        lemma_hex_len(blake3_digest(encode_utf8(input@)));
    }
    r
}

/// A line's stable id (as `agent expand` computes it) is the id a search
/// result for the same path, line and snippet gets.
pub proof fn law_result_ids_agree(path: Seq<char>, line: nat, snippet: Seq<char>)
    requires
        line <= usize::MAX,
    ensures
        spec_stable_result_id(path, line, snippet) == spec_generate_result_id(path, Some(line as usize), snippet),
{
}

} // verus!
