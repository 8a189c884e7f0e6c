//! The search result cache: the key a search is cached under (its JSON text
//! and hash), when an entry is still fresh, and where entries live.
//!
//! Reading and writing cache files is the caller's.

use vstd::prelude::*;
use crate::hashing::{blake3_hex, hash_hex_prefix};
use crate::paths::{path_join, join_path};
use crate::text::{decimal, decimal_chars, hex_char, hex_digit, push_char, push_chars, push_str, to_chars};
use vstd::utf8::encode_utf8;

verus! {

/// What a search is cached under.
#[derive(Debug, Clone)]
pub struct CacheKey {
    pub query: String,
    /// Search mode (keyword, semantic, hybrid).
    pub mode: String,
    pub max_results: usize,
    /// Context lines.
    pub context: usize,
    pub file_type: Option<String>,
    pub glob: Option<String>,
    pub exclude: Option<String>,
    pub profile: Option<String>,
    pub index_hash: Option<String>,
    pub embedding_model: Option<String>,
    pub search_root: Option<String>,
}

/// A character as written inside a JSON string: quote, backslash and the
/// control characters are escaped (the short forms where JSON has them,
/// else `\u00` and two lower-case hex digits).
pub open spec fn json_escape_char(c: char) -> Seq<char> {
    if c == '"' {
        seq!['\\', '"']
    } else if c == '\\' {
        seq!['\\', '\\']
    } else if c == '\u{8}' {
        seq!['\\', 'b']
    } else if c == '\t' {
        seq!['\\', 't']
    } else if c == '\n' {
        seq!['\\', 'n']
    } else if c == '\u{c}' {
        seq!['\\', 'f']
    } else if c == '\r' {
        seq!['\\', 'r']
    } else if (c as u32) < 0x20 {
        seq!['\\', 'u', '0', '0', hex_digit(((c as u32) / 16) as nat), hex_digit(((c as u32) % 16) as nat)]
    } else {
        seq![c]
    }
}

/// A text escaped for a JSON string.
pub open spec fn json_escape(s: Seq<char>) -> Seq<char>
    decreases s.len(),
{
    if s.len() == 0 {
        seq![]
    } else {
        json_escape(s.drop_last()) + json_escape_char(s.last())
    }
}

/// A JSON string literal.
pub open spec fn json_str(s: Seq<char>) -> Seq<char> {
    seq!['"'] + json_escape(s) + seq!['"']
}

/// A JSON string or `null`.
pub open spec fn json_opt(s: Option<String>) -> Seq<char> {
    match s {
        Some(t) => json_str(t@),
        None => "null"@,
    }
}

/// `"name":` in JSON.
pub open spec fn json_field(name: Seq<char>) -> Seq<char> {
    json_str(name) + seq![':']
}

/// The compact JSON object of a key, fields in declaration order.
pub open spec fn key_json(k: CacheKey) -> Seq<char> {
    seq!['{']
        + json_field("query"@) + json_str(k.query@) + seq![',']
        + json_field("mode"@) + json_str(k.mode@) + seq![',']
        + json_field("max_results"@) + decimal(k.max_results as nat) + seq![',']
        + json_field("context"@) + decimal(k.context as nat) + seq![',']
        + json_field("file_type"@) + json_opt(k.file_type) + seq![',']
        + json_field("glob"@) + json_opt(k.glob) + seq![',']
        + json_field("exclude"@) + json_opt(k.exclude) + seq![',']
        + json_field("profile"@) + json_opt(k.profile) + seq![',']
        + json_field("index_hash"@) + json_opt(k.index_hash) + seq![',']
        + json_field("embedding_model"@) + json_opt(k.embedding_model) + seq![',']
        + json_field("search_root"@) + json_opt(k.search_root)
        + seq!['}']
}

/// Appends one escaped character.
fn push_escaped_char(out: &mut String, c: char)
    ensures
        final(out)@ == old(out)@ + json_escape_char(c),
{
    if c == '"' {
        push_char(out, '\\');
        push_char(out, '"');
    } else if c == '\\' {
        push_char(out, '\\');
        push_char(out, '\\');
    } else if c == '\u{8}' {
        push_char(out, '\\');
        push_char(out, 'b');
    } else if c == '\t' {
        push_char(out, '\\');
        push_char(out, 't');
    } else if c == '\n' {
        push_char(out, '\\');
        push_char(out, 'n');
    } else if c == '\u{c}' {
        push_char(out, '\\');
        push_char(out, 'f');
    } else if c == '\r' {
        push_char(out, '\\');
        push_char(out, 'r');
    } else if (c as u32) < 0x20 {
        let v = c as u32;
        push_char(out, '\\');
        push_char(out, 'u');
        push_char(out, '0');
        push_char(out, '0');
        push_char(out, hex_char((v / 16) as u8));
        push_char(out, hex_char((v % 16) as u8));
    } else {
        push_char(out, c);
    }
}

/// Appends a JSON string literal.
fn push_json_str(out: &mut String, s: &str)
    ensures
        final(out)@ == old(out)@ + json_str(s@),
{
    let cv = to_chars(s);
    let ghost start = out@;
    push_char(out, '"');
    let mut i: usize = 0;
    while i < cv.len()
        invariant
            i <= cv@.len(),
            cv@ == s@,
            out@ == start + seq!['"'] + json_escape(cv@.take(i as int)),
        decreases cv@.len() - i,
    {
        push_escaped_char(out, cv[i]);
        assert(cv@.take(i + 1).drop_last() =~= cv@.take(i as int));
        assert(out@ =~= start + seq!['"'] + json_escape(cv@.take(i + 1)));
        i += 1;
    }
    assert(cv@.take(cv@.len() as int) =~= cv@);
    push_char(out, '"');
}

/// Appends a JSON string or `null`.
fn push_json_opt(out: &mut String, s: &Option<String>)
    ensures
        final(out)@ == old(out)@ + json_opt(*s),
{
    match s {
        Some(t) => push_json_str(out, t.as_str()),
        None => push_str(out, "null"),
    }
}

/// Appends one character.
fn push_one(out: &mut String, c: char)
    ensures
        final(out)@ == old(out)@ + seq![c],
{
    push_char(out, c);
    assert(old(out)@.push(c) =~= old(out)@ + seq![c]);
}

/// Appends `"name":`.
fn push_field(out: &mut String, name: &str)
    ensures
        final(out)@ == old(out)@ + json_field(name@),
{
    push_json_str(out, name);
    push_char(out, ':');
}

impl CacheKey {
    /// The key as compact JSON.
    pub fn to_json(&self) -> (r: String)
        ensures
            r@ == key_json(*self),
    {
        let mut o = String::new();
        assert(o@ + seq!['{'] =~= seq!['{']);
        push_one(&mut o, '{');
        push_field(&mut o, "query");
        push_json_str(&mut o, self.query.as_str());
        push_one(&mut o, ',');
        push_field(&mut o, "mode");
        push_json_str(&mut o, self.mode.as_str());
        push_one(&mut o, ',');
        push_field(&mut o, "max_results");
        push_chars(&mut o, decimal_chars(self.max_results).as_slice());
        push_one(&mut o, ',');
        push_field(&mut o, "context");
        push_chars(&mut o, decimal_chars(self.context).as_slice());
        push_one(&mut o, ',');
        push_field(&mut o, "file_type");
        push_json_opt(&mut o, &self.file_type);
        push_one(&mut o, ',');
        push_field(&mut o, "glob");
        push_json_opt(&mut o, &self.glob);
        push_one(&mut o, ',');
        push_field(&mut o, "exclude");
        push_json_opt(&mut o, &self.exclude);
        push_one(&mut o, ',');
        push_field(&mut o, "profile");
        push_json_opt(&mut o, &self.profile);
        push_one(&mut o, ',');
        push_field(&mut o, "index_hash");
        push_json_opt(&mut o, &self.index_hash);
        push_one(&mut o, ',');
        push_field(&mut o, "embedding_model");
        push_json_opt(&mut o, &self.embedding_model);
        push_one(&mut o, ',');
        push_field(&mut o, "search_root");
        push_json_opt(&mut o, &self.search_root);
        push_one(&mut o, '}');
        assert(o@ == key_json(*self));
        o
    }

    /// The first 32 hex digits of the BLAKE3 hash of the key's JSON.
    pub fn hash(&self) -> (r: String)
        ensures
            r@ == blake3_hex(encode_utf8(key_json(*self))).take(32),
    {
        let json = self.to_json();
        hash_hex_prefix(json.as_str().as_bytes(), 32)
    }
}

/// `SystemTime::now()` since the Unix epoch, in milliseconds (zero before
/// the epoch). It is the clock's reading, so nothing is stated.
#[verifier::external_body]
fn now_millis() -> u64 {
    std::time::SystemTime::now().duration_since(std::time::UNIX_EPOCH).unwrap_or_default().as_millis() as u64
}

/// A cached result.
#[derive(Debug, Clone)]
pub struct CacheEntry<T> {
    pub data: T,
    /// When the entry was made, in Unix milliseconds.
    pub created_at: u64,
    /// Hash of the key the entry was stored under.
    pub key_hash: String,
    /// Search mode of the key.
    pub mode: String,
}

/// Age of an entry made at `created` when the clock reads `now` (zero for
/// an entry from the future).
pub open spec fn age_at(created: u64, now: u64) -> u64 {
    if now >= created { (now - created) as u64 } else { 0 }
}

impl<T> CacheEntry<T> {
    /// An entry for `data` under `key`, made at `now`.
    pub fn new_at(data: T, key: &CacheKey, now: u64) -> (e: CacheEntry<T>)
        ensures
            e.data == data,
            e.created_at == now,
            e.key_hash@ == blake3_hex(encode_utf8(key_json(*key))).take(32),
            e.mode@ == key.mode@,
    {
        CacheEntry { data, created_at: now, key_hash: key.hash(), mode: key.mode.clone() }
    }

    /// An entry for `data` under `key`, made now.
    pub fn new(data: T, key: &CacheKey) -> (e: CacheEntry<T>)
        ensures
            e.data == data,
            e.key_hash@ == blake3_hex(encode_utf8(key_json(*key))).take(32),
            e.mode@ == key.mode@,
    {
        let now = now_millis();
        CacheEntry::new_at(data, key, now)
    }

    /// Whether the entry is younger than `ttl_ms` when the clock reads `now`.
    pub fn is_valid_at(&self, ttl_ms: u64, now: u64) -> (b: bool)
        ensures
            b == (age_at(self.created_at, now) < ttl_ms),
    {
        now.saturating_sub(self.created_at) < ttl_ms
    }

    /// Whether the entry is younger than `ttl_ms` now.
    pub fn is_valid(&self, ttl_ms: u64) -> (b: bool)
        ensures
            exists|now: u64| b == (#[trigger] age_at(self.created_at, now) < ttl_ms),
    {
        let now = now_millis();
        let b = self.is_valid_at(ttl_ms, now);
        assert(b == (age_at(self.created_at, now) < ttl_ms));
        b
    }

    /// The entry's age when the clock reads `now`.
    pub fn age_at_time(&self, now: u64) -> (a: u64)
        ensures
            a == age_at(self.created_at, now),
    {
        now.saturating_sub(self.created_at)
    }

    /// The entry's age now.
    pub fn age_ms(&self) -> (a: u64)
        ensures
            exists|now: u64| a == #[trigger] age_at(self.created_at, now),
    {
        let now = now_millis();
        let a = self.age_at_time(now);
        assert(a == age_at(self.created_at, now));
        a
    }
}

/// What a stored entry is good for.
#[derive(Debug, Clone, Copy, PartialEq, Eq, Structural)]
pub enum CacheLookup {
    /// Too old: remove it and miss.
    Expired,
    /// Stored under another key: miss.
    Mismatch,
    /// Use it.
    Hit,
}

/// What a lookup makes of an entry created at `created` under `entry_hash`,
/// for a key hashing to `key_hash`.
pub open spec fn lookup_result(created: u64, entry_hash: Seq<char>, key_hash: Seq<char>, ttl_ms: u64, now: u64) -> CacheLookup {
    if !(age_at(created, now) < ttl_ms) {
        CacheLookup::Expired
    } else if entry_hash != key_hash {
        CacheLookup::Mismatch
    } else {
        CacheLookup::Hit
    }
}

/// Judges a stored entry: expired entries are removed, entries of another
/// key are ignored, the rest are used.
pub fn judge_entry<T>(entry: &CacheEntry<T>, key_hash: &str, ttl_ms: u64, now: u64) -> (l: CacheLookup)
    ensures
        l == lookup_result(entry.created_at, entry.key_hash@, key_hash@, ttl_ms, now),
{
    if !entry.is_valid_at(ttl_ms, now) {
        CacheLookup::Expired
    } else if !crate::text::str_eq(entry.key_hash.as_str(), key_hash) {
        CacheLookup::Mismatch
    } else {
        CacheLookup::Hit
    }
}

/// An entry stored for a key is found again for that key while it is
/// younger than the time to live, and is expired from then on.
pub proof fn law_stored_entry_found(key: CacheKey, created: u64, ttl_ms: u64, now: u64)
    requires
        created <= now,
    ensures
        ({
            let h = blake3_hex(encode_utf8(key_json(key))).take(32);
            lookup_result(created, h, h, ttl_ms, now) == if now - created < ttl_ms {
                CacheLookup::Hit
            } else {
                CacheLookup::Expired
            }
        }),
{
}

/// The cache of a repository.
#[derive(Debug, Clone)]
pub struct SearchCache {
    /// Directory holding the entries.
    pub cache_dir: String,
    /// Time to live in milliseconds.
    pub ttl_ms: u64,
}

/// Where a repository's cache entries live.
pub open spec fn cache_dir_of(root: Seq<char>) -> Seq<char> {
    path_join(path_join(path_join(root, ".cgrep"@), "cache"@), "search"@)
}

impl SearchCache {
    /// Ten minutes.
    pub const DEFAULT_TTL_MS: u64 = 600_000;

    /// The cache of the repository at `repo_root` (the caller creates its
    /// directory).
    pub fn at(repo_root: &str, ttl_ms: u64) -> (c: SearchCache)
        ensures
            c.cache_dir@ == cache_dir_of(repo_root@),
            c.ttl_ms == ttl_ms,
    {
        let a = join_path(repo_root, ".cgrep");
        let b = join_path(a.as_str(), "cache");
        let d = join_path(b.as_str(), "search");
        SearchCache { cache_dir: d, ttl_ms }
    }

    /// The cache of the repository at `repo_root` with the default time to live.
    pub fn with_default_ttl(repo_root: &str) -> (c: SearchCache)
        ensures
            c.cache_dir@ == cache_dir_of(repo_root@),
            c.ttl_ms == 600_000,
    {
        SearchCache::at(repo_root, SearchCache::DEFAULT_TTL_MS)
    }

    /// The file of the entry for `key`: its hash with `.json`, in the cache directory.
    pub fn cache_path(&self, key: &CacheKey) -> (p: String)
        ensures
            p@ == path_join(self.cache_dir@, blake3_hex(encode_utf8(key_json(*key))).take(32) + ".json"@),
    {
        let mut name = key.hash();
        push_str(&mut name, ".json");
        join_path(self.cache_dir.as_str(), name.as_str())
    }

    /// Whether a file in the cache directory holds an entry.
    pub fn is_entry_file(path: &str) -> (b: bool)
        ensures
            b == (crate::filters::extension(path@) == Some("json"@)),
    {
        match crate::filters::path_extension(path) {
            Some(e) => crate::text::str_eq(e.as_str(), "json"),
            None => false,
        }
    }

    /// Whether an entry file this old has expired.
    pub fn is_expired_age(&self, age_ms: u64) -> (b: bool)
        ensures
            b == (age_ms > self.ttl_ms),
    {
        age_ms > self.ttl_ms
    }
}

/// Cache statistics.
#[derive(Debug, Clone, Copy)]
pub struct CacheStats {
    pub total_entries: usize,
    pub expired_entries: usize,
    /// Size of all entries in bytes.
    pub total_bytes: u64,
}

} // verus!
