//! What incremental indexing does with each file: when a file may be
//! skipped without reading it, what its metadata becomes, and which index
//! documents it yields (its text documents, then one per symbol).

use vstd::prelude::*;
use vstd::utf8::encode_utf8;
use crate::hashing::{blake3_hex, hash_hex};
use crate::index_chunks::{join_chunks, DocChunk, ReadOutcome};
use crate::scanner::{language_of_path, path_language};
use crate::symbols::{kind_name, Symbol, SymbolExtractor, SymbolView};
use crate::syntax_tree::symbols_or_empty;
use crate::text::{truncate_to_chars, truncated, decimal, decimal_chars, join, join_lines, lines, push_char, push_chars, push_str, split_lines, str_eq, to_chars};

verus! {

/// Per-file metadata kept between index runs.
#[derive(Debug, Clone)]
pub struct FileMetadata {
    /// Modification time in nanoseconds.
    pub mtime: u64,
    /// Size in bytes.
    pub size: u64,
    /// Hex hash of the content (empty when unknown).
    pub hash: String,
    /// Space-separated symbol names.
    pub symbols: String,
    /// Whether the file was found to be binary.
    pub is_binary: bool,
}

/// mtime, size, hash, symbols, binary flag.
pub type MetaView = (u64, u64, Seq<char>, Seq<char>, bool);

impl View for FileMetadata {
    type V = MetaView;

    open spec fn view(&self) -> MetaView {
        (self.mtime, self.size, self.hash@, self.symbols@, self.is_binary)
    }
}

impl FileMetadata {
    /// A field-by-field copy.
    pub fn copied(&self) -> (m: FileMetadata)
        ensures
            m@ == self@,
    {
        FileMetadata {
            mtime: self.mtime,
            size: self.size,
            hash: self.hash.clone(),
            symbols: self.symbols.clone(),
            is_binary: self.is_binary,
        }
    }

    /// Metadata of the old format, which recorded only the modification
    /// time in seconds (converted to nanoseconds, saturating).
    pub fn legacy(mtime_secs: u64) -> (m: FileMetadata)
        ensures
            m@ == ((if mtime_secs * 1_000_000_000 <= u64::MAX { (mtime_secs * 1_000_000_000) as u64 } else { u64::MAX }),
                0u64, Seq::<char>::empty(), Seq::<char>::empty(), false),
    {
        let mtime = match mtime_secs.checked_mul(1_000_000_000) {
            Some(v) => v,
            None => u64::MAX,
        };
        FileMetadata { mtime, size: 0, hash: String::new(), symbols: String::new(), is_binary: false }
    }
}

impl Default for FileMetadata {
    fn default() -> (m: FileMetadata)
        ensures
            m@ == (0u64, 0u64, Seq::<char>::empty(), Seq::<char>::empty(), false),
    {
        FileMetadata { mtime: 0, size: 0, hash: String::new(), symbols: String::new(), is_binary: false }
    }
}

/// The metadata kept without reading the file, if it may be skipped:
/// never when forced; otherwise when the file was seen with the same
/// modification time and size, and was binary or had a known hash.
pub open spec fn skip_meta(existing: Option<MetaView>, mtime: u64, size: u64, force: bool) -> Option<MetaView> {
    if force {
        None
    } else {
        match existing {
            None => None,
            Some(m) => if (m.4 && m.0 == mtime && m.1 == size) || (m.2.len() > 0 && m.0 == mtime && m.1 == size) {
                Some(m)
            } else {
                None
            },
        }
    }
}

/// View of an optional metadata reference.
pub open spec fn opt_meta(m: Option<&FileMetadata>) -> Option<MetaView> {
    match m {
        Some(x) => Some(x@),
        None => None,
    }
}

/// Decides whether a file may be skipped without reading it.
pub fn should_skip_without_read(existing_meta: Option<&FileMetadata>, mtime: u64, size: u64, force: bool) -> (r: Option<FileMetadata>)
    ensures
        match r {
            Some(m) => skip_meta(opt_meta(existing_meta), mtime, size, force) == Some(m@),
            None => skip_meta(opt_meta(existing_meta), mtime, size, force) is None,
        },
{
    if force {
        return None;
    }
    let meta = match existing_meta {
        Some(m) => m,
        None => return None,
    };
    if meta.is_binary && meta.mtime == mtime && meta.size == size {
        return Some(meta.copied());
    }
    if !meta.hash.as_str().is_empty() && meta.mtime == mtime && meta.size == size {
        return Some(meta.copied());
    }
    None
}

/// The paths of `old` that are not in `current`, in order.
pub open spec fn removed(old: Seq<Seq<char>>, current: Seq<Seq<char>>) -> Seq<Seq<char>>
    decreases old.len(),
{
    if old.len() == 0 {
        seq![]
    } else {
        let prev = removed(old.drop_last(), current);
        if current.contains(old.last()) {
            prev
        } else {
            prev.push(old.last())
        }
    }
}

/// Views of a list of strings.
pub open spec fn str_views(v: Seq<String>) -> Seq<Seq<char>> {
    v.map_values(|s: String| s@)
}

/// Whether `p` is one of `v`.
fn contains_string(v: &[String], p: &str) -> (b: bool)
    ensures
        b == str_views(v@).contains(p@),
{
    let mut i: usize = 0;
    while i < v.len()
        invariant
            i <= v@.len(),
            forall|k: int| 0 <= k < i ==> v@[k]@ != p@,
        decreases v@.len() - i,
    {
        if str_eq(v[i].as_str(), p) {
            assert(str_views(v@)[i as int] == p@);
            return true;
        }
        i += 1;
    }
    assert(!str_views(v@).contains(p@)) by {
        if str_views(v@).contains(p@) {
            let k = choose|k: int| 0 <= k < str_views(v@).len() && str_views(v@)[k] == p@;
            assert(v@[k]@ == p@);
        }
    }
    false
}

/// Paths indexed before that the walk no longer finds.
pub fn removed_paths(old: &[String], current: &[String]) -> (r: Vec<String>)
    ensures
        str_views(r@) == removed(str_views(old@), str_views(current@)),
{
    let mut out: Vec<String> = Vec::new();
    let mut i: usize = 0;
    while i < old.len()
        invariant
            i <= old@.len(),
            str_views(out@) == removed(str_views(old@).take(i as int), str_views(current@)),
        decreases old@.len() - i,
    {
        let ghost t = str_views(old@).take(i + 1);
        assert(t.drop_last() =~= str_views(old@).take(i as int));
        assert(t.last() == old@[i as int]@);
        if !contains_string(current, old[i].as_str()) {
            let ghost before = str_views(out@);
            out.push(old[i].clone());
            assert(str_views(out@) =~= before.push(old@[i as int]@));
        }
        i += 1;
    }
    assert(str_views(old@).take(old@.len() as int) =~= str_views(old@));
    out
}

/// The names in order, each kept at its first occurrence only.
pub open spec fn first_occurrences(names: Seq<Seq<char>>) -> Seq<Seq<char>>
    decreases names.len(),
{
    if names.len() == 0 {
        seq![]
    } else {
        let prev = first_occurrences(names.drop_last());
        if prev.contains(names.last()) {
            prev
        } else {
            prev.push(names.last())
        }
    }
}

/// Names of symbols.
pub open spec fn symbol_names(syms: Seq<SymbolView>) -> Seq<Seq<char>> {
    syms.map_values(|s: SymbolView| s.0)
}

/// The distinct symbol names, space-separated, in order of first occurrence.
pub open spec fn names_text(syms: Seq<SymbolView>) -> Seq<char> {
    join(first_occurrences(symbol_names(syms)), seq![' '])
}

/// Views of symbols.
pub open spec fn sym_views(v: Seq<Symbol>) -> Seq<SymbolView> {
    v.map_values(|s: Symbol| s@)
}

/// The distinct names of the symbols, space-separated.
pub fn extract_symbol_names(symbols: &[Symbol]) -> (r: String)
    ensures
        r@ == names_text(sym_views(symbols@)),
{
    let mut seen: Vec<String> = Vec::new();
    let mut i: usize = 0;
    while i < symbols.len()
        invariant
            i <= symbols@.len(),
            str_views(seen@) == first_occurrences(symbol_names(sym_views(symbols@)).take(i as int)),
        decreases symbols@.len() - i,
    {
        let ghost t = symbol_names(sym_views(symbols@)).take(i + 1);
        assert(t.drop_last() =~= symbol_names(sym_views(symbols@)).take(i as int));
        assert(t.last() == symbols@[i as int].name@);
        if !contains_string(seen.as_slice(), symbols[i].name.as_str()) {
            let ghost before = str_views(seen@);
            seen.push(symbols[i].name.clone());
            assert(str_views(seen@) =~= before.push(symbols@[i as int].name@));
        }
        i += 1;
    }
    assert(symbol_names(sym_views(symbols@)).take(symbols@.len() as int) =~= symbol_names(sym_views(symbols@)));
    let mut out = String::new();
    let mut k: usize = 0;
    while k < seen.len()
        invariant
            k <= seen@.len(),
            out@ == join(str_views(seen@).take(k as int), seq![' ']),
        decreases seen@.len() - k,
    {
        let ghost prev = str_views(seen@).take(k as int);
        let ghost next = str_views(seen@).take(k + 1);
        assert(next.drop_last() =~= prev);
        assert(next.last() == seen@[k as int]@);
        if k > 0 {
            push_char(&mut out, ' ');
        } else {
            assert(out@ =~= Seq::<char>::empty());
        }
        push_str(&mut out, seen[k].as_str());
        proof {
            if k > 0 {
                assert(out@ =~= join(prev, seq![' ']) + seq![' '] + seen@[k as int]@);
            } else {
                assert(out@ =~= seen@[k as int]@);
            }
        }
        k += 1;
    }
    assert(str_views(seen@).take(seen@.len() as int) =~= str_views(seen@));
    out
}

/// The range part of a symbol id: the byte range when known, else the lines.
pub open spec fn symbol_range_text(s: SymbolView) -> Seq<char> {
    match (s.5, s.6) {
        (Some(a), Some(b)) => decimal(a as nat) + seq![':'] + decimal(b as nat),
        _ => decimal(s.2 as nat) + seq![':'] + decimal(s.4 as nat),
    }
}

/// `path:lang:kind:name:range`, the text a symbol id is derived from.
pub open spec fn symbol_id_input(path: Seq<char>, lang: Seq<char>, s: SymbolView) -> Seq<char> {
    path + seq![':'] + lang + seq![':'] + kind_name(s.1) + seq![':'] + s.0 + seq![':'] + symbol_range_text(s)
}

/// The id of a symbol: the hex BLAKE3 hash of its id text.
pub open spec fn spec_symbol_id(path: Seq<char>, lang: Seq<char>, s: SymbolView) -> Seq<char> {
    blake3_hex(encode_utf8(symbol_id_input(path, lang, s)))
}

/// Stable id of a symbol of the file at `path` in `lang`.
pub fn symbol_id_for(path: &str, lang: &str, symbol: &Symbol) -> (r: String)
    ensures
        r@ == spec_symbol_id(path@, lang@, symbol@),
{
    let mut input = String::new();
    push_str(&mut input, path);
    push_char(&mut input, ':');
    push_str(&mut input, lang);
    push_char(&mut input, ':');
    push_str(&mut input, symbol.kind.as_str());
    push_char(&mut input, ':');
    push_str(&mut input, symbol.name.as_str());
    push_char(&mut input, ':');
    match (symbol.byte_start, symbol.byte_end) {
        (Some(a), Some(b)) => {
            push_chars(&mut input, decimal_chars(a).as_slice());
            push_char(&mut input, ':');
            push_chars(&mut input, decimal_chars(b).as_slice());
        },
        _ => {
            push_chars(&mut input, decimal_chars(symbol.line).as_slice());
            push_char(&mut input, ':');
            push_chars(&mut input, decimal_chars(symbol.end_line).as_slice());
        },
    }
    assert(input@ =~= symbol_id_input(path@, lang@, symbol@));
    hash_hex(input.as_str().as_bytes())
}

/// At most this many lines of a symbol go into its preview.
pub const SYMBOL_PREVIEW_MAX_LINES: usize = 20;

/// At most this many characters of a symbol's text are indexed.
pub const SYMBOL_CONTENT_MAX_CHARS: usize = 2000;

/// 0-based index of a 1-based line (line 0 counts as line 1).
pub open spec fn line_index(line: usize) -> int {
    if line > 0 { line - 1 } else { 0 }
}

/// Whether a preview can be cut: its end does not fall before its start.
pub open spec fn previewable(source: Seq<char>, line: usize, end_line: usize) -> bool {
    let ls = lines(source);
    ls.len() == 0 || line_index(line) >= ls.len() || end_line >= line_index(line)
}

/// The first lines of a symbol's definition, joined with newlines: from
/// its first line to its last, at most twenty lines.
pub open spec fn symbol_preview(source: Seq<char>, line: usize, end_line: usize) -> Seq<char> {
    let ls = lines(source);
    let start = line_index(line);
    if ls.len() == 0 || start >= ls.len() {
        Seq::empty()
    } else {
        let end_excl: int = if end_line < ls.len() { end_line as int } else { ls.len() as int };
        let preview_end: int = if start + 20 < end_excl { start + 20 } else { end_excl };
        join(ls.subrange(start, preview_end), seq!['\n'])
    }
}

/// Preview of the lines of a symbol's definition.
pub fn build_symbol_preview(source: &str, symbol: &Symbol) -> (r: String)
    requires
        previewable(source@, symbol.line, symbol.end_line),
    ensures
        r@ == symbol_preview(source@, symbol.line, symbol.end_line),
{
    let cv = to_chars(source);
    let ls = split_lines(cv.as_slice());
    if ls.len() == 0 {
        return String::new();
    }
    let start_idx = symbol.line.saturating_sub(1);
    if start_idx >= ls.len() {
        return String::new();
    }
    let symbol_end_excl = if symbol.end_line < ls.len() { symbol.end_line } else { ls.len() };
    let preview_end = if symbol_end_excl - start_idx > SYMBOL_PREVIEW_MAX_LINES {
        start_idx + SYMBOL_PREVIEW_MAX_LINES
    } else {
        symbol_end_excl
    };
    join_lines(&ls, start_idx, preview_end)
}

/// The text indexed for a symbol: `name kind`, then its preview on the
/// next lines, cut to 2000 characters.
pub open spec fn symbol_content(source: Seq<char>, s: SymbolView) -> Seq<char> {
    let header = s.0 + seq![' '] + kind_name(s.1);
    let preview = symbol_preview(source, s.2, s.4);
    let combined = if preview.len() == 0 { header } else { header + seq!['\n'] + preview };
    truncated(combined, 2000)
}

/// The text indexed for a symbol.
pub fn build_symbol_content(source: &str, symbol: &Symbol) -> (r: String)
    requires
        previewable(source@, symbol.line, symbol.end_line),
    ensures
        r@ == symbol_content(source@, symbol@),
{
    let mut combined = String::new();
    push_str(&mut combined, symbol.name.as_str());
    push_char(&mut combined, ' ');
    push_str(&mut combined, symbol.kind.as_str());
    let preview = build_symbol_preview(source, symbol);
    if !preview.as_str().is_empty() {
        push_char(&mut combined, '\n');
        push_str(&mut combined, preview.as_str());
    }
    truncate_to_chars(combined.as_str(), SYMBOL_CONTENT_MAX_CHARS)
}

/// Whether a document holds file text or one symbol.
#[derive(Debug, Clone, Copy, PartialEq, Eq, Structural)]
pub enum DocKind {
    File,
    Symbol,
}

/// One document to add to the search index.
#[derive(Debug, Clone)]
pub struct IndexDoc {
    pub path: String,
    pub content: String,
    pub language: String,
    /// Symbol names (all of the file's for a text document, the symbol's own otherwise).
    pub symbols: String,
    pub kind: DocKind,
    /// Set for symbol documents.
    pub symbol_id: Option<String>,
    /// First line the document covers.
    pub line_number: u64,
    /// Last line of a symbol.
    pub symbol_end_line: Option<u64>,
}

/// Path, content, language, symbols, kind, symbol id, line, symbol end line.
pub type DocView = (Seq<char>, Seq<char>, Seq<char>, Seq<char>, DocKind, Option<Seq<char>>, u64, Option<u64>);

impl View for IndexDoc {
    type V = DocView;

    open spec fn view(&self) -> DocView {
        (
            self.path@,
            self.content@,
            self.language@,
            self.symbols@,
            self.kind,
            match self.symbol_id {
                Some(s) => Some(s@),
                None => None,
            },
            self.line_number,
            self.symbol_end_line,
        )
    }
}

/// Views of documents.
pub open spec fn doc_views(v: Seq<IndexDoc>) -> Seq<DocView> {
    v.map_values(|d: IndexDoc| d@)
}

/// The text documents of a file, one per chunk.
pub open spec fn file_docs(path: Seq<char>, lang: Seq<char>, names: Seq<char>, chunks: Seq<(u64, Seq<char>)>) -> Seq<DocView> {
    chunks.map_values(|c: (u64, Seq<char>)| (path, c.1, lang, names, DocKind::File, None::<Seq<char>>, c.0, None::<u64>))
}

/// The symbol documents of a file, skipping symbols with empty text.
pub open spec fn symbol_docs(path: Seq<char>, lang: Seq<char>, source: Seq<char>, syms: Seq<SymbolView>) -> Seq<DocView>
    decreases syms.len(),
{
    if syms.len() == 0 {
        seq![]
    } else {
        let prev = symbol_docs(path, lang, source, syms.drop_last());
        let s = syms.last();
        let content = symbol_content(source, s);
        if content.len() == 0 {
            prev
        } else {
            prev.push((path, content, lang, s.0, DocKind::Symbol, Some(spec_symbol_id(path, lang, s)), s.2 as u64, Some(s.4 as u64)))
        }
    }
}

/// What processing one file produced.
#[derive(Debug)]
pub enum ProcessedFile {
    /// Not (re)indexed; its documents are deleted when `delete_docs`.
    Skipped { path: String, meta: FileMetadata, delete_docs: bool },
    /// Indexed anew with these documents.
    Indexed { path: String, meta: FileMetadata, docs: Vec<IndexDoc> },
    /// Unreadable; the old metadata is kept when there was some.
    ReadError { path: String, fallback: Option<FileMetadata> },
}

/// View of a processed file.
pub enum ProcessedView {
    Skipped(Seq<char>, MetaView, bool),
    Indexed(Seq<char>, MetaView, Seq<DocView>),
    ReadError(Seq<char>, Option<MetaView>),
}

impl View for ProcessedFile {
    type V = ProcessedView;

    open spec fn view(&self) -> ProcessedView {
        match self {
            ProcessedFile::Skipped { path, meta, delete_docs } => ProcessedView::Skipped(path@, meta@, *delete_docs),
            ProcessedFile::Indexed { path, meta, docs } => ProcessedView::Indexed(path@, meta@, doc_views(docs@)),
            ProcessedFile::ReadError { path, fallback } => ProcessedView::ReadError(path@, match fallback {
                Some(m) => Some(m@),
                None => None,
            }),
        }
    }
}

/// Whether every symbol's preview can be cut from `source`.
pub open spec fn all_previewable(source: Seq<char>, syms: Seq<SymbolView>) -> bool {
    forall|k: int| 0 <= k < syms.len() ==> previewable(source, (#[trigger] syms[k]).2, syms[k].4)
}

/// A text file read in full: its metadata records the hash and (when the
/// language is known) the symbol names; with no documents its old ones are
/// deleted, otherwise it is indexed with its text and symbol documents.
pub open spec fn indexed_view(
    path: Seq<char>,
    mtime: u64,
    size: u64,
    hash: Seq<char>,
    chunks: Seq<(u64, Seq<char>)>,
    source: Seq<char>,
    lang: Seq<char>,
    syms: Seq<SymbolView>,
) -> ProcessedView {
    let names = if lang.len() > 0 { names_text(syms) } else { Seq::empty() };
    let meta = (mtime, size, hash, names, false);
    if chunks.len() == 0 {
        ProcessedView::Skipped(path, meta, true)
    } else {
        ProcessedView::Indexed(path, meta, file_docs(path, lang, names, chunks) + symbol_docs(path, lang, source, syms))
    }
}

/// Views of document chunks.
pub open spec fn chunk_views(v: Seq<DocChunk>) -> Seq<(u64, Seq<char>)> {
    v.map_values(|c: DocChunk| c@)
}

/// Processes a text file whose chunks, full text and symbols are known.
pub fn index_text_file(
    path: &str,
    mtime: u64,
    size: u64,
    hash: String,
    chunks: &Vec<DocChunk>,
    full_text: &str,
    lang: &str,
    symbol_list: &[Symbol],
) -> (r: ProcessedFile)
    requires
        all_previewable(full_text@, sym_views(symbol_list@)),
    ensures
        r@ == indexed_view(path@, mtime, size, hash@, chunk_views(chunks@), full_text@, lang@, sym_views(symbol_list@)),
{
    let names = if !lang.is_empty() {
        extract_symbol_names(symbol_list)
    } else {
        String::new()
    };
    let meta = FileMetadata { mtime, size, hash, symbols: names.clone(), is_binary: false };
    if chunks.len() == 0 {
        return ProcessedFile::Skipped { path: String::from_str(path), meta, delete_docs: true };
    }
    let ghost fd = file_docs(path@, lang@, names@, chunk_views(chunks@));
    let mut docs: Vec<IndexDoc> = Vec::new();
    let mut i: usize = 0;
    while i < chunks.len()
        invariant
            i <= chunks@.len(),
            fd == file_docs(path@, lang@, names@, chunk_views(chunks@)),
            doc_views(docs@) == fd.take(i as int),
        decreases chunks@.len() - i,
    {
        let doc = IndexDoc {
            path: String::from_str(path),
            content: chunks[i].content.clone(),
            language: String::from_str(lang),
            symbols: names.clone(),
            kind: DocKind::File,
            symbol_id: None,
            line_number: chunks[i].start_line,
            symbol_end_line: None,
        };
        let ghost before = doc_views(docs@);
        docs.push(doc);
        assert(doc_views(docs@) =~= before.push(fd[i as int]));
        assert(fd.take(i + 1) =~= fd.take(i as int).push(fd[i as int]));
        i += 1;
    }
    assert(fd.take(chunks@.len() as int) =~= fd);
    let ghost sv = sym_views(symbol_list@);
    let mut k: usize = 0;
    while k < symbol_list.len()
        invariant
            k <= symbol_list@.len(),
            sv == sym_views(symbol_list@),
            all_previewable(full_text@, sv),
            doc_views(docs@) == fd + symbol_docs(path@, lang@, full_text@, sv.take(k as int)),
        decreases symbol_list@.len() - k,
    {
        let ghost t = sv.take(k + 1);
        assert(t.drop_last() =~= sv.take(k as int));
        assert(t.last() == symbol_list@[k as int]@);
        assert(previewable(full_text@, sv[k as int].2, sv[k as int].4));
        let symbol = &symbol_list[k];
        let content = build_symbol_content(full_text, symbol);
        if !content.as_str().is_empty() {
            let id = symbol_id_for(path, lang, symbol);
            let doc = IndexDoc {
                path: String::from_str(path),
                content,
                language: String::from_str(lang),
                symbols: symbol.name.clone(),
                kind: DocKind::Symbol,
                symbol_id: Some(id),
                line_number: symbol.line as u64,
                symbol_end_line: Some(symbol.end_line as u64),
            };
            let ghost before = doc_views(docs@);
            let ghost dv = doc@;
            docs.push(doc);
            assert(doc_views(docs@) =~= before.push(dv));
        }
        k += 1;
    }
    assert(sv.take(symbol_list@.len() as int) =~= sv);
    ProcessedFile::Indexed { path: String::from_str(path), meta, docs }
}

/// How a read file is processed: binary files are recorded as binary and
/// their documents deleted; text with the hash already on record is kept
/// (with the new time and size) unless forced; other text is indexed.
pub open spec fn read_view_binary(path: Seq<char>, mtime: u64, size: u64, hash: Option<Seq<char>>) -> ProcessedView {
    ProcessedView::Skipped(path, (mtime, size, match hash {
        Some(h) => h,
        None => Seq::empty(),
    }, Seq::empty(), true), true)
}

/// Whether a text file with `hash` is unchanged from its record.
pub open spec fn same_hash(existing: Option<MetaView>, hash: Seq<char>, force: bool) -> bool {
    existing matches Some(m) && !force && hash.len() > 0 && m.2 == hash
}

/// Processes a file after reading it: `outcome` is what reading gave.
pub fn process_read(
    path: &str,
    existing: Option<&FileMetadata>,
    mtime: u64,
    size: u64,
    force: bool,
    outcome: ReadOutcome,
) -> (r: ProcessedFile)
    ensures
        match outcome {
            ReadOutcome::Binary { hash } => r@ == read_view_binary(path@, mtime, size, match hash {
                Some(h) => Some(h@),
                None => None,
            }),
            ReadOutcome::Text { chunks, hash } => if same_hash(opt_meta(existing), hash@, force) {
                match opt_meta(existing) {
                    Some(m) => r@ == ProcessedView::Skipped(path@, (mtime, size, m.2, m.3, m.4), false),
                    None => false,
                }
            } else {
                let lang = path_language(path@);
                let text = crate::text::concat(crate::index_chunks::doc_texts(chunk_views(chunks@)));
                let syms = if lang.len() == 0 { seq![] } else { symbols_or_empty(lang, text) };
                indexed_view(path@, mtime, size, hash@, chunk_views(chunks@), text, lang, syms) == r@
            },
        },
{
    match outcome {
        ReadOutcome::Binary { hash } => {
            let ghost hv = match &hash {
                Some(h) => Some(h@),
                None => None,
            };
            let h = match hash {
                Some(h) => h,
                None => String::new(),
            };
            let r = ProcessedFile::Skipped {
                path: String::from_str(path),
                meta: FileMetadata { mtime, size, hash: h, symbols: String::new(), is_binary: true },
                delete_docs: true,
            };
            assert(r@ == read_view_binary(path@, mtime, size, hv));
            r
        },
        ReadOutcome::Text { chunks, hash } => {
            match existing {
                Some(meta) => {
                    if !force && !hash.as_str().is_empty() && str_eq(meta.hash.as_str(), hash.as_str()) {
                        let mut updated = meta.copied();
                        updated.mtime = mtime;
                        updated.size = size;
                        return ProcessedFile::Skipped { path: String::from_str(path), meta: updated, delete_docs: false };
                    }
                },
                None => {},
            }
            let lang = language_of_path(path);
            let full_text = join_chunks(chunks.as_slice());
            let symbol_list: Vec<Symbol> = if !lang.as_str().is_empty() {
                let extractor = SymbolExtractor::new();
                match extractor.extract(full_text.as_str(), lang.as_str()) {
                    Ok(syms) => syms,
                    Err(_) => Vec::new(),
                }
            } else {
                Vec::new()
            };
            assert(sym_views(symbol_list@) =~= (if lang@.len() == 0 { seq![] } else { symbols_or_empty(lang@, full_text@) }));
            proof {
                assert forall|k: int| 0 <= k < sym_views(symbol_list@).len() implies
                    previewable(full_text@, (#[trigger] sym_views(symbol_list@)[k]).2, sym_views(symbol_list@)[k].4) by {
                    assert(sym_views(symbol_list@)[k] == symbol_list@[k]@);
                    assert(symbol_list@[k].line <= symbol_list@[k].end_line);
                }
            }
            let ghost hv = hash@;
            let ghost cv = chunk_views(chunks@);
            assert(chunks@.map_values(|d: DocChunk| d.content@) =~= crate::index_chunks::doc_texts(cv));
            let r = index_text_file(path, mtime, size, hash, &chunks, full_text.as_str(), lang.as_str(), symbol_list.as_slice());
            assert(indexed_view(path@, mtime, size, hv, cv, full_text@, lang@, sym_views(symbol_list@)) == r@);
            r
        },
    }
}

/// Processing of a file that could not be read: its old metadata, if any,
/// is kept.
pub fn read_error(path: &str, fallback: Option<&FileMetadata>) -> (r: ProcessedFile)
    ensures
        r@ == ProcessedView::ReadError(path@, opt_meta(fallback)),
{
    let fb = match fallback {
        Some(m) => Some(m.copied()),
        None => None,
    };
    ProcessedFile::ReadError { path: String::from_str(path), fallback: fb }
}

} // verus!
