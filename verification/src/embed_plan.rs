//! What embedding indexing does: whether a provider is used, what happens
//! to each indexed file's stored symbol vectors, which texts are embedded
//! for it, and how files are gathered into batches.

use vstd::prelude::*;
use crate::config::{EmbeddingEnabled, EmbeddingProviderType};
use crate::index_plan::{all_previewable, build_symbol_content, previewable, spec_symbol_id, sym_views, symbol_content, symbol_id_for, FileMetadata};
use crate::scanner::{language_of_path, path_language};
use crate::symbols::{kind_name, Symbol, SymbolExtractor, SymbolView};
use crate::syntax_tree::symbols_or_empty;
use crate::text::{byte_len, lowercase, push_str, str_eq, to_lowercase};

verus! {

/// When embeddings are computed during indexing.
#[derive(Debug, Clone, Copy, PartialEq, Eq, Structural)]
pub enum EmbeddingsMode {
    /// Never.
    Off,
    /// When a provider is available; failures only warn.
    Auto,
    /// Always; failures are errors.
    Precompute,
}

/// The mode an `--embeddings` value names (in any case).
pub open spec fn mode_named(s: Seq<char>) -> Option<EmbeddingsMode> {
    let l = lowercase(s);
    if l == "off"@ || l == "false"@ || l == "0"@ {
        Some(EmbeddingsMode::Off)
    } else if l == "auto"@ {
        Some(EmbeddingsMode::Auto)
    } else if l == "precompute"@ || l == "on"@ || l == "true"@ || l == "1"@ {
        Some(EmbeddingsMode::Precompute)
    } else {
        None
    }
}

/// An `--embeddings` value that names no mode (kept in lower case).
#[derive(Debug, Clone, PartialEq, Eq)]
pub struct InvalidEmbeddingsMode {
    pub value: String,
}

impl InvalidEmbeddingsMode {
    /// The error's message.
    pub fn message(&self) -> (m: String)
        ensures
            m@ == "Invalid value for --embeddings: '"@ + self.value@ + "'. Expected one of: auto, precompute, off"@,
    {
        let mut m = String::new();
        push_str(&mut m, "Invalid value for --embeddings: '");
        push_str(&mut m, self.value.as_str());
        push_str(&mut m, "'. Expected one of: auto, precompute, off");
        m
    }
}

impl EmbeddingsMode {
    /// Reads an `--embeddings` value.
    pub fn parse(s: &str) -> (r: Result<EmbeddingsMode, InvalidEmbeddingsMode>)
        ensures
            match mode_named(s@) {
                Some(m) => r == Ok::<EmbeddingsMode, InvalidEmbeddingsMode>(m),
                None => r matches Err(e) && e.value@ == lowercase(s@),
            },
    {
        let l = to_lowercase(s);
        let v = l.as_str();
        if str_eq(v, "off") || str_eq(v, "false") || str_eq(v, "0") {
            Ok(EmbeddingsMode::Off)
        } else if str_eq(v, "auto") {
            Ok(EmbeddingsMode::Auto)
        } else if str_eq(v, "precompute") || str_eq(v, "on") || str_eq(v, "true") || str_eq(v, "1") {
            Ok(EmbeddingsMode::Precompute)
        } else {
            Err(InvalidEmbeddingsMode { value: l })
        }
    }

    /// Whether a failure while embedding is only warned about.
    pub fn tolerates_failure(&self) -> (b: bool)
        ensures
            b == (*self == EmbeddingsMode::Auto),
    {
        match self {
            EmbeddingsMode::Auto => true,
            _ => false,
        }
    }
}

/// Whether a provider is built at all: not in auto mode when the
/// configuration turns embeddings off.
pub fn wants_provider(mode: EmbeddingsMode, enabled: EmbeddingEnabled) -> (b: bool)
    ensures
        b == !(mode == EmbeddingsMode::Auto && enabled == EmbeddingEnabled::Off),
{
    !(matches!(mode, EmbeddingsMode::Auto) && matches!(enabled, EmbeddingEnabled::Off))
}

/// What becomes of the provider that was (or could not be) built.
#[derive(Debug, Clone, Copy, PartialEq, Eq, Structural)]
pub enum ProviderUse {
    /// Embed with it.
    Use,
    /// Go without embeddings, silently.
    Skip,
    /// Go without embeddings, with a warning that the provider is unavailable.
    SkipWithWarning,
    /// The provider's error is the result.
    Fail,
}

/// Decides on the provider once building it succeeded (`built`) or not:
/// off never embeds; auto uses it when built and otherwise warns only when
/// some embedding setting was given; precompute needs it.
pub fn provider_use(mode: EmbeddingsMode, built: bool, has_embeddings_config: bool) -> (u: ProviderUse)
    ensures
        u == match mode {
            EmbeddingsMode::Off => ProviderUse::Skip,
            EmbeddingsMode::Auto => if built {
                ProviderUse::Use
            } else if has_embeddings_config {
                ProviderUse::SkipWithWarning
            } else {
                ProviderUse::Skip
            },
            EmbeddingsMode::Precompute => if built { ProviderUse::Use } else { ProviderUse::Fail },
        },
{
    match mode {
        EmbeddingsMode::Off => ProviderUse::Skip,
        EmbeddingsMode::Auto => {
            if built {
                ProviderUse::Use
            } else if has_embeddings_config {
                ProviderUse::SkipWithWarning
            } else {
                ProviderUse::Skip
            }
        },
        EmbeddingsMode::Precompute => {
            if built {
                ProviderUse::Use
            } else {
                ProviderUse::Fail
            }
        },
    }
}

/// What happens when the stored vectors are of the old, per-chunk kind:
/// auto warns and stops, precompute fails, off stops.
pub fn schema_mismatch_use(mode: EmbeddingsMode) -> (u: ProviderUse)
    ensures
        u == match mode {
            EmbeddingsMode::Auto => ProviderUse::SkipWithWarning,
            EmbeddingsMode::Precompute => ProviderUse::Fail,
            EmbeddingsMode::Off => ProviderUse::Skip,
        },
{
    match mode {
        EmbeddingsMode::Auto => ProviderUse::SkipWithWarning,
        EmbeddingsMode::Precompute => ProviderUse::Fail,
        EmbeddingsMode::Off => ProviderUse::Skip,
    }
}

/// The name recorded for a provider type.
pub fn provider_label(p: EmbeddingProviderType) -> (s: &'static str)
    ensures
        s@ == match p {
            EmbeddingProviderType::Builtin => "builtin"@,
            EmbeddingProviderType::Dummy => "dummy"@,
            EmbeddingProviderType::Command => "command"@,
        },
{
    match p {
        EmbeddingProviderType::Builtin => "builtin",
        EmbeddingProviderType::Dummy => "dummy",
        EmbeddingProviderType::Command => "command",
    }
}

/// The next step for one indexed file.
#[derive(Debug, Clone, Copy, PartialEq, Eq, Structural)]
pub enum EmbedStep {
    /// Remove the file's stored vectors.
    DeleteSymbols,
    /// Ask the store whether the file's vectors are stale.
    CheckStorage,
    /// The stored vectors are current.
    SkipUpToDate,
    /// Read the file and embed it.
    Read,
}

/// The step for a file given its metadata, whether embedding is forced,
/// and what the store said about staleness (`None` before it was asked):
/// binary or unhashed files lose their vectors; unless forced, the store
/// is asked and a current file is skipped.
pub fn embed_step(meta: &FileMetadata, force: bool, needs_update: Option<bool>) -> (s: EmbedStep)
    ensures
        s == if meta.is_binary || meta.hash@.len() == 0 {
            EmbedStep::DeleteSymbols
        } else if force {
            EmbedStep::Read
        } else {
            match needs_update {
                None => EmbedStep::CheckStorage,
                Some(true) => EmbedStep::Read,
                Some(false) => EmbedStep::SkipUpToDate,
            }
        },
{
    if meta.is_binary || meta.hash.as_str().is_empty() {
        return EmbedStep::DeleteSymbols;
    }
    if force {
        return EmbedStep::Read;
    }
    match needs_update {
        None => EmbedStep::CheckStorage,
        Some(true) => EmbedStep::Read,
        Some(false) => EmbedStep::SkipUpToDate,
    }
}

/// What is stored with one symbol's vector.
#[derive(Debug, Clone)]
pub struct SymbolEmbeddingMeta {
    pub symbol_id: String,
    pub lang: String,
    pub kind: String,
    pub name: String,
    pub start_line: u32,
    pub end_line: u32,
}

/// Id, language, kind, name, first and last line.
pub type EmbedMetaView = (Seq<char>, Seq<char>, Seq<char>, Seq<char>, u32, u32);

impl View for SymbolEmbeddingMeta {
    type V = EmbedMetaView;

    open spec fn view(&self) -> EmbedMetaView {
        (self.symbol_id@, self.lang@, self.kind@, self.name@, self.start_line, self.end_line)
    }
}

/// A line number capped to `u32`.
pub open spec fn cap_u32(n: usize) -> u32 {
    if n <= u32::MAX { n as u32 } else { u32::MAX }
}

/// Caps a line number to `u32`.
pub fn line_u32(n: usize) -> (r: u32)
    ensures
        r == cap_u32(n),
{
    if n <= u32::MAX as usize {
        n as u32
    } else {
        u32::MAX
    }
}

/// The texts to embed for a file's symbols and what is stored with each,
/// skipping symbols with empty text.
pub open spec fn embed_inputs(path: Seq<char>, lang: Seq<char>, source: Seq<char>, syms: Seq<SymbolView>) -> Seq<(Seq<char>, EmbedMetaView)>
    decreases syms.len(),
{
    if syms.len() == 0 {
        seq![]
    } else {
        let prev = embed_inputs(path, lang, source, syms.drop_last());
        let s = syms.last();
        let content = symbol_content(source, s);
        if content.len() == 0 {
            prev
        } else {
            prev.push((content, (spec_symbol_id(path, lang, s), lang, kind_name(s.1), s.0, cap_u32(s.2), cap_u32(s.4))))
        }
    }
}

/// Views of strings.
pub open spec fn views_of(v: Seq<String>) -> Seq<Seq<char>> {
    v.map_values(|s: String| s@)
}

/// Views of stored symbol data.
pub open spec fn meta_views(v: Seq<SymbolEmbeddingMeta>) -> Seq<EmbedMetaView> {
    v.map_values(|m: SymbolEmbeddingMeta| m@)
}

/// The texts to embed for a file's symbols, with what is stored with each.
pub fn symbol_embedding_inputs(path: &str, source: &str, lang: &str, symbols: &[Symbol]) -> (r: (Vec<String>, Vec<SymbolEmbeddingMeta>))
    requires
        all_previewable(source@, sym_views(symbols@)),
    ensures
        r.0@.len() == r.1@.len(),
        views_of(r.0@) == embed_inputs(path@, lang@, source@, sym_views(symbols@)).map_values(|e: (Seq<char>, EmbedMetaView)| e.0),
        meta_views(r.1@) == embed_inputs(path@, lang@, source@, sym_views(symbols@)).map_values(|e: (Seq<char>, EmbedMetaView)| e.1),
{
    let ghost sv = sym_views(symbols@);
    let mut texts: Vec<String> = Vec::new();
    let mut metas: Vec<SymbolEmbeddingMeta> = Vec::new();
    let mut k: usize = 0;
    while k < symbols.len()
        invariant
            k <= symbols@.len(),
            sv == sym_views(symbols@),
            all_previewable(source@, sv),
            texts@.len() == metas@.len(),
            views_of(texts@) == embed_inputs(path@, lang@, source@, sv.take(k as int)).map_values(|e: (Seq<char>, EmbedMetaView)| e.0),
            meta_views(metas@) == embed_inputs(path@, lang@, source@, sv.take(k as int)).map_values(|e: (Seq<char>, EmbedMetaView)| e.1),
        decreases symbols@.len() - k,
    {
        let ghost t = sv.take(k + 1);
        assert(t.drop_last() =~= sv.take(k as int));
        assert(t.last() == symbols@[k as int]@);
        assert(previewable(source@, sv[k as int].2, sv[k as int].4));
        let ghost prev = embed_inputs(path@, lang@, source@, sv.take(k as int));
        let symbol = &symbols[k];
        let content = build_symbol_content(source, symbol);
        if !content.as_str().is_empty() {
            let meta = SymbolEmbeddingMeta {
                symbol_id: symbol_id_for(path, lang, symbol),
                lang: String::from_str(lang),
                kind: symbol.kind.to_string(),
                name: symbol.name.clone(),
                start_line: line_u32(symbol.line),
                end_line: line_u32(symbol.end_line),
            };
            let ghost e = (content@, meta@);
            let ghost bt = views_of(texts@);
            let ghost bm = meta_views(metas@);
            texts.push(content);
            metas.push(meta);
            assert(embed_inputs(path@, lang@, source@, t) == prev.push(e));
            assert(views_of(texts@) =~= bt.push(e.0));
            assert(meta_views(metas@) =~= bm.push(e.1));
            assert(prev.push(e).map_values(|x: (Seq<char>, EmbedMetaView)| x.0) =~= prev.map_values(|x: (Seq<char>, EmbedMetaView)| x.0).push(e.0));
            assert(prev.push(e).map_values(|x: (Seq<char>, EmbedMetaView)| x.1) =~= prev.map_values(|x: (Seq<char>, EmbedMetaView)| x.1).push(e.1));
        }
        k += 1;
    }
    assert(sv.take(symbols@.len() as int) =~= sv);
    (texts, metas)
}

/// What to do with a file that was read.
#[derive(Debug)]
pub enum FileEmbedPlan {
    /// Store an empty set of vectors under the file's hash.
    ReplaceEmpty,
    /// Remove the file's vectors (no known language).
    DeleteSymbols,
    /// Embed these texts, storing the matching data with each vector.
    Embed { texts: Vec<String>, symbols: Vec<SymbolEmbeddingMeta> },
}

/// The plan for a file's symbols: nothing to embed means an empty set.
pub open spec fn plan_for_symbols(path: Seq<char>, lang: Seq<char>, source: Seq<char>, syms: Seq<SymbolView>, r: FileEmbedPlan) -> bool {
    let inputs = embed_inputs(path, lang, source, syms);
    if syms.len() == 0 || inputs.len() == 0 {
        r is ReplaceEmpty
    } else {
        r matches FileEmbedPlan::Embed { texts, symbols }
            && views_of(texts@) == inputs.map_values(|e: (Seq<char>, EmbedMetaView)| e.0)
            && meta_views(symbols@) == inputs.map_values(|e: (Seq<char>, EmbedMetaView)| e.1)
    }
}

/// Plans the embedding of a file read as `text`: files over the size limit
/// get an empty set, files of no known language lose their vectors, and
/// otherwise the file's symbols are embedded.
pub fn plan_file_embedding(path: &str, text: &str, max_file_bytes: usize) -> (r: FileEmbedPlan)
    ensures
        byte_len(text@) > max_file_bytes ==> r is ReplaceEmpty,
        byte_len(text@) <= max_file_bytes && path_language(path@).len() == 0 ==> r is DeleteSymbols,
        byte_len(text@) <= max_file_bytes && path_language(path@).len() > 0 ==>
            all_previewable(text@, symbols_or_empty(path_language(path@), text@))
                && plan_for_symbols(path@, path_language(path@), text@, symbols_or_empty(path_language(path@), text@), r),
{
    if text.len() > max_file_bytes {
        return FileEmbedPlan::ReplaceEmpty;
    }
    let lang = language_of_path(path);
    if lang.as_str().is_empty() {
        return FileEmbedPlan::DeleteSymbols;
    }
    let extractor = SymbolExtractor::new();
    let symbols: Vec<Symbol> = match extractor.extract(text, lang.as_str()) {
        Ok(s) => s,
        Err(_) => Vec::new(),
    };
    assert(sym_views(symbols@) =~= symbols_or_empty(lang@, text@));
    proof {
        assert forall|k: int| 0 <= k < sym_views(symbols@).len() implies
            previewable(text@, (#[trigger] sym_views(symbols@)[k]).2, sym_views(symbols@)[k].4) by {
            assert(sym_views(symbols@)[k] == symbols@[k]@);
            assert(symbols@[k].line <= symbols@[k].end_line);
        }
    }
    let ghost sv = sym_views(symbols@);
    if symbols.len() == 0 {
        assert(sv.len() == 0);
        assert(plan_for_symbols(path@, lang@, text@, sv, FileEmbedPlan::ReplaceEmpty));
        return FileEmbedPlan::ReplaceEmpty;
    }
    let (texts, metas) = symbol_embedding_inputs(path, text, lang.as_str(), symbols.as_slice());
    let ghost inputs = embed_inputs(path@, lang@, text@, sv);
    assert(views_of(texts@).len() == texts@.len());
    assert(inputs.map_values(|e: (Seq<char>, EmbedMetaView)| e.0).len() == inputs.len());
    let r = if texts.len() == 0 {
        FileEmbedPlan::ReplaceEmpty
    } else {
        FileEmbedPlan::Embed { texts, symbols: metas }
    };
    assert(plan_for_symbols(path@, lang@, text@, sym_views(symbols@), r));
    r
}

/// One file's share of a batch.
#[derive(Debug, Clone)]
pub struct BatchEntry {
    pub path: String,
    pub file_hash: String,
    /// Index of the file's first text in the batch.
    pub start_idx: usize,
    /// Number of the file's texts.
    pub count: usize,
    /// Stored data for each of the file's texts.
    pub symbols: Vec<SymbolEmbeddingMeta>,
}

/// Texts of several files awaiting one call of the provider; each file's
/// texts are contiguous.
#[derive(Debug, Clone)]
pub struct EmbeddingBatch {
    pub texts: Vec<String>,
    pub entries: Vec<BatchEntry>,
}

/// Where entry `k` starts: the texts of the entries before it.
pub open spec fn entry_offset(entries: Seq<BatchEntry>, k: int) -> int
    decreases k,
{
    if k <= 0 {
        0
    } else {
        entry_offset(entries, k - 1) + entries[k - 1].count
    }
}

proof fn lemma_offset_prefix(a: Seq<BatchEntry>, b: Seq<BatchEntry>, k: int)
    requires
        0 <= k <= a.len(),
        a.len() <= b.len(),
        forall|i: int| 0 <= i < a.len() ==> a[i] == b[i],
    ensures
        entry_offset(a, k) == entry_offset(b, k),
    decreases k,
{
    if k > 0 {
        lemma_offset_prefix(a, b, k - 1);
    }
}

impl EmbeddingBatch {
    /// Entries tile the texts in order, each with data for each text.
    pub open spec fn well_formed(&self) -> bool {
        &&& forall|k: int| 0 <= k < self.entries@.len() ==> {
            &&& (#[trigger] self.entries@[k]).start_idx == entry_offset(self.entries@, k)
            &&& self.entries@[k].symbols@.len() == self.entries@[k].count
        }
        &&& self.texts@.len() == entry_offset(self.entries@, self.entries@.len() as int)
    }

    /// An empty batch.
    pub fn new() -> (b: EmbeddingBatch)
        ensures
            b.well_formed(),
            b.texts@.len() == 0,
            b.entries@.len() == 0,
    {
        EmbeddingBatch { texts: Vec::new(), entries: Vec::new() }
    }

    /// Whether the batch must go to the provider before a file with
    /// `incoming` texts joins it: it holds texts and would exceed
    /// `batch_size`.
    pub fn should_flush(&self, incoming: usize, batch_size: usize) -> (b: bool)
        ensures
            b == (self.texts@.len() > 0 && self.texts@.len() + incoming > batch_size),
    {
        let n = self.texts.len();
        n > 0 && (n > batch_size || incoming > batch_size - n)
    }

    /// Adds a file's texts at the end.
    pub fn push_file(&mut self, path: String, file_hash: String, texts: Vec<String>, symbols: Vec<SymbolEmbeddingMeta>)
        requires
            old(self).well_formed(),
            texts@.len() == symbols@.len(),
        ensures
            final(self).well_formed(),
            final(self).texts@ == old(self).texts@ + texts@,
            final(self).entries@.len() == old(self).entries@.len() + 1,
            forall|k: int| 0 <= k < old(self).entries@.len() ==> final(self).entries@[k] == old(self).entries@[k],
            final(self).entries@.last().path == path,
            final(self).entries@.last().file_hash == file_hash,
            final(self).entries@.last().symbols == symbols,
    {
        let start_idx = self.texts.len();
        let count = texts.len();
        let ghost old_entries = self.entries@;
        let mut t = texts;
        self.texts.append(&mut t);
        self.entries.push(BatchEntry { path, file_hash, start_idx, count, symbols });
        proof {
            let e = self.entries@;
            assert forall|k: int| 0 <= k < e.len() implies {
                &&& (#[trigger] e[k]).start_idx == entry_offset(e, k)
                &&& e[k].symbols@.len() == e[k].count
            } by {
                lemma_offset_prefix(old_entries, e, k);
            }
            lemma_offset_prefix(old_entries, e, old_entries.len() as int);
        }
    }

    /// Empties the batch.
    pub fn clear(&mut self)
        ensures
            final(self).well_formed(),
            final(self).texts@.len() == 0,
            final(self).entries@.len() == 0,
    {
        self.texts.clear();
        self.entries.clear();
    }
}

/// Memory budget of the index writer: 1 GiB with `--high-memory`, else
/// 50,000,000 bytes.
pub fn writer_budget_bytes(high_memory: bool) -> (n: usize)
    ensures
        n == if high_memory { 1073741824usize } else { 50_000_000usize },
{
    if high_memory {
        1024 * 1024 * 1024
    } else {
        50_000_000
    }
}

/// Exclude patterns of an index run: the command line's first, then the
/// configured ones.
pub fn merged_excludes(cli: Vec<String>, configured: &[String]) -> (r: Vec<String>)
    ensures
        views_of(r@) == views_of(cli@) + views_of(configured@),
{
    let mut out = cli;
    let ghost start = views_of(out@);
    let mut i: usize = 0;
    while i < configured.len()
        invariant
            i <= configured@.len(),
            views_of(out@) == start + views_of(configured@).take(i as int),
        decreases configured@.len() - i,
    {
        let ghost before = views_of(out@);
        out.push(configured[i].clone());
        assert(views_of(out@) =~= before.push(configured@[i as int]@));
        assert(views_of(configured@).take(i + 1) =~= views_of(configured@).take(i as int).push(configured@[i as int]@));
        i += 1;
    }
    assert(views_of(configured@).take(configured@.len() as int) =~= views_of(configured@));
    out
}

} // verus!
