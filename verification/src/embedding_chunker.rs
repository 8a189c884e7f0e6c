//! Line-window chunking of source text for embedding generation.
//!
//! Text is split into lines and covered by windows of `chunk_lines` lines
//! that advance by `chunk_lines - chunk_overlap` (at least one) lines, so
//! consecutive windows share `chunk_overlap` lines. Windows whose text is
//! shorter than `min_chunk_size` characters are skipped.

use vstd::prelude::*;
use crate::text::{decimal, decimal_chars, join, join_lines, lines, push_chars, push_str, split_lines, to_chars, byte_len};

verus! {

/// Default number of lines per chunk.
pub const DEFAULT_CHUNK_LINES: usize = 80;

/// Default overlap between consecutive chunks.
pub const DEFAULT_CHUNK_OVERLAP: usize = 20;

/// Minimum chunk size in characters (smaller chunks are skipped).
pub const MIN_CHUNK_SIZE: usize = 30;

/// Maximum file size in bytes for embedding generation.
pub const DEFAULT_MAX_FILE_BYTES: usize = 2_000_000;

/// Configuration for the text chunker.
#[derive(Debug, Clone, Copy, PartialEq, Eq)]
pub struct ChunkConfig {
    /// Number of lines per chunk.
    pub chunk_lines: usize,
    /// Number of overlapping lines between consecutive chunks.
    pub chunk_overlap: usize,
    /// Minimum chunk size in characters.
    pub min_chunk_size: usize,
    /// Maximum file size in bytes.
    pub max_file_bytes: usize,
}

/// Why a chunk configuration was refused.
#[derive(Debug, Clone, Copy, PartialEq, Eq)]
pub enum ChunkConfigError {
    /// `chunk_overlap` is not less than `chunk_lines`.
    OverlapNotLessThanLines { chunk_overlap: usize, chunk_lines: usize },
    /// `chunk_lines` is zero.
    ZeroChunkLines,
}

impl ChunkConfigError {
    /// The message the error is reported with.
    pub fn message(&self) -> (m: String)
        ensures
            m@ == match self {
                ChunkConfigError::OverlapNotLessThanLines { chunk_overlap, chunk_lines } =>
                    "chunk_overlap ("@ + decimal(*chunk_overlap as nat) + ") must be less than chunk_lines ("@
                        + decimal(*chunk_lines as nat) + ")"@,
                ChunkConfigError::ZeroChunkLines => "chunk_lines must be greater than 0"@,
            },
    {
        match self {
            ChunkConfigError::OverlapNotLessThanLines { chunk_overlap, chunk_lines } => {
                let mut s = String::new();
                push_str(&mut s, "chunk_overlap (");
                push_chars(&mut s, decimal_chars(*chunk_overlap).as_slice());
                push_str(&mut s, ") must be less than chunk_lines (");
                push_chars(&mut s, decimal_chars(*chunk_lines).as_slice());
                push_str(&mut s, ")");
                s
            },
            ChunkConfigError::ZeroChunkLines => {
                let mut s = String::new();
                push_str(&mut s, "chunk_lines must be greater than 0");
                s
            },
        }
    }
}

impl ChunkConfig {
    /// The configuration with all defaults (80 lines, 20 overlap, 30 characters, 2 MB).
    pub open spec fn spec_default() -> ChunkConfig {
        ChunkConfig {
            chunk_lines: DEFAULT_CHUNK_LINES,
            chunk_overlap: DEFAULT_CHUNK_OVERLAP,
            min_chunk_size: MIN_CHUNK_SIZE,
            max_file_bytes: DEFAULT_MAX_FILE_BYTES,
        }
    }

    /// The default configuration.
    pub fn default_config() -> (c: ChunkConfig)
        ensures
            c == ChunkConfig::spec_default(),
    {
        ChunkConfig {
            chunk_lines: DEFAULT_CHUNK_LINES,
            chunk_overlap: DEFAULT_CHUNK_OVERLAP,
            min_chunk_size: MIN_CHUNK_SIZE,
            max_file_bytes: DEFAULT_MAX_FILE_BYTES,
        }
    }

    /// A configuration with the given window; the other fields keep their
    /// defaults. Refused when the overlap is not less than the window.
    pub fn new(chunk_lines: usize, chunk_overlap: usize) -> (r: Result<ChunkConfig, ChunkConfigError>)
        ensures
            chunk_overlap >= chunk_lines <==> r is Err,
            r matches Err(e) ==> e == (ChunkConfigError::OverlapNotLessThanLines {
                chunk_overlap,
                chunk_lines,
            }),
            r matches Ok(c) ==> c == (ChunkConfig {
                chunk_lines,
                chunk_overlap,
                ..ChunkConfig::spec_default()
            }),
    {
        if chunk_overlap >= chunk_lines {
            return Err(ChunkConfigError::OverlapNotLessThanLines { chunk_overlap, chunk_lines });
        }
        if chunk_lines == 0 {
            return Err(ChunkConfigError::ZeroChunkLines);
        }
        Ok(ChunkConfig {
            chunk_lines,
            chunk_overlap,
            min_chunk_size: MIN_CHUNK_SIZE,
            max_file_bytes: DEFAULT_MAX_FILE_BYTES,
        })
    }

    /// Sets the minimum chunk size.
    pub fn with_min_chunk_size(self, size: usize) -> (c: ChunkConfig)
        ensures
            c == (ChunkConfig { min_chunk_size: size, ..self }),
    {
        ChunkConfig { min_chunk_size: size, ..self }
    }

    /// Sets the maximum file size.
    pub fn with_max_file_bytes(self, size: usize) -> (c: ChunkConfig)
        ensures
            c == (ChunkConfig { max_file_bytes: size, ..self }),
    {
        ChunkConfig { max_file_bytes: size, ..self }
    }

    /// Lines the window advances by: `chunk_lines - chunk_overlap`, at least one.
    pub open spec fn step(self) -> int {
        if self.chunk_lines > self.chunk_overlap && self.chunk_lines - self.chunk_overlap > 1 {
            self.chunk_lines - self.chunk_overlap
        } else {
            1
        }
    }
}

impl Default for ChunkConfig {
    fn default() -> (c: Self)
        ensures
            c == ChunkConfig::spec_default(),
    {
        ChunkConfig::default_config()
    }
}

/// A text chunk with its position in the file.
#[derive(Debug, Clone)]
pub struct TextChunk {
    /// Starting line number (1-indexed).
    pub start_line: u32,
    /// Ending line number (1-indexed, inclusive).
    pub end_line: u32,
    /// The chunk text content.
    pub text: String,
}

impl View for TextChunk {
    type V = (u32, u32, Seq<char>);

    open spec fn view(&self) -> (u32, u32, Seq<char>) {
        (self.start_line, self.end_line, self.text@)
    }
}

/// End (exclusive, 0-indexed) of the window that starts at `start`.
pub open spec fn window_end(cfg: ChunkConfig, total: int, start: int) -> int {
    if start + cfg.chunk_lines < total {
        start + cfg.chunk_lines
    } else {
        total
    }
}

/// Chunks for the windows starting at `start`, `start + step`, ... over `ls`.
pub open spec fn windows_from(ls: Seq<Seq<char>>, cfg: ChunkConfig, start: int) -> Seq<(u32, u32, Seq<char>)>
    decreases ls.len() - start,
{
    if start < 0 || start >= ls.len() {
        seq![]
    } else {
        let end = window_end(cfg, ls.len() as int, start);
        let text = join(ls.subrange(start, end), seq!['\n']);
        let rest = if start + cfg.step() < ls.len() {
            windows_from(ls, cfg, start + cfg.step())
        } else {
            seq![]
        };
        if text.len() >= cfg.min_chunk_size {
            seq![(((start + 1) as u32), (end as u32), text)] + rest
        } else {
            rest
        }
    }
}

/// The chunks `chunk_text` produces for `content`.
pub open spec fn chunks_of(content: Seq<char>, cfg: ChunkConfig) -> Seq<(u32, u32, Seq<char>)> {
    windows_from(lines(content), cfg, 0)
}

/// Splits text into overlapping line windows.
#[derive(Debug)]
pub struct EmbeddingChunker {
    config: ChunkConfig,
}

impl EmbeddingChunker {
    /// The configuration this chunker uses.
    pub closed spec fn spec_config(&self) -> ChunkConfig {
        self.config
    }

    /// Creates a new chunker with the given configuration.
    pub fn new(config: ChunkConfig) -> (c: EmbeddingChunker)
        ensures
            c.spec_config() == config,
    {
        EmbeddingChunker { config }
    }

    /// Creates a chunker with the default configuration.
    pub fn with_defaults() -> (c: EmbeddingChunker)
        ensures
            c.spec_config() == ChunkConfig::spec_default(),
    {
        EmbeddingChunker::new(ChunkConfig::default_config())
    }

    /// Returns the current configuration.
    pub fn config(&self) -> (c: &ChunkConfig)
        ensures
            *c == self.spec_config(),
    {
        &self.config
    }

    /// Whether `content` has more bytes than `max_file_bytes`.
    pub fn is_file_too_large(&self, content: &str) -> (b: bool)
        ensures
            b == (byte_len(content@) > self.spec_config().max_file_bytes),
    {
        content.len() > self.config.max_file_bytes
    }

    /// Splits text into overlapping line windows; windows shorter than
    /// `min_chunk_size` characters are skipped.
    pub fn chunk_text(&self, content: &str) -> (r: Vec<TextChunk>)
        ensures
            r@.map_values(|c: TextChunk| c@) == chunks_of(content@, self.spec_config()),
    {
        let cfg = self.config;
        let chars = to_chars(content);
        let ls = split_lines(chars.as_slice());
        let ghost lsv = ls@.map_values(|l: Vec<char>| l@);
        let total = ls.len();
        let step: usize = if cfg.chunk_lines > cfg.chunk_overlap && cfg.chunk_lines - cfg.chunk_overlap > 1 {
            cfg.chunk_lines - cfg.chunk_overlap
        } else {
            1
        };
        assert(step == cfg.step());
        let mut chunks: Vec<TextChunk> = Vec::new();
        let mut start: usize = 0;
        while start < total
            invariant
                total == ls@.len() == lsv.len(),
                lsv == ls@.map_values(|l: Vec<char>| l@),
                lsv == lines(content@),
                step == cfg.step(),
                cfg == self.spec_config(),
                start <= total,
                chunks_of(content@, cfg) == chunks@.map_values(|c: TextChunk| c@) + windows_from(lsv, cfg, start as int),
            decreases total - start,
        {
            let end: usize = if cfg.chunk_lines < total - start {
                start + cfg.chunk_lines
            } else {
                total
            };
            assert(end == window_end(cfg, total as int, start as int));
            let text = join_lines(&ls, start, end);
            let ghost prev = chunks@.map_values(|c: TextChunk| c@);
            let ghost rest = if start + step < total { windows_from(lsv, cfg, start + step) } else { seq![] };
            let text_chars = to_chars(text.as_str());
            if text_chars.len() >= cfg.min_chunk_size {
                let chunk = TextChunk {
                    start_line: (start + 1) as u32,
                    end_line: end as u32,
                    text,
                };
                let ghost cv = chunk@;
                chunks.push(chunk);
                assert(chunks@.map_values(|c: TextChunk| c@) =~= prev.push(cv));
                assert(prev.push(cv) + rest =~= prev + (seq![cv] + rest));
            }
            if step >= total - start {
                start = total;
            } else {
                start = start + step;
            }
        }
        assert(windows_from(lsv, cfg, start as int) =~= Seq::<(u32, u32, Seq<char>)>::empty());
        assert(chunks@.map_values(|c: TextChunk| c@) + Seq::<(u32, u32, Seq<char>)>::empty() =~= chunks@.map_values(|c: TextChunk| c@));
        chunks
    }

    /// Chunks each file that is not too large, keyed by its path, in order.
    pub fn chunk_files(&self, files: &[(&str, &str)]) -> (r: Vec<(String, Vec<TextChunk>)>)
        ensures
            r@.map_values(|e: (String, Vec<TextChunk>)| (e.0@, e.1@.map_values(|c: TextChunk| c@)))
                == chunked_files(files@.map_values(|f: (&str, &str)| (f.0@, f.1@)), self.spec_config()),
    {
        let ghost fv = files@.map_values(|f: (&str, &str)| (f.0@, f.1@));
        let mut out: Vec<(String, Vec<TextChunk>)> = Vec::new();
        let mut i: usize = 0;
        while i < files.len()
            invariant
                i <= files@.len(),
                fv == files@.map_values(|f: (&str, &str)| (f.0@, f.1@)),
                out@.map_values(|e: (String, Vec<TextChunk>)| (e.0@, e.1@.map_values(|c: TextChunk| c@)))
                    == chunked_files(fv.take(i as int), self.spec_config()),
            decreases files@.len() - i,
        {
            let (path, content) = files[i];
            assert(fv.take(i + 1).drop_last() =~= fv.take(i as int));
            if !self.is_file_too_large(content) {
                let chunks = self.chunk_text(content);
                let ghost prev = out@.map_values(|e: (String, Vec<TextChunk>)| (e.0@, e.1@.map_values(|c: TextChunk| c@)));
                out.push((String::from_str(path), chunks));
                assert(out@.map_values(|e: (String, Vec<TextChunk>)| (e.0@, e.1@.map_values(|c: TextChunk| c@)))
                    =~= prev.push((path@, chunks_of(content@, self.spec_config()))));
            }
            i += 1;
        }
        assert(fv.take(files@.len() as int) =~= fv);
        out
    }
}

/// Files (path, content) that are not too large, each with its chunks.
pub open spec fn chunked_files(files: Seq<(Seq<char>, Seq<char>)>, cfg: ChunkConfig) -> Seq<(Seq<char>, Seq<(u32, u32, Seq<char>)>)>
    decreases files.len(),
{
    if files.len() == 0 {
        seq![]
    } else {
        let prev = chunked_files(files.drop_last(), cfg);
        let (path, content) = files.last();
        if byte_len(content) > cfg.max_file_bytes {
            prev
        } else {
            prev.push((path, chunks_of(content, cfg)))
        }
    }
}

/// Every chunk `chunk_text` keeps is at least `min_chunk_size` characters long,
/// covers between one and `chunk_lines` lines, and its text is those lines
/// joined with newlines.
pub proof fn law_chunks_are_windows(ls: Seq<Seq<char>>, cfg: ChunkConfig, start: int, k: int)
    requires
        cfg.chunk_lines > 0,
        ls.len() <= u32::MAX,
        0 <= k < windows_from(ls, cfg, start).len(),
    ensures
        ({
            let c = windows_from(ls, cfg, start)[k];
            &&& c.2.len() >= cfg.min_chunk_size
            &&& 1 <= c.0 <= c.1 <= ls.len()
            &&& c.1 - c.0 + 1 <= cfg.chunk_lines
            &&& c.2 == join(ls.subrange(c.0 - 1, c.1 as int), seq!['\n'])
        }),
    decreases ls.len() - start,
{
    if start < 0 || start >= ls.len() {
    } else {
        let end = window_end(cfg, ls.len() as int, start);
        let text = join(ls.subrange(start, end), seq!['\n']);
        let rest = if start + cfg.step() < ls.len() {
            windows_from(ls, cfg, start + cfg.step())
        } else {
            seq![]
        };
        if text.len() >= cfg.min_chunk_size {
            if k > 0 {
                assert((seq![(((start + 1) as u32), (end as u32), text)] + rest)[k] == rest[k - 1]);
                law_chunks_are_windows(ls, cfg, start + cfg.step(), k - 1);
            }
        } else {
            law_chunks_are_windows(ls, cfg, start + cfg.step(), k);
        }
    }
}

} // verus!
