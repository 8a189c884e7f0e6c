//! Configuration values and their defaults: output format, search mode,
//! embeddings, indexing, caching and named profiles.
//!
//! Reading the configuration file is left to the caller; here are the
//! settings once read, and the rules that fill in what was left out.

use vstd::prelude::*;
use crate::text::{lowercase, str_eq, to_lowercase};

verus! {

/// Output format named in the configuration.
#[derive(Debug, Clone, Copy, PartialEq, Eq, Structural)]
pub enum ConfigOutputFormat {
    Text,
    Json,
    Json2,
}

impl Default for ConfigOutputFormat {
    fn default() -> (r: ConfigOutputFormat)
        ensures
            r == ConfigOutputFormat::Text,
    {
        ConfigOutputFormat::Text
    }
}

/// Search mode named in the configuration.
#[derive(Debug, Clone, Copy, PartialEq, Eq, Structural)]
pub enum SearchMode {
    Keyword,
    Semantic,
    Hybrid,
}

impl Default for SearchMode {
    fn default() -> (r: SearchMode)
        ensures
            r == SearchMode::Keyword,
    {
        SearchMode::Keyword
    }
}

/// Whether embeddings are used.
#[derive(Debug, Clone, Copy, PartialEq, Eq, Structural)]
pub enum EmbeddingEnabled {
    Off,
    Auto,
    On,
}

impl Default for EmbeddingEnabled {
    fn default() -> (r: EmbeddingEnabled)
        ensures
            r == EmbeddingEnabled::Auto,
    {
        EmbeddingEnabled::Auto
    }
}

/// Which embedding provider is used.
#[derive(Debug, Clone, Copy, PartialEq, Eq, Structural)]
pub enum EmbeddingProviderType {
    Command,
    Builtin,
    Dummy,
}

impl Default for EmbeddingProviderType {
    fn default() -> (r: EmbeddingProviderType)
        ensures
            r == EmbeddingProviderType::Command,
    {
        EmbeddingProviderType::Command
    }
}

/// Search settings (the hybrid score weights are handled by the caller).
#[derive(Debug, Clone, Copy)]
pub struct SearchConfig {
    /// Default search mode.
    pub default_mode: Option<SearchMode>,
    /// Candidates fetched for reranking in hybrid mode.
    pub candidate_k: Option<usize>,
}

impl SearchConfig {
    /// Settings with nothing set.
    pub fn unset() -> (c: SearchConfig)
        ensures
            c.default_mode is None,
            c.candidate_k is None,
    {
        SearchConfig { default_mode: None, candidate_k: None }
    }

    /// Default search mode (keyword unless set).
    pub fn mode(&self) -> (m: SearchMode)
        ensures
            m == match self.default_mode {
                Some(x) => x,
                None => SearchMode::Keyword,
            },
    {
        match self.default_mode {
            Some(x) => x,
            None => SearchMode::Keyword,
        }
    }

    /// Candidates for hybrid reranking (200 unless set).
    pub fn candidate_k(&self) -> (k: usize)
        ensures
            k == match self.candidate_k {
                Some(x) => x,
                None => 200,
            },
    {
        match self.candidate_k {
            Some(x) => x,
            None => 200,
        }
    }
}

/// Embedding settings.
#[derive(Debug, Clone)]
pub struct EmbeddingConfig {
    pub enabled: Option<EmbeddingEnabled>,
    pub provider: Option<EmbeddingProviderType>,
    /// Model identifier.
    pub model: Option<String>,
    /// Command run by the command provider.
    pub command: Option<String>,
    /// Lines per chunk.
    pub chunk_lines: Option<usize>,
    /// Lines shared by consecutive chunks.
    pub chunk_overlap: Option<usize>,
    /// Largest file, in bytes, that is embedded.
    pub max_file_bytes: Option<usize>,
    /// Most chunks searched semantically.
    pub semantic_max_chunks: Option<usize>,
}

/// The value of an optional string, or a default.
pub open spec fn str_or(v: Option<String>, d: Seq<char>) -> Seq<char> {
    match v {
        Some(s) => s@,
        None => d,
    }
}

/// The value of an optional number, or a default.
pub open spec fn usize_or(v: Option<usize>, d: usize) -> usize {
    match v {
        Some(x) => x,
        None => d,
    }
}

impl EmbeddingConfig {
    /// Settings with nothing set.
    pub fn unset() -> (c: EmbeddingConfig)
        ensures
            c.enabled is None,
            c.provider is None,
            c.model is None,
            c.command is None,
            c.chunk_lines is None,
            c.chunk_overlap is None,
            c.max_file_bytes is None,
            c.semantic_max_chunks is None,
    {
        EmbeddingConfig {
            enabled: None,
            provider: None,
            model: None,
            command: None,
            chunk_lines: None,
            chunk_overlap: None,
            max_file_bytes: None,
            semantic_max_chunks: None,
        }
    }

    /// Whether embeddings are enabled (auto unless set).
    pub fn enabled(&self) -> (e: EmbeddingEnabled)
        ensures
            e == match self.enabled {
                Some(x) => x,
                None => EmbeddingEnabled::Auto,
            },
    {
        match self.enabled {
            Some(x) => x,
            None => EmbeddingEnabled::Auto,
        }
    }

    /// The provider (the command provider unless set).
    pub fn provider(&self) -> (p: EmbeddingProviderType)
        ensures
            p == match self.provider {
                Some(x) => x,
                None => EmbeddingProviderType::Command,
            },
    {
        match self.provider {
            Some(x) => x,
            None => EmbeddingProviderType::Command,
        }
    }

    /// The model identifier (`local-model-id` unless set).
    pub fn model(&self) -> (m: &str)
        ensures
            m@ == str_or(self.model, "local-model-id"@),
    {
        match &self.model {
            Some(s) => s.as_str(),
            None => "local-model-id",
        }
    }

    /// The embedding command (`embedder` unless set).
    pub fn command(&self) -> (c: &str)
        ensures
            c@ == str_or(self.command, "embedder"@),
    {
        match &self.command {
            Some(s) => s.as_str(),
            None => "embedder",
        }
    }

    /// Lines per chunk (80 unless set).
    pub fn chunk_lines(&self) -> (n: usize)
        ensures
            n == usize_or(self.chunk_lines, 80),
    {
        match self.chunk_lines {
            Some(x) => x,
            None => 80,
        }
    }

    /// Overlap between chunks (20 unless set).
    pub fn chunk_overlap(&self) -> (n: usize)
        ensures
            n == usize_or(self.chunk_overlap, 20),
    {
        match self.chunk_overlap {
            Some(x) => x,
            None => 20,
        }
    }

    /// Largest embedded file (2,000,000 bytes unless set).
    pub fn max_file_bytes(&self) -> (n: usize)
        ensures
            n == usize_or(self.max_file_bytes, 2_000_000),
    {
        match self.max_file_bytes {
            Some(x) => x,
            None => 2_000_000,
        }
    }

    /// Most chunks searched semantically (200,000 unless set).
    pub fn semantic_max_chunks(&self) -> (n: usize)
        ensures
            n == usize_or(self.semantic_max_chunks, 200_000),
    {
        match self.semantic_max_chunks {
            Some(x) => x,
            None => 200_000,
        }
    }

    /// Whether any embedding setting was given at all.
    pub fn any_set(&self) -> (b: bool)
        ensures
            b == (self.enabled is Some || self.provider is Some || self.model is Some || self.command is Some
                || self.chunk_lines is Some || self.chunk_overlap is Some || self.max_file_bytes is Some
                || self.semantic_max_chunks is Some),
    {
        self.enabled.is_some() || self.provider.is_some() || self.model.is_some() || self.command.is_some()
            || self.chunk_lines.is_some() || self.chunk_overlap.is_some() || self.max_file_bytes.is_some()
            || self.semantic_max_chunks.is_some()
    }
}

/// Indexing settings.
#[derive(Debug, Clone)]
pub struct IndexConfig {
    /// Path patterns left out of the index.
    pub exclude_paths: Vec<String>,
    /// Largest indexed file in bytes.
    pub max_file_size: Option<u64>,
}

impl IndexConfig {
    /// Settings with nothing set.
    pub fn unset() -> (c: IndexConfig)
        ensures
            c.exclude_paths@.len() == 0,
            c.max_file_size is None,
    {
        IndexConfig { exclude_paths: Vec::new(), max_file_size: None }
    }

    /// The excluded path patterns.
    pub fn exclude_paths(&self) -> (p: &[String])
        ensures
            p@ == self.exclude_paths@,
    {
        self.exclude_paths.as_slice()
    }

    /// Largest indexed file (1 MiB unless set).
    pub fn max_file_size(&self) -> (n: u64)
        ensures
            n == match self.max_file_size {
                Some(x) => x,
                None => 1048576,
            },
    {
        match self.max_file_size {
            Some(x) => x,
            None => 1024 * 1024,
        }
    }
}

/// Cache settings.
#[derive(Debug, Clone, Copy)]
pub struct CacheConfig {
    pub enabled: Option<bool>,
    /// Time to live in milliseconds.
    pub ttl_ms: Option<u64>,
}

impl CacheConfig {
    /// Settings with nothing set.
    pub fn unset() -> (c: CacheConfig)
        ensures
            c.enabled is None,
            c.ttl_ms is None,
    {
        CacheConfig { enabled: None, ttl_ms: None }
    }

    /// Whether caching is on (it is unless set).
    pub fn enabled(&self) -> (b: bool)
        ensures
            b == match self.enabled {
                Some(x) => x,
                None => true,
            },
    {
        match self.enabled {
            Some(x) => x,
            None => true,
        }
    }

    /// Time to live (ten minutes unless set).
    pub fn ttl_ms(&self) -> (n: u64)
        ensures
            n == match self.ttl_ms {
                Some(x) => x,
                None => 600_000,
            },
    {
        match self.ttl_ms {
            Some(x) => x,
            None => 600_000,
        }
    }
}

/// A named profile of search settings.
#[derive(Debug, Clone, Copy, PartialEq, Eq, Structural)]
pub struct ProfileConfig {
    pub format: Option<ConfigOutputFormat>,
    /// Context lines around matches.
    pub context: Option<usize>,
    /// Context pack size for agents.
    pub context_pack: Option<usize>,
    pub max_results: Option<usize>,
    pub mode: Option<SearchMode>,
    /// Whether agents cache results.
    pub agent_cache: Option<bool>,
}

/// The built-in `human` profile.
pub open spec fn human_profile() -> ProfileConfig {
    ProfileConfig {
        format: Some(ConfigOutputFormat::Text),
        context: Some(2),
        context_pack: None,
        max_results: Some(20),
        mode: Some(SearchMode::Keyword),
        agent_cache: None,
    }
}

/// The built-in `agent` profile.
pub open spec fn agent_profile() -> ProfileConfig {
    ProfileConfig {
        format: Some(ConfigOutputFormat::Json2),
        context: Some(6),
        context_pack: Some(8),
        max_results: Some(50),
        mode: Some(SearchMode::Hybrid),
        agent_cache: Some(true),
    }
}

/// The built-in `fast` profile.
pub open spec fn fast_profile() -> ProfileConfig {
    ProfileConfig {
        format: Some(ConfigOutputFormat::Text),
        context: Some(0),
        context_pack: None,
        max_results: Some(10),
        mode: Some(SearchMode::Keyword),
        agent_cache: None,
    }
}

/// A profile with nothing set.
pub open spec fn empty_profile() -> ProfileConfig {
    ProfileConfig { format: None, context: None, context_pack: None, max_results: None, mode: None, agent_cache: None }
}

impl Default for ProfileConfig {
    fn default() -> (p: ProfileConfig)
        ensures
            p == empty_profile(),
    {
        ProfileConfig { format: None, context: None, context_pack: None, max_results: None, mode: None, agent_cache: None }
    }
}

impl ProfileConfig {
    /// The preset for people reading results.
    pub fn human() -> (p: ProfileConfig)
        ensures
            p == human_profile(),
    {
        ProfileConfig {
            format: Some(ConfigOutputFormat::Text),
            context: Some(2),
            context_pack: None,
            max_results: Some(20),
            mode: Some(SearchMode::Keyword),
            agent_cache: None,
        }
    }

    /// The preset for agents.
    pub fn agent() -> (p: ProfileConfig)
        ensures
            p == agent_profile(),
    {
        ProfileConfig {
            format: Some(ConfigOutputFormat::Json2),
            context: Some(6),
            context_pack: Some(8),
            max_results: Some(50),
            mode: Some(SearchMode::Hybrid),
            agent_cache: Some(true),
        }
    }

    /// The preset for quick exploration.
    pub fn fast() -> (p: ProfileConfig)
        ensures
            p == fast_profile(),
    {
        ProfileConfig {
            format: Some(ConfigOutputFormat::Text),
            context: Some(0),
            context_pack: None,
            max_results: Some(10),
            mode: Some(SearchMode::Keyword),
            agent_cache: None,
        }
    }

    /// Output format (text unless set).
    pub fn format(&self) -> (f: ConfigOutputFormat)
        ensures
            f == match self.format {
                Some(x) => x,
                None => ConfigOutputFormat::Text,
            },
    {
        match self.format {
            Some(x) => x,
            None => ConfigOutputFormat::Text,
        }
    }

    /// Context lines (2 unless set).
    pub fn context(&self) -> (n: usize)
        ensures
            n == usize_or(self.context, 2),
    {
        match self.context {
            Some(x) => x,
            None => 2,
        }
    }

    /// Context pack size (the context lines unless set).
    pub fn context_pack(&self) -> (n: usize)
        ensures
            n == usize_or(self.context_pack, usize_or(self.context, 2)),
    {
        match self.context_pack {
            Some(x) => x,
            None => self.context(),
        }
    }

    /// Most results (20 unless set).
    pub fn max_results(&self) -> (n: usize)
        ensures
            n == usize_or(self.max_results, 20),
    {
        match self.max_results {
            Some(x) => x,
            None => 20,
        }
    }

    /// Search mode (keyword unless set).
    pub fn mode(&self) -> (m: SearchMode)
        ensures
            m == match self.mode {
                Some(x) => x,
                None => SearchMode::Keyword,
            },
    {
        match self.mode {
            Some(x) => x,
            None => SearchMode::Keyword,
        }
    }

    /// Whether agents cache results (not unless set).
    pub fn agent_cache(&self) -> (b: bool)
        ensures
            b == match self.agent_cache {
                Some(x) => x,
                None => false,
            },
    {
        match self.agent_cache {
            Some(x) => x,
            None => false,
        }
    }
}

/// All settings.
#[derive(Debug, Clone)]
pub struct Config {
    /// Most results returned.
    pub max_results: Option<usize>,
    /// Default output format, as written.
    pub default_format: Option<String>,
    /// Patterns excluded from search.
    pub exclude_patterns: Vec<String>,
    pub search: SearchConfig,
    pub embeddings: EmbeddingConfig,
    pub cache: CacheConfig,
    pub index: IndexConfig,
    /// Named profiles, each name given once.
    pub profiles: Vec<(String, ProfileConfig)>,
}

/// The output format a configured name stands for (`json` or `text`, in
/// any case).
pub open spec fn format_named(name: Seq<char>) -> Option<ConfigOutputFormat> {
    if lowercase(name) == "json"@ {
        Some(ConfigOutputFormat::Json)
    } else if lowercase(name) == "text"@ {
        Some(ConfigOutputFormat::Text)
    } else {
        None
    }
}

/// Index of the first profile named `name`, or the count when none is.
pub open spec fn profile_index(profiles: Seq<(String, ProfileConfig)>, name: Seq<char>, i: int) -> int
    decreases profiles.len() - i,
{
    if i < 0 || i >= profiles.len() {
        profiles.len() as int
    } else if profiles[i].0@ == name {
        i
    } else {
        profile_index(profiles, name, i + 1)
    }
}

/// The profile called `name`: the configured one, else the built-in
/// preset of that name, else an empty profile.
pub open spec fn named_profile(profiles: Seq<(String, ProfileConfig)>, name: Seq<char>) -> ProfileConfig {
    let k = profile_index(profiles, name, 0);
    if k < profiles.len() {
        profiles[k].1
    } else if name == "human"@ {
        human_profile()
    } else if name == "agent"@ {
        agent_profile()
    } else if name == "fast"@ {
        fast_profile()
    } else {
        empty_profile()
    }
}

impl Default for Config {
    fn default() -> (c: Config)
        ensures
            c.max_results is None,
            c.default_format is None,
            c.exclude_patterns@.len() == 0,
            c.search.default_mode is None && c.search.candidate_k is None,
            c.embeddings.enabled is None && c.embeddings.provider is None && c.embeddings.model is None
                && c.embeddings.command is None && c.embeddings.chunk_lines is None
                && c.embeddings.chunk_overlap is None && c.embeddings.max_file_bytes is None
                && c.embeddings.semantic_max_chunks is None,
            c.cache.enabled is None && c.cache.ttl_ms is None,
            c.index.exclude_paths@.len() == 0 && c.index.max_file_size is None,
            c.profiles@.len() == 0,
    {
        Config {
            max_results: None,
            default_format: None,
            exclude_patterns: Vec::new(),
            search: SearchConfig::unset(),
            embeddings: EmbeddingConfig::unset(),
            cache: CacheConfig::unset(),
            index: IndexConfig::unset(),
            profiles: Vec::new(),
        }
    }
}

impl Config {
    /// The configured output format, when it names one.
    pub fn output_format(&self) -> (f: Option<ConfigOutputFormat>)
        ensures
            f == match self.default_format {
                Some(s) => format_named(s@),
                None => None,
            },
    {
        match &self.default_format {
            Some(s) => {
                let l = to_lowercase(s.as_str());
                if str_eq(l.as_str(), "json") {
                    Some(ConfigOutputFormat::Json)
                } else if str_eq(l.as_str(), "text") {
                    Some(ConfigOutputFormat::Text)
                } else {
                    None
                }
            },
            None => None,
        }
    }

    /// The result limit: the command line's, else the configured one, else 10.
    pub fn merge_max_results(&self, cli_value: Option<usize>) -> (n: usize)
        ensures
            n == match cli_value {
                Some(v) => v,
                None => usize_or(self.max_results, 10),
            },
    {
        match cli_value {
            Some(v) => v,
            None => match self.max_results {
                Some(v) => v,
                None => 10,
            },
        }
    }

    /// The profile called `name`.
    pub fn profile(&self, name: &str) -> (p: ProfileConfig)
        ensures
            p == named_profile(self.profiles@, name@),
    {
        let mut i: usize = 0;
        while i < self.profiles.len()
            invariant
                i <= self.profiles@.len(),
                profile_index(self.profiles@, name@, 0) == profile_index(self.profiles@, name@, i as int),
            decreases self.profiles@.len() - i,
        {
            if str_eq(self.profiles[i].0.as_str(), name) {
                return self.profiles[i].1;
            }
            i += 1;
        }
        if str_eq(name, "human") {
            ProfileConfig::human()
        } else if str_eq(name, "agent") {
            ProfileConfig::agent()
        } else if str_eq(name, "fast") {
            ProfileConfig::fast()
        } else {
            ProfileConfig::default()
        }
    }

    /// The search settings.
    pub fn search(&self) -> (s: &SearchConfig)
        ensures
            *s == self.search,
    {
        &self.search
    }

    /// The embedding settings.
    pub fn embeddings(&self) -> (e: &EmbeddingConfig)
        ensures
            *e == self.embeddings,
    {
        &self.embeddings
    }

    /// The cache settings.
    pub fn cache(&self) -> (c: &CacheConfig)
        ensures
            *c == self.cache,
    {
        &self.cache
    }

    /// The index settings.
    pub fn index(&self) -> (i: &IndexConfig)
        ensures
            *i == self.index,
    {
        &self.index
    }

    /// Whether embeddings are used: only when turned on (auto does not
    /// turn them on).
    pub fn embeddings_enabled(&self) -> (b: bool)
        ensures
            b == (self.embeddings.enabled == Some(EmbeddingEnabled::On)),
    {
        match self.embeddings.enabled() {
            EmbeddingEnabled::Off => false,
            EmbeddingEnabled::On => true,
            EmbeddingEnabled::Auto => false,
        }
    }
}

} // verus!
