//! Command-line choices and how the search command's settings are settled
//! from flags, the chosen profile and the configuration.
//!
//! Parsing the command line is the caller's; here are the values it yields
//! and the rules that combine them.

use vstd::prelude::*;
use crate::config::{format_named, Config, ConfigOutputFormat, ProfileConfig, SearchMode as ConfigSearchMode};
use crate::hybrid::SearchMode;
use crate::text::{lowercase, str_eq, to_lowercase};

verus! {

/// Output format of results.
#[derive(Debug, Clone, Copy, PartialEq, Eq, Structural)]
pub enum OutputFormat {
    Text,
    Json,
    /// Structured JSON for agents.
    Json2,
}

/// Search mode chosen on the command line.
#[derive(Debug, Clone, Copy, PartialEq, Eq, Structural)]
pub enum CliSearchMode {
    Keyword,
    Semantic,
    Hybrid,
}

/// Output budget preset.
#[derive(Debug, Clone, Copy, PartialEq, Eq, Structural)]
pub enum CliBudgetPreset {
    Tight,
    Balanced,
    Full,
    Off,
}

/// Agent whose instructions are installed or removed.
#[derive(Debug, Clone, Copy, PartialEq, Eq, Structural)]
pub enum AgentProvider {
    ClaudeCode,
    Codex,
    Copilot,
    Opencode,
}

/// Agent subcommands.
#[derive(Debug, Clone)]
pub enum AgentCommands {
    /// Locate candidate regions with a small payload.
    Locate {
        query: String,
        path: Option<String>,
        /// Revision to compare against, for changed files only.
        changed: Option<String>,
        limit: Option<usize>,
        mode: Option<CliSearchMode>,
        budget: Option<CliBudgetPreset>,
    },
    /// Expand result ids into context.
    Expand { ids: Vec<String>, path: Option<String>, context: Option<usize> },
    /// Install instructions for an agent.
    Install { provider: AgentProvider },
    /// Remove an agent's instructions.
    Uninstall { provider: AgentProvider },
}

/// The command-line format for a configured one.
pub open spec fn format_of_config(f: ConfigOutputFormat) -> OutputFormat {
    match f {
        ConfigOutputFormat::Text => OutputFormat::Text,
        ConfigOutputFormat::Json => OutputFormat::Json,
        ConfigOutputFormat::Json2 => OutputFormat::Json2,
    }
}

/// Converts a configured output format.
pub fn config_output_to_cli(format: ConfigOutputFormat) -> (f: OutputFormat)
    ensures
        f == format_of_config(format),
{
    match format {
        ConfigOutputFormat::Text => OutputFormat::Text,
        ConfigOutputFormat::Json => OutputFormat::Json,
        ConfigOutputFormat::Json2 => OutputFormat::Json2,
    }
}

/// The search mode for a configured one.
pub open spec fn mode_of_config(m: ConfigSearchMode) -> SearchMode {
    match m {
        ConfigSearchMode::Keyword => SearchMode::Keyword,
        ConfigSearchMode::Semantic => SearchMode::Semantic,
        ConfigSearchMode::Hybrid => SearchMode::Hybrid,
    }
}

/// Converts a configured search mode.
pub fn config_search_mode_to_hybrid(mode: ConfigSearchMode) -> (m: SearchMode)
    ensures
        m == mode_of_config(mode),
{
    match mode {
        ConfigSearchMode::Keyword => SearchMode::Keyword,
        ConfigSearchMode::Semantic => SearchMode::Semantic,
        ConfigSearchMode::Hybrid => SearchMode::Hybrid,
    }
}

/// The search mode for a command-line one.
pub open spec fn mode_of_cli(m: CliSearchMode) -> SearchMode {
    match m {
        CliSearchMode::Keyword => SearchMode::Keyword,
        CliSearchMode::Semantic => SearchMode::Semantic,
        CliSearchMode::Hybrid => SearchMode::Hybrid,
    }
}

/// Converts a command-line search mode.
pub fn cli_mode_to_hybrid(mode: CliSearchMode) -> (m: SearchMode)
    ensures
        m == mode_of_cli(mode),
{
    match mode {
        CliSearchMode::Keyword => SearchMode::Keyword,
        CliSearchMode::Semantic => SearchMode::Semantic,
        CliSearchMode::Hybrid => SearchMode::Hybrid,
    }
}

/// The format used when the command sets none: the configured one, else text.
pub open spec fn default_format_of(config: Config) -> OutputFormat {
    match config.default_format {
        Some(s) => match format_named(s@) {
            Some(f) => format_of_config(f),
            None => OutputFormat::Text,
        },
        None => OutputFormat::Text,
    }
}

/// The output format of commands other than search.
pub fn global_format(cli_format: Option<OutputFormat>, config: &Config) -> (f: OutputFormat)
    ensures
        f == match cli_format {
            Some(x) => x,
            None => default_format_of(*config),
        },
{
    match cli_format {
        Some(x) => x,
        None => match config.output_format() {
            Some(c) => config_output_to_cli(c),
            None => OutputFormat::Text,
        },
    }
}

/// The search command's flags that settings are drawn from.
#[derive(Debug, Clone, Copy)]
pub struct SearchFlags {
    pub format: Option<OutputFormat>,
    pub limit: Option<usize>,
    pub context: Option<usize>,
    pub context_pack: Option<usize>,
    pub agent_cache: bool,
    pub cache_ttl: Option<u64>,
    pub mode: Option<CliSearchMode>,
    pub keyword: bool,
    pub semantic: bool,
    pub hybrid: bool,
}

/// Settled settings of a search.
#[derive(Debug, Clone, Copy, PartialEq, Eq, Structural)]
pub struct SearchSettings {
    pub format: OutputFormat,
    pub max_results: usize,
    pub context: usize,
    pub context_pack: Option<usize>,
    pub agent_cache: bool,
    pub cache_ttl: Option<u64>,
    pub mode: Option<SearchMode>,
}

/// First of two optional values.
pub open spec fn or_else<T>(a: Option<T>, b: Option<T>) -> Option<T> {
    match a {
        Some(x) => Some(x),
        None => b,
    }
}

/// The settings of a search: each flag wins over the profile, which wins
/// over the configuration, which wins over the built-in default (text,
/// 20 results, no context, the configured cache lifetime); the mode flags
/// `--hybrid`, `--semantic`, `--keyword` win in that order over `--mode`.
pub open spec fn settled(flags: SearchFlags, profile: Option<ProfileConfig>, config: Config) -> SearchSettings {
    let pf = match profile {
        Some(p) => match p.format {
            Some(f) => Some(format_of_config(f)),
            None => None,
        },
        None => None,
    };
    let cf = match config.default_format {
        Some(s) => match format_named(s@) {
            Some(f) => Some(format_of_config(f)),
            None => None,
        },
        None => None,
    };
    let format = match or_else(flags.format, or_else(pf, cf)) {
        Some(f) => f,
        None => OutputFormat::Text,
    };
    let pmax = match profile {
        Some(p) => p.max_results,
        None => None,
    };
    let max_results = match or_else(flags.limit, or_else(pmax, config.max_results)) {
        Some(n) => n,
        None => 20,
    };
    let pctx = match profile {
        Some(p) => p.context,
        None => None,
    };
    let context = match or_else(flags.context, pctx) {
        Some(n) => n,
        None => 0,
    };
    let ppack = match profile {
        Some(p) => or_else(p.context_pack, p.context),
        None => None,
    };
    let pcache = match profile {
        Some(p) => match p.agent_cache {
            Some(b) => b,
            None => false,
        },
        None => false,
    };
    let ttl = match config.cache.ttl_ms {
        Some(t) => t,
        None => 600_000,
    };
    let pmode = match profile {
        Some(p) => match p.mode {
            Some(m) => Some(mode_of_config(m)),
            None => None,
        },
        None => None,
    };
    let cmode = match config.search.default_mode {
        Some(m) => Some(mode_of_config(m)),
        None => None,
    };
    let fmode = match flags.mode {
        Some(m) => Some(mode_of_cli(m)),
        None => None,
    };
    let mode = if flags.hybrid {
        Some(SearchMode::Hybrid)
    } else if flags.semantic {
        Some(SearchMode::Semantic)
    } else if flags.keyword {
        Some(SearchMode::Keyword)
    } else {
        or_else(fmode, or_else(pmode, cmode))
    };
    SearchSettings {
        format,
        max_results,
        context,
        context_pack: or_else(flags.context_pack, ppack),
        agent_cache: flags.agent_cache || pcache,
        cache_ttl: Some(match flags.cache_ttl {
            Some(t) => t,
            None => ttl,
        }),
        mode,
    }
}

/// Settles the settings of a search.
pub fn resolve_search_settings(flags: &SearchFlags, profile: Option<ProfileConfig>, config: &Config) -> (s: SearchSettings)
    ensures
        s == settled(*flags, profile, *config),
{
    let pf = match profile {
        Some(p) => match p.format {
            Some(f) => Some(config_output_to_cli(f)),
            None => None,
        },
        None => None,
    };
    let cf = match config.output_format() {
        Some(f) => Some(config_output_to_cli(f)),
        None => None,
    };
    let format = match flags.format {
        Some(f) => f,
        None => match pf {
            Some(f) => f,
            None => match cf {
                Some(f) => f,
                None => OutputFormat::Text,
            },
        },
    };
    let pmax = match profile {
        Some(p) => p.max_results,
        None => None,
    };
    let max_results = match flags.limit {
        Some(n) => n,
        None => match pmax {
            Some(n) => n,
            None => match config.max_results {
                Some(n) => n,
                None => 20,
            },
        },
    };
    let pctx = match profile {
        Some(p) => p.context,
        None => None,
    };
    let context = match flags.context {
        Some(n) => n,
        None => match pctx {
            Some(n) => n,
            None => 0,
        },
    };
    let ppack = match profile {
        Some(p) => match p.context_pack {
            Some(n) => Some(n),
            None => p.context,
        },
        None => None,
    };
    let context_pack = match flags.context_pack {
        Some(n) => Some(n),
        None => ppack,
    };
    let pcache = match profile {
        Some(p) => match p.agent_cache {
            Some(b) => b,
            None => false,
        },
        None => false,
    };
    let cache_ttl = match flags.cache_ttl {
        Some(t) => Some(t),
        None => Some(config.cache.ttl_ms()),
    };
    let mode = if flags.hybrid {
        Some(SearchMode::Hybrid)
    } else if flags.semantic {
        Some(SearchMode::Semantic)
    } else if flags.keyword {
        Some(SearchMode::Keyword)
    } else {
        match flags.mode {
            Some(m) => Some(cli_mode_to_hybrid(m)),
            None => match profile {
                Some(p) => match p.mode {
                    Some(m) => Some(config_search_mode_to_hybrid(m)),
                    None => match config.search.default_mode {
                        Some(m) => Some(config_search_mode_to_hybrid(m)),
                        None => None,
                    },
                },
                None => match config.search.default_mode {
                    Some(m) => Some(config_search_mode_to_hybrid(m)),
                    None => None,
                },
            },
        }
    };
    SearchSettings { format, max_results, context, context_pack, agent_cache: flags.agent_cache || pcache, cache_ttl, mode }
}

/// The subcommand names and aliases of the tool.
pub open spec fn subcommand_names() -> Seq<Seq<char>> {
    seq![
        "search"@, "s"@, "symbols"@, "definition"@, "def"@, "callers"@, "references"@, "refs"@,
        "dependents"@, "deps"@, "index"@, "watch"@,
        "install-codex"@, "uninstall-codex"@, "install-copilot"@, "uninstall-copilot"@,
        "install-opencode"@, "uninstall-opencode"@, "completions"@, "help"@,
    ]
}

/// Whether an argument names a subcommand (in any case).
pub fn is_subcommand(arg: &str) -> (b: bool)
    ensures
        b == subcommand_names().contains(lowercase(arg@)),
{
    let l = to_lowercase(arg);
    let names: [&str; 20] = [
        "search", "s", "symbols", "definition", "def", "callers", "references", "refs",
        "dependents", "deps", "index", "watch",
        "install-codex", "uninstall-codex", "install-copilot", "uninstall-copilot",
        "install-opencode", "uninstall-opencode", "completions", "help",
    ];
    assert(names@.map_values(|s: &str| s@) =~= subcommand_names());
    let mut i: usize = 0;
    while i < 20
        invariant
            i <= 20,
            names@.map_values(|s: &str| s@) == subcommand_names(),
            l@ == lowercase(arg@),
            forall|k: int| 0 <= k < i ==> subcommand_names()[k] != l@,
        decreases 20 - i,
    {
        if str_eq(names[i], l.as_str()) {
            assert(subcommand_names()[i as int] == l@);
            assert(subcommand_names().contains(l@));
            return true;
        }
        i += 1;
    }
    false
}

/// The arguments the short command passes on: help when there are none, a
/// search when the first is neither a flag nor a subcommand, else as given.
pub open spec fn forwarded(args: Seq<Seq<char>>) -> Seq<Seq<char>> {
    if args.len() == 0 {
        seq!["--help"@]
    } else if !(args[0].len() > 0 && args[0][0] == '-') && !subcommand_names().contains(lowercase(args[0])) {
        seq!["search"@] + args
    } else {
        args
    }
}

/// Views of strings.
pub open spec fn arg_views(v: Seq<String>) -> Seq<Seq<char>> {
    v.map_values(|s: String| s@)
}

/// The arguments the short command passes on.
pub fn forward_args(args: &[String]) -> (r: Vec<String>)
    ensures
        arg_views(r@) == forwarded(arg_views(args@)),
{
    let mut out: Vec<String> = Vec::new();
    if args.len() == 0 {
        out.push(String::from_str("--help"));
        assert(arg_views(out@) =~= seq!["--help"@]);
        return out;
    }
    let first = crate::text::to_chars(args[0].as_str());
    let is_flag = first.len() > 0 && first[0] == '-';
    if !is_flag && !is_subcommand(args[0].as_str()) {
        out.push(String::from_str("search"));
    }
    let ghost start = arg_views(out@);
    let mut i: usize = 0;
    while i < args.len()
        invariant
            i <= args@.len(),
            arg_views(out@) == start + arg_views(args@).take(i as int),
        decreases args@.len() - i,
    {
        let ghost before = arg_views(out@);
        out.push(args[i].clone());
        assert(arg_views(out@) =~= before.push(args@[i as int]@));
        assert(arg_views(args@).take(i + 1) =~= arg_views(args@).take(i as int).push(args@[i as int]@));
        i += 1;
    }
    assert(arg_views(args@).take(args@.len() as int) =~= arg_views(args@));
    proof {
        if !is_flag && !subcommand_names().contains(lowercase(args@[0]@)) {
            assert(start =~= seq!["search"@]);
        } else {
            assert(start =~= Seq::<Seq<char>>::empty());
            assert(Seq::<Seq<char>>::empty() + arg_views(args@) =~= arg_views(args@));
        }
    }
    out
}

} // verus!
