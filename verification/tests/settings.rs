use cgrep::cli::{
    forward_args, global_format, is_subcommand, resolve_search_settings, CliSearchMode, OutputFormat,
    SearchFlags,
};
use cgrep::config::{Config, ConfigOutputFormat, EmbeddingEnabled, ProfileConfig, SearchMode as ConfigMode};
use cgrep::hybrid::SearchMode;

fn flags() -> SearchFlags {
    SearchFlags {
        format: None,
        limit: None,
        context: None,
        context_pack: None,
        agent_cache: false,
        cache_ttl: None,
        mode: None,
        keyword: false,
        semantic: false,
        hybrid: false,
    }
}

#[test]
fn profile_presets_and_lookup() {
    let config = Config::default();
    let human = config.profile("human");
    assert_eq!(human, ProfileConfig::human());
    assert_eq!(human.max_results(), 20);
    assert_eq!(config.profile("agent").context_pack(), 8);
    assert_eq!(config.profile("fast").context(), 0);
    assert_eq!(config.profile("nope"), ProfileConfig::default());
    let mut custom = Config::default();
    let p = ProfileConfig { max_results: Some(3), ..ProfileConfig::default() };
    custom.profiles.push(("human".to_string(), p));
    assert_eq!(custom.profile("human").max_results(), 3);
    assert_eq!(ProfileConfig::default().context_pack(), 2);
}

#[test]
fn config_defaults() {
    let c = Config::default();
    assert_eq!(c.merge_max_results(None), 10);
    assert_eq!(c.merge_max_results(Some(4)), 4);
    assert_eq!(c.embeddings().model(), "local-model-id");
    assert_eq!(c.embeddings().command(), "embedder");
    assert_eq!(c.embeddings().max_file_bytes(), 2_000_000);
    assert_eq!(c.cache().ttl_ms(), 600_000);
    assert!(c.cache().enabled());
    assert_eq!(c.index().max_file_size(), 1024 * 1024);
    assert_eq!(c.search().candidate_k(), 200);
    assert!(!c.embeddings_enabled());
    let mut on = Config::default();
    on.embeddings.enabled = Some(EmbeddingEnabled::On);
    assert!(on.embeddings_enabled());
    on.default_format = Some("JSON".to_string());
    assert_eq!(on.output_format(), Some(ConfigOutputFormat::Json));
    on.default_format = Some("json2".to_string());
    assert_eq!(on.output_format(), None);
}

#[test]
fn search_settings_precedence() {
    let mut config = Config::default();
    config.max_results = Some(30);
    config.search.default_mode = Some(ConfigMode::Semantic);
    let s = resolve_search_settings(&flags(), None, &config);
    assert_eq!(s.format, OutputFormat::Text);
    assert_eq!(s.max_results, 30);
    assert_eq!(s.context, 0);
    assert_eq!(s.cache_ttl, Some(600_000));
    assert_eq!(s.mode, Some(SearchMode::Semantic));
    let agent = config.profile("agent");
    let s = resolve_search_settings(&flags(), Some(agent), &config);
    assert_eq!(s.format, OutputFormat::Json2);
    assert_eq!(s.max_results, 50);
    assert_eq!(s.context, 6);
    assert_eq!(s.context_pack, Some(8));
    assert!(s.agent_cache);
    assert_eq!(s.mode, Some(SearchMode::Hybrid));
    let mut f = flags();
    f.limit = Some(5);
    f.mode = Some(CliSearchMode::Keyword);
    f.semantic = true;
    let s = resolve_search_settings(&f, Some(agent), &config);
    assert_eq!(s.max_results, 5);
    assert_eq!(s.mode, Some(SearchMode::Semantic));
    assert_eq!(global_format(None, &config), OutputFormat::Text);
    assert_eq!(global_format(Some(OutputFormat::Json), &config), OutputFormat::Json);
}

#[test]
fn short_command_forwarding() {
    assert!(is_subcommand("Search"));
    assert!(is_subcommand("install-codex"));
    assert!(!is_subcommand("foo"));
    assert_eq!(forward_args(&[]), vec!["--help".to_string()]);
    assert_eq!(forward_args(&["foo".to_string(), "-m".to_string()]), vec!["search", "foo", "-m"]);
    assert_eq!(forward_args(&["index".to_string()]), vec!["index"]);
    assert_eq!(forward_args(&["--version".to_string()]), vec!["--version"]);
}
