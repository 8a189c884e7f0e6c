use cgrep::embed_plan::{
    embed_step, merged_excludes, plan_file_embedding, provider_label, provider_use, schema_mismatch_use,
    wants_provider, writer_budget_bytes, EmbedStep, EmbeddingBatch, EmbeddingsMode, FileEmbedPlan,
    ProviderUse,
};
use cgrep::config::{EmbeddingEnabled, EmbeddingProviderType};
use cgrep::hybrid::SearchMode;
use cgrep::index_plan::FileMetadata;
use cgrep::search_plan::{
    collect_index_candidates, fetch_limit, fuzzy_terms, requested_mode, resolve_search_root, search_route,
    CandidateError, IndexMode, SearchRoute, StoredDoc,
};
use cgrep::scan::PathFilters;
use cgrep::storage::{delete_stale_query, hash_is_stale, is_symbol_unit, stale_symbol_removal, StaleSymbolRemoval};

fn no_filters() -> PathFilters<'static> {
    PathFilters { file_type: None, glob: None, exclude: None, config_excludes: &[] }
}

fn doc(path: &str, content: &str, line: Option<u64>, kind: &str) -> StoredDoc {
    StoredDoc {
        path: Some(path.to_string()),
        content: Some(content.to_string()),
        line_number: line,
        doc_type: Some(kind.to_string()),
        symbol_id: Some("sid".to_string()),
        symbol_end_line: Some(12),
    }
}

#[test]
fn embeddings_mode_parsing() {
    assert_eq!(EmbeddingsMode::parse("OFF"), Ok(EmbeddingsMode::Off));
    assert_eq!(EmbeddingsMode::parse("1"), Ok(EmbeddingsMode::Precompute));
    assert_eq!(EmbeddingsMode::parse("auto"), Ok(EmbeddingsMode::Auto));
    let e = EmbeddingsMode::parse("Later").unwrap_err();
    assert_eq!(e.message(), "Invalid value for --embeddings: 'later'. Expected one of: auto, precompute, off");
    assert!(EmbeddingsMode::Auto.tolerates_failure());
    assert!(!EmbeddingsMode::Precompute.tolerates_failure());
}

#[test]
fn provider_decisions() {
    assert!(!wants_provider(EmbeddingsMode::Auto, EmbeddingEnabled::Off));
    assert!(wants_provider(EmbeddingsMode::Precompute, EmbeddingEnabled::Off));
    assert_eq!(provider_use(EmbeddingsMode::Auto, false, true), ProviderUse::SkipWithWarning);
    assert_eq!(provider_use(EmbeddingsMode::Auto, false, false), ProviderUse::Skip);
    assert_eq!(provider_use(EmbeddingsMode::Precompute, false, false), ProviderUse::Fail);
    assert_eq!(provider_use(EmbeddingsMode::Off, true, true), ProviderUse::Skip);
    assert_eq!(schema_mismatch_use(EmbeddingsMode::Precompute), ProviderUse::Fail);
    assert_eq!(provider_label(EmbeddingProviderType::Dummy), "dummy");
    assert_eq!(writer_budget_bytes(false), 50_000_000);
    assert_eq!(writer_budget_bytes(true), 1 << 30);
    assert_eq!(
        merged_excludes(vec!["a".to_string()], &["b".to_string()]),
        vec!["a".to_string(), "b".to_string()]
    );
}

#[test]
fn embedding_steps() {
    let hashed = FileMetadata { mtime: 0, size: 0, hash: "h".to_string(), symbols: String::new(), is_binary: false };
    let binary = FileMetadata { is_binary: true, ..hashed.clone() };
    assert_eq!(embed_step(&binary, false, None), EmbedStep::DeleteSymbols);
    assert_eq!(embed_step(&hashed, false, None), EmbedStep::CheckStorage);
    assert_eq!(embed_step(&hashed, false, Some(false)), EmbedStep::SkipUpToDate);
    assert_eq!(embed_step(&hashed, true, None), EmbedStep::Read);
    assert!(matches!(plan_file_embedding("a.rs", "fn a() {}", 3), FileEmbedPlan::ReplaceEmpty));
    assert!(matches!(plan_file_embedding("a.txt", "hello", 100), FileEmbedPlan::DeleteSymbols));
    assert!(matches!(plan_file_embedding("a.rs", "// nothing", 100), FileEmbedPlan::ReplaceEmpty));
    match plan_file_embedding("src/a.rs", "fn alpha() {}\n", 1000) {
        FileEmbedPlan::Embed { texts, symbols } => {
            assert_eq!(texts, vec!["alpha function\nfn alpha() {}".to_string()]);
            assert_eq!(symbols[0].name, "alpha");
            assert_eq!(symbols[0].kind, "function");
            assert_eq!((symbols[0].start_line, symbols[0].end_line), (1, 1));
        },
        _ => panic!("expected texts to embed"),
    }
}

#[test]
fn batches_keep_files_contiguous() {
    let mut b = EmbeddingBatch::new();
    assert!(!b.should_flush(10, 4));
    b.push_file("a".to_string(), "h1".to_string(), vec!["x".to_string(), "y".to_string()], Vec::new_with_len(2));
    assert!(b.should_flush(3, 4));
    assert!(!b.should_flush(2, 4));
    b.push_file("b".to_string(), "h2".to_string(), vec!["z".to_string()], Vec::new_with_len(1));
    assert_eq!(b.entries[1].start_idx, 2);
    assert_eq!(b.entries[1].count, 1);
    assert_eq!(b.texts.len(), 3);
    b.clear();
    assert!(b.texts.is_empty() && b.entries.is_empty());
}

trait NewWithLen {
    fn new_with_len(n: usize) -> Self;
}

impl NewWithLen for Vec<cgrep::embed_plan::SymbolEmbeddingMeta> {
    fn new_with_len(n: usize) -> Self {
        (0..n)
            .map(|i| cgrep::embed_plan::SymbolEmbeddingMeta {
                symbol_id: format!("id{}", i),
                lang: "rust".to_string(),
                kind: "function".to_string(),
                name: format!("f{}", i),
                start_line: 1,
                end_line: 1,
            })
            .collect()
    }
}

#[test]
fn search_routing() {
    assert_eq!(requested_mode(true, false), IndexMode::Scan);
    assert_eq!(requested_mode(false, false), IndexMode::Index);
    assert_eq!(search_route(Some(SearchMode::Hybrid), IndexMode::Scan, false), SearchRoute::Hybrid);
    assert_eq!(search_route(None, IndexMode::Index, true), SearchRoute::Index);
    assert_eq!(search_route(None, IndexMode::Index, false), SearchRoute::Scan { index_missing: true });
    assert_eq!(search_route(Some(SearchMode::Keyword), IndexMode::Scan, true), SearchRoute::Scan { index_missing: false });
    assert_eq!(fetch_limit(0), 1);
    assert_eq!(fetch_limit(4), 20);
    assert_eq!(fetch_limit(usize::MAX), usize::MAX);
    let t = fuzzy_terms("  ab  abcde ").unwrap();
    assert_eq!(t, vec![("ab".to_string(), 1), ("abcde".to_string(), 2)]);
    assert!(fuzzy_terms("   ").is_none());
    assert_eq!(resolve_search_root("/home/u", Some("src/../lib")), "/home/u/lib");
    assert_eq!(resolve_search_root("/home/u", None), "/home/u");
    assert_eq!(resolve_search_root("/home/u", Some("/abs/./x")), "/abs/x");
}

#[test]
fn candidates_from_documents() {
    let docs = vec![
        doc("src/a.rs", "one\ntwo needle", Some(10), "file"),
        doc("other/b.rs", "needle", Some(1), "file"),
        doc("src/c.rs", "no match here", Some(5), "symbol"),
        doc("src/d.rs", "needle", None, "file"),
    ];
    let cs = collect_index_candidates("needle", "/repo", "/repo/src", 2, &no_filters(), &docs).unwrap();
    assert_eq!(cs.len(), 2);
    assert_eq!(cs[0].display_path, "a.rs");
    assert_eq!(cs[0].full_path, "/repo/src/a.rs");
    assert_eq!(cs[0].line, Some(11));
    assert_eq!(cs[0].symbol_id, None);
    assert_eq!(cs[1].display_path, "c.rs");
    assert_eq!(cs[1].rank, 2);
    assert_eq!(cs[1].line, Some(5));
    assert_eq!(cs[1].symbol_id, Some("sid".to_string()));
    assert_eq!((cs[1].symbol_start, cs[1].symbol_end), (Some(5), Some(12)));
    assert_eq!(cs[1].snippet, "no match here");
    let bad = vec![doc("src/x.rs", &format!("needle{}é", "a".repeat(143)), None, "file")];
    assert_eq!(
        collect_index_candidates("needle", "/repo", "/repo", 5, &no_filters(), &bad).unwrap_err(),
        CandidateError::SnippetSplitsCharacter
    );
}

#[test]
fn store_rules() {
    assert_eq!(stale_symbol_removal(0), StaleSymbolRemoval::DeleteAll);
    assert_eq!(stale_symbol_removal(900), StaleSymbolRemoval::BoundIds);
    assert_eq!(stale_symbol_removal(901), StaleSymbolRemoval::TempTable);
    assert_eq!(
        delete_stale_query(3),
        "DELETE FROM symbol_embeddings WHERE path = ?1 AND symbol_id NOT IN (?2, ?3, ?4)"
    );
    assert!(hash_is_stale(None, "h"));
    assert!(hash_is_stale(Some("g"), "h"));
    assert!(!hash_is_stale(Some("h"), "h"));
    assert!(is_symbol_unit(Some("symbol")));
    assert!(!is_symbol_unit(Some("chunk")));
    assert!(!is_symbol_unit(None));
}
