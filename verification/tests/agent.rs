use cgrep::agent::{locate_entry, run_expand, ExpandError};
use cgrep::hashing::stable_result_id;
use cgrep::scan::{scan_search, PathFilters, ScannedFile};

fn file(path: &str, content: &str) -> ScannedFile {
    ScannedFile { path: path.to_string(), content: content.to_string(), language: None }
}

#[test]
fn stable_result_id_is_deterministic() {
    let a = stable_result_id("src/lib.rs", 10, "fn alpha() {}");
    let b = stable_result_id("src/lib.rs", 10, "fn alpha() {}");
    assert_eq!(a, b);
    assert_eq!(a.len(), 16);
}

#[test]
fn stable_result_id_is_hash_prefix() {
    let full = blake3::hash(b"src/lib.rs:10:fn alpha() {}").to_hex().to_string();
    assert_eq!(stable_result_id("src/lib.rs", 10, "fn alpha() {}"), full[..16]);
}

#[test]
fn expand_finds_requested_lines_in_path_order() {
    let files = vec![
        file("/repo/z.rs", "one\n  two  \nthree"),
        file("/repo/a.rs", "alpha\nbeta"),
    ];
    let want_two = stable_result_id("z.rs", 2, "two");
    let want_beta = stable_result_id("a.rs", 2, "beta");
    let ids = vec![want_two.clone(), want_beta.clone(), want_two.clone(), "missing".to_string()];
    let payload = run_expand(&ids, "/repo", &files, 1).unwrap();
    assert_eq!(payload.meta.requested_ids, 3);
    assert_eq!(payload.meta.resolved_ids, 2);
    assert_eq!(payload.meta.stage, "expand");
    assert_eq!(payload.meta.schema_version, "1");
    assert_eq!(payload.results.len(), 2);
    let first = &payload.results[0];
    assert_eq!(first.path, "a.rs");
    assert_eq!(first.id, want_beta);
    assert_eq!((first.line, first.start_line, first.end_line), (2, 1, 2));
    assert_eq!(first.context_before, vec!["alpha".to_string()]);
    assert!(first.context_after.is_empty());
    let second = &payload.results[1];
    assert_eq!(second.path, "z.rs");
    assert_eq!(second.snippet, "two");
    assert_eq!((second.line, second.start_line, second.end_line), (2, 1, 3));
    assert_eq!(second.context_after, vec!["three".to_string()]);
}

#[test]
fn expand_without_context() {
    let files = vec![file("/r/x.txt", "hit")];
    let id = stable_result_id("x.txt", 1, "hit");
    let payload = run_expand(&[id], "/r", &files, 0).unwrap();
    assert_eq!(payload.results.len(), 1);
    assert!(payload.results[0].context_before.is_empty());
    assert_eq!(payload.results[0].start_line, 1);
    assert_eq!(payload.results[0].end_line, 1);
}

#[test]
fn expand_reports_snippet_that_would_split_a_character() {
    let long = format!("{}é", "a".repeat(149));
    let files = vec![file("/r/x.txt", &long)];
    assert_eq!(run_expand(&["x".to_string()], "/r", &files, 0).unwrap_err(), ExpandError::SnippetSplitsCharacter);
}

#[test]
fn agent_locate_and_expand_roundtrip() {
    let files = vec![file("/repo/src/lib.rs", "pub fn auth_flow() {}\npub fn call() { auth_flow(); }\n")];
    let filters = PathFilters { file_type: None, glob: None, exclude: None, config_excludes: &[] };
    let found = scan_search("auth_flow", "/repo", &files, 20, 0, &filters, None, false).expect("scan");
    let first = &found.hits[0];
    let entry = locate_entry(&first.path, first.line, &first.snippet);
    let first_id = entry.id.clone();
    let payload = run_expand(&[first_id.clone()], "/repo", &files, 1).expect("expand");
    assert_eq!(payload.meta.stage, "expand");
    assert!(payload.meta.resolved_ids >= 1);
    assert_eq!(payload.results[0].id, first_id);
}
