use cgrep::index_chunks::{build_chunks, join_chunks, read_text_chunks_from_bytes, ReadOutcome};
use cgrep::index_plan::{
    build_symbol_content, build_symbol_preview, extract_symbol_names, process_read, read_error,
    removed_paths, should_skip_without_read, DocKind, FileMetadata, ProcessedFile,
};
use cgrep::symbols::{Symbol, SymbolKind};

fn meta(mtime: u64, size: u64, hash: &str, binary: bool) -> FileMetadata {
    FileMetadata { mtime, size, hash: hash.to_string(), symbols: String::new(), is_binary: binary }
}

fn sym(name: &str, line: usize, end_line: usize) -> Symbol {
    Symbol {
        name: name.to_string(),
        kind: SymbolKind::Function,
        line,
        column: 1,
        end_line,
        byte_start: None,
        byte_end: None,
        scope: None,
    }
}

#[test]
fn chunking_records_line_offsets() {
    let content = "line1\nline2\nline3\nline4\n";
    let outcome = read_text_chunks_from_bytes(content.as_bytes(), 12);
    let chunks = match outcome {
        ReadOutcome::Text { chunks, .. } => chunks,
        ReadOutcome::Binary { .. } => panic!("expected text"),
    };

    assert_eq!(chunks.len(), 2);
    assert_eq!(chunks[0].start_line, 1);
    assert_eq!(chunks[1].start_line, 3);
}

#[test]
fn chunks_join_back_to_the_text() {
    for text in ["", "a", "a\nb\n", "alpha\nbeta\ngamma\ndelta", "x\n\n\ny\n"] {
        for max in [0usize, 1, 3, 8, 100] {
            assert_eq!(join_chunks(&build_chunks(text, max)), text);
        }
    }
}

#[test]
fn chunks_start_after_earlier_newlines() {
    let text = "a\nbbbbbbbbbb\ncc\ndd\n";
    let chunks = build_chunks(text, 6);
    let starts: Vec<u64> = chunks.iter().map(|c| c.start_line).collect();
    assert_eq!(starts, vec![1, 2, 3]);
    assert_eq!(chunks[1].content, "bbbbbbbbbb\n");
    assert_eq!(chunks[2].content, "cc\ndd\n");
    for text in ["x\ny\nz", "one\n\n\ntwo\nthree\n", "é\nü\n"] {
        for max in [0usize, 2, 4, 9] {
            let chunks = build_chunks(text, max);
            let mut seen_newlines = 0u64;
            for (k, c) in chunks.iter().enumerate() {
                assert!(!c.content.is_empty());
                assert_eq!(c.start_line, 1 + seen_newlines);
                if c.content.len() > max {
                    assert!(!c.content.trim_end_matches('\n').contains('\n'), "chunk {k} spans lines");
                }
                seen_newlines += c.content.matches('\n').count() as u64;
            }
        }
    }
    assert!(build_chunks("", 4).is_empty());
}

#[test]
fn binary_bytes_are_detected() {
    assert!(matches!(read_text_chunks_from_bytes(&[0, 159, 146, 150], 10), ReadOutcome::Binary { hash: None }));
    assert!(matches!(read_text_chunks_from_bytes(&[0xFF, 0xFE, 0xFD], 10), ReadOutcome::Binary { hash: None }));
    match read_text_chunks_from_bytes(b"fn a() {}", 10) {
        ReadOutcome::Text { hash, .. } => assert_eq!(hash, blake3::hash(b"fn a() {}").to_hex().to_string()),
        ReadOutcome::Binary { .. } => panic!("expected text"),
    }
}

#[test]
fn unchanged_files_skip_without_reading() {
    let known = meta(5, 10, "abc", false);
    let skipped = should_skip_without_read(Some(&known), 5, 10, false).unwrap();
    assert_eq!(skipped.hash, "abc");
    assert!(should_skip_without_read(Some(&known), 5, 10, true).is_none());
    assert!(should_skip_without_read(Some(&known), 6, 10, false).is_none());
    assert!(should_skip_without_read(None, 5, 10, false).is_none());
    let unhashed = meta(5, 10, "", false);
    assert!(should_skip_without_read(Some(&unhashed), 5, 10, false).is_none());
    let binary = meta(5, 10, "", true);
    assert!(should_skip_without_read(Some(&binary), 5, 10, false).is_some());
}

#[test]
fn legacy_metadata_is_converted() {
    let m = FileMetadata::legacy(3);
    assert_eq!(m.mtime, 3_000_000_000);
    assert_eq!(FileMetadata::legacy(u64::MAX).mtime, u64::MAX);
    assert!(m.hash.is_empty() && !m.is_binary && m.size == 0);
    let d = FileMetadata::default();
    assert_eq!((d.mtime, d.size, d.is_binary), (0, 0, false));
}

#[test]
fn removed_paths_keep_order() {
    let old = vec!["a".to_string(), "b".to_string(), "c".to_string()];
    let cur = vec!["b".to_string()];
    assert_eq!(removed_paths(&old, &cur), vec!["a".to_string(), "c".to_string()]);
}

#[test]
fn symbol_names_are_distinct_in_first_order() {
    let syms = vec![sym("b", 1, 1), sym("a", 2, 2), sym("b", 3, 3)];
    assert_eq!(extract_symbol_names(&syms), "b a");
    assert_eq!(extract_symbol_names(&[]), "");
}

#[test]
fn symbol_previews_and_content() {
    let source = "l1\nl2\nl3\nl4";
    assert_eq!(build_symbol_preview(source, &sym("f", 2, 3)), "l2\nl3");
    assert_eq!(build_symbol_preview(source, &sym("f", 0, 1)), "l1");
    assert_eq!(build_symbol_preview(source, &sym("f", 9, 9)), "");
    assert_eq!(build_symbol_preview("", &sym("f", 1, 1)), "");
    assert_eq!(build_symbol_content(source, &sym("f", 2, 3)), "f function\nl2\nl3");
    let many: String = (1..=30).map(|i| format!("x{}\n", i)).collect();
    let preview = build_symbol_preview(&many, &sym("f", 1, 30));
    assert_eq!(preview.lines().count(), 20);
}

#[test]
fn read_text_files_are_indexed_with_symbol_documents() {
    let bytes = b"fn cached_symbol() {}\n";
    let outcome = read_text_chunks_from_bytes(bytes, 1024);
    let r = process_read("/r/lib.rs", None, 7, 22, false, outcome);
    match r {
        ProcessedFile::Indexed { path, meta, docs } => {
            assert_eq!(path, "/r/lib.rs");
            assert!(meta.symbols.contains("cached_symbol"));
            assert!(!meta.is_binary);
            assert_eq!(docs[0].kind, DocKind::File);
            assert_eq!(docs[0].line_number, 1);
            assert!(docs.iter().any(|d| d.kind == DocKind::Symbol && d.symbols == "cached_symbol"));
        },
        _ => panic!("expected indexed"),
    }
}

#[test]
fn same_hash_is_skipped_and_binary_recorded() {
    let bytes = b"hello";
    let hash = blake3::hash(bytes).to_hex().to_string();
    let known = meta(1, 5, &hash, false);
    let r = process_read("/r/t.txt", Some(&known), 9, 5, false, read_text_chunks_from_bytes(bytes, 100));
    match r {
        ProcessedFile::Skipped { meta, delete_docs, .. } => {
            assert!(!delete_docs);
            assert_eq!(meta.mtime, 9);
            assert_eq!(meta.hash, hash);
        },
        _ => panic!("expected skip"),
    }
    let r = process_read("/r/b.rs", None, 1, 4, false, read_text_chunks_from_bytes(&[0, 1, 2, 3], 100));
    match r {
        ProcessedFile::Skipped { meta, delete_docs, .. } => {
            assert!(delete_docs);
            assert!(meta.is_binary);
            assert!(meta.symbols.is_empty());
        },
        _ => panic!("expected skip"),
    }
    match read_error("/r/x", Some(&known)) {
        ProcessedFile::ReadError { fallback, .. } => assert_eq!(fallback.unwrap().hash, hash),
        _ => panic!("expected read error"),
    }
}

#[test]
fn empty_text_deletes_documents() {
    let r = process_read("/r/empty.txt", None, 1, 0, false, read_text_chunks_from_bytes(b"", 100));
    assert!(matches!(r, ProcessedFile::Skipped { delete_docs: true, .. }));
}
