use cgrep::embedding_chunker::{ChunkConfig, ChunkConfigError, EmbeddingChunker};

#[test]
fn test_default_config() {
    let config = ChunkConfig::default();
    assert_eq!(config.chunk_lines, 80);
    assert_eq!(config.chunk_overlap, 20);
}

#[test]
fn test_config_validation() {
    // Valid config
    assert!(ChunkConfig::new(80, 20).is_ok());

    // Invalid: overlap >= lines
    assert!(ChunkConfig::new(20, 20).is_err());
    assert!(ChunkConfig::new(20, 30).is_err());

    // Invalid: zero lines
    assert!(ChunkConfig::new(0, 0).is_err());
}

#[test]
fn test_empty_content() {
    let chunker = EmbeddingChunker::with_defaults();
    assert!(chunker.chunk_text("").is_empty());
}

#[test]
fn test_single_line() {
    let chunker = EmbeddingChunker::new(ChunkConfig::new(5, 2).unwrap().with_min_chunk_size(1));
    let chunks = chunker.chunk_text("hello world");
    assert_eq!(chunks.len(), 1);
    assert_eq!(chunks[0].start_line, 1);
    assert_eq!(chunks[0].end_line, 1);
    assert_eq!(chunks[0].text, "hello world");
}

#[test]
fn test_multiple_chunks() {
    let content = (1..=10).map(|i| format!("line {}", i)).collect::<Vec<_>>().join("\n");
    let chunker = EmbeddingChunker::new(ChunkConfig::new(4, 1).unwrap().with_min_chunk_size(1));

    let chunks = chunker.chunk_text(&content);

    assert_eq!(chunks.len(), 4);

    assert_eq!(chunks[0].start_line, 1);
    assert_eq!(chunks[0].end_line, 4);

    assert_eq!(chunks[1].start_line, 4);
    assert_eq!(chunks[1].end_line, 7);

    assert_eq!(chunks[2].start_line, 7);
    assert_eq!(chunks[2].end_line, 10);

    assert_eq!(chunks[3].start_line, 10);
    assert_eq!(chunks[3].end_line, 10);
}

#[test]
fn test_small_chunk_filtering() {
    let content = "ab\ncd\nef";
    let chunker = EmbeddingChunker::new(ChunkConfig::new(2, 0).unwrap().with_min_chunk_size(10));

    let chunks = chunker.chunk_text(content);
    assert!(chunks.is_empty());
}

#[test]
fn test_large_file_detection() {
    let chunker = EmbeddingChunker::new(ChunkConfig::default().with_max_file_bytes(100));

    let small = "x".repeat(50);
    let large = "x".repeat(200);

    assert!(!chunker.is_file_too_large(&small));
    assert!(chunker.is_file_too_large(&large));
}

#[test]
fn test_overlapping_content() {
    let content = "1\n2\n3\n4\n5\n6";
    let chunker = EmbeddingChunker::new(ChunkConfig::new(3, 1).unwrap().with_min_chunk_size(1));

    let chunks = chunker.chunk_text(content);
    assert_eq!(chunks.len(), 3);

    assert!(chunks[0].text.contains("3"));
    assert!(chunks[1].text.contains("3"));

    assert!(chunks[1].text.contains("5"));
    assert!(chunks[2].text.contains("5"));
}

#[test]
fn chunk_config_errors_name_the_cause() {
    assert_eq!(ChunkConfig::new(0, 0), Err(ChunkConfigError::OverlapNotLessThanLines { chunk_overlap: 0, chunk_lines: 0 }));
    assert_eq!(ChunkConfigError::ZeroChunkLines.message(), "chunk_lines must be greater than 0");
    let e = ChunkConfig::new(20, 30).unwrap_err();
    assert_eq!(e, ChunkConfigError::OverlapNotLessThanLines { chunk_overlap: 30, chunk_lines: 20 });
    assert_eq!(e.message(), "chunk_overlap (30) must be less than chunk_lines (20)");
}

#[test]
fn chunks_are_consecutive_windows() {
    let content = "a1\nb2\nc3\nd4\ne5";
    let chunker = EmbeddingChunker::new(ChunkConfig::new(2, 1).unwrap().with_min_chunk_size(1));
    let chunks = chunker.chunk_text(content);
    let spans: Vec<(u32, u32, String)> = chunks.iter().map(|c| (c.start_line, c.end_line, c.text.clone())).collect();
    assert_eq!(
        spans,
        vec![
            (1, 2, "a1\nb2".to_string()),
            (2, 3, "b2\nc3".to_string()),
            (3, 4, "c3\nd4".to_string()),
            (4, 5, "d4\ne5".to_string()),
            (5, 5, "e5".to_string()),
        ]
    );
}

#[test]
fn chunk_files_keeps_file_order() {
    let chunker = EmbeddingChunker::new(ChunkConfig::new(5, 0).unwrap().with_min_chunk_size(1));
    let out = chunker.chunk_files(&[("a.rs", "fn a() {}"), ("b.rs", "")]);
    assert_eq!(out.len(), 2);
    assert_eq!(out[0].0, "a.rs");
    assert_eq!(out[0].1.len(), 1);
    assert_eq!(out[1].0, "b.rs");
    assert!(out[1].1.is_empty());
}

#[test]
fn min_chunk_size_counts_characters() {
    let chunker = EmbeddingChunker::new(ChunkConfig::new(5, 2).unwrap().with_min_chunk_size(5));
    // three characters, nine bytes: below a minimum of five characters
    assert!(chunker.chunk_text("가나다").is_empty());
    let chunker = EmbeddingChunker::new(ChunkConfig::new(5, 2).unwrap().with_min_chunk_size(3));
    assert_eq!(chunker.chunk_text("가나다").len(), 1);
}
