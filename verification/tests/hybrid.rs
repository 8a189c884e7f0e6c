use cgrep::context_pack::ContextPackBuilder;
use cgrep::hashing::generate_result_id;
use cgrep::hybrid::{chunk_bounds, effective_candidate_k, SearchMode};

#[test]
fn test_search_mode_parsing() {
    assert_eq!("keyword".parse::<SearchMode>().unwrap(), SearchMode::Keyword);
    assert_eq!("semantic".parse::<SearchMode>().unwrap(), SearchMode::Semantic);
    assert_eq!("hybrid".parse::<SearchMode>().unwrap(), SearchMode::Hybrid);
    assert_eq!("h".parse::<SearchMode>().unwrap(), SearchMode::Hybrid);
    assert!("invalid".parse::<SearchMode>().is_err());
}

#[test]
fn test_result_id_stability() {
    let id1 = generate_result_id("src/main.rs", Some(42), "fn main()");
    let id2 = generate_result_id("src/main.rs", Some(42), "fn main()");
    assert_eq!(id1, id2);

    let id3 = generate_result_id("src/main.rs", Some(43), "fn main()");
    assert_ne!(id1, id3);
}

#[test]
fn test_merge_ranges() {
    let ranges = vec![(1, 5), (3, 8), (10, 15)];
    let merged = ContextPackBuilder::merge_ranges(&ranges);
    assert_eq!(merged, vec![(1, 8), (10, 15)]);

    let ranges = vec![(1, 5), (6, 10)];
    let merged = ContextPackBuilder::merge_ranges(&ranges);
    assert_eq!(merged, vec![(1, 10)]);

    let merged = ContextPackBuilder::merge_ranges(&[]);
    assert!(merged.is_empty());
}

#[test]
fn search_mode_names_and_errors() {
    assert_eq!(SearchMode::Semantic.to_string(), "semantic");
    assert_eq!(SearchMode::parse("K"), Ok(SearchMode::Keyword));
    assert_eq!(SearchMode::parse("Nope"), Err("Unknown search mode: Nope".to_string()));
    assert_eq!(SearchMode::default(), SearchMode::Keyword);
}

#[test]
fn candidate_counts() {
    assert_eq!(effective_candidate_k(200, 20), 200);
    assert_eq!(effective_candidate_k(0, 1), 50);
    assert_eq!(effective_candidate_k(0, 10), 200);
    assert_eq!(effective_candidate_k(0, 100), 500);
}

#[test]
fn chunk_bounds_fall_back_to_line() {
    assert_eq!(chunk_bounds(Some(3), Some(9), Some(5)), (Some(3), Some(9)));
    assert_eq!(chunk_bounds(None, None, Some(5)), (Some(5), Some(5)));
    assert_eq!(chunk_bounds(None, Some(9), None), (None, Some(9)));
}

#[test]
fn merged_ranges_cover_the_same_lines() {
    let ranges = vec![(2, 4), (3, 3), (9, 9), (5, 6)];
    let sorted = cgrep::context_pack::sort_by_start(&ranges);
    assert_eq!(sorted, vec![(2, 4), (3, 3), (5, 6), (9, 9)]);
    let merged = ContextPackBuilder::merge_ranges(&sorted);
    assert_eq!(merged, vec![(2, 6), (9, 9)]);
    for line in 0..12usize {
        let before = ranges.iter().any(|&(a, b)| a <= line && line <= b);
        let after = merged.iter().any(|&(a, b)| a <= line && line <= b);
        assert_eq!(before, after);
    }
}
