use cgrep::index_filter::{files_from_matches, find_files_with_content, find_files_with_symbol};
use cgrep::output::{colorize_line_num, colorize_path, highlight_matches};
use cgrep::utils::{find_index_root, get_index_path, get_root_with_index, index_root_at, parent_dir};
use cgrep::watch::{should_reindex, ChangeKind, WatchAction, WatchState, Watcher};

#[test]
fn find_index_root_none() {
    let dirs = vec!["/a/b".to_string(), "/a".to_string(), "/".to_string()];
    assert!(find_index_root(&dirs, &[false, false, false]).is_none());
}

#[test]
fn get_index_path_fallback() {
    let path = get_index_path("/tmp/x", None);
    assert_eq!(path, "/tmp/x/.cgrep");
}

#[test]
fn nearest_index_wins() {
    let dirs = vec!["/a/b".to_string(), "/a".to_string(), "/".to_string()];
    let found = find_index_root(&dirs, &[false, true, true]).unwrap();
    assert_eq!(found.root, "/a");
    assert_eq!(found.index_path, "/a/.cgrep");
    assert!(found.is_parent);
    let here = find_index_root(&dirs, &[true, false, false]).unwrap();
    assert!(!here.is_parent);
    assert_eq!(get_root_with_index("/a/b", Some(here)), "/a/b");
    assert_eq!(get_root_with_index("/a/b", None), "/a/b");
    assert_eq!(index_root_at("/x", "/x/y").index_path, "/x/.cgrep");
}

#[test]
fn parents_walk_up_to_the_root() {
    assert_eq!(parent_dir("/a/b"), Some("/a".to_string()));
    assert_eq!(parent_dir("/a"), Some("/".to_string()));
    assert_eq!(parent_dir("/"), None);
    assert_eq!(parent_dir("a"), Some("".to_string()));
    assert_eq!(parent_dir(""), None);
}

#[test]
fn matched_files_are_unique_and_ordered() {
    let got = files_from_matches("/r", &["b.rs".to_string(), "a/x.rs".to_string(), "b.rs".to_string(), "a-b.rs".to_string()]);
    assert_eq!(got, vec!["/r/a/x.rs".to_string(), "/r/a-b.rs".to_string(), "/r/b.rs".to_string()]);
    assert!(find_files_with_symbol("/r", None).is_none());
    assert_eq!(find_files_with_content("/r", Some(vec!["z".to_string()])), Some(vec!["/r/z".to_string()]));
}

#[test]
fn uncoloured_output_is_plain() {
    assert_eq!(colorize_path("src/a.rs", false), "src/a.rs");
    assert_eq!(colorize_line_num(42, false), "42");
    assert_eq!(highlight_matches("Find the needle", "needle", false), "Find the needle");
}

#[test]
fn watcher_waits_for_quiet_then_reindexes() {
    let w = Watcher::new("/r");
    assert_eq!((w.debounce_secs, w.min_reindex_interval_secs), (2, 5));
    assert_eq!(Watcher::with_debounce("/r", 9).min_reindex_interval_secs, 9);
    assert_eq!(Watcher::with_debounce("/r", 1).min_reindex_interval_secs, 5);
    let mut s = WatchState::new();
    assert_eq!(w.wait_secs(&s), 60);
    s.record(ChangeKind::Access, &["/r/a.rs".to_string()], 0);
    assert!(s.pending.is_empty());
    s.record(
        ChangeKind::Modify,
        &["/r/a.rs".to_string(), "/r/.cgrep/x".to_string(), "/r/a.rs".to_string(), "/r/b.rs".to_string()],
        1_000,
    );
    assert_eq!(s.pending, vec!["/r/a.rs".to_string(), "/r/b.rs".to_string()]);
    assert_eq!(w.wait_secs(&s), 2);
    assert_eq!(w.decide(&mut s, 2_500), WatchAction::Wait);
    assert_eq!(w.decide(&mut s, 3_000), WatchAction::Reindex { changed: 2 });
    assert!(s.pending.is_empty());
    s.reindexed(3_100);
    s.record(ChangeKind::Create, &["/r/c.rs".to_string()], 3_200);
    assert_eq!(w.decide(&mut s, 6_000), WatchAction::Wait);
    assert_eq!(w.decide(&mut s, 8_100), WatchAction::Reindex { changed: 1 });
    assert!(should_reindex(ChangeKind::Remove));
    assert!(!should_reindex(ChangeKind::Other));
}
