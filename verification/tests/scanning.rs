use cgrep::filters::CompiledGlob;
use cgrep::regex_engine::CompiledRegex;
use cgrep::scan::{scan_search, PathFilters, ScanError, ScannedFile};
use cgrep::scanner::{detect_language, enters_entry, language_of_path, FileScanner};

fn file(path: &str, content: &str) -> ScannedFile {
    ScannedFile { path: path.to_string(), content: content.to_string(), language: None }
}

fn no_filters() -> PathFilters<'static> {
    PathFilters { file_type: None, glob: None, exclude: None, config_excludes: &[] }
}

#[test]
fn scan_search_plain_text_case_insensitive() {
    let files = vec![file("/tmp/d/sample.txt", "Hello World\nSecond line")];
    let outcome = scan_search("world", "/tmp/d", &files, 10, 0, &no_filters(), None, false).expect("scan");
    assert_eq!(outcome.hits.len(), 1);
    assert_eq!(outcome.hits[0].path, "sample.txt");
    assert_eq!(outcome.hits[0].line, 1);
}

#[test]
fn scan_search_regex_match() {
    let files = vec![file("/tmp/d/numbers.txt", "abc123\nnope\nxyz456")];
    let re = CompiledRegex::new(r"\d{3}", false).expect("regex");
    let outcome = scan_search(r"\d{3}", "/tmp/d", &files, 10, 0, &no_filters(), Some(&re), true).expect("scan");
    assert_eq!(outcome.hits.len(), 2);
    assert_eq!(outcome.hits[0].path, "numbers.txt");
    assert_eq!(outcome.hits[0].line, 1);
    assert_eq!(outcome.hits[1].line, 3);
}

#[test]
fn scan_respects_limit_filters_and_context() {
    let files = vec![
        file("/r/a.rs", "x\nneedle\ny"),
        file("/r/b.py", "needle"),
        file("/r/c.rs", "needle\nneedle"),
    ];
    let f = PathFilters { file_type: Some("rust"), glob: None, exclude: None, config_excludes: &[] };
    let o = scan_search("NEEDLE", "/r", &files, 2, 1, &f, None, false).unwrap();
    assert_eq!(o.total_matches, 2);
    assert_eq!(o.files_with_matches, 2);
    assert_eq!(o.hits[0].path, "a.rs");
    assert_eq!(o.hits[0].context_before, vec!["x".to_string()]);
    assert_eq!(o.hits[0].context_after, vec!["y".to_string()]);
    assert_eq!(o.hits[1].path, "c.rs");
    let ex = CompiledGlob::new("c.rs").unwrap();
    let f2 = PathFilters { file_type: None, glob: None, exclude: Some(&ex), config_excludes: &[] };
    let o2 = scan_search("needle", "/r", &files, 10, 0, &f2, None, true).unwrap();
    assert_eq!(o2.total_matches, 2);
    let o3 = scan_search("NEEDLE", "/r", &files, 10, 0, &no_filters(), None, true).unwrap();
    assert_eq!(o3.total_matches, 0);
}

#[test]
fn scan_errors() {
    assert_eq!(scan_search("", "/r", &[], 10, 0, &no_filters(), None, false).unwrap_err(), ScanError::EmptyQuery);
    let long = format!("q{}é", "a".repeat(148));
    let files = vec![file("/r/x", &long)];
    assert_eq!(
        scan_search("q", "/r", &files, 10, 0, &no_filters(), None, false).unwrap_err(),
        ScanError::SnippetSplitsCharacter
    );
}

#[test]
fn languages_by_extension() {
    assert_eq!(detect_language("RS"), Some("rust".to_string()));
    assert_eq!(detect_language("hpp"), Some("cpp".to_string()));
    assert_eq!(detect_language("zzz"), None);
    assert_eq!(language_of_path("src/a.tsx"), "typescript");
    assert_eq!(language_of_path("Makefile"), "");
}

#[test]
fn scanner_keeps_known_extensions() {
    let s = FileScanner::new("/r");
    assert!(s.respect_gitignore);
    assert!(s.keeps("/r/src/main.rs"));
    assert!(s.keeps("/r/build.KTS"));
    assert!(!s.keeps("/r/image.png"));
    assert!(!s.keeps("/r/Makefile"));
    let s = FileScanner::with_excludes("/r", vec!["vendor/".to_string()]).with_gitignore(false);
    assert!(!s.respect_gitignore);
    assert!(!s.keeps("/r/vendor/lib.rs"));
    assert!(s.keeps("/r/src/lib.rs"));
    assert!(!enters_entry(Some(".cgrep")));
    assert!(enters_entry(Some("src")));
    assert!(enters_entry(None));
}
