use cgrep::filters::{glob_to_regex, matches_file_type, matches_glob, should_exclude, CompiledGlob};

#[test]
fn test_matches_file_type() {
    assert!(matches_file_type("src/main.rs", Some("rust")));
    assert!(matches_file_type("src/main.rs", Some("rs")));
    assert!(!matches_file_type("src/main.rs", Some("python")));
    assert!(matches_file_type("src/main.rs", None));
}

#[test]
fn test_compiled_glob() {
    let glob = CompiledGlob::new("src/**/*.rs").unwrap();
    assert!(glob.is_match("src/main.rs"));
    assert!(glob.is_match("src/query/search.rs"));
    assert!(!glob.is_match("tests/main.rs"));
}

#[test]
fn test_should_exclude() {
    assert!(should_exclude("target/debug/main", Some("target/**")));
    assert!(!should_exclude("src/main.rs", Some("target/**")));
    assert!(!should_exclude("src/main.rs", None));
}

#[test]
fn file_type_aliases_and_fallback() {
    assert!(matches_file_type("a/b.tsx", Some("TypeScript")));
    assert!(matches_file_type("x.kts", Some("kotlin")));
    assert!(matches_file_type("x.cxx", Some("c++")));
    assert!(matches_file_type("x.weird", Some("weird")));
    assert!(!matches_file_type("Makefile", Some("rust")));
    assert!(matches_file_type("Makefile", Some("")));
}

#[test]
fn glob_translation() {
    assert_eq!(glob_to_regex("src/**/*.rs"), "(?i)src/(.*/)?[^/]*\\.rs");
    assert_eq!(glob_to_regex("target/**"), "(?i)target(/.*)?");
    assert!(matches_glob("SRC/Main.RS", Some("src/*.rs")));
    assert!(matches_glob("anything", None));
}
