use cgrep::lookup::{
    extract_each, find_callers, find_definitions, find_dependents, find_references, search_symbols, stem_of, symbol_file_mask,
    symbol_hits,
};
use cgrep::install_text::{already_present, slug_of, without_block};
use cgrep::scan::{PathFilters, ScannedFile};
use cgrep::symbols::{Symbol, SymbolKind};

fn file(path: &str, content: &str, language: Option<&str>) -> ScannedFile {
    ScannedFile { path: path.to_string(), content: content.to_string(), language: language.map(|l| l.to_string()) }
}

fn no_filters() -> PathFilters<'static> {
    PathFilters { file_type: None, glob: None, exclude: None, config_excludes: &[] }
}

fn sym(name: &str, kind: SymbolKind, line: usize) -> Symbol {
    Symbol { name: name.to_string(), kind, line, column: 1, end_line: line, byte_start: None, byte_end: None, scope: None }
}

#[test]
fn callers_skip_declarations() {
    let files = vec![file("/r/src/a.rs", "fn helper() {}\n    let x = helper();\nhelpers()\n", None)];
    let hits = find_callers("helper", "/r", &files).expect("pattern compiles");
    assert_eq!(hits.len(), 1);
    assert_eq!(hits[0].path, "src/a.rs");
    assert_eq!(hits[0].line, 2);
    assert_eq!(hits[0].code, "let x = helper();");
}

#[test]
fn callers_escape_the_name() {
    let files = vec![file("/r/a.py", "a.b(1)\naxb(2)\n", None)];
    let hits = find_callers("a.b", "/r", &files).expect("pattern compiles");
    assert_eq!(hits.len(), 1);
    assert_eq!(hits[0].line, 1);
}

#[test]
fn references_report_columns_and_whole_words() {
    let files = vec![
        file("/r/one.rs", "let total = 1;\nsubtotal + total\n", None),
        file("/r/two.rs", "total\n", None),
    ];
    let hits = find_references("total", "/r", &files, 50).expect("pattern compiles");
    assert_eq!(hits.len(), 3);
    assert_eq!((hits[0].line, hits[0].column), (1, 5));
    assert_eq!((hits[1].line, hits[1].column), (2, 12));
    assert_eq!(hits[2].path, "two.rs");
}

#[test]
fn references_stop_at_the_limit() {
    let files = vec![file("/r/one.rs", "x\nx\nx\n", None), file("/r/two.rs", "x\n", None)];
    let hits = find_references("x", "/r", &files, 2).expect("pattern compiles");
    assert_eq!(hits.len(), 2);
    let first_only = find_references("x", "/r", &files, 0).expect("pattern compiles");
    assert_eq!(first_only.len(), 1);
    assert_eq!(first_only[0].line, 1);
    let empty_first = vec![file("/r/one.rs", "y\n", None), file("/r/two.rs", "x\n", None)];
    assert!(find_references("x", "/r", &empty_first, 0).expect("pattern compiles").is_empty());
}

#[test]
fn stems_follow_path_rules() {
    assert_eq!(stem_of("src/utils.rs"), "utils");
    assert_eq!(stem_of("lib/a.b.ts"), "a.b");
    assert_eq!(stem_of(".hidden"), ".hidden");
    assert_eq!(stem_of("Makefile"), "Makefile");
    assert_eq!(stem_of(".."), "..");
}

#[test]
fn dependents_find_imports_of_the_stem() {
    let files = vec![
        file("/r/src/main.rs", "mod utils;\nuse crate::utils::x;\nfn main() {}\n", None),
        file("/r/web/app.ts", "import { a } from './utils'\n", None),
        file("/r/src/utils.rs", "use utils;\n", None),
    ];
    let hits = find_dependents("src/utils.rs", "/r", &files);
    assert_eq!(hits.len(), 3);
    assert_eq!((hits[0].path.as_str(), hits[0].line), ("src/main.rs", 1));
    assert_eq!((hits[1].path.as_str(), hits[1].line), ("src/main.rs", 2));
    assert_eq!(hits[2].path, "web/app.ts");
}

#[test]
fn symbol_hits_filter_by_name_and_type() {
    let syms = vec![sym("parseConfig", SymbolKind::Function, 3), sym("ConfigParser", SymbolKind::Class, 9), sym("other", SymbolKind::Function, 12)];
    let all = symbol_hits("config", None, "a.ts", &syms);
    assert_eq!(all.len(), 2);
    assert_eq!(all[1].kind, "class");
    let classes = symbol_hits("CONFIG", Some("Class"), "a.ts", &syms);
    assert_eq!(classes.len(), 1);
    assert_eq!(classes[0].name, "ConfigParser");
    assert_eq!(classes[0].line, 9);
}

#[test]
fn symbol_search_respects_language_and_counts_files() {
    let files = vec![file("/r/a.rs", "", Some("rust")), file("/r/b.py", "", Some("python")), file("/r/c.rs", "", Some("rust"))];
    let mask = symbol_file_mask(Some("rust"), "/r", &no_filters(), &files);
    assert_eq!(mask, vec![true, false, true]);
    let symbols = vec![vec![sym("run", SymbolKind::Function, 1)], vec![sym("run", SymbolKind::Function, 2)], vec![]];
    let found = search_symbols("run", None, Some("rust"), "/r", &no_filters(), &files, &symbols);
    assert_eq!(found.files_searched, 2);
    assert_eq!(found.hits.len(), 1);
    assert_eq!(found.hits[0].path, "a.rs");
}

#[test]
fn extraction_skips_unwanted_files() {
    let files = vec![file("/r/a.rs", "fn alpha() {}\n", Some("rust")), file("/r/b.rs", "fn beta() {}\n", Some("rust")), file("/r/c.txt", "x", None)];
    let syms = extract_each(&files, &[true, false, true]);
    assert_eq!(syms.len(), 3);
    assert!(syms[0].iter().any(|s| s.name == "alpha"));
    assert!(syms[1].is_empty());
    assert!(syms[2].is_empty());
}

#[test]
fn definitions_prefer_exact_names() {
    let files = vec![file("/r/a.rs", "", Some("rust")), file("/r/b.rs", "", Some("rust"))];
    let symbols = vec![
        vec![sym("ConfigLoader", SymbolKind::Struct, 1), sym("config", SymbolKind::Variable, 2)],
        vec![sym("Config", SymbolKind::Struct, 5)],
    ];
    let defs = find_definitions("config", "/r", &files, &symbols);
    assert_eq!(defs.len(), 1);
    assert_eq!(defs[0].name, "Config");
    assert_eq!(defs[0].path, "b.rs");
    assert_eq!(defs[0].file, 1);
    assert_eq!(defs[0].kind, "struct");
    let partial = find_definitions("loader", "/r", &files, &symbols);
    assert_eq!(partial.len(), 1);
    assert_eq!(partial[0].name, "ConfigLoader");
    assert!(find_definitions("nothing", "/r", &files, &symbols).is_empty());
}

#[test]
fn install_blocks_are_detected_and_removed() {
    assert!(already_present("a\nBLOCK\nb", "\nBLOCK\n"));
    assert!(!already_present("a", "BLOCK"));
    assert_eq!(without_block("keep\n\nBLOCK\n", "\nBLOCK\n"), Some("keep".to_string()));
    assert_eq!(without_block("BLOCK", "BLOCK"), Some(String::new()));
    assert_eq!(without_block("other", "BLOCK"), None);
    assert_eq!(slug_of("GitHub Copilot"), "github-copilot");
}
