use cgrep::index_plan::symbol_id_for;
use cgrep::symbols::{Symbol, SymbolError, SymbolExtractor, SymbolKind, SyntaxNode};

#[test]
fn test_extract_typescript_function() {
    let source = r#"
function greet(name: string): string {
    return `Hello, ${name}!`;
}
"#;
    let extractor = SymbolExtractor::new();
    let symbols = extractor.extract(source, "typescript").unwrap();

    assert!(!symbols.is_empty());
    let func = symbols.iter().find(|s| s.name == "greet").unwrap();
    assert_eq!(func.kind, SymbolKind::Function);
}

#[test]
fn test_extract_typescript_class() {
    let source = r#"
class Person {
    constructor(public name: string) {}
    
    greet(): string {
        return `Hello, ${this.name}!`;
    }
}
"#;
    let extractor = SymbolExtractor::new();
    let symbols = extractor.extract(source, "typescript").unwrap();

    let class = symbols.iter().find(|s| s.name == "Person").unwrap();
    assert_eq!(class.kind, SymbolKind::Class);
}

#[test]
fn test_extract_rust_function() {
    let source = r#"
fn main() {
    println!("Hello, world!");
}

pub fn add(a: i32, b: i32) -> i32 {
    a + b
}
"#;
    let extractor = SymbolExtractor::new();
    let symbols = extractor.extract(source, "rust").unwrap();

    assert!(symbols.iter().any(|s| s.name == "main" && s.kind == SymbolKind::Function));
    assert!(symbols.iter().any(|s| s.name == "add" && s.kind == SymbolKind::Function));
}

#[test]
fn test_extract_python_class() {
    let source = r#"
class Calculator:
    def add(self, a, b):
        return a + b
    
    def subtract(self, a, b):
        return a - b
"#;
    let extractor = SymbolExtractor::new();
    let symbols = extractor.extract(source, "python").unwrap();

    let class = symbols.iter().find(|s| s.name == "Calculator").unwrap();
    assert_eq!(class.kind, SymbolKind::Class);
}

#[test]
fn test_symbol_kind_display() {
    assert_eq!(SymbolKind::Function.to_string(), "function");
    assert_eq!(SymbolKind::Class.to_string(), "class");
    assert_eq!(SymbolKind::Variable.to_string(), "variable");
}

#[test]
fn test_unsupported_language() {
    let extractor = SymbolExtractor::new();
    let result = extractor.extract("code", "unknown_lang");
    assert!(result.is_err());
}

#[test]
fn symbol_id_is_stable() {
    let symbol = Symbol {
        name: "alpha".to_string(),
        kind: SymbolKind::Function,
        line: 10,
        column: 1,
        end_line: 20,
        byte_start: Some(100),
        byte_end: Some(200),
        scope: None,
    };

    let id1 = symbol_id_for("src/lib.rs", "rust", &symbol);
    let id2 = symbol_id_for("src/lib.rs", "rust", &symbol);
    assert_eq!(id1, id2);

    let mut symbol_changed = symbol.clone();
    symbol_changed.byte_end = Some(201);
    let id3 = symbol_id_for("src/lib.rs", "rust", &symbol_changed);
    assert_ne!(id1, id3);

    let mut symbol_line_range = symbol.clone();
    symbol_line_range.byte_start = None;
    symbol_line_range.byte_end = None;
    let id4 = symbol_id_for("src/lib.rs", "rust", &symbol_line_range);
    assert_ne!(id1, id4);
}

#[test]
fn symbol_id_is_hash_of_id_text() {
    let symbol = Symbol {
        name: "alpha".to_string(),
        kind: SymbolKind::Function,
        line: 10,
        column: 1,
        end_line: 20,
        byte_start: Some(100),
        byte_end: Some(200),
        scope: None,
    };
    let expected = blake3::hash(b"src/lib.rs:rust:function:alpha:100:200").to_hex().to_string();
    assert_eq!(symbol_id_for("src/lib.rs", "rust", &symbol), expected);
}

#[test]
fn unsupported_language_error_kind() {
    let extractor = SymbolExtractor::new();
    assert_eq!(extractor.extract("x", "cobol").unwrap_err(), SymbolError::UnsupportedLanguage);
    // registered grammar, but no symbol rules under a differently cased name
    assert!(extractor.extract("fn a() {}", "Rust").unwrap().is_empty());
}

#[test]
fn rules_and_node_records() {
    let e = SymbolExtractor::new();
    assert_eq!(e.match_rust_node("struct_item"), Some((SymbolKind::Struct, "name")));
    assert_eq!(e.match_c_node("type_definition"), Some((SymbolKind::Type, "declarator")));
    assert_eq!(e.match_java_node("field_declaration"), Some((SymbolKind::Property, "declarator")));
    assert_eq!(e.match_node("javascript", "method_definition"), Some((SymbolKind::Method, "name")));
    assert_eq!(e.match_node("go", "struct_item"), None);
    let node = SyntaxNode {
        kind: "function_definition".to_string(),
        start_row: 4,
        start_column: 0,
        end_row: 9,
        start_byte: 40,
        end_byte: 90,
        name_text: None,
        declarator_text: Some("main(void)".to_string()),
    };
    let s = e.extract_symbol_from_node(&node, "c").unwrap();
    assert_eq!(s.name, "main(void)");
    assert_eq!((s.line, s.column, s.end_line), (5, 1, 10));
    assert_eq!((s.byte_start, s.byte_end), (Some(40), Some(90)));
    assert!(e.extract_symbol_from_node(&node, "python").is_none());
    let syms = e.symbols_from_nodes(&[node.clone(), node], "cpp");
    assert_eq!(syms.len(), 2);
}

#[test]
fn extracted_lines_are_one_based() {
    let extractor = SymbolExtractor::new();
    let symbols = extractor.extract("\n\nfn beta() {\n}\n", "rust").unwrap();
    let beta = symbols.iter().find(|s| s.name == "beta").unwrap();
    assert_eq!(beta.line, 3);
    assert_eq!(beta.end_line, 4);
    assert_eq!(beta.column, 1);
}

#[test]
fn tsx_sources_give_symbols() {
    let extractor = SymbolExtractor::new();
    let symbols = extractor.extract("function greet() {}\n", "tsx").expect("tsx is supported");
    let func = symbols.iter().find(|s| s.name == "greet").expect("greet");
    assert_eq!(func.kind, SymbolKind::Function);
    assert_eq!(func.line, 1);
}

#[test]
fn unknown_languages_are_refused() {
    let extractor = SymbolExtractor::new();
    assert!(matches!(extractor.extract("code", "unknown_lang"), Err(SymbolError::UnsupportedLanguage)));
}

#[test]
fn symbols_come_in_preorder() {
    let extractor = SymbolExtractor::new();
    let source = "struct Outer;\nimpl Outer {\n    fn inner(&self) {}\n}\nfn after() {}\n";
    let symbols = extractor.extract(source, "rust").expect("rust");
    let names: Vec<&str> = symbols.iter().map(|s| s.name.as_str()).collect();
    let outer = names.iter().position(|n| *n == "Outer").expect("Outer");
    let inner = names.iter().position(|n| *n == "inner").expect("inner");
    let after = names.iter().position(|n| *n == "after").expect("after");
    assert!(outer < inner && inner < after);
}
