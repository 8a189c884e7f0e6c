//! Symbol extraction: which syntax-tree nodes of each language define a
//! symbol, under which child field its name stands, and how the symbol is
//! read off the node.
//!
//! Parsing is tree-sitter's; the tree is handed over as a pre-order list of
//! plain node records, and everything decided on those records is proved.

use vstd::prelude::*;
use crate::text::{lowercase, str_eq, to_lowercase};

verus! {

/// Kinds of symbols.
#[derive(Debug, Clone, Copy, PartialEq, Eq, Structural)]
pub enum SymbolKind {
    Function,
    Class,
    Interface,
    Type,
    Variable,
    Constant,
    Enum,
    Module,
    Struct,
    Trait,
    Method,
    Property,
    Unknown,
}

/// The lower-case name of a kind.
pub open spec fn kind_name(k: SymbolKind) -> Seq<char> {
    match k {
        SymbolKind::Function => "function"@,
        SymbolKind::Class => "class"@,
        SymbolKind::Interface => "interface"@,
        SymbolKind::Type => "type"@,
        SymbolKind::Variable => "variable"@,
        SymbolKind::Constant => "constant"@,
        SymbolKind::Enum => "enum"@,
        SymbolKind::Module => "module"@,
        SymbolKind::Struct => "struct"@,
        SymbolKind::Trait => "trait"@,
        SymbolKind::Method => "method"@,
        SymbolKind::Property => "property"@,
        SymbolKind::Unknown => "unknown"@,
    }
}

impl SymbolKind {
    /// The lower-case name of the kind.
    pub fn as_str(&self) -> (s: &'static str)
        ensures
            s@ == kind_name(*self),
    {
        match self {
            SymbolKind::Function => "function",
            SymbolKind::Class => "class",
            SymbolKind::Interface => "interface",
            SymbolKind::Type => "type",
            SymbolKind::Variable => "variable",
            SymbolKind::Constant => "constant",
            SymbolKind::Enum => "enum",
            SymbolKind::Module => "module",
            SymbolKind::Struct => "struct",
            SymbolKind::Trait => "trait",
            SymbolKind::Method => "method",
            SymbolKind::Property => "property",
            SymbolKind::Unknown => "unknown",
        }
    }

    /// The lower-case name of the kind, as an owned string.
    pub fn to_string(&self) -> (s: String)
        ensures
            s@ == kind_name(*self),
    {
        String::from_str(self.as_str())
    }
}

/// An extracted symbol.
#[derive(Debug, Clone)]
pub struct Symbol {
    pub name: String,
    pub kind: SymbolKind,
    /// 1-based first line.
    pub line: usize,
    /// 1-based column.
    pub column: usize,
    /// 1-based last line.
    pub end_line: usize,
    /// Byte offset where the definition starts.
    pub byte_start: Option<usize>,
    /// Byte offset where the definition ends.
    pub byte_end: Option<usize>,
    pub scope: Option<String>,
}

/// Name, kind, line, column, end line, byte range and scope of a symbol.
pub type SymbolView = (Seq<char>, SymbolKind, usize, usize, usize, Option<usize>, Option<usize>, Option<Seq<char>>);

impl View for Symbol {
    type V = SymbolView;

    open spec fn view(&self) -> SymbolView {
        (
            self.name@,
            self.kind,
            self.line,
            self.column,
            self.end_line,
            self.byte_start,
            self.byte_end,
            match self.scope {
                Some(s) => Some(s@),
                None => None,
            },
        )
    }
}

/// A syntax-tree node as the extraction reads it.
#[derive(Debug, Clone)]
pub struct SyntaxNode {
    /// The node's grammar kind.
    pub kind: String,
    /// 0-based row where the node starts.
    pub start_row: usize,
    /// 0-based byte column where the node starts.
    pub start_column: usize,
    /// 0-based row where the node ends.
    pub end_row: usize,
    /// Byte offset of the start.
    pub start_byte: usize,
    /// Byte offset of the end.
    pub end_byte: usize,
    /// Text of the child in field `name`, if any.
    pub name_text: Option<String>,
    /// Text of the child in field `declarator`, if any.
    pub declarator_text: Option<String>,
}

/// Rows and columns small enough to be made 1-based.
pub open spec fn node_in_range(n: SyntaxNode) -> bool {
    n.start_row <= n.end_row && n.start_column < usize::MAX && n.end_row < usize::MAX
}

/// Nodes that define a symbol in TypeScript and JavaScript.
pub open spec fn typescript_rule(kind: Seq<char>) -> Option<(SymbolKind, Seq<char>)> {
    if kind == "function_declaration"@ {
        Some((SymbolKind::Function, "name"@))
    } else if kind == "class_declaration"@ {
        Some((SymbolKind::Class, "name"@))
    } else if kind == "interface_declaration"@ {
        Some((SymbolKind::Interface, "name"@))
    } else if kind == "type_alias_declaration"@ {
        Some((SymbolKind::Type, "name"@))
    } else if kind == "enum_declaration"@ {
        Some((SymbolKind::Enum, "name"@))
    } else if kind == "method_definition"@ {
        Some((SymbolKind::Method, "name"@))
    } else if kind == "variable_declarator"@ {
        Some((SymbolKind::Variable, "name"@))
    } else {
        None
    }
}

/// Nodes that define a symbol in Python.
pub open spec fn python_rule(kind: Seq<char>) -> Option<(SymbolKind, Seq<char>)> {
    if kind == "function_definition"@ {
        Some((SymbolKind::Function, "name"@))
    } else if kind == "class_definition"@ {
        Some((SymbolKind::Class, "name"@))
    } else {
        None
    }
}

/// Nodes that define a symbol in Rust.
pub open spec fn rust_rule(kind: Seq<char>) -> Option<(SymbolKind, Seq<char>)> {
    if kind == "function_item"@ {
        Some((SymbolKind::Function, "name"@))
    } else if kind == "struct_item"@ {
        Some((SymbolKind::Struct, "name"@))
    } else if kind == "enum_item"@ {
        Some((SymbolKind::Enum, "name"@))
    } else if kind == "trait_item"@ {
        Some((SymbolKind::Trait, "name"@))
    } else if kind == "type_item"@ {
        Some((SymbolKind::Type, "name"@))
    } else if kind == "const_item"@ {
        Some((SymbolKind::Constant, "name"@))
    } else if kind == "static_item"@ {
        Some((SymbolKind::Variable, "name"@))
    } else if kind == "mod_item"@ {
        Some((SymbolKind::Module, "name"@))
    } else {
        None
    }
}

/// Nodes that define a symbol in Go.
pub open spec fn go_rule(kind: Seq<char>) -> Option<(SymbolKind, Seq<char>)> {
    if kind == "function_declaration"@ {
        Some((SymbolKind::Function, "name"@))
    } else if kind == "method_declaration"@ {
        Some((SymbolKind::Method, "name"@))
    } else if kind == "type_spec"@ {
        Some((SymbolKind::Type, "name"@))
    } else {
        None
    }
}

/// Nodes that define a symbol in C.
pub open spec fn c_rule(kind: Seq<char>) -> Option<(SymbolKind, Seq<char>)> {
    if kind == "function_definition"@ {
        Some((SymbolKind::Function, "declarator"@))
    } else if kind == "function_declarator"@ {
        Some((SymbolKind::Function, "declarator"@))
    } else if kind == "struct_specifier"@ {
        Some((SymbolKind::Struct, "name"@))
    } else if kind == "enum_specifier"@ {
        Some((SymbolKind::Enum, "name"@))
    } else if kind == "type_definition"@ {
        Some((SymbolKind::Type, "declarator"@))
    } else {
        None
    }
}

/// Nodes that define a symbol in C++.
pub open spec fn cpp_rule(kind: Seq<char>) -> Option<(SymbolKind, Seq<char>)> {
    if kind == "function_definition"@ {
        Some((SymbolKind::Function, "declarator"@))
    } else if kind == "function_declarator"@ {
        Some((SymbolKind::Function, "declarator"@))
    } else if kind == "class_specifier"@ {
        Some((SymbolKind::Class, "name"@))
    } else if kind == "struct_specifier"@ {
        Some((SymbolKind::Struct, "name"@))
    } else if kind == "enum_specifier"@ {
        Some((SymbolKind::Enum, "name"@))
    } else if kind == "namespace_definition"@ {
        Some((SymbolKind::Module, "name"@))
    } else if kind == "type_definition"@ {
        Some((SymbolKind::Type, "declarator"@))
    } else {
        None
    }
}

/// Nodes that define a symbol in Java.
pub open spec fn java_rule(kind: Seq<char>) -> Option<(SymbolKind, Seq<char>)> {
    if kind == "method_declaration"@ {
        Some((SymbolKind::Method, "name"@))
    } else if kind == "class_declaration"@ {
        Some((SymbolKind::Class, "name"@))
    } else if kind == "interface_declaration"@ {
        Some((SymbolKind::Interface, "name"@))
    } else if kind == "enum_declaration"@ {
        Some((SymbolKind::Enum, "name"@))
    } else if kind == "constructor_declaration"@ {
        Some((SymbolKind::Function, "name"@))
    } else if kind == "field_declaration"@ {
        Some((SymbolKind::Property, "declarator"@))
    } else {
        None
    }
}

/// Nodes that define a symbol in Ruby.
pub open spec fn ruby_rule(kind: Seq<char>) -> Option<(SymbolKind, Seq<char>)> {
    if kind == "method"@ {
        Some((SymbolKind::Method, "name"@))
    } else if kind == "singleton_method"@ {
        Some((SymbolKind::Method, "name"@))
    } else if kind == "class"@ {
        Some((SymbolKind::Class, "name"@))
    } else if kind == "module"@ {
        Some((SymbolKind::Module, "name"@))
    } else {
        None
    }
}

/// The rule for a node kind in a language (named exactly, in lower case).
pub open spec fn node_rule(lang: Seq<char>, kind: Seq<char>) -> Option<(SymbolKind, Seq<char>)> {
    if lang == "typescript"@ || lang == "tsx"@ || lang == "javascript"@ {
        typescript_rule(kind)
    } else if lang == "python"@ {
        python_rule(kind)
    } else if lang == "rust"@ {
        rust_rule(kind)
    } else if lang == "go"@ {
        go_rule(kind)
    } else if lang == "c"@ {
        c_rule(kind)
    } else if lang == "cpp"@ {
        cpp_rule(kind)
    } else if lang == "java"@ {
        java_rule(kind)
    } else if lang == "ruby"@ {
        ruby_rule(kind)
    } else {
        None
    }
}

/// The text of the named child field of a node (only `name` and
/// `declarator` are ever asked for).
pub open spec fn field_text(n: SyntaxNode, field: Seq<char>) -> Option<Seq<char>> {
    let t = if field == "name"@ {
        n.name_text
    } else {
        n.declarator_text
    };
    match t {
        Some(s) => Some(s@),
        None => None,
    }
}

/// The symbol a node defines in a language, if any.
pub open spec fn node_symbol(lang: Seq<char>, n: SyntaxNode) -> Option<SymbolView> {
    match node_rule(lang, n.kind@) {
        None => None,
        Some((k, field)) => match field_text(n, field) {
            None => None,
            Some(name) => Some((
                name,
                k,
                (n.start_row + 1) as usize,
                (n.start_column + 1) as usize,
                (n.end_row + 1) as usize,
                Some(n.start_byte),
                Some(n.end_byte),
                None,
            )),
        },
    }
}

/// The symbols defined by a list of nodes, in order.
pub open spec fn symbols_of(lang: Seq<char>, nodes: Seq<SyntaxNode>) -> Seq<SymbolView>
    decreases nodes.len(),
{
    if nodes.len() == 0 {
        seq![]
    } else {
        let prev = symbols_of(lang, nodes.drop_last());
        match node_symbol(lang, nodes.last()) {
            Some(s) => prev.push(s),
            None => prev,
        }
    }
}

/// Symbols start no later than they end.
pub proof fn lemma_symbols_ordered(lang: Seq<char>, nodes: Seq<SyntaxNode>)
    requires
        forall|i: int| 0 <= i < nodes.len() ==> node_in_range(#[trigger] nodes[i]),
    ensures
        forall|k: int| 0 <= k < symbols_of(lang, nodes).len() ==>
            (#[trigger] symbols_of(lang, nodes)[k]).2 <= symbols_of(lang, nodes)[k].4,
    decreases nodes.len(),
{
    if nodes.len() > 0 {
        lemma_symbols_ordered(lang, nodes.drop_last());
        let n = nodes.last();
        assert(node_in_range(nodes[nodes.len() - 1]));
        let prev = symbols_of(lang, nodes.drop_last());
        match node_symbol(lang, n) {
            Some(s) => {
                assert(s.2 == (n.start_row + 1) as usize && s.4 == (n.end_row + 1) as usize);
                assert(symbols_of(lang, nodes) == prev.push(s));
                assert forall|k: int| 0 <= k < symbols_of(lang, nodes).len() implies
                    (#[trigger] symbols_of(lang, nodes)[k]).2 <= symbols_of(lang, nodes)[k].4 by {
                    if k < prev.len() {
                        assert(symbols_of(lang, nodes)[k] == prev[k]);
                    }
                }
            },
            None => {
                assert(symbols_of(lang, nodes) == prev);
            },
        }
    }
}

/// Languages with a grammar.
#[derive(Debug, Clone, Copy, PartialEq, Eq, Structural)]
pub enum Grammar {
    Typescript,
    Tsx,
    Javascript,
    Python,
    Rust,
    Go,
    C,
    Cpp,
    Java,
    Ruby,
}

/// The grammar registered under a language name (compared in lower case).
pub open spec fn grammar_named(name: Seq<char>) -> Option<Grammar> {
    let l = lowercase(name);
    if l == "typescript"@ {
        Some(Grammar::Typescript)
    } else if l == "tsx"@ {
        Some(Grammar::Tsx)
    } else if l == "javascript"@ {
        Some(Grammar::Javascript)
    } else if l == "python"@ {
        Some(Grammar::Python)
    } else if l == "rust"@ {
        Some(Grammar::Rust)
    } else if l == "go"@ {
        Some(Grammar::Go)
    } else if l == "c"@ {
        Some(Grammar::C)
    } else if l == "cpp"@ {
        Some(Grammar::Cpp)
    } else if l == "java"@ {
        Some(Grammar::Java)
    } else if l == "ruby"@ {
        Some(Grammar::Ruby)
    } else {
        None
    }
}

/// Looks up the grammar for a language name.
pub fn grammar_for(name: &str) -> (g: Option<Grammar>)
    ensures
        g == grammar_named(name@),
{
    let l = to_lowercase(name);
    let s = l.as_str();
    if str_eq(s, "typescript") {
        Some(Grammar::Typescript)
    } else if str_eq(s, "tsx") {
        Some(Grammar::Tsx)
    } else if str_eq(s, "javascript") {
        Some(Grammar::Javascript)
    } else if str_eq(s, "python") {
        Some(Grammar::Python)
    } else if str_eq(s, "rust") {
        Some(Grammar::Rust)
    } else if str_eq(s, "go") {
        Some(Grammar::Go)
    } else if str_eq(s, "c") {
        Some(Grammar::C)
    } else if str_eq(s, "cpp") {
        Some(Grammar::Cpp)
    } else if str_eq(s, "java") {
        Some(Grammar::Java)
    } else if str_eq(s, "ruby") {
        Some(Grammar::Ruby)
    } else {
        None
    }
}

/// Why extraction failed.
#[derive(Debug, Clone, Copy, PartialEq, Eq, Structural)]
pub enum SymbolError {
    /// No grammar is registered under the language name.
    UnsupportedLanguage,
    /// The parser produced no tree.
    ParseFailed,
}

/// Extracts symbols from syntax trees.
#[derive(Debug, Clone, Copy)]
pub struct SymbolExtractor;

/// Whether `opt` holds exactly the rule `rule`.
pub open spec fn rule_result(r: Option<(SymbolKind, &'static str)>, rule: Option<(SymbolKind, Seq<char>)>) -> bool {
    match r {
        Some((k, f)) => rule == Some((k, f@)),
        None => rule is None,
    }
}

impl SymbolExtractor {
    /// A new extractor.
    pub fn new() -> (e: SymbolExtractor) {
        SymbolExtractor
    }

    /// The TypeScript/JavaScript rule for a node kind.
    pub fn match_typescript_node(&self, kind: &str) -> (r: Option<(SymbolKind, &'static str)>)
        ensures
            rule_result(r, typescript_rule(kind@)),
    {
        if str_eq(kind, "function_declaration") {
            Some((SymbolKind::Function, "name"))
        } else if str_eq(kind, "class_declaration") {
            Some((SymbolKind::Class, "name"))
        } else if str_eq(kind, "interface_declaration") {
            Some((SymbolKind::Interface, "name"))
        } else if str_eq(kind, "type_alias_declaration") {
            Some((SymbolKind::Type, "name"))
        } else if str_eq(kind, "enum_declaration") {
            Some((SymbolKind::Enum, "name"))
        } else if str_eq(kind, "method_definition") {
            Some((SymbolKind::Method, "name"))
        } else if str_eq(kind, "variable_declarator") {
            Some((SymbolKind::Variable, "name"))
        } else {
            None
        }
    }

    /// The Python rule for a node kind.
    pub fn match_python_node(&self, kind: &str) -> (r: Option<(SymbolKind, &'static str)>)
        ensures
            rule_result(r, python_rule(kind@)),
    {
        if str_eq(kind, "function_definition") {
            Some((SymbolKind::Function, "name"))
        } else if str_eq(kind, "class_definition") {
            Some((SymbolKind::Class, "name"))
        } else {
            None
        }
    }

    /// The Rust rule for a node kind.
    pub fn match_rust_node(&self, kind: &str) -> (r: Option<(SymbolKind, &'static str)>)
        ensures
            rule_result(r, rust_rule(kind@)),
    {
        if str_eq(kind, "function_item") {
            Some((SymbolKind::Function, "name"))
        } else if str_eq(kind, "struct_item") {
            Some((SymbolKind::Struct, "name"))
        } else if str_eq(kind, "enum_item") {
            Some((SymbolKind::Enum, "name"))
        } else if str_eq(kind, "trait_item") {
            Some((SymbolKind::Trait, "name"))
        } else if str_eq(kind, "type_item") {
            Some((SymbolKind::Type, "name"))
        } else if str_eq(kind, "const_item") {
            Some((SymbolKind::Constant, "name"))
        } else if str_eq(kind, "static_item") {
            Some((SymbolKind::Variable, "name"))
        } else if str_eq(kind, "mod_item") {
            Some((SymbolKind::Module, "name"))
        } else {
            None
        }
    }

    /// The Go rule for a node kind.
    pub fn match_go_node(&self, kind: &str) -> (r: Option<(SymbolKind, &'static str)>)
        ensures
            rule_result(r, go_rule(kind@)),
    {
        if str_eq(kind, "function_declaration") {
            Some((SymbolKind::Function, "name"))
        } else if str_eq(kind, "method_declaration") {
            Some((SymbolKind::Method, "name"))
        } else if str_eq(kind, "type_spec") {
            Some((SymbolKind::Type, "name"))
        } else {
            None
        }
    }

    /// The C rule for a node kind.
    pub fn match_c_node(&self, kind: &str) -> (r: Option<(SymbolKind, &'static str)>)
        ensures
            rule_result(r, c_rule(kind@)),
    {
        if str_eq(kind, "function_definition") {
            Some((SymbolKind::Function, "declarator"))
        } else if str_eq(kind, "function_declarator") {
            Some((SymbolKind::Function, "declarator"))
        } else if str_eq(kind, "struct_specifier") {
            Some((SymbolKind::Struct, "name"))
        } else if str_eq(kind, "enum_specifier") {
            Some((SymbolKind::Enum, "name"))
        } else if str_eq(kind, "type_definition") {
            Some((SymbolKind::Type, "declarator"))
        } else {
            None
        }
    }

    /// The C++ rule for a node kind.
    pub fn match_cpp_node(&self, kind: &str) -> (r: Option<(SymbolKind, &'static str)>)
        ensures
            rule_result(r, cpp_rule(kind@)),
    {
        if str_eq(kind, "function_definition") {
            Some((SymbolKind::Function, "declarator"))
        } else if str_eq(kind, "function_declarator") {
            Some((SymbolKind::Function, "declarator"))
        } else if str_eq(kind, "class_specifier") {
            Some((SymbolKind::Class, "name"))
        } else if str_eq(kind, "struct_specifier") {
            Some((SymbolKind::Struct, "name"))
        } else if str_eq(kind, "enum_specifier") {
            Some((SymbolKind::Enum, "name"))
        } else if str_eq(kind, "namespace_definition") {
            Some((SymbolKind::Module, "name"))
        } else if str_eq(kind, "type_definition") {
            Some((SymbolKind::Type, "declarator"))
        } else {
            None
        }
    }

    /// The Java rule for a node kind.
    pub fn match_java_node(&self, kind: &str) -> (r: Option<(SymbolKind, &'static str)>)
        ensures
            rule_result(r, java_rule(kind@)),
    {
        if str_eq(kind, "method_declaration") {
            Some((SymbolKind::Method, "name"))
        } else if str_eq(kind, "class_declaration") {
            Some((SymbolKind::Class, "name"))
        } else if str_eq(kind, "interface_declaration") {
            Some((SymbolKind::Interface, "name"))
        } else if str_eq(kind, "enum_declaration") {
            Some((SymbolKind::Enum, "name"))
        } else if str_eq(kind, "constructor_declaration") {
            Some((SymbolKind::Function, "name"))
        } else if str_eq(kind, "field_declaration") {
            Some((SymbolKind::Property, "declarator"))
        } else {
            None
        }
    }

    /// The Ruby rule for a node kind.
    pub fn match_ruby_node(&self, kind: &str) -> (r: Option<(SymbolKind, &'static str)>)
        ensures
            rule_result(r, ruby_rule(kind@)),
    {
        if str_eq(kind, "method") {
            Some((SymbolKind::Method, "name"))
        } else if str_eq(kind, "singleton_method") {
            Some((SymbolKind::Method, "name"))
        } else if str_eq(kind, "class") {
            Some((SymbolKind::Class, "name"))
        } else if str_eq(kind, "module") {
            Some((SymbolKind::Module, "name"))
        } else {
            None
        }
    }

    /// The rule for a node kind in a language.
    pub fn match_node(&self, lang: &str, kind: &str) -> (r: Option<(SymbolKind, &'static str)>)
        ensures
            rule_result(r, node_rule(lang@, kind@)),
    {
        if str_eq(lang, "typescript") || str_eq(lang, "tsx") || str_eq(lang, "javascript") {
            self.match_typescript_node(kind)
        } else if str_eq(lang, "python") {
            self.match_python_node(kind)
        } else if str_eq(lang, "rust") {
            self.match_rust_node(kind)
        } else if str_eq(lang, "go") {
            self.match_go_node(kind)
        } else if str_eq(lang, "c") {
            self.match_c_node(kind)
        } else if str_eq(lang, "cpp") {
            self.match_cpp_node(kind)
        } else if str_eq(lang, "java") {
            self.match_java_node(kind)
        } else if str_eq(lang, "ruby") {
            self.match_ruby_node(kind)
        } else {
            None
        }
    }

    /// The symbol a node defines, if any.
    pub fn extract_symbol_from_node(&self, node: &SyntaxNode, lang: &str) -> (r: Option<Symbol>)
        requires
            node_in_range(*node),
        ensures
            match r {
                Some(s) => node_symbol(lang@, *node) == Some(s@),
                None => node_symbol(lang@, *node) is None,
            },
    {
        let (kind, field) = match self.match_node(lang, node.kind.as_str()) {
            Some(rule) => rule,
            None => return None,
        };
        let text = if str_eq(field, "name") {
            &node.name_text
        } else {
            &node.declarator_text
        };
        let name = match text {
            Some(t) => t.clone(),
            None => return None,
        };
        Some(Symbol {
            name,
            kind,
            line: node.start_row + 1,
            column: node.start_column + 1,
            end_line: node.end_row + 1,
            byte_start: Some(node.start_byte),
            byte_end: Some(node.end_byte),
            scope: None,
        })
    }

    /// The symbols defined by nodes listed in pre-order, in that order.
    pub fn symbols_from_nodes(&self, nodes: &[SyntaxNode], lang: &str) -> (r: Vec<Symbol>)
        requires
            forall|i: int| 0 <= i < nodes@.len() ==> node_in_range(#[trigger] nodes@[i]),
        ensures
            r@.map_values(|s: Symbol| s@) == symbols_of(lang@, nodes@),
    {
        let mut out: Vec<Symbol> = Vec::new();
        let mut i: usize = 0;
        while i < nodes.len()
            invariant
                i <= nodes@.len(),
                forall|k: int| 0 <= k < nodes@.len() ==> node_in_range(#[trigger] nodes@[k]),
                out@.map_values(|s: Symbol| s@) == symbols_of(lang@, nodes@.take(i as int)),
            decreases nodes@.len() - i,
        {
            let ghost before = out@.map_values(|s: Symbol| s@);
            assert(nodes@.take(i + 1).drop_last() =~= nodes@.take(i as int));
            assert(nodes@.take(i + 1).last() == nodes@[i as int]);
            match self.extract_symbol_from_node(&nodes[i], lang) {
                Some(s) => {
                    let ghost sv = s@;
                    out.push(s);
                    assert(out@.map_values(|s: Symbol| s@) =~= before.push(sv));
                },
                None => {},
            }
            i += 1;
        }
        assert(nodes@.take(nodes@.len() as int) =~= nodes@);
        out
    }
}

/// The nodes that define symbols in typescript, tsx, javascript: `function_declaration` gives a function named by its `name` field; `class_declaration` gives a class named by its `name` field; `interface_declaration` gives a interface named by its `name` field; `type_alias_declaration` gives a type named by its `name` field; `enum_declaration` gives a enum named by its `name` field; `method_definition` gives a method named by its `name` field; `variable_declarator` gives a variable named by its `name` field. No other node kind
/// defines a symbol there.
#[verifier::rlimit(60)]
pub proof fn law_typescript_symbol_nodes(kind: Seq<char>)
    ensures
        node_rule("typescript"@, "function_declaration"@) == Some((SymbolKind::Function, "name"@)),
        node_rule("typescript"@, "class_declaration"@) == Some((SymbolKind::Class, "name"@)),
        node_rule("typescript"@, "interface_declaration"@) == Some((SymbolKind::Interface, "name"@)),
        node_rule("typescript"@, "type_alias_declaration"@) == Some((SymbolKind::Type, "name"@)),
        node_rule("typescript"@, "enum_declaration"@) == Some((SymbolKind::Enum, "name"@)),
        node_rule("typescript"@, "method_definition"@) == Some((SymbolKind::Method, "name"@)),
        node_rule("typescript"@, "variable_declarator"@) == Some((SymbolKind::Variable, "name"@)),
        node_rule("tsx"@, "function_declaration"@) == Some((SymbolKind::Function, "name"@)),
        node_rule("tsx"@, "class_declaration"@) == Some((SymbolKind::Class, "name"@)),
        node_rule("tsx"@, "interface_declaration"@) == Some((SymbolKind::Interface, "name"@)),
        node_rule("tsx"@, "type_alias_declaration"@) == Some((SymbolKind::Type, "name"@)),
        node_rule("tsx"@, "enum_declaration"@) == Some((SymbolKind::Enum, "name"@)),
        node_rule("tsx"@, "method_definition"@) == Some((SymbolKind::Method, "name"@)),
        node_rule("tsx"@, "variable_declarator"@) == Some((SymbolKind::Variable, "name"@)),
        node_rule("javascript"@, "function_declaration"@) == Some((SymbolKind::Function, "name"@)),
        node_rule("javascript"@, "class_declaration"@) == Some((SymbolKind::Class, "name"@)),
        node_rule("javascript"@, "interface_declaration"@) == Some((SymbolKind::Interface, "name"@)),
        node_rule("javascript"@, "type_alias_declaration"@) == Some((SymbolKind::Type, "name"@)),
        node_rule("javascript"@, "enum_declaration"@) == Some((SymbolKind::Enum, "name"@)),
        node_rule("javascript"@, "method_definition"@) == Some((SymbolKind::Method, "name"@)),
        node_rule("javascript"@, "variable_declarator"@) == Some((SymbolKind::Variable, "name"@)),
        !(kind == "function_declaration"@ || kind == "class_declaration"@ || kind == "interface_declaration"@ || kind == "type_alias_declaration"@ || kind == "enum_declaration"@ || kind == "method_definition"@ || kind == "variable_declarator"@) ==> node_rule("typescript"@, kind) is None,
        !(kind == "function_declaration"@ || kind == "class_declaration"@ || kind == "interface_declaration"@ || kind == "type_alias_declaration"@ || kind == "enum_declaration"@ || kind == "method_definition"@ || kind == "variable_declarator"@) ==> node_rule("tsx"@, kind) is None,
        !(kind == "function_declaration"@ || kind == "class_declaration"@ || kind == "interface_declaration"@ || kind == "type_alias_declaration"@ || kind == "enum_declaration"@ || kind == "method_definition"@ || kind == "variable_declarator"@) ==> node_rule("javascript"@, kind) is None,
{
    reveal_strlit("c");
    assert("c"@[0] == 'c' && "c"@.len() == 1);
    reveal_strlit("class_declaration");
    assert("class_declaration"@[0] == 'c' && "class_declaration"@[1] == 'l' && "class_declaration"@[2] == 'a' && "class_declaration"@[3] == 's' && "class_declaration"@[4] == 's' && "class_declaration"@[5] == '_' && "class_declaration"@[6] == 'd' && "class_declaration"@[7] == 'e' && "class_declaration"@[8] == 'c' && "class_declaration"@[9] == 'l' && "class_declaration"@[10] == 'a' && "class_declaration"@[11] == 'r' && "class_declaration"@[12] == 'a' && "class_declaration"@[13] == 't' && "class_declaration"@[14] == 'i' && "class_declaration"@[15] == 'o' && "class_declaration"@[16] == 'n' && "class_declaration"@.len() == 17);
    reveal_strlit("cpp");
    assert("cpp"@[0] == 'c' && "cpp"@[1] == 'p' && "cpp"@[2] == 'p' && "cpp"@.len() == 3);
    reveal_strlit("declarator");
    assert("declarator"@[0] == 'd' && "declarator"@[1] == 'e' && "declarator"@[2] == 'c' && "declarator"@[3] == 'l' && "declarator"@[4] == 'a' && "declarator"@[5] == 'r' && "declarator"@[6] == 'a' && "declarator"@[7] == 't' && "declarator"@[8] == 'o' && "declarator"@[9] == 'r' && "declarator"@.len() == 10);
    reveal_strlit("enum_declaration");
    assert("enum_declaration"@[0] == 'e' && "enum_declaration"@[1] == 'n' && "enum_declaration"@[2] == 'u' && "enum_declaration"@[3] == 'm' && "enum_declaration"@[4] == '_' && "enum_declaration"@[5] == 'd' && "enum_declaration"@[6] == 'e' && "enum_declaration"@[7] == 'c' && "enum_declaration"@[8] == 'l' && "enum_declaration"@[9] == 'a' && "enum_declaration"@[10] == 'r' && "enum_declaration"@[11] == 'a' && "enum_declaration"@[12] == 't' && "enum_declaration"@[13] == 'i' && "enum_declaration"@[14] == 'o' && "enum_declaration"@[15] == 'n' && "enum_declaration"@.len() == 16);
    reveal_strlit("function_declaration");
    assert("function_declaration"@[0] == 'f' && "function_declaration"@[1] == 'u' && "function_declaration"@[2] == 'n' && "function_declaration"@[3] == 'c' && "function_declaration"@[4] == 't' && "function_declaration"@[5] == 'i' && "function_declaration"@[6] == 'o' && "function_declaration"@[7] == 'n' && "function_declaration"@[8] == '_' && "function_declaration"@[9] == 'd' && "function_declaration"@[10] == 'e' && "function_declaration"@[11] == 'c' && "function_declaration"@[12] == 'l' && "function_declaration"@[13] == 'a' && "function_declaration"@[14] == 'r' && "function_declaration"@[15] == 'a' && "function_declaration"@[16] == 't' && "function_declaration"@[17] == 'i' && "function_declaration"@[18] == 'o' && "function_declaration"@[19] == 'n' && "function_declaration"@.len() == 20);
    reveal_strlit("go");
    assert("go"@[0] == 'g' && "go"@[1] == 'o' && "go"@.len() == 2);
    reveal_strlit("interface_declaration");
    assert("interface_declaration"@[0] == 'i' && "interface_declaration"@[1] == 'n' && "interface_declaration"@[2] == 't' && "interface_declaration"@[3] == 'e' && "interface_declaration"@[4] == 'r' && "interface_declaration"@[5] == 'f' && "interface_declaration"@[6] == 'a' && "interface_declaration"@[7] == 'c' && "interface_declaration"@[8] == 'e' && "interface_declaration"@[9] == '_' && "interface_declaration"@[10] == 'd' && "interface_declaration"@[11] == 'e' && "interface_declaration"@[12] == 'c' && "interface_declaration"@[13] == 'l' && "interface_declaration"@[14] == 'a' && "interface_declaration"@[15] == 'r' && "interface_declaration"@[16] == 'a' && "interface_declaration"@[17] == 't' && "interface_declaration"@[18] == 'i' && "interface_declaration"@[19] == 'o' && "interface_declaration"@[20] == 'n' && "interface_declaration"@.len() == 21);
    reveal_strlit("java");
    assert("java"@[0] == 'j' && "java"@[1] == 'a' && "java"@[2] == 'v' && "java"@[3] == 'a' && "java"@.len() == 4);
    reveal_strlit("javascript");
    assert("javascript"@[0] == 'j' && "javascript"@[1] == 'a' && "javascript"@[2] == 'v' && "javascript"@[3] == 'a' && "javascript"@[4] == 's' && "javascript"@[5] == 'c' && "javascript"@[6] == 'r' && "javascript"@[7] == 'i' && "javascript"@[8] == 'p' && "javascript"@[9] == 't' && "javascript"@.len() == 10);
    reveal_strlit("method_definition");
    assert("method_definition"@[0] == 'm' && "method_definition"@[1] == 'e' && "method_definition"@[2] == 't' && "method_definition"@[3] == 'h' && "method_definition"@[4] == 'o' && "method_definition"@[5] == 'd' && "method_definition"@[6] == '_' && "method_definition"@[7] == 'd' && "method_definition"@[8] == 'e' && "method_definition"@[9] == 'f' && "method_definition"@[10] == 'i' && "method_definition"@[11] == 'n' && "method_definition"@[12] == 'i' && "method_definition"@[13] == 't' && "method_definition"@[14] == 'i' && "method_definition"@[15] == 'o' && "method_definition"@[16] == 'n' && "method_definition"@.len() == 17);
    reveal_strlit("name");
    assert("name"@[0] == 'n' && "name"@[1] == 'a' && "name"@[2] == 'm' && "name"@[3] == 'e' && "name"@.len() == 4);
    reveal_strlit("python");
    assert("python"@[0] == 'p' && "python"@[1] == 'y' && "python"@[2] == 't' && "python"@[3] == 'h' && "python"@[4] == 'o' && "python"@[5] == 'n' && "python"@.len() == 6);
    reveal_strlit("ruby");
    assert("ruby"@[0] == 'r' && "ruby"@[1] == 'u' && "ruby"@[2] == 'b' && "ruby"@[3] == 'y' && "ruby"@.len() == 4);
    reveal_strlit("rust");
    assert("rust"@[0] == 'r' && "rust"@[1] == 'u' && "rust"@[2] == 's' && "rust"@[3] == 't' && "rust"@.len() == 4);
    reveal_strlit("tsx");
    assert("tsx"@[0] == 't' && "tsx"@[1] == 's' && "tsx"@[2] == 'x' && "tsx"@.len() == 3);
    reveal_strlit("type_alias_declaration");
    assert("type_alias_declaration"@[0] == 't' && "type_alias_declaration"@[1] == 'y' && "type_alias_declaration"@[2] == 'p' && "type_alias_declaration"@[3] == 'e' && "type_alias_declaration"@[4] == '_' && "type_alias_declaration"@[5] == 'a' && "type_alias_declaration"@[6] == 'l' && "type_alias_declaration"@[7] == 'i' && "type_alias_declaration"@[8] == 'a' && "type_alias_declaration"@[9] == 's' && "type_alias_declaration"@[10] == '_' && "type_alias_declaration"@[11] == 'd' && "type_alias_declaration"@[12] == 'e' && "type_alias_declaration"@[13] == 'c' && "type_alias_declaration"@[14] == 'l' && "type_alias_declaration"@[15] == 'a' && "type_alias_declaration"@[16] == 'r' && "type_alias_declaration"@[17] == 'a' && "type_alias_declaration"@[18] == 't' && "type_alias_declaration"@[19] == 'i' && "type_alias_declaration"@[20] == 'o' && "type_alias_declaration"@[21] == 'n' && "type_alias_declaration"@.len() == 22);
    reveal_strlit("typescript");
    assert("typescript"@[0] == 't' && "typescript"@[1] == 'y' && "typescript"@[2] == 'p' && "typescript"@[3] == 'e' && "typescript"@[4] == 's' && "typescript"@[5] == 'c' && "typescript"@[6] == 'r' && "typescript"@[7] == 'i' && "typescript"@[8] == 'p' && "typescript"@[9] == 't' && "typescript"@.len() == 10);
    reveal_strlit("variable_declarator");
    assert("variable_declarator"@[0] == 'v' && "variable_declarator"@[1] == 'a' && "variable_declarator"@[2] == 'r' && "variable_declarator"@[3] == 'i' && "variable_declarator"@[4] == 'a' && "variable_declarator"@[5] == 'b' && "variable_declarator"@[6] == 'l' && "variable_declarator"@[7] == 'e' && "variable_declarator"@[8] == '_' && "variable_declarator"@[9] == 'd' && "variable_declarator"@[10] == 'e' && "variable_declarator"@[11] == 'c' && "variable_declarator"@[12] == 'l' && "variable_declarator"@[13] == 'a' && "variable_declarator"@[14] == 'r' && "variable_declarator"@[15] == 'a' && "variable_declarator"@[16] == 't' && "variable_declarator"@[17] == 'o' && "variable_declarator"@[18] == 'r' && "variable_declarator"@.len() == 19);
}

/// The nodes that define symbols in python: `function_definition` gives a function named by its `name` field; `class_definition` gives a class named by its `name` field. No other node kind
/// defines a symbol there.
#[verifier::rlimit(60)]
pub proof fn law_python_symbol_nodes(kind: Seq<char>)
    ensures
        node_rule("python"@, "function_definition"@) == Some((SymbolKind::Function, "name"@)),
        node_rule("python"@, "class_definition"@) == Some((SymbolKind::Class, "name"@)),
        !(kind == "function_definition"@ || kind == "class_definition"@) ==> node_rule("python"@, kind) is None,
{
    reveal_strlit("c");
    assert("c"@[0] == 'c' && "c"@.len() == 1);
    reveal_strlit("class_definition");
    assert("class_definition"@[0] == 'c' && "class_definition"@[1] == 'l' && "class_definition"@[2] == 'a' && "class_definition"@[3] == 's' && "class_definition"@[4] == 's' && "class_definition"@[5] == '_' && "class_definition"@[6] == 'd' && "class_definition"@[7] == 'e' && "class_definition"@[8] == 'f' && "class_definition"@[9] == 'i' && "class_definition"@[10] == 'n' && "class_definition"@[11] == 'i' && "class_definition"@[12] == 't' && "class_definition"@[13] == 'i' && "class_definition"@[14] == 'o' && "class_definition"@[15] == 'n' && "class_definition"@.len() == 16);
    reveal_strlit("cpp");
    assert("cpp"@[0] == 'c' && "cpp"@[1] == 'p' && "cpp"@[2] == 'p' && "cpp"@.len() == 3);
    reveal_strlit("declarator");
    assert("declarator"@[0] == 'd' && "declarator"@[1] == 'e' && "declarator"@[2] == 'c' && "declarator"@[3] == 'l' && "declarator"@[4] == 'a' && "declarator"@[5] == 'r' && "declarator"@[6] == 'a' && "declarator"@[7] == 't' && "declarator"@[8] == 'o' && "declarator"@[9] == 'r' && "declarator"@.len() == 10);
    reveal_strlit("function_definition");
    assert("function_definition"@[0] == 'f' && "function_definition"@[1] == 'u' && "function_definition"@[2] == 'n' && "function_definition"@[3] == 'c' && "function_definition"@[4] == 't' && "function_definition"@[5] == 'i' && "function_definition"@[6] == 'o' && "function_definition"@[7] == 'n' && "function_definition"@[8] == '_' && "function_definition"@[9] == 'd' && "function_definition"@[10] == 'e' && "function_definition"@[11] == 'f' && "function_definition"@[12] == 'i' && "function_definition"@[13] == 'n' && "function_definition"@[14] == 'i' && "function_definition"@[15] == 't' && "function_definition"@[16] == 'i' && "function_definition"@[17] == 'o' && "function_definition"@[18] == 'n' && "function_definition"@.len() == 19);
    reveal_strlit("go");
    assert("go"@[0] == 'g' && "go"@[1] == 'o' && "go"@.len() == 2);
    reveal_strlit("java");
    assert("java"@[0] == 'j' && "java"@[1] == 'a' && "java"@[2] == 'v' && "java"@[3] == 'a' && "java"@.len() == 4);
    reveal_strlit("javascript");
    assert("javascript"@[0] == 'j' && "javascript"@[1] == 'a' && "javascript"@[2] == 'v' && "javascript"@[3] == 'a' && "javascript"@[4] == 's' && "javascript"@[5] == 'c' && "javascript"@[6] == 'r' && "javascript"@[7] == 'i' && "javascript"@[8] == 'p' && "javascript"@[9] == 't' && "javascript"@.len() == 10);
    reveal_strlit("name");
    assert("name"@[0] == 'n' && "name"@[1] == 'a' && "name"@[2] == 'm' && "name"@[3] == 'e' && "name"@.len() == 4);
    reveal_strlit("python");
    assert("python"@[0] == 'p' && "python"@[1] == 'y' && "python"@[2] == 't' && "python"@[3] == 'h' && "python"@[4] == 'o' && "python"@[5] == 'n' && "python"@.len() == 6);
    reveal_strlit("ruby");
    assert("ruby"@[0] == 'r' && "ruby"@[1] == 'u' && "ruby"@[2] == 'b' && "ruby"@[3] == 'y' && "ruby"@.len() == 4);
    reveal_strlit("rust");
    assert("rust"@[0] == 'r' && "rust"@[1] == 'u' && "rust"@[2] == 's' && "rust"@[3] == 't' && "rust"@.len() == 4);
    reveal_strlit("tsx");
    assert("tsx"@[0] == 't' && "tsx"@[1] == 's' && "tsx"@[2] == 'x' && "tsx"@.len() == 3);
    reveal_strlit("typescript");
    assert("typescript"@[0] == 't' && "typescript"@[1] == 'y' && "typescript"@[2] == 'p' && "typescript"@[3] == 'e' && "typescript"@[4] == 's' && "typescript"@[5] == 'c' && "typescript"@[6] == 'r' && "typescript"@[7] == 'i' && "typescript"@[8] == 'p' && "typescript"@[9] == 't' && "typescript"@.len() == 10);
}

/// The nodes that define symbols in rust: `function_item` gives a function named by its `name` field; `struct_item` gives a struct named by its `name` field; `enum_item` gives a enum named by its `name` field; `trait_item` gives a trait named by its `name` field; `type_item` gives a type named by its `name` field; `const_item` gives a constant named by its `name` field; `static_item` gives a variable named by its `name` field; `mod_item` gives a module named by its `name` field. No other node kind
/// defines a symbol there.
#[verifier::rlimit(60)]
pub proof fn law_rust_symbol_nodes(kind: Seq<char>)
    ensures
        node_rule("rust"@, "function_item"@) == Some((SymbolKind::Function, "name"@)),
        node_rule("rust"@, "struct_item"@) == Some((SymbolKind::Struct, "name"@)),
        node_rule("rust"@, "enum_item"@) == Some((SymbolKind::Enum, "name"@)),
        node_rule("rust"@, "trait_item"@) == Some((SymbolKind::Trait, "name"@)),
        node_rule("rust"@, "type_item"@) == Some((SymbolKind::Type, "name"@)),
        node_rule("rust"@, "const_item"@) == Some((SymbolKind::Constant, "name"@)),
        node_rule("rust"@, "static_item"@) == Some((SymbolKind::Variable, "name"@)),
        node_rule("rust"@, "mod_item"@) == Some((SymbolKind::Module, "name"@)),
        !(kind == "function_item"@ || kind == "struct_item"@ || kind == "enum_item"@ || kind == "trait_item"@ || kind == "type_item"@ || kind == "const_item"@ || kind == "static_item"@ || kind == "mod_item"@) ==> node_rule("rust"@, kind) is None,
{
    reveal_strlit("c");
    assert("c"@[0] == 'c' && "c"@.len() == 1);
    reveal_strlit("const_item");
    assert("const_item"@[0] == 'c' && "const_item"@[1] == 'o' && "const_item"@[2] == 'n' && "const_item"@[3] == 's' && "const_item"@[4] == 't' && "const_item"@[5] == '_' && "const_item"@[6] == 'i' && "const_item"@[7] == 't' && "const_item"@[8] == 'e' && "const_item"@[9] == 'm' && "const_item"@.len() == 10);
    reveal_strlit("cpp");
    assert("cpp"@[0] == 'c' && "cpp"@[1] == 'p' && "cpp"@[2] == 'p' && "cpp"@.len() == 3);
    reveal_strlit("declarator");
    assert("declarator"@[0] == 'd' && "declarator"@[1] == 'e' && "declarator"@[2] == 'c' && "declarator"@[3] == 'l' && "declarator"@[4] == 'a' && "declarator"@[5] == 'r' && "declarator"@[6] == 'a' && "declarator"@[7] == 't' && "declarator"@[8] == 'o' && "declarator"@[9] == 'r' && "declarator"@.len() == 10);
    reveal_strlit("enum_item");
    assert("enum_item"@[0] == 'e' && "enum_item"@[1] == 'n' && "enum_item"@[2] == 'u' && "enum_item"@[3] == 'm' && "enum_item"@[4] == '_' && "enum_item"@[5] == 'i' && "enum_item"@[6] == 't' && "enum_item"@[7] == 'e' && "enum_item"@[8] == 'm' && "enum_item"@.len() == 9);
    reveal_strlit("function_item");
    assert("function_item"@[0] == 'f' && "function_item"@[1] == 'u' && "function_item"@[2] == 'n' && "function_item"@[3] == 'c' && "function_item"@[4] == 't' && "function_item"@[5] == 'i' && "function_item"@[6] == 'o' && "function_item"@[7] == 'n' && "function_item"@[8] == '_' && "function_item"@[9] == 'i' && "function_item"@[10] == 't' && "function_item"@[11] == 'e' && "function_item"@[12] == 'm' && "function_item"@.len() == 13);
    reveal_strlit("go");
    assert("go"@[0] == 'g' && "go"@[1] == 'o' && "go"@.len() == 2);
    reveal_strlit("java");
    assert("java"@[0] == 'j' && "java"@[1] == 'a' && "java"@[2] == 'v' && "java"@[3] == 'a' && "java"@.len() == 4);
    reveal_strlit("javascript");
    assert("javascript"@[0] == 'j' && "javascript"@[1] == 'a' && "javascript"@[2] == 'v' && "javascript"@[3] == 'a' && "javascript"@[4] == 's' && "javascript"@[5] == 'c' && "javascript"@[6] == 'r' && "javascript"@[7] == 'i' && "javascript"@[8] == 'p' && "javascript"@[9] == 't' && "javascript"@.len() == 10);
    reveal_strlit("mod_item");
    assert("mod_item"@[0] == 'm' && "mod_item"@[1] == 'o' && "mod_item"@[2] == 'd' && "mod_item"@[3] == '_' && "mod_item"@[4] == 'i' && "mod_item"@[5] == 't' && "mod_item"@[6] == 'e' && "mod_item"@[7] == 'm' && "mod_item"@.len() == 8);
    reveal_strlit("name");
    assert("name"@[0] == 'n' && "name"@[1] == 'a' && "name"@[2] == 'm' && "name"@[3] == 'e' && "name"@.len() == 4);
    reveal_strlit("python");
    assert("python"@[0] == 'p' && "python"@[1] == 'y' && "python"@[2] == 't' && "python"@[3] == 'h' && "python"@[4] == 'o' && "python"@[5] == 'n' && "python"@.len() == 6);
    reveal_strlit("ruby");
    assert("ruby"@[0] == 'r' && "ruby"@[1] == 'u' && "ruby"@[2] == 'b' && "ruby"@[3] == 'y' && "ruby"@.len() == 4);
    reveal_strlit("rust");
    assert("rust"@[0] == 'r' && "rust"@[1] == 'u' && "rust"@[2] == 's' && "rust"@[3] == 't' && "rust"@.len() == 4);
    reveal_strlit("static_item");
    assert("static_item"@[0] == 's' && "static_item"@[1] == 't' && "static_item"@[2] == 'a' && "static_item"@[3] == 't' && "static_item"@[4] == 'i' && "static_item"@[5] == 'c' && "static_item"@[6] == '_' && "static_item"@[7] == 'i' && "static_item"@[8] == 't' && "static_item"@[9] == 'e' && "static_item"@[10] == 'm' && "static_item"@.len() == 11);
    reveal_strlit("struct_item");
    assert("struct_item"@[0] == 's' && "struct_item"@[1] == 't' && "struct_item"@[2] == 'r' && "struct_item"@[3] == 'u' && "struct_item"@[4] == 'c' && "struct_item"@[5] == 't' && "struct_item"@[6] == '_' && "struct_item"@[7] == 'i' && "struct_item"@[8] == 't' && "struct_item"@[9] == 'e' && "struct_item"@[10] == 'm' && "struct_item"@.len() == 11);
    reveal_strlit("trait_item");
    assert("trait_item"@[0] == 't' && "trait_item"@[1] == 'r' && "trait_item"@[2] == 'a' && "trait_item"@[3] == 'i' && "trait_item"@[4] == 't' && "trait_item"@[5] == '_' && "trait_item"@[6] == 'i' && "trait_item"@[7] == 't' && "trait_item"@[8] == 'e' && "trait_item"@[9] == 'm' && "trait_item"@.len() == 10);
    reveal_strlit("tsx");
    assert("tsx"@[0] == 't' && "tsx"@[1] == 's' && "tsx"@[2] == 'x' && "tsx"@.len() == 3);
    reveal_strlit("type_item");
    assert("type_item"@[0] == 't' && "type_item"@[1] == 'y' && "type_item"@[2] == 'p' && "type_item"@[3] == 'e' && "type_item"@[4] == '_' && "type_item"@[5] == 'i' && "type_item"@[6] == 't' && "type_item"@[7] == 'e' && "type_item"@[8] == 'm' && "type_item"@.len() == 9);
    reveal_strlit("typescript");
    assert("typescript"@[0] == 't' && "typescript"@[1] == 'y' && "typescript"@[2] == 'p' && "typescript"@[3] == 'e' && "typescript"@[4] == 's' && "typescript"@[5] == 'c' && "typescript"@[6] == 'r' && "typescript"@[7] == 'i' && "typescript"@[8] == 'p' && "typescript"@[9] == 't' && "typescript"@.len() == 10);
}

/// The nodes that define symbols in go: `function_declaration` gives a function named by its `name` field; `method_declaration` gives a method named by its `name` field; `type_spec` gives a type named by its `name` field. No other node kind
/// defines a symbol there.
#[verifier::rlimit(60)]
pub proof fn law_go_symbol_nodes(kind: Seq<char>)
    ensures
        node_rule("go"@, "function_declaration"@) == Some((SymbolKind::Function, "name"@)),
        node_rule("go"@, "method_declaration"@) == Some((SymbolKind::Method, "name"@)),
        node_rule("go"@, "type_spec"@) == Some((SymbolKind::Type, "name"@)),
        !(kind == "function_declaration"@ || kind == "method_declaration"@ || kind == "type_spec"@) ==> node_rule("go"@, kind) is None,
{
    reveal_strlit("c");
    assert("c"@[0] == 'c' && "c"@.len() == 1);
    reveal_strlit("cpp");
    assert("cpp"@[0] == 'c' && "cpp"@[1] == 'p' && "cpp"@[2] == 'p' && "cpp"@.len() == 3);
    reveal_strlit("declarator");
    assert("declarator"@[0] == 'd' && "declarator"@[1] == 'e' && "declarator"@[2] == 'c' && "declarator"@[3] == 'l' && "declarator"@[4] == 'a' && "declarator"@[5] == 'r' && "declarator"@[6] == 'a' && "declarator"@[7] == 't' && "declarator"@[8] == 'o' && "declarator"@[9] == 'r' && "declarator"@.len() == 10);
    reveal_strlit("function_declaration");
    assert("function_declaration"@[0] == 'f' && "function_declaration"@[1] == 'u' && "function_declaration"@[2] == 'n' && "function_declaration"@[3] == 'c' && "function_declaration"@[4] == 't' && "function_declaration"@[5] == 'i' && "function_declaration"@[6] == 'o' && "function_declaration"@[7] == 'n' && "function_declaration"@[8] == '_' && "function_declaration"@[9] == 'd' && "function_declaration"@[10] == 'e' && "function_declaration"@[11] == 'c' && "function_declaration"@[12] == 'l' && "function_declaration"@[13] == 'a' && "function_declaration"@[14] == 'r' && "function_declaration"@[15] == 'a' && "function_declaration"@[16] == 't' && "function_declaration"@[17] == 'i' && "function_declaration"@[18] == 'o' && "function_declaration"@[19] == 'n' && "function_declaration"@.len() == 20);
    reveal_strlit("go");
    assert("go"@[0] == 'g' && "go"@[1] == 'o' && "go"@.len() == 2);
    reveal_strlit("java");
    assert("java"@[0] == 'j' && "java"@[1] == 'a' && "java"@[2] == 'v' && "java"@[3] == 'a' && "java"@.len() == 4);
    reveal_strlit("javascript");
    assert("javascript"@[0] == 'j' && "javascript"@[1] == 'a' && "javascript"@[2] == 'v' && "javascript"@[3] == 'a' && "javascript"@[4] == 's' && "javascript"@[5] == 'c' && "javascript"@[6] == 'r' && "javascript"@[7] == 'i' && "javascript"@[8] == 'p' && "javascript"@[9] == 't' && "javascript"@.len() == 10);
    reveal_strlit("method_declaration");
    assert("method_declaration"@[0] == 'm' && "method_declaration"@[1] == 'e' && "method_declaration"@[2] == 't' && "method_declaration"@[3] == 'h' && "method_declaration"@[4] == 'o' && "method_declaration"@[5] == 'd' && "method_declaration"@[6] == '_' && "method_declaration"@[7] == 'd' && "method_declaration"@[8] == 'e' && "method_declaration"@[9] == 'c' && "method_declaration"@[10] == 'l' && "method_declaration"@[11] == 'a' && "method_declaration"@[12] == 'r' && "method_declaration"@[13] == 'a' && "method_declaration"@[14] == 't' && "method_declaration"@[15] == 'i' && "method_declaration"@[16] == 'o' && "method_declaration"@[17] == 'n' && "method_declaration"@.len() == 18);
    reveal_strlit("name");
    assert("name"@[0] == 'n' && "name"@[1] == 'a' && "name"@[2] == 'm' && "name"@[3] == 'e' && "name"@.len() == 4);
    reveal_strlit("python");
    assert("python"@[0] == 'p' && "python"@[1] == 'y' && "python"@[2] == 't' && "python"@[3] == 'h' && "python"@[4] == 'o' && "python"@[5] == 'n' && "python"@.len() == 6);
    reveal_strlit("ruby");
    assert("ruby"@[0] == 'r' && "ruby"@[1] == 'u' && "ruby"@[2] == 'b' && "ruby"@[3] == 'y' && "ruby"@.len() == 4);
    reveal_strlit("rust");
    assert("rust"@[0] == 'r' && "rust"@[1] == 'u' && "rust"@[2] == 's' && "rust"@[3] == 't' && "rust"@.len() == 4);
    reveal_strlit("tsx");
    assert("tsx"@[0] == 't' && "tsx"@[1] == 's' && "tsx"@[2] == 'x' && "tsx"@.len() == 3);
    reveal_strlit("type_spec");
    assert("type_spec"@[0] == 't' && "type_spec"@[1] == 'y' && "type_spec"@[2] == 'p' && "type_spec"@[3] == 'e' && "type_spec"@[4] == '_' && "type_spec"@[5] == 's' && "type_spec"@[6] == 'p' && "type_spec"@[7] == 'e' && "type_spec"@[8] == 'c' && "type_spec"@.len() == 9);
    reveal_strlit("typescript");
    assert("typescript"@[0] == 't' && "typescript"@[1] == 'y' && "typescript"@[2] == 'p' && "typescript"@[3] == 'e' && "typescript"@[4] == 's' && "typescript"@[5] == 'c' && "typescript"@[6] == 'r' && "typescript"@[7] == 'i' && "typescript"@[8] == 'p' && "typescript"@[9] == 't' && "typescript"@.len() == 10);
}

/// The nodes that define symbols in c: `function_definition` gives a function named by its `declarator` field; `function_declarator` gives a function named by its `declarator` field; `struct_specifier` gives a struct named by its `name` field; `enum_specifier` gives a enum named by its `name` field; `type_definition` gives a type named by its `declarator` field. No other node kind
/// defines a symbol there.
#[verifier::rlimit(60)]
pub proof fn law_c_symbol_nodes(kind: Seq<char>)
    ensures
        node_rule("c"@, "function_definition"@) == Some((SymbolKind::Function, "declarator"@)),
        node_rule("c"@, "function_declarator"@) == Some((SymbolKind::Function, "declarator"@)),
        node_rule("c"@, "struct_specifier"@) == Some((SymbolKind::Struct, "name"@)),
        node_rule("c"@, "enum_specifier"@) == Some((SymbolKind::Enum, "name"@)),
        node_rule("c"@, "type_definition"@) == Some((SymbolKind::Type, "declarator"@)),
        !(kind == "function_definition"@ || kind == "function_declarator"@ || kind == "struct_specifier"@ || kind == "enum_specifier"@ || kind == "type_definition"@) ==> node_rule("c"@, kind) is None,
{
    reveal_strlit("c");
    assert("c"@[0] == 'c' && "c"@.len() == 1);
    reveal_strlit("cpp");
    assert("cpp"@[0] == 'c' && "cpp"@[1] == 'p' && "cpp"@[2] == 'p' && "cpp"@.len() == 3);
    reveal_strlit("declarator");
    assert("declarator"@[0] == 'd' && "declarator"@[1] == 'e' && "declarator"@[2] == 'c' && "declarator"@[3] == 'l' && "declarator"@[4] == 'a' && "declarator"@[5] == 'r' && "declarator"@[6] == 'a' && "declarator"@[7] == 't' && "declarator"@[8] == 'o' && "declarator"@[9] == 'r' && "declarator"@.len() == 10);
    reveal_strlit("enum_specifier");
    assert("enum_specifier"@[0] == 'e' && "enum_specifier"@[1] == 'n' && "enum_specifier"@[2] == 'u' && "enum_specifier"@[3] == 'm' && "enum_specifier"@[4] == '_' && "enum_specifier"@[5] == 's' && "enum_specifier"@[6] == 'p' && "enum_specifier"@[7] == 'e' && "enum_specifier"@[8] == 'c' && "enum_specifier"@[9] == 'i' && "enum_specifier"@[10] == 'f' && "enum_specifier"@[11] == 'i' && "enum_specifier"@[12] == 'e' && "enum_specifier"@[13] == 'r' && "enum_specifier"@.len() == 14);
    reveal_strlit("function_declarator");
    assert("function_declarator"@[0] == 'f' && "function_declarator"@[1] == 'u' && "function_declarator"@[2] == 'n' && "function_declarator"@[3] == 'c' && "function_declarator"@[4] == 't' && "function_declarator"@[5] == 'i' && "function_declarator"@[6] == 'o' && "function_declarator"@[7] == 'n' && "function_declarator"@[8] == '_' && "function_declarator"@[9] == 'd' && "function_declarator"@[10] == 'e' && "function_declarator"@[11] == 'c' && "function_declarator"@[12] == 'l' && "function_declarator"@[13] == 'a' && "function_declarator"@[14] == 'r' && "function_declarator"@[15] == 'a' && "function_declarator"@[16] == 't' && "function_declarator"@[17] == 'o' && "function_declarator"@[18] == 'r' && "function_declarator"@.len() == 19);
    reveal_strlit("function_definition");
    assert("function_definition"@[0] == 'f' && "function_definition"@[1] == 'u' && "function_definition"@[2] == 'n' && "function_definition"@[3] == 'c' && "function_definition"@[4] == 't' && "function_definition"@[5] == 'i' && "function_definition"@[6] == 'o' && "function_definition"@[7] == 'n' && "function_definition"@[8] == '_' && "function_definition"@[9] == 'd' && "function_definition"@[10] == 'e' && "function_definition"@[11] == 'f' && "function_definition"@[12] == 'i' && "function_definition"@[13] == 'n' && "function_definition"@[14] == 'i' && "function_definition"@[15] == 't' && "function_definition"@[16] == 'i' && "function_definition"@[17] == 'o' && "function_definition"@[18] == 'n' && "function_definition"@.len() == 19);
    reveal_strlit("go");
    assert("go"@[0] == 'g' && "go"@[1] == 'o' && "go"@.len() == 2);
    reveal_strlit("java");
    assert("java"@[0] == 'j' && "java"@[1] == 'a' && "java"@[2] == 'v' && "java"@[3] == 'a' && "java"@.len() == 4);
    reveal_strlit("javascript");
    assert("javascript"@[0] == 'j' && "javascript"@[1] == 'a' && "javascript"@[2] == 'v' && "javascript"@[3] == 'a' && "javascript"@[4] == 's' && "javascript"@[5] == 'c' && "javascript"@[6] == 'r' && "javascript"@[7] == 'i' && "javascript"@[8] == 'p' && "javascript"@[9] == 't' && "javascript"@.len() == 10);
    reveal_strlit("name");
    assert("name"@[0] == 'n' && "name"@[1] == 'a' && "name"@[2] == 'm' && "name"@[3] == 'e' && "name"@.len() == 4);
    reveal_strlit("python");
    assert("python"@[0] == 'p' && "python"@[1] == 'y' && "python"@[2] == 't' && "python"@[3] == 'h' && "python"@[4] == 'o' && "python"@[5] == 'n' && "python"@.len() == 6);
    reveal_strlit("ruby");
    assert("ruby"@[0] == 'r' && "ruby"@[1] == 'u' && "ruby"@[2] == 'b' && "ruby"@[3] == 'y' && "ruby"@.len() == 4);
    reveal_strlit("rust");
    assert("rust"@[0] == 'r' && "rust"@[1] == 'u' && "rust"@[2] == 's' && "rust"@[3] == 't' && "rust"@.len() == 4);
    reveal_strlit("struct_specifier");
    assert("struct_specifier"@[0] == 's' && "struct_specifier"@[1] == 't' && "struct_specifier"@[2] == 'r' && "struct_specifier"@[3] == 'u' && "struct_specifier"@[4] == 'c' && "struct_specifier"@[5] == 't' && "struct_specifier"@[6] == '_' && "struct_specifier"@[7] == 's' && "struct_specifier"@[8] == 'p' && "struct_specifier"@[9] == 'e' && "struct_specifier"@[10] == 'c' && "struct_specifier"@[11] == 'i' && "struct_specifier"@[12] == 'f' && "struct_specifier"@[13] == 'i' && "struct_specifier"@[14] == 'e' && "struct_specifier"@[15] == 'r' && "struct_specifier"@.len() == 16);
    reveal_strlit("tsx");
    assert("tsx"@[0] == 't' && "tsx"@[1] == 's' && "tsx"@[2] == 'x' && "tsx"@.len() == 3);
    reveal_strlit("type_definition");
    assert("type_definition"@[0] == 't' && "type_definition"@[1] == 'y' && "type_definition"@[2] == 'p' && "type_definition"@[3] == 'e' && "type_definition"@[4] == '_' && "type_definition"@[5] == 'd' && "type_definition"@[6] == 'e' && "type_definition"@[7] == 'f' && "type_definition"@[8] == 'i' && "type_definition"@[9] == 'n' && "type_definition"@[10] == 'i' && "type_definition"@[11] == 't' && "type_definition"@[12] == 'i' && "type_definition"@[13] == 'o' && "type_definition"@[14] == 'n' && "type_definition"@.len() == 15);
    reveal_strlit("typescript");
    assert("typescript"@[0] == 't' && "typescript"@[1] == 'y' && "typescript"@[2] == 'p' && "typescript"@[3] == 'e' && "typescript"@[4] == 's' && "typescript"@[5] == 'c' && "typescript"@[6] == 'r' && "typescript"@[7] == 'i' && "typescript"@[8] == 'p' && "typescript"@[9] == 't' && "typescript"@.len() == 10);
}

/// The nodes that define symbols in cpp: `function_definition` gives a function named by its `declarator` field; `function_declarator` gives a function named by its `declarator` field; `class_specifier` gives a class named by its `name` field; `struct_specifier` gives a struct named by its `name` field; `enum_specifier` gives a enum named by its `name` field; `namespace_definition` gives a module named by its `name` field; `type_definition` gives a type named by its `declarator` field. No other node kind
/// defines a symbol there.
#[verifier::rlimit(60)]
pub proof fn law_cpp_symbol_nodes(kind: Seq<char>)
    ensures
        node_rule("cpp"@, "function_definition"@) == Some((SymbolKind::Function, "declarator"@)),
        node_rule("cpp"@, "function_declarator"@) == Some((SymbolKind::Function, "declarator"@)),
        node_rule("cpp"@, "class_specifier"@) == Some((SymbolKind::Class, "name"@)),
        node_rule("cpp"@, "struct_specifier"@) == Some((SymbolKind::Struct, "name"@)),
        node_rule("cpp"@, "enum_specifier"@) == Some((SymbolKind::Enum, "name"@)),
        node_rule("cpp"@, "namespace_definition"@) == Some((SymbolKind::Module, "name"@)),
        node_rule("cpp"@, "type_definition"@) == Some((SymbolKind::Type, "declarator"@)),
        !(kind == "function_definition"@ || kind == "function_declarator"@ || kind == "class_specifier"@ || kind == "struct_specifier"@ || kind == "enum_specifier"@ || kind == "namespace_definition"@ || kind == "type_definition"@) ==> node_rule("cpp"@, kind) is None,
{
    reveal_strlit("c");
    assert("c"@[0] == 'c' && "c"@.len() == 1);
    reveal_strlit("class_specifier");
    assert("class_specifier"@[0] == 'c' && "class_specifier"@[1] == 'l' && "class_specifier"@[2] == 'a' && "class_specifier"@[3] == 's' && "class_specifier"@[4] == 's' && "class_specifier"@[5] == '_' && "class_specifier"@[6] == 's' && "class_specifier"@[7] == 'p' && "class_specifier"@[8] == 'e' && "class_specifier"@[9] == 'c' && "class_specifier"@[10] == 'i' && "class_specifier"@[11] == 'f' && "class_specifier"@[12] == 'i' && "class_specifier"@[13] == 'e' && "class_specifier"@[14] == 'r' && "class_specifier"@.len() == 15);
    reveal_strlit("cpp");
    assert("cpp"@[0] == 'c' && "cpp"@[1] == 'p' && "cpp"@[2] == 'p' && "cpp"@.len() == 3);
    reveal_strlit("declarator");
    assert("declarator"@[0] == 'd' && "declarator"@[1] == 'e' && "declarator"@[2] == 'c' && "declarator"@[3] == 'l' && "declarator"@[4] == 'a' && "declarator"@[5] == 'r' && "declarator"@[6] == 'a' && "declarator"@[7] == 't' && "declarator"@[8] == 'o' && "declarator"@[9] == 'r' && "declarator"@.len() == 10);
    reveal_strlit("enum_specifier");
    assert("enum_specifier"@[0] == 'e' && "enum_specifier"@[1] == 'n' && "enum_specifier"@[2] == 'u' && "enum_specifier"@[3] == 'm' && "enum_specifier"@[4] == '_' && "enum_specifier"@[5] == 's' && "enum_specifier"@[6] == 'p' && "enum_specifier"@[7] == 'e' && "enum_specifier"@[8] == 'c' && "enum_specifier"@[9] == 'i' && "enum_specifier"@[10] == 'f' && "enum_specifier"@[11] == 'i' && "enum_specifier"@[12] == 'e' && "enum_specifier"@[13] == 'r' && "enum_specifier"@.len() == 14);
    reveal_strlit("function_declarator");
    assert("function_declarator"@[0] == 'f' && "function_declarator"@[1] == 'u' && "function_declarator"@[2] == 'n' && "function_declarator"@[3] == 'c' && "function_declarator"@[4] == 't' && "function_declarator"@[5] == 'i' && "function_declarator"@[6] == 'o' && "function_declarator"@[7] == 'n' && "function_declarator"@[8] == '_' && "function_declarator"@[9] == 'd' && "function_declarator"@[10] == 'e' && "function_declarator"@[11] == 'c' && "function_declarator"@[12] == 'l' && "function_declarator"@[13] == 'a' && "function_declarator"@[14] == 'r' && "function_declarator"@[15] == 'a' && "function_declarator"@[16] == 't' && "function_declarator"@[17] == 'o' && "function_declarator"@[18] == 'r' && "function_declarator"@.len() == 19);
    reveal_strlit("function_definition");
    assert("function_definition"@[0] == 'f' && "function_definition"@[1] == 'u' && "function_definition"@[2] == 'n' && "function_definition"@[3] == 'c' && "function_definition"@[4] == 't' && "function_definition"@[5] == 'i' && "function_definition"@[6] == 'o' && "function_definition"@[7] == 'n' && "function_definition"@[8] == '_' && "function_definition"@[9] == 'd' && "function_definition"@[10] == 'e' && "function_definition"@[11] == 'f' && "function_definition"@[12] == 'i' && "function_definition"@[13] == 'n' && "function_definition"@[14] == 'i' && "function_definition"@[15] == 't' && "function_definition"@[16] == 'i' && "function_definition"@[17] == 'o' && "function_definition"@[18] == 'n' && "function_definition"@.len() == 19);
    reveal_strlit("go");
    assert("go"@[0] == 'g' && "go"@[1] == 'o' && "go"@.len() == 2);
    reveal_strlit("java");
    assert("java"@[0] == 'j' && "java"@[1] == 'a' && "java"@[2] == 'v' && "java"@[3] == 'a' && "java"@.len() == 4);
    reveal_strlit("javascript");
    assert("javascript"@[0] == 'j' && "javascript"@[1] == 'a' && "javascript"@[2] == 'v' && "javascript"@[3] == 'a' && "javascript"@[4] == 's' && "javascript"@[5] == 'c' && "javascript"@[6] == 'r' && "javascript"@[7] == 'i' && "javascript"@[8] == 'p' && "javascript"@[9] == 't' && "javascript"@.len() == 10);
    reveal_strlit("name");
    assert("name"@[0] == 'n' && "name"@[1] == 'a' && "name"@[2] == 'm' && "name"@[3] == 'e' && "name"@.len() == 4);
    reveal_strlit("namespace_definition");
    assert("namespace_definition"@[0] == 'n' && "namespace_definition"@[1] == 'a' && "namespace_definition"@[2] == 'm' && "namespace_definition"@[3] == 'e' && "namespace_definition"@[4] == 's' && "namespace_definition"@[5] == 'p' && "namespace_definition"@[6] == 'a' && "namespace_definition"@[7] == 'c' && "namespace_definition"@[8] == 'e' && "namespace_definition"@[9] == '_' && "namespace_definition"@[10] == 'd' && "namespace_definition"@[11] == 'e' && "namespace_definition"@[12] == 'f' && "namespace_definition"@[13] == 'i' && "namespace_definition"@[14] == 'n' && "namespace_definition"@[15] == 'i' && "namespace_definition"@[16] == 't' && "namespace_definition"@[17] == 'i' && "namespace_definition"@[18] == 'o' && "namespace_definition"@[19] == 'n' && "namespace_definition"@.len() == 20);
    reveal_strlit("python");
    assert("python"@[0] == 'p' && "python"@[1] == 'y' && "python"@[2] == 't' && "python"@[3] == 'h' && "python"@[4] == 'o' && "python"@[5] == 'n' && "python"@.len() == 6);
    reveal_strlit("ruby");
    assert("ruby"@[0] == 'r' && "ruby"@[1] == 'u' && "ruby"@[2] == 'b' && "ruby"@[3] == 'y' && "ruby"@.len() == 4);
    reveal_strlit("rust");
    assert("rust"@[0] == 'r' && "rust"@[1] == 'u' && "rust"@[2] == 's' && "rust"@[3] == 't' && "rust"@.len() == 4);
    reveal_strlit("struct_specifier");
    assert("struct_specifier"@[0] == 's' && "struct_specifier"@[1] == 't' && "struct_specifier"@[2] == 'r' && "struct_specifier"@[3] == 'u' && "struct_specifier"@[4] == 'c' && "struct_specifier"@[5] == 't' && "struct_specifier"@[6] == '_' && "struct_specifier"@[7] == 's' && "struct_specifier"@[8] == 'p' && "struct_specifier"@[9] == 'e' && "struct_specifier"@[10] == 'c' && "struct_specifier"@[11] == 'i' && "struct_specifier"@[12] == 'f' && "struct_specifier"@[13] == 'i' && "struct_specifier"@[14] == 'e' && "struct_specifier"@[15] == 'r' && "struct_specifier"@.len() == 16);
    reveal_strlit("tsx");
    assert("tsx"@[0] == 't' && "tsx"@[1] == 's' && "tsx"@[2] == 'x' && "tsx"@.len() == 3);
    reveal_strlit("type_definition");
    assert("type_definition"@[0] == 't' && "type_definition"@[1] == 'y' && "type_definition"@[2] == 'p' && "type_definition"@[3] == 'e' && "type_definition"@[4] == '_' && "type_definition"@[5] == 'd' && "type_definition"@[6] == 'e' && "type_definition"@[7] == 'f' && "type_definition"@[8] == 'i' && "type_definition"@[9] == 'n' && "type_definition"@[10] == 'i' && "type_definition"@[11] == 't' && "type_definition"@[12] == 'i' && "type_definition"@[13] == 'o' && "type_definition"@[14] == 'n' && "type_definition"@.len() == 15);
    reveal_strlit("typescript");
    assert("typescript"@[0] == 't' && "typescript"@[1] == 'y' && "typescript"@[2] == 'p' && "typescript"@[3] == 'e' && "typescript"@[4] == 's' && "typescript"@[5] == 'c' && "typescript"@[6] == 'r' && "typescript"@[7] == 'i' && "typescript"@[8] == 'p' && "typescript"@[9] == 't' && "typescript"@.len() == 10);
}

/// The nodes that define symbols in java: `method_declaration` gives a method named by its `name` field; `class_declaration` gives a class named by its `name` field; `interface_declaration` gives a interface named by its `name` field; `enum_declaration` gives a enum named by its `name` field; `constructor_declaration` gives a function named by its `name` field; `field_declaration` gives a property named by its `declarator` field. No other node kind
/// defines a symbol there.
#[verifier::rlimit(60)]
pub proof fn law_java_symbol_nodes(kind: Seq<char>)
    ensures
        node_rule("java"@, "method_declaration"@) == Some((SymbolKind::Method, "name"@)),
        node_rule("java"@, "class_declaration"@) == Some((SymbolKind::Class, "name"@)),
        node_rule("java"@, "interface_declaration"@) == Some((SymbolKind::Interface, "name"@)),
        node_rule("java"@, "enum_declaration"@) == Some((SymbolKind::Enum, "name"@)),
        node_rule("java"@, "constructor_declaration"@) == Some((SymbolKind::Function, "name"@)),
        node_rule("java"@, "field_declaration"@) == Some((SymbolKind::Property, "declarator"@)),
        !(kind == "method_declaration"@ || kind == "class_declaration"@ || kind == "interface_declaration"@ || kind == "enum_declaration"@ || kind == "constructor_declaration"@ || kind == "field_declaration"@) ==> node_rule("java"@, kind) is None,
{
    reveal_strlit("c");
    assert("c"@[0] == 'c' && "c"@.len() == 1);
    reveal_strlit("class_declaration");
    assert("class_declaration"@[0] == 'c' && "class_declaration"@[1] == 'l' && "class_declaration"@[2] == 'a' && "class_declaration"@[3] == 's' && "class_declaration"@[4] == 's' && "class_declaration"@[5] == '_' && "class_declaration"@[6] == 'd' && "class_declaration"@[7] == 'e' && "class_declaration"@[8] == 'c' && "class_declaration"@[9] == 'l' && "class_declaration"@[10] == 'a' && "class_declaration"@[11] == 'r' && "class_declaration"@[12] == 'a' && "class_declaration"@[13] == 't' && "class_declaration"@[14] == 'i' && "class_declaration"@[15] == 'o' && "class_declaration"@[16] == 'n' && "class_declaration"@.len() == 17);
    reveal_strlit("constructor_declaration");
    assert("constructor_declaration"@[0] == 'c' && "constructor_declaration"@[1] == 'o' && "constructor_declaration"@[2] == 'n' && "constructor_declaration"@[3] == 's' && "constructor_declaration"@[4] == 't' && "constructor_declaration"@[5] == 'r' && "constructor_declaration"@[6] == 'u' && "constructor_declaration"@[7] == 'c' && "constructor_declaration"@[8] == 't' && "constructor_declaration"@[9] == 'o' && "constructor_declaration"@[10] == 'r' && "constructor_declaration"@[11] == '_' && "constructor_declaration"@[12] == 'd' && "constructor_declaration"@[13] == 'e' && "constructor_declaration"@[14] == 'c' && "constructor_declaration"@[15] == 'l' && "constructor_declaration"@[16] == 'a' && "constructor_declaration"@[17] == 'r' && "constructor_declaration"@[18] == 'a' && "constructor_declaration"@[19] == 't' && "constructor_declaration"@[20] == 'i' && "constructor_declaration"@[21] == 'o' && "constructor_declaration"@[22] == 'n' && "constructor_declaration"@.len() == 23);
    reveal_strlit("cpp");
    assert("cpp"@[0] == 'c' && "cpp"@[1] == 'p' && "cpp"@[2] == 'p' && "cpp"@.len() == 3);
    reveal_strlit("declarator");
    assert("declarator"@[0] == 'd' && "declarator"@[1] == 'e' && "declarator"@[2] == 'c' && "declarator"@[3] == 'l' && "declarator"@[4] == 'a' && "declarator"@[5] == 'r' && "declarator"@[6] == 'a' && "declarator"@[7] == 't' && "declarator"@[8] == 'o' && "declarator"@[9] == 'r' && "declarator"@.len() == 10);
    reveal_strlit("enum_declaration");
    assert("enum_declaration"@[0] == 'e' && "enum_declaration"@[1] == 'n' && "enum_declaration"@[2] == 'u' && "enum_declaration"@[3] == 'm' && "enum_declaration"@[4] == '_' && "enum_declaration"@[5] == 'd' && "enum_declaration"@[6] == 'e' && "enum_declaration"@[7] == 'c' && "enum_declaration"@[8] == 'l' && "enum_declaration"@[9] == 'a' && "enum_declaration"@[10] == 'r' && "enum_declaration"@[11] == 'a' && "enum_declaration"@[12] == 't' && "enum_declaration"@[13] == 'i' && "enum_declaration"@[14] == 'o' && "enum_declaration"@[15] == 'n' && "enum_declaration"@.len() == 16);
    reveal_strlit("field_declaration");
    assert("field_declaration"@[0] == 'f' && "field_declaration"@[1] == 'i' && "field_declaration"@[2] == 'e' && "field_declaration"@[3] == 'l' && "field_declaration"@[4] == 'd' && "field_declaration"@[5] == '_' && "field_declaration"@[6] == 'd' && "field_declaration"@[7] == 'e' && "field_declaration"@[8] == 'c' && "field_declaration"@[9] == 'l' && "field_declaration"@[10] == 'a' && "field_declaration"@[11] == 'r' && "field_declaration"@[12] == 'a' && "field_declaration"@[13] == 't' && "field_declaration"@[14] == 'i' && "field_declaration"@[15] == 'o' && "field_declaration"@[16] == 'n' && "field_declaration"@.len() == 17);
    reveal_strlit("go");
    assert("go"@[0] == 'g' && "go"@[1] == 'o' && "go"@.len() == 2);
    reveal_strlit("interface_declaration");
    assert("interface_declaration"@[0] == 'i' && "interface_declaration"@[1] == 'n' && "interface_declaration"@[2] == 't' && "interface_declaration"@[3] == 'e' && "interface_declaration"@[4] == 'r' && "interface_declaration"@[5] == 'f' && "interface_declaration"@[6] == 'a' && "interface_declaration"@[7] == 'c' && "interface_declaration"@[8] == 'e' && "interface_declaration"@[9] == '_' && "interface_declaration"@[10] == 'd' && "interface_declaration"@[11] == 'e' && "interface_declaration"@[12] == 'c' && "interface_declaration"@[13] == 'l' && "interface_declaration"@[14] == 'a' && "interface_declaration"@[15] == 'r' && "interface_declaration"@[16] == 'a' && "interface_declaration"@[17] == 't' && "interface_declaration"@[18] == 'i' && "interface_declaration"@[19] == 'o' && "interface_declaration"@[20] == 'n' && "interface_declaration"@.len() == 21);
    reveal_strlit("java");
    assert("java"@[0] == 'j' && "java"@[1] == 'a' && "java"@[2] == 'v' && "java"@[3] == 'a' && "java"@.len() == 4);
    reveal_strlit("javascript");
    assert("javascript"@[0] == 'j' && "javascript"@[1] == 'a' && "javascript"@[2] == 'v' && "javascript"@[3] == 'a' && "javascript"@[4] == 's' && "javascript"@[5] == 'c' && "javascript"@[6] == 'r' && "javascript"@[7] == 'i' && "javascript"@[8] == 'p' && "javascript"@[9] == 't' && "javascript"@.len() == 10);
    reveal_strlit("method_declaration");
    assert("method_declaration"@[0] == 'm' && "method_declaration"@[1] == 'e' && "method_declaration"@[2] == 't' && "method_declaration"@[3] == 'h' && "method_declaration"@[4] == 'o' && "method_declaration"@[5] == 'd' && "method_declaration"@[6] == '_' && "method_declaration"@[7] == 'd' && "method_declaration"@[8] == 'e' && "method_declaration"@[9] == 'c' && "method_declaration"@[10] == 'l' && "method_declaration"@[11] == 'a' && "method_declaration"@[12] == 'r' && "method_declaration"@[13] == 'a' && "method_declaration"@[14] == 't' && "method_declaration"@[15] == 'i' && "method_declaration"@[16] == 'o' && "method_declaration"@[17] == 'n' && "method_declaration"@.len() == 18);
    reveal_strlit("name");
    assert("name"@[0] == 'n' && "name"@[1] == 'a' && "name"@[2] == 'm' && "name"@[3] == 'e' && "name"@.len() == 4);
    reveal_strlit("python");
    assert("python"@[0] == 'p' && "python"@[1] == 'y' && "python"@[2] == 't' && "python"@[3] == 'h' && "python"@[4] == 'o' && "python"@[5] == 'n' && "python"@.len() == 6);
    reveal_strlit("ruby");
    assert("ruby"@[0] == 'r' && "ruby"@[1] == 'u' && "ruby"@[2] == 'b' && "ruby"@[3] == 'y' && "ruby"@.len() == 4);
    reveal_strlit("rust");
    assert("rust"@[0] == 'r' && "rust"@[1] == 'u' && "rust"@[2] == 's' && "rust"@[3] == 't' && "rust"@.len() == 4);
    reveal_strlit("tsx");
    assert("tsx"@[0] == 't' && "tsx"@[1] == 's' && "tsx"@[2] == 'x' && "tsx"@.len() == 3);
    reveal_strlit("typescript");
    assert("typescript"@[0] == 't' && "typescript"@[1] == 'y' && "typescript"@[2] == 'p' && "typescript"@[3] == 'e' && "typescript"@[4] == 's' && "typescript"@[5] == 'c' && "typescript"@[6] == 'r' && "typescript"@[7] == 'i' && "typescript"@[8] == 'p' && "typescript"@[9] == 't' && "typescript"@.len() == 10);
}

/// The nodes that define symbols in ruby: `method` gives a method named by its `name` field; `singleton_method` gives a method named by its `name` field; `class` gives a class named by its `name` field; `module` gives a module named by its `name` field. No other node kind
/// defines a symbol there.
#[verifier::rlimit(60)]
pub proof fn law_ruby_symbol_nodes(kind: Seq<char>)
    ensures
        node_rule("ruby"@, "method"@) == Some((SymbolKind::Method, "name"@)),
        node_rule("ruby"@, "singleton_method"@) == Some((SymbolKind::Method, "name"@)),
        node_rule("ruby"@, "class"@) == Some((SymbolKind::Class, "name"@)),
        node_rule("ruby"@, "module"@) == Some((SymbolKind::Module, "name"@)),
        !(kind == "method"@ || kind == "singleton_method"@ || kind == "class"@ || kind == "module"@) ==> node_rule("ruby"@, kind) is None,
{
    reveal_strlit("c");
    assert("c"@[0] == 'c' && "c"@.len() == 1);
    reveal_strlit("class");
    assert("class"@[0] == 'c' && "class"@[1] == 'l' && "class"@[2] == 'a' && "class"@[3] == 's' && "class"@[4] == 's' && "class"@.len() == 5);
    reveal_strlit("cpp");
    assert("cpp"@[0] == 'c' && "cpp"@[1] == 'p' && "cpp"@[2] == 'p' && "cpp"@.len() == 3);
    reveal_strlit("declarator");
    assert("declarator"@[0] == 'd' && "declarator"@[1] == 'e' && "declarator"@[2] == 'c' && "declarator"@[3] == 'l' && "declarator"@[4] == 'a' && "declarator"@[5] == 'r' && "declarator"@[6] == 'a' && "declarator"@[7] == 't' && "declarator"@[8] == 'o' && "declarator"@[9] == 'r' && "declarator"@.len() == 10);
    reveal_strlit("go");
    assert("go"@[0] == 'g' && "go"@[1] == 'o' && "go"@.len() == 2);
    reveal_strlit("java");
    assert("java"@[0] == 'j' && "java"@[1] == 'a' && "java"@[2] == 'v' && "java"@[3] == 'a' && "java"@.len() == 4);
    reveal_strlit("javascript");
    assert("javascript"@[0] == 'j' && "javascript"@[1] == 'a' && "javascript"@[2] == 'v' && "javascript"@[3] == 'a' && "javascript"@[4] == 's' && "javascript"@[5] == 'c' && "javascript"@[6] == 'r' && "javascript"@[7] == 'i' && "javascript"@[8] == 'p' && "javascript"@[9] == 't' && "javascript"@.len() == 10);
    reveal_strlit("method");
    assert("method"@[0] == 'm' && "method"@[1] == 'e' && "method"@[2] == 't' && "method"@[3] == 'h' && "method"@[4] == 'o' && "method"@[5] == 'd' && "method"@.len() == 6);
    reveal_strlit("module");
    assert("module"@[0] == 'm' && "module"@[1] == 'o' && "module"@[2] == 'd' && "module"@[3] == 'u' && "module"@[4] == 'l' && "module"@[5] == 'e' && "module"@.len() == 6);
    reveal_strlit("name");
    assert("name"@[0] == 'n' && "name"@[1] == 'a' && "name"@[2] == 'm' && "name"@[3] == 'e' && "name"@.len() == 4);
    reveal_strlit("python");
    assert("python"@[0] == 'p' && "python"@[1] == 'y' && "python"@[2] == 't' && "python"@[3] == 'h' && "python"@[4] == 'o' && "python"@[5] == 'n' && "python"@.len() == 6);
    reveal_strlit("ruby");
    assert("ruby"@[0] == 'r' && "ruby"@[1] == 'u' && "ruby"@[2] == 'b' && "ruby"@[3] == 'y' && "ruby"@.len() == 4);
    reveal_strlit("rust");
    assert("rust"@[0] == 'r' && "rust"@[1] == 'u' && "rust"@[2] == 's' && "rust"@[3] == 't' && "rust"@.len() == 4);
    reveal_strlit("singleton_method");
    assert("singleton_method"@[0] == 's' && "singleton_method"@[1] == 'i' && "singleton_method"@[2] == 'n' && "singleton_method"@[3] == 'g' && "singleton_method"@[4] == 'l' && "singleton_method"@[5] == 'e' && "singleton_method"@[6] == 't' && "singleton_method"@[7] == 'o' && "singleton_method"@[8] == 'n' && "singleton_method"@[9] == '_' && "singleton_method"@[10] == 'm' && "singleton_method"@[11] == 'e' && "singleton_method"@[12] == 't' && "singleton_method"@[13] == 'h' && "singleton_method"@[14] == 'o' && "singleton_method"@[15] == 'd' && "singleton_method"@.len() == 16);
    reveal_strlit("tsx");
    assert("tsx"@[0] == 't' && "tsx"@[1] == 's' && "tsx"@[2] == 'x' && "tsx"@.len() == 3);
    reveal_strlit("typescript");
    assert("typescript"@[0] == 't' && "typescript"@[1] == 'y' && "typescript"@[2] == 'p' && "typescript"@[3] == 'e' && "typescript"@[4] == 's' && "typescript"@[5] == 'c' && "typescript"@[6] == 'r' && "typescript"@[7] == 'i' && "typescript"@[8] == 'p' && "typescript"@[9] == 't' && "typescript"@.len() == 10);
}

/// Languages without a symbol grammar define no symbols.
#[verifier::rlimit(60)]
pub proof fn law_other_languages_define_nothing(lang: Seq<char>, kind: Seq<char>)
    requires
        !(lang == "typescript"@ || lang == "tsx"@ || lang == "javascript"@ || lang == "python"@ || lang == "rust"@ || lang == "go"@ || lang == "c"@ || lang == "cpp"@ || lang == "java"@ || lang == "ruby"@),
    ensures
        node_rule(lang, kind) is None,
{
}

/// The languages with a grammar, named in any case: typescript, tsx, javascript, python, rust, go, c, cpp, java, ruby.
/// Any other name has none.
#[verifier::rlimit(60)]
pub proof fn law_grammar_names(name: Seq<char>)
    ensures
        lowercase(name) == "typescript"@ ==> grammar_named(name) == Some(Grammar::Typescript),
        lowercase(name) == "tsx"@ ==> grammar_named(name) == Some(Grammar::Tsx),
        lowercase(name) == "javascript"@ ==> grammar_named(name) == Some(Grammar::Javascript),
        lowercase(name) == "python"@ ==> grammar_named(name) == Some(Grammar::Python),
        lowercase(name) == "rust"@ ==> grammar_named(name) == Some(Grammar::Rust),
        lowercase(name) == "go"@ ==> grammar_named(name) == Some(Grammar::Go),
        lowercase(name) == "c"@ ==> grammar_named(name) == Some(Grammar::C),
        lowercase(name) == "cpp"@ ==> grammar_named(name) == Some(Grammar::Cpp),
        lowercase(name) == "java"@ ==> grammar_named(name) == Some(Grammar::Java),
        lowercase(name) == "ruby"@ ==> grammar_named(name) == Some(Grammar::Ruby),
        !(lowercase(name) == "typescript"@ || lowercase(name) == "tsx"@ || lowercase(name) == "javascript"@ || lowercase(name) == "python"@ || lowercase(name) == "rust"@ || lowercase(name) == "go"@ || lowercase(name) == "c"@ || lowercase(name) == "cpp"@ || lowercase(name) == "java"@ || lowercase(name) == "ruby"@) ==> grammar_named(name) is None,
{
    reveal_strlit("c");
    assert("c"@[0] == 'c' && "c"@.len() == 1);
    reveal_strlit("cpp");
    assert("cpp"@[0] == 'c' && "cpp"@[1] == 'p' && "cpp"@[2] == 'p' && "cpp"@.len() == 3);
    reveal_strlit("go");
    assert("go"@[0] == 'g' && "go"@[1] == 'o' && "go"@.len() == 2);
    reveal_strlit("java");
    assert("java"@[0] == 'j' && "java"@[1] == 'a' && "java"@[2] == 'v' && "java"@[3] == 'a' && "java"@.len() == 4);
    reveal_strlit("javascript");
    assert("javascript"@[0] == 'j' && "javascript"@[1] == 'a' && "javascript"@[2] == 'v' && "javascript"@[3] == 'a' && "javascript"@[4] == 's' && "javascript"@[5] == 'c' && "javascript"@[6] == 'r' && "javascript"@[7] == 'i' && "javascript"@[8] == 'p' && "javascript"@[9] == 't' && "javascript"@.len() == 10);
    reveal_strlit("python");
    assert("python"@[0] == 'p' && "python"@[1] == 'y' && "python"@[2] == 't' && "python"@[3] == 'h' && "python"@[4] == 'o' && "python"@[5] == 'n' && "python"@.len() == 6);
    reveal_strlit("ruby");
    assert("ruby"@[0] == 'r' && "ruby"@[1] == 'u' && "ruby"@[2] == 'b' && "ruby"@[3] == 'y' && "ruby"@.len() == 4);
    reveal_strlit("rust");
    assert("rust"@[0] == 'r' && "rust"@[1] == 'u' && "rust"@[2] == 's' && "rust"@[3] == 't' && "rust"@.len() == 4);
    reveal_strlit("tsx");
    assert("tsx"@[0] == 't' && "tsx"@[1] == 's' && "tsx"@[2] == 'x' && "tsx"@.len() == 3);
    reveal_strlit("typescript");
    assert("typescript"@[0] == 't' && "typescript"@[1] == 'y' && "typescript"@[2] == 'p' && "typescript"@[3] == 'e' && "typescript"@[4] == 's' && "typescript"@[5] == 'c' && "typescript"@[6] == 'r' && "typescript"@[7] == 'i' && "typescript"@[8] == 'p' && "typescript"@[9] == 't' && "typescript"@.len() == 10);
}

/// Each symbol kind is named by its name in lower case.
pub proof fn law_kind_names()
    ensures
        kind_name(SymbolKind::Function) == "function"@,
        kind_name(SymbolKind::Class) == "class"@,
        kind_name(SymbolKind::Interface) == "interface"@,
        kind_name(SymbolKind::Type) == "type"@,
        kind_name(SymbolKind::Variable) == "variable"@,
        kind_name(SymbolKind::Constant) == "constant"@,
        kind_name(SymbolKind::Enum) == "enum"@,
        kind_name(SymbolKind::Module) == "module"@,
        kind_name(SymbolKind::Struct) == "struct"@,
        kind_name(SymbolKind::Trait) == "trait"@,
        kind_name(SymbolKind::Method) == "method"@,
        kind_name(SymbolKind::Property) == "property"@,
        kind_name(SymbolKind::Unknown) == "unknown"@,
{
}

} // verus!
