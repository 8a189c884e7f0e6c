//! Parsing with tree-sitter, the hand-over of its trees as plain node
//! records, and symbol extraction: a verified pre-order walk of the
//! records.
//!
//! Which tree a grammar builds for a source is named `parsed_tree`; what
//! the extraction makes of that tree is stated exactly.

use vstd::prelude::*;
use crate::symbols::{grammar_for, grammar_named, node_in_range, node_symbol, symbols_of, Grammar, Symbol, SymbolError, SymbolExtractor, SymbolView, SyntaxNode};

verus! {

#[verifier::external_type_specification]
#[verifier::external_body]
pub struct ExLanguage(tree_sitter::Language);

#[verifier::external_type_specification]
#[verifier::external_body]
pub struct ExNode<'tree>(tree_sitter::Node<'tree>);

/// A grammar's tree-sitter language, with the grammar it belongs to.
pub struct GrammarLanguage {
    language: tree_sitter::Language,
    grammar: Ghost<Grammar>,
}

impl GrammarLanguage {
    /// The grammar this language is for.
    pub closed spec fn grammar(&self) -> Grammar {
        self.grammar@
    }
}

/// The grammar crates' `LANGUAGE` constants, converted to
/// `tree_sitter::Language`, one per grammar.
#[verifier::external_body]
fn grammar_language(g: Grammar) -> (r: GrammarLanguage)
    ensures
        r.grammar() == g,
{
    let language: tree_sitter::Language = match g {
        Grammar::Typescript => tree_sitter_typescript::LANGUAGE_TYPESCRIPT.into(),
        Grammar::Tsx => tree_sitter_typescript::LANGUAGE_TSX.into(),
        Grammar::Javascript => tree_sitter_javascript::LANGUAGE.into(),
        Grammar::Python => tree_sitter_python::LANGUAGE.into(),
        Grammar::Rust => tree_sitter_rust::LANGUAGE.into(),
        Grammar::Go => tree_sitter_go::LANGUAGE.into(),
        Grammar::C => tree_sitter_c::LANGUAGE.into(),
        Grammar::Cpp => tree_sitter_cpp::LANGUAGE.into(),
        Grammar::Java => tree_sitter_java::LANGUAGE.into(),
        Grammar::Ruby => tree_sitter_ruby::LANGUAGE.into(),
    };
    GrammarLanguage { language, grammar: Ghost(g) }
}

/// A syntax tree as plain records: a node and its children, in order.
#[derive(Debug)]
pub struct TreeRec {
    pub node: SyntaxNode,
    pub children: Vec<TreeRec>,
}

/// The nodes of a tree in pre-order: a node, then each child's subtree.
pub open spec fn preorder(t: TreeRec) -> Seq<SyntaxNode>
    decreases t,
{
    seq![t.node] + preorder_all(t.children@)
}

/// The pre-order nodes of the trees in `ts`, one tree after another.
pub open spec fn preorder_all(ts: Seq<TreeRec>) -> Seq<SyntaxNode>
    decreases ts,
{
    if ts.len() == 0 {
        seq![]
    } else {
        preorder_all(ts.subrange(0, ts.len() - 1)) + preorder(ts[ts.len() - 1])
    }
}

/// Every node of the tree lies in range.
pub open spec fn tree_in_range(t: TreeRec) -> bool {
    forall|i: int| 0 <= i < preorder(t).len() ==> node_in_range(#[trigger] preorder(t)[i])
}

/// The tree tree-sitter builds for `source` with `grammar`, as records.
pub uninterp spec fn parsed_tree(grammar: Grammar, source: Seq<char>) -> TreeRec;

/// A node and, recursively, its children (`Node::children`, in order),
/// each recorded by `node_record`; so every record lies in range.
#[verifier::external_body]
fn record_tree(node: tree_sitter::Node, source: &str) -> (r: TreeRec)
    ensures
        tree_in_range(r),
{
    let mut cursor = node.walk();
    let mut children = Vec::new();
    for child in node.children(&mut cursor) {
        children.push(record_tree(child, source));
    }
    TreeRec { node: node_record(&node, source), children }
}

/// `tree_sitter::Parser::set_language` then `Parser::parse` (no old tree),
/// the tree handed over by `record_tree`. The tree depends on the grammar
/// and the source alone, and is named `parsed_tree`. A tree always comes
/// back: `set_language` fails only for a grammar of an incompatible ABI
/// version (the grammar crates built here are compatible), and `parse`
/// gives none only without a language, after a timeout or on
/// cancellation, none of which applies here.
#[verifier::external_body]
fn parse_records(source: &str, language: &GrammarLanguage) -> (r: Option<TreeRec>)
    ensures
        r == Some(parsed_tree(language.grammar(), source@)),
        r matches Some(t) ==> tree_in_range(t),
{
    let mut parser = tree_sitter::Parser::new();
    parser.set_language(&language.language).ok()?;
    let tree = parser.parse(source, None)?;
    Some(record_tree(tree.root_node(), source))
}

/// A node's `kind`, start and end `Point`s, byte range, and the
/// `utf8_text` of its `name` and `declarator` fields
/// (`child_by_field_name`). Rows and columns are offsets into `source`,
/// whose length fits in an `isize`, so they are below `usize::MAX`, and a
/// node ends on or after the row it starts on; nothing else is stated.
#[verifier::external_body]
fn node_record(node: &tree_sitter::Node, source: &str) -> (r: SyntaxNode)
    ensures
        node_in_range(r),
{
    let bytes = source.as_bytes();
    let name = node.child_by_field_name("name").and_then(|c| c.utf8_text(bytes).ok());
    let decl = node.child_by_field_name("declarator").and_then(|c| c.utf8_text(bytes).ok());
    let (start, end) = (node.start_position(), node.end_position());
    SyntaxNode {
        kind: node.kind().to_string(),
        start_row: start.row,
        start_column: start.column,
        end_row: end.row,
        start_byte: node.start_byte(),
        end_byte: node.end_byte(),
        name_text: name.map(String::from),
        declarator_text: decl.map(String::from),
    }
}

/// Views of symbols.
pub open spec fn symbol_views(v: Seq<Symbol>) -> Seq<SymbolView> {
    v.map_values(|s: Symbol| s@)
}

/// The symbols of `source` in `language`: those the defining nodes of its
/// parsed tree give, in pre-order; `None` for an unsupported language.
pub open spec fn extracted_symbols(language: Seq<char>, source: Seq<char>) -> Option<Seq<SymbolView>> {
    match grammar_named(language) {
        Some(g) => Some(symbols_of(language, preorder(parsed_tree(g, source)))),
        None => None,
    }
}

/// The extracted symbols, or none for an unsupported language.
pub open spec fn symbols_or_empty(language: Seq<char>, source: Seq<char>) -> Seq<SymbolView> {
    match extracted_symbols(language, source) {
        Some(s) => s,
        None => seq![],
    }
}

/// Symbols of concatenated node lists are concatenated.
pub proof fn lemma_symbols_concat(lang: Seq<char>, a: Seq<SyntaxNode>, b: Seq<SyntaxNode>)
    ensures
        symbols_of(lang, a + b) == symbols_of(lang, a) + symbols_of(lang, b),
    decreases b.len(),
{
    if b.len() == 0 {
        assert(a + b =~= a);
        assert(symbols_of(lang, a) + symbols_of(lang, b) =~= symbols_of(lang, a));
    } else {
        let b0 = b.drop_last();
        assert((a + b).drop_last() =~= a + b0);
        assert((a + b).last() == b.last());
        lemma_symbols_concat(lang, a, b0);
        match node_symbol(lang, b.last()) {
            Some(sv) => {
                assert(symbols_of(lang, a) + symbols_of(lang, b) =~= (symbols_of(lang, a) + symbols_of(lang, b0)).push(sv));
            },
            None => {},
        }
    }
}

/// Each tree of a list whose nodes all lie in range lies in range.
proof fn lemma_all_in_range(ts: Seq<TreeRec>, i: int)
    requires
        0 <= i < ts.len(),
        forall|j: int| 0 <= j < preorder_all(ts).len() ==> node_in_range(#[trigger] preorder_all(ts)[j]),
    ensures
        tree_in_range(ts[i]),
    decreases ts.len(),
{
    let n = ts.len();
    let front = ts.subrange(0, n - 1);
    let pf = preorder_all(front);
    let pl = preorder(ts[n - 1]);
    assert(preorder_all(ts) == pf + pl);
    if i == n - 1 {
        assert forall|k: int| 0 <= k < pl.len() implies node_in_range(#[trigger] pl[k]) by {
            assert(preorder_all(ts)[pf.len() + k] == pl[k]);
        }
    } else {
        assert forall|j: int| 0 <= j < pf.len() implies node_in_range(#[trigger] pf[j]) by {
            assert(preorder_all(ts)[j] == pf[j]);
        }
        assert(front[i] == ts[i]);
        lemma_all_in_range(front, i);
    }
}

/// The children of a tree in range lie in range.
proof fn lemma_child_in_range(t: TreeRec, i: int)
    requires
        tree_in_range(t),
        0 <= i < t.children@.len(),
    ensures
        tree_in_range(t.children@[i]),
{
    let pa = preorder_all(t.children@);
    assert forall|j: int| 0 <= j < pa.len() implies node_in_range(#[trigger] pa[j]) by {
        assert(preorder(t)[1 + j] == pa[j]);
    }
    lemma_all_in_range(t.children@, i);
}

impl SymbolExtractor {
    /// Appends the symbols of a tree's nodes, in pre-order.
    fn collect(&self, t: &TreeRec, lang: &str, out: &mut Vec<Symbol>)
        requires
            tree_in_range(*t),
        ensures
            symbol_views(final(out)@) == symbol_views(old(out)@) + symbols_of(lang@, preorder(*t)),
        decreases *t,
    {
        let ghost start = symbol_views(out@);
        assert(preorder(*t)[0] == t.node);
        assert(seq![t.node].drop_last() =~= Seq::<SyntaxNode>::empty());
        assert(seq![t.node].last() == t.node);
        assert(symbols_of(lang@, seq![t.node].drop_last()) =~= Seq::<SymbolView>::empty());
        match self.extract_symbol_from_node(&t.node, lang) {
            Some(s) => {
                let ghost sv = s@;
                out.push(s);
                assert(symbol_views(out@) =~= start.push(sv));
            },
            None => {},
        }
        let ghost head = symbols_of(lang@, seq![t.node]);
        assert(symbol_views(out@) == start + head);
        let mut i: usize = 0;
        assert(t.children@.take(0) =~= Seq::<TreeRec>::empty());
        assert(start + head + symbols_of(lang@, preorder_all(t.children@.take(0))) =~= start + head);
        while i < t.children.len()
            invariant
                i <= t.children@.len(),
                tree_in_range(*t),
                head == symbols_of(lang@, seq![t.node]),
                symbol_views(out@) == start + head + symbols_of(lang@, preorder_all(t.children@.take(i as int))),
            decreases t.children@.len() - i,
        {
            let ghost before = symbol_views(out@);
            let ghost c = t.children@[i as int];
            proof {
                lemma_child_in_range(*t, i as int);
                assert(decreases_to!(*t => t.children@[i as int]));
            }
            self.collect(&t.children[i], lang, out);
            proof {
                let tk = t.children@.take(i + 1);
                assert(tk.subrange(0, tk.len() - 1) =~= t.children@.take(i as int));
                assert(tk[tk.len() - 1] == c);
                assert(preorder_all(tk) == preorder_all(t.children@.take(i as int)) + preorder(c));
                lemma_symbols_concat(lang@, preorder_all(t.children@.take(i as int)), preorder(c));
                assert(symbol_views(out@) =~= start + head + symbols_of(lang@, preorder_all(tk)));
            }
            i += 1;
        }
        proof {
            assert(t.children@.take(t.children@.len() as int) =~= t.children@);
            lemma_symbols_concat(lang@, seq![t.node], preorder_all(t.children@));
            assert(symbol_views(out@) =~= start + symbols_of(lang@, preorder(*t)));
        }
    }

    /// Extracts the symbols of `source` in `language`: unsupported
    /// languages are refused; otherwise the parsed tree's nodes are read in
    /// pre-order and each defining node gives one symbol.
    pub fn extract(&self, source: &str, language: &str) -> (r: Result<Vec<Symbol>, SymbolError>)
        ensures
            match extracted_symbols(language@, source@) {
                Some(syms) => r matches Ok(v) && symbol_views(v@) == syms,
                None => r == Err::<Vec<Symbol>, SymbolError>(SymbolError::UnsupportedLanguage),
            },
            r matches Ok(syms) ==> forall|k: int| 0 <= k < syms@.len() ==> (#[trigger] syms@[k]).line <= syms@[k].end_line,
    {
        let g = match grammar_for(language) {
            Some(g) => g,
            None => return Err(SymbolError::UnsupportedLanguage),
        };
        let lang = grammar_language(g);
        let tree = match parse_records(source, &lang) {
            Some(t) => t,
            None => return Err(SymbolError::ParseFailed),
        };
        let mut syms: Vec<Symbol> = Vec::new();
        self.collect(&tree, language, &mut syms);
        assert(symbol_views(syms@) =~= symbols_of(language@, preorder(tree)));
        proof {
            crate::symbols::lemma_symbols_ordered(language@, preorder(tree));
            assert forall|k: int| 0 <= k < syms@.len() implies (#[trigger] syms@[k]).line <= syms@[k].end_line by {
                assert(symbol_views(syms@)[k] == syms@[k]@);
            }
        }
        Ok(syms)
    }
}

} // verus!
