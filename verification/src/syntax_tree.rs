//! Access to tree-sitter syntax trees.
//!
//! The parser and its trees are opaque here. A tree is held with the
//! grammar and the text it was parsed from, and what a walk reads of it
//! (node counts, kinds, texts, rows, byte ranges) is named as a function of
//! that grammar and text: parsing is deterministic, so the same grammar and
//! text always give the same nodes.
use vstd::prelude::*;
use tree_sitter::StreamingIterator;

verus! {

#[verifier::external_type_specification]
#[verifier::external_body]
pub struct ExParser(tree_sitter::Parser);

#[verifier::external_type_specification]
#[verifier::external_body]
pub struct ExTree(tree_sitter::Tree);

#[verifier::external_type_specification]
#[verifier::external_body]
pub struct ExNode<'a>(tree_sitter::Node<'a>);

/// The grammars the scanners of this crate use.
#[derive(Debug, Clone, Copy, PartialEq, Eq, Structural)]
pub enum Grammar {
    Rust,
    TypeScript,
    CSharp,
    Java,
    Kotlin,
    C,
    Go,
    Python,
    Swift,
}

/// What a scanner reads of one node.
pub struct NodeInfo {
    /// The node's grammar kind, such as `class_declaration`.
    pub kind: String,
    /// The source text the node spans (empty if it is not valid UTF-8).
    pub text: String,
    /// Zero-based row of the node's first character.
    pub row: usize,
    /// Zero-based column (in bytes) of the node's first character.
    pub column: usize,
    /// Zero-based row of the node's end.
    pub end_row: usize,
    /// Byte offset where the node starts.
    pub start_byte: usize,
    /// Byte offset where the node ends.
    pub end_byte: usize,
}

/// What `Node::kind`, `Node::utf8_text`, `Node::start_position`,
/// `Node::end_position`, `Node::start_byte` and `Node::end_byte` give of a
/// node. Nothing is stated of them.
#[verifier::external_body]
fn info_of(node: tree_sitter::Node, source: &str) -> (info: NodeInfo) {
    NodeInfo {
        kind: node.kind().to_string(),
        text: node.utf8_text(source.as_bytes()).unwrap_or_default().to_string(),
        row: node.start_position().row,
        column: node.start_position().column,
        end_row: node.end_position().row,
        start_byte: node.start_byte(),
        end_byte: node.end_byte(),
    }
}

/// One capture of a query match: the number of its capture name in the
/// query, the node it names, and that node's children in order.
pub struct Capture {
    pub index: u32,
    pub node: NodeInfo,
    pub children: Vec<NodeInfo>,
}

/// The matches of a query pattern over the tree that the grammar parses
/// from the text; `None` where the pattern does not compile.
pub uninterp spec fn syntax_query(grammar: Grammar, text: Seq<char>, pattern: Seq<char>) -> Option<Seq<Seq<Capture>>>;

/// Compiles `pattern` with `tree_sitter::Query::new` for the tree's language
/// and runs it over the whole tree with `QueryCursor::matches`; each match
/// is the list of its captures (`QueryMatch::captures`), in order. `None`
/// when the pattern does not compile.
#[verifier::external_body]
pub fn query_matches(t: &SyntaxTree, pattern: &str) -> (r: Option<Vec<Vec<Capture>>>)
    ensures
        match r {
            Some(ms) => syntax_query(t.grammar(), t.text(), pattern@) == Some(ms@.map_values(|m: Vec<Capture>| m@)),
            None => syntax_query(t.grammar(), t.text(), pattern@) is None,
        },
{
    let (tree, source) = (&t.tree, t.source.as_str());
    let query = tree_sitter::Query::new(&tree.language(), pattern).ok()?;
    let mut cursor = tree_sitter::QueryCursor::new();
    let mut matches = cursor.matches(&query, tree.root_node(), source.as_bytes());
    let mut out = Vec::new();
    while let Some(m) = matches.next() {
        out.push(m.captures().iter().map(|c| Capture {
            index: c.index,
            node: info_of(c.node, source),
            children: c.node.children(&mut c.node.walk()).map(|n| info_of(n, source)).collect(),
        }).collect());
    }
    Some(out)
}

/// Whether `Parser::set_language` accepts the grammar's language: it does
/// when the language's ABI version is one that the tree-sitter crate
/// supports, which is fixed by the versions of the crates built.
pub uninterp spec fn grammar_loads(grammar: Grammar) -> bool;

/// The number of nodes of the tree that the grammar parses from the text.
pub uninterp spec fn syntax_node_count(grammar: Grammar, text: Seq<char>) -> usize;

/// The node at a pre-order index of that tree.
pub uninterp spec fn syntax_node(grammar: Grammar, text: Seq<char>, index: usize) -> NodeInfo;

/// The child under a field name of the node at an index of that tree.
pub uninterp spec fn syntax_field_child(grammar: Grammar, text: Seq<char>, index: usize, field: Seq<char>) -> Option<NodeInfo>;

/// The number of children of the node at an index of that tree.
pub uninterp spec fn syntax_child_count(grammar: Grammar, text: Seq<char>, index: usize) -> u32;

/// The number of children of the parent of the node at an index of that
/// tree, if it has a parent.
pub uninterp spec fn syntax_parent_child_count(grammar: Grammar, text: Seq<char>, index: usize) -> Option<u32>;

/// A child of the node at an index of that tree.
pub uninterp spec fn syntax_child(grammar: Grammar, text: Seq<char>, index: usize, k: u32) -> Option<NodeInfo>;

/// A child of the parent of the node at an index of that tree.
pub uninterp spec fn syntax_parent_child(grammar: Grammar, text: Seq<char>, index: usize, k: u32) -> Option<NodeInfo>;

/// The kind of the parent of the node at an index of that tree.
pub uninterp spec fn syntax_parent_kind(grammar: Grammar, text: Seq<char>, index: usize) -> Option<Seq<char>>;

/// A parser whose language is the grammar's.
pub struct GrammarParser {
    parser: tree_sitter::Parser,
    grammar: Grammar,
}

impl GrammarParser {
    /// The grammar whose language the parser was given.
    pub closed spec fn grammar(&self) -> Grammar {
        self.grammar
    }
}

/// A syntax tree together with the grammar and the text it was parsed
/// from.
pub struct SyntaxTree {
    tree: tree_sitter::Tree,
    grammar: Grammar,
    source: String,
}

impl SyntaxTree {
    /// The grammar of the tree.
    pub closed spec fn grammar(&self) -> Grammar {
        self.grammar
    }

    /// The text the tree was parsed from.
    pub closed spec fn text(&self) -> Seq<char> {
        self.source@
    }

    /// The tree itself.
    pub fn tree(&self) -> &tree_sitter::Tree {
        &self.tree
    }
}

/// `tree_sitter::Parser::new` followed by `Parser::set_language` with the
/// grammar's language. Returns `None` exactly when the language cannot be
/// set, which the name `grammar_loads` stands for.
#[verifier::external_body]
pub fn parser_for(grammar: Grammar) -> (p: Option<GrammarParser>)
    ensures
        p is Some <==> grammar_loads(grammar),
        p matches Some(q) ==> q.grammar() == grammar,
{
    let language: tree_sitter::Language = match grammar {
        Grammar::Rust => tree_sitter_rust::LANGUAGE.into(),
        Grammar::TypeScript => tree_sitter_typescript::LANGUAGE_TYPESCRIPT.into(),
        Grammar::CSharp => tree_sitter_c_sharp::LANGUAGE.into(),
        Grammar::Java => tree_sitter_java::LANGUAGE.into(),
        Grammar::Kotlin => tree_sitter_kotlin_ng::LANGUAGE.into(),
        Grammar::C => tree_sitter_c::LANGUAGE.into(),
        Grammar::Go => tree_sitter_go::LANGUAGE.into(),
        Grammar::Python => tree_sitter_python::LANGUAGE.into(),
        Grammar::Swift => tree_sitter_swift::LANGUAGE.into(),
    };
    let mut parser = tree_sitter::Parser::new();
    parser.set_language(&language).ok().map(|_| GrammarParser { parser, grammar })
}

/// `tree_sitter::Parser::parse` of the source text, without an old tree.
/// The crate documents `None` only for a parser that has no language, and
/// a `GrammarParser` always has one, so the tree is always there.
#[verifier::external_body]
pub fn parse_text(p: GrammarParser, source: &str) -> (t: Option<SyntaxTree>)
    ensures
        t is Some,
        t matches Some(parsed) ==> parsed.grammar() == p.grammar() && parsed.text() == source@,
{
    let GrammarParser { mut parser, grammar } = p;
    match parser.parse(source, None) {
        Some(tree) => Some(SyntaxTree { tree, grammar, source: source.to_string() }),
        None => None,
    }
}

/// `Node::descendant_count` of the root: the number of nodes of the tree.
#[verifier::external_body]
pub fn node_count(t: &SyntaxTree) -> (n: usize)
    ensures
        n == syntax_node_count(t.grammar(), t.text()),
{
    t.tree.root_node().descendant_count()
}

/// The node reached by `TreeCursor::goto_descendant(index)` from the root:
/// index zero is the root, and indices follow a depth-first pre-order.
#[verifier::external_body]
pub fn node_at(t: &SyntaxTree, index: usize) -> (info: NodeInfo)
    ensures
        info == syntax_node(t.grammar(), t.text(), index),
{
    let mut cursor = t.tree.walk();
    cursor.goto_descendant(index);
    let node = cursor.node();
    info_of(node, t.source.as_str())
}

/// `Node::child_by_field_name(field)` of the node that `node_at` reads at
/// `index`.
#[verifier::external_body]
pub fn field_child_at(t: &SyntaxTree, index: usize, field: &str) -> (info: Option<NodeInfo>)
    ensures
        info == syntax_field_child(t.grammar(), t.text(), index, field@),
{
    let mut cursor = t.tree.walk();
    cursor.goto_descendant(index);
    match cursor.node().child_by_field_name(field) {
        Some(node) => Some(info_of(node, t.source.as_str())),
        None => None,
    }
}

/// `Node::child_count` of the node at `index`.
#[verifier::external_body]
pub fn child_count_at(t: &SyntaxTree, index: usize) -> (n: u32)
    ensures
        n == syntax_child_count(t.grammar(), t.text(), index),
{
    let mut cursor = t.tree.walk();
    cursor.goto_descendant(index);
    cursor.node().child_count()
}

/// `Node::child_count` of the parent of the node at `index`, if it has a
/// parent.
#[verifier::external_body]
pub fn parent_child_count_at(t: &SyntaxTree, index: usize) -> (n: Option<u32>)
    ensures
        n == syntax_parent_child_count(t.grammar(), t.text(), index),
{
    let mut cursor = t.tree.walk();
    cursor.goto_descendant(index);
    match cursor.node().parent() {
        Some(parent) => Some(parent.child_count()),
        None => None,
    }
}

/// `Node::child(k)` of the node at `index`.
#[verifier::external_body]
pub fn child_at(t: &SyntaxTree, index: usize, k: u32) -> (info: Option<NodeInfo>)
    ensures
        info == syntax_child(t.grammar(), t.text(), index, k),
{
    let mut cursor = t.tree.walk();
    cursor.goto_descendant(index);
    match cursor.node().child(k) {
        Some(node) => Some(info_of(node, t.source.as_str())),
        None => None,
    }
}

/// `Node::child(k)` of the parent of the node at `index`; `None` also where
/// the node has no parent.
#[verifier::external_body]
pub fn parent_child_at(t: &SyntaxTree, index: usize, k: u32) -> (info: Option<NodeInfo>)
    ensures
        info == syntax_parent_child(t.grammar(), t.text(), index, k),
{
    let mut cursor = t.tree.walk();
    cursor.goto_descendant(index);
    let Some(parent) = cursor.node().parent() else { return None };
    match parent.child(k) {
        Some(node) => Some(info_of(node, t.source.as_str())),
        None => None,
    }
}

/// The kind of the parent of the node at `index` (`Node::parent`), if it
/// has one.
#[verifier::external_body]
pub fn parent_kind_at(t: &SyntaxTree, index: usize) -> (kind: Option<String>)
    ensures
        match kind {
            Some(k) => syntax_parent_kind(t.grammar(), t.text(), index) == Some(k@),
            None => syntax_parent_kind(t.grammar(), t.text(), index) is None,
        },
{
    let mut cursor = t.tree.walk();
    cursor.goto_descendant(index);
    match cursor.node().parent() {
        Some(parent) => Some(parent.kind().to_string()),
        None => None,
    }
}

} // verus!
