//! The Rust indexer: `use` imports, items and call sites, read from the
//! matches of tree-sitter queries over a Rust syntax tree.
//!
//! An item's visibility is its first `visibility_modifier` child; a function
//! is a test when `#[test` begins one of the two lines above it.
use vstd::prelude::*;
use crate::codemap::{
    call_views, import_views, new_symbol, symbol_views, syntax_symbol, CallFact, CallKind, ImportFact, ImportKind, ConfidenceScore, unresolved_score,
    ImportView, SymbolFact, SymbolKind, SymbolView, Visibility,
};
use crate::extract::{
    capture_end_line, capture_in, capture_line, capture_text, captured_children, captured_end_line, captured_line,
    captured_text, lemma_somes_step, match_views, queried, run_query, somes,
};
use crate::markdown::{line_ranges, ranges_view, split_lines};
use crate::query_facts::{call_passes_queried, call_rules, calls_by_rules, pass_calls, CallPass, CallRule};
use crate::syntax_tree::{Capture, Grammar, NodeInfo, SyntaxTree};
use crate::text::{
    chars_of, find_from, first_match_from, has_prefix, is_prefix, owned, push_str, str_eq, string_from, trim,
    trim_bounds,
};
use crate::visibility::lines_of;

use crate::registry::LanguageIndexer;

verus! {

// ── Imports ────────────────────────────────────────────────────────────

/// The text after the last of the pieces that `pat` splits it into,
/// scanning from `start`: each occurrence found from the left ends a piece.
pub open spec fn last_piece_from(t: Seq<char>, pat: Seq<char>, start: int) -> Seq<char>
    decreases t.len() - start,
{
    if pat.len() > 0 && 0 <= start <= t.len() {
        match first_match_from(t, start, pat) {
            Some(k) => if start <= k && k + pat.len() <= t.len() {
                last_piece_from(t, pat, k + pat.len())
            } else {
                t.skip(start)
            },
            None => t.skip(start),
        }
    } else {
        t.skip(start)
    }
}

/// The last piece of `t` split at `pat` (`t.split(pat).last()`).
pub open spec fn last_piece(t: Seq<char>, pat: Seq<char>) -> Seq<char> {
    last_piece_from(t, pat, 0)
}

pub fn last_piece_of(t: &str, pat: &str) -> (r: String)
    requires
        pat@.len() > 0,
    ensures
        r@ == last_piece(t@, pat@),
{
    let v = chars_of(t);
    let p = chars_of(pat);
    let mut start: usize = 0;
    loop
        invariant
            v@ == t@,
            p@ == pat@,
            p.len() > 0,
            start <= v.len(),
            last_piece(v@, p@) == last_piece_from(v@, p@, start as int),
        decreases v.len() - start,
    {
        match find_from(&v, start, &p) {
            Some(k) => {
                start = k + p.len();
            },
            None => {
                assert(last_piece_from(v@, p@, start as int) == v@.skip(start as int));
                assert(v@.skip(start as int) =~= v@.subrange(start as int, v.len() as int));
                return string_from(&v, start, v.len());
            },
        }
    }
}

/// The import a `use` match states: capture 0 is the used path, whose last
/// `::` segment is the local name.
pub open spec fn use_import(file: Seq<char>, m: Seq<Capture>) -> Option<ImportView> {
    let path = captured_text(m, 0);
    if path.len() > 0 {
        Some(ImportView {
            id: Seq::empty(),
            file,
            language: "rust"@,
            kind: ImportKind::RustUse,
            source: path,
            local_name: Some(last_piece(path, "::"@)),
            imported_name: None,
            resolved_file: None,
            line: captured_line(m, 0),
            confidence: unresolved_score(),
        })
    } else {
        None
    }
}

/// The imports of a Rust file, one per `use` of a scoped path.
pub open spec fn rust_imports_spec(file: Seq<char>, ms: Seq<Seq<Capture>>) -> Seq<ImportView> {
    somes(ms.map_values(|m: Seq<Capture>| use_import(file, m)))
}

fn use_of(file: &str, m: &Vec<Capture>) -> (r: Option<ImportFact>)
    ensures
        match r {
            Some(f) => use_import(file@, m@) == Some(f@),
            None => use_import(file@, m@) is None,
        },
{
    proof {
        reveal_strlit("::");
    }
    let path = capture_text(m, 0);
    if path.as_str().is_empty() {
        return None;
    }
    let local = last_piece_of(path.as_str(), "::");
    Some(ImportFact {
        id: String::new(),
        file: owned(file),
        language: owned("rust"),
        kind: ImportKind::RustUse,
        source: path,
        local_name: Some(local),
        imported_name: None,
        resolved_file: None,
        line: capture_line(m, 0),
        confidence: ConfidenceScore::unresolved(),
    })
}

/// The imports that the matches of the `use` query state.
pub fn rust_imports(file: &str, ms: &Vec<Vec<Capture>>) -> (out: Vec<ImportFact>)
    ensures
        import_views(out@) == rust_imports_spec(file@, match_views(ms@)),
{
    let mut out: Vec<ImportFact> = Vec::new();
    let ghost cands = match_views(ms@).map_values(|m: Seq<Capture>| use_import(file@, m));
    assert(import_views(out@) =~= Seq::<ImportView>::empty());
    let mut i: usize = 0;
    while i < ms.len()
        invariant
            i <= ms.len(),
            cands == match_views(ms@).map_values(|m: Seq<Capture>| use_import(file@, m)),
            import_views(out@) == somes(cands.take(i as int)),
        decreases ms.len() - i,
    {
        proof {
            lemma_somes_step(cands, i as int);
        }
        match use_of(file, &ms[i]) {
            Some(f) => {
                let ghost before = import_views(out@);
                out.push(f);
                assert(import_views(out@) =~= before.push(f@));
            },
            None => {},
        }
        i += 1;
    }
    assert(cands.take(ms.len() as int) =~= cands);
    out
}

// ── Visibility and tests ───────────────────────────────────────────────

/// The text of the first `visibility_modifier` among the children.
pub open spec fn first_modifier(children: Seq<NodeInfo>) -> Option<Seq<char>>
    decreases children.len(),
{
    if children.len() == 0 {
        None
    } else if children[0].kind@ == "visibility_modifier"@ {
        Some(children[0].text@)
    } else {
        first_modifier(children.drop_first())
    }
}

/// The visibility an item's children give: `pub` exports; `pub(crate)` is
/// internal; any other restricted `pub` is protected; no modifier is
/// private. An item of unknown position has unknown visibility.
pub open spec fn rust_visibility_of(children: Option<Seq<NodeInfo>>) -> (bool, Visibility) {
    match children {
        None => (false, Visibility::Unknown),
        Some(cs) => match first_modifier(cs) {
            None => (false, Visibility::Private),
            Some(t) => {
                let t = trim(t);
                if t == "pub"@ {
                    (true, Visibility::Public)
                } else if is_prefix("pub(crate)"@, t) || is_prefix("pub (crate)"@, t) {
                    (false, Visibility::Internal)
                } else {
                    (false, Visibility::Protected)
                }
            },
        },
    }
}

/// The visibility of an item with the given children.
pub fn rust_visibility(children: Option<&Vec<NodeInfo>>) -> (r: (bool, Visibility))
    ensures
        r == rust_visibility_of(match children { Some(cs) => Some(cs@), None => None }),
{
    match children {
        None => (false, Visibility::Unknown),
        Some(cs) => modifier_visibility(cs),
    }
}

fn modifier_visibility(cs: &Vec<NodeInfo>) -> (r: (bool, Visibility))
    ensures
        r == rust_visibility_of(Some(cs@)),
{
    let mut i: usize = 0;
    assert(cs@.skip(0) =~= cs@);
    while i < cs.len()
        invariant
            i <= cs.len(),
            first_modifier(cs@) == first_modifier(cs@.skip(i as int)),
        decreases cs.len() - i,
    {
        assert(cs@.skip(i as int).drop_first() =~= cs@.skip(i + 1));
        assert(cs@.skip(i as int)[0] == cs@[i as int]);
        if str_eq(cs[i].kind.as_str(), "visibility_modifier") {
            assert(first_modifier(cs@.skip(i as int)) == Some(cs@[i as int].text@));
            let v = chars_of(cs[i].text.as_str());
            let (a, b) = trim_bounds(&v, 0, v.len());
            assert(v@.subrange(0, v.len() as int) =~= v@);
            let t = string_from(&v, a, b);
            let tv = chars_of(t.as_str());
            let crate1 = chars_of("pub(crate)");
            let crate2 = chars_of("pub (crate)");
            assert(tv@.subrange(0, tv.len() as int) =~= tv@);
            assert(t@ == trim(cs@[i as int].text@));
            if str_eq(t.as_str(), "pub") {
                assert(rust_visibility_of(Some(cs@)) == (true, Visibility::Public));
                return (true, Visibility::Public);
            }
            if has_prefix(&tv, 0, tv.len(), &crate1) || has_prefix(&tv, 0, tv.len(), &crate2) {
                return (false, Visibility::Internal);
            }
            return (false, Visibility::Protected);
        }
        i += 1;
    }
    assert(cs@.skip(i as int) =~= Seq::<NodeInfo>::empty());
    (false, Visibility::Private)
}

/// Line `i` (zero-based) of the lines begins, once trimmed, with `#[test`.
pub open spec fn test_attribute_at(lines: Seq<Seq<char>>, i: int) -> bool {
    0 <= i < lines.len() && is_prefix("#[test"@, trim(lines[i]))
}

/// A function starting on (one-based) line `start` is a test when one of
/// the two lines above it begins with `#[test`.
pub open spec fn rust_test_spec(source: Seq<char>, start: usize) -> bool {
    let lines = lines_of(source);
    (start >= 2 && test_attribute_at(lines, start - 2)) || (start >= 3 && test_attribute_at(lines, start - 3))
}

fn test_attribute_on(v: &Vec<char>, ranges: &Vec<(usize, usize)>, i: usize) -> (b: bool)
    requires
        ranges_view(ranges@) == line_ranges(v@),
        forall|k: int| 0 <= k < ranges.len() ==> (#[trigger] ranges@[k]).0 <= ranges@[k].1 <= v.len(),
    ensures
        b == test_attribute_at(lines_of(v@), i as int),
{
    if i >= ranges.len() {
        return false;
    }
    let (lo, hi) = ranges[i];
    assert(lines_of(v@)[i as int] == v@.subrange(lo as int, hi as int));
    let (a, e) = trim_bounds(v, lo, hi);
    let pat = chars_of("#[test");
    has_prefix(v, a, e, &pat)
}

/// Whether a function starting on `start` carries a test attribute.
pub fn is_test_function(source: &str, start: usize) -> (b: bool)
    ensures
        b == rust_test_spec(source@, start),
{
    let v = chars_of(source);
    let ranges = split_lines(&v);
    (start >= 2 && test_attribute_on(&v, &ranges, start - 2)) || (start >= 3 && test_attribute_on(&v, &ranges, start - 3))
}

// ── Symbols ────────────────────────────────────────────────────────────

/// The shape of a symbol query's matches.
#[derive(Debug, Clone, Copy, PartialEq, Eq, Structural)]
pub enum RustSymbolShape {
    /// A function: 0 the name, 1 the parameters, 2 the item.
    Function,
    /// An item of the given kind: 0 the name, 1 the item.
    Item(SymbolKind),
}

/// The symbol a match of a symbol query states.
pub open spec fn rust_symbol_of(file: Seq<char>, source: Seq<char>, m: Seq<Capture>, shape: RustSymbolShape) -> Option<SymbolView> {
    let name = captured_text(m, 0);
    match shape {
        RustSymbolShape::Function => {
            let vis = rust_visibility_of(captured_children(m, 2));
            let start = captured_line(m, 2);
            if name.len() > 0 {
                Some(SymbolView {
                    is_test: rust_test_spec(source, start),
                    ..syntax_symbol(file, "rust"@, SymbolKind::Function, name, vis.0, start, captured_end_line(m, 2),
                        vis.1, "fn "@ + name + captured_text(m, 1))
                })
            } else {
                None
            }
        },
        RustSymbolShape::Item(kind) => {
            let vis = rust_visibility_of(captured_children(m, 1));
            if name.len() > 0 {
                Some(syntax_symbol(file, "rust"@, kind, name, vis.0, captured_line(m, 1), captured_end_line(m, 1),
                    vis.1, Seq::empty()))
            } else {
                None
            }
        },
    }
}

pub open spec fn rust_symbol_pass(file: Seq<char>, source: Seq<char>, ms: Seq<Seq<Capture>>, shape: RustSymbolShape) -> Seq<SymbolView> {
    somes(ms.map_values(|m: Seq<Capture>| rust_symbol_of(file, source, m, shape)))
}

/// The matches of the symbol queries of a Rust file.
pub struct RustSymbolMatches {
    pub functions: Vec<Vec<Capture>>,
    pub structs: Vec<Vec<Capture>>,
    pub enums: Vec<Vec<Capture>>,
    pub traits: Vec<Vec<Capture>>,
    pub types: Vec<Vec<Capture>>,
    pub constants: Vec<Vec<Capture>>,
    pub impls: Vec<Vec<Capture>>,
}

/// The symbols of a Rust file: functions (with their signatures and test
/// detection), structs, enums, traits, type aliases, constants, then impl
/// blocks (as modules named by their type), query by query.
pub open spec fn rust_symbols_spec(file: Seq<char>, source: Seq<char>, q: RustSymbolMatches) -> Seq<SymbolView> {
    rust_symbol_pass(file, source, match_views(q.functions@), RustSymbolShape::Function)
        + rust_symbol_pass(file, source, match_views(q.structs@), RustSymbolShape::Item(SymbolKind::Struct))
        + rust_symbol_pass(file, source, match_views(q.enums@), RustSymbolShape::Item(SymbolKind::Enum))
        + rust_symbol_pass(file, source, match_views(q.traits@), RustSymbolShape::Item(SymbolKind::Trait))
        + rust_symbol_pass(file, source, match_views(q.types@), RustSymbolShape::Item(SymbolKind::Type))
        + rust_symbol_pass(file, source, match_views(q.constants@), RustSymbolShape::Item(SymbolKind::Constant))
        + rust_symbol_pass(file, source, match_views(q.impls@), RustSymbolShape::Item(SymbolKind::Module))
}

fn children_of(m: &Vec<Capture>, index: u32) -> (r: Option<&Vec<NodeInfo>>)
    ensures
        match r {
            Some(cs) => captured_children(m@, index) == Some(cs@),
            None => captured_children(m@, index) is None,
        },
{
    match capture_in(m, index) {
        Some(k) => Some(&m[k].children),
        None => None,
    }
}

fn rust_symbol(file: &str, source: &str, m: &Vec<Capture>, shape: RustSymbolShape) -> (r: Option<SymbolFact>)
    ensures
        match r {
            Some(f) => rust_symbol_of(file@, source@, m@, shape) == Some(f@),
            None => rust_symbol_of(file@, source@, m@, shape) is None,
        },
{
    let name = capture_text(m, 0);
    if name.as_str().is_empty() {
        return None;
    }
    match shape {
        RustSymbolShape::Function => {
            let (exported, visibility) = rust_visibility(children_of(m, 2));
            let start = capture_line(m, 2);
            let is_test = is_test_function(source, start);
            let params = capture_text(m, 1);
            let mut signature = owned("fn ");
            push_str(&mut signature, name.as_str());
            push_str(&mut signature, params.as_str());
            let mut sym = new_symbol(file, "rust", SymbolKind::Function, name, exported, start, capture_end_line(m, 2),
                visibility, signature);
            sym.is_test = is_test;
            Some(sym)
        },
        RustSymbolShape::Item(kind) => {
            let (exported, visibility) = rust_visibility(children_of(m, 1));
            Some(new_symbol(file, "rust", kind, name, exported, capture_line(m, 1), capture_end_line(m, 1), visibility,
                String::new()))
        },
    }
}

fn push_rust_symbols(file: &str, source: &str, ms: &Vec<Vec<Capture>>, shape: RustSymbolShape, out: &mut Vec<SymbolFact>)
    ensures
        symbol_views(final(out)@) == symbol_views(old(out)@) + rust_symbol_pass(file@, source@, match_views(ms@), shape),
{
    let ghost base = symbol_views(out@);
    let ghost cands = match_views(ms@).map_values(|m: Seq<Capture>| rust_symbol_of(file@, source@, m, shape));
    let mut i: usize = 0;
    while i < ms.len()
        invariant
            i <= ms.len(),
            cands == match_views(ms@).map_values(|m: Seq<Capture>| rust_symbol_of(file@, source@, m, shape)),
            symbol_views(out@) == base + somes(cands.take(i as int)),
        decreases ms.len() - i,
    {
        proof {
            lemma_somes_step(cands, i as int);
        }
        match rust_symbol(file, source, &ms[i], shape) {
            Some(f) => {
                let ghost before = symbol_views(out@);
                out.push(f);
                assert(symbol_views(out@) =~= before.push(f@));
            },
            None => {},
        }
        i += 1;
    }
    assert(cands.take(ms.len() as int) =~= cands);
}

/// The symbols that the matches of the symbol queries state.
pub fn rust_symbols(file: &str, source: &str, q: &RustSymbolMatches) -> (out: Vec<SymbolFact>)
    ensures
        symbol_views(out@) == rust_symbols_spec(file@, source@, *q),
{
    let mut out: Vec<SymbolFact> = Vec::new();
    assert(symbol_views(out@) =~= Seq::<SymbolView>::empty());
    push_rust_symbols(file, source, &q.functions, RustSymbolShape::Function, &mut out);
    push_rust_symbols(file, source, &q.structs, RustSymbolShape::Item(SymbolKind::Struct), &mut out);
    push_rust_symbols(file, source, &q.enums, RustSymbolShape::Item(SymbolKind::Enum), &mut out);
    push_rust_symbols(file, source, &q.traits, RustSymbolShape::Item(SymbolKind::Trait), &mut out);
    push_rust_symbols(file, source, &q.types, RustSymbolShape::Item(SymbolKind::Type), &mut out);
    push_rust_symbols(file, source, &q.constants, RustSymbolShape::Item(SymbolKind::Constant), &mut out);
    push_rust_symbols(file, source, &q.impls, RustSymbolShape::Item(SymbolKind::Module), &mut out);
    assert(symbol_views(out@) =~= rust_symbols_spec(file@, source@, *q));
    out
}

// ── The indexer ────────────────────────────────────────────────────────

pub open spec fn rust_call_rules() -> Seq<CallRule> {
    seq![CallRule::Plain(CallKind::FunctionCall), CallRule::Plain(CallKind::PathCall)]
}

/// The Rust language indexer.
pub struct RustIndexer;

impl RustIndexer {
    pub fn new() -> (ix: RustIndexer) {
        RustIndexer
    }

    /// The language identifier, `rust`.
    pub fn language_id(&self) -> (id: &'static str)
        ensures
            id@ == "rust"@,
    {
        "rust"
    }

    /// The file extensions of Rust sources: `rs`.
    pub fn extensions(&self) -> (e: Vec<&'static str>)
        ensures
            e@.map_values(|s: &str| s@) == seq!["rs"@],
    {
        let e = vec!["rs"];
        assert(e@.map_values(|s: &str| s@) =~= seq!["rs"@]);
        e
    }

    /// Extract the `use` imports of a Rust syntax tree.
    pub fn extract_imports(&self, tree: &SyntaxTree, source: &str, file_path: &str) -> (out: Vec<ImportFact>)
        ensures
            import_views(out@) == rust_imports_spec(file_path@, queried(tree.grammar(), tree.text(), rust_import_pattern())),
    {
        let ms = run_query(tree, "(use_declaration argument: (scoped_identifier) @path) @use");
        rust_imports(file_path, &ms)
    }

    /// Extract the items of a Rust syntax tree.
    pub fn extract_symbols(&self, tree: &SyntaxTree, source: &str, file_path: &str) -> (out: Vec<SymbolFact>)
        ensures
            symbol_views(out@) == rs_symbols_of(tree.grammar(), tree.text(), file_path@, source@),
    {
        let q = RustSymbolMatches {
            functions: run_query(tree,
                "(function_item name: (identifier) @name parameters: (parameters) @params) @def"),
            structs: run_query(tree, "(struct_item name: (type_identifier) @name) @def"),
            enums: run_query(tree, "(enum_item name: (type_identifier) @name) @def"),
            traits: run_query(tree, "(trait_item name: (type_identifier) @name) @def"),
            types: run_query(tree, "(type_item name: (type_identifier) @name) @def"),
            constants: run_query(tree, "(const_item name: (identifier) @name) @def"),
            impls: run_query(tree, "(impl_item type: (type_identifier) @name) @def"),
        };
        rust_symbols(file_path, source, &q)
    }

    /// Extract the call sites of a Rust syntax tree: plain calls `foo()`,
    /// then path calls `a::b()`.
    pub fn extract_calls(&self, tree: &SyntaxTree, source: &str, file_path: &str) -> (out: Vec<CallFact>)
        ensures
            exists|passes: Seq<CallPass>| call_rules(passes) == rust_call_rules()
                && call_passes_queried(tree.grammar(), tree.text(), passes, rust_call_patterns())
                && call_views(out@) == #[trigger] pass_calls("rust"@, file_path@, passes),
    {
        let plain = run_query(tree, "(call_expression function: (identifier) @callee) @call");
        let path = run_query(tree, "(call_expression function: (scoped_identifier) @path) @call");
        let passes = vec![
            CallPass { matches: plain, rule: CallRule::Plain(CallKind::FunctionCall) },
            CallPass { matches: path, rule: CallRule::Plain(CallKind::PathCall) },
        ];
        assert(call_rules(passes@) =~= rust_call_rules());
        assert(call_passes_queried(tree.grammar(), tree.text(), passes@, rust_call_patterns()));
        calls_by_rules("rust", file_path, &passes)
    }
}

impl LanguageIndexer for RustIndexer {
    fn language_id(&self) -> (id: &'static str)
        ensures
            id@ == "rust"@,
    {
        RustIndexer::language_id(self)
    }

    fn extensions(&self) -> (e: Vec<&'static str>)
        ensures
            e@.map_values(|s: &str| s@) == seq!["rs"@],
    {
        RustIndexer::extensions(self)
    }

    fn extract_imports(&self, tree: &SyntaxTree, source: &str, file_path: &str) -> (out: Vec<ImportFact>)
        ensures
            import_views(out@) == rust_imports_spec(file_path@, queried(tree.grammar(), tree.text(), rust_import_pattern())),
    {
        RustIndexer::extract_imports(self, tree, source, file_path)
    }

    fn extract_symbols(&self, tree: &SyntaxTree, source: &str, file_path: &str) -> (out: Vec<SymbolFact>)
        ensures
            symbol_views(out@) == rs_symbols_of(tree.grammar(), tree.text(), file_path@, source@),
    {
        RustIndexer::extract_symbols(self, tree, source, file_path)
    }

    fn extract_calls(&self, tree: &SyntaxTree, source: &str, file_path: &str) -> (out: Vec<CallFact>)
        ensures
            exists|passes: Seq<CallPass>| call_rules(passes) == rust_call_rules()
                && call_passes_queried(tree.grammar(), tree.text(), passes, rust_call_patterns())
                && call_views(out@) == #[trigger] pass_calls("rust"@, file_path@, passes),
    {
        RustIndexer::extract_calls(self, tree, source, file_path)
    }
}

/// The pattern of the `use` declarations read as imports.
pub open spec fn rust_import_pattern() -> Seq<char> {
    "(use_declaration argument: (scoped_identifier) @path) @use"@
}

/// The symbols of a Rust tree, query by query.
pub open spec fn rs_symbols_of(g: Grammar, text: Seq<char>, file: Seq<char>, source: Seq<char>) -> Seq<SymbolView> {
    rust_symbol_pass(file, source, queried(g, text, "(function_item name: (identifier) @name parameters: (parameters) @params) @def"@), RustSymbolShape::Function)
        + rust_symbol_pass(file, source, queried(g, text, "(struct_item name: (type_identifier) @name) @def"@), RustSymbolShape::Item(SymbolKind::Struct))
        + rust_symbol_pass(file, source, queried(g, text, "(enum_item name: (type_identifier) @name) @def"@), RustSymbolShape::Item(SymbolKind::Enum))
        + rust_symbol_pass(file, source, queried(g, text, "(trait_item name: (type_identifier) @name) @def"@), RustSymbolShape::Item(SymbolKind::Trait))
        + rust_symbol_pass(file, source, queried(g, text, "(type_item name: (type_identifier) @name) @def"@), RustSymbolShape::Item(SymbolKind::Type))
        + rust_symbol_pass(file, source, queried(g, text, "(const_item name: (identifier) @name) @def"@), RustSymbolShape::Item(SymbolKind::Constant))
        + rust_symbol_pass(file, source, queried(g, text, "(impl_item type: (type_identifier) @name) @def"@), RustSymbolShape::Item(SymbolKind::Module))
}

/// The patterns of the call passes: plain calls, then path calls.
pub open spec fn rust_call_patterns() -> Seq<Seq<char>> {
    seq![
        "(call_expression function: (identifier) @callee) @call"@,
        "(call_expression function: (scoped_identifier) @path) @call"@,
    ]
}

} // verus!
