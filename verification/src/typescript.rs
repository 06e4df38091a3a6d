//! The TypeScript/JavaScript indexer: imports, symbols and call sites, read
//! from the matches of tree-sitter queries over a TypeScript syntax tree.
//!
//! The queries run through [`query_matches`]; what a match gives is stated
//! by the verified functions [`typescript_imports`], [`typescript_symbols`]
//! and [`typescript_calls`].
use vstd::prelude::*;
use crate::codemap::{
    call_views, import_views, is_test_name, new_symbol, symbol_views, syntax_symbol, test_name_spec, CallFact,
    CallKind, CallView, ImportFact, ImportKind, ImportView, ConfidenceScore, unresolved_score, SymbolFact, SymbolKind, SymbolView, Visibility,
};
use crate::extract::{
    capture_column, capture_end_line, capture_line, capture_row, capture_text, captured_column,
    captured_end_line, captured_line, captured_row, captured_text, lemma_somes_step, match_views, somes,
    queried, run_query, unquote, unquoted,
};
use crate::syntax_tree::{Capture, Grammar, SyntaxTree};
use crate::text::{owned, push_str, str_eq};
use crate::visibility::{leading_text_spec, typescript_visibility, typescript_visibility_of};

use crate::registry::LanguageIndexer;

verus! {

// ── Imports ────────────────────────────────────────────────────────────

/// The import a match states: capture 0 is the imported name, capture 1
/// the quoted source and capture 2 the statement. A named import needs a
/// name; every import needs a source.
pub open spec fn ts_import_of(file: Seq<char>, m: Seq<Capture>, kind: ImportKind) -> Option<ImportView> {
    let name = captured_text(m, 0);
    let source = unquote(captured_text(m, 1));
    let named = kind == ImportKind::NamedImport;
    if source.len() > 0 && (!named || name.len() > 0) {
        Some(ImportView {
            id: Seq::empty(),
            file,
            language: "typescript"@,
            kind,
            source,
            local_name: Some(name),
            imported_name: if named { Some(name) } else { None },
            resolved_file: None,
            line: captured_line(m, 2),
            confidence: unresolved_score(),
        })
    } else {
        None
    }
}

pub open spec fn ts_import_pass(file: Seq<char>, ms: Seq<Seq<Capture>>, kind: ImportKind) -> Seq<ImportView> {
    somes(ms.map_values(|m: Seq<Capture>| ts_import_of(file, m, kind)))
}

/// The imports of a TypeScript file: named imports `import { a } from "s"`,
/// default imports `import a from "s"`, then namespace imports
/// `import * as a from "s"`.
pub open spec fn typescript_imports_spec(
    file: Seq<char>,
    named: Seq<Seq<Capture>>,
    defaults: Seq<Seq<Capture>>,
    namespace: Seq<Seq<Capture>>,
) -> Seq<ImportView> {
    ts_import_pass(file, named, ImportKind::NamedImport) + ts_import_pass(file, defaults, ImportKind::DefaultImport)
        + ts_import_pass(file, namespace, ImportKind::NamespaceImport)
}

fn ts_import(file: &str, m: &Vec<Capture>, kind: ImportKind) -> (r: Option<ImportFact>)
    ensures
        match r {
            Some(f) => ts_import_of(file@, m@, kind) == Some(f@),
            None => ts_import_of(file@, m@, kind) is None,
        },
{
    let name = capture_text(m, 0);
    let raw = capture_text(m, 1);
    let source = unquoted(raw.as_str());
    let named = kind == ImportKind::NamedImport;
    if !source.as_str().is_empty() && (!named || !name.as_str().is_empty()) {
        let imported = if named { Some(owned(name.as_str())) } else { None };
        Some(ImportFact {
            id: String::new(),
            file: owned(file),
            language: owned("typescript"),
            kind,
            source,
            local_name: Some(name),
            imported_name: imported,
            resolved_file: None,
            line: capture_line(m, 2),
            confidence: ConfidenceScore::unresolved(),
        })
    } else {
        None
    }
}

fn push_ts_imports(file: &str, ms: &Vec<Vec<Capture>>, kind: ImportKind, out: &mut Vec<ImportFact>)
    ensures
        import_views(final(out)@) == import_views(old(out)@) + ts_import_pass(file@, match_views(ms@), kind),
{
    let ghost base = import_views(out@);
    let ghost cands = match_views(ms@).map_values(|m: Seq<Capture>| ts_import_of(file@, m, kind));
    let mut i: usize = 0;
    while i < ms.len()
        invariant
            i <= ms.len(),
            cands == match_views(ms@).map_values(|m: Seq<Capture>| ts_import_of(file@, m, kind)),
            import_views(out@) == base + somes(cands.take(i as int)),
        decreases ms.len() - i,
    {
        proof {
            lemma_somes_step(cands, i as int);
        }
        match ts_import(file, &ms[i], kind) {
            Some(f) => {
                let ghost before = import_views(out@);
                out.push(f);
                assert(import_views(out@) =~= before.push(f@));
            },
            None => {},
        }
        i += 1;
    }
    assert(cands.take(ms.len() as int) =~= cands);
}

/// The imports that the matches of the three import queries state.
pub fn typescript_imports(
    file: &str,
    named: &Vec<Vec<Capture>>,
    defaults: &Vec<Vec<Capture>>,
    namespace: &Vec<Vec<Capture>>,
) -> (out: Vec<ImportFact>)
    ensures
        import_views(out@) == typescript_imports_spec(file@, match_views(named@), match_views(defaults@), match_views(namespace@)),
{
    let mut out: Vec<ImportFact> = Vec::new();
    assert(import_views(out@) =~= Seq::<ImportView>::empty());
    push_ts_imports(file, named, ImportKind::NamedImport, &mut out);
    push_ts_imports(file, defaults, ImportKind::DefaultImport, &mut out);
    push_ts_imports(file, namespace, ImportKind::NamespaceImport, &mut out);
    assert(import_views(out@) =~= typescript_imports_spec(file@, match_views(named@), match_views(defaults@), match_views(namespace@)));
    out
}

// ── Symbols ────────────────────────────────────────────────────────────

/// The shape of a symbol query's matches.
#[derive(Debug, Clone, Copy, PartialEq, Eq, Structural)]
pub enum TsSymbolShape {
    /// A function: 0 the name, 1 the parameters, 2 the declaration.
    Function,
    /// A declaration of the given kind: 0 the name, 1 the declaration.
    Declaration(SymbolKind),
    /// A test call `it("...", () => ...)`: 0 the callee, 1 the quoted
    /// description, 2 the arrow function.
    TestCall,
}

/// The symbol a match of a symbol query states.
pub open spec fn ts_symbol_of(file: Seq<char>, source: Seq<char>, m: Seq<Capture>, shape: TsSymbolShape) -> Option<SymbolView> {
    match shape {
        TsSymbolShape::Function => {
            let name = captured_text(m, 0);
            let vis = typescript_visibility_of(leading_text_spec(source, captured_row(m, 2), 3));
            let signature = "function "@ + name + captured_text(m, 1);
            if name.len() > 0 {
                Some(SymbolView {
                    is_test: test_name_spec(name),
                    ..syntax_symbol(file, "typescript"@, SymbolKind::Function, name, vis.0,
                        captured_line(m, 2), captured_end_line(m, 2), vis.1, signature)
                })
            } else {
                None
            }
        },
        TsSymbolShape::Declaration(kind) => {
            let name = captured_text(m, 0);
            let vis = typescript_visibility_of(leading_text_spec(source, captured_row(m, 1), 3));
            if name.len() > 0 {
                Some(syntax_symbol(file, "typescript"@, kind, name, vis.0, captured_line(m, 1),
                    captured_end_line(m, 1), vis.1, Seq::empty()))
            } else {
                None
            }
        },
        TsSymbolShape::TestCall => {
            let callee = captured_text(m, 0);
            let desc = unquote(captured_text(m, 1));
            let line = captured_line(m, 2);
            let name = if desc.len() == 0 { callee } else { desc };
            if callee == "it"@ || callee == "test"@ {
                Some(SymbolView {
                    is_test: true,
                    ..syntax_symbol(file, "typescript"@, SymbolKind::Function, name, false, line, line,
                        Visibility::Private, callee + "("@ + desc + ")"@)
                })
            } else {
                None
            }
        },
    }
}

pub open spec fn ts_symbol_pass(file: Seq<char>, source: Seq<char>, ms: Seq<Seq<Capture>>, shape: TsSymbolShape) -> Seq<SymbolView> {
    somes(ms.map_values(|m: Seq<Capture>| ts_symbol_of(file, source, m, shape)))
}

/// The matches of the symbol queries of a TypeScript file.
pub struct TsSymbolMatches {
    pub functions: Vec<Vec<Capture>>,
    pub classes: Vec<Vec<Capture>>,
    pub interfaces: Vec<Vec<Capture>>,
    pub types: Vec<Vec<Capture>>,
    pub enums: Vec<Vec<Capture>>,
    pub constants: Vec<Vec<Capture>>,
    pub tests: Vec<Vec<Capture>>,
}

/// The symbols of a TypeScript file: functions (with their signatures),
/// classes, interfaces, type aliases, enums, `const`/`let` bindings, then
/// the test calls `it(...)` and `test(...)`, query by query.
pub open spec fn typescript_symbols_spec(file: Seq<char>, source: Seq<char>, q: TsSymbolMatches) -> Seq<SymbolView> {
    ts_symbol_pass(file, source, match_views(q.functions@), TsSymbolShape::Function)
        + ts_symbol_pass(file, source, match_views(q.classes@), TsSymbolShape::Declaration(SymbolKind::Class))
        + ts_symbol_pass(file, source, match_views(q.interfaces@), TsSymbolShape::Declaration(SymbolKind::Interface))
        + ts_symbol_pass(file, source, match_views(q.types@), TsSymbolShape::Declaration(SymbolKind::Type))
        + ts_symbol_pass(file, source, match_views(q.enums@), TsSymbolShape::Declaration(SymbolKind::Enum))
        + ts_symbol_pass(file, source, match_views(q.constants@), TsSymbolShape::Declaration(SymbolKind::Constant))
        + ts_symbol_pass(file, source, match_views(q.tests@), TsSymbolShape::TestCall)
}

fn ts_symbol(file: &str, source: &str, m: &Vec<Capture>, shape: TsSymbolShape) -> (r: Option<SymbolFact>)
    ensures
        match r {
            Some(f) => ts_symbol_of(file@, source@, m@, shape) == Some(f@),
            None => ts_symbol_of(file@, source@, m@, shape) is None,
        },
{
    match shape {
        TsSymbolShape::Function => {
            let name = capture_text(m, 0);
            if name.as_str().is_empty() {
                return None;
            }
            let params = capture_text(m, 1);
            let (exported, visibility) = typescript_visibility(capture_row(m, 2), source);
            let mut signature = owned("function ");
            push_str(&mut signature, name.as_str());
            push_str(&mut signature, params.as_str());
            let is_test = is_test_name(name.as_str());
            let mut sym = new_symbol(file, "typescript", SymbolKind::Function, name, exported,
                capture_line(m, 2), capture_end_line(m, 2), visibility, signature);
            sym.is_test = is_test;
            Some(sym)
        },
        TsSymbolShape::Declaration(kind) => {
            let name = capture_text(m, 0);
            if name.as_str().is_empty() {
                return None;
            }
            let (exported, visibility) = typescript_visibility(capture_row(m, 1), source);
            Some(new_symbol(file, "typescript", kind, name, exported, capture_line(m, 1),
                capture_end_line(m, 1), visibility, String::new()))
        },
        TsSymbolShape::TestCall => {
            let callee = capture_text(m, 0);
            if !(str_eq(callee.as_str(), "it") || str_eq(callee.as_str(), "test")) {
                return None;
            }
            let raw = capture_text(m, 1);
            let desc = unquoted(raw.as_str());
            let line = capture_line(m, 2);
            let mut signature = owned(callee.as_str());
            push_str(&mut signature, "(");
            push_str(&mut signature, desc.as_str());
            push_str(&mut signature, ")");
            let name = if desc.as_str().is_empty() { callee } else { desc };
            let mut sym = new_symbol(file, "typescript", SymbolKind::Function, name, false, line, line,
                Visibility::Private, signature);
            sym.is_test = true;
            Some(sym)
        },
    }
}

fn push_ts_symbols(file: &str, source: &str, ms: &Vec<Vec<Capture>>, shape: TsSymbolShape, out: &mut Vec<SymbolFact>)
    ensures
        symbol_views(final(out)@) == symbol_views(old(out)@) + ts_symbol_pass(file@, source@, match_views(ms@), shape),
{
    let ghost base = symbol_views(out@);
    let ghost cands = match_views(ms@).map_values(|m: Seq<Capture>| ts_symbol_of(file@, source@, m, shape));
    let mut i: usize = 0;
    while i < ms.len()
        invariant
            i <= ms.len(),
            cands == match_views(ms@).map_values(|m: Seq<Capture>| ts_symbol_of(file@, source@, m, shape)),
            symbol_views(out@) == base + somes(cands.take(i as int)),
        decreases ms.len() - i,
    {
        proof {
            lemma_somes_step(cands, i as int);
        }
        match ts_symbol(file, source, &ms[i], shape) {
            Some(f) => {
                let ghost before = symbol_views(out@);
                out.push(f);
                assert(symbol_views(out@) =~= before.push(f@));
            },
            None => {},
        }
        i += 1;
    }
    assert(cands.take(ms.len() as int) =~= cands);
}

/// The symbols that the matches of the symbol queries state.
pub fn typescript_symbols(file: &str, source: &str, q: &TsSymbolMatches) -> (out: Vec<SymbolFact>)
    ensures
        symbol_views(out@) == typescript_symbols_spec(file@, source@, *q),
{
    let mut out: Vec<SymbolFact> = Vec::new();
    assert(symbol_views(out@) =~= Seq::<SymbolView>::empty());
    push_ts_symbols(file, source, &q.functions, TsSymbolShape::Function, &mut out);
    push_ts_symbols(file, source, &q.classes, TsSymbolShape::Declaration(SymbolKind::Class), &mut out);
    push_ts_symbols(file, source, &q.interfaces, TsSymbolShape::Declaration(SymbolKind::Interface), &mut out);
    push_ts_symbols(file, source, &q.types, TsSymbolShape::Declaration(SymbolKind::Type), &mut out);
    push_ts_symbols(file, source, &q.enums, TsSymbolShape::Declaration(SymbolKind::Enum), &mut out);
    push_ts_symbols(file, source, &q.constants, TsSymbolShape::Declaration(SymbolKind::Constant), &mut out);
    push_ts_symbols(file, source, &q.tests, TsSymbolShape::TestCall, &mut out);
    assert(symbol_views(out@) =~= typescript_symbols_spec(file@, source@, *q));
    out
}

// ── Calls ──────────────────────────────────────────────────────────────

/// The shape of a call query's matches.
#[derive(Debug, Clone, Copy, PartialEq, Eq, Structural)]
pub enum TsCallShape {
    /// `foo()`: 0 the callee, 1 the call.
    Plain,
    /// `obj.method()`: the call's position is read from capture 0, the
    /// object's text from capture 1 and the callee's from capture 2.
    Member,
    /// `new Foo()`: 0 the constructor, 1 the expression.
    Constructor,
}

/// The call a match of a call query states.
pub open spec fn ts_call_of(file: Seq<char>, m: Seq<Capture>, shape: TsCallShape) -> Option<CallView> {
    let (callee, object, at, kind) = match shape {
        TsCallShape::Plain => (captured_text(m, 0), None, 1u32, CallKind::FunctionCall),
        TsCallShape::Member => (captured_text(m, 2), Some(captured_text(m, 1)), 0u32, CallKind::MethodCall),
        TsCallShape::Constructor => (captured_text(m, 0), None, 1u32, CallKind::ConstructorCall),
    };
    if callee.len() > 0 {
        Some(CallView {
            id: Seq::empty(),
            file,
            language: "typescript"@,
            kind,
            caller_symbol: None,
            callee_text: callee,
            object,
            resolved_symbol: None,
            line: captured_line(m, at),
            column: captured_column(m, at),
            confidence: unresolved_score(),
        })
    } else {
        None
    }
}

pub open spec fn ts_call_pass(file: Seq<char>, ms: Seq<Seq<Capture>>, shape: TsCallShape) -> Seq<CallView> {
    somes(ms.map_values(|m: Seq<Capture>| ts_call_of(file, m, shape)))
}

/// The calls of a TypeScript file: plain calls, member calls, then
/// constructor calls.
pub open spec fn typescript_calls_spec(
    file: Seq<char>,
    plain: Seq<Seq<Capture>>,
    member: Seq<Seq<Capture>>,
    construct: Seq<Seq<Capture>>,
) -> Seq<CallView> {
    ts_call_pass(file, plain, TsCallShape::Plain) + ts_call_pass(file, member, TsCallShape::Member)
        + ts_call_pass(file, construct, TsCallShape::Constructor)
}

fn ts_call(file: &str, m: &Vec<Capture>, shape: TsCallShape) -> (r: Option<CallFact>)
    ensures
        match r {
            Some(f) => ts_call_of(file@, m@, shape) == Some(f@),
            None => ts_call_of(file@, m@, shape) is None,
        },
{
    let (callee, object, at, kind) = match shape {
        TsCallShape::Plain => (capture_text(m, 0), None, 1u32, CallKind::FunctionCall),
        TsCallShape::Member => (capture_text(m, 2), Some(capture_text(m, 1)), 0u32, CallKind::MethodCall),
        TsCallShape::Constructor => (capture_text(m, 0), None, 1u32, CallKind::ConstructorCall),
    };
    if callee.as_str().is_empty() {
        return None;
    }
    Some(CallFact {
        id: String::new(),
        file: owned(file),
        language: owned("typescript"),
        kind,
        caller_symbol: None,
        callee_text: callee,
        object,
        resolved_symbol: None,
        line: capture_line(m, at),
        column: capture_column(m, at),
        confidence: ConfidenceScore::unresolved(),
    })
}

fn push_ts_calls(file: &str, ms: &Vec<Vec<Capture>>, shape: TsCallShape, out: &mut Vec<CallFact>)
    ensures
        call_views(final(out)@) == call_views(old(out)@) + ts_call_pass(file@, match_views(ms@), shape),
{
    let ghost base = call_views(out@);
    let ghost cands = match_views(ms@).map_values(|m: Seq<Capture>| ts_call_of(file@, m, shape));
    let mut i: usize = 0;
    while i < ms.len()
        invariant
            i <= ms.len(),
            cands == match_views(ms@).map_values(|m: Seq<Capture>| ts_call_of(file@, m, shape)),
            call_views(out@) == base + somes(cands.take(i as int)),
        decreases ms.len() - i,
    {
        proof {
            lemma_somes_step(cands, i as int);
        }
        match ts_call(file, &ms[i], shape) {
            Some(f) => {
                let ghost before = call_views(out@);
                out.push(f);
                assert(call_views(out@) =~= before.push(f@));
            },
            None => {},
        }
        i += 1;
    }
    assert(cands.take(ms.len() as int) =~= cands);
}

/// The calls that the matches of the three call queries state.
pub fn typescript_calls(
    file: &str,
    plain: &Vec<Vec<Capture>>,
    member: &Vec<Vec<Capture>>,
    construct: &Vec<Vec<Capture>>,
) -> (out: Vec<CallFact>)
    ensures
        call_views(out@) == typescript_calls_spec(file@, match_views(plain@), match_views(member@), match_views(construct@)),
{
    let mut out: Vec<CallFact> = Vec::new();
    assert(call_views(out@) =~= Seq::<CallView>::empty());
    push_ts_calls(file, plain, TsCallShape::Plain, &mut out);
    push_ts_calls(file, member, TsCallShape::Member, &mut out);
    push_ts_calls(file, construct, TsCallShape::Constructor, &mut out);
    assert(call_views(out@) =~= typescript_calls_spec(file@, match_views(plain@), match_views(member@), match_views(construct@)));
    out
}

// ── The indexer ────────────────────────────────────────────────────────

/// The TypeScript/JavaScript language indexer.
pub struct TypeScriptIndexer;

impl TypeScriptIndexer {
    pub fn new() -> (ix: TypeScriptIndexer) {
        TypeScriptIndexer
    }

    /// The language identifier, `typescript`.
    pub fn language_id(&self) -> (id: &'static str)
        ensures
            id@ == "typescript"@,
    {
        "typescript"
    }

    /// The file extensions of TypeScript and JavaScript sources.
    pub fn extensions(&self) -> (e: Vec<&'static str>)
        ensures
            e@.map_values(|s: &str| s@) == seq!["ts"@, "tsx"@, "mts"@, "cts"@, "js"@, "jsx"@, "mjs"@, "cjs"@],
    {
        let e = vec!["ts", "tsx", "mts", "cts", "js", "jsx", "mjs", "cjs"];
        assert(e@.map_values(|s: &str| s@) =~= seq!["ts"@, "tsx"@, "mts"@, "cts"@, "js"@, "jsx"@, "mjs"@, "cjs"@]);
        e
    }

    /// Extract the imports of a TypeScript syntax tree: named, default and
    /// namespace imports.
    pub fn extract_imports(&self, tree: &SyntaxTree, source: &str, file_path: &str) -> (out: Vec<ImportFact>)
        ensures
            import_views(out@) == ts_imports_of(tree.grammar(), tree.text(), file_path@),
    {
        let named = run_query(tree,
            "(import_statement (import_clause (named_imports (import_specifier name: (identifier) @name))) source: (string) @source) @import");
        let defaults = run_query(tree,
            "(import_statement (import_clause (identifier) @name) source: (string) @source) @import");
        let namespace = run_query(tree,
            "(import_statement (import_clause (namespace_import (identifier) @name)) source: (string) @source) @import");
        typescript_imports(file_path, &named, &defaults, &namespace)
    }

    /// Extract the symbols of a TypeScript syntax tree.
    pub fn extract_symbols(&self, tree: &SyntaxTree, source: &str, file_path: &str) -> (out: Vec<SymbolFact>)
        ensures
            symbol_views(out@) == ts_symbols_of(tree.grammar(), tree.text(), file_path@, source@),
    {
        let q = TsSymbolMatches {
            functions: run_query(tree,
                "(function_declaration name: (identifier) @name parameters: (formal_parameters) @params) @def"),
            classes: run_query(tree, "(class_declaration name: (type_identifier) @name) @def"),
            interfaces: run_query(tree, "(interface_declaration name: (type_identifier) @name) @def"),
            types: run_query(tree, "(type_alias_declaration name: (type_identifier) @name) @def"),
            enums: run_query(tree, "(enum_declaration name: (identifier) @name) @def"),
            constants: run_query(tree, "(lexical_declaration (variable_declarator name: (identifier) @name)) @def"),
            tests: run_query(tree,
                "(call_expression function: (identifier) @test_name arguments: (arguments (string) @desc (arrow_function) @fn)) @test"),
        };
        typescript_symbols(file_path, source, &q)
    }

    /// Extract the call sites of a TypeScript syntax tree.
    pub fn extract_calls(&self, tree: &SyntaxTree, source: &str, file_path: &str) -> (out: Vec<CallFact>)
        ensures
            call_views(out@) == ts_calls_of(tree.grammar(), tree.text(), file_path@),
    {
        let plain = run_query(tree, "(call_expression function: (identifier) @callee) @call");
        let member = run_query(tree,
            "(call_expression function: (member_expression object: (identifier) @object property: (property_identifier) @property)) @call");
        let construct = run_query(tree, "(new_expression constructor: (identifier) @callee) @call");
        typescript_calls(file_path, &plain, &member, &construct)
    }
}

impl LanguageIndexer for TypeScriptIndexer {
    fn language_id(&self) -> (id: &'static str)
        ensures
            id@ == "typescript"@,
    {
        TypeScriptIndexer::language_id(self)
    }

    fn extensions(&self) -> (e: Vec<&'static str>)
        ensures
            e@.map_values(|s: &str| s@) == seq!["ts"@, "tsx"@, "mts"@, "cts"@, "js"@, "jsx"@, "mjs"@, "cjs"@],
    {
        TypeScriptIndexer::extensions(self)
    }

    fn extract_imports(&self, tree: &SyntaxTree, source: &str, file_path: &str) -> (out: Vec<ImportFact>)
        ensures
            import_views(out@) == ts_imports_of(tree.grammar(), tree.text(), file_path@),
    {
        TypeScriptIndexer::extract_imports(self, tree, source, file_path)
    }

    fn extract_symbols(&self, tree: &SyntaxTree, source: &str, file_path: &str) -> (out: Vec<SymbolFact>)
        ensures
            symbol_views(out@) == ts_symbols_of(tree.grammar(), tree.text(), file_path@, source@),
    {
        TypeScriptIndexer::extract_symbols(self, tree, source, file_path)
    }

    fn extract_calls(&self, tree: &SyntaxTree, source: &str, file_path: &str) -> (out: Vec<CallFact>)
        ensures
            call_views(out@) == ts_calls_of(tree.grammar(), tree.text(), file_path@),
    {
        TypeScriptIndexer::extract_calls(self, tree, source, file_path)
    }
}

/// The imports of a TypeScript tree: the named, default and namespace
/// import queries' matches, read as [`typescript_imports_spec`] says.
pub open spec fn ts_imports_of(g: Grammar, text: Seq<char>, file: Seq<char>) -> Seq<ImportView> {
    typescript_imports_spec(
        file,
        queried(g, text, "(import_statement (import_clause (named_imports (import_specifier name: (identifier) @name))) source: (string) @source) @import"@),
        queried(g, text, "(import_statement (import_clause (identifier) @name) source: (string) @source) @import"@),
        queried(g, text, "(import_statement (import_clause (namespace_import (identifier) @name)) source: (string) @source) @import"@),
    )
}

/// The symbols of a TypeScript tree, query by query.
pub open spec fn ts_symbols_of(g: Grammar, text: Seq<char>, file: Seq<char>, source: Seq<char>) -> Seq<SymbolView> {
    ts_symbol_pass(file, source, queried(g, text, "(function_declaration name: (identifier) @name parameters: (formal_parameters) @params) @def"@), TsSymbolShape::Function)
        + ts_symbol_pass(file, source, queried(g, text, "(class_declaration name: (type_identifier) @name) @def"@), TsSymbolShape::Declaration(SymbolKind::Class))
        + ts_symbol_pass(file, source, queried(g, text, "(interface_declaration name: (type_identifier) @name) @def"@), TsSymbolShape::Declaration(SymbolKind::Interface))
        + ts_symbol_pass(file, source, queried(g, text, "(type_alias_declaration name: (type_identifier) @name) @def"@), TsSymbolShape::Declaration(SymbolKind::Type))
        + ts_symbol_pass(file, source, queried(g, text, "(enum_declaration name: (identifier) @name) @def"@), TsSymbolShape::Declaration(SymbolKind::Enum))
        + ts_symbol_pass(file, source, queried(g, text, "(lexical_declaration (variable_declarator name: (identifier) @name)) @def"@), TsSymbolShape::Declaration(SymbolKind::Constant))
        + ts_symbol_pass(file, source, queried(g, text, "(call_expression function: (identifier) @test_name arguments: (arguments (string) @desc (arrow_function) @fn)) @test"@), TsSymbolShape::TestCall)
}

/// The call sites of a TypeScript tree: plain calls, method calls on an
/// identifier and constructions.
pub open spec fn ts_calls_of(g: Grammar, text: Seq<char>, file: Seq<char>) -> Seq<CallView> {
    typescript_calls_spec(
        file,
        queried(g, text, "(call_expression function: (identifier) @callee) @call"@),
        queried(g, text, "(call_expression function: (member_expression object: (identifier) @object property: (property_identifier) @property)) @call"@),
        queried(g, text, "(new_expression constructor: (identifier) @callee) @call"@),
    )
}

} // verus!
