//! The C# indexer: `using` imports, symbols and call sites, read from the
//! matches of tree-sitter queries over a C# syntax tree.
//!
//! The queries run through [`query_matches`]; what a match gives is stated
//! by the verified functions [`csharp_imports`], [`csharp_symbols`] and
//! [`csharp_calls`].
use vstd::prelude::*;
use crate::codemap::{
    call_views, import_views, new_symbol, symbol_views, syntax_symbol, CallFact, CallKind, CallView, ImportFact,
    ImportKind, ImportView, ConfidenceScore, unresolved_score, SymbolFact, SymbolKind, SymbolView,
};
use crate::extract::{
    capture_column, capture_end_line, capture_line, capture_row, capture_text, captured_column,
    captured_end_line, captured_line, captured_row, captured_text, lemma_somes_step, match_views, queried, run_query,
    somes,
};
use crate::paths::last_char;
use crate::syntax_tree::{Capture, Grammar, SyntaxTree};
use crate::text::{chars_of, owned, push_str, string_from};
use crate::visibility::{csharp_visibility, csharp_visibility_of, leading_text_spec};

use crate::registry::LanguageIndexer;

verus! {

// ── Imports ────────────────────────────────────────────────────────────

/// The text after the last `.`, or the whole text.
pub open spec fn last_segment(t: Seq<char>) -> Seq<char> {
    match last_char(t, '.') {
        Some(k) => t.skip(k + 1),
        None => t,
    }
}

fn last_segment_of(t: &str) -> (r: String)
    ensures
        r@ == last_segment(t@),
{
    let v = chars_of(t);
    let mut k = v.len();
    assert(v@.take(k as int) =~= v@);
    while k > 0 && v[k - 1] != '.'
        invariant
            k <= v.len(),
            last_char(v@, '.') == last_char(v@.take(k as int), '.'),
        decreases k,
    {
        assert(v@.take(k as int).drop_last() =~= v@.take(k - 1));
        k -= 1;
    }
    if k == 0 {
        assert(v@.take(0) =~= Seq::<char>::empty());
        assert(v@.subrange(0, v.len() as int) =~= v@);
        return string_from(&v, 0, v.len());
    }
    assert(v@.take(k as int).last() == '.');
    assert(v@.skip(k as int) =~= v@.subrange(k as int, v.len() as int));
    string_from(&v, k, v.len())
}

/// The import a match of a `using` query states: capture 0 is the used
/// name, plain or qualified; its last segment is the local name.
pub open spec fn using_import(file: Seq<char>, m: Seq<Capture>) -> Option<ImportView> {
    let path = captured_text(m, 0);
    if path.len() > 0 {
        Some(ImportView {
            id: Seq::empty(),
            file,
            language: "csharp"@,
            kind: ImportKind::GoImport,
            source: path,
            local_name: Some(last_segment(path)),
            imported_name: None,
            resolved_file: None,
            line: captured_line(m, 0),
            confidence: unresolved_score(),
        })
    } else {
        None
    }
}

pub open spec fn import_pass(file: Seq<char>, ms: Seq<Seq<Capture>>) -> Seq<ImportView> {
    somes(ms.map_values(|m: Seq<Capture>| using_import(file, m)))
}

/// The imports of a C# file: the `using` directives of plain names, then
/// those of qualified names.
pub open spec fn csharp_imports_spec(file: Seq<char>, plain: Seq<Seq<Capture>>, qualified: Seq<Seq<Capture>>) -> Seq<ImportView> {
    import_pass(file, plain) + import_pass(file, qualified)
}

fn using_of(file: &str, m: &Vec<Capture>) -> (r: Option<ImportFact>)
    ensures
        match r {
            Some(f) => using_import(file@, m@) == Some(f@),
            None => using_import(file@, m@) is None,
        },
{
    let path = capture_text(m, 0);
    if path.as_str().is_empty() {
        return None;
    }
    let local = last_segment_of(path.as_str());
    Some(ImportFact {
        id: String::new(),
        file: owned(file),
        language: owned("csharp"),
        kind: ImportKind::GoImport,
        source: path,
        local_name: Some(local),
        imported_name: None,
        resolved_file: None,
        line: capture_line(m, 0),
        confidence: ConfidenceScore::unresolved(),
    })
}

fn push_imports(file: &str, ms: &Vec<Vec<Capture>>, out: &mut Vec<ImportFact>)
    ensures
        import_views(final(out)@) == import_views(old(out)@) + import_pass(file@, match_views(ms@)),
{
    let ghost base = import_views(out@);
    let ghost cands = match_views(ms@).map_values(|m: Seq<Capture>| using_import(file@, m));
    let mut i: usize = 0;
    while i < ms.len()
        invariant
            i <= ms.len(),
            cands == match_views(ms@).map_values(|m: Seq<Capture>| using_import(file@, m)),
            import_views(out@) == base + somes(cands.take(i as int)),
        decreases ms.len() - i,
    {
        proof {
            lemma_somes_step(cands, i as int);
        }
        match using_of(file, &ms[i]) {
            Some(f) => {
                let ghost before = import_views(out@);
                out.push(f);
                assert(import_views(out@) =~= before.push(f@));
            },
            None => {},
        }
        i += 1;
    }
    assert(cands.take(ms.len() as int) =~= cands);
}

/// The imports that the matches of the two `using` queries state.
pub fn csharp_imports(file: &str, plain: &Vec<Vec<Capture>>, qualified: &Vec<Vec<Capture>>) -> (out: Vec<ImportFact>)
    ensures
        import_views(out@) == csharp_imports_spec(file@, match_views(plain@), match_views(qualified@)),
{
    let mut out: Vec<ImportFact> = Vec::new();
    assert(import_views(out@) =~= Seq::<ImportView>::empty());
    push_imports(file, plain, &mut out);
    push_imports(file, qualified, &mut out);
    assert(import_views(out@) =~= csharp_imports_spec(file@, match_views(plain@), match_views(qualified@)));
    out
}

// ── Symbols ────────────────────────────────────────────────────────────

/// The shape of a symbol query's matches.
#[derive(Debug, Clone, Copy, PartialEq, Eq, Structural)]
pub enum CsSymbolShape {
    /// A declaration of the given kind: 0 the name, 1 the declaration.
    Declaration(SymbolKind),
    /// A method: 0 the name, 1 the parameter list, 2 the declaration.
    Method,
}

/// The symbol a match of a symbol query states; a method's signature is
/// its name followed by its parameter list.
pub open spec fn cs_symbol_of(file: Seq<char>, source: Seq<char>, m: Seq<Capture>, shape: CsSymbolShape) -> Option<SymbolView> {
    let name = captured_text(m, 0);
    let (kind, def, signature) = match shape {
        CsSymbolShape::Declaration(k) => (k, 1u32, Seq::<char>::empty()),
        CsSymbolShape::Method => (SymbolKind::Method, 2u32, name + captured_text(m, 1)),
    };
    let vis = csharp_visibility_of(leading_text_spec(source, captured_row(m, def), 2));
    if name.len() > 0 {
        Some(syntax_symbol(file, "csharp"@, kind, name, vis.0, captured_line(m, def), captured_end_line(m, def),
            vis.1, signature))
    } else {
        None
    }
}

pub open spec fn cs_symbol_pass(file: Seq<char>, source: Seq<char>, ms: Seq<Seq<Capture>>, shape: CsSymbolShape) -> Seq<SymbolView> {
    somes(ms.map_values(|m: Seq<Capture>| cs_symbol_of(file, source, m, shape)))
}

/// The matches of the symbol queries of a C# file.
pub struct CsSymbolMatches {
    pub classes: Vec<Vec<Capture>>,
    pub interfaces: Vec<Vec<Capture>>,
    pub structs: Vec<Vec<Capture>>,
    pub enums: Vec<Vec<Capture>>,
    pub methods: Vec<Vec<Capture>>,
    pub namespaces: Vec<Vec<Capture>>,
    pub records: Vec<Vec<Capture>>,
}

/// The symbols of a C# file: classes, interfaces, structs, enums, methods,
/// namespaces (as modules) and records (as classes), query by query.
pub open spec fn csharp_symbols_spec(file: Seq<char>, source: Seq<char>, q: CsSymbolMatches) -> Seq<SymbolView> {
    cs_symbol_pass(file, source, match_views(q.classes@), CsSymbolShape::Declaration(SymbolKind::Class))
        + cs_symbol_pass(file, source, match_views(q.interfaces@), CsSymbolShape::Declaration(SymbolKind::Interface))
        + cs_symbol_pass(file, source, match_views(q.structs@), CsSymbolShape::Declaration(SymbolKind::Struct))
        + cs_symbol_pass(file, source, match_views(q.enums@), CsSymbolShape::Declaration(SymbolKind::Enum))
        + cs_symbol_pass(file, source, match_views(q.methods@), CsSymbolShape::Method)
        + cs_symbol_pass(file, source, match_views(q.namespaces@), CsSymbolShape::Declaration(SymbolKind::Module))
        + cs_symbol_pass(file, source, match_views(q.records@), CsSymbolShape::Declaration(SymbolKind::Class))
}

fn cs_symbol(file: &str, source: &str, m: &Vec<Capture>, shape: CsSymbolShape) -> (r: Option<SymbolFact>)
    ensures
        match r {
            Some(f) => cs_symbol_of(file@, source@, m@, shape) == Some(f@),
            None => cs_symbol_of(file@, source@, m@, shape) is None,
        },
{
    let name = capture_text(m, 0);
    if name.as_str().is_empty() {
        return None;
    }
    let (kind, def, signature) = match shape {
        CsSymbolShape::Declaration(k) => (k, 1u32, String::new()),
        CsSymbolShape::Method => {
            let mut sig = owned(name.as_str());
            let params = capture_text(m, 1);
            push_str(&mut sig, params.as_str());
            (SymbolKind::Method, 2u32, sig)
        },
    };
    let (exported, visibility) = csharp_visibility(capture_row(m, def), source);
    Some(new_symbol(file, "csharp", kind, name, exported, capture_line(m, def), capture_end_line(m, def),
        visibility, signature))
}

fn push_symbols(file: &str, source: &str, ms: &Vec<Vec<Capture>>, shape: CsSymbolShape, out: &mut Vec<SymbolFact>)
    ensures
        symbol_views(final(out)@) == symbol_views(old(out)@) + cs_symbol_pass(file@, source@, match_views(ms@), shape),
{
    let ghost base = symbol_views(out@);
    let ghost cands = match_views(ms@).map_values(|m: Seq<Capture>| cs_symbol_of(file@, source@, m, shape));
    let mut i: usize = 0;
    while i < ms.len()
        invariant
            i <= ms.len(),
            cands == match_views(ms@).map_values(|m: Seq<Capture>| cs_symbol_of(file@, source@, m, shape)),
            symbol_views(out@) == base + somes(cands.take(i as int)),
        decreases ms.len() - i,
    {
        proof {
            lemma_somes_step(cands, i as int);
        }
        match cs_symbol(file, source, &ms[i], shape) {
            Some(f) => {
                let ghost before = symbol_views(out@);
                out.push(f);
                assert(symbol_views(out@) =~= before.push(f@));
            },
            None => {},
        }
        i += 1;
    }
    assert(cands.take(ms.len() as int) =~= cands);
}

/// The symbols that the matches of the symbol queries state.
pub fn csharp_symbols(file: &str, source: &str, q: &CsSymbolMatches) -> (out: Vec<SymbolFact>)
    ensures
        symbol_views(out@) == csharp_symbols_spec(file@, source@, *q),
{
    let mut out: Vec<SymbolFact> = Vec::new();
    assert(symbol_views(out@) =~= Seq::<SymbolView>::empty());
    push_symbols(file, source, &q.classes, CsSymbolShape::Declaration(SymbolKind::Class), &mut out);
    push_symbols(file, source, &q.interfaces, CsSymbolShape::Declaration(SymbolKind::Interface), &mut out);
    push_symbols(file, source, &q.structs, CsSymbolShape::Declaration(SymbolKind::Struct), &mut out);
    push_symbols(file, source, &q.enums, CsSymbolShape::Declaration(SymbolKind::Enum), &mut out);
    push_symbols(file, source, &q.methods, CsSymbolShape::Method, &mut out);
    push_symbols(file, source, &q.namespaces, CsSymbolShape::Declaration(SymbolKind::Module), &mut out);
    push_symbols(file, source, &q.records, CsSymbolShape::Declaration(SymbolKind::Class), &mut out);
    assert(symbol_views(out@) =~= csharp_symbols_spec(file@, source@, *q));
    out
}

// ── Calls ──────────────────────────────────────────────────────────────

/// The call a match of a call query states: capture 0 is the callee (for a
/// member invocation, the whole member access) and capture 1 the call.
pub open spec fn cs_call_of(file: Seq<char>, m: Seq<Capture>, kind: CallKind) -> Option<CallView> {
    let callee = captured_text(m, 0);
    if callee.len() > 0 {
        Some(CallView {
            id: Seq::empty(),
            file,
            language: "csharp"@,
            kind,
            caller_symbol: None,
            callee_text: callee,
            object: None,
            resolved_symbol: None,
            line: captured_line(m, 1),
            column: captured_column(m, 1),
            confidence: unresolved_score(),
        })
    } else {
        None
    }
}

pub open spec fn cs_call_pass(file: Seq<char>, ms: Seq<Seq<Capture>>, kind: CallKind) -> Seq<CallView> {
    somes(ms.map_values(|m: Seq<Capture>| cs_call_of(file, m, kind)))
}

/// The calls of a C# file: plain invocations `Foo()`, member invocations
/// `Console.WriteLine()`, then object creations `new Foo()`.
pub open spec fn csharp_calls_spec(
    file: Seq<char>,
    plain: Seq<Seq<Capture>>,
    member: Seq<Seq<Capture>>,
    construct: Seq<Seq<Capture>>,
) -> Seq<CallView> {
    cs_call_pass(file, plain, CallKind::FunctionCall) + cs_call_pass(file, member, CallKind::MethodCall)
        + cs_call_pass(file, construct, CallKind::ConstructorCall)
}

fn cs_call(file: &str, m: &Vec<Capture>, kind: CallKind) -> (r: Option<CallFact>)
    ensures
        match r {
            Some(f) => cs_call_of(file@, m@, kind) == Some(f@),
            None => cs_call_of(file@, m@, kind) is None,
        },
{
    let callee = capture_text(m, 0);
    if callee.as_str().is_empty() {
        return None;
    }
    Some(CallFact {
        id: String::new(),
        file: owned(file),
        language: owned("csharp"),
        kind,
        caller_symbol: None,
        callee_text: callee,
        object: None,
        resolved_symbol: None,
        line: capture_line(m, 1),
        column: capture_column(m, 1),
        confidence: ConfidenceScore::unresolved(),
    })
}

fn push_calls(file: &str, ms: &Vec<Vec<Capture>>, kind: CallKind, out: &mut Vec<CallFact>)
    ensures
        call_views(final(out)@) == call_views(old(out)@) + cs_call_pass(file@, match_views(ms@), kind),
{
    let ghost base = call_views(out@);
    let ghost cands = match_views(ms@).map_values(|m: Seq<Capture>| cs_call_of(file@, m, kind));
    let mut i: usize = 0;
    while i < ms.len()
        invariant
            i <= ms.len(),
            cands == match_views(ms@).map_values(|m: Seq<Capture>| cs_call_of(file@, m, kind)),
            call_views(out@) == base + somes(cands.take(i as int)),
        decreases ms.len() - i,
    {
        proof {
            lemma_somes_step(cands, i as int);
        }
        match cs_call(file, &ms[i], kind) {
            Some(f) => {
                let ghost before = call_views(out@);
                out.push(f);
                assert(call_views(out@) =~= before.push(f@));
            },
            None => {},
        }
        i += 1;
    }
    assert(cands.take(ms.len() as int) =~= cands);
}

/// The calls that the matches of the three call queries state.
pub fn csharp_calls(
    file: &str,
    plain: &Vec<Vec<Capture>>,
    member: &Vec<Vec<Capture>>,
    construct: &Vec<Vec<Capture>>,
) -> (out: Vec<CallFact>)
    ensures
        call_views(out@) == csharp_calls_spec(file@, match_views(plain@), match_views(member@), match_views(construct@)),
{
    let mut out: Vec<CallFact> = Vec::new();
    assert(call_views(out@) =~= Seq::<CallView>::empty());
    push_calls(file, plain, CallKind::FunctionCall, &mut out);
    push_calls(file, member, CallKind::MethodCall, &mut out);
    push_calls(file, construct, CallKind::ConstructorCall, &mut out);
    assert(call_views(out@) =~= csharp_calls_spec(file@, match_views(plain@), match_views(member@), match_views(construct@)));
    out
}

// ── The indexer ────────────────────────────────────────────────────────

/// The C# language indexer.
pub struct CSharpIndexer;

impl CSharpIndexer {
    pub fn new() -> (ix: CSharpIndexer) {
        CSharpIndexer
    }

    /// The language identifier, `csharp`.
    pub fn language_id(&self) -> (id: &'static str)
        ensures
            id@ == "csharp"@,
    {
        "csharp"
    }

    /// The file extensions of C# sources: `cs`.
    pub fn extensions(&self) -> (e: Vec<&'static str>)
        ensures
            e@.map_values(|s: &str| s@) == seq!["cs"@],
    {
        let e = vec!["cs"];
        assert(e@.map_values(|s: &str| s@) =~= seq!["cs"@]);
        e
    }

    /// Extract the `using` imports of a C# syntax tree.
    pub fn extract_imports(&self, tree: &SyntaxTree, source: &str, file_path: &str) -> (out: Vec<ImportFact>)
        ensures
            import_views(out@) == cs_imports_of(tree.grammar(), tree.text(), file_path@),
    {
        let plain = run_query(tree, "(using_directive (identifier) @name) @use");
        let qualified = run_query(tree, "(using_directive (qualified_name) @name) @use");
        csharp_imports(file_path, &plain, &qualified)
    }

    /// Extract the symbols of a C# syntax tree: classes, interfaces, structs,
    /// enums, methods (with their signatures), namespaces and records, with
    /// the visibility their modifiers give.
    pub fn extract_symbols(&self, tree: &SyntaxTree, source: &str, file_path: &str) -> (out: Vec<SymbolFact>)
        ensures
            symbol_views(out@) == cs_symbols_of(tree.grammar(), tree.text(), file_path@, source@),
    {
        let q = CsSymbolMatches {
            classes: run_query(tree, "(class_declaration name: (identifier) @name) @def"),
            interfaces: run_query(tree, "(interface_declaration name: (identifier) @name) @def"),
            structs: run_query(tree, "(struct_declaration name: (identifier) @name) @def"),
            enums: run_query(tree, "(enum_declaration name: (identifier) @name) @def"),
            methods: run_query(tree,
                "(method_declaration name: (identifier) @name parameters: (parameter_list) @params) @def"),
            namespaces: run_query(tree, "(namespace_declaration name: (identifier) @name) @def"),
            records: run_query(tree, "(record_declaration name: (identifier) @name) @def"),
        };
        csharp_symbols(file_path, source, &q)
    }

    /// Extract the call sites of a C# syntax tree.
    pub fn extract_calls(&self, tree: &SyntaxTree, source: &str, file_path: &str) -> (out: Vec<CallFact>)
        ensures
            call_views(out@) == cs_calls_of(tree.grammar(), tree.text(), file_path@),
    {
        let plain = run_query(tree, "(invocation_expression function: (identifier) @callee) @call");
        let member = run_query(tree, "(invocation_expression function: (member_access_expression) @callee) @call");
        let construct = run_query(tree, "(object_creation_expression type: (identifier) @name) @call");
        csharp_calls(file_path, &plain, &member, &construct)
    }
}

impl LanguageIndexer for CSharpIndexer {
    fn language_id(&self) -> (id: &'static str)
        ensures
            id@ == "csharp"@,
    {
        CSharpIndexer::language_id(self)
    }

    fn extensions(&self) -> (e: Vec<&'static str>)
        ensures
            e@.map_values(|s: &str| s@) == seq!["cs"@],
    {
        CSharpIndexer::extensions(self)
    }

    fn extract_imports(&self, tree: &SyntaxTree, source: &str, file_path: &str) -> (out: Vec<ImportFact>)
        ensures
            import_views(out@) == cs_imports_of(tree.grammar(), tree.text(), file_path@),
    {
        CSharpIndexer::extract_imports(self, tree, source, file_path)
    }

    fn extract_symbols(&self, tree: &SyntaxTree, source: &str, file_path: &str) -> (out: Vec<SymbolFact>)
        ensures
            symbol_views(out@) == cs_symbols_of(tree.grammar(), tree.text(), file_path@, source@),
    {
        CSharpIndexer::extract_symbols(self, tree, source, file_path)
    }

    fn extract_calls(&self, tree: &SyntaxTree, source: &str, file_path: &str) -> (out: Vec<CallFact>)
        ensures
            call_views(out@) == cs_calls_of(tree.grammar(), tree.text(), file_path@),
    {
        CSharpIndexer::extract_calls(self, tree, source, file_path)
    }
}

/// The `using` imports of a C# tree: plain and qualified names.
pub open spec fn cs_imports_of(g: Grammar, text: Seq<char>, file: Seq<char>) -> Seq<ImportView> {
    csharp_imports_spec(
        file,
        queried(g, text, "(using_directive (identifier) @name) @use"@),
        queried(g, text, "(using_directive (qualified_name) @name) @use"@),
    )
}

/// The symbols of a C# tree, query by query.
pub open spec fn cs_symbols_of(g: Grammar, text: Seq<char>, file: Seq<char>, source: Seq<char>) -> Seq<SymbolView> {
    cs_symbol_pass(file, source, queried(g, text, "(class_declaration name: (identifier) @name) @def"@), CsSymbolShape::Declaration(SymbolKind::Class))
        + cs_symbol_pass(file, source, queried(g, text, "(interface_declaration name: (identifier) @name) @def"@), CsSymbolShape::Declaration(SymbolKind::Interface))
        + cs_symbol_pass(file, source, queried(g, text, "(struct_declaration name: (identifier) @name) @def"@), CsSymbolShape::Declaration(SymbolKind::Struct))
        + cs_symbol_pass(file, source, queried(g, text, "(enum_declaration name: (identifier) @name) @def"@), CsSymbolShape::Declaration(SymbolKind::Enum))
        + cs_symbol_pass(file, source, queried(g, text, "(method_declaration name: (identifier) @name parameters: (parameter_list) @params) @def"@), CsSymbolShape::Method)
        + cs_symbol_pass(file, source, queried(g, text, "(namespace_declaration name: (identifier) @name) @def"@), CsSymbolShape::Declaration(SymbolKind::Module))
        + cs_symbol_pass(file, source, queried(g, text, "(record_declaration name: (identifier) @name) @def"@), CsSymbolShape::Declaration(SymbolKind::Class))
}

/// The call sites of a C# tree: plain invocations, member invocations and
/// object creations.
pub open spec fn cs_calls_of(g: Grammar, text: Seq<char>, file: Seq<char>) -> Seq<CallView> {
    csharp_calls_spec(
        file,
        queried(g, text, "(invocation_expression function: (identifier) @callee) @call"@),
        queried(g, text, "(invocation_expression function: (member_access_expression) @callee) @call"@),
        queried(g, text, "(object_creation_expression type: (identifier) @name) @call"@),
    )
}

} // verus!
