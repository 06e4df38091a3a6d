//! The code graph: the files of a codebase with the facts extracted from
//! them and the edges between them, with lookups, the removal of a file's
//! facts and the merge of a newer graph.
use vstd::prelude::*;
use crate::codemap::{
    build_indexes, files_of_symbols, names_of, positions_of, CallFact, CodeEdge, CodeGraphIndexes, FileNode,
    ImportFact, ParserDiagnostic, ParserFactKind, SymbolFact, TypeHint, VariableFact,
};
use crate::config::ParserBackend;
use crate::di_bindings::DIFact;
use crate::routes::RouteFact;
use crate::text::{is_prefix, owned, push_str, starts_with, str_eq};
use crate::type_relations::TypeImplFact;

verus! {

#[verifier::external_type_specification]
#[verifier::external_body]
pub struct ExJsonValue(serde_json::Value);

/// A parser-native fact, kept whole, under the identifier of the fact it
/// stands behind.
pub struct ParserFact {
    pub id: String,
    pub kind: ParserFactKind,
    pub data: serde_json::Value,
}

/// The parser backend used for one file, and its native facts.
pub struct FileParserResult {
    pub file: String,
    pub requested_backend: ParserBackend,
    pub used_backend: ParserBackend,
    pub fallback_reason: Option<String>,
    pub diagnostics: Vec<ParserDiagnostic>,
    pub facts: Vec<ParserFact>,
}

/// The code graph of a codebase.
pub struct CodeGraph {
    pub files: Vec<FileNode>,
    pub symbols: Vec<SymbolFact>,
    pub imports: Vec<ImportFact>,
    pub calls: Vec<CallFact>,
    pub routes: Vec<RouteFact>,
    pub type_impls: Vec<TypeImplFact>,
    pub di_bindings: Vec<DIFact>,
    pub edges: Vec<CodeEdge>,
    pub type_hints: Vec<TypeHint>,
    pub variables: Vec<VariableFact>,
    pub parser_results: Vec<FileParserResult>,
}

/// The contents of a code graph.
pub struct CodeGraphView {
    pub files: Seq<FileNode>,
    pub symbols: Seq<SymbolFact>,
    pub imports: Seq<ImportFact>,
    pub calls: Seq<CallFact>,
    pub routes: Seq<RouteFact>,
    pub type_impls: Seq<TypeImplFact>,
    pub di_bindings: Seq<DIFact>,
    pub edges: Seq<CodeEdge>,
    pub type_hints: Seq<TypeHint>,
    pub variables: Seq<VariableFact>,
    pub parser_results: Seq<FileParserResult>,
}

impl View for CodeGraph {
    type V = CodeGraphView;

    open spec fn view(&self) -> CodeGraphView {
        CodeGraphView {
            files: self.files@,
            symbols: self.symbols@,
            imports: self.imports@,
            calls: self.calls@,
            routes: self.routes@,
            type_impls: self.type_impls@,
            di_bindings: self.di_bindings@,
            edges: self.edges@,
            type_hints: self.type_hints@,
            variables: self.variables@,
            parser_results: self.parser_results@,
        }
    }
}

// ── Facts by file ──────────────────────────────────────────────────────

/// A fact that belongs to one file.
pub trait InFile {
    spec fn file_of(&self) -> Seq<char>;

    fn source_file(&self) -> (r: &str)
        ensures
            r@ == self.file_of();
}

impl InFile for FileNode {
    open spec fn file_of(&self) -> Seq<char> {
        self.path@
    }

    fn source_file(&self) -> (r: &str) {
        self.path.as_str()
    }
}

impl InFile for SymbolFact {
    open spec fn file_of(&self) -> Seq<char> {
        self.file@
    }

    fn source_file(&self) -> (r: &str) {
        self.file.as_str()
    }
}

impl InFile for ImportFact {
    open spec fn file_of(&self) -> Seq<char> {
        self.file@
    }

    fn source_file(&self) -> (r: &str) {
        self.file.as_str()
    }
}

impl InFile for CallFact {
    open spec fn file_of(&self) -> Seq<char> {
        self.file@
    }

    fn source_file(&self) -> (r: &str) {
        self.file.as_str()
    }
}

impl InFile for RouteFact {
    open spec fn file_of(&self) -> Seq<char> {
        self.file@
    }

    fn source_file(&self) -> (r: &str) {
        self.file.as_str()
    }
}

impl InFile for TypeImplFact {
    open spec fn file_of(&self) -> Seq<char> {
        self.file@
    }

    fn source_file(&self) -> (r: &str) {
        self.file.as_str()
    }
}

impl InFile for DIFact {
    open spec fn file_of(&self) -> Seq<char> {
        self.file@
    }

    fn source_file(&self) -> (r: &str) {
        self.file.as_str()
    }
}

impl InFile for TypeHint {
    open spec fn file_of(&self) -> Seq<char> {
        self.file@
    }

    fn source_file(&self) -> (r: &str) {
        self.file.as_str()
    }
}

impl InFile for VariableFact {
    open spec fn file_of(&self) -> Seq<char> {
        self.file@
    }

    fn source_file(&self) -> (r: &str) {
        self.file.as_str()
    }
}

impl InFile for FileParserResult {
    open spec fn file_of(&self) -> Seq<char> {
        self.file@
    }

    fn source_file(&self) -> (r: &str) {
        self.file.as_str()
    }
}

/// The facts of other files, in order.
pub open spec fn without_file<T: InFile>(s: Seq<T>, path: Seq<char>) -> Seq<T>
    decreases s.len(),
{
    if s.len() == 0 {
        Seq::empty()
    } else {
        let prev = without_file(s.drop_last(), path);
        if s.last().file_of() == path { prev } else { prev.push(s.last()) }
    }
}

/// The facts of one file, in order.
pub open spec fn of_file<T: InFile>(s: Seq<T>, path: Seq<char>) -> Seq<T>
    decreases s.len(),
{
    if s.len() == 0 {
        Seq::empty()
    } else {
        let prev = of_file(s.drop_last(), path);
        if s.last().file_of() == path { prev.push(s.last()) } else { prev }
    }
}

/// Remove the facts of `path` from `v`, keeping the others in order.
fn drop_file<T: InFile>(v: &mut Vec<T>, path: &str)
    ensures
        final(v)@ == without_file(old(v)@, path@),
{
    let ghost v0 = v@;
    let mut i: usize = 0;
    let ghost mut k: int = 0;
    assert(v0.take(0) =~= Seq::<T>::empty());
    assert(v0.skip(0) =~= v0);
    while i < v.len()
        invariant
            0 <= k <= v0.len(),
            i <= v.len(),
            v@ == without_file(v0.take(k), path@) + v0.skip(k),
            i == without_file(v0.take(k), path@).len(),
        decreases v.len() - i,
    {
        let ghost kept = without_file(v0.take(k), path@);
        assert(v@[i as int] == v0[k]);
        assert(v0.take(k + 1).drop_last() =~= v0.take(k));
        assert(v0.skip(k).drop_first() =~= v0.skip(k + 1));
        if str_eq(v[i].source_file(), path) {
            let ghost before = v@;
            let _gone = v.remove(i);
            assert(v@ =~= kept + v0.skip(k + 1));
        } else {
            assert(v@ =~= kept.push(v0[k]) + v0.skip(k + 1));
            i += 1;
        }
        proof {
            k = k + 1;
        }
    }
    assert(k == v0.len()) by {
        assert(v@.len() == without_file(v0.take(k), path@).len() + v0.skip(k).len());
    }
    assert(v0.take(k) =~= v0);
    assert(v@ =~= without_file(v0, path@));
}

/// References to the facts of `path`, in order.
fn facts_of_file<'a, T: InFile>(v: &'a Vec<T>, path: &str) -> (r: Vec<&'a T>)
    ensures
        r@.map_values(|x: &T| *x) == of_file(v@, path@),
{
    let mut r: Vec<&T> = Vec::new();
    let mut i: usize = 0;
    assert(r@.map_values(|x: &T| *x) =~= Seq::<T>::empty());
    while i < v.len()
        invariant
            i <= v.len(),
            r@.map_values(|x: &T| *x) == of_file(v@.take(i as int), path@),
        decreases v.len() - i,
    {
        assert(v@.take(i + 1).drop_last() =~= v@.take(i as int));
        if str_eq(v[i].source_file(), path) {
            let ghost before = r@.map_values(|x: &T| *x);
            r.push(&v[i]);
            assert(r@.map_values(|x: &T| *x) =~= before.push(v@[i as int]));
        }
        i += 1;
    }
    assert(v@.take(v.len() as int) =~= v@);
    r
}

// ── Edges ──────────────────────────────────────────────────────────────

/// An end of an edge that names the file or one of its symbols
/// (`file::name`).
pub open spec fn names_file(end: Seq<char>, path: Seq<char>) -> bool {
    end == path || is_prefix(path + "::"@, end)
}

/// The edges that touch neither the file nor its symbols, in order.
pub open spec fn edges_outside(edges: Seq<CodeEdge>, path: Seq<char>) -> Seq<CodeEdge>
    decreases edges.len(),
{
    if edges.len() == 0 {
        Seq::empty()
    } else {
        let prev = edges_outside(edges.drop_last(), path);
        let e = edges.last();
        if names_file(e.from@, path) || names_file(e.to@, path) { prev } else { prev.push(e) }
    }
}

fn names_file_exec(end: &str, path: &str, scoped: &str) -> (b: bool)
    requires
        scoped@ == path@ + "::"@,
    ensures
        b == names_file(end@, path@),
{
    str_eq(end, path) || starts_with(end, scoped)
}

fn drop_edges(v: &mut Vec<CodeEdge>, path: &str)
    ensures
        final(v)@ == edges_outside(old(v)@, path@),
{
    let mut scoped = owned(path);
    push_str(&mut scoped, "::");
    let ghost v0 = v@;
    let mut i: usize = 0;
    let ghost mut k: int = 0;
    assert(v0.take(0) =~= Seq::<CodeEdge>::empty());
    assert(v0.skip(0) =~= v0);
    while i < v.len()
        invariant
            0 <= k <= v0.len(),
            i <= v.len(),
            scoped@ == path@ + "::"@,
            v@ == edges_outside(v0.take(k), path@) + v0.skip(k),
            i == edges_outside(v0.take(k), path@).len(),
        decreases v.len() - i,
    {
        let ghost kept = edges_outside(v0.take(k), path@);
        assert(v@[i as int] == v0[k]);
        assert(v0.take(k + 1).drop_last() =~= v0.take(k));
        assert(v0.skip(k).drop_first() =~= v0.skip(k + 1));
        if names_file_exec(v[i].from.as_str(), path, scoped.as_str()) || names_file_exec(v[i].to.as_str(), path, scoped.as_str()) {
            let _gone = v.remove(i);
            assert(v@ =~= kept + v0.skip(k + 1));
        } else {
            assert(v@ =~= kept.push(v0[k]) + v0.skip(k + 1));
            i += 1;
        }
        proof {
            k = k + 1;
        }
    }
    assert(k == v0.len()) by {
        assert(v@.len() == edges_outside(v0.take(k), path@).len() + v0.skip(k).len());
    }
    assert(v0.take(k) =~= v0);
}

// ── Removal and merge ──────────────────────────────────────────────────

/// A graph without a file: its node, every fact of it, and every edge that
/// names it or one of its symbols.
pub open spec fn remove_file_spec(g: CodeGraphView, path: Seq<char>) -> CodeGraphView {
    CodeGraphView {
        files: without_file(g.files, path),
        symbols: without_file(g.symbols, path),
        imports: without_file(g.imports, path),
        calls: without_file(g.calls, path),
        routes: without_file(g.routes, path),
        type_impls: without_file(g.type_impls, path),
        di_bindings: without_file(g.di_bindings, path),
        edges: edges_outside(g.edges, path),
        type_hints: without_file(g.type_hints, path),
        variables: without_file(g.variables, path),
        parser_results: without_file(g.parser_results, path),
    }
}

/// A graph without the files of the given nodes, removed in order.
pub open spec fn remove_files_spec(g: CodeGraphView, by: Seq<FileNode>) -> CodeGraphView
    decreases by.len(),
{
    if by.len() == 0 {
        g
    } else {
        remove_file_spec(remove_files_spec(g, by.drop_last()), by.last().path@)
    }
}

/// `g` with `other`'s files in place of its own of the same paths.
pub open spec fn merge_spec(g: CodeGraphView, other: CodeGraphView) -> CodeGraphView {
    let k = remove_files_spec(g, other.files);
    CodeGraphView {
        files: k.files + other.files,
        symbols: k.symbols + other.symbols,
        imports: k.imports + other.imports,
        calls: k.calls + other.calls,
        routes: k.routes + other.routes,
        type_impls: k.type_impls + other.type_impls,
        di_bindings: k.di_bindings + other.di_bindings,
        edges: k.edges + other.edges,
        type_hints: k.type_hints + other.type_hints,
        variables: k.variables + other.variables,
        parser_results: k.parser_results + other.parser_results,
    }
}

// ── Queries ────────────────────────────────────────────────────────────

/// The first symbol with the name.
pub open spec fn first_symbol_named(symbols: Seq<SymbolFact>, name: Seq<char>) -> Option<SymbolFact>
    decreases symbols.len(),
{
    if symbols.len() == 0 {
        None
    } else if symbols[0].name@ == name {
        Some(symbols[0])
    } else {
        first_symbol_named(symbols.drop_first(), name)
    }
}

/// The symbols with the name, in order.
pub open spec fn symbols_named(symbols: Seq<SymbolFact>, name: Seq<char>) -> Seq<SymbolFact>
    decreases symbols.len(),
{
    if symbols.len() == 0 {
        Seq::empty()
    } else {
        let prev = symbols_named(symbols.drop_last(), name);
        if symbols.last().name@ == name { prev.push(symbols.last()) } else { prev }
    }
}

/// A call resolved to the symbol: to the identifier itself, or to the
/// `file::name` of a symbol with that identifier.
pub open spec fn calls_symbol(c: CallFact, symbols: Seq<SymbolFact>, symbol_id: Seq<char>) -> bool {
    match c.resolved_symbol {
        Some(r) => r@ == symbol_id || exists|i: int|
            0 <= i < symbols.len() && #[trigger] symbols[i].id@ == symbol_id && r@ == symbols[i].file@ + "::"@
                + symbols[i].name@,
        None => false,
    }
}

pub open spec fn calls_to_spec(calls: Seq<CallFact>, symbols: Seq<SymbolFact>, symbol_id: Seq<char>) -> Seq<CallFact>
    decreases calls.len(),
{
    if calls.len() == 0 {
        Seq::empty()
    } else {
        let prev = calls_to_spec(calls.drop_last(), symbols, symbol_id);
        if calls_symbol(calls.last(), symbols, symbol_id) { prev.push(calls.last()) } else { prev }
    }
}

/// The first parser result of the file.
pub open spec fn result_for_file(results: Seq<FileParserResult>, path: Seq<char>) -> Option<FileParserResult>
    decreases results.len(),
{
    if results.len() == 0 {
        None
    } else if results[0].file@ == path {
        Some(results[0])
    } else {
        result_for_file(results.drop_first(), path)
    }
}

/// The first native fact with the identifier among the facts of the
/// results, in order.
pub open spec fn fact_with_id(results: Seq<FileParserResult>, id: Seq<char>) -> Option<ParserFact>
    decreases results.len(),
{
    if results.len() == 0 {
        None
    } else {
        match first_fact(results[0].facts@, id) {
            Some(f) => Some(f),
            None => fact_with_id(results.drop_first(), id),
        }
    }
}

pub open spec fn first_fact(facts: Seq<ParserFact>, id: Seq<char>) -> Option<ParserFact>
    decreases facts.len(),
{
    if facts.len() == 0 {
        None
    } else if facts[0].id@ == id {
        Some(facts[0])
    } else {
        first_fact(facts.drop_first(), id)
    }
}

pub open spec fn empty_graph() -> CodeGraphView {
    CodeGraphView {
        files: Seq::empty(),
        symbols: Seq::empty(),
        imports: Seq::empty(),
        calls: Seq::empty(),
        routes: Seq::empty(),
        type_impls: Seq::empty(),
        di_bindings: Seq::empty(),
        edges: Seq::empty(),
        type_hints: Seq::empty(),
        variables: Seq::empty(),
        parser_results: Seq::empty(),
    }
}

impl Default for CodeGraph {
    /// The empty graph.
    fn default() -> (g: CodeGraph)
        ensures
            g@ == empty_graph(),
    {
        CodeGraph::new()
    }
}

impl CodeGraph {
    /// An empty graph.
    pub fn new() -> (g: CodeGraph)
        ensures
            g@ == empty_graph(),
    {
        let g = CodeGraph {
            files: Vec::new(),
            symbols: Vec::new(),
            imports: Vec::new(),
            calls: Vec::new(),
            routes: Vec::new(),
            type_impls: Vec::new(),
            di_bindings: Vec::new(),
            edges: Vec::new(),
            type_hints: Vec::new(),
            variables: Vec::new(),
            parser_results: Vec::new(),
        };
        assert(g@ =~= empty_graph());
        g
    }

    /// A graph of the given parts, with no parser results.
    pub fn from_parts(
        files: Vec<FileNode>,
        symbols: Vec<SymbolFact>,
        imports: Vec<ImportFact>,
        calls: Vec<CallFact>,
        routes: Vec<RouteFact>,
        type_impls: Vec<TypeImplFact>,
        di_bindings: Vec<DIFact>,
        edges: Vec<CodeEdge>,
        type_hints: Vec<TypeHint>,
        variables: Vec<VariableFact>,
    ) -> (g: CodeGraph)
        ensures
            g@ == (CodeGraphView {
                files: files@,
                symbols: symbols@,
                imports: imports@,
                calls: calls@,
                routes: routes@,
                type_impls: type_impls@,
                di_bindings: di_bindings@,
                edges: edges@,
                type_hints: type_hints@,
                variables: variables@,
                parser_results: Seq::empty(),
            }),
    {
        CodeGraph {
            files,
            symbols,
            imports,
            calls,
            routes,
            type_impls,
            di_bindings,
            edges,
            type_hints,
            variables,
            parser_results: Vec::new(),
        }
    }

    /// The indexes of the graph: symbol positions by name and by file,
    /// import and call positions by file, and the set of file paths.
    pub fn build_indexes(&self) -> (ix: CodeGraphIndexes)
        ensures
            indexes_of(ix, self@),
    {
        let mut import_files: Vec<String> = Vec::new();
        let mut i: usize = 0;
        while i < self.imports.len()
            invariant
                i <= self.imports.len(),
                import_files@.map_values(|s: String| s@) == self.imports@.take(i as int).map_values(|f: ImportFact| f.file@),
            decreases self.imports.len() - i,
        {
            let ghost before = import_files@;
            import_files.push(owned(self.imports[i].file.as_str()));
            assert(import_files@.map_values(|s: String| s@) =~= before.map_values(|s: String| s@).push(self.imports@[i as int].file@));
            assert(self.imports@.take(i + 1).map_values(|f: ImportFact| f.file@) =~= self.imports@.take(i as int).map_values(
                |f: ImportFact| f.file@).push(self.imports@[i as int].file@));
            i += 1;
        }
        assert(self.imports@.take(self.imports.len() as int) =~= self.imports@);
        let mut call_files: Vec<String> = Vec::new();
        let mut i: usize = 0;
        while i < self.calls.len()
            invariant
                i <= self.calls.len(),
                call_files@.map_values(|s: String| s@) == self.calls@.take(i as int).map_values(|f: CallFact| f.file@),
            decreases self.calls.len() - i,
        {
            let ghost before = call_files@;
            call_files.push(owned(self.calls[i].file.as_str()));
            assert(call_files@.map_values(|s: String| s@) =~= before.map_values(|s: String| s@).push(self.calls@[i as int].file@));
            assert(self.calls@.take(i + 1).map_values(|f: CallFact| f.file@) =~= self.calls@.take(i as int).map_values(
                |f: CallFact| f.file@).push(self.calls@[i as int].file@));
            i += 1;
        }
        assert(self.calls@.take(self.calls.len() as int) =~= self.calls@);
        build_indexes(&self.files, &self.symbols, &import_files, &call_files)
    }

    /// The first symbol with the name.
    pub fn find_symbol(&self, name: &str) -> (r: Option<&SymbolFact>)
        ensures
            match r {
                Some(s) => first_symbol_named(self@.symbols, name@) == Some(*s),
                None => first_symbol_named(self@.symbols, name@) is None,
            },
    {
        let ghost sv = self@.symbols;
        let mut i: usize = 0;
        assert(sv.skip(0) =~= sv);
        while i < self.symbols.len()
            invariant
                i <= self.symbols.len(),
                sv == self@.symbols,
                first_symbol_named(sv, name@) == first_symbol_named(sv.skip(i as int), name@),
            decreases self.symbols.len() - i,
        {
            assert(sv.skip(i as int)[0] == sv[i as int]);
            assert(sv.skip(i as int).drop_first() =~= sv.skip(i + 1));
            if str_eq(self.symbols[i].name.as_str(), name) {
                return Some(&self.symbols[i]);
            }
            i += 1;
        }
        assert(sv.skip(i as int) =~= Seq::<SymbolFact>::empty());
        None
    }

    /// The symbols with the name, in order.
    pub fn find_symbols(&self, name: &str) -> (r: Vec<&SymbolFact>)
        ensures
            r@.map_values(|x: &SymbolFact| *x) == symbols_named(self@.symbols, name@),
    {
        let mut r: Vec<&SymbolFact> = Vec::new();
        let mut i: usize = 0;
        assert(r@.map_values(|x: &SymbolFact| *x) =~= Seq::<SymbolFact>::empty());
        while i < self.symbols.len()
            invariant
                i <= self.symbols.len(),
                r@.map_values(|x: &SymbolFact| *x) == symbols_named(self@.symbols.take(i as int), name@),
            decreases self.symbols.len() - i,
        {
            assert(self@.symbols.take(i + 1).drop_last() =~= self@.symbols.take(i as int));
            if str_eq(self.symbols[i].name.as_str(), name) {
                let ghost before = r@.map_values(|x: &SymbolFact| *x);
                r.push(&self.symbols[i]);
                assert(r@.map_values(|x: &SymbolFact| *x) =~= before.push(self@.symbols[i as int]));
            }
            i += 1;
        }
        assert(self@.symbols.take(self.symbols.len() as int) =~= self@.symbols);
        r
    }

    /// The symbols of the file, in order.
    pub fn symbols_in_file(&self, path: &str) -> (r: Vec<&SymbolFact>)
        ensures
            r@.map_values(|x: &SymbolFact| *x) == of_file(self@.symbols, path@),
    {
        facts_of_file(&self.symbols, path)
    }

    /// The imports of the file, in order.
    pub fn imports_in_file(&self, path: &str) -> (r: Vec<&ImportFact>)
        ensures
            r@.map_values(|x: &ImportFact| *x) == of_file(self@.imports, path@),
    {
        facts_of_file(&self.imports, path)
    }

    /// The call sites of the file, in order.
    pub fn calls_in_file(&self, path: &str) -> (r: Vec<&CallFact>)
        ensures
            r@.map_values(|x: &CallFact| *x) == of_file(self@.calls, path@),
    {
        facts_of_file(&self.calls, path)
    }

    /// The parser result of the file.
    pub fn parser_result_for_file(&self, path: &str) -> (r: Option<&FileParserResult>)
        ensures
            match r {
                Some(x) => result_for_file(self@.parser_results, path@) == Some(*x),
                None => result_for_file(self@.parser_results, path@) is None,
            },
    {
        let ghost rv = self@.parser_results;
        let mut i: usize = 0;
        assert(rv.skip(0) =~= rv);
        while i < self.parser_results.len()
            invariant
                i <= self.parser_results.len(),
                rv == self@.parser_results,
                result_for_file(rv, path@) == result_for_file(rv.skip(i as int), path@),
            decreases self.parser_results.len() - i,
        {
            assert(rv.skip(i as int)[0] == rv[i as int]);
            assert(rv.skip(i as int).drop_first() =~= rv.skip(i + 1));
            if str_eq(self.parser_results[i].file.as_str(), path) {
                return Some(&self.parser_results[i]);
            }
            i += 1;
        }
        assert(rv.skip(i as int) =~= Seq::<FileParserResult>::empty());
        None
    }

    /// The native fact with the identifier.
    pub fn parser_fact(&self, fact_id: &str) -> (r: Option<&ParserFact>)
        ensures
            match r {
                Some(x) => fact_with_id(self@.parser_results, fact_id@) == Some(*x),
                None => fact_with_id(self@.parser_results, fact_id@) is None,
            },
    {
        let ghost rv = self@.parser_results;
        let mut i: usize = 0;
        assert(rv.skip(0) =~= rv);
        while i < self.parser_results.len()
            invariant
                i <= self.parser_results.len(),
                rv == self@.parser_results,
                fact_with_id(rv, fact_id@) == fact_with_id(rv.skip(i as int), fact_id@),
            decreases self.parser_results.len() - i,
        {
            assert(rv.skip(i as int)[0] == rv[i as int]);
            assert(rv.skip(i as int).drop_first() =~= rv.skip(i + 1));
            let facts = &self.parser_results[i].facts;
            let ghost fv = facts@;
            let mut k: usize = 0;
            assert(fv.skip(0) =~= fv);
            while k < facts.len()
                invariant
                    k <= facts.len(),
                    i < self.parser_results.len(),
                    rv == self@.parser_results,
                    fv == facts@,
                    fv == rv[i as int].facts@,
                    rv.skip(i as int)[0] == rv[i as int],
                    fact_with_id(rv, fact_id@) == fact_with_id(rv.skip(i as int), fact_id@),
                    first_fact(fv, fact_id@) == first_fact(fv.skip(k as int), fact_id@),
                decreases facts.len() - k,
            {
                assert(fv.skip(k as int)[0] == fv[k as int]);
                assert(fv.skip(k as int).drop_first() =~= fv.skip(k + 1));
                if str_eq(facts[k].id.as_str(), fact_id) {
                    return Some(&facts[k]);
                }
                k += 1;
            }
            assert(fv.skip(k as int) =~= Seq::<ParserFact>::empty());
            i += 1;
        }
        assert(rv.skip(i as int) =~= Seq::<FileParserResult>::empty());
        None
    }

    /// Whether the call is resolved to the symbol.
    fn resolves_to(&self, c: &CallFact, symbol_id: &str) -> (b: bool)
        ensures
            b == calls_symbol(*c, self@.symbols, symbol_id@),
    {
        let r = match &c.resolved_symbol {
            Some(r) => r,
            None => return false,
        };
        if str_eq(r.as_str(), symbol_id) {
            return true;
        }
        let mut i: usize = 0;
        while i < self.symbols.len()
            invariant
                i <= self.symbols.len(),
                c.resolved_symbol == Some(*r),
                !(r@ == symbol_id@),
                forall|j: int| 0 <= j < i ==> !(#[trigger] self@.symbols[j].id@ == symbol_id@ && r@ == self@.symbols[j].file@
                    + "::"@ + self@.symbols[j].name@),
            decreases self.symbols.len() - i,
        {
            let s = &self.symbols[i];
            if str_eq(s.id.as_str(), symbol_id) {
                let mut t = owned(s.file.as_str());
                push_str(&mut t, "::");
                push_str(&mut t, s.name.as_str());
                if str_eq(r.as_str(), t.as_str()) {
                    return true;
                }
            }
            i += 1;
        }
        false
    }

    /// The calls resolved to the symbol, given by its identifier or by its
    /// `file::name`, in order.
    pub fn calls_to_symbol(&self, symbol_id: &str) -> (r: Vec<&CallFact>)
        ensures
            r@.map_values(|x: &CallFact| *x) == calls_to_spec(self@.calls, self@.symbols, symbol_id@),
    {
        let mut r: Vec<&CallFact> = Vec::new();
        let mut i: usize = 0;
        assert(r@.map_values(|x: &CallFact| *x) =~= Seq::<CallFact>::empty());
        while i < self.calls.len()
            invariant
                i <= self.calls.len(),
                r@.map_values(|x: &CallFact| *x) == calls_to_spec(self@.calls.take(i as int), self@.symbols, symbol_id@),
            decreases self.calls.len() - i,
        {
            assert(self@.calls.take(i + 1).drop_last() =~= self@.calls.take(i as int));
            if self.resolves_to(&self.calls[i], symbol_id) {
                let ghost before = r@.map_values(|x: &CallFact| *x);
                r.push(&self.calls[i]);
                assert(r@.map_values(|x: &CallFact| *x) =~= before.push(self@.calls[i as int]));
            }
            i += 1;
        }
        assert(self@.calls.take(self.calls.len() as int) =~= self@.calls);
        r
    }

    /// Whether the graph has a file with this path.
    pub fn has_file(&self, path: &str) -> (b: bool)
        ensures
            b == exists|i: int| 0 <= i < self@.files.len() && #[trigger] self@.files[i].path@ == path@,
    {
        let mut i: usize = 0;
        while i < self.files.len()
            invariant
                i <= self.files.len(),
                forall|j: int| 0 <= j < i ==> #[trigger] self@.files[j].path@ != path@,
            decreases self.files.len() - i,
        {
            if str_eq(self.files[i].path.as_str(), path) {
                assert(self@.files[i as int].path@ == path@);
                return true;
            }
            i += 1;
        }
        false
    }

    /// The paths of the files, in order.
    pub fn file_paths(&self) -> (r: Vec<&str>)
        ensures
            r@.map_values(|p: &str| p@) == self@.files.map_values(|f: FileNode| f.path@),
    {
        let mut r: Vec<&str> = Vec::new();
        let mut i: usize = 0;
        while i < self.files.len()
            invariant
                i <= self.files.len(),
                r@.map_values(|p: &str| p@) == self@.files.take(i as int).map_values(|f: FileNode| f.path@),
            decreases self.files.len() - i,
        {
            let ghost before = r@.map_values(|p: &str| p@);
            r.push(self.files[i].path.as_str());
            assert(r@.map_values(|p: &str| p@) =~= before.push(self@.files[i as int].path@));
            assert(self@.files.take(i + 1).map_values(|f: FileNode| f.path@) =~= self@.files.take(i as int).map_values(
                |f: FileNode| f.path@).push(self@.files[i as int].path@));
            i += 1;
        }
        assert(self@.files.take(self.files.len() as int) =~= self@.files);
        r
    }

    /// Remove a file: its node, all its facts, and every edge that names the
    /// file or one of its symbols.
    pub fn remove_file(&mut self, path: &str)
        ensures
            final(self)@ == remove_file_spec(old(self)@, path@),
    {
        drop_file(&mut self.files, path);
        drop_file(&mut self.symbols, path);
        drop_file(&mut self.imports, path);
        drop_file(&mut self.calls, path);
        drop_file(&mut self.routes, path);
        drop_file(&mut self.type_impls, path);
        drop_file(&mut self.di_bindings, path);
        drop_edges(&mut self.edges, path);
        drop_file(&mut self.type_hints, path);
        drop_file(&mut self.variables, path);
        drop_file(&mut self.parser_results, path);
    }

    /// Merge a newer graph into this one: the files of `other` replace this
    /// graph's files of the same paths (removed one at a time, in the order
    /// of `other`'s files), then everything of `other` is appended.
    /// Puts the newer graph's files in place of this graph's files of the
    /// same paths, then resolves all imports and calls again and adds the
    /// import and call edges that are then missing.
    pub fn merge(&mut self, other: CodeGraph)
        ensures
            crate::builder::relinked(merge_spec(old(self)@, other@), final(self)@),
    {
        let mut other = other;
        let ghost ov = other@;
        let ghost start = self@;
        let mut i: usize = 0;
        while i < other.files.len()
            invariant
                i <= other.files.len(),
                other@ == ov,
                self@ == remove_files_spec(start, ov.files.take(i as int)),
            decreases other.files.len() - i,
        {
            assert(ov.files.take(i + 1).drop_last() =~= ov.files.take(i as int));
            self.remove_file(other.files[i].path.as_str());
            i += 1;
        }
        assert(ov.files.take(ov.files.len() as int) =~= ov.files);
        self.files.append(&mut other.files);
        self.symbols.append(&mut other.symbols);
        self.imports.append(&mut other.imports);
        self.calls.append(&mut other.calls);
        self.routes.append(&mut other.routes);
        self.type_impls.append(&mut other.type_impls);
        self.di_bindings.append(&mut other.di_bindings);
        self.edges.append(&mut other.edges);
        self.type_hints.append(&mut other.type_hints);
        self.variables.append(&mut other.variables);
        self.parser_results.append(&mut other.parser_results);
        crate::builder::relink(self);
    }
}

/// The indexes hold, for the graph, the positions of its symbols by name
/// and by file, of its imports and calls by file, and its file paths.
pub open spec fn indexes_of(ix: CodeGraphIndexes, g: CodeGraphView) -> bool {
    &&& crate::codemap::indexes_keys(ix.by_name@, names_of(g.symbols))
    &&& crate::codemap::indexes_keys(ix.symbols_by_file@, files_of_symbols(g.symbols))
    &&& crate::codemap::indexes_keys(ix.imports_by_file@, g.imports.map_values(|f: ImportFact| f.file@))
    &&& crate::codemap::indexes_keys(ix.calls_by_file@, g.calls.map_values(|f: CallFact| f.file@))
    &&& forall|p: Seq<char>| #[trigger] ix.file_set@.contains(p) <==> g.files.map_values(|f: FileNode| f.path@).contains(p)
}


/// The files of the facts, in order.
pub open spec fn files_of<T: InFile>(s: Seq<T>) -> Seq<Seq<char>> {
    s.map_values(|x: T| x.file_of())
}

/// The positions of a key among the files of the facts pick out exactly
/// the facts of that file, in order.
pub proof fn lemma_positions_of_file<T: InFile>(s: Seq<T>, path: Seq<char>)
    requires
        s.len() <= usize::MAX,
    ensures
        positions_of(files_of(s), path).len() == of_file(s, path).len(),
        forall|k: int| 0 <= k < of_file(s, path).len() ==> (#[trigger] positions_of(files_of(s), path)[k]) < s.len()
            && s[positions_of(files_of(s), path)[k] as int] == of_file(s, path)[k],
    decreases s.len(),
{
    if s.len() > 0 {
        let d = s.drop_last();
        lemma_positions_of_file(d, path);
        assert(files_of(s).drop_last() =~= files_of(d));
        assert(files_of(s).last() == s.last().file_of());
        let pp = positions_of(files_of(d), path);
        assert forall|k: int| 0 <= k < of_file(s, path).len() implies (#[trigger] positions_of(files_of(s), path)[k]) < s.len()
            && s[positions_of(files_of(s), path)[k] as int] == of_file(s, path)[k] by {
            if k < of_file(d, path).len() {
                assert(positions_of(files_of(s), path)[k] == pp[k]);
                assert(d[pp[k] as int] == s[pp[k] as int]);
            }
        }
    }
}

/// Likewise for the names of symbols.
pub proof fn lemma_positions_of_name(s: Seq<SymbolFact>, name: Seq<char>)
    requires
        s.len() <= usize::MAX,
    ensures
        positions_of(names_of(s), name).len() == symbols_named(s, name).len(),
        forall|k: int| 0 <= k < symbols_named(s, name).len() ==> (#[trigger] positions_of(names_of(s), name)[k]) < s.len()
            && s[positions_of(names_of(s), name)[k] as int] == symbols_named(s, name)[k],
    decreases s.len(),
{
    if s.len() > 0 {
        let d = s.drop_last();
        lemma_positions_of_name(d, name);
        assert(names_of(s).drop_last() =~= names_of(d));
        let pp = positions_of(names_of(d), name);
        assert forall|k: int| 0 <= k < symbols_named(s, name).len() implies (#[trigger] positions_of(names_of(s), name)[k]) < s.len()
            && s[positions_of(names_of(s), name)[k] as int] == symbols_named(s, name)[k] by {
            if k < symbols_named(d, name).len() {
                assert(positions_of(names_of(s), name)[k] == pp[k]);
                assert(d[pp[k] as int] == s[pp[k] as int]);
            }
        }
    }
}

/// The facts at the positions, in order.
fn at_positions<'a, T>(v: &'a Vec<T>, ps: &Vec<usize>) -> (r: Vec<&'a T>)
    requires
        forall|k: int| 0 <= k < ps.len() ==> #[trigger] ps@[k] < v.len(),
    ensures
        r@.len() == ps@.len(),
        forall|k: int| 0 <= k < ps.len() ==> *(#[trigger] r@[k]) == v@[ps@[k] as int],
{
    let mut r: Vec<&T> = Vec::new();
    let mut i: usize = 0;
    while i < ps.len()
        invariant
            i <= ps.len(),
            forall|k: int| 0 <= k < ps.len() ==> #[trigger] ps@[k] < v.len(),
            r@.len() == i,
            forall|k: int| 0 <= k < i ==> *(#[trigger] r@[k]) == v@[ps@[k] as int],
        decreases ps.len() - i,
    {
        r.push(&v[ps[i]]);
        i += 1;
    }
    r
}

impl CodeGraphIndexes {
    fn positions(m: &vstd::hash_map::StringHashMap<Vec<usize>>, key: &str) -> (r: Vec<usize>)
        ensures
            r@ == if m@.contains_key(key@) { m@[key@]@ } else { Seq::<usize>::empty() },
    {
        match m.get(key) {
            Some(v) => v.clone(),
            None => Vec::new(),
        }
    }

    /// The symbols with the name, in order, read through the index.
    pub fn symbols_by_name<'a>(&self, graph: &'a CodeGraph, name: &str) -> (r: Vec<&'a SymbolFact>)
        requires
            indexes_of(*self, graph@),
        ensures
            r@.map_values(|x: &SymbolFact| *x) == symbols_named(graph@.symbols, name@),
    {
        let ps = CodeGraphIndexes::positions(&self.by_name, name);
        let _n = graph.symbols.len();
        proof {
            lemma_positions_of_name(graph@.symbols, name@);
            if !self.by_name@.contains_key(name@) {
                crate::codemap::lemma_positions_absent(names_of(graph@.symbols), name@);
            }
        }
        let r = at_positions(&graph.symbols, &ps);
        assert(r@.map_values(|x: &SymbolFact| *x) =~= symbols_named(graph@.symbols, name@));
        r
    }

    /// The first symbol with the name, read through the index.
    pub fn find_symbol<'a>(&self, graph: &'a CodeGraph, name: &str) -> (r: Option<&'a SymbolFact>)
        requires
            indexes_of(*self, graph@),
        ensures
            match r {
                Some(s) => symbols_named(graph@.symbols, name@).len() > 0 && *s == symbols_named(graph@.symbols, name@)[0],
                None => symbols_named(graph@.symbols, name@).len() == 0,
            },
    {
        let all = self.symbols_by_name(graph, name);
        if all.len() == 0 {
            None
        } else {
            assert(all@.map_values(|x: &SymbolFact| *x)[0] == *all@[0]);
            Some(all[0])
        }
    }

    fn by_file<'a, T: InFile>(m: &vstd::hash_map::StringHashMap<Vec<usize>>, v: &'a Vec<T>, path: &str) -> (r: Vec<&'a T>)
        requires
            crate::codemap::indexes_keys(m@, files_of(v@)),
        ensures
            r@.map_values(|x: &T| *x) == of_file(v@, path@),
    {
        let ps = CodeGraphIndexes::positions(m, path);
        let _n = v.len();
        proof {
            lemma_positions_of_file(v@, path@);
            if !m@.contains_key(path@) {
                crate::codemap::lemma_positions_absent(files_of(v@), path@);
            }
        }
        let r = at_positions(v, &ps);
        assert(r@.map_values(|x: &T| *x) =~= of_file(v@, path@));
        r
    }

    /// The symbols of the file, in order, read through the index.
    pub fn symbols_in_file<'a>(&self, graph: &'a CodeGraph, path: &str) -> (r: Vec<&'a SymbolFact>)
        requires
            indexes_of(*self, graph@),
        ensures
            r@.map_values(|x: &SymbolFact| *x) == of_file(graph@.symbols, path@),
    {
        assert(files_of(graph@.symbols) =~= files_of_symbols(graph@.symbols));
        CodeGraphIndexes::by_file(&self.symbols_by_file, &graph.symbols, path)
    }

    /// The imports of the file, in order, read through the index.
    pub fn imports_in_file<'a>(&self, graph: &'a CodeGraph, path: &str) -> (r: Vec<&'a ImportFact>)
        requires
            indexes_of(*self, graph@),
        ensures
            r@.map_values(|x: &ImportFact| *x) == of_file(graph@.imports, path@),
    {
        assert(files_of(graph@.imports) =~= graph@.imports.map_values(|f: ImportFact| f.file@));
        CodeGraphIndexes::by_file(&self.imports_by_file, &graph.imports, path)
    }

    /// The call sites of the file, in order, read through the index.
    pub fn calls_in_file<'a>(&self, graph: &'a CodeGraph, path: &str) -> (r: Vec<&'a CallFact>)
        requires
            indexes_of(*self, graph@),
        ensures
            r@.map_values(|x: &CallFact| *x) == of_file(graph@.calls, path@),
    {
        assert(files_of(graph@.calls) =~= graph@.calls.map_values(|f: CallFact| f.file@));
        CodeGraphIndexes::by_file(&self.calls_by_file, &graph.calls, path)
    }
}

} // verus!
