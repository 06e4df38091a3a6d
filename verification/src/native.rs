//! Facts of the native parser turned into graph facts: kinds read by name,
//! facts ordered by position, numbered, and each kept whole beside its
//! graph fact.
use vstd::prelude::*;
use crate::code_graph::ParserFact;
use crate::codemap::{
    CallKind, ConfidenceScore, ImportKind, ParserDiagnostic, ParserFactKind, ResolutionMethod, SymbolKind, UsageKind,
    VarKind, Visibility, CallFact, ImportFact, SymbolFact, UsageSite, VariableFact,
};
use crate::order::{compare_str, lex_lt};
use crate::builder::{
    call_id, calls_with_ids, import_id, imports_with_ids, reversed, symbol_id, symbols_with_ids, variable_id,
    variables_numbered, RipexExtraction,
};
use crate::codemap::{import_views, opt_str_view, symbol_views, CallView, ImportView, SymbolView};
use crate::type_relations::{views, TypeImplView};
use crate::text::{decimal, owned, push_decimal, push_str, str_eq};
use crate::type_relations::{ImplKind, TypeImplFact};

verus! {

// ── Kinds by name ──────────────────────────────────────────────────────

pub open spec fn symbol_kind_of(n: Seq<char>) -> SymbolKind {
    if n == "function"@ { SymbolKind::Function }
    else if n == "class"@ { SymbolKind::Class }
    else if n == "struct"@ { SymbolKind::Struct }
    else if n == "trait"@ { SymbolKind::Trait }
    else if n == "interface"@ { SymbolKind::Interface }
    else if n == "method"@ { SymbolKind::Method }
    else if n == "module"@ { SymbolKind::Module }
    else if n == "constant"@ { SymbolKind::Constant }
    else if n == "enum"@ { SymbolKind::Enum }
    else if n == "type"@ { SymbolKind::Type }
    else if n == "constructor"@ { SymbolKind::Constructor }
    else if n == "destructor"@ { SymbolKind::Destructor }
    else if n == "getter"@ { SymbolKind::Getter }
    else if n == "setter"@ { SymbolKind::Setter }
    else if n == "property"@ { SymbolKind::Property }
    else if n == "event"@ { SymbolKind::Event }
    else if n == "delegate"@ { SymbolKind::Delegate }
    else if n == "namespace"@ { SymbolKind::Namespace }
    else { SymbolKind::Variable }
}

/// The symbol kind with the serialized name; any other name is a variable.
pub fn symbol_kind_named(n: &str) -> (k: SymbolKind)
    ensures
        k == symbol_kind_of(n@),
{
    if str_eq(n, "function") { SymbolKind::Function }
    else if str_eq(n, "class") { SymbolKind::Class }
    else if str_eq(n, "struct") { SymbolKind::Struct }
    else if str_eq(n, "trait") { SymbolKind::Trait }
    else if str_eq(n, "interface") { SymbolKind::Interface }
    else if str_eq(n, "method") { SymbolKind::Method }
    else if str_eq(n, "module") { SymbolKind::Module }
    else if str_eq(n, "constant") { SymbolKind::Constant }
    else if str_eq(n, "enum") { SymbolKind::Enum }
    else if str_eq(n, "type") { SymbolKind::Type }
    else if str_eq(n, "constructor") { SymbolKind::Constructor }
    else if str_eq(n, "destructor") { SymbolKind::Destructor }
    else if str_eq(n, "getter") { SymbolKind::Getter }
    else if str_eq(n, "setter") { SymbolKind::Setter }
    else if str_eq(n, "property") { SymbolKind::Property }
    else if str_eq(n, "event") { SymbolKind::Event }
    else if str_eq(n, "delegate") { SymbolKind::Delegate }
    else if str_eq(n, "namespace") { SymbolKind::Namespace }
    else { SymbolKind::Variable }
}

pub open spec fn import_kind_of(n: Seq<char>) -> ImportKind {
    if n == "namespace_import"@ { ImportKind::NamespaceImport }
    else if n == "default_import"@ { ImportKind::DefaultImport }
    else if n == "side_effect_import"@ { ImportKind::SideEffectImport }
    else if n == "rust_use"@ { ImportKind::RustUse }
    else if n == "go_import"@ { ImportKind::GoImport }
    else if n == "from_import"@ { ImportKind::FromImport }
    else if n == "python_import"@ { ImportKind::PythonImport }
    else if n == "java_import"@ { ImportKind::JavaImport }
    else if n == "kotlin_import"@ { ImportKind::KotlinImport }
    else if n == "swift_import"@ { ImportKind::SwiftImport }
    else if n == "re_export"@ { ImportKind::ReExport }
    else if n == "type_import"@ { ImportKind::TypeImport }
    else if n == "type_re_export"@ { ImportKind::TypeReExport }
    else { ImportKind::NamedImport }
}

/// The import kind with the serialized name; any other name is a named
/// import.
pub fn import_kind_named(n: &str) -> (k: ImportKind)
    ensures
        k == import_kind_of(n@),
{
    if str_eq(n, "namespace_import") { ImportKind::NamespaceImport }
    else if str_eq(n, "default_import") { ImportKind::DefaultImport }
    else if str_eq(n, "side_effect_import") { ImportKind::SideEffectImport }
    else if str_eq(n, "rust_use") { ImportKind::RustUse }
    else if str_eq(n, "go_import") { ImportKind::GoImport }
    else if str_eq(n, "from_import") { ImportKind::FromImport }
    else if str_eq(n, "python_import") { ImportKind::PythonImport }
    else if str_eq(n, "java_import") { ImportKind::JavaImport }
    else if str_eq(n, "kotlin_import") { ImportKind::KotlinImport }
    else if str_eq(n, "swift_import") { ImportKind::SwiftImport }
    else if str_eq(n, "re_export") { ImportKind::ReExport }
    else if str_eq(n, "type_import") { ImportKind::TypeImport }
    else if str_eq(n, "type_re_export") { ImportKind::TypeReExport }
    else { ImportKind::NamedImport }
}

pub open spec fn call_kind_of(n: Seq<char>) -> CallKind {
    if n == "method_call"@ { CallKind::MethodCall }
    else if n == "constructor_call"@ { CallKind::ConstructorCall }
    else if n == "path_call"@ { CallKind::PathCall }
    else if n == "selector_call"@ { CallKind::SelectorCall }
    else if n == "destructor_call"@ { CallKind::DestructorCall }
    else if n == "super_call"@ { CallKind::SuperCall }
    else if n == "delegate_call"@ { CallKind::DelegateCall }
    else { CallKind::FunctionCall }
}

/// The call kind with the serialized name; any other name is a function
/// call.
pub fn call_kind_named(n: &str) -> (k: CallKind)
    ensures
        k == call_kind_of(n@),
{
    if str_eq(n, "method_call") { CallKind::MethodCall }
    else if str_eq(n, "constructor_call") { CallKind::ConstructorCall }
    else if str_eq(n, "path_call") { CallKind::PathCall }
    else if str_eq(n, "selector_call") { CallKind::SelectorCall }
    else if str_eq(n, "destructor_call") { CallKind::DestructorCall }
    else if str_eq(n, "super_call") { CallKind::SuperCall }
    else if str_eq(n, "delegate_call") { CallKind::DelegateCall }
    else { CallKind::FunctionCall }
}

pub open spec fn var_kind_of(n: Seq<char>) -> VarKind {
    if n == "const"@ { VarKind::Const }
    else if n == "var"@ { VarKind::Var }
    else if n == "parameter"@ { VarKind::Parameter }
    else if n == "for_loop"@ { VarKind::ForLoop }
    else if n == "pattern"@ { VarKind::Pattern }
    else if n == "static"@ { VarKind::Static }
    else if n == "global"@ { VarKind::Global }
    else if n == "thread_local"@ { VarKind::ThreadLocal }
    else if n == "extern"@ { VarKind::Extern }
    else if n == "register"@ { VarKind::Register }
    else if n == "auto"@ { VarKind::Auto }
    else if n == "field"@ { VarKind::Field }
    else if n == "property"@ { VarKind::Property }
    else if n == "enum_member"@ { VarKind::EnumMember }
    else { VarKind::Let }
}

/// The variable kind with the serialized name; any other name is `let`.
pub fn var_kind_named(n: &str) -> (k: VarKind)
    ensures
        k == var_kind_of(n@),
{
    if str_eq(n, "const") { VarKind::Const }
    else if str_eq(n, "var") { VarKind::Var }
    else if str_eq(n, "parameter") { VarKind::Parameter }
    else if str_eq(n, "for_loop") { VarKind::ForLoop }
    else if str_eq(n, "pattern") { VarKind::Pattern }
    else if str_eq(n, "static") { VarKind::Static }
    else if str_eq(n, "global") { VarKind::Global }
    else if str_eq(n, "thread_local") { VarKind::ThreadLocal }
    else if str_eq(n, "extern") { VarKind::Extern }
    else if str_eq(n, "register") { VarKind::Register }
    else if str_eq(n, "auto") { VarKind::Auto }
    else if str_eq(n, "field") { VarKind::Field }
    else if str_eq(n, "property") { VarKind::Property }
    else if str_eq(n, "enum_member") { VarKind::EnumMember }
    else { VarKind::Let }
}

pub open spec fn usage_kind_of(n: Seq<char>) -> UsageKind {
    if n == "write"@ { UsageKind::Write }
    else if n == "move"@ { UsageKind::Move }
    else if n == "borrow"@ { UsageKind::Borrow }
    else if n == "borrow_mut"@ { UsageKind::BorrowMut }
    else if n == "passed_as_arg"@ { UsageKind::PassedAsArg }
    else { UsageKind::Read }
}

/// The usage kind with the serialized name; any other name is a read.
pub fn usage_kind_named(n: &str) -> (k: UsageKind)
    ensures
        k == usage_kind_of(n@),
{
    if str_eq(n, "write") { UsageKind::Write }
    else if str_eq(n, "move") { UsageKind::Move }
    else if str_eq(n, "borrow") { UsageKind::Borrow }
    else if str_eq(n, "borrow_mut") { UsageKind::BorrowMut }
    else if str_eq(n, "passed_as_arg") { UsageKind::PassedAsArg }
    else { UsageKind::Read }
}

pub open spec fn visibility_of(n: Seq<char>) -> Visibility {
    if n == "public"@ { Visibility::Public }
    else if n == "private"@ { Visibility::Private }
    else if n == "protected"@ { Visibility::Protected }
    else if n == "internal"@ { Visibility::Internal }
    else { Visibility::Unknown }
}

/// The visibility with the serialized name; any other name is unknown.
pub fn visibility_named(n: &str) -> (v: Visibility)
    ensures
        v == visibility_of(n@),
{
    if str_eq(n, "public") { Visibility::Public }
    else if str_eq(n, "private") { Visibility::Private }
    else if str_eq(n, "protected") { Visibility::Protected }
    else if str_eq(n, "internal") { Visibility::Internal }
    else { Visibility::Unknown }
}

/// The languages the native parser covers.
pub open spec fn native_language(lang: Seq<char>) -> bool {
    lang == "rust"@ || lang == "typescript"@ || lang == "javascript"@ || lang == "go"@ || lang == "python"@
        || lang == "c"@ || lang == "cpp"@ || lang == "csharp"@
}

/// Whether the native parser covers the language.
pub fn ripex_supports(lang: &str) -> (b: bool)
    ensures
        b == native_language(lang@),
{
    str_eq(lang, "rust") || str_eq(lang, "typescript") || str_eq(lang, "javascript") || str_eq(lang, "go") || str_eq(
        lang,
        "python",
    ) || str_eq(lang, "c") || str_eq(lang, "cpp") || str_eq(lang, "csharp")
}

// ── Stable order ───────────────────────────────────────────────────────

/// Items ordered by a key, where equal keys keep their order.
pub trait Keyed: Sized {
    /// The key of `self` is greater than the key of `other`.
    spec fn goes_after(&self, other: &Self) -> bool;

    fn is_after(&self, other: &Self) -> (b: bool)
        ensures
            b == self.goes_after(other);
}

/// Where an item goes among sorted items: before the first whose key is
/// greater.
pub open spec fn insert_pos<T: Keyed>(s: Seq<T>, x: T) -> int
    decreases s.len(),
{
    if s.len() == 0 {
        0
    } else if s[0].goes_after(&x) {
        0
    } else {
        1 + insert_pos(s.drop_first(), x)
    }
}

/// The items sorted by key, equal keys in their first order: each in turn
/// goes after all those before it whose key is not greater.
pub open spec fn stable_sorted<T: Keyed>(s: Seq<T>) -> Seq<T>
    decreases s.len(),
{
    if s.len() == 0 {
        Seq::empty()
    } else {
        let t = stable_sorted(s.drop_last());
        t.insert(insert_pos(t, s.last()), s.last())
    }
}

proof fn lemma_insert_pos_bound<T: Keyed>(s: Seq<T>, x: T)
    ensures
        0 <= insert_pos(s, x) <= s.len(),
    decreases s.len(),
{
    if s.len() > 0 && !s[0].goes_after(&x) {
        lemma_insert_pos_bound(s.drop_first(), x);
    }
}

proof fn lemma_sorted_len<T: Keyed>(s: Seq<T>)
    ensures
        stable_sorted(s).len() == s.len(),
    decreases s.len(),
{
    if s.len() > 0 {
        lemma_sorted_len(s.drop_last());
        lemma_insert_pos_bound(stable_sorted(s.drop_last()), s.last());
    }
}

/// Sorts the items by key, keeping the order of equal keys.
pub fn sort_stable<T: Keyed>(v: Vec<T>) -> (r: Vec<T>)
    ensures
        r@ == stable_sorted(v@),
{
    let ghost orig = v@;
    let _n = v.len();
    let mut tmp = reversed(v);
    let mut out: Vec<T> = Vec::new();
    let mut k: usize = 0;
    assert(orig.take(0) =~= Seq::<T>::empty());
    while tmp.len() > 0
        invariant
            k + tmp.len() == orig.len(),
            orig.len() <= usize::MAX,
            forall|j: int| 0 <= j < tmp.len() ==> #[trigger] tmp@[j] == orig[orig.len() - 1 - j],
            out@ == stable_sorted(orig.take(k as int)),
            out.len() == k,
        decreases tmp.len(),
    {
        let x = tmp.pop().unwrap();
        assert(x == orig[k as int]);
        assert(orig.take(k + 1).drop_last() =~= orig.take(k as int));
        let ghost o = out@;
        let mut j: usize = 0;
        assert(o.skip(0) =~= o);
        while j < out.len() && !out[j].is_after(&x)
            invariant
                j <= out.len(),
                out@ == o,
                insert_pos(o, x) == j + insert_pos(o.skip(j as int), x),
            decreases out.len() - j,
        {
            assert(o.skip(j as int)[0] == o[j as int]);
            assert(o.skip(j as int).drop_first() =~= o.skip(j + 1));
            j += 1;
        }
        proof {
            if j < out.len() {
                assert(o.skip(j as int)[0] == o[j as int]);
            } else {
                assert(o.skip(j as int) =~= Seq::<T>::empty());
            }
        }
        out.insert(j, x);
        proof {
            lemma_sorted_len(orig.take(k as int));
        }
        k += 1;
    }
    assert(orig.take(orig.len() as int) =~= orig);
    out
}


// ── Native facts ───────────────────────────────────────────────────────

/// A symbol of the native parser, its kinds by their serialized names and
/// the whole fact as data.
pub struct NativeSymbol {
    pub kind: String,
    pub name: String,
    pub exported: bool,
    pub visibility: String,
    pub line_start: usize,
    pub line_end: usize,
    pub signature: String,
    pub is_test: bool,
    pub is_async: bool,
    pub is_static: bool,
    pub return_type: Option<String>,
    pub doc_string: Option<String>,
    pub attributes: Vec<String>,
    pub base_classes: Vec<String>,
    pub data: serde_json::Value,
}

pub struct NativeImport {
    pub kind: String,
    pub source: String,
    pub local_name: Option<String>,
    pub imported_name: Option<String>,
    pub line: usize,
    pub data: serde_json::Value,
}

pub struct NativeCall {
    pub kind: String,
    pub callee_text: String,
    pub object: Option<String>,
    pub line: usize,
    pub column: usize,
    pub data: serde_json::Value,
}

pub struct NativeUsage {
    pub line: usize,
    pub column: usize,
    pub kind: String,
}

pub struct NativeVariable {
    pub kind: String,
    pub name: String,
    pub type_annotation: Option<String>,
    pub is_mutable: bool,
    pub line_def: usize,
    pub scope_symbol: Option<String>,
    pub scope_start: usize,
    pub scope_end: usize,
    pub usage_sites: Vec<NativeUsage>,
    pub data: serde_json::Value,
}

/// What the native parser extracted from one file.
pub struct NativeFacts {
    pub symbols: Vec<NativeSymbol>,
    pub imports: Vec<NativeImport>,
    pub calls: Vec<NativeCall>,
    pub variables: Vec<NativeVariable>,
    pub diagnostics: Vec<ParserDiagnostic>,
}

/// A converted symbol with its data and the relationships it declares.
pub struct SymbolEntry {
    pub fact: SymbolFact,
    pub data: serde_json::Value,
    pub impls: Vec<TypeImplFact>,
}

pub struct ImportEntry {
    pub fact: ImportFact,
    pub data: serde_json::Value,
}

pub struct CallEntry {
    pub fact: CallFact,
    pub data: serde_json::Value,
}

pub struct VariableEntry {
    pub fact: VariableFact,
    pub data: serde_json::Value,
}

impl Keyed for SymbolEntry {
    /// By first line, then by name.
    open spec fn goes_after(&self, other: &Self) -> bool {
        self.fact.line_start > other.fact.line_start || (self.fact.line_start == other.fact.line_start && lex_lt(
            other.fact.name@,
            self.fact.name@,
        ))
    }

    fn is_after(&self, other: &Self) -> (b: bool) {
        proof {
            crate::order::lemma_lex_total(self.fact.name@, other.fact.name@);
            crate::order::lemma_lex_asymmetric(self.fact.name@, other.fact.name@);
            crate::order::lemma_lex_irreflexive(self.fact.name@);
        }
        self.fact.line_start > other.fact.line_start || (self.fact.line_start == other.fact.line_start && compare_str(
            self.fact.name.as_str(),
            other.fact.name.as_str(),
        ) == 1)
    }
}

impl Keyed for ImportEntry {
    /// By line.
    open spec fn goes_after(&self, other: &Self) -> bool {
        self.fact.line > other.fact.line
    }

    fn is_after(&self, other: &Self) -> (b: bool) {
        self.fact.line > other.fact.line
    }
}

impl Keyed for CallEntry {
    /// By line, then by column.
    open spec fn goes_after(&self, other: &Self) -> bool {
        self.fact.line > other.fact.line || (self.fact.line == other.fact.line && self.fact.column > other.fact.column)
    }

    fn is_after(&self, other: &Self) -> (b: bool) {
        self.fact.line > other.fact.line || (self.fact.line == other.fact.line && self.fact.column > other.fact.column)
    }
}

impl Keyed for VariableEntry {
    /// By line of definition.
    open spec fn goes_after(&self, other: &Self) -> bool {
        self.fact.line_def > other.fact.line_def
    }

    fn is_after(&self, other: &Self) -> (b: bool) {
        self.fact.line_def > other.fact.line_def
    }
}


// ── Conversion ─────────────────────────────────────────────────────────

/// The relationship kind of a base class in the language.
pub open spec fn base_kind(lang: Seq<char>) -> ImplKind {
    if lang == "cpp"@ {
        ImplKind::CppInheritance
    } else if lang == "csharp"@ {
        ImplKind::CSharpInheritance
    } else {
        ImplKind::Extends
    }
}

/// The relationships a symbol declares with its base classes, numbered.
pub open spec fn base_impls(rel: Seq<char>, lang: Seq<char>, name: Seq<char>, line: usize, bases: Seq<Seq<char>>) -> Seq<
    TypeImplView,
> {
    bases.map(
        |i: int, b: Seq<char>|
            TypeImplView {
                id: "type-impl:"@ + rel + ":"@ + name + ":"@ + b + ":"@ + decimal(i as nat),
                file: rel,
                language: lang,
                implementing_type: name,
                trait_or_interface: b,
                line,
                kind: base_kind(lang),
            },
    )
}

pub open spec fn strings(v: Seq<String>) -> Seq<Seq<char>> {
    v.map_values(|s: String| s@)
}

/// A symbol entry converted from a native symbol.
pub open spec fn symbol_converted(n: NativeSymbol, rel: Seq<char>, lang: Seq<char>, e: SymbolEntry) -> bool {
    &&& e.fact@ == SymbolView {
        id: Seq::empty(),
        file: rel,
        language: lang,
        kind: symbol_kind_of(n.kind@),
        name: n.name@,
        exported: n.exported,
        line_start: n.line_start,
        line_end: n.line_end,
        visibility: visibility_of(n.visibility@),
        signature: n.signature@,
        is_test: n.is_test,
        usage_count: 0,
        doc_string: opt_str_view(n.doc_string),
        return_type: opt_str_view(n.return_type),
        is_async: n.is_async,
        is_static: n.is_static,
        attributes: strings(n.attributes@),
    }
    &&& e.data == n.data
    &&& views(e.impls@) == base_impls(rel, lang, n.name@, n.line_start, strings(n.base_classes@))
}

/// The confidence of a fact that only the syntax gives.
pub open spec fn native_confidence() -> ConfidenceScore {
    crate::codemap::score_spec(80, ResolutionMethod::SyntaxOnly)
}

pub open spec fn import_converted(n: NativeImport, rel: Seq<char>, lang: Seq<char>, e: ImportEntry) -> bool {
    &&& e.fact@ == ImportView {
        id: Seq::empty(),
        file: rel,
        language: lang,
        kind: import_kind_of(n.kind@),
        source: n.source@,
        local_name: opt_str_view(n.local_name),
        imported_name: opt_str_view(n.imported_name),
        resolved_file: None,
        line: n.line,
        confidence: native_confidence(),
    }
    &&& e.data == n.data
}

pub open spec fn call_converted(n: NativeCall, rel: Seq<char>, lang: Seq<char>, e: CallEntry) -> bool {
    &&& e.fact@ == CallView {
        id: Seq::empty(),
        file: rel,
        language: lang,
        kind: call_kind_of(n.kind@),
        caller_symbol: None,
        callee_text: n.callee_text@,
        object: opt_str_view(n.object),
        resolved_symbol: None,
        line: n.line,
        column: n.column,
        confidence: native_confidence(),
    }
    &&& e.data == n.data
}

pub open spec fn usages_converted(n: Seq<NativeUsage>, u: Seq<UsageSite>) -> bool {
    &&& u.len() == n.len()
    &&& forall|k: int| 0 <= k < n.len() ==> (#[trigger] u[k]).line == n[k].line && u[k].column == n[k].column
        && u[k].usage_kind == usage_kind_of(n[k].kind@)
}

pub open spec fn variable_converted(n: NativeVariable, rel: Seq<char>, lang: Seq<char>, e: VariableEntry) -> bool {
    &&& e.fact.id@ == Seq::<char>::empty()
    &&& e.fact.file@ == rel
    &&& e.fact.language@ == lang
    &&& e.fact.name@ == n.name@
    &&& e.fact.kind == var_kind_of(n.kind@)
    &&& opt_str_view(e.fact.type_annotation) == opt_str_view(n.type_annotation)
    &&& e.fact.is_mutable == n.is_mutable
    &&& e.fact.line_def == n.line_def
    &&& opt_str_view(e.fact.scope_symbol) == opt_str_view(n.scope_symbol)
    &&& e.fact.scope_start == n.scope_start
    &&& e.fact.scope_end == n.scope_end
    &&& usages_converted(n.usage_sites@, e.fact.usage_sites@)
    &&& e.data == n.data
}

fn copy_strings(v: &Vec<String>) -> (r: Vec<String>)
    ensures
        strings(r@) == strings(v@),
{
    let mut r: Vec<String> = Vec::new();
    let mut i: usize = 0;
    while i < v.len()
        invariant
            i <= v.len(),
            strings(r@) == strings(v@).take(i as int),
        decreases v.len() - i,
    {
        let ghost before = strings(r@);
        r.push(owned(v[i].as_str()));
        assert(strings(r@) =~= before.push(v@[i as int]@));
        assert(strings(v@).take(i + 1) =~= strings(v@).take(i as int).push(v@[i as int]@));
        i += 1;
    }
    assert(strings(v@).take(v.len() as int) =~= strings(v@));
    r
}

fn base_impl_facts(rel: &str, lang: &str, name: &str, line: usize, bases: &Vec<String>) -> (r: Vec<TypeImplFact>)
    ensures
        views(r@) == base_impls(rel@, lang@, name@, line, strings(bases@)),
{
    let kind = if str_eq(lang, "cpp") {
        ImplKind::CppInheritance
    } else if str_eq(lang, "csharp") {
        ImplKind::CSharpInheritance
    } else {
        ImplKind::Extends
    };
    let mut r: Vec<TypeImplFact> = Vec::new();
    let mut i: usize = 0;
    while i < bases.len()
        invariant
            i <= bases.len(),
            kind == base_kind(lang@),
            views(r@) == base_impls(rel@, lang@, name@, line, strings(bases@)).take(i as int),
        decreases bases.len() - i,
    {
        let b = bases[i].as_str();
        let mut id = owned("type-impl:");
        push_str(&mut id, rel);
        push_str(&mut id, ":");
        push_str(&mut id, name);
        push_str(&mut id, ":");
        push_str(&mut id, b);
        push_str(&mut id, ":");
        push_decimal(&mut id, i);
        let f = TypeImplFact {
            id,
            file: owned(rel),
            language: owned(lang),
            implementing_type: owned(name),
            trait_or_interface: owned(b),
            line,
            kind,
        };
        let ghost before = views(r@);
        r.push(f);
        assert(views(r@) =~= before.push(f@));
        assert(base_impls(rel@, lang@, name@, line, strings(bases@)).take(i + 1) =~= base_impls(
            rel@,
            lang@,
            name@,
            line,
            strings(bases@),
        ).take(i as int).push(f@));
        i += 1;
    }
    assert(base_impls(rel@, lang@, name@, line, strings(bases@)).take(bases.len() as int) =~= base_impls(
        rel@,
        lang@,
        name@,
        line,
        strings(bases@),
    ));
    r
}

/// Converts a native symbol.
pub fn convert_symbol(n: NativeSymbol, rel: &str, lang: &str) -> (e: SymbolEntry)
    ensures
        symbol_converted(n, rel@, lang@, e),
{
    let impls = base_impl_facts(rel, lang, n.name.as_str(), n.line_start, &n.base_classes);
    let attrs = copy_strings(&n.attributes);
    let ghost nv = n;
    let NativeSymbol {
        kind,
        name,
        exported,
        visibility,
        line_start,
        line_end,
        signature,
        is_test,
        is_async,
        is_static,
        return_type,
        doc_string,
        attributes,
        base_classes,
        data,
    } = n;
    let fact = SymbolFact {
        id: String::new(),
        file: owned(rel),
        language: owned(lang),
        kind: symbol_kind_named(kind.as_str()),
        name,
        exported,
        line_start,
        line_end,
        visibility: visibility_named(visibility.as_str()),
        signature,
        is_test,
        usage_count: 0,
        doc_string,
        return_type,
        is_async,
        is_static,
        attributes: attrs,
    };
    SymbolEntry { fact, data, impls }
}

/// Converts a native import: syntax alone gives it its confidence.
pub fn convert_import(n: NativeImport, rel: &str, lang: &str) -> (e: ImportEntry)
    ensures
        import_converted(n, rel@, lang@, e),
{
    let NativeImport { kind, source, local_name, imported_name, line, data } = n;
    let fact = ImportFact {
        id: String::new(),
        file: owned(rel),
        language: owned(lang),
        kind: import_kind_named(kind.as_str()),
        source,
        local_name,
        imported_name,
        resolved_file: None,
        line,
        confidence: ConfidenceScore::new(80, ResolutionMethod::SyntaxOnly),
    };
    ImportEntry { fact, data }
}

/// Converts a native call: syntax alone gives it its confidence.
pub fn convert_call(n: NativeCall, rel: &str, lang: &str) -> (e: CallEntry)
    ensures
        call_converted(n, rel@, lang@, e),
{
    let NativeCall { kind, callee_text, object, line, column, data } = n;
    let fact = CallFact {
        id: String::new(),
        file: owned(rel),
        language: owned(lang),
        kind: call_kind_named(kind.as_str()),
        caller_symbol: None,
        callee_text,
        object,
        resolved_symbol: None,
        line,
        column,
        confidence: ConfidenceScore::new(80, ResolutionMethod::SyntaxOnly),
    };
    CallEntry { fact, data }
}

/// Converts a native variable and its usage sites.
pub fn convert_variable(n: NativeVariable, rel: &str, lang: &str) -> (e: VariableEntry)
    ensures
        variable_converted(n, rel@, lang@, e),
{
    let mut usages: Vec<UsageSite> = Vec::new();
    let mut i: usize = 0;
    while i < n.usage_sites.len()
        invariant
            i <= n.usage_sites.len(),
            usages.len() == i,
            forall|k: int| 0 <= k < i ==> (#[trigger] usages@[k]).line == n.usage_sites@[k].line && usages@[k].column
                == n.usage_sites@[k].column && usages@[k].usage_kind == usage_kind_of(n.usage_sites@[k].kind@),
        decreases n.usage_sites.len() - i,
    {
        let u = &n.usage_sites[i];
        usages.push(UsageSite { line: u.line, column: u.column, usage_kind: usage_kind_named(u.kind.as_str()) });
        i += 1;
    }
    let ghost nv = n;
    let NativeVariable {
        kind,
        name,
        type_annotation,
        is_mutable,
        line_def,
        scope_symbol,
        scope_start,
        scope_end,
        usage_sites,
        data,
    } = n;
    let fact = VariableFact {
        id: String::new(),
        file: owned(rel),
        language: owned(lang),
        name,
        kind: var_kind_named(kind.as_str()),
        type_annotation,
        is_mutable,
        line_def,
        scope_symbol,
        scope_start,
        scope_end,
        usage_sites: usages,
    };
    VariableEntry { fact, data }
}


// ── The extraction of a file ───────────────────────────────────────────


pub open spec fn parser_fact_views(p: Seq<ParserFact>) -> Seq<(Seq<char>, ParserFactKind, serde_json::Value)> {
    p.map_values(|f: ParserFact| (f.id@, f.kind, f.data))
}

pub open spec fn symbol_data(rel: Seq<char>, s: Seq<SymbolEntry>) -> Seq<(Seq<char>, ParserFactKind, serde_json::Value)> {
    s.map(|i: int, e: SymbolEntry| (symbol_id(rel, e.fact.name@, e.fact.line_start, i), ParserFactKind::Symbol, e.data))
}

pub open spec fn import_data(rel: Seq<char>, s: Seq<ImportEntry>) -> Seq<(Seq<char>, ParserFactKind, serde_json::Value)> {
    s.map(|i: int, e: ImportEntry| (import_id(rel, i), ParserFactKind::Import, e.data))
}

pub open spec fn call_data(rel: Seq<char>, s: Seq<CallEntry>) -> Seq<(Seq<char>, ParserFactKind, serde_json::Value)> {
    s.map(|i: int, e: CallEntry| (call_id(rel, e.fact.line, i), ParserFactKind::Call, e.data))
}

pub open spec fn variable_data(rel: Seq<char>, s: Seq<VariableEntry>) -> Seq<(Seq<char>, ParserFactKind, serde_json::Value)> {
    s.map(|i: int, e: VariableEntry| (variable_id(rel, i), ParserFactKind::Variable, e.data))
}

/// The relationships of the symbols, symbol by symbol.
pub open spec fn entry_impls(s: Seq<SymbolEntry>) -> Seq<TypeImplView>
    decreases s.len(),
{
    if s.len() == 0 {
        Seq::empty()
    } else {
        entry_impls(s.drop_last()) + views(s.last().impls@)
    }
}

/// The native facts of one file as graph facts: each list ordered by
/// position (symbols by first line then name, imports by line, calls by
/// line then column, variables by line), keeping the order of ties; then
/// numbered as in the graph; each fact kept whole under its identifier,
/// symbols first, then imports, calls and variables.
pub open spec fn native_extracted(
    facts: NativeFacts,
    rel: Seq<char>,
    lang: Seq<char>,
    r: RipexExtraction,
    ss: Seq<SymbolEntry>,
    is: Seq<ImportEntry>,
    cs: Seq<CallEntry>,
    vs: Seq<VariableEntry>,
) -> bool {
    &&& ss.len() == facts.symbols@.len()
    &&& forall|k: int| 0 <= k < ss.len() ==> symbol_converted(facts.symbols@[k], rel, lang, #[trigger] ss[k])
    &&& is.len() == facts.imports@.len()
    &&& forall|k: int| 0 <= k < is.len() ==> import_converted(facts.imports@[k], rel, lang, #[trigger] is[k])
    &&& cs.len() == facts.calls@.len()
    &&& forall|k: int| 0 <= k < cs.len() ==> call_converted(facts.calls@[k], rel, lang, #[trigger] cs[k])
    &&& vs.len() == facts.variables@.len()
    &&& forall|k: int| 0 <= k < vs.len() ==> variable_converted(facts.variables@[k], rel, lang, #[trigger] vs[k])
    &&& symbol_views(r.symbols@) == symbols_with_ids(
        rel,
        stable_sorted(ss).map_values(|e: SymbolEntry| e.fact@),
    )
    &&& import_views(r.imports@) == imports_with_ids(
        rel,
        stable_sorted(is).map_values(|e: ImportEntry| e.fact@),
    )
    &&& crate::builder::call_views(r.calls@) == calls_with_ids(
        rel,
        stable_sorted(cs).map_values(|e: CallEntry| e.fact@),
    )
    &&& variables_numbered(rel, stable_sorted(vs).map_values(|e: VariableEntry| e.fact), r.variables@)
    &&& views(r.type_impls@) == entry_impls(stable_sorted(ss))
    &&& parser_fact_views(r.parser_facts@) == symbol_data(rel, stable_sorted(ss)) + import_data(rel, stable_sorted(is))
        + call_data(rel, stable_sorted(cs)) + variable_data(rel, stable_sorted(vs))
    &&& r.diagnostics == facts.diagnostics
}

fn push_fact(out: &mut Vec<ParserFact>, id: &str, kind: ParserFactKind, data: serde_json::Value)
    ensures
        parser_fact_views(final(out)@) == parser_fact_views(old(out)@).push((id@, kind, data)),
{
    let ghost before = parser_fact_views(out@);
    out.push(ParserFact { id: owned(id), kind, data });
    assert(parser_fact_views(out@) =~= before.push((id@, kind, data)));
}

/// Converts, orders and numbers the native facts of one file.
pub fn assemble_native(lang: &str, rel: &str, facts: NativeFacts) -> (r: RipexExtraction)
    ensures
        exists|ss: Seq<SymbolEntry>, is: Seq<ImportEntry>, cs: Seq<CallEntry>, vs: Seq<VariableEntry>|
            #[trigger] native_extracted(facts, rel@, lang@, r, ss, is, cs, vs),
{
    let ghost fv = facts;
    let NativeFacts { symbols, imports, calls, variables, diagnostics } = facts;
    // Symbols.
    let ghost sv = symbols@;
    let _n = symbols.len();
    let mut tmp = reversed(symbols);
    let mut ses: Vec<SymbolEntry> = Vec::new();
    while tmp.len() > 0
        invariant
            ses.len() + tmp.len() == sv.len(),
            sv.len() <= usize::MAX,
            forall|j: int| 0 <= j < tmp.len() ==> #[trigger] tmp@[j] == sv[sv.len() - 1 - j],
            forall|k: int| 0 <= k < ses.len() ==> symbol_converted(sv[k], rel@, lang@, #[trigger] ses@[k]),
        decreases tmp.len(),
    {
        let k = ses.len();
        let n = tmp.pop().unwrap();
        assert(n == sv[k as int]);
        ses.push(convert_symbol(n, rel, lang));
    }
    let ghost ss = ses@;
    // Imports.
    let ghost iv = imports@;
    let _n = imports.len();
    let mut tmp = reversed(imports);
    let mut ies: Vec<ImportEntry> = Vec::new();
    while tmp.len() > 0
        invariant
            ies.len() + tmp.len() == iv.len(),
            iv.len() <= usize::MAX,
            forall|j: int| 0 <= j < tmp.len() ==> #[trigger] tmp@[j] == iv[iv.len() - 1 - j],
            forall|k: int| 0 <= k < ies.len() ==> import_converted(iv[k], rel@, lang@, #[trigger] ies@[k]),
        decreases tmp.len(),
    {
        let k = ies.len();
        let n = tmp.pop().unwrap();
        assert(n == iv[k as int]);
        ies.push(convert_import(n, rel, lang));
    }
    let ghost is = ies@;
    // Calls.
    let ghost cv = calls@;
    let _n = calls.len();
    let mut tmp = reversed(calls);
    let mut ces: Vec<CallEntry> = Vec::new();
    while tmp.len() > 0
        invariant
            ces.len() + tmp.len() == cv.len(),
            cv.len() <= usize::MAX,
            forall|j: int| 0 <= j < tmp.len() ==> #[trigger] tmp@[j] == cv[cv.len() - 1 - j],
            forall|k: int| 0 <= k < ces.len() ==> call_converted(cv[k], rel@, lang@, #[trigger] ces@[k]),
        decreases tmp.len(),
    {
        let k = ces.len();
        let n = tmp.pop().unwrap();
        assert(n == cv[k as int]);
        ces.push(convert_call(n, rel, lang));
    }
    let ghost cs = ces@;
    // Variables.
    let ghost vv = variables@;
    let _n = variables.len();
    let mut tmp = reversed(variables);
    let mut ves: Vec<VariableEntry> = Vec::new();
    while tmp.len() > 0
        invariant
            ves.len() + tmp.len() == vv.len(),
            vv.len() <= usize::MAX,
            forall|j: int| 0 <= j < tmp.len() ==> #[trigger] tmp@[j] == vv[vv.len() - 1 - j],
            forall|k: int| 0 <= k < ves.len() ==> variable_converted(vv[k], rel@, lang@, #[trigger] ves@[k]),
        decreases tmp.len(),
    {
        let k = ves.len();
        let n = tmp.pop().unwrap();
        assert(n == vv[k as int]);
        ves.push(convert_variable(n, rel, lang));
    }
    let ghost vs = ves@;
    let sorted_s = sort_stable(ses);
    let sorted_i = sort_stable(ies);
    let sorted_c = sort_stable(ces);
    let sorted_v = sort_stable(ves);
    let mut parser_facts: Vec<ParserFact> = Vec::new();
    let mut type_impls: Vec<TypeImplFact> = Vec::new();
    // Symbols, named.
    let ghost so = sorted_s@;
    let _n = sorted_s.len();
    let mut tmp = reversed(sorted_s);
    let mut out_s: Vec<SymbolFact> = Vec::new();
    assert(so.take(0) =~= Seq::<SymbolEntry>::empty());
    while tmp.len() > 0
        invariant
            out_s.len() + tmp.len() == so.len(),
            so.len() <= usize::MAX,
            forall|j: int| 0 <= j < tmp.len() ==> #[trigger] tmp@[j] == so[so.len() - 1 - j],
            symbol_views(out_s@) == symbols_with_ids(rel@, so.map_values(|e: SymbolEntry| e.fact@)).take(out_s.len() as int),
            views(type_impls@) == entry_impls(so.take(out_s.len() as int)),
            parser_fact_views(parser_facts@) == symbol_data(rel@, so.take(out_s.len() as int)),
        decreases tmp.len(),
    {
        let k = out_s.len();
        let SymbolEntry { fact, data, impls } = tmp.pop().unwrap();
        let ghost e = so[k as int];
        assert(fact == e.fact && data == e.data && impls == e.impls);
        let mut f = fact;
        let mut id = owned("symbol:");
        push_str(&mut id, rel);
        push_str(&mut id, ":");
        push_str(&mut id, f.name.as_str());
        push_str(&mut id, ":");
        push_decimal(&mut id, f.line_start);
        push_str(&mut id, ":");
        push_decimal(&mut id, k);
        push_fact(&mut parser_facts, id.as_str(), ParserFactKind::Symbol, data);
        f.id = id;
        let ghost before = symbol_views(out_s@);
        out_s.push(f);
        let mut im = impls;
        type_impls.append(&mut im);
        proof {
            assert(so.take(k + 1).drop_last() =~= so.take(k as int));
            assert(symbol_views(out_s@) =~= before.push(f@));
            assert(symbols_with_ids(rel@, so.map_values(|e: SymbolEntry| e.fact@)).take(k + 1) =~= symbols_with_ids(
                rel@,
                so.map_values(|e: SymbolEntry| e.fact@),
            ).take(k as int).push(f@));
            assert(symbol_data(rel@, so.take(k + 1)) =~= symbol_data(rel@, so.take(k as int)).push(
                (symbol_id(rel@, e.fact.name@, e.fact.line_start, k as int), ParserFactKind::Symbol, e.data),
            ));
        }
    }
    assert(so.take(so.len() as int) =~= so);
    assert(symbols_with_ids(rel@, so.map_values(|e: SymbolEntry| e.fact@)).take(so.len() as int) =~= symbols_with_ids(
        rel@,
        so.map_values(|e: SymbolEntry| e.fact@),
    ));
    let ghost pf1 = parser_fact_views(parser_facts@);
    // Imports, numbered.
    let ghost io = sorted_i@;
    let _n = sorted_i.len();
    let mut tmp = reversed(sorted_i);
    let mut out_i: Vec<ImportFact> = Vec::new();
    assert(io.take(0) =~= Seq::<ImportEntry>::empty());
    while tmp.len() > 0
        invariant
            out_i.len() + tmp.len() == io.len(),
            io.len() <= usize::MAX,
            forall|j: int| 0 <= j < tmp.len() ==> #[trigger] tmp@[j] == io[io.len() - 1 - j],
            import_views(out_i@) == imports_with_ids(rel@, io.map_values(|e: ImportEntry| e.fact@)).take(out_i.len() as int),
            parser_fact_views(parser_facts@) == pf1 + import_data(rel@, io).take(out_i.len() as int),
        decreases tmp.len(),
    {
        let k = out_i.len();
        let ImportEntry { fact, data } = tmp.pop().unwrap();
        let ghost e = io[k as int];
        assert(fact == e.fact && data == e.data);
        let mut f = fact;
        let mut id = owned("import:");
        push_str(&mut id, rel);
        push_str(&mut id, ":");
        push_decimal(&mut id, k);
        push_fact(&mut parser_facts, id.as_str(), ParserFactKind::Import, data);
        f.id = id;
        let ghost before = import_views(out_i@);
        out_i.push(f);
        proof {
            assert(import_views(out_i@) =~= before.push(f@));
            assert(imports_with_ids(rel@, io.map_values(|e: ImportEntry| e.fact@)).take(k + 1) =~= imports_with_ids(
                rel@,
                io.map_values(|e: ImportEntry| e.fact@),
            ).take(k as int).push(f@));
            assert(import_data(rel@, io).take(k + 1) =~= import_data(rel@, io).take(k as int).push(
                (import_id(rel@, k as int), ParserFactKind::Import, e.data),
            ));
        }
    }
    assert(imports_with_ids(rel@, io.map_values(|e: ImportEntry| e.fact@)).take(io.len() as int) =~= imports_with_ids(
        rel@,
        io.map_values(|e: ImportEntry| e.fact@),
    ));
    assert(import_data(rel@, io).take(io.len() as int) =~= import_data(rel@, io));
    let ghost pf2 = parser_fact_views(parser_facts@);
    // Calls, numbered.
    let ghost co = sorted_c@;
    let _n = sorted_c.len();
    let mut tmp = reversed(sorted_c);
    let mut out_c: Vec<CallFact> = Vec::new();
    while tmp.len() > 0
        invariant
            out_c.len() + tmp.len() == co.len(),
            co.len() <= usize::MAX,
            forall|j: int| 0 <= j < tmp.len() ==> #[trigger] tmp@[j] == co[co.len() - 1 - j],
            crate::builder::call_views(out_c@) == calls_with_ids(rel@, co.map_values(|e: CallEntry| e.fact@)).take(
                out_c.len() as int,
            ),
            parser_fact_views(parser_facts@) == pf2 + call_data(rel@, co).take(out_c.len() as int),
        decreases tmp.len(),
    {
        let k = out_c.len();
        let CallEntry { fact, data } = tmp.pop().unwrap();
        let ghost e = co[k as int];
        assert(fact == e.fact && data == e.data);
        let mut f = fact;
        let mut id = owned("call:");
        push_str(&mut id, rel);
        push_str(&mut id, ":");
        push_decimal(&mut id, f.line);
        push_str(&mut id, ":");
        push_decimal(&mut id, k);
        push_fact(&mut parser_facts, id.as_str(), ParserFactKind::Call, data);
        f.id = id;
        let ghost before = crate::builder::call_views(out_c@);
        out_c.push(f);
        proof {
            assert(crate::builder::call_views(out_c@) =~= before.push(f@));
            assert(calls_with_ids(rel@, co.map_values(|e: CallEntry| e.fact@)).take(k + 1) =~= calls_with_ids(
                rel@,
                co.map_values(|e: CallEntry| e.fact@),
            ).take(k as int).push(f@));
            assert(call_data(rel@, co).take(k + 1) =~= call_data(rel@, co).take(k as int).push(
                (call_id(rel@, e.fact.line, k as int), ParserFactKind::Call, e.data),
            ));
        }
    }
    assert(calls_with_ids(rel@, co.map_values(|e: CallEntry| e.fact@)).take(co.len() as int) =~= calls_with_ids(
        rel@,
        co.map_values(|e: CallEntry| e.fact@),
    ));
    assert(call_data(rel@, co).take(co.len() as int) =~= call_data(rel@, co));
    let ghost pf3 = parser_fact_views(parser_facts@);
    // Variables, numbered.
    let ghost vo = sorted_v@;
    let _n = sorted_v.len();
    let mut tmp = reversed(sorted_v);
    let mut out_v: Vec<VariableFact> = Vec::new();
    while tmp.len() > 0
        invariant
            out_v.len() + tmp.len() == vo.len(),
            vo.len() <= usize::MAX,
            forall|j: int| 0 <= j < tmp.len() ==> #[trigger] tmp@[j] == vo[vo.len() - 1 - j],
            forall|k: int| 0 <= k < out_v.len() ==> (#[trigger] out_v@[k]).id@ == variable_id(rel@, k) && out_v@[k].file
                == vo[k].fact.file && out_v@[k].language == vo[k].fact.language && out_v@[k].name == vo[k].fact.name
                && out_v@[k].kind == vo[k].fact.kind && out_v@[k].type_annotation == vo[k].fact.type_annotation
                && out_v@[k].is_mutable == vo[k].fact.is_mutable && out_v@[k].line_def == vo[k].fact.line_def
                && out_v@[k].scope_symbol == vo[k].fact.scope_symbol && out_v@[k].scope_start == vo[k].fact.scope_start
                && out_v@[k].scope_end == vo[k].fact.scope_end && out_v@[k].usage_sites == vo[k].fact.usage_sites,
            parser_fact_views(parser_facts@) == pf3 + variable_data(rel@, vo).take(out_v.len() as int),
        decreases tmp.len(),
    {
        let k = out_v.len();
        let VariableEntry { fact, data } = tmp.pop().unwrap();
        let ghost e = vo[k as int];
        assert(fact == e.fact && data == e.data);
        let mut f = fact;
        let mut id = owned("var:");
        push_str(&mut id, rel);
        push_str(&mut id, ":");
        push_decimal(&mut id, k);
        push_fact(&mut parser_facts, id.as_str(), ParserFactKind::Variable, data);
        f.id = id;
        out_v.push(f);
        proof {
            assert(variable_data(rel@, vo).take(k + 1) =~= variable_data(rel@, vo).take(k as int).push(
                (variable_id(rel@, k as int), ParserFactKind::Variable, e.data),
            ));
        }
    }
    assert(variable_data(rel@, vo).take(vo.len() as int) =~= variable_data(rel@, vo));
    let r = RipexExtraction {
        symbols: out_s,
        imports: out_i,
        calls: out_c,
        variables: out_v,
        type_impls,
        parser_facts,
        diagnostics,
    };
    assert(native_extracted(fv, rel@, lang@, r, ss, is, cs, vs));
    r
}

} // verus!
