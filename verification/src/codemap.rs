//! The code graph's model: kinds of symbols, calls, edges and variables,
//! the facts a file yields, and the indexes for lookups.
use vstd::prelude::*;
use vstd::hash_map::StringHashMap;
use vstd::hash_set::StringHashSet;
use crate::text::{
    decimal, push_decimal, push_str, all_ascii, ascii_lower, byte_len, chars_of, find_from, first_match_from, is_prefix, owned, starts_with,
    str_eq, to_lowercase, unicode_lowercase,
};

verus! {

/// Label for a range of confidence percentages.
#[derive(Debug, Clone, Copy, PartialEq, Eq, Structural)]
pub enum ConfidenceLabel {
    /// 95 to 100 %.
    Exact,
    /// 80 to 94 %.
    High,
    /// 60 to 79 %.
    Medium,
    /// 35 to 59 %.
    Low,
    /// 1 to 34 %.
    Weak,
    /// 0 %: unresolved.
    Unresolved,
}

/// Method used to resolve a symbol or import reference.
#[derive(Debug, Clone, Copy, PartialEq, Eq, Structural)]
pub enum ResolutionMethod {
    LocalDefinition,
    NamedImportExactExport,
    DefaultImportExactExport,
    NamespaceImportMember,
    RustUseExactPath,
    GoPackageSelector,
    PythonFromImport,
    PythonModuleAlias,
    SameFileSymbol,
    ModulePublicSymbol,
    PathMatchOnly,
    NameMatchSameProject,
    FuzzySymbolMatch,
    ExternalDependency,
    SyntaxOnly,
    Unresolved,
}

/// The label of a confidence score, given its whole percentage (the score
/// cut to an integer).
pub open spec fn label_spec(percent: u32) -> ConfidenceLabel {
    if 95 <= percent <= 100 {
        ConfidenceLabel::Exact
    } else if 80 <= percent <= 94 {
        ConfidenceLabel::High
    } else if 60 <= percent <= 79 {
        ConfidenceLabel::Medium
    } else if 35 <= percent <= 59 {
        ConfidenceLabel::Low
    } else if 1 <= percent <= 34 {
        ConfidenceLabel::Weak
    } else {
        ConfidenceLabel::Unresolved
    }
}

pub fn confidence_label(percent: u32) -> (l: ConfidenceLabel)
    ensures
        l == label_spec(percent),
{
    if 95 <= percent && percent <= 100 {
        ConfidenceLabel::Exact
    } else if 80 <= percent && percent <= 94 {
        ConfidenceLabel::High
    } else if 60 <= percent && percent <= 79 {
        ConfidenceLabel::Medium
    } else if 35 <= percent && percent <= 59 {
        ConfidenceLabel::Low
    } else if 1 <= percent && percent <= 34 {
        ConfidenceLabel::Weak
    } else {
        ConfidenceLabel::Unresolved
    }
}

/// How sure a resolution is: a whole percentage, its label, and the method
/// that found it.
#[derive(Debug, Clone, Copy, PartialEq, Eq, Structural)]
pub struct ConfidenceScore {
    pub percent: u32,
    pub label: ConfidenceLabel,
    pub method: ResolutionMethod,
}

/// A score of `percent`, kept to 100 at most and labelled after that, by
/// `method`.
pub open spec fn score_spec(percent: u32, method: ResolutionMethod) -> ConfidenceScore {
    let p: u32 = if percent > 100 { 100 } else { percent };
    ConfidenceScore { percent: p, label: label_spec(p), method }
}

/// The score of no resolution.
pub open spec fn unresolved_score() -> ConfidenceScore {
    score_spec(0, ResolutionMethod::Unresolved)
}

/// The lowercase name of a label.
pub open spec fn label_name(l: ConfidenceLabel) -> Seq<char> {
    match l {
        ConfidenceLabel::Exact => "exact"@,
        ConfidenceLabel::High => "high"@,
        ConfidenceLabel::Medium => "medium"@,
        ConfidenceLabel::Low => "low"@,
        ConfidenceLabel::Weak => "weak"@,
        ConfidenceLabel::Unresolved => "unresolved"@,
    }
}

impl ConfidenceScore {
    pub fn new(percent: u32, method: ResolutionMethod) -> (c: ConfidenceScore)
        ensures
            c == score_spec(percent, method),
    {
        let p: u32 = if percent > 100 { 100 } else { percent };
        ConfidenceScore { percent: p, label: confidence_label(p), method }
    }

    /// No resolution: 0 %.
    pub fn unresolved() -> (c: ConfidenceScore)
        ensures
            c == score_spec(0, ResolutionMethod::Unresolved),
    {
        ConfidenceScore { percent: 0, label: ConfidenceLabel::Unresolved, method: ResolutionMethod::Unresolved }
    }

    /// A local definition: 98 %.
    pub fn local_definition() -> (c: ConfidenceScore)
        ensures
            c == score_spec(98, ResolutionMethod::LocalDefinition),
    {
        ConfidenceScore::new(98, ResolutionMethod::LocalDefinition)
    }

    /// A named import of an exact export: 95 %.
    pub fn named_import_exact() -> (c: ConfidenceScore)
        ensures
            c == score_spec(95, ResolutionMethod::NamedImportExactExport),
    {
        ConfidenceScore::new(95, ResolutionMethod::NamedImportExactExport)
    }

    /// A default import of an exact export: 88 %.
    pub fn default_import_exact() -> (c: ConfidenceScore)
        ensures
            c == score_spec(88, ResolutionMethod::DefaultImportExactExport),
    {
        ConfidenceScore::new(88, ResolutionMethod::DefaultImportExactExport)
    }

    /// A member of a namespace import: 93 %.
    pub fn namespace_import() -> (c: ConfidenceScore)
        ensures
            c == score_spec(93, ResolutionMethod::NamespaceImportMember),
    {
        ConfidenceScore::new(93, ResolutionMethod::NamespaceImportMember)
    }

    /// A Rust `use` path: 95 %.
    pub fn rust_use_path() -> (c: ConfidenceScore)
        ensures
            c == score_spec(95, ResolutionMethod::RustUseExactPath),
    {
        ConfidenceScore::new(95, ResolutionMethod::RustUseExactPath)
    }

    /// A Go package selector: 88 %.
    pub fn go_package() -> (c: ConfidenceScore)
        ensures
            c == score_spec(88, ResolutionMethod::GoPackageSelector),
    {
        ConfidenceScore::new(88, ResolutionMethod::GoPackageSelector)
    }

    /// A Python `from` import: 85 %.
    pub fn python_from() -> (c: ConfidenceScore)
        ensures
            c == score_spec(85, ResolutionMethod::PythonFromImport),
    {
        ConfidenceScore::new(85, ResolutionMethod::PythonFromImport)
    }

    /// A name match within the project: 40 %.
    pub fn same_project() -> (c: ConfidenceScore)
        ensures
            c == score_spec(40, ResolutionMethod::NameMatchSameProject),
    {
        ConfidenceScore::new(40, ResolutionMethod::NameMatchSameProject)
    }

    /// A match by path only: 60 %.
    pub fn path_match_only() -> (c: ConfidenceScore)
        ensures
            c == score_spec(60, ResolutionMethod::PathMatchOnly),
    {
        ConfidenceScore::new(60, ResolutionMethod::PathMatchOnly)
    }

    /// Syntax only: 10 %.
    pub fn syntax_only() -> (c: ConfidenceScore)
        ensures
            c == score_spec(10, ResolutionMethod::SyntaxOnly),
    {
        ConfidenceScore::new(10, ResolutionMethod::SyntaxOnly)
    }

    /// Whether the score stands for a resolved reference.
    pub fn is_resolved(&self) -> (b: bool)
        ensures
            b == (self.percent > 0),
    {
        self.percent > 0
    }

    /// The score as text: the percentage, `%`, and the label in brackets,
    /// such as `95% (exact)`.
    pub fn display(&self) -> (s: String)
        ensures
            s@ == decimal(self.percent as nat) + "% ("@ + label_name(self.label) + ")"@,
    {
        let mut s = String::new();
        push_decimal(&mut s, self.percent as usize);
        push_str(&mut s, "% (");
        let name = match self.label {
            ConfidenceLabel::Exact => "exact",
            ConfidenceLabel::High => "high",
            ConfidenceLabel::Medium => "medium",
            ConfidenceLabel::Low => "low",
            ConfidenceLabel::Weak => "weak",
            ConfidenceLabel::Unresolved => "unresolved",
        };
        push_str(&mut s, name);
        push_str(&mut s, ")");
        s
    }
}

impl Default for ConfidenceScore {
    /// Unresolved.
    fn default() -> (c: ConfidenceScore)
        ensures
            c == score_spec(0, ResolutionMethod::Unresolved),
    {
        ConfidenceScore::unresolved()
    }
}

/// The score a legacy confidence level stands for.
pub open spec fn from_confidence(c: Confidence) -> ConfidenceScore {
    match c {
        Confidence::High => score_spec(85, ResolutionMethod::PathMatchOnly),
        Confidence::Medium => score_spec(65, ResolutionMethod::PathMatchOnly),
        Confidence::Low => score_spec(40, ResolutionMethod::FuzzySymbolMatch),
        Confidence::Unknown => score_spec(0, ResolutionMethod::Unresolved),
    }
}

impl From<Confidence> for ConfidenceScore {
    fn from(c: Confidence) -> (r: ConfidenceScore) {
        match c {
            Confidence::High => ConfidenceScore::new(85, ResolutionMethod::PathMatchOnly),
            Confidence::Medium => ConfidenceScore::new(65, ResolutionMethod::PathMatchOnly),
            Confidence::Low => ConfidenceScore::new(40, ResolutionMethod::FuzzySymbolMatch),
            Confidence::Unknown => ConfidenceScore::unresolved(),
        }
    }
}

impl vstd::std_specs::convert::FromSpecImpl<Confidence> for ConfidenceScore {
    open spec fn obeys_from_spec() -> bool {
        true
    }

    open spec fn from_spec(c: Confidence) -> ConfidenceScore {
        from_confidence(c)
    }
}

/// Backward-compatible confidence levels.
#[derive(Debug, Clone, Copy, PartialEq, Eq, Structural)]
pub enum Confidence {
    High,
    Medium,
    Low,
    Unknown,
}

/// Classification of import statements across languages.
#[derive(Debug, Clone, Copy, PartialEq, Eq, Structural)]
pub enum ImportKind {
    NamedImport,
    NamespaceImport,
    DefaultImport,
    SideEffectImport,
    RustUse,
    GoImport,
    FromImport,
    PythonImport,
    JavaImport,
    KotlinImport,
    SwiftImport,
    ReExport,
    TypeImport,
    TypeReExport,
}

/// Classification of code symbols.
#[derive(Debug, Clone, Copy, PartialEq, Eq, Structural)]
pub enum SymbolKind {
    Function,
    Class,
    Struct,
    Trait,
    Interface,
    Method,
    Module,
    Constant,
    Enum,
    Type,
    Variable,
    Constructor,
    Destructor,
    Getter,
    Setter,
    Property,
    Event,
    Delegate,
    Namespace,
}

/// The lowercase name of a symbol kind.
pub open spec fn symbol_kind_name(k: SymbolKind) -> Seq<char> {
    match k {
        SymbolKind::Function => "function"@,
        SymbolKind::Class => "class"@,
        SymbolKind::Struct => "struct"@,
        SymbolKind::Trait => "trait"@,
        SymbolKind::Interface => "interface"@,
        SymbolKind::Method => "method"@,
        SymbolKind::Module => "module"@,
        SymbolKind::Constant => "constant"@,
        SymbolKind::Enum => "enum"@,
        SymbolKind::Type => "type"@,
        SymbolKind::Variable => "variable"@,
        SymbolKind::Constructor => "constructor"@,
        SymbolKind::Destructor => "destructor"@,
        SymbolKind::Getter => "getter"@,
        SymbolKind::Setter => "setter"@,
        SymbolKind::Property => "property"@,
        SymbolKind::Event => "event"@,
        SymbolKind::Delegate => "delegate"@,
        SymbolKind::Namespace => "namespace"@,
    }
}

impl SymbolKind {
    /// The kind's display name.
    pub fn name(&self) -> (s: &'static str)
        ensures
            s@ == symbol_kind_name(*self),
    {
        match self {
            SymbolKind::Function => "function",
            SymbolKind::Class => "class",
            SymbolKind::Struct => "struct",
            SymbolKind::Trait => "trait",
            SymbolKind::Interface => "interface",
            SymbolKind::Method => "method",
            SymbolKind::Module => "module",
            SymbolKind::Constant => "constant",
            SymbolKind::Enum => "enum",
            SymbolKind::Type => "type",
            SymbolKind::Variable => "variable",
            SymbolKind::Constructor => "constructor",
            SymbolKind::Destructor => "destructor",
            SymbolKind::Getter => "getter",
            SymbolKind::Setter => "setter",
            SymbolKind::Property => "property",
            SymbolKind::Event => "event",
            SymbolKind::Delegate => "delegate",
            SymbolKind::Namespace => "namespace",
        }
    }
}

/// Visibility of a symbol.
#[derive(Debug, Clone, Copy, PartialEq, Eq, Structural)]
pub enum Visibility {
    Public,
    Private,
    Protected,
    Internal,
    Unknown,
}

/// Classification of call sites.
#[derive(Debug, Clone, Copy, PartialEq, Eq, Structural)]
pub enum CallKind {
    FunctionCall,
    MethodCall,
    ConstructorCall,
    PathCall,
    SelectorCall,
    DestructorCall,
    SuperCall,
    DelegateCall,
}

/// Relationship between two nodes of the code graph.
#[derive(Debug, Clone, Copy, PartialEq, Eq, Structural)]
pub enum CodeEdgeType {
    Contains,
    Imports,
    Exports,
    Calls,
    Implements,
    Extends,
    References,
    DefinedIn,
}

/// A code symbol extracted from source.
#[derive(Debug, Clone)]
pub struct SymbolFact {
    pub id: String,
    pub file: String,
    pub language: String,
    pub kind: SymbolKind,
    pub name: String,
    pub exported: bool,
    pub line_start: usize,
    pub line_end: usize,
    pub visibility: Visibility,
    pub signature: String,
    pub is_test: bool,
    pub usage_count: usize,
    pub doc_string: Option<String>,
    pub return_type: Option<String>,
    pub is_async: bool,
    pub is_static: bool,
    pub attributes: Vec<String>,
}

impl Default for SymbolFact {
    /// An empty function symbol of unknown visibility.
    fn default() -> (s: SymbolFact)
        ensures
            s.id@.len() == 0 && s.file@.len() == 0 && s.language@.len() == 0 && s.name@.len() == 0,
            s.kind == SymbolKind::Function && s.visibility == Visibility::Unknown,
            !s.exported && s.line_start == 0 && s.line_end == 0 && s.signature@.len() == 0,
            !s.is_test && s.usage_count == 0 && s.doc_string is None && s.return_type is None,
            !s.is_async && !s.is_static && s.attributes@.len() == 0,
    {
        SymbolFact {
            id: String::new(),
            file: String::new(),
            language: String::new(),
            kind: SymbolKind::Function,
            name: String::new(),
            exported: false,
            line_start: 0,
            line_end: 0,
            visibility: Visibility::Unknown,
            signature: String::new(),
            is_test: false,
            usage_count: 0,
            doc_string: None,
            return_type: None,
            is_async: false,
            is_static: false,
            attributes: Vec::new(),
        }
    }
}

/// The mathematical content of a [`SymbolFact`].
pub struct SymbolView {
    pub id: Seq<char>,
    pub file: Seq<char>,
    pub language: Seq<char>,
    pub kind: SymbolKind,
    pub name: Seq<char>,
    pub exported: bool,
    pub line_start: usize,
    pub line_end: usize,
    pub visibility: Visibility,
    pub signature: Seq<char>,
    pub is_test: bool,
    pub usage_count: usize,
    pub doc_string: Option<Seq<char>>,
    pub return_type: Option<Seq<char>>,
    pub is_async: bool,
    pub is_static: bool,
    pub attributes: Seq<Seq<char>>,
}

pub open spec fn opt_str_view(o: Option<String>) -> Option<Seq<char>> {
    match o {
        Some(s) => Some(s@),
        None => None,
    }
}

impl View for SymbolFact {
    type V = SymbolView;

    open spec fn view(&self) -> SymbolView {
        SymbolView {
            id: self.id@,
            file: self.file@,
            language: self.language@,
            kind: self.kind,
            name: self.name@,
            exported: self.exported,
            line_start: self.line_start,
            line_end: self.line_end,
            visibility: self.visibility,
            signature: self.signature@,
            is_test: self.is_test,
            usage_count: self.usage_count,
            doc_string: opt_str_view(self.doc_string),
            return_type: opt_str_view(self.return_type),
            is_async: self.is_async,
            is_static: self.is_static,
            attributes: self.attributes@.map_values(|a: String| a@),
        }
    }
}

pub open spec fn symbol_views(s: Seq<SymbolFact>) -> Seq<SymbolView> {
    s.map_values(|f: SymbolFact| f@)
}

/// A symbol as the syntax states it, before any resolution: no identifier,
/// signature or documentation beyond what is given, not a test, unused.
pub open spec fn syntax_symbol(
    file: Seq<char>,
    language: Seq<char>,
    kind: SymbolKind,
    name: Seq<char>,
    exported: bool,
    line_start: usize,
    line_end: usize,
    visibility: Visibility,
    signature: Seq<char>,
) -> SymbolView {
    SymbolView {
        id: Seq::empty(),
        file,
        language,
        kind,
        name,
        exported,
        line_start,
        line_end,
        visibility,
        signature,
        is_test: false,
        usage_count: 0,
        doc_string: None,
        return_type: None,
        is_async: false,
        is_static: false,
        attributes: Seq::empty(),
    }
}

/// A new symbol as the syntax states it.
pub fn new_symbol(
    file: &str,
    language: &str,
    kind: SymbolKind,
    name: String,
    exported: bool,
    line_start: usize,
    line_end: usize,
    visibility: Visibility,
    signature: String,
) -> (s: SymbolFact)
    ensures
        s@ == syntax_symbol(file@, language@, kind, name@, exported, line_start, line_end, visibility, signature@),
{
    let s = SymbolFact {
        id: String::new(),
        file: owned(file),
        language: owned(language),
        kind,
        name,
        exported,
        line_start,
        line_end,
        visibility,
        signature,
        is_test: false,
        usage_count: 0,
        doc_string: None,
        return_type: None,
        is_async: false,
        is_static: false,
        attributes: Vec::new(),
    };
    assert(s@.attributes =~= Seq::<Seq<char>>::empty());
    s
}

/// An import statement. A fact fresh from the syntax is unresolved; the
/// import resolver fills in the file it names and how sure that is.
#[derive(Debug, Clone)]
pub struct ImportFact {
    pub id: String,
    pub file: String,
    pub language: String,
    pub kind: ImportKind,
    pub source: String,
    pub local_name: Option<String>,
    pub imported_name: Option<String>,
    pub resolved_file: Option<String>,
    pub line: usize,
    pub confidence: ConfidenceScore,
}

pub struct ImportView {
    pub id: Seq<char>,
    pub file: Seq<char>,
    pub language: Seq<char>,
    pub kind: ImportKind,
    pub source: Seq<char>,
    pub local_name: Option<Seq<char>>,
    pub imported_name: Option<Seq<char>>,
    pub resolved_file: Option<Seq<char>>,
    pub line: usize,
    pub confidence: ConfidenceScore,
}

impl View for ImportFact {
    type V = ImportView;

    open spec fn view(&self) -> ImportView {
        ImportView {
            id: self.id@,
            file: self.file@,
            language: self.language@,
            kind: self.kind,
            source: self.source@,
            local_name: opt_str_view(self.local_name),
            imported_name: opt_str_view(self.imported_name),
            resolved_file: opt_str_view(self.resolved_file),
            line: self.line,
            confidence: self.confidence,
        }
    }
}

pub open spec fn import_views(s: Seq<ImportFact>) -> Seq<ImportView> {
    s.map_values(|f: ImportFact| f@)
}

/// A call site. A fact fresh from the syntax is unresolved; the call
/// resolver fills in the symbol it reaches and how sure that is.
#[derive(Debug, Clone)]
pub struct CallFact {
    pub id: String,
    pub file: String,
    pub language: String,
    pub kind: CallKind,
    pub caller_symbol: Option<String>,
    pub callee_text: String,
    pub object: Option<String>,
    pub resolved_symbol: Option<String>,
    pub line: usize,
    pub column: usize,
    pub confidence: ConfidenceScore,
}

pub struct CallView {
    pub id: Seq<char>,
    pub file: Seq<char>,
    pub language: Seq<char>,
    pub kind: CallKind,
    pub caller_symbol: Option<Seq<char>>,
    pub callee_text: Seq<char>,
    pub object: Option<Seq<char>>,
    pub resolved_symbol: Option<Seq<char>>,
    pub line: usize,
    pub column: usize,
    pub confidence: ConfidenceScore,
}

impl View for CallFact {
    type V = CallView;

    open spec fn view(&self) -> CallView {
        CallView {
            id: self.id@,
            file: self.file@,
            language: self.language@,
            kind: self.kind,
            caller_symbol: opt_str_view(self.caller_symbol),
            callee_text: self.callee_text@,
            object: opt_str_view(self.object),
            resolved_symbol: opt_str_view(self.resolved_symbol),
            line: self.line,
            column: self.column,
            confidence: self.confidence,
        }
    }
}

pub open spec fn call_views(s: Seq<CallFact>) -> Seq<CallView> {
    s.map_values(|f: CallFact| f@)
}

/// A directed edge of the code graph.
#[derive(Debug, Clone)]
pub struct CodeEdge {
    pub from: String,
    pub to: String,
    pub edge_type: CodeEdgeType,
}

/// A file node of the code graph.
#[derive(Debug, Clone)]
pub struct FileNode {
    pub path: String,
    pub language: String,
    pub hash: String,
    pub size: u64,
}

/// Category of a parser-native fact.
#[derive(Debug, Clone, Copy, PartialEq, Eq, Structural)]
pub enum ParserFactKind {
    Symbol,
    Import,
    Call,
    Variable,
}

/// A parser diagnostic kept for clients.
#[derive(Debug, Clone)]
pub struct ParserDiagnostic {
    pub code: String,
    pub message: String,
    pub line: usize,
    pub column: usize,
}

/// A type hint from a constructor call (`const x = new Foo()` gives `x: Foo`).
#[derive(Debug, Clone)]
pub struct TypeHint {
    pub file: String,
    pub variable: String,
    pub hinted_type: String,
    pub line: usize,
}

/// Kinds of variable bindings.
#[derive(Debug, Clone, Copy, PartialEq, Eq, Structural)]
pub enum VarKind {
    Let,
    Const,
    Var,
    Parameter,
    ForLoop,
    Pattern,
    Static,
    Global,
    ThreadLocal,
    Extern,
    Register,
    Auto,
    Field,
    Property,
    EnumMember,
}

/// How a variable is used at a site.
#[derive(Debug, Clone, Copy, PartialEq, Eq, Structural)]
pub enum UsageKind {
    Read,
    Write,
    Move,
    Borrow,
    BorrowMut,
    PassedAsArg,
}

/// One usage site of a variable.
#[derive(Debug, Clone)]
pub struct UsageSite {
    pub line: usize,
    pub column: usize,
    pub usage_kind: UsageKind,
}

/// A variable binding with its scope and usages.
#[derive(Debug, Clone)]
pub struct VariableFact {
    pub id: String,
    pub file: String,
    pub language: String,
    pub name: String,
    pub kind: VarKind,
    pub type_annotation: Option<String>,
    pub is_mutable: bool,
    pub line_def: usize,
    pub scope_symbol: Option<String>,
    pub scope_start: usize,
    pub scope_end: usize,
    pub usage_sites: Vec<UsageSite>,
}

// ── Indexes ────────────────────────────────────────────────────────────

/// Indexes over a code graph's facts: positions by symbol name, and by file
/// for symbols, imports and calls, and the set of file paths.
pub struct CodeGraphIndexes {
    pub by_name: StringHashMap<Vec<usize>>,
    pub symbols_by_file: StringHashMap<Vec<usize>>,
    pub imports_by_file: StringHashMap<Vec<usize>>,
    pub calls_by_file: StringHashMap<Vec<usize>>,
    pub file_set: StringHashSet,
}

/// The positions `i < keys.len()` with `keys[i] == key`, in order.
pub open spec fn positions_of(keys: Seq<Seq<char>>, key: Seq<char>) -> Seq<usize>
    decreases keys.len(),
{
    if keys.len() == 0 {
        Seq::empty()
    } else {
        let prev = positions_of(keys.drop_last(), key);
        if keys.last() == key {
            prev.push((keys.len() - 1) as usize)
        } else {
            prev
        }
    }
}

/// A map from each key to its positions in `keys`, in order.
pub open spec fn indexes_keys(m: Map<Seq<char>, Vec<usize>>, keys: Seq<Seq<char>>) -> bool {
    &&& forall|k: Seq<char>| #[trigger] m.contains_key(k) <==> keys.contains(k)
    &&& forall|k: Seq<char>| #[trigger] m.contains_key(k) ==> m[k]@ == positions_of(keys, k)
}

pub open spec fn names_of(symbols: Seq<SymbolFact>) -> Seq<Seq<char>> {
    symbols.map_values(|s: SymbolFact| s.name@)
}

pub open spec fn files_of_symbols(symbols: Seq<SymbolFact>) -> Seq<Seq<char>> {
    symbols.map_values(|s: SymbolFact| s.file@)
}

pub open spec fn strings_view(v: Seq<String>) -> Seq<Seq<char>> {
    v.map_values(|s: String| s@)
}

pub open spec fn paths_of(files: Seq<FileNode>) -> Seq<Seq<char>> {
    files.map_values(|f: FileNode| f.path@)
}

/// An index from each key to the positions where it occurs.
pub fn index_positions(keys: &Vec<String>) -> (m: StringHashMap<Vec<usize>>)
    ensures
        indexes_keys(m@, strings_view(keys@)),
{
    let ghost kv = strings_view(keys@);
    let mut m: StringHashMap<Vec<usize>> = StringHashMap::new();
    let mut i: usize = 0;
    while i < keys.len()
        invariant
            i <= keys.len(),
            kv == strings_view(keys@),
            indexes_keys(m@, kv.take(i as int)),
        decreases keys.len() - i,
    {
        let key = &keys[i];
        let ghost t = kv.take(i + 1);
        assert(t.drop_last() =~= kv.take(i as int));
        assert(t.last() == key@);
        let positions: Vec<usize> = match m.get(key.as_str()) {
            Some(v) => {
                let mut p = v.clone();
                p.push(i);
                p
            },
            None => {
                let mut p: Vec<usize> = Vec::new();
                p.push(i);
                p
            },
        };
        let ghost before = m@;
        proof {
            if !before.contains_key(key@) {
                assert(!kv.take(i as int).contains(key@));
                assert(positions_of(kv.take(i as int), key@) =~= Seq::<usize>::empty()) by {
                    lemma_positions_absent(kv.take(i as int), key@);
                }
            }
        }
        m.insert(owned(key.as_str()), positions);
        assert forall|k: Seq<char>| #[trigger] m@.contains_key(k) <==> t.contains(k) by {
            if t.contains(k) && k != key@ {
                let j = choose|j: int| 0 <= j < t.len() && t[j] == k;
                assert(kv.take(i as int)[j] == k);
            }
            if kv.take(i as int).contains(k) {
                let j = choose|j: int| 0 <= j < i && kv.take(i as int)[j] == k;
                assert(t[j] == k);
            }
        }
        i += 1;
    }
    assert(kv.take(keys.len() as int) =~= kv);
    m
}

pub proof fn lemma_positions_absent(keys: Seq<Seq<char>>, key: Seq<char>)
    requires
        !keys.contains(key),
    ensures
        positions_of(keys, key) == Seq::<usize>::empty(),
    decreases keys.len(),
{
    if keys.len() > 0 {
        assert(!keys.drop_last().contains(key)) by {
            if keys.drop_last().contains(key) {
                let j = choose|j: int| 0 <= j < keys.drop_last().len() && keys.drop_last()[j] == key;
                assert(keys[j] == key);
            }
        }
        lemma_positions_absent(keys.drop_last(), key);
        assert(keys[keys.len() - 1] != key);
    }
}

fn names(symbols: &[SymbolFact], by_file: bool) -> (r: Vec<String>)
    ensures
        strings_view(r@) == if by_file { files_of_symbols(symbols@) } else { names_of(symbols@) },
{
    let mut r: Vec<String> = Vec::new();
    let mut i: usize = 0;
    while i < symbols.len()
        invariant
            i <= symbols.len(),
            strings_view(r@) == if by_file {
                files_of_symbols(symbols@.take(i as int))
            } else {
                names_of(symbols@.take(i as int))
            },
        decreases symbols.len() - i,
    {
        let s = &symbols[i];
        let ghost before = r@;
        r.push(if by_file { owned(s.file.as_str()) } else { owned(s.name.as_str()) });
        assert(strings_view(r@) =~= strings_view(before).push(r@[i as int]@));
        assert(files_of_symbols(symbols@.take(i + 1)) =~= files_of_symbols(symbols@.take(i as int)).push(s.file@));
        assert(names_of(symbols@.take(i + 1)) =~= names_of(symbols@.take(i as int)).push(s.name@));
        i += 1;
    }
    assert(symbols@.take(symbols.len() as int) =~= symbols@);
    r
}

/// Build the indexes of a code graph, given its files, its symbols and the
/// files of its imports and of its calls, each in the graph's order.
pub fn build_indexes(
    files: &Vec<FileNode>,
    symbols: &Vec<SymbolFact>,
    import_files: &Vec<String>,
    call_files: &Vec<String>,
) -> (ix: CodeGraphIndexes)
    ensures
        indexes_keys(ix.by_name@, names_of(symbols@)),
        indexes_keys(ix.symbols_by_file@, files_of_symbols(symbols@)),
        indexes_keys(ix.imports_by_file@, strings_view(import_files@)),
        indexes_keys(ix.calls_by_file@, strings_view(call_files@)),
        forall|p: Seq<char>| #[trigger] ix.file_set@.contains(p) <==> paths_of(files@).contains(p),
{
    let by_name = index_positions(&names(symbols, false));
    let symbols_by_file = index_positions(&names(symbols, true));
    let imports_by_file = index_positions(import_files);
    let calls_by_file = index_positions(call_files);
    let mut file_set = StringHashSet::new();
    let mut i: usize = 0;
    while i < files.len()
        invariant
            i <= files.len(),
            forall|p: Seq<char>| #[trigger] file_set@.contains(p) <==> paths_of(files@.take(i as int)).contains(p),
        decreases files.len() - i,
    {
        let ghost t = paths_of(files@.take(i + 1));
        let ghost u = paths_of(files@.take(i as int));
        assert(t =~= u.push(files@[i as int].path@));
        file_set.insert(owned(files[i].path.as_str()));
        assert forall|p: Seq<char>| #[trigger] file_set@.contains(p) <==> t.contains(p) by {
            if u.contains(p) {
                let j = choose|j: int| 0 <= j < u.len() && u[j] == p;
                assert(t[j] == p);
            }
            if t.contains(p) && p != files@[i as int].path@ {
                let j = choose|j: int| 0 <= j < t.len() && t[j] == p;
                assert(u[j] == p);
            }
            if p == files@[i as int].path@ {
                assert(t[i as int] == p);
            }
        }
        i += 1;
    }
    assert(files@.take(files.len() as int) =~= files@);
    CodeGraphIndexes { by_name, symbols_by_file, imports_by_file, calls_by_file, file_set }
}

/// Build a lookup from each symbol name to the positions of the symbols of
/// that name, in order.
pub fn build_symbol_lookup(symbols: &[SymbolFact]) -> (m: StringHashMap<Vec<usize>>)
    ensures
        indexes_keys(m@, names_of(symbols@)),
{
    index_positions(&names(symbols, false))
}

impl CodeGraphIndexes {
    /// Whether the graph has a file with this path.
    pub fn has_file(&self, path: &str) -> (b: bool)
        ensures
            b == self.file_set@.contains(path@),
    {
        self.file_set.contains(path)
    }

    /// The positions of the symbols with this name, in graph order.
    pub fn symbol_positions(&self, name: &str) -> (r: Vec<usize>)
        ensures
            r@ == if self.by_name@.contains_key(name@) { self.by_name@[name@]@ } else { Seq::<usize>::empty() },
    {
        match self.by_name.get(name) {
            Some(v) => v.clone(),
            None => Vec::new(),
        }
    }
}

// ── Test detection and backends ────────────────────────────────────────

/// A Go test function: named `Test` and more, taking a `*testing.T`.
pub open spec fn go_test_spec(name: Seq<char>, params: Seq<char>) -> bool {
    is_prefix("Test"@, name) && byte_len(name) > 4 && first_match_from(
        params,
        0,
        "testing.T"@,
    ) is Some
}

/// Whether a Go function is a test function.
pub fn is_go_test(name: &str, params: &str) -> (b: bool)
    ensures
        b == go_test_spec(name@, params@),
{
    if !starts_with(name, "Test") {
        return false;
    }
    if !(name.len() > 4) {
        return false;
    }
    let p = chars_of(params);
    let pat = chars_of("testing.T");
    find_from(&p, 0, &pat).is_some()
}

/// A function name that looks like a test: lowercased, it starts with
/// `test_` or `test ` or is `test`.
pub open spec fn test_name_spec(name: Seq<char>) -> bool {
    let lower = unicode_lowercase(name);
    is_prefix("test_"@, lower) || is_prefix("test "@, lower) || lower == "test"@
}

/// Whether a function name looks like a test name.
pub fn is_test_name(name: &str) -> (b: bool)
    ensures
        b == test_name_spec(name@),
{
    let lower = to_lowercase(name);
    starts_with(lower.as_str(), "test_") || starts_with(lower.as_str(), "test ") || str_eq(
        lower.as_str(),
        "test",
    )
}

/// The languages (in their lowercase names) that the ripex parser covers.
pub open spec fn ripex_language(lang: Seq<char>) -> bool {
    lang == "rust"@ || lang == "typescript"@ || lang == "javascript"@ || lang == "go"@ || lang
        == "python"@ || lang == "c"@ || lang == "cpp"@ || lang == "csharp"@
}

/// Whether the ripex parser can parse the language; other languages keep
/// the tree-sitter extractors.
pub fn ripex_supports(graxus_lang: &str) -> (b: bool)
    ensures
        b == ripex_language(graxus_lang@),
{
    str_eq(graxus_lang, "rust") || str_eq(graxus_lang, "typescript") || str_eq(graxus_lang, "javascript")
        || str_eq(graxus_lang, "go") || str_eq(graxus_lang, "python") || str_eq(graxus_lang, "c")
        || str_eq(graxus_lang, "cpp") || str_eq(graxus_lang, "csharp")
}

} // verus!
