//! The indexers of Java, Swift, Go, Python and C.
//!
//! Each runs its tree-sitter queries through [`run_query`] and reads the
//! matches by the rules of [`crate::query_facts`]; its contract names the
//! rules, query by query, in the order the facts come out.
use vstd::prelude::*;
use crate::codemap::{CallFact, CallKind, ImportFact, ImportKind, SymbolFact, SymbolKind};
use crate::codemap::{call_views, import_views, symbol_views};
use crate::extract::run_query;
use crate::syntax_tree::SyntaxTree;
use crate::query_facts::{
    call_passes_queried, import_passes_queried, symbol_passes_queried, call_rules, calls_by_rules, import_rules, imports_by_rules, pass_calls, pass_imports, pass_symbols,
    symbol_rules, symbols_by_rules, CallPass, CallRule, ImportPass, ImportRule, SymbolPass, SymbolRule, TestRule,
    VisibilityRule,
};

use crate::registry::LanguageIndexer;

verus! {

/// A symbol rule without parameters or signature.
pub open spec fn plain_rule(kind: SymbolKind, visibility: VisibilityRule, test: TestRule) -> SymbolRule {
    SymbolRule { kind, with_params: false, signature: None, visibility, test }
}

fn plain_symbol_rule(kind: SymbolKind, visibility: VisibilityRule, test: TestRule) -> (r: SymbolRule)
    ensures
        r == plain_rule(kind, visibility, test),
{
    SymbolRule { kind, with_params: false, signature: None, visibility, test }
}

/// An import rule.
pub open spec fn import_rule(kind: ImportKind, trim_quotes: bool, separator: Option<char>, imports_local: bool, named: bool) -> ImportRule {
    ImportRule { kind, trim_quotes, separator, imports_local, named }
}

// ── Java ───────────────────────────────────────────────────────────────

pub open spec fn java_import_rules() -> Seq<ImportRule> {
    seq![import_rule(ImportKind::JavaImport, false, Some('.'), true, false)]
}

pub open spec fn java_symbol_rules() -> Seq<SymbolRule> {
    seq![
        plain_rule(SymbolKind::Class, VisibilityRule::JavaFamily, TestRule::Never),
        plain_rule(SymbolKind::Function, VisibilityRule::JavaFamily, TestRule::Never),
    ]
}

pub open spec fn java_call_rules() -> Seq<CallRule> {
    seq![CallRule::OnObject(CallKind::MethodCall), CallRule::Plain(CallKind::FunctionCall)]
}

/// The Java language indexer.
pub struct JavaIndexer;

impl JavaIndexer {
    pub fn new() -> (ix: JavaIndexer) {
        JavaIndexer
    }

    pub fn language_id(&self) -> (id: &'static str)
        ensures
            id@ == "java"@,
    {
        "java"
    }

    pub fn extensions(&self) -> (e: Vec<&'static str>)
        ensures
            e@.map_values(|s: &str| s@) == seq!["java"@],
    {
        let e = vec!["java"];
        assert(e@.map_values(|s: &str| s@) =~= seq!["java"@]);
        e
    }

    /// The `import` declarations of scoped names; the last segment is the
    /// local and the imported name.
    pub fn extract_imports(&self, tree: &SyntaxTree, source: &str, file_path: &str) -> (out: Vec<ImportFact>)
        ensures
            exists|passes: Seq<ImportPass>| import_rules(passes) == java_import_rules()
                && import_passes_queried(tree.grammar(), tree.text(), passes, java_import_patterns())
                && import_views(out@) == #[trigger] pass_imports("java"@, file_path@, passes),
    {
        let passes = vec![ImportPass {
            matches: run_query(tree, "(import_declaration (scoped_identifier) @module) @import"),
            rule: ImportRule { kind: ImportKind::JavaImport, trim_quotes: false, separator: Some('.'), imports_local: true, named: false },
        }];
        assert(import_rules(passes@) =~= java_import_rules());
        assert(import_passes_queried(tree.grammar(), tree.text(), passes@, java_import_patterns()));
        imports_by_rules("java", file_path, &passes)
    }

    /// The classes, then the methods (as functions).
    pub fn extract_symbols(&self, tree: &SyntaxTree, source: &str, file_path: &str) -> (out: Vec<SymbolFact>)
        ensures
            exists|passes: Seq<SymbolPass>| symbol_rules(passes) == java_symbol_rules()
                && symbol_passes_queried(tree.grammar(), tree.text(), passes, java_symbol_patterns())
                && symbol_views(out@) == #[trigger] pass_symbols("java"@, file_path@, source@, passes),
    {
        let passes = vec![
            SymbolPass {
                matches: run_query(tree, "(class_declaration name: (identifier) @name) @def"),
                rule: plain_symbol_rule(SymbolKind::Class, VisibilityRule::JavaFamily, TestRule::Never),
            },
            SymbolPass {
                matches: run_query(tree, "(method_declaration name: (identifier) @name) @def"),
                rule: plain_symbol_rule(SymbolKind::Function, VisibilityRule::JavaFamily, TestRule::Never),
            },
        ];
        assert(symbol_rules(passes@) =~= java_symbol_rules());
        assert(symbol_passes_queried(tree.grammar(), tree.text(), passes@, java_symbol_patterns()));
        symbols_by_rules("java", file_path, source, &passes)
    }

    /// The method invocations on an object, then the plain ones.
    pub fn extract_calls(&self, tree: &SyntaxTree, source: &str, file_path: &str) -> (out: Vec<CallFact>)
        ensures
            exists|passes: Seq<CallPass>| call_rules(passes) == java_call_rules()
                && call_passes_queried(tree.grammar(), tree.text(), passes, java_call_patterns())
                && call_views(out@) == #[trigger] pass_calls("java"@, file_path@, passes),
    {
        let passes = vec![
            CallPass {
                matches: run_query(tree,
                    "(method_invocation object: (identifier) @object name: (identifier) @method) @call"),
                rule: CallRule::OnObject(CallKind::MethodCall),
            },
            CallPass {
                matches: run_query(tree, "(method_invocation name: (identifier) @callee) @call"),
                rule: CallRule::Plain(CallKind::FunctionCall),
            },
        ];
        assert(call_rules(passes@) =~= java_call_rules());
        assert(call_passes_queried(tree.grammar(), tree.text(), passes@, java_call_patterns()));
        calls_by_rules("java", file_path, &passes)
    }
}

impl LanguageIndexer for JavaIndexer {
    fn language_id(&self) -> (id: &'static str)
        ensures
            id@ == "java"@,
    {
        JavaIndexer::language_id(self)
    }

    fn extensions(&self) -> (e: Vec<&'static str>)
        ensures
            e@.map_values(|s: &str| s@) == seq!["java"@],
    {
        JavaIndexer::extensions(self)
    }

    fn extract_imports(&self, tree: &SyntaxTree, source: &str, file_path: &str) -> (out: Vec<ImportFact>)
        ensures
            exists|passes: Seq<ImportPass>| import_rules(passes) == java_import_rules()
                && import_passes_queried(tree.grammar(), tree.text(), passes, java_import_patterns())
                && import_views(out@) == #[trigger] pass_imports("java"@, file_path@, passes),
    {
        JavaIndexer::extract_imports(self, tree, source, file_path)
    }

    fn extract_symbols(&self, tree: &SyntaxTree, source: &str, file_path: &str) -> (out: Vec<SymbolFact>)
        ensures
            exists|passes: Seq<SymbolPass>| symbol_rules(passes) == java_symbol_rules()
                && symbol_passes_queried(tree.grammar(), tree.text(), passes, java_symbol_patterns())
                && symbol_views(out@) == #[trigger] pass_symbols("java"@, file_path@, source@, passes),
    {
        JavaIndexer::extract_symbols(self, tree, source, file_path)
    }

    fn extract_calls(&self, tree: &SyntaxTree, source: &str, file_path: &str) -> (out: Vec<CallFact>)
        ensures
            exists|passes: Seq<CallPass>| call_rules(passes) == java_call_rules()
                && call_passes_queried(tree.grammar(), tree.text(), passes, java_call_patterns())
                && call_views(out@) == #[trigger] pass_calls("java"@, file_path@, passes),
    {
        JavaIndexer::extract_calls(self, tree, source, file_path)
    }
}

// ── Swift ──────────────────────────────────────────────────────────────

pub open spec fn swift_import_rules() -> Seq<ImportRule> {
    seq![import_rule(ImportKind::SwiftImport, false, None, false, false)]
}

pub open spec fn swift_symbol_rules() -> Seq<SymbolRule> {
    seq![
        plain_rule(SymbolKind::Function, VisibilityRule::JavaFamily, TestRule::Never),
        plain_rule(SymbolKind::Class, VisibilityRule::JavaFamily, TestRule::Never),
    ]
}

pub open spec fn swift_call_rules() -> Seq<CallRule> {
    seq![CallRule::Plain(CallKind::FunctionCall)]
}

/// The Swift language indexer.
pub struct SwiftIndexer;

impl SwiftIndexer {
    pub fn new() -> (ix: SwiftIndexer) {
        SwiftIndexer
    }

    pub fn language_id(&self) -> (id: &'static str)
        ensures
            id@ == "swift"@,
    {
        "swift"
    }

    pub fn extensions(&self) -> (e: Vec<&'static str>)
        ensures
            e@.map_values(|s: &str| s@) == seq!["swift"@],
    {
        let e = vec!["swift"];
        assert(e@.map_values(|s: &str| s@) =~= seq!["swift"@]);
        e
    }

    /// The imported modules; the module is its own local name.
    pub fn extract_imports(&self, tree: &SyntaxTree, source: &str, file_path: &str) -> (out: Vec<ImportFact>)
        ensures
            exists|passes: Seq<ImportPass>| import_rules(passes) == swift_import_rules()
                && import_passes_queried(tree.grammar(), tree.text(), passes, swift_import_patterns())
                && import_views(out@) == #[trigger] pass_imports("swift"@, file_path@, passes),
    {
        let passes = vec![ImportPass {
            matches: run_query(tree, "(import_declaration (identifier) @module) @import"),
            rule: ImportRule { kind: ImportKind::SwiftImport, trim_quotes: false, separator: None, imports_local: false, named: false },
        }];
        assert(import_rules(passes@) =~= swift_import_rules());
        assert(import_passes_queried(tree.grammar(), tree.text(), passes@, swift_import_patterns()));
        imports_by_rules("swift", file_path, &passes)
    }

    /// The functions, then the classes.
    pub fn extract_symbols(&self, tree: &SyntaxTree, source: &str, file_path: &str) -> (out: Vec<SymbolFact>)
        ensures
            exists|passes: Seq<SymbolPass>| symbol_rules(passes) == swift_symbol_rules()
                && symbol_passes_queried(tree.grammar(), tree.text(), passes, swift_symbol_patterns())
                && symbol_views(out@) == #[trigger] pass_symbols("swift"@, file_path@, source@, passes),
    {
        let passes = vec![
            SymbolPass {
                matches: run_query(tree, "(function_declaration (identifier) @name) @def"),
                rule: plain_symbol_rule(SymbolKind::Function, VisibilityRule::JavaFamily, TestRule::Never),
            },
            SymbolPass {
                matches: run_query(tree, "(class_declaration (identifier) @name) @def"),
                rule: plain_symbol_rule(SymbolKind::Class, VisibilityRule::JavaFamily, TestRule::Never),
            },
        ];
        assert(symbol_rules(passes@) =~= swift_symbol_rules());
        assert(symbol_passes_queried(tree.grammar(), tree.text(), passes@, swift_symbol_patterns()));
        symbols_by_rules("swift", file_path, source, &passes)
    }

    /// The plain calls.
    pub fn extract_calls(&self, tree: &SyntaxTree, source: &str, file_path: &str) -> (out: Vec<CallFact>)
        ensures
            exists|passes: Seq<CallPass>| call_rules(passes) == swift_call_rules()
                && call_passes_queried(tree.grammar(), tree.text(), passes, swift_call_patterns())
                && call_views(out@) == #[trigger] pass_calls("swift"@, file_path@, passes),
    {
        let passes = vec![CallPass {
            matches: run_query(tree, "(call_expression (identifier) @callee) @call"),
            rule: CallRule::Plain(CallKind::FunctionCall),
        }];
        assert(call_rules(passes@) =~= swift_call_rules());
        assert(call_passes_queried(tree.grammar(), tree.text(), passes@, swift_call_patterns()));
        calls_by_rules("swift", file_path, &passes)
    }
}

impl LanguageIndexer for SwiftIndexer {
    fn language_id(&self) -> (id: &'static str)
        ensures
            id@ == "swift"@,
    {
        SwiftIndexer::language_id(self)
    }

    fn extensions(&self) -> (e: Vec<&'static str>)
        ensures
            e@.map_values(|s: &str| s@) == seq!["swift"@],
    {
        SwiftIndexer::extensions(self)
    }

    fn extract_imports(&self, tree: &SyntaxTree, source: &str, file_path: &str) -> (out: Vec<ImportFact>)
        ensures
            exists|passes: Seq<ImportPass>| import_rules(passes) == swift_import_rules()
                && import_passes_queried(tree.grammar(), tree.text(), passes, swift_import_patterns())
                && import_views(out@) == #[trigger] pass_imports("swift"@, file_path@, passes),
    {
        SwiftIndexer::extract_imports(self, tree, source, file_path)
    }

    fn extract_symbols(&self, tree: &SyntaxTree, source: &str, file_path: &str) -> (out: Vec<SymbolFact>)
        ensures
            exists|passes: Seq<SymbolPass>| symbol_rules(passes) == swift_symbol_rules()
                && symbol_passes_queried(tree.grammar(), tree.text(), passes, swift_symbol_patterns())
                && symbol_views(out@) == #[trigger] pass_symbols("swift"@, file_path@, source@, passes),
    {
        SwiftIndexer::extract_symbols(self, tree, source, file_path)
    }

    fn extract_calls(&self, tree: &SyntaxTree, source: &str, file_path: &str) -> (out: Vec<CallFact>)
        ensures
            exists|passes: Seq<CallPass>| call_rules(passes) == swift_call_rules()
                && call_passes_queried(tree.grammar(), tree.text(), passes, swift_call_patterns())
                && call_views(out@) == #[trigger] pass_calls("swift"@, file_path@, passes),
    {
        SwiftIndexer::extract_calls(self, tree, source, file_path)
    }
}

// ── Go ─────────────────────────────────────────────────────────────────

pub open spec fn go_import_rules() -> Seq<ImportRule> {
    seq![
        import_rule(ImportKind::GoImport, true, Some('/'), false, false),
        import_rule(ImportKind::GoImport, true, Some('/'), false, false),
    ]
}

pub open spec fn go_symbol_rules() -> Seq<SymbolRule> {
    seq![
        SymbolRule {
            kind: SymbolKind::Function,
            with_params: true,
            signature: Some("func "),
            visibility: VisibilityRule::UppercaseName,
            test: TestRule::GoTest,
        },
        plain_rule(SymbolKind::Struct, VisibilityRule::UppercaseName, TestRule::Never),
    ]
}

pub open spec fn go_call_rules() -> Seq<CallRule> {
    seq![CallRule::Plain(CallKind::FunctionCall), CallRule::OnObject(CallKind::SelectorCall)]
}

/// The Go language indexer.
pub struct GoIndexer;

impl GoIndexer {
    pub fn new() -> (ix: GoIndexer) {
        GoIndexer
    }

    pub fn language_id(&self) -> (id: &'static str)
        ensures
            id@ == "go"@,
    {
        "go"
    }

    pub fn extensions(&self) -> (e: Vec<&'static str>)
        ensures
            e@.map_values(|s: &str| s@) == seq!["go"@],
    {
        let e = vec!["go"];
        assert(e@.map_values(|s: &str| s@) =~= seq!["go"@]);
        e
    }

    /// The import paths of grouped imports, then of single ones, without
    /// their quotes; the last path segment is the local name.
    pub fn extract_imports(&self, tree: &SyntaxTree, source: &str, file_path: &str) -> (out: Vec<ImportFact>)
        ensures
            exists|passes: Seq<ImportPass>| import_rules(passes) == go_import_rules()
                && import_passes_queried(tree.grammar(), tree.text(), passes, go_import_patterns())
                && import_views(out@) == #[trigger] pass_imports("go"@, file_path@, passes),
    {
        let rule = ImportRule { kind: ImportKind::GoImport, trim_quotes: true, separator: Some('/'), imports_local: false, named: false };
        let passes = vec![
            ImportPass {
                matches: run_query(tree,
                    "(import_declaration (import_spec_list (import_spec path: (interpreted_string_literal) @source))) @import"),
                rule,
            },
            ImportPass {
                matches: run_query(tree,
                    "(import_declaration (import_spec path: (interpreted_string_literal) @source)) @import"),
                rule,
            },
        ];
        assert(import_rules(passes@) =~= go_import_rules());
        assert(import_passes_queried(tree.grammar(), tree.text(), passes@, go_import_patterns()));
        imports_by_rules("go", file_path, &passes)
    }

    /// The functions, with their signatures `func name(params)` and test
    /// detection, then the type declarations (as structs); a name starting
    /// with an uppercase letter is exported.
    pub fn extract_symbols(&self, tree: &SyntaxTree, source: &str, file_path: &str) -> (out: Vec<SymbolFact>)
        ensures
            exists|passes: Seq<SymbolPass>| symbol_rules(passes) == go_symbol_rules()
                && symbol_passes_queried(tree.grammar(), tree.text(), passes, go_symbol_patterns())
                && symbol_views(out@) == #[trigger] pass_symbols("go"@, file_path@, source@, passes),
    {
        let passes = vec![
            SymbolPass {
                matches: run_query(tree,
                    "(function_declaration name: (identifier) @name parameters: (parameter_list) @params) @func"),
                rule: SymbolRule {
                    kind: SymbolKind::Function,
                    with_params: true,
                    signature: Some("func "),
                    visibility: VisibilityRule::UppercaseName,
                    test: TestRule::GoTest,
                },
            },
            SymbolPass {
                matches: run_query(tree, "(type_declaration (type_spec name: (type_identifier) @name)) @type"),
                rule: plain_symbol_rule(SymbolKind::Struct, VisibilityRule::UppercaseName, TestRule::Never),
            },
        ];
        assert(symbol_rules(passes@) =~= go_symbol_rules());
        assert(symbol_passes_queried(tree.grammar(), tree.text(), passes@, go_symbol_patterns()));
        symbols_by_rules("go", file_path, source, &passes)
    }

    /// The plain calls, then the selector calls `obj.method()`.
    pub fn extract_calls(&self, tree: &SyntaxTree, source: &str, file_path: &str) -> (out: Vec<CallFact>)
        ensures
            exists|passes: Seq<CallPass>| call_rules(passes) == go_call_rules()
                && call_passes_queried(tree.grammar(), tree.text(), passes, go_call_patterns())
                && call_views(out@) == #[trigger] pass_calls("go"@, file_path@, passes),
    {
        let passes = vec![
            CallPass {
                matches: run_query(tree, "(call_expression function: (identifier) @callee) @call"),
                rule: CallRule::Plain(CallKind::FunctionCall),
            },
            CallPass {
                matches: run_query(tree,
                    "(call_expression function: (selector_expression operand: (identifier) @object field: (field_identifier) @property)) @call"),
                rule: CallRule::OnObject(CallKind::SelectorCall),
            },
        ];
        assert(call_rules(passes@) =~= go_call_rules());
        assert(call_passes_queried(tree.grammar(), tree.text(), passes@, go_call_patterns()));
        calls_by_rules("go", file_path, &passes)
    }
}

impl LanguageIndexer for GoIndexer {
    fn language_id(&self) -> (id: &'static str)
        ensures
            id@ == "go"@,
    {
        GoIndexer::language_id(self)
    }

    fn extensions(&self) -> (e: Vec<&'static str>)
        ensures
            e@.map_values(|s: &str| s@) == seq!["go"@],
    {
        GoIndexer::extensions(self)
    }

    fn extract_imports(&self, tree: &SyntaxTree, source: &str, file_path: &str) -> (out: Vec<ImportFact>)
        ensures
            exists|passes: Seq<ImportPass>| import_rules(passes) == go_import_rules()
                && import_passes_queried(tree.grammar(), tree.text(), passes, go_import_patterns())
                && import_views(out@) == #[trigger] pass_imports("go"@, file_path@, passes),
    {
        GoIndexer::extract_imports(self, tree, source, file_path)
    }

    fn extract_symbols(&self, tree: &SyntaxTree, source: &str, file_path: &str) -> (out: Vec<SymbolFact>)
        ensures
            exists|passes: Seq<SymbolPass>| symbol_rules(passes) == go_symbol_rules()
                && symbol_passes_queried(tree.grammar(), tree.text(), passes, go_symbol_patterns())
                && symbol_views(out@) == #[trigger] pass_symbols("go"@, file_path@, source@, passes),
    {
        GoIndexer::extract_symbols(self, tree, source, file_path)
    }

    fn extract_calls(&self, tree: &SyntaxTree, source: &str, file_path: &str) -> (out: Vec<CallFact>)
        ensures
            exists|passes: Seq<CallPass>| call_rules(passes) == go_call_rules()
                && call_passes_queried(tree.grammar(), tree.text(), passes, go_call_patterns())
                && call_views(out@) == #[trigger] pass_calls("go"@, file_path@, passes),
    {
        GoIndexer::extract_calls(self, tree, source, file_path)
    }
}

// ── Python ─────────────────────────────────────────────────────────────

pub open spec fn python_import_rules() -> Seq<ImportRule> {
    seq![
        import_rule(ImportKind::FromImport, false, Some('.'), false, true),
        import_rule(ImportKind::PythonImport, false, Some('.'), false, true),
    ]
}

pub open spec fn python_symbol_rules() -> Seq<SymbolRule> {
    seq![
        plain_rule(SymbolKind::Function, VisibilityRule::UnderscoreName, TestRule::PythonTest),
        plain_rule(SymbolKind::Class, VisibilityRule::UnderscoreName, TestRule::PythonTest),
    ]
}

pub open spec fn python_call_rules() -> Seq<CallRule> {
    seq![CallRule::Plain(CallKind::FunctionCall), CallRule::OnObject(CallKind::MethodCall)]
}

/// The Python language indexer.
pub struct PythonIndexer;

impl PythonIndexer {
    pub fn new() -> (ix: PythonIndexer) {
        PythonIndexer
    }

    pub fn language_id(&self) -> (id: &'static str)
        ensures
            id@ == "python"@,
    {
        "python"
    }

    pub fn extensions(&self) -> (e: Vec<&'static str>)
        ensures
            e@.map_values(|s: &str| s@) == seq!["py"@, "pyi"@],
    {
        let e = vec!["py", "pyi"];
        assert(e@.map_values(|s: &str| s@) =~= seq!["py"@, "pyi"@]);
        e
    }

    /// The `from m import n` imports (the name is local and imported), then
    /// the `import m` ones (the last dotted segment is local).
    pub fn extract_imports(&self, tree: &SyntaxTree, source: &str, file_path: &str) -> (out: Vec<ImportFact>)
        ensures
            exists|passes: Seq<ImportPass>| import_rules(passes) == python_import_rules()
                && import_passes_queried(tree.grammar(), tree.text(), passes, python_import_patterns())
                && import_views(out@) == #[trigger] pass_imports("python"@, file_path@, passes),
    {
        let passes = vec![
            ImportPass {
                matches: run_query(tree,
                    "(import_from_statement module_name: (dotted_name) @module name: (dotted_name) @name) @import"),
                rule: ImportRule { kind: ImportKind::FromImport, trim_quotes: false, separator: Some('.'), imports_local: false, named: true },
            },
            ImportPass {
                matches: run_query(tree, "(import_statement name: (dotted_name) @module) @import"),
                rule: ImportRule { kind: ImportKind::PythonImport, trim_quotes: false, separator: Some('.'), imports_local: false, named: true },
            },
        ];
        assert(import_rules(passes@) =~= python_import_rules());
        assert(import_passes_queried(tree.grammar(), tree.text(), passes@, python_import_patterns()));
        imports_by_rules("python", file_path, &passes)
    }

    /// The functions, then the classes; a name starting with `_` is
    /// private.
    pub fn extract_symbols(&self, tree: &SyntaxTree, source: &str, file_path: &str) -> (out: Vec<SymbolFact>)
        ensures
            exists|passes: Seq<SymbolPass>| symbol_rules(passes) == python_symbol_rules()
                && symbol_passes_queried(tree.grammar(), tree.text(), passes, python_symbol_patterns())
                && symbol_views(out@) == #[trigger] pass_symbols("python"@, file_path@, source@, passes),
    {
        let passes = vec![
            SymbolPass {
                matches: run_query(tree, "(function_definition name: (identifier) @name) @def"),
                rule: plain_symbol_rule(SymbolKind::Function, VisibilityRule::UnderscoreName, TestRule::PythonTest),
            },
            SymbolPass {
                matches: run_query(tree, "(class_definition name: (identifier) @name) @def"),
                rule: plain_symbol_rule(SymbolKind::Class, VisibilityRule::UnderscoreName, TestRule::PythonTest),
            },
        ];
        assert(symbol_rules(passes@) =~= python_symbol_rules());
        assert(symbol_passes_queried(tree.grammar(), tree.text(), passes@, python_symbol_patterns()));
        symbols_by_rules("python", file_path, source, &passes)
    }

    /// The plain calls, then the attribute calls `obj.method()`.
    pub fn extract_calls(&self, tree: &SyntaxTree, source: &str, file_path: &str) -> (out: Vec<CallFact>)
        ensures
            exists|passes: Seq<CallPass>| call_rules(passes) == python_call_rules()
                && call_passes_queried(tree.grammar(), tree.text(), passes, python_call_patterns())
                && call_views(out@) == #[trigger] pass_calls("python"@, file_path@, passes),
    {
        let passes = vec![
            CallPass {
                matches: run_query(tree, "(call function: (identifier) @callee) @call"),
                rule: CallRule::Plain(CallKind::FunctionCall),
            },
            CallPass {
                matches: run_query(tree,
                    "(call function: (attribute object: (identifier) @object attribute: (identifier) @property)) @call"),
                rule: CallRule::OnObject(CallKind::MethodCall),
            },
        ];
        assert(call_rules(passes@) =~= python_call_rules());
        assert(call_passes_queried(tree.grammar(), tree.text(), passes@, python_call_patterns()));
        calls_by_rules("python", file_path, &passes)
    }
}

impl LanguageIndexer for PythonIndexer {
    fn language_id(&self) -> (id: &'static str)
        ensures
            id@ == "python"@,
    {
        PythonIndexer::language_id(self)
    }

    fn extensions(&self) -> (e: Vec<&'static str>)
        ensures
            e@.map_values(|s: &str| s@) == seq!["py"@, "pyi"@],
    {
        PythonIndexer::extensions(self)
    }

    fn extract_imports(&self, tree: &SyntaxTree, source: &str, file_path: &str) -> (out: Vec<ImportFact>)
        ensures
            exists|passes: Seq<ImportPass>| import_rules(passes) == python_import_rules()
                && import_passes_queried(tree.grammar(), tree.text(), passes, python_import_patterns())
                && import_views(out@) == #[trigger] pass_imports("python"@, file_path@, passes),
    {
        PythonIndexer::extract_imports(self, tree, source, file_path)
    }

    fn extract_symbols(&self, tree: &SyntaxTree, source: &str, file_path: &str) -> (out: Vec<SymbolFact>)
        ensures
            exists|passes: Seq<SymbolPass>| symbol_rules(passes) == python_symbol_rules()
                && symbol_passes_queried(tree.grammar(), tree.text(), passes, python_symbol_patterns())
                && symbol_views(out@) == #[trigger] pass_symbols("python"@, file_path@, source@, passes),
    {
        PythonIndexer::extract_symbols(self, tree, source, file_path)
    }

    fn extract_calls(&self, tree: &SyntaxTree, source: &str, file_path: &str) -> (out: Vec<CallFact>)
        ensures
            exists|passes: Seq<CallPass>| call_rules(passes) == python_call_rules()
                && call_passes_queried(tree.grammar(), tree.text(), passes, python_call_patterns())
                && call_views(out@) == #[trigger] pass_calls("python"@, file_path@, passes),
    {
        PythonIndexer::extract_calls(self, tree, source, file_path)
    }
}

// ── C ──────────────────────────────────────────────────────────────────

pub open spec fn c_import_rules() -> Seq<ImportRule> {
    seq![
        import_rule(ImportKind::GoImport, false, None, false, false),
        import_rule(ImportKind::GoImport, false, None, false, false),
    ]
}

pub open spec fn c_symbol_rules() -> Seq<SymbolRule> {
    seq![
        SymbolRule {
            kind: SymbolKind::Function,
            with_params: true,
            signature: Some(""),
            visibility: VisibilityRule::CFunction,
            test: TestRule::Never,
        },
        plain_rule(SymbolKind::Type, VisibilityRule::CType, TestRule::Never),
        plain_rule(SymbolKind::Struct, VisibilityRule::CType, TestRule::Never),
        plain_rule(SymbolKind::Enum, VisibilityRule::CType, TestRule::Never),
    ]
}

pub open spec fn c_call_rules() -> Seq<CallRule> {
    seq![CallRule::Plain(CallKind::FunctionCall)]
}

/// The C language indexer.
pub struct CIndexer;

impl CIndexer {
    pub fn new() -> (ix: CIndexer) {
        CIndexer
    }

    pub fn language_id(&self) -> (id: &'static str)
        ensures
            id@ == "c"@,
    {
        "c"
    }

    pub fn extensions(&self) -> (e: Vec<&'static str>)
        ensures
            e@.map_values(|s: &str| s@) == seq!["c"@, "h"@],
    {
        let e = vec!["c", "h"];
        assert(e@.map_values(|s: &str| s@) =~= seq!["c"@, "h"@]);
        e
    }

    /// The `#include <...>` paths, then the `#include "..."` ones, each
    /// with its brackets or quotes.
    pub fn extract_imports(&self, tree: &SyntaxTree, source: &str, file_path: &str) -> (out: Vec<ImportFact>)
        ensures
            exists|passes: Seq<ImportPass>| import_rules(passes) == c_import_rules()
                && import_passes_queried(tree.grammar(), tree.text(), passes, c_import_patterns())
                && import_views(out@) == #[trigger] pass_imports("c"@, file_path@, passes),
    {
        let rule = ImportRule { kind: ImportKind::GoImport, trim_quotes: false, separator: None, imports_local: false, named: false };
        let passes = vec![
            ImportPass {
                matches: run_query(tree, "(preproc_include path: (system_lib_string) @path) @include"),
                rule,
            },
            ImportPass {
                matches: run_query(tree, "(preproc_include path: (string_literal) @path) @include"),
                rule,
            },
        ];
        assert(import_rules(passes@) =~= c_import_rules());
        assert(import_passes_queried(tree.grammar(), tree.text(), passes@, c_import_patterns()));
        imports_by_rules("c", file_path, &passes)
    }

    /// The function definitions, with their signatures `name(params)`, then
    /// the typedefs, structs and enums.
    pub fn extract_symbols(&self, tree: &SyntaxTree, source: &str, file_path: &str) -> (out: Vec<SymbolFact>)
        ensures
            exists|passes: Seq<SymbolPass>| symbol_rules(passes) == c_symbol_rules()
                && symbol_passes_queried(tree.grammar(), tree.text(), passes, c_symbol_patterns())
                && symbol_views(out@) == #[trigger] pass_symbols("c"@, file_path@, source@, passes),
    {
        let passes = vec![
            SymbolPass {
                matches: run_query(tree,
                    "(function_definition declarator: (function_declarator declarator: (identifier) @name parameters: (parameter_list) @params)) @def"),
                rule: SymbolRule {
                    kind: SymbolKind::Function,
                    with_params: true,
                    signature: Some(""),
                    visibility: VisibilityRule::CFunction,
                    test: TestRule::Never,
                },
            },
            SymbolPass {
                matches: run_query(tree, "(type_definition type: (type_identifier) @name) @def"),
                rule: plain_symbol_rule(SymbolKind::Type, VisibilityRule::CType, TestRule::Never),
            },
            SymbolPass {
                matches: run_query(tree, "(struct_specifier name: (type_identifier) @name) @def"),
                rule: plain_symbol_rule(SymbolKind::Struct, VisibilityRule::CType, TestRule::Never),
            },
            SymbolPass {
                matches: run_query(tree, "(enum_specifier name: (type_identifier) @name) @def"),
                rule: plain_symbol_rule(SymbolKind::Enum, VisibilityRule::CType, TestRule::Never),
            },
        ];
        assert(symbol_rules(passes@) =~= c_symbol_rules());
        assert(symbol_passes_queried(tree.grammar(), tree.text(), passes@, c_symbol_patterns()));
        symbols_by_rules("c", file_path, source, &passes)
    }

    /// The plain function calls.
    pub fn extract_calls(&self, tree: &SyntaxTree, source: &str, file_path: &str) -> (out: Vec<CallFact>)
        ensures
            exists|passes: Seq<CallPass>| call_rules(passes) == c_call_rules()
                && call_passes_queried(tree.grammar(), tree.text(), passes, c_call_patterns())
                && call_views(out@) == #[trigger] pass_calls("c"@, file_path@, passes),
    {
        let passes = vec![CallPass {
            matches: run_query(tree, "(call_expression function: (identifier) @callee) @call"),
            rule: CallRule::Plain(CallKind::FunctionCall),
        }];
        assert(call_rules(passes@) =~= c_call_rules());
        assert(call_passes_queried(tree.grammar(), tree.text(), passes@, c_call_patterns()));
        calls_by_rules("c", file_path, &passes)
    }
}

impl LanguageIndexer for CIndexer {
    fn language_id(&self) -> (id: &'static str)
        ensures
            id@ == "c"@,
    {
        CIndexer::language_id(self)
    }

    fn extensions(&self) -> (e: Vec<&'static str>)
        ensures
            e@.map_values(|s: &str| s@) == seq!["c"@, "h"@],
    {
        CIndexer::extensions(self)
    }

    fn extract_imports(&self, tree: &SyntaxTree, source: &str, file_path: &str) -> (out: Vec<ImportFact>)
        ensures
            exists|passes: Seq<ImportPass>| import_rules(passes) == c_import_rules()
                && import_passes_queried(tree.grammar(), tree.text(), passes, c_import_patterns())
                && import_views(out@) == #[trigger] pass_imports("c"@, file_path@, passes),
    {
        CIndexer::extract_imports(self, tree, source, file_path)
    }

    fn extract_symbols(&self, tree: &SyntaxTree, source: &str, file_path: &str) -> (out: Vec<SymbolFact>)
        ensures
            exists|passes: Seq<SymbolPass>| symbol_rules(passes) == c_symbol_rules()
                && symbol_passes_queried(tree.grammar(), tree.text(), passes, c_symbol_patterns())
                && symbol_views(out@) == #[trigger] pass_symbols("c"@, file_path@, source@, passes),
    {
        CIndexer::extract_symbols(self, tree, source, file_path)
    }

    fn extract_calls(&self, tree: &SyntaxTree, source: &str, file_path: &str) -> (out: Vec<CallFact>)
        ensures
            exists|passes: Seq<CallPass>| call_rules(passes) == c_call_rules()
                && call_passes_queried(tree.grammar(), tree.text(), passes, c_call_patterns())
                && call_views(out@) == #[trigger] pass_calls("c"@, file_path@, passes),
    {
        CIndexer::extract_calls(self, tree, source, file_path)
    }
}

/// The query patterns of the java import passes, in order.
pub open spec fn java_import_patterns() -> Seq<Seq<char>> {
    seq![
        "(import_declaration (scoped_identifier) @module) @import"@,
    ]
}

/// The query patterns of the java symbol passes, in order.
pub open spec fn java_symbol_patterns() -> Seq<Seq<char>> {
    seq![
        "(class_declaration name: (identifier) @name) @def"@,
        "(method_declaration name: (identifier) @name) @def"@,
    ]
}

/// The query patterns of the java call passes, in order.
pub open spec fn java_call_patterns() -> Seq<Seq<char>> {
    seq![
        "(method_invocation object: (identifier) @object name: (identifier) @method) @call"@,
        "(method_invocation name: (identifier) @callee) @call"@,
    ]
}

/// The query patterns of the swift import passes, in order.
pub open spec fn swift_import_patterns() -> Seq<Seq<char>> {
    seq![
        "(import_declaration (identifier) @module) @import"@,
    ]
}

/// The query patterns of the swift symbol passes, in order.
pub open spec fn swift_symbol_patterns() -> Seq<Seq<char>> {
    seq![
        "(function_declaration (identifier) @name) @def"@,
        "(class_declaration (identifier) @name) @def"@,
    ]
}

/// The query patterns of the swift call passes, in order.
pub open spec fn swift_call_patterns() -> Seq<Seq<char>> {
    seq![
        "(call_expression (identifier) @callee) @call"@,
    ]
}

/// The query patterns of the go import passes, in order.
pub open spec fn go_import_patterns() -> Seq<Seq<char>> {
    seq![
        "(import_declaration (import_spec_list (import_spec path: (interpreted_string_literal) @source))) @import"@,
        "(import_declaration (import_spec path: (interpreted_string_literal) @source)) @import"@,
    ]
}

/// The query patterns of the go symbol passes, in order.
pub open spec fn go_symbol_patterns() -> Seq<Seq<char>> {
    seq![
        "(function_declaration name: (identifier) @name parameters: (parameter_list) @params) @func"@,
        "(type_declaration (type_spec name: (type_identifier) @name)) @type"@,
    ]
}

/// The query patterns of the go call passes, in order.
pub open spec fn go_call_patterns() -> Seq<Seq<char>> {
    seq![
        "(call_expression function: (identifier) @callee) @call"@,
        "(call_expression function: (selector_expression operand: (identifier) @object field: (field_identifier) @property)) @call"@,
    ]
}

/// The query patterns of the python import passes, in order.
pub open spec fn python_import_patterns() -> Seq<Seq<char>> {
    seq![
        "(import_from_statement module_name: (dotted_name) @module name: (dotted_name) @name) @import"@,
        "(import_statement name: (dotted_name) @module) @import"@,
    ]
}

/// The query patterns of the python symbol passes, in order.
pub open spec fn python_symbol_patterns() -> Seq<Seq<char>> {
    seq![
        "(function_definition name: (identifier) @name) @def"@,
        "(class_definition name: (identifier) @name) @def"@,
    ]
}

/// The query patterns of the python call passes, in order.
pub open spec fn python_call_patterns() -> Seq<Seq<char>> {
    seq![
        "(call function: (identifier) @callee) @call"@,
        "(call function: (attribute object: (identifier) @object attribute: (identifier) @property)) @call"@,
    ]
}

/// The query patterns of the c import passes, in order.
pub open spec fn c_import_patterns() -> Seq<Seq<char>> {
    seq![
        "(preproc_include path: (system_lib_string) @path) @include"@,
        "(preproc_include path: (string_literal) @path) @include"@,
    ]
}

/// The query patterns of the c symbol passes, in order.
pub open spec fn c_symbol_patterns() -> Seq<Seq<char>> {
    seq![
        "(function_definition declarator: (function_declarator declarator: (identifier) @name parameters: (parameter_list) @params)) @def"@,
        "(type_definition type: (type_identifier) @name) @def"@,
        "(struct_specifier name: (type_identifier) @name) @def"@,
        "(enum_specifier name: (type_identifier) @name) @def"@,
    ]
}

/// The query patterns of the c call passes, in order.
pub open spec fn c_call_patterns() -> Seq<Seq<char>> {
    seq![
        "(call_expression function: (identifier) @callee) @call"@,
    ]
}

} // verus!
