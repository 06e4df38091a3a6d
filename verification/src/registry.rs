//! The language indexers by language identifier, and the extraction of a
//! file's facts with the indexer of its language.
use vstd::prelude::*;
use crate::codemap::{import_views, symbol_views, CallFact, ImportFact, SymbolFact, VariableFact};
use crate::builder::call_views;
use crate::csharp::{cs_calls_of, cs_imports_of, cs_symbols_of, CSharpIndexer};
use crate::extract::queried;
use crate::languages::{
    java_import_rules, java_import_patterns, java_symbol_rules, java_symbol_patterns, java_call_rules, java_call_patterns, swift_import_rules, swift_import_patterns, swift_symbol_rules, swift_symbol_patterns, swift_call_rules, swift_call_patterns, go_import_rules, go_import_patterns, go_symbol_rules, go_symbol_patterns, go_call_rules, go_call_patterns, python_import_rules, python_import_patterns, python_symbol_rules, python_symbol_patterns, python_call_rules, python_call_patterns, c_import_rules, c_import_patterns, c_symbol_rules, c_symbol_patterns, c_call_rules, c_call_patterns, CIndexer, GoIndexer, JavaIndexer, PythonIndexer, SwiftIndexer,
};
use crate::query_facts::{
    call_passes_queried, call_rules, import_passes_queried, import_rules, pass_calls, pass_imports, pass_symbols,
    symbol_passes_queried, symbol_rules, CallPass, ImportPass, SymbolPass,
};
use crate::rust_lang::{rs_symbols_of, rust_call_patterns, rust_call_rules, rust_import_pattern, rust_imports_spec, RustIndexer};
use crate::syntax_tree::{grammar_loads, parse_text, parser_for, Grammar, SyntaxTree};
use crate::text::str_eq;
use crate::typescript::{ts_calls_of, ts_imports_of, ts_symbols_of, TypeScriptIndexer};

verus! {

/// What every language indexer offers: its identifier, the extensions of
/// its sources, and the imports, symbols and calls it extracts from a parsed
/// file. Each indexer's own methods state exactly what it extracts.
pub trait LanguageIndexer {
    /// The language identifier, such as `rust` or `typescript`.
    fn language_id(&self) -> (id: &'static str);

    /// The file extensions this indexer handles, without the dot.
    fn extensions(&self) -> (e: Vec<&'static str>);

    /// The import statements of a parsed file.
    fn extract_imports(&self, tree: &SyntaxTree, source: &str, file_path: &str) -> (out: Vec<ImportFact>);

    /// The symbol definitions of a parsed file.
    fn extract_symbols(&self, tree: &SyntaxTree, source: &str, file_path: &str) -> (out: Vec<SymbolFact>);

    /// The call sites of a parsed file.
    fn extract_calls(&self, tree: &SyntaxTree, source: &str, file_path: &str) -> (out: Vec<CallFact>);
}

/// The indexer of a language.
#[derive(Debug, Clone, Copy, PartialEq, Eq, Structural)]
pub enum Indexer {
    TypeScript,
    Rust,
    Go,
    Python,
    C,
    CSharp,
    Java,
    Swift,
}

/// The indexer registered for a language identifier: TypeScript also
/// serves JavaScript.
pub open spec fn indexer_of(id: Seq<char>) -> Option<Indexer> {
    if id == "typescript"@ || id == "javascript"@ {
        Some(Indexer::TypeScript)
    } else if id == "rust"@ {
        Some(Indexer::Rust)
    } else if id == "go"@ {
        Some(Indexer::Go)
    } else if id == "python"@ {
        Some(Indexer::Python)
    } else if id == "c"@ {
        Some(Indexer::C)
    } else if id == "csharp"@ {
        Some(Indexer::CSharp)
    } else if id == "java"@ {
        Some(Indexer::Java)
    } else if id == "swift"@ {
        Some(Indexer::Swift)
    } else {
        None
    }
}

/// The indexer for a language identifier.
pub fn registry(id: &str) -> (r: Option<Indexer>)
    ensures
        r == indexer_of(id@),
{
    if str_eq(id, "typescript") || str_eq(id, "javascript") {
        Some(Indexer::TypeScript)
    } else if str_eq(id, "rust") {
        Some(Indexer::Rust)
    } else if str_eq(id, "go") {
        Some(Indexer::Go)
    } else if str_eq(id, "python") {
        Some(Indexer::Python)
    } else if str_eq(id, "c") {
        Some(Indexer::C)
    } else if str_eq(id, "csharp") {
        Some(Indexer::CSharp)
    } else if str_eq(id, "java") {
        Some(Indexer::Java)
    } else if str_eq(id, "swift") {
        Some(Indexer::Swift)
    } else {
        None
    }
}

pub open spec fn grammar_of(ix: Indexer) -> Grammar {
    match ix {
        Indexer::TypeScript => Grammar::TypeScript,
        Indexer::Rust => Grammar::Rust,
        Indexer::Go => Grammar::Go,
        Indexer::Python => Grammar::Python,
        Indexer::C => Grammar::C,
        Indexer::CSharp => Grammar::CSharp,
        Indexer::Java => Grammar::Java,
        Indexer::Swift => Grammar::Swift,
    }
}

fn grammar(ix: Indexer) -> (g: Grammar)
    ensures
        g == grammar_of(ix),
{
    match ix {
        Indexer::TypeScript => Grammar::TypeScript,
        Indexer::Rust => Grammar::Rust,
        Indexer::Go => Grammar::Go,
        Indexer::Python => Grammar::Python,
        Indexer::C => Grammar::C,
        Indexer::CSharp => Grammar::CSharp,
        Indexer::Java => Grammar::Java,
        Indexer::Swift => Grammar::Swift,
    }
}

/// The imports are what the indexer extracts from the tree that `g`
/// parses from `text`.
pub open spec fn imports_extracted(ix: Indexer, g: Grammar, text: Seq<char>, file: Seq<char>, out: Seq<ImportFact>) -> bool {
    match ix {
        Indexer::TypeScript => import_views(out) == ts_imports_of(g, text, file),
        Indexer::Rust => import_views(out) == rust_imports_spec(file, queried(g, text, rust_import_pattern())),
        Indexer::CSharp => import_views(out) == cs_imports_of(g, text, file),
        Indexer::Go => exists|passes: Seq<ImportPass>| import_rules(passes) == go_import_rules()
            && import_passes_queried(g, text, passes, go_import_patterns())
            && import_views(out) == #[trigger] pass_imports("go"@, file, passes),
        Indexer::Python => exists|passes: Seq<ImportPass>| import_rules(passes) == python_import_rules()
            && import_passes_queried(g, text, passes, python_import_patterns())
            && import_views(out) == #[trigger] pass_imports("python"@, file, passes),
        Indexer::C => exists|passes: Seq<ImportPass>| import_rules(passes) == c_import_rules()
            && import_passes_queried(g, text, passes, c_import_patterns())
            && import_views(out) == #[trigger] pass_imports("c"@, file, passes),
        Indexer::Java => exists|passes: Seq<ImportPass>| import_rules(passes) == java_import_rules()
            && import_passes_queried(g, text, passes, java_import_patterns())
            && import_views(out) == #[trigger] pass_imports("java"@, file, passes),
        Indexer::Swift => exists|passes: Seq<ImportPass>| import_rules(passes) == swift_import_rules()
            && import_passes_queried(g, text, passes, swift_import_patterns())
            && import_views(out) == #[trigger] pass_imports("swift"@, file, passes),
    }
}

/// The symbols are what the indexer extracts from the tree that `g`
/// parses from `text`.
pub open spec fn symbols_extracted(ix: Indexer, g: Grammar, text: Seq<char>, file: Seq<char>, source: Seq<char>, out: Seq<SymbolFact>) -> bool {
    match ix {
        Indexer::TypeScript => symbol_views(out) == ts_symbols_of(g, text, file, source),
        Indexer::Rust => symbol_views(out) == rs_symbols_of(g, text, file, source),
        Indexer::CSharp => symbol_views(out) == cs_symbols_of(g, text, file, source),
        Indexer::Go => exists|passes: Seq<SymbolPass>| symbol_rules(passes) == go_symbol_rules()
            && symbol_passes_queried(g, text, passes, go_symbol_patterns())
            && symbol_views(out) == #[trigger] pass_symbols("go"@, file, source, passes),
        Indexer::Python => exists|passes: Seq<SymbolPass>| symbol_rules(passes) == python_symbol_rules()
            && symbol_passes_queried(g, text, passes, python_symbol_patterns())
            && symbol_views(out) == #[trigger] pass_symbols("python"@, file, source, passes),
        Indexer::C => exists|passes: Seq<SymbolPass>| symbol_rules(passes) == c_symbol_rules()
            && symbol_passes_queried(g, text, passes, c_symbol_patterns())
            && symbol_views(out) == #[trigger] pass_symbols("c"@, file, source, passes),
        Indexer::Java => exists|passes: Seq<SymbolPass>| symbol_rules(passes) == java_symbol_rules()
            && symbol_passes_queried(g, text, passes, java_symbol_patterns())
            && symbol_views(out) == #[trigger] pass_symbols("java"@, file, source, passes),
        Indexer::Swift => exists|passes: Seq<SymbolPass>| symbol_rules(passes) == swift_symbol_rules()
            && symbol_passes_queried(g, text, passes, swift_symbol_patterns())
            && symbol_views(out) == #[trigger] pass_symbols("swift"@, file, source, passes),
    }
}

/// The calls are what the indexer extracts from the tree that `g` parses
/// from `text`.
pub open spec fn calls_extracted(ix: Indexer, g: Grammar, text: Seq<char>, file: Seq<char>, out: Seq<CallFact>) -> bool {
    match ix {
        Indexer::TypeScript => call_views(out) == ts_calls_of(g, text, file),
        Indexer::CSharp => call_views(out) == cs_calls_of(g, text, file),
        Indexer::Rust => exists|passes: Seq<CallPass>| call_rules(passes) == rust_call_rules()
            && call_passes_queried(g, text, passes, rust_call_patterns())
            && call_views(out) == #[trigger] pass_calls("rust"@, file, passes),
        Indexer::Go => exists|passes: Seq<CallPass>| call_rules(passes) == go_call_rules()
            && call_passes_queried(g, text, passes, go_call_patterns())
            && call_views(out) == #[trigger] pass_calls("go"@, file, passes),
        Indexer::Python => exists|passes: Seq<CallPass>| call_rules(passes) == python_call_rules()
            && call_passes_queried(g, text, passes, python_call_patterns())
            && call_views(out) == #[trigger] pass_calls("python"@, file, passes),
        Indexer::C => exists|passes: Seq<CallPass>| call_rules(passes) == c_call_rules()
            && call_passes_queried(g, text, passes, c_call_patterns())
            && call_views(out) == #[trigger] pass_calls("c"@, file, passes),
        Indexer::Java => exists|passes: Seq<CallPass>| call_rules(passes) == java_call_rules()
            && call_passes_queried(g, text, passes, java_call_patterns())
            && call_views(out) == #[trigger] pass_calls("java"@, file, passes),
        Indexer::Swift => exists|passes: Seq<CallPass>| call_rules(passes) == swift_call_rules()
            && call_passes_queried(g, text, passes, swift_call_patterns())
            && call_views(out) == #[trigger] pass_calls("swift"@, file, passes),
    }
}

/// The facts of one file by tree-sitter: nothing where the grammar cannot
/// be loaded, else what the indexer extracts from
/// the parse. Indexers extract no variables.
pub fn tree_sitter_extract(ix: Indexer, source: &str, rel: &str) -> (r: (
    Vec<ImportFact>,
    Vec<SymbolFact>,
    Vec<CallFact>,
    Vec<VariableFact>,
))
    ensures
        r.3.len() == 0,
        !grammar_loads(grammar_of(ix)) ==> r.0.len() == 0 && r.1.len() == 0 && r.2.len() == 0,
        grammar_loads(grammar_of(ix)) ==> imports_extracted(ix, grammar_of(ix), source@, rel@, r.0@),
        grammar_loads(grammar_of(ix)) ==> symbols_extracted(ix, grammar_of(ix), source@, rel@, source@, r.1@),
        grammar_loads(grammar_of(ix)) ==> calls_extracted(ix, grammar_of(ix), source@, rel@, r.2@),
{
    let parser = match parser_for(grammar(ix)) {
        Some(p) => p,
        None => return (Vec::new(), Vec::new(), Vec::new(), Vec::new()),
    };
    let parsed = match parse_text(parser, source) {
        Some(t) => t,
        None => return (Vec::new(), Vec::new(), Vec::new(), Vec::new()),
    };
    let tree = &parsed;
    let (imports, symbols, calls) = match ix {
        Indexer::TypeScript => {
            let x = TypeScriptIndexer::new();
            (x.extract_imports(tree, source, rel), x.extract_symbols(tree, source, rel), x.extract_calls(tree, source, rel))
        },
        Indexer::Rust => {
            let x = RustIndexer::new();
            (x.extract_imports(tree, source, rel), x.extract_symbols(tree, source, rel), x.extract_calls(tree, source, rel))
        },
        Indexer::Go => {
            let x = GoIndexer::new();
            (x.extract_imports(tree, source, rel), x.extract_symbols(tree, source, rel), x.extract_calls(tree, source, rel))
        },
        Indexer::Python => {
            let x = PythonIndexer::new();
            (x.extract_imports(tree, source, rel), x.extract_symbols(tree, source, rel), x.extract_calls(tree, source, rel))
        },
        Indexer::C => {
            let x = CIndexer::new();
            (x.extract_imports(tree, source, rel), x.extract_symbols(tree, source, rel), x.extract_calls(tree, source, rel))
        },
        Indexer::CSharp => {
            let x = CSharpIndexer::new();
            (x.extract_imports(tree, source, rel), x.extract_symbols(tree, source, rel), x.extract_calls(tree, source, rel))
        },
        Indexer::Java => {
            let x = JavaIndexer::new();
            (x.extract_imports(tree, source, rel), x.extract_symbols(tree, source, rel), x.extract_calls(tree, source, rel))
        },
        Indexer::Swift => {
            let x = SwiftIndexer::new();
            (x.extract_imports(tree, source, rel), x.extract_symbols(tree, source, rel), x.extract_calls(tree, source, rel))
        },
    };
    (imports, symbols, calls, Vec::new())
}

} // verus!
