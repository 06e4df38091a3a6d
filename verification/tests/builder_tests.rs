use graxus::builder::{BuildError, CodemapBuilder, SourceFile};
use graxus::codemap::CodeEdgeType;
use graxus::config::ParserBackend;
use graxus::file_types::Language;

fn source(rel: &str, language: Language, content: &str) -> SourceFile {
    let extension = rel.rsplit('.').next().unwrap_or("").to_string();
    SourceFile {
        path: format!("/project/{rel}"),
        relative_path: rel.to_string(),
        language,
        extension,
        hash: format!("hash-{rel}"),
        size: content.len() as u64,
        content: Some(content.to_string()),
        native: None,
    }
}

fn tree_sitter(files: Vec<SourceFile>) -> graxus::code_graph::CodeGraph {
    CodemapBuilder::new(files).with_backend(ParserBackend::TreeSitter).build()
}

#[test]
fn merge_reresolves_changed_importer_against_unchanged_target() {
    let target = source("src/handler.rs", Language::Rust, "pub fn run() {}\n");
    let caller = source("src/main.rs", Language::Rust, "use crate::handler::run;\nfn main() { run(); }\n");
    let mut graph = tree_sitter(vec![target, caller]);
    assert_eq!(graph.imports[0].resolved_file.as_deref(), Some("src/handler.rs"));
    assert_eq!(graph.calls[0].resolved_symbol.as_deref(), Some("src/handler.rs::run"));

    let changed_caller =
        source("src/main.rs", Language::Rust, "use crate::handler::run;\nfn main() { run(); run(); }\n");
    let changed = tree_sitter(vec![changed_caller]);
    assert_eq!(changed.calls.len(), 2);
    assert!(changed.imports[0].resolved_file.is_none());
    assert!(changed.calls[0].resolved_symbol.is_none());

    graph.merge(changed);

    let import = graph.imports.iter().find(|import| import.file == "src/main.rs").unwrap();
    assert_eq!(import.resolved_file.as_deref(), Some("src/handler.rs"));
    assert!(graph
        .calls
        .iter()
        .filter(|call| call.file == "src/main.rs")
        .all(|call| call.resolved_symbol.as_deref() == Some("src/handler.rs::run")));
    assert_eq!(
        graph
            .edges
            .iter()
            .filter(|e| e.from == "src/main.rs" && e.to == "src/handler.rs" && e.edge_type == CodeEdgeType::Imports)
            .count(),
        1
    );
    assert_eq!(
        graph
            .edges
            .iter()
            .filter(|e| e.from == "src/main.rs" && e.to == "src/handler.rs::run" && e.edge_type == CodeEdgeType::Calls)
            .count(),
        1
    );
}

#[test]
fn build_numbers_facts_and_links_calls_to_their_enclosing_symbol() {
    let file = source("src/a.rs", Language::Rust, "fn main() {\n    helper();\n}\nfn helper() {}\n");
    let graph = tree_sitter(vec![file]);
    assert_eq!(graph.files.len(), 1);
    assert_eq!(graph.files[0].path, "src/a.rs");
    assert_eq!(graph.files[0].language, "rust");
    assert_eq!(graph.files[0].hash, "hash-src/a.rs");
    let ids: Vec<&str> = graph.symbols.iter().map(|s| s.id.as_str()).collect();
    assert!(ids.contains(&"symbol:src/a.rs:main:1:0"));
    assert!(ids.contains(&"symbol:src/a.rs:helper:4:1"));
    let call = graph.calls.iter().find(|c| c.callee_text == "helper").unwrap();
    assert!(call.id.starts_with("call:src/a.rs:2:"));
    assert_eq!(call.caller_symbol.as_deref(), Some("main"));
    assert_eq!(call.resolved_symbol.as_deref(), Some("src/a.rs::helper"));
    assert!(graph
        .edges
        .iter()
        .any(|e| e.from == "src/a.rs::main" && e.to == "src/a.rs" && e.edge_type == CodeEdgeType::DefinedIn));
    assert!(graph
        .edges
        .iter()
        .any(|e| e.from == "src/a.rs" && e.to == "src/a.rs::helper" && e.edge_type == CodeEdgeType::Calls));
    let parser = &graph.parser_results[0];
    assert_eq!(parser.used_backend, ParserBackend::TreeSitter);
    assert!(parser.fallback_reason.is_none());
}

#[test]
fn native_backend_without_native_facts_falls_back_with_a_reason() {
    let file = source("src/a.rs", Language::Rust, "fn main() {}\n");
    let graph = CodemapBuilder::new(vec![file]).build();
    let parser = &graph.parser_results[0];
    assert_eq!(parser.requested_backend, ParserBackend::Ripex);
    assert_eq!(parser.used_backend, ParserBackend::TreeSitter);
    assert_eq!(parser.fallback_reason.as_deref(), Some("ripex support was disabled at compile time"));

    let mut failed = source("src/b.rs", Language::Rust, "fn b() {}\n");
    failed.native = Some(Err("ripex extraction failed".to_string()));
    let graph = CodemapBuilder::new(vec![failed]).build();
    assert_eq!(graph.parser_results[0].fallback_reason.as_deref(), Some("ripex extraction failed"));
}

#[test]
fn build_groups_files_by_language_and_skips_unreadable_or_unindexed_files() {
    let mut unreadable = source("src/x.rs", Language::Rust, "");
    unreadable.content = None;
    let files = vec![
        source("a.rs", Language::Rust, "fn a() {}\n"),
        source("b.ts", Language::TypeScript, "function b() {}\n"),
        source("notes.md", Language::Markdown, "# notes\n"),
        source("c.rs", Language::Rust, "fn c() {}\n"),
        unreadable,
    ];
    let graph = tree_sitter(files);
    let paths: Vec<&str> = graph.files.iter().map(|f| f.path.as_str()).collect();
    assert_eq!(paths, vec!["a.rs", "c.rs", "b.ts"]);
    assert_eq!(graph.parser_results.len(), 3);
}

#[test]
fn build_for_file_reports_why_it_cannot_analyse() {
    let files = vec![source("a.rs", Language::Rust, "fn a() {}\nfn b() { a(); }\n"), source("n.md", Language::Markdown, "x")];
    let analysis = CodemapBuilder::new(files).with_backend(ParserBackend::TreeSitter).build_for_file("/project/a.rs");
    let analysis = analysis.unwrap();
    assert_eq!(analysis.file, "a.rs");
    assert_eq!(analysis.language, "rust");
    assert!(analysis.symbols.iter().any(|s| s.id == "symbol:a.rs:b:2:1"));
    assert!(analysis.routes.is_empty());

    let files = vec![source("n.md", Language::Markdown, "x")];
    match CodemapBuilder::new(files).build_for_file("/project/n.md") {
        Err(BuildError::Unsupported { language }) => assert_eq!(language, "markdown"),
        _ => panic!("expected an unsupported language"),
    }
    let files = vec![source("a.rs", Language::Rust, "fn a() {}")];
    match CodemapBuilder::new(files).build_for_file("/project/zzz.rs") {
        Err(BuildError::NotFound { path }) => assert_eq!(path, "/project/zzz.rs"),
        _ => panic!("expected a missing file"),
    }
}
