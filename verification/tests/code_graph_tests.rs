use graxus::code_graph::CodeGraph;
use graxus::codemap::{
    CallFact, CallKind, CodeEdge, CodeEdgeType, ConfidenceLabel, ConfidenceScore, FileNode, ImportFact, ImportKind,
    ResolutionMethod, SymbolFact,
};

fn edge(from: &str, to: &str, edge_type: CodeEdgeType) -> CodeEdge {
    CodeEdge { from: from.to_string(), to: to.to_string(), edge_type }
}

fn file(path: &str) -> FileNode {
    FileNode { path: path.to_string(), language: "rust".to_string(), hash: "h".to_string(), size: 1 }
}

fn symbol(id: &str, file: &str, name: &str) -> SymbolFact {
    SymbolFact { id: id.to_string(), file: file.to_string(), name: name.to_string(), ..Default::default() }
}

fn call(file: &str, resolved: Option<&str>) -> CallFact {
    CallFact {
        id: format!("call:{file}"),
        file: file.to_string(),
        language: "rust".to_string(),
        kind: CallKind::FunctionCall,
        caller_symbol: None,
        callee_text: "run".to_string(),
        object: None,
        resolved_symbol: resolved.map(str::to_string),
        line: 4,
        column: 0,
        confidence: ConfidenceScore::local_definition(),
    }
}

fn import(file: &str) -> ImportFact {
    ImportFact {
        id: format!("import:{file}"),
        file: file.to_string(),
        language: "rust".to_string(),
        kind: ImportKind::RustUse,
        source: "crate::x".to_string(),
        local_name: None,
        imported_name: None,
        resolved_file: None,
        line: 1,
        confidence: ConfidenceScore::unresolved(),
    }
}

#[test]
fn confidence_scores_normalize_non_finite_and_out_of_range_values() {
    let high = ConfidenceScore::new(150, ResolutionMethod::SyntaxOnly);
    assert_eq!(high.percent, 100);
    assert_eq!(high.label, ConfidenceLabel::Exact);
}

#[test]
fn removing_a_file_removes_edges_to_its_symbols_and_path() {
    let mut graph = CodeGraph {
        edges: vec![
            edge("src/changed.rs", "src/other.rs", CodeEdgeType::Imports),
            edge("src/other.rs", "src/changed.rs::run", CodeEdgeType::Calls),
            edge("src/other.rs::keep", "src/other.rs", CodeEdgeType::DefinedIn),
        ],
        ..Default::default()
    };

    graph.remove_file("src/changed.rs");

    assert_eq!(graph.edges.len(), 1);
    assert_eq!(graph.edges[0].from, "src/other.rs::keep");
}

#[test]
fn calls_to_symbol_accepts_canonical_symbol_ids() {
    let mut graph = CodeGraph::default();
    graph.symbols.push(symbol("symbol:src/lib.rs:run:1:0", "src/lib.rs", "run"));
    let mut c = call("src/main.rs", Some("src/lib.rs::run"));
    c.id = "call:src/main.rs:4:0".to_string();
    graph.calls.push(c);

    assert_eq!(graph.calls_to_symbol("symbol:src/lib.rs:run:1:0").len(), 1);
}

#[test]
fn calls_to_symbol_matches_the_raw_resolved_text_and_nothing_else() {
    let mut graph = CodeGraph::default();
    graph.symbols.push(symbol("sym-a", "src/a.rs", "run"));
    graph.calls.push(call("src/main.rs", Some("sym-a")));
    graph.calls.push(call("src/main.rs", Some("src/b.rs::run")));
    graph.calls.push(call("src/main.rs", None));

    assert_eq!(graph.calls_to_symbol("sym-a").len(), 1);
    assert_eq!(graph.calls_to_symbol("src/b.rs::run").len(), 1);
    assert_eq!(graph.calls_to_symbol("missing").len(), 0);
}

#[test]
fn remove_file_drops_every_fact_of_the_file_and_keeps_the_rest() {
    let mut graph = CodeGraph::default();
    graph.files.push(file("src/a.rs"));
    graph.files.push(file("src/b.rs"));
    graph.symbols.push(symbol("s1", "src/a.rs", "one"));
    graph.symbols.push(symbol("s2", "src/b.rs", "two"));
    graph.imports.push(import("src/a.rs"));
    graph.calls.push(call("src/a.rs", None));
    graph.calls.push(call("src/b.rs", None));
    graph.edges.push(edge("src/a.rs::one", "src/b.rs", CodeEdgeType::References));
    graph.edges.push(edge("src/b.rs", "src/a.rsx", CodeEdgeType::References));

    graph.remove_file("src/a.rs");

    assert!(!graph.has_file("src/a.rs"));
    assert!(graph.has_file("src/b.rs"));
    assert_eq!(graph.symbols.len(), 1);
    assert_eq!(graph.symbols[0].id, "s2");
    assert!(graph.imports.is_empty());
    assert_eq!(graph.calls.len(), 1);
    assert_eq!(graph.calls[0].file, "src/b.rs");
    // "src/a.rsx" is another file, not a symbol of "src/a.rs".
    assert_eq!(graph.edges.len(), 1);
    assert_eq!(graph.edges[0].to, "src/a.rsx");
}

#[test]
fn merge_replaces_the_facts_of_files_in_the_newer_graph() {
    let mut graph = CodeGraph::default();
    graph.files.push(file("src/a.rs"));
    graph.files.push(file("src/b.rs"));
    graph.symbols.push(symbol("old-a", "src/a.rs", "old"));
    graph.symbols.push(symbol("b", "src/b.rs", "keep"));

    let mut newer = CodeGraph::default();
    newer.files.push(file("src/a.rs"));
    newer.symbols.push(symbol("new-a", "src/a.rs", "fresh"));

    graph.merge(newer);

    assert_eq!(graph.file_paths(), vec!["src/b.rs", "src/a.rs"]);
    let ids: Vec<&str> = graph.symbols.iter().map(|s| s.id.as_str()).collect();
    assert_eq!(ids, vec!["b", "new-a"]);
    assert!(graph.find_symbol("old").is_none());
    assert_eq!(graph.find_symbol("fresh").unwrap().id, "new-a");
}

#[test]
fn lookups_by_name_and_file_keep_the_graph_order() {
    let mut graph = CodeGraph::default();
    graph.symbols.push(symbol("1", "src/a.rs", "run"));
    graph.symbols.push(symbol("2", "src/b.rs", "stop"));
    graph.symbols.push(symbol("3", "src/b.rs", "run"));
    graph.calls.push(call("src/b.rs", None));

    assert_eq!(graph.find_symbol("run").unwrap().id, "1");
    let named: Vec<&str> = graph.find_symbols("run").iter().map(|s| s.id.as_str()).collect();
    assert_eq!(named, vec!["1", "3"]);
    let in_b: Vec<&str> = graph.symbols_in_file("src/b.rs").iter().map(|s| s.id.as_str()).collect();
    assert_eq!(in_b, vec!["2", "3"]);
    assert_eq!(graph.calls_in_file("src/b.rs").len(), 1);
    assert!(graph.imports_in_file("src/b.rs").is_empty());

    let ix = graph.build_indexes();
    let by_index: Vec<&str> = ix.symbols_by_name(&graph, "run").iter().map(|s| s.id.as_str()).collect();
    assert_eq!(by_index, vec!["1", "3"]);
    assert_eq!(ix.find_symbol(&graph, "stop").unwrap().id, "2");
    assert_eq!(ix.symbols_in_file(&graph, "src/b.rs").len(), 2);
    assert_eq!(ix.calls_in_file(&graph, "src/b.rs").len(), 1);
    assert!(ix.imports_in_file(&graph, "src/a.rs").is_empty());
}

#[test]
fn parser_lookups_on_an_empty_graph_find_nothing() {
    let graph = CodeGraph::new();
    assert!(graph.parser_result_for_file("src/a.rs").is_none());
    assert!(graph.parser_fact("fact").is_none());
    assert!(graph.file_paths().is_empty());
}
