use graxus::codemap::{CallFact, CallKind, ConfidenceScore, ImportFact, ImportKind, ResolutionMethod, SymbolFact};
use graxus::symbol_resolver::{callee_name, resolve_calls};

fn symbol(file: &str, name: &str) -> SymbolFact {
    SymbolFact {
        file: file.to_string(),
        name: name.to_string(),
        language: "rust".to_string(),
        ..Default::default()
    }
}

fn import(file: &str, resolved_file: &str) -> ImportFact {
    ImportFact {
        id: format!("import:{file}"),
        file: file.to_string(),
        language: "rust".to_string(),
        kind: ImportKind::RustUse,
        source: "crate::handler::run".to_string(),
        local_name: Some("run".to_string()),
        imported_name: None,
        resolved_file: Some(resolved_file.to_string()),
        line: 1,
        confidence: ConfidenceScore::named_import_exact(),
    }
}

fn call(file: &str, resolved_symbol: Option<&str>) -> CallFact {
    CallFact {
        id: format!("call:{file}"),
        file: file.to_string(),
        language: "rust".to_string(),
        kind: CallKind::FunctionCall,
        caller_symbol: None,
        callee_text: "run".to_string(),
        object: None,
        resolved_symbol: resolved_symbol.map(str::to_string),
        line: 2,
        column: 0,
        confidence: ConfidenceScore::named_import_exact(),
    }
}

#[test]
fn scopes_imported_calls_to_their_calling_file() {
    let symbols = vec![
        symbol("src/one_handler.rs", "run"),
        symbol("src/two_handler.rs", "run"),
    ];
    let imports = vec![
        import("src/one.rs", "src/one_handler.rs"),
        import("src/two.rs", "src/two_handler.rs"),
    ];
    let mut calls = vec![
        call("src/one.rs", Some("stale::run")),
        call("src/two.rs", Some("stale::run")),
    ];

    resolve_calls(&mut calls, &symbols, &imports);

    assert_eq!(
        calls[0].resolved_symbol.as_deref(),
        Some("src/one_handler.rs::run")
    );
    assert_eq!(
        calls[1].resolved_symbol.as_deref(),
        Some("src/two_handler.rs::run")
    );
}

#[test]
fn unresolved_calls_do_not_retain_stale_targets() {
    let mut calls = vec![call("src/main.rs", Some("src/old.rs::run"))];
    resolve_calls(&mut calls, &vec![], &vec![]);

    assert!(calls[0].resolved_symbol.is_none());
    assert_eq!(calls[0].confidence, ConfidenceScore::unresolved());
}

#[test]
fn callee_names_take_the_last_path_and_member_segment() {
    assert_eq!(callee_name("a::b::c"), "c");
    assert_eq!(callee_name("obj.method"), "method");
    assert_eq!(callee_name("m::x.y"), "y");
    assert_eq!(callee_name("a:::b"), "b");
    assert_eq!(callee_name("plain"), "plain");
}

#[test]
fn local_definitions_win_then_project_matches() {
    let symbols = vec![symbol("src/lib.rs", "helper"), symbol("src/main.rs", "helper")];
    let mut calls = vec![call("src/main.rs", None), call("src/other.rs", None)];
    calls[0].callee_text = "helper".to_string();
    calls[1].callee_text = "util::helper".to_string();
    resolve_calls(&mut calls, &symbols, &vec![]);
    assert_eq!(calls[0].resolved_symbol.as_deref(), Some("src/main.rs::helper"));
    assert_eq!(calls[0].confidence.method, ResolutionMethod::LocalDefinition);
    assert_eq!(calls[0].confidence.percent, 98);
    assert_eq!(calls[1].resolved_symbol.as_deref(), Some("src/lib.rs::helper"));
    assert_eq!(calls[1].confidence, ConfidenceScore::same_project());
}

#[test]
fn method_calls_on_imported_objects() {
    let mut imp = import("src/app.ts", "src/db.ts");
    imp.local_name = Some("db".to_string());
    let mut c = call("src/app.ts", None);
    c.callee_text = "query".to_string();
    c.object = Some("db".to_string());
    c.kind = CallKind::MethodCall;
    let mut calls = vec![c];
    resolve_calls(&mut calls, &vec![], &vec![imp]);
    assert_eq!(calls[0].resolved_symbol.as_deref(), Some("src/db.ts::query"));
    assert_eq!(calls[0].confidence, ConfidenceScore::named_import_exact());
}
