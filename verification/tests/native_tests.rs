use graxus::native::{assemble_native, NativeFacts, NativeSymbol};

fn method(name: &str, line: usize) -> NativeSymbol {
    NativeSymbol {
        kind: "method".to_string(),
        name: name.to_string(),
        exported: false,
        visibility: "public".to_string(),
        line_start: line,
        line_end: line,
        signature: String::new(),
        is_test: false,
        is_async: false,
        is_static: false,
        return_type: None,
        doc_string: None,
        attributes: vec![],
        base_classes: vec![],
        data: serde_json::Value::Null,
    }
}

#[test]
fn native_assembly_gives_overloads_distinct_ids_with_parser_facts() {
    let facts = NativeFacts {
        symbols: vec![method("Service.run", 1), method("Service.run", 1)],
        imports: vec![],
        calls: vec![],
        variables: vec![],
        diagnostics: vec![],
    };
    let r = assemble_native("typescript", "service.ts", facts);
    let runs: Vec<_> = r.symbols.iter().filter(|s| s.name == "Service.run").collect();
    assert_eq!(runs.len(), 2);
    assert_ne!(runs[0].id, runs[1].id);
    assert!(runs.iter().all(|s| r.parser_facts.iter().any(|f| f.id == s.id)));
}
