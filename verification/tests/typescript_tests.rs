use graxus::syntax_tree::{parse_text, parser_for, Grammar, SyntaxTree};
use graxus::codemap::{CallKind, ImportKind, SymbolKind, Visibility};
use graxus::typescript::TypeScriptIndexer;

fn parse_ts(source: &str) -> SyntaxTree {
    let parser = parser_for(Grammar::TypeScript).unwrap();
    parse_text(parser, source).unwrap()
}

#[test]
fn typescript_test_extract_functions() {
    let source = r#"function goodbye() { return 1; }"#;
    let tree = parse_ts(source);
    let indexer = TypeScriptIndexer::new();
    let symbols = indexer.extract_symbols(&tree, source, "test.ts");
    assert_eq!(symbols.len(), 1);
    assert_eq!(symbols[0].name, "goodbye");
    assert_eq!(symbols[0].kind, SymbolKind::Function);
}

#[test]
fn typescript_test_extract_function_signature() {
    let source = r#"function greet(name: string, age: number): string { return ""; }"#;
    let tree = parse_ts(source);
    let indexer = TypeScriptIndexer::new();
    let symbols = indexer.extract_symbols(&tree, source, "test.ts");
    assert_eq!(symbols.len(), 1);
    assert!(symbols[0].signature.contains("greet"));
    assert!(symbols[0].signature.contains("name: string"));
}

#[test]
fn typescript_test_extract_imports() {
    let source = r#"import { foo } from "./bar";"#;
    let tree = parse_ts(source);
    let indexer = TypeScriptIndexer::new();
    let imports = indexer.extract_imports(&tree, source, "test.ts");
    assert_eq!(imports.len(), 1);
    assert_eq!(imports[0].source, "./bar");
    assert_eq!(imports[0].local_name, Some("foo".to_string()));
}

#[test]
fn typescript_test_extract_class() {
    let source = r#"class MyClass {}"#;
    let tree = parse_ts(source);
    let indexer = TypeScriptIndexer::new();
    let symbols = indexer.extract_symbols(&tree, source, "test.ts");
    assert_eq!(symbols.len(), 1);
    assert_eq!(symbols[0].name, "MyClass");
    assert_eq!(symbols[0].kind, SymbolKind::Class);
}

#[test]
fn typescript_test_extract_interface() {
    let source = r#"interface MyInterface { id: number; }"#;
    let tree = parse_ts(source);
    let indexer = TypeScriptIndexer::new();
    let symbols = indexer.extract_symbols(&tree, source, "test.ts");
    assert_eq!(symbols.len(), 1);
    assert_eq!(symbols[0].name, "MyInterface");
    assert_eq!(symbols[0].kind, SymbolKind::Interface);
}

#[test]
fn typescript_test_extract_calls() {
    let source = r#"foo(); bar.baz();"#;
    let tree = parse_ts(source);
    let indexer = TypeScriptIndexer::new();
    let calls = indexer.extract_calls(&tree, source, "test.ts");
    assert_eq!(calls.len(), 2);
}

#[test]
fn test_detect_test_calls() {
    let source = r#"it("should work", () => { expect(true).toBe(true); });"#;
    let tree = parse_ts(source);
    let indexer = TypeScriptIndexer::new();
    let symbols = indexer.extract_symbols(&tree, source, "test.ts");
    let test_syms: Vec<_> = symbols.iter().filter(|s| s.is_test).collect();
    assert_eq!(test_syms.len(), 1);
    assert_eq!(test_syms[0].name, "should work");
}

#[test]
fn typescript_default_and_namespace_imports_unquote_their_sources() {
    let source = "import React from 'react';\nimport * as path from \"path\";\n";
    let tree = parse_ts(source);
    let imports = TypeScriptIndexer::new().extract_imports(&tree, source, "app.ts");
    assert_eq!(imports.len(), 2);
    assert_eq!(imports[0].kind, ImportKind::DefaultImport);
    assert_eq!(imports[0].source, "react");
    assert_eq!(imports[0].local_name, Some("React".to_string()));
    assert_eq!(imports[0].imported_name, None);
    assert_eq!(imports[0].line, 1);
    assert_eq!(imports[1].kind, ImportKind::NamespaceImport);
    assert_eq!(imports[1].source, "path");
    assert_eq!(imports[1].local_name, Some("path".to_string()));
    assert_eq!(imports[1].line, 2);
    assert_eq!(imports[1].file, "app.ts");
    assert_eq!(imports[1].language, "typescript");
}

#[test]
fn typescript_exported_function_signature_and_lines() {
    let source = "\nexport function add(a: number, b: number) {\n  return a + b;\n}\n";
    let tree = parse_ts(source);
    let symbols = TypeScriptIndexer::new().extract_symbols(&tree, source, "m.ts");
    assert_eq!(symbols.len(), 1);
    assert_eq!(symbols[0].signature, "function add(a: number, b: number)");
    assert!(symbols[0].exported);
    assert_eq!(symbols[0].line_start, 2);
    assert_eq!(symbols[0].line_end, 4);
    assert!(!symbols[0].is_test);
}

#[test]
fn typescript_test_named_function_is_a_test() {
    let source = "function test_adds() {}";
    let tree = parse_ts(source);
    let symbols = TypeScriptIndexer::new().extract_symbols(&tree, source, "m.ts");
    assert_eq!(symbols.len(), 1);
    assert!(symbols[0].is_test);
}

#[test]
fn typescript_constants_types_and_enums() {
    let source = "const a = 1, b = 2;\ntype Id = string;\nenum Color { Red }\n";
    let tree = parse_ts(source);
    let symbols = TypeScriptIndexer::new().extract_symbols(&tree, source, "m.ts");
    let kinds: Vec<(String, SymbolKind)> = symbols.iter().map(|s| (s.name.clone(), s.kind)).collect();
    assert_eq!(
        kinds,
        vec![
            ("Id".to_string(), SymbolKind::Type),
            ("Color".to_string(), SymbolKind::Enum),
            ("a".to_string(), SymbolKind::Constant),
            ("b".to_string(), SymbolKind::Constant),
        ]
    );
}

#[test]
fn typescript_test_call_symbol_signature() {
    let source = "test('adds', () => {});";
    let tree = parse_ts(source);
    let symbols = TypeScriptIndexer::new().extract_symbols(&tree, source, "m.test.ts");
    assert_eq!(symbols.len(), 1);
    assert_eq!(symbols[0].name, "adds");
    assert_eq!(symbols[0].signature, "test(adds)");
    assert_eq!(symbols[0].visibility, Visibility::Private);
    assert!(symbols[0].is_test);
    assert_eq!(symbols[0].line_start, 1);
    assert_eq!(symbols[0].line_end, 1);
}

#[test]
fn typescript_call_kinds() {
    let source = "foo();\nnew Bar();\n";
    let tree = parse_ts(source);
    let calls = TypeScriptIndexer::new().extract_calls(&tree, source, "m.ts");
    assert_eq!(calls.len(), 2);
    assert_eq!(calls[0].kind, CallKind::FunctionCall);
    assert_eq!(calls[0].callee_text, "foo");
    assert_eq!(calls[0].line, 1);
    assert_eq!(calls[0].column, 0);
    assert_eq!(calls[1].kind, CallKind::ConstructorCall);
    assert_eq!(calls[1].callee_text, "Bar");
    assert_eq!(calls[1].line, 2);
}

#[test]
fn typescript_extensions_and_language() {
    let ix = TypeScriptIndexer::new();
    assert_eq!(ix.language_id(), "typescript");
    assert_eq!(ix.extensions(), vec!["ts", "tsx", "mts", "cts", "js", "jsx", "mjs", "cjs"]);
}
