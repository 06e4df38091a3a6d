use graxus::syntax_tree::{parse_text, parser_for, Grammar, SyntaxTree};
use graxus::codemap::{CallKind, SymbolKind, Visibility};
use graxus::csharp::CSharpIndexer;

fn parse_csharp(source: &str) -> SyntaxTree {
    let parser = parser_for(Grammar::CSharp).unwrap();
    parse_text(parser, source).unwrap()
}

#[test]
fn csharp_test_extract_class() {
    let source = r#"public class MyClass {
    private int x;
    public void DoSomething() {}
}"#;
    let tree = parse_csharp(source);
    let indexer = CSharpIndexer::new();
    let symbols = indexer.extract_symbols(&tree, source, "test.cs");
    let classes: Vec<_> = symbols.iter().filter(|s| s.kind == SymbolKind::Class).collect();
    assert!(!classes.is_empty());
    assert_eq!(classes[0].name, "MyClass");
}

#[test]
fn csharp_test_extract_interface() {
    let source = r#"public interface ILogger {
    void Log(string message);
}"#;
    let tree = parse_csharp(source);
    let indexer = CSharpIndexer::new();
    let symbols = indexer.extract_symbols(&tree, source, "test.cs");
    let interfaces: Vec<_> = symbols.iter().filter(|s| s.kind == SymbolKind::Interface).collect();
    assert_eq!(interfaces.len(), 1);
    assert_eq!(interfaces[0].name, "ILogger");
}

#[test]
fn test_extract_using() {
    let source = r#"using System;
using System.Collections.Generic;"#;
    let tree = parse_csharp(source);
    let indexer = CSharpIndexer::new();
    let imports = indexer.extract_imports(&tree, source, "test.cs");
    assert_eq!(imports.len(), 2);
    assert_eq!(imports[0].source, "System");
    assert_eq!(imports[1].source, "System.Collections.Generic");
}

#[test]
fn test_extract_method_calls() {
    let source = r#"class Program {
    static void Main() {
        Console.WriteLine("goodbye");
        var obj = new MyClass();
    }
}"#;
    let tree = parse_csharp(source);
    let indexer = CSharpIndexer::new();
    let calls = indexer.extract_calls(&tree, source, "test.cs");
    assert!(calls.len() >= 2);
}

#[test]
fn test_extract_method_signature() {
    let source = r#"public class Calculator {
    public int Add(int a, int b) { return a + b; }
}"#;
    let tree = parse_csharp(source);
    let indexer = CSharpIndexer::new();
    let symbols = indexer.extract_symbols(&tree, source, "test.cs");
    let methods: Vec<_> = symbols.iter().filter(|s| s.kind == SymbolKind::Method).collect();
    assert_eq!(methods.len(), 1);
    assert!(methods[0].signature.contains("Add"));
    assert!(methods[0].signature.contains("int a"));
}

#[test]
fn csharp_facts_carry_lines_visibility_and_kinds() {
    let source = "namespace App {\n    internal class Worker {\n\n        private void Run() { Helper(); Console.Write(1); }\n    }\n}\n";
    let tree = parse_csharp(source);
    let indexer = CSharpIndexer::new();
    let symbols = indexer.extract_symbols(&tree, source, "w.cs");
    let names: Vec<_> = symbols.iter().map(|s| (s.kind, s.name.as_str())).collect();
    assert_eq!(names, vec![(SymbolKind::Class, "Worker"), (SymbolKind::Method, "Run"), (SymbolKind::Module, "App")]);
    assert_eq!(symbols[0].visibility, Visibility::Internal);
    assert!(!symbols[0].exported);
    assert_eq!((symbols[0].line_start, symbols[0].line_end), (2, 5));
    assert_eq!(symbols[1].visibility, Visibility::Private);
    assert_eq!(symbols[1].signature, "Run()");
    let calls = indexer.extract_calls(&tree, source, "w.cs");
    assert_eq!(calls.len(), 2);
    assert_eq!((calls[0].kind, calls[0].callee_text.as_str(), calls[0].line), (CallKind::FunctionCall, "Helper", 4));
    assert_eq!((calls[1].kind, calls[1].callee_text.as_str()), (CallKind::MethodCall, "Console.Write"));
    let imports = indexer.extract_imports(&parse_csharp("using A.B.C;"), "using A.B.C;", "u.cs");
    assert_eq!(imports[0].local_name.as_deref(), Some("C"));
    assert_eq!(imports[0].line, 1);
}
