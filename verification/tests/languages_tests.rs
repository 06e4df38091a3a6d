use graxus::syntax_tree::{parse_text, parser_for, Grammar, SyntaxTree};
use graxus::codemap::{CallKind, ImportKind, SymbolKind, Visibility};
use graxus::languages::{CIndexer, GoIndexer, JavaIndexer, PythonIndexer, SwiftIndexer};

fn parse_with(grammar: Grammar, source: &str) -> SyntaxTree {
    let parser = parser_for(grammar).unwrap();
    parse_text(parser, source).unwrap()
}

fn parse_c(source: &str) -> SyntaxTree {
    parse_with(Grammar::C, source)
}

fn parse_go(source: &str) -> SyntaxTree {
    parse_with(Grammar::Go, source)
}

// ── C ──────────────────────────────────────────────────────────────────

#[test]
fn c_test_extract_functions() {
    let source = r#"int add(int a, int b) { return a + b; }"#;
    let tree = parse_c(source);
    let indexer = CIndexer::new();
    let symbols = indexer.extract_symbols(&tree, source, "test.c");
    assert_eq!(symbols.len(), 1);
    assert_eq!(symbols[0].name, "add");
    assert_eq!(symbols[0].kind, SymbolKind::Function);
}

#[test]
fn c_test_extract_function_signature() {
    let source = r#"int add(int a, int b) { return a + b; }"#;
    let tree = parse_c(source);
    let indexer = CIndexer::new();
    let symbols = indexer.extract_symbols(&tree, source, "test.c");
    assert_eq!(symbols.len(), 1);
    assert!(symbols[0].signature.contains("add"));
    assert!(symbols[0].signature.contains("int a"));
}

#[test]
fn c_test_extract_struct() {
    let source = r#"struct Point { int x; int y; };"#;
    let tree = parse_c(source);
    let indexer = CIndexer::new();
    let symbols = indexer.extract_symbols(&tree, source, "test.c");
    let structs: Vec<_> = symbols.iter().filter(|s| s.kind == SymbolKind::Struct).collect();
    assert_eq!(structs.len(), 1);
    assert_eq!(structs[0].name, "Point");
}

#[test]
fn c_test_extract_imports() {
    let source = r#"#include <stdio.h>"#;
    let tree = parse_c(source);
    let indexer = CIndexer::new();
    let imports = indexer.extract_imports(&tree, source, "test.c");
    assert_eq!(imports.len(), 1);
    assert_eq!(imports[0].source, "<stdio.h>");
    assert_eq!(imports[0].kind, ImportKind::GoImport);
}

#[test]
fn c_test_extract_calls() {
    let source = r#"int main() { printf("goodbye"); return 0; }"#;
    let tree = parse_c(source);
    let indexer = CIndexer::new();
    let calls = indexer.extract_calls(&tree, source, "test.c");
    assert!(calls.len() >= 1);
    assert!(calls.iter().any(|c| c.callee_text == "printf"));
}

#[test]
fn c_static_function_is_private_and_signature_is_exact() {
    let source = "static int helper(void) { return 1; }\n\nint api(int x) { return helper(); }\n";
    let tree = parse_c(source);
    let symbols = CIndexer::new().extract_symbols(&tree, source, "m.c");
    assert_eq!(symbols.len(), 2);
    assert_eq!(symbols[0].signature, "helper(void)");
    assert!(!symbols[0].exported);
    assert_eq!(symbols[0].visibility, Visibility::Private);
    assert_eq!(symbols[1].signature, "api(int x)");
    assert!(symbols[1].exported);
    assert_eq!(symbols[1].visibility, Visibility::Public);
    assert_eq!(symbols[1].line_start, 3);
    assert_eq!(symbols[1].language, "c");
}

#[test]
fn c_quoted_include_keeps_its_quotes() {
    let source = "#include \"util.h\"\n";
    let tree = parse_c(source);
    let imports = CIndexer::new().extract_imports(&tree, source, "m.c");
    assert_eq!(imports.len(), 1);
    assert_eq!(imports[0].source, "\"util.h\"");
    assert_eq!(imports[0].local_name.as_deref(), Some("\"util.h\""));
    assert_eq!(imports[0].imported_name, None);
}

// ── Go ─────────────────────────────────────────────────────────────────

#[test]
fn go_test_extract_functions() {
    let source = r#"package main
func hello() string { return "hi" }"#;
    let tree = parse_go(source);
    let indexer = GoIndexer;
    let symbols = indexer.extract_symbols(&tree, source, "test.go");
    assert_eq!(symbols.len(), 1);
    assert_eq!(symbols[0].name, "hello");
}

#[test]
fn go_test_extract_function_signature() {
    let source = r#"package main
func add(a int, b int) int { return a + b }"#;
    let tree = parse_go(source);
    let indexer = GoIndexer;
    let symbols = indexer.extract_symbols(&tree, source, "test.go");
    assert_eq!(symbols.len(), 1);
    assert!(symbols[0].signature.contains("add"));
    assert!(symbols[0].signature.contains("a int"));
}

#[test]
fn go_test_extract_struct() {
    let source = r#"package main
type MyStruct struct { ID int }"#;
    let tree = parse_go(source);
    let indexer = GoIndexer;
    let symbols = indexer.extract_symbols(&tree, source, "test.go");
    assert_eq!(symbols.len(), 1);
    assert_eq!(symbols[0].name, "MyStruct");
    assert_eq!(symbols[0].kind, SymbolKind::Struct);
}

#[test]
fn go_test_extract_imports() {
    let source = r#"package main
import "fmt""#;
    let tree = parse_go(source);
    let indexer = GoIndexer;
    let imports = indexer.extract_imports(&tree, source, "test.go");
    assert_eq!(imports.len(), 1);
    assert_eq!(imports[0].source, "fmt");
}

#[test]
fn test_detect_test_function() {
    let source = r#"package main
func TestAdd(t *testing.T) {
    if add(1, 2) != 3 { t.Fatal("fail") }
}"#;
    let tree = parse_go(source);
    let indexer = GoIndexer;
    let symbols = indexer.extract_symbols(&tree, source, "test.go");
    assert_eq!(symbols.len(), 1);
    assert!(symbols[0].is_test);
}

#[test]
fn go_exported_names_signatures_and_grouped_imports() {
    let source = "package main\nimport (\n\t\"net/http\"\n)\nfunc Serve(port int) {}\n";
    let tree = parse_go(source);
    let ix = GoIndexer::new();
    let symbols = ix.extract_symbols(&tree, source, "s.go");
    assert_eq!(symbols.len(), 1);
    assert_eq!(symbols[0].signature, "func Serve(port int)");
    assert!(symbols[0].exported);
    assert_eq!(symbols[0].visibility, Visibility::Public);
    let imports = ix.extract_imports(&tree, source, "s.go");
    assert_eq!(imports.len(), 1);
    assert_eq!(imports[0].source, "net/http");
    assert_eq!(imports[0].local_name.as_deref(), Some("http"));
    assert_eq!(imports[0].line, 3);
}

#[test]
fn go_calls_plain_then_selector() {
    let source = "package main\nfunc main() { run(); fmt.Println(1) }\n";
    let tree = parse_go(source);
    let calls = GoIndexer::new().extract_calls(&tree, source, "m.go");
    assert_eq!(calls.len(), 2);
    assert_eq!(calls[0].kind, CallKind::FunctionCall);
    assert_eq!(calls[0].callee_text, "run");
    assert_eq!(calls[1].kind, CallKind::SelectorCall);
    assert!(calls[1].object.is_some());
}

// ── Java, Swift and Python ─────────────────────────────────────────────

#[test]
fn java_imports_symbols_and_calls() {
    let source = "import java.util.List;\npublic class App {\n    void run() { helper(); }\n}\n";
    let tree = parse_with(Grammar::Java, source);
    let ix = JavaIndexer::new();
    let imports = ix.extract_imports(&tree, source, "App.java");
    assert_eq!(imports.len(), 1);
    assert_eq!(imports[0].source, "java.util.List");
    assert_eq!(imports[0].local_name.as_deref(), Some("List"));
    assert_eq!(imports[0].imported_name.as_deref(), Some("List"));
    assert_eq!(imports[0].kind, ImportKind::JavaImport);
    let symbols = ix.extract_symbols(&tree, source, "App.java");
    assert_eq!(symbols.len(), 2);
    assert_eq!((symbols[0].kind, symbols[0].name.as_str()), (SymbolKind::Class, "App"));
    assert!(symbols[0].exported);
    assert_eq!((symbols[1].kind, symbols[1].name.as_str()), (SymbolKind::Function, "run"));
    // The modifier text read includes the non-blank line above the method.
    assert_eq!(symbols[1].visibility, Visibility::Public);
    let calls = ix.extract_calls(&tree, source, "App.java");
    assert_eq!(calls.len(), 1);
    assert_eq!(calls[0].callee_text, "helper");
    assert_eq!(calls[0].line, 3);
}

#[test]
fn python_imports_and_private_names() {
    let source = "import os.path\nfrom a.b import c\ndef _hidden():\n    pass\ndef test_x():\n    pass\n";
    let tree = parse_with(Grammar::Python, source);
    let ix = PythonIndexer::new();
    let imports = ix.extract_imports(&tree, source, "m.py");
    assert_eq!(imports.len(), 2);
    assert_eq!(imports[0].kind, ImportKind::FromImport);
    assert_eq!(imports[0].source, "a.b");
    assert_eq!(imports[0].local_name.as_deref(), Some("c"));
    assert_eq!(imports[0].imported_name.as_deref(), Some("c"));
    assert_eq!(imports[1].kind, ImportKind::PythonImport);
    assert_eq!(imports[1].source, "os.path");
    // Capture 1 of the plain import query is the whole statement.
    assert_eq!(imports[1].local_name.as_deref(), Some("import os.path"));
    assert_eq!(imports[1].imported_name.as_deref(), Some("import os.path"));
    let symbols = ix.extract_symbols(&tree, source, "m.py");
    assert_eq!(symbols.len(), 2);
    assert!(!symbols[0].exported);
    assert_eq!(symbols[0].visibility, Visibility::Private);
    assert!(symbols[1].is_test);
    assert!(symbols[1].exported);
}

#[test]
fn swift_language_and_extensions() {
    let ix = SwiftIndexer::new();
    assert_eq!(ix.language_id(), "swift");
    assert_eq!(ix.extensions(), vec!["swift"]);
    let source = "import Foundation\n";
    let tree = parse_with(Grammar::Swift, source);
    let imports = ix.extract_imports(&tree, source, "a.swift");
    assert!(imports.iter().all(|i| i.kind == ImportKind::SwiftImport && i.local_name.as_deref() == Some(i.source.as_str())));
}

fn described<T: graxus::registry::LanguageIndexer>(ix: &T) -> (String, Vec<&'static str>) {
    (ix.language_id().to_string(), ix.extensions())
}

#[test]
fn indexers_share_one_interface() {
    assert_eq!(described(&graxus::csharp::CSharpIndexer::new()).0, "csharp");
    assert_eq!(described(&graxus::languages::GoIndexer::new()), ("go".to_string(), vec!["go"]));
    assert_eq!(described(&graxus::rust_lang::RustIndexer::new()), ("rust".to_string(), vec!["rs"]));
    assert_eq!(described(&graxus::languages::CIndexer::new()).0, "c");
}
