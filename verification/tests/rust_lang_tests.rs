use graxus::syntax_tree::{parse_text, parser_for, Grammar, SyntaxTree};
use graxus::codemap::{CallKind, SymbolFact, SymbolKind, Visibility};
use graxus::rust_lang::RustIndexer;

fn parse_rust(source: &str) -> SyntaxTree {
    let parser = parser_for(Grammar::Rust).unwrap();
    parse_text(parser, source).unwrap()
}

#[test]
fn rust_lang_test_extract_functions() {
    let source = r#"fn goodbye() { println!("hi"); }"#;
    let tree = parse_rust(source);
    let indexer = RustIndexer::new();
    let symbols = indexer.extract_symbols(&tree, source, "test.rs");
    assert_eq!(symbols.len(), 1);
    assert_eq!(symbols[0].name, "goodbye");
    assert_eq!(symbols[0].kind, SymbolKind::Function);
}

#[test]
fn rust_lang_test_extract_function_signature() {
    let source = r#"fn add(a: i32, b: i32) -> i32 { a + b }"#;
    let tree = parse_rust(source);
    let indexer = RustIndexer::new();
    let symbols = indexer.extract_symbols(&tree, source, "test.rs");
    assert_eq!(symbols.len(), 1);
    assert!(symbols[0].signature.contains("add"));
    assert!(symbols[0].signature.contains("a: i32"));
}

#[test]
fn rust_lang_test_extract_struct() {
    let source = r#"struct MyStruct { id: u32 }"#;
    let tree = parse_rust(source);
    let indexer = RustIndexer::new();
    let symbols = indexer.extract_symbols(&tree, source, "test.rs");
    assert_eq!(symbols.len(), 1);
    assert_eq!(symbols[0].name, "MyStruct");
    assert_eq!(symbols[0].kind, SymbolKind::Struct);
}

#[test]
fn rust_lang_test_extract_imports() {
    let source = r#"use std::collections::HashMap;"#;
    let tree = parse_rust(source);
    let indexer = RustIndexer::new();
    let imports = indexer.extract_imports(&tree, source, "test.rs");
    assert_eq!(imports.len(), 1);
    assert_eq!(imports[0].source, "std::collections::HashMap");
    assert_eq!(imports[0].local_name, Some("HashMap".to_string()));
}

#[test]
fn rust_lang_test_extract_calls() {
    let source = r#"fn main() { foo(); bar::baz(); }"#;
    let tree = parse_rust(source);
    let indexer = RustIndexer::new();
    let calls = indexer.extract_calls(&tree, source, "test.rs");
    assert!(calls.len() >= 2);
}

#[test]
fn test_is_test_function() {
    let source = r#"#[test]
fn my_test() {
    assert_eq!(1, 1);
}"#;
    let tree = parse_rust(source);
    let indexer = RustIndexer::new();
    let symbols = indexer.extract_symbols(&tree, source, "test.rs");
    assert_eq!(symbols.len(), 1);
    assert!(symbols[0].is_test);
}

fn symbol_named<'a>(symbols: &'a [SymbolFact], name: &str) -> &'a SymbolFact {
    symbols
        .iter()
        .find(|s| s.name == name)
        .unwrap_or_else(|| panic!("symbol '{}' not found in {:?}", name, symbols))
}

#[test]
fn test_visibility_private_function() {
    let source = "fn private_fn() {}";
    let tree = parse_rust(source);
    let indexer = RustIndexer::new();
    let symbols = indexer.extract_symbols(&tree, source, "test.rs");
    let s = symbol_named(&symbols, "private_fn");
    assert!(!s.exported, "plain fn should NOT be exported");
    assert_eq!(s.visibility, Visibility::Private);
}

#[test]
fn test_visibility_pub_function() {
    let source = "pub fn public_fn() {}";
    let tree = parse_rust(source);
    let indexer = RustIndexer::new();
    let symbols = indexer.extract_symbols(&tree, source, "test.rs");
    let s = symbol_named(&symbols, "public_fn");
    assert!(s.exported, "pub fn should be exported");
    assert_eq!(s.visibility, Visibility::Public);
}

#[test]
fn test_visibility_pub_crate_is_not_exported() {
    let source = "pub(crate) fn crate_fn() {}";
    let tree = parse_rust(source);
    let indexer = RustIndexer::new();
    let symbols = indexer.extract_symbols(&tree, source, "test.rs");
    let s = symbol_named(&symbols, "crate_fn");
    assert!(
        !s.exported,
        "pub(crate) is crate-internal, must not be flagged exported (else dead-code skips it)"
    );
    assert_eq!(s.visibility, Visibility::Internal);
}

#[test]
fn test_visibility_on_struct_and_enum() {
    let source = r#"
struct PrivateStruct {}
pub struct PublicStruct {}
enum PrivateEnum {}
pub enum PublicEnum {}
"#;
    let tree = parse_rust(source);
    let indexer = RustIndexer::new();
    let symbols = indexer.extract_symbols(&tree, source, "test.rs");
    assert!(!symbol_named(&symbols, "PrivateStruct").exported);
    assert!(symbol_named(&symbols, "PublicStruct").exported);
    assert!(!symbol_named(&symbols, "PrivateEnum").exported);
    assert!(symbol_named(&symbols, "PublicEnum").exported);
}

#[test]
fn test_mixed_visibility_in_one_file() {
    // This is the dead-code scan scenario: pub used + private unused.
    let source = r#"
fn main() {
    used();
}

fn used() {}

fn unused() {}

pub fn api() {}
"#;
    let tree = parse_rust(source);
    let indexer = RustIndexer::new();
    let symbols = indexer.extract_symbols(&tree, source, "test.rs");
    assert!(!symbol_named(&symbols, "main").exported);
    assert!(!symbol_named(&symbols, "used").exported);
    assert!(!symbol_named(&symbols, "unused").exported);
    assert!(symbol_named(&symbols, "api").exported);
}

#[test]
fn rust_lang_impl_blocks_and_path_calls() {
let source = "pub(super) struct S;\nimpl S {\n    fn go(&self) { a::b(); }\n}\n";
let tree = parse_rust(source);
let indexer = RustIndexer::new();
let symbols = indexer.extract_symbols(&tree, source, "m.rs");
let s = symbol_named(&symbols, "S");
assert_eq!(s.kind, SymbolKind::Struct);
assert_eq!(s.visibility, Visibility::Protected);
let go = symbol_named(&symbols, "go");
assert_eq!(go.signature, "fn go(&self)");
assert_eq!((go.line_start, go.line_end), (3, 3));
assert!(!go.is_test);
assert!(symbols.iter().any(|x| x.kind == SymbolKind::Module && x.name == "S"));
let calls = indexer.extract_calls(&tree, source, "m.rs");
assert_eq!(calls.len(), 1);
assert_eq!(calls[0].kind, CallKind::PathCall);
assert_eq!(calls[0].callee_text, "a::b");
assert_eq!(calls[0].line, 3);
}

#[test]
fn rust_lang_test_attribute_two_lines_up() {
let source = "#[test]\n#[ignore]\nfn slow() {}\n";
let tree = parse_rust(source);
let symbols = RustIndexer::new().extract_symbols(&tree, source, "m.rs");
assert_eq!(symbols.len(), 1);
assert!(symbols[0].is_test);
}
