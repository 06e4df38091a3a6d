use graxus::codemap::{
    build_indexes, build_symbol_lookup, confidence_label, is_go_test, is_test_name, ripex_supports,
    ConfidenceLabel, FileNode, SymbolFact, SymbolKind,
};

#[test]
fn test_is_go_test() {
    assert!(is_go_test("TestHello", "(t *testing.T)"));
    assert!(!is_go_test("hello", "()"));
    assert!(!is_go_test("Test", "(t *testing.T)"));
}

#[test]
fn go_test_needs_testing_t() {
    assert!(!is_go_test("TestHello", "(b *testing.B)"));
    assert!(is_go_test("TestÄ", "(t *testing.T)"));
}

#[test]
fn test_is_test_name() {
    assert!(is_test_name("test_something"));
    assert!(is_test_name("test it works"));
    assert!(!is_test_name("handleClick"));
    assert!(!is_test_name("getData"));
}

#[test]
fn test_names_ignore_case() {
    assert!(is_test_name("TEST"));
    assert!(is_test_name("Test_Login"));
    assert!(!is_test_name("testing"));
}

#[test]
fn ripex_covers_eight_languages() {
    for lang in ["rust", "typescript", "javascript", "go", "python", "c", "cpp", "csharp"] {
        assert!(ripex_supports(lang));
    }
    for lang in ["java", "kotlin", "swift", "markdown", "Rust"] {
        assert!(!ripex_supports(lang));
    }
}

#[test]
fn confidence_labels_by_percentage() {
    assert_eq!(confidence_label(100), ConfidenceLabel::Exact);
    assert_eq!(confidence_label(95), ConfidenceLabel::Exact);
    assert_eq!(confidence_label(94), ConfidenceLabel::High);
    assert_eq!(confidence_label(80), ConfidenceLabel::High);
    assert_eq!(confidence_label(60), ConfidenceLabel::Medium);
    assert_eq!(confidence_label(59), ConfidenceLabel::Low);
    assert_eq!(confidence_label(35), ConfidenceLabel::Low);
    assert_eq!(confidence_label(34), ConfidenceLabel::Weak);
    assert_eq!(confidence_label(1), ConfidenceLabel::Weak);
    assert_eq!(confidence_label(0), ConfidenceLabel::Unresolved);
    assert_eq!(confidence_label(101), ConfidenceLabel::Unresolved);
}

fn symbol(file: &str, name: &str) -> SymbolFact {
    let mut s = SymbolFact::default();
    s.file = file.to_string();
    s.name = name.to_string();
    s
}

#[test]
fn indexes_list_positions_in_order() {
    let files = vec![
        FileNode { path: "a.rs".to_string(), language: "rust".to_string(), hash: "h".to_string(), size: 1 },
        FileNode { path: "b.rs".to_string(), language: "rust".to_string(), hash: "h".to_string(), size: 2 },
    ];
    let symbols = vec![symbol("a.rs", "run"), symbol("b.rs", "main"), symbol("b.rs", "run")];
    let ix = build_indexes(&files, &symbols, &vec!["a.rs".to_string()], &vec![]);
    assert!(ix.has_file("a.rs"));
    assert!(ix.has_file("b.rs"));
    assert!(!ix.has_file("c.rs"));
    assert_eq!(ix.symbol_positions("run"), vec![0, 2]);
    assert_eq!(ix.symbol_positions("main"), vec![1]);
    assert!(ix.symbol_positions("missing").is_empty());
    let lookup = build_symbol_lookup(&symbols);
    assert_eq!(lookup.get("run"), Some(&vec![0, 2]));
}

#[test]
fn symbol_kind_names() {
    assert_eq!(SymbolKind::Function.name(), "function");
    assert_eq!(SymbolKind::Namespace.name(), "namespace");
    let s = SymbolFact::default();
    assert_eq!(s.kind, SymbolKind::Function);
    assert!(!s.exported && s.attributes.is_empty());
}
