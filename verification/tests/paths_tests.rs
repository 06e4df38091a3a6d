use graxus::paths::{extension, file_name, join, normalize_canonical, normalize_path, path_components, starts_with_path};

#[test]
fn test_normalize_path_forward_slashes() {
    assert_eq!(normalize_path("src/main.rs"), "src/main.rs");
}

#[test]
fn test_normalize_path_backslashes() {
    assert_eq!(normalize_path("src\\main.rs"), "src/main.rs");
}

#[test]
fn test_normalize_path_nested() {
    assert_eq!(normalize_path("crates/graxus-core/src/lib.rs"), "crates/graxus-core/src/lib.rs");
}

#[test]
fn test_normalize_canonical_no_prefix() {
    assert_eq!(normalize_canonical("/some/path"), "/some/path");
}

#[test]
fn test_normalize_canonical_strips_prefix() {
    assert_eq!(normalize_canonical(r"\\?\C:\Users\test\project"), r"C:\Users\test\project");
}

#[test]
fn test_normalize_canonical_no_prefix_windows() {
    assert_eq!(normalize_canonical(r"C:\Users\test\project"), r"C:\Users\test\project");
}

#[test]
fn components_follow_path_rules() {
    assert_eq!(path_components("/a//b/./c/"), vec!["/", "a", "b", "c"]);
    assert_eq!(path_components("./a/../b"), vec![".", "a", "..", "b"]);
    assert_eq!(path_components("."), vec!["."]);
    assert!(path_components("").is_empty());
}

#[test]
fn file_names_and_extensions() {
    assert_eq!(file_name("src/main.rs").as_deref(), Some("main.rs"));
    assert_eq!(file_name("src/").as_deref(), Some("src"));
    assert_eq!(file_name("a/.."), None);
    assert_eq!(file_name("/"), None);
    assert_eq!(extension("a/b.tar.gz").as_deref(), Some("gz"));
    assert_eq!(extension(".bashrc"), None);
    assert_eq!(extension("name."), Some(String::new()));
    assert_eq!(extension("noext"), None);
}

#[test]
fn joins_and_prefixes() {
    assert_eq!(join("/root", "a/b"), "/root/a/b");
    assert_eq!(join("/root/", "a"), "/root/a");
    assert_eq!(join("", "a"), "a");
    assert_eq!(join("/root", "/abs"), "/abs");
    assert!(starts_with_path("/tmp/a/b", "/tmp/a"));
    assert!(!starts_with_path("/tmp/ab", "/tmp/a"));
}
