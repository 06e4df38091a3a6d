use graxus::safety::{
    canonical_target, has_parent_traversal, is_path_within_root, is_safe_file_size, is_safe_path,
    is_safe_to_edit, is_safe_to_read, MAX_EDIT_FILE_SIZE,
};

// --- is_safe_to_read ---

#[test]
fn test_safe_to_read_normal() {
    assert!(is_safe_to_read("src/main.rs"));
}

#[test]
fn test_safe_to_read_git_dir() {
    assert!(!is_safe_to_read(".git/config"));
}

#[test]
fn safe_to_read_git_dir_nested_and_name_prefix() {
    assert!(!is_safe_to_read("vendor/lib/.git/HEAD"));
    assert!(is_safe_to_read("src/.github/workflows.yml"));
    assert!(is_safe_to_read("docs/.gitignore"));
}

// --- is_safe_to_edit ---

#[test]
fn test_safe_to_edit_normal() {
    assert!(is_safe_to_edit("src/main.rs"));
}

#[test]
fn test_safe_to_edit_lock_file() {
    assert!(!is_safe_to_edit("Cargo.lock"));
}

#[test]
fn test_safe_to_edit_env_file() {
    assert!(!is_safe_to_edit(".env"));
    assert!(!is_safe_to_edit(".env.local"));
}

#[test]
fn test_safe_to_edit_git_dir() {
    assert!(!is_safe_to_edit(".git/HEAD"));
}

#[test]
fn test_safe_to_edit_windows_special_files() {
    assert!(!is_safe_to_edit(".env"));
    assert!(!is_safe_to_edit(".env.production"));
    assert!(!is_safe_to_edit("package.lock"));
}

#[test]
fn safe_to_edit_env_lookalikes() {
    assert!(is_safe_to_edit(".envrc"));
    assert!(is_safe_to_edit("config/env.rs"));
    assert!(!is_safe_to_edit("config/.env"));
    assert!(is_safe_to_edit("src/"));
    assert!(is_safe_to_edit(".."));
}

// --- is_safe_path (canonical forms given) ---

#[test]
fn test_safe_path_nonexistent() {
    assert!(!is_safe_path(Some("/tmp/project"), None));
}

#[test]
fn safe_path_compares_components() {
    assert!(is_safe_path(Some("/tmp/project"), Some("/tmp/project/src/main.rs")));
    assert!(!is_safe_path(Some("/tmp/project"), Some("/tmp/project-other/x.rs")));
    assert!(!is_safe_path(None, Some("/tmp/project/x.rs")));
}

// --- is_path_within_root ---

#[test]
fn test_within_root_relative_simple() {
    assert!(is_path_within_root("src/main.rs", "/tmp/root", None, None));
}

#[test]
fn test_within_root_relative_nested() {
    assert!(is_path_within_root("src/lib/module.rs", "/tmp/root", None, None));
}

#[test]
fn test_within_root_dot_component() {
    assert!(is_path_within_root("./src/main.rs", "/tmp/root", None, None));
}

#[test]
fn test_within_root_parent_traversal_rejected() {
    // "/tmp/root/../etc/passwd" resolves outside the root.
    assert!(!is_path_within_root("../etc/passwd", "/tmp/root", Some("/tmp/root"), Some("/etc/passwd")));
    assert!(!is_path_within_root("../etc/passwd", "/tmp/root", Some("/tmp/root"), None));
}

#[test]
fn test_within_root_deep_parent_traversal_rejected() {
    assert!(!is_path_within_root("src/../../etc/passwd", "/tmp/root", Some("/tmp/root"), Some("/tmp/etc/passwd")));
}

#[test]
fn test_within_root_absolute_outside_rejected() {
    assert!(!is_path_within_root("/etc/passwd", "/tmp/root", Some("/tmp/root"), Some("/etc/passwd")));
}

#[test]
fn test_within_root_windows_absolute_outside() {
    assert!(!is_path_within_root("/mnt/c/Windows/System32", "/tmp/root", Some("/tmp/root"), None));
}

#[test]
fn test_within_root_windows_unc_rejected() {
    assert!(!is_path_within_root("//server/share/file.txt", "/tmp/root", Some("/tmp/root"), None));
}

#[test]
fn test_within_root_windows_unc_path_rejected() {
    assert!(!is_path_within_root("//server/share/file.txt", "/tmp/root", None, None));
}

#[test]
fn test_safe_path_windows_unc_rejected() {
    assert!(!is_safe_path(Some("/tmp/root"), Some("//server/share/file.txt")));
}

#[test]
fn test_within_root_nonexistent_relative_allowed() {
    assert!(is_path_within_root("src/new_file.rs", "/tmp/root", None, None));
}

#[test]
fn test_within_root_nonexistent_with_traversal_rejected() {
    assert!(!is_path_within_root("../nonexistent", "/tmp/root", Some("/tmp/root"), None));
}

#[test]
fn within_root_absolute_falls_back_to_the_written_root() {
    assert!(is_path_within_root("/tmp/root/new.rs", "/tmp/root", Some("/private/tmp/root"), None));
    assert!(is_path_within_root("/tmp/root/a.rs", "/tmp/root", Some("/private/tmp/root"), Some("/private/tmp/root/a.rs")));
    assert!(!is_path_within_root("/tmp/root/a.rs", "/tmp/root", None, None));
}

#[test]
fn canonical_target_names_what_to_resolve() {
    assert_eq!(canonical_target("/etc/passwd", "/tmp/root").as_deref(), Some("/etc/passwd"));
    assert_eq!(canonical_target("../x", "/tmp/root").as_deref(), Some("/tmp/root/../x"));
    assert_eq!(canonical_target("../x", "/tmp/root/").as_deref(), Some("/tmp/root/../x"));
    assert_eq!(canonical_target("src/x", "/tmp/root"), None);
    assert!(has_parent_traversal("a/../b"));
    assert!(!has_parent_traversal("a/..b/c"));
}

// --- is_safe_file_size ---

#[test]
fn test_safe_file_size_under_limit() {
    assert!(is_safe_file_size(1024));
    assert!(is_safe_file_size(0));
}

#[test]
fn test_safe_file_size_at_limit() {
    assert!(is_safe_file_size(MAX_EDIT_FILE_SIZE));
}

#[test]
fn test_safe_file_size_over_limit() {
    assert!(!is_safe_file_size(MAX_EDIT_FILE_SIZE + 1));
}

#[test]
fn max_edit_file_size_is_ten_mebibytes() {
    assert_eq!(MAX_EDIT_FILE_SIZE, 10_485_760);
}
