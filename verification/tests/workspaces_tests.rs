use graxus::workspaces::{
    code_dir, docs_dir, file_workspace, graxus_dir, has_toml_section, index_artifacts, is_indexed,
    snapshots_dir, WorkspaceInfo, WorkspaceKind,
};

#[test]
fn test_docs_dir() {
    assert_eq!(docs_dir("/tmp/project"), "/tmp/project/.graxus/docs");
}

#[test]
fn test_code_dir() {
    assert_eq!(code_dir("/tmp/project"), "/tmp/project/.graxus/code");
}

#[test]
fn test_snapshots_dir() {
    assert_eq!(snapshots_dir("/tmp/project"), "/tmp/project/.graxus/snapshots");
}

#[test]
fn graxus_dir_joins_root() {
    assert_eq!(graxus_dir("/tmp/project/"), "/tmp/project/.graxus");
}

#[test]
fn test_is_indexed_false_no_graxus_dir() {
    assert!(!is_indexed(false, &vec![false, false, false]));
}

#[test]
fn test_is_indexed_true_with_files_json() {
    let files = index_artifacts("/tmp/p");
    assert_eq!(files[0], "/tmp/p/.graxus/files.json");
    assert_eq!(files[1], "/tmp/p/.graxus/code/codemap.json");
    assert_eq!(files[2], "/tmp/p/.graxus/index.db");
    assert!(is_indexed(true, &vec![true, false, false]));
    assert!(!is_indexed(true, &vec![false, false, false]));
}

fn ws(name: &str, root: &str) -> WorkspaceInfo {
    WorkspaceInfo { name: name.to_string(), root: root.to_string(), kind: WorkspaceKind::CargoWorkspace }
}

#[test]
fn file_workspace_prefers_the_longest_root() {
    let all = vec![ws("top", "/repo"), ws("inner", "/repo/crates/a"), ws("other", "/elsewhere")];
    assert_eq!(file_workspace("/repo/crates/a/src/lib.rs", &all).map(|w| w.name.as_str()), Some("inner"));
    assert_eq!(file_workspace("/repo/README.md", &all).map(|w| w.name.as_str()), Some("top"));
    assert!(file_workspace("/nowhere/x", &all).is_none());
    let twins = vec![ws("first", "/r"), ws("second", "/r")];
    assert_eq!(file_workspace("/r/x", &twins).map(|w| w.name.as_str()), Some("second"));
}

#[test]
fn toml_sections_outside_comments() {
    assert!(has_toml_section("[package]\nname = \"x\"\n\n[workspace]\nmembers = []\n", "workspace"));
    assert!(!has_toml_section("# [workspace]\n[package]\n", "workspace"));
    assert!(has_toml_section("key = \"#\" [workspace]\n", "workspace"));
    assert!(!has_toml_section("key = '# not' # [workspace]\n", "workspace"));
    assert!(!has_toml_section("", "workspace"));
}

#[test]
fn root_is_looked_for_from_the_start_upward() {
    assert_eq!(
        graxus::workspaces::root_candidates("/a/b/c"),
        vec!["/a/b/c".to_string(), "/a/b".to_string(), "/a".to_string(), "/".to_string()]
    );
    assert_eq!(graxus::workspaces::find_root("/a/b/c", &vec![false, true, true, false]), Some("/a/b".to_string()));
    assert_eq!(graxus::workspaces::find_root("/a/b/c", &vec![false, false, false, false]), None);
}
