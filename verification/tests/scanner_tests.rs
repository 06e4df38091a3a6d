use graxus::file_types::{FileKind, Language};
use graxus::scanner::{compute_diff, keep_scanned, split_by_kind, ScanFilter, ScannedFile};

fn file(rel: &str, hash: &str, kind: FileKind) -> ScannedFile {
    ScannedFile {
        path: format!("/p/{rel}"),
        relative_path: rel.to_string(),
        kind,
        language: Language::Unknown,
        hash: hash.to_string(),
        size: 1,
        modified: "2024-01-01T00:00:00Z".to_string(),
    }
}

#[test]
fn scan_keeps_wanted_paths_and_drops_unwanted_and_binary_ones() {
    let wanted = vec!["**/*.rs".to_string(), "**/*.png".to_string()];
    let unwanted = vec!["target/**".to_string()];
    assert_eq!(keep_scanned("src/main.rs", &wanted, &unwanted).unwrap(), true);
    assert_eq!(keep_scanned("target/debug/a.rs", &wanted, &unwanted).unwrap(), false);
    assert_eq!(keep_scanned("README.md", &wanted, &unwanted).unwrap(), false);
    assert_eq!(keep_scanned("img/logo.png", &wanted, &unwanted).unwrap(), false);
    assert_eq!(keep_scanned("anything.txt", &vec![], &vec![]).unwrap(), true);
}

#[test]
fn an_invalid_glob_is_refused() {
    assert!(keep_scanned("a.rs", &vec!["a[".to_string()], &vec![]).is_err());
    assert!(ScanFilter::new(&vec![], &vec!["{".to_string()]).is_err());
}

#[test]
fn diff_reports_added_modified_and_deleted_files() {
    let old = vec![file("a.rs", "1", FileKind::Code), file("b.rs", "2", FileKind::Code), file("c.rs", "3", FileKind::Code)];
    let new = vec![file("a.rs", "1", FileKind::Code), file("b.rs", "9", FileKind::Code), file("d.rs", "4", FileKind::Code)];
    let d = compute_diff(&old, &new);
    let added: Vec<&str> = d.added.iter().map(|f| f.relative_path.as_str()).collect();
    let modified: Vec<&str> = d.modified.iter().map(|f| f.relative_path.as_str()).collect();
    assert_eq!(added, vec!["d.rs"]);
    assert_eq!(modified, vec!["b.rs"]);
    assert_eq!(d.deleted, vec!["c.rs".to_string()]);
    let same = compute_diff(&old, &old);
    assert!(same.added.is_empty() && same.modified.is_empty() && same.deleted.is_empty());
}

#[test]
fn scanned_files_split_by_kind() {
    let files = vec![
        file("a.md", "1", FileKind::Doc),
        file("b.rs", "2", FileKind::Code),
        file("c.toml", "3", FileKind::Config),
        file("d.bin", "4", FileKind::Unknown),
    ];
    let (docs, code, config) = split_by_kind(&files);
    assert_eq!(docs.len(), 1);
    assert_eq!(code[0].relative_path, "b.rs");
    assert_eq!(config[0].relative_path, "c.toml");
}
