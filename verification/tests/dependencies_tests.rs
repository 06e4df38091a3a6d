use graxus::dependencies::{
    detect_in_dir, parse_cargo_deps, parse_go_deps, parse_npm_deps, parse_python_deps, DependencyKind,
    DependencySource, ManifestTexts,
};

fn no_manifests() -> ManifestTexts {
    ManifestTexts { cargo_toml: None, package_json: None, go_mod: None, requirements_txt: None }
}

#[test]
fn test_parse_cargo_simple_deps() {
    let deps = parse_cargo_deps("\n[dependencies]\nserde = \"1.0\"\nanyhow = \"1\"\ntokio = \"1.28\"\n").unwrap();
    assert_eq!(deps.len(), 3);
    assert_eq!(deps[0].name, "serde");
    assert_eq!(deps[0].version.as_deref(), Some("1.0"));
    assert_eq!(deps[1].name, "anyhow");
    assert_eq!(deps[2].name, "tokio");
}

#[test]
fn test_parse_cargo_table_deps() {
    let deps = parse_cargo_deps(
        "\n[dependencies]\nserde = { version = \"1.0\", features = [\"derive\"] }\ntokio = { version = \"1\", features = [\"full\"] }\n",
    )
    .unwrap();
    assert_eq!(deps.len(), 2);
    assert_eq!(deps[0].name, "serde");
    assert_eq!(deps[0].version.as_deref(), Some("1.0"));
    assert_eq!(deps[1].name, "tokio");
    assert_eq!(deps[1].version.as_deref(), Some("1"));
}

#[test]
fn test_parse_cargo_dev_dependencies() {
    let deps =
        parse_cargo_deps("\n[dependencies]\nserde = \"1.0\"\n\n[dev-dependencies]\ntempfile = \"3\"\nassert_cmd = \"2\"\n")
            .unwrap();
    assert_eq!(deps.len(), 3);
    assert_eq!(deps[1].name, "tempfile");
    assert_eq!(deps[2].name, "assert_cmd");
}

#[test]
fn test_parse_cargo_build_dependencies() {
    let deps = parse_cargo_deps("\n[build-dependencies]\ncc = \"1.0\"\n").unwrap();
    assert_eq!(deps.len(), 1);
    assert_eq!(deps[0].name, "cc");
}

#[test]
fn test_parse_cargo_workspace_dependencies() {
    let deps = parse_cargo_deps("\n[workspace.dependencies]\nserde = \"1.0\"\nanyhow = \"1\"\n").unwrap();
    assert_eq!(deps.len(), 2);
    assert_eq!(deps[0].name, "serde");
    assert_eq!(deps[1].name, "anyhow");
}

#[test]
fn test_parse_cargo_mixed_simple_and_table() {
    let deps = parse_cargo_deps(
        "\n[dependencies]\nserde = \"1.0\"\ntokio = { version = \"1\", features = [\"full\"] }\nanyhow = \"1\"\n",
    )
    .unwrap();
    assert_eq!(deps.len(), 3);
    assert_eq!(deps[0].name, "serde");
    assert_eq!(deps[0].version.as_deref(), Some("1.0"));
    assert_eq!(deps[1].name, "tokio");
    assert_eq!(deps[1].version.as_deref(), Some("1"));
    assert_eq!(deps[2].name, "anyhow");
}

#[test]
fn test_parse_cargo_empty_file() {
    let deps = parse_cargo_deps("").unwrap();
    assert!(deps.is_empty());
}

#[test]
fn test_parse_cargo_comments_ignored() {
    let deps = parse_cargo_deps("\n[dependencies]\n# serde = \"1.0\"\nanyhow = \"1\"\n").unwrap();
    assert_eq!(deps.len(), 1);
    assert_eq!(deps[0].name, "anyhow");
}

#[test]
fn test_parse_npm_deps() {
    let deps = parse_npm_deps(
        "{\n    \"dependencies\": {\n        \"react\": \"^18.0.0\",\n        \"react-dom\": \"^18.0.0\"\n    },\n    \"devDependencies\": {\n        \"typescript\": \"^5.0.0\"\n    }\n}",
    );
    assert_eq!(deps.len(), 3);
    let runtime: Vec<_> = deps.iter().filter(|d| matches!(d.kind, DependencyKind::Runtime)).collect();
    let dev: Vec<_> = deps.iter().filter(|d| matches!(d.kind, DependencyKind::Dev)).collect();
    assert_eq!(runtime.len(), 2);
    assert_eq!(dev.len(), 1);
    assert_eq!(dev[0].name, "typescript");
}

#[test]
fn test_parse_go_deps() {
    let deps = parse_go_deps(
        "module example.com/myapp\n\ngo 1.21\n\nrequire (\n    github.com/gin-gonic/gin v1.9.1\n    github.com/go-sql-driver/mysql v1.7.1\n)\n",
    )
    .unwrap();
    assert_eq!(deps.len(), 2);
    assert_eq!(deps[0].name, "github.com/gin-gonic/gin");
    assert_eq!(deps[0].version.as_deref(), Some("v1.9.1"));
    assert_eq!(deps[1].name, "github.com/go-sql-driver/mysql");
}

#[test]
fn test_parse_python_deps() {
    let deps = parse_python_deps("# This is a comment\nflask>=2.0\nrequests==2.31.0\npytest\n").unwrap();
    assert_eq!(deps.len(), 3);
    assert_eq!(deps[0].name, "flask");
    assert_eq!(deps[0].version.as_deref(), Some("2.0"));
    assert_eq!(deps[1].name, "requests");
    assert_eq!(deps[1].version.as_deref(), Some("2.31.0"));
    assert_eq!(deps[2].name, "pytest");
    assert_eq!(deps[2].version, None);
}

#[test]
fn test_parse_python_empty_requirements() {
    let deps = parse_python_deps("# only comments\n\n").unwrap();
    assert!(deps.is_empty());
}

#[test]
fn test_detect_dependencies_combined() {
    let texts = ManifestTexts {
        cargo_toml: Some("\n[dependencies]\nserde = \"1.0\"\n".to_string()),
        package_json: Some(r#"{"dependencies": {"react": "^18"}}"#.to_string()),
        ..no_manifests()
    };
    let deps = detect_in_dir(&texts).unwrap();
    assert_eq!(deps.len(), 2);
    assert_eq!(deps.iter().filter(|d| matches!(d.source, DependencySource::Cargo)).count(), 1);
    assert_eq!(deps.iter().filter(|d| matches!(d.source, DependencySource::Npm)).count(), 1);
}

#[test]
fn test_detect_no_manifest() {
    let deps = detect_in_dir(&no_manifests()).unwrap();
    assert!(deps.is_empty());
}

#[test]
fn manifests_outside_dependency_sections_and_bad_json_give_nothing() {
    let deps = parse_cargo_deps("[package]\nname = \"x\"\nversion = \"0.1.0\"\n[features]\nfull = []\n").unwrap();
    assert!(deps.is_empty());
    assert!(parse_npm_deps("not json").is_empty());
    let deps = parse_npm_deps(r#"{"dependencies": {"left-pad": {"git": "x"}}}"#);
    assert_eq!(deps.len(), 1);
    assert_eq!(deps[0].version, None);
    let deps = parse_cargo_deps("[dependencies]\n  serde = \"1\"  \r\n").unwrap();
    assert_eq!(deps[0].name, "serde");
    assert_eq!(deps[0].source, DependencySource::Cargo);
}

#[test]
fn cargo_sections_give_runtime_dev_and_build_kinds() {
    let deps = parse_cargo_deps("[dependencies]\nserde = \"1.0\"\n[dev-dependencies]\ntempfile = \"3\"\n[build-dependencies]\ncc = \"1.0\"\n")
        .unwrap();
    let names: Vec<&str> = deps.iter().map(|d| d.name.as_str()).collect();
    assert_eq!(names, vec!["serde", "tempfile", "cc"]);
    assert!(matches!(deps[0].kind, DependencyKind::Runtime));
    assert!(matches!(deps[1].kind, DependencyKind::Dev));
    assert!(matches!(deps[2].kind, DependencyKind::Build));
}
