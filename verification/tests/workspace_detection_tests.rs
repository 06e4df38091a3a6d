use graxus::workspaces::{detect_workspace, detect_workspaces, list_subprojects, DirFacts, Manifest, WorkspaceKind};

fn dir(path: &str, parent: Option<usize>) -> DirFacts {
    DirFacts {
        path: path.to_string(),
        parent,
        graxus_yaml: false,
        cargo_toml: Manifest::Absent,
        package_json: Manifest::Absent,
        go_mod: false,
        go_work: false,
        tsconfig_json: false,
        requirements_txt: false,
        pyproject_toml: false,
    }
}

fn cargo(mut d: DirFacts, text: &str) -> DirFacts {
    d.cargo_toml = Manifest::Text(text.to_string());
    d
}

fn npm(mut d: DirFacts, text: &str) -> DirFacts {
    d.package_json = Manifest::Text(text.to_string());
    d
}

#[test]
fn cargo_monorepo_lists_its_packages() {
    let root = cargo(dir("/r", None), "[workspace]\nmembers = [\"crates/*\"]\n");
    let dirs = vec![
        dir("/r/crates", None),
        cargo(dir("/r/crates/b", Some(0)), "[package]\nname = \"b\"\n"),
        cargo(dir("/r/crates/a", Some(0)), "[package]\nname = \"a\"\n"),
    ];
    let w = detect_workspace(&root, &dirs);
    assert!(w.is_monorepo);
    assert_eq!(w.kind, WorkspaceKind::CargoWorkspace);
    assert_eq!(w.sub_projects, vec!["/r/crates/a".to_string(), "/r/crates/b".to_string()]);
    assert_eq!(w.languages, vec!["rust".to_string()]);
}

#[test]
fn npm_and_go_workspaces_are_told_apart() {
    let root = npm(dir("/r", None), "{\"name\": \"m\", \"workspaces\": [\"packages/*\"]}");
    let dirs = vec![dir("/r/packages", None), npm(dir("/r/packages/a", Some(0)), "{\"name\": \"@m/a\"}")];
    let w = detect_workspace(&root, &dirs);
    assert_eq!(w.kind, WorkspaceKind::NpmWorkspace);
    assert_eq!(w.languages, vec!["javascript".to_string()]);

    let mut root = dir("/g", None);
    root.go_work = true;
    let mut api = dir("/g/services/api", Some(0));
    api.go_mod = true;
    let w = detect_workspace(&root, &vec![dir("/g/services", None), api]);
    assert_eq!(w.kind, WorkspaceKind::GoModule);
    assert_eq!(w.sub_projects, vec!["/g/services/api".to_string()]);
    assert_eq!(w.languages, vec!["go".to_string()]);
}

#[test]
fn single_project_is_no_monorepo() {
    let root = cargo(dir("/s", None), "[package]\nname = \"single\"\n");
    let w = detect_workspace(&root, &vec![]);
    assert!(!w.is_monorepo);
    assert_eq!(w.kind, WorkspaceKind::Unknown);
}

#[test]
fn hidden_build_and_dependency_directories_are_skipped() {
    let dirs = vec![
        cargo(dir("/r/.hidden", None), "[package]\nname = \"hidden\"\n"),
        cargo(dir("/r/visible", None), "[package]\nname = \"visible\"\n"),
        dir("/r/target", None),
        cargo(dir("/r/target/debug", Some(2)), "[package]\nname = \"not-real\"\n"),
        dir("/r/node_modules", None),
        npm(dir("/r/node_modules/pkg", Some(4)), "{\"name\": \"not-real\"}"),
    ];
    assert_eq!(list_subprojects(&dirs), vec!["/r/visible".to_string()]);
}

#[test]
fn subprojects_are_sorted_by_path_components_and_not_entered() {
    let mut backend = dir("/r/backend", None);
    backend.graxus_yaml = true;
    let mut inner = dir("/r/backend/inner", Some(0));
    inner.go_mod = true;
    let mut x = dir("/r/api/x", Some(2));
    x.go_mod = true;
    let mut v2 = dir("/r/api-v2", None);
    v2.go_mod = true;
    let dirs = vec![backend, inner, dir("/r/api", None), x, v2];
    assert_eq!(
        list_subprojects(&dirs),
        vec!["/r/api/x".to_string(), "/r/api-v2".to_string(), "/r/backend".to_string()]
    );
}

#[test]
fn workspaces_of_the_root_come_before_nested_ones() {
    let mut root = cargo(dir("/r", None), "[workspace]\n");
    root.go_mod = true;
    let dirs = vec![npm(dir("/r/web", None), "{\"workspaces\": []}"), dir("/r/web/deep", Some(0))];
    let ws = detect_workspaces(&root, &dirs);
    let kinds: Vec<WorkspaceKind> = ws.iter().map(|w| w.kind).collect();
    assert_eq!(kinds, vec![WorkspaceKind::CargoWorkspace, WorkspaceKind::GoModule, WorkspaceKind::NpmWorkspace]);
    assert_eq!(ws[0].name, "r");
    assert_eq!(ws[2].name, "web");
}
