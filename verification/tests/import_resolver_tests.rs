use graxus::codemap::{ConfidenceScore, FileNode, ImportFact, ImportKind, ResolutionMethod};
use graxus::import_resolver::{clean_path, resolve_c_cpp, resolve_go, resolve_imports, resolve_python, resolve_rust, resolve_ts};

fn file(path: &str) -> FileNode {
    FileNode {
        path: path.to_string(),
        language: "rust".to_string(),
        hash: String::new(),
        size: 0,
    }
}

fn import(source: &str, resolved_file: Option<&str>) -> ImportFact {
    ImportFact {
        id: "import:test".to_string(),
        file: "src/main.rs".to_string(),
        language: "rust".to_string(),
        kind: ImportKind::RustUse,
        source: source.to_string(),
        local_name: Some("run".to_string()),
        imported_name: None,
        resolved_file: resolved_file.map(str::to_string),
        line: 1,
        confidence: resolved_file
            .map(|_| ConfidenceScore::named_import_exact())
            .unwrap_or_default(),
    }
}

#[test]
fn resolves_rust_item_import_to_unchanged_module_file() {
    let mut imports = vec![import("crate::handler::run", None)];
    resolve_imports(&mut imports, &vec![file("src/main.rs"), file("src/handler.rs")]);

    assert_eq!(imports[0].resolved_file.as_deref(), Some("src/handler.rs"));
    assert_eq!(
        imports[0].confidence.method,
        ResolutionMethod::NamedImportExactExport
    );
}

#[test]
fn normalizes_relative_typescript_import_paths() {
    let mut imports = vec![ImportFact {
        id: "import:ts".to_string(),
        file: "src/main.ts".to_string(),
        language: "typescript".to_string(),
        kind: ImportKind::NamedImport,
        source: "./handler".to_string(),
        local_name: Some("run".to_string()),
        imported_name: Some("run".to_string()),
        resolved_file: None,
        line: 1,
        confidence: ConfidenceScore::unresolved(),
    }];
    resolve_imports(&mut imports, &vec![file("src/main.ts"), file("src/handler.ts")]);

    assert_eq!(imports[0].resolved_file.as_deref(), Some("src/handler.ts"));
}

#[test]
fn clears_import_resolution_when_target_file_disappears() {
    let mut imports = vec![import("crate::handler", Some("src/handler.rs"))];
    resolve_imports(&mut imports, &vec![file("src/main.rs")]);

    assert!(imports[0].resolved_file.is_none());
    assert_eq!(imports[0].confidence, ConfidenceScore::unresolved());
}

fn paths(ps: &[&str]) -> Vec<String> {
    ps.iter().map(|p| p.to_string()).collect()
}

#[test]
fn cleaning_paths_drops_dots_and_empty_pieces() {
    assert_eq!(clean_path("src/./a//b/../c.ts"), "src/a/c.ts");
    assert_eq!(clean_path("..\\x\\y"), "x/y");
    assert_eq!(clean_path("./"), "");
}

#[test]
fn rust_paths_resolve_by_crate_self_and_bare_segments() {
    let files = paths(&["src/main.rs", "src/net/mod.rs", "src/util/io.rs", "src/util.rs"]);
    let (p, c) = resolve_rust("crate::net::Client", "src/main.rs", &files).unwrap();
    assert_eq!(p, "src/net/mod.rs");
    assert_eq!(c.percent, 95);
    let (p, c) = resolve_rust("util::io::read", "src/main.rs", &files).unwrap();
    assert_eq!(p, "src/util/io.rs");
    assert_eq!(c, ConfidenceScore::path_match_only());
    assert_eq!(resolve_rust("serde", "src/main.rs", &files), None);
    let (p, _) = resolve_rust("self::io::*", "src/util/mod.rs", &files).unwrap();
    assert_eq!(p, "src/util/io.rs");
}

#[test]
fn typescript_alias_and_bare_modules() {
    let files = paths(&["src/lib/api.ts", "src/components/index.tsx", "lib/helpers..js"]);
    let (p, c) = resolve_ts("'@/lib/api'", "src/app.ts", &files).unwrap();
    assert_eq!(p, "src/lib/api.ts");
    assert_eq!(c.method, ResolutionMethod::NamedImportExactExport);
    let (p, _) = resolve_ts("\"@/components\"", "src/app.ts", &files).unwrap();
    assert_eq!(p, "src/components/index.tsx");
    let (p, c) = resolve_ts("some/helpers", "src/app.ts", &files).unwrap();
    assert_eq!(p, "lib/helpers..js");
    assert_eq!(c.method, ResolutionMethod::PathMatchOnly);
    assert_eq!(resolve_ts("./missing", "src/app.ts", &files), None);
}

#[test]
fn python_relative_and_absolute_modules() {
    let files = paths(&["pkg/models.py", "pkg/sub/__init__.py", "src/app/core.py"]);
    let (p, c) = resolve_python(".models", "pkg/views.py", &files).unwrap();
    assert_eq!(p, "pkg/models.py");
    assert_eq!(c.percent, 95);
    let (p, _) = resolve_python("..models", "pkg/sub/x.py", &files).unwrap();
    assert_eq!(p, "pkg/models.py");
    let (p, c) = resolve_python("app.core", "main.py", &files).unwrap();
    assert_eq!(p, "src/app/core.py");
    assert_eq!(c.percent, 60);
}

#[test]
fn go_relative_and_module_packages() {
    let files = paths(&["cmd/main.go", "cmd/util/strings.go", "internal/auth/token.go"]);
    let (p, c) = resolve_go("\"./util\"", "cmd/main.go", &files).unwrap();
    assert_eq!(p, "cmd/util/strings.go");
    assert_eq!(c.percent, 95);
    let (p, c) = resolve_go("\"github.com/org/repo/internal/auth\"", "cmd/main.go", &files).unwrap();
    assert_eq!(p, "internal/auth/token.go");
    assert_eq!(c, ConfidenceScore::same_project());
}

#[test]
fn c_includes_resolve_quoted_paths_only() {
    let files = paths(&["src/utils/parser.c", "src/utils/parser.h", "include/config.h"]);
    assert_eq!(resolve_c_cpp("<stdio.h>", "src/main.c", &files), None);
    let (p, c) = resolve_c_cpp("\"include/config.h\"", "src/main.c", &files).unwrap();
    assert_eq!(p, "include/config.h");
    assert_eq!(c.percent, 95);
    let (p, c) = resolve_c_cpp("\"parser.h\"", "src/main.c", &files).unwrap();
    assert_eq!(p, "src/utils/parser.h");
    assert_eq!(c.percent, 60);
    let (p, _) = resolve_c_cpp("\"utils/parser.h\"", "src/main.c", &files).unwrap();
    assert_eq!(p, "src/utils/parser.h");
}

#[test]
fn other_languages_and_kept_resolutions() {
    let mut imports = vec![import("crate::handler", Some("src/handler.rs"))];
    imports[0].language = "java".to_string();
    resolve_imports(&mut imports, &vec![file("src/handler.rs")]);
    assert_eq!(imports[0].resolved_file.as_deref(), Some("src/handler.rs"));
    assert_eq!(imports[0].confidence, ConfidenceScore::named_import_exact());
}

#[test]
fn confidence_scores_label_and_display() {
    let c = ConfidenceScore::new(150, ResolutionMethod::SyntaxOnly);
    assert_eq!(c.percent, 100);
    assert_eq!(c.display(), "100% (exact)");
    assert_eq!(ConfidenceScore::named_import_exact().display(), "95% (exact)");
    assert!(!ConfidenceScore::default().is_resolved());
    assert!(ConfidenceScore::syntax_only().is_resolved());
}
