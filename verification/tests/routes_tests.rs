use graxus::codemap::{SymbolFact, SymbolKind, Visibility};
use graxus::routes::{resolve_routes, RouteFact};

fn symbol(file: &str, name: &str) -> SymbolFact {
    let mut s = SymbolFact::default();
    s.file = file.into();
    s.name = name.into();
    s.kind = SymbolKind::Function;
    s.visibility = Visibility::Public;
    s
}

fn route(file: &str, handler: &str) -> RouteFact {
    RouteFact {
        id: String::new(),
        file: file.into(),
        language: "rust".into(),
        method: "GET".into(),
        path: "/users".into(),
        handler: handler.into(),
        handler_file: None,
        line: 1,
        framework: "axum".into(),
        middleware: Vec::new(),
    }
}

#[test]
fn resolves_same_file_before_cross_file_matches() {
    let routes = resolve_routes(
        vec![route("src/api.rs", "list_users")],
        &[symbol("src/other.rs", "list_users"), symbol("src/api.rs", "list_users")],
    );

    assert_eq!(routes[0].handler_file.as_deref(), Some("src/api.rs"));
}

#[test]
fn leaves_ambiguous_cross_file_handler_unresolved() {
    let routes = resolve_routes(
        vec![route("src/api.rs", "list_users")],
        &[symbol("src/a.rs", "list_users"), symbol("src/b.rs", "list_users")],
    );

    assert_eq!(routes[0].handler_file, None);
}

#[test]
fn unique_cross_file_handler_is_linked() {
    let routes = resolve_routes(vec![route("src/api.rs", "list_users")], &[symbol("src/h.rs", "list_users")]);
    assert_eq!(routes[0].handler_file.as_deref(), Some("src/h.rs"));
}

#[test]
fn routes_are_sorted_and_deduplicated_keeping_the_first() {
    let mut a = route("src/b.rs", "h");
    a.id = "first".into();
    let mut b = route("src/b.rs", "h");
    b.id = "second".into();
    let mut c = route("src/a.rs", "h");
    c.line = 9;
    let mut d = route("src/a.rs", "h");
    d.line = 2;
    let out = resolve_routes(vec![a, b, c, d], &[]);
    assert_eq!(out.len(), 3);
    assert_eq!((out[0].file.as_str(), out[0].line), ("src/a.rs", 2));
    assert_eq!((out[1].file.as_str(), out[1].line), ("src/a.rs", 9));
    assert_eq!(out[2].id, "first");
}

#[test]
fn routes_with_known_or_empty_handlers_stay() {
    let mut known = route("src/a.rs", "h");
    known.handler_file = Some("elsewhere.rs".into());
    let empty = route("src/b.rs", "");
    let out = resolve_routes(vec![known, empty], &[symbol("src/a.rs", "h"), symbol("src/b.rs", "")]);
    assert_eq!(out[0].handler_file.as_deref(), Some("elsewhere.rs"));
    assert_eq!(out[1].handler_file, None);
}
