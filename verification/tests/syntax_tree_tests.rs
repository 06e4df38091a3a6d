use graxus::syntax_tree::{field_child_at, node_at, node_count, parse_text, parser_for, Grammar};
use graxus::type_relations::collect_declarations;

#[test]
fn parsed_tree_reads_nodes_in_pre_order() {
    let parser = parser_for(Grammar::Rust).unwrap();
    let tree = parse_text(parser, "fn main() {}\n").unwrap();
    assert!(node_count(&tree) > 1);
    let root = node_at(&tree, 0);
    assert_eq!(root.kind, "source_file");
    let item = node_at(&tree, 1);
    assert_eq!(item.kind, "function_item");
    assert_eq!(item.row, 0);
    assert_eq!(field_child_at(&tree, 1, "name").unwrap().text, "main");
}

#[test]
fn declarations_are_collected_with_their_lines() {
    let source = "struct A;\n\nimpl Show for A {}\nimpl A {}\n";
    let decls = collect_declarations(Grammar::Rust, source, &["impl_item"]);
    assert_eq!(
        decls,
        vec![("impl Show for A {}".to_string(), 3), ("impl A {}".to_string(), 4)]
    );
}
