use graxus::doc_graph::{DocEdgeType, DocGraph};
use graxus::frontmatter::{split_frontmatter, Frontmatter};

fn root() -> &'static str {
    "/project"
}

fn strings(v: Option<&serde_yaml::Value>) -> Vec<String> {
    match v.and_then(|v| v.as_sequence()) {
        Some(seq) => seq.iter().filter_map(|x| x.as_str().map(str::to_string)).collect(),
        None => Vec::new(),
    }
}

/// The frontmatter of a document, read with serde_yaml as the notes
/// pipeline reads it.
fn parse_frontmatter(content: &str) -> Option<Frontmatter> {
    let (yaml, _body) = split_frontmatter(content)?;
    let value: serde_yaml::Value = serde_yaml::from_str(&yaml).ok()?;
    let get = |k: &str| value.get(k);
    Some(Frontmatter {
        title: get("title").and_then(|v| v.as_str()).map(str::to_string),
        description: get("description").and_then(|v| v.as_str()).map(str::to_string),
        tags: strings(get("tags")),
        aliases: strings(get("aliases")),
        related_code: strings(get("related_code")),
        symbols: strings(get("symbols")),
        extra: Vec::new(),
    })
}

fn make_doc(content: &str) -> (&'static str, Option<Frontmatter>, String) {
    let path = "/project/notes/Test.md";
    let fm = parse_frontmatter(content);
    (path, fm, content.to_string())
}

#[test]
fn new_graph_is_empty() {
    let g = DocGraph::new();
    assert!(g.nodes.is_empty());
    assert!(g.edges.is_empty());
}

#[test]
fn add_single_document() {
    let mut g = DocGraph::new();
    let content = "---\ntitle: Hello\ntags:\n  - dev\n---\n# Heading\nBody with [[Link]].";
    let (path, fm, body) = make_doc(content);
    g.add_document(path, root(), fm, &body);

    assert_eq!(g.nodes.len(), 1);
    let node = &g.nodes[0];
    assert_eq!(node.title, "Hello");
    assert_eq!(node.tags, vec!["dev"]);
    assert_eq!(node.wiki_links.len(), 1);
    assert_eq!(node.wiki_links[0].target, "Link");
    assert_eq!(node.headings.len(), 1);
    assert_eq!(node.headings[0].text, "Heading");
}

#[test]
fn add_multiple_documents() {
    let mut g = DocGraph::new();

    g.add_document("/project/notes/A.md", root(), None, "Body [[B]].");
    g.add_document("/project/notes/B.md", root(), None, "Body.");

    assert_eq!(g.nodes.len(), 2);
    let links_to: Vec<_> = g
        .edges
        .iter()
        .filter(|e| matches!(e.edge_type, DocEdgeType::LinksTo))
        .collect();
    assert_eq!(links_to.len(), 1);
    assert_eq!(links_to[0].from, "doc:notes/A.md");
    assert_eq!(links_to[0].to, "doc:B");
}

#[test]
fn document_without_frontmatter_uses_heading_as_title() {
    let mut g = DocGraph::new();
    let (path, fm, body) = make_doc("# My Heading\nContent.");
    g.add_document(path, root(), fm, &body);

    assert_eq!(g.nodes[0].title, "My Heading");
}

#[test]
fn document_without_heading_uses_filename() {
    let mut g = DocGraph::new();
    let (path, fm, body) = make_doc("Just body text.");
    g.add_document(path, root(), fm, &body);

    assert_eq!(g.nodes[0].title, "Test");
}

#[test]
fn empty_document() {
    let mut g = DocGraph::new();
    let (path, fm, body) = make_doc("");
    g.add_document(path, root(), fm, &body);

    assert_eq!(g.nodes.len(), 1);
    assert!(g.nodes[0].wiki_links.is_empty());
    assert!(g.nodes[0].headings.is_empty());
    assert!(g.nodes[0].tags.is_empty());
}

#[test]
fn no_frontmatter() {
    let mut g = DocGraph::new();
    let (path, fm, body) = make_doc("# Tagged\n#rust #go\nContent.");
    g.add_document(path, root(), fm, &body);

    assert!(g.nodes[0].tags.contains(&"rust".to_string()));
    assert!(g.nodes[0].tags.contains(&"go".to_string()));
}

#[test]
fn backlinks_generated() {
    let mut g = DocGraph::new();
    g.add_document("/project/A.md", root(), None, "Link to [[B]].");
    g.add_document("/project/B.md", root(), None, "No links.");
    g.generate_backlinks();

    let backlinks = g.get_backlinks("doc:B");
    assert_eq!(backlinks.len(), 1);
    assert_eq!(backlinks[0].id, "doc:A.md");
}

#[test]
fn backlinks_none() {
    let mut g = DocGraph::new();
    g.add_document("/project/A.md", root(), None, "No links.");
    g.generate_backlinks();

    assert!(g.get_backlinks("doc:A.md").is_empty());
}

#[test]
fn backlinks_transitive() {
    let mut g = DocGraph::new();
    g.add_document("/project/A.md", root(), None, "Link to [[B]].");
    g.add_document("/project/B.md", root(), None, "Link to [[C]].");
    g.add_document("/project/C.md", root(), None, "No links.");
    g.generate_backlinks();

    let bl_b = g.get_backlinks("doc:B");
    assert_eq!(bl_b.len(), 1);
    assert_eq!(bl_b[0].id, "doc:A.md");

    let bl_c = g.get_backlinks("doc:C");
    assert_eq!(bl_c.len(), 1);
    assert_eq!(bl_c[0].id, "doc:B.md");

    let bl_a = g.get_backlinks("doc:A.md");
    assert!(bl_a.is_empty());
}

#[test]
fn get_all_tags_deduplicates() {
    let mut g = DocGraph::new();
    g.add_document("/project/A.md", root(), None, "#rust #tag1");
    g.add_document("/project/B.md", root(), None, "#rust #tag2");

    let tags = g.get_all_tags();
    assert!(tags.contains(&"rust".to_string()));
    assert!(tags.contains(&"tag1".to_string()));
    assert!(tags.contains(&"tag2".to_string()));
    assert_eq!(tags.iter().filter(|t| *t == "rust").count(), 1);
}

#[test]
fn get_all_tags_from_frontmatter() {
    let mut g = DocGraph::new();
    let content = "---\ntitle: X\ntags:\n  - pm\n  - design\n---\nBody.";
    let (path, fm, body) = make_doc(content);
    g.add_document(path, root(), fm, &body);

    let tags = g.get_all_tags();
    assert!(tags.contains(&"pm".to_string()));
    assert!(tags.contains(&"design".to_string()));
}

#[test]
fn find_by_path_found() {
    let mut g = DocGraph::new();
    g.add_document("/project/notes/FindMe.md", root(), None, "Content.");

    let node = g.find_by_path("notes/FindMe.md");
    assert!(node.is_some());
    assert_eq!(node.unwrap().title, "FindMe");
}

#[test]
fn find_by_path_not_found() {
    let g = DocGraph::new();
    assert!(g.find_by_path("nonexistent.md").is_none());
}

#[test]
fn malformed_wiki_link_no_crash() {
    let mut g = DocGraph::new();
    let (path, fm, body) = make_doc("Broken [[link without closing.");
    g.add_document(path, root(), fm, &body);

    assert_eq!(g.nodes[0].wiki_links.len(), 0);
}

#[test]
fn nested_tags_in_content() {
    let mut g = DocGraph::new();
    let (path, fm, body) = make_doc("Tags: #project/frontend #backend/api");
    g.add_document(path, root(), fm, &body);

    assert!(g.nodes[0].tags.contains(&"project/frontend".to_string()));
    assert!(g.nodes[0].tags.contains(&"backend/api".to_string()));
}

#[test]
fn edge_count_correct() {
    let mut g = DocGraph::new();
    let (path, fm, body) = make_doc("---\ntitle: T\ntags:\n  - a\n---\n# H1\n[[Other]]");
    g.add_document(path, root(), fm, &body);

    assert_eq!(g.edges.len(), 3);
}

#[test]
fn all_tags_are_sorted_and_unique() {
    let mut g = DocGraph::new();
    g.add_document("/project/A.md", root(), None, "#zeta #alpha #mid");
    g.add_document("/project/B.md", root(), None, "#alpha #beta");
    assert_eq!(g.get_all_tags(), vec!["alpha", "beta", "mid", "zeta"]);
}

#[test]
fn removing_a_document_drops_its_node_and_edges() {
    let mut g = DocGraph::new();
    g.add_document("/project/A.md", root(), None, "# A\n[[B]] #t");
    g.add_document("/project/B.md", root(), None, "[[A.md]]");
    g.generate_backlinks();
    g.remove_document("A.md");
    assert_eq!(g.nodes.len(), 1);
    assert_eq!(g.nodes[0].path, "B.md");
    assert!(g.edges.iter().all(|e| e.from != "doc:A.md" && e.to != "doc:A.md"));
}

#[test]
fn merging_replaces_documents_of_the_same_path() {
    let mut g = DocGraph::new();
    g.add_document("/project/A.md", root(), None, "# Old\n[[X]]");
    g.add_document("/project/B.md", root(), None, "# Keep");
    let mut update = DocGraph::new();
    update.add_document("/project/A.md", root(), None, "# New");
    g.merge(update);
    assert_eq!(g.nodes.len(), 2);
    assert_eq!(g.nodes[0].title, "Keep");
    assert_eq!(g.nodes[1].title, "New");
    assert!(g.edges.iter().all(|e| e.to != "doc:X"));
}

#[test]
fn frontmatter_blocks_are_split_from_the_body() {
    let (yaml, body) = split_frontmatter("\n\n---\ntitle: Indented\n---\nBody.").unwrap();
    assert_eq!(yaml, "\ntitle: Indented");
    assert_eq!(body, "\nBody.");
    assert!(split_frontmatter("Just text").is_none());
    assert!(split_frontmatter("---\ntitle: No Closing\nBody").is_none());
    let (yaml, body) = split_frontmatter("---\n---\nBody.").unwrap();
    assert_eq!(yaml, "");
    assert_eq!(body, "\nBody.");
}

#[test]
fn path_outside_the_root_is_kept_whole() {
    let mut g = DocGraph::new();
    g.add_document("/elsewhere/N.md", root(), None, "");
    assert_eq!(g.nodes[0].path, "/elsewhere/N.md");
    assert_eq!(g.nodes[0].id, "doc:/elsewhere/N.md");
    assert_eq!(g.nodes[0].title, "N");
}
