//! The document graph: one node per markdown note, and typed edges for its
//! wiki links, tags and headings, and the backlinks that invert the links.
use vstd::prelude::*;
use crate::frontmatter::{Frontmatter, FrontmatterView};
use crate::import_resolver::{name_stem, replace_char, replaced_char, stem_of_name};
use crate::markdown::{
    extract_headings, extract_tags, extract_wiki_links, headings_spec, headings_view, strings_view, tags_spec,
    wiki_from, wiki_view, Heading, HeadingView, WikiLink, WikiLinkView,
};
use crate::order::{lex_lt, compare_str, lemma_lex_asymmetric, lemma_lex_irreflexive, lemma_lex_total, lemma_lex_transitive};
use crate::paths::{file_name, file_name_spec};
use crate::text::{owned, push_str, str_eq};

verus! {

/// The kind of a node of the document graph.
#[derive(Debug, Clone, Copy, PartialEq, Eq, Structural)]
pub enum DocNodeType {
    Document,
    Heading,
    Tag,
    Concept,
}

/// The relationship an edge states.
#[derive(Debug, Clone, Copy, PartialEq, Eq, Structural)]
pub enum DocEdgeType {
    /// A document links to another by a wiki link.
    LinksTo,
    /// A document has a tag.
    HasTag,
    /// A document contains a heading.
    HasHeading,
    /// A document mentions another entity.
    Mentions,
    /// The inverse of a link: the linked document back to the linking one.
    BacklinksTo,
}

/// A node of the document graph: one markdown document.
#[derive(Debug, Clone)]
pub struct DocNode {
    /// `doc:` followed by the document's path.
    pub id: String,
    pub node_type: DocNodeType,
    /// The path relative to the project root, with `/` separators.
    pub path: String,
    /// The frontmatter's title, else the first heading, else the file stem.
    pub title: String,
    pub tags: Vec<String>,
    pub frontmatter: Option<Frontmatter>,
    pub headings: Vec<Heading>,
    pub wiki_links: Vec<WikiLink>,
}

/// A typed edge between two nodes, by their identifiers.
#[derive(Debug, Clone)]
pub struct DocEdge {
    pub from: String,
    pub to: String,
    pub edge_type: DocEdgeType,
}

/// The nodes and edges of the notes of a project.
#[derive(Debug, Clone)]
pub struct DocGraph {
    pub nodes: Vec<DocNode>,
    pub edges: Vec<DocEdge>,
}

pub struct DocNodeView {
    pub id: Seq<char>,
    pub node_type: DocNodeType,
    pub path: Seq<char>,
    pub title: Seq<char>,
    pub tags: Seq<Seq<char>>,
    pub frontmatter: Option<FrontmatterView>,
    pub headings: Seq<HeadingView>,
    pub wiki_links: Seq<WikiLinkView>,
}

pub struct DocEdgeView {
    pub from: Seq<char>,
    pub to: Seq<char>,
    pub edge_type: DocEdgeType,
}

pub struct DocGraphView {
    pub nodes: Seq<DocNodeView>,
    pub edges: Seq<DocEdgeView>,
}

pub open spec fn fm_view(f: Option<Frontmatter>) -> Option<FrontmatterView> {
    match f {
        Some(x) => Some(x@),
        None => None,
    }
}

impl View for DocNode {
    type V = DocNodeView;

    open spec fn view(&self) -> DocNodeView {
        DocNodeView {
            id: self.id@,
            node_type: self.node_type,
            path: self.path@,
            title: self.title@,
            tags: strings_view(self.tags@),
            frontmatter: fm_view(self.frontmatter),
            headings: headings_view(self.headings@),
            wiki_links: wiki_view(self.wiki_links@),
        }
    }
}

impl View for DocEdge {
    type V = DocEdgeView;

    open spec fn view(&self) -> DocEdgeView {
        DocEdgeView { from: self.from@, to: self.to@, edge_type: self.edge_type }
    }
}

pub open spec fn node_views(v: Seq<DocNode>) -> Seq<DocNodeView> {
    v.map_values(|n: DocNode| n@)
}

pub open spec fn edge_views(v: Seq<DocEdge>) -> Seq<DocEdgeView> {
    v.map_values(|e: DocEdge| e@)
}

impl View for DocGraph {
    type V = DocGraphView;

    open spec fn view(&self) -> DocGraphView {
        DocGraphView { nodes: node_views(self.nodes@), edges: edge_views(self.edges@) }
    }
}

// ── Paths ──────────────────────────────────────────────────────────────

/// What `Path::strip_prefix` gives of a path and a base.
pub uninterp spec fn path_strip_prefix(p: Seq<char>, base: Seq<char>) -> Option<Seq<char>>;

/// `std::path::Path::strip_prefix`: the path that, joined onto `base`,
/// gives `p`; `None` where `base` is not a prefix of `p` component by
/// component. Its result is named, not stated.
#[verifier::external_body]
fn strip_base(p: &str, base: &str) -> (r: Option<String>)
    ensures
        match r {
            Some(x) => path_strip_prefix(p@, base@) == Some(x@),
            None => path_strip_prefix(p@, base@) is None,
        },
{
    std::path::Path::new(p).strip_prefix(base).ok().map(|x| x.to_string_lossy().to_string())
}

/// A document's path relative to the root (itself where it is not under
/// the root), with `\` read as `/`.
pub open spec fn relative_spec(path: Seq<char>, root: Seq<char>) -> Seq<char> {
    replace_char(
        match path_strip_prefix(path, root) {
            Some(r) => r,
            None => path,
        },
        '\\',
        '/',
    )
}

/// A document's title: its frontmatter's, else its first heading's text,
/// else its file stem, else its path.
pub open spec fn doc_title(fm: Option<FrontmatterView>, headings: Seq<HeadingView>, relative: Seq<char>) -> Seq<char> {
    if fm is Some && fm->0.title is Some {
        fm->0.title->0
    } else if headings.len() > 0 {
        headings[0].text
    } else {
        match file_name_spec(relative) {
            Some(n) => stem_of_name(n),
            None => relative,
        }
    }
}

/// A document's tags: its frontmatter's, else those written in its text.
pub open spec fn doc_tags(fm: Option<FrontmatterView>, content: Seq<char>) -> Seq<Seq<char>> {
    match fm {
        Some(f) => f.tags,
        None => tags_spec(content),
    }
}

/// The edges a document adds: to each wiki link's target, each tag and
/// each heading, in that order.
pub open spec fn doc_edges(
    id: Seq<char>,
    relative: Seq<char>,
    links: Seq<WikiLinkView>,
    tags: Seq<Seq<char>>,
    headings: Seq<HeadingView>,
) -> Seq<DocEdgeView> {
    links.map_values(|l: WikiLinkView| DocEdgeView { from: id, to: "doc:"@ + l.target, edge_type: DocEdgeType::LinksTo })
        + tags.map_values(|t: Seq<char>| DocEdgeView { from: id, to: "tag:"@ + t, edge_type: DocEdgeType::HasTag })
        + headings.map_values(
        |h: HeadingView| DocEdgeView { from: id, to: "heading:"@ + relative + ":"@ + h.text, edge_type: DocEdgeType::HasHeading },
    )
}

/// The node of a document.
pub open spec fn doc_node(relative: Seq<char>, fm: Option<FrontmatterView>, content: Seq<char>) -> DocNodeView {
    DocNodeView {
        id: "doc:"@ + relative,
        node_type: DocNodeType::Document,
        path: relative,
        title: doc_title(fm, headings_spec(content), relative),
        tags: doc_tags(fm, content),
        frontmatter: fm,
        headings: headings_spec(content),
        wiki_links: wiki_from(content, 0),
    }
}

fn copy_strings(v: &Vec<String>) -> (r: Vec<String>)
    ensures
        strings_view(r@) == strings_view(v@),
{
    let mut r: Vec<String> = Vec::new();
    let mut i: usize = 0;
    while i < v.len()
        invariant
            i <= v.len(),
            strings_view(r@) == strings_view(v@).take(i as int),
        decreases v.len() - i,
    {
        let s = owned(v[i].as_str());
        let ghost before = strings_view(r@);
        r.push(s);
        assert(strings_view(r@) =~= before.push(s@));
        assert(strings_view(v@).take(i + 1) =~= strings_view(v@).take(i as int).push(v@[i as int]@));
        i += 1;
    }
    assert(strings_view(v@).take(v.len() as int) =~= strings_view(v@));
    r
}

fn concat2(a: &str, b: &str) -> (r: String)
    ensures
        r@ == a@ + b@,
{
    let mut r = owned(a);
    push_str(&mut r, b);
    r
}

fn concat3(a: &str, b: &str, c: &str) -> (r: String)
    ensures
        r@ == a@ + b@ + c@,
{
    let mut r = owned(a);
    push_str(&mut r, b);
    push_str(&mut r, c);
    r
}

impl DocGraph {
    /// An empty graph.
    pub fn new() -> (g: DocGraph)
        ensures
            g@.nodes.len() == 0,
            g@.edges.len() == 0,
    {
        DocGraph { nodes: Vec::new(), edges: Vec::new() }
    }

    fn push_edge(&mut self, from: &str, to: String, edge_type: DocEdgeType)
        ensures
            final(self)@.nodes == old(self)@.nodes,
            final(self)@.edges == old(self)@.edges.push(DocEdgeView { from: from@, to: to@, edge_type }),
    {
        let e = DocEdge { from: owned(from), to, edge_type };
        let ghost before = self@.edges;
        self.edges.push(e);
        assert(edge_views(self.edges@) =~= before.push(e@));
    }

    /// Add a document: its node (path relative to `root`, title, tags,
    /// frontmatter, headings and wiki links) and its edges.
    pub fn add_document(&mut self, path: &str, root: &str, frontmatter: Option<Frontmatter>, content: &str)
        ensures
            final(self)@.nodes == old(self)@.nodes.push(doc_node(relative_spec(path@, root@), fm_view(frontmatter), content@)),
            final(self)@.edges == old(self)@.edges + doc_edges(
                "doc:"@ + relative_spec(path@, root@),
                relative_spec(path@, root@),
                wiki_from(content@, 0),
                doc_tags(fm_view(frontmatter), content@),
                headings_spec(content@),
            ),
    {
        let stripped = match strip_base(path, root) {
            Some(r) => r,
            None => owned(path),
        };
        let relative = replaced_char(stripped.as_str(), '\\', '/');
        let links = extract_wiki_links(content);
        let headings = extract_headings(content);
        let tags = match &frontmatter {
            Some(fm) => copy_strings(&fm.tags),
            None => extract_tags(content),
        };
        let title = match &frontmatter {
            Some(fm) => match &fm.title {
                Some(t) => owned(t.as_str()),
                None => if headings.len() > 0 {
                    owned(headings[0].text.as_str())
                } else {
                    match file_name(relative.as_str()) {
                        Some(n) => name_stem(n.as_str()),
                        None => owned(relative.as_str()),
                    }
                },
            },
            None => if headings.len() > 0 {
                owned(headings[0].text.as_str())
            } else {
                match file_name(relative.as_str()) {
                    Some(n) => name_stem(n.as_str()),
                    None => owned(relative.as_str()),
                }
            },
        };
        let node_id = concat2("doc:", relative.as_str());
        let ghost base = self@.edges;
        let ghost start_nodes = self@.nodes;
        let ghost id = node_id@;
        let ghost rel = relative@;
        let ghost lv = wiki_view(links@);
        let ghost tv = strings_view(tags@);
        let ghost hv = headings_view(headings@);
        let ghost link_edges = lv.map_values(|l: WikiLinkView| DocEdgeView { from: id, to: "doc:"@ + l.target, edge_type: DocEdgeType::LinksTo });
        let ghost tag_edges = tv.map_values(|t: Seq<char>| DocEdgeView { from: id, to: "tag:"@ + t, edge_type: DocEdgeType::HasTag });
        let ghost heading_edges = hv.map_values(
            |h: HeadingView| DocEdgeView { from: id, to: "heading:"@ + rel + ":"@ + h.text, edge_type: DocEdgeType::HasHeading },
        );
        let mut i: usize = 0;
        while i < links.len()
            invariant
                i <= links.len(),
                lv == wiki_view(links@),
                node_id@ == id,
                link_edges == lv.map_values(|l: WikiLinkView| DocEdgeView { from: id, to: "doc:"@ + l.target, edge_type: DocEdgeType::LinksTo }),
                self@.edges == base + link_edges.take(i as int),
                self@.nodes == start_nodes,
            decreases links.len() - i,
        {
            let to = concat2("doc:", links[i].target.as_str());
            self.push_edge(node_id.as_str(), to, DocEdgeType::LinksTo);
            assert(link_edges.take(i + 1) =~= link_edges.take(i as int).push(link_edges[i as int]));
            assert(base + link_edges.take(i + 1) =~= (base + link_edges.take(i as int)).push(link_edges[i as int]));
            i += 1;
        }
        assert(link_edges.take(links.len() as int) =~= link_edges);
        let mut i: usize = 0;
        while i < tags.len()
            invariant
                i <= tags.len(),
                tv == strings_view(tags@),
                node_id@ == id,
                tag_edges == tv.map_values(|t: Seq<char>| DocEdgeView { from: id, to: "tag:"@ + t, edge_type: DocEdgeType::HasTag }),
                self@.edges == base + link_edges + tag_edges.take(i as int),
                self@.nodes == start_nodes,
            decreases tags.len() - i,
        {
            let to = concat2("tag:", tags[i].as_str());
            self.push_edge(node_id.as_str(), to, DocEdgeType::HasTag);
            assert(tag_edges.take(i + 1) =~= tag_edges.take(i as int).push(tag_edges[i as int]));
            assert(base + link_edges + tag_edges.take(i + 1) =~= (base + link_edges + tag_edges.take(i as int)).push(tag_edges[i as int]));
            i += 1;
        }
        assert(tag_edges.take(tags.len() as int) =~= tag_edges);
        let mut i: usize = 0;
        while i < headings.len()
            invariant
                i <= headings.len(),
                hv == headings_view(headings@),
                node_id@ == id,
                relative@ == rel,
                heading_edges == hv.map_values(
                    |h: HeadingView| DocEdgeView { from: id, to: "heading:"@ + rel + ":"@ + h.text, edge_type: DocEdgeType::HasHeading },
                ),
                self@.edges == base + link_edges + tag_edges + heading_edges.take(i as int),
                self@.nodes == start_nodes,
            decreases headings.len() - i,
        {
            let mut to = concat3("heading:", relative.as_str(), ":");
            push_str(&mut to, headings[i].text.as_str());
            self.push_edge(node_id.as_str(), to, DocEdgeType::HasHeading);
            assert(heading_edges.take(i + 1) =~= heading_edges.take(i as int).push(heading_edges[i as int]));
            assert(base + link_edges + tag_edges + heading_edges.take(i + 1) =~= (base + link_edges + tag_edges
                + heading_edges.take(i as int)).push(heading_edges[i as int]));
            i += 1;
        }
        assert(heading_edges.take(headings.len() as int) =~= heading_edges);
        assert(base + link_edges + tag_edges + heading_edges =~= base + (link_edges + tag_edges + heading_edges));
        let node = DocNode {
            id: node_id,
            node_type: DocNodeType::Document,
            path: relative,
            title,
            tags,
            frontmatter,
            headings,
            wiki_links: links,
        };
        let ghost before = self@.nodes;
        self.nodes.push(node);
        assert(node_views(self.nodes@) =~= before.push(node@));
    }

    /// Add a backlink for each link: for a link from A to B, an edge from
    /// B back to A, in the order of the links.
    pub fn generate_backlinks(&mut self)
        ensures
            final(self)@.nodes == old(self)@.nodes,
            final(self)@.edges == old(self)@.edges + backlinks_of(old(self)@.edges),
    {
        let ghost start = self@.edges;
        let mut pairs: Vec<(String, String)> = Vec::new();
        let mut i: usize = 0;
        while i < self.edges.len()
            invariant
                i <= self.edges.len(),
                self@.edges == start,
                pairs@.map_values(|p: (String, String)| DocEdgeView { from: p.1@, to: p.0@, edge_type: DocEdgeType::BacklinksTo })
                    == backlinks_of(start.take(i as int)),
            decreases self.edges.len() - i,
        {
            assert(start.take(i + 1).drop_last() =~= start.take(i as int));
            let e = &self.edges[i];
            if e.edge_type == DocEdgeType::LinksTo {
                let ghost before = pairs@;
                pairs.push((owned(e.from.as_str()), owned(e.to.as_str())));
                assert(pairs@.map_values(|p: (String, String)| DocEdgeView { from: p.1@, to: p.0@, edge_type: DocEdgeType::BacklinksTo })
                    =~= before.map_values(|p: (String, String)| DocEdgeView { from: p.1@, to: p.0@, edge_type: DocEdgeType::BacklinksTo }).push(
                    reverse_edge(start[i as int])));
                assert(backlinks_of(start.take(i + 1)) =~= backlinks_of(start.take(i as int)).push(reverse_edge(start[i as int])));
            } else {
                assert(backlinks_of(start.take(i + 1)) =~= backlinks_of(start.take(i as int)));
            }
            i += 1;
        }
        assert(start.take(start.len() as int) =~= start);
        let ghost pv = pairs@.map_values(|p: (String, String)| DocEdgeView { from: p.1@, to: p.0@, edge_type: DocEdgeType::BacklinksTo });
        let mut k: usize = 0;
        while k < pairs.len()
            invariant
                k <= pairs.len(),
                pv == pairs@.map_values(|p: (String, String)| DocEdgeView { from: p.1@, to: p.0@, edge_type: DocEdgeType::BacklinksTo }),
                self@.nodes == old(self)@.nodes,
                self@.edges == start + pv.take(k as int),
            decreases pairs.len() - k,
        {
            let to = owned(pairs[k].0.as_str());
            self.push_edge(pairs[k].1.as_str(), to, DocEdgeType::BacklinksTo);
            assert(pv.take(k + 1) =~= pv.take(k as int).push(pv[k as int]));
            assert(start + pv.take(k + 1) =~= (start + pv.take(k as int)).push(pv[k as int]));
            k += 1;
        }
        assert(pv.take(pairs.len() as int) =~= pv);
    }

    /// The nodes that link to a document: for each backlink edge from the
    /// document, in order, the first node whose identifier is the edge's
    /// other end.
    pub fn get_backlinks(&self, doc_id: &str) -> (r: Vec<&DocNode>)
        ensures
            r@.map_values(|n: &DocNode| n@) == backlinks_spec(self@.nodes, self@.edges, doc_id@),
    {
        let ghost ev = self@.edges;
        let mut r: Vec<&DocNode> = Vec::new();
        let mut i: usize = 0;
        assert(r@.map_values(|n: &DocNode| n@) =~= Seq::<DocNodeView>::empty());
        while i < self.edges.len()
            invariant
                i <= self.edges.len(),
                ev == self@.edges,
                r@.map_values(|n: &DocNode| n@) == backlinks_spec(self@.nodes, ev.take(i as int), doc_id@),
            decreases self.edges.len() - i,
        {
            assert(ev.take(i + 1).drop_last() =~= ev.take(i as int));
            let e = &self.edges[i];
            if e.edge_type == DocEdgeType::BacklinksTo && str_eq(e.from.as_str(), doc_id) {
                match self.node_index(e.to.as_str()) {
                    Some(k) => {
                        let ghost before = r@.map_values(|n: &DocNode| n@);
                        r.push(&self.nodes[k]);
                        assert(r@.map_values(|n: &DocNode| n@) =~= before.push(self@.nodes[k as int]));
                    },
                    None => {},
                }
            }
            i += 1;
        }
        assert(ev.take(ev.len() as int) =~= ev);
        r
    }

    /// The position of the first node with the identifier.
    fn node_index(&self, id: &str) -> (r: Option<usize>)
        ensures
            match r {
                Some(k) => k < self.nodes.len() && node_with_id(self@.nodes, id@) == Some(self@.nodes[k as int]),
                None => node_with_id(self@.nodes, id@) is None,
            },
    {
        let ghost nv = self@.nodes;
        let mut i: usize = 0;
        assert(nv.skip(0) =~= nv);
        while i < self.nodes.len()
            invariant
                i <= self.nodes.len(),
                nv == self@.nodes,
                node_with_id(nv, id@) == node_with_id(nv.skip(i as int), id@),
            decreases self.nodes.len() - i,
        {
            assert(nv.skip(i as int)[0] == nv[i as int]);
            assert(nv.skip(i as int).drop_first() =~= nv.skip(i + 1));
            if str_eq(self.nodes[i].id.as_str(), id) {
                return Some(i);
            }
            i += 1;
        }
        assert(nv.skip(i as int) =~= Seq::<DocNodeView>::empty());
        None
    }

    /// The first node with the given path.
    pub fn find_by_path(&self, path: &str) -> (r: Option<&DocNode>)
        ensures
            match r {
                Some(n) => node_with_path(self@.nodes, path@) == Some(n@),
                None => node_with_path(self@.nodes, path@) is None,
            },
    {
        let ghost nv = self@.nodes;
        let mut i: usize = 0;
        assert(nv.skip(0) =~= nv);
        while i < self.nodes.len()
            invariant
                i <= self.nodes.len(),
                nv == self@.nodes,
                node_with_path(nv, path@) == node_with_path(nv.skip(i as int), path@),
            decreases self.nodes.len() - i,
        {
            assert(nv.skip(i as int)[0] == nv[i as int]);
            assert(nv.skip(i as int).drop_first() =~= nv.skip(i + 1));
            if str_eq(self.nodes[i].path.as_str(), path) {
                return Some(&self.nodes[i]);
            }
            i += 1;
        }
        assert(nv.skip(i as int) =~= Seq::<DocNodeView>::empty());
        None
    }

    /// Every tag of every document, once each, in sorted order.
    pub fn get_all_tags(&self) -> (r: Vec<String>)
        ensures
            forall|t: Seq<char>| strings_view(r@).contains(t) <==> all_tags(self@.nodes).contains(t),
            forall|i: int, j: int| 0 <= i < j < r@.len() ==> lex_lt(#[trigger] r@[i]@, #[trigger] r@[j]@),
    {
        let ghost nv = self@.nodes;
        let mut r: Vec<String> = Vec::new();
        let mut i: usize = 0;
        while i < self.nodes.len()
            invariant
                i <= self.nodes.len(),
                nv == self@.nodes,
                forall|t: Seq<char>| strings_view(r@).contains(t) <==> all_tags(nv.take(i as int)).contains(t),
                forall|a: int, b: int| 0 <= a < b < r@.len() ==> lex_lt(#[trigger] r@[a]@, #[trigger] r@[b]@),
            decreases self.nodes.len() - i,
        {
            assert(nv.take(i + 1).drop_last() =~= nv.take(i as int));
            assert(all_tags(nv.take(i + 1)) == all_tags(nv.take(i as int)) + nv[i as int].tags);
            let tags = &self.nodes[i].tags;
            let ghost done = all_tags(nv.take(i as int));
            let mut k: usize = 0;
            while k < tags.len()
                invariant
                    k <= tags.len(),
                    i < nv.len(),
                    strings_view(tags@) == nv[i as int].tags,
                    forall|t: Seq<char>| strings_view(r@).contains(t) <==> (done + strings_view(tags@).take(k as int)).contains(t),
                    forall|a: int, b: int| 0 <= a < b < r@.len() ==> lex_lt(#[trigger] r@[a]@, #[trigger] r@[b]@),
                decreases tags.len() - k,
            {
                let ghost prev = done + strings_view(tags@).take(k as int);
                assert(done + strings_view(tags@).take(k + 1) =~= prev.push(tags@[k as int]@));
                let ghost before = strings_view(r@);
                insert_sorted(&mut r, tags[k].as_str());
                assert forall|t: Seq<char>| strings_view(r@).contains(t) <==> prev.push(tags@[k as int]@).contains(t) by {
                    lemma_push_contains(before, tags@[k as int]@, t);
                    lemma_push_contains(prev, tags@[k as int]@, t);
                }
                k += 1;
            }
            assert(strings_view(tags@).take(tags.len() as int) =~= strings_view(tags@));
            i += 1;
        }
        assert(nv.take(nv.len() as int) =~= nv);
        r
    }

    /// Remove a document: its nodes, and every edge from or to one of
    /// them.
    pub fn remove_document(&mut self, path: &str)
        ensures
            final(self)@.nodes == nodes_without(old(self)@.nodes, path@),
            final(self)@.edges == edges_without(old(self)@.edges, ids_with_path(old(self)@.nodes, path@)),
    {
        let ghost nv = self@.nodes;
        let ghost ids = ids_with_path(nv, path@);
        let mut gone: Vec<String> = Vec::new();
        let mut i: usize = 0;
        while i < self.nodes.len()
            invariant
                i <= self.nodes.len(),
                nv == self@.nodes,
                forall|id: Seq<char>| strings_view(gone@).contains(id) <==> ids_with_path(nv.take(i as int), path@).contains(id),
            decreases self.nodes.len() - i,
        {
            assert(nv.take(i + 1).drop_last() =~= nv.take(i as int));
            let ghost before = strings_view(gone@);
            if str_eq(self.nodes[i].path.as_str(), path) {
                gone.push(owned(self.nodes[i].id.as_str()));
                assert(strings_view(gone@) =~= before.push(nv[i as int].id));
                assert forall|id: Seq<char>| strings_view(gone@).contains(id) <==> ids_with_path(nv.take(i + 1), path@).contains(id) by {
                    lemma_push_contains(before, nv[i as int].id, id);
                    lemma_push_contains(ids_with_path(nv.take(i as int), path@), nv[i as int].id, id);
                }
            }
            i += 1;
        }
        assert(nv.take(nv.len() as int) =~= nv);
        // The nodes.
        let ghost n0 = self@.nodes;
        let mut i: usize = 0;
        let ghost mut k: int = 0;
        assert(n0.take(0) =~= Seq::<DocNodeView>::empty());
        assert(n0.skip(0) =~= n0);
        while i < self.nodes.len()
            invariant
                0 <= k <= n0.len(),
                i <= self.nodes.len(),
                self@.nodes == nodes_without(n0.take(k), path@) + n0.skip(k),
                i == nodes_without(n0.take(k), path@).len(),
                self@.edges == old(self)@.edges,
            decreases self.nodes.len() - i,
        {
            let ghost kept = nodes_without(n0.take(k), path@);
            assert(self@.nodes[i as int] == n0[k]);
            assert(n0.take(k + 1).drop_last() =~= n0.take(k));
            assert(n0.skip(k).drop_first() =~= n0.skip(k + 1));
            if str_eq(self.nodes[i].path.as_str(), path) {
                let ghost before = self.nodes@;
                let _removed = self.nodes.remove(i);
                assert(self.nodes@ == before.remove(i as int));
                assert(node_views(before) == kept + n0.skip(k));
                assert(node_views(self.nodes@) =~= node_views(before).remove(i as int));
                assert(node_views(before).remove(i as int) =~= kept + n0.skip(k + 1));
            } else {
                assert(self@.nodes =~= kept.push(n0[k]) + n0.skip(k + 1));
                i += 1;
            }
            proof {
                k = k + 1;
            }
        }
        assert(k == n0.len()) by {
            assert(self@.nodes.len() == nodes_without(n0.take(k), path@).len() + n0.skip(k).len());
        }
        assert(n0.take(k) =~= n0);
        assert(self@.nodes =~= nodes_without(n0, path@));
        // The edges.
        let ghost e0 = self@.edges;
        let mut i: usize = 0;
        let ghost mut k: int = 0;
        assert(e0.take(0) =~= Seq::<DocEdgeView>::empty());
        assert(e0.skip(0) =~= e0);
        while i < self.edges.len()
            invariant
                0 <= k <= e0.len(),
                i <= self.edges.len(),
                forall|id: Seq<char>| strings_view(gone@).contains(id) <==> ids.contains(id),
                self@.edges == edges_without(e0.take(k), ids) + e0.skip(k),
                i == edges_without(e0.take(k), ids).len(),
                self@.nodes == nodes_without(n0, path@),
            decreases self.edges.len() - i,
        {
            let ghost kept = edges_without(e0.take(k), ids);
            assert(self@.edges[i as int] == e0[k]);
            assert(e0.take(k + 1).drop_last() =~= e0.take(k));
            assert(e0.skip(k).drop_first() =~= e0.skip(k + 1));
            let touches = holds(&gone, self.edges[i].from.as_str()) || holds(&gone, self.edges[i].to.as_str());
            if touches {
                let ghost before = self.edges@;
                let _removed = self.edges.remove(i);
                assert(self.edges@ == before.remove(i as int));
                assert(edge_views(before) == kept + e0.skip(k));
                assert(edge_views(self.edges@) =~= edge_views(before).remove(i as int));
                assert(edge_views(before).remove(i as int) =~= kept + e0.skip(k + 1));
            } else {
                assert(self@.edges =~= kept.push(e0[k]) + e0.skip(k + 1));
                i += 1;
            }
            proof {
                k = k + 1;
            }
        }
        assert(k == e0.len()) by {
            assert(self@.edges.len() == edges_without(e0.take(k), ids).len() + e0.skip(k).len());
        }
        assert(e0.take(k) =~= e0);
        assert(self@.edges =~= edges_without(e0, ids));
    }

    /// Merge another graph into this one: the documents of `other` replace
    /// those of this graph with the same paths (removed one path at a time,
    /// in the order of `other`'s nodes), then `other`'s nodes and edges are
    /// appended.
    pub fn merge(&mut self, other: DocGraph)
        ensures
            final(self)@ == merged(old(self)@, other@),
    {
        let mut other = other;
        let ghost ov = other@;
        let mut i: usize = 0;
        let ghost start = self@;
        while i < other.nodes.len()
            invariant
                i <= other.nodes.len(),
                other@ == ov,
                self@ == remove_paths(start, ov.nodes.take(i as int)),
            decreases other.nodes.len() - i,
        {
            assert(ov.nodes.take(i + 1).drop_last() =~= ov.nodes.take(i as int));
            self.remove_document(other.nodes[i].path.as_str());
            i += 1;
        }
        assert(ov.nodes.take(ov.nodes.len() as int) =~= ov.nodes);
        let ghost mid = self@;
        self.nodes.append(&mut other.nodes);
        self.edges.append(&mut other.edges);
        assert(node_views(self.nodes@) =~= mid.nodes + ov.nodes);
        assert(edge_views(self.edges@) =~= mid.edges + ov.edges);
    }
}

// ── Specifications of the queries ──────────────────────────────────────

/// The edge that inverts a link.
pub open spec fn reverse_edge(e: DocEdgeView) -> DocEdgeView {
    DocEdgeView { from: e.to, to: e.from, edge_type: DocEdgeType::BacklinksTo }
}

/// The backlinks of the links among the edges, in order.
pub open spec fn backlinks_of(edges: Seq<DocEdgeView>) -> Seq<DocEdgeView>
    decreases edges.len(),
{
    if edges.len() == 0 {
        Seq::empty()
    } else {
        let prev = backlinks_of(edges.drop_last());
        if edges.last().edge_type == DocEdgeType::LinksTo { prev.push(reverse_edge(edges.last())) } else { prev }
    }
}

/// The first node with the identifier.
pub open spec fn node_with_id(nodes: Seq<DocNodeView>, id: Seq<char>) -> Option<DocNodeView>
    decreases nodes.len(),
{
    if nodes.len() == 0 {
        None
    } else if nodes[0].id == id {
        Some(nodes[0])
    } else {
        node_with_id(nodes.drop_first(), id)
    }
}

/// The first node with the path.
pub open spec fn node_with_path(nodes: Seq<DocNodeView>, path: Seq<char>) -> Option<DocNodeView>
    decreases nodes.len(),
{
    if nodes.len() == 0 {
        None
    } else if nodes[0].path == path {
        Some(nodes[0])
    } else {
        node_with_path(nodes.drop_first(), path)
    }
}

/// The nodes that backlink edges from `doc_id` lead to, in edge order.
pub open spec fn backlinks_spec(nodes: Seq<DocNodeView>, edges: Seq<DocEdgeView>, doc_id: Seq<char>) -> Seq<DocNodeView>
    decreases edges.len(),
{
    if edges.len() == 0 {
        Seq::empty()
    } else {
        let prev = backlinks_spec(nodes, edges.drop_last(), doc_id);
        let e = edges.last();
        if e.edge_type == DocEdgeType::BacklinksTo && e.from == doc_id {
            match node_with_id(nodes, e.to) {
                Some(n) => prev.push(n),
                None => prev,
            }
        } else {
            prev
        }
    }
}

/// The tags of all the nodes, in order, repeats included.
pub open spec fn all_tags(nodes: Seq<DocNodeView>) -> Seq<Seq<char>>
    decreases nodes.len(),
{
    if nodes.len() == 0 {
        Seq::empty()
    } else {
        all_tags(nodes.drop_last()) + nodes.last().tags
    }
}

/// The nodes of other paths.
pub open spec fn nodes_without(nodes: Seq<DocNodeView>, path: Seq<char>) -> Seq<DocNodeView>
    decreases nodes.len(),
{
    if nodes.len() == 0 {
        Seq::empty()
    } else {
        let prev = nodes_without(nodes.drop_last(), path);
        if nodes.last().path == path { prev } else { prev.push(nodes.last()) }
    }
}

/// The identifiers of the nodes with the path.
pub open spec fn ids_with_path(nodes: Seq<DocNodeView>, path: Seq<char>) -> Seq<Seq<char>>
    decreases nodes.len(),
{
    if nodes.len() == 0 {
        Seq::empty()
    } else {
        let prev = ids_with_path(nodes.drop_last(), path);
        if nodes.last().path == path { prev.push(nodes.last().id) } else { prev }
    }
}

/// The edges that touch none of the identifiers.
pub open spec fn edges_without(edges: Seq<DocEdgeView>, ids: Seq<Seq<char>>) -> Seq<DocEdgeView>
    decreases edges.len(),
{
    if edges.len() == 0 {
        Seq::empty()
    } else {
        let prev = edges_without(edges.drop_last(), ids);
        let e = edges.last();
        if ids.contains(e.from) || ids.contains(e.to) { prev } else { prev.push(e) }
    }
}

/// A graph without the document at `path`.
pub open spec fn remove_path(g: DocGraphView, path: Seq<char>) -> DocGraphView {
    DocGraphView { nodes: nodes_without(g.nodes, path), edges: edges_without(g.edges, ids_with_path(g.nodes, path)) }
}

/// A graph without the documents of the given nodes' paths, removed in
/// order.
pub open spec fn remove_paths(g: DocGraphView, by: Seq<DocNodeView>) -> DocGraphView
    decreases by.len(),
{
    if by.len() == 0 {
        g
    } else {
        remove_path(remove_paths(g, by.drop_last()), by.last().path)
    }
}

/// `g` with `other`'s documents in place of its own of the same paths.
pub open spec fn merged(g: DocGraphView, other: DocGraphView) -> DocGraphView {
    let kept = remove_paths(g, other.nodes);
    DocGraphView { nodes: kept.nodes + other.nodes, edges: kept.edges + other.edges }
}

proof fn lemma_push_contains(s: Seq<Seq<char>>, x: Seq<char>, t: Seq<char>)
    ensures
        s.push(x).contains(t) <==> (s.contains(t) || t == x),
{
    if s.push(x).contains(t) {
        let j = choose|j: int| 0 <= j < s.push(x).len() && s.push(x)[j] == t;
        if j < s.len() {
            assert(s[j] == t);
        }
    }
    if s.contains(t) {
        let j = choose|j: int| 0 <= j < s.len() && s[j] == t;
        assert(s.push(x)[j] == t);
    }
    if t == x {
        assert(s.push(x)[s.len() as int] == t);
    }
}

fn holds(v: &Vec<String>, s: &str) -> (b: bool)
    ensures
        b == strings_view(v@).contains(s@),
{
    let mut i: usize = 0;
    while i < v.len()
        invariant
            i <= v.len(),
            forall|k: int| 0 <= k < i ==> strings_view(v@)[k] != s@,
        decreases v.len() - i,
    {
        if str_eq(v[i].as_str(), s) {
            assert(strings_view(v@)[i as int] == s@);
            return true;
        }
        i += 1;
    }
    false
}

/// Insert `t` into a strictly sorted list unless it is there already.
fn insert_sorted(r: &mut Vec<String>, t: &str)
    requires
        forall|a: int, b: int| 0 <= a < b < old(r)@.len() ==> lex_lt(#[trigger] old(r)@[a]@, #[trigger] old(r)@[b]@),
    ensures
        forall|x: Seq<char>| strings_view(final(r)@).contains(x) <==> (strings_view(old(r)@).push(t@)).contains(x),
        forall|a: int, b: int| 0 <= a < b < final(r)@.len() ==> lex_lt(#[trigger] final(r)@[a]@, #[trigger] final(r)@[b]@),
{
    let ghost sv = strings_view(r@);
    let mut p: usize = 0;
    while p < r.len() && compare_str(r[p].as_str(), t) < 0
        invariant
            p <= r.len(),
            sv == strings_view(r@),
            forall|a: int| 0 <= a < p ==> lex_lt(#[trigger] r@[a]@, t@),
        decreases r.len() - p,
    {
        p += 1;
    }
    if p < r.len() && str_eq(r[p].as_str(), t) {
        assert(strings_view(r@).push(t@).contains(t@) ==> strings_view(r@).contains(t@)) by {
            assert(strings_view(r@)[p as int] == t@);
        }
        assert forall|x: Seq<char>| strings_view(r@).push(t@).contains(x) implies strings_view(r@).contains(x) by {
            if x == t@ {
                assert(strings_view(r@)[p as int] == t@);
            } else {
                let j = choose|j: int| 0 <= j < strings_view(r@).push(t@).len() && strings_view(r@).push(t@)[j] == x;
                assert(strings_view(r@)[j] == x);
            }
        }
        assert forall|x: Seq<char>| strings_view(r@).contains(x) implies strings_view(r@).push(t@).contains(x) by {
            let j = choose|j: int| 0 <= j < strings_view(r@).len() && strings_view(r@)[j] == x;
            assert(strings_view(r@).push(t@)[j] == x);
        }
        return;
    }
    proof {
        if p < r.len() {
            lemma_lex_total(r@[p as int]@, t@);
            assert(lex_lt(t@, r@[p as int]@));
        }
    }
    let ghost old_r = r@;
    r.insert(p, owned(t));
    proof {
        assert forall|a: int, b: int| 0 <= a < b < r@.len() implies lex_lt(#[trigger] r@[a]@, #[trigger] r@[b]@) by {
            if b < p {
                assert(r@[a] == old_r[a] && r@[b] == old_r[b]);
            } else if b == p {
                assert(r@[a] == old_r[a]);
            } else if a == p {
                assert(r@[b] == old_r[b - 1]);
                if b - 1 > p {
                    lemma_lex_transitive(t@, old_r[p as int]@, old_r[b - 1]@);
                }
            } else if a < p {
                assert(r@[a] == old_r[a] && r@[b] == old_r[b - 1]);
                lemma_lex_transitive(old_r[a]@, t@, old_r[b - 1]@);
                if !(lex_lt(old_r[a]@, old_r[b - 1]@)) {
                    if p < old_r.len() {
                        lemma_lex_transitive(old_r[a]@, t@, old_r[p as int]@);
                        if b - 1 > p {
                            lemma_lex_transitive(old_r[a]@, old_r[p as int]@, old_r[b - 1]@);
                        }
                    }
                }
            } else {
                assert(r@[a] == old_r[a - 1] && r@[b] == old_r[b - 1]);
            }
        }
        assert forall|x: Seq<char>| strings_view(r@).contains(x) <==> strings_view(old_r).push(t@).contains(x) by {
            if strings_view(r@).contains(x) {
                let j = choose|j: int| 0 <= j < strings_view(r@).len() && strings_view(r@)[j] == x;
                if j < p {
                    assert(strings_view(old_r).push(t@)[j] == x);
                } else if j == p {
                    assert(strings_view(old_r).push(t@)[old_r.len() as int] == x);
                } else {
                    assert(strings_view(old_r).push(t@)[j - 1] == x);
                }
            }
            if strings_view(old_r).push(t@).contains(x) {
                let j = choose|j: int| 0 <= j < strings_view(old_r).push(t@).len() && strings_view(old_r).push(t@)[j] == x;
                if j == old_r.len() {
                    assert(strings_view(r@)[p as int] == x);
                } else if j < p {
                    assert(strings_view(r@)[j] == x);
                } else {
                    assert(strings_view(r@)[j + 1] == x);
                }
            }
        }
    }
}

} // verus!
