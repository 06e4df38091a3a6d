//! YAML frontmatter of markdown documents: the fields a note declares, and
//! where the frontmatter block stands in the text.
//!
//! A frontmatter block opens with `---` at the start of the document
//! (whitespace before it aside) and closes with `---` at the start of a
//! later line. Reading the YAML between them into a [`Frontmatter`] is a
//! serde parse, done around this library.
use vstd::prelude::*;
use crate::text::{chars_of, find_from, first_match_from, is_prefix, is_whitespace, string_from, trim_start};

verus! {

/// The frontmatter of a note.
#[derive(Debug, Clone)]
pub struct Frontmatter {
    /// The note's title.
    pub title: Option<String>,
    /// A short description of the note.
    pub description: Option<String>,
    /// Tags the note declares.
    pub tags: Vec<String>,
    /// Other names of the note.
    pub aliases: Vec<String>,
    /// Paths or names of related source files.
    pub related_code: Vec<String>,
    /// Code symbols the note refers to.
    pub symbols: Vec<String>,
    /// The other fields: each key with its value written as YAML.
    pub extra: Vec<(String, String)>,
}

pub struct FrontmatterView {
    pub title: Option<Seq<char>>,
    pub description: Option<Seq<char>>,
    pub tags: Seq<Seq<char>>,
    pub aliases: Seq<Seq<char>>,
    pub related_code: Seq<Seq<char>>,
    pub symbols: Seq<Seq<char>>,
    pub extra: Seq<(Seq<char>, Seq<char>)>,
}

impl View for Frontmatter {
    type V = FrontmatterView;

    open spec fn view(&self) -> FrontmatterView {
        FrontmatterView {
            title: crate::codemap::opt_str_view(self.title),
            description: crate::codemap::opt_str_view(self.description),
            tags: self.tags@.map_values(|s: String| s@),
            aliases: self.aliases@.map_values(|s: String| s@),
            related_code: self.related_code@.map_values(|s: String| s@),
            symbols: self.symbols@.map_values(|s: String| s@),
            extra: self.extra@.map_values(|p: (String, String)| (p.0@, p.1@)),
        }
    }
}

impl Default for Frontmatter {
    /// No fields.
    fn default() -> (f: Frontmatter)
        ensures
            f@.title is None && f@.description is None,
            f@.tags.len() == 0 && f@.aliases.len() == 0 && f@.related_code.len() == 0,
            f@.symbols.len() == 0 && f@.extra.len() == 0,
    {
        Frontmatter {
            title: None,
            description: None,
            tags: Vec::new(),
            aliases: Vec::new(),
            related_code: Vec::new(),
            symbols: Vec::new(),
            extra: Vec::new(),
        }
    }
}

/// The frontmatter block of a document: the YAML text between the opening
/// `---` and the next line that starts with `---`, and the rest of the
/// document after that closing `---`. None where the document, its leading
/// whitespace aside, does not open with `---`, or the block never closes.
pub open spec fn frontmatter_block(content: Seq<char>) -> Option<(Seq<char>, Seq<char>)> {
    let t = trim_start(content);
    let after = t.skip(3);
    if !is_prefix("---"@, t) {
        None
    } else {
        match first_match_from(after, 0, "\n---"@) {
            Some(end) => Some((after.take(end), after.skip(end + 4))),
            None => None,
        }
    }
}

/// Split a document into its frontmatter's YAML text and the body after it.
pub fn split_frontmatter(content: &str) -> (r: Option<(String, String)>)
    ensures
        match r {
            Some((yaml, body)) => frontmatter_block(content@) == Some((yaml@, body@)),
            None => frontmatter_block(content@) is None,
        },
{
    let v = chars_of(content);
    let mut a: usize = 0;
    assert(v@.skip(0) =~= v@);
    while a < v.len() && is_whitespace(v[a])
        invariant
            a <= v.len(),
            trim_start(v@) == trim_start(v@.skip(a as int)),
        decreases v.len() - a,
    {
        assert(v@.skip(a as int).drop_first() =~= v@.skip(a + 1));
        a += 1;
    }
    assert(trim_start(v@.skip(a as int)) == v@.skip(a as int));
    let t = string_from(&v, a, v.len());
    assert(t@ =~= v@.skip(a as int));
    let tv = chars_of(t.as_str());
    let open = chars_of("---");
    proof {
        reveal_strlit("---");
        reveal_strlit("\n---");
    }
    if !(tv.len() >= 3 && tv[0] == '-' && tv[1] == '-' && tv[2] == '-') {
        assert(!is_prefix("---"@, t@)) by {
            if is_prefix("---"@, t@) {
                assert(t@.subrange(0, 3) =~= "---"@);
                assert(t@[0] == t@.subrange(0, 3)[0]);
                assert(t@[1] == t@.subrange(0, 3)[1]);
                assert(t@[2] == t@.subrange(0, 3)[2]);
            }
        }
        return None;
    }
    assert(is_prefix("---"@, t@)) by {
        assert(t@.subrange(0, 3) =~= "---"@);
    }
    let after = string_from(&tv, 3, tv.len());
    assert(after@ =~= t@.skip(3));
    let av = chars_of(after.as_str());
    let close = chars_of("\n---");
    match find_from(&av, 0, &close) {
        Some(end) => {
            let yaml = string_from(&av, 0, end);
            let body = string_from(&av, end + 4, av.len());
            assert(yaml@ =~= av@.take(end as int));
            assert(body@ =~= av@.skip(end + 4));
            Some((yaml, body))
        },
        None => None,
    }
}

} // verus!
