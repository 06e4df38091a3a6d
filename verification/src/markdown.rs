//! Markdown content extraction: wiki links, tags, headings and standard
//! links.
use vstd::prelude::*;
use crate::text::{
    chars_of, first_char_from, first_match_from, find_char_from, find_from, is_ws, is_whitespace,
    string_from, sub_vec, trim, trim_bounds, trim_end_in, trim_end_set, unicode_alphanumeric,
    char_is_alphanumeric, str_eq,
};

verus! {

/// An Obsidian-style wiki link (`[[target]]` or `[[target|alias]]`).
#[derive(Debug, Clone)]
pub struct WikiLink {
    /// The link target (a note name or path).
    pub target: String,
    /// The display alias, the part after `|`.
    pub alias: Option<String>,
    /// The raw text of the link, brackets included.
    pub full_text: String,
}

/// A standard markdown link (`[text](url)`).
#[derive(Debug, Clone)]
pub struct MarkdownLink {
    /// The display text inside `[...]`.
    pub text: String,
    /// The URL inside `(...)`.
    pub url: String,
}

/// A heading of markdown content.
#[derive(Debug, Clone)]
pub struct Heading {
    /// Heading level (1 to 6).
    pub level: u8,
    /// The heading text, without the leading `#` characters.
    pub text: String,
    /// One-based line of the heading.
    pub line: usize,
}

pub struct WikiLinkView {
    pub target: Seq<char>,
    pub alias: Option<Seq<char>>,
    pub full_text: Seq<char>,
}

pub struct MarkdownLinkView {
    pub text: Seq<char>,
    pub url: Seq<char>,
}

pub struct HeadingView {
    pub level: u8,
    pub text: Seq<char>,
    pub line: int,
}

impl View for WikiLink {
    type V = WikiLinkView;

    open spec fn view(&self) -> WikiLinkView {
        WikiLinkView {
            target: self.target@,
            alias: match self.alias {
                Some(a) => Some(a@),
                None => None,
            },
            full_text: self.full_text@,
        }
    }
}

impl View for MarkdownLink {
    type V = MarkdownLinkView;

    open spec fn view(&self) -> MarkdownLinkView {
        MarkdownLinkView { text: self.text@, url: self.url@ }
    }
}

impl View for Heading {
    type V = HeadingView;

    open spec fn view(&self) -> HeadingView {
        HeadingView { level: self.level, text: self.text@, line: self.line as int }
    }
}

pub open spec fn strings_view(v: Seq<String>) -> Seq<Seq<char>> {
    v.map_values(|s: String| s@)
}

// ── Lines ──────────────────────────────────────────────────────────────

/// The character ranges of the lines of `s[start..]`: lines end at `\n`,
/// a line that ends in `\r\n` loses its `\r`, and a final line break
/// starts no further line.
pub open spec fn line_ranges_from(s: Seq<char>, start: int) -> Seq<(int, int)>
    decreases s.len() - start,
{
    if start < 0 || start >= s.len() {
        Seq::empty()
    } else {
        match first_char_from(s, start, '\n') {
            None => seq![(start, s.len() as int)],
            Some(j) => if j < start || j >= s.len() {
                Seq::empty()
            } else {
                let e = if j > start && s[j - 1] == '\r' { j - 1 } else { j };
                seq![(start, e)] + line_ranges_from(s, j + 1)
            },
        }
    }
}

/// The character ranges of the lines of `s`.
pub open spec fn line_ranges(s: Seq<char>) -> Seq<(int, int)> {
    line_ranges_from(s, 0)
}

pub open spec fn ranges_view(r: Seq<(usize, usize)>) -> Seq<(int, int)> {
    r.map_values(|p: (usize, usize)| (p.0 as int, p.1 as int))
}

/// The lines of a text, as character ranges.
pub fn split_lines(v: &Vec<char>) -> (r: Vec<(usize, usize)>)
    ensures
        ranges_view(r@) == line_ranges(v@),
        forall|k: int| 0 <= k < r.len() ==> (#[trigger] r@[k]).0 <= r@[k].1 <= v.len(),
{
    let mut r: Vec<(usize, usize)> = Vec::new();
    let mut start: usize = 0;
    while start < v.len()
        invariant
            start <= v.len(),
            line_ranges(v@) == ranges_view(r@) + line_ranges_from(v@, start as int),
            forall|k: int| 0 <= k < r.len() ==> (#[trigger] r@[k]).0 <= r@[k].1 <= v.len(),
        decreases v.len() - start,
    {
        let ghost before = r@;
        match find_char_from(v, start, '\n') {
            None => {
                r.push((start, v.len()));
                assert(ranges_view(r@) =~= ranges_view(before) + seq![(start as int, v.len() as int)]);
                assert(line_ranges(v@) =~= ranges_view(r@) + line_ranges_from(v@, v.len() as int));
                start = v.len();
            },
            Some(j) => {
                let e = if j > start && v[j - 1] == '\r' { j - 1 } else { j };
                r.push((start, e));
                assert(ranges_view(r@) =~= ranges_view(before) + seq![(start as int, e as int)]);
                assert(line_ranges(v@) =~= ranges_view(r@) + line_ranges_from(v@, j + 1));
                start = j + 1;
            },
        }
    }
    assert(line_ranges_from(v@, start as int) =~= Seq::<(int, int)>::empty());
    assert(line_ranges(v@) =~= ranges_view(r@));
    r
}

// ── Words ──────────────────────────────────────────────────────────────

/// The first position at or after `i` that is not whitespace, or the length.
pub open spec fn skip_ws(s: Seq<char>, i: int) -> int
    decreases s.len() - i,
{
    if i < 0 || i >= s.len() {
        s.len() as int
    } else if is_ws(s[i]) {
        skip_ws(s, i + 1)
    } else {
        i
    }
}

/// The first whitespace position at or after `i`, or the length.
pub open spec fn word_end(s: Seq<char>, i: int) -> int
    decreases s.len() - i,
{
    if i < 0 || i >= s.len() {
        s.len() as int
    } else if is_ws(s[i]) {
        i
    } else {
        word_end(s, i + 1)
    }
}

/// The whitespace-separated words of `s[i..]`.
pub open spec fn words_from(s: Seq<char>, i: int) -> Seq<Seq<char>>
    decreases s.len() - i,
{
    let a = skip_ws(s, i);
    if a < i || a >= s.len() {
        Seq::empty()
    } else {
        let b = word_end(s, a);
        if b <= a || b > s.len() {
            Seq::empty()
        } else {
            seq![s.subrange(a, b)] + words_from(s, b)
        }
    }
}

// ── Tags ───────────────────────────────────────────────────────────────

/// A character a tag may end with: alphanumeric, `_`, `/` or `-`.
pub open spec fn tag_keep(c: char) -> bool {
    unicode_alphanumeric(c) || c == '_' || c == '/' || c == '-'
}

/// `s` without its trailing characters that a tag may not end with.
pub open spec fn trim_end_punct(s: Seq<char>) -> Seq<char>
    decreases s.len(),
{
    if s.len() > 0 && !tag_keep(s.last()) {
        trim_end_punct(s.drop_last())
    } else {
        s
    }
}

/// The tag a word carries: a word of two or more characters that starts
/// with `#`, without the `#`, trailing punctuation and trailing `/`.
pub open spec fn word_tag(w: Seq<char>) -> Option<Seq<char>> {
    if w.len() > 1 && w[0] == '#' {
        let t = trim_end_in(trim_end_punct(w.skip(1)), seq!['/']);
        if t.len() > 0 {
            Some(t)
        } else {
            None
        }
    } else {
        None
    }
}

pub open spec fn word_tags(ws: Seq<Seq<char>>) -> Seq<Seq<char>>
    decreases ws.len(),
{
    if ws.len() == 0 {
        Seq::empty()
    } else {
        let prev = word_tags(ws.drop_last());
        match word_tag(ws.last()) {
            Some(t) => prev.push(t),
            None => prev,
        }
    }
}

/// The tags of one line; a frontmatter delimiter line `---` has none.
pub open spec fn line_tags(l: Seq<char>) -> Seq<Seq<char>> {
    if trim(l) == "---"@ {
        Seq::empty()
    } else {
        word_tags(words_from(l, 0))
    }
}

pub open spec fn tags_in(s: Seq<char>, ranges: Seq<(int, int)>) -> Seq<Seq<char>>
    decreases ranges.len(),
{
    if ranges.len() == 0 {
        Seq::empty()
    } else {
        tags_in(s, ranges.drop_last()) + line_tags(s.subrange(ranges.last().0, ranges.last().1))
    }
}

/// The tags of markdown content, line by line.
pub open spec fn tags_spec(s: Seq<char>) -> Seq<Seq<char>> {
    tags_in(s, line_ranges(s))
}

/// The tag of the word `w`.
fn tag_of_word(w: &Vec<char>) -> (r: Option<String>)
    ensures
        match r {
            Some(t) => word_tag(w@) == Some(t@),
            None => word_tag(w@) is None,
        },
{
    if !(w.len() > 1 && w[0] == '#') {
        return None;
    }
    let ghost rest = w@.skip(1);
    assert(rest =~= w@.subrange(1, w.len() as int));
    let mut e = w.len();
    while e > 1 && !(char_is_alphanumeric(w[e - 1]) || w[e - 1] == '_' || w[e - 1] == '/' || w[e - 1] == '-')
        invariant
            1 <= e <= w.len(),
            rest == w@.subrange(1, w.len() as int),
            trim_end_punct(rest) == trim_end_punct(w@.subrange(1, e as int)),
        decreases e,
    {
        assert(w@.subrange(1, e as int).drop_last() =~= w@.subrange(1, e - 1));
        e -= 1;
    }
    let slash: Vec<char> = vec!['/'];
    assert(slash@ =~= seq!['/']);
    let f = trim_end_set(w, 1, e, &slash);
    if f == 1 {
        return None;
    }
    Some(string_from(w, 1, f))
}

/// The tags of one line.
fn push_line_tags(line: &Vec<char>, tags: &mut Vec<String>)
    ensures
        strings_view(final(tags)@) == strings_view(old(tags)@) + line_tags(line@),
{
    let (a, e) = trim_bounds(line, 0, line.len());
    assert(line@.subrange(0, line.len() as int) =~= line@);
    let t = string_from(line, a, e);
    if str_eq(t.as_str(), "---") {
        assert(strings_view(tags@) =~= strings_view(tags@) + Seq::<Seq<char>>::empty());
        return;
    }
    let ghost base = strings_view(tags@);
    let ghost mut seen: Seq<Seq<char>> = Seq::empty();
    let mut k: usize = 0;
    while k < line.len()
        invariant
            k <= line.len(),
            words_from(line@, 0) == seen + words_from(line@, k as int),
            strings_view(tags@) == base + word_tags(seen),
        decreases line.len() - k,
    {
        let mut a = k;
        while a < line.len() && is_whitespace(line[a])
            invariant
                k <= a <= line.len(),
                skip_ws(line@, k as int) == skip_ws(line@, a as int),
            decreases line.len() - a,
        {
            a += 1;
        }
        if a == line.len() {
            assert(words_from(line@, k as int) =~= Seq::<Seq<char>>::empty());
            assert(seen + words_from(line@, k as int) =~= seen);
            k = a;
            assert(words_from(line@, k as int) =~= Seq::<Seq<char>>::empty());
            assert(seen + words_from(line@, k as int) =~= seen);
        } else {
            let mut b = a;
            while b < line.len() && !is_whitespace(line[b])
                invariant
                    a <= b <= line.len(),
                    word_end(line@, a as int) == word_end(line@, b as int),
                decreases line.len() - b,
            {
                b += 1;
            }
            assert(b > a);
            let w = sub_vec(line, a, b);
            let ghost word = line@.subrange(a as int, b as int);
            assert(words_from(line@, k as int) == seq![word] + words_from(line@, b as int));
            assert(seen + words_from(line@, k as int) =~= seen.push(word) + words_from(line@, b as int));
            assert(seen.push(word).drop_last() =~= seen);
            match tag_of_word(&w) {
                Some(t) => {
                    let ghost before = tags@;
                    tags.push(t);
                    assert(strings_view(tags@) =~= strings_view(before).push(t@));
                },
                None => {},
            }
            proof {
                seen = seen.push(word);
            }
            k = b;
        }
    }
    assert(words_from(line@, k as int) =~= Seq::<Seq<char>>::empty());
    assert(seen + words_from(line@, k as int) =~= seen);
}

/// Extract `#tags` from markdown content.
///
/// Recognizes inline tags like `#tag` and nested tags like `#nested/tag`.
/// Heading lines (`# Heading`) give no tags, and frontmatter delimiter
/// lines (`---`) are skipped.
pub fn extract_tags(content: &str) -> (tags: Vec<String>)
    ensures
        strings_view(tags@) == tags_spec(content@),
{
    let v = chars_of(content);
    let ranges = split_lines(&v);
    let mut tags: Vec<String> = Vec::new();
    let mut i: usize = 0;
    while i < ranges.len()
        invariant
            i <= ranges.len(),
            v@ == content@,
            ranges_view(ranges@) == line_ranges(v@),
            forall|k: int| 0 <= k < ranges.len() ==> (#[trigger] ranges@[k]).0 <= ranges@[k].1 <= v.len(),
            strings_view(tags@) == tags_in(v@, ranges_view(ranges@).take(i as int)),
        decreases ranges.len() - i,
    {
        let (lo, hi) = ranges[i];
        let line = sub_vec(&v, lo, hi);
        push_line_tags(&line, &mut tags);
        let ghost rv = ranges_view(ranges@);
        assert(rv.take(i + 1).drop_last() =~= rv.take(i as int));
        assert(rv.take(i + 1).last() == (lo as int, hi as int));
        i += 1;
    }
    assert(ranges_view(ranges@).take(ranges.len() as int) =~= ranges_view(ranges@));
    tags
}


// ── Headings ───────────────────────────────────────────────────────────

/// The number of `#` characters that `t[i..]` starts with.
pub open spec fn hash_run(t: Seq<char>, i: int) -> int
    decreases t.len() - i,
{
    if i < 0 || i >= t.len() || t[i] != '#' {
        0
    } else {
        1 + hash_run(t, i + 1)
    }
}

/// The heading a line states, given its zero-based index: a trimmed line
/// that starts with one to six `#` (their count taken modulo 256, as a byte
/// holds it) followed by non-empty text.
pub open spec fn heading_of(l: Seq<char>, index: int) -> Option<HeadingView> {
    let t = trim(l);
    if t.len() > 0 && t[0] == '#' {
        let level = hash_run(t, 0) % 256;
        if level > 0 && level <= 6 {
            let text = trim(t.skip(level));
            if text.len() > 0 {
                Some(HeadingView { level: level as u8, text, line: index + 1 })
            } else {
                None
            }
        } else {
            None
        }
    } else {
        None
    }
}

pub open spec fn headings_in(s: Seq<char>, ranges: Seq<(int, int)>) -> Seq<HeadingView>
    decreases ranges.len(),
{
    if ranges.len() == 0 {
        Seq::empty()
    } else {
        let prev = headings_in(s, ranges.drop_last());
        match heading_of(s.subrange(ranges.last().0, ranges.last().1), ranges.len() - 1) {
            Some(h) => prev.push(h),
            None => prev,
        }
    }
}

/// The headings of markdown content.
pub open spec fn headings_spec(s: Seq<char>) -> Seq<HeadingView> {
    headings_in(s, line_ranges(s))
}

pub open spec fn headings_view(v: Seq<Heading>) -> Seq<HeadingView> {
    v.map_values(|h: Heading| h@)
}

fn heading_of_line(line: &Vec<char>, index: usize) -> (r: Option<Heading>)
    requires
        index < usize::MAX,
    ensures
        match r {
            Some(h) => heading_of(line@, index as int) == Some(h@),
            None => heading_of(line@, index as int) is None,
        },
{
    let (a, e) = trim_bounds(line, 0, line.len());
    assert(line@.subrange(0, line.len() as int) =~= line@);
    let ghost t = line@.subrange(a as int, e as int);
    if !(a < e && line[a] == '#') {
        return None;
    }
    let mut c = a;
    while c < e && line[c] == '#'
        invariant
            a <= c <= e <= line.len(),
            t == line@.subrange(a as int, e as int),
            hash_run(t, 0) == (c - a) + hash_run(t, c - a),
        decreases e - c,
    {
        assert(t[c - a] == line@[c as int]);
        c += 1;
    }
    if c < e {
        assert(t[c - a] == line@[c as int]);
    }
    let count = c - a;
    let level: u8 = (count % 256) as u8;
    if !(level > 0 && level <= 6) {
        return None;
    }
    let (x, y) = trim_bounds(line, a + level as usize, e);
    assert(t.skip(level as int) =~= line@.subrange(a + level, e as int));
    if x == y {
        return None;
    }
    Some(Heading { level, text: string_from(line, x, y), line: index + 1 })
}

/// Extract headings from markdown content.
///
/// Returns headings of levels 1 to 6 with their one-based lines. Lines
/// inside code fences are not excluded.
pub fn extract_headings(content: &str) -> (headings: Vec<Heading>)
    ensures
        headings_view(headings@) == headings_spec(content@),
{
    let v = chars_of(content);
    let ranges = split_lines(&v);
    let mut headings: Vec<Heading> = Vec::new();
    let mut i: usize = 0;
    while i < ranges.len()
        invariant
            i <= ranges.len(),
            v@ == content@,
            ranges_view(ranges@) == line_ranges(v@),
            forall|k: int| 0 <= k < ranges.len() ==> (#[trigger] ranges@[k]).0 <= ranges@[k].1 <= v.len(),
            headings_view(headings@) == headings_in(v@, ranges_view(ranges@).take(i as int)),
        decreases ranges.len() - i,
    {
        let (lo, hi) = ranges[i];
        let line = sub_vec(&v, lo, hi);
        let ghost rv = ranges_view(ranges@);
        assert(rv.take(i + 1).drop_last() =~= rv.take(i as int));
        assert(rv.take(i + 1).last() == (lo as int, hi as int));
        match heading_of_line(&line, i) {
            Some(h) => {
                let ghost before = headings@;
                headings.push(h);
                assert(headings_view(headings@) =~= headings_view(before).push(h@));
            },
            None => {},
        }
        i += 1;
    }
    assert(ranges_view(ranges@).take(ranges.len() as int) =~= ranges_view(ranges@));
    headings
}

// ── Wiki links ─────────────────────────────────────────────────────────

/// The link that the text between `[[` and `]]` states.
pub open spec fn wiki_link_of(inner: Seq<char>) -> WikiLinkView {
    match first_char_from(inner, 0, '|') {
        Some(k) => WikiLinkView {
            target: trim(inner.take(k)),
            alias: Some(trim(inner.skip(k + 1))),
            full_text: "[["@ + inner + "]]"@,
        },
        None => WikiLinkView { target: trim(inner), alias: None, full_text: "[["@ + inner + "]]"@ },
    }
}

/// The wiki links of `s[p..]`: each `[[` is matched with the next `]]`.
pub open spec fn wiki_from(s: Seq<char>, p: int) -> Seq<WikiLinkView>
    decreases s.len() - p,
{
    match first_match_from(s, p, "[["@) {
        None => Seq::empty(),
        Some(a) => if a < p || a + 2 > s.len() {
            Seq::empty()
        } else {
            match first_match_from(s, a + 2, "]]"@) {
                None => wiki_from(s, a + 2),
                Some(b) => if b < a + 2 || b + 2 > s.len() {
                    Seq::empty()
                } else {
                    seq![wiki_link_of(s.subrange(a + 2, b))] + wiki_from(s, b + 2)
                },
            }
        },
    }
}

pub open spec fn wiki_view(v: Seq<WikiLink>) -> Seq<WikiLinkView> {
    v.map_values(|w: WikiLink| w@)
}

fn wiki_link(v: &Vec<char>, lo: usize, hi: usize) -> (w: WikiLink)
    requires
        lo <= hi <= v.len(),
    ensures
        w@ == wiki_link_of(v@.subrange(lo as int, hi as int)),
{
    let ghost inner = v@.subrange(lo as int, hi as int);
    proof {
        reveal_strlit("[[");
        reveal_strlit("]]");
    }
    let mut full = String::new();
    crate::text::push_str(&mut full, "[[");
    let inside = string_from(v, lo, hi);
    crate::text::push_str(&mut full, inside.as_str());
    crate::text::push_str(&mut full, "]]");
    let mut k = lo;
    while k < hi && v[k] != '|'
        invariant
            lo <= k <= hi <= v.len(),
            inner == v@.subrange(lo as int, hi as int),
            first_char_from(inner, 0, '|') == first_char_from(inner, k - lo, '|'),
        decreases hi - k,
    {
        assert(inner[k - lo] == v@[k as int]);
        k += 1;
    }
    if k < hi {
        assert(inner[k - lo] == v@[k as int]);
        let (t0, t1) = trim_bounds(v, lo, k);
        assert(inner.take(k - lo) =~= v@.subrange(lo as int, k as int));
        let (a0, a1) = trim_bounds(v, k + 1, hi);
        assert(inner.skip(k - lo + 1) =~= v@.subrange(k + 1, hi as int));
        WikiLink { target: string_from(v, t0, t1), alias: Some(string_from(v, a0, a1)), full_text: full }
    } else {
        let (t0, t1) = trim_bounds(v, lo, hi);
        WikiLink { target: string_from(v, t0, t1), alias: None, full_text: full }
    }
}

/// Extract `[[wiki links]]` from markdown content.
///
/// Handles both `[[target]]` and `[[target|alias]]`. Brackets do not nest:
/// each `[[` is matched with the next `]]`.
pub fn extract_wiki_links(content: &str) -> (links: Vec<WikiLink>)
    ensures
        wiki_view(links@) == wiki_from(content@, 0),
{
    let v = chars_of(content);
    let open = chars_of("[[");
    let close = chars_of("]]");
    proof {
        reveal_strlit("[[");
        reveal_strlit("]]");
    }
    let mut links: Vec<WikiLink> = Vec::new();
    let mut p: usize = 0;
    loop
        invariant
            p <= v.len(),
            v@ == content@,
            open@ == "[["@,
            close@ == "]]"@,
            open@.len() == 2,
            close@.len() == 2,
            wiki_from(v@, 0) == wiki_view(links@) + wiki_from(v@, p as int),
        decreases v.len() - p,
    {
        match find_from(&v, p, &open) {
            None => {
                assert(wiki_view(links@) + wiki_from(v@, p as int) =~= wiki_view(links@));
                return links;
            },
            Some(a) => {
                match find_from(&v, a + 2, &close) {
                    None => {
                        p = a + 2;
                    },
                    Some(b) => {
                        let ghost before = links@;
                        links.push(wiki_link(&v, a + 2, b));
                        assert(wiki_view(links@) + wiki_from(v@, b + 2) =~= wiki_view(before)
                            + wiki_from(v@, p as int));
                        p = b + 2;
                    },
                }
            },
        }
    }
}

// ── Markdown links ─────────────────────────────────────────────────────

/// The standard links of `s[p..]`, skipping `[[` openings of wiki links.
pub open spec fn md_from(s: Seq<char>, p: int) -> Seq<MarkdownLinkView>
    decreases s.len() - p,
{
    match first_char_from(s, p, '[') {
        None => Seq::empty(),
        Some(bs) => if bs < p || bs >= s.len() {
            Seq::empty()
        } else if bs + 1 < s.len() && s[bs + 1] == '[' {
            md_from(s, bs + 2)
        } else {
            match first_char_from(s, bs, ']') {
                None => Seq::empty(),
                Some(be) => if be <= bs || be >= s.len() {
                    Seq::empty()
                } else if be + 1 < s.len() && s[be + 1] == '(' {
                    match first_char_from(s, be + 1, ')') {
                        Some(pe) => if pe < be + 2 || pe >= s.len() {
                            Seq::empty()
                        } else {
                            seq![MarkdownLinkView { text: s.subrange(bs + 1, be), url: s.subrange(be + 2, pe) }]
                                + md_from(s, pe + 1)
                        },
                        None => md_from(s, bs + 1),
                    }
                } else {
                    md_from(s, bs + 1)
                },
            }
        },
    }
}

pub open spec fn md_view(v: Seq<MarkdownLink>) -> Seq<MarkdownLinkView> {
    v.map_values(|l: MarkdownLink| l@)
}

/// Extract `[markdown links](url)` from content.
///
/// Skips wiki links (`[[...]]`); only standard `[text](url)` links are
/// returned.
pub fn extract_markdown_links(content: &str) -> (links: Vec<MarkdownLink>)
    ensures
        md_view(links@) == md_from(content@, 0),
{
    let v = chars_of(content);
    let mut links: Vec<MarkdownLink> = Vec::new();
    let mut p: usize = 0;
    loop
        invariant
            p <= v.len(),
            v@ == content@,
            md_from(v@, 0) == md_view(links@) + md_from(v@, p as int),
        decreases v.len() - p,
    {
        let bs = match find_char_from(&v, p, '[') {
            None => {
                assert(md_view(links@) + md_from(v@, p as int) =~= md_view(links@));
                return links;
            },
            Some(bs) => bs,
        };
        if bs + 1 < v.len() && v[bs + 1] == '[' {
            p = bs + 2;
        } else {
            let be = match find_char_from(&v, bs, ']') {
                None => {
                    assert(md_view(links@) + md_from(v@, p as int) =~= md_view(links@));
                    return links;
                },
                Some(be) => be,
            };
            let mut advanced = false;
            if be + 1 < v.len() && v[be + 1] == '(' {
                match find_char_from(&v, be + 1, ')') {
                    Some(pe) => {
                        let ghost before = links@;
                        links.push(MarkdownLink { text: string_from(&v, bs + 1, be), url: string_from(&v, be + 2, pe) });
                        assert(md_view(links@) + md_from(v@, pe + 1) =~= md_view(before)
                            + md_from(v@, p as int));
                        p = pe + 1;
                        advanced = true;
                    },
                    None => {},
                }
            }
            if !advanced {
                p = bs + 1;
            }
        }
    }
}

/// A tag keeps every character that a tag may hold, whatever its script:
/// for a word `#t` whose characters after the `#` are all alphanumeric (in
/// the Unicode sense), `_`, `-` or `/`, and which does not end with `/`, the
/// tag is `t` itself.
pub proof fn lemma_word_tag_keeps_tag_chars(w: Seq<char>)
    requires
        w.len() > 1,
        w[0] == '#',
        forall|k: int| 1 <= k < w.len() ==> unicode_alphanumeric(#[trigger] w[k]) || w[k] == '_' || w[k] == '-' || w[k] == '/',
        w.last() != '/',
    ensures
        word_tag(w) == Some(w.skip(1)),
{
    let t = w.skip(1);
    assert(t.last() == w[w.len() - 1]);
    assert(tag_keep(t.last()));
    assert(trim_end_punct(t) == t);
    assert(!seq!['/'].contains(t.last()));
    assert(trim_end_in(t, seq!['/']) == t);
}

} // verus!
