//! What the language indexers share: reading the captures of a query match,
//! line numbers, and quoted string literals.
//!
//! An indexer reads a match the way a loop over its captures does: a later
//! capture with the same number replaces an earlier one, and a capture that
//! does not occur leaves its text empty and its line zero.
use vstd::prelude::*;
use crate::syntax_tree::{query_matches, syntax_query, Capture, Grammar, NodeInfo, SyntaxTree};
use crate::text::{chars_of, string_from, trim_end_in, trim_end_set, trim_start_in, trim_start_set, owned};

verus! {

/// The one-based line of a zero-based row (the largest row stays).
pub open spec fn row_line(r: usize) -> usize {
    if r < usize::MAX { (r + 1) as usize } else { r }
}

pub fn line_of_row(r: usize) -> (l: usize)
    ensures
        l == row_line(r),
{
    if r < usize::MAX { r + 1 } else { r }
}

/// The node of the last capture numbered `index` in a match.
pub open spec fn captured(m: Seq<Capture>, index: u32) -> Option<NodeInfo>
    decreases m.len(),
{
    if m.len() == 0 {
        None
    } else if m.last().index == index {
        Some(m.last().node)
    } else {
        captured(m.drop_last(), index)
    }
}

/// The children of the node of the last capture numbered `index`.
pub open spec fn captured_children(m: Seq<Capture>, index: u32) -> Option<Seq<NodeInfo>>
    decreases m.len(),
{
    if m.len() == 0 {
        None
    } else if m.last().index == index {
        Some(m.last().children@)
    } else {
        captured_children(m.drop_last(), index)
    }
}

/// The text of the capture numbered `index`, or the empty text.
pub open spec fn captured_text(m: Seq<Capture>, index: u32) -> Seq<char> {
    match captured(m, index) {
        Some(n) => n.text@,
        None => Seq::empty(),
    }
}

/// The one-based first line of the capture numbered `index`, or zero.
pub open spec fn captured_line(m: Seq<Capture>, index: u32) -> usize {
    match captured(m, index) {
        Some(n) => row_line(n.row),
        None => 0,
    }
}

/// The one-based last line of the capture numbered `index`, or zero.
pub open spec fn captured_end_line(m: Seq<Capture>, index: u32) -> usize {
    match captured(m, index) {
        Some(n) => row_line(n.end_row),
        None => 0,
    }
}

/// The column of the capture numbered `index`, or zero.
pub open spec fn captured_column(m: Seq<Capture>, index: u32) -> usize {
    match captured(m, index) {
        Some(n) => n.column,
        None => 0,
    }
}

/// The zero-based row of the capture numbered `index`, if it occurs.
pub open spec fn captured_row(m: Seq<Capture>, index: u32) -> Option<usize> {
    match captured(m, index) {
        Some(n) => Some(n.row),
        None => None,
    }
}

/// The position of the last capture numbered `index`.
pub fn capture_in(m: &Vec<Capture>, index: u32) -> (r: Option<usize>)
    ensures
        match r {
            Some(k) => k < m.len() && captured(m@, index) == Some(m@[k as int].node)
                && captured_children(m@, index) == Some(m@[k as int].children@),
            None => captured(m@, index) is None && captured_children(m@, index) is None,
        },
{
    let mut k = m.len();
    assert(m@.take(k as int) =~= m@);
    while k > 0
        invariant
            k <= m.len(),
            captured(m@, index) == captured(m@.take(k as int), index),
            captured_children(m@, index) == captured_children(m@.take(k as int), index),
        decreases k,
    {
        assert(m@.take(k as int).drop_last() =~= m@.take(k - 1));
        if m[k - 1].index == index {
            return Some(k - 1);
        }
        k -= 1;
    }
    None
}

pub fn capture_text(m: &Vec<Capture>, index: u32) -> (t: String)
    ensures
        t@ == captured_text(m@, index),
{
    match capture_in(m, index) {
        Some(k) => owned(m[k].node.text.as_str()),
        None => String::new(),
    }
}

pub fn capture_line(m: &Vec<Capture>, index: u32) -> (l: usize)
    ensures
        l == captured_line(m@, index),
{
    match capture_in(m, index) {
        Some(k) => line_of_row(m[k].node.row),
        None => 0,
    }
}

pub fn capture_end_line(m: &Vec<Capture>, index: u32) -> (l: usize)
    ensures
        l == captured_end_line(m@, index),
{
    match capture_in(m, index) {
        Some(k) => line_of_row(m[k].node.end_row),
        None => 0,
    }
}

pub fn capture_column(m: &Vec<Capture>, index: u32) -> (c: usize)
    ensures
        c == captured_column(m@, index),
{
    match capture_in(m, index) {
        Some(k) => m[k].node.column,
        None => 0,
    }
}

pub fn capture_row(m: &Vec<Capture>, index: u32) -> (r: Option<usize>)
    ensures
        r == captured_row(m@, index),
{
    match capture_in(m, index) {
        Some(k) => Some(m[k].node.row),
        None => None,
    }
}

/// A string literal's text without its quotes: the leading and trailing
/// double quotes go, then the leading and trailing single quotes.
pub open spec fn unquote(t: Seq<char>) -> Seq<char> {
    let dq = seq!['"'];
    let sq = seq!['\''];
    trim_end_in(trim_start_in(trim_end_in(trim_start_in(t, dq), dq), sq), sq)
}

pub fn unquoted(t: &str) -> (r: String)
    ensures
        r@ == unquote(t@),
{
    let v = chars_of(t);
    let dq = vec!['"'];
    let sq = vec!['\''];
    assert(dq@ == seq!['"']);
    assert(sq@ == seq!['\'']);
    assert(v@.subrange(0, v.len() as int) =~= v@);
    let a = trim_start_set(&v, 0, v.len(), &dq);
    let b = trim_end_set(&v, a, v.len(), &dq);
    let c = trim_start_set(&v, a, b, &sq);
    let d = trim_end_set(&v, c, b, &sq);
    string_from(&v, c, d)
}

/// The matches of a query over the tree that the grammar parses from the
/// text; none where the pattern does not compile.
pub open spec fn queried(grammar: Grammar, text: Seq<char>, pattern: Seq<char>) -> Seq<Seq<Capture>> {
    match syntax_query(grammar, text, pattern) {
        Some(ms) => ms,
        None => Seq::empty(),
    }
}

/// The matches of a query over the tree; none where the pattern does not
/// compile.
pub fn run_query(tree: &SyntaxTree, pattern: &str) -> (ms: Vec<Vec<Capture>>)
    ensures
        match_views(ms@) == queried(tree.grammar(), tree.text(), pattern@),
{
    match query_matches(tree, pattern) {
        Some(ms) => {
            assert(match_views(ms@) =~= ms@.map_values(|m: Vec<Capture>| m@));
            ms
        },
        None => {
            let ms: Vec<Vec<Capture>> = Vec::new();
            assert(match_views(ms@) =~= Seq::<Seq<Capture>>::empty());
            ms
        },
    }
}

/// The values of the present entries, in order.
pub open spec fn somes<A>(s: Seq<Option<A>>) -> Seq<A>
    decreases s.len(),
{
    if s.len() == 0 {
        Seq::empty()
    } else {
        let prev = somes(s.drop_last());
        match s.last() {
            Some(v) => prev.push(v),
            None => prev,
        }
    }
}

/// Taking one more entry adds its value, if it has one.
pub proof fn lemma_somes_step<A>(s: Seq<Option<A>>, i: int)
    requires
        0 <= i < s.len(),
    ensures
        somes(s.take(i + 1)) == match s[i] {
            Some(v) => somes(s.take(i)).push(v),
            None => somes(s.take(i)),
        },
{
    assert(s.take(i + 1).drop_last() =~= s.take(i));
}

/// The matches of a query as sequences of captures.
pub open spec fn match_views(ms: Seq<Vec<Capture>>) -> Seq<Seq<Capture>> {
    ms.map_values(|m: Vec<Capture>| m@)
}

} // verus!
