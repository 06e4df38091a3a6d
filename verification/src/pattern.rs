//! Regular expressions compiled by the `regex` crate, kept with the pattern
//! they were compiled from so that what they find can be stated of the
//! pattern.
use vstd::prelude::*;
use vstd::utf8::encode_utf8;
use crate::text::owned;

verus! {

/// A pattern that could not be compiled, with the reason.
#[derive(Debug, Clone)]
pub struct PatternError {
    pub message: String,
}

// ── Regular expressions ────────────────────────────────────────────────

#[verifier::external_type_specification]
#[verifier::external_body]
pub struct ExRegex(regex::Regex);

/// Whether `regex` accepts the pattern.
pub uninterp spec fn regex_valid(pattern: Seq<char>) -> bool;

/// The reason `regex` gives for refusing the pattern.
pub uninterp spec fn regex_error_text(pattern: Seq<char>) -> Seq<char>;

/// The successive non-overlapping matches of the pattern in the text, left
/// to right: each as its starting byte offset and its text.
pub uninterp spec fn regex_matches(pattern: Seq<char>, text: Seq<char>) -> Seq<(usize, Seq<char>)>;

/// The text with every non-overlapping match of the pattern replaced by the
/// replacement, in which `$name` and `${name}` stand for capture groups.
pub uninterp spec fn regex_replaced(pattern: Seq<char>, text: Seq<char>, replacement: Seq<char>) -> Seq<char>;

/// Compiles a pattern with `regex::Regex::new`: it succeeds exactly on the
/// patterns that `regex` accepts, and a refusal carries the text of the
/// crate's error.
#[verifier::external_body]
fn regex_new(pattern: &str) -> (r: Result<regex::Regex, String>)
    ensures
        r is Ok <==> regex_valid(pattern@),
        r matches Err(e) ==> e@ == regex_error_text(pattern@),
{
    match regex::Regex::new(pattern) {
        Ok(re) => Ok(re),
        Err(e) => Err(e.to_string()),
    }
}

/// A compiled regular expression together with the pattern it was compiled
/// from.
pub struct CompiledPattern {
    pattern: String,
    re: regex::Regex,
}

impl CompiledPattern {
    /// The pattern the expression was compiled from.
    pub closed spec fn source(&self) -> Seq<char> {
        self.pattern@
    }

    /// Compiles the pattern.
    pub fn new(pattern: &str) -> (r: Result<CompiledPattern, PatternError>)
        ensures
            r is Ok <==> regex_valid(pattern@),
            r matches Ok(p) ==> p.source() == pattern@,
            r matches Err(e) ==> e.message@ == regex_error_text(pattern@),
    {
        match regex_new(pattern) {
            Ok(re) => Ok(CompiledPattern { pattern: owned(pattern), re }),
            Err(message) => Err(PatternError { message }),
        }
    }

    /// The matches in `text`, by `Regex::find_iter`: the start of each as
    /// `Match::start` gives it (a byte offset in `text`) and its text as
    /// `Match::as_str` gives it, which is the piece of `text` from there, so
    /// that it ends within `text`.
    #[verifier::external_body]
    pub fn find_all(&self, text: &str) -> (r: Vec<(usize, String)>)
        ensures
            r@.map_values(|m: (usize, String)| (m.0, m.1@)) == regex_matches(self.source(), text@),
            forall|k: int| 0 <= k < r.len() ==> (#[trigger] r@[k]).0 + encode_utf8(r@[k].1@).len()
                <= encode_utf8(text@).len(),
    {
        self.re.find_iter(text).map(|m| (m.start(), m.as_str().to_string())).collect()
    }

    /// `text` with every match replaced, by `Regex::replace_all`.
    #[verifier::external_body]
    pub fn replace_all(&self, text: &str, replacement: &str) -> (r: String)
        ensures
            r@ == regex_replaced(self.source(), text@, replacement@),
    {
        self.re.replace_all(text, replacement).into_owned()
    }
}


/// The groups of the first match of the pattern in the text: group 0 is
/// the whole match, then each group in order, `None` where it took no
/// part; `None` where the pattern does not match.
pub uninterp spec fn regex_captures(pattern: Seq<char>, text: Seq<char>) -> Option<Seq<Option<Seq<char>>>>;

/// The groups of each successive non-overlapping match of the pattern.
pub uninterp spec fn regex_captures_all(pattern: Seq<char>, text: Seq<char>) -> Seq<Seq<Option<Seq<char>>>>;

pub open spec fn group_view(g: Option<String>) -> Option<Seq<char>> {
    match g {
        Some(s) => Some(s@),
        None => None,
    }
}

pub open spec fn groups_view(v: Seq<Option<String>>) -> Seq<Option<Seq<char>>> {
    v.map_values(|g: Option<String>| group_view(g))
}

/// Group `i` of a match, `None` past the last group (as `Captures::get`).
pub open spec fn group(c: Seq<Option<Seq<char>>>, i: int) -> Option<Seq<char>> {
    if 0 <= i < c.len() {
        c[i]
    } else {
        None
    }
}

impl CompiledPattern {
    /// The groups of the first match in `text`, by `Regex::captures` and
    /// `Captures::iter`.
    #[verifier::external_body]
    pub fn captures(&self, text: &str) -> (r: Option<Vec<Option<String>>>)
        ensures
            match r {
                Some(v) => regex_captures(self.source(), text@) == Some(groups_view(v@)),
                None => regex_captures(self.source(), text@) is None,
            },
    {
        self.re.captures(text).map(|c| c.iter().map(|m| m.map(|m| m.as_str().to_string())).collect())
    }

    /// The groups of every match in `text`, by `Regex::captures_iter`.
    #[verifier::external_body]
    pub fn captures_all(&self, text: &str) -> (r: Vec<Vec<Option<String>>>)
        ensures
            r@.map_values(|v: Vec<Option<String>>| groups_view(v@)) == regex_captures_all(self.source(), text@),
    {
        self.re.captures_iter(text).map(|c| c.iter().map(|m| m.map(|m| m.as_str().to_string())).collect()).collect()
    }
}

/// Group `i` of a match, copied.
pub fn group_at(c: &Vec<Option<String>>, i: usize) -> (r: Option<String>)
    ensures
        group_view(r) == group(groups_view(c@), i as int),
{
    if i < c.len() {
        match &c[i] {
            Some(s) => Some(owned(s.as_str())),
            None => None,
        }
    } else {
        None
    }
}


/// Group 1 of the first match of the pattern.
pub open spec fn first_group(pattern: Seq<char>, text: Seq<char>) -> Option<Seq<char>> {
    match regex_captures(pattern, text) {
        Some(c) => group(c, 1),
        None => None,
    }
}

/// Group 1 of each match, where it took part.
pub open spec fn present_groups(caps: Seq<Seq<Option<Seq<char>>>>) -> Seq<Seq<char>>
    decreases caps.len(),
{
    if caps.len() == 0 {
        Seq::empty()
    } else {
        present_groups(caps.drop_last()) + match group(caps.last(), 1) {
            Some(g) => seq![g],
            None => Seq::empty(),
        }
    }
}

/// Group 1 of every match of the pattern, where it took part.
pub open spec fn all_first_groups(pattern: Seq<char>, text: Seq<char>) -> Seq<Seq<char>> {
    present_groups(regex_captures_all(pattern, text))
}

pub open spec fn strings_of(v: Seq<String>) -> Seq<Seq<char>> {
    v.map_values(|s: String| s@)
}

impl CompiledPattern {
    /// Group 1 of the first match.
    pub fn first_group(&self, text: &str) -> (r: Option<String>)
        ensures
            group_view(r) == first_group(self.source(), text@),
    {
        match self.captures(text) {
            Some(c) => group_at(&c, 1),
            None => None,
        }
    }

    /// Group 1 of every match, where it took part.
    pub fn first_groups(&self, text: &str) -> (r: Vec<String>)
        ensures
            strings_of(r@) == all_first_groups(self.source(), text@),
    {
        let caps = self.captures_all(text);
        let ghost cv = caps@.map_values(|v: Vec<Option<String>>| groups_view(v@));
        let mut r: Vec<String> = Vec::new();
        let mut i: usize = 0;
        assert(cv.take(0) =~= Seq::<Seq<Option<Seq<char>>>>::empty());
        while i < caps.len()
            invariant
                i <= caps.len(),
                cv == caps@.map_values(|v: Vec<Option<String>>| groups_view(v@)),
                strings_of(r@) == present_groups(cv.take(i as int)),
            decreases caps.len() - i,
        {
            assert(cv.take(i + 1).drop_last() =~= cv.take(i as int));
            assert(cv.take(i + 1).last() == groups_view(caps@[i as int]@));
            let ghost before = strings_of(r@);
            match group_at(&caps[i], 1) {
                Some(g) => {
                    r.push(g);
                    assert(strings_of(r@) =~= before + seq![r@[r.len() - 1]@]);
                },
                None => {
                    assert(before + Seq::<Seq<char>>::empty() =~= before);
                },
            }
            i += 1;
        }
        assert(cv.take(caps.len() as int) =~= cv);
        r
    }
}

} // verus!
