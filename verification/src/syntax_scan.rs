//! Scanning of declaration headers: masking of comments and literals, and
//! the search for keywords and delimiters outside nested brackets.
//!
//! Every position is a character index into the scanned text.  The masked
//! text has the same length as the original, so a position found in the
//! masked text can be used to slice the original.
use vstd::prelude::*;
use crate::text::{is_ascii_ws, is_ascii_whitespace, is_ascii_alnum, is_ascii_alphanumeric, matches_at, matches_here};

verus! {

/// The lexer state of the masking scan.
#[derive(Clone, Copy, PartialEq, Eq, Structural)]
pub enum MaskState {
    Code,
    LineComment,
    BlockComment,
    Str { quote: char, escaped: bool },
    Chr { escaped: bool },
}

/// A character of a comment or literal becomes a space; a newline stays.
pub open spec fn blank(c: char) -> char {
    if c == '\n' { '\n' } else { ' ' }
}

/// The masked form of `s[i..]` when the scan enters position `i` in state `st`.
pub open spec fn mask_from(s: Seq<char>, i: int, st: MaskState) -> Seq<char>
    decreases s.len() - i, 0int,
{
    if i < 0 || i >= s.len() {
        Seq::empty()
    } else {
        match st {
            MaskState::Code => {
                if s[i] == '/' && i + 1 < s.len() && s[i + 1] == '/' {
                    seq![' ', ' '] + mask_from(s, i + 2, MaskState::LineComment)
                } else if s[i] == '/' && i + 1 < s.len() && s[i + 1] == '*' {
                    seq![' ', ' '] + mask_from(s, i + 2, MaskState::BlockComment)
                } else if s[i] == '"' {
                    seq![' '] + mask_from(s, i + 1, MaskState::Str { quote: '"', escaped: false })
                } else if s[i] == '\'' {
                    seq![' '] + mask_from(s, i + 1, MaskState::Chr { escaped: false })
                } else {
                    seq![s[i]] + mask_from(s, i + 1, MaskState::Code)
                }
            },
            MaskState::LineComment => {
                if s[i] == '\n' {
                    seq!['\n'] + mask_from(s, i + 1, MaskState::Code)
                } else {
                    seq![' '] + mask_from(s, i + 1, MaskState::LineComment)
                }
            },
            MaskState::BlockComment => {
                if s[i] == '*' && i + 1 < s.len() && s[i + 1] == '/' {
                    seq![' ', ' '] + mask_from(s, i + 2, MaskState::Code)
                } else {
                    seq![blank(s[i])] + mask_from(s, i + 1, MaskState::BlockComment)
                }
            },
            MaskState::Str { quote, escaped } => {
                let next = if !escaped && s[i] == quote {
                    MaskState::Code
                } else {
                    MaskState::Str { quote, escaped: !escaped && s[i] == '\\' }
                };
                seq![blank(s[i])] + mask_from(s, i + 1, next)
            },
            MaskState::Chr { escaped } => {
                let next = if !escaped && s[i] == '\'' {
                    MaskState::Code
                } else {
                    MaskState::Chr { escaped: !escaped && s[i] == '\\' }
                };
                seq![blank(s[i])] + mask_from(s, i + 1, next)
            },
        }
    }
}

/// `s` with comments and string or character literals replaced by spaces.
pub open spec fn masked(s: Seq<char>) -> Seq<char> {
    mask_from(s, 0, MaskState::Code)
}

/// Masking keeps every position: the length is unchanged, every newline stays,
/// and every other character is kept or becomes a space.
pub proof fn lemma_mask_from_shape(s: Seq<char>, i: int, st: MaskState)
    requires
        0 <= i <= s.len(),
    ensures
        mask_from(s, i, st).len() == s.len() - i,
        forall|k: int|
            0 <= k < s.len() - i ==> {
                let m = #[trigger] mask_from(s, i, st)[k];
                &&& (s[i + k] == '\n' ==> m == '\n')
                &&& (m == s[i + k] || m == ' ')
            },
    decreases s.len() - i,
{
    if i < s.len() {
        match st {
            MaskState::Code => {
                if s[i] == '/' && i + 1 < s.len() && s[i + 1] == '/' {
                    lemma_mask_from_shape(s, i + 2, MaskState::LineComment);
                } else if s[i] == '/' && i + 1 < s.len() && s[i + 1] == '*' {
                    lemma_mask_from_shape(s, i + 2, MaskState::BlockComment);
                } else if s[i] == '"' {
                    lemma_mask_from_shape(s, i + 1, MaskState::Str { quote: '"', escaped: false });
                } else if s[i] == '\'' {
                    lemma_mask_from_shape(s, i + 1, MaskState::Chr { escaped: false });
                } else {
                    lemma_mask_from_shape(s, i + 1, MaskState::Code);
                }
            },
            MaskState::LineComment => {
                if s[i] == '\n' {
                    lemma_mask_from_shape(s, i + 1, MaskState::Code);
                } else {
                    lemma_mask_from_shape(s, i + 1, MaskState::LineComment);
                }
            },
            MaskState::BlockComment => {
                if s[i] == '*' && i + 1 < s.len() && s[i + 1] == '/' {
                    lemma_mask_from_shape(s, i + 2, MaskState::Code);
                } else {
                    lemma_mask_from_shape(s, i + 1, MaskState::BlockComment);
                }
            },
            MaskState::Str { quote, escaped } => {
                let next = if !escaped && s[i] == quote {
                    MaskState::Code
                } else {
                    MaskState::Str { quote, escaped: !escaped && s[i] == '\\' }
                };
                lemma_mask_from_shape(s, i + 1, next);
            },
            MaskState::Chr { escaped } => {
                let next = if !escaped && s[i] == '\'' {
                    MaskState::Code
                } else {
                    MaskState::Chr { escaped: !escaped && s[i] == '\\' }
                };
                lemma_mask_from_shape(s, i + 1, next);
            },
        }
    }
}

/// Masking preserves every offset of the text: the masked text has the
/// original length, keeps every newline, and changes other characters only
/// into spaces.
pub proof fn lemma_masked_preserves_offsets(s: Seq<char>)
    ensures
        masked(s).len() == s.len(),
        forall|k: int|
            0 <= k < s.len() ==> (s[k] == '\n' ==> #[trigger] masked(s)[k] == '\n') && (
            masked(s)[k] == s[k] || masked(s)[k] == ' '),
{
    lemma_mask_from_shape(s, 0, MaskState::Code);
}

/// Replace comments and literals with spaces while preserving every offset.
/// The text is a sequence of characters and every position in this module
/// counts characters, so a masked character becomes one space, whatever its
/// encoded width: position `k` of the mask is position `k` of the text.
pub fn mask_non_code(v: &Vec<char>) -> (m: Vec<char>)
    ensures
        m@ == masked(v@),
        m.len() == v.len(),
{
    let mut out: Vec<char> = Vec::new();
    let mut st = MaskState::Code;
    let mut i: usize = 0;
    let n = v.len();
    while i < n
        invariant
            n == v.len(),
            i <= n,
            out@ + mask_from(v@, i as int, st) == masked(v@),
        decreases n - i,
    {
        let c = v[i];
        let ghost rest = mask_from(v@, i as int, st);
        match st {
            MaskState::Code => {
                if c == '/' && i + 1 < n && v[i + 1] == '/' {
                    out.push(' ');
                    out.push(' ');
                    assert(rest == seq![' ', ' '] + mask_from(v@, i + 2, MaskState::LineComment));
                    assert(out@ + mask_from(v@, i + 2, MaskState::LineComment) =~= masked(v@));
                    i += 2;
                    st = MaskState::LineComment;
                } else if c == '/' && i + 1 < n && v[i + 1] == '*' {
                    out.push(' ');
                    out.push(' ');
                    assert(out@ + mask_from(v@, i + 2, MaskState::BlockComment) =~= masked(v@));
                    i += 2;
                    st = MaskState::BlockComment;
                } else if c == '"' {
                    out.push(' ');
                    assert(out@ + mask_from(v@, i + 1, MaskState::Str { quote: '"', escaped: false }) =~= masked(v@));
                    i += 1;
                    st = MaskState::Str { quote: '"', escaped: false };
                } else if c == '\'' {
                    out.push(' ');
                    assert(out@ + mask_from(v@, i + 1, MaskState::Chr { escaped: false }) =~= masked(v@));
                    i += 1;
                    st = MaskState::Chr { escaped: false };
                } else {
                    out.push(c);
                    assert(out@ + mask_from(v@, i + 1, MaskState::Code) =~= masked(v@));
                    i += 1;
                }
            },
            MaskState::LineComment => {
                if c == '\n' {
                    out.push('\n');
                    assert(out@ + mask_from(v@, i + 1, MaskState::Code) =~= masked(v@));
                    st = MaskState::Code;
                } else {
                    out.push(' ');
                    assert(out@ + mask_from(v@, i + 1, MaskState::LineComment) =~= masked(v@));
                }
                i += 1;
            },
            MaskState::BlockComment => {
                if c == '*' && i + 1 < n && v[i + 1] == '/' {
                    out.push(' ');
                    out.push(' ');
                    assert(out@ + mask_from(v@, i + 2, MaskState::Code) =~= masked(v@));
                    i += 2;
                    st = MaskState::Code;
                } else {
                    out.push(if c == '\n' { '\n' } else { ' ' });
                    assert(out@ + mask_from(v@, i + 1, MaskState::BlockComment) =~= masked(v@));
                    i += 1;
                }
            },
            MaskState::Str { quote, escaped } => {
                out.push(if c == '\n' { '\n' } else { ' ' });
                let next = if !escaped && c == quote {
                    MaskState::Code
                } else {
                    MaskState::Str { quote, escaped: !escaped && c == '\\' }
                };
                assert(out@ + mask_from(v@, i + 1, next) =~= masked(v@));
                st = next;
                i += 1;
            },
            MaskState::Chr { escaped } => {
                out.push(if c == '\n' { '\n' } else { ' ' });
                let next = if !escaped && c == '\'' {
                    MaskState::Code
                } else {
                    MaskState::Chr { escaped: !escaped && c == '\\' }
                };
                assert(out@ + mask_from(v@, i + 1, next) =~= masked(v@));
                st = next;
                i += 1;
            },
        }
    }
    assert(out@ =~= masked(v@));
    proof {
        lemma_masked_preserves_offsets(v@);
    }
    out
}


/// Nesting depths of `<>`, `()` and `[]` reached by a left-to-right scan.
pub struct Depths {
    pub angle: nat,
    pub paren: nat,
    pub bracket: nat,
}

impl Depths {
    pub open spec fn zero() -> Depths {
        Depths { angle: 0, paren: 0, bracket: 0 }
    }

    pub open spec fn is_top(self) -> bool {
        self.angle == 0 && self.paren == 0 && self.bracket == 0
    }

    /// The depths after one more character; a closing delimiter below depth
    /// zero is ignored.
    pub open spec fn consume(self, c: char) -> Depths {
        if c == '<' {
            Depths { angle: self.angle + 1, ..self }
        } else if c == '>' && self.angle > 0 {
            Depths { angle: (self.angle - 1) as nat, ..self }
        } else if c == '(' {
            Depths { paren: self.paren + 1, ..self }
        } else if c == ')' && self.paren > 0 {
            Depths { paren: (self.paren - 1) as nat, ..self }
        } else if c == '[' {
            Depths { bracket: self.bracket + 1, ..self }
        } else if c == ']' && self.bracket > 0 {
            Depths { bracket: (self.bracket - 1) as nat, ..self }
        } else {
            self
        }
    }

    pub open spec fn total(self) -> nat {
        self.angle + self.paren + self.bracket
    }
}

/// Executable nesting depths of `<>`, `()` and `[]`.
pub struct DelimiterDepths {
    pub angle: usize,
    pub paren: usize,
    pub bracket: usize,
}

impl View for DelimiterDepths {
    type V = Depths;

    open spec fn view(&self) -> Depths {
        Depths { angle: self.angle as nat, paren: self.paren as nat, bracket: self.bracket as nat }
    }
}

impl DelimiterDepths {
    pub fn new() -> (d: DelimiterDepths)
        ensures
            d@ == Depths::zero(),
    {
        DelimiterDepths { angle: 0, paren: 0, bracket: 0 }
    }

    /// All three depths are zero.
    pub fn is_top_level(&self) -> (b: bool)
        ensures
            b == self@.is_top(),
    {
        self.angle == 0 && self.paren == 0 && self.bracket == 0
    }

    /// Account for one more character.
    pub fn consume(&mut self, c: char)
        requires
            old(self)@.total() < usize::MAX,
        ensures
            final(self)@ == old(self)@.consume(c),
            final(self)@.total() <= old(self)@.total() + 1,
    {
        if c == '<' {
            self.angle = self.angle + 1;
        } else if c == '>' && self.angle > 0 {
            self.angle = self.angle - 1;
        } else if c == '(' {
            self.paren = self.paren + 1;
        } else if c == ')' && self.paren > 0 {
            self.paren = self.paren - 1;
        } else if c == '[' {
            self.bracket = self.bracket + 1;
        } else if c == ']' && self.bracket > 0 {
            self.bracket = self.bracket - 1;
        }
    }
}

/// A character that can continue an identifier (any non-ASCII character counts).
pub open spec fn is_ident_char(c: char) -> bool {
    is_ascii_alnum(c) || c == '_' || c == '$' || (c as u32) >= 0x80
}

pub fn is_identifier_byte(c: char) -> (b: bool)
    ensures
        b == is_ident_char(c),
{
    is_ascii_alphanumeric(c) || c == '_' || c == '$' || (c as u32) >= 0x80
}

/// The occurrence of length `len` at `start` is not glued to identifier characters.
pub open spec fn is_boundary(s: Seq<char>, start: int, len: int) -> bool {
    &&& !(start >= 1 && start - 1 < s.len() && is_ident_char(s[start - 1]))
    &&& !(0 <= start + len < s.len() && is_ident_char(s[start + len]))
}

pub fn is_keyword_boundary(v: &Vec<char>, start: usize, len: usize) -> (b: bool)
    requires
        start + len <= usize::MAX,
    ensures
        b == is_boundary(v@, start as int, len as int),
{
    let before = start >= 1 && start - 1 < v.len() && is_identifier_byte(v[start - 1]);
    let after = start + len < v.len() && is_identifier_byte(v[start + len]);
    !before && !after
}

/// `kw` occurs at `i` as a whole word.
pub open spec fn keyword_at(s: Seq<char>, i: int, kw: Seq<char>) -> bool {
    matches_at(s, i, kw) && is_boundary(s, i, kw.len() as int)
}

/// The first position `>= i` of `target` at depth zero, scanning from depths `d`.
pub open spec fn top_char_scan(s: Seq<char>, target: char, i: int, d: Depths) -> Option<int>
    decreases s.len() - i,
{
    if i < 0 || i >= s.len() {
        None
    } else if s[i] == target && d.is_top() {
        Some(i)
    } else {
        top_char_scan(s, target, i + 1, d.consume(s[i]))
    }
}

/// The first position `>= i` of the whole word `kw` at depth zero.
pub open spec fn top_keyword_scan(s: Seq<char>, kw: Seq<char>, i: int, d: Depths) -> Option<int>
    decreases s.len() - i,
{
    if i < 0 || i >= s.len() {
        None
    } else if d.is_top() && keyword_at(s, i, kw) {
        Some(i)
    } else {
        top_keyword_scan(s, kw, i + 1, d.consume(s[i]))
    }
}

/// The first position `>= i` of the whole word `kw`, at any depth.
pub open spec fn keyword_scan(s: Seq<char>, kw: Seq<char>, i: int) -> Option<int>
    decreases s.len() - i,
{
    if i < 0 || i >= s.len() {
        None
    } else if keyword_at(s, i, kw) {
        Some(i)
    } else {
        keyword_scan(s, kw, i + 1)
    }
}

/// The first top-level (depth zero) occurrence of `target` at or after `start`.
pub fn find_top_level_char(m: &Vec<char>, target: char, start: usize) -> (r: Option<usize>)
    ensures
        r is None <==> top_char_scan(m@, target, start as int, Depths::zero()) is None,
        r matches Some(i) ==> top_char_scan(m@, target, start as int, Depths::zero()) == Some(i as int),
        r matches Some(i) ==> start <= i < m.len(),
{
    let mut d = DelimiterDepths::new();
    let mut i = start;
    while i < m.len()
        invariant
            start <= i,
            d@.total() <= i - start,
            top_char_scan(m@, target, start as int, Depths::zero()) == top_char_scan(m@, target, i as int, d@),
        decreases m.len() - i,
    {
        if m[i] == target && d.is_top_level() {
            return Some(i);
        }
        d.consume(m[i]);
        i += 1;
    }
    None
}

/// The position of the `{` opening the body: the first top-level `{`.
pub fn find_body_start(m: &Vec<char>, start: usize) -> (r: Option<usize>)
    ensures
        r is None <==> top_char_scan(m@, '{', start as int, Depths::zero()) is None,
        r matches Some(i) ==> top_char_scan(m@, '{', start as int, Depths::zero()) == Some(i as int),
        r matches Some(i) ==> start <= i < m.len(),
{
    find_top_level_char(m, '{', start)
}

/// The first top-level whole-word occurrence of `kw` at or after `start`.
pub fn find_top_level_keyword(m: &Vec<char>, kw: &Vec<char>, start: usize) -> (r: Option<usize>)
    ensures
        r is None <==> top_keyword_scan(m@, kw@, start as int, Depths::zero()) is None,
        r matches Some(i) ==> top_keyword_scan(m@, kw@, start as int, Depths::zero()) == Some(i as int),
        r matches Some(i) ==> start <= i < m.len() && keyword_at(m@, i as int, kw@),
{
    let mut d = DelimiterDepths::new();
    let mut i = start;
    while i < m.len()
        invariant
            start <= i,
            d@.total() <= i - start,
            top_keyword_scan(m@, kw@, start as int, Depths::zero()) == top_keyword_scan(m@, kw@, i as int, d@),
        decreases m.len() - i,
    {
        if d.is_top_level() && matches_here(m, i, kw) && kw.len() <= usize::MAX - i
            && is_keyword_boundary(m, i, kw.len()) {
            return Some(i);
        }
        d.consume(m[i]);
        i += 1;
    }
    None
}

/// The first whole-word occurrence of `kw` at or after `start`, at any depth.
pub fn find_keyword(m: &Vec<char>, kw: &Vec<char>, start: usize) -> (r: Option<usize>)
    ensures
        r is None <==> keyword_scan(m@, kw@, start as int) is None,
        r matches Some(i) ==> keyword_scan(m@, kw@, start as int) == Some(i as int),
        r matches Some(i) ==> start <= i < m.len() && keyword_at(m@, i as int, kw@),
{
    let mut i = start;
    while i < m.len()
        invariant
            start <= i,
            keyword_scan(m@, kw@, start as int) == keyword_scan(m@, kw@, i as int),
        decreases m.len() - i,
    {
        if matches_here(m, i, kw) && kw.len() <= usize::MAX - i && is_keyword_boundary(m, i, kw.len()) {
            return Some(i);
        }
        i += 1;
    }
    None
}

/// The first position `>= i` that is not ASCII whitespace (or the end).
pub open spec fn skip_ws_from(s: Seq<char>, i: int) -> int
    decreases s.len() - i,
{
    if 0 <= i < s.len() && is_ascii_ws(s[i]) {
        skip_ws_from(s, i + 1)
    } else {
        i
    }
}

/// Advance past ASCII whitespace.
pub fn skip_whitespace(m: &Vec<char>, start: usize) -> (r: usize)
    ensures
        r == skip_ws_from(m@, start as int),
        start <= r,
        start <= m.len() ==> r <= m.len(),
        r > start ==> r <= m.len(),
{
    let mut i = start;
    while i < m.len() && is_ascii_whitespace(m[i])
        invariant
            start <= i,
            i > start ==> i <= m.len(),
            skip_ws_from(m@, start as int) == skip_ws_from(m@, i as int),
        decreases m.len() - i,
    {
        i += 1;
    }
    i
}

/// The first position `>= i` that is not an identifier character (or the end).
pub open spec fn ident_end_from(s: Seq<char>, i: int) -> int
    decreases s.len() - i,
{
    if 0 <= i < s.len() && is_ident_char(s[i]) {
        ident_end_from(s, i + 1)
    } else {
        i
    }
}

/// Advance past identifier characters.
pub fn identifier_end(m: &Vec<char>, start: usize) -> (r: usize)
    ensures
        r == ident_end_from(m@, start as int),
        start <= r,
        r > start ==> r <= m.len(),
{
    let mut i = start;
    while i < m.len() && is_identifier_byte(m[i])
        invariant
            start <= i,
            i > start ==> i <= m.len(),
            ident_end_from(m@, start as int) == ident_end_from(m@, i as int),
        decreases m.len() - i,
    {
        i += 1;
    }
    i
}

/// Where a leading `<...>` group (counted on angle brackets only) ends.
pub open spec fn generic_close_scan(s: Seq<char>, i: int, depth: nat) -> Option<int>
    decreases s.len() - i,
{
    if i < 0 || i >= s.len() {
        None
    } else if s[i] == '<' {
        generic_close_scan(s, i + 1, depth + 1)
    } else if s[i] == '>' && depth > 0 {
        if depth == 1 {
            Some(i)
        } else {
            generic_close_scan(s, i + 1, (depth - 1) as nat)
        }
    } else {
        generic_close_scan(s, i + 1, depth)
    }
}

/// The position after a leading generic parameter list and the whitespace
/// that follows it; `start` itself when no `<` stands there.
pub open spec fn after_generics(s: Seq<char>, start: int) -> int {
    if !(0 <= start < s.len() && s[start] == '<') {
        start
    } else {
        match generic_close_scan(s, start, 0) {
            Some(close) => skip_ws_from(s, close + 1),
            None => s.len() as int,
        }
    }
}

pub fn skip_leading_generic_parameters(m: &Vec<char>, start: usize) -> (r: usize)
    ensures
        r == after_generics(m@, start as int),
        start <= m.len() ==> start <= r <= m.len(),
{
    if !(start < m.len() && m[start] == '<') {
        return start;
    }
    let mut depth: usize = 0;
    let mut i = start;
    while i < m.len()
        invariant
            start <= i <= m.len(),
            start < m.len() && m@[start as int] == '<',
            depth <= i - start,
            generic_close_scan(m@, start as int, 0) == generic_close_scan(m@, i as int, depth as nat),
        decreases m.len() - i,
    {
        let c = m[i];
        let ghost old_depth = depth;
        if c == '<' {
            depth += 1;
        } else if c == '>' && depth > 0 {
            depth -= 1;
            if depth == 0 {
                assert(old_depth == 1);
                assert(generic_close_scan(m@, i as int, old_depth as nat) == Some(i as int));
                assert(generic_close_scan(m@, start as int, 0) == Some(i as int));
                assert(m@[start as int] == '<');
                assert(after_generics(m@, start as int) == skip_ws_from(m@, i + 1));
                let r = skip_whitespace(m, i + 1);
                return r;
            }
        }
        i += 1;
    }
    m.len()
}


pub proof fn lemma_top_char_scan(s: Seq<char>, t: char, i: int, d: Depths)
    ensures
        top_char_scan(s, t, i, d) matches Some(r) ==> i <= r < s.len() && s[r] == t,
    decreases s.len() - i,
{
    if 0 <= i < s.len() && !(s[i] == t && d.is_top()) {
        lemma_top_char_scan(s, t, i + 1, d.consume(s[i]));
    }
}

pub proof fn lemma_top_keyword_scan(s: Seq<char>, kw: Seq<char>, i: int, d: Depths)
    ensures
        top_keyword_scan(s, kw, i, d) matches Some(r) ==> i <= r < s.len() && keyword_at(s, r, kw),
    decreases s.len() - i,
{
    if 0 <= i < s.len() && !(d.is_top() && keyword_at(s, i, kw)) {
        lemma_top_keyword_scan(s, kw, i + 1, d.consume(s[i]));
    }
}

pub proof fn lemma_keyword_scan(s: Seq<char>, kw: Seq<char>, i: int)
    ensures
        keyword_scan(s, kw, i) matches Some(r) ==> i <= r < s.len() && keyword_at(s, r, kw),
    decreases s.len() - i,
{
    if 0 <= i < s.len() && !keyword_at(s, i, kw) {
        lemma_keyword_scan(s, kw, i + 1);
    }
}

/// Skipping whitespace from `a` stops at the latest at a non-whitespace `p`,
/// and never passes the end.
pub proof fn lemma_skip_ws_bounds(s: Seq<char>, a: int, p: int)
    ensures
        a <= skip_ws_from(s, a),
        0 <= a <= s.len() ==> skip_ws_from(s, a) <= s.len(),
        0 <= a <= p < s.len() && !is_ascii_ws(s[p]) ==> skip_ws_from(s, a) <= p,
    decreases s.len() - a,
{
    if 0 <= a < s.len() && is_ascii_ws(s[a]) {
        lemma_skip_ws_bounds(s, a + 1, p);
    }
}

pub proof fn lemma_ident_end_bounds(s: Seq<char>, a: int)
    ensures
        a <= ident_end_from(s, a),
        0 <= a <= s.len() ==> ident_end_from(s, a) <= s.len(),
    decreases s.len() - a,
{
    if 0 <= a < s.len() && is_ident_char(s[a]) {
        lemma_ident_end_bounds(s, a + 1);
    }
}

pub proof fn lemma_after_generics_bounds(s: Seq<char>, start: int)
    requires
        0 <= start <= s.len(),
    ensures
        start <= after_generics(s, start) <= s.len(),
{
    if 0 <= start < s.len() && s[start] == '<' {
        lemma_generic_close(s, start, 0);
        match generic_close_scan(s, start, 0) {
            Some(close) => {
                lemma_skip_ws_bounds(s, close + 1, 0);
            },
            None => {},
        }
    }
}

proof fn lemma_generic_close(s: Seq<char>, i: int, depth: nat)
    ensures
        generic_close_scan(s, i, depth) matches Some(r) ==> i <= r < s.len(),
    decreases s.len() - i,
{
    if 0 <= i < s.len() {
        if s[i] == '<' {
            lemma_generic_close(s, i + 1, depth + 1);
        } else if s[i] == '>' && depth > 0 {
            if depth != 1 {
                lemma_generic_close(s, i + 1, (depth - 1) as nat);
            }
        } else {
            lemma_generic_close(s, i + 1, depth);
        }
    }
}

} // verus!
