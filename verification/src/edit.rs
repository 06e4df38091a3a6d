//! Find and replace across files: search hits with line and byte column,
//! a preview of a replacement with the before and after of every changed
//! line, and the application of a preview to a file's text, refused where
//! the file no longer holds what the preview saw.
use vstd::prelude::*;
use vstd::utf8::{encode_scalar, encode_utf8};
use crate::markdown::{line_ranges, split_lines};
use crate::safety::{in_git_dir, is_safe_to_edit, is_safe_to_read, name_or_empty, protected_name};
use crate::text::{chars_of, find_from, first_match_from, matches_at, owned, string_from, sub_vec};
use crate::visibility::lines_of;
use crate::pattern::{regex_error_text, regex_matches, regex_replaced, regex_valid, CompiledPattern, PatternError};

verus! {

// ── UTF-8 offsets ──────────────────────────────────────────────────────

/// The byte offset of the character at index `i` of `s`.
pub open spec fn byte_offset(s: Seq<char>, i: int) -> int {
    encode_utf8(s.take(i)).len() as int
}

pub proof fn lemma_encode_concat(a: Seq<char>, b: Seq<char>)
    ensures
        encode_utf8(a + b) == encode_utf8(a) + encode_utf8(b),
    decreases a.len(),
{
    if a.len() == 0 {
        assert(a + b =~= b);
        assert(encode_utf8(a) + encode_utf8(b) =~= encode_utf8(b));
    } else {
        assert((a + b).drop_first() =~= a.drop_first() + b);
        lemma_encode_concat(a.drop_first(), b);
        assert(encode_utf8(a + b) =~= encode_scalar(a[0] as u32) + encode_utf8(a.drop_first() + b));
    }
}

proof fn lemma_encode_push(a: Seq<char>, c: char)
    ensures
        encode_utf8(a.push(c)) == encode_utf8(a) + encode_scalar(c as u32),
{
    lemma_encode_concat(a, seq![c]);
    assert(a + seq![c] =~= a.push(c));
    assert(seq![c].drop_first() =~= Seq::<char>::empty());
    assert(encode_utf8(Seq::<char>::empty()) =~= Seq::<u8>::empty());
    assert(encode_utf8(seq![c]) == encode_scalar(seq![c][0] as u32) + encode_utf8(seq![c].drop_first()));
    assert(encode_utf8(seq![c]) =~= encode_scalar(c as u32));
}

/// A text takes at least one byte per character.
proof fn lemma_encode_len(s: Seq<char>)
    ensures
        s.len() <= encode_utf8(s).len(),
    decreases s.len(),
{
    broadcast use vstd::utf8::char_is_scalar;
    if s.len() > 0 {
        lemma_encode_len(s.drop_first());
    }
}

/// A piece of a text takes no more bytes than the text.
proof fn lemma_encode_subrange(s: Seq<char>, i: int, j: int)
    requires
        0 <= i <= j <= s.len(),
    ensures
        encode_utf8(s.subrange(i, j)).len() <= encode_utf8(s).len(),
        encode_utf8(s.take(j)).len() <= encode_utf8(s).len(),
{
    lemma_encode_concat(s.take(i), s.subrange(i, j));
    lemma_encode_concat(s.take(j), s.skip(j));
    assert(s.take(i) + s.subrange(i, j) =~= s.take(j));
    assert(s.take(j) + s.skip(j) =~= s);
}

/// The number of bytes of the UTF-8 encoding of `c`.
fn utf8_width(c: char) -> (w: usize)
    ensures
        w == encode_scalar(c as u32).len(),
        1 <= w <= 4,
{
    broadcast use vstd::utf8::char_is_scalar;
    let u = c as u32;
    if u < 0x80 {
        1
    } else if u < 0x800 {
        2
    } else if u < 0x10000 {
        3
    } else {
        4
    }
}

// ── Search ─────────────────────────────────────────────────────────────

/// How a search pattern is read.
#[derive(Debug, Clone, Copy, PartialEq, Eq, Structural)]
pub enum SearchMode {
    /// The pattern is plain text.
    Literal,
    /// The pattern is a regular expression.
    Regex,
}

/// A file to search or edit: its path, the path to report, and its text
/// where it could be read.
#[derive(Debug, Clone)]
pub struct FileText {
    pub path: String,
    pub relative_path: String,
    pub content: Option<String>,
}

pub struct FileTextView {
    pub path: Seq<char>,
    pub relative_path: Seq<char>,
    pub content: Option<Seq<char>>,
}

impl View for FileText {
    type V = FileTextView;

    open spec fn view(&self) -> FileTextView {
        FileTextView {
            path: self.path@,
            relative_path: self.relative_path@,
            content: match self.content {
                Some(c) => Some(c@),
                None => None,
            },
        }
    }
}

/// One match of a search.
#[derive(Debug, Clone)]
pub struct SearchHit {
    /// The reported path of the file.
    pub file: String,
    /// The line of the match, from 1.
    pub line: usize,
    /// The byte column where the match starts, from 1.
    pub column: usize,
    /// The whole line.
    pub text: String,
    /// The matched text.
    pub match_text: String,
}

pub struct SearchHitView {
    pub file: Seq<char>,
    pub line: int,
    pub column: int,
    pub text: Seq<char>,
    pub match_text: Seq<char>,
}

impl View for SearchHit {
    type V = SearchHitView;

    open spec fn view(&self) -> SearchHitView {
        SearchHitView {
            file: self.file@,
            line: self.line as int,
            column: self.column as int,
            text: self.text@,
            match_text: self.match_text@,
        }
    }
}

// ── Search specification ───────────────────────────────────────────────

/// The character positions of the matches of `pat` in `line` found by
/// searching from `from`, then again from one past each match.
pub open spec fn literal_starts(line: Seq<char>, pat: Seq<char>, from: int) -> Seq<int>
    decreases line.len() + 1 - from,
{
    if from < 0 || from > line.len() {
        Seq::empty()
    } else {
        match first_match_from(line, from, pat) {
            Some(i) => if from <= i <= line.len() {
                seq![i] + literal_starts(line, pat, i + 1)
            } else {
                Seq::empty()
            },
            None => Seq::empty(),
        }
    }
}

/// The hits of a literal search on one line (numbered from 0).
pub open spec fn literal_line_hits(file: Seq<char>, row: int, line: Seq<char>, pat: Seq<char>) -> Seq<SearchHitView> {
    literal_starts(line, pat, 0).map_values(|i: int| literal_hit(file, row, line, pat, i))
}

/// The hits of a regular-expression search on one line.
pub open spec fn regex_line_hits(file: Seq<char>, row: int, line: Seq<char>, pattern: Seq<char>) -> Seq<SearchHitView> {
    regex_matches(pattern, line).map_values(|m: (usize, Seq<char>)| regex_hit(file, row, line, m))
}

pub open spec fn line_hits(file: Seq<char>, row: int, line: Seq<char>, pattern: Seq<char>, mode: SearchMode) -> Seq<
    SearchHitView,
> {
    match mode {
        SearchMode::Literal => literal_line_hits(file, row, line, pattern),
        SearchMode::Regex => regex_line_hits(file, row, line, pattern),
    }
}

/// The hits on the lines of a file, line by line.
pub open spec fn lines_hits(file: Seq<char>, lines: Seq<Seq<char>>, pattern: Seq<char>, mode: SearchMode) -> Seq<
    SearchHitView,
>
    decreases lines.len(),
{
    if lines.len() == 0 {
        Seq::empty()
    } else {
        lines_hits(file, lines.drop_last(), pattern, mode) + line_hits(
            file,
            lines.len() - 1,
            lines.last(),
            pattern,
            mode,
        )
    }
}

/// A file that a search reads: safe to read, and read.
pub open spec fn searched(f: FileTextView) -> bool {
    !in_git_dir(f.path) && f.content is Some
}

/// The hits of a search over files, file by file.
pub open spec fn search_spec(pattern: Seq<char>, files: Seq<FileTextView>, mode: SearchMode) -> Seq<SearchHitView>
    decreases files.len(),
{
    if files.len() == 0 {
        Seq::empty()
    } else {
        let f = files.last();
        search_spec(pattern, files.drop_last(), mode) + if searched(f) {
            lines_hits(f.relative_path, lines_of(f.content->0), pattern, mode)
        } else {
            Seq::empty()
        }
    }
}

/// A literal search that runs to its end: searching again one byte past a
/// match must land on a character boundary, so the pattern must be
/// non-empty and, where it matches a line, start with an ASCII character.
pub open spec fn literal_search_total(pattern: Seq<char>, files: Seq<FileTextView>) -> bool {
    forall|i: int, j: int|
        0 <= i < files.len() && searched(files[i]) && 0 <= j < lines_of(files[i].content->0).len() ==> pattern.len() > 0
            && ((pattern[0] as u32) < 0x80 || literal_starts(#[trigger] lines_of(files[i].content->0)[j], pattern, 0).len()
            == 0)
}

/// Every text of the files takes fewer than `usize::MAX` bytes.
pub open spec fn texts_fit(files: Seq<FileTextView>) -> bool {
    forall|i: int|
        0 <= i < files.len() && (#[trigger] files[i]).content is Some ==> encode_utf8(files[i].content->0).len()
            < usize::MAX
}

pub open spec fn files_view(files: Seq<FileText>) -> Seq<FileTextView> {
    files.map_values(|f: FileText| f@)
}

pub open spec fn hits_view(hits: Seq<SearchHit>) -> Seq<SearchHitView> {
    hits.map_values(|h: SearchHit| h@)
}


pub open spec fn literal_hit(file: Seq<char>, row: int, line: Seq<char>, pat: Seq<char>, i: int) -> SearchHitView {
    SearchHitView { file, line: row + 1, column: byte_offset(line, i) + 1, text: line, match_text: pat }
}

pub open spec fn regex_hit(file: Seq<char>, row: int, line: Seq<char>, m: (usize, Seq<char>)) -> SearchHitView {
    SearchHitView { file, line: row + 1, column: m.0 + 1, text: line, match_text: m.1 }
}

// ── Search ─────────────────────────────────────────────────────────────

/// Appends the hits of a literal search on one line.
fn push_literal_hits(file: &str, row: usize, line: &Vec<char>, pat: &Vec<char>, hits: &mut Vec<SearchHit>)
    requires
        row < usize::MAX,
        encode_utf8(line@).len() < usize::MAX,
    ensures
        hits_view(final(hits)@) == hits_view(old(hits)@) + literal_starts(line@, pat@, 0).map_values(
            |i: int| literal_hit(file@, row as int, line@, pat@, i),
        ),
{
    let ghost starts = literal_starts(line@, pat@, 0);
    let ghost mut done: Seq<int> = Seq::empty();
    let ghost start_hits = hits_view(hits@);
    let text = string_of_chars(line);
    let matched = string_of_chars(pat);
    let mut from: usize = 0;
    let mut char_pos: usize = 0;
    let mut byte_pos: usize = 0;
    assert(line@.take(0) =~= Seq::<char>::empty());
    assert(done + starts =~= starts);
    proof {
        lemma_encode_len(line@);
    }
    while from <= line.len()
        invariant
            char_pos <= from <= line.len() + 1,
            char_pos <= line.len(),
            line.len() < usize::MAX,
            row < usize::MAX,
            encode_utf8(line@).len() < usize::MAX,
            byte_pos == byte_offset(line@, char_pos as int),
            text@ == line@,
            matched@ == pat@,
            starts == literal_starts(line@, pat@, 0),
            starts == done + literal_starts(line@, pat@, from as int),
            hits_view(hits@) == start_hits + done.map_values(|i: int| literal_hit(file@, row as int, line@, pat@, i)),
        ensures
            hits_view(hits@) == start_hits + starts.map_values(|i: int| literal_hit(file@, row as int, line@, pat@, i)),
        decreases line.len() + 1 - from,
    {
        match find_from(line, from, pat) {
            None => {
                assert(literal_starts(line@, pat@, from as int) =~= Seq::<int>::empty());
                assert(done =~= starts);
                break;
            },
            Some(i) => {
                while char_pos < i
                    invariant
                        char_pos <= i <= line.len(),
                        encode_utf8(line@).len() < usize::MAX,
                        byte_pos == byte_offset(line@, char_pos as int),
                    decreases i - char_pos,
                {
                    proof {
                        assert(line@.take(char_pos + 1) =~= line@.take(char_pos as int).push(line@[char_pos as int]));
                        lemma_encode_push(line@.take(char_pos as int), line@[char_pos as int]);
                        lemma_encode_subrange(line@, 0, char_pos + 1);
                    }
                    byte_pos = byte_pos + utf8_width(line[char_pos]);
                    char_pos += 1;
                }
                proof {
                    lemma_encode_subrange(line@, 0, i as int);
                }
                let ghost before = hits_view(hits@);
                hits.push(
                    SearchHit {
                        file: owned(file),
                        line: row + 1,
                        column: byte_pos + 1,
                        text: text.clone(),
                        match_text: matched.clone(),
                    },
                );
                proof {
                    assert(hits_view(hits@) =~= before.push(literal_hit(file@, row as int, line@, pat@, i as int)));
                    assert((done.push(i as int)).map_values(|j: int| literal_hit(file@, row as int, line@, pat@, j))
                        =~= done.map_values(|j: int| literal_hit(file@, row as int, line@, pat@, j)).push(
                        literal_hit(file@, row as int, line@, pat@, i as int),
                    ));
                    assert(starts =~= done.push(i as int) + literal_starts(line@, pat@, i + 1));
                    done = done.push(i as int);
                }
                from = i + 1;
            },
        }
    }
    proof {
        if from > line.len() {
            assert(done =~= starts);
        }
    }
}

/// A new string holding all of `v`.
fn string_of_chars(v: &Vec<char>) -> (s: String)
    ensures
        s@ == v@,
{
    let s = string_from(v, 0, v.len());
    assert(v@.subrange(0, v.len() as int) =~= v@);
    s
}

/// Appends the hits of a regular-expression search on one line.
fn push_regex_hits(file: &str, row: usize, line: &str, re: &CompiledPattern, hits: &mut Vec<SearchHit>)
    requires
        row < usize::MAX,
        encode_utf8(line@).len() < usize::MAX,
    ensures
        hits_view(final(hits)@) == hits_view(old(hits)@) + regex_matches(re.source(), line@).map_values(
            |m: (usize, Seq<char>)| regex_hit(file@, row as int, line@, m),
        ),
{
    let found = re.find_all(line);
    let ghost ms = regex_matches(re.source(), line@);
    let ghost start_hits = hits_view(hits@);
    let mut k: usize = 0;
    while k < found.len()
        invariant
            k <= found.len(),
            row < usize::MAX,
            encode_utf8(line@).len() < usize::MAX,
            found@.map_values(|m: (usize, String)| (m.0, m.1@)) == ms,
            forall|j: int| 0 <= j < found.len() ==> (#[trigger] found@[j]).0 + encode_utf8(found@[j].1@).len()
                <= encode_utf8(line@).len(),
            hits_view(hits@) == start_hits + ms.take(k as int).map_values(
                |m: (usize, Seq<char>)| regex_hit(file@, row as int, line@, m),
            ),
        decreases found.len() - k,
    {
        let ghost before = hits_view(hits@);
        assert(found@[k as int].0 <= encode_utf8(line@).len());
        assert(ms[k as int] == (found@[k as int].0, found@[k as int].1@));
        hits.push(
            SearchHit {
                file: owned(file),
                line: row + 1,
                column: found[k].0 + 1,
                text: owned(line),
                match_text: found[k].1.clone(),
            },
        );
        assert(hits_view(hits@) =~= before.push(regex_hit(file@, row as int, line@, ms[k as int])));
        assert(ms.take(k + 1) =~= ms.take(k as int).push(ms[k as int]));
        assert(ms.take(k + 1).map_values(|m: (usize, Seq<char>)| regex_hit(file@, row as int, line@, m))
            =~= ms.take(k as int).map_values(|m: (usize, Seq<char>)| regex_hit(file@, row as int, line@, m)).push(
            regex_hit(file@, row as int, line@, ms[k as int]),
        ));
        k += 1;
    }
    assert(ms.take(found.len() as int) =~= ms);
}


/// Appends the hits on the lines of one text.
fn push_file_hits(
    file: &str,
    content: &str,
    pattern: &str,
    pat: &Vec<char>,
    re: &Option<CompiledPattern>,
    mode: SearchMode,
    hits: &mut Vec<SearchHit>,
)
    requires
        encode_utf8(content@).len() < usize::MAX,
        pat@ == pattern@,
        mode is Regex ==> (re matches Some(p) && p.source() == pattern@),
    ensures
        hits_view(final(hits)@) == hits_view(old(hits)@) + lines_hits(file@, lines_of(content@), pattern@, mode),
{
    let chars = chars_of(content);
    let ranges = split_lines(&chars);
    let ghost lines = lines_of(content@);
    let ghost start_hits = hits_view(hits@);
    proof {
        lemma_encode_len(content@);
    }
    assert(lines.len() == ranges.len());
    let mut k: usize = 0;
    assert(lines.take(0) =~= Seq::<Seq<char>>::empty());
    while k < ranges.len()
        invariant
            k <= ranges.len() == lines.len(),
            chars@ == content@,
            chars.len() < usize::MAX,
            encode_utf8(content@).len() < usize::MAX,
            lines == lines_of(content@),
            crate::markdown::ranges_view(ranges@) == line_ranges(chars@),
            forall|j: int| 0 <= j < ranges.len() ==> (#[trigger] ranges@[j]).0 <= ranges@[j].1 <= chars.len(),
            pat@ == pattern@,
            mode is Regex ==> (re matches Some(p) && p.source() == pattern@),
            hits_view(hits@) == start_hits + lines_hits(file@, lines.take(k as int), pattern@, mode),
        decreases ranges.len() - k,
    {
        let (lo, hi) = ranges[k];
        assert(crate::markdown::ranges_view(ranges@)[k as int] == (lo as int, hi as int));
        assert(lines[k as int] == chars@.subrange(lo as int, hi as int));
        proof {
            lemma_encode_subrange(content@, lo as int, hi as int);
        }
        let ghost before = hits_view(hits@);
        match mode {
            SearchMode::Literal => {
                let line = sub_vec(&chars, lo, hi);
                push_literal_hits(file, k, &line, pat, hits);
            },
            SearchMode::Regex => {
                let line = string_from(&chars, lo, hi);
                match re {
                    Some(p) => push_regex_hits(file, k, line.as_str(), p, hits),
                    None => {},
                }
            },
        }
        assert(lines.take(k + 1).drop_last() =~= lines.take(k as int));
        k += 1;
    }
    assert(lines.take(ranges.len() as int) =~= lines);
}

/// Searches the files for the pattern: every match on every line of every
/// file that is safe to read and could be read, file by file and line by
/// line. A literal pattern is searched again one past each match, so its
/// matches may overlap; a regular expression gives its non-overlapping
/// matches. Fails only on a regular expression that cannot be compiled.
pub fn search(pattern: &str, files: &[FileText], mode: &SearchMode) -> (r: Result<Vec<SearchHit>, PatternError>)
    requires
        *mode is Literal ==> literal_search_total(pattern@, files_view(files@)),
        texts_fit(files_view(files@)),
    ensures
        r is Ok <==> (*mode is Literal || regex_valid(pattern@)),
        r matches Err(e) ==> e.message@ == regex_error_text(pattern@),
        r matches Ok(h) ==> hits_view(h@) == search_spec(pattern@, files_view(files@), *mode),
{
    let mode = *mode;
    let re = match mode {
        SearchMode::Regex => match CompiledPattern::new(pattern) {
            Ok(p) => Some(p),
            Err(e) => return Err(e),
        },
        SearchMode::Literal => None,
    };
    let pat = chars_of(pattern);
    let mut hits: Vec<SearchHit> = Vec::new();
    let ghost fs = files_view(files@);
    let mut i: usize = 0;
    assert(fs.take(0) =~= Seq::<FileTextView>::empty());
    while i < files.len()
        invariant
            i <= files.len(),
            fs == files_view(files@),
            texts_fit(fs),
            pat@ == pattern@,
            mode is Regex ==> (re matches Some(p) && p.source() == pattern@),
            hits_view(hits@) == search_spec(pattern@, fs.take(i as int), mode),
        decreases files.len() - i,
    {
        let f = &files[i];
        assert(fs[i as int] == f@);
        assert(fs.take(i + 1).drop_last() =~= fs.take(i as int));
        assert(fs.take(i + 1).last() == f@);
        if is_safe_to_read(f.path.as_str()) {
            match &f.content {
                Some(c) => {
                    push_file_hits(f.relative_path.as_str(), c.as_str(), pattern, &pat, &re, mode, &mut hits);
                },
                None => {},
            }
        }
        i += 1;
    }
    assert(fs.take(files.len() as int) =~= fs);
    Ok(hits)
}


// ── Literal replacement ────────────────────────────────────────────────

/// `s[i..]` with every match of the non-empty `old` replaced by `new`,
/// matches taken left to right without overlap.
pub open spec fn replace_from(s: Seq<char>, i: int, old: Seq<char>, new: Seq<char>) -> Seq<char>
    decreases s.len() + 1 - i,
{
    if i < 0 || i > s.len() {
        Seq::empty()
    } else {
        match first_match_from(s, i, old) {
            Some(j) => if old.len() > 0 && i <= j && j + old.len() <= s.len() {
                s.subrange(i, j) + new + replace_from(s, j + old.len(), old, new)
            } else {
                s.subrange(i, s.len() as int)
            },
            None => s.subrange(i, s.len() as int),
        }
    }
}

/// `new` before, between and after the characters of `s`: what replacing
/// the empty text gives.
pub open spec fn interleave(s: Seq<char>, new: Seq<char>) -> Seq<char>
    decreases s.len(),
{
    if s.len() == 0 {
        new
    } else {
        interleave(s.drop_last(), new) + seq![s.last()] + new
    }
}

/// `str::replace`: every match of `old` in `s` replaced by `new`.
pub open spec fn literal_replace(s: Seq<char>, old: Seq<char>, new: Seq<char>) -> Seq<char> {
    if old.len() == 0 {
        interleave(s, new)
    } else {
        replace_from(s, 0, old, new)
    }
}

/// Appends `v[lo..hi]`.
fn append_range(out: &mut Vec<char>, v: &Vec<char>, lo: usize, hi: usize)
    requires
        lo <= hi <= v.len(),
    ensures
        final(out)@ == old(out)@ + v@.subrange(lo as int, hi as int),
{
    let ghost start = out@;
    let mut t = lo;
    while t < hi
        invariant
            lo <= t <= hi <= v.len(),
            out@ == start + v@.subrange(lo as int, t as int),
        decreases hi - t,
    {
        out.push(v[t]);
        assert(out@ =~= start + v@.subrange(lo as int, t + 1));
        t += 1;
    }
}

/// `line` with every match of `old` replaced by `new`, as `str::replace`
/// does it.
pub fn replace_literal(line: &Vec<char>, old: &Vec<char>, new: &Vec<char>) -> (r: Vec<char>)
    ensures
        r@ == literal_replace(line@, old@, new@),
{
    let mut out: Vec<char> = Vec::new();
    if old.len() == 0 {
        append_range(&mut out, new, 0, new.len());
        assert(new@.subrange(0, new.len() as int) =~= new@);
        assert(line@.take(0) =~= Seq::<char>::empty());
        let mut k: usize = 0;
        while k < line.len()
            invariant
                k <= line.len(),
                old@.len() == 0,
                out@ == interleave(line@.take(k as int), new@),
            decreases line.len() - k,
        {
            out.push(line[k]);
            append_range(&mut out, new, 0, new.len());
            assert(line@.take(k + 1).drop_last() =~= line@.take(k as int));
            k += 1;
        }
        assert(line@.take(line.len() as int) =~= line@);
        return out;
    }
    let mut i: usize = 0;
    assert(out@ + replace_from(line@, 0, old@, new@) =~= replace_from(line@, 0, old@, new@));
    while i <= line.len()
        invariant_except_break
            out@ + replace_from(line@, i as int, old@, new@) == literal_replace(line@, old@, new@),
        invariant
            i <= line.len() + 1,
            old.len() > 0,
        ensures
            out@ == literal_replace(line@, old@, new@),
        decreases line.len() + 1 - i,
    {
        match find_from(line, i, old) {
            Some(j) => {
                let ghost before = out@;
                append_range(&mut out, line, i, j);
                append_range(&mut out, new, 0, new.len());
                assert(new@.subrange(0, new.len() as int) =~= new@);
                assert(before + replace_from(line@, i as int, old@, new@) =~= out@ + replace_from(
                    line@,
                    j + old.len(),
                    old@,
                    new@,
                ));
                i = j + old.len();
            },
            None => {
                let ghost before = out@;
                append_range(&mut out, line, i, line.len());
                assert(before + replace_from(line@, i as int, old@, new@) =~= out@);
                break;
            },
        }
    }
    out
}


// ── Replace preview ────────────────────────────────────────────────────

/// How a replacement pattern is read.
#[derive(Debug, Clone, Copy, PartialEq, Eq, Structural)]
pub enum ReplaceMode {
    /// The pattern is plain text.
    Literal,
    /// The pattern is a regular expression; the replacement may name its
    /// groups (`$1`).
    Regex,
}

/// The before and after of one changed line.
#[derive(Debug, Clone)]
pub struct PreviewLine {
    /// The line, from 1.
    pub line_num: usize,
    pub before: String,
    pub after: String,
}

/// The changes planned for one file.
#[derive(Debug, Clone)]
pub struct FileChange {
    /// The reported path of the file.
    pub file: String,
    /// The number of changed lines.
    pub replacements: usize,
    pub preview_lines: Vec<PreviewLine>,
}

/// A replacement planned over files, before it is applied.
#[derive(Debug, Clone)]
pub struct ReplacePreview {
    pub old: String,
    pub new: String,
    /// `"literal"` or `"regex"`.
    pub mode: String,
    pub affected_files: Vec<FileChange>,
    /// The number of changed lines over all files.
    pub total_replacements: usize,
}

pub struct PreviewLineView {
    pub line_num: int,
    pub before: Seq<char>,
    pub after: Seq<char>,
}

pub struct FileChangeView {
    pub file: Seq<char>,
    pub replacements: int,
    pub preview_lines: Seq<PreviewLineView>,
}

pub struct ReplacePreviewView {
    pub old: Seq<char>,
    pub new: Seq<char>,
    pub mode: Seq<char>,
    pub affected_files: Seq<FileChangeView>,
    pub total_replacements: int,
}

impl View for PreviewLine {
    type V = PreviewLineView;

    open spec fn view(&self) -> PreviewLineView {
        PreviewLineView { line_num: self.line_num as int, before: self.before@, after: self.after@ }
    }
}

pub open spec fn preview_lines_view(s: Seq<PreviewLine>) -> Seq<PreviewLineView> {
    s.map_values(|p: PreviewLine| p@)
}

impl View for FileChange {
    type V = FileChangeView;

    open spec fn view(&self) -> FileChangeView {
        FileChangeView {
            file: self.file@,
            replacements: self.replacements as int,
            preview_lines: preview_lines_view(self.preview_lines@),
        }
    }
}

pub open spec fn changes_view(s: Seq<FileChange>) -> Seq<FileChangeView> {
    s.map_values(|c: FileChange| c@)
}

impl View for ReplacePreview {
    type V = ReplacePreviewView;

    open spec fn view(&self) -> ReplacePreviewView {
        ReplacePreviewView {
            old: self.old@,
            new: self.new@,
            mode: self.mode@,
            affected_files: changes_view(self.affected_files@),
            total_replacements: self.total_replacements as int,
        }
    }
}

/// A line after the replacement.
pub open spec fn replaced_line(line: Seq<char>, old: Seq<char>, new: Seq<char>, mode: ReplaceMode) -> Seq<char> {
    match mode {
        ReplaceMode::Literal => literal_replace(line, old, new),
        ReplaceMode::Regex => regex_replaced(old, line, new),
    }
}

/// The lines that the replacement changes, in order, each with its number.
pub open spec fn changed_lines(lines: Seq<Seq<char>>, old: Seq<char>, new: Seq<char>, mode: ReplaceMode) -> Seq<
    PreviewLineView,
>
    decreases lines.len(),
{
    if lines.len() == 0 {
        Seq::empty()
    } else {
        let line = lines.last();
        let after = replaced_line(line, old, new, mode);
        changed_lines(lines.drop_last(), old, new, mode) + if after != line {
            seq![PreviewLineView { line_num: lines.len() as int, before: line, after }]
        } else {
            Seq::empty()
        }
    }
}

/// A file that a replacement may edit: not in a `.git` directory, not a
/// lock or environment file.
pub open spec fn editable(path: Seq<char>) -> bool {
    !in_git_dir(path) && !protected_name(name_or_empty(path))
}

/// The change of one file: one entry where the file is editable, read, and
/// has a line that the replacement changes; none otherwise.
pub open spec fn file_change(f: FileTextView, old: Seq<char>, new: Seq<char>, mode: ReplaceMode) -> Seq<FileChangeView> {
    if editable(f.path) && f.content is Some {
        let pls = changed_lines(lines_of(f.content->0), old, new, mode);
        if pls.len() > 0 {
            seq![FileChangeView { file: f.relative_path, replacements: pls.len() as int, preview_lines: pls }]
        } else {
            Seq::empty()
        }
    } else {
        Seq::empty()
    }
}

/// The changes over files, file by file, until `max_files` files change.
pub open spec fn changes_spec(
    files: Seq<FileTextView>,
    old: Seq<char>,
    new: Seq<char>,
    mode: ReplaceMode,
    max_files: int,
) -> Seq<FileChangeView>
    decreases files.len(),
{
    if files.len() == 0 {
        Seq::empty()
    } else {
        let c = changes_spec(files.drop_last(), old, new, mode, max_files);
        if c.len() >= max_files {
            c
        } else {
            c + file_change(files.last(), old, new, mode)
        }
    }
}

/// The number of changed lines over the changes.
pub open spec fn total_spec(changes: Seq<FileChangeView>) -> int
    decreases changes.len(),
{
    if changes.len() == 0 {
        0
    } else {
        total_spec(changes.drop_last()) + changes.last().replacements
    }
}

pub open spec fn mode_name(mode: ReplaceMode) -> Seq<char> {
    match mode {
        ReplaceMode::Literal => "literal"@,
        ReplaceMode::Regex => "regex"@,
    }
}

/// The characters of all the texts of the files.
pub open spec fn texts_total(files: Seq<FileTextView>) -> int
    decreases files.len(),
{
    if files.len() == 0 {
        0
    } else {
        texts_total(files.drop_last()) + match files.last().content {
            Some(c) => c.len() as int,
            None => 0,
        }
    }
}


/// A text has no more lines than characters.
proof fn lemma_line_count(s: Seq<char>, start: int)
    requires
        0 <= start <= s.len(),
    ensures
        crate::markdown::line_ranges_from(s, start).len() <= s.len() - start,
    decreases s.len() - start,
{
    if start < s.len() {
        match crate::text::first_char_from(s, start, '\n') {
            Some(j) => {
                if start <= j < s.len() {
                    lemma_line_count(s, j + 1);
                }
            },
            None => {},
        }
    }
}

/// The changed lines of one text.
fn changed_lines_of(
    content: &str,
    old: &str,
    new: &str,
    oldv: &Vec<char>,
    newv: &Vec<char>,
    re: &Option<CompiledPattern>,
    mode: ReplaceMode,
) -> (r: Vec<PreviewLine>)
    requires
        oldv@ == old@,
        newv@ == new@,
        mode is Regex ==> (re matches Some(p) && p.source() == old@),
    ensures
        preview_lines_view(r@) == changed_lines(lines_of(content@), old@, new@, mode),
        r.len() <= content@.len(),
{
    let chars = chars_of(content);
    let ranges = split_lines(&chars);
    let ghost lines = lines_of(content@);
    proof {
        lemma_line_count(content@, 0);
    }
    let mut out: Vec<PreviewLine> = Vec::new();
    let mut k: usize = 0;
    assert(lines.take(0) =~= Seq::<Seq<char>>::empty());
    while k < ranges.len()
        invariant
            k <= ranges.len() == lines.len() <= content@.len(),
            chars@ == content@,
            lines == lines_of(content@),
            crate::markdown::ranges_view(ranges@) == line_ranges(chars@),
            forall|j: int| 0 <= j < ranges.len() ==> (#[trigger] ranges@[j]).0 <= ranges@[j].1 <= chars.len(),
            oldv@ == old@,
            newv@ == new@,
            mode is Regex ==> (re matches Some(p) && p.source() == old@),
            preview_lines_view(out@) == changed_lines(lines.take(k as int), old@, new@, mode),
            out.len() <= k,
        decreases ranges.len() - k,
    {
        let (lo, hi) = ranges[k];
        assert(crate::markdown::ranges_view(ranges@)[k as int] == (lo as int, hi as int));
        assert(lines[k as int] == chars@.subrange(lo as int, hi as int));
        let line = string_from(&chars, lo, hi);
        let after = match mode {
            ReplaceMode::Literal => {
                let v = sub_vec(&chars, lo, hi);
                string_of_chars(&replace_literal(&v, oldv, newv))
            },
            ReplaceMode::Regex => match re {
                Some(p) => p.replace_all(line.as_str(), new),
                None => line.clone(),
            },
        };
        assert(lines.take(k + 1).drop_last() =~= lines.take(k as int));
        assert(lines.take(k + 1).last() == line@);
        if !crate::text::str_eq(after.as_str(), line.as_str()) {
            let ghost before = preview_lines_view(out@);
            out.push(PreviewLine { line_num: k + 1, before: line, after });
            assert(preview_lines_view(out@) =~= before + seq![out@[out.len() - 1]@]);
        } else {
            assert(changed_lines(lines.take(k + 1), old@, new@, mode) =~= changed_lines(lines.take(k as int), old@, new@, mode));
        }
        k += 1;
    }
    assert(lines.take(ranges.len() as int) =~= lines);
    out
}

/// Once `max_files` files change, later files change nothing.
proof fn lemma_changes_stay(
    files: Seq<FileTextView>,
    old: Seq<char>,
    new: Seq<char>,
    mode: ReplaceMode,
    max_files: int,
    i: int,
)
    requires
        0 <= i <= files.len(),
        changes_spec(files.take(i), old, new, mode, max_files).len() >= max_files,
    ensures
        changes_spec(files, old, new, mode, max_files) == changes_spec(files.take(i), old, new, mode, max_files),
    decreases files.len() - i,
{
    if i == files.len() {
        assert(files.take(i) =~= files);
    } else {
        let d = files.drop_last();
        assert(d.take(i) =~= files.take(i));
        lemma_changes_stay(d, old, new, mode, max_files, i);
    }
}

/// Plans a replacement over the files without changing any: for each file
/// that is safe to edit and could be read, the lines that the replacement
/// changes, with their before and after; files where nothing changes are
/// left out, and the scan stops once `max_files` files change. A literal
/// pattern is replaced as `str::replace` does it, a regular expression as
/// `Regex::replace_all` does it. Fails only on a regular expression that
/// cannot be compiled.
pub fn preview_replace(old: &str, new: &str, files: &[FileText], mode: &ReplaceMode, max_files: usize) -> (r: Result<
    ReplacePreview,
    PatternError,
>)
    requires
        texts_total(files_view(files@)) <= usize::MAX,
    ensures
        r is Ok <==> (*mode is Literal || regex_valid(old@)),
        r matches Err(e) ==> e.message@ == regex_error_text(old@),
        r matches Ok(p) ==> p@ == (ReplacePreviewView {
            old: old@,
            new: new@,
            mode: mode_name(*mode),
            affected_files: changes_spec(files_view(files@), old@, new@, *mode, max_files as int),
            total_replacements: total_spec(changes_spec(files_view(files@), old@, new@, *mode, max_files as int)),
        }),
{
    let mode = *mode;
    let re = match mode {
        ReplaceMode::Regex => match CompiledPattern::new(old) {
            Ok(p) => Some(p),
            Err(e) => return Err(e),
        },
        ReplaceMode::Literal => None,
    };
    let oldv = chars_of(old);
    let newv = chars_of(new);
    let ghost fs = files_view(files@);
    let mut affected: Vec<FileChange> = Vec::new();
    let mut total: usize = 0;
    let mut i: usize = 0;
    assert(fs.take(0) =~= Seq::<FileTextView>::empty());
    assert(fs.take(files.len() as int) =~= fs);
    while i < files.len()
        invariant_except_break
            changes_view(affected@) == changes_spec(fs.take(i as int), old@, new@, mode, max_files as int),
        invariant
            i <= files.len(),
            fs == files_view(files@),
            fs.take(files.len() as int) == fs,
            texts_total(fs) <= usize::MAX,
            oldv@ == old@,
            newv@ == new@,
            mode is Regex ==> (re matches Some(p) && p.source() == old@),
            total == total_spec(changes_view(affected@)),
            total <= texts_total(fs.take(i as int)),
        ensures
            changes_view(affected@) == changes_spec(fs, old@, new@, mode, max_files as int),
        decreases files.len() - i,
    {
        if affected.len() >= max_files {
            proof {
                lemma_changes_stay(fs, old@, new@, mode, max_files as int, i as int);
            }
            break;
        }
        let f = &files[i];
        assert(fs[i as int] == f@);
        assert(fs.take(i + 1).drop_last() =~= fs.take(i as int));
        assert(fs.take(i + 1).last() == f@);
        proof {
            lemma_texts_total_prefix(fs, i + 1);
        }
        if is_safe_to_edit(f.path.as_str()) {
            match &f.content {
                Some(c) => {
                    let pls = changed_lines_of(c.as_str(), old, new, &oldv, &newv, &re, mode);
                    if pls.len() > 0 {
                        let n = pls.len();
                        let ghost before = changes_view(affected@);
                        affected.push(FileChange { file: f.relative_path.clone(), replacements: n, preview_lines: pls });
                        assert(changes_view(affected@) =~= before + seq![affected@[affected.len() - 1]@]);
                        assert(changes_view(affected@).drop_last() =~= before);
                        total = total + n;
                    } else {
                        assert(file_change(f@, old@, new@, mode) =~= Seq::<FileChangeView>::empty());
                    }
                },
                None => {},
            }
        }
        i += 1;
    }
    let mode_text = match mode {
        ReplaceMode::Literal => owned("literal"),
        ReplaceMode::Regex => owned("regex"),
    };
    Ok(
        ReplacePreview {
            old: owned(old),
            new: owned(new),
            mode: mode_text,
            affected_files: affected,
            total_replacements: total,
        },
    )
}

/// The characters of a prefix of the files are no more than those of all.
proof fn lemma_texts_total_prefix(fs: Seq<FileTextView>, k: int)
    requires
        0 <= k <= fs.len(),
    ensures
        texts_total(fs.take(k)) <= texts_total(fs),
    decreases fs.len() - k,
{
    if k < fs.len() {
        let d = fs.drop_last();
        assert(d.take(k) =~= fs.take(k));
        lemma_texts_total_prefix(d, k);
    } else {
        assert(fs.take(k) =~= fs);
    }
}


// ── Applying a preview ─────────────────────────────────────────────────

/// Why a planned change no longer fits a file.
#[derive(Debug, Clone)]
pub enum ApplyError {
    /// The file has no line with this number.
    LineMissing { line: usize },
    /// The line no longer holds what the preview saw.
    LineChanged { line: usize, expected: String, found: String },
}

/// The planned line does not fit the lines of the file.
pub open spec fn stale(lines: Seq<Seq<char>>, pl: PreviewLineView) -> bool {
    pl.line_num == 0 || pl.line_num > lines.len() || lines[pl.line_num - 1] != pl.before
}

/// The first planned line that does not fit.
pub open spec fn first_stale(lines: Seq<Seq<char>>, pls: Seq<PreviewLineView>) -> Option<int>
    decreases pls.len(),
{
    if pls.len() == 0 {
        None
    } else {
        match first_stale(lines, pls.drop_last()) {
            Some(k) => Some(k),
            None => if stale(lines, pls.last()) {
                Some(pls.len() - 1)
            } else {
                None
            },
        }
    }
}

/// The lines with the planned lines put in, in order.
pub open spec fn apply_lines(lines: Seq<Seq<char>>, pls: Seq<PreviewLineView>) -> Seq<Seq<char>>
    decreases pls.len(),
{
    if pls.len() == 0 {
        lines
    } else {
        let l = apply_lines(lines, pls.drop_last());
        let pl = pls.last();
        if 1 <= pl.line_num <= l.len() {
            l.update(pl.line_num - 1, pl.after)
        } else {
            l
        }
    }
}

/// Lines joined with line breaks.
pub open spec fn join_lines(ls: Seq<Seq<char>>) -> Seq<char>
    decreases ls.len(),
{
    if ls.len() == 0 {
        Seq::empty()
    } else if ls.len() == 1 {
        ls[0]
    } else {
        join_lines(ls.drop_last()) + seq!['\n'] + ls.last()
    }
}

/// The text after the change: the changed lines joined with line breaks,
/// with the final line break kept where the text had one.
pub open spec fn applied_text(content: Seq<char>, pls: Seq<PreviewLineView>) -> Seq<char> {
    join_lines(apply_lines(lines_of(content), pls)) + if content.len() > 0 && content.last() == '\n' {
        seq!['\n']
    } else {
        Seq::empty()
    }
}

/// The error for a planned line that does not fit.
pub open spec fn stale_error(lines: Seq<Seq<char>>, pl: PreviewLineView, e: ApplyError) -> bool {
    if pl.line_num == 0 || pl.line_num > lines.len() {
        e matches ApplyError::LineMissing { line } && line == pl.line_num
    } else {
        e matches ApplyError::LineChanged { line, expected, found } && line == pl.line_num && expected@ == pl.before
            && found@ == lines[pl.line_num - 1]
    }
}

/// Applies the planned changes of one file to its current text. Refused
/// when a planned line is past the end of the text or no longer holds what
/// the preview saw: the first such line is reported.
pub fn apply_change(content: &str, change: &FileChange) -> (r: Result<String, ApplyError>)
    ensures
        ({
            let lines = lines_of(content@);
            let pls = preview_lines_view(change.preview_lines@);
            match first_stale(lines, pls) {
                None => r matches Ok(t) && t@ == applied_text(content@, pls),
                Some(k) => r matches Err(e) && stale_error(lines, pls[k], e),
            }
        }),
{
    let chars = chars_of(content);
    let ranges = split_lines(&chars);
    let ghost lines_v = lines_of(content@);
    let ghost pls = preview_lines_view(change.preview_lines@);
    let mut lines: Vec<String> = Vec::new();
    let mut k: usize = 0;
    while k < ranges.len()
        invariant
            k <= ranges.len() == lines_v.len(),
            chars@ == content@,
            lines_v == lines_of(content@),
            crate::markdown::ranges_view(ranges@) == line_ranges(chars@),
            forall|j: int| 0 <= j < ranges.len() ==> (#[trigger] ranges@[j]).0 <= ranges@[j].1 <= chars.len(),
            lines@.map_values(|l: String| l@) == lines_v.take(k as int),
        decreases ranges.len() - k,
    {
        let (lo, hi) = ranges[k];
        assert(crate::markdown::ranges_view(ranges@)[k as int] == (lo as int, hi as int));
        assert(lines_v[k as int] == chars@.subrange(lo as int, hi as int));
        let ghost before = lines@.map_values(|l: String| l@);
        lines.push(string_from(&chars, lo, hi));
        assert(lines@.map_values(|l: String| l@) =~= before.push(lines_v[k as int]));
        assert(lines_v.take(k + 1) =~= lines_v.take(k as int).push(lines_v[k as int]));
        k += 1;
    }
    assert(lines_v.take(ranges.len() as int) =~= lines_v);
    let pl = &change.preview_lines;
    let mut i: usize = 0;
    while i < pl.len()
        invariant
            i <= pl.len(),
            pls == preview_lines_view(pl@),
            pl@ == change.preview_lines@,
            lines_v == lines_of(content@),
            lines@.map_values(|l: String| l@) == lines_v,
            first_stale(lines_v, pls.take(i as int)) is None,
        decreases pl.len() - i,
    {
        let p = &pl[i];
        assert(pls[i as int] == p@);
        assert(pls.take(i + 1).drop_last() =~= pls.take(i as int));
        assert(pls.take(i + 1).last() == p@);
        proof {
            lemma_first_stale_prefix(lines_v, pls, i as int);
            lemma_first_stale_prefix(lines_v, pls, i + 1);
        }
        if p.line_num == 0 || p.line_num > lines.len() {
            return Err(ApplyError::LineMissing { line: p.line_num });
        }
        assert(lines@[p.line_num - 1]@ == lines_v[p.line_num - 1]);
        if !crate::text::str_eq(lines[p.line_num - 1].as_str(), p.before.as_str()) {
            return Err(
                ApplyError::LineChanged {
                    line: p.line_num,
                    expected: p.before.clone(),
                    found: lines[p.line_num - 1].clone(),
                },
            );
        }
        i += 1;
    }
    assert(pls.take(pl.len() as int) =~= pls);
    let mut i: usize = 0;
    assert(pls.take(0) =~= Seq::<PreviewLineView>::empty());
    while i < pl.len()
        invariant
            i <= pl.len(),
            pls == preview_lines_view(pl@),
            lines@.map_values(|l: String| l@) == apply_lines(lines_v, pls.take(i as int)),
        decreases pl.len() - i,
    {
        let p = &pl[i];
        assert(pls[i as int] == p@);
        assert(pls.take(i + 1).drop_last() =~= pls.take(i as int));
        assert(pls.take(i + 1).last() == p@);
        if p.line_num > 0 && p.line_num <= lines.len() {
            let ghost before = lines@.map_values(|l: String| l@);
            lines.set(p.line_num - 1, p.after.clone());
            assert(lines@.map_values(|l: String| l@) =~= before.update(p.line_num - 1, p.after@));
        }
        i += 1;
    }
    assert(pls.take(pl.len() as int) =~= pls);
    let mut out = String::new();
    let mut j: usize = 0;
    let ghost ls = lines@.map_values(|l: String| l@);
    assert(ls.take(0) =~= Seq::<Seq<char>>::empty());
    while j < lines.len()
        invariant
            j <= lines.len(),
            ls == lines@.map_values(|l: String| l@),
            out@ == join_lines(ls.take(j as int)),
        decreases lines.len() - j,
    {
        proof {
            reveal_strlit("\n");
        }
        assert("\n"@ =~= seq!['\n']);
        if j > 0 {
            crate::text::push_str(&mut out, "\n");
        }
        crate::text::push_str(&mut out, lines[j].as_str());
        assert(ls.take(j + 1).drop_last() =~= ls.take(j as int));
        proof {
            if j == 0 {
                assert(out@ =~= ls.take(1)[0]);
            } else {
                assert(out@ =~= join_lines(ls.take(j as int)) + seq!['\n'] + ls[j as int]);
            }
        }
        j += 1;
    }
    assert(ls.take(lines.len() as int) =~= ls);
    proof {
        reveal_strlit("\n");
    }
    assert("\n"@ =~= seq!['\n']);
    if chars.len() > 0 && chars[chars.len() - 1] == '\n' {
        crate::text::push_str(&mut out, "\n");
        assert(out@ =~= applied_text(content@, pls));
    } else {
        assert(out@ =~= applied_text(content@, pls));
    }
    Ok(out)
}

/// A planned line before the first one that does not fit fits.
proof fn lemma_first_stale_prefix(lines: Seq<Seq<char>>, pls: Seq<PreviewLineView>, k: int)
    requires
        0 <= k <= pls.len(),
    ensures
        first_stale(lines, pls.take(k)) is None && k < pls.len() && stale(lines, pls[k]) ==> first_stale(lines, pls.take(
            k + 1,
        )) == Some(k),
        first_stale(lines, pls.take(k)) matches Some(j) ==> first_stale(lines, pls) == Some(j),
        first_stale(lines, pls.take(k)) is None && (k == pls.len() || stale(lines, pls[k])) ==> (first_stale(
            lines,
            pls,
        ) matches Some(j) ==> j >= k),
    decreases pls.len() - k,
{
    if k < pls.len() {
        assert(pls.take(k + 1).drop_last() =~= pls.take(k));
        lemma_first_stale_prefix(lines, pls, k + 1);
    } else {
        assert(pls.take(k) =~= pls);
    }
}


// ── Laws ───────────────────────────────────────────────────────────────

proof fn lemma_apply_fresh_prefix(lines: Seq<Seq<char>>, old: Seq<char>, new: Seq<char>, mode: ReplaceMode, n: int)
    requires
        0 <= n <= lines.len(),
    ensures
        first_stale(lines, changed_lines(lines.take(n), old, new, mode)) is None,
        apply_lines(lines, changed_lines(lines.take(n), old, new, mode)) == lines.take(n).map_values(
            |l: Seq<char>| replaced_line(l, old, new, mode),
        ) + lines.skip(n),
    decreases n,
{
    let f = |l: Seq<char>| replaced_line(l, old, new, mode);
    if n == 0 {
        assert(lines.take(0) =~= Seq::<Seq<char>>::empty());
        assert(lines.take(0).map_values(f) + lines.skip(0) =~= lines);
    } else {
        lemma_apply_fresh_prefix(lines, old, new, mode, n - 1);
        let t = lines.take(n);
        assert(t.drop_last() =~= lines.take(n - 1));
        assert(t.last() == lines[n - 1]);
        let prev = changed_lines(lines.take(n - 1), old, new, mode);
        let after = replaced_line(lines[n - 1], old, new, mode);
        let cur = changed_lines(t, old, new, mode);
        assert(t.map_values(f) =~= lines.take(n - 1).map_values(f).push(after));
        if after != lines[n - 1] {
            let pl = PreviewLineView { line_num: n, before: lines[n - 1], after };
            assert(cur == prev + seq![pl]);
            assert(cur.drop_last() =~= prev);
            assert(cur.last() == pl);
            assert(apply_lines(lines, prev).len() == lines.len());
            assert(apply_lines(lines, cur) =~= t.map_values(f) + lines.skip(n));
        } else {
            assert(cur =~= prev);
            assert(lines.take(n - 1).map_values(f) + lines.skip(n - 1) =~= t.map_values(f) + lines.skip(n));
        }
    }
}

/// Applying the changes that a preview plans for a text to that same text
/// finds no stale line, and turns every line of the text into the line as
/// the replacement makes it.
pub proof fn lemma_preview_then_apply(content: Seq<char>, old: Seq<char>, new: Seq<char>, mode: ReplaceMode)
    ensures
        first_stale(lines_of(content), changed_lines(lines_of(content), old, new, mode)) is None,
        apply_lines(lines_of(content), changed_lines(lines_of(content), old, new, mode)) == lines_of(content).map_values(
            |l: Seq<char>| replaced_line(l, old, new, mode),
        ),
{
    let lines = lines_of(content);
    lemma_apply_fresh_prefix(lines, old, new, mode, lines.len() as int);
    assert(lines.take(lines.len() as int) =~= lines);
    assert(lines.skip(lines.len() as int) =~= Seq::<Seq<char>>::empty());
    assert(lines.map_values(|l: Seq<char>| replaced_line(l, old, new, mode)) + Seq::<Seq<char>>::empty()
        =~= lines.map_values(|l: Seq<char>| replaced_line(l, old, new, mode)));
}

/// A preview names at most `max_files` files.
pub proof fn lemma_preview_file_limit(
    files: Seq<FileTextView>,
    old: Seq<char>,
    new: Seq<char>,
    mode: ReplaceMode,
    max_files: nat,
)
    ensures
        changes_spec(files, old, new, mode, max_files as int).len() <= max_files,
    decreases files.len(),
{
    if files.len() > 0 {
        lemma_preview_file_limit(files.drop_last(), old, new, mode, max_files);
    }
}

} // verus!
