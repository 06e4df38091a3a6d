//! Import resolution: the file of the project that an import's source
//! names, language by language, with how sure the match is.
//!
//! Paths are text. A candidate path resolves when it is, letter for letter,
//! the path of one of the project's files.
use vstd::prelude::*;
use crate::codemap::{score_spec, ConfidenceScore, FileNode, ImportFact, ImportView, ResolutionMethod};
use crate::paths::{file_name, file_name_spec, join, join_spec, last_char, segment_components, strings_view, kept_segment};
use crate::query_facts::{after_last, after_last_of};
use crate::rust_lang::{last_piece_from};
use crate::text::{
    chars_of, ends_with, find_char_from, find_from, first_char_from, first_match_from, is_prefix, is_suffix, owned,
    push_str, starts_with, str_eq, string_from, string_of, trim, trim_bounds, trim_end_in, trim_end_set,
    trim_start_in, trim_start_set,
};
use crate::extract::{unquote, unquoted};

verus! {

// ── Path text ──────────────────────────────────────────────────────────

/// What `Path::parent` gives of a path.
pub uninterp spec fn path_parent(p: Seq<char>) -> Option<Seq<char>>;

/// `std::path::Path::parent`: the path without its final component, as
/// text. Its result is named, not stated: std documents that it is `None`
/// for a path that ends in a root or is empty, and `Some("")` for a relative
/// path of one component. The parent is a part of the path with its last
/// component taken off, so it is shorter.
#[verifier::external_body]
pub(crate) fn parent_of(p: &str) -> (r: Option<String>)
    ensures
        match r {
            Some(d) => path_parent(p@) == Some(d@) && d@.len() < p@.len(),
            None => path_parent(p@) is None,
        },
{
    std::path::Path::new(p).parent().map(|d| d.to_string_lossy().to_string())
}

/// The directory of a file: its parent, or `.` where it has none.
pub open spec fn dir_of(p: Seq<char>) -> Seq<char> {
    match path_parent(p) {
        Some(d) => d,
        None => "."@,
    }
}

fn dir_of_path(p: &str) -> (r: String)
    ensures
        r@ == dir_of(p@),
{
    match parent_of(p) {
        Some(d) => d,
        None => owned("."),
    }
}

/// A file name's stem, as `Path::file_stem` reads it: the whole name when
/// it has no `.` or its only `.` leads it, else the part before the last `.`.
pub open spec fn stem_of_name(n: Seq<char>) -> Seq<char> {
    match last_char(n, '.') {
        Some(k) => if k > 0 { n.take(k) } else { n },
        None => n,
    }
}

/// The stem of a path's file name; empty where it has no file name.
pub open spec fn stem_spec(p: Seq<char>) -> Seq<char> {
    match file_name_spec(p) {
        Some(n) => stem_of_name(n),
        None => Seq::empty(),
    }
}

pub fn file_stem(p: &str) -> (r: String)
    ensures
        r@ == stem_spec(p@),
{
    match file_name(p) {
        Some(n) => name_stem(n.as_str()),
        None => String::new(),
    }
}

/// The stem of a file name.
pub fn name_stem(name: &str) -> (r: String)
    ensures
        r@ == stem_of_name(name@),
{
    let v = chars_of(name);
    let mut k = v.len();
    assert(v@.take(k as int) =~= v@);
    while k > 0 && v[k - 1] != '.'
        invariant
            k <= v.len(),
            last_char(v@, '.') == last_char(v@.take(k as int), '.'),
        decreases k,
    {
        assert(v@.take(k as int).drop_last() =~= v@.take(k - 1));
        k -= 1;
    }
    if k == 0 {
        assert(v@.take(0) =~= Seq::<char>::empty());
        return string_of(&v);
    }
    assert(v@.take(k as int).last() == '.');
    if k - 1 == 0 {
        return string_of(&v);
    }
    string_from(&v, 0, k - 1)
}

/// The text with every `a` read as `b`.
pub open spec fn replace_char(t: Seq<char>, a: char, b: char) -> Seq<char> {
    t.map_values(|c: char| if c == a { b } else { c })
}

pub fn replaced_char(t: &str, a: char, b: char) -> (r: String)
    ensures
        r@ == replace_char(t@, a, b),
{
    let v = chars_of(t);
    let mut w: Vec<char> = Vec::new();
    let mut i: usize = 0;
    while i < v.len()
        invariant
            i <= v.len(),
            w@ == replace_char(v@.take(i as int), a, b),
        decreases v.len() - i,
    {
        w.push(if v[i] == a { b } else { v[i] });
        assert(replace_char(v@.take(i + 1), a, b) =~= replace_char(v@.take(i as int), a, b).push(
            if v@[i as int] == a { b } else { v@[i as int] }));
        i += 1;
    }
    assert(v@.take(v.len() as int) =~= v@);
    string_of(&w)
}

/// Joined with `/` between the parts.
pub open spec fn join_slash(ls: Seq<Seq<char>>) -> Seq<char>
    decreases ls.len(),
{
    if ls.len() == 0 {
        Seq::empty()
    } else if ls.len() == 1 {
        ls[0]
    } else {
        join_slash(ls.drop_last()) + "/"@ + ls.last()
    }
}

pub fn join_with_slash(parts: &Vec<String>) -> (r: String)
    ensures
        r@ == join_slash(strings_view(parts@)),
{
    proof {
        reveal_strlit("/");
    }
    let ghost ls = strings_view(parts@);
    let mut r = String::new();
    let mut i: usize = 0;
    assert(ls.take(0) =~= Seq::<Seq<char>>::empty());
    while i < parts.len()
        invariant
            i <= parts.len(),
            ls == strings_view(parts@),
            r@ == join_slash(ls.take(i as int)),
        decreases parts.len() - i,
    {
        if i > 0 {
            push_str(&mut r, "/");
        }
        push_str(&mut r, parts[i].as_str());
        assert(ls.take(i + 1).drop_last() =~= ls.take(i as int));
        if i == 0 {
            assert(ls.take(1) =~= seq![ls[0]]);
        }
        assert(r@ =~= join_slash(ls.take(i + 1)));
        i += 1;
    }
    assert(ls.take(parts.len() as int) =~= ls);
    r
}

/// One segment's effect on the kept segments: `..` drops the last one.
pub open spec fn dots_step(acc: Seq<Seq<char>>, seg: Seq<char>) -> Seq<Seq<char>> {
    if seg == ".."@ {
        if acc.len() > 0 { acc.drop_last() } else { acc }
    } else {
        acc.push(seg)
    }
}

pub open spec fn dots_fold(acc: Seq<Seq<char>>, segs: Seq<Seq<char>>) -> Seq<Seq<char>>
    decreases segs.len(),
{
    if segs.len() == 0 {
        acc
    } else {
        dots_fold(dots_step(acc, segs[0]), segs.drop_first())
    }
}

/// A path cleaned for comparison: `\` read as `/`, then its `/`-separated
/// pieces without the empty ones and `.`, each `..` taking away the piece
/// before it, joined by `/`.
pub open spec fn clean_spec(p: Seq<char>) -> Seq<char> {
    join_slash(dots_fold(Seq::empty(), segment_components(replace_char(p, '\\', '/'), 0)))
}

proof fn lemma_dots_keep(acc: Seq<Seq<char>>, s: Seq<char>, rest: Seq<Seq<char>>)
    ensures
        dots_fold(acc, crate::paths::keep(s) + rest) == dots_fold(
            if kept_segment(s) { dots_step(acc, s) } else { acc },
            rest,
        ),
{
    if kept_segment(s) {
        let all = crate::paths::keep(s) + rest;
        assert(all[0] == s);
        assert(all.drop_first() =~= rest);
    } else {
        assert(crate::paths::keep(s) + rest =~= rest);
    }
}

pub fn clean_path(path: &str) -> (r: String)
    ensures
        r@ == clean_spec(path@),
{
    let slashed = replaced_char(path, '\\', '/');
    let v = chars_of(slashed.as_str());
    let ghost target = dots_fold(Seq::empty(), segment_components(v@, 0));
    let mut stack: Vec<String> = Vec::new();
    let mut i: usize = 0;
    assert(strings_view(stack@) =~= Seq::<Seq<char>>::empty());
    loop
        invariant_except_break
            dots_fold(strings_view(stack@), segment_components(v@, i as int)) == target,
        invariant
            i <= v.len(),
            target == dots_fold(Seq::empty(), segment_components(v@, 0)),
        ensures
            strings_view(stack@) == target,
        decreases v.len() - i,
    {
        let (end, last) = match find_char_from(&v, i, '/') {
            Some(j) => (j, false),
            None => (v.len(), true),
        };
        let seg = string_from(&v, i, end);
        proof {
            if last {
                assert(segment_components(v@, i as int) == crate::paths::keep(seg@));
                assert(crate::paths::keep(seg@) + Seq::<Seq<char>>::empty() =~= crate::paths::keep(seg@));
                lemma_dots_keep(strings_view(stack@), seg@, Seq::empty());
            } else {
                lemma_dots_keep(strings_view(stack@), seg@, segment_components(v@, end + 1));
            }
        }
        let kept = !seg.as_str().is_empty() && !str_eq(seg.as_str(), ".");
        if kept {
            let ghost before = strings_view(stack@);
            if str_eq(seg.as_str(), "..") {
                if stack.len() > 0 {
                    stack.pop();
                    assert(strings_view(stack@) =~= before.drop_last());
                }
            } else {
                stack.push(seg);
                assert(strings_view(stack@) =~= before.push(seg@));
            }
        }
        if last {
            break;
        }
        i = end + 1;
    }
    join_with_slash(&stack)
}

/// The pieces that `pat` splits `t[start..]` into, scanning from the left.
pub open spec fn split_pieces_from(t: Seq<char>, pat: Seq<char>, start: int) -> Seq<Seq<char>>
    decreases t.len() - start,
{
    if pat.len() > 0 && 0 <= start <= t.len() {
        match first_match_from(t, start, pat) {
            Some(k) => if start <= k && k + pat.len() <= t.len() {
                seq![t.subrange(start, k)] + split_pieces_from(t, pat, k + pat.len())
            } else {
                seq![t.skip(start)]
            },
            None => seq![t.skip(start)],
        }
    } else {
        seq![t.skip(start)]
    }
}

/// The pieces of `t` split at `pat` (`t.split(pat)`).
pub open spec fn split_pieces(t: Seq<char>, pat: Seq<char>) -> Seq<Seq<char>> {
    split_pieces_from(t, pat, 0)
}

pub fn split_on(t: &str, pat: &str) -> (r: Vec<String>)
    requires
        pat@.len() > 0,
    ensures
        strings_view(r@) == split_pieces(t@, pat@),
{
    let v = chars_of(t);
    let p = chars_of(pat);
    let mut out: Vec<String> = Vec::new();
    let mut start: usize = 0;
    assert(strings_view(out@) =~= Seq::<Seq<char>>::empty());
    loop
        invariant
            v@ == t@,
            p@ == pat@,
            p.len() > 0,
            start <= v.len(),
            strings_view(out@) + split_pieces_from(v@, p@, start as int) == split_pieces(v@, p@),
        decreases v.len() - start,
    {
        match find_from(&v, start, &p) {
            Some(k) => {
                let piece = string_from(&v, start, k);
                let ghost before = strings_view(out@);
                let ghost rest = split_pieces_from(v@, p@, (k + p.len()) as int);
                out.push(piece);
                assert(strings_view(out@) =~= before.push(piece@));
                assert(before + (seq![piece@] + rest) =~= before.push(piece@) + rest);
                start = k + p.len();
            },
            None => {
                let piece = string_from(&v, start, v.len());
                assert(v@.skip(start as int) =~= v@.subrange(start as int, v.len() as int));
                let ghost before = strings_view(out@);
                out.push(piece);
                assert(strings_view(out@) =~= before + seq![piece@]);
                return out;
            },
        }
    }
}

/// The first candidate that is the path of a file.
pub open spec fn first_in(files: Seq<Seq<char>>, cands: Seq<Seq<char>>) -> Option<Seq<char>>
    decreases cands.len(),
{
    if cands.len() == 0 {
        None
    } else if files.contains(cands[0]) {
        Some(cands[0])
    } else {
        first_in(files, cands.drop_first())
    }
}

pub fn has_file(files: &Vec<String>, p: &str) -> (b: bool)
    ensures
        b == strings_view(files@).contains(p@),
{
    let mut i: usize = 0;
    while i < files.len()
        invariant
            i <= files.len(),
            forall|k: int| 0 <= k < i ==> strings_view(files@)[k] != p@,
        decreases files.len() - i,
    {
        if str_eq(files[i].as_str(), p) {
            assert(strings_view(files@)[i as int] == p@);
            return true;
        }
        i += 1;
    }
    false
}

pub fn first_present(files: &Vec<String>, cands: &Vec<String>) -> (r: Option<String>)
    ensures
        match r {
            Some(c) => first_in(strings_view(files@), strings_view(cands@)) == Some(c@),
            None => first_in(strings_view(files@), strings_view(cands@)) is None,
        },
{
    let ghost fs = strings_view(files@);
    let ghost cs = strings_view(cands@);
    let mut i: usize = 0;
    assert(cs.skip(0) =~= cs);
    while i < cands.len()
        invariant
            i <= cands.len(),
            fs == strings_view(files@),
            cs == strings_view(cands@),
            first_in(fs, cs) == first_in(fs, cs.skip(i as int)),
        decreases cands.len() - i,
    {
        assert(cs.skip(i as int)[0] == cs[i as int]);
        assert(cs.skip(i as int).drop_first() =~= cs.skip(i + 1));
        if has_file(files, cands[i].as_str()) {
            return Some(owned(cands[i].as_str()));
        }
        i += 1;
    }
    assert(cs.skip(i as int) =~= Seq::<Seq<char>>::empty());
    None
}

/// `a + b` as a new string.
fn concat2(a: &str, b: &str) -> (r: String)
    ensures
        r@ == a@ + b@,
{
    let mut r = owned(a);
    push_str(&mut r, b);
    r
}

/// `a + b + c` as a new string.
fn concat3(a: &str, b: &str, c: &str) -> (r: String)
    ensures
        r@ == a@ + b@ + c@,
{
    let mut r = owned(a);
    push_str(&mut r, b);
    push_str(&mut r, c);
    r
}

/// The text without its surrounding whitespace.
pub fn trimmed(t: &str) -> (r: String)
    ensures
        r@ == trim(t@),
{
    let v = chars_of(t);
    let (a, b) = trim_bounds(&v, 0, v.len());
    assert(v@.subrange(0, v.len() as int) =~= v@);
    string_from(&v, a, b)
}


/// The views of string slices.
pub open spec fn str_views(v: Seq<&str>) -> Seq<Seq<char>> {
    v.map_values(|x: &str| x@)
}

/// `base` followed by each suffix in turn.
pub open spec fn with_suffixes(base: Seq<char>, suffixes: Seq<Seq<char>>) -> Seq<Seq<char>> {
    suffixes.map_values(|e: Seq<char>| base + e)
}

fn push_with_suffixes(out: &mut Vec<String>, base: &str, suffixes: &Vec<&'static str>)
    ensures
        strings_view(final(out)@) == strings_view(old(out)@) + with_suffixes(base@, str_views(suffixes@)),
{
    let ghost start = strings_view(out@);
    let mut i: usize = 0;
    while i < suffixes.len()
        invariant
            i <= suffixes.len(),
            strings_view(out@) == start + with_suffixes(base@, str_views(suffixes@)).take(i as int),
        decreases suffixes.len() - i,
    {
        let c = concat2(base, suffixes[i]);
        let ghost before = strings_view(out@);
        out.push(c);
        assert(strings_view(out@) =~= before.push(c@));
        assert(with_suffixes(base@, str_views(suffixes@)).take(i + 1) =~= with_suffixes(base@, str_views(suffixes@)).take(
            i as int).push(base@ + suffixes@[i as int]@));
        i += 1;
    }
    assert(with_suffixes(base@, str_views(suffixes@)).take(suffixes.len() as int) =~= with_suffixes(base@, str_views(suffixes@)));
}

/// The confidence of an exact match: 95 %, a named import of an exact export.
pub open spec fn exact_score() -> ConfidenceScore {
    score_spec(95, ResolutionMethod::NamedImportExactExport)
}

/// The confidence of a match by path: 60 %.
pub open spec fn path_score() -> ConfidenceScore {
    score_spec(60, ResolutionMethod::PathMatchOnly)
}

/// The confidence of a match by name within the project: 40 %.
pub open spec fn project_score() -> ConfidenceScore {
    score_spec(40, ResolutionMethod::NameMatchSameProject)
}

pub open spec fn scored(c: Option<Seq<char>>, score: ConfidenceScore) -> Option<(Seq<char>, ConfidenceScore)> {
    match c {
        Some(p) => Some((p, score)),
        None => None,
    }
}

fn scored_path(c: Option<String>, score: ConfidenceScore) -> (r: Option<(String, ConfidenceScore)>)
    ensures
        match r {
            Some(x) => c is Some && x.0@ == c->0@ && x.1 == score,
            None => c is None,
        },
{
    match c {
        Some(p) => Some((p, score)),
        None => None,
    }
}

pub open spec fn view_pair(r: Option<(String, ConfidenceScore)>) -> Option<(Seq<char>, ConfidenceScore)> {
    match r {
        Some(x) => Some((x.0@, x.1)),
        None => None,
    }
}

// ── Rust ───────────────────────────────────────────────────────────────

/// The files a `use` path's segments may name under `base`, in the order
/// they are tried: the whole path as a file, then as a module directory;
/// without its last segment (an item name) likewise; then the last segment
/// alone. A trailing `*` is dropped first.
pub open spec fn rust_candidates(segs: Seq<Seq<char>>, base: Seq<char>) -> Seq<Seq<char>> {
    let s = if segs.len() > 0 && segs.last() == "*"@ { segs.drop_last() } else { segs };
    let path = join_slash(s);
    let whole = seq![base + "/"@ + path + ".rs"@, base + "/"@ + path + "/mod.rs"@];
    let module = if s.len() > 1 {
        let mp = join_slash(s.drop_last());
        seq![base + "/"@ + mp + ".rs"@, base + "/"@ + mp + "/mod.rs"@]
    } else {
        Seq::empty()
    };
    let last = if s.len() > 0 { seq![base + "/"@ + s.last() + ".rs"@] } else { Seq::empty() };
    whole + module + last
}

/// The file `use` segments resolve to under `base`, cleaned.
pub open spec fn rust_segments_spec(segs: Seq<Seq<char>>, base: Seq<char>, files: Seq<Seq<char>>) -> Option<Seq<char>> {
    if segs.len() == 0 {
        None
    } else {
        match first_in(files, rust_candidates(segs, base)) {
            Some(c) => Some(clean_spec(c)),
            None => None,
        }
    }
}

fn rust_segments(segs: &Vec<String>, base: &str, files: &Vec<String>) -> (r: Option<String>)
    ensures
        match r {
            Some(p) => rust_segments_spec(strings_view(segs@), base@, strings_view(files@)) == Some(p@),
            None => rust_segments_spec(strings_view(segs@), base@, strings_view(files@)) is None,
        },
{
    proof {
        reveal_strlit("*");
    }
    let ghost sv = strings_view(segs@);
    if segs.len() == 0 {
        return None;
    }
    let mut s: Vec<String> = Vec::new();
    let keep_all = !str_eq(segs[segs.len() - 1].as_str(), "*");
    let n = if keep_all { segs.len() } else { segs.len() - 1 };
    let mut i: usize = 0;
    while i < n
        invariant
            n <= segs.len(),
            i <= n,
            sv == strings_view(segs@),
            strings_view(s@) == sv.take(i as int),
        decreases n - i,
    {
        let piece = owned(segs[i].as_str());
        let ghost before = strings_view(s@);
        s.push(piece);
        assert(strings_view(s@) =~= before.push(piece@));
        assert(sv.take(i + 1) =~= sv.take(i as int).push(sv[i as int]));
        i += 1;
    }
    let ghost sx = if sv.len() > 0 && sv.last() == "*"@ { sv.drop_last() } else { sv };
    assert(strings_view(s@) =~= sx);
    let path = join_with_slash(&s);
    let mut cands: Vec<String> = Vec::new();
    let pre = concat3(base, "/", path.as_str());
    cands.push(concat2(pre.as_str(), ".rs"));
    cands.push(concat2(pre.as_str(), "/mod.rs"));
    let ghost whole = seq![base@ + "/"@ + join_slash(sx) + ".rs"@, base@ + "/"@ + join_slash(sx) + "/mod.rs"@];
    assert(strings_view(cands@) =~= whole);
    let ghost module: Seq<Seq<char>> = if sx.len() > 1 {
        seq![base@ + "/"@ + join_slash(sx.drop_last()) + ".rs"@, base@ + "/"@ + join_slash(sx.drop_last()) + "/mod.rs"@]
    } else {
        Seq::empty()
    };
    if s.len() > 1 {
        let mut head: Vec<String> = Vec::new();
        let mut k: usize = 0;
        while k < s.len() - 1
            invariant
                s.len() > 1,
                k <= s.len() - 1,
                strings_view(head@) == strings_view(s@).take(k as int),
            decreases s.len() - 1 - k,
        {
            let piece = owned(s[k].as_str());
            let ghost before = strings_view(head@);
            head.push(piece);
            assert(strings_view(head@) =~= before.push(piece@));
            assert(strings_view(s@).take(k + 1) =~= strings_view(s@).take(k as int).push(strings_view(s@)[k as int]));
            k += 1;
        }
        assert(strings_view(head@) =~= sx.drop_last());
        let mp = join_with_slash(&head);
        let pre2 = concat3(base, "/", mp.as_str());
        cands.push(concat2(pre2.as_str(), ".rs"));
        cands.push(concat2(pre2.as_str(), "/mod.rs"));
    }
    assert(strings_view(cands@) =~= whole + module);
    let ghost last: Seq<Seq<char>> = if sx.len() > 0 { seq![base@ + "/"@ + sx.last() + ".rs"@] } else { Seq::empty() };
    if s.len() > 0 {
        let tail = concat2(s[s.len() - 1].as_str(), ".rs");
        let c = concat3(base, "/", tail.as_str());
        assert(strings_view(s@).last() == sx.last());
        assert(c@ =~= base@ + "/"@ + sx.last() + ".rs"@);
        let ghost before = strings_view(cands@);
        cands.push(c);
        assert(strings_view(cands@) =~= before.push(c@));
    }
    assert(strings_view(cands@) =~= whole + module + last);
    assert(strings_view(cands@) =~= rust_candidates(sv, base@));
    match first_present(files, &cands) {
        Some(c) => Some(clean_path(c.as_str())),
        None => None,
    }
}

/// Where a Rust `use` path resolves: `crate::` paths under `src`, `super::`
/// and `self::` paths under the importing file's directory (exactly, 95 %),
/// then a bare path of several segments under `src` (by path, 60 %).
pub open spec fn resolve_rust_spec(source: Seq<char>, file: Seq<char>, files: Seq<Seq<char>>) -> Option<(Seq<char>, ConfidenceScore)> {
    let p = trim(source);
    let by_crate = if is_prefix("crate::"@, p) {
        rust_segments_spec(split_pieces(p.skip(7), "::"@), "src"@, files)
    } else {
        None
    };
    let by_super = if is_prefix("super::"@, p) {
        rust_segments_spec(split_pieces(p.skip(7), "::"@), dir_of(file), files)
    } else {
        None
    };
    let by_self = if is_prefix("self::"@, p) {
        rust_segments_spec(split_pieces(p.skip(6), "::"@), dir_of(file), files)
    } else {
        None
    };
    let segs = split_pieces(p, "::"@);
    if by_crate is Some {
        scored(by_crate, exact_score())
    } else if by_super is Some {
        scored(by_super, exact_score())
    } else if by_self is Some {
        scored(by_self, exact_score())
    } else if segs.len() > 1 {
        scored(rust_segments_spec(segs, "src"@, files), path_score())
    } else {
        None
    }
}

fn rest_after(t: &str, prefix: &str) -> (r: Option<String>)
    ensures
        match r {
            Some(x) => is_prefix(prefix@, t@) && x@ == t@.skip(prefix@.len() as int),
            None => !is_prefix(prefix@, t@),
        },
{
    if !starts_with(t, prefix) {
        return None;
    }
    let v = chars_of(t);
    let n = chars_of(prefix).len();
    assert(v@.skip(n as int) =~= v@.subrange(n as int, v.len() as int));
    Some(string_from(&v, n, v.len()))
}

pub fn resolve_rust(source: &str, file: &str, files: &Vec<String>) -> (r: Option<(String, ConfidenceScore)>)
    ensures
        view_pair(r) == resolve_rust_spec(source@, file@, strings_view(files@)),
{
    proof {
        reveal_strlit("crate::");
        reveal_strlit("super::");
        reveal_strlit("self::");
        reveal_strlit("::");
        reveal_strlit("src");
    }
    let p = trimmed(source);

    if let Some(rest) = rest_after(p.as_str(), "crate::") {
        let segs = split_on(rest.as_str(), "::");
        if let Some(found) = rust_segments(&segs, "src", files) {
            return Some((found, ConfidenceScore::named_import_exact()));
        }
    }
    let dir = dir_of_path(file);
    if let Some(rest) = rest_after(p.as_str(), "super::") {
        let segs = split_on(rest.as_str(), "::");
        if let Some(found) = rust_segments(&segs, dir.as_str(), files) {
            return Some((found, ConfidenceScore::named_import_exact()));
        }
    }
    if let Some(rest) = rest_after(p.as_str(), "self::") {
        let segs = split_on(rest.as_str(), "::");
        if let Some(found) = rust_segments(&segs, dir.as_str(), files) {
            return Some((found, ConfidenceScore::named_import_exact()));
        }
    }
    let segs = split_on(p.as_str(), "::");
    if segs.len() > 1 {
        return scored_path(rust_segments(&segs, "src", files), ConfidenceScore::path_match_only());
    }
    None
}


// ── TypeScript and JavaScript ──────────────────────────────────────────

pub open spec fn ts_exts() -> Seq<Seq<char>> {
    seq![".ts"@, ".tsx"@, ".js"@, ".jsx"@, ".mts"@, ".cts"@]
}

pub open spec fn ts_short_exts() -> Seq<Seq<char>> {
    seq![".ts"@, ".tsx"@, ".js"@, ".jsx"@]
}

/// `c` under `src/`, under `lib/`, then as it is.
pub open spec fn under_dirs(c: Seq<char>) -> Seq<Seq<char>> {
    seq!["src/"@ + c, "lib/"@ + c, c]
}

/// The files a bare module's last segment may name, extension by extension
/// (each written after a `.` of its own), in `src/`, `lib/` and at the root.
pub open spec fn stem_candidates(stem: Seq<char>) -> Seq<Seq<char>> {
    under_dirs(stem + "."@ + ".ts"@) + under_dirs(stem + "."@ + ".tsx"@) + under_dirs(stem + "."@ + ".js"@)
        + under_dirs(stem + "."@ + ".jsx"@)
}

/// Where a TypeScript import resolves. The source, without whitespace and
/// quotes: an `@/` alias names `src/` (with an extension, or an index file:
/// exact); a relative path names a file beside the importer (likewise, and
/// nothing else is tried); a bare module is looked for by its last segment
/// and then as a path (by path).
pub open spec fn resolve_ts_spec(source: Seq<char>, file: Seq<char>, files: Seq<Seq<char>>) -> Option<(Seq<char>, ConfidenceScore)> {
    let src = unquote(trim(source));
    let by_alias = if is_prefix("@/"@, src) {
        let rest = src.skip(2);
        first_in(files, with_suffixes("src/"@ + rest, ts_exts()) + with_suffixes("src/"@ + rest + "/index"@, ts_exts()))
    } else {
        None
    };
    if by_alias is Some {
        scored(by_alias, exact_score())
    } else if is_prefix("."@, src) {
        let base = clean_spec(join_spec(dir_of(file), src));
        scored(first_in(files, with_suffixes(base, ts_exts()) + with_suffixes(base + "/index"@, ts_exts())), exact_score())
    } else {
        let by_stem = first_in(files, stem_candidates(after_last(src, '/')));
        if by_stem is Some {
            scored(by_stem, path_score())
        } else {
            scored(first_in(files, with_suffixes(src, ts_short_exts())), path_score())
        }
    }
}

fn push_under_dirs(out: &mut Vec<String>, c: &str)
    ensures
        strings_view(final(out)@) == strings_view(old(out)@) + under_dirs(c@),
{
    let ghost before = strings_view(out@);
    out.push(concat2("src/", c));
    out.push(concat2("lib/", c));
    out.push(owned(c));
    assert(strings_view(out@) =~= before + under_dirs(c@));
}

fn ext_list() -> (v: Vec<&'static str>)
    ensures
        str_views(v@) == ts_exts(),
{
    let v = vec![".ts", ".tsx", ".js", ".jsx", ".mts", ".cts"];
    assert(str_views(v@) =~= ts_exts());
    v
}

fn short_ext_list() -> (v: Vec<&'static str>)
    ensures
        str_views(v@) == ts_short_exts(),
{
    let v = vec![".ts", ".tsx", ".js", ".jsx"];
    assert(str_views(v@) =~= ts_short_exts());
    v
}

pub fn resolve_ts(source: &str, file: &str, files: &Vec<String>) -> (r: Option<(String, ConfidenceScore)>)
    ensures
        view_pair(r) == resolve_ts_spec(source@, file@, strings_view(files@)),
{
    proof {
        reveal_strlit("@/");
        reveal_strlit(".");
    }
    let t = trimmed(source);
    let src = unquoted(t.as_str());
    let exts = ext_list();
    if let Some(rest) = rest_after(src.as_str(), "@/") {
        let mut cands: Vec<String> = Vec::new();
        let a = concat2("src/", rest.as_str());
        push_with_suffixes(&mut cands, a.as_str(), &exts);
        let b = concat3("src/", rest.as_str(), "/index");
        push_with_suffixes(&mut cands, b.as_str(), &exts);
        assert(strings_view(cands@) =~= with_suffixes("src/"@ + rest@, ts_exts()) + with_suffixes("src/"@ + rest@ + "/index"@, ts_exts()));
        if let Some(found) = first_present(files, &cands) {
            return Some((found, ConfidenceScore::named_import_exact()));
        }
    }
    if starts_with(src.as_str(), ".") {
        let dir = dir_of_path(file);
        let joined = join(dir.as_str(), src.as_str());
        let base = clean_path(joined.as_str());
        let mut cands: Vec<String> = Vec::new();
        push_with_suffixes(&mut cands, base.as_str(), &exts);
        let idx = concat2(base.as_str(), "/index");
        push_with_suffixes(&mut cands, idx.as_str(), &exts);
        return scored_path(first_present(files, &cands), ConfidenceScore::named_import_exact());
    }
    let stem = after_last_of(src.as_str(), '/');
    let mut cands: Vec<String> = Vec::new();
    let s1 = concat3(stem.as_str(), ".", ".ts");
    push_under_dirs(&mut cands, s1.as_str());
    let s2 = concat3(stem.as_str(), ".", ".tsx");
    push_under_dirs(&mut cands, s2.as_str());
    let s3 = concat3(stem.as_str(), ".", ".js");
    push_under_dirs(&mut cands, s3.as_str());
    let s4 = concat3(stem.as_str(), ".", ".jsx");
    push_under_dirs(&mut cands, s4.as_str());
    assert(strings_view(cands@) =~= stem_candidates(stem@));
    if let Some(found) = first_present(files, &cands) {
        return Some((found, ConfidenceScore::path_match_only()));
    }
    let short = short_ext_list();
    let mut direct: Vec<String> = Vec::new();
    push_with_suffixes(&mut direct, src.as_str(), &short);
    assert(strings_view(direct@) =~= with_suffixes(src@, ts_short_exts()));
    scored_path(first_present(files, &direct), ConfidenceScore::path_match_only())
}


// ── Python ─────────────────────────────────────────────────────────────

/// The number of leading `c`s.
pub open spec fn lead_count(s: Seq<char>, c: char) -> nat
    decreases s.len(),
{
    if s.len() > 0 && s[0] == c {
        1 + lead_count(s.drop_first(), c)
    } else {
        0
    }
}

/// `n` steps up from `base`, each to the directory of the last.
pub open spec fn up_dirs(base: Seq<char>, n: nat) -> Seq<char>
    decreases n,
{
    if n == 0 {
        base
    } else {
        up_dirs(dir_of(base), (n - 1) as nat)
    }
}

/// Where a Python import resolves. A relative module (`.m`, `..m`) names a
/// file or package beside the importer, one directory up for each dot after
/// the first (exact); an absolute module names a file or package at the
/// root or under `src/` (by path).
pub open spec fn resolve_python_spec(source: Seq<char>, file: Seq<char>, files: Seq<Seq<char>>) -> Option<(Seq<char>, ConfidenceScore)> {
    let src = trim(source);
    if is_prefix("."@, src) {
        let dots = lead_count(src, '.');
        let module = replace_char(src.skip(dots as int), '.', '/');
        let base = up_dirs(dir_of(file), (dots - 1) as nat);
        scored(first_in(files, seq![
            clean_spec(join_spec(base, module + ".py"@)),
            clean_spec(join_spec(base, module + "/__init__.py"@)),
        ]), exact_score())
    } else {
        let mp = replace_char(src, '.', '/');
        scored(first_in(files, seq![mp + ".py"@, mp + "/__init__.py"@, "src/"@ + mp + ".py"@, "src/"@ + mp + "/__init__.py"@]),
            path_score())
    }
}

proof fn lemma_lead_count(s: Seq<char>, c: char, i: int)
    requires
        0 <= i <= s.len(),
        forall|k: int| 0 <= k < i ==> s[k] == c,
    ensures
        lead_count(s, c) == i + lead_count(s.skip(i), c),
    decreases i,
{
    if i > 0 {
        lemma_lead_count(s.drop_first(), c, i - 1);
        assert(s.drop_first().skip(i - 1) =~= s.skip(i));
    } else {
        assert(s.skip(0) =~= s);
    }
}

pub fn resolve_python(source: &str, file: &str, files: &Vec<String>) -> (r: Option<(String, ConfidenceScore)>)
    ensures
        view_pair(r) == resolve_python_spec(source@, file@, strings_view(files@)),
{
    proof {
        reveal_strlit(".");
    }
    let src = trimmed(source);
    if starts_with(src.as_str(), ".") {
        let v = chars_of(src.as_str());
        let mut dots: usize = 0;
        while dots < v.len() && v[dots] == '.'
            invariant
                dots <= v.len(),
                forall|k: int| 0 <= k < dots ==> v@[k] == '.',
            decreases v.len() - dots,
        {
            dots += 1;
        }
        proof {
            lemma_lead_count(v@, '.', dots as int);
            assert(v@.skip(dots as int).len() == 0 || v@.skip(dots as int)[0] != '.');
            assert(lead_count(v@.skip(dots as int), '.') == 0);
        }
        let rest = string_from(&v, dots, v.len());
        assert(rest@ =~= v@.skip(dots as int));
        let module = replaced_char(rest.as_str(), '.', '/');
        let mut base = dir_of_path(file);
        let mut k: usize = 1;
        while k < dots
            invariant
                1 <= dots,
                1 <= k <= dots,
                up_dirs(dir_of(file@), (dots - 1) as nat) == up_dirs(base@, (dots - k) as nat),
            decreases dots - k,
        {
            base = dir_of_path(base.as_str());
            k += 1;
        }
        let f1 = concat2(module.as_str(), ".py");
        let f2 = concat2(module.as_str(), "/__init__.py");
        let j1 = join(base.as_str(), f1.as_str());
        let j2 = join(base.as_str(), f2.as_str());
        let mut cands: Vec<String> = Vec::new();
        cands.push(clean_path(j1.as_str()));
        cands.push(clean_path(j2.as_str()));
        assert(strings_view(cands@) =~= seq![
            clean_spec(join_spec(base@, module@ + ".py"@)),
            clean_spec(join_spec(base@, module@ + "/__init__.py"@)),
        ]);
        return scored_path(first_present(files, &cands), ConfidenceScore::named_import_exact());
    }
    let mp = replaced_char(src.as_str(), '.', '/');
    let mut cands: Vec<String> = Vec::new();
    cands.push(concat2(mp.as_str(), ".py"));
    cands.push(concat2(mp.as_str(), "/__init__.py"));
    cands.push(concat3("src/", mp.as_str(), ".py"));
    cands.push(concat3("src/", mp.as_str(), "/__init__.py"));
    assert(strings_view(cands@) =~= seq![mp@ + ".py"@, mp@ + "/__init__.py"@, "src/"@ + mp@ + ".py"@, "src/"@ + mp@ + "/__init__.py"@]);
    scored_path(first_present(files, &cands), ConfidenceScore::path_match_only())
}

// ── Go ─────────────────────────────────────────────────────────────────

/// A Go file directly in `dir` (the two compared cleaned).
pub open spec fn go_in_dir(f: Seq<char>, dir: Seq<char>) -> bool {
    (match path_parent(f) {
        Some(p) => clean_spec(p) == clean_spec(dir),
        None => false,
    }) && is_suffix(".go"@, f)
}

/// The name of a file's directory; empty where it has none.
pub open spec fn parent_name(f: Seq<char>) -> Seq<char> {
    match path_parent(f) {
        Some(p) => match file_name_spec(p) {
            Some(n) => n,
            None => Seq::empty(),
        },
        None => Seq::empty(),
    }
}

pub open spec fn first_go_in_dir(files: Seq<Seq<char>>, dir: Seq<char>) -> Option<Seq<char>>
    decreases files.len(),
{
    if files.len() == 0 {
        None
    } else if go_in_dir(files[0], dir) {
        Some(files[0])
    } else {
        first_go_in_dir(files.drop_first(), dir)
    }
}

pub open spec fn first_go_named(files: Seq<Seq<char>>, name: Seq<char>) -> Option<Seq<char>>
    decreases files.len(),
{
    if files.len() == 0 {
        None
    } else if is_suffix(".go"@, files[0]) && parent_name(files[0]) == name {
        Some(files[0])
    } else {
        first_go_named(files.drop_first(), name)
    }
}

/// Where a Go import resolves, taking the project's files in order (the
/// first that fits). A relative path (`./pkg`, its leading dots and
/// slashes dropped) names a Go file in that directory beside the importer
/// (exact); a module path names a Go file in a directory named as its last
/// segment (by name, 40 %).
pub open spec fn resolve_go_spec(source: Seq<char>, file: Seq<char>, files: Seq<Seq<char>>) -> Option<(Seq<char>, ConfidenceScore)> {
    let src = crate::query_facts::trim_char(trim(source), '"');
    if is_prefix("."@, src) {
        let pkg = trim_start_in(trim_start_in(src, seq!['.']), seq!['/']);
        scored(first_go_in_dir(files, join_spec(dir_of(file), pkg)), exact_score())
    } else {
        scored(first_go_named(files, after_last(src, '/')), project_score())
    }
}

fn parent_name_of(f: &str) -> (r: String)
    ensures
        r@ == parent_name(f@),
{
    match parent_of(f) {
        Some(p) => match file_name(p.as_str()) {
            Some(n) => n,
            None => String::new(),
        },
        None => String::new(),
    }
}

#[verifier::loop_isolation(false)]
pub fn resolve_go(source: &str, file: &str, files: &Vec<String>) -> (r: Option<(String, ConfidenceScore)>)
    ensures
        view_pair(r) == resolve_go_spec(source@, file@, strings_view(files@)),
{
    proof {
        reveal_strlit(".");
    }
    let t = trimmed(source);
    let src = crate::query_facts::trimmed_char(t.as_str(), '"');
    let ghost fs = strings_view(files@);
    if starts_with(src.as_str(), ".") {
        let v = chars_of(src.as_str());
        let dot = vec!['.'];
        let slash = vec!['/'];
        assert(v@.subrange(0, v.len() as int) =~= v@);
        let a = trim_start_set(&v, 0, v.len(), &dot);
        let b = trim_start_set(&v, a, v.len(), &slash);
        assert(dot@ == seq!['.']);
        assert(slash@ == seq!['/']);
        let pkg = string_from(&v, b, v.len());
        let dir = join(dir_of_path(file).as_str(), pkg.as_str());
        let target = clean_path(dir.as_str());
        let mut i: usize = 0;
        assert(fs.skip(0) =~= fs);
        while i < files.len()
            invariant
                i <= files.len(),
                fs == strings_view(files@),
                target@ == clean_spec(dir@),
                first_go_in_dir(fs, dir@) == first_go_in_dir(fs.skip(i as int), dir@),
            decreases files.len() - i,
        {
            assert(fs.skip(i as int)[0] == fs[i as int]);
            assert(fs.skip(i as int).drop_first() =~= fs.skip(i + 1));
            let f = files[i].as_str();
            let here = match parent_of(f) {
                Some(p) => str_eq(clean_path(p.as_str()).as_str(), target.as_str()),
                None => false,
            };
            if here && ends_with(f, ".go") {
                return Some((owned(f), ConfidenceScore::named_import_exact()));
            }
            i += 1;
        }
        assert(fs.skip(i as int) =~= Seq::<Seq<char>>::empty());
        return None;
    }
    let last = after_last_of(src.as_str(), '/');
    let mut i: usize = 0;
    assert(fs.skip(0) =~= fs);
    while i < files.len()
        invariant
            i <= files.len(),
            fs == strings_view(files@),
            first_go_named(fs, last@) == first_go_named(fs.skip(i as int), last@),
        decreases files.len() - i,
    {
        assert(fs.skip(i as int)[0] == fs[i as int]);
        assert(fs.skip(i as int).drop_first() =~= fs.skip(i + 1));
        let f = files[i].as_str();
        if ends_with(f, ".go") && str_eq(parent_name_of(f).as_str(), last.as_str()) {
            return Some((owned(f), ConfidenceScore::same_project()));
        }
        i += 1;
    }
    assert(fs.skip(i as int) =~= Seq::<Seq<char>>::empty());
    None
}


// ── C and C++ ──────────────────────────────────────────────────────────

/// A header's extension: `.h`, `.hpp` or `.hxx`.
pub open spec fn is_header(p: Seq<char>) -> bool {
    is_suffix(".h"@, p) || is_suffix(".hpp"@, p) || is_suffix(".hxx"@, p)
}

fn header(p: &str) -> (b: bool)
    ensures
        b == is_header(p@),
{
    ends_with(p, ".h") || ends_with(p, ".hpp") || ends_with(p, ".hxx")
}

/// The files whose stem is `stem`, in order.
pub open spec fn stem_matches(files: Seq<Seq<char>>, stem: Seq<char>) -> Seq<Seq<char>>
    decreases files.len(),
{
    if files.len() == 0 {
        Seq::empty()
    } else {
        let prev = stem_matches(files.drop_last(), stem);
        if stem_spec(files.last()) == stem { prev.push(files.last()) } else { prev }
    }
}

/// The first of the files that is a header exactly when `want` says so.
pub open spec fn first_header_like(ms: Seq<Seq<char>>, want: bool) -> Option<Seq<char>>
    decreases ms.len(),
{
    if ms.len() == 0 {
        None
    } else if is_header(ms[0]) == want {
        Some(ms[0])
    } else {
        first_header_like(ms.drop_first(), want)
    }
}

/// Where a C or C++ `#include` resolves. An angle-bracket include is a
/// system header and resolves nowhere. A quoted path, cleaned, resolves as
/// it is, or beside the including file (exact); else to a file of the same
/// stem, preferring one that is a header exactly when the include is (by
/// path).
pub open spec fn resolve_c_spec(source: Seq<char>, file: Seq<char>, files: Seq<Seq<char>>) -> Option<(Seq<char>, ConfidenceScore)> {
    let raw = trim(source);
    let p = unquote(raw);
    let n = clean_spec(p);
    let rel = clean_spec(join_spec(dir_of(file), n));
    let stem = stem_spec(n);
    let ms = stem_matches(files, stem);
    if is_prefix("<"@, raw) && is_suffix(">"@, raw) {
        None
    } else if p.len() == 0 || is_prefix("<"@, p) {
        None
    } else if files.contains(n) {
        Some((n, exact_score()))
    } else if files.contains(rel) {
        Some((rel, exact_score()))
    } else if stem.len() > 0 && ms.len() > 0 {
        match first_header_like(ms, is_header(n)) {
            Some(m) => Some((m, path_score())),
            None => Some((ms[0], path_score())),
        }
    } else {
        None
    }
}

#[verifier::loop_isolation(false)]
pub fn resolve_c_cpp(source: &str, file: &str, files: &Vec<String>) -> (r: Option<(String, ConfidenceScore)>)
    ensures
        view_pair(r) == resolve_c_spec(source@, file@, strings_view(files@)),
{
    let raw = trimmed(source);
    if starts_with(raw.as_str(), "<") && ends_with(raw.as_str(), ">") {
        return None;
    }
    let p = unquoted(raw.as_str());
    if p.as_str().is_empty() || starts_with(p.as_str(), "<") {
        return None;
    }
    let n = clean_path(p.as_str());
    if has_file(files, n.as_str()) {
        return Some((n, ConfidenceScore::named_import_exact()));
    }
    let joined = join(dir_of_path(file).as_str(), n.as_str());
    let rel = clean_path(joined.as_str());
    if has_file(files, rel.as_str()) {
        return Some((rel, ConfidenceScore::named_import_exact()));
    }
    let stem = file_stem(n.as_str());
    if stem.as_str().is_empty() {
        return None;
    }
    let ghost fs = strings_view(files@);
    let mut ms: Vec<String> = Vec::new();
    let mut i: usize = 0;
    assert(fs.take(0) =~= Seq::<Seq<char>>::empty());
    assert(strings_view(ms@) =~= Seq::<Seq<char>>::empty());
    while i < files.len()
        invariant
            i <= files.len(),
            fs == strings_view(files@),
            strings_view(ms@) == stem_matches(fs.take(i as int), stem@),
        decreases files.len() - i,
    {
        assert(fs.take(i + 1).drop_last() =~= fs.take(i as int));
        if str_eq(file_stem(files[i].as_str()).as_str(), stem.as_str()) {
            let ghost before = strings_view(ms@);
            ms.push(owned(files[i].as_str()));
            assert(strings_view(ms@) =~= before.push(fs[i as int]));
        }
        i += 1;
    }
    assert(fs.take(files.len() as int) =~= fs);
    if ms.len() == 0 {
        return None;
    }
    let want = header(n.as_str());
    let ghost mv = strings_view(ms@);
    let mut k: usize = 0;
    assert(mv.skip(0) =~= mv);
    while k < ms.len()
        invariant
            k <= ms.len(),
            mv == strings_view(ms@),
            first_header_like(mv, want) == first_header_like(mv.skip(k as int), want),
        decreases ms.len() - k,
    {
        assert(mv.skip(k as int)[0] == mv[k as int]);
        assert(mv.skip(k as int).drop_first() =~= mv.skip(k + 1));
        if header(ms[k].as_str()) == want {
            return Some((owned(ms[k].as_str()), ConfidenceScore::path_match_only()));
        }
        k += 1;
    }
    assert(mv.skip(k as int) =~= Seq::<Seq<char>>::empty());
    Some((owned(ms[0].as_str()), ConfidenceScore::path_match_only()))
}

// ── Imports ────────────────────────────────────────────────────────────

/// Where an import of the given language resolves; imports of other
/// languages resolve nowhere.
pub open spec fn resolve_spec(language: Seq<char>, source: Seq<char>, file: Seq<char>, files: Seq<Seq<char>>) -> Option<(Seq<char>, ConfidenceScore)> {
    if language == "rust"@ {
        resolve_rust_spec(source, file, files)
    } else if language == "typescript"@ || language == "javascript"@ {
        resolve_ts_spec(source, file, files)
    } else if language == "python"@ {
        resolve_python_spec(source, file, files)
    } else if language == "go"@ {
        resolve_go_spec(source, file, files)
    } else if language == "c"@ || language == "cpp"@ {
        resolve_c_spec(source, file, files)
    } else {
        None
    }
}

pub fn resolve_one(language: &str, source: &str, file: &str, files: &Vec<String>) -> (r: Option<(String, ConfidenceScore)>)
    ensures
        view_pair(r) == resolve_spec(language@, source@, file@, strings_view(files@)),
{
    if str_eq(language, "rust") {
        resolve_rust(source, file, files)
    } else if str_eq(language, "typescript") || str_eq(language, "javascript") {
        resolve_ts(source, file, files)
    } else if str_eq(language, "python") {
        resolve_python(source, file, files)
    } else if str_eq(language, "go") {
        resolve_go(source, file, files)
    } else if str_eq(language, "c") || str_eq(language, "cpp") {
        resolve_c_cpp(source, file, files)
    } else {
        None
    }
}

/// An import after resolution against the project's files: a resolution
/// whose file is still there stays; one whose file is gone is cleared (to
/// unresolved); then an unresolved import takes the file its source
/// resolves to, if any, with its confidence.
pub open spec fn resolved_import(imp: ImportView, files: Seq<Seq<char>>) -> ImportView {
    let still = match imp.resolved_file {
        Some(f) => files.contains(f),
        None => false,
    };
    if still {
        imp
    } else {
        let cleared = ImportView {
            resolved_file: None,
            confidence: if imp.resolved_file is Some { crate::codemap::unresolved_score() } else { imp.confidence },
            ..imp
        };
        match resolve_spec(imp.language, imp.source, imp.file, files) {
            Some((p, c)) => ImportView { resolved_file: Some(p), confidence: c, ..cleared },
            None => cleared,
        }
    }
}

fn copy_opt(o: &Option<String>) -> (r: Option<String>)
    ensures
        crate::codemap::opt_str_view(r) == crate::codemap::opt_str_view(*o),
{
    match o {
        Some(s) => Some(owned(s.as_str())),
        None => None,
    }
}

/// Resolve each import's source to a project file, in place: a resolution
/// whose file is still among `file_nodes` is kept, a stale one is cleared,
/// and an unresolved import takes the file its source names.
pub fn resolve_imports(imports: &mut Vec<ImportFact>, file_nodes: &Vec<FileNode>)
    ensures
        final(imports)@.len() == old(imports)@.len(),
        forall|i: int| 0 <= i < old(imports)@.len() ==> #[trigger] final(imports)@[i]@ == resolved_import(
            old(imports)@[i]@,
            crate::codemap::paths_of(file_nodes@),
        ),
{
    let mut files: Vec<String> = Vec::new();
    let mut j: usize = 0;
    while j < file_nodes.len()
        invariant
            j <= file_nodes.len(),
            strings_view(files@) == crate::codemap::paths_of(file_nodes@).take(j as int),
        decreases file_nodes.len() - j,
    {
        let p = owned(file_nodes[j].path.as_str());
        let ghost before = strings_view(files@);
        files.push(p);
        assert(strings_view(files@) =~= before.push(p@));
        assert(crate::codemap::paths_of(file_nodes@).take(j + 1) =~= crate::codemap::paths_of(file_nodes@).take(j as int).push(
            file_nodes@[j as int].path@));
        j += 1;
    }
    assert(crate::codemap::paths_of(file_nodes@).take(file_nodes.len() as int) =~= crate::codemap::paths_of(file_nodes@));
    let ghost fs = strings_view(files@);
    let ghost original = imports@;
    let mut i: usize = 0;
    while i < imports.len()
        invariant
            i <= imports.len(),
            imports@.len() == original.len(),
            fs == strings_view(files@),
            fs == crate::codemap::paths_of(file_nodes@),
            forall|k: int| 0 <= k < i ==> #[trigger] imports@[k]@ == resolved_import(original[k]@, fs),
            forall|k: int| i <= k < imports@.len() ==> #[trigger] imports@[k] == original[k],
        decreases imports.len() - i,
    {
        let imp = &imports[i];
        let still = match &imp.resolved_file {
            Some(f) => has_file(&files, f.as_str()),
            None => false,
        };
        if !still {
            let had = imp.resolved_file.is_some();
            let outcome = resolve_one(imp.language.as_str(), imp.source.as_str(), imp.file.as_str(), &files);
            let (resolved_file, confidence) = match outcome {
                Some((p, c)) => (Some(p), c),
                None => (None, if had { ConfidenceScore::unresolved() } else { imp.confidence }),
            };
            let updated = ImportFact {
                id: owned(imp.id.as_str()),
                file: owned(imp.file.as_str()),
                language: owned(imp.language.as_str()),
                kind: imp.kind,
                source: owned(imp.source.as_str()),
                local_name: copy_opt(&imp.local_name),
                imported_name: copy_opt(&imp.imported_name),
                resolved_file,
                line: imp.line,
                confidence,
            };
            assert(updated@ == resolved_import(original[i as int]@, fs));
            imports.set(i, updated);
        }
        i += 1;
    }
}

/// The first candidate present among `a + b`, where no candidate of `a` is
/// present, is the first present among `b`.
proof fn lemma_first_in_skips_absent(files: Seq<Seq<char>>, a: Seq<Seq<char>>, b: Seq<Seq<char>>)
    requires
        forall|k: int| 0 <= k < a.len() ==> !files.contains(#[trigger] a[k]),
    ensures
        first_in(files, a + b) == first_in(files, b),
    decreases a.len(),
{
    if a.len() > 0 {
        assert((a + b)[0] == a[0]);
        assert((a + b).drop_first() =~= a.drop_first() + b);
        assert forall|k: int| 0 <= k < a.drop_first().len() implies !files.contains(#[trigger] a.drop_first()[k]) by {
            assert(a.drop_first()[k] == a[k + 1]);
        }
        lemma_first_in_skips_absent(files, a.drop_first(), b);
    } else {
        assert(a + b =~= b);
    }
}

/// A relative TypeScript import names a file beside the importer, or else a
/// directory: where no file `base` plus a script extension exists (`base`
/// being the import joined to the importer's directory), but `base/index.ts`
/// does, the import resolves to that index file with the exact score.
pub proof fn lemma_ts_directory_import_resolves_to_index(source: Seq<char>, file: Seq<char>, files: Seq<Seq<char>>)
    requires
        is_prefix("."@, unquote(trim(source))),
        forall|k: int|
            0 <= k < ts_exts().len() ==> !files.contains(
                clean_spec(join_spec(dir_of(file), unquote(trim(source)))) + #[trigger] ts_exts()[k],
            ),
        files.contains(clean_spec(join_spec(dir_of(file), unquote(trim(source)))) + "/index"@ + ".ts"@),
    ensures
        resolve_ts_spec(source, file, files) == Some(
            (clean_spec(join_spec(dir_of(file), unquote(trim(source)))) + "/index"@ + ".ts"@, exact_score()),
        ),
{
    reveal_strlit(".");
    reveal_strlit("@/");
    let src = unquote(trim(source));
    let base = clean_spec(join_spec(dir_of(file), src));
    assert(src.subrange(0, 1) == "."@);
    assert(src.subrange(0, 1)[0] == src[0]);
    assert("."@[0] == '.');
    assert(src[0] == '.');
    if is_prefix("@/"@, src) {
        assert(src.subrange(0, 2)[0] == src[0]);
        assert("@/"@[0] == '@');
    }
    assert(!is_prefix("@/"@, src));
    let direct = with_suffixes(base, ts_exts());
    let index = with_suffixes(base + "/index"@, ts_exts());
    assert forall|k: int| 0 <= k < direct.len() implies !files.contains(#[trigger] direct[k]) by {
        assert(direct[k] == base + ts_exts()[k]);
    }
    lemma_first_in_skips_absent(files, direct, index);
    assert(index[0] == base + "/index"@ + ".ts"@);
}

/// A relative TypeScript import that names an existing `.ts` file beside
/// the importer resolves to that file, with the exact score, before any
/// other extension or directory index.
pub proof fn lemma_ts_relative_import_prefers_file(source: Seq<char>, file: Seq<char>, files: Seq<Seq<char>>)
    requires
        is_prefix("."@, unquote(trim(source))),
        files.contains(clean_spec(join_spec(dir_of(file), unquote(trim(source)))) + ".ts"@),
    ensures
        resolve_ts_spec(source, file, files) == Some(
            (clean_spec(join_spec(dir_of(file), unquote(trim(source)))) + ".ts"@, exact_score()),
        ),
{
    reveal_strlit(".");
    reveal_strlit("@/");
    let src = unquote(trim(source));
    let base = clean_spec(join_spec(dir_of(file), src));
    assert(src.subrange(0, 1) == "."@);
    assert(src.subrange(0, 1)[0] == src[0]);
    assert("."@[0] == '.');
    if is_prefix("@/"@, src) {
        assert(src.subrange(0, 2)[0] == src[0]);
        assert("@/"@[0] == '@');
    }
    let cands = with_suffixes(base, ts_exts()) + with_suffixes(base + "/index"@, ts_exts());
    assert(cands[0] == base + ".ts"@);
}

} // verus!
