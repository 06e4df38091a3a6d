//! Paths as text: their components, file names, extensions, parents and
//! joins, following the rules of Unix paths.
use vstd::prelude::*;
use crate::order::{compare_str, lex_lt, lemma_lex_asymmetric, lemma_lex_irreflexive, lemma_lex_total, lemma_lex_transitive};
use crate::text::{
    chars_of, find_char_from, first_char_from, push_str, str_eq, string_from, string_of, owned,
};

verus! {

// ── Components ─────────────────────────────────────────────────────────

/// A segment between separators that names a component: neither empty
/// (repeated separators) nor `.` (which names the current directory only at
/// the start of a relative path).
pub open spec fn kept_segment(s: Seq<char>) -> bool {
    s.len() > 0 && s != "."@
}

pub open spec fn keep(s: Seq<char>) -> Seq<Seq<char>> {
    if kept_segment(s) {
        seq![s]
    } else {
        Seq::empty()
    }
}

/// The components named by the segments of `p[i..]`.
pub open spec fn segment_components(p: Seq<char>, i: int) -> Seq<Seq<char>>
    decreases p.len() - i,
{
    if i < 0 || i > p.len() {
        Seq::empty()
    } else {
        match first_char_from(p, i, '/') {
            None => keep(p.subrange(i, p.len() as int)),
            Some(j) => if j < i || j >= p.len() {
                Seq::empty()
            } else {
                keep(p.subrange(i, j)) + segment_components(p, j + 1)
            },
        }
    }
}

/// The components of a path: `/` for the root of an absolute path, `.` for
/// a leading current-directory segment, then each named segment (`..`
/// included); repeated separators and inner `.` segments name nothing.
pub open spec fn components(p: Seq<char>) -> Seq<Seq<char>> {
    if p.len() > 0 && p[0] == '/' {
        seq!["/"@] + segment_components(p, 1)
    } else if p == "."@ {
        seq!["."@]
    } else if p.len() >= 2 && p[0] == '.' && p[1] == '/' {
        seq!["."@] + segment_components(p, 2)
    } else {
        segment_components(p, 0)
    }
}

pub open spec fn strings_view(v: Seq<String>) -> Seq<Seq<char>> {
    v.map_values(|s: String| s@)
}

fn push_segment(p: &Vec<char>, lo: usize, hi: usize, out: &mut Vec<String>)
    requires
        lo <= hi <= p.len(),
    ensures
        strings_view(final(out)@) == strings_view(old(out)@) + keep(p@.subrange(lo as int, hi as int)),
{
    proof {
        reveal_strlit(".");
    }
    assert("."@.len() == 1 && "."@[0] == '.');
    let ghost before = out@;
    let seg = string_from(p, lo, hi);
    if hi > lo && !(hi - lo == 1 && p[lo] == '.') {
        assert(seg@ != "."@) by {
            if seg@ == "."@ {
                assert(seg@[0] == p@[lo as int]);
            }
        }
        out.push(seg);
        assert(strings_view(out@) =~= strings_view(before).push(seg@));
    } else {
        if hi - lo == 1 {
            assert(seg@ =~= "."@);
        }
        assert(strings_view(out@) =~= strings_view(before) + Seq::<Seq<char>>::empty());
    }
}

/// The components of a path.
pub fn path_components(path: &str) -> (r: Vec<String>)
    ensures
        strings_view(r@) == components(path@),
{
    proof {
        reveal_strlit("/");
        reveal_strlit(".");
    }
    let p = chars_of(path);
    let mut out: Vec<String> = Vec::new();
    let mut i: usize = 0;
    if p.len() > 0 && p[0] == '/' {
        out.push(owned("/"));
        i = 1;
    } else if p.len() == 1 && p[0] == '.' {
        out.push(owned("."));
        assert(p@ =~= "."@);
        assert(strings_view(out@) =~= seq!["."@]);
        return out;
    } else if p.len() >= 2 && p[0] == '.' && p[1] == '/' {
        out.push(owned("."));
        i = 2;
    }
    let ghost head = strings_view(out@);
    assert(components(p@) == head + segment_components(p@, i as int)) by {
        if !(p.len() > 0 && p[0] == '/') && !(p.len() >= 2 && p[0] == '.' && p[1] == '/') {
            assert(head =~= Seq::<Seq<char>>::empty());
            if p@ == "."@ {
                assert(p@.len() == 1);
            }
        }
    }
    loop
        invariant
            i <= p.len(),
            p@ == path@,
            components(p@) == strings_view(out@) + segment_components(p@, i as int),
        decreases p.len() - i,
    {
        match find_char_from(&p, i, '/') {
            None => {
                assert(first_char_from(p@, i as int, '/') is None);
                assert(0 <= i <= p@.len());
                assert(segment_components(p@, i as int) == keep(p@.subrange(i as int, p@.len() as int)));
                let ghost before = strings_view(out@);
                push_segment(&p, i, p.len(), &mut out);
                assert(strings_view(out@) =~= before + segment_components(p@, i as int));
                return out;
            },
            Some(j) => {
                let ghost before = strings_view(out@);
                push_segment(&p, i, j, &mut out);
                assert(before + segment_components(p@, i as int) =~= strings_view(out@)
                    + segment_components(p@, j + 1));
                i = j + 1;
            },
        }
    }
}

/// A component that names a file or directory: not the root, `.` or `..`.
pub open spec fn is_normal(c: Seq<char>) -> bool {
    c != "/"@ && c != "."@ && c != ".."@
}

/// The final component of a path when it names a file or directory.
pub open spec fn file_name_spec(p: Seq<char>) -> Option<Seq<char>> {
    let cs = components(p);
    if cs.len() > 0 && is_normal(cs.last()) {
        Some(cs.last())
    } else {
        None
    }
}

/// The file name of a path: its final component, unless that is the root,
/// `.` or `..`.
pub fn file_name(path: &str) -> (r: Option<String>)
    ensures
        match r {
            Some(n) => file_name_spec(path@) == Some(n@),
            None => file_name_spec(path@) is None,
        },
{
    let cs = path_components(path);
    if cs.len() == 0 {
        return None;
    }
    let last = &cs[cs.len() - 1];
    assert(strings_view(cs@).last() == last@);
    if str_eq(last.as_str(), "/") || str_eq(last.as_str(), ".") || str_eq(last.as_str(), "..") {
        return None;
    }
    Some(string_of(&chars_of(last.as_str())))
}

/// The last position of `c` in `s`.
pub open spec fn last_char(s: Seq<char>, c: char) -> Option<int>
    decreases s.len(),
{
    if s.len() == 0 {
        None
    } else if s.last() == c {
        Some(s.len() - 1)
    } else {
        last_char(s.drop_last(), c)
    }
}

/// The extension of a path: the part of its file name after the final `.`,
/// where the name has a `.` other than a leading one.
pub open spec fn extension_spec(p: Seq<char>) -> Option<Seq<char>> {
    match file_name_spec(p) {
        None => None,
        Some(n) => match last_char(n, '.') {
            None => None,
            Some(k) => if k <= 0 {
                None
            } else {
                Some(n.skip(k + 1))
            },
        },
    }
}

pub fn extension(path: &str) -> (r: Option<String>)
    ensures
        match r {
            Some(e) => extension_spec(path@) == Some(e@),
            None => extension_spec(path@) is None,
        },
{
    let name = match file_name(path) {
        Some(n) => n,
        None => return None,
    };
    let v = chars_of(name.as_str());
    assert(v@.take(v.len() as int) =~= v@);
    let mut k = v.len();
    while k > 0 && v[k - 1] != '.'
        invariant
            k <= v.len(),
            last_char(v@, '.') == last_char(v@.take(k as int), '.'),
        decreases k,
    {
        assert(v@.take(k as int).drop_last() =~= v@.take(k - 1));
        k -= 1;
    }
    if k <= 1 {
        assert(k == 0 ==> v@.take(k as int) =~= Seq::<char>::empty());
        return None;
    }
    assert(v@.take(k as int).last() == '.');
    assert(v@.skip(k as int) =~= v@.subrange(k as int, v.len() as int));
    Some(string_from(&v, k, v.len()))
}

// ── Joining ────────────────────────────────────────────────────────────

/// `base` joined with `rest` as `PathBuf::push` joins: an absolute `rest`
/// replaces `base`; otherwise a separator goes between them unless `base` is
/// empty or already ends with one.
pub open spec fn join_spec(base: Seq<char>, rest: Seq<char>) -> Seq<char> {
    if rest.len() > 0 && rest[0] == '/' {
        rest
    } else if base.len() == 0 || base.last() == '/' {
        base + rest
    } else {
        base + "/"@ + rest
    }
}

pub fn join(base: &str, rest: &str) -> (r: String)
    ensures
        r@ == join_spec(base@, rest@),
{
    proof {
        reveal_strlit("/");
    }
    let b = chars_of(base);
    let t = chars_of(rest);
    if t.len() > 0 && t[0] == '/' {
        return string_of(&t);
    }
    let mut out = String::new();
    push_str(&mut out, base);
    if !(b.len() == 0 || b[b.len() - 1] == '/') {
        push_str(&mut out, "/");
    }
    push_str(&mut out, rest);
    out
}

/// `base` starts with `prefix` component by component.
pub open spec fn path_starts_with(p: Seq<char>, base: Seq<char>) -> bool {
    let a = components(p);
    let b = components(base);
    b.len() <= a.len() && a.take(b.len() as int) == b
}

/// `Path::starts_with`: the components of `base` begin the components of
/// `path`.
pub fn starts_with_path(path: &str, base: &str) -> (b: bool)
    ensures
        b == path_starts_with(path@, base@),
{
    let a = path_components(path);
    let c = path_components(base);
    if c.len() > a.len() {
        return false;
    }
    let mut k: usize = 0;
    while k < c.len()
        invariant
            k <= c.len() <= a.len(),
            strings_view(a@) == components(path@),
            strings_view(c@) == components(base@),
            forall|u: int| 0 <= u < k ==> strings_view(a@)[u] == strings_view(c@)[u],
        decreases c.len() - k,
    {
        if !str_eq(a[k].as_str(), c[k].as_str()) {
            assert(strings_view(a@).take(c.len() as int)[k as int] != strings_view(c@)[k as int]);
            return false;
        }
        k += 1;
    }
    assert(strings_view(a@).take(c.len() as int) =~= strings_view(c@));
    true
}

/// Normalize a path to forward slashes for storage and comparison: every
/// `\` becomes `/`.
pub open spec fn normalize_path_spec(p: Seq<char>) -> Seq<char> {
    p.map_values(|c: char| if c == '\\' { '/' } else { c })
}

pub fn normalize_path(path: &str) -> (r: String)
    ensures
        r@ == normalize_path_spec(path@),
{
    let v = chars_of(path);
    let mut out: Vec<char> = Vec::new();
    let mut i: usize = 0;
    while i < v.len()
        invariant
            i <= v.len(),
            out@ == normalize_path_spec(v@.take(i as int)),
        decreases v.len() - i,
    {
        out.push(if v[i] == '\\' { '/' } else { v[i] });
        assert(normalize_path_spec(v@.take(i + 1)) =~= normalize_path_spec(v@.take(i as int)).push(
            if v@[i as int] == '\\' { '/' } else { v@[i as int] },
        ));
        i += 1;
    }
    assert(v@.take(v.len() as int) =~= v@);
    string_of(&out)
}

/// A canonical path without the extended-length prefix `\\?\` that Windows
/// puts before canonical paths.
pub open spec fn normalize_canonical_spec(p: Seq<char>) -> Seq<char> {
    if p.len() >= 4 && p.take(4) == seq!['\\', '\\', '?', '\\'] {
        p.skip(4)
    } else {
        p
    }
}

pub fn normalize_canonical(p: &str) -> (r: String)
    ensures
        r@ == normalize_canonical_spec(p@),
{
    let v = chars_of(p);
    if v.len() >= 4 && v[0] == '\\' && v[1] == '\\' && v[2] == '?' && v[3] == '\\' {
        assert(v@.take(4) =~= seq!['\\', '\\', '?', '\\']);
        assert(v@.skip(4) =~= v@.subrange(4, v.len() as int));
        return string_from(&v, 4, v.len());
    }
    proof {
        if v@.len() >= 4 && v@.take(4) == seq!['\\', '\\', '?', '\\'] {
            assert(v@[0] == v@.take(4)[0]);
            assert(v@[1] == v@.take(4)[1]);
            assert(v@[2] == v@.take(4)[2]);
            assert(v@[3] == v@.take(4)[3]);
        }
    }
    string_of(&v)
}

// ── The order of paths ─────────────────────────────────────────────────

/// The rank of a component in `Path`'s order: the root, then `.`, then
/// `..`, then named components.
pub open spec fn comp_rank(c: Seq<char>) -> int {
    if c == "/"@ { 0 } else if c == "."@ { 1 } else if c == ".."@ { 2 } else { 3 }
}

/// One component sorts before another: by rank, named components by their
/// text.
pub open spec fn comp_lt(a: Seq<char>, b: Seq<char>) -> bool {
    comp_rank(a) < comp_rank(b) || (comp_rank(a) == 3 && comp_rank(b) == 3 && lex_lt(a, b))
}

/// Lexicographic order of component lists.
pub open spec fn comps_lt(a: Seq<Seq<char>>, b: Seq<Seq<char>>) -> bool
    decreases a.len(),
{
    if a.len() == 0 {
        b.len() > 0
    } else if b.len() == 0 {
        false
    } else if a[0] != b[0] {
        comp_lt(a[0], b[0])
    } else {
        comps_lt(a.drop_first(), b.drop_first())
    }
}

/// `p` sorts before `q` as `Path`'s order compares them: component by
/// component.
pub open spec fn path_lt(p: Seq<char>, q: Seq<char>) -> bool {
    comps_lt(components(p), components(q))
}

proof fn lemma_comp_order(a: Seq<char>, b: Seq<char>, c: Seq<char>)
    ensures
        !comp_lt(a, a),
        comp_lt(a, b) ==> !comp_lt(b, a),
        comp_lt(a, b) && comp_lt(b, c) ==> comp_lt(a, c),
        a != b ==> comp_lt(a, b) || comp_lt(b, a),
{
    lemma_lex_irreflexive(a);
    lemma_lex_asymmetric(a, b);
    lemma_lex_transitive(a, b, c);
    lemma_lex_total(a, b);
}

pub proof fn lemma_comps_irreflexive(a: Seq<Seq<char>>)
    ensures
        !comps_lt(a, a),
    decreases a.len(),
{
    if a.len() > 0 {
        lemma_comps_irreflexive(a.drop_first());
    }
}

pub proof fn lemma_comps_asymmetric(a: Seq<Seq<char>>, b: Seq<Seq<char>>)
    ensures
        comps_lt(a, b) ==> !comps_lt(b, a),
    decreases a.len(),
{
    if a.len() > 0 && b.len() > 0 {
        lemma_comp_order(a[0], b[0], b[0]);
        if a[0] == b[0] {
            lemma_comps_asymmetric(a.drop_first(), b.drop_first());
        }
    }
}

pub proof fn lemma_comps_transitive(a: Seq<Seq<char>>, b: Seq<Seq<char>>, c: Seq<Seq<char>>)
    ensures
        comps_lt(a, b) && comps_lt(b, c) ==> comps_lt(a, c),
    decreases a.len(),
{
    if a.len() > 0 && b.len() > 0 && c.len() > 0 {
        lemma_comp_order(a[0], b[0], c[0]);
        lemma_comp_order(a[0], c[0], b[0]);
        lemma_comp_order(b[0], a[0], c[0]);
        lemma_comps_transitive(a.drop_first(), b.drop_first(), c.drop_first());
    }
}

pub proof fn lemma_comps_total(a: Seq<Seq<char>>, b: Seq<Seq<char>>)
    ensures
        a != b ==> comps_lt(a, b) || comps_lt(b, a),
    decreases a.len(),
{
    if a.len() > 0 && b.len() > 0 {
        lemma_comp_order(a[0], b[0], b[0]);
        if a[0] == b[0] {
            lemma_comps_total(a.drop_first(), b.drop_first());
            if a.drop_first() == b.drop_first() {
                assert(a =~= seq![a[0]] + a.drop_first());
                assert(b =~= seq![b[0]] + b.drop_first());
            }
        }
    } else if a.len() == 0 && b.len() == 0 {
        assert(a =~= b);
    }
}

fn comp_rank_of(c: &str) -> (r: u8)
    ensures
        r == comp_rank(c@),
{
    if str_eq(c, "/") { 0 } else if str_eq(c, ".") { 1 } else if str_eq(c, "..") { 2 } else { 3 }
}

/// Compare two components: -1, 0 or 1.
fn compare_component(a: &str, b: &str) -> (r: i8)
    ensures
        r == -1 <==> comp_lt(a@, b@),
        r == 0 <==> a@ == b@,
        r == 1 <==> comp_lt(b@, a@),
{
    proof {
        lemma_comp_order(a@, b@, b@);
    }
    let ra = comp_rank_of(a);
    let rb = comp_rank_of(b);
    if ra < rb {
        -1
    } else if rb < ra {
        1
    } else if ra < 3 {
        0
    } else {
        compare_str(a, b)
    }
}

/// Compare two paths as `Path`'s `Ord` does: -1, 0 (same components) or 1.
pub fn compare_paths(a: &str, b: &str) -> (r: i8)
    ensures
        r == -1 <==> path_lt(a@, b@),
        r == 0 <==> components(a@) == components(b@),
        r == 1 <==> path_lt(b@, a@),
{
    let ca = path_components(a);
    let cb = path_components(b);
    let ghost xa = strings_view(ca@);
    let ghost xb = strings_view(cb@);
    proof {
        lemma_comps_asymmetric(xa, xb);
        lemma_comps_irreflexive(xa);
    }
    let mut i: usize = 0;
    assert(xa.skip(0) =~= xa);
    assert(xb.skip(0) =~= xb);
    while i < ca.len() && i < cb.len()
        invariant
            i <= ca.len(),
            i <= cb.len(),
            xa == strings_view(ca@),
            xb == strings_view(cb@),
            xa == components(a@),
            xb == components(b@),
            comps_lt(xa, xb) ==> !comps_lt(xb, xa),
            !comps_lt(xa, xa),
            comps_lt(xa, xb) == comps_lt(xa.skip(i as int), xb.skip(i as int)),
            comps_lt(xb, xa) == comps_lt(xb.skip(i as int), xa.skip(i as int)),
            (xa == xb) == (xa.skip(i as int) == xb.skip(i as int)),
        decreases ca.len() - i,
    {
        let c = compare_component(ca[i].as_str(), cb[i].as_str());
        let ghost sa = xa.skip(i as int);
        let ghost sb = xb.skip(i as int);
        assert(sa[0] == ca@[i as int]@);
        assert(sb[0] == cb@[i as int]@);
        proof {
            lemma_comp_order(sa[0], sb[0], sb[0]);
        }
        if c != 0 {
            proof {
                if sa == sb {
                    assert(sa[0] == sb[0]);
                }
            }
            return c;
        }
        assert(sa.drop_first() =~= xa.skip(i + 1));
        assert(sb.drop_first() =~= xb.skip(i + 1));
        proof {
            if sa.drop_first() == sb.drop_first() {
                assert(sa =~= seq![sa[0]] + sa.drop_first());
                assert(sb =~= seq![sb[0]] + sb.drop_first());
            }
            if sa == sb {
                assert(sa.drop_first() == sb.drop_first());
            }
        }
        i += 1;
    }
    proof {
        let sa = xa.skip(i as int);
        let sb = xb.skip(i as int);
        if i == ca.len() && i == cb.len() {
            assert(sa =~= sb);
        }
        if i == ca.len() && i < cb.len() {
            assert(sa.len() == 0 && sb.len() > 0);
        }
        if i < ca.len() && i == cb.len() {
            assert(sa.len() > 0 && sb.len() == 0);
        }
    }
    if i < cb.len() {
        -1
    } else if i < ca.len() {
        1
    } else {
        0
    }
}

} // verus!
