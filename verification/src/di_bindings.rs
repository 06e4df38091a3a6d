//! Dependency-injection registrations: ASP.NET Core service-collection calls
//! and NestJS injectable classes and `useClass` providers.
use vstd::prelude::*;
use crate::syntax_tree::{
    NodeInfo, Grammar, SyntaxTree, parser_for, parse_text, node_count, node_at, field_child_at,
    child_count_at, parent_child_count_at, child_at, parent_child_at, parent_kind_at, grammar_loads,
    syntax_node_count, syntax_node, syntax_field_child, syntax_child_count, syntax_parent_child_count,
    syntax_child, syntax_parent_child, syntax_parent_kind,
};
use vstd::utf8::is_char_boundary;
use vstd::string::StringSliceAdditionalSpecFns;
use crate::text::{
    chars_of, first_match_from, find_from, is_ascii_alnum, is_ascii_alpha, is_prefix, is_ws,
    push_decimal, push_str, string_from, strip_ws, trim, trim_bounds, trim_start, vec_without_ws,
    decimal, has_prefix, is_whitespace, str_eq, trim_end_in, trim_start_in, trim_start_set,
    trim_end_set, sub_vec, ends_with, is_suffix,
};

verus! {

/// One dependency-injection binding from a contract type to the type that
/// implements it.
#[derive(Debug, Clone)]
pub struct DIFact {
    pub id: String,
    pub file: String,
    pub language: String,
    pub abstract_type: String,
    pub concrete_type: String,
    pub lifetime: Option<String>,
    pub line: usize,
    pub framework: String,
}

/// The mathematical content of a [`DIFact`].
pub struct DIView {
    pub id: Seq<char>,
    pub file: Seq<char>,
    pub language: Seq<char>,
    pub abstract_type: Seq<char>,
    pub concrete_type: Seq<char>,
    pub lifetime: Option<Seq<char>>,
    pub line: usize,
    pub framework: Seq<char>,
}

pub open spec fn opt_view(o: Option<String>) -> Option<Seq<char>> {
    match o {
        Some(s) => Some(s@),
        None => None,
    }
}

impl View for DIFact {
    type V = DIView;

    open spec fn view(&self) -> DIView {
        DIView {
            id: self.id@,
            file: self.file@,
            language: self.language@,
            abstract_type: self.abstract_type@,
            concrete_type: self.concrete_type@,
            lifetime: opt_view(self.lifetime),
            line: self.line,
            framework: self.framework@,
        }
    }
}

pub open spec fn di_views(facts: Seq<DIFact>) -> Seq<DIView> {
    facts.map_values(|f: DIFact| f@)
}

/// Two bindings register the same contract, implementation and lifetime in
/// the same file, language and framework.
pub open spec fn same_binding(a: DIView, b: DIView) -> bool {
    a.file == b.file && a.language == b.language && a.abstract_type == b.abstract_type
        && a.concrete_type == b.concrete_type && a.lifetime == b.lifetime && a.framework == b.framework
}

/// Some binding of `s[..i]` is the same binding as `f`.
pub open spec fn seen_before(s: Seq<DIView>, i: int, f: DIView) -> bool {
    exists|j: int| 0 <= j < i && same_binding(#[trigger] s[j], f)
}

/// The first binding of each kind, in first-seen order.
pub open spec fn first_bindings(s: Seq<DIView>) -> Seq<DIView>
    decreases s.len(),
{
    if s.len() == 0 {
        Seq::empty()
    } else {
        let prev = first_bindings(s.drop_last());
        if seen_before(s, s.len() - 1, s.last()) {
            prev
        } else {
            prev.push(s.last())
        }
    }
}

fn same_opt_str(a: &Option<String>, b: &Option<String>) -> (r: bool)
    ensures
        r == (opt_view(*a) == opt_view(*b)),
{
    match (a, b) {
        (Some(x), Some(y)) => str_eq(x.as_str(), y.as_str()),
        (None, None) => true,
        _ => false,
    }
}

fn same_binding_exec(a: &DIFact, b: &DIFact) -> (r: bool)
    ensures
        r == same_binding(a@, b@),
{
    str_eq(a.file.as_str(), b.file.as_str()) && str_eq(a.language.as_str(), b.language.as_str())
        && str_eq(a.abstract_type.as_str(), b.abstract_type.as_str()) && str_eq(
        a.concrete_type.as_str(),
        b.concrete_type.as_str(),
    ) && same_opt_str(&a.lifetime, &b.lifetime) && str_eq(a.framework.as_str(), b.framework.as_str())
}

pub open spec fn has_binding(s: Seq<DIView>, f: DIView) -> bool {
    exists|j: int| 0 <= j < s.len() && same_binding(#[trigger] s[j], f)
}

/// The first bindings of `s` cover every binding of `s`.
pub proof fn lemma_first_bindings_cover(s: Seq<DIView>, f: DIView)
    ensures
        has_binding(s, f) <==> has_binding(first_bindings(s), f),
    decreases s.len(),
{
    if s.len() > 0 {
        let p = s.drop_last();
        lemma_first_bindings_cover(p, f);
        lemma_first_bindings_cover(p, s.last());
        if has_binding(s, f) {
            let j = choose|j: int| 0 <= j < s.len() && same_binding(#[trigger] s[j], f);
            if j < s.len() - 1 {
                assert(p[j] == s[j]);
                assert(has_binding(p, f));
                let t = choose|t: int| 0 <= t < first_bindings(p).len() && same_binding(#[trigger] first_bindings(p)[t], f);
                if !seen_before(s, s.len() - 1, s.last()) {
                    assert(first_bindings(s)[t] == first_bindings(p)[t]);
                }
            } else {
                if seen_before(s, s.len() - 1, s.last()) {
                    let j2 = choose|j2: int| 0 <= j2 < s.len() - 1 && same_binding(#[trigger] s[j2], s.last());
                    assert(p[j2] == s[j2]);
                    assert(has_binding(p, s.last()));
                    let t = choose|t: int| 0 <= t < first_bindings(p).len() && same_binding(#[trigger] first_bindings(p)[t], s.last());
                    assert(same_binding(first_bindings(p)[t], f));
                } else {
                    let fb = first_bindings(s);
                    assert(fb[fb.len() - 1] == s.last());
                }
            }
        }
        if has_binding(first_bindings(s), f) {
            let fb = first_bindings(s);
            let t = choose|t: int| 0 <= t < fb.len() && same_binding(#[trigger] fb[t], f);
            if seen_before(s, s.len() - 1, s.last()) {
                assert(has_binding(first_bindings(p), f));
                let j = choose|j: int| 0 <= j < p.len() && same_binding(#[trigger] p[j], f);
                assert(s[j] == p[j]);
            } else if t < fb.len() - 1 {
                assert(fb[t] == first_bindings(p)[t]);
                assert(has_binding(first_bindings(p), f));
                let j = choose|j: int| 0 <= j < p.len() && same_binding(#[trigger] p[j], f);
                assert(s[j] == p[j]);
            } else {
                assert(same_binding(s[s.len() - 1], f));
            }
        }
    }
}

/// Resolution leaves no repeated binding: no two retained facts register the
/// same binding.
pub proof fn lemma_first_bindings_distinct(s: Seq<DIView>)
    ensures
        forall|i: int, j: int|
            0 <= i < j < first_bindings(s).len() ==> !same_binding(
                #[trigger] first_bindings(s)[i],
                #[trigger] first_bindings(s)[j],
            ),
    decreases s.len(),
{
    if s.len() > 0 {
        let p = s.drop_last();
        lemma_first_bindings_distinct(p);
        lemma_first_bindings_cover(p, s.last());
        if !seen_before(s, s.len() - 1, s.last()) {
            let fb = first_bindings(s);
            let fp = first_bindings(p);
            assert forall|i: int, j: int| 0 <= i < j < fb.len() implies !same_binding(#[trigger] fb[i], #[trigger] fb[j]) by {
                if j == fb.len() - 1 {
                    assert(fb[i] == fp[i]);
                    if same_binding(fb[i], fb[j]) {
                        assert(same_binding(fp[i], s.last()));
                        assert(has_binding(fp, s.last()));
                        let k = choose|k: int| 0 <= k < p.len() && same_binding(#[trigger] p[k], s.last());
                        assert(s[k] == p[k]);
                        assert(seen_before(s, s.len() - 1, s.last()));
                    }
                } else {
                    assert(fb[i] == fp[i]);
                    assert(fb[j] == fp[j]);
                }
            }
        }
    }
}

/// Retain one fact for each binding while preserving first-seen order.
///
/// Repeated copies of the same contract-to-implementation registration are
/// removed independently of their identifiers and line numbers.
pub fn resolve_di_bindings(di_bindings: Vec<DIFact>) -> (out: Vec<DIFact>)
    ensures
        di_views(out@) == first_bindings(di_views(di_bindings@)),
{
    let ghost input = di_views(di_bindings@);
    let mut out: Vec<DIFact> = Vec::new();
    let mut i: usize = 0;
    while i < di_bindings.len()
        invariant
            i <= di_bindings.len(),
            input == di_views(di_bindings@),
            di_views(out@) == first_bindings(input.take(i as int)),
        decreases di_bindings.len() - i,
    {
        let f = &di_bindings[i];
        let ghost fb = di_views(out@);
        let mut t: usize = 0;
        let mut found = false;
        while t < out.len()
            invariant
                t <= out@.len(),
                fb == di_views(out@),
                found ==> has_binding(fb, f@),
                !found ==> forall|u: int| 0 <= u < t ==> !same_binding(#[trigger] fb[u], f@),
            decreases out.len() - t,
        {
            if same_binding_exec(&out[t], f) {
                found = true;
                assert(same_binding(fb[t as int], f@));
            }
            t += 1;
        }
        let ghost s = input.take(i + 1);
        assert(s.drop_last() =~= input.take(i as int));
        assert(s.last() == f@);
        proof {
            lemma_first_bindings_cover(input.take(i as int), f@);
            if has_binding(input.take(i as int), f@) {
                let j = choose|j: int| 0 <= j < i && same_binding(#[trigger] input.take(i as int)[j], f@);
                assert(s[j] == input.take(i as int)[j]);
                assert(seen_before(s, i as int, s.last()));
            }
            if seen_before(s, i as int, s.last()) {
                let j = choose|j: int| 0 <= j < i && same_binding(#[trigger] s[j], s.last());
                assert(s[j] == input.take(i as int)[j]);
                assert(has_binding(input.take(i as int), f@));
            }
        }
        if !found {
            let copy = DIFact {
                id: f.id.clone(),
                file: f.file.clone(),
                language: f.language.clone(),
                abstract_type: f.abstract_type.clone(),
                concrete_type: f.concrete_type.clone(),
                lifetime: match &f.lifetime {
                    Some(l) => Some(l.clone()),
                    None => None,
                },
                line: f.line,
                framework: f.framework.clone(),
            };
            let ghost before = out@;
            out.push(copy);
            assert(di_views(out@) =~= di_views(before).push(f@));
        }
        i += 1;
    }
    assert(input.take(di_bindings.len() as int) =~= input);
    out
}


/// `_`, `$` or an ASCII letter or digit.
pub open spec fn is_id_char(c: char) -> bool {
    c == '_' || c == '$' || is_ascii_alnum(c)
}

pub fn is_identifier_character(c: char) -> (b: bool)
    ensures
        b == is_id_char(c),
{
    c == '_' || c == '$' || crate::text::is_ascii_alphanumeric(c)
}

/// A type written without whitespace; nothing when no character remains.
pub open spec fn normalize_type_spec(s: Seq<char>) -> Option<Seq<char>> {
    if strip_ws(s).len() == 0 {
        None
    } else {
        Some(strip_ws(s))
    }
}

/// `v[lo..hi]` without whitespace, unless that is empty.
pub fn normalize_type(v: &Vec<char>, lo: usize, hi: usize) -> (r: Option<String>)
    requires
        lo <= hi <= v.len(),
    ensures
        opt_view(r) == normalize_type_spec(v@.subrange(lo as int, hi as int)),
{
    let w = vec_without_ws(v, lo, hi);
    if w.len() == 0 {
        None
    } else {
        let s = string_from(&w, 0, w.len());
        assert(w@.subrange(0, w.len() as int) =~= w@);
        Some(s)
    }
}

/// The position of the `>` closing the `<` that opens `s[i..]` at `depth`;
/// nothing when a `>` closes more than was opened or none closes it.
pub open spec fn angle_scan(s: Seq<char>, i: int, depth: nat) -> Option<int>
    decreases s.len() - i,
{
    if i < 0 || i >= s.len() {
        None
    } else if s[i] == '<' {
        angle_scan(s, i + 1, depth + 1)
    } else if s[i] == '>' {
        if depth == 0 {
            None
        } else if depth == 1 {
            Some(i)
        } else {
            angle_scan(s, i + 1, (depth - 1) as nat)
        }
    } else {
        angle_scan(s, i + 1, depth)
    }
}

proof fn lemma_angle_scan(s: Seq<char>, i: int, depth: nat)
    ensures
        angle_scan(s, i, depth) matches Some(r) ==> i <= r < s.len(),
    decreases s.len() - i,
{
    if 0 <= i < s.len() {
        if s[i] == '<' {
            lemma_angle_scan(s, i + 1, depth + 1);
        } else if s[i] == '>' {
            if depth > 1 {
                lemma_angle_scan(s, i + 1, (depth - 1) as nat);
            }
        } else {
            lemma_angle_scan(s, i + 1, depth);
        }
    }
}

/// The position in `v` of the `>` matching the first `<` of `v[lo..hi]`.
pub fn matching_angle(v: &Vec<char>, lo: usize, hi: usize) -> (r: Option<usize>)
    requires
        lo <= hi <= v.len(),
    ensures
        r is None <==> angle_scan(v@.subrange(lo as int, hi as int), 0, 0) is None,
        r matches Some(c) ==> lo <= c < hi && angle_scan(v@.subrange(lo as int, hi as int), 0, 0) == Some(c - lo),
{
    let ghost t = v@.subrange(lo as int, hi as int);
    proof {
        lemma_angle_scan(t, 0, 0);
    }
    let mut depth: usize = 0;
    let mut i = lo;
    while i < hi
        invariant
            lo <= i <= hi <= v.len(),
            t == v@.subrange(lo as int, hi as int),
            depth <= i - lo,
            angle_scan(t, 0, 0) == angle_scan(t, i - lo, depth as nat),
        decreases hi - i,
    {
        let c = v[i];
        assert(t[i - lo] == c);
        if c == '<' {
            depth += 1;
        } else if c == '>' {
            if depth == 0 {
                return None;
            }
            depth -= 1;
            if depth == 0 {
                return Some(i);
            }
        }
        i += 1;
    }
    None
}

/// Nesting depths of `<>`, `()`, `[]` and `{}`; closing below zero stays at zero.
pub struct Nesting {
    pub angle: nat,
    pub paren: nat,
    pub bracket: nat,
    pub brace: nat,
}

pub open spec fn dec(n: nat) -> nat {
    if n == 0 { 0 } else { (n - 1) as nat }
}

impl Nesting {
    pub open spec fn zero() -> Nesting {
        Nesting { angle: 0, paren: 0, bracket: 0, brace: 0 }
    }

    pub open spec fn is_top(self) -> bool {
        self.angle == 0 && self.paren == 0 && self.bracket == 0 && self.brace == 0
    }

    pub open spec fn total(self) -> nat {
        self.angle + self.paren + self.bracket + self.brace
    }
}

/// Whether `c` changes the nesting, and the nesting after it.
pub open spec fn nest(d: Nesting, c: char) -> Option<Nesting> {
    if c == '<' {
        Some(Nesting { angle: d.angle + 1, ..d })
    } else if c == '>' {
        Some(Nesting { angle: dec(d.angle), ..d })
    } else if c == '(' {
        Some(Nesting { paren: d.paren + 1, ..d })
    } else if c == ')' {
        Some(Nesting { paren: dec(d.paren), ..d })
    } else if c == '[' {
        Some(Nesting { bracket: d.bracket + 1, ..d })
    } else if c == ']' {
        Some(Nesting { bracket: dec(d.bracket), ..d })
    } else if c == '{' {
        Some(Nesting { brace: d.brace + 1, ..d })
    } else if c == '}' {
        Some(Nesting { brace: dec(d.brace), ..d })
    } else {
        None
    }
}

/// The ranges of the parts of `s` separated by `sep` outside all brackets.
pub open spec fn sep_scan(s: Seq<char>, sep: char, i: int, d: Nesting, seg: int) -> Seq<(int, int)>
    decreases s.len() - i,
{
    if i < 0 || i >= s.len() {
        seq![(seg, s.len() as int)]
    } else {
        match nest(d, s[i]) {
            Some(d2) => sep_scan(s, sep, i + 1, d2, seg),
            None => if s[i] == sep && d.is_top() {
                seq![(seg, i)] + sep_scan(s, sep, i + 1, d, i + 1)
            } else {
                sep_scan(s, sep, i + 1, d, seg)
            },
        }
    }
}

pub open spec fn sep_ranges(s: Seq<char>, sep: char) -> Seq<(int, int)> {
    sep_scan(s, sep, 0, Nesting::zero(), 0)
}

struct NestingDepths {
    angle: usize,
    paren: usize,
    bracket: usize,
    brace: usize,
}

impl NestingDepths {
    spec fn view(&self) -> Nesting {
        Nesting {
            angle: self.angle as nat,
            paren: self.paren as nat,
            bracket: self.bracket as nat,
            brace: self.brace as nat,
        }
    }

    fn is_top(&self) -> (b: bool)
        ensures
            b == self.view().is_top(),
    {
        self.angle == 0 && self.paren == 0 && self.bracket == 0 && self.brace == 0
    }

    /// Applies `c`; returns whether it was a bracket.
    fn nest(&mut self, c: char) -> (changed: bool)
        requires
            old(self).view().total() < usize::MAX,
        ensures
            changed == nest(old(self).view(), c) is Some,
            changed ==> nest(old(self).view(), c) == Some(final(self).view()),
            !changed ==> final(self).view() == old(self).view(),
            final(self).view().total() <= old(self).view().total() + 1,
    {
        if c == '<' {
            self.angle = self.angle + 1;
        } else if c == '>' {
            self.angle = if self.angle > 0 { self.angle - 1 } else { 0 };
        } else if c == '(' {
            self.paren = self.paren + 1;
        } else if c == ')' {
            self.paren = if self.paren > 0 { self.paren - 1 } else { 0 };
        } else if c == '[' {
            self.bracket = self.bracket + 1;
        } else if c == ']' {
            self.bracket = if self.bracket > 0 { self.bracket - 1 } else { 0 };
        } else if c == '{' {
            self.brace = self.brace + 1;
        } else if c == '}' {
            self.brace = if self.brace > 0 { self.brace - 1 } else { 0 };
        } else {
            return false;
        }
        true
    }
}

/// Split `v[lo..hi]` at `sep` outside all brackets; ranges are positions in `v`.
pub fn split_top_level(v: &Vec<char>, lo: usize, hi: usize, sep: char) -> (parts: Vec<(usize, usize)>)
    requires
        lo <= hi <= v.len(),
    ensures
        parts@.len() == sep_ranges(v@.subrange(lo as int, hi as int), sep).len(),
        forall|k: int|
            0 <= k < parts@.len() ==> {
                &&& lo <= (#[trigger] parts@[k]).0 <= parts@[k].1 <= hi
                &&& parts@[k].0 - lo == sep_ranges(v@.subrange(lo as int, hi as int), sep)[k].0
                &&& parts@[k].1 - lo == sep_ranges(v@.subrange(lo as int, hi as int), sep)[k].1
            },
{
    let ghost t = v@.subrange(lo as int, hi as int);
    let ghost all = sep_ranges(t, sep);
    let mut d = NestingDepths { angle: 0, paren: 0, bracket: 0, brace: 0 };
    let mut start = lo;
    let mut parts: Vec<(usize, usize)> = Vec::new();
    let mut i = lo;
    while i < hi
        invariant
            lo <= start <= i <= hi <= v.len(),
            t == v@.subrange(lo as int, hi as int),
            all == sep_ranges(t, sep),
            d.view().total() <= i - lo,
            ({
                let rest = sep_scan(t, sep, i - lo, d.view(), start - lo);
                &&& all.len() == parts@.len() + rest.len()
                &&& forall|k: int| 0 <= k < parts@.len() ==> all[k] == (
                    (#[trigger] parts@[k]).0 - lo,
                    parts@[k].1 - lo,
                )
                &&& forall|k: int| 0 <= k < rest.len() ==> all[parts@.len() + k] == #[trigger] rest[k]
                &&& forall|k: int| 0 <= k < parts@.len() ==> lo <= (#[trigger] parts@[k]).0 <= parts@[k].1 <= hi
            }),
        decreases hi - i,
    {
        let c = v[i];
        assert(t[i - lo] == c);
        let ghost d0 = d.view();
        let ghost rest = sep_scan(t, sep, i - lo, d0, start - lo);
        let top = d.is_top();
        if !d.nest(c) {
            if c == sep && top {
                let ghost rest2 = sep_scan(t, sep, i - lo + 1, d0, i - lo + 1);
                assert(rest == seq![(start - lo, i - lo)] + rest2);
                assert(all[parts@.len() as int] == rest[0]);
                parts.push((start, i));
                assert forall|k: int| 0 <= k < rest2.len() implies all[parts@.len() + k] == #[trigger] rest2[k] by {
                    assert(rest[k + 1] == rest2[k]);
                }
                start = i + 1;
            }
        }
        i += 1;
    }
    let ghost rest = sep_scan(t, sep, i - lo, d.view(), start - lo);
    assert(rest == seq![(start - lo, hi - lo)]);
    assert(all[parts@.len() as int] == rest[0]);
    parts.push((start, hi));
    parts
}


/// The last position at or before `i` where `pat` occurs in `s`.
pub open spec fn last_match_from(s: Seq<char>, i: int, pat: Seq<char>) -> Option<int>
    decreases i + 1,
{
    if i < 0 {
        None
    } else if crate::text::matches_at(s, i, pat) {
        Some(i)
    } else {
        last_match_from(s, i - 1, pat)
    }
}

/// The position of the last occurrence of `pat` in `s`, as `str::rfind` finds it.
pub open spec fn rfind(s: Seq<char>, pat: Seq<char>) -> Option<int> {
    last_match_from(s, s.len() - pat.len(), pat)
}

proof fn lemma_last_match(s: Seq<char>, i: int, pat: Seq<char>)
    ensures
        last_match_from(s, i, pat) matches Some(r) ==> 0 <= r <= i && crate::text::matches_at(s, r, pat),
    decreases i + 1,
{
    if i >= 0 && !crate::text::matches_at(s, i, pat) {
        lemma_last_match(s, i - 1, pat);
    }
}

pub fn rfind_chars(v: &Vec<char>, pat: &Vec<char>) -> (r: Option<usize>)
    ensures
        r is None <==> rfind(v@, pat@) is None,
        r matches Some(i) ==> rfind(v@, pat@) == Some(i as int) && i + pat.len() <= v.len(),
{
    proof {
        lemma_last_match(v@, v@.len() - pat@.len(), pat@);
    }
    if pat.len() > v.len() {
        proof {
            assert(rfind(v@, pat@) is None);
        }
        return None;
    }
    let mut i = v.len() - pat.len();
    loop
        invariant
            i + pat.len() <= v.len(),
            rfind(v@, pat@) == last_match_from(v@, i as int, pat@),
        decreases i,
    {
        if crate::text::matches_here(v, i, pat) {
            return Some(i);
        }
        if i == 0 {
            assert(last_match_from(v@, -1, pat@) is None);
            return None;
        }
        i -= 1;
    }
}

/// Each part normalized; nothing if some part is empty once whitespace is removed.
pub open spec fn normalize_parts(text: Seq<char>, ranges: Seq<(int, int)>) -> Option<Seq<Seq<char>>>
    decreases ranges.len(),
{
    if ranges.len() == 0 {
        Some(Seq::empty())
    } else {
        match normalize_parts(text, ranges.drop_last()) {
            None => None,
            Some(p) => match normalize_type_spec(text.subrange(ranges.last().0, ranges.last().1)) {
                None => None,
                Some(n) => Some(p.push(n)),
            },
        }
    }
}

/// The type arguments of a call of the generic method `method` that ends
/// `f`, such as `IClock, SystemClock` in `services.AddSingleton<IClock, SystemClock>`.
pub open spec fn generic_args_spec(f: Seq<char>, method: Seq<char>) -> Option<Seq<Seq<char>>> {
    match rfind(f, method) {
        None => None,
        Some(mi) => if mi > 0 && is_id_char(f[mi - 1]) {
            None
        } else {
            let after = trim_start(f.skip(mi + method.len()));
            if !(after.len() > 0 && after[0] == '<') {
                None
            } else {
                match angle_scan(after, 0, 0) {
                    None => None,
                    Some(ca) => if trim(after.skip(ca + 1)).len() != 0 {
                        None
                    } else {
                        let inner = after.subrange(1, ca);
                        normalize_parts(inner, sep_ranges(inner, ','))
                    },
                }
            }
        },
    }
}

pub open spec fn opt_strings_view(o: Option<Vec<String>>) -> Option<Seq<Seq<char>>> {
    match o {
        Some(v) => Some(v@.map_values(|s: String| s@)),
        None => None,
    }
}

pub fn generic_method_arguments(f: &Vec<char>, method: &Vec<char>) -> (r: Option<Vec<String>>)
    ensures
        opt_strings_view(r) == generic_args_spec(f@, method@),
{
    let mi = match rfind_chars(f, method) {
        Some(mi) => mi,
        None => return None,
    };
    if mi > 0 && is_identifier_character(f[mi - 1]) {
        return None;
    }
    let start = mi + method.len();
    let (a, _b) = trim_bounds(f, start, f.len());
    let ghost after = f@.subrange(a as int, f.len() as int);
    assert(f@.skip(start as int) =~= f@.subrange(start as int, f.len() as int));
    assert(after == trim_start(f@.skip(start as int)));
    if !(a < f.len() && f[a] == '<') {
        return None;
    }
    let ca = match matching_angle(f, a, f.len()) {
        Some(c) => c,
        None => return None,
    };
    proof {
        assert(after[0] == '<');
        assert(angle_scan(after, 0, 0) == angle_scan(after, 1, 1));
        lemma_angle_scan(after, 1, 1);
    }
    assert(ca >= a + 1);
    let (ra, rb) = trim_bounds(f, ca + 1, f.len());
    assert(after.skip(ca - a + 1) =~= f@.subrange(ca + 1, f.len() as int));
    if ra != rb {
        return None;
    }
    assert(after.subrange(1, ca - a) =~= f@.subrange(a + 1, ca as int));
    let ghost inner = f@.subrange(a + 1, ca as int);
    let parts = split_top_level(f, a + 1, ca, ',');
    let ghost ranges = sep_ranges(inner, ',');
    assert(generic_args_spec(f@, method@) == normalize_parts(inner, ranges));
    let mut out: Vec<String> = Vec::new();
    let mut k: usize = 0;
    while k < parts.len()
        invariant
            generic_args_spec(f@, method@) == normalize_parts(inner, ranges),
            a + 1 <= ca <= f.len(),
            inner == f@.subrange(a + 1, ca as int),
            ranges == sep_ranges(inner, ','),
            k <= parts@.len() == ranges.len(),
            forall|j: int|
                0 <= j < parts@.len() ==> {
                    &&& a + 1 <= (#[trigger] parts@[j]).0 <= parts@[j].1 <= ca
                    &&& parts@[j].0 - (a + 1) == ranges[j].0
                    &&& parts@[j].1 - (a + 1) == ranges[j].1
                },
            normalize_parts(inner, ranges.take(k as int)) == Some(out@.map_values(|s: String| s@)),
        decreases parts.len() - k,
    {
        let (pa, pb) = parts[k];
        assert(ranges.take(k + 1).drop_last() =~= ranges.take(k as int));
        assert(inner.subrange(ranges[k as int].0, ranges[k as int].1) =~= f@.subrange(pa as int, pb as int));
        match normalize_type(f, pa, pb) {
            None => {
                assert(normalize_parts(inner, ranges.take(k + 1)) is None);
                assert(ranges.take(parts.len() as int) =~= ranges);
                proof {
                    lemma_normalize_parts_none(inner, ranges, k + 1);
                }
                return None;
            },
            Some(n) => {
                let ghost before = out@;
                out.push(n);
                assert(out@.map_values(|s: String| s@) =~= before.map_values(|s: String| s@).push(n@));
            },
        }
        k += 1;
    }
    assert(ranges.take(parts.len() as int) =~= ranges);
    Some(out)
}

proof fn lemma_normalize_parts_none(text: Seq<char>, ranges: Seq<(int, int)>, k: int)
    requires
        0 <= k <= ranges.len(),
        normalize_parts(text, ranges.take(k)) is None,
    ensures
        normalize_parts(text, ranges) is None,
    decreases ranges.len() - k,
{
    if k < ranges.len() {
        assert(ranges.take(k + 1).drop_last() =~= ranges.take(k));
        lemma_normalize_parts_none(text, ranges, k + 1);
    } else {
        assert(ranges.take(k) =~= ranges);
    }
}


/// The identifier of a binding.
pub open spec fn di_id(
    framework: Seq<char>,
    file: Seq<char>,
    line: usize,
    abstract_type: Seq<char>,
    concrete_type: Seq<char>,
    lifetime: Option<Seq<char>>,
) -> Seq<char> {
    "di:"@ + framework + ":"@ + file + ":"@ + decimal(line as nat) + ":"@ + abstract_type + ":"@
        + concrete_type + ":"@ + match lifetime {
        Some(l) => l,
        None => "unknown"@,
    }
}

pub open spec fn make_binding(
    file: Seq<char>,
    language: Seq<char>,
    abstract_type: Seq<char>,
    concrete_type: Seq<char>,
    lifetime: Option<Seq<char>>,
    framework: Seq<char>,
    line: usize,
) -> DIView {
    DIView {
        id: di_id(framework, file, line, abstract_type, concrete_type, lifetime),
        file,
        language,
        abstract_type,
        concrete_type,
        lifetime,
        line,
        framework,
    }
}

fn own(s: &str) -> (r: String)
    ensures
        r@ == s@,
{
    let mut r = String::new();
    push_str(&mut r, s);
    r
}

pub fn new_fact(
    file: &str,
    language: &str,
    abstract_type: String,
    concrete_type: String,
    lifetime: Option<String>,
    framework: &str,
    line: usize,
) -> (f: DIFact)
    ensures
        f@ == make_binding(file@, language@, abstract_type@, concrete_type@, opt_view(lifetime), framework@, line),
{
    let mut id = String::new();
    push_str(&mut id, "di:");
    push_str(&mut id, framework);
    push_str(&mut id, ":");
    push_str(&mut id, file);
    push_str(&mut id, ":");
    push_decimal(&mut id, line);
    push_str(&mut id, ":");
    push_str(&mut id, abstract_type.as_str());
    push_str(&mut id, ":");
    push_str(&mut id, concrete_type.as_str());
    push_str(&mut id, ":");
    match &lifetime {
        Some(l) => push_str(&mut id, l.as_str()),
        None => push_str(&mut id, "unknown"),
    }
    assert(id@ =~= di_id(framework@, file@, line, abstract_type@, concrete_type@, opt_view(lifetime)));
    DIFact {
        id,
        file: own(file),
        language: own(language),
        abstract_type,
        concrete_type,
        lifetime,
        line,
        framework: own(framework),
    }
}

/// The binding an ASP.NET Core registration call states, given the text of
/// the called function (such as `builder.Services.AddScoped<IRepo, SqlRepo>`).
/// One type argument registers a type as itself; two register a contract and
/// its implementation; other forms state no implementation.
pub open spec fn aspnet_spec(file: Seq<char>, function: Seq<char>, line: usize) -> Option<DIView> {
    let found = if generic_args_spec(function, "AddSingleton"@) is Some {
        Some(("singleton"@, generic_args_spec(function, "AddSingleton"@)->0))
    } else if generic_args_spec(function, "AddScoped"@) is Some {
        Some(("scoped"@, generic_args_spec(function, "AddScoped"@)->0))
    } else if generic_args_spec(function, "AddTransient"@) is Some {
        Some(("transient"@, generic_args_spec(function, "AddTransient"@)->0))
    } else {
        None
    };
    match found {
        None => None,
        Some((lifetime, args)) => if args.len() == 1 {
            Some(make_binding(file, "csharp"@, args[0], args[0], Some(lifetime), "aspnet"@, line))
        } else if args.len() == 2 {
            Some(make_binding(file, "csharp"@, args[0], args[1], Some(lifetime), "aspnet"@, line))
        } else {
            None
        },
    }
}

pub open spec fn opt_di_view(o: Option<DIFact>) -> Option<DIView> {
    match o {
        Some(f) => Some(f@),
        None => None,
    }
}

/// The binding stated by an ASP.NET Core registration call on `line`.
pub fn aspnet_binding(file: &str, function: &str, line: usize) -> (r: Option<DIFact>)
    ensures
        opt_di_view(r) == aspnet_spec(file@, function@, line),
{
    let f = chars_of(function);
    let singleton = chars_of("AddSingleton");
    let scoped = chars_of("AddScoped");
    let transient = chars_of("AddTransient");
    let (lifetime, args) = match generic_method_arguments(&f, &singleton) {
        Some(a) => ("singleton", a),
        None => match generic_method_arguments(&f, &scoped) {
            Some(a) => ("scoped", a),
            None => match generic_method_arguments(&f, &transient) {
                Some(a) => ("transient", a),
                None => return None,
            },
        },
    };
    let ghost argv = args@.map_values(|s: String| s@);
    if args.len() == 1 {
        let a = args[0].clone();
        let b = args[0].clone();
        Some(new_fact(file, "csharp", a, b, Some(own(lifetime)), "aspnet", line))
    } else if args.len() == 2 {
        let a = args[0].clone();
        let b = args[1].clone();
        Some(new_fact(file, "csharp", a, b, Some(own(lifetime)), "aspnet", line))
    } else {
        None
    }
}

/// `value` is the decorator `@name` or `@name(...)`.
pub open spec fn named_decorator_spec(value: Seq<char>, name: Seq<char>) -> bool {
    let t = trim(value);
    if !(t.len() > 0 && t[0] == '@') {
        false
    } else {
        let rest = trim_start(t.skip(1));
        if !is_prefix(name, rest) {
            false
        } else {
            let after = trim_start(rest.skip(name.len() as int));
            !(after.len() > 0 && is_id_char(after[0])) && (after.len() == 0 || after[0] == '(')
        }
    }
}

pub fn is_named_decorator(value: &str, name: &str) -> (b: bool)
    ensures
        b == named_decorator_spec(value@, name@),
{
    let v = chars_of(value);
    let nm = chars_of(name);
    let (a, e) = trim_bounds(&v, 0, v.len());
    assert(v@.subrange(0, v.len() as int) =~= v@);
    let ghost t = v@.subrange(a as int, e as int);
    if !(a < e && v[a] == '@') {
        return false;
    }
    let (r0, _r1) = trim_bounds(&v, a + 1, e);
    assert(t.skip(1) =~= v@.subrange(a + 1, e as int));
    let ghost rest = v@.subrange(r0 as int, e as int);
    if !crate::text::has_prefix(&v, r0, e, &nm) {
        return false;
    }
    let (n0, _n1) = trim_bounds(&v, r0 + nm.len(), e);
    assert(rest.skip(nm.len() as int) =~= v@.subrange(r0 + nm.len(), e as int));
    let ghost after = v@.subrange(n0 as int, e as int);
    let glued = n0 < e && is_identifier_character(v[n0]);
    let ok = n0 == e || v[n0] == '(';
    !glued && ok
}

/// The position of the first `sep` outside quotes and brackets in `s[i..]`.
pub open spec fn separator_scan(
    s: Seq<char>,
    sep: char,
    i: int,
    quote: Option<char>,
    escaped: bool,
    p: nat,
    b: nat,
    c: nat,
) -> Option<int>
    decreases s.len() - i,
{
    if i < 0 || i >= s.len() {
        None
    } else {
        match quote {
            Some(dl) => if escaped {
                separator_scan(s, sep, i + 1, quote, false, p, b, c)
            } else if s[i] == '\\' {
                separator_scan(s, sep, i + 1, quote, true, p, b, c)
            } else if s[i] == dl {
                separator_scan(s, sep, i + 1, None, escaped, p, b, c)
            } else {
                separator_scan(s, sep, i + 1, quote, escaped, p, b, c)
            },
            None => if s[i] == '\'' || s[i] == '"' || s[i] == '`' {
                separator_scan(s, sep, i + 1, Some(s[i]), escaped, p, b, c)
            } else if s[i] == '(' {
                separator_scan(s, sep, i + 1, quote, escaped, p + 1, b, c)
            } else if s[i] == ')' {
                separator_scan(s, sep, i + 1, quote, escaped, dec(p), b, c)
            } else if s[i] == '[' {
                separator_scan(s, sep, i + 1, quote, escaped, p, b + 1, c)
            } else if s[i] == ']' {
                separator_scan(s, sep, i + 1, quote, escaped, p, dec(b), c)
            } else if s[i] == '{' {
                separator_scan(s, sep, i + 1, quote, escaped, p, b, c + 1)
            } else if s[i] == '}' {
                separator_scan(s, sep, i + 1, quote, escaped, p, b, dec(c))
            } else if s[i] == sep && p == 0 && b == 0 && c == 0 {
                Some(i)
            } else {
                separator_scan(s, sep, i + 1, quote, escaped, p, b, c)
            },
        }
    }
}

proof fn lemma_separator_scan(s: Seq<char>, sep: char, i: int, q: Option<char>, e: bool, p: nat, b: nat, c: nat)
    ensures
        separator_scan(s, sep, i, q, e, p, b, c) matches Some(r) ==> i <= r < s.len(),
    decreases s.len() - i,
{
    if 0 <= i < s.len() {
        match q {
            Some(dl) => if e {
                lemma_separator_scan(s, sep, i + 1, q, false, p, b, c);
            } else if s[i] == '\\' {
                lemma_separator_scan(s, sep, i + 1, q, true, p, b, c);
            } else if s[i] == dl {
                lemma_separator_scan(s, sep, i + 1, None, e, p, b, c);
            } else {
                lemma_separator_scan(s, sep, i + 1, q, e, p, b, c);
            },
            None => if s[i] == '\'' || s[i] == '"' || s[i] == '`' {
                lemma_separator_scan(s, sep, i + 1, Some(s[i]), e, p, b, c);
            } else if s[i] == '(' {
                lemma_separator_scan(s, sep, i + 1, q, e, p + 1, b, c);
            } else if s[i] == ')' {
                lemma_separator_scan(s, sep, i + 1, q, e, dec(p), b, c);
            } else if s[i] == '[' {
                lemma_separator_scan(s, sep, i + 1, q, e, p, b + 1, c);
            } else if s[i] == ']' {
                lemma_separator_scan(s, sep, i + 1, q, e, p, dec(b), c);
            } else if s[i] == '{' {
                lemma_separator_scan(s, sep, i + 1, q, e, p, b, c + 1);
            } else if s[i] == '}' {
                lemma_separator_scan(s, sep, i + 1, q, e, p, b, dec(c));
            } else if s[i] == sep && p == 0 && b == 0 && c == 0 {
            } else {
                lemma_separator_scan(s, sep, i + 1, q, e, p, b, c);
            },
        }
    }
}

/// The first `sep` of `v` outside quotes and brackets.
pub fn top_level_separator(v: &Vec<char>, sep: char) -> (r: Option<usize>)
    ensures
        r is None <==> separator_scan(v@, sep, 0, None, false, 0, 0, 0) is None,
        r matches Some(i) ==> i < v.len() && separator_scan(v@, sep, 0, None, false, 0, 0, 0) == Some(i as int),
{
    proof {
        lemma_separator_scan(v@, sep, 0, None, false, 0, 0, 0);
    }
    let mut quote: Option<char> = None;
    let mut escaped = false;
    let mut p: usize = 0;
    let mut b: usize = 0;
    let mut c: usize = 0;
    let mut i: usize = 0;
    while i < v.len()
        invariant
            i <= v.len(),
            p + b + c <= i,
            separator_scan(v@, sep, 0, None, false, 0, 0, 0) == separator_scan(
                v@,
                sep,
                i as int,
                quote,
                escaped,
                p as nat,
                b as nat,
                c as nat,
            ),
        decreases v.len() - i,
    {
        let ch = v[i];
        match quote {
            Some(dl) => {
                if escaped {
                    escaped = false;
                } else if ch == '\\' {
                    escaped = true;
                } else if ch == dl {
                    quote = None;
                }
            },
            None => {
                if ch == '\'' || ch == '"' || ch == '`' {
                    quote = Some(ch);
                } else if ch == '(' {
                    p += 1;
                } else if ch == ')' {
                    p = if p > 0 { p - 1 } else { 0 };
                } else if ch == '[' {
                    b += 1;
                } else if ch == ']' {
                    b = if b > 0 { b - 1 } else { 0 };
                } else if ch == '{' {
                    c += 1;
                } else if ch == '}' {
                    c = if c > 0 { c - 1 } else { 0 };
                } else if ch == sep && p == 0 && b == 0 && c == 0 {
                    return Some(i);
                }
            },
        }
        i += 1;
    }
    None
}

/// An identifier-like reference such as `CacheService` or `Scope.REQUEST`.
pub open spec fn reference_char(c: char) -> bool {
    c == '_' || c == '$' || c == '.' || is_ascii_alnum(c)
}

pub open spec fn all_reference_chars(n: Seq<char>) -> bool {
    forall|k: int| 1 <= k < n.len() ==> reference_char(#[trigger] n[k])
}

/// A binding token: a quoted string literal's contents, or an identifier path
/// written without whitespace.
pub open spec fn binding_reference_spec(value: Seq<char>) -> Option<Seq<char>> {
    let v = trim(value);
    if v.len() >= 2 && (v[0] == '\'' || v[0] == '"') && v[0] == v.last() {
        let token = v.subrange(1, v.len() - 1);
        if token.len() == 0 { None } else { Some(token) }
    } else {
        let n = strip_ws(v);
        if n.len() == 0 {
            None
        } else if !(n[0] == '_' || n[0] == '$' || is_ascii_alpha(n[0])) {
            None
        } else if all_reference_chars(n) {
            Some(n)
        } else {
            None
        }
    }
}

pub fn normalize_binding_reference(v: &Vec<char>, lo: usize, hi: usize) -> (r: Option<String>)
    requires
        lo <= hi <= v.len(),
    ensures
        opt_view(r) == binding_reference_spec(v@.subrange(lo as int, hi as int)),
{
    let (a, e) = trim_bounds(v, lo, hi);
    let ghost t = v@.subrange(a as int, e as int);
    if e - a >= 2 && (v[a] == '\'' || v[a] == '"') && v[a] == v[e - 1] {
        assert(t.subrange(1, t.len() - 1) =~= v@.subrange(a + 1, e - 1));
        if e - 1 == a + 1 {
            return None;
        }
        return Some(string_from(v, a + 1, e - 1));
    }
    let n = vec_without_ws(v, a, e);
    if n.len() == 0 {
        return None;
    }
    let first = n[0];
    if !(first == '_' || first == '$' || ('a' <= first && first <= 'z') || ('A' <= first && first <= 'Z')) {
        return None;
    }
    let ghost expected = binding_reference_spec(v@.subrange(lo as int, hi as int));
    assert(expected == (if all_reference_chars(n@) { Some(n@) } else { None }));
    let mut k: usize = 1;
    while k < n.len()
        invariant
            1 <= k <= n.len(),
            expected == (if all_reference_chars(n@) { Some(n@) } else { None }),
            expected == binding_reference_spec(v@.subrange(lo as int, hi as int)),
            forall|j: int| 1 <= j < k ==> reference_char(#[trigger] n@[j]),
        decreases n.len() - k,
    {
        let c = n[k];
        if !(c == '_' || c == '$' || c == '.' || crate::text::is_ascii_alphanumeric(c)) {
            assert(!reference_char(n@[k as int]));
            assert(!all_reference_chars(n@));
            return None;
        }
        k += 1;
    }
    let s = string_from(&n, 0, n.len());
    assert(n@.subrange(0, n.len() as int) =~= n@);
    Some(s)
}


/// A character that ends a `scope:` value.
pub open spec fn stop_char(c: char) -> bool {
    c == ',' || c == '}' || c == ')' || c == '\n' || c == '\r'
}

/// The first position at or after `i` of a character that ends a value, or
/// the length of `s`.
pub open spec fn first_stop(s: Seq<char>, i: int) -> int
    decreases s.len() - i,
{
    if i < 0 || i >= s.len() {
        s.len() as int
    } else if stop_char(s[i]) {
        i
    } else {
        first_stop(s, i + 1)
    }
}

/// The value of the first `scope: ...` entry at or after `offset` whose key
/// is not the tail of a longer identifier, trimmed, up to the next `,`, `}`,
/// `)` or line break.
pub open spec fn scope_scan(s: Seq<char>, offset: int) -> Option<Seq<char>>
    decreases s.len() - offset,
{
    match first_match_from(s, offset, "scope"@) {
        None => None,
        Some(idx) => if idx < offset || idx + 5 > s.len() {
            None
        } else {
            let glued = idx > 0 && is_id_char(s[idx - 1]);
            let after = trim_start(s.skip(idx + 5));
            if !glued && after.len() > 0 && after[0] == ':' {
                let rest = after.skip(1);
                Some(trim(rest.take(first_stop(rest, 0))))
            } else {
                scope_scan(s, idx + 5)
            }
        },
    }
}

/// The `scope` value of a decorator or provider text.
pub fn scope_value(v: &Vec<char>) -> (r: Option<String>)
    ensures
        opt_view(r) == scope_scan(v@, 0),
{
    let pat = chars_of("scope");
    proof {
        reveal_strlit("scope");
    }
    let mut offset: usize = 0;
    loop
        invariant
            offset <= v.len(),
            pat@ == "scope"@,
            pat@.len() == 5,
            scope_scan(v@, 0) == scope_scan(v@, offset as int),
        decreases v.len() - offset,
    {
        match find_from(v, offset, &pat) {
            None => {
                return None;
            },
            Some(idx) => {
                assert(idx + 5 <= v.len());
                let glued = idx > 0 && is_identifier_character(v[idx - 1]);
                let (a, _e) = trim_bounds(v, idx + 5, v.len());
                assert(v@.skip(idx + 5) =~= v@.subrange(idx + 5, v.len() as int));
                if !glued && a < v.len() && v[a] == ':' {
                    let ghost after = v@.subrange(a as int, v.len() as int);
                    let ghost rest = after.skip(1);
                    assert(rest =~= v@.subrange(a + 1, v.len() as int));
                    let mut end = a + 1;
                    while end < v.len() && !(v[end] == ',' || v[end] == '}' || v[end] == ')' || v[end] == '\n' || v[end] == '\r')
                        invariant
                            a + 1 <= end <= v.len(),
                            rest == v@.subrange(a + 1, v.len() as int),
                            first_stop(rest, 0) == first_stop(rest, end - (a + 1)),
                        decreases v.len() - end,
                    {
                        assert(rest[end - (a + 1)] == v@[end as int]);
                        end += 1;
                    }
                    if end < v.len() {
                        assert(rest[end - (a + 1)] == v@[end as int]);
                    }
                    assert(rest.take(end - (a + 1)) =~= v@.subrange(a + 1, end as int));
                    let (x, y) = trim_bounds(v, a + 1, end);
                    return Some(string_from(v, x, y));
                }
                offset = idx + 5;
            },
        }
    }
}

/// The lifetime a NestJS `Scope` member stands for: `Scope.DEFAULT` is a
/// singleton, `Scope.REQUEST` scoped and `Scope.TRANSIENT` transient; any
/// other value is unknown.
pub open spec fn lifetime_of_scope(scope: Seq<char>) -> Option<Seq<char>> {
    match normalize_type_spec(scope) {
        Some(n) => if n == "Scope.DEFAULT"@ {
            Some("singleton"@)
        } else if n == "Scope.REQUEST"@ {
            Some("scoped"@)
        } else if n == "Scope.TRANSIENT"@ {
            Some("transient"@)
        } else {
            None
        },
        None => None,
    }
}

pub fn nestjs_lifetime_from_scope(scope: &Vec<char>) -> (r: Option<String>)
    ensures
        opt_view(r) == lifetime_of_scope(scope@),
{
    assert(scope@.subrange(0, scope.len() as int) =~= scope@);
    match normalize_type(scope, 0, scope.len()) {
        Some(n) => if str_eq(n.as_str(), "Scope.DEFAULT") {
            Some(own("singleton"))
        } else if str_eq(n.as_str(), "Scope.REQUEST") {
            Some(own("scoped"))
        } else if str_eq(n.as_str(), "Scope.TRANSIENT") {
            Some(own("transient"))
        } else {
            None
        },
        None => None,
    }
}

/// The lifetime a NestJS decorator states: that of its `scope` option, and a
/// singleton where it has none.
pub open spec fn decorator_lifetime(decorator: Seq<char>) -> Option<Seq<char>> {
    match scope_scan(decorator, 0) {
        Some(scope) => lifetime_of_scope(scope),
        None => Some("singleton"@),
    }
}

pub fn nestjs_lifetime(decorator: &str) -> (r: Option<String>)
    ensures
        opt_view(r) == decorator_lifetime(decorator@),
{
    let v = chars_of(decorator);
    match scope_value(&v) {
        Some(scope) => {
            let sv = chars_of(scope.as_str());
            nestjs_lifetime_from_scope(&sv)
        },
        None => Some(own("singleton")),
    }
}


/// The quote characters stripped from both ends of an object key.
pub open spec fn key_quotes() -> Seq<char> {
    seq!['"', '\'']
}

/// The value of an object pair `key: value` when its key, trimmed and
/// stripped of quotes, is `property`.
pub open spec fn pair_value(pair: Seq<char>, property: Seq<char>) -> Option<Seq<char>> {
    match separator_scan(pair, ':', 0, None, false, 0, 0, 0) {
        None => None,
        Some(i) => {
            let key = trim_end_in(trim_start_in(trim(pair.take(i)), key_quotes()), key_quotes());
            if key == property {
                Some(trim(pair.skip(i + 1)))
            } else {
                None
            }
        },
    }
}

pub fn pair_property_value(pair: &str, property: &str) -> (r: Option<String>)
    ensures
        opt_view(r) == pair_value(pair@, property@),
{
    let v = chars_of(pair);
    let sep = match top_level_separator(&v, ':') {
        Some(i) => i,
        None => return None,
    };
    let quotes: Vec<char> = vec!['"', '\''];
    assert(quotes@ =~= key_quotes());
    let (k0, k1) = trim_bounds(&v, 0, sep);
    assert(v@.take(sep as int) =~= v@.subrange(0, sep as int));
    let q0 = trim_start_set(&v, k0, k1, &quotes);
    let q1 = trim_end_set(&v, q0, k1, &quotes);
    let key = string_from(&v, q0, q1);
    if !str_eq(key.as_str(), property) {
        return None;
    }
    let (a, e) = trim_bounds(&v, sep + 1, v.len());
    assert(v@.skip(sep + 1) =~= v@.subrange(sep + 1, v.len() as int));
    Some(string_from(&v, a, e))
}

/// The value of the first `pair` child at or after `i` that sets `property`.
pub open spec fn property_from(children: Seq<NodeInfo>, property: Seq<char>, i: int) -> Option<Seq<char>>
    decreases children.len() - i,
{
    if i < 0 || i >= children.len() {
        None
    } else if children[i].kind@ == "pair"@ && pair_value(children[i].text@, property) is Some {
        pair_value(children[i].text@, property)
    } else {
        property_from(children, property, i + 1)
    }
}

/// The value an object literal, given by its child nodes, sets for `property`.
pub fn object_property_value(children: &Vec<NodeInfo>, property: &str) -> (r: Option<String>)
    ensures
        opt_view(r) == property_from(children@, property@, 0),
{
    let mut i: usize = 0;
    while i < children.len()
        invariant
            i <= children.len(),
            property_from(children@, property@, 0) == property_from(children@, property@, i as int),
        decreases children.len() - i,
    {
        let child = &children[i];
        if str_eq(child.kind.as_str(), "pair") {
            let found = pair_property_value(child.text.as_str(), property);
            if found.is_some() {
                return found;
            }
        }
        i += 1;
    }
    None
}

/// The binding a reference written in source denotes, if any.
pub open spec fn reference_of(value: Option<Seq<char>>) -> Option<Seq<char>> {
    match value {
        Some(v) => binding_reference_spec(v),
        None => None,
    }
}

/// The language of a NestJS source: JavaScript for `.js`, `.jsx`, `.mjs`
/// and `.cjs` files, TypeScript otherwise.
pub open spec fn nest_language(file: Seq<char>) -> Seq<char> {
    if is_suffix(".js"@, file) || is_suffix(".jsx"@, file) || is_suffix(".mjs"@, file) || is_suffix(".cjs"@, file) {
        "javascript"@
    } else {
        "typescript"@
    }
}

pub fn script_language(file: &str) -> (l: &'static str)
    ensures
        l@ == nest_language(file@),
{
    if ends_with(file, ".js") || ends_with(file, ".jsx") || ends_with(file, ".mjs") || ends_with(file, ".cjs") {
        "javascript"
    } else {
        "typescript"
    }
}

/// The binding of a NestJS provider object `{ provide: A, useClass: B }`,
/// with the lifetime of its `scope` entry (a singleton without one).
pub open spec fn provider_spec(file: Seq<char>, children: Seq<NodeInfo>, line: usize) -> Option<DIView> {
    let provide = reference_of(property_from(children, "provide"@, 0));
    let use_class = reference_of(property_from(children, "useClass"@, 0));
    if provide is None || use_class is None {
        None
    } else {
        let lifetime = match property_from(children, "scope"@, 0) {
            Some(v) => lifetime_of_scope(v),
            None => Some("singleton"@),
        };
        Some(make_binding(file, nest_language(file), provide->0, use_class->0, lifetime, "nestjs"@, line))
    }
}

fn reference_value(value: Option<String>) -> (r: Option<String>)
    ensures
        opt_view(r) == reference_of(opt_view(value)),
{
    match value {
        Some(s) => {
            let v = chars_of(s.as_str());
            assert(v@.subrange(0, v.len() as int) =~= v@);
            normalize_binding_reference(&v, 0, v.len())
        },
        None => None,
    }
}

/// The binding a NestJS `useClass` provider object declares on `line`.
pub fn nestjs_use_class_provider(file: &str, children: &Vec<NodeInfo>, line: usize) -> (r: Option<DIFact>)
    ensures
        opt_di_view(r) == provider_spec(file@, children@, line),
{
    let provide = match reference_value(object_property_value(children, "provide")) {
        Some(p) => p,
        None => return None,
    };
    let use_class = match reference_value(object_property_value(children, "useClass")) {
        Some(c) => c,
        None => return None,
    };
    let lifetime = match object_property_value(children, "scope") {
        Some(v) => {
            let sv = chars_of(v.as_str());
            nestjs_lifetime_from_scope(&sv)
        },
        None => Some(own("singleton")),
    };
    Some(new_fact(file, script_language(file), provide, use_class, lifetime, "nestjs", line))
}

/// The text of the first decorator child at or after `i` named `name`.
pub open spec fn decorator_from(children: Seq<NodeInfo>, name: Seq<char>, i: int) -> Option<Seq<char>>
    decreases children.len() - i,
{
    if i < 0 || i >= children.len() {
        None
    } else if children[i].kind@ == "decorator"@ && named_decorator_spec(children[i].text@, name) {
        Some(children[i].text@)
    } else {
        decorator_from(children, name, i + 1)
    }
}

/// The first decorator among a declaration's child nodes named `name`.
pub fn direct_named_decorator(children: &Vec<NodeInfo>, name: &str) -> (r: Option<String>)
    ensures
        opt_view(r) == decorator_from(children@, name@, 0),
{
    let mut i: usize = 0;
    while i < children.len()
        invariant
            i <= children.len(),
            decorator_from(children@, name@, 0) == decorator_from(children@, name@, i as int),
        decreases children.len() - i,
    {
        let child = &children[i];
        if str_eq(child.kind.as_str(), "decorator") && is_named_decorator(child.text.as_str(), name) {
            return Some(own(child.text.as_str()));
        }
        i += 1;
    }
    None
}

/// The binding of a class marked `@Injectable`: the class bound to itself,
/// with the lifetime its decorator states.  `decorators` are the child
/// nodes of the declaration that owns the decorators, `name` the text of the
/// class name.
pub open spec fn injectable_spec(
    file: Seq<char>,
    decorators: Seq<NodeInfo>,
    name: Option<Seq<char>>,
    line: usize,
) -> Option<DIView> {
    match decorator_from(decorators, "Injectable"@, 0) {
        None => None,
        Some(d) => match reference_of(name) {
            None => None,
            Some(class_name) => Some(
                make_binding(file, nest_language(file), class_name, class_name, decorator_lifetime(d), "nestjs"@, line),
            ),
        },
    }
}

/// The binding a NestJS injectable class declares on `line`.
pub fn nestjs_injectable(file: &str, decorators: &Vec<NodeInfo>, name: Option<String>, line: usize) -> (r: Option<DIFact>)
    ensures
        opt_di_view(r) == injectable_spec(file@, decorators@, opt_view(name), line),
{
    let decorator = match direct_named_decorator(decorators, "Injectable") {
        Some(d) => d,
        None => return None,
    };
    let class_name = match reference_value(name) {
        Some(n) => n,
        None => return None,
    };
    let lifetime = nestjs_lifetime(decorator.as_str());
    let same = own(class_name.as_str());
    Some(new_fact(file, script_language(file), class_name, same, lifetime, "nestjs", line))
}


/// A list of bindings none of which repeats another.
pub open spec fn distinct_bindings(s: Seq<DIView>) -> bool {
    forall|i: int, j: int| 0 <= i < j < s.len() ==> !same_binding(#[trigger] s[i], #[trigger] s[j])
}

proof fn lemma_first_bindings_of_distinct(s: Seq<DIView>)
    requires
        distinct_bindings(s),
    ensures
        first_bindings(s) == s,
    decreases s.len(),
{
    if s.len() > 0 {
        let p = s.drop_last();
        assert(distinct_bindings(p)) by {
            assert forall|i: int, j: int| 0 <= i < j < p.len() implies !same_binding(#[trigger] p[i], #[trigger] p[j]) by {
                assert(p[i] == s[i] && p[j] == s[j]);
            }
        }
        lemma_first_bindings_of_distinct(p);
        if seen_before(s, s.len() - 1, s.last()) {
            let j = choose|j: int| 0 <= j < s.len() - 1 && same_binding(#[trigger] s[j], s.last());
            assert(!same_binding(s[j], s[s.len() - 1]));
        }
        assert(p.push(s.last()) =~= s);
    }
}

/// Resolving twice is resolving once: the first bindings of a resolved list
/// are the list itself.
pub proof fn lemma_first_bindings_idempotent(s: Seq<DIView>)
    ensures
        first_bindings(first_bindings(s)) == first_bindings(s),
{
    lemma_first_bindings_distinct(s);
    lemma_first_bindings_of_distinct(first_bindings(s));
}

/// The bindings that the candidates hold, in order.
pub open spec fn somes(s: Seq<Option<DIView>>) -> Seq<DIView>
    decreases s.len(),
{
    if s.len() == 0 {
        Seq::empty()
    } else {
        let prev = somes(s.drop_last());
        match s.last() {
            Some(f) => prev.push(f),
            None => prev,
        }
    }
}

pub open spec fn call_views(calls: Seq<(String, usize)>) -> Seq<(Seq<char>, usize)> {
    calls.map_values(|c: (String, usize)| (c.0@, c.1))
}

/// The binding each registration call states, if any; a call is the text of
/// the called function and its line.
pub open spec fn aspnet_candidates(file: Seq<char>, calls: Seq<(Seq<char>, usize)>) -> Seq<Option<DIView>> {
    calls.map_values(|c: (Seq<char>, usize)| aspnet_spec(file, c.0, c.1))
}

/// The resolved bindings of a file's ASP.NET Core registration calls.
pub fn aspnet_bindings(file: &str, calls: &Vec<(String, usize)>) -> (out: Vec<DIFact>)
    ensures
        di_views(out@) == first_bindings(somes(aspnet_candidates(file@, call_views(calls@)))),
{
    let ghost cands = aspnet_candidates(file@, call_views(calls@));
    let mut facts: Vec<DIFact> = Vec::new();
    let mut i: usize = 0;
    while i < calls.len()
        invariant
            i <= calls.len(),
            cands == aspnet_candidates(file@, call_views(calls@)),
            di_views(facts@) == somes(cands.take(i as int)),
        decreases calls.len() - i,
    {
        let r = aspnet_binding(file, calls[i].0.as_str(), calls[i].1);
        assert(cands.take(i + 1).drop_last() =~= cands.take(i as int));
        assert(cands.take(i + 1).last() == opt_di_view(r));
        match r {
            Some(f) => {
                let ghost before = facts@;
                facts.push(f);
                assert(di_views(facts@) =~= di_views(before).push(f@));
            },
            None => {},
        }
        i += 1;
    }
    assert(cands.take(calls.len() as int) =~= cands);
    resolve_di_bindings(facts)
}

/// A class declaration as the NestJS scanner reads it: the child nodes of the
/// declaration that carries its decorators (the enclosing `export` statement
/// where there is one), the text of its name and its line.
pub struct ClassNode {
    pub decorators: Vec<NodeInfo>,
    pub name: Option<String>,
    pub line: usize,
}

/// An object literal as the NestJS scanner reads it: its child nodes, the
/// byte range it spans and its line.
pub struct ObjectNode {
    pub children: Vec<NodeInfo>,
    pub start_byte: usize,
    pub end_byte: usize,
    pub line: usize,
}

/// The object lies within a `@Module(...)` decorator.
pub open spec fn in_module(decorators: Seq<NodeInfo>, o: ObjectNode) -> bool {
    exists|k: int|
        0 <= k < decorators.len() && named_decorator_spec(#[trigger] decorators[k].text@, "Module"@)
            && decorators[k].start_byte <= o.start_byte && o.end_byte <= decorators[k].end_byte
}

/// The binding each injectable class and then each module provider object
/// states, if any.
pub open spec fn nestjs_candidates(
    file: Seq<char>,
    classes: Seq<ClassNode>,
    decorators: Seq<NodeInfo>,
    objects: Seq<ObjectNode>,
) -> Seq<Option<DIView>> {
    classes.map_values(|c: ClassNode| injectable_spec(file, c.decorators@, opt_view(c.name), c.line))
        + objects.map_values(
        |o: ObjectNode|
            if in_module(decorators, o) {
                provider_spec(file, o.children@, o.line)
            } else {
                None
            },
    )
}

fn module_ranges(decorators: &Vec<NodeInfo>) -> (ranges: Vec<(usize, usize)>)
    ensures
        forall|s: usize, e: usize|
            ranges@.contains((s, e)) <==> exists|k: int|
                0 <= k < decorators.len() && named_decorator_spec(#[trigger] decorators@[k].text@, "Module"@)
                    && decorators@[k].start_byte == s && decorators@[k].end_byte == e,
{
    let mut ranges: Vec<(usize, usize)> = Vec::new();
    let mut i: usize = 0;
    while i < decorators.len()
        invariant
            i <= decorators.len(),
            forall|s: usize, e: usize|
                ranges@.contains((s, e)) <==> exists|k: int|
                    0 <= k < i && named_decorator_spec(#[trigger] decorators@[k].text@, "Module"@)
                        && decorators@[k].start_byte == s && decorators@[k].end_byte == e,
        decreases decorators.len() - i,
    {
        let d = &decorators[i];
        if is_named_decorator(d.text.as_str(), "Module") {
            let ghost before = ranges@;
            ranges.push((d.start_byte, d.end_byte));
            assert forall|s: usize, e: usize|
                ranges@.contains((s, e)) <==> exists|k: int|
                    0 <= k < i + 1 && named_decorator_spec(#[trigger] decorators@[k].text@, "Module"@)
                        && decorators@[k].start_byte == s && decorators@[k].end_byte == e by {
                if ranges@.contains((s, e)) {
                    let t = choose|t: int| 0 <= t < ranges@.len() && ranges@[t] == (s, e);
                    if t < before.len() {
                        assert(before.contains((s, e)));
                    }
                }
                if exists|k: int|
                    0 <= k < i + 1 && named_decorator_spec(#[trigger] decorators@[k].text@, "Module"@)
                        && decorators@[k].start_byte == s && decorators@[k].end_byte == e {
                    let k = choose|k: int|
                        0 <= k < i + 1 && named_decorator_spec(#[trigger] decorators@[k].text@, "Module"@)
                            && decorators@[k].start_byte == s && decorators@[k].end_byte == e;
                    if k < i {
                        assert(before.contains((s, e)));
                        let t = choose|t: int| 0 <= t < before.len() && before[t] == (s, e);
                        assert(ranges@[t] == (s, e));
                    } else {
                        assert(ranges@[before.len() as int] == (s, e));
                    }
                }
            }
        } else {
            assert forall|s: usize, e: usize|
                ranges@.contains((s, e)) <==> exists|k: int|
                    0 <= k < i + 1 && named_decorator_spec(#[trigger] decorators@[k].text@, "Module"@)
                        && decorators@[k].start_byte == s && decorators@[k].end_byte == e by {
                if exists|k: int|
                    0 <= k < i + 1 && named_decorator_spec(#[trigger] decorators@[k].text@, "Module"@)
                        && decorators@[k].start_byte == s && decorators@[k].end_byte == e {
                    let k = choose|k: int|
                        0 <= k < i + 1 && named_decorator_spec(#[trigger] decorators@[k].text@, "Module"@)
                            && decorators@[k].start_byte == s && decorators@[k].end_byte == e;
                    assert(k < i);
                }
            }
        }
        i += 1;
    }
    ranges
}

fn inside_any(ranges: &Vec<(usize, usize)>, start: usize, end: usize) -> (b: bool)
    ensures
        b <==> exists|t: int| 0 <= t < ranges.len() && (#[trigger] ranges@[t]).0 <= start && end <= ranges@[t].1,
{
    let mut t: usize = 0;
    while t < ranges.len()
        invariant
            t <= ranges.len(),
            forall|u: int| 0 <= u < t ==> !((#[trigger] ranges@[u]).0 <= start && end <= ranges@[u].1),
        decreases ranges.len() - t,
    {
        if ranges[t].0 <= start && end <= ranges[t].1 {
            return true;
        }
        t += 1;
    }
    false
}

/// The resolved bindings of a file's NestJS injectable classes and of the
/// `useClass` providers declared inside `@Module` decorators.
pub fn nestjs_bindings(
    file: &str,
    classes: &Vec<ClassNode>,
    decorators: &Vec<NodeInfo>,
    objects: &Vec<ObjectNode>,
) -> (out: Vec<DIFact>)
    ensures
        di_views(out@) == first_bindings(somes(nestjs_candidates(file@, classes@, decorators@, objects@))),
{
    let ghost cands = nestjs_candidates(file@, classes@, decorators@, objects@);
    let ghost nc = classes.len() as int;
    let mut facts: Vec<DIFact> = Vec::new();
    let mut i: usize = 0;
    while i < classes.len()
        invariant
            i <= classes.len(),
            nc == classes.len(),
            cands == nestjs_candidates(file@, classes@, decorators@, objects@),
            di_views(facts@) == somes(cands.take(i as int)),
        decreases classes.len() - i,
    {
        let c = &classes[i];
        let name = match &c.name {
            Some(n) => Some(own(n.as_str())),
            None => None,
        };
        let r = nestjs_injectable(file, &c.decorators, name, c.line);
        assert(cands.take(i + 1).drop_last() =~= cands.take(i as int));
        assert(cands.take(i + 1).last() == cands[i as int]);
        match r {
            Some(f) => {
                let ghost before = facts@;
                facts.push(f);
                assert(di_views(facts@) =~= di_views(before).push(f@));
            },
            None => {},
        }
        i += 1;
    }
    let ranges = module_ranges(decorators);
    let mut j: usize = 0;
    while j < objects.len()
        invariant
            j <= objects.len(),
            nc == classes.len(),
            cands == nestjs_candidates(file@, classes@, decorators@, objects@),
            cands.len() == nc + objects.len(),
            di_views(facts@) == somes(cands.take(nc + j)),
            forall|s: usize, e: usize|
                ranges@.contains((s, e)) <==> exists|k: int|
                    0 <= k < decorators.len() && named_decorator_spec(#[trigger] decorators@[k].text@, "Module"@)
                        && decorators@[k].start_byte == s && decorators@[k].end_byte == e,
        decreases objects.len() - j,
    {
        let o = &objects[j];
        let inside = inside_any(&ranges, o.start_byte, o.end_byte);
        proof {
            if inside {
                let t = choose|t: int| 0 <= t < ranges.len() && (#[trigger] ranges@[t]).0 <= o.start_byte && o.end_byte <= ranges@[t].1;
                assert(ranges@.contains(ranges@[t]));
                let k = choose|k: int|
                    0 <= k < decorators.len() && named_decorator_spec(#[trigger] decorators@[k].text@, "Module"@)
                        && decorators@[k].start_byte == ranges@[t].0 && decorators@[k].end_byte == ranges@[t].1;
                assert(in_module(decorators@, *o));
            }
            if in_module(decorators@, *o) {
                let k = choose|k: int|
                    0 <= k < decorators.len() && named_decorator_spec(#[trigger] decorators@[k].text@, "Module"@)
                        && decorators@[k].start_byte <= o.start_byte && o.end_byte <= decorators@[k].end_byte;
                let pair = (decorators@[k].start_byte, decorators@[k].end_byte);
                assert(ranges@.contains(pair));
                let t = choose|t: int| 0 <= t < ranges@.len() && ranges@[t] == pair;
                assert(inside);
            }
        }
        assert(cands.take(nc + j + 1).drop_last() =~= cands.take(nc + j));
        assert(cands.take(nc + j + 1).last() == cands[nc + j]);
        if inside {
            match nestjs_use_class_provider(file, &o.children, o.line) {
                Some(f) => {
                    let ghost before = facts@;
                    facts.push(f);
                    assert(di_views(facts@) =~= di_views(before).push(f@));
                },
                None => {},
            }
        }
        j += 1;
    }
    assert(cands.take(nc + objects.len()) =~= cands);
    resolve_di_bindings(facts)
}


/// The number of line feeds in `b`.
pub open spec fn count_newlines(b: Seq<u8>) -> nat
    decreases b.len(),
{
    if b.len() == 0 {
        0
    } else {
        count_newlines(b.drop_last()) + if b.last() == 10u8 { 1nat } else { 0nat }
    }
}

/// The one-based line of a byte offset: one more than the line feeds before
/// it, where the offset falls on a character boundary, and one otherwise
/// (capped at the largest `usize`).
pub open spec fn line_at(bytes: Seq<u8>, offset: int) -> int {
    let n = if is_char_boundary(bytes, offset) {
        count_newlines(bytes.take(offset)) + 1
    } else {
        1
    };
    if n > usize::MAX { usize::MAX as int } else { n as int }
}

pub fn line_number(source: &str, byte_offset: usize) -> (line: usize)
    ensures
        line == line_at(source.spec_bytes(), byte_offset as int),
{
    proof {
        vstd::utf8::encode_utf8_valid_utf8(source@);
    }
    let bytes = source.as_bytes();
    if byte_offset > bytes.len() {
        return 1;
    }
    if !source.is_char_boundary(byte_offset) {
        return 1;
    }
    let mut count: usize = 0;
    let mut i: usize = 0;
    while i < byte_offset
        invariant
            i <= byte_offset <= bytes@.len(),
            bytes@ == source.spec_bytes(),
            count == count_newlines(bytes@.take(i as int)),
            count <= i,
        decreases byte_offset - i,
    {
        assert(bytes@.take(i + 1).drop_last() =~= bytes@.take(i as int));
        if bytes[i] == 10u8 {
            count += 1;
        }
        i += 1;
    }
    if count < usize::MAX { count + 1 } else { count }
}


/// The registration calls among the first `n` nodes of the C# tree of
/// `text` (whose UTF-8 bytes are `bytes`): for each invocation with a
/// `function` field, that field's text and the invocation's line.
pub open spec fn invocations_upto(text: Seq<char>, bytes: Seq<u8>, n: int) -> Seq<(Seq<char>, usize)>
    decreases n,
{
    if n <= 0 {
        Seq::empty()
    } else {
        let prev = invocations_upto(text, bytes, n - 1);
        let i = (n - 1) as usize;
        let info = syntax_node(Grammar::CSharp, text, i);
        if info.kind@ == "invocation_expression"@ {
            match syntax_field_child(Grammar::CSharp, text, i, "function"@) {
                Some(f) => prev.push((f.text@, line_at(bytes, info.start_byte as int) as usize)),
                None => prev,
            }
        } else {
            prev
        }
    }
}

/// The invocations of a C# source; none where the grammar cannot be loaded.
pub open spec fn invocations_of(text: Seq<char>, bytes: Seq<u8>) -> Seq<(Seq<char>, usize)> {
    if grammar_loads(Grammar::CSharp) {
        invocations_upto(text, bytes, syntax_node_count(Grammar::CSharp, text) as int)
    } else {
        Seq::empty()
    }
}

/// The calls of a C# source: the text of each invocation's called function
/// and the invocation's line, in tree order.
fn registration_calls(source: &str) -> (calls: Vec<(String, usize)>)
    ensures
        call_views(calls@) == invocations_of(source@, source.spec_bytes()),
{
    let mut calls: Vec<(String, usize)> = Vec::new();
    let parser = match parser_for(Grammar::CSharp) {
        Some(p) => p,
        None => {
            assert(call_views(calls@) =~= Seq::<(Seq<char>, usize)>::empty());
            return calls;
        },
    };
    let tree = match parse_text(parser, source) {
        Some(t) => t,
        None => return calls,
    };
    let n = node_count(&tree);
    let mut i: usize = 0;
    assert(call_views(calls@) =~= invocations_upto(source@, source.spec_bytes(), 0));
    while i < n
        invariant
            i <= n,
            tree.grammar() == Grammar::CSharp,
            tree.text() == source@,
            n == syntax_node_count(Grammar::CSharp, source@),
            call_views(calls@) == invocations_upto(source@, source.spec_bytes(), i as int),
        decreases n - i,
    {
        let info = node_at(&tree, i);
        let ghost before = call_views(calls@);
        if str_eq(info.kind.as_str(), "invocation_expression") {
            match field_child_at(&tree, i, "function") {
                Some(function) => {
                    let line = line_number(source, info.start_byte);
                    let ghost t = function.text@;
                    calls.push((function.text, line));
                    assert(call_views(calls@) =~= before.push((t, line)));
                },
                None => {},
            }
        }
        i += 1;
    }
    calls
}

/// Extract ASP.NET Core's generic service-collection registrations.
///
/// `AddSingleton`, `AddScoped` and `AddTransient` with one generic argument
/// register a type as itself; with two, the first is the contract and the
/// second its implementation. Other overloads state no implementation and
/// are ignored.
pub fn extract_aspnet_di_bindings(file: &str, source: &str) -> (out: Vec<DIFact>)
    ensures
        di_views(out@) == first_bindings(somes(aspnet_candidates(file@, invocations_of(source@, source.spec_bytes())))),
{
    let calls = registration_calls(source);
    let out = aspnet_bindings(file, &calls);
    assert(di_views(out@) == first_bindings(somes(aspnet_candidates(file@, call_views(calls@)))));
    out
}

/// The number of child nodes read of the node at `index` of the tree that
/// `grammar` parses from `text`, or of its parent.
pub open spec fn child_total(grammar: Grammar, text: Seq<char>, index: usize, of_parent: bool) -> u32 {
    if of_parent {
        match syntax_parent_child_count(grammar, text, index) {
            Some(c) => c,
            None => 0,
        }
    } else {
        syntax_child_count(grammar, text, index)
    }
}

/// The first `k` children of the node at `index` (or of its parent) that
/// can be read, in order.
pub open spec fn children_upto(grammar: Grammar, text: Seq<char>, index: usize, of_parent: bool, k: int) -> Seq<NodeInfo>
    decreases k,
{
    if k <= 0 {
        Seq::empty()
    } else {
        let prev = children_upto(grammar, text, index, of_parent, k - 1);
        let child = if of_parent {
            syntax_parent_child(grammar, text, index, (k - 1) as u32)
        } else {
            syntax_child(grammar, text, index, (k - 1) as u32)
        };
        match child {
            Some(c) => prev.push(c),
            None => prev,
        }
    }
}

/// The children of the node at `index`, or of its parent.
pub open spec fn node_children(grammar: Grammar, text: Seq<char>, index: usize, of_parent: bool) -> Seq<NodeInfo> {
    children_upto(grammar, text, index, of_parent, child_total(grammar, text, index, of_parent) as int)
}

/// The child nodes of the node at `index`, or of its parent.
fn children_of(tree: &SyntaxTree, index: usize, of_parent: bool) -> (children: Vec<NodeInfo>)
    ensures
        children@ == node_children(tree.grammar(), tree.text(), index, of_parent),
{
    let mut children: Vec<NodeInfo> = Vec::new();
    let count: u32 = if of_parent {
        match parent_child_count_at(tree, index) {
            Some(c) => c,
            None => 0,
        }
    } else {
        child_count_at(tree, index)
    };
    let mut k: u32 = 0;
    assert(children@ =~= children_upto(tree.grammar(), tree.text(), index, of_parent, 0));
    while k < count
        invariant
            k <= count,
            count == child_total(tree.grammar(), tree.text(), index, of_parent),
            children@ == children_upto(tree.grammar(), tree.text(), index, of_parent, k as int),
        decreases count - k,
    {
        let child = if of_parent {
            parent_child_at(tree, index, k)
        } else {
            child_at(tree, index, k)
        };
        match child {
            Some(c) => children.push(c),
            None => {},
        }
        k += 1;
    }
    children
}

/// The view of a class node: its decorators, its name and its line.
pub open spec fn class_view(c: ClassNode) -> (Seq<NodeInfo>, Option<Seq<char>>, usize) {
    (c.decorators@, opt_view(c.name), c.line)
}

/// The view of an object node: its children, its byte range and its line.
pub open spec fn object_view(o: ObjectNode) -> (Seq<NodeInfo>, usize, usize, usize) {
    (o.children@, o.start_byte, o.end_byte, o.line)
}

/// A class declaration is exported when its parent is an export statement.
pub open spec fn exported_at(text: Seq<char>, i: usize) -> bool {
    syntax_parent_kind(Grammar::TypeScript, text, i) == Some("export_statement"@)
}

/// What the NestJS scanner reads of the first `n` nodes of the TypeScript
/// tree of `text` (UTF-8 bytes `bytes`): the class declarations (with the
/// children of the class, or of its export statement, as decorators), the
/// decorators and the object literals, each in pre-order.
pub open spec fn nest_nodes_upto(text: Seq<char>, bytes: Seq<u8>, n: int) -> (
    Seq<(Seq<NodeInfo>, Option<Seq<char>>, usize)>,
    Seq<NodeInfo>,
    Seq<(Seq<NodeInfo>, usize, usize, usize)>,
)
    decreases n,
{
    if n <= 0 {
        (Seq::empty(), Seq::empty(), Seq::empty())
    } else {
        let (cs, ds, os) = nest_nodes_upto(text, bytes, n - 1);
        let i = (n - 1) as usize;
        let g = Grammar::TypeScript;
        let info = syntax_node(g, text, i);
        if info.kind@ == "class_declaration"@ {
            let name = match syntax_field_child(g, text, i, "name"@) {
                Some(node) => Some(node.text@),
                None => None,
            };
            (cs.push((node_children(g, text, i, exported_at(text, i)), name, line_at(bytes, info.start_byte as int) as usize)), ds, os)
        } else if info.kind@ == "decorator"@ {
            (cs, ds.push(info), os)
        } else if info.kind@ == "object"@ {
            (cs, ds, os.push((node_children(g, text, i, false), info.start_byte, info.end_byte, line_at(bytes, info.start_byte as int) as usize)))
        } else {
            (cs, ds, os)
        }
    }
}

/// The NestJS scanner's reading of a TypeScript source; nothing where the
/// grammar cannot be loaded.
pub open spec fn nest_nodes_of(text: Seq<char>, bytes: Seq<u8>) -> (
    Seq<(Seq<NodeInfo>, Option<Seq<char>>, usize)>,
    Seq<NodeInfo>,
    Seq<(Seq<NodeInfo>, usize, usize, usize)>,
) {
    if grammar_loads(Grammar::TypeScript) {
        nest_nodes_upto(text, bytes, syntax_node_count(Grammar::TypeScript, text) as int)
    } else {
        (Seq::empty(), Seq::empty(), Seq::empty())
    }
}

/// The class declarations, decorators and object literals of a TypeScript
/// source, each in tree order.
fn nestjs_nodes(source: &str) -> (nodes: (Vec<ClassNode>, Vec<NodeInfo>, Vec<ObjectNode>))
    ensures
        (nodes.0@.map_values(|c: ClassNode| class_view(c)), nodes.1@, nodes.2@.map_values(
            |o: ObjectNode| object_view(o),
        )) == nest_nodes_of(source@, source.spec_bytes()),
{
    let mut classes: Vec<ClassNode> = Vec::new();
    let mut decorators: Vec<NodeInfo> = Vec::new();
    let mut objects: Vec<ObjectNode> = Vec::new();
    let parser = match parser_for(Grammar::TypeScript) {
        Some(p) => p,
        None => {
            assert(classes@.map_values(|c: ClassNode| class_view(c)) =~= Seq::<(Seq<NodeInfo>, Option<Seq<char>>, usize)>::empty());
            assert(decorators@ =~= Seq::<NodeInfo>::empty());
            assert(objects@.map_values(|o: ObjectNode| object_view(o)) =~= Seq::<(Seq<NodeInfo>, usize, usize, usize)>::empty());
            return (classes, decorators, objects);
        },
    };
    let tree = match parse_text(parser, source) {
        Some(t) => t,
        None => return (classes, decorators, objects),
    };
    let n = node_count(&tree);
    let mut i: usize = 0;
    let ghost bytes = source.spec_bytes();
    assert(classes@.map_values(|c: ClassNode| class_view(c)) =~= nest_nodes_upto(source@, bytes, 0).0);
    assert(decorators@ =~= nest_nodes_upto(source@, bytes, 0).1);
    assert(objects@.map_values(|o: ObjectNode| object_view(o)) =~= nest_nodes_upto(source@, bytes, 0).2);
    while i < n
        invariant
            i <= n,
            bytes == source.spec_bytes(),
            tree.grammar() == Grammar::TypeScript,
            tree.text() == source@,
            n == syntax_node_count(Grammar::TypeScript, source@),
            classes@.map_values(|c: ClassNode| class_view(c)) == nest_nodes_upto(source@, bytes, i as int).0,
            decorators@ == nest_nodes_upto(source@, bytes, i as int).1,
            objects@.map_values(|o: ObjectNode| object_view(o)) == nest_nodes_upto(source@, bytes, i as int).2,
        decreases n - i,
    {
        let info = node_at(&tree, i);
        let ghost cb = classes@.map_values(|c: ClassNode| class_view(c));
        let ghost ob = objects@.map_values(|o: ObjectNode| object_view(o));
        if str_eq(info.kind.as_str(), "class_declaration") {
            // An exported class carries its decorators on the enclosing
            // export statement.
            let exported = match parent_kind_at(&tree, i) {
                Some(k) => str_eq(k.as_str(), "export_statement"),
                None => false,
            };
            assert(exported == exported_at(source@, i));
            let owner_children = children_of(&tree, i, exported);
            let name = match field_child_at(&tree, i, "name") {
                Some(node) => Some(node.text),
                None => None,
            };
            let line = line_number(source, info.start_byte);
            let c = ClassNode { decorators: owner_children, name, line };
            let ghost cv = class_view(c);
            classes.push(c);
            assert(classes@.map_values(|c: ClassNode| class_view(c)) =~= cb.push(cv));
        } else if str_eq(info.kind.as_str(), "decorator") {
            decorators.push(info);
        } else if str_eq(info.kind.as_str(), "object") {
            let children = children_of(&tree, i, false);
            let line = line_number(source, info.start_byte);
            let o = ObjectNode { children, start_byte: info.start_byte, end_byte: info.end_byte, line };
            let ghost ov = object_view(o);
            objects.push(o);
            assert(objects@.map_values(|o: ObjectNode| object_view(o)) =~= ob.push(ov));
        }
        i += 1;
    }
    (classes, decorators, objects)
}

/// The object spanning `start..end` lies within a `@Module(...)`
/// decorator.
pub open spec fn in_module_range(decorators: Seq<NodeInfo>, start: usize, end: usize) -> bool {
    exists|k: int|
        0 <= k < decorators.len() && named_decorator_spec(#[trigger] decorators[k].text@, "Module"@)
            && decorators[k].start_byte <= start && end <= decorators[k].end_byte
}

/// The binding each class and object read by the NestJS scanner states,
/// if any.
pub open spec fn nest_candidates_of(
    file: Seq<char>,
    nodes: (Seq<(Seq<NodeInfo>, Option<Seq<char>>, usize)>, Seq<NodeInfo>, Seq<(Seq<NodeInfo>, usize, usize, usize)>),
) -> Seq<Option<DIView>> {
    nodes.0.map_values(|c: (Seq<NodeInfo>, Option<Seq<char>>, usize)| injectable_spec(file, c.0, c.1, c.2))
        + nodes.2.map_values(
        |o: (Seq<NodeInfo>, usize, usize, usize)|
            if in_module_range(nodes.1, o.1, o.2) {
                provider_spec(file, o.0, o.3)
            } else {
                None
            },
    )
}

proof fn lemma_nest_candidates(file: Seq<char>, c: Seq<ClassNode>, d: Seq<NodeInfo>, o: Seq<ObjectNode>)
    ensures
        nestjs_candidates(file, c, d, o) == nest_candidates_of(
            file,
            (c.map_values(|x: ClassNode| class_view(x)), d, o.map_values(|x: ObjectNode| object_view(x))),
        ),
{
    let cv = c.map_values(|x: ClassNode| class_view(x));
    let ov = o.map_values(|x: ObjectNode| object_view(x));
    let a = c.map_values(|x: ClassNode| injectable_spec(file, x.decorators@, opt_view(x.name), x.line));
    let a2 = cv.map_values(|x: (Seq<NodeInfo>, Option<Seq<char>>, usize)| injectable_spec(file, x.0, x.1, x.2));
    assert(a =~= a2);
    let b = o.map_values(
        |x: ObjectNode|
            if in_module(d, x) {
                provider_spec(file, x.children@, x.line)
            } else {
                None
            },
    );
    let b2 = ov.map_values(
        |x: (Seq<NodeInfo>, usize, usize, usize)|
            if in_module_range(d, x.1, x.2) {
                provider_spec(file, x.0, x.3)
            } else {
                None
            },
    );
    assert forall|k: int| 0 <= k < b.len() implies b[k] == b2[k] by {
        assert(in_module(d, o[k]) == in_module_range(d, o[k].start_byte, o[k].end_byte));
    }
    assert(b =~= b2);
}

/// Extract NestJS injectable classes and `useClass` providers declared in
/// `@Module`.
///
/// Nest's default provider scope is singleton. `Scope.REQUEST` and
/// `Scope.TRANSIENT` are the `scoped` and `transient` lifetimes; a dynamic
/// scope remains unknown.
pub fn extract_nestjs_di_bindings(file: &str, source: &str) -> (out: Vec<DIFact>)
    ensures
        di_views(out@) == first_bindings(somes(nest_candidates_of(file@, nest_nodes_of(source@, source.spec_bytes())))),
{
    let (classes, decorators, objects) = nestjs_nodes(source);
    let out = nestjs_bindings(file, &classes, &decorators, &objects);
    proof {
        lemma_nest_candidates(file@, classes@, decorators@, objects@);
    }
    out
}

/// The ASP.NET Core bindings of a C# source, the first of each contract.
pub open spec fn aspnet_facts_of(file: Seq<char>, text: Seq<char>, bytes: Seq<u8>) -> Seq<DIView> {
    first_bindings(somes(aspnet_candidates(file, invocations_of(text, bytes))))
}

/// The NestJS bindings of a TypeScript source, the first of each contract.
pub open spec fn nest_facts_of(file: Seq<char>, text: Seq<char>, bytes: Seq<u8>) -> Seq<DIView> {
    first_bindings(somes(nest_candidates_of(file, nest_nodes_of(text, bytes))))
}

/// Extract dependency-injection facts from source whose language the file
/// name tells: `.cs` files are read for ASP.NET Core registrations, `.ts`
/// and `.tsx` files for NestJS ones, and any other file for both.
pub fn extract_di_bindings(file: &str, source: &str) -> (out: Vec<DIFact>)
    ensures
        is_suffix(".cs"@, file@) ==> di_views(out@) == aspnet_facts_of(file@, source@, source.spec_bytes()),
        !is_suffix(".cs"@, file@) && (is_suffix(".ts"@, file@) || is_suffix(".tsx"@, file@)) ==> di_views(out@)
            == nest_facts_of(file@, source@, source.spec_bytes()),
        !is_suffix(".cs"@, file@) && !is_suffix(".ts"@, file@) && !is_suffix(".tsx"@, file@) ==> di_views(out@)
            == first_bindings(aspnet_facts_of(file@, source@, source.spec_bytes()) + nest_facts_of(file@, source@, source.spec_bytes())),
{
    if ends_with(file, ".cs") {
        let facts = extract_aspnet_di_bindings(file, source);
        let out = resolve_di_bindings(facts);
        proof {
            lemma_first_bindings_idempotent(somes(aspnet_candidates(file@, invocations_of(source@, source.spec_bytes()))));
        }
        out
    } else if ends_with(file, ".ts") || ends_with(file, ".tsx") {
        let facts = extract_nestjs_di_bindings(file, source);
        let out = resolve_di_bindings(facts);
        proof {
            lemma_first_bindings_idempotent(somes(nest_candidates_of(file@, nest_nodes_of(source@, source.spec_bytes()))));
        }
        out
    } else {
        let mut facts = extract_aspnet_di_bindings(file, source);
        let more = extract_nestjs_di_bindings(file, source);
        let ghost a = di_views(facts@);
        let ghost b = di_views(more@);
        let mut k: usize = 0;
        while k < more.len()
            invariant
                k <= more.len(),
                b == di_views(more@),
                di_views(facts@) == a + b.take(k as int),
            decreases more.len() - k,
        {
            let f = &more[k];
            let copy = DIFact {
                id: f.id.clone(),
                file: f.file.clone(),
                language: f.language.clone(),
                abstract_type: f.abstract_type.clone(),
                concrete_type: f.concrete_type.clone(),
                lifetime: match &f.lifetime {
                    Some(l) => Some(l.clone()),
                    None => None,
                },
                line: f.line,
                framework: f.framework.clone(),
            };
            let ghost before = di_views(facts@);
            facts.push(copy);
            assert(di_views(facts@) =~= before.push(f@));
            assert(b.take(k + 1) =~= b.take(k as int).push(f@));
            assert(a + b.take(k + 1) =~= (a + b.take(k as int)).push(f@));
            k += 1;
        }
        assert(b.take(more.len() as int) =~= b);
        let out = resolve_di_bindings(facts);

        out
    }
}

/// The lifetime a NestJS decorator gives its provider, by the scope it
/// names: a singleton where it names none or `Scope.DEFAULT` (the default
/// scope is the unscoped lifetime), scoped for `Scope.REQUEST`, transient for
/// `Scope.TRANSIENT`, and unknown for any other scope; the three lifetimes
/// are distinct.
pub proof fn lemma_nest_scope_lifetimes(decorator: Seq<char>)
    ensures
        scope_scan(decorator, 0) is None ==> decorator_lifetime(decorator) == Some("singleton"@),
        scope_scan(decorator, 0) matches Some(s) && normalize_type_spec(s) == Some("Scope.DEFAULT"@)
            ==> decorator_lifetime(decorator) == Some("singleton"@),
        scope_scan(decorator, 0) matches Some(s) && normalize_type_spec(s) == Some("Scope.REQUEST"@)
            ==> decorator_lifetime(decorator) == Some("scoped"@),
        scope_scan(decorator, 0) matches Some(s) && normalize_type_spec(s) == Some("Scope.TRANSIENT"@)
            ==> decorator_lifetime(decorator) == Some("transient"@),
        scope_scan(decorator, 0) matches Some(s) && normalize_type_spec(s) is None ==> decorator_lifetime(decorator) is None,
        "singleton"@ != "scoped"@ && "scoped"@ != "transient"@ && "singleton"@ != "transient"@,
{
    reveal_strlit("Scope.DEFAULT");
    reveal_strlit("Scope.REQUEST");
    reveal_strlit("Scope.TRANSIENT");
    reveal_strlit("singleton");
    reveal_strlit("scoped");
    reveal_strlit("transient");
    assert("Scope.REQUEST"@[6] != "Scope.DEFAULT"@[6]);
    assert("Scope.TRANSIENT"@.len() != "Scope.DEFAULT"@.len());
    assert("Scope.TRANSIENT"@.len() != "Scope.REQUEST"@.len());
    assert("singleton"@.len() != "scoped"@.len());
    assert("scoped"@.len() != "transient"@.len());
    assert("singleton"@[0] != "transient"@[0]);
}

/// The registration binds the first type argument to the last one with
/// the lifetime, in this file and line, as a C# ASP.NET binding.
pub open spec fn registers(file: Seq<char>, function: Seq<char>, line: usize, args: Seq<Seq<char>>, lifetime: Seq<char>) -> bool {
    match aspnet_spec(file, function, line) {
        Some(b) => b.lifetime == Some(lifetime) && b.abstract_type == args[0] && b.concrete_type == args[args.len() - 1]
            && b.framework == "aspnet"@ && b.language == "csharp"@ && b.file == file && b.line == line,
        None => false,
    }
}

/// An ASP.NET Core registration binds with the lifetime its method names:
/// `AddSingleton` a singleton, `AddScoped` scoped, `AddTransient`
/// transient. One type argument registers the type as itself; two register
/// the first as the contract and the second as its implementation. A call
/// of none of these methods registers nothing.
pub proof fn lemma_aspnet_registration(file: Seq<char>, function: Seq<char>, line: usize)
    ensures
        (generic_args_spec(function, "AddSingleton"@) matches Some(a) && (a.len() == 1 || a.len() == 2))
            ==> registers(file, function, line, generic_args_spec(function, "AddSingleton"@)->0, "singleton"@),
        (generic_args_spec(function, "AddSingleton"@) is None && generic_args_spec(function, "AddScoped"@) is Some
            && (generic_args_spec(function, "AddScoped"@)->0.len() == 1 || generic_args_spec(function, "AddScoped"@)->0.len() == 2))
            ==> registers(file, function, line, generic_args_spec(function, "AddScoped"@)->0, "scoped"@),
        (generic_args_spec(function, "AddSingleton"@) is None && generic_args_spec(function, "AddScoped"@) is None
            && generic_args_spec(function, "AddTransient"@) is Some
            && (generic_args_spec(function, "AddTransient"@)->0.len() == 1 || generic_args_spec(function, "AddTransient"@)->0.len() == 2))
            ==> registers(file, function, line, generic_args_spec(function, "AddTransient"@)->0, "transient"@),
        (generic_args_spec(function, "AddSingleton"@) is None && generic_args_spec(function, "AddScoped"@) is None
            && generic_args_spec(function, "AddTransient"@) is None) ==> aspnet_spec(file, function, line) is None,
{
}

/// A NestJS provider object binds with a singleton lifetime where it names
/// no scope or `Scope.DEFAULT`, scoped for `Scope.REQUEST` and transient for
/// `Scope.TRANSIENT`, as its decorator form does.
pub proof fn lemma_nest_provider_lifetimes(file: Seq<char>, children: Seq<NodeInfo>, line: usize)
    ensures
        provider_spec(file, children, line) is Some && property_from(children, "scope"@, 0) is None
            ==> provider_spec(file, children, line)->0.lifetime == Some("singleton"@),
        provider_spec(file, children, line) is Some && property_from(children, "scope"@, 0) is Some
            && normalize_type_spec(property_from(children, "scope"@, 0)->0) == Some("Scope.DEFAULT"@)
            ==> provider_spec(file, children, line)->0.lifetime == Some("singleton"@),
        provider_spec(file, children, line) is Some && property_from(children, "scope"@, 0) is Some
            && normalize_type_spec(property_from(children, "scope"@, 0)->0) == Some("Scope.REQUEST"@)
            ==> provider_spec(file, children, line)->0.lifetime == Some("scoped"@),
        provider_spec(file, children, line) is Some && property_from(children, "scope"@, 0) is Some
            && normalize_type_spec(property_from(children, "scope"@, 0)->0) == Some("Scope.TRANSIENT"@)
            ==> provider_spec(file, children, line)->0.lifetime == Some("transient"@),
{
    reveal_strlit("Scope.DEFAULT");
    reveal_strlit("Scope.REQUEST");
    reveal_strlit("Scope.TRANSIENT");
    assert("Scope.REQUEST"@[6] != "Scope.DEFAULT"@[6]);
    assert("Scope.TRANSIENT"@.len() != "Scope.DEFAULT"@.len());
    assert("Scope.TRANSIENT"@.len() != "Scope.REQUEST"@.len());
}

} // verus!
