//! Explicit type relationships (trait implementations, inheritance and
//! interface lists) read from declaration headers.
//!
//! Extraction works from syntax only: a related type may live outside the
//! indexed project, so a fact records only what the source states.
use vstd::prelude::*;
use crate::text::{
    matches_here,
    chars_of, is_prefix, is_ws, push_decimal, push_str, string_from, string_without_ws,
    strip_ws, trim, trim_bounds, trim_end_in, trim_end_set, trim_start_in, trim_start_set,
    decimal, has_prefix, unicode_alphanumeric, char_is_alphanumeric, ascii_lower, to_ascii_lowercase, str_eq,
};
use crate::order::{lex_lt, lex_sign, compare_str, lemma_lex_irreflexive, lemma_lex_asymmetric, lemma_lex_transitive, lemma_lex_total};
use crate::syntax_tree::{
    Grammar, grammar_loads, node_at, node_count, parse_text, parser_for, syntax_node, syntax_node_count,
};
use crate::syntax_scan::{
    is_keyword_boundary,
    masked, mask_non_code, Depths, DelimiterDepths, top_keyword_scan, top_char_scan, keyword_scan,
    find_top_level_keyword, find_top_level_char, find_body_start, find_keyword, skip_whitespace,
    skip_ws_from, identifier_end, ident_end_from, after_generics, skip_leading_generic_parameters,
    lemma_top_char_scan, lemma_top_keyword_scan, lemma_keyword_scan, lemma_skip_ws_bounds,
    lemma_ident_end_bounds, lemma_after_generics_bounds, keyword_at,
};

verus! {

/// How a type relates to the type it names in its header.
#[derive(Debug, Clone, Copy, PartialEq, Eq, Structural)]
pub enum ImplKind {
    TraitImpl,
    Derive,
    Implements,
    Extends,
    CSharpInheritance,
    CppInheritance,
}

/// One explicit relationship between two named types.
#[derive(Debug, Clone)]
pub struct TypeImplFact {
    pub id: String,
    pub file: String,
    pub language: String,
    pub implementing_type: String,
    pub trait_or_interface: String,
    pub line: usize,
    pub kind: ImplKind,
}

/// The mathematical content of a [`TypeImplFact`].
pub struct TypeImplView {
    pub id: Seq<char>,
    pub file: Seq<char>,
    pub language: Seq<char>,
    pub implementing_type: Seq<char>,
    pub trait_or_interface: Seq<char>,
    pub line: usize,
    pub kind: ImplKind,
}

impl View for TypeImplFact {
    type V = TypeImplView;

    open spec fn view(&self) -> TypeImplView {
        TypeImplView {
            id: self.id@,
            file: self.file@,
            language: self.language@,
            implementing_type: self.implementing_type@,
            trait_or_interface: self.trait_or_interface@,
            line: self.line,
            kind: self.kind,
        }
    }
}

pub open spec fn kind_name(kind: ImplKind) -> Seq<char> {
    match kind {
        ImplKind::TraitImpl => "trait_impl"@,
        ImplKind::Derive => "derive"@,
        ImplKind::Implements => "implements"@,
        ImplKind::Extends => "extends"@,
        ImplKind::CSharpInheritance => "csharp_inheritance"@,
        ImplKind::CppInheritance => "cpp_inheritance"@,
    }
}

/// The stable name of a relationship kind.
pub fn impl_kind_name(kind: ImplKind) -> (s: &'static str)
    ensures
        s@ == kind_name(kind),
{
    match kind {
        ImplKind::TraitImpl => "trait_impl",
        ImplKind::Derive => "derive",
        ImplKind::Implements => "implements",
        ImplKind::Extends => "extends",
        ImplKind::CSharpInheritance => "csharp_inheritance",
        ImplKind::CppInheritance => "cpp_inheritance",
    }
}

/// Rank used when the same relationship is stated more than once: the most
/// specific statement ranks first.
pub open spec fn priority(kind: ImplKind) -> u8 {
    match kind {
        ImplKind::Implements => 0,
        ImplKind::TraitImpl => 1,
        ImplKind::Derive => 2,
        ImplKind::Extends => 3,
        ImplKind::CSharpInheritance => 4,
        ImplKind::CppInheritance => 5,
    }
}

pub fn relationship_priority(kind: ImplKind) -> (p: u8)
    ensures
        p == priority(kind),
{
    match kind {
        ImplKind::Implements => 0,
        ImplKind::TraitImpl => 1,
        ImplKind::Derive => 2,
        ImplKind::Extends => 3,
        ImplKind::CSharpInheritance => 4,
        ImplKind::CppInheritance => 5,
    }
}

/// The views of a list of facts.
pub open spec fn views(facts: Seq<TypeImplFact>) -> Seq<TypeImplView> {
    facts.map_values(|f: TypeImplFact| f@)
}

/// The identifier of a fact.
pub open spec fn fact_id(
    file: Seq<char>,
    implementing_type: Seq<char>,
    trait_or_interface: Seq<char>,
    line: usize,
    kind: ImplKind,
) -> Seq<char> {
    "type-impl:"@ + file + ":"@ + implementing_type + ":"@ + trait_or_interface + ":"@ + decimal(
        line as nat,
    ) + ":"@ + kind_name(kind)
}

/// The fact that states `implementing_type` relates to `trait_or_interface`.
pub open spec fn make_fact(
    file: Seq<char>,
    language: Seq<char>,
    implementing_type: Seq<char>,
    trait_or_interface: Seq<char>,
    line: usize,
    kind: ImplKind,
) -> TypeImplView {
    TypeImplView {
        id: fact_id(file, implementing_type, trait_or_interface, line, kind),
        file,
        language,
        implementing_type,
        trait_or_interface,
        line,
        kind,
    }
}

pub fn push_fact(
    facts: &mut Vec<TypeImplFact>,
    file: &str,
    language: &str,
    implementing_type: String,
    trait_or_interface: String,
    line: usize,
    kind: ImplKind,
)
    ensures
        views(final(facts)@) == views(old(facts)@).push(
            make_fact(file@, language@, implementing_type@, trait_or_interface@, line, kind),
        ),
{
    let mut id = String::new();
    push_str(&mut id, "type-impl:");
    push_str(&mut id, file);
    push_str(&mut id, ":");
    push_str(&mut id, implementing_type.as_str());
    push_str(&mut id, ":");
    push_str(&mut id, trait_or_interface.as_str());
    push_str(&mut id, ":");
    push_decimal(&mut id, line);
    push_str(&mut id, ":");
    push_str(&mut id, impl_kind_name(kind));
    assert(id@ =~= fact_id(file@, implementing_type@, trait_or_interface@, line, kind));
    let mut file_s = String::new();
    push_str(&mut file_s, file);
    let mut language_s = String::new();
    push_str(&mut language_s, language);
    let ghost before = facts@;
    facts.push(
        TypeImplFact {
            id,
            file: file_s,
            language: language_s,
            implementing_type,
            trait_or_interface,
            line,
            kind,
        },
    );
    assert(views(facts@) =~= views(before).push(
        make_fact(file@, language@, implementing_type@, trait_or_interface@, line, kind),
    ));
}

/// The ranges of the comma-separated parts of the masked text `m`, splitting
/// only at commas outside `<>`, `()` and `[]`.
pub open spec fn split_scan(m: Seq<char>, i: int, d: Depths, seg: int) -> Seq<(int, int)>
    decreases m.len() - i,
{
    if i < 0 || i >= m.len() {
        seq![(seg, m.len() as int)]
    } else if m[i] == ',' && d.is_top() {
        seq![(seg, i)] + split_scan(m, i + 1, d, i + 1)
    } else {
        split_scan(m, i + 1, d.consume(m[i]), seg)
    }
}

/// The top-level comma-separated parts of `text`, as ranges.
pub open spec fn split_ranges(text: Seq<char>) -> Seq<(int, int)> {
    split_scan(masked(text), 0, Depths::zero(), 0)
}

pub open spec fn ranges_within(r: Seq<(int, int)>, len: int) -> bool {
    forall|k: int| 0 <= k < r.len() ==> 0 <= #[trigger] r[k].0 <= r[k].1 <= len
}

proof fn lemma_split_scan_within(m: Seq<char>, i: int, d: Depths, seg: int)
    requires
        0 <= seg <= i <= m.len(),
    ensures
        ranges_within(split_scan(m, i, d, seg), m.len() as int),
        split_scan(m, i, d, seg).len() >= 1,
    decreases m.len() - i,
{
    if i < m.len() {
        if m[i] == ',' && d.is_top() {
            lemma_split_scan_within(m, i + 1, d, i + 1);
            let rest = split_scan(m, i + 1, d, i + 1);
            assert(split_scan(m, i, d, seg) == seq![(seg, i)] + rest);
            assert forall|k: int| 0 <= k < split_scan(m, i, d, seg).len() implies 0 <= #[trigger] split_scan(m, i, d, seg)[k].0 <= split_scan(m, i, d, seg)[k].1 <= m.len() by {
                if k > 0 {
                    assert(split_scan(m, i, d, seg)[k] == rest[k - 1]);
                }
            }
        } else {
            lemma_split_scan_within(m, i + 1, d.consume(m[i]), seg);
        }
    }
}

/// Split `v[lo..hi]` at top-level commas; ranges are positions in `v`.
pub fn split_top_level(v: &Vec<char>, lo: usize, hi: usize) -> (parts: Vec<(usize, usize)>)
    requires
        lo <= hi <= v.len(),
    ensures
        parts@.len() == split_ranges(v@.subrange(lo as int, hi as int)).len(),
        forall|k: int|
            0 <= k < parts@.len() ==> {
                &&& lo <= (#[trigger] parts@[k]).0 <= parts@[k].1 <= hi
                &&& parts@[k].0 - lo == split_ranges(v@.subrange(lo as int, hi as int))[k].0
                &&& parts@[k].1 - lo == split_ranges(v@.subrange(lo as int, hi as int))[k].1
            },
{
    let mut text: Vec<char> = Vec::new();
    let mut t = lo;
    while t < hi
        invariant
            lo <= t <= hi <= v.len(),
            text@ == v@.subrange(lo as int, t as int),
        decreases hi - t,
    {
        text.push(v[t]);
        assert(text@ =~= v@.subrange(lo as int, t + 1));
        t += 1;
    }
    let m = mask_non_code(&text);
    let ghost all = split_ranges(text@);
    let mut d = DelimiterDepths::new();
    let mut start: usize = 0;
    let mut parts: Vec<(usize, usize)> = Vec::new();
    let mut i: usize = 0;
    let n = m.len();
    while i < n
        invariant
            n == m.len() == text.len() == hi - lo,
            lo <= hi,
            start <= i <= n,
            d@.total() <= i,
            ({
                let rest = split_scan(m@, i as int, d@, start as int);
                &&& all.len() == parts@.len() + rest.len()
                &&& forall|k: int| 0 <= k < parts@.len() ==> all[k] == (
                    (#[trigger] parts@[k]).0 - lo,
                    parts@[k].1 - lo,
                )
                &&& forall|k: int| 0 <= k < rest.len() ==> all[parts@.len() + k] == #[trigger] rest[k]
                &&& forall|k: int| 0 <= k < parts@.len() ==> lo <= (#[trigger] parts@[k]).0 <= parts@[k].1 <= hi
            }),
        decreases n - i,
    {
        let ghost rest = split_scan(m@, i as int, d@, start as int);
        if m[i] == ',' && d.is_top_level() {
            let ghost rest2 = split_scan(m@, i + 1, d@, i + 1);
            assert(rest == seq![(start as int, i as int)] + rest2);
            assert(all[parts@.len() as int] == rest[0]);
            parts.push((lo + start, lo + i));
            assert forall|k: int| 0 <= k < rest2.len() implies all[parts@.len() + k] == #[trigger] rest2[k] by {
                assert(rest[k + 1] == rest2[k]);
            }
            start = i + 1;
        } else {
            d.consume(m[i]);
        }
        i += 1;
    }
    let ghost rest = split_scan(m@, i as int, d@, start as int);
    assert(rest == seq![(start as int, n as int)]);
    assert(all[parts@.len() as int] == rest[0]);
    parts.push((lo + start, hi));
    parts
}


/// A character that opens generic arguments, a parameter list, an index, a
/// body, or ends a statement.
pub open spec fn is_type_suffix_char(c: char) -> bool {
    c == '<' || c == '(' || c == '[' || c == '{' || c == ';'
}

/// The first position `>= i` holding a type suffix character (or the end).
pub open spec fn suffix_scan(m: Seq<char>, i: int) -> int
    decreases m.len() - i,
{
    if i < 0 || i >= m.len() {
        m.len() as int
    } else if is_type_suffix_char(m[i]) {
        i
    } else {
        suffix_scan(m, i + 1)
    }
}

pub fn first_type_suffix(m: &Vec<char>) -> (r: usize)
    ensures
        r == suffix_scan(m@, 0),
        r <= m.len(),
{
    let mut i: usize = 0;
    while i < m.len()
        invariant
            i <= m.len(),
            suffix_scan(m@, 0) == suffix_scan(m@, i as int),
        decreases m.len() - i,
    {
        let c = m[i];
        if c == '<' || c == '(' || c == '[' || c == '{' || c == ';' {
            return i;
        }
        i += 1;
    }
    i
}

/// A character allowed in a canonical type name.
pub open spec fn type_name_char(c: char) -> bool {
    unicode_alphanumeric(c) || c == '_' || c == ':' || c == '.' || c == '$' || c == '#'
}

pub open spec fn all_type_name_chars(s: Seq<char>) -> bool {
    forall|k: int| 0 <= k < s.len() ==> type_name_char(#[trigger] s[k])
}

/// The canonical name of a type reference: generic arguments, parameter
/// lists, `dyn`/`impl` prefixes, trailing `?`/`!`, backticks and whitespace
/// are dropped; anything that is not then a plain (possibly qualified) name
/// has no canonical name.
pub open spec fn canonical_type_name(raw: Seq<char>) -> Option<Seq<char>> {
    let m = masked(raw);
    let end = suffix_scan(m, 0);
    let n0 = match top_keyword_scan(m, seq!['b', 'y'], 0, Depths::zero()) {
        Some(b) => trim(raw.subrange(0, b)),
        None => trim(raw.subrange(0, end)),
    };
    let n1 = if is_prefix(seq!['d', 'y', 'n', ' '], n0) {
        trim(n0.skip(4))
    } else if is_prefix(seq!['i', 'm', 'p', 'l', ' '], n0) {
        trim(n0.skip(5))
    } else {
        trim(n0)
    };
    let n2 = trim(trim_end_in(n1, seq!['?', '!']));
    let n3 = trim_end_in(trim_start_in(n2, seq!['`']), seq!['`']);
    if n3.len() == 0 {
        None
    } else {
        let norm = trim_start_in(strip_ws(n3), seq!['@']);
        if norm.len() == 0 || !all_type_name_chars(norm) {
            None
        } else {
            Some(norm)
        }
    }
}

/// A character of a plain qualified name: an ASCII letter or digit, `_`,
/// `:` or `.`.
pub open spec fn plain_name_char(c: char) -> bool {
    crate::text::is_ascii_alnum(c) || c == '_' || c == ':' || c == '.'
}

proof fn lemma_mask_keeps_plain(s: Seq<char>, i: int)
    requires
        0 <= i <= s.len(),
        forall|k: int| 0 <= k < s.len() ==> plain_name_char(#[trigger] s[k]),
    ensures
        crate::syntax_scan::mask_from(s, i, crate::syntax_scan::MaskState::Code) == s.skip(i),
    decreases s.len() - i,
{
    if i < s.len() {
        lemma_mask_keeps_plain(s, i + 1);
        assert(plain_name_char(s[i]));
        assert(s.skip(i) =~= seq![s[i]] + s.skip(i + 1));
    } else {
        assert(s.skip(i) =~= Seq::<char>::empty());
    }
}

proof fn lemma_plain_has_no_suffix(s: Seq<char>, i: int)
    requires
        0 <= i <= s.len(),
        forall|k: int| 0 <= k < s.len() ==> plain_name_char(#[trigger] s[k]),
    ensures
        suffix_scan(s, i) == s.len(),
    decreases s.len() - i,
{
    if i < s.len() {
        assert(plain_name_char(s[i]));
        lemma_plain_has_no_suffix(s, i + 1);
    }
}

proof fn lemma_no_word_no_scan(s: Seq<char>, kw: Seq<char>, i: int, d: Depths)
    requires
        0 <= i,
        forall|j: int| 0 <= j < s.len() ==> !crate::syntax_scan::keyword_at(s, j, kw),
    ensures
        top_keyword_scan(s, kw, i, d) is None,
    decreases s.len() - i,
{
    if i < s.len() {
        lemma_no_word_no_scan(s, kw, i + 1, d.consume(s[i]));
    }
}

proof fn lemma_plain_without_ws(s: Seq<char>)
    requires
        forall|k: int| 0 <= k < s.len() ==> plain_name_char(#[trigger] s[k]),
    ensures
        strip_ws(s) == s,
    decreases s.len(),
{
    if s.len() > 0 {
        assert(plain_name_char(s[s.len() - 1]));
        lemma_plain_without_ws(s.drop_last());
        assert(s.drop_last().push(s.last()) =~= s);
    }
}

proof fn lemma_plain_untrimmed(s: Seq<char>)
    requires
        s.len() > 0,
        forall|k: int| 0 <= k < s.len() ==> plain_name_char(#[trigger] s[k]),
    ensures
        trim(s) == s,
        strip_ws(s) == s,
        trim_end_in(s, seq!['?', '!']) == s,
        trim_start_in(s, seq!['`']) == s,
        trim_end_in(s, seq!['`']) == s,
        trim_start_in(s, seq!['@']) == s,
        !is_prefix(seq!['d', 'y', 'n', ' '], s),
        !is_prefix(seq!['i', 'm', 'p', 'l', ' '], s),
{
    let first = s[0];
    let last = s[s.len() - 1];
    assert(plain_name_char(first));
    assert(plain_name_char(last));
    assert(!is_ws(first));
    assert(!is_ws(last));
    assert(crate::text::trim_start(s) == s);
    assert(crate::text::trim_end(s) == s);
    lemma_plain_without_ws(s);
    assert(!seq!['?', '!'].contains(last)) by {
        if seq!['?', '!'].contains(last) {
            let k = choose|k: int| 0 <= k < 2 && seq!['?', '!'][k] == last;
        }
    }
    assert(!seq!['`'].contains(first)) by {
        if seq!['`'].contains(first) {
            let k = choose|k: int| 0 <= k < 1 && seq!['`'][k] == first;
        }
    }
    assert(!seq!['`'].contains(last)) by {
        if seq!['`'].contains(last) {
            let k = choose|k: int| 0 <= k < 1 && seq!['`'][k] == last;
        }
    }
    assert(!seq!['@'].contains(first)) by {
        if seq!['@'].contains(first) {
            let k = choose|k: int| 0 <= k < 1 && seq!['@'][k] == first;
        }
    }
    if s.len() >= 4 {
        assert(plain_name_char(s[3]));
        assert(s.subrange(0, 4)[3] == s[3]);
    }
    if s.len() >= 5 {
        assert(plain_name_char(s[4]));
        assert(s.subrange(0, 5)[4] == s[4]);
    }
}

/// A plain qualified name is its own canonical name: a name made of ASCII
/// letters and digits (which std counts alphanumeric), `_`, `.` and the
/// path separator `::`, that does not hold the word `by`, such as
/// `fmt::Display` or `std::fmt::Display`.
pub proof fn lemma_plain_name_is_canonical(raw: Seq<char>)
    requires
        raw.len() > 0,
        forall|k: int| 0 <= k < raw.len() ==> plain_name_char(#[trigger] raw[k]),
        forall|k: int| 0 <= k < raw.len() && crate::text::is_ascii_alnum(raw[k]) ==> unicode_alphanumeric(#[trigger] raw[k]),
        forall|j: int| 0 <= j < raw.len() ==> !crate::syntax_scan::keyword_at(raw, j, seq!['b', 'y']),
    ensures
        canonical_type_name(raw) == Some(raw),
{
    lemma_mask_keeps_plain(raw, 0);
    assert(raw.skip(0) =~= raw);
    assert(masked(raw) == raw);
    lemma_plain_has_no_suffix(raw, 0);
    lemma_no_word_no_scan(raw, seq!['b', 'y'], 0, Depths::zero());
    assert(raw.subrange(0, raw.len() as int) =~= raw);
    lemma_plain_untrimmed(raw);
    assert forall|k: int| 0 <= k < raw.len() implies type_name_char(#[trigger] raw[k]) by {
        assert(plain_name_char(raw[k]));
    }
}

/// Computes [`canonical_type_name`] of `v[lo..hi]`.
pub fn canonical_type_name_of(v: &Vec<char>, lo: usize, hi: usize) -> (r: Option<String>)
    requires
        lo <= hi <= v.len(),
    ensures
        r is Some <==> canonical_type_name(v@.subrange(lo as int, hi as int)) is Some,
        r matches Some(name) ==> canonical_type_name(v@.subrange(lo as int, hi as int)) == Some(name@),
{
    let raw = crate::text::sub_vec(v, lo, hi);
    let ghost s = v@.subrange(lo as int, hi as int);
    let m = mask_non_code(&raw);
    let end = first_type_suffix(&m);
    let by_kw = vec!['b', 'y'];
    assert(by_kw@ =~= seq!['b', 'y']);
    let cut = match find_top_level_keyword(&m, &by_kw, 0) {
        Some(b) => b,
        None => end,
    };
    let (a0, b0) = trim_bounds(&raw, 0, cut);
    let ghost n0 = raw@.subrange(a0 as int, b0 as int);
    assert(n0 == match top_keyword_scan(masked(s), seq!['b', 'y'], 0, Depths::zero()) {
        Some(b) => trim(s.subrange(0, b)),
        None => trim(s.subrange(0, suffix_scan(masked(s), 0))),
    });
    let dyn_kw = vec!['d', 'y', 'n', ' '];
    let impl_kw = vec!['i', 'm', 'p', 'l', ' '];
    assert(dyn_kw@ =~= seq!['d', 'y', 'n', ' ']);
    assert(impl_kw@ =~= seq!['i', 'm', 'p', 'l', ' ']);
    let mut a1 = a0;
    if has_prefix(&raw, a0, b0, &dyn_kw) {
        a1 = a0 + 4;
        assert(n0.skip(4) =~= raw@.subrange(a1 as int, b0 as int));
    } else if has_prefix(&raw, a0, b0, &impl_kw) {
        a1 = a0 + 5;
        assert(n0.skip(5) =~= raw@.subrange(a1 as int, b0 as int));
    }
    let (a1, b1) = trim_bounds(&raw, a1, b0);
    let ghost n1 = raw@.subrange(a1 as int, b1 as int);
    assert(n1 == if is_prefix(seq!['d', 'y', 'n', ' '], n0) {
        trim(n0.skip(4))
    } else if is_prefix(seq!['i', 'm', 'p', 'l', ' '], n0) {
        trim(n0.skip(5))
    } else {
        trim(n0)
    });
    let qb = vec!['?', '!'];
    assert(qb@ =~= seq!['?', '!']);
    let b2 = trim_end_set(&raw, a1, b1, &qb);
    let (a2, b2) = trim_bounds(&raw, a1, b2);
    let ghost n2 = raw@.subrange(a2 as int, b2 as int);
    assert(n2 == trim(trim_end_in(n1, seq!['?', '!'])));
    let tick = vec!['`'];
    assert(tick@ =~= seq!['`']);
    let a3 = trim_start_set(&raw, a2, b2, &tick);
    let b3 = trim_end_set(&raw, a3, b2, &tick);
    let ghost n3 = raw@.subrange(a3 as int, b3 as int);
    assert(n3 == trim_end_in(trim_start_in(n2, seq!['`']), seq!['`']));
    if a3 == b3 {
        assert(n3.len() == 0);
        return None;
    }
    let norm = crate::text::vec_without_ws(&raw, a3, b3);
    let at = vec!['@'];
    assert(at@ =~= seq!['@']);
    let k0 = trim_start_set(&norm, 0, norm.len(), &at);
    assert(norm@.subrange(0, norm.len() as int) == norm@);
    let ghost normv = norm@.subrange(k0 as int, norm.len() as int);
    assert(normv == trim_start_in(strip_ws(n3), seq!['@']));
    if k0 == norm.len() {
        assert(normv.len() == 0);
        return None;
    }
    assert(normv.len() > 0);
    assert(raw@ == s);
    assert(canonical_type_name(s) == if all_type_name_chars(normv) { Some(normv) } else { None });
    let mut k = k0;
    while k < norm.len()
        invariant
            lo <= hi <= v.len(),
            s == v@.subrange(lo as int, hi as int),
            k0 < norm.len(),
            k0 <= k <= norm.len(),
            normv == norm@.subrange(k0 as int, norm.len() as int),
            canonical_type_name(s) == if all_type_name_chars(normv) { Some(normv) } else { None },
            forall|j: int| k0 <= j < k ==> type_name_char(#[trigger] norm@[j]),
        decreases norm.len() - k,
    {
        let c = norm[k];
        if !(char_is_alphanumeric(c) || c == '_' || c == ':' || c == '.' || c == '$' || c == '#') {
            assert(normv[k - k0] == c);
            assert(!type_name_char(normv[k - k0]));
            assert(!all_type_name_chars(normv));
            return None;
        }
        k += 1;
    }
    assert forall|j: int| 0 <= j < norm@.subrange(k0 as int, norm.len() as int).len() implies type_name_char(
        #[trigger] norm@.subrange(k0 as int, norm.len() as int)[j],
    ) by {
        assert(norm@.subrange(k0 as int, norm.len() as int)[j] == norm@[k0 + j]);
    }
    Some(string_from(&norm, k0, norm.len()))
}


/// The canonical names of the parts `ranges` of `text`, dropping parts that
/// have none.
pub open spec fn clause_names(text: Seq<char>, ranges: Seq<(int, int)>) -> Seq<Seq<char>>
    decreases ranges.len(),
{
    if ranges.len() == 0 {
        Seq::empty()
    } else {
        let prev = clause_names(text, ranges.drop_last());
        match canonical_type_name(text.subrange(ranges.last().0, ranges.last().1)) {
            Some(n) => prev.push(n),
            None => prev,
        }
    }
}

/// The names listed in a comma-separated clause such as `A, B<T>, C`.
pub open spec fn clause_list(clause: Seq<char>) -> Seq<Seq<char>> {
    clause_names(clause, split_ranges(clause))
}

/// One fact per listed name.
pub open spec fn relation_facts(
    file: Seq<char>,
    language: Seq<char>,
    implementing_type: Seq<char>,
    names: Seq<Seq<char>>,
    line: usize,
    kind: ImplKind,
) -> Seq<TypeImplView> {
    names.map_values(|n: Seq<char>| make_fact(file, language, implementing_type, n, line, kind))
}

/// Push one fact for each name listed in `v[lo..hi]`.
pub fn push_clause_relations(
    facts: &mut Vec<TypeImplFact>,
    file: &str,
    language: &str,
    implementing_type: &String,
    v: &Vec<char>,
    lo: usize,
    hi: usize,
    line: usize,
    kind: ImplKind,
)
    requires
        lo <= hi <= v.len(),
    ensures
        views(final(facts)@) == views(old(facts)@) + relation_facts(
            file@,
            language@,
            implementing_type@,
            clause_list(v@.subrange(lo as int, hi as int)),
            line,
            kind,
        ),
{
    let ghost text = v@.subrange(lo as int, hi as int);
    let ghost ranges = split_ranges(text);
    let parts = split_top_level(v, lo, hi);
    let mut k: usize = 0;
    while k < parts.len()
        invariant
            lo <= hi <= v.len(),
            text == v@.subrange(lo as int, hi as int),
            k <= parts@.len() == ranges.len(),
            forall|j: int|
                0 <= j < parts@.len() ==> {
                    &&& lo <= (#[trigger] parts@[j]).0 <= parts@[j].1 <= hi
                    &&& parts@[j].0 - lo == ranges[j].0
                    &&& parts@[j].1 - lo == ranges[j].1
                },
            views(facts@) == views(old(facts)@) + relation_facts(
                file@,
                language@,
                implementing_type@,
                clause_names(text, ranges.take(k as int)),
                line,
                kind,
            ),
        decreases parts.len() - k,
    {
        let (a, b) = parts[k];
        assert(ranges.take(k + 1).drop_last() =~= ranges.take(k as int));
        assert(text.subrange(ranges[k as int].0, ranges[k as int].1) =~= v@.subrange(a as int, b as int));
        let name = canonical_type_name_of(v, a, b);
        let ghost prev = clause_names(text, ranges.take(k as int));
        match name {
            Some(n) => {
                let imp = implementing_type.clone();
                push_fact(facts, file, language, imp, n, line, kind);
                assert(relation_facts(file@, language@, implementing_type@, prev.push(n@), line, kind)
                    =~= relation_facts(file@, language@, implementing_type@, prev, line, kind).push(
                    make_fact(file@, language@, implementing_type@, n@, line, kind),
                ));
            },
            None => {},
        }
        k += 1;
    }
    assert(ranges.take(parts.len() as int) =~= ranges);
}


pub open spec fn kw_class() -> Seq<char> { seq!['c', 'l', 'a', 's', 's'] }
pub open spec fn kw_impl() -> Seq<char> { seq!['i', 'm', 'p', 'l'] }
pub open spec fn kw_for() -> Seq<char> { seq!['f', 'o', 'r'] }
pub open spec fn kw_where() -> Seq<char> { seq!['w', 'h', 'e', 'r', 'e'] }
pub open spec fn kw_extends() -> Seq<char> { seq!['e', 'x', 't', 'e', 'n', 'd', 's'] }
pub open spec fn kw_implements() -> Seq<char> {
    seq!['i', 'm', 'p', 'l', 'e', 'm', 'e', 'n', 't', 's']
}

/// The end of the header of a declaration whose keyword ends at or after
/// `from`: the first top-level `{`, or the end of the text.
pub open spec fn header_end_from(md: Seq<char>, from: int) -> int {
    match top_char_scan(md, '{', from, Depths::zero()) {
        Some(b) => b,
        None => md.len() as int,
    }
}

/// The first top-level occurrence of `kw` at or after `start`, or the end.
pub open spec fn cut_at(m: Seq<char>, kw: Seq<char>, start: int) -> int {
    match top_keyword_scan(m, kw, start, Depths::zero()) {
        Some(p) => p,
        None => m.len() as int,
    }
}

pub open spec fn kw_struct() -> Seq<char> { seq!['s', 't', 'r', 'u', 'c', 't'] }
pub open spec fn kw_interface() -> Seq<char> { seq!['i', 'n', 't', 'e', 'r', 'f', 'a', 'c', 'e'] }
pub open spec fn kw_record() -> Seq<char> { seq!['r', 'e', 'c', 'o', 'r', 'd'] }

/// The header of a type declaration whose keyword of length `klen` starts
/// at `cs`: where the header ends (the first top-level `{` after the
/// keyword, or the end), where the type name ends, and the canonical name.
pub open spec fn header_at(decl: Seq<char>, cs: int, klen: int) -> Option<(int, int, Seq<char>)> {
    let md = masked(decl);
    let he = header_end_from(md, cs + klen);
    let hm = md.subrange(0, he);
    let ns0 = skip_ws_from(hm, cs + klen);
    let ns = if 0 <= ns0 < hm.len() && hm[ns0] == '@' { ns0 + 1 } else { ns0 };
    let ne = ident_end_from(hm, ns);
    if ns == ne {
        None
    } else {
        match canonical_type_name(decl.subrange(ns, ne)) {
            None => None,
            Some(name) => Some((he, ne, name)),
        }
    }
}

/// The header of a class declaration: where it ends, where the class name
/// ends, and the canonical class name.
pub open spec fn class_header_spec(decl: Seq<char>) -> Option<(int, int, Seq<char>)> {
    match keyword_scan(masked(decl), kw_class(), 0) {
        None => None,
        Some(cs) => header_at(decl, cs, 5),
    }
}

/// Where a keyword first occurs, with its length.
pub open spec fn kw_pos(md: Seq<char>, kw: Seq<char>) -> Option<(int, int)> {
    match keyword_scan(md, kw, 0) {
        Some(p) => Some((p, kw.len() as int)),
        None => None,
    }
}

/// The earlier of two keyword occurrences (the first on a tie).
pub open spec fn earlier(a: Option<(int, int)>, b: Option<(int, int)>) -> Option<(int, int)> {
    match (a, b) {
        (None, _) => b,
        (_, None) => a,
        (Some(x), Some(y)) => if y.0 < x.0 { b } else { a },
    }
}

/// The keyword of a C# type declaration: the first of `class`, `struct`,
/// `interface` and `record`; for `record class` and `record struct`, the
/// word after `record`.
pub open spec fn cs_keyword(md: Seq<char>) -> Option<(int, int)> {
    let k = earlier(
        earlier(earlier(kw_pos(md, kw_class()), kw_pos(md, kw_struct())), kw_pos(md, kw_interface())),
        kw_pos(md, kw_record()),
    );
    match k {
        Some((p, l)) => if keyword_at(md, p, kw_record()) {
            let a = skip_ws_from(md, p + 6);
            if keyword_at(md, a, kw_class()) {
                Some((a, 5))
            } else if keyword_at(md, a, kw_struct()) {
                Some((a, 6))
            } else {
                k
            }
        } else {
            k
        },
        None => None,
    }
}

/// The header of a C# class, struct, interface or record declaration.
pub open spec fn csharp_header_spec(decl: Seq<char>) -> Option<(int, int, Seq<char>)> {
    match cs_keyword(masked(decl)) {
        None => None,
        Some((cs, l)) => header_at(decl, cs, l),
    }
}

/// The parsed header of a class declaration.
pub struct ClassHeader {
    /// Where the header ends in the declaration.
    pub header_end: usize,
    /// The masked header.
    pub masked: Vec<char>,
    /// The canonical class name.
    pub name: String,
    /// Where the class name ends.
    pub name_end: usize,
}

/// The header of the declaration whose keyword of length `klen` starts at
/// `cs` of the masked text `md`.
fn header_from(decl: &Vec<char>, md: &Vec<char>, cs: usize, klen: usize) -> (r: Option<ClassHeader>)
    requires
        md@ == masked(decl@),
        md.len() == decl.len(),
        cs + klen <= md.len(),
    ensures
        r is Some <==> header_at(decl@, cs as int, klen as int) is Some,
        r matches Some(h) ==> {
            &&& header_at(decl@, cs as int, klen as int) == Some((h.header_end as int, h.name_end as int, h.name@))
            &&& h.header_end <= decl.len()
            &&& h.masked@ == masked(decl@).subrange(0, h.header_end as int)
            &&& h.name_end <= h.header_end
        },
{
    let from = cs + klen;
    let he = match find_body_start(md, from) {
        Some(b) => b,
        None => decl.len(),
    };
    assert(he == header_end_from(md@, from as int));
    let hm = crate::text::sub_vec(md, 0, he);
    let ns0 = skip_whitespace(&hm, from);
    proof {
        lemma_skip_ws_bounds(hm@, from as int, 0);
    }
    let ns = if ns0 < hm.len() && hm[ns0] == '@' { ns0 + 1 } else { ns0 };
    let ne = identifier_end(&hm, ns);
    proof {
        lemma_ident_end_bounds(hm@, ns as int);
    }
    if ns == ne {
        return None;
    }
    match canonical_type_name_of(decl, ns, ne) {
        None => None,
        Some(name) => Some(ClassHeader { header_end: he, masked: hm, name, name_end: ne }),
    }
}

pub fn class_header(decl: &Vec<char>) -> (r: Option<ClassHeader>)
    ensures
        r is Some <==> class_header_spec(decl@) is Some,
        r matches Some(h) ==> {
            &&& class_header_spec(decl@) == Some((h.header_end as int, h.name_end as int, h.name@))
            &&& h.header_end <= decl.len()
            &&& h.masked@ == masked(decl@).subrange(0, h.header_end as int)
            &&& h.name_end <= h.header_end
        },
{
    let md = mask_non_code(decl);
    let class_kw = vec!['c', 'l', 'a', 's', 's'];
    assert(class_kw@ =~= kw_class());
    let cs = match find_keyword(&md, &class_kw, 0) {
        Some(cs) => cs,
        None => return None,
    };
    header_from(decl, &md, cs, 5)
}

/// The first occurrence of a keyword, with its length.
fn find_kw_pos(md: &Vec<char>, kw: &Vec<char>) -> (r: Option<(usize, usize)>)
    ensures
        match r {
            Some((p, l)) => kw_pos(md@, kw@) == Some((p as int, l as int)) && p + l <= md.len()
                && keyword_at(md@, p as int, kw@),
            None => kw_pos(md@, kw@) is None,
        },
{
    match find_keyword(md, kw, 0) {
        Some(p) => Some((p, kw.len())),
        None => None,
    }
}

fn earlier_of(a: Option<(usize, usize)>, b: Option<(usize, usize)>) -> (r: Option<(usize, usize)>)
    ensures
        r == a || r == b,
        opt_pos(r) == earlier(opt_pos(a), opt_pos(b)),
{
    match (a, b) {
        (None, _) => b,
        (_, None) => a,
        (Some(x), Some(y)) => if y.0 < x.0 { b } else { a },
    }
}

pub open spec fn opt_pos(a: Option<(usize, usize)>) -> Option<(int, int)> {
    match a {
        Some((p, l)) => Some((p as int, l as int)),
        None => None,
    }
}

/// The header of a C# class, struct, interface or record declaration.
#[verifier::rlimit(60)]
pub fn csharp_header(decl: &Vec<char>) -> (r: Option<ClassHeader>)
    ensures
        r is Some <==> csharp_header_spec(decl@) is Some,
        r matches Some(h) ==> {
            &&& csharp_header_spec(decl@) == Some((h.header_end as int, h.name_end as int, h.name@))
            &&& h.header_end <= decl.len()
            &&& h.masked@ == masked(decl@).subrange(0, h.header_end as int)
            &&& h.name_end <= h.header_end
        },
{
    let md = mask_non_code(decl);
    let class_kw = vec!['c', 'l', 'a', 's', 's'];
    let struct_kw = vec!['s', 't', 'r', 'u', 'c', 't'];
    let interface_kw = vec!['i', 'n', 't', 'e', 'r', 'f', 'a', 'c', 'e'];
    let record_kw = vec!['r', 'e', 'c', 'o', 'r', 'd'];
    assert(class_kw@ =~= kw_class());
    assert(struct_kw@ =~= kw_struct());
    assert(interface_kw@ =~= kw_interface());
    assert(record_kw@ =~= kw_record());
    let a = find_kw_pos(&md, &class_kw);
    let b = find_kw_pos(&md, &struct_kw);
    let c = find_kw_pos(&md, &interface_kw);
    let d = find_kw_pos(&md, &record_kw);
    let k = earlier_of(earlier_of(earlier_of(a, b), c), d);
    let (p, l) = match k {
        Some(x) => x,
        None => return None,
    };
    let (cs, klen) = if matches_here(&md, p, &record_kw) && is_keyword_boundary(&md, p, 6) {
        assert(keyword_at(md@, p as int, kw_record()));
        let at = skip_whitespace(&md, p + 6);
        if at < md.len() && matches_here(&md, at, &class_kw) && is_keyword_boundary(&md, at, 5) {
            (at, 5)
        } else if at < md.len() && matches_here(&md, at, &struct_kw) && is_keyword_boundary(&md, at, 6) {
            (at, 6)
        } else {
            (p, l)
        }
    } else {
        (p, l)
    };
    header_from(decl, &md, cs, klen)
}

/// Facts stated by a Rust `impl Trait for Type` header; inherent `impl Type`
/// blocks and negative implementations state none.
pub open spec fn rust_impl_facts(
    file: Seq<char>,
    language: Seq<char>,
    decl: Seq<char>,
    line: usize,
) -> Seq<TypeImplView> {
    let md = masked(decl);
    match keyword_scan(md, kw_impl(), 0) {
        None => Seq::empty(),
        Some(is) => {
            let rest = after_generics(md, skip_ws_from(md, is + 4));
            let he = header_end_from(md, rest);
            let hm = md.subrange(0, he);
            match top_keyword_scan(hm, kw_for(), rest, Depths::zero()) {
                None => Seq::empty(),
                Some(fs) => {
                    let ts = skip_ws_from(hm, fs + 3);
                    let te = cut_at(hm, kw_where(), ts);
                    match (
                        canonical_type_name(decl.subrange(rest, fs)),
                        canonical_type_name(decl.subrange(ts, te)),
                    ) {
                        (Some(t), Some(i)) => if t.len() > 0 && t[0] == '!' {
                            Seq::empty()
                        } else {
                            seq![make_fact(file, language, i, t, line, ImplKind::TraitImpl)]
                        },
                        _ => Seq::empty(),
                    }
                },
            }
        },
    }
}

pub fn extract_rust_impls(
    file: &str,
    language: &str,
    decl: &Vec<char>,
    line: usize,
    facts: &mut Vec<TypeImplFact>,
)
    ensures
        views(final(facts)@) == views(old(facts)@) + rust_impl_facts(file@, language@, decl@, line),
{
    let ghost old_views = views(facts@);
    let md = mask_non_code(decl);
    let impl_kw = vec!['i', 'm', 'p', 'l'];
    assert(impl_kw@ =~= kw_impl());
    let is = match find_keyword(&md, &impl_kw, 0) {
        Some(is) => is,
        None => {
            assert(views(facts@) =~= old_views + Seq::empty());
            return;
        },
    };
    let after_impl = skip_whitespace(&md, is + 4);
    proof {
        lemma_skip_ws_bounds(md@, is + 4, 0);
        lemma_after_generics_bounds(md@, after_impl as int);
    }
    let rest = skip_leading_generic_parameters(&md, after_impl);
    proof {
        lemma_top_char_scan(md@, '{', rest as int, Depths::zero());
    }
    let he = match find_body_start(&md, rest) {
        Some(b) => b,
        None => md.len(),
    };
    assert(he == header_end_from(md@, rest as int));
    let hm = crate::text::sub_vec(&md, 0, he);
    let for_kw = vec!['f', 'o', 'r'];
    assert(for_kw@ =~= kw_for());
    let fs = match find_top_level_keyword(&hm, &for_kw, rest) {
        Some(fs) => fs,
        None => {
            assert(views(facts@) =~= old_views + Seq::empty());
            return;
        },
    };
    proof {
        lemma_top_keyword_scan(hm@, kw_for(), rest as int, Depths::zero());
    }
    let ts = skip_whitespace(&hm, fs + 3);
    proof {
        lemma_skip_ws_bounds(hm@, fs + 3, 0);
        lemma_top_keyword_scan(hm@, kw_where(), ts as int, Depths::zero());
    }
    let where_kw = vec!['w', 'h', 'e', 'r', 'e'];
    assert(where_kw@ =~= kw_where());
    let te = match find_top_level_keyword(&hm, &where_kw, ts) {
        Some(w) => w,
        None => hm.len(),
    };
    assert(te == cut_at(hm@, kw_where(), ts as int));
    let trait_name = canonical_type_name_of(decl, rest, fs);
    let implementing_type = canonical_type_name_of(decl, ts, te);
    match (trait_name, implementing_type) {
        (Some(t), Some(i)) => {
            let tv = chars_of(t.as_str());
            if tv.len() > 0 && tv[0] == '!' {
                assert(views(facts@) =~= old_views + Seq::empty());
                return;
            }
            let ghost tview = t@;
            let ghost iview = i@;
            push_fact(facts, file, language, i, t, line, ImplKind::TraitImpl);
            assert(views(facts@) =~= old_views + seq![
                make_fact(file@, language@, iview, tview, line, ImplKind::TraitImpl),
            ]);
        },
        _ => {
            assert(views(facts@) =~= old_views + Seq::empty());
        },
    }
}


/// The earliest top-level occurrence at or after `start` of any of `kws`,
/// or the end of `m`.
pub open spec fn min_boundary(m: Seq<char>, start: int, kws: Seq<Seq<char>>) -> int
    decreases kws.len(),
{
    if kws.len() == 0 {
        m.len() as int
    } else {
        let rest = min_boundary(m, start, kws.drop_last());
        match top_keyword_scan(m, kws.last(), start, Depths::zero()) {
            Some(p) => if p < rest { p } else { rest },
            None => rest,
        }
    }
}

pub fn first_clause_boundary(m: &Vec<char>, start: usize, keywords: &Vec<Vec<char>>) -> (r: usize)
    ensures
        r == min_boundary(m@, start as int, keywords@.map_values(|k: Vec<char>| k@)),
        r <= m.len(),
{
    let ghost kws = keywords@.map_values(|k: Vec<char>| k@);
    let mut best = m.len();
    let mut j: usize = 0;
    while j < keywords.len()
        invariant
            j <= keywords.len(),
            kws == keywords@.map_values(|k: Vec<char>| k@),
            best == min_boundary(m@, start as int, kws.take(j as int)),
            best <= m.len(),
        decreases keywords.len() - j,
    {
        assert(kws.take(j + 1).drop_last() =~= kws.take(j as int));
        assert(kws.take(j + 1).last() == keywords@[j as int]@);
        match find_top_level_keyword(m, &keywords[j], start) {
            Some(p) => {
                if p < best {
                    best = p;
                }
            },
            None => {},
        }
        j += 1;
    }
    assert(kws.take(keywords.len() as int) =~= kws);
    best
}

/// Facts stated by a TypeScript or Java class header: one `Extends` fact for
/// each name of the `extends` clause and one `Implements` fact for each name
/// of the `implements` clause.
pub open spec fn extends_implements_facts(
    file: Seq<char>,
    language: Seq<char>,
    decl: Seq<char>,
    line: usize,
) -> Seq<TypeImplView> {
    match class_header_spec(decl) {
        None => Seq::empty(),
        Some((he, ne, name)) => {
            let hm = masked(decl).subrange(0, he);
            let header = decl.subrange(0, he);
            let ext = match top_keyword_scan(hm, kw_extends(), ne, Depths::zero()) {
                None => Seq::empty(),
                Some(es) => {
                    let end = min_boundary(hm, es + 7, seq![kw_implements()]);
                    let st = skip_ws_from(hm, es + 7);
                    relation_facts(file, language, name, clause_list(header.subrange(st, end)), line, ImplKind::Extends)
                },
            };
            let imp = match top_keyword_scan(hm, kw_implements(), ne, Depths::zero()) {
                None => Seq::empty(),
                Some(is) => {
                    let st = skip_ws_from(hm, is + 10);
                    relation_facts(file, language, name, clause_list(header.subrange(st, he)), line, ImplKind::Implements)
                },
            };
            ext + imp
        },
    }
}

fn push_extends_implements(
    file: &str,
    language: &str,
    decl: &Vec<char>,
    line: usize,
    facts: &mut Vec<TypeImplFact>,
)
    ensures
        views(final(facts)@) == views(old(facts)@) + extends_implements_facts(file@, language@, decl@, line),
{
    let ghost old_views = views(facts@);
    let class = match class_header(decl) {
        Some(c) => c,
        None => {
            assert(views(facts@) =~= old_views + Seq::empty());
            return;
        },
    };
    let ghost he = class.header_end as int;
    let ghost header = decl@.subrange(0, he);
    proof {
        crate::syntax_scan::lemma_masked_preserves_offsets(decl@);
    }
    assert(class.masked@.len() == he);
    let extends_kw = vec!['e', 'x', 't', 'e', 'n', 'd', 's'];
    assert(extends_kw@ =~= kw_extends());
    let implements_kw = vec!['i', 'm', 'p', 'l', 'e', 'm', 'e', 'n', 't', 's'];
    assert(implements_kw@ =~= kw_implements());
    let ghost ext_facts = match top_keyword_scan(class.masked@, kw_extends(), class.name_end as int, Depths::zero()) {
        None => Seq::empty(),
        Some(es) => {
            let end = min_boundary(class.masked@, es + 7, seq![kw_implements()]);
            let st = skip_ws_from(class.masked@, es + 7);
            relation_facts(file@, language@, class.name@, clause_list(header.subrange(st, end)), line, ImplKind::Extends)
        },
    };
    match find_top_level_keyword(&class.masked, &extends_kw, class.name_end) {
        Some(es) => {
            proof {
                lemma_top_keyword_scan(class.masked@, kw_extends(), class.name_end as int, Depths::zero());
                lemma_top_keyword_scan(class.masked@, kw_implements(), es + 7, Depths::zero());
            }
            let kws = vec![implements_kw.clone()];
            assert(kws@.map_values(|k: Vec<char>| k@) =~= seq![kw_implements()]);
            let end = first_clause_boundary(&class.masked, es + 7, &kws);
            let st = skip_whitespace(&class.masked, es + 7);
            proof {
                let m = class.masked@;
                let one = seq![kw_implements()];
                assert(one.drop_last() =~= Seq::<Seq<char>>::empty());
                assert(one.last() == kw_implements());
                assert(min_boundary(m, es + 7, one.drop_last()) == m.len());
                assert(min_boundary(m, es + 7, one) == cut_at(m, kw_implements(), es + 7));
                match top_keyword_scan(m, kw_implements(), es + 7, Depths::zero()) {
                    Some(p) => {
                        assert(m.subrange(p, p + 10) == kw_implements());
                        assert(m[p] == m.subrange(p, p + 10)[0]);
                        assert(m[p] == 'i');
                        lemma_skip_ws_bounds(m, es + 7, p);
                    },
                    None => {
                        lemma_skip_ws_bounds(m, es + 7, 0);
                    },
                }
            }
            assert(st <= end);
            assert(decl@.subrange(st as int, end as int) =~= header.subrange(st as int, end as int));
            push_clause_relations(facts, file, language, &class.name, decl, st, end, line, ImplKind::Extends);
        },
        None => {
            assert(views(facts@) =~= old_views + Seq::empty());
        },
    }
    assert(views(facts@) == old_views + ext_facts);
    let ghost mid = views(facts@);
    match find_top_level_keyword(&class.masked, &implements_kw, class.name_end) {
        Some(is) => {
            proof {
                lemma_top_keyword_scan(class.masked@, kw_implements(), class.name_end as int, Depths::zero());
                lemma_skip_ws_bounds(class.masked@, is + 10, 0);
            }
            let st = skip_whitespace(&class.masked, is + 10);
            assert(decl@.subrange(st as int, he) =~= header.subrange(st as int, he));
            push_clause_relations(facts, file, language, &class.name, decl, st, class.header_end, line, ImplKind::Implements);
            assert(views(facts@) =~= old_views + (ext_facts + relation_facts(file@, language@, class.name@, clause_list(header.subrange(st as int, he)), line, ImplKind::Implements)));
        },
        None => {
            assert(views(facts@) =~= old_views + (ext_facts + Seq::empty()));
        },
    }
}

/// Facts of a TypeScript class header (`extends` and `implements` clauses).
pub fn extract_typescript_class(
    file: &str,
    language: &str,
    decl: &Vec<char>,
    line: usize,
    facts: &mut Vec<TypeImplFact>,
)
    ensures
        views(final(facts)@) == views(old(facts)@) + extends_implements_facts(file@, language@, decl@, line),
{
    push_extends_implements(file, language, decl, line, facts);
}

/// Facts of a Java class header (`extends` and `implements` clauses).
pub fn extract_java_class(
    file: &str,
    language: &str,
    decl: &Vec<char>,
    line: usize,
    facts: &mut Vec<TypeImplFact>,
)
    ensures
        views(final(facts)@) == views(old(facts)@) + extends_implements_facts(file@, language@, decl@, line),
{
    push_extends_implements(file, language, decl, line, facts);
}


/// Facts of a C# class header: every name after the top-level `:` (up to a
/// `where` constraint) is a base type or interface.
pub open spec fn csharp_facts(
    file: Seq<char>,
    language: Seq<char>,
    decl: Seq<char>,
    line: usize,
) -> Seq<TypeImplView> {
    match csharp_header_spec(decl) {
        None => Seq::empty(),
        Some((he, ne, name)) => {
            let hm = masked(decl).subrange(0, he);
            match top_char_scan(hm, ':', ne, Depths::zero()) {
                None => Seq::empty(),
                Some(c) => {
                    let end = cut_at(hm, kw_where(), c + 1);
                    relation_facts(
                        file,
                        language,
                        name,
                        clause_list(decl.subrange(c + 1, end)),
                        line,
                        ImplKind::CSharpInheritance,
                    )
                },
            }
        },
    }
}

pub fn extract_csharp_class(
    file: &str,
    language: &str,
    decl: &Vec<char>,
    line: usize,
    facts: &mut Vec<TypeImplFact>,
)
    ensures
        views(final(facts)@) == views(old(facts)@) + csharp_facts(file@, language@, decl@, line),
{
    let ghost old_views = views(facts@);
    let class = match csharp_header(decl) {
        Some(c) => c,
        None => {
            assert(views(facts@) =~= old_views + Seq::empty());
            return;
        },
    };
    proof {
        crate::syntax_scan::lemma_masked_preserves_offsets(decl@);
        lemma_top_char_scan(class.masked@, ':', class.name_end as int, Depths::zero());
    }
    let colon = match find_top_level_char(&class.masked, ':', class.name_end) {
        Some(c) => c,
        None => {
            assert(views(facts@) =~= old_views + Seq::empty());
            return;
        },
    };
    proof {
        lemma_top_keyword_scan(class.masked@, kw_where(), colon + 1, Depths::zero());
    }
    let where_kw = vec!['w', 'h', 'e', 'r', 'e'];
    assert(where_kw@ =~= kw_where());
    let end = match find_top_level_keyword(&class.masked, &where_kw, colon + 1) {
        Some(w) => w,
        None => class.masked.len(),
    };
    assert(end == cut_at(class.masked@, kw_where(), colon + 1));
    push_clause_relations(
        facts,
        file,
        language,
        &class.name,
        decl,
        colon + 1,
        end,
        line,
        ImplKind::CSharpInheritance,
    );
}

/// The names of a Kotlin supertype list with their kinds: the first listed
/// entry extends, every later entry implements.
pub open spec fn kotlin_names(text: Seq<char>, ranges: Seq<(int, int)>) -> Seq<(Seq<char>, ImplKind)>
    decreases ranges.len(),
{
    if ranges.len() == 0 {
        Seq::empty()
    } else {
        let prev = kotlin_names(text, ranges.drop_last());
        let kind = if ranges.len() == 1 { ImplKind::Extends } else { ImplKind::Implements };
        match canonical_type_name(text.subrange(ranges.last().0, ranges.last().1)) {
            Some(n) => prev.push((n, kind)),
            None => prev,
        }
    }
}

/// Facts of a Kotlin class header.
pub open spec fn kotlin_facts(
    file: Seq<char>,
    language: Seq<char>,
    decl: Seq<char>,
    line: usize,
) -> Seq<TypeImplView> {
    match class_header_spec(decl) {
        None => Seq::empty(),
        Some((he, ne, name)) => {
            let hm = masked(decl).subrange(0, he);
            match top_char_scan(hm, ':', ne, Depths::zero()) {
                None => Seq::empty(),
                Some(c) => {
                    let list = decl.subrange(c + 1, he);
                    kotlin_names(list, split_ranges(list)).map_values(
                        |p: (Seq<char>, ImplKind)| make_fact(file, language, name, p.0, line, p.1),
                    )
                },
            }
        },
    }
}

pub fn extract_kotlin_class(
    file: &str,
    language: &str,
    decl: &Vec<char>,
    line: usize,
    facts: &mut Vec<TypeImplFact>,
)
    ensures
        views(final(facts)@) == views(old(facts)@) + kotlin_facts(file@, language@, decl@, line),
{
    let ghost old_views = views(facts@);
    let class = match class_header(decl) {
        Some(c) => c,
        None => {
            assert(views(facts@) =~= old_views + Seq::empty());
            return;
        },
    };
    proof {
        crate::syntax_scan::lemma_masked_preserves_offsets(decl@);
        lemma_top_char_scan(class.masked@, ':', class.name_end as int, Depths::zero());
    }
    let colon = match find_top_level_char(&class.masked, ':', class.name_end) {
        Some(c) => c,
        None => {
            assert(views(facts@) =~= old_views + Seq::empty());
            return;
        },
    };
    let lo = colon + 1;
    let hi = class.header_end;
    let ghost text = decl@.subrange(lo as int, hi as int);
    let ghost ranges = split_ranges(text);
    let ghost name = class.name@;
    let parts = split_top_level(decl, lo, hi);
    let mut k: usize = 0;
    while k < parts.len()
        invariant
            lo <= hi <= decl.len(),
            text == decl@.subrange(lo as int, hi as int),
            name == class.name@,
            k <= parts@.len() == ranges.len(),
            forall|j: int|
                0 <= j < parts@.len() ==> {
                    &&& lo <= (#[trigger] parts@[j]).0 <= parts@[j].1 <= hi
                    &&& parts@[j].0 - lo == ranges[j].0
                    &&& parts@[j].1 - lo == ranges[j].1
                },
            views(facts@) == old_views + kotlin_names(text, ranges.take(k as int)).map_values(
                |p: (Seq<char>, ImplKind)| make_fact(file@, language@, name, p.0, line, p.1),
            ),
        decreases parts.len() - k,
    {
        let (a, b) = parts[k];
        assert(ranges.take(k + 1).drop_last() =~= ranges.take(k as int));
        assert(text.subrange(ranges[k as int].0, ranges[k as int].1) =~= decl@.subrange(a as int, b as int));
        let kind = if k == 0 { ImplKind::Extends } else { ImplKind::Implements };
        let ghost prev = kotlin_names(text, ranges.take(k as int));
        match canonical_type_name_of(decl, a, b) {
            Some(n) => {
                let imp = class.name.clone();
                let ghost nv = n@;
                push_fact(facts, file, language, imp, n, line, kind);
                assert(prev.push((nv, kind)).map_values(
                    |p: (Seq<char>, ImplKind)| make_fact(file@, language@, name, p.0, line, p.1),
                ) =~= prev.map_values(
                    |p: (Seq<char>, ImplKind)| make_fact(file@, language@, name, p.0, line, p.1),
                ).push(make_fact(file@, language@, name, nv, line, kind)));
            },
            None => {},
        }
        k += 1;
    }
    assert(ranges.take(parts.len() as int) =~= ranges);
}


/// Both facts relate the same two types in the same file and language.
pub open spec fn same_rel(a: TypeImplView, b: TypeImplView) -> bool {
    a.file == b.file && a.language == b.language && a.implementing_type == b.implementing_type
        && a.trait_or_interface == b.trait_or_interface
}

/// The relationship of `a` sorts before that of `b` (by file, language,
/// implementing type, then related type).
pub open spec fn rel_lt(a: TypeImplView, b: TypeImplView) -> bool {
    ||| lex_lt(a.file, b.file)
    ||| a.file == b.file && lex_lt(a.language, b.language)
    ||| a.file == b.file && a.language == b.language && lex_lt(a.implementing_type, b.implementing_type)
    ||| a.file == b.file && a.language == b.language && a.implementing_type == b.implementing_type
        && lex_lt(a.trait_or_interface, b.trait_or_interface)
}

/// `a` sorts strictly before `b`: by relationship, then by kind priority,
/// line and identifier.
pub open spec fn fact_lt(a: TypeImplView, b: TypeImplView) -> bool {
    ||| rel_lt(a, b)
    ||| same_rel(a, b) && priority(a.kind) < priority(b.kind)
    ||| same_rel(a, b) && priority(a.kind) == priority(b.kind) && a.line < b.line
    ||| same_rel(a, b) && priority(a.kind) == priority(b.kind) && a.line == b.line && lex_lt(a.id, b.id)
}

/// A fact that names a file, a language and both types.
pub open spec fn complete_fact(f: TypeImplView) -> bool {
    f.file.len() > 0 && f.language.len() > 0 && f.implementing_type.len() > 0
        && f.trait_or_interface.len() > 0
}

pub proof fn lemma_rel_order(a: TypeImplView, b: TypeImplView, c: TypeImplView)
    ensures
        !rel_lt(a, a),
        rel_lt(a, b) ==> !rel_lt(b, a) && !same_rel(a, b),
        rel_lt(a, b) && rel_lt(b, c) ==> rel_lt(a, c),
        rel_lt(a, b) && same_rel(b, c) ==> rel_lt(a, c),
        same_rel(a, b) && rel_lt(b, c) ==> rel_lt(a, c),
        !same_rel(a, b) ==> rel_lt(a, b) || rel_lt(b, a),
{
    lemma_lex_irreflexive(a.file);
    lemma_lex_irreflexive(a.language);
    lemma_lex_irreflexive(a.implementing_type);
    lemma_lex_irreflexive(a.trait_or_interface);
    lemma_lex_asymmetric(a.file, b.file);
    lemma_lex_asymmetric(a.language, b.language);
    lemma_lex_asymmetric(a.implementing_type, b.implementing_type);
    lemma_lex_asymmetric(a.trait_or_interface, b.trait_or_interface);
    lemma_lex_transitive(a.file, b.file, c.file);
    lemma_lex_transitive(a.language, b.language, c.language);
    lemma_lex_transitive(a.implementing_type, b.implementing_type, c.implementing_type);
    lemma_lex_transitive(a.trait_or_interface, b.trait_or_interface, c.trait_or_interface);
    lemma_lex_total(a.file, b.file);
    lemma_lex_total(a.language, b.language);
    lemma_lex_total(a.implementing_type, b.implementing_type);
    lemma_lex_total(a.trait_or_interface, b.trait_or_interface);
    lemma_lex_irreflexive(b.file);
    lemma_lex_irreflexive(b.language);
    lemma_lex_irreflexive(b.implementing_type);
}

pub proof fn lemma_fact_order(a: TypeImplView, b: TypeImplView, c: TypeImplView)
    ensures
        !fact_lt(a, a),
        fact_lt(a, b) ==> !fact_lt(b, a),
        fact_lt(a, b) && fact_lt(b, c) ==> fact_lt(a, c),
        a != b ==> fact_lt(a, b) || fact_lt(b, a),
{
    lemma_rel_order(a, b, c);
    lemma_rel_order(b, a, c);
    lemma_rel_order(a, c, b);
    lemma_rel_order(b, c, a);
    lemma_rel_order(c, a, b);
    lemma_rel_order(a, a, a);
    lemma_lex_irreflexive(a.id);
    lemma_lex_asymmetric(a.id, b.id);
    lemma_lex_transitive(a.id, b.id, c.id);
    lemma_lex_total(a.id, b.id);
    if a != b && same_rel(a, b) && priority(a.kind) == priority(b.kind) && a.line == b.line && a.id == b.id {
        assert(a.kind == b.kind);
        assert(a == b);
    }
}

fn same_str(a: &String, b: &String) -> (r: bool)
    ensures
        r == (a@ == b@),
{
    proof {
        lemma_lex_irreflexive(a@);
    }
    compare_str(a.as_str(), b.as_str()) == 0
}

/// Compare two facts: -1 when `a` sorts first, 1 when `b` does, 0 when they are equal.
pub fn compare_facts(a: &TypeImplFact, b: &TypeImplFact) -> (r: i8)
    ensures
        r == -1 <==> fact_lt(a@, b@),
        r == 1 <==> fact_lt(b@, a@),
        r == 0 <==> a@ == b@,
{
    proof {
        lemma_fact_order(a@, b@, b@);
        lemma_lex_asymmetric(a.file@, b.file@);
        lemma_lex_asymmetric(a.language@, b.language@);
        lemma_lex_asymmetric(a.implementing_type@, b.implementing_type@);
        lemma_lex_asymmetric(a.trait_or_interface@, b.trait_or_interface@);
        lemma_lex_asymmetric(a.id@, b.id@);
        lemma_lex_irreflexive(a.file@);
        lemma_lex_irreflexive(a.language@);
        lemma_lex_irreflexive(a.implementing_type@);
        lemma_lex_irreflexive(a.trait_or_interface@);
    }
    let c = compare_str(a.file.as_str(), b.file.as_str());
    if c != 0 {
        return c;
    }
    let c = compare_str(a.language.as_str(), b.language.as_str());
    if c != 0 {
        return c;
    }
    let c = compare_str(a.implementing_type.as_str(), b.implementing_type.as_str());
    if c != 0 {
        return c;
    }
    let c = compare_str(a.trait_or_interface.as_str(), b.trait_or_interface.as_str());
    if c != 0 {
        return c;
    }
    let pa = relationship_priority(a.kind);
    let pb = relationship_priority(b.kind);
    if pa < pb {
        return -1;
    }
    if pa > pb {
        return 1;
    }
    if a.line < b.line {
        return -1;
    }
    if a.line > b.line {
        return 1;
    }
    compare_str(a.id.as_str(), b.id.as_str())
}

/// Both facts state the same relationship.
pub fn same_relationship(a: &TypeImplFact, b: &TypeImplFact) -> (r: bool)
    ensures
        r == same_rel(a@, b@),
{
    same_str(&a.file, &b.file) && same_str(&a.language, &b.language) && same_str(
        &a.implementing_type,
        &b.implementing_type,
    ) && same_str(&a.trait_or_interface, &b.trait_or_interface)
}

fn copy_fact(f: &TypeImplFact) -> (g: TypeImplFact)
    ensures
        g@ == f@,
{
    TypeImplFact {
        id: f.id.clone(),
        file: f.file.clone(),
        language: f.language.clone(),
        implementing_type: f.implementing_type.clone(),
        trait_or_interface: f.trait_or_interface.clone(),
        line: f.line,
        kind: f.kind,
    }
}

/// The relationships of `out` strictly increase, so `out` is sorted and
/// states each relationship once.
#[verifier::opaque]
pub open spec fn strictly_increasing(out: Seq<TypeImplView>) -> bool {
    forall|i: int, j: int| 0 <= i < j < out.len() ==> rel_lt(out[i], out[j])
}

/// Every fact of `out` is a complete fact of `input`.
#[verifier::opaque]
pub open spec fn drawn_from(input: Seq<TypeImplView>, out: Seq<TypeImplView>) -> bool {
    forall|i: int| 0 <= i < out.len() ==> complete_fact(#[trigger] out[i]) && input.contains(out[i])
}

/// Every complete fact of `input` is represented in `out` by a fact of its
/// relationship that sorts no later than it.
#[verifier::opaque]
pub open spec fn represents(input: Seq<TypeImplView>, out: Seq<TypeImplView>) -> bool {
    forall|k: int|
        0 <= k < input.len() && complete_fact(#[trigger] input[k]) ==> exists|i: int|
            0 <= i < out.len() && same_rel(#[trigger] out[i], input[k]) && !fact_lt(input[k], out[i])
}

/// What resolution promises of `out` for the input facts `input`: `out` is
/// sorted with one fact per relationship, drawn from the complete facts of
/// the input, and each relationship of the input is represented by the fact
/// that sorts first among those that state it.
pub open spec fn resolves(input: Seq<TypeImplView>, out: Seq<TypeImplView>) -> bool {
    &&& strictly_increasing(out)
    &&& drawn_from(input, out)
    &&& represents(input, out)
}

/// Normalize and deduplicate explicit type relationships: drop incomplete
/// facts, sort, and keep one fact per relationship, preferring the most
/// specific kind (`Implements` over `Extends`), then the earliest line.
pub fn resolve_type_impls(type_impls: Vec<TypeImplFact>) -> (out: Vec<TypeImplFact>)
    ensures
        resolves(views(type_impls@), views(out@)),
{
    let ghost input = views(type_impls@);
    let mut out: Vec<TypeImplFact> = Vec::new();
    let mut k: usize = 0;
    while k < type_impls.len()
        invariant
            k <= type_impls.len(),
            input == views(type_impls@),
            forall|i: int, j: int| 0 <= i < j < out@.len() ==> rel_lt(out@[i]@, out@[j]@),
            forall|i: int| 0 <= i < out@.len() ==> complete_fact(#[trigger] out@[i]@) && input.contains(out@[i]@),
            forall|k0: int|
                0 <= k0 < k && complete_fact(#[trigger] input[k0]) ==> exists|i: int|
                    0 <= i < out@.len() && same_rel(#[trigger] out@[i]@, input[k0]) && !fact_lt(input[k0], out@[i]@),
        decreases type_impls.len() - k,
    {
        let f = &type_impls[k];
        assert(input[k as int] == f@);
        if f.file.as_str().is_empty() || f.language.as_str().is_empty() || f.implementing_type.as_str().is_empty()
            || f.trait_or_interface.as_str().is_empty() {
            k += 1;
            continue;
        }
        assert(input.contains(f@));
        // The first position whose relationship does not sort before `f`.
        let mut j: usize = 0;
        while j < out.len() && compare_rel(&out[j], f)
            invariant
                j <= out@.len(),
                forall|i: int| 0 <= i < j ==> rel_lt(#[trigger] out@[i]@, f@),
            decreases out.len() - j,
        {
            j += 1;
        }
        let ghost before = out@;
        if j < out.len() && same_relationship(&out[j], f) {
            if compare_facts(f, &out[j]) == -1 {
                let g = copy_fact(f);
                out.set(j, g);
                proof {
                    assert forall|i: int, i2: int| 0 <= i < i2 < out@.len() implies rel_lt(out@[i]@, out@[i2]@) by {
                        lemma_rel_order(before[i]@, f@, before[i2]@);
                        lemma_rel_order(before[i]@, before[j as int]@, before[i2]@);
                        lemma_rel_order(f@, before[j as int]@, before[i2]@);
                        lemma_rel_order(before[i]@, f@, before[j as int]@);
                    }
                    assert forall|k0: int|
                        0 <= k0 < k + 1 && complete_fact(#[trigger] input[k0]) implies exists|i: int|
                            0 <= i < out@.len() && same_rel(#[trigger] out@[i]@, input[k0]) && !fact_lt(input[k0], out@[i]@) by {
                        if k0 == k {
                            assert(same_rel(out@[j as int]@, input[k0]));
                            lemma_fact_order(input[k0], input[k0], input[k0]);
                        } else {
                            let i = choose|i: int| 0 <= i < before.len() && same_rel(#[trigger] before[i]@, input[k0]) && !fact_lt(input[k0], before[i]@);
                            if i == j {
                                lemma_fact_order(f@, before[i]@, input[k0]);
                                lemma_fact_order(input[k0], f@, before[i]@);
                                assert(same_rel(out@[i]@, input[k0]));
                            } else {
                                assert(out@[i] == before[i]);
                            }
                        }
                    }
                }
            } else {
                proof {
                    lemma_fact_order(f@, before[j as int]@, f@);
                    assert(same_rel(out@[j as int]@, input[k as int]));
                }
            }
        } else {
            let g = copy_fact(f);
            out.insert(j, g);
            proof {
                if j < before.len() {
                    lemma_rel_order(before[j as int]@, f@, f@);
                    assert(rel_lt(f@, before[j as int]@));
                }
                assert forall|i: int, i2: int| 0 <= i < i2 < out@.len() implies rel_lt(out@[i]@, out@[i2]@) by {
                    if i < j && i2 == j {
                    } else if i < j && i2 > j {
                        assert(out@[i2] == before[i2 - 1]);
                    } else if i == j {
                        assert(out@[i2] == before[i2 - 1]);
                        if i2 - 1 > j {
                            lemma_rel_order(f@, before[j as int]@, before[i2 - 1]@);
                        }
                    } else if i2 < j {
                    } else {
                        assert(out@[i] == before[i - 1]);
                        assert(out@[i2] == before[i2 - 1]);
                    }
                }
                assert forall|i: int| 0 <= i < out@.len() implies complete_fact(#[trigger] out@[i]@) && input.contains(out@[i]@) by {
                    if i > j {
                        assert(out@[i] == before[i - 1]);
                    }
                }
                assert forall|k0: int|
                    0 <= k0 < k + 1 && complete_fact(#[trigger] input[k0]) implies exists|i: int|
                        0 <= i < out@.len() && same_rel(#[trigger] out@[i]@, input[k0]) && !fact_lt(input[k0], out@[i]@) by {
                    if k0 == k {
                        assert(same_rel(out@[j as int]@, input[k0]));
                        lemma_fact_order(input[k0], input[k0], input[k0]);
                    } else {
                        let i = choose|i: int| 0 <= i < before.len() && same_rel(#[trigger] before[i]@, input[k0]) && !fact_lt(input[k0], before[i]@);
                        if i < j {
                            assert(out@[i] == before[i]);
                        } else {
                            assert(out@[i + 1] == before[i]);
                        }
                    }
                }
            }
        }
        k += 1;
    }
    let ghost ov = views(out@);
    reveal(strictly_increasing);
    reveal(drawn_from);
    reveal(represents);
    assert(ov.len() == out@.len());
    assert(forall|i: int| 0 <= i < out@.len() ==> ov[i] == #[trigger] out@[i]@);
    assert forall|k0: int|
        0 <= k0 < input.len() && complete_fact(#[trigger] input[k0]) implies exists|i: int|
            0 <= i < ov.len() && same_rel(#[trigger] ov[i], input[k0]) && !fact_lt(input[k0], ov[i]) by {
        let i = choose|i: int| 0 <= i < out@.len() && same_rel(#[trigger] out@[i]@, input[k0]) && !fact_lt(input[k0], out@[i]@);
        assert(ov[i] == out@[i]@);
    }
    out
}

/// `a`'s relationship sorts strictly before `b`'s.
fn compare_rel(a: &TypeImplFact, b: &TypeImplFact) -> (r: bool)
    ensures
        r == rel_lt(a@, b@),
{
    proof {
        lemma_rel_order(a@, b@, b@);
        lemma_lex_asymmetric(a.file@, b.file@);
        lemma_lex_asymmetric(a.language@, b.language@);
        lemma_lex_asymmetric(a.implementing_type@, b.implementing_type@);
        lemma_lex_irreflexive(a.file@);
        lemma_lex_irreflexive(a.language@);
        lemma_lex_irreflexive(a.implementing_type@);
    }
    let c = compare_str(a.file.as_str(), b.file.as_str());
    if c != 0 {
        return c == -1;
    }
    let c = compare_str(a.language.as_str(), b.language.as_str());
    if c != 0 {
        return c == -1;
    }
    let c = compare_str(a.implementing_type.as_str(), b.implementing_type.as_str());
    if c != 0 {
        return c == -1;
    }
    compare_str(a.trait_or_interface.as_str(), b.trait_or_interface.as_str()) == -1
}


/// The facts stated by one declaration of a source file in `language`
/// (lower case); languages without a relationship scanner state none.
pub open spec fn declaration_facts(
    file: Seq<char>,
    language: Seq<char>,
    decl: Seq<char>,
    line: usize,
) -> Seq<TypeImplView> {
    if language == "rust"@ {
        rust_impl_facts(file, language, decl, line)
    } else if language == "typescript"@ || language == "java"@ {
        extends_implements_facts(file, language, decl, line)
    } else if language == "csharp"@ {
        csharp_facts(file, language, decl, line)
    } else if language == "kotlin"@ {
        kotlin_facts(file, language, decl, line)
    } else {
        Seq::empty()
    }
}

/// The facts stated by a list of declarations, in order.
pub open spec fn declarations_facts(
    file: Seq<char>,
    language: Seq<char>,
    decls: Seq<(Seq<char>, usize)>,
) -> Seq<TypeImplView>
    decreases decls.len(),
{
    if decls.len() == 0 {
        Seq::empty()
    } else {
        declarations_facts(file, language, decls.drop_last()) + declaration_facts(
            file,
            language,
            decls.last().0,
            decls.last().1,
        )
    }
}

pub open spec fn decl_views(decls: Seq<(String, usize)>) -> Seq<(Seq<char>, usize)> {
    decls.map_values(|d: (String, usize)| (d.0@, d.1))
}

/// The resolved relationships stated by `declarations` (declaration text and
/// one-based line) of `file`, written in `language` (lower case).
pub fn type_impls_from_declarations(
    file: &str,
    language: &str,
    declarations: &Vec<(String, usize)>,
) -> (out: Vec<TypeImplFact>)
    ensures
        resolves(declarations_facts(file@, language@, decl_views(declarations@)), views(out@)),
{
    let ghost dv = decl_views(declarations@);
    let is_rust = str_eq(language, "rust");
    let is_ts_java = str_eq(language, "typescript") || str_eq(language, "java");
    let is_csharp = str_eq(language, "csharp");
    let is_kotlin = str_eq(language, "kotlin");
    let mut facts: Vec<TypeImplFact> = Vec::new();
    let mut k: usize = 0;
    while k < declarations.len()
        invariant
            k <= declarations.len(),
            dv == decl_views(declarations@),
            is_rust == (language@ == "rust"@),
            is_ts_java == (language@ == "typescript"@ || language@ == "java"@),
            is_csharp == (language@ == "csharp"@),
            is_kotlin == (language@ == "kotlin"@),
            views(facts@) == declarations_facts(file@, language@, dv.take(k as int)),
        decreases declarations.len() - k,
    {
        let (text, line) = (&declarations[k].0, declarations[k].1);
        let decl = chars_of(text.as_str());
        assert(dv.take(k + 1).drop_last() =~= dv.take(k as int));
        assert(dv.take(k + 1).last() == (decl@, line));
        let ghost before = views(facts@);
        if is_rust {
            extract_rust_impls(file, language, &decl, line, &mut facts);
        } else if is_ts_java {
            extract_typescript_class(file, language, &decl, line, &mut facts);
        } else if is_csharp {
            extract_csharp_class(file, language, &decl, line, &mut facts);
        } else if is_kotlin {
            extract_kotlin_class(file, language, &decl, line, &mut facts);
        } else {
            assert(views(facts@) =~= before + Seq::empty());
        }
        k += 1;
    }
    assert(dv.take(declarations.len() as int) =~= dv);
    resolve_type_impls(facts)
}

/// The grammar and the declaration kinds scanned for a language (lower
/// case): C# base lists are read from class, struct, interface and record
/// declarations.
pub open spec fn relation_grammar(language: Seq<char>) -> Option<(Grammar, Seq<Seq<char>>)> {
    if language == "rust"@ {
        Some((Grammar::Rust, seq!["impl_item"@]))
    } else if language == "typescript"@ {
        Some((Grammar::TypeScript, seq!["class_declaration"@]))
    } else if language == "csharp"@ {
        Some((
            Grammar::CSharp,
            seq!["class_declaration"@, "struct_declaration"@, "interface_declaration"@, "record_declaration"@],
        ))
    } else if language == "java"@ {
        Some((Grammar::Java, seq!["class_declaration"@]))
    } else if language == "kotlin"@ {
        Some((Grammar::Kotlin, seq!["class_declaration"@]))
    } else {
        None
    }
}

/// The one-based line of a node's zero-based row (saturating).
pub open spec fn one_based(row: usize) -> usize {
    if row < usize::MAX { (row + 1) as usize } else { row }
}

/// The text and line of each of the first `n` nodes of the tree that
/// `grammar` parses from `text` whose kind is one of `kinds`, in pre-order.
pub open spec fn declarations_upto(grammar: Grammar, text: Seq<char>, kinds: Seq<Seq<char>>, n: int) -> Seq<(Seq<char>, usize)>
    decreases n,
{
    if n <= 0 {
        Seq::empty()
    } else {
        let prev = declarations_upto(grammar, text, kinds, n - 1);
        let info = syntax_node(grammar, text, (n - 1) as usize);
        if kinds.contains(info.kind@) {
            prev.push((info.text@, one_based(info.row)))
        } else {
            prev
        }
    }
}

/// The declarations of a source: the nodes of one of the kinds of its
/// tree; none where the grammar cannot be loaded.
pub open spec fn declarations_of(grammar: Grammar, text: Seq<char>, kinds: Seq<Seq<char>>) -> Seq<(Seq<char>, usize)> {
    if grammar_loads(grammar) {
        declarations_upto(grammar, text, kinds, syntax_node_count(grammar, text) as int)
    } else {
        Seq::empty()
    }
}

pub open spec fn strs_view(v: Seq<&str>) -> Seq<Seq<char>> {
    v.map_values(|k: &str| k@)
}

/// Whether the kind is one of the kinds.
fn kind_in(kind: &str, kinds: &[&str]) -> (b: bool)
    ensures
        b == strs_view(kinds@).contains(kind@),
{
    let mut k: usize = 0;
    while k < kinds.len()
        invariant
            k <= kinds@.len(),
            forall|j: int| 0 <= j < k ==> strs_view(kinds@)[j] != kind@,
        decreases kinds.len() - k,
    {
        if str_eq(kinds[k], kind) {
            assert(strs_view(kinds@)[k as int] == kind@);
            return true;
        }
        k += 1;
    }
    false
}

/// The text and one-based line of every node of one of the kinds, in
/// document order, of the tree that `grammar` parses from `source`; empty
/// when the grammar cannot be loaded.
pub fn collect_declarations(grammar: Grammar, source: &str, kinds: &[&str]) -> (decls: Vec<(String, usize)>)
    ensures
        decl_views(decls@) == declarations_of(grammar, source@, strs_view(kinds@)),
{
    let ghost ks = strs_view(kinds@);
    let mut decls: Vec<(String, usize)> = Vec::new();
    let parser = match parser_for(grammar) {
        Some(p) => p,
        None => {
            assert(decl_views(decls@) =~= Seq::<(Seq<char>, usize)>::empty());
            return decls;
        },
    };
    let tree = match parse_text(parser, source) {
        Some(t) => t,
        None => return decls,
    };
    let n = node_count(&tree);
    let mut i: usize = 0;
    assert(decl_views(decls@) =~= declarations_upto(grammar, source@, ks, 0));
    while i < n
        invariant
            i <= n,
            ks == strs_view(kinds@),
            tree.grammar() == grammar,
            tree.text() == source@,
            n == syntax_node_count(grammar, source@),
            decl_views(decls@) == declarations_upto(grammar, source@, ks, i as int),
        decreases n - i,
    {
        let info = node_at(&tree, i);
        let ghost before = decl_views(decls@);
        if kind_in(info.kind.as_str(), kinds) {
            let line = if info.row < usize::MAX { info.row + 1 } else { info.row };
            let ghost t = info.text@;
            decls.push((info.text, line));
            assert(decl_views(decls@) =~= before.push((t, line)));
        }
        i += 1;
    }
    decls
}

/// Extract direct type relationships from one source file.
///
/// This works from syntax, not from a symbol table: a related type may live
/// outside the indexed project, so the facts state only relationships that
/// the source declares.  Unsupported languages give no facts.
pub fn extract_type_impls(file: &str, source: &str, language: &str) -> (out: Vec<TypeImplFact>)
    ensures
        relation_grammar(ascii_lower(language@)) is None ==> out@.len() == 0,
        relation_grammar(ascii_lower(language@)) matches Some((g, kinds)) ==> resolves(
            declarations_facts(file@, ascii_lower(language@), declarations_of(g, source@, kinds)),
            views(out@),
        ),
{
    let lower = to_ascii_lowercase(language);
    let class_only: [&str; 1] = ["class_declaration"];
    let cs_types: [&str; 4] = ["class_declaration", "struct_declaration", "interface_declaration", "record_declaration"];
    let impls: [&str; 1] = ["impl_item"];
    let (grammar, kinds): (Grammar, &[&str]) = if str_eq(lower.as_str(), "rust") {
        (Grammar::Rust, &impls)
    } else if str_eq(lower.as_str(), "typescript") {
        (Grammar::TypeScript, &class_only)
    } else if str_eq(lower.as_str(), "csharp") {
        (Grammar::CSharp, &cs_types)
    } else if str_eq(lower.as_str(), "java") {
        (Grammar::Java, &class_only)
    } else if str_eq(lower.as_str(), "kotlin") {
        (Grammar::Kotlin, &class_only)
    } else {
        return Vec::new();
    };
    assert(strs_view(impls@) =~= seq!["impl_item"@]);
    assert(strs_view(class_only@) =~= seq!["class_declaration"@]);
    assert(strs_view(cs_types@) =~= seq!["class_declaration"@, "struct_declaration"@, "interface_declaration"@, "record_declaration"@]);
    let decls = collect_declarations(grammar, source, kinds);
    let out = type_impls_from_declarations(file, lower.as_str(), &decls);
    out
}


/// Resolving already resolved facts keeps them all: a resolved list resolves
/// to itself.
pub proof fn lemma_resolution_idempotent(input: Seq<TypeImplView>, out: Seq<TypeImplView>)
    requires
        resolves(input, out),
    ensures
        resolves(out, out),
{
    reveal(strictly_increasing);
    reveal(drawn_from);
    reveal(represents);
    assert forall|i: int| 0 <= i < out.len() implies complete_fact(#[trigger] out[i]) && out.contains(out[i]) by {
        assert(out[i] == out[i]);
    }
    assert forall|k: int| 0 <= k < out.len() && complete_fact(#[trigger] out[k]) implies exists|i: int|
        0 <= i < out.len() && same_rel(#[trigger] out[i], out[k]) && !fact_lt(out[k], out[i]) by {
        lemma_fact_order(out[k], out[k], out[k]);
        assert(same_rel(out[k], out[k]));
    }
}

/// Resolving a resolved list gives it back unchanged: what
/// `resolve_type_impls` returns for its own result is that result.
pub proof fn lemma_resolve_twice(input: Seq<TypeImplView>, out: Seq<TypeImplView>, again: Seq<TypeImplView>)
    requires
        resolves(input, out),
        resolves(out, again),
    ensures
        again == out,
{
    lemma_resolution_idempotent(input, out);
    lemma_resolution_unique(out, again, out);
}

proof fn lemma_sorted_pair(out: Seq<TypeImplView>, i: int, j: int)
    requires
        strictly_increasing(out),
        0 <= i < j < out.len(),
    ensures
        rel_lt(out[i], out[j]),
{
    reveal(strictly_increasing);
}

proof fn lemma_drawn(input: Seq<TypeImplView>, out: Seq<TypeImplView>, i: int) -> (k: int)
    requires
        drawn_from(input, out),
        0 <= i < out.len(),
    ensures
        0 <= k < input.len(),
        input[k] == out[i],
        complete_fact(out[i]),
{
    reveal(drawn_from);
    choose|k: int| 0 <= k < input.len() && input[k] == out[i]
}

proof fn lemma_represented(input: Seq<TypeImplView>, out: Seq<TypeImplView>, k: int) -> (i: int)
    requires
        represents(input, out),
        0 <= k < input.len(),
        complete_fact(input[k]),
    ensures
        0 <= i < out.len(),
        same_rel(out[i], input[k]),
        !fact_lt(input[k], out[i]),
{
    reveal(represents);
    choose|i: int| 0 <= i < out.len() && same_rel(#[trigger] out[i], input[k]) && !fact_lt(input[k], out[i])
}

/// In a resolved list, a fact of the input is the representative of its
/// relationship exactly when it is listed.
proof fn lemma_member_is_representative(input: Seq<TypeImplView>, a: Seq<TypeImplView>, b: Seq<TypeImplView>, i: int)
    requires
        resolves(input, a),
        resolves(input, b),
        0 <= i < a.len(),
    ensures
        b.contains(a[i]),
{
    let k = lemma_drawn(input, a, i);
    let j = lemma_represented(input, b, k);
    let g = b[j];
    let k2 = lemma_drawn(input, b, j);
    let i2 = lemma_represented(input, a, k2);
    if i2 < i {
        lemma_sorted_pair(a, i2, i);
        lemma_rel_order(a[i2], a[i], a[i]);
    } else if i2 > i {
        lemma_sorted_pair(a, i, i2);
        lemma_rel_order(a[i], a[i2], a[i]);
    }
    lemma_fact_order(a[i], g, a[i]);
    assert(g == a[i]);
    assert(b[j] == a[i]);
}

proof fn lemma_resolution_prefix(input: Seq<TypeImplView>, a: Seq<TypeImplView>, b: Seq<TypeImplView>, i: int)
    requires
        resolves(input, a),
        resolves(input, b),
        0 <= i,
        forall|t: int| 0 <= t < i && t < a.len() && t < b.len() ==> a[t] == b[t],
    ensures
        forall|t: int| 0 <= t < a.len() && t < b.len() ==> a[t] == b[t],
    decreases a.len() - i,
{
    reveal(strictly_increasing);
    if i < a.len() && i < b.len() {
        lemma_member_is_representative(input, a, b, i);
        lemma_member_is_representative(input, b, a, i);
        let j = choose|j: int| 0 <= j < b.len() && b[j] == a[i];
        let i2 = choose|i2: int| 0 <= i2 < a.len() && a[i2] == b[i];
        if j < i {
            assert(a[j] == b[j]);
            assert(rel_lt(a[j], a[i]));
            lemma_rel_order(a[i], a[i], a[i]);
        }
        if i2 < i {
            assert(a[i2] == b[i2]);
            assert(rel_lt(b[i2], b[i]));
            lemma_rel_order(b[i], b[i], b[i]);
        }
        if j > i && i2 > i {
            assert(rel_lt(b[i], b[j]));
            assert(rel_lt(a[i], a[i2]));
            lemma_rel_order(a[i], b[i], a[i]);
        }
        lemma_resolution_prefix(input, a, b, i + 1);
    }
}

/// The resolution of a list of facts is unique: two lists that both meet
/// [`resolves`] for the same input are equal.
pub proof fn lemma_resolution_unique(input: Seq<TypeImplView>, a: Seq<TypeImplView>, b: Seq<TypeImplView>)
    requires
        resolves(input, a),
        resolves(input, b),
    ensures
        a == b,
{
    reveal(strictly_increasing);
    lemma_resolution_prefix(input, a, b, 0);
    if a.len() < b.len() {
        let n = a.len() as int;
        lemma_member_is_representative(input, b, a, n);
        let i2 = choose|i2: int| 0 <= i2 < a.len() && a[i2] == b[n];
        assert(a[i2] == b[i2]);
        assert(rel_lt(b[i2], b[n]));
        lemma_rel_order(b[n], b[n], b[n]);
    }
    if b.len() < a.len() {
        let n = b.len() as int;
        lemma_member_is_representative(input, a, b, n);
        let j = choose|j: int| 0 <= j < b.len() && b[j] == a[n];
        assert(a[j] == b[j]);
        assert(rel_lt(a[j], a[n]));
        lemma_rel_order(a[n], a[n], a[n]);
    }
    assert(a =~= b);
}

} // verus!
