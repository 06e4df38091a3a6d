//! Character-level text primitives shared by the scanners of this crate.
//!
//! Text is handled as a sequence of `char`s: a `&str` is read into a
//! `Vec<char>` once, and positions are character indices.
use vstd::prelude::*;

verus! {

/// Unicode `White_Space`, the property behind `char::is_whitespace`.
pub open spec fn is_ws(c: char) -> bool {
    ||| c == ' '
    ||| ('\t' <= c && c <= '\r')
    ||| c == '\u{85}'
    ||| c == '\u{a0}'
    ||| c == '\u{1680}'
    ||| ('\u{2000}' <= c && c <= '\u{200a}')
    ||| c == '\u{2028}'
    ||| c == '\u{2029}'
    ||| c == '\u{202f}'
    ||| c == '\u{205f}'
    ||| c == '\u{3000}'
}

/// ASCII whitespace as `u8::is_ascii_whitespace` defines it (no vertical tab).
pub open spec fn is_ascii_ws(c: char) -> bool {
    c == ' ' || c == '\t' || c == '\n' || c == '\x0C' || c == '\r'
}

pub open spec fn is_ascii_alpha(c: char) -> bool {
    ('a' <= c && c <= 'z') || ('A' <= c && c <= 'Z')
}

pub open spec fn is_ascii_digit(c: char) -> bool {
    '0' <= c && c <= '9'
}

pub open spec fn is_ascii_alnum(c: char) -> bool {
    is_ascii_alpha(c) || is_ascii_digit(c)
}

/// `s` without its leading whitespace.
pub open spec fn trim_start(s: Seq<char>) -> Seq<char>
    decreases s.len(),
{
    if s.len() > 0 && is_ws(s[0]) {
        trim_start(s.drop_first())
    } else {
        s
    }
}

/// `s` without its trailing whitespace.
pub open spec fn trim_end(s: Seq<char>) -> Seq<char>
    decreases s.len(),
{
    if s.len() > 0 && is_ws(s.last()) {
        trim_end(s.drop_last())
    } else {
        s
    }
}

/// `s` without leading and trailing whitespace, as `str::trim` gives it.
pub open spec fn trim(s: Seq<char>) -> Seq<char> {
    trim_end(trim_start(s))
}

/// `pat` occurs in `s` at position `i`.
pub open spec fn matches_at(s: Seq<char>, i: int, pat: Seq<char>) -> bool {
    0 <= i && i + pat.len() <= s.len() && s.subrange(i, i + pat.len()) == pat
}

/// The first position at or after `start` where `pat` occurs in `s`.
pub open spec fn first_match_from(s: Seq<char>, start: int, pat: Seq<char>) -> Option<int>
    decreases s.len() + 1 - start,
{
    if start < 0 || start + pat.len() > s.len() {
        None
    } else if matches_at(s, start, pat) {
        Some(start)
    } else {
        first_match_from(s, start + 1, pat)
    }
}

/// The first position of `c` at or after `start`.
pub open spec fn first_char_from(s: Seq<char>, start: int, c: char) -> Option<int>
    decreases s.len() - start,
{
    if start < 0 || start >= s.len() {
        None
    } else if s[start] == c {
        Some(start)
    } else {
        first_char_from(s, start + 1, c)
    }
}

/// `s` with every whitespace character removed.
pub open spec fn strip_ws(s: Seq<char>) -> Seq<char>
    decreases s.len(),
{
    if s.len() == 0 {
        s
    } else if is_ws(s.last()) {
        strip_ws(s.drop_last())
    } else {
        strip_ws(s.drop_last()).push(s.last())
    }
}

/// `char::is_whitespace`.
pub fn is_whitespace(c: char) -> (b: bool)
    ensures
        b == is_ws(c),
{
    c == ' ' || ('\t' <= c && c <= '\r') || c == '\u{85}' || c == '\u{a0}' || c == '\u{1680}'
        || ('\u{2000}' <= c && c <= '\u{200a}') || c == '\u{2028}' || c == '\u{2029}' || c
        == '\u{202f}' || c == '\u{205f}' || c == '\u{3000}'
}

/// `u8::is_ascii_whitespace` on the character's code.
pub fn is_ascii_whitespace(c: char) -> (b: bool)
    ensures
        b == is_ascii_ws(c),
{
    c == ' ' || c == '\t' || c == '\n' || c == '\x0C' || c == '\r'
}

pub fn is_ascii_alphanumeric(c: char) -> (b: bool)
    ensures
        b == is_ascii_alnum(c),
{
    ('a' <= c && c <= 'z') || ('A' <= c && c <= 'Z') || ('0' <= c && c <= '9')
}

/// The characters of a string slice, in order.
pub fn chars_of(s: &str) -> (v: Vec<char>)
    ensures
        v@ == s@,
{
    broadcast use vstd::string::group_string_axioms;

    let mut v: Vec<char> = Vec::new();
    for c in it: s.chars()
        invariant
            v@ == it.seq().take(it.index() as int),
    {
        v.push(c);
    }
    v
}

/// `String::push`: appends one character.
#[verifier::external_body]
fn push_char(s: &mut String, c: char)
    ensures
        final(s)@ == old(s)@.push(c),
{
    s.push(c);
}

/// A new string holding `v[lo..hi]`.
pub fn string_from(v: &Vec<char>, lo: usize, hi: usize) -> (s: String)
    requires
        lo <= hi <= v.len(),
    ensures
        s@ == v@.subrange(lo as int, hi as int),
{
    let mut s = String::new();
    let mut i = lo;
    while i < hi
        invariant
            lo <= i <= hi <= v.len(),
            s@ == v@.subrange(lo as int, i as int),
        decreases hi - i,
    {
        push_char(&mut s, v[i]);
        assert(v@.subrange(lo as int, i + 1) == v@.subrange(lo as int, i as int).push(v@[i as int]));
        i += 1;
    }
    s
}

/// A new string holding all of `v`.
pub fn string_of(v: &Vec<char>) -> (s: String)
    ensures
        s@ == v@,
{
    let s = string_from(v, 0, v.len());
    assert(v@.subrange(0, v.len() as int) == v@);
    s
}

/// A new string holding `v[lo..hi]` with every whitespace character removed.
pub fn string_without_ws(v: &Vec<char>, lo: usize, hi: usize) -> (s: String)
    requires
        lo <= hi <= v.len(),
    ensures
        s@ == strip_ws(v@.subrange(lo as int, hi as int)),
{
    let mut s = String::new();
    let mut i = lo;
    while i < hi
        invariant
            lo <= i <= hi <= v.len(),
            s@ == strip_ws(v@.subrange(lo as int, i as int)),
        decreases hi - i,
    {
        let c = v[i];
        assert(v@.subrange(lo as int, i + 1).drop_last() == v@.subrange(lo as int, i as int));
        if !is_whitespace(c) {
            push_char(&mut s, c);
        }
        i += 1;
    }
    s
}

/// Whether `v[i..]` starts with `pat`.
pub fn matches_here(v: &Vec<char>, i: usize, pat: &Vec<char>) -> (b: bool)
    ensures
        b == matches_at(v@, i as int, pat@),
{
    if i > v.len() || pat.len() > v.len() - i {
        return false;
    }
    let mut k: usize = 0;
    while k < pat.len()
        invariant
            i + pat.len() <= v.len(),
            k <= pat.len(),
            forall|j: int| 0 <= j < k ==> v@[i + j] == pat@[j],
        decreases pat.len() - k,
    {
        if v[i + k] != pat[k] {
            assert(v@.subrange(i as int, i + pat.len())[k as int] != pat@[k as int]);
            return false;
        }
        k += 1;
    }
    assert(v@.subrange(i as int, i + pat.len()) =~= pat@);
    true
}

/// The first position at or after `start` where `pat` occurs.
pub fn find_from(v: &Vec<char>, start: usize, pat: &Vec<char>) -> (r: Option<usize>)
    ensures
        r is None <==> first_match_from(v@, start as int, pat@) is None,
        r matches Some(i) ==> first_match_from(v@, start as int, pat@) == Some(i as int),
        r matches Some(i) ==> matches_at(v@, i as int, pat@) && start <= i,
{
    if pat.len() == 0 {
        if start <= v.len() {
            assert(matches_at(v@, start as int, pat@)) by {
                assert(v@.subrange(start as int, start as int) =~= pat@);
            }
            return Some(start);
        }
        return None;
    }
    let mut i = start;
    while i < v.len() && pat.len() <= v.len() - i
        invariant
            pat.len() > 0,
            start <= i,
            first_match_from(v@, start as int, pat@) == first_match_from(v@, i as int, pat@),
        decreases v.len() + 1 - i,
    {
        if matches_here(v, i, pat) {
            return Some(i);
        }
        i += 1;
    }
    None
}

/// The first position of `c` at or after `start`.
pub fn find_char_from(v: &Vec<char>, start: usize, c: char) -> (r: Option<usize>)
    ensures
        r is None <==> first_char_from(v@, start as int, c) is None,
        r matches Some(i) ==> first_char_from(v@, start as int, c) == Some(i as int),
        r matches Some(i) ==> start <= i < v.len() && v@[i as int] == c,
{
    let mut i = start;
    while i < v.len()
        invariant
            start <= i,
            first_char_from(v@, start as int, c) == first_char_from(v@, i as int, c),
        decreases v.len() - i,
    {
        if v[i] == c {
            return Some(i);
        }
        i += 1;
    }
    None
}

/// The bounds of `v[lo..hi]` once leading and trailing whitespace is removed.
pub fn trim_bounds(v: &Vec<char>, lo: usize, hi: usize) -> (r: (usize, usize))
    requires
        lo <= hi <= v.len(),
    ensures
        lo <= r.0 <= r.1 <= hi,
        v@.subrange(r.0 as int, r.1 as int) == trim(v@.subrange(lo as int, hi as int)),
        v@.subrange(r.0 as int, hi as int) == trim_start(v@.subrange(lo as int, hi as int)),
{
    let mut a = lo;
    while a < hi && is_whitespace(v[a])
        invariant
            lo <= a <= hi <= v.len(),
            trim_start(v@.subrange(lo as int, hi as int)) == trim_start(v@.subrange(a as int, hi as int)),
        decreases hi - a,
    {
        assert(v@.subrange(a as int, hi as int).drop_first() == v@.subrange(a + 1, hi as int));
        a += 1;
    }
    let mut b = hi;
    while b > a && is_whitespace(v[b - 1])
        invariant
            lo <= a <= b <= hi <= v.len(),
            trim_end(v@.subrange(a as int, hi as int)) == trim_end(v@.subrange(a as int, b as int)),
        decreases b - a,
    {
        assert(v@.subrange(a as int, b as int).drop_last() == v@.subrange(a as int, b - 1));
        b -= 1;
    }
    (a, b)
}


/// `s` without the leading characters that belong to `set`.
pub open spec fn trim_start_in(s: Seq<char>, set: Seq<char>) -> Seq<char>
    decreases s.len(),
{
    if s.len() > 0 && set.contains(s[0]) {
        trim_start_in(s.drop_first(), set)
    } else {
        s
    }
}

/// `s` without the trailing characters that belong to `set`.
pub open spec fn trim_end_in(s: Seq<char>, set: Seq<char>) -> Seq<char>
    decreases s.len(),
{
    if s.len() > 0 && set.contains(s.last()) {
        trim_end_in(s.drop_last(), set)
    } else {
        s
    }
}

/// `pat` is a prefix of `s`.
pub open spec fn is_prefix(pat: Seq<char>, s: Seq<char>) -> bool {
    pat.len() <= s.len() && s.subrange(0, pat.len() as int) == pat
}

/// `pat` is a suffix of `s`.
pub open spec fn is_suffix(pat: Seq<char>, s: Seq<char>) -> bool {
    pat.len() <= s.len() && s.subrange(s.len() - pat.len(), s.len() as int) == pat
}

pub fn contains_char(set: &Vec<char>, c: char) -> (b: bool)
    ensures
        b == set@.contains(c),
{
    let mut i: usize = 0;
    while i < set.len()
        invariant
            i <= set.len(),
            forall|j: int| 0 <= j < i ==> set@[j] != c,
        decreases set.len() - i,
    {
        if set[i] == c {
            return true;
        }
        i += 1;
    }
    false
}

/// The new lower bound of `v[lo..hi]` once leading characters of `set` are removed.
pub fn trim_start_set(v: &Vec<char>, lo: usize, hi: usize, set: &Vec<char>) -> (r: usize)
    requires
        lo <= hi <= v.len(),
    ensures
        lo <= r <= hi,
        v@.subrange(r as int, hi as int) == trim_start_in(v@.subrange(lo as int, hi as int), set@),
{
    let mut a = lo;
    while a < hi && contains_char(set, v[a])
        invariant
            lo <= a <= hi <= v.len(),
            trim_start_in(v@.subrange(lo as int, hi as int), set@) == trim_start_in(
                v@.subrange(a as int, hi as int),
                set@,
            ),
        decreases hi - a,
    {
        assert(v@.subrange(a as int, hi as int).drop_first() == v@.subrange(a + 1, hi as int));
        a += 1;
    }
    a
}

/// The new upper bound of `v[lo..hi]` once trailing characters of `set` are removed.
pub fn trim_end_set(v: &Vec<char>, lo: usize, hi: usize, set: &Vec<char>) -> (r: usize)
    requires
        lo <= hi <= v.len(),
    ensures
        lo <= r <= hi,
        v@.subrange(lo as int, r as int) == trim_end_in(v@.subrange(lo as int, hi as int), set@),
{
    let mut b = hi;
    while b > lo && contains_char(set, v[b - 1])
        invariant
            lo <= b <= hi <= v.len(),
            trim_end_in(v@.subrange(lo as int, hi as int), set@) == trim_end_in(
                v@.subrange(lo as int, b as int),
                set@,
            ),
        decreases b - lo,
    {
        assert(v@.subrange(lo as int, b as int).drop_last() == v@.subrange(lo as int, b - 1));
        b -= 1;
    }
    b
}

/// Whether `v[lo..hi]` starts with `pat`.
pub fn has_prefix(v: &Vec<char>, lo: usize, hi: usize, pat: &Vec<char>) -> (b: bool)
    requires
        lo <= hi <= v.len(),
    ensures
        b == is_prefix(pat@, v@.subrange(lo as int, hi as int)),
{
    if pat.len() > hi - lo {
        return false;
    }
    let b = matches_here(v, lo, pat);
    assert(v@.subrange(lo as int, hi as int).subrange(0, pat.len() as int) == v@.subrange(
        lo as int,
        lo + pat.len(),
    ));
    b
}

/// Whether `v[lo..hi]` ends with `pat`.
pub fn has_suffix(v: &Vec<char>, lo: usize, hi: usize, pat: &Vec<char>) -> (b: bool)
    requires
        lo <= hi <= v.len(),
    ensures
        b == is_suffix(pat@, v@.subrange(lo as int, hi as int)),
{
    if pat.len() > hi - lo {
        return false;
    }
    let b = matches_here(v, hi - pat.len(), pat);
    assert(v@.subrange(lo as int, hi as int).subrange(
        (hi - lo) - pat.len(),
        (hi - lo) as int,
    ) == v@.subrange(hi - pat.len(), hi as int));
    b
}

/// Decimal digits of `n`, as `usize`'s `Display` writes them.
pub open spec fn decimal(n: nat) -> Seq<char>
    decreases n,
{
    if n < 10 {
        seq![digit_char(n)]
    } else {
        decimal(n / 10).push(digit_char(n % 10))
    }
}

pub open spec fn digit_char(d: nat) -> char {
    if d == 0 { '0' }
    else if d == 1 { '1' }
    else if d == 2 { '2' }
    else if d == 3 { '3' }
    else if d == 4 { '4' }
    else if d == 5 { '5' }
    else if d == 6 { '6' }
    else if d == 7 { '7' }
    else if d == 8 { '8' }
    else { '9' }
}

fn digit(d: usize) -> (c: char)
    requires
        d < 10,
    ensures
        c == digit_char(d as nat),
{
    if d == 0 { '0' }
    else if d == 1 { '1' }
    else if d == 2 { '2' }
    else if d == 3 { '3' }
    else if d == 4 { '4' }
    else if d == 5 { '5' }
    else if d == 6 { '6' }
    else if d == 7 { '7' }
    else if d == 8 { '8' }
    else { '9' }
}

/// Appends the decimal digits of `n` to `s`.
pub fn push_decimal(s: &mut String, n: usize)
    ensures
        final(s)@ == old(s)@ + decimal(n as nat),
    decreases n,
{
    if n < 10 {
        push_char(s, digit(n));
        assert(old(s)@.push(digit_char(n as nat)) =~= old(s)@ + decimal(n as nat));
    } else {
        push_decimal(s, n / 10);
        push_char(s, digit(n % 10));
        assert(old(s)@ + decimal((n / 10) as nat) + seq![digit_char((n % 10) as nat)] =~= old(s)@
            + decimal(n as nat));
    }
}

/// Appends all of `other` to `s`.
pub fn push_str(s: &mut String, other: &str)
    ensures
        final(s)@ == old(s)@ + other@,
{
    s.append(other);
}


/// Whether `char::is_uppercase` holds of a character (Unicode `Uppercase`).
pub uninterp spec fn unicode_uppercase(c: char) -> bool;

/// `char::is_uppercase`. Its contract names the Unicode property and states
/// its value on ASCII characters, as std documents: there, exactly `A` to
/// `Z` are uppercase.
#[verifier::external_body]
pub fn char_is_uppercase(c: char) -> (b: bool)
    ensures
        b == unicode_uppercase(c),
        (c as u32) < 128 ==> (b == ('A' <= c && c <= 'Z')),
{
    c.is_uppercase()
}

/// Whether `char::is_alphanumeric` holds of a character (Unicode `Alphabetic`
/// or `Numeric`).
pub uninterp spec fn unicode_alphanumeric(c: char) -> bool;

/// `char::is_alphanumeric`. Its contract names the Unicode property and
/// states its value on ASCII characters, as std documents; the tables for
/// other characters are left to the name.
#[verifier::external_body]
pub fn char_is_alphanumeric(c: char) -> (b: bool)
    ensures
        b == unicode_alphanumeric(c),
        (c as u32) < 128 ==> (b == is_ascii_alnum(c)),
{
    c.is_alphanumeric()
}


/// A copy of `v[lo..hi]`.
pub fn sub_vec(v: &Vec<char>, lo: usize, hi: usize) -> (r: Vec<char>)
    requires
        lo <= hi <= v.len(),
    ensures
        r@ == v@.subrange(lo as int, hi as int),
{
    let mut r: Vec<char> = Vec::new();
    let mut t = lo;
    while t < hi
        invariant
            lo <= t <= hi <= v.len(),
            r@ == v@.subrange(lo as int, t as int),
        decreases hi - t,
    {
        r.push(v[t]);
        assert(r@ =~= v@.subrange(lo as int, t + 1));
        t += 1;
    }
    r
}

/// A copy of `v[lo..hi]` with every whitespace character removed.
pub fn vec_without_ws(v: &Vec<char>, lo: usize, hi: usize) -> (r: Vec<char>)
    requires
        lo <= hi <= v.len(),
    ensures
        r@ == strip_ws(v@.subrange(lo as int, hi as int)),
{
    let mut r: Vec<char> = Vec::new();
    let mut i = lo;
    while i < hi
        invariant
            lo <= i <= hi <= v.len(),
            r@ == strip_ws(v@.subrange(lo as int, i as int)),
        decreases hi - i,
    {
        let c = v[i];
        assert(v@.subrange(lo as int, i + 1).drop_last() == v@.subrange(lo as int, i as int));
        if !is_whitespace(c) {
            r.push(c);
        }
        i += 1;
    }
    r
}


/// `c` with ASCII upper-case letters mapped to lower case.
pub open spec fn ascii_lower_char(c: char) -> char {
    if 'A' <= c && c <= 'Z' {
        ((c as u32) + 32) as char
    } else {
        c
    }
}

/// `s` with ASCII upper-case letters mapped to lower case, as
/// `str::to_ascii_lowercase` gives it.
pub open spec fn ascii_lower(s: Seq<char>) -> Seq<char> {
    s.map_values(|c: char| ascii_lower_char(c))
}

pub fn to_ascii_lower_char(c: char) -> (r: char)
    ensures
        r == ascii_lower_char(c),
{
    if 'A' <= c && c <= 'Z' {
        let b = c as u8;
        assert(b == c as u32);
        let r = (b + 32) as char;
        r
    } else {
        c
    }
}

/// `str::to_ascii_lowercase`.
pub fn to_ascii_lowercase(s: &str) -> (r: String)
    ensures
        r@ == ascii_lower(s@),
{
    let v = chars_of(s);
    let mut r = String::new();
    let mut i: usize = 0;
    while i < v.len()
        invariant
            i <= v.len(),
            v@ == s@,
            r@ == ascii_lower(v@.take(i as int)),
        decreases v.len() - i,
    {
        push_char(&mut r, to_ascii_lower_char(v[i]));
        assert(ascii_lower(v@.take(i + 1)) =~= ascii_lower(v@.take(i as int)).push(ascii_lower_char(v@[i as int])));
        i += 1;
    }
    assert(v@.take(v.len() as int) =~= v@);
    r
}

/// Two strings hold the same characters.
pub fn str_eq(a: &str, b: &str) -> (r: bool)
    ensures
        r == (a@ == b@),
{
    proof {
        crate::order::lemma_lex_irreflexive(a@);
    }
    crate::order::compare_str(a, b) == 0
}


/// `s` ends with `suffix`.
pub fn ends_with(s: &str, suffix: &str) -> (b: bool)
    ensures
        b == is_suffix(suffix@, s@),
{
    let v = chars_of(s);
    let p = chars_of(suffix);
    assert(v@.subrange(0, v.len() as int) =~= v@);
    has_suffix(&v, 0, v.len(), &p)
}

/// `s` starts with `prefix`.
pub fn starts_with(s: &str, prefix: &str) -> (b: bool)
    ensures
        b == is_prefix(prefix@, s@),
{
    let v = chars_of(s);
    let p = chars_of(prefix);
    assert(v@.subrange(0, v.len() as int) =~= v@);
    has_prefix(&v, 0, v.len(), &p)
}


/// An owned copy of `s`.
pub fn owned(s: &str) -> (r: String)
    ensures
        r@ == s@,
{
    let mut r = String::new();
    push_str(&mut r, s);
    r
}


/// Every character is ASCII.
pub open spec fn all_ascii(s: Seq<char>) -> bool {
    forall|i: int| 0 <= i < s.len() ==> (s[i] as u32) < 128
}

/// The lowercase mapping of a text that `str::to_lowercase` computes: the
/// Unicode `Lowercase` mapping of each character, in context.
pub uninterp spec fn unicode_lowercase(s: Seq<char>) -> Seq<char>;

/// `str::to_lowercase`. Its contract names the result, and states what std
/// documents of ASCII text: each ASCII letter maps to its lowercase letter
/// and other ASCII characters stay. The Unicode tables for other characters
/// are left to the name.
#[verifier::external_body]
pub fn to_lowercase(s: &str) -> (r: String)
    ensures
        r@ == unicode_lowercase(s@),
        all_ascii(s@) ==> r@ == ascii_lower(s@),
{
    s.to_lowercase()
}


/// The number of bytes of a text in UTF-8, as `str::len` gives it.
pub open spec fn byte_len(s: Seq<char>) -> usize {
    vstd::utf8::encode_utf8(s).len() as usize
}


/// A new string holding `s` without its leading and trailing whitespace.
pub fn trimmed(s: &str) -> (r: String)
    ensures
        r@ == trim(s@),
{
    let v = chars_of(s);
    let (a, b) = trim_bounds(&v, 0, v.len());
    assert(v@.subrange(0, v.len() as int) =~= v@);
    string_from(&v, a, b)
}

} // verus!
