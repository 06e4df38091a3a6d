//! Visibility of declarations, read from the modifier keywords written on
//! and just above a declaration's first line.
use vstd::prelude::*;
use crate::codemap::Visibility;
use crate::markdown::{line_ranges, ranges_view, split_lines};
use crate::text::{ascii_lower, chars_of, find_from, first_match_from, push_str, string_from, to_ascii_lowercase, trim, trim_bounds};

verus! {

/// The lines of a text.
pub open spec fn lines_of(s: Seq<char>) -> Seq<Seq<char>> {
    line_ranges(s).map_values(|r: (int, int)| s.subrange(r.0, r.1))
}

/// Scanning upward from line `i`, with `taken` lines collected so far: the
/// topmost line collected. A blank line stops the scan (and is not
/// collected); the scan also stops once `max` lines are collected.
pub open spec fn stop_above(lines: Seq<Seq<char>>, i: int, taken: nat, max: nat) -> int
    decreases i + 1,
{
    if i < 0 {
        0
    } else if trim(lines[i]).len() == 0 {
        i + 1
    } else if taken + 1 >= max {
        i
    } else {
        stop_above(lines, i - 1, taken + 1, max)
    }
}

/// The trimmed lines that lead to a declaration starting on `row`: the
/// declaration's own line and the non-blank lines right above it, at most
/// `max` lines in all (but always at least one line above where there is
/// one), top first.
pub open spec fn leading_lines(lines: Seq<Seq<char>>, row: int, max: nat) -> Seq<Seq<char>> {
    if row < 0 || row >= lines.len() {
        Seq::empty()
    } else {
        let top = stop_above(lines, row - 1, 1, max);
        Seq::new((row - top + 1) as nat, |k: int| trim(lines[top + k]))
    }
}

/// Lines joined with single spaces.
pub open spec fn join_space(ls: Seq<Seq<char>>) -> Seq<char>
    decreases ls.len(),
{
    if ls.len() == 0 {
        Seq::empty()
    } else if ls.len() == 1 {
        ls[0]
    } else {
        join_space(ls.drop_last()) + " "@ + ls.last()
    }
}

/// The lowercased text leading to a declaration starting on `row` (none for
/// a declaration of unknown position).
pub open spec fn leading_text_spec(source: Seq<char>, row: Option<usize>, max: nat) -> Seq<char> {
    match row {
        None => Seq::empty(),
        Some(r) => ascii_lower(join_space(leading_lines(lines_of(source), r as int, max))),
    }
}

/// The lowercased modifier text on and above a declaration's first line.
pub fn leading_text(source: &str, row: Option<usize>, max_lines: usize) -> (t: String)
    ensures
        t@ == leading_text_spec(source@, row, max_lines as nat),
{
    proof {
        reveal_strlit(" ");
    }
    let row = match row {
        None => return String::new(),
        Some(r) => r,
    };
    let v = chars_of(source);
    let ranges = split_lines(&v);
    let ghost lines = lines_of(v@);
    assert(lines.len() == ranges.len());
    if row >= ranges.len() {
        return String::new();
    }
    // Find the topmost line collected.
    let mut i: usize = row;
    let mut taken: usize = 1;
    let mut top: usize = row;
    let mut done = false;
    while i > 0 && !done
        invariant
            i <= row < ranges.len(),
            lines == lines_of(v@),
            lines.len() == ranges.len(),
            ranges_view(ranges@) == line_ranges(v@),
            forall|k: int| 0 <= k < ranges.len() ==> (#[trigger] ranges@[k]).0 <= ranges@[k].1 <= v.len(),
            taken + i == row + 1,
            !done ==> top == i && stop_above(lines, row - 1, 1, max_lines as nat) == stop_above(lines, i - 1, taken as nat, max_lines as nat),
            done ==> top == stop_above(lines, row - 1, 1, max_lines as nat),
            top <= row,
        decreases 2 * i + (if done { 0int } else { 1int }),
    {
        let (lo, hi) = ranges[i - 1];
        assert(lines[i - 1] == v@.subrange(lo as int, hi as int));
        let (a, e) = trim_bounds(&v, lo, hi);
        if a == e {
            done = true;
        } else if taken + 1 >= max_lines {
            top = i - 1;
            done = true;
        } else {
            taken += 1;
            i -= 1;
            top = i;
        }
    }
    if !done {
        assert(stop_above(lines, i - 1, taken as nat, max_lines as nat) == 0);
    }
    // Join the lines from `top` to `row`.
    let ghost lead = leading_lines(lines, row as int, max_lines as nat);
    let mut joined = String::new();
    let mut k = top;
    while k <= row
        invariant
            top <= k <= row + 1,
            row < ranges.len(),
            lines == lines_of(v@),
            lines.len() == ranges.len(),
            ranges_view(ranges@) == line_ranges(v@),
            forall|q: int| 0 <= q < ranges.len() ==> (#[trigger] ranges@[q]).0 <= ranges@[q].1 <= v.len(),
            top == stop_above(lines, row - 1, 1, max_lines as nat),
            lead == leading_lines(lines, row as int, max_lines as nat),
            lead.len() == row - top + 1,
            joined@ == join_space(lead.take(k - top)),
        decreases row + 1 - k,
    {
        let (lo, hi) = ranges[k];
        assert(lines[k as int] == v@.subrange(lo as int, hi as int));
        let (a, e) = trim_bounds(&v, lo, hi);
        let piece = string_from(&v, a, e);
        let ghost before = joined@;
        if k > top {
            push_str(&mut joined, " ");
        }
        push_str(&mut joined, piece.as_str());
        assert(lead.take(k + 1 - top).drop_last() =~= lead.take(k - top));
        assert(lead[k - top] == trim(lines[k as int]));
        if k == top {
            assert(lead.take(1) =~= seq![lead[0]]);
        }
        assert(joined@ =~= join_space(lead.take(k + 1 - top)));
        k += 1;
    }
    assert(lead.take(row + 1 - top) =~= lead);
    to_ascii_lowercase(joined.as_str())
}

/// `pat` occurs in `s`.
pub open spec fn mentions(s: Seq<char>, pat: Seq<char>) -> bool {
    first_match_from(s, 0, pat) is Some
}

fn contains(s: &str, pat: &str) -> (b: bool)
    ensures
        b == mentions(s@, pat@),
{
    let v = chars_of(s);
    let p = chars_of(pat);
    find_from(&v, 0, &p).is_some()
}

/// C#: `public` exports; otherwise the first of `protected internal`,
/// `internal`, `protected` and `private` that the modifiers mention, and
/// private where they mention none.
pub open spec fn csharp_visibility_of(lead: Seq<char>) -> (bool, Visibility) {
    if mentions(lead, "public"@) {
        (true, Visibility::Public)
    } else if mentions(lead, "protected internal"@) || mentions(lead, "internal protected"@) {
        (false, Visibility::Protected)
    } else if mentions(lead, "internal"@) {
        (false, Visibility::Internal)
    } else if mentions(lead, "protected"@) {
        (false, Visibility::Protected)
    } else {
        (false, Visibility::Private)
    }
}

/// C# visibility of a declaration starting on `row`.
pub fn csharp_visibility(row: Option<usize>, source: &str) -> (r: (bool, Visibility))
    ensures
        r == csharp_visibility_of(leading_text_spec(source@, row, 2)),
{
    let lead = leading_text(source, row, 2);
    let l = lead.as_str();
    if contains(l, "public") {
        (true, Visibility::Public)
    } else if contains(l, "protected internal") || contains(l, "internal protected") {
        (false, Visibility::Protected)
    } else if contains(l, "internal") {
        (false, Visibility::Internal)
    } else if contains(l, "protected") {
        (false, Visibility::Protected)
    } else if contains(l, "private") {
        (false, Visibility::Private)
    } else {
        (false, Visibility::Private)
    }
}

/// TypeScript: `export` (followed by a space, a tab or `(`) exports; the
/// member modifiers `private `, `protected ` and `public ` give the level.
pub open spec fn typescript_visibility_of(lead: Seq<char>) -> (bool, Visibility) {
    let exported = mentions(lead, "export "@) || mentions(lead, "export\t"@) || mentions(lead, "export("@);
    let visibility = if mentions(lead, "private "@) {
        Visibility::Private
    } else if mentions(lead, "protected "@) {
        Visibility::Protected
    } else if mentions(lead, "public "@) {
        Visibility::Public
    } else {
        Visibility::Unknown
    };
    (exported, visibility)
}

/// TypeScript visibility of a declaration starting on `row`.
pub fn typescript_visibility(row: Option<usize>, source: &str) -> (r: (bool, Visibility))
    ensures
        r == typescript_visibility_of(leading_text_spec(source@, row, 3)),
{
    let lead = leading_text(source, row, 3);
    let l = lead.as_str();
    let exported = contains(l, "export ") || contains(l, "export\t") || contains(l, "export(");
    let visibility = if contains(l, "private ") {
        Visibility::Private
    } else if contains(l, "protected ") {
        Visibility::Protected
    } else if contains(l, "public ") {
        Visibility::Public
    } else {
        Visibility::Unknown
    };
    (exported, visibility)
}

/// C: types are public; a function or variable declared `static` is
/// file-local, anything else has external linkage.
pub open spec fn c_visibility_of(lead: Seq<char>, kind_is_type: bool) -> (bool, Visibility) {
    if kind_is_type {
        (true, Visibility::Public)
    } else if mentions(lead, "static"@) {
        (false, Visibility::Private)
    } else {
        (true, Visibility::Public)
    }
}

/// C visibility of a declaration starting on `row`.
pub fn c_visibility(row: Option<usize>, source: &str, kind_is_type: bool) -> (r: (bool, Visibility))
    ensures
        r == c_visibility_of(leading_text_spec(source@, row, 2), kind_is_type),
{
    if kind_is_type {
        return (true, Visibility::Public);
    }
    let lead = leading_text(source, row, 2);
    if contains(lead.as_str(), "static") {
        (false, Visibility::Private)
    } else {
        (true, Visibility::Public)
    }
}

/// C++: a class member takes the nearest access specifier above it, read
/// from a wide window (`private:` first, then `protected:`, public where
/// neither is written); a free function or type is file-local where it is
/// declared `static`, and has external linkage otherwise.
pub open spec fn cpp_visibility_of(lead: Seq<char>, is_member: bool) -> (bool, Visibility) {
    if is_member {
        if mentions(lead, "private:"@) {
            (false, Visibility::Private)
        } else if mentions(lead, "protected:"@) {
            (false, Visibility::Protected)
        } else {
            (true, Visibility::Public)
        }
    } else if mentions(lead, "static"@) {
        (false, Visibility::Private)
    } else {
        (true, Visibility::Public)
    }
}

/// C++ visibility of a declaration starting on `row`: a member's modifiers
/// are read from up to forty lines, a free declaration's from three.
pub fn cpp_visibility(row: Option<usize>, source: &str, is_member: bool) -> (r: (bool, Visibility))
    ensures
        r == cpp_visibility_of(leading_text_spec(source@, row, if is_member { 40 } else { 3 }), is_member),
{
    if is_member {
        let lead = leading_text(source, row, 40);
        let l = lead.as_str();
        if contains(l, "private:") {
            return (false, Visibility::Private);
        }
        if contains(l, "protected:") {
            return (false, Visibility::Protected);
        }
        return (true, Visibility::Public);
    }
    let lead = leading_text(source, row, 3);
    if contains(lead.as_str(), "static") {
        (false, Visibility::Private)
    } else {
        (true, Visibility::Public)
    }
}

/// Java, Kotlin and Swift: `public ` exports; otherwise `private `,
/// `protected `, `internal `, or (`fileprivate `, `file `) give the level, and
/// no modifier is treated as internal.
pub open spec fn java_family_visibility_of(lead: Seq<char>) -> (bool, Visibility) {
    if mentions(lead, "public "@) {
        (true, Visibility::Public)
    } else if mentions(lead, "private "@) {
        (false, Visibility::Private)
    } else if mentions(lead, "protected "@) {
        (false, Visibility::Protected)
    } else if mentions(lead, "internal "@) {
        (false, Visibility::Internal)
    } else if mentions(lead, "fileprivate "@) || mentions(lead, "file "@) {
        (false, Visibility::Private)
    } else {
        (false, Visibility::Internal)
    }
}

/// Java-family visibility of a declaration starting on `row`.
pub fn java_family_visibility(row: Option<usize>, source: &str) -> (r: (bool, Visibility))
    ensures
        r == java_family_visibility_of(leading_text_spec(source@, row, 2)),
{
    let lead = leading_text(source, row, 2);
    let l = lead.as_str();
    if contains(l, "public ") {
        (true, Visibility::Public)
    } else if contains(l, "private ") {
        (false, Visibility::Private)
    } else if contains(l, "protected ") {
        (false, Visibility::Protected)
    } else if contains(l, "internal ") {
        (false, Visibility::Internal)
    } else if contains(l, "fileprivate ") || contains(l, "file ") {
        (false, Visibility::Private)
    } else {
        (false, Visibility::Internal)
    }
}

} // verus!
