//! The dependencies that a project's manifests declare: `Cargo.toml`
//! dependency sections, `package.json` dependency objects, `go.mod`
//! requirements and `requirements.txt` lines.
use vstd::prelude::*;
use crate::pattern::{
    group, group_at, groups_view, regex_captures, regex_captures_all, regex_error_text, regex_valid, CompiledPattern,
    PatternError,
};
use crate::text::{chars_of, owned, string_from, trim, trimmed, str_eq};
use crate::visibility::lines_of;

verus! {

/// The package manager of a dependency.
#[derive(Debug, Clone, Copy, PartialEq, Eq, Structural)]
pub enum DependencySource {
    Cargo,
    Npm,
    Go,
    Python,
}

/// When a dependency is used.
#[derive(Debug, Clone, Copy, PartialEq, Eq, Structural)]
pub enum DependencyKind {
    Runtime,
    Dev,
    Build,
}

/// A dependency found in a manifest.
#[derive(Debug, Clone)]
pub struct Dependency {
    pub name: String,
    pub version: Option<String>,
    pub source: DependencySource,
    pub kind: DependencyKind,
}

pub struct DependencyView {
    pub name: Seq<char>,
    pub version: Option<Seq<char>>,
    pub source: DependencySource,
    pub kind: DependencyKind,
}

impl View for Dependency {
    type V = DependencyView;

    open spec fn view(&self) -> DependencyView {
        DependencyView {
            name: self.name@,
            version: match self.version {
                Some(v) => Some(v@),
                None => None,
            },
            source: self.source,
            kind: self.kind,
        }
    }
}

pub open spec fn dep_views(v: Seq<Dependency>) -> Seq<DependencyView> {
    v.map_values(|d: Dependency| d@)
}

/// Why a manifest could not be read.
#[derive(Debug, Clone)]
pub enum DependencyError {
    /// A pattern of the reader did not compile.
    Pattern(PatternError),
    /// A match lacked a group the reader takes.
    MissingCapture,
}

fn push_dep(out: &mut Vec<Dependency>, name: String, version: Option<String>, source: DependencySource, kind: DependencyKind)
    ensures
        dep_views(final(out)@) == dep_views(old(out)@).push(DependencyView {
            name: name@,
            version: match version {
                Some(v) => Some(v@),
                None => None,
            },
            source,
            kind,
        }),
{
    let ghost before = dep_views(out@);
    let d = Dependency { name, version, source, kind };
    out.push(d);
    assert(dep_views(out@) =~= before.push(d@));
}

fn compile(pattern: &str) -> (r: Result<CompiledPattern, DependencyError>)
    ensures
        r is Ok <==> regex_valid(pattern@),
        r matches Ok(p) ==> p.source() == pattern@,
        r matches Err(e) ==> e matches DependencyError::Pattern(pe) && pe.message@ == regex_error_text(pattern@),
{
    match CompiledPattern::new(pattern) {
        Ok(p) => Ok(p),
        Err(e) => Err(DependencyError::Pattern(e)),
    }
}

/// The reason the first of the patterns that does not compile gives.
pub open spec fn first_invalid(ps: Seq<Seq<char>>) -> Option<Seq<char>>
    decreases ps.len(),
{
    if ps.len() == 0 {
        None
    } else if !regex_valid(ps[0]) {
        Some(regex_error_text(ps[0]))
    } else {
        first_invalid(ps.drop_first())
    }
}

pub open spec fn pattern_failure(ps: Seq<Seq<char>>, e: DependencyError) -> bool {
    first_invalid(ps) matches Some(m) && e matches DependencyError::Pattern(pe) && pe.message@ == m
}

// ── Cargo.toml ─────────────────────────────────────────────────────────

pub open spec fn section_pattern() -> Seq<char> {
    r"^\[(.+)\]$"@
}

pub open spec fn simple_pattern() -> Seq<char> {
    r#"^(\w[\w-]*)\s*=\s*"([^"]*)""#@
}

pub open spec fn table_pattern() -> Seq<char> {
    r#"^(\w[\w-]*)\s*=\s*\{"#@
}

pub open spec fn version_pattern() -> Seq<char> {
    r#"version\s*=\s*"([^"]*)""#@
}

pub open spec fn cargo_patterns() -> Seq<Seq<char>> {
    seq![section_pattern(), simple_pattern(), table_pattern(), version_pattern()]
}

/// The kind of the entries of a section: `dependencies` and
/// `workspace.dependencies` hold runtime dependencies, `dev-dependencies`
/// development ones and `build-dependencies` build ones; other sections
/// hold none.
pub open spec fn dependency_section(s: Seq<char>) -> Option<DependencyKind> {
    if s == "dependencies"@ || s == "workspace.dependencies"@ {
        Some(DependencyKind::Runtime)
    } else if s == "dev-dependencies"@ {
        Some(DependencyKind::Dev)
    } else if s == "build-dependencies"@ {
        Some(DependencyKind::Build)
    } else {
        None
    }
}

pub open spec fn cargo_dep(name: Seq<char>, version: Option<Seq<char>>, kind: DependencyKind) -> DependencyView {
    DependencyView { name, version, source: DependencySource::Cargo, kind }
}

/// One trimmed line of `Cargo.toml`, given whether the reader is inside a
/// dependency section and the dependencies so far; `None` where a match
/// lacks its name.
pub open spec fn cargo_step(inside: Option<DependencyKind>, deps: Seq<DependencyView>, line: Seq<char>) -> Option<(Option<DependencyKind>, Seq<DependencyView>)> {
    match regex_captures(section_pattern(), line) {
        Some(c) => match group(c, 1) {
            Some(s) => Some((dependency_section(s), deps)),
            None => None,
        },
        None => if inside is None || line.len() == 0 || line[0] == '#' {
            Some((inside, deps))
        } else {
            match regex_captures(simple_pattern(), line) {
                Some(c) => match group(c, 1) {
                    Some(n) => Some((inside, deps.push(cargo_dep(n, group(c, 2), inside->0)))),
                    None => None,
                },
                None => match regex_captures(table_pattern(), line) {
                    Some(c) => match group(c, 1) {
                        Some(n) => Some(
                            (
                                inside,
                                deps.push(
                                    cargo_dep(
                                        n,
                                        match regex_captures(version_pattern(), line) {
                                            Some(vc) => group(vc, 1),
                                            None => None,
                                        },
                                        inside->0,
                                    ),
                                ),
                            ),
                        ),
                        None => None,
                    },
                    None => Some((inside, deps)),
                },
            }
        },
    }
}

/// The lines of `Cargo.toml` read in order, from outside any section.
pub open spec fn cargo_scan(lines: Seq<Seq<char>>) -> Option<(Option<DependencyKind>, Seq<DependencyView>)>
    decreases lines.len(),
{
    if lines.len() == 0 {
        Some((None, Seq::empty()))
    } else {
        match cargo_scan(lines.drop_last()) {
            Some((inside, deps)) => cargo_step(inside, deps, trim(lines.last())),
            None => None,
        }
    }
}

proof fn lemma_cargo_patterns()
    ensures
        first_invalid(cargo_patterns()) == (if !regex_valid(section_pattern()) {
            Some(regex_error_text(section_pattern()))
        } else if !regex_valid(simple_pattern()) {
            Some(regex_error_text(simple_pattern()))
        } else if !regex_valid(table_pattern()) {
            Some(regex_error_text(table_pattern()))
        } else if !regex_valid(version_pattern()) {
            Some(regex_error_text(version_pattern()))
        } else {
            None
        }),
{
    reveal_with_fuel(first_invalid, 5);
    let ps = cargo_patterns();
    assert(ps.drop_first() =~= seq![simple_pattern(), table_pattern(), version_pattern()]);
    assert(ps.drop_first().drop_first() =~= seq![table_pattern(), version_pattern()]);
    assert(ps.drop_first().drop_first().drop_first() =~= seq![version_pattern()]);
    assert(ps.drop_first().drop_first().drop_first().drop_first() =~= Seq::<Seq<char>>::empty());
}

/// A line that lacks its group stops the whole reading.
proof fn lemma_scan_none(lines: Seq<Seq<char>>, k: int)
    requires
        0 <= k <= lines.len(),
        cargo_scan(lines.take(k)) is None,
    ensures
        cargo_scan(lines) is None,
    decreases lines.len() - k,
{
    if k == lines.len() {
        assert(lines.take(k) =~= lines);
    } else {
        let d = lines.drop_last();
        assert(d.take(k) =~= lines.take(k));
        lemma_scan_none(d, k);
    }
}

/// The lines of a text, trimmed, as strings.
fn text_lines(content: &str) -> (r: Vec<String>)
    ensures
        r@.map_values(|s: String| s@) == lines_of(content@),
{
    let chars = chars_of(content);
    let ranges = crate::markdown::split_lines(&chars);
    let ghost lines = lines_of(content@);
    let mut out: Vec<String> = Vec::new();
    let mut k: usize = 0;
    while k < ranges.len()
        invariant
            k <= ranges.len() == lines.len(),
            chars@ == content@,
            lines == lines_of(content@),
            crate::markdown::ranges_view(ranges@) == crate::markdown::line_ranges(chars@),
            forall|j: int| 0 <= j < ranges.len() ==> (#[trigger] ranges@[j]).0 <= ranges@[j].1 <= chars.len(),
            out@.map_values(|s: String| s@) == lines.take(k as int),
        decreases ranges.len() - k,
    {
        let (lo, hi) = ranges[k];
        assert(crate::markdown::ranges_view(ranges@)[k as int] == (lo as int, hi as int));
        assert(lines[k as int] == chars@.subrange(lo as int, hi as int));
        let ghost before = out@.map_values(|s: String| s@);
        out.push(string_from(&chars, lo, hi));
        assert(out@.map_values(|s: String| s@) =~= before.push(lines[k as int]));
        assert(lines.take(k + 1) =~= lines.take(k as int).push(lines[k as int]));
        k += 1;
    }
    assert(lines.take(ranges.len() as int) =~= lines);
    out
}

fn starts_with_hash(s: &str) -> (b: bool)
    ensures
        b == (s@.len() > 0 && s@[0] == '#'),
{
    let v = chars_of(s);
    v.len() > 0 && v[0] == '#'
}

/// The dependencies of `Cargo.toml`: the `name = "version"` and
/// `name = { version = "..." }` entries of its dependency sections
/// (`dependencies`, `workspace.dependencies`, `dev-dependencies`,
/// `build-dependencies`), in order, each of the kind its section gives:
/// runtime, development or build; comments and blank lines are skipped.
pub fn parse_cargo_deps(content: &str) -> (r: Result<Vec<Dependency>, DependencyError>)
    ensures
        match cargo_deps_spec(content@) {
            Some(d) => r matches Ok(v) && dep_views(v@) == d,
            None => r is Err,
        },
        first_invalid(cargo_patterns()) is Some ==> (r matches Err(e) && pattern_failure(cargo_patterns(), e)),
        first_invalid(cargo_patterns()) is None ==> match cargo_scan(lines_of(content@)) {
            Some((_, d)) => r matches Ok(v) && dep_views(v@) == d,
            None => r matches Err(e) && e is MissingCapture,
        },
{
    proof {
        lemma_cargo_patterns();
    }
    let section_re = match compile(r"^\[(.+)\]$") {
        Ok(p) => p,
        Err(e) => return Err(e),
    };
    let simple_re = match compile(r#"^(\w[\w-]*)\s*=\s*"([^"]*)""#) {
        Ok(p) => p,
        Err(e) => return Err(e),
    };
    let table_re = match compile(r#"^(\w[\w-]*)\s*=\s*\{"#) {
        Ok(p) => p,
        Err(e) => return Err(e),
    };
    let version_re = match compile(r#"version\s*=\s*"([^"]*)""#) {
        Ok(p) => p,
        Err(e) => return Err(e),
    };
    let lines = text_lines(content);
    let ghost lv = lines_of(content@);
    let mut deps: Vec<Dependency> = Vec::new();
    let mut inside: Option<DependencyKind> = None;
    let mut k: usize = 0;
    assert(lv.take(0) =~= Seq::<Seq<char>>::empty());
    while k < lines.len()
        invariant
            k <= lines.len(),
            lines@.map_values(|s: String| s@) == lv,
            lv == lines_of(content@),
            first_invalid(cargo_patterns()) is None,
            section_re.source() == section_pattern(),
            simple_re.source() == simple_pattern(),
            table_re.source() == table_pattern(),
            version_re.source() == version_pattern(),
            cargo_scan(lv.take(k as int)) == Some((inside, dep_views(deps@))),
        decreases lines.len() - k,
    {
        assert(lv.take(k + 1).drop_last() =~= lv.take(k as int));
        assert(lv.take(k + 1).last() == lines@[k as int]@);
        let line = trimmed(lines[k].as_str());
        let l = line.as_str();
        match section_re.captures(l) {
            Some(c) => {
                let sec = match group_at(&c, 1) {
                    Some(s) => s,
                    None => {
                        proof {
                            lemma_scan_none(lv, k + 1);
                        }
                        return Err(DependencyError::MissingCapture);
                    },
                };
                let s = sec.as_str();
                inside = if str_eq(s, "dependencies") || str_eq(s, "workspace.dependencies") {
                    Some(DependencyKind::Runtime)
                } else if str_eq(s, "dev-dependencies") {
                    Some(DependencyKind::Dev)
                } else if str_eq(s, "build-dependencies") {
                    Some(DependencyKind::Build)
                } else {
                    None
                };
            },
            None => {
                if let (Some(kind), false, false) = (inside, l.is_empty(), starts_with_hash(l)) {
                    match simple_re.captures(l) {
                        Some(c) => match group_at(&c, 1) {
                            Some(name) => push_dep(&mut deps, name, group_at(&c, 2), DependencySource::Cargo, kind),
                            None => {
                                proof {
                                    lemma_scan_none(lv, k + 1);
                                }
                                return Err(DependencyError::MissingCapture);
                            },
                        },
                        None => match table_re.captures(l) {
                            Some(c) => match group_at(&c, 1) {
                                Some(name) => {
                                    let version = match version_re.captures(l) {
                                        Some(vc) => group_at(&vc, 1),
                                        None => None,
                                    };
                                    push_dep(&mut deps, name, version, DependencySource::Cargo, kind);
                                },
                                None => {
                                    proof {
                                        lemma_scan_none(lv, k + 1);
                                    }
                                    return Err(DependencyError::MissingCapture);
                                },
                            },
                            None => {},
                        },
                    }
                }
            },
        }
        k += 1;
    }
    assert(lv.take(lines.len() as int) =~= lv);
    Ok(deps)
}


/// The dependencies of `Cargo.toml`, or `None` where reading fails.
pub open spec fn cargo_deps_spec(text: Seq<char>) -> Option<Seq<DependencyView>> {
    if first_invalid(cargo_patterns()) is Some {
        None
    } else {
        match cargo_scan(lines_of(text)) {
            Some((_, d)) => Some(d),
            None => None,
        }
    }
}

// ── package.json ───────────────────────────────────────────────────────

/// The members of the object under `key` in the JSON text, each with its
/// value where that is a string, in the order of `serde_json`'s map;
/// `None` where the text is not JSON or has no object under the key.
pub uninterp spec fn json_string_members(text: Seq<char>, key: Seq<char>) -> Option<Seq<(Seq<char>, Option<Seq<char>>)>>;

pub open spec fn member_views(v: Seq<(String, Option<String>)>) -> Seq<(Seq<char>, Option<Seq<char>>)> {
    v.map_values(|m: (String, Option<String>)| (m.0@, crate::pattern::group_view(m.1)))
}

/// Reads the text with `serde_json::from_str`, takes the object under the
/// key with `Value::get` and `Value::as_object`, and gives its members,
/// each with `Value::as_str` of its value.
#[verifier::external_body]
fn json_members(text: &str, key: &str) -> (r: Option<Vec<(String, Option<String>)>>)
    ensures
        match r {
            Some(v) => json_string_members(text@, key@) == Some(member_views(v@)),
            None => json_string_members(text@, key@) is None,
        },
{
    let json: serde_json::Value = serde_json::from_str(text).ok()?;
    let object = json.get(key)?.as_object()?;
    Some(object.iter().map(|(k, v)| (k.clone(), v.as_str().map(|s| s.to_string()))).collect())
}

pub open spec fn npm_part(text: Seq<char>, key: Seq<char>, kind: DependencyKind) -> Seq<DependencyView> {
    match json_string_members(text, key) {
        Some(ms) => ms.map_values(
            |m: (Seq<char>, Option<Seq<char>>)| DependencyView { name: m.0, version: m.1, source: DependencySource::Npm, kind },
        ),
        None => Seq::empty(),
    }
}

/// The dependencies of `package.json`: those of `dependencies` as runtime
/// dependencies, then those of `devDependencies` as development ones; a
/// version that is not a string is left out.
pub open spec fn npm_deps_spec(text: Seq<char>) -> Seq<DependencyView> {
    npm_part(text, "dependencies"@, DependencyKind::Runtime) + npm_part(text, "devDependencies"@, DependencyKind::Dev)
}

fn push_members(out: &mut Vec<Dependency>, text: &str, key: &str, kind: DependencyKind)
    ensures
        dep_views(final(out)@) == dep_views(old(out)@) + npm_part(text@, key@, kind),
{
    let ghost start = dep_views(out@);
    match json_members(text, key) {
        Some(ms) => {
            let ghost mv = member_views(ms@);
            let mut i: usize = 0;
            while i < ms.len()
                invariant
                    i <= ms.len(),
                    mv == member_views(ms@),
                    dep_views(out@) == start + mv.take(i as int).map_values(
                        |m: (Seq<char>, Option<Seq<char>>)|
                            DependencyView { name: m.0, version: m.1, source: DependencySource::Npm, kind },
                    ),
                decreases ms.len() - i,
            {
                let (name, version) = &ms[i];
                let v = match version {
                    Some(x) => Some(owned(x.as_str())),
                    None => None,
                };
                push_dep(out, owned(name.as_str()), v, DependencySource::Npm, kind);
                assert(mv.take(i + 1) =~= mv.take(i as int).push(mv[i as int]));
                assert(mv.take(i + 1).map_values(
                    |m: (Seq<char>, Option<Seq<char>>)|
                        DependencyView { name: m.0, version: m.1, source: DependencySource::Npm, kind },
                ) =~= mv.take(i as int).map_values(
                    |m: (Seq<char>, Option<Seq<char>>)|
                        DependencyView { name: m.0, version: m.1, source: DependencySource::Npm, kind },
                ).push(DependencyView { name: mv[i as int].0, version: mv[i as int].1, source: DependencySource::Npm, kind }));
                i += 1;
            }
            assert(mv.take(ms.len() as int) =~= mv);
        },
        None => {
            assert(dep_views(out@) =~= start + npm_part(text@, key@, kind));
        },
    }
}

/// The dependencies of `package.json`.
pub fn parse_npm_deps(content: &str) -> (r: Vec<Dependency>)
    ensures
        dep_views(r@) == npm_deps_spec(content@),
{
    let mut deps: Vec<Dependency> = Vec::new();
    proof {
        reveal_strlit("dependencies");
    }
    push_members(&mut deps, content, "dependencies", DependencyKind::Runtime);
    push_members(&mut deps, content, "devDependencies", DependencyKind::Dev);
    assert(dep_views(deps@) =~= npm_deps_spec(content@));
    deps
}

// ── go.mod ─────────────────────────────────────────────────────────────

pub open spec fn go_pattern() -> Seq<char> {
    r"(\S+)\s+(v[\d.]+)"@
}

/// One requirement per match of a module path followed by a `v` version.
pub open spec fn go_scan(caps: Seq<Seq<Option<Seq<char>>>>) -> Option<Seq<DependencyView>>
    decreases caps.len(),
{
    if caps.len() == 0 {
        Some(Seq::empty())
    } else {
        match go_scan(caps.drop_last()) {
            Some(d) => match (group(caps.last(), 1), group(caps.last(), 2)) {
                (Some(n), Some(v)) => Some(
                    d.push(DependencyView { name: n, version: Some(v), source: DependencySource::Go, kind: DependencyKind::Runtime }),
                ),
                _ => None,
            },
            None => None,
        }
    }
}

pub open spec fn go_deps_spec(text: Seq<char>) -> Option<Seq<DependencyView>> {
    if !regex_valid(go_pattern()) {
        None
    } else {
        go_scan(regex_captures_all(go_pattern(), text))
    }
}

/// The requirements of `go.mod`, each a module path and its `v` version.
pub fn parse_go_deps(content: &str) -> (r: Result<Vec<Dependency>, DependencyError>)
    ensures
        match go_deps_spec(content@) {
            Some(d) => r matches Ok(v) && dep_views(v@) == d,
            None => r is Err,
        },
        !regex_valid(go_pattern()) ==> (r matches Err(e) && e matches DependencyError::Pattern(pe) && pe.message@
            == regex_error_text(go_pattern())),
{
    let re = match compile(r"(\S+)\s+(v[\d.]+)") {
        Ok(p) => p,
        Err(e) => return Err(e),
    };
    let caps = re.captures_all(content);
    let ghost cv = caps@.map_values(|v: Vec<Option<String>>| groups_view(v@));
    let mut deps: Vec<Dependency> = Vec::new();
    let mut i: usize = 0;
    assert(cv.take(0) =~= Seq::<Seq<Option<Seq<char>>>>::empty());
    while i < caps.len()
        invariant
            i <= caps.len(),
            cv == caps@.map_values(|v: Vec<Option<String>>| groups_view(v@)),
            cv == regex_captures_all(go_pattern(), content@),
            regex_valid(go_pattern()),
            go_scan(cv.take(i as int)) == Some(dep_views(deps@)),
        decreases caps.len() - i,
    {
        assert(cv.take(i + 1).drop_last() =~= cv.take(i as int));
        assert(cv.take(i + 1).last() == groups_view(caps@[i as int]@));
        let name = group_at(&caps[i], 1);
        let version = group_at(&caps[i], 2);
        match (name, version) {
            (Some(n), Some(v)) => push_dep(&mut deps, n, Some(v), DependencySource::Go, DependencyKind::Runtime),
            _ => {
                proof {
                    lemma_go_none(cv, i + 1);
                }
                return Err(DependencyError::MissingCapture);
            },
        }
        i += 1;
    }
    assert(cv.take(caps.len() as int) =~= cv);
    Ok(deps)
}

proof fn lemma_go_none(caps: Seq<Seq<Option<Seq<char>>>>, k: int)
    requires
        0 <= k <= caps.len(),
        go_scan(caps.take(k)) is None,
    ensures
        go_scan(caps) is None,
    decreases caps.len() - k,
{
    if k == caps.len() {
        assert(caps.take(k) =~= caps);
    } else {
        let d = caps.drop_last();
        assert(d.take(k) =~= caps.take(k));
        lemma_go_none(d, k);
    }
}

// ── requirements.txt ───────────────────────────────────────────────────

pub open spec fn python_pattern() -> Seq<char> {
    r"^([\w-]+)\s*(?:[>=<~!]+\s*([\d.]+))?"@
}

/// One trimmed line of `requirements.txt`.
pub open spec fn python_step(deps: Seq<DependencyView>, line: Seq<char>) -> Option<Seq<DependencyView>> {
    if line.len() == 0 || line[0] == '#' {
        Some(deps)
    } else {
        match regex_captures(python_pattern(), line) {
            Some(c) => match group(c, 1) {
                Some(n) => Some(
                    deps.push(DependencyView { name: n, version: group(c, 2), source: DependencySource::Python, kind: DependencyKind::Runtime }),
                ),
                None => None,
            },
            None => Some(deps),
        }
    }
}

pub open spec fn python_scan(lines: Seq<Seq<char>>) -> Option<Seq<DependencyView>>
    decreases lines.len(),
{
    if lines.len() == 0 {
        Some(Seq::empty())
    } else {
        match python_scan(lines.drop_last()) {
            Some(d) => python_step(d, trim(lines.last())),
            None => None,
        }
    }
}

pub open spec fn python_deps_spec(text: Seq<char>) -> Option<Seq<DependencyView>> {
    if !regex_valid(python_pattern()) {
        None
    } else {
        python_scan(lines_of(text))
    }
}

proof fn lemma_python_none(lines: Seq<Seq<char>>, k: int)
    requires
        0 <= k <= lines.len(),
        python_scan(lines.take(k)) is None,
    ensures
        python_scan(lines) is None,
    decreases lines.len() - k,
{
    if k == lines.len() {
        assert(lines.take(k) =~= lines);
    } else {
        let d = lines.drop_last();
        assert(d.take(k) =~= lines.take(k));
        lemma_python_none(d, k);
    }
}

/// The requirements of `requirements.txt`: a name, and the version after
/// a comparison where there is one; comments and blank lines are skipped.
pub fn parse_python_deps(content: &str) -> (r: Result<Vec<Dependency>, DependencyError>)
    ensures
        match python_deps_spec(content@) {
            Some(d) => r matches Ok(v) && dep_views(v@) == d,
            None => r is Err,
        },
        !regex_valid(python_pattern()) ==> (r matches Err(e) && e matches DependencyError::Pattern(pe) && pe.message@
            == regex_error_text(python_pattern())),
{
    let re = match compile(r"^([\w-]+)\s*(?:[>=<~!]+\s*([\d.]+))?") {
        Ok(p) => p,
        Err(e) => return Err(e),
    };
    let lines = text_lines(content);
    let ghost lv = lines_of(content@);
    let mut deps: Vec<Dependency> = Vec::new();
    let mut k: usize = 0;
    assert(lv.take(0) =~= Seq::<Seq<char>>::empty());
    while k < lines.len()
        invariant
            k <= lines.len(),
            lines@.map_values(|s: String| s@) == lv,
            lv == lines_of(content@),
            regex_valid(python_pattern()),
            re.source() == python_pattern(),
            python_scan(lv.take(k as int)) == Some(dep_views(deps@)),
        decreases lines.len() - k,
    {
        assert(lv.take(k + 1).drop_last() =~= lv.take(k as int));
        assert(lv.take(k + 1).last() == lines@[k as int]@);
        let line = trimmed(lines[k].as_str());
        let l = line.as_str();
        if !l.is_empty() && !starts_with_hash(l) {
            match re.captures(l) {
                Some(c) => match group_at(&c, 1) {
                    Some(name) => push_dep(&mut deps, name, group_at(&c, 2), DependencySource::Python, DependencyKind::Runtime),
                    None => {
                        proof {
                            lemma_python_none(lv, k + 1);
                        }
                        return Err(DependencyError::MissingCapture);
                    },
                },
                None => {},
            }
        }
        k += 1;
    }
    assert(lv.take(lines.len() as int) =~= lv);
    Ok(deps)
}

// ── A directory ────────────────────────────────────────────────────────

/// The manifests of a directory that could be read.
pub struct ManifestTexts {
    pub cargo_toml: Option<String>,
    pub package_json: Option<String>,
    pub go_mod: Option<String>,
    pub requirements_txt: Option<String>,
}

pub open spec fn part_of(text: Option<String>, f: spec_fn(Seq<char>) -> Option<Seq<DependencyView>>) -> Option<
    Seq<DependencyView>,
> {
    match text {
        Some(t) => f(t@),
        None => Some(Seq::empty()),
    }
}

/// The dependencies of a directory, manifest by manifest (`Cargo.toml`,
/// `package.json`, `go.mod`, `requirements.txt`); `None` where reading one
/// fails.
pub open spec fn dir_deps_spec(m: ManifestTexts) -> Option<Seq<DependencyView>> {
    let c = part_of(m.cargo_toml, |t: Seq<char>| cargo_deps_spec(t));
    let n = match m.package_json {
        Some(t) => npm_deps_spec(t@),
        None => Seq::empty(),
    };
    let g = part_of(m.go_mod, |t: Seq<char>| go_deps_spec(t));
    let p = part_of(m.requirements_txt, |t: Seq<char>| python_deps_spec(t));
    if c is Some && g is Some && p is Some {
        Some(c->0 + n + g->0 + p->0)
    } else {
        None
    }
}

/// The dependencies declared by the manifests of one directory.
pub fn detect_in_dir(m: &ManifestTexts) -> (r: Result<Vec<Dependency>, DependencyError>)
    ensures
        match dir_deps_spec(*m) {
            Some(d) => r matches Ok(v) && dep_views(v@) == d,
            None => r is Err,
        },
{
    let mut deps: Vec<Dependency> = Vec::new();
    match &m.cargo_toml {
        Some(t) => {
            let mut v = parse_cargo_deps(t.as_str())?;
            deps.append(&mut v);
        },
        None => {},
    }
    let ghost d1 = dep_views(deps@);
    match &m.package_json {
        Some(t) => {
            let mut v = parse_npm_deps(t.as_str());
            deps.append(&mut v);
        },
        None => {},
    }
    let ghost d2 = dep_views(deps@);
    match &m.go_mod {
        Some(t) => {
            let mut v = match parse_go_deps(t.as_str()) {
                Ok(v) => v,
                Err(e) => {
                    return Err(e);
                },
            };
            deps.append(&mut v);
        },
        None => {},
    }
    let ghost d3 = dep_views(deps@);
    match &m.requirements_txt {
        Some(t) => {
            let mut v = match parse_python_deps(t.as_str()) {
                Ok(v) => v,
                Err(e) => {
                    return Err(e);
                },
            };
            deps.append(&mut v);
        },
        None => {},
    }
    assert(dep_views(deps@) =~= match dir_deps_spec(*m) {
        Some(d) => d,
        None => Seq::empty(),
    });
    Ok(deps)
}

} // verus!
