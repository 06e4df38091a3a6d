//! Build configurations read from a project's manifests: Cargo workspace
//! members, features and edition; package.json scripts and workspaces;
//! tsconfig paths; pyproject names, versions and dependencies; go.mod
//! module, version and replacements; CMake project settings; compile
//! command include paths and defines; and .NET project settings.
use vstd::prelude::*;
use vstd::hash_map::StringHashMap;
use crate::markdown::{skip_ws, word_end, words_from};
use crate::pattern::{
    all_first_groups, first_group, group, group_at, group_view, groups_view, regex_captures, regex_captures_all,
    regex_valid, strings_of, CompiledPattern, PatternError,
};
use crate::text::{chars_of, is_whitespace, owned, string_from, sub_vec, trim, trimmed, str_eq};

verus! {

// ── Helpers ────────────────────────────────────────────────────────────

/// Every pattern compiles.
pub open spec fn all_valid(ps: Seq<Seq<char>>) -> bool {
    forall|i: int| 0 <= i < ps.len() ==> regex_valid(#[trigger] ps[i])
}

pub open spec fn strs(ps: Seq<&str>) -> Seq<Seq<char>> {
    ps.map_values(|p: &str| p@)
}

/// Compiles the patterns in order, stopping at the first that fails.
fn compile_all(ps: &[&str]) -> (r: Result<Vec<CompiledPattern>, PatternError>)
    ensures
        r is Ok <==> all_valid(strs(ps@)),
        r matches Ok(v) ==> v.len() == ps.len() && forall|i: int| 0 <= i < ps.len() ==> (#[trigger] v@[i]).source()
            == ps@[i]@,
{
    let mut out: Vec<CompiledPattern> = Vec::new();
    let mut i: usize = 0;
    while i < ps.len()
        invariant
            i <= ps.len(),
            out.len() == i,
            forall|j: int| 0 <= j < i ==> (#[trigger] out@[j]).source() == ps@[j]@,
            forall|j: int| 0 <= j < i ==> regex_valid(#[trigger] strs(ps@)[j]),
        decreases ps.len() - i,
    {
        match CompiledPattern::new(ps[i]) {
            Ok(p) => out.push(p),
            Err(e) => {
                assert(!regex_valid(strs(ps@)[i as int]));
                return Err(e);
            },
        }
        i += 1;
    }
    Ok(out)
}

/// The whitespace-separated words of a text.
pub fn split_words(s: &str) -> (r: Vec<String>)
    ensures
        strings_of(r@) == words_from(s@, 0),
{
    let line = chars_of(s);
    let mut out: Vec<String> = Vec::new();
    let mut k: usize = 0;
    while k < line.len()
        invariant
            k <= line.len(),
            line@ == s@,
            words_from(line@, 0) == strings_of(out@) + words_from(line@, k as int),
        decreases line.len() - k,
    {
        let mut a = k;
        while a < line.len() && is_whitespace(line[a])
            invariant
                k <= a <= line.len(),
                skip_ws(line@, k as int) == skip_ws(line@, a as int),
            decreases line.len() - a,
        {
            a += 1;
        }
        if a == line.len() {
            assert(words_from(line@, k as int) =~= Seq::<Seq<char>>::empty());
            assert(words_from(line@, a as int) =~= Seq::<Seq<char>>::empty());
            assert(strings_of(out@) + words_from(line@, k as int) =~= strings_of(out@) + words_from(line@, a as int));
            k = a;
        } else {
            let mut b = a;
            while b < line.len() && !is_whitespace(line[b])
                invariant
                    a <= b <= line.len(),
                    word_end(line@, a as int) == word_end(line@, b as int),
                decreases line.len() - b,
            {
                b += 1;
            }
            let ghost word = line@.subrange(a as int, b as int);
            assert(words_from(line@, k as int) == seq![word] + words_from(line@, b as int));
            let ghost before = strings_of(out@);
            out.push(string_from(&line, a, b));
            assert(strings_of(out@) =~= before.push(word));
            assert(before + words_from(line@, k as int) =~= strings_of(out@) + words_from(line@, b as int));
            k = b;
        }
    }
    assert(words_from(line@, k as int) =~= Seq::<Seq<char>>::empty());
    assert(strings_of(out@) + Seq::<Seq<char>>::empty() =~= strings_of(out@));
    out
}

pub open spec fn opt_view(o: Option<String>) -> Option<Seq<char>> {
    group_view(o)
}

pub open spec fn or_else(a: Option<Seq<char>>, b: Option<Seq<char>>) -> Option<Seq<char>> {
    match a {
        Some(x) => Some(x),
        None => b,
    }
}

fn or_else_exec(a: Option<String>, b: Option<String>) -> (r: Option<String>)
    ensures
        opt_view(r) == or_else(opt_view(a), opt_view(b)),
{
    match a {
        Some(x) => Some(x),
        None => b,
    }
}

/// Why a build configuration could not be read.
#[derive(Debug, Clone)]
pub enum BuildConfigError {
    /// A pattern of the reader did not compile.
    Pattern(PatternError),
    /// A match lacked a group the reader takes.
    MissingCapture,
}

// ── Cargo ──────────────────────────────────────────────────────────────

/// The Cargo settings: workspace members, features and their members,
/// and the edition.
pub struct CargoConfig {
    pub workspace_members: Vec<String>,
    pub features: StringHashMap<Vec<String>>,
    pub edition: Option<String>,
}

pub open spec fn cargo_patterns() -> Seq<Seq<char>> {
    seq![r"(?m)members\s*=\s*\[([^\]]*)\]"@, r#""([^"]+)""#@, r#"(?m)edition\s*=\s*"([^"]+)""#@]
}

pub open spec fn feature_patterns() -> Seq<Seq<char>> {
    seq![r"(?m)^\[features\]\s*\n((?:[^\[]*\n?)*)"@, r#"(?m)^(\w+)\s*=\s*\[([^\]]*)\]"#@, r#""([^"]+)""#@]
}

/// The features of the entries of the features block, later entries of a
/// name replacing earlier ones; `None` where an entry lacks a group.
pub open spec fn feature_entries(caps: Seq<Seq<Option<Seq<char>>>>) -> Option<Map<Seq<char>, Seq<Seq<char>>>>
    decreases caps.len(),
{
    if caps.len() == 0 {
        Some(Map::empty())
    } else {
        match feature_entries(caps.drop_last()) {
            Some(m) => match (group(caps.last(), 1), group(caps.last(), 2)) {
                (Some(n), Some(v)) => Some(m.insert(n, all_first_groups(feature_patterns()[2], v))),
                _ => None,
            },
            None => None,
        }
    }
}

/// The `[features]` block of a manifest and its entries; `None` where a
/// pattern does not compile or a match lacks a group.
pub open spec fn features_spec(text: Seq<char>) -> Option<Map<Seq<char>, Seq<Seq<char>>>> {
    let ps = feature_patterns();
    if !regex_valid(ps[0]) {
        None
    } else {
        match regex_captures(ps[0], text) {
            None => Some(Map::empty()),
            Some(c) => match group(c, 1) {
                None => None,
                Some(block) => if !regex_valid(ps[1]) || !regex_valid(ps[2]) {
                    None
                } else {
                    feature_entries(regex_captures_all(ps[1], block))
                },
            },
        }
    }
}

pub struct CargoConfigView {
    pub workspace_members: Seq<Seq<char>>,
    pub features: Map<Seq<char>, Seq<Seq<char>>>,
    pub edition: Option<Seq<char>>,
}

pub open spec fn cargo_view(c: CargoConfig) -> CargoConfigView {
    CargoConfigView {
        workspace_members: strings_of(c.workspace_members@),
        features: c.features@.map_values(|v: Vec<String>| strings_of(v@)),
        edition: opt_view(c.edition),
    }
}

/// The Cargo settings of a manifest; `None` where reading fails.
pub open spec fn cargo_config_spec(text: Seq<char>) -> Option<CargoConfigView> {
    let ps = cargo_patterns();
    if !all_valid(ps) {
        None
    } else {
        match features_spec(text) {
            None => None,
            Some(f) => Some(
                CargoConfigView {
                    workspace_members: match first_group(ps[0], text) {
                        Some(m) => all_first_groups(ps[1], m),
                        None => Seq::empty(),
                    },
                    features: f,
                    edition: first_group(ps[2], text),
                },
            ),
        }
    }
}

fn parse_features(content: &str) -> (r: Result<StringHashMap<Vec<String>>, BuildConfigError>)
    ensures
        match features_spec(content@) {
            Some(f) => r matches Ok(m) && list_map_view(m@) == f,
            None => r is Err,
        },
{
    let section = match CompiledPattern::new(r"(?m)^\[features\]\s*\n((?:[^\[]*\n?)*)") {
        Ok(p) => p,
        Err(e) => return Err(BuildConfigError::Pattern(e)),
    };
    let mut features: StringHashMap<Vec<String>> = StringHashMap::new();
    let caps = match section.captures(content) {
        Some(c) => c,
        None => {
            assert(features@.map_values(|v: Vec<String>| strings_of(v@)) =~= Map::<Seq<char>, Seq<Seq<char>>>::empty());
            return Ok(features);
        },
    };
    let block = match group_at(&caps, 1) {
        Some(b) => b,
        None => return Err(BuildConfigError::MissingCapture),
    };
    let entry = match CompiledPattern::new(r#"(?m)^(\w+)\s*=\s*\[([^\]]*)\]"#) {
        Ok(p) => p,
        Err(e) => return Err(BuildConfigError::Pattern(e)),
    };
    let val = match CompiledPattern::new(r#""([^"]+)""#) {
        Ok(p) => p,
        Err(e) => return Err(BuildConfigError::Pattern(e)),
    };
    let entries = entry.captures_all(block.as_str());
    let ghost ev = entries@.map_values(|v: Vec<Option<String>>| groups_view(v@));
    let mut i: usize = 0;
    assert(ev.take(0) =~= Seq::<Seq<Option<Seq<char>>>>::empty());
    assert(features@.map_values(|v: Vec<String>| strings_of(v@)) =~= Map::<Seq<char>, Seq<Seq<char>>>::empty());
    assert(features_spec(content@) == feature_entries(ev));
    while i < entries.len()
        invariant
            i <= entries.len(),
            features_spec(content@) == feature_entries(ev),
            ev == entries@.map_values(|v: Vec<Option<String>>| groups_view(v@)),
            val.source() == feature_patterns()[2],
            feature_entries(ev.take(i as int)) == Some(features@.map_values(|v: Vec<String>| strings_of(v@))),
        decreases entries.len() - i,
    {
        assert(ev.take(i + 1).drop_last() =~= ev.take(i as int));
        assert(ev.take(i + 1).last() == groups_view(entries@[i as int]@));
        let name = group_at(&entries[i], 1);
        let vals = group_at(&entries[i], 2);
        match (name, vals) {
            (Some(n), Some(v)) => {
                let items = val.first_groups(v.as_str());
                let ghost before = features@;
                let ghost nv = n@;
                features.insert(n, items);
                assert(features@.map_values(|v: Vec<String>| strings_of(v@)) =~= before.map_values(
                    |v: Vec<String>| strings_of(v@),
                ).insert(nv, strings_of(items@)));
            },
            _ => {
                proof {
                    lemma_entries_none(ev, i + 1);
                }
                return Err(BuildConfigError::MissingCapture);
            },
        }
        i += 1;
    }
    assert(ev.take(entries.len() as int) =~= ev);
    Ok(features)
}

proof fn lemma_entries_none(caps: Seq<Seq<Option<Seq<char>>>>, k: int)
    requires
        0 <= k <= caps.len(),
        feature_entries(caps.take(k)) is None,
    ensures
        feature_entries(caps) is None,
    decreases caps.len() - k,
{
    if k == caps.len() {
        assert(caps.take(k) =~= caps);
    } else {
        let d = caps.drop_last();
        assert(d.take(k) =~= caps.take(k));
        lemma_entries_none(d, k);
    }
}

/// The Cargo settings of a manifest's text.
pub fn parse_cargo(content: &str) -> (r: Result<CargoConfig, BuildConfigError>)
    ensures
        match cargo_config_spec(content@) {
            Some(v) => r matches Ok(c) && cargo_view(c) == v,
            None => r is Err,
        },
{
    let ps = compile_all(&[r"(?m)members\s*=\s*\[([^\]]*)\]", r#""([^"]+)""#, r#"(?m)edition\s*=\s*"([^"]+)""#]);
    assert(strs(seq![r"(?m)members\s*=\s*\[([^\]]*)\]", r#""([^"]+)""#, r#"(?m)edition\s*=\s*"([^"]+)""#]) =~= cargo_patterns());
    let ps = match ps {
        Ok(v) => v,
        Err(e) => return Err(BuildConfigError::Pattern(e)),
    };
    let members = match ps[0].first_group(content) {
        Some(m) => ps[1].first_groups(m.as_str()),
        None => Vec::new(),
    };
    let edition = ps[2].first_group(content);
    let features = parse_features(content)?;
    let c = CargoConfig { workspace_members: members, features, edition };
    assert(cargo_view(c).workspace_members =~= cargo_config_spec(content@)->0.workspace_members);
    Ok(c)
}


// ── Maps from pairs ────────────────────────────────────────────────────

pub open spec fn pairs_view(s: Seq<(String, String)>) -> Seq<(Seq<char>, Seq<char>)> {
    s.map_values(|p: (String, String)| (p.0@, p.1@))
}

pub open spec fn list_pairs_view(s: Seq<(String, Vec<String>)>) -> Seq<(Seq<char>, Seq<Seq<char>>)> {
    s.map_values(|p: (String, Vec<String>)| (p.0@, strings_of(p.1@)))
}

pub open spec fn text_map_view(m: Map<Seq<char>, String>) -> Map<Seq<char>, Seq<char>> {
    m.map_values(|v: String| v@)
}

pub open spec fn list_map_view(m: Map<Seq<char>, Vec<String>>) -> Map<Seq<char>, Seq<Seq<char>>> {
    m.map_values(|v: Vec<String>| strings_of(v@))
}

/// The map of the pairs, later pairs of a key replacing earlier ones.
pub open spec fn map_of<V>(pairs: Seq<(Seq<char>, V)>) -> Map<Seq<char>, V>
    decreases pairs.len(),
{
    if pairs.len() == 0 {
        Map::empty()
    } else {
        map_of(pairs.drop_last()).insert(pairs.last().0, pairs.last().1)
    }
}

fn string_map(pairs: Vec<(String, String)>) -> (m: StringHashMap<String>)
    ensures
        text_map_view(m@) == map_of(pairs_view(pairs@)),
{
    let ghost pv = pairs_view(pairs@);
    let mut m: StringHashMap<String> = StringHashMap::new();
    let mut tmp = crate::builder::reversed(pairs);
    let _n = tmp.len();
    let mut k: usize = 0;
    assert(pv.take(0) =~= Seq::<(Seq<char>, Seq<char>)>::empty());
    assert(text_map_view(m@) =~= Map::<Seq<char>, Seq<char>>::empty());
    while tmp.len() > 0
        invariant
            k + tmp.len() == pv.len(),
            pv.len() <= usize::MAX,
            forall|j: int| 0 <= j < tmp.len() ==> ((#[trigger] tmp@[j]).0@, tmp@[j].1@) == pv[pv.len() - 1 - j],
            text_map_view(m@) == map_of(pv.take(k as int)),
        decreases tmp.len(),
    {
        let (key, value) = tmp.pop().unwrap();
        assert(pv[k as int] == (key@, value@));
        assert(pv.take(k + 1).drop_last() =~= pv.take(k as int));
        let ghost before = m@;
        let ghost kv = key@;
        let ghost vv = value@;
        m.insert(key, value);
        assert(text_map_view(m@) =~= text_map_view(before).insert(kv, vv));
        k += 1;
    }
    assert(pv.take(pv.len() as int) =~= pv);
    m
}

fn list_map(pairs: Vec<(String, Vec<String>)>) -> (m: StringHashMap<Vec<String>>)
    ensures
        list_map_view(m@) == map_of(list_pairs_view(pairs@)),
{
    let ghost pv = list_pairs_view(pairs@);
    let mut m: StringHashMap<Vec<String>> = StringHashMap::new();
    let mut tmp = crate::builder::reversed(pairs);
    let _n = tmp.len();
    let mut k: usize = 0;
    assert(pv.take(0) =~= Seq::<(Seq<char>, Seq<Seq<char>>)>::empty());
    assert(list_map_view(m@) =~= Map::<Seq<char>, Seq<Seq<char>>>::empty());
    while tmp.len() > 0
        invariant
            k + tmp.len() == pv.len(),
            pv.len() <= usize::MAX,
            forall|j: int| 0 <= j < tmp.len() ==> ((#[trigger] tmp@[j]).0@, strings_of(tmp@[j].1@)) == pv[pv.len() - 1 - j],
            list_map_view(m@) == map_of(pv.take(k as int)),
        decreases tmp.len(),
    {
        let (key, value) = tmp.pop().unwrap();
        assert(pv[k as int] == (key@, strings_of(value@)));
        assert(pv.take(k + 1).drop_last() =~= pv.take(k as int));
        let ghost before = m@;
        let ghost kv = key@;
        let ghost vv = strings_of(value@);
        m.insert(key, value);
        assert(list_map_view(m@) =~= list_map_view(before).insert(kv, vv));
        k += 1;
    }
    assert(pv.take(pv.len() as int) =~= pv);
    m
}

// ── package.json ───────────────────────────────────────────────────────

/// The workspaces of a `package.json`: a list, or an object with packages.
pub enum RawWorkspaces {
    List(Vec<String>),
    Object { packages: Vec<String> },
}

/// What `package.json` holds that the reader takes, as `serde_json` read
/// it; the scripts in the order they were read.
pub struct RawPackageJson {
    pub name: Option<String>,
    pub scripts: Option<Vec<(String, String)>>,
    pub workspaces: Option<RawWorkspaces>,
    pub module_type: Option<String>,
}

/// The npm settings.
pub struct NpmConfig {
    pub name: Option<String>,
    pub scripts: StringHashMap<String>,
    pub workspaces: Vec<String>,
    pub module_type: Option<String>,
}

/// The npm settings of a `package.json`: its scripts (none where it has
/// none), its workspaces from either form (none where it has none).
pub open spec fn npm_fits(raw: RawPackageJson, c: NpmConfig) -> bool {
    &&& opt_view(c.name) == opt_view(raw.name)
    &&& opt_view(c.module_type) == opt_view(raw.module_type)
    &&& text_map_view(c.scripts@) == match raw.scripts {
        Some(s) => map_of(pairs_view(s@)),
        None => Map::empty(),
    }
    &&& strings_of(c.workspaces@) == match raw.workspaces {
        Some(RawWorkspaces::List(v)) => strings_of(v@),
        Some(RawWorkspaces::Object { packages }) => strings_of(packages@),
        None => Seq::empty(),
    }
}

pub fn npm_config(raw: RawPackageJson) -> (c: NpmConfig)
    ensures
        npm_fits(raw, c),
        opt_view(c.name) == opt_view(raw.name),
        opt_view(c.module_type) == opt_view(raw.module_type),
        text_map_view(c.scripts@) == match raw.scripts {
            Some(s) => map_of(pairs_view(s@)),
            None => Map::empty(),
        },
        strings_of(c.workspaces@) == match raw.workspaces {
            Some(RawWorkspaces::List(v)) => strings_of(v@),
            Some(RawWorkspaces::Object { packages }) => strings_of(packages@),
            None => Seq::empty(),
        },
{
    let RawPackageJson { name, scripts, workspaces, module_type } = raw;
    let workspaces = match workspaces {
        Some(RawWorkspaces::List(v)) => v,
        Some(RawWorkspaces::Object { packages }) => packages,
        None => Vec::new(),
    };
    let scripts = match scripts {
        Some(s) => string_map(s),
        None => {
            let m: StringHashMap<String> = StringHashMap::new();
            assert(text_map_view(m@) =~= Map::<Seq<char>, Seq<char>>::empty());
            m
        },
    };
    let c = NpmConfig { name, scripts, workspaces, module_type };
    assert(opt_view(c.name) == opt_view(raw.name));
    assert(strings_of(c.workspaces@) == match raw.workspaces {
        Some(RawWorkspaces::List(v)) => strings_of(v@),
        Some(RawWorkspaces::Object { packages }) => strings_of(packages@),
        None => Seq::<Seq<char>>::empty(),
    });
    assert(npm_fits(raw, c));
    c
}

// ── tsconfig.json ──────────────────────────────────────────────────────

pub struct RawCompilerOptions {
    pub base_url: Option<String>,
    pub paths: Option<Vec<(String, Vec<String>)>>,
}

pub struct RawReference {
    pub path: Option<String>,
}

/// What `tsconfig.json` holds that the reader takes, as `serde_json` read
/// it.
pub struct RawTsConfig {
    pub compiler_options: Option<RawCompilerOptions>,
    pub references: Option<Vec<RawReference>>,
}

/// The TypeScript settings.
pub struct TsConfig {
    pub compiler_options_base_url: Option<String>,
    pub paths: StringHashMap<Vec<String>>,
    pub references: Vec<String>,
}

/// The paths of the references that have one.
pub open spec fn reference_paths(refs: Seq<RawReference>) -> Seq<Seq<char>>
    decreases refs.len(),
{
    if refs.len() == 0 {
        Seq::empty()
    } else {
        reference_paths(refs.drop_last()) + match refs.last().path {
            Some(p) => seq![p@],
            None => Seq::empty(),
        }
    }
}

/// The TypeScript settings of a `tsconfig.json`.
pub open spec fn ts_fits(raw: RawTsConfig, c: TsConfig) -> bool {
    &&& opt_view(c.compiler_options_base_url) == match raw.compiler_options {
        Some(o) => opt_view(o.base_url),
        None => None,
    }
    &&& list_map_view(c.paths@) == match raw.compiler_options {
        Some(o) => match o.paths {
            Some(p) => map_of(list_pairs_view(p@)),
            None => Map::empty(),
        },
        None => Map::empty(),
    }
    &&& strings_of(c.references@) == match raw.references {
        Some(r) => reference_paths(r@),
        None => Seq::empty(),
    }
}

pub fn ts_config(raw: RawTsConfig) -> (c: TsConfig)
    ensures
        ts_fits(raw, c),
        opt_view(c.compiler_options_base_url) == match raw.compiler_options {
            Some(o) => opt_view(o.base_url),
            None => None,
        },
        list_map_view(c.paths@) == match raw.compiler_options {
            Some(o) => match o.paths {
                Some(p) => map_of(list_pairs_view(p@)),
                None => Map::empty(),
            },
            None => Map::empty(),
        },
        strings_of(c.references@) == match raw.references {
            Some(r) => reference_paths(r@),
            None => Seq::empty(),
        },
{
    let RawTsConfig { compiler_options, references } = raw;
    let (base_url, paths) = match compiler_options {
        Some(RawCompilerOptions { base_url, paths }) => (base_url, paths),
        None => (None, None),
    };
    let paths = match paths {
        Some(p) => list_map(p),
        None => {
            let m: StringHashMap<Vec<String>> = StringHashMap::new();
            assert(list_map_view(m@) =~= Map::<Seq<char>, Seq<Seq<char>>>::empty());
            m
        },
    };
    let mut refs: Vec<String> = Vec::new();
    match references {
        Some(rs) => {
            let mut i: usize = 0;
            assert(rs@.take(0) =~= Seq::<RawReference>::empty());
            while i < rs.len()
                invariant
                    i <= rs.len(),
                    strings_of(refs@) == reference_paths(rs@.take(i as int)),
                decreases rs.len() - i,
            {
                assert(rs@.take(i + 1).drop_last() =~= rs@.take(i as int));
                let ghost before = strings_of(refs@);
                match &rs[i].path {
                    Some(p) => {
                        refs.push(owned(p.as_str()));
                        assert(strings_of(refs@) =~= before + seq![p@]);
                    },
                    None => {
                        assert(before + Seq::<Seq<char>>::empty() =~= before);
                    },
                }
                i += 1;
            }
            assert(rs@.take(rs.len() as int) =~= rs@);
        },
        None => {},
    }
    let c = TsConfig { compiler_options_base_url: base_url, paths, references: refs };
    assert(strings_of(c.references@) == match raw.references {
        Some(r) => reference_paths(r@),
        None => Seq::<Seq<char>>::empty(),
    });
    assert(list_map_view(c.paths@) == match raw.compiler_options {
        Some(o) => match o.paths {
            Some(p) => map_of(list_pairs_view(p@)),
            None => Map::<Seq<char>, Seq<Seq<char>>>::empty(),
        },
        None => Map::<Seq<char>, Seq<Seq<char>>>::empty(),
    });
    assert(ts_fits(raw, c));
    c
}


// ── pyproject.toml ─────────────────────────────────────────────────────

/// The Python project settings.
pub struct PythonConfig {
    pub name: Option<String>,
    pub python_version: Option<String>,
    pub dependencies: Vec<String>,
    pub scripts: StringHashMap<String>,
}

pub open spec fn python_patterns() -> Seq<Seq<char>> {
    seq![
        r#"(?m)^\[project\]\s*\nname\s*=\s*["']([^"']+)["']"#@,
        r#"(?m)^\[tool\.poetry\]\s*\nname\s*=\s*["']([^"']+)["']"#@,
        r#"(?m)requires-python\s*=\s*[">=< ]*([0-9.]+)"#@,
        r#"(?m)^\[tool\.poetry\.dependencies\]\s*\npython\s*=\s*["'][><= ]*([0-9.]+)"#@,
        r#"(?m)^\[project\]\s*\ndependencies\s*=\s*\[([^\]]*)\]"#@,
        r#""([^"]+)""#@,
    ]
}

pub open spec fn python_parsed(content: Seq<char>, c: PythonConfig) -> bool {
        let ps = python_patterns();
        &&& opt_view(c.name) == or_else(first_group(ps[0], content), first_group(ps[1], content))
        &&& opt_view(c.python_version) == or_else(first_group(ps[2], content), first_group(ps[3], content))
        &&& strings_of(c.dependencies@) == match first_group(ps[4], content) {
            Some(m) => all_first_groups(ps[5], m),
            None => Seq::empty(),
        }
        &&& c.scripts@.len() == 0
}

/// The settings of a `pyproject.toml`: the project name (else the Poetry
/// name), the required Python version (else Poetry's), and the project's
/// dependency list; no scripts.
pub fn parse_python(content: &str) -> (r: Result<PythonConfig, PatternError>)
    ensures
        r is Ok <==> all_valid(python_patterns()),
        r matches Ok(c) ==> python_parsed(content@, c),
{
    let lits = [
        r#"(?m)^\[project\]\s*\nname\s*=\s*["']([^"']+)["']"#,
        r#"(?m)^\[tool\.poetry\]\s*\nname\s*=\s*["']([^"']+)["']"#,
        r#"(?m)requires-python\s*=\s*[">=< ]*([0-9.]+)"#,
        r#"(?m)^\[tool\.poetry\.dependencies\]\s*\npython\s*=\s*["'][><= ]*([0-9.]+)"#,
        r#"(?m)^\[project\]\s*\ndependencies\s*=\s*\[([^\]]*)\]"#,
        r#""([^"]+)""#,
    ];
    assert(strs(lits@) =~= python_patterns());
    let ps = compile_all(&lits)?;
    let name = or_else_exec(ps[0].first_group(content), ps[1].first_group(content));
    let python_version = or_else_exec(ps[2].first_group(content), ps[3].first_group(content));
    let dependencies = match ps[4].first_group(content) {
        Some(m) => ps[5].first_groups(m.as_str()),
        None => Vec::new(),
    };
    let scripts: StringHashMap<String> = StringHashMap::new();
    let c = PythonConfig { name, python_version, dependencies, scripts };
    assert(strings_of(c.dependencies@) == match first_group(python_patterns()[4], content@) {
        Some(m) => all_first_groups(python_patterns()[5], m),
        None => Seq::<Seq<char>>::empty(),
    });
    assert(python_parsed(content@, c));
    Ok(c)
}

// ── go.mod ─────────────────────────────────────────────────────────────

/// A `replace` directive of `go.mod`.
#[derive(Debug, Clone)]
pub struct GoReplace {
    pub old: String,
    pub new: String,
    pub version: Option<String>,
}

/// The Go module settings.
pub struct GoConfig {
    pub module: Option<String>,
    pub go_version: Option<String>,
    pub replaces: Vec<GoReplace>,
}

pub open spec fn go_patterns() -> Seq<Seq<char>> {
    seq![r"(?m)^module\s+(.+)$"@, r"(?m)^go\s+([\d.]+)"@, r"(?m)^replace\s+(.+?)\s*=>\s*(.+?)(?:\s+v([\d.]+))?$"@]
}

pub open spec fn trimmed_or_empty(g: Option<Seq<char>>) -> Seq<char> {
    match g {
        Some(x) => trim(x),
        None => Seq::empty(),
    }
}

pub open spec fn replace_views(v: Seq<GoReplace>) -> Seq<(Seq<char>, Seq<char>, Option<Seq<char>>)> {
    v.map_values(|r: GoReplace| (r.old@, r.new@, opt_view(r.version)))
}

/// A `replace` per match: the trimmed old and new paths (empty where a
/// group took no part) and the version without its `v`.
pub open spec fn replaces_of(caps: Seq<Seq<Option<Seq<char>>>>) -> Seq<(Seq<char>, Seq<char>, Option<Seq<char>>)> {
    caps.map_values(
        |c: Seq<Option<Seq<char>>>| (trimmed_or_empty(group(c, 1)), trimmed_or_empty(group(c, 2)), group(c, 3)),
    )
}

fn trimmed_group(g: Option<String>) -> (r: String)
    ensures
        r@ == trimmed_or_empty(opt_view(g)),
{
    match g {
        Some(x) => trimmed(x.as_str()),
        None => String::new(),
    }
}

pub open spec fn go_parsed(content: Seq<char>, c: GoConfig) -> bool {
        let ps = go_patterns();
        &&& opt_view(c.module) == match first_group(ps[0], content) {
            Some(m) => Some(trim(m)),
            None => None,
        }
        &&& opt_view(c.go_version) == first_group(ps[1], content)
        &&& replace_views(c.replaces@) == replaces_of(regex_captures_all(ps[2], content))
}

/// The settings of a `go.mod`: its module (trimmed), its Go version, and
/// its `replace` directives.
pub fn parse_go(content: &str) -> (r: Result<GoConfig, PatternError>)
    ensures
        r is Ok <==> all_valid(go_patterns()),
        r matches Ok(c) ==> go_parsed(content@, c),
{
    let lits = [r"(?m)^module\s+(.+)$", r"(?m)^go\s+([\d.]+)", r"(?m)^replace\s+(.+?)\s*=>\s*(.+?)(?:\s+v([\d.]+))?$"];
    assert(strs(lits@) =~= go_patterns());
    let ps = compile_all(&lits)?;
    let module = match ps[0].first_group(content) {
        Some(m) => Some(trimmed(m.as_str())),
        None => None,
    };
    let go_version = ps[1].first_group(content);
    let caps = ps[2].captures_all(content);
    let ghost cv = caps@.map_values(|v: Vec<Option<String>>| groups_view(v@));
    let mut replaces: Vec<GoReplace> = Vec::new();
    let mut i: usize = 0;
    while i < caps.len()
        invariant
            i <= caps.len(),
            cv == caps@.map_values(|v: Vec<Option<String>>| groups_view(v@)),
            replace_views(replaces@) == replaces_of(cv).take(i as int),
        decreases caps.len() - i,
    {
        let c = &caps[i];
        assert(cv[i as int] == groups_view(c@));
        let r = GoReplace {
            old: trimmed_group(group_at(c, 1)),
            new: trimmed_group(group_at(c, 2)),
            version: group_at(c, 3),
        };
        let ghost before = replace_views(replaces@);
        replaces.push(r);
        assert(replace_views(replaces@) =~= before.push((r.old@, r.new@, opt_view(r.version))));
        assert(replaces_of(cv).take(i + 1) =~= replaces_of(cv).take(i as int).push(replaces_of(cv)[i as int]));
        i += 1;
    }
    assert(replaces_of(cv).take(caps.len() as int) =~= replaces_of(cv));
    Ok(GoConfig { module, go_version, replaces })
}

// ── CMakeLists.txt ─────────────────────────────────────────────────────

/// The CMake project settings.
pub struct CMakeConfig {
    pub project_name: Option<String>,
    pub minimum_version: Option<String>,
    pub languages: Vec<String>,
    pub subdirectories: Vec<String>,
}

pub open spec fn cmake_patterns() -> Seq<Seq<char>> {
    seq![
        r"(?mi)project\(\s*([^ )]+)"@,
        r"(?mi)cmake_minimum_required\(\s*VERSION\s+([\d.]+)"@,
        r"(?mi)project\([^)]*LANGUAGES\s+([^)]+)\)"@,
        r"(?mi)add_subdirectory\(\s*([^ )]+)"@,
    ]
}

pub open spec fn cmake_parsed(content: Seq<char>, c: CMakeConfig) -> bool {
        let ps = cmake_patterns();
        &&& opt_view(c.project_name) == first_group(ps[0], content)
        &&& opt_view(c.minimum_version) == first_group(ps[1], content)
        &&& strings_of(c.languages@) == match first_group(ps[2], content) {
            Some(m) => words_from(m, 0),
            None => Seq::empty(),
        }
        &&& strings_of(c.subdirectories@) == all_first_groups(ps[3], content)
}

/// The settings of a `CMakeLists.txt`: project name, minimum version, the
/// words of the project's languages, and the added subdirectories.
pub fn parse_cmake(content: &str) -> (r: Result<CMakeConfig, PatternError>)
    ensures
        r is Ok <==> all_valid(cmake_patterns()),
        r matches Ok(c) ==> cmake_parsed(content@, c),
{
    let lits = [
        r"(?mi)project\(\s*([^ )]+)",
        r"(?mi)cmake_minimum_required\(\s*VERSION\s+([\d.]+)",
        r"(?mi)project\([^)]*LANGUAGES\s+([^)]+)\)",
        r"(?mi)add_subdirectory\(\s*([^ )]+)",
    ];
    assert(strs(lits@) =~= cmake_patterns());
    let ps = compile_all(&lits)?;
    let project_name = ps[0].first_group(content);
    let minimum_version = ps[1].first_group(content);
    let languages = match ps[2].first_group(content) {
        Some(m) => split_words(m.as_str()),
        None => Vec::new(),
    };
    let subdirectories = ps[3].first_groups(content);
    let c = CMakeConfig { project_name, minimum_version, languages, subdirectories };
    assert(strings_of(c.languages@) == match first_group(cmake_patterns()[2], content@) {
        Some(m) => words_from(m, 0),
        None => Seq::<Seq<char>>::empty(),
    });
    assert(cmake_parsed(content@, c));
    Ok(c)
}

// ── .csproj ────────────────────────────────────────────────────────────

/// The .NET project settings.
pub struct DotnetConfig {
    pub project_name: Option<String>,
    pub target_framework: Option<String>,
    pub sdk_version: Option<String>,
    pub package_references: Vec<String>,
}

pub open spec fn dotnet_patterns() -> Seq<Seq<char>> {
    seq![
        r"(?mi)<TargetFramework>\s*(.+?)\s*</TargetFramework>"@,
        r#"(?mi)<PackageReference\s+Include="([^"]+)""#@,
        r"(?mi)<AssemblyName>\s*(.+?)\s*</AssemblyName>"@,
        r#"(?mi)<Project\s+Sdk="([^"]+)""#@,
    ]
}

pub open spec fn dotnet_parsed(csproj: Seq<char>, sdk_version: Option<String>, c: DotnetConfig) -> bool {
        let ps = dotnet_patterns();
        &&& opt_view(c.target_framework) == first_group(ps[0], csproj)
        &&& strings_of(c.package_references@) == all_first_groups(ps[1], csproj)
        &&& opt_view(c.project_name) == or_else(first_group(ps[2], csproj), first_group(ps[3], csproj))
        &&& opt_view(c.sdk_version) == opt_view(sdk_version)
}

/// The settings of a project file: its target framework, package
/// references, assembly name (else its SDK), and the SDK version that
/// `global.json` names.
pub fn parse_dotnet(csproj: &str, sdk_version: Option<String>) -> (r: Result<DotnetConfig, PatternError>)
    ensures
        r is Ok <==> all_valid(dotnet_patterns()),
        r matches Ok(c) ==> dotnet_parsed(csproj@, sdk_version, c),
{
    let lits = [
        r"(?mi)<TargetFramework>\s*(.+?)\s*</TargetFramework>",
        r#"(?mi)<PackageReference\s+Include="([^"]+)""#,
        r"(?mi)<AssemblyName>\s*(.+?)\s*</AssemblyName>",
        r#"(?mi)<Project\s+Sdk="([^"]+)""#,
    ];
    assert(strs(lits@) =~= dotnet_patterns());
    let ps = compile_all(&lits)?;
    let target_framework = ps[0].first_group(csproj);
    let package_references = ps[1].first_groups(csproj);
    let project_name = or_else_exec(ps[2].first_group(csproj), ps[3].first_group(csproj));
    Ok(DotnetConfig { project_name, target_framework, sdk_version, package_references })
}


// ── compile_commands.json ──────────────────────────────────────────────

/// One entry of `compile_commands.json`, as `serde_json` read it.
pub struct RawCompileCommand {
    pub command: Option<String>,
    pub arguments: Option<Vec<String>>,
}

/// The include paths and defines of the compile commands.
pub struct CompileCommandsConfig {
    pub include_paths: Vec<String>,
    pub defines: Vec<String>,
    pub file_count: usize,
}

pub open spec fn cc_patterns() -> Seq<Seq<char>> {
    seq![r"^-I(.+)$"@, r"^-D(.+)$"@]
}

/// The arguments of a command: its argument list, else the words of its
/// command line; none where it has neither.
pub open spec fn args_of(c: RawCompileCommand) -> Option<Seq<Seq<char>>> {
    match c.arguments {
        Some(a) => Some(strings_of(a@)),
        None => match c.command {
            Some(s) => Some(words_from(s@, 0)),
            None => None,
        },
    }
}

pub open spec fn push_new(s: Seq<Seq<char>>, x: Seq<char>) -> Seq<Seq<char>> {
    if s.contains(x) {
        s
    } else {
        s.push(x)
    }
}

pub type CcState = Option<(Seq<Seq<char>>, Seq<Seq<char>>)>;

/// One argument: an `-I` path or a `-D` define, each kept once.
pub open spec fn cc_step(st: Option<(Seq<Seq<char>>, Seq<Seq<char>>)>, arg: Seq<char>) -> Option<(Seq<Seq<char>>, Seq<Seq<char>>)> {
    match st {
        None => None,
        Some((inc, defs)) => match regex_captures(cc_patterns()[0], arg) {
            Some(c) => match group(c, 1) {
                Some(p) => Some((push_new(inc, p), defs)),
                None => None,
            },
            None => match regex_captures(cc_patterns()[1], arg) {
                Some(c) => match group(c, 1) {
                    Some(d) => Some((inc, push_new(defs, d))),
                    None => None,
                },
                None => Some((inc, defs)),
            },
        },
    }
}

pub open spec fn cc_args(st: Option<(Seq<Seq<char>>, Seq<Seq<char>>)>, args: Seq<Seq<char>>) -> Option<(Seq<Seq<char>>, Seq<Seq<char>>)>
    decreases args.len(),
{
    if args.len() == 0 {
        st
    } else {
        cc_step(cc_args(st, args.drop_last()), args.last())
    }
}

pub open spec fn cc_commands(cmds: Seq<RawCompileCommand>) -> Option<(Seq<Seq<char>>, Seq<Seq<char>>)>
    decreases cmds.len(),
{
    if cmds.len() == 0 {
        Some((Seq::empty(), Seq::empty()))
    } else {
        let st = cc_commands(cmds.drop_last());
        match args_of(cmds.last()) {
            Some(a) => cc_args(st, a),
            None => st,
        }
    }
}

fn has_string(v: &Vec<String>, x: &str) -> (b: bool)
    ensures
        b == strings_of(v@).contains(x@),
{
    let mut i: usize = 0;
    while i < v.len()
        invariant
            i <= v.len(),
            forall|j: int| 0 <= j < i ==> strings_of(v@)[j] != x@,
        decreases v.len() - i,
    {
        if str_eq(v[i].as_str(), x) {
            assert(strings_of(v@)[i as int] == x@);
            return true;
        }
        i += 1;
    }
    false
}

fn add_new(v: &mut Vec<String>, x: String)
    ensures
        strings_of(final(v)@) == push_new(strings_of(old(v)@), x@),
{
    if !has_string(v, x.as_str()) {
        let ghost before = strings_of(v@);
        v.push(x);
        assert(strings_of(v@) =~= before.push(x@));
    }
}

proof fn lemma_cc_none_args(args: Seq<Seq<char>>, st: Option<(Seq<Seq<char>>, Seq<Seq<char>>)>)
    requires
        st is None,
    ensures
        cc_args(st, args) is None,
    decreases args.len(),
{
    if args.len() > 0 {
        lemma_cc_none_args(args.drop_last(), st);
    }
}

proof fn lemma_cc_none_args_prefix(args: Seq<Seq<char>>, st: Option<(Seq<Seq<char>>, Seq<Seq<char>>)>, k: int)
    requires
        0 <= k <= args.len(),
        cc_args(st, args.take(k)) is None,
    ensures
        cc_args(st, args) is None,
    decreases args.len() - k,
{
    if k == args.len() {
        assert(args.take(k) =~= args);
    } else {
        let d = args.drop_last();
        assert(d.take(k) =~= args.take(k));
        lemma_cc_none_args_prefix(d, st, k);
    }
}

proof fn lemma_cc_none_cmds(cmds: Seq<RawCompileCommand>, k: int)
    requires
        0 <= k <= cmds.len(),
        cc_commands(cmds.take(k)) is None,
    ensures
        cc_commands(cmds) is None,
    decreases cmds.len() - k,
{
    if k == cmds.len() {
        assert(cmds.take(k) =~= cmds);
    } else {
        let d = cmds.drop_last();
        assert(d.take(k) =~= cmds.take(k));
        lemma_cc_none_cmds(d, k);
        match args_of(cmds.last()) {
            Some(a) => lemma_cc_none_args(a, cc_commands(d)),
            None => {},
        }
    }
}

/// The include paths (`-I`) and defines (`-D`) of the compile commands,
/// each kept once in the order first seen, and the number of commands.
pub fn compile_commands_config(commands: &Vec<RawCompileCommand>) -> (r: Result<CompileCommandsConfig, BuildConfigError>)
    ensures
        !all_valid(cc_patterns()) ==> r matches Err(BuildConfigError::Pattern(_)),
        all_valid(cc_patterns()) ==> match cc_commands(commands@) {
            Some((inc, defs)) => r matches Ok(c) && strings_of(c.include_paths@) == inc && strings_of(c.defines@) == defs
                && c.file_count == commands.len(),
            None => r matches Err(BuildConfigError::MissingCapture),
        },
{
    let lits = [r"^-I(.+)$", r"^-D(.+)$"];
    assert(strs(lits@) =~= cc_patterns());
    let ps = match compile_all(&lits) {
        Ok(v) => v,
        Err(e) => return Err(BuildConfigError::Pattern(e)),
    };
    let mut include_paths: Vec<String> = Vec::new();
    let mut defines: Vec<String> = Vec::new();
    let mut i: usize = 0;
    assert(commands@.take(0) =~= Seq::<RawCompileCommand>::empty());
    while i < commands.len()
        invariant
            i <= commands.len(),
            all_valid(cc_patterns()),
            ps.len() == 2,
            ps@[0].source() == cc_patterns()[0],
            ps@[1].source() == cc_patterns()[1],
            cc_commands(commands@.take(i as int)) == Some((strings_of(include_paths@), strings_of(defines@))),
        decreases commands.len() - i,
    {
        assert(commands@.take(i + 1).drop_last() =~= commands@.take(i as int));
        let cmd = &commands[i];
        let args: Vec<String> = match &cmd.arguments {
            Some(a) => {
                let mut c: Vec<String> = Vec::new();
                let mut j: usize = 0;
                while j < a.len()
                    invariant
                        j <= a.len(),
                        strings_of(c@) == strings_of(a@).take(j as int),
                    decreases a.len() - j,
                {
                    let ghost before = strings_of(c@);
                    c.push(owned(a[j].as_str()));
                    assert(strings_of(c@) =~= before.push(a@[j as int]@));
                    assert(strings_of(a@).take(j + 1) =~= strings_of(a@).take(j as int).push(a@[j as int]@));
                    j += 1;
                }
                assert(strings_of(a@).take(a.len() as int) =~= strings_of(a@));
                c
            },
            None => match &cmd.command {
                Some(line) => split_words(line.as_str()),
                None => {
                    i += 1;
                    continue;
                },
            },
        };
        let ghost av = strings_of(args@);
        let ghost st0 = cc_commands(commands@.take(i as int));
        assert(args_of(*cmd) == Some(av));
        assert(commands@.take(i + 1).last() == commands@[i as int]);
        let mut j: usize = 0;
        assert(av.take(0) =~= Seq::<Seq<char>>::empty());
        while j < args.len()
            invariant
                j <= args.len(),
                av == strings_of(args@),
                i < commands.len(),
                all_valid(cc_patterns()),
                st0 == cc_commands(commands@.take(i as int)),
                args_of(commands@[i as int]) == Some(av),
                commands@.take(i + 1).drop_last() == commands@.take(i as int),
                commands@.take(i + 1).last() == commands@[i as int],
                ps.len() == 2,
                ps@[0].source() == cc_patterns()[0],
                ps@[1].source() == cc_patterns()[1],
                cc_args(st0, av.take(j as int)) == Some((strings_of(include_paths@), strings_of(defines@))),
            decreases args.len() - j,
        {
            assert(av.take(j + 1).drop_last() =~= av.take(j as int));
            assert(av.take(j + 1).last() == args@[j as int]@);
            let arg = args[j].as_str();
            match ps[0].captures(arg) {
                Some(c) => match group_at(&c, 1) {
                    Some(p) => add_new(&mut include_paths, p),
                    None => {
                        proof {
                            lemma_cc_none_args_prefix(av, st0, j + 1);
                            lemma_cc_none_cmds(commands@, i + 1);
                        }
                        return Err(BuildConfigError::MissingCapture);
                    },
                },
                None => match ps[1].captures(arg) {
                    Some(c) => match group_at(&c, 1) {
                        Some(d) => add_new(&mut defines, d),
                        None => {
                            proof {
                                lemma_cc_none_args_prefix(av, st0, j + 1);
                                lemma_cc_none_cmds(commands@, i + 1);
                            }
                            return Err(BuildConfigError::MissingCapture);
                        },
                    },
                    None => {},
                },
            }
            j += 1;
        }
        assert(av.take(args.len() as int) =~= av);
        i += 1;
    }
    assert(commands@.take(commands.len() as int) =~= commands@);
    Ok(CompileCommandsConfig { include_paths, defines, file_count: commands.len() })
}


// ── All configurations of a project ────────────────────────────────────

/// A build configuration found in a project.
pub enum BuildConfig {
    Cargo(CargoConfig),
    CMake(CMakeConfig),
    CompileCommands(CompileCommandsConfig),
    Dotnet(DotnetConfig),
    Go(GoConfig),
    Npm(NpmConfig),
    Python(PythonConfig),
    TsConfig(TsConfig),
}

/// What the project's manifests hold, where they exist: the texts of the
/// regular-expression readers, and what `serde_json` read of the JSON
/// manifests.
pub struct BuildInputs {
    pub cargo_toml: Option<String>,
    pub package_json: Option<RawPackageJson>,
    pub tsconfig: Option<RawTsConfig>,
    pub pyproject: Option<String>,
    pub go_mod: Option<String>,
    pub cmake_lists: Option<String>,
    pub compile_commands: Option<Vec<RawCompileCommand>>,
    pub csproj: Option<String>,
    pub global_sdk_version: Option<String>,
}

pub open spec fn cc_fits(cmds: Seq<RawCompileCommand>, c: CompileCommandsConfig) -> bool {
    cc_commands(cmds) matches Some((inc, defs)) && strings_of(c.include_paths@) == inc && strings_of(c.defines@) == defs
        && c.file_count == cmds.len()
}

/// The configuration fits the input of its kind.
pub open spec fn config_fits(c: BuildConfig, i: BuildInputs) -> bool {
    match c {
        BuildConfig::Cargo(x) => i.cargo_toml matches Some(t) && cargo_config_spec(t@) == Some(cargo_view(x)),
        BuildConfig::Npm(x) => i.package_json matches Some(r) && npm_fits(r, x),
        BuildConfig::TsConfig(x) => i.tsconfig matches Some(r) && ts_fits(r, x),
        BuildConfig::Python(x) => i.pyproject matches Some(t) && python_parsed(t@, x),
        BuildConfig::Go(x) => i.go_mod matches Some(t) && go_parsed(t@, x),
        BuildConfig::CMake(x) => i.cmake_lists matches Some(t) && cmake_parsed(t@, x),
        BuildConfig::CompileCommands(x) => i.compile_commands matches Some(v) && cc_fits(v@, x),
        BuildConfig::Dotnet(x) => i.csproj matches Some(t) && dotnet_parsed(t@, i.global_sdk_version, x),
    }
}

/// The kind of a configuration, by its place in the reading order.
pub open spec fn config_rank(c: BuildConfig) -> int {
    match c {
        BuildConfig::Cargo(_) => 0,
        BuildConfig::Npm(_) => 1,
        BuildConfig::TsConfig(_) => 2,
        BuildConfig::Python(_) => 3,
        BuildConfig::Go(_) => 4,
        BuildConfig::CMake(_) => 5,
        BuildConfig::CompileCommands(_) => 6,
        BuildConfig::Dotnet(_) => 7,
    }
}

/// Whether the manifest of the kind is present.
pub open spec fn present(i: BuildInputs, k: int) -> bool {
    if k == 0 { i.cargo_toml is Some }
    else if k == 1 { i.package_json is Some }
    else if k == 2 { i.tsconfig is Some }
    else if k == 3 { i.pyproject is Some }
    else if k == 4 { i.go_mod is Some }
    else if k == 5 { i.cmake_lists is Some }
    else if k == 6 { i.compile_commands is Some }
    else { i.csproj is Some }
}

/// The kinds present among the first `n`, in reading order.
pub open spec fn ranks_upto(i: BuildInputs, n: int) -> Seq<int>
    decreases n,
{
    if n <= 0 {
        Seq::empty()
    } else {
        ranks_upto(i, n - 1) + if present(i, n - 1) { seq![n - 1] } else { Seq::empty() }
    }
}

/// The kinds present, in reading order.

/// Every present manifest reads.
pub open spec fn inputs_read(i: BuildInputs) -> bool {
    &&& (i.cargo_toml matches Some(t) ==> cargo_config_spec(t@) is Some)
    &&& (i.pyproject is Some ==> all_valid(python_patterns()))
    &&& (i.go_mod is Some ==> all_valid(go_patterns()))
    &&& (i.cmake_lists is Some ==> all_valid(cmake_patterns()))
    &&& (i.compile_commands matches Some(v) ==> all_valid(cc_patterns()) && cc_commands(v@) is Some)
    &&& (i.csproj is Some ==> all_valid(dotnet_patterns()))
}

pub open spec fn config_ranks(v: Seq<BuildConfig>) -> Seq<int> {
    v.map_values(|c: BuildConfig| config_rank(c))
}

pub open spec fn configs_fit(v: Seq<BuildConfig>, i: BuildInputs) -> bool {
    &&& config_ranks(v) == ranks_upto(i, 8)
    &&& forall|k: int| 0 <= k < v.len() ==> config_fits(#[trigger] v[k], i)
}

fn push_config(out: &mut Vec<BuildConfig>, c: BuildConfig, Ghost(i): Ghost<BuildInputs>)
    requires
        config_fits(c, i),
        forall|k: int| 0 <= k < old(out).len() ==> config_fits(#[trigger] old(out)@[k], i),
    ensures
        final(out)@ == old(out)@.push(c),
        config_ranks(final(out)@) == config_ranks(old(out)@).push(config_rank(c)),
        forall|k: int| 0 <= k < final(out).len() ==> config_fits(#[trigger] final(out)@[k], i),
{
    let ghost before = out@;
    out.push(c);
    assert(config_ranks(out@) =~= config_ranks(before).push(config_rank(c)));
}

/// The build configurations of a project, in the order Cargo, npm,
/// TypeScript, Python, Go, CMake, compile commands, .NET; refused where a
/// present manifest cannot be read.
#[verifier::rlimit(60)]
pub fn detect_build_configs(inputs: BuildInputs) -> (r: Result<Vec<BuildConfig>, BuildConfigError>)
    ensures
        r is Ok <==> inputs_read(inputs),
        r matches Ok(v) ==> configs_fit(v@, inputs),
{
    let ghost iv = inputs;
    let BuildInputs {
        cargo_toml,
        package_json,
        tsconfig,
        pyproject,
        go_mod,
        cmake_lists,
        compile_commands,
        csproj,
        global_sdk_version,
    } = inputs;
    let mut out: Vec<BuildConfig> = Vec::new();
    assert(config_ranks(out@) =~= ranks_upto(iv, 0));
    match &cargo_toml {
        Some(t) => {
            let c = parse_cargo(t.as_str())?;
            push_config(&mut out, BuildConfig::Cargo(c), Ghost(iv));
        },
        None => {},
    }
    assert(config_ranks(out@) =~= ranks_upto(iv, 1));
    match package_json {
        Some(raw) => {
            push_config(&mut out, BuildConfig::Npm(npm_config(raw)), Ghost(iv));
        },
        None => {},
    }
    assert(config_ranks(out@) =~= ranks_upto(iv, 2));
    match tsconfig {
        Some(raw) => {
            push_config(&mut out, BuildConfig::TsConfig(ts_config(raw)), Ghost(iv));
        },
        None => {},
    }
    assert(config_ranks(out@) =~= ranks_upto(iv, 3));
    match &pyproject {
        Some(t) => {
            let c = match parse_python(t.as_str()) {
                Ok(c) => c,
                Err(e) => return Err(BuildConfigError::Pattern(e)),
            };
            push_config(&mut out, BuildConfig::Python(c), Ghost(iv));
        },
        None => {},
    }
    assert(config_ranks(out@) =~= ranks_upto(iv, 4));
    match &go_mod {
        Some(t) => {
            let c = match parse_go(t.as_str()) {
                Ok(c) => c,
                Err(e) => return Err(BuildConfigError::Pattern(e)),
            };
            push_config(&mut out, BuildConfig::Go(c), Ghost(iv));
        },
        None => {},
    }
    assert(config_ranks(out@) =~= ranks_upto(iv, 5));
    match &cmake_lists {
        Some(t) => {
            let c = match parse_cmake(t.as_str()) {
                Ok(c) => c,
                Err(e) => return Err(BuildConfigError::Pattern(e)),
            };
            push_config(&mut out, BuildConfig::CMake(c), Ghost(iv));
        },
        None => {},
    }
    assert(config_ranks(out@) =~= ranks_upto(iv, 6));
    match &compile_commands {
        Some(v) => {
            let c = compile_commands_config(v)?;
            push_config(&mut out, BuildConfig::CompileCommands(c), Ghost(iv));
        },
        None => {},
    }
    assert(config_ranks(out@) =~= ranks_upto(iv, 7));
    match &csproj {
        Some(t) => {
            let c = match parse_dotnet(t.as_str(), global_sdk_version) {
                Ok(c) => c,
                Err(e) => return Err(BuildConfigError::Pattern(e)),
            };
            push_config(&mut out, BuildConfig::Dotnet(c), Ghost(iv));
        },
        None => {},
    }
    assert(config_ranks(out@) =~= ranks_upto(iv, 8));
    Ok(out)
}

} // verus!
