//! Project layout: the `.graxus` directories, workspace membership of files
//! and the TOML section test that workspace detection relies on.
use vstd::prelude::*;
use vstd::string::StringSliceAdditionalSpecFns;
use crate::markdown::{line_ranges, ranges_view, split_lines};
use crate::paths::{
    components, compare_paths, file_name, file_name_spec, join, join_spec, lemma_comps_total, lemma_comps_transitive,
    path_lt, strings_view,
};
use crate::text::{find_char_from, first_char_from, str_eq};
use crate::import_resolver::{parent_of, path_parent};
use crate::text::{
    byte_len, chars_of, find_from, first_match_from, is_prefix, owned, push_str, starts_with, sub_vec,
};

verus! {

/// The type of a workspace.
#[derive(Debug, Clone, Copy, PartialEq, Eq, Structural)]
pub enum WorkspaceKind {
    CargoWorkspace,
    NpmWorkspace,
    GoModule,
    Unknown,
}

/// A detected workspace (Cargo, npm or Go).
#[derive(Debug, Clone)]
pub struct WorkspaceInfo {
    pub name: String,
    pub root: String,
    pub kind: WorkspaceKind,
}

/// A graxus workspace: a monorepo or a single project.
#[derive(Debug, Clone)]
pub struct GraxusWorkspace {
    /// Whether this is a monorepo (it has sub-projects).
    pub is_monorepo: bool,
    /// Root directory of the workspace.
    pub root: String,
    /// Sub-project paths.
    pub sub_projects: Vec<String>,
    /// Languages detected across the sub-projects.
    pub languages: Vec<String>,
    /// The type of workspace.
    pub kind: WorkspaceKind,
}

// ── The .graxus directories ────────────────────────────────────────────

/// The `.graxus` directory of a project root.
pub fn graxus_dir(root: &str) -> (d: String)
    ensures
        d@ == join_spec(root@, ".graxus"@),
{
    join(root, ".graxus")
}

/// The docs graph output directory.
pub fn docs_dir(root: &str) -> (d: String)
    ensures
        d@ == join_spec(join_spec(root@, ".graxus"@), "docs"@),
{
    let g = join(root, ".graxus");
    join(g.as_str(), "docs")
}

/// The codemap output directory.
pub fn code_dir(root: &str) -> (d: String)
    ensures
        d@ == join_spec(join_spec(root@, ".graxus"@), "code"@),
{
    let g = join(root, ".graxus");
    join(g.as_str(), "code")
}

/// The snapshots directory.
pub fn snapshots_dir(root: &str) -> (d: String)
    ensures
        d@ == join_spec(join_spec(root@, ".graxus"@), "snapshots"@),
{
    let g = join(root, ".graxus");
    join(g.as_str(), "snapshots")
}

/// The files whose presence in the `.graxus` directory shows that a project
/// has been indexed: the file list, the codemap and the index database.
pub fn index_artifacts(project_path: &str) -> (files: Vec<String>)
    ensures
        files@.len() == 3,
        files@[0]@ == join_spec(join_spec(project_path@, ".graxus"@), "files.json"@),
        files@[1]@ == join_spec(join_spec(join_spec(project_path@, ".graxus"@), "code"@), "codemap.json"@),
        files@[2]@ == join_spec(join_spec(project_path@, ".graxus"@), "index.db"@),
{
    let g = join(project_path, ".graxus");
    let c = join(g.as_str(), "code");
    let mut files: Vec<String> = Vec::new();
    files.push(join(g.as_str(), "files.json"));
    files.push(join(c.as_str(), "codemap.json"));
    files.push(join(g.as_str(), "index.db"));
    files
}

/// A project is indexed when its `.graxus` directory exists and holds one of
/// the files that [`index_artifacts`] names.
pub fn is_indexed(graxus_dir_exists: bool, artifact_exists: &Vec<bool>) -> (b: bool)
    ensures
        b == (graxus_dir_exists && artifact_exists@.contains(true)),
{
    if !graxus_dir_exists {
        return false;
    }
    let mut i: usize = 0;
    while i < artifact_exists.len()
        invariant
            i <= artifact_exists.len(),
            graxus_dir_exists,
            forall|k: int| 0 <= k < i ==> !artifact_exists@[k],
        decreases artifact_exists.len() - i,
    {
        if artifact_exists[i] {
            assert(artifact_exists@[i as int] == true);
            assert(artifact_exists@.contains(true));
            return true;
        }
        i += 1;
    }
    assert(!artifact_exists@.contains(true)) by {
        if artifact_exists@.contains(true) {
            let k = choose|k: int| 0 <= k < artifact_exists@.len() && artifact_exists@[k] == true;
            assert(!artifact_exists@[k]);
        }
    }
    false
}

// ── Workspace membership ───────────────────────────────────────────────


/// The workspace whose root the file path starts with, the longest root
/// (in bytes) winning and the last of equally long ones.
pub open spec fn best_workspace(ws: Seq<WorkspaceInfo>, file: Seq<char>) -> Option<int>
    decreases ws.len(),
{
    if ws.len() == 0 {
        None
    } else {
        let prev = best_workspace(ws.drop_last(), file);
        let i = ws.len() - 1;
        if is_prefix(ws[i].root@, file) && (prev is None || byte_len(ws[prev->0].root@) <= byte_len(
            ws[i].root@,
        )) {
            Some(i)
        } else {
            prev
        }
    }
}

/// Get which workspace a file belongs to, if any.
pub fn file_workspace<'a>(file_path: &str, workspaces: &'a [WorkspaceInfo]) -> (r: Option<&'a WorkspaceInfo>)
    ensures
        match r {
            Some(w) => best_workspace(workspaces@, file_path@) matches Some(i) && *w == workspaces@[i],
            None => best_workspace(workspaces@, file_path@) is None,
        },
{
    let mut best: Option<usize> = None;
    let mut best_len: usize = 0;
    let mut i: usize = 0;
    while i < workspaces.len()
        invariant
            i <= workspaces.len(),
            best_workspace(workspaces@.take(i as int), file_path@) == match best {
                Some(b) => Some(b as int),
                None => None::<int>,
            },
            best matches Some(b) ==> b < i && best_len == byte_len(workspaces@[b as int].root@),
        decreases workspaces.len() - i,
    {
        let w = &workspaces[i];
        let ghost t = workspaces@.take(i + 1);
        assert(t.drop_last() =~= workspaces@.take(i as int));
        assert(t[i as int] == workspaces@[i as int]);
        if starts_with(file_path, w.root.as_str()) {
            let len = w.root.as_str().len();
            assert(len == byte_len(w.root@));
            assert(is_prefix(t[i as int].root@, file_path@));
            match best {
                None => {
                    best = Some(i);
                    best_len = len;
                },
                Some(b) => {
                    assert(t[b as int] == workspaces@[b as int]);
                    if best_len <= len {
                        best = Some(i);
                        best_len = len;
                    }
                },
            }
        } else {
            match best {
                Some(b) => {
                    assert(t[b as int] == workspaces@[b as int]);
                },
                None => {},
            }
        }
        i += 1;
    }
    assert(workspaces@.take(workspaces.len() as int) =~= workspaces@);
    match best {
        Some(b) => Some(&workspaces[b]),
        None => None,
    }
}

// ── TOML sections ──────────────────────────────────────────────────────

/// Where the comment of a TOML line starts: the first `#` outside a basic
/// (`"..."`) or literal (`'...'`) string, skipping the character after a
/// backslash inside a string; the length of the line where there is none.
pub open spec fn comment_start(l: Seq<char>, i: int, in_string: bool, quote: char) -> int
    decreases l.len() + 1 - i,
{
    if i < 0 || i >= l.len() {
        l.len() as int
    } else if in_string {
        if l[i] == '\\' {
            comment_start(l, i + 2, true, quote)
        } else if l[i] == quote {
            comment_start(l, i + 1, false, quote)
        } else {
            comment_start(l, i + 1, true, quote)
        }
    } else if l[i] == '"' || l[i] == '\'' {
        comment_start(l, i + 1, true, l[i])
    } else if l[i] == '#' {
        i
    } else {
        comment_start(l, i + 1, false, quote)
    }
}

/// A TOML line without its inline comment.
pub open spec fn strip_comment_spec(l: Seq<char>) -> Seq<char> {
    l.take(comment_start(l, 0, false, '"'))
}

/// Strip a TOML inline comment from a line, respecting quoted strings.
pub fn strip_toml_comment(line: &Vec<char>) -> (r: usize)
    ensures
        r <= line.len(),
        line@.take(r as int) == strip_comment_spec(line@),
{
    let mut in_string = false;
    let mut quote: char = '"';
    let mut i: usize = 0;
    while i < line.len()
        invariant
            i <= line.len(),
            comment_start(line@, 0, false, '"') == comment_start(line@, i as int, in_string, quote),
        decreases line.len() + 1 - i,
    {
        let c = line[i];
        if in_string {
            if c == '\\' {
                if i + 1 >= line.len() {
                    assert(comment_start(line@, i + 2, true, quote) == line@.len());
                    assert(line@.take(line.len() as int) =~= line@);
                    return line.len();
                }
                i += 2;
                continue;
            }
            if c == quote {
                in_string = false;
            }
        } else if c == '"' || c == '\'' {
            in_string = true;
            quote = c;
        } else if c == '#' {
            return i;
        }
        i += 1;
    }
    line.len()
}

/// Some line of the content, without its comment, contains `[section]`.
pub open spec fn has_section_in(s: Seq<char>, ranges: Seq<(int, int)>, pat: Seq<char>) -> bool {
    exists|k: int|
        0 <= k < ranges.len() && first_match_from(
            strip_comment_spec(s.subrange((#[trigger] ranges[k]).0, ranges[k].1)),
            0,
            pat,
        ) is Some
}

/// Whether TOML content has a `[section_name]` header outside comments.
pub fn has_toml_section(content: &str, section_name: &str) -> (b: bool)
    ensures
        b == has_section_in(content@, line_ranges(content@), "["@ + section_name@ + "]"@),
{
    proof {
        reveal_strlit("[");
        reveal_strlit("]");
    }
    let mut pattern = String::new();
    push_str(&mut pattern, "[");
    push_str(&mut pattern, section_name);
    push_str(&mut pattern, "]");
    let pat = chars_of(pattern.as_str());
    let v = chars_of(content);
    let ranges = split_lines(&v);
    let ghost rv = ranges_view(ranges@);
    let mut i: usize = 0;
    while i < ranges.len()
        invariant
            i <= ranges.len(),
            v@ == content@,
            rv == ranges_view(ranges@),
            rv == line_ranges(v@),
            pat@ == "["@ + section_name@ + "]"@,
            forall|k: int| 0 <= k < ranges.len() ==> (#[trigger] ranges@[k]).0 <= ranges@[k].1 <= v.len(),
            forall|k: int|
                0 <= k < i ==> first_match_from(
                    strip_comment_spec(v@.subrange((#[trigger] rv[k]).0, rv[k].1)),
                    0,
                    pat@,
                ) is None,
        decreases ranges.len() - i,
    {
        let (lo, hi) = ranges[i];
        let line = sub_vec(&v, lo, hi);
        let cut = strip_toml_comment(&line);
        let stripped = sub_vec(&line, 0, cut);
        assert(stripped@ =~= line@.take(cut as int));
        assert(rv[i as int] == (lo as int, hi as int));
        if find_from(&stripped, 0, &pat).is_some() {
            assert(first_match_from(strip_comment_spec(v@.subrange(rv[i as int].0, rv[i as int].1)), 0, pat@) is Some);
            return true;
        }
        i += 1;
    }
    false
}

// ── The project root ───────────────────────────────────────────────────

/// The directories looked at for a project root, from `start` upward: the
/// start, then each parent in turn.
pub open spec fn root_candidates_spec(start: Seq<char>) -> Seq<Seq<char>>
    decreases start.len(),
{
    match path_parent(start) {
        Some(d) => if d.len() < start.len() {
            seq![start] + root_candidates_spec(d)
        } else {
            seq![start]
        },
        None => seq![start],
    }
}

/// The directories looked at for a project root, from `start` upward.
pub fn root_candidates(start: &str) -> (r: Vec<String>)
    ensures
        strings_view(r@) == root_candidates_spec(start@),
{
    let mut out: Vec<String> = Vec::new();
    let mut dir = owned(start);
    let ghost s0 = start@;
    loop
        invariant
            s0 == start@,
            strings_view(out@) + root_candidates_spec(dir@) == root_candidates_spec(s0),
        decreases dir@.len(),
    {
        let ghost before = strings_view(out@);
        let ghost dv = dir@;
        let parent = parent_of(dir.as_str());
        out.push(owned(dir.as_str()));
        assert(strings_view(out@) =~= before.push(dv));
        match parent {
            Some(d) => {
                assert(root_candidates_spec(dv) == seq![dv] + root_candidates_spec(d@));
                assert(before + root_candidates_spec(dv) =~= before.push(dv) + root_candidates_spec(d@));
                dir = d;
            },
            None => {
                assert(root_candidates_spec(dv) == seq![dv]);
                assert(before + root_candidates_spec(dv) =~= before.push(dv));
                return out;
            },
        }
    }
}

/// The first candidate marked as a project root (one holding `graxus.yaml`
/// or a `.graxus` directory).
pub open spec fn first_marked(cands: Seq<Seq<char>>, marked: Seq<bool>, k: int) -> Option<Seq<char>>
    decreases cands.len() - k,
{
    if k < 0 || k >= cands.len() {
        None
    } else if k < marked.len() && marked[k] {
        Some(cands[k])
    } else {
        first_marked(cands, marked, k + 1)
    }
}

/// Find the project root going upward from `start`: the first of
/// [`root_candidates`] whose entry of `marked` is set (it holds
/// `graxus.yaml` or a `.graxus` directory).
pub fn find_root(start: &str, marked: &Vec<bool>) -> (r: Option<String>)
    ensures
        match r {
            Some(d) => first_marked(root_candidates_spec(start@), marked@, 0) == Some(d@),
            None => first_marked(root_candidates_spec(start@), marked@, 0) is None,
        },
{
    let cands = root_candidates(start);
    let ghost cv = strings_view(cands@);
    let mut k: usize = 0;
    while k < cands.len()
        invariant
            k <= cands.len(),
            cv == strings_view(cands@),
            cv == root_candidates_spec(start@),
            first_marked(cv, marked@, 0) == first_marked(cv, marked@, k as int),
        decreases cands.len() - k,
    {
        if k < marked.len() && marked[k] {
            return Some(owned(cands[k].as_str()));
        }
        k += 1;
    }
    None
}

// ── Workspace and sub-project detection ────────────────────────────────

/// A manifest file of a directory: absent, present but unreadable, or its
/// text.
pub enum Manifest {
    Absent,
    Unreadable,
    Text(String),
}

/// What the detectors read of a directory: its path, the index of its
/// parent in the listing (`None` for the directories directly under the
/// root, and for the root itself), and which marker files it holds.
/// Directories are listed as a walk of the tree meets them: each after its
/// parent, its subdirectories in the order the file system gives them.
pub struct DirFacts {
    pub path: String,
    pub parent: Option<usize>,
    pub graxus_yaml: bool,
    pub cargo_toml: Manifest,
    pub package_json: Manifest,
    pub go_mod: bool,
    pub go_work: bool,
    pub tsconfig_json: bool,
    pub requirements_txt: bool,
    pub pyproject_toml: bool,
}

pub open spec fn present(m: Manifest) -> bool {
    !(m is Absent)
}

/// The name of a directory: its final component, empty where it has none.
pub open spec fn dir_name(path: Seq<char>) -> Seq<char> {
    match file_name_spec(path) {
        Some(n) => n,
        None => Seq::empty(),
    }
}

pub open spec fn contains_text(s: Seq<char>, pat: Seq<char>) -> bool {
    first_match_from(s, 0, pat) is Some
}

/// A Cargo manifest with a `[workspace]` section.
pub open spec fn cargo_workspace(d: DirFacts) -> bool {
    match d.cargo_toml {
        Manifest::Text(t) => has_section_in(t@, line_ranges(t@), "["@ + "workspace"@ + "]"@),
        _ => false,
    }
}

/// A `package.json` naming `"workspaces"`.
pub open spec fn npm_workspace(d: DirFacts) -> bool {
    match d.package_json {
        Manifest::Text(t) => contains_text(t@, "\"workspaces\""@),
        _ => false,
    }
}

/// Some line of the manifest, before any `#`, holds `[package]`.
pub open spec fn has_package_line(t: Seq<char>) -> bool {
    exists|k: int| 0 <= k < line_ranges(t).len() && package_line(t.subrange((#[trigger] line_ranges(t)[k]).0, line_ranges(t)[k].1))
}

pub open spec fn package_line(line: Seq<char>) -> bool {
    let cut = match first_char_from(line, 0, '#') {
        Some(h) => line.take(h),
        None => line,
    };
    contains_text(cut, "[package]"@)
}

/// A sub-project: a `graxus.yaml`, a Cargo package that is not a workspace
/// root, a `package.json` with a `"name"`, or a `go.mod`.
pub open spec fn is_subproject(d: DirFacts) -> bool {
    ||| d.graxus_yaml
    ||| (match d.cargo_toml {
        Manifest::Text(t) => has_package_line(t@) && !has_section_in(t@, line_ranges(t@), "["@ + "workspace"@ + "]"@),
        _ => false,
    })
    ||| (match d.package_json {
        Manifest::Text(t) => contains_text(t@, "\"name\""@),
        _ => false,
    })
    ||| d.go_mod
}

/// The workspace a directory roots, the first of Cargo, npm and Go.
pub open spec fn workspace_kind_at(d: DirFacts) -> Option<WorkspaceKind> {
    if cargo_workspace(d) {
        Some(WorkspaceKind::CargoWorkspace)
    } else if npm_workspace(d) {
        Some(WorkspaceKind::NpmWorkspace)
    } else if d.go_mod {
        Some(WorkspaceKind::GoModule)
    } else {
        None
    }
}

/// The two walks: for workspaces (two levels, skipping hidden, `target` and
/// `node_modules`) and for sub-projects (three levels, also skipping
/// `dist`, `build` and `vendor`).
#[derive(Clone, Copy, PartialEq, Eq, Structural)]
pub enum Walk {
    Workspaces,
    Subprojects,
}

pub open spec fn walk_limit(w: Walk) -> nat {
    match w {
        Walk::Workspaces => 2,
        Walk::Subprojects => 3,
    }
}

pub open spec fn skipped(w: Walk, name: Seq<char>) -> bool {
    ||| (name.len() > 0 && name[0] == '.')
    ||| name == "target"@
    ||| name == "node_modules"@
    ||| (w == Walk::Subprojects && (name == "dist"@ || name == "build"@ || name == "vendor"@))
}

/// The walk records the directory and goes no deeper into it.
pub open spec fn stops(w: Walk, d: DirFacts) -> bool {
    match w {
        Walk::Workspaces => workspace_kind_at(d) is Some,
        Walk::Subprojects => is_subproject(d),
    }
}

/// How deep a directory lies below the root (0 for its children).
pub open spec fn depth_of(dirs: Seq<DirFacts>, i: int) -> nat
    decreases i,
{
    if i < 0 || i >= dirs.len() {
        0
    } else {
        match dirs[i].parent {
            Some(p) => if (p as int) < i { depth_of(dirs, p as int) + 1 } else { 0 },
            None => 0,
        }
    }
}

/// The walk lists the directory's parent and so meets the directory: the
/// parent is met, not skipped, not where the walk stops, and not at the
/// walk's last level.
pub open spec fn reaches(w: Walk, dirs: Seq<DirFacts>, i: int) -> bool
    decreases i,
{
    if i < 0 || i >= dirs.len() {
        false
    } else {
        match dirs[i].parent {
            Some(p) => (p as int) < i && reaches(w, dirs, p as int) && !skipped(w, dir_name(dirs[p as int].path@))
                && !stops(w, dirs[p as int]) && depth_of(dirs, p as int) + 1 < walk_limit(w),
            None => true,
        }
    }
}

/// The walk meets the directory and does not skip it.
pub open spec fn examined(w: Walk, dirs: Seq<DirFacts>, i: int) -> bool {
    0 <= i < dirs.len() && reaches(w, dirs, i) && !skipped(w, dir_name(dirs[i].path@))
}

fn manifest_text(m: &Manifest) -> (r: Option<&String>)
    ensures
        match r {
            Some(t) => *m == Manifest::Text(*t),
            None => !(m is Text),
        },
{
    match m {
        Manifest::Text(t) => Some(t),
        _ => None,
    }
}

fn contains_str(s: &str, pat: &str) -> (b: bool)
    ensures
        b == contains_text(s@, pat@),
{
    let v = chars_of(s);
    let p = chars_of(pat);
    find_from(&v, 0, &p).is_some()
}

fn package_manifest(t: &str) -> (b: bool)
    ensures
        b == has_package_line(t@),
{
    let v = chars_of(t);
    let ranges = split_lines(&v);
    let ghost rv = ranges_view(ranges@);
    let hash_free = chars_of("[package]");
    let mut i: usize = 0;
    while i < ranges.len()
        invariant
            i <= ranges.len(),
            v@ == t@,
            rv == ranges_view(ranges@),
            rv == line_ranges(v@),
            hash_free@ == "[package]"@,
            forall|k: int| 0 <= k < ranges.len() ==> (#[trigger] ranges@[k]).0 <= ranges@[k].1 <= v.len(),
            forall|k: int| 0 <= k < i ==> !package_line(v@.subrange((#[trigger] rv[k]).0, rv[k].1)),
        decreases ranges.len() - i,
    {
        let (lo, hi) = ranges[i];
        assert(rv[i as int] == (lo as int, hi as int));
        let line = sub_vec(&v, lo, hi);
        let cut = match find_char_from(&line, 0, '#') {
            Some(h) => sub_vec(&line, 0, h),
            None => sub_vec(&line, 0, line.len()),
        };
        assert(line@.subrange(0, line.len() as int) =~= line@);
        if find_from(&cut, 0, &hash_free).is_some() {
            assert(package_line(v@.subrange(rv[i as int].0, rv[i as int].1)));
            return true;
        }
        i += 1;
    }
    false
}

fn cargo_workspace_of(d: &DirFacts) -> (b: bool)
    ensures
        b == cargo_workspace(*d),
{
    match manifest_text(&d.cargo_toml) {
        Some(t) => has_toml_section(t.as_str(), "workspace"),
        None => false,
    }
}

fn npm_workspace_of(d: &DirFacts) -> (b: bool)
    ensures
        b == npm_workspace(*d),
{
    match manifest_text(&d.package_json) {
        Some(t) => contains_str(t.as_str(), "\"workspaces\""),
        None => false,
    }
}

fn workspace_kind_of(d: &DirFacts) -> (k: Option<WorkspaceKind>)
    ensures
        k == workspace_kind_at(*d),
{
    if cargo_workspace_of(d) {
        Some(WorkspaceKind::CargoWorkspace)
    } else if npm_workspace_of(d) {
        Some(WorkspaceKind::NpmWorkspace)
    } else if d.go_mod {
        Some(WorkspaceKind::GoModule)
    } else {
        None
    }
}

fn subproject_of(d: &DirFacts) -> (b: bool)
    ensures
        b == is_subproject(*d),
{
    if d.graxus_yaml {
        return true;
    }
    let cargo = match manifest_text(&d.cargo_toml) {
        Some(t) => package_manifest(t.as_str()) && !has_toml_section(t.as_str(), "workspace"),
        None => false,
    };
    if cargo {
        return true;
    }
    let npm = match manifest_text(&d.package_json) {
        Some(t) => contains_str(t.as_str(), "\"name\""),
        None => false,
    };
    npm || d.go_mod
}

fn name_of(path: &str) -> (n: String)
    ensures
        n@ == dir_name(path@),
{
    match file_name(path) {
        Some(n) => n,
        None => {
            let n = String::new();
            assert(n@ =~= Seq::<char>::empty());
            n
        },
    }
}

fn skipped_name(w: Walk, name: &str) -> (b: bool)
    ensures
        b == skipped(w, name@),
{
    let v = chars_of(name);
    (v.len() > 0 && v[0] == '.') || str_eq(name, "target") || str_eq(name, "node_modules") || (w == Walk::Subprojects
        && (str_eq(name, "dist") || str_eq(name, "build") || str_eq(name, "vendor")))
}

fn stops_at(w: Walk, d: &DirFacts) -> (b: bool)
    ensures
        b == stops(w, *d),
{
    match w {
        Walk::Workspaces => workspace_kind_of(d).is_some(),
        Walk::Subprojects => subproject_of(d),
    }
}

/// Which directories of the listing the walk examines.
fn examined_dirs(w: Walk, dirs: &Vec<DirFacts>) -> (r: Vec<bool>)
    ensures
        r.len() == dirs.len(),
        forall|i: int| 0 <= i < dirs.len() ==> r@[i] == examined(w, dirs@, i),
{
    let limit: usize = match w {
        Walk::Workspaces => 2,
        Walk::Subprojects => 3,
    };
    let mut seen: Vec<bool> = Vec::new();
    let mut goes_on: Vec<bool> = Vec::new();
    let mut depth: Vec<usize> = Vec::new();
    let mut i: usize = 0;
    while i < dirs.len()
        invariant
            i <= dirs.len(),
            limit == walk_limit(w),
            seen.len() == i && goes_on.len() == i && depth.len() == i,
            forall|k: int| 0 <= k < i ==> seen@[k] == examined(w, dirs@, k),
            forall|k: int| 0 <= k < i ==> depth@[k] == depth_of(dirs@, k) && depth@[k] <= k,
            forall|k: int| 0 <= k < i ==> goes_on@[k] == (examined(w, dirs@, k) && !stops(w, dirs@[k])
                && depth_of(dirs@, k) + 1 < walk_limit(w)),
        decreases dirs.len() - i,
    {
        let d = &dirs[i];
        let (reached, dp) = match d.parent {
            Some(p) => if p < i {
                (goes_on[p], depth[p] + 1)
            } else {
                (false, 0)
            },
            None => (true, 0),
        };
        assert(reached == reaches(w, dirs@, i as int));
        assert(dp == depth_of(dirs@, i as int));
        let name = name_of(d.path.as_str());
        let ex = reached && !skipped_name(w, name.as_str());
        assert(ex == examined(w, dirs@, i as int));
        let go = ex && !stops_at(w, d) && dp + 1 < limit;
        seen.push(ex);
        goes_on.push(go);
        depth.push(dp);
        i += 1;
    }
    seen
}

pub open spec fn info_view(w: WorkspaceInfo) -> (Seq<char>, Seq<char>, WorkspaceKind) {
    (w.name@, w.root@, w.kind)
}

pub open spec fn infos_view(v: Seq<WorkspaceInfo>) -> Seq<(Seq<char>, Seq<char>, WorkspaceKind)> {
    v.map_values(|w: WorkspaceInfo| info_view(w))
}

/// The workspaces of the root itself: Cargo, npm and Go, each where it
/// holds one, named after the root.
pub open spec fn root_workspaces(root: DirFacts) -> Seq<(Seq<char>, Seq<char>, WorkspaceKind)> {
    let n = dir_name(root.path@);
    let c = if cargo_workspace(root) { seq![(n, root.path@, WorkspaceKind::CargoWorkspace)] } else { Seq::empty() };
    let p = if npm_workspace(root) { seq![(n, root.path@, WorkspaceKind::NpmWorkspace)] } else { Seq::empty() };
    let g = if root.go_mod { seq![(n, root.path@, WorkspaceKind::GoModule)] } else { Seq::empty() };
    c + p + g
}

/// The workspaces the walk finds among the first `n` directories.
pub open spec fn sub_workspaces_upto(dirs: Seq<DirFacts>, n: int) -> Seq<(Seq<char>, Seq<char>, WorkspaceKind)>
    decreases n,
{
    if n <= 0 {
        Seq::empty()
    } else {
        let prev = sub_workspaces_upto(dirs, n - 1);
        let d = dirs[n - 1];
        match workspace_kind_at(d) {
            Some(k) => if examined(Walk::Workspaces, dirs, n - 1) {
                prev.push((dir_name(d.path@), d.path@, k))
            } else {
                prev
            },
            None => prev,
        }
    }
}

/// Detect the Cargo, npm and Go workspaces of a project: those of the root,
/// then those the walk of the two levels below it finds, in walk order.
pub fn detect_workspaces(root: &DirFacts, dirs: &Vec<DirFacts>) -> (r: Vec<WorkspaceInfo>)
    ensures
        infos_view(r@) == root_workspaces(*root) + sub_workspaces_upto(dirs@, dirs.len() as int),
{
    let mut out: Vec<WorkspaceInfo> = Vec::new();
    let n = name_of(root.path.as_str());
    let ghost rn = n@;
    let ghost e = Seq::<(Seq<char>, Seq<char>, WorkspaceKind)>::empty();
    if cargo_workspace_of(root) {
        out.push(WorkspaceInfo { name: owned(n.as_str()), root: owned(root.path.as_str()), kind: WorkspaceKind::CargoWorkspace });
    }
    if npm_workspace_of(root) {
        out.push(WorkspaceInfo { name: owned(n.as_str()), root: owned(root.path.as_str()), kind: WorkspaceKind::NpmWorkspace });
    }
    if root.go_mod {
        out.push(WorkspaceInfo { name: owned(n.as_str()), root: owned(root.path.as_str()), kind: WorkspaceKind::GoModule });
    }
    assert(infos_view(out@) =~= root_workspaces(*root));
    let ghost head = infos_view(out@);
    let seen = examined_dirs(Walk::Workspaces, dirs);
    let mut i: usize = 0;
    assert(head =~= head + sub_workspaces_upto(dirs@, 0));
    while i < dirs.len()
        invariant
            i <= dirs.len(),
            seen.len() == dirs.len(),
            forall|k: int| 0 <= k < dirs.len() ==> seen@[k] == examined(Walk::Workspaces, dirs@, k),
            head == root_workspaces(*root),
            infos_view(out@) == head + sub_workspaces_upto(dirs@, i as int),
        decreases dirs.len() - i,
    {
        let d = &dirs[i];
        let ghost before = infos_view(out@);
        match workspace_kind_of(d) {
            Some(k) => if seen[i] {
                let w = WorkspaceInfo { name: name_of(d.path.as_str()), root: owned(d.path.as_str()), kind: k };
                out.push(w);
                assert(infos_view(out@) =~= before.push(info_view(w)));
            },
            None => {},
        }
        i += 1;
    }
    out
}

/// The directory is a sub-project the walk finds.
pub open spec fn found_project(dirs: Seq<DirFacts>, i: int) -> bool {
    0 <= i < dirs.len() && examined(Walk::Subprojects, dirs, i) && is_subproject(dirs[i])
}

/// The path is that of a sub-project the walk finds.
pub open spec fn project_path(dirs: Seq<DirFacts>, p: Seq<char>) -> bool {
    exists|i: int| #[trigger] found_project(dirs, i) && dirs[i].path@ == p
}

/// The paths are strictly increasing in `Path`'s order.
pub open spec fn path_sorted(v: Seq<Seq<char>>) -> bool {
    forall|i: int, j: int| 0 <= i < j < v.len() ==> path_lt(#[trigger] v[i], #[trigger] v[j])
}

/// What [`list_subprojects`] gives: the paths of the sub-projects the walk
/// finds, sorted by `Path`'s order with paths of equal components once.
pub open spec fn subprojects_listed(dirs: Seq<DirFacts>, r: Seq<Seq<char>>) -> bool {
    &&& path_sorted(r)
    &&& forall|k: int| 0 <= k < r.len() ==> #[trigger] project_path(dirs, r[k])
    &&& forall|i: int| #[trigger] found_project(dirs, i) ==> exists|k: int|
        0 <= k < r.len() && components(#[trigger] r[k]) == components(dirs[i].path@)
}

/// Insert a path into a sorted list unless a path of the same components is
/// there.
fn insert_sorted(v: &mut Vec<String>, p: String)
    requires
        path_sorted(strings_view(old(v)@)),
    ensures
        path_sorted(strings_view(final(v)@)),
        forall|k: int| 0 <= k < strings_view(final(v)@).len() ==> (#[trigger] strings_view(final(v)@)[k]) == p@
            || strings_view(old(v)@).contains(strings_view(final(v)@)[k]),
        forall|k: int| 0 <= k < strings_view(old(v)@).len() ==> strings_view(final(v)@).contains(#[trigger] strings_view(old(v)@)[k]),
        exists|k: int| 0 <= k < strings_view(final(v)@).len() && components(#[trigger] strings_view(final(v)@)[k]) == components(p@),
{
    let ghost ov = strings_view(v@);
    let ghost pv = p@;
    let mut k: usize = 0;
    while k < v.len()
        invariant_except_break
            k <= v.len(),
            pv == p@,
            ov == strings_view(v@),
            forall|j: int| 0 <= j < k ==> path_lt(#[trigger] ov[j], pv),
        invariant
            k <= v.len(),
            pv == p@,
            ov == strings_view(v@),
            forall|j: int| 0 <= j < k ==> path_lt(#[trigger] ov[j], pv),
        ensures
            k <= v.len(),
            forall|j: int| 0 <= j < k ==> path_lt(#[trigger] ov[j], pv),
            k < v.len() ==> !path_lt(ov[k as int], pv),
        decreases v.len() - k,
    {
        assert(ov[k as int] == v@[k as int]@);
        let c = compare_paths(v[k].as_str(), p.as_str());
        if c != -1 {
            break;
        }
        k += 1;
    }
    if k < v.len() {
        assert(ov[k as int] == v@[k as int]@);
        if compare_paths(v[k].as_str(), p.as_str()) == 0 {
            assert(components(ov[k as int]) == components(pv));
            assert forall|j: int| 0 <= j < ov.len() implies ov.contains(#[trigger] ov[j]) by {}
            return;
        }
        proof {
            let c = ov[k as int];
            lemma_comps_total(components(c), components(pv));
            assert(path_lt(pv, c));
            assert forall|j: int| k < j < ov.len() implies path_lt(pv, #[trigger] ov[j]) by {
                lemma_comps_transitive(components(pv), components(c), components(ov[j]));
            }
        }
    }
    v.insert(k, p);
    let ghost nv = strings_view(v@);
    assert(nv =~= ov.insert(k as int, pv));
    assert(path_sorted(nv)) by {
        assert forall|i: int, j: int| 0 <= i < j < nv.len() implies path_lt(#[trigger] nv[i], #[trigger] nv[j]) by {
            if j < k {
                assert(nv[i] == ov[i] && nv[j] == ov[j]);
            } else if j == k {
                assert(nv[i] == ov[i]);
            } else if i < k {
                assert(nv[i] == ov[i] && nv[j] == ov[j - 1]);
                lemma_comps_transitive(components(ov[i]), components(pv), components(ov[j - 1]));
            } else if i == k {
                assert(nv[j] == ov[j - 1]);
            } else {
                assert(nv[i] == ov[i - 1] && nv[j] == ov[j - 1]);
            }
        }
    }
    assert forall|j: int| 0 <= j < nv.len() implies (#[trigger] nv[j]) == pv || ov.contains(nv[j]) by {
        if j < k {
            assert(nv[j] == ov[j]);
        } else if j > k {
            assert(nv[j] == ov[j - 1]);
        }
    }
    assert forall|j: int| 0 <= j < ov.len() implies nv.contains(#[trigger] ov[j]) by {
        if j < k {
            assert(nv[j] == ov[j]);
        } else {
            assert(nv[j + 1] == ov[j]);
        }
    }
    assert(nv[k as int] == pv);
}

/// List the sub-projects of a workspace: the directories the walk of three
/// levels finds holding a `graxus.yaml`, a Cargo package that is not a
/// workspace root, a named `package.json` or a `go.mod`, sorted and without
/// repeats.
pub fn list_subprojects(dirs: &Vec<DirFacts>) -> (r: Vec<String>)
    ensures
        subprojects_listed(dirs@, strings_view(r@)),
{
    let seen = examined_dirs(Walk::Subprojects, dirs);
    let mut out: Vec<String> = Vec::new();
    let mut i: usize = 0;
    while i < dirs.len()
        invariant
            i <= dirs.len(),
            seen.len() == dirs.len(),
            forall|k: int| 0 <= k < dirs.len() ==> seen@[k] == examined(Walk::Subprojects, dirs@, k),
            path_sorted(strings_view(out@)),
            forall|k: int| 0 <= k < strings_view(out@).len() ==> #[trigger] project_path(dirs@, strings_view(out@)[k]),
            forall|j: int| #[trigger] found_project(dirs@, j) && j < i ==> exists|k: int|
                0 <= k < strings_view(out@).len() && components(#[trigger] strings_view(out@)[k]) == components(dirs@[j].path@),
        decreases dirs.len() - i,
    {
        let d = &dirs[i];
        if seen[i] && subproject_of(d) {
            let ghost before = strings_view(out@);
            let ghost pv = d.path@;
            assert(found_project(dirs@, i as int));
            insert_sorted(&mut out, owned(d.path.as_str()));
            let ghost after = strings_view(out@);
            assert forall|k: int| 0 <= k < after.len() implies #[trigger] project_path(dirs@, after[k]) by {
                if after[k] == pv {
                    assert(found_project(dirs@, i as int) && dirs@[i as int].path@ == after[k]);
                } else {
                    assert(before.contains(after[k]));
                    let m = choose|m: int| 0 <= m < before.len() && before[m] == after[k];
                    assert(project_path(dirs@, before[m]));
                }
            }
            assert forall|j: int| #[trigger] found_project(dirs@, j) && j < i + 1 implies exists|k: int|
                0 <= k < after.len() && components(#[trigger] after[k]) == components(dirs@[j].path@) by {
                if j < i {
                    let k0 = choose|k0: int| 0 <= k0 < before.len() && components(#[trigger] before[k0]) == components(dirs@[j].path@);
                    assert(after.contains(before[k0]));
                    let m = choose|m: int| 0 <= m < after.len() && after[m] == before[k0];
                    assert(components(after[m]) == components(dirs@[j].path@));
                }
            }
        } else {
            assert(!found_project(dirs@, i as int));
        }
        i += 1;
    }
    out
}

/// Which languages the sub-projects among the first `n` directories show:
/// Go, JavaScript, Python, Rust, TypeScript.
pub open spec fn project_languages(dirs: Seq<DirFacts>, n: int) -> (bool, bool, bool, bool, bool)
    decreases n,
{
    if n <= 0 {
        (false, false, false, false, false)
    } else {
        let (go, js, py, rs, ts) = project_languages(dirs, n - 1);
        let d = dirs[n - 1];
        if found_project(dirs, n - 1) {
            (
                go || d.go_mod,
                js || present(d.package_json),
                py || d.requirements_txt || d.pyproject_toml,
                rs || present(d.cargo_toml),
                ts || (present(d.package_json) && d.tsconfig_json),
            )
        } else {
            (go, js, py, rs, ts)
        }
    }
}

pub open spec fn lang_if(b: bool, name: Seq<char>) -> Seq<Seq<char>> {
    if b { seq![name] } else { Seq::empty() }
}

/// The languages of a workspace, in sorted order: `go`, `javascript`,
/// `python`, `rust` and `typescript`, each where the root (for TypeScript,
/// a sub-project) or a sub-project shows it.
pub open spec fn languages_spec(root: DirFacts, dirs: Seq<DirFacts>) -> Seq<Seq<char>> {
    let (go, js, py, rs, ts) = project_languages(dirs, dirs.len() as int);
    lang_if(root.go_mod || go, "go"@) + lang_if(present(root.package_json) || js, "javascript"@) + lang_if(
        root.requirements_txt || root.pyproject_toml || py,
        "python"@,
    ) + lang_if(present(root.cargo_toml) || rs, "rust"@) + lang_if(ts, "typescript"@)
}

/// The kind of a workspace root: a Cargo workspace, else an npm one, else
/// a Go workspace (`go.work`), else unknown.
pub open spec fn root_kind(root: DirFacts) -> WorkspaceKind {
    if cargo_workspace(root) {
        WorkspaceKind::CargoWorkspace
    } else if npm_workspace(root) {
        WorkspaceKind::NpmWorkspace
    } else if root.go_work {
        WorkspaceKind::GoModule
    } else {
        WorkspaceKind::Unknown
    }
}

fn push_if(v: &mut Vec<String>, b: bool, name: &str)
    ensures
        strings_view(final(v)@) == strings_view(old(v)@) + lang_if(b, name@),
{
    let ghost before = strings_view(v@);
    if b {
        v.push(owned(name));
        assert(strings_view(v@) =~= before + seq![name@]);
    } else {
        assert(strings_view(v@) =~= before + Seq::<Seq<char>>::empty());
    }
}

/// The languages of the root and its sub-projects.
fn languages_of(root: &DirFacts, dirs: &Vec<DirFacts>) -> (r: Vec<String>)
    ensures
        strings_view(r@) == languages_spec(*root, dirs@),
{
    let seen = examined_dirs(Walk::Subprojects, dirs);
    let mut go = false;
    let mut js = false;
    let mut py = false;
    let mut rs = false;
    let mut ts = false;
    let mut i: usize = 0;
    while i < dirs.len()
        invariant
            i <= dirs.len(),
            seen.len() == dirs.len(),
            forall|k: int| 0 <= k < dirs.len() ==> seen@[k] == examined(Walk::Subprojects, dirs@, k),
            (go, js, py, rs, ts) == project_languages(dirs@, i as int),
        decreases dirs.len() - i,
    {
        let d = &dirs[i];
        if seen[i] && subproject_of(d) {
            assert(found_project(dirs@, i as int));
            let has_cargo = match d.cargo_toml { Manifest::Absent => false, _ => true };
            let has_pkg = match d.package_json { Manifest::Absent => false, _ => true };
            go = go || d.go_mod;
            js = js || has_pkg;
            py = py || d.requirements_txt || d.pyproject_toml;
            rs = rs || has_cargo;
            ts = ts || (has_pkg && d.tsconfig_json);
        } else {
            assert(!found_project(dirs@, i as int));
        }
        i += 1;
    }
    let root_pkg = match root.package_json { Manifest::Absent => false, _ => true };
    let root_cargo = match root.cargo_toml { Manifest::Absent => false, _ => true };
    let mut out: Vec<String> = Vec::new();
    assert(strings_view(out@) =~= Seq::<Seq<char>>::empty());
    push_if(&mut out, root.go_mod || go, "go");
    push_if(&mut out, root_pkg || js, "javascript");
    push_if(&mut out, root.requirements_txt || root.pyproject_toml || py, "python");
    push_if(&mut out, root_cargo || rs, "rust");
    push_if(&mut out, ts, "typescript");
    out
}

/// Detect whether the root is a monorepo and gather its sub-projects, its
/// languages and the kind of its workspace.
pub fn detect_workspace(root: &DirFacts, dirs: &Vec<DirFacts>) -> (w: GraxusWorkspace)
    ensures
        w.root@ == root.path@,
        w.kind == root_kind(*root),
        subprojects_listed(dirs@, strings_view(w.sub_projects@)),
        w.is_monorepo == (w.sub_projects@.len() > 0),
        strings_view(w.languages@) == languages_spec(*root, dirs@),
{
    let kind = if cargo_workspace_of(root) {
        WorkspaceKind::CargoWorkspace
    } else if npm_workspace_of(root) {
        WorkspaceKind::NpmWorkspace
    } else if root.go_work {
        WorkspaceKind::GoModule
    } else {
        WorkspaceKind::Unknown
    };
    let sub_projects = list_subprojects(dirs);
    let langs = languages_of(root, dirs);
    let is_monorepo = sub_projects.len() > 0;
    GraxusWorkspace { is_monorepo, root: owned(root.path.as_str()), sub_projects, languages: langs, kind }
}

/// The root's own markers name its languages, whatever its sub-projects
/// are: `go.mod` gives Go, a `package.json` JavaScript, a
/// `requirements.txt` or a `pyproject.toml` Python, and a `Cargo.toml` Rust.
pub proof fn lemma_root_markers_name_languages(root: DirFacts, dirs: Seq<DirFacts>)
    ensures
        root.go_mod ==> languages_spec(root, dirs).contains("go"@),
        !(root.package_json is Absent) ==> languages_spec(root, dirs).contains("javascript"@),
        root.requirements_txt || root.pyproject_toml ==> languages_spec(root, dirs).contains("python"@),
        !(root.cargo_toml is Absent) ==> languages_spec(root, dirs).contains("rust"@),
{
    let f = project_languages(dirs, dirs.len() as int);
    let g = lang_if(root.go_mod || f.0, "go"@);
    let j = lang_if(present(root.package_json) || f.1, "javascript"@);
    let p = lang_if(root.requirements_txt || root.pyproject_toml || f.2, "python"@);
    let r = lang_if(present(root.cargo_toml) || f.3, "rust"@);
    let t = lang_if(f.4, "typescript"@);
    assert(languages_spec(root, dirs) == g + j + p + r + t);
    lemma_each_shown(g, j, p, r, t, root.go_mod || f.0, present(root.package_json) || f.1,
        root.requirements_txt || root.pyproject_toml || f.2, present(root.cargo_toml) || f.3);
}

proof fn lemma_each_shown(
    g: Seq<Seq<char>>,
    j: Seq<Seq<char>>,
    p: Seq<Seq<char>>,
    r: Seq<Seq<char>>,
    t: Seq<Seq<char>>,
    bg: bool,
    bj: bool,
    bp: bool,
    br: bool,
)
    requires
        g == lang_if(bg, "go"@),
        j == lang_if(bj, "javascript"@),
        p == lang_if(bp, "python"@),
        r == lang_if(br, "rust"@),
    ensures
        bg ==> (g + j + p + r + t).contains("go"@),
        bj ==> (g + j + p + r + t).contains("javascript"@),
        bp ==> (g + j + p + r + t).contains("python"@),
        br ==> (g + j + p + r + t).contains("rust"@),
{
    let l = g + j + p + r + t;
    if bg {
        assert(l[0] == "go"@);
    }
    if bj {
        assert(l[g.len() as int] == "javascript"@);
    }
    if bp {
        assert(l[(g.len() + j.len()) as int] == "python"@);
    }
    if br {
        assert(l[(g.len() + j.len() + p.len()) as int] == "rust"@);
    }
}

} // verus!
