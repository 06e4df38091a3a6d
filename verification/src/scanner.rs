//! What the project scan keeps and how two scans differ.
//!
//! The walk of the project tree, the reading of metadata and the hashing of
//! files happen outside this library; here a file found by the walk is
//! kept or left by the wanted and unwanted glob sets of the configuration
//! and by its extension, the kept files are split by kind, and a new scan
//! is compared with a saved one.
use vstd::prelude::*;
use crate::file_types::{binary_extension, lower_extension, is_binary, FileKind, Language};
use crate::paths::strings_view;
use crate::pattern::PatternError;
use crate::text::{owned, str_eq};

verus! {

// ── Glob sets ──────────────────────────────────────────────────────────

#[verifier::external_type_specification]
#[verifier::external_body]
pub struct ExGlobSet(globset::GlobSet);

/// Whether `globset` accepts every pattern and builds a set of them.
pub uninterp spec fn glob_set_valid(patterns: Seq<Seq<char>>) -> bool;

/// The reason `globset` gives for refusing the patterns.
pub uninterp spec fn glob_set_error(patterns: Seq<Seq<char>>) -> Seq<char>;

/// Whether some pattern of the set matches the path.
pub uninterp spec fn glob_set_matches(patterns: Seq<Seq<char>>, path: Seq<char>) -> bool;

/// `globset::Glob::new` of each pattern, added in order to a
/// `GlobSetBuilder`, then `GlobSetBuilder::build`: it succeeds exactly on
/// the patterns that `globset` accepts, and a refusal carries the text of
/// the crate's error.
#[verifier::external_body]
fn glob_set_new(patterns: &Vec<String>) -> (r: Result<globset::GlobSet, String>)
    ensures
        r is Ok <==> glob_set_valid(strings_view(patterns@)),
        r matches Err(e) ==> e@ == glob_set_error(strings_view(patterns@)),
{
    let mut builder = globset::GlobSetBuilder::new();
    for pattern in patterns.iter() {
        match globset::Glob::new(pattern) {
            Ok(glob) => {
                builder.add(glob);
            },
            Err(e) => return Err(e.to_string()),
        }
    }
    builder.build().map_err(|e| e.to_string())
}

/// A glob set together with the patterns it was built from.
pub struct GlobPatterns {
    patterns: Vec<String>,
    set: globset::GlobSet,
}

fn copy_strings(v: &Vec<String>) -> (r: Vec<String>)
    ensures
        strings_view(r@) == strings_view(v@),
{
    let mut r: Vec<String> = Vec::new();
    let mut k: usize = 0;
    while k < v.len()
        invariant
            k <= v.len(),
            strings_view(r@) == strings_view(v@).take(k as int),
        decreases v.len() - k,
    {
        let ghost before = strings_view(r@);
        r.push(owned(v[k].as_str()));
        assert(strings_view(r@) =~= before.push(v@[k as int]@));
        assert(strings_view(v@).take(k + 1) =~= strings_view(v@).take(k as int).push(v@[k as int]@));
        k += 1;
    }
    assert(strings_view(v@).take(v.len() as int) =~= strings_view(v@));
    r
}

impl GlobPatterns {
    /// The patterns of the set.
    pub closed spec fn patterns(&self) -> Seq<Seq<char>> {
        strings_view(self.patterns@)
    }

    /// Builds the set of the patterns.
    pub fn new(patterns: &Vec<String>) -> (r: Result<GlobPatterns, PatternError>)
        ensures
            r is Ok <==> glob_set_valid(strings_view(patterns@)),
            r matches Ok(g) ==> g.patterns() == strings_view(patterns@),
            r matches Err(e) ==> e.message@ == glob_set_error(strings_view(patterns@)),
    {
        match glob_set_new(patterns) {
            Ok(set) => Ok(GlobPatterns { patterns: copy_strings(patterns), set }),
            Err(message) => Err(PatternError { message }),
        }
    }

    /// Whether the set has no pattern.
    pub fn is_empty(&self) -> (b: bool)
        ensures
            b == (self.patterns().len() == 0),
    {
        self.patterns.len() == 0
    }

    /// `GlobSet::is_match` of the path.
    #[verifier::external_body]
    pub fn is_match(&self, path: &str) -> (b: bool)
        ensures
            b == glob_set_matches(self.patterns(), path@),
    {
        self.set.is_match(path)
    }
}

// ── What the scan keeps ────────────────────────────────────────────────

/// A file of the walk is kept when the set of wanted patterns is empty or matches its
/// relative path, the unwanted set is empty or does not match it, and its
/// extension is not that of a binary file.
pub open spec fn kept(wanted: Seq<Seq<char>>, unwanted: Seq<Seq<char>>, rel: Seq<char>) -> bool {
    &&& (wanted.len() == 0 || glob_set_matches(wanted, rel))
    &&& !(unwanted.len() > 0 && glob_set_matches(unwanted, rel))
    &&& !binary_extension(lower_extension(rel))
}

/// The wanted and unwanted sets of a scan.
pub struct ScanFilter {
    wanted: GlobPatterns,
    unwanted: GlobPatterns,
}

impl ScanFilter {
    pub closed spec fn wanted(&self) -> Seq<Seq<char>> {
        self.wanted.patterns()
    }

    pub closed spec fn unwanted(&self) -> Seq<Seq<char>> {
        self.unwanted.patterns()
    }

    /// Builds the two sets: refused where either is, the set of wanted patterns's
    /// reason first.
    pub fn new(wanted: &Vec<String>, unwanted: &Vec<String>) -> (r: Result<ScanFilter, PatternError>)
        ensures
            r is Ok <==> glob_set_valid(strings_view(wanted@)) && glob_set_valid(strings_view(unwanted@)),
            r matches Ok(f) ==> f.wanted() == strings_view(wanted@) && f.unwanted() == strings_view(unwanted@),
            r matches Err(e) ==> e.message@ == if !glob_set_valid(strings_view(wanted@)) {
                glob_set_error(strings_view(wanted@))
            } else {
                glob_set_error(strings_view(unwanted@))
            },
    {
        let inc = match GlobPatterns::new(wanted) {
            Ok(g) => g,
            Err(e) => return Err(e),
        };
        let exc = match GlobPatterns::new(unwanted) {
            Ok(g) => g,
            Err(e) => return Err(e),
        };
        Ok(ScanFilter { wanted: inc, unwanted: exc })
    }

    /// Whether the scan keeps the file with this relative path.
    pub fn keeps(&self, rel: &str) -> (b: bool)
        ensures
            b == kept(self.wanted(), self.unwanted(), rel@),
    {
        if !self.wanted.is_empty() && !self.wanted.is_match(rel) {
            return false;
        }
        if !self.unwanted.is_empty() && self.unwanted.is_match(rel) {
            return false;
        }
        !is_binary(rel)
    }
}

/// Whether the scan keeps the file with this relative path under the
/// wanted and unwanted patterns; refused where a pattern set is.
pub fn keep_scanned(rel: &str, wanted: &Vec<String>, unwanted: &Vec<String>) -> (r: Result<bool, PatternError>)
    ensures
        r is Ok <==> glob_set_valid(strings_view(wanted@)) && glob_set_valid(strings_view(unwanted@)),
        r matches Ok(b) ==> b == kept(strings_view(wanted@), strings_view(unwanted@), rel@),
        r matches Err(e) ==> e.message@ == if !glob_set_valid(strings_view(wanted@)) {
            glob_set_error(strings_view(wanted@))
        } else {
            glob_set_error(strings_view(unwanted@))
        },
{
    match ScanFilter::new(wanted, unwanted) {
        Ok(f) => Ok(f.keeps(rel)),
        Err(e) => Err(e),
    }
}

// ── Scanned files ──────────────────────────────────────────────────────

/// A file found by the scan, with its metadata and hash.
pub struct ScannedFile {
    pub path: String,
    pub relative_path: String,
    pub kind: FileKind,
    pub language: Language,
    pub hash: String,
    pub size: u64,
    /// When the file was last modified, as an RFC 3339 timestamp.
    pub modified: String,
}

pub struct ScannedView {
    pub path: Seq<char>,
    pub relative_path: Seq<char>,
    pub kind: FileKind,
    pub language: Language,
    pub hash: Seq<char>,
    pub size: u64,
    pub modified: Seq<char>,
}

impl View for ScannedFile {
    type V = ScannedView;

    open spec fn view(&self) -> ScannedView {
        ScannedView {
            path: self.path@,
            relative_path: self.relative_path@,
            kind: self.kind,
            language: self.language,
            hash: self.hash@,
            size: self.size,
            modified: self.modified@,
        }
    }
}

pub open spec fn scanned_views(v: Seq<ScannedFile>) -> Seq<ScannedView> {
    v.map_values(|f: ScannedFile| f@)
}

/// A copy of a scanned file.
pub fn copy_file(f: &ScannedFile) -> (r: ScannedFile)
    ensures
        r@ == f@,
{
    ScannedFile {
        path: owned(f.path.as_str()),
        relative_path: owned(f.relative_path.as_str()),
        kind: f.kind,
        language: f.language,
        hash: owned(f.hash.as_str()),
        size: f.size,
        modified: owned(f.modified.as_str()),
    }
}

/// The files of one kind, in order.
pub open spec fn of_kind(files: Seq<ScannedView>, kind: FileKind) -> Seq<ScannedView> {
    files.filter(|f: ScannedView| f.kind == kind)
}

/// The scanned files split into documentation, code and configuration, in
/// order; files of unknown kind are left out.
pub fn split_by_kind(files: &Vec<ScannedFile>) -> (r: (Vec<ScannedFile>, Vec<ScannedFile>, Vec<ScannedFile>))
    ensures
        scanned_views(r.0@) == of_kind(scanned_views(files@), FileKind::Doc),
        scanned_views(r.1@) == of_kind(scanned_views(files@), FileKind::Code),
        scanned_views(r.2@) == of_kind(scanned_views(files@), FileKind::Config),
{
    let ghost fv = scanned_views(files@);
    let mut docs: Vec<ScannedFile> = Vec::new();
    let mut code: Vec<ScannedFile> = Vec::new();
    let mut config: Vec<ScannedFile> = Vec::new();
    let mut k: usize = 0;
    while k < files.len()
        invariant
            k <= files.len(),
            fv == scanned_views(files@),
            scanned_views(docs@) == of_kind(fv.take(k as int), FileKind::Doc),
            scanned_views(code@) == of_kind(fv.take(k as int), FileKind::Code),
            scanned_views(config@) == of_kind(fv.take(k as int), FileKind::Config),
        decreases files.len() - k,
    {
        let f = copy_file(&files[k]);
        let ghost fw = f@;
        assert(fv.take(k + 1) =~= fv.take(k as int).push(fv[k as int]));
        assert(fv[k as int] == fw);
        reveal(Seq::filter);
        assert(fv.take(k + 1).drop_last() =~= fv.take(k as int));
        let ghost (d0, c0, g0) = (scanned_views(docs@), scanned_views(code@), scanned_views(config@));
        match f.kind {
            FileKind::Doc => {
                docs.push(f);
                assert(scanned_views(docs@) =~= d0.push(fw));
            },
            FileKind::Code => {
                code.push(f);
                assert(scanned_views(code@) =~= c0.push(fw));
            },
            FileKind::Config => {
                config.push(f);
                assert(scanned_views(config@) =~= g0.push(fw));
            },
            FileKind::Unknown => {},
        }
        k += 1;
    }
    assert(fv.take(files.len() as int) =~= fv);
    (docs, code, config)
}

// ── Differences between scans ──────────────────────────────────────────

/// The last file with the relative path, where one has it: a later file of
/// one path stands for the earlier ones.
pub open spec fn last_with(files: Seq<ScannedView>, rel: Seq<char>) -> Option<int>
    decreases files.len(),
{
    if files.len() == 0 {
        None
    } else if files.last().relative_path == rel {
        Some(files.len() - 1)
    } else {
        last_with(files.drop_last(), rel)
    }
}

/// The file at `k` is the one that stands for its path.
pub open spec fn stands(files: Seq<ScannedView>, k: int) -> bool {
    last_with(files, files[k].relative_path) == Some(k)
}

/// The files of the new scan, among the first `n`, whose path the old scan
/// lacks.
pub open spec fn added_upto(old: Seq<ScannedView>, new: Seq<ScannedView>, n: int) -> Seq<ScannedView>
    decreases n,
{
    if n <= 0 {
        Seq::empty()
    } else {
        let prev = added_upto(old, new, n - 1);
        let f = new[n - 1];
        if stands(new, n - 1) && last_with(old, f.relative_path) is None { prev.push(f) } else { prev }
    }
}

/// The files of the new scan, among the first `n`, whose path the old scan
/// has with another hash.
pub open spec fn modified_upto(old: Seq<ScannedView>, new: Seq<ScannedView>, n: int) -> Seq<ScannedView>
    decreases n,
{
    if n <= 0 {
        Seq::empty()
    } else {
        let prev = modified_upto(old, new, n - 1);
        let f = new[n - 1];
        if stands(new, n - 1) && (last_with(old, f.relative_path) matches Some(j) && old[j].hash != f.hash) {
            prev.push(f)
        } else {
            prev
        }
    }
}

/// The paths of the old scan, among its first `n` files, that the new scan
/// lacks.
pub open spec fn deleted_upto(old: Seq<ScannedView>, new: Seq<ScannedView>, n: int) -> Seq<Seq<char>>
    decreases n,
{
    if n <= 0 {
        Seq::empty()
    } else {
        let prev = deleted_upto(old, new, n - 1);
        let f = old[n - 1];
        if stands(old, n - 1) && last_with(new, f.relative_path) is None { prev.push(f.relative_path) } else { prev }
    }
}

/// The difference between an old scan and a new one.
pub struct FileDiff {
    pub added: Vec<ScannedFile>,
    pub modified: Vec<ScannedFile>,
    /// Relative paths.
    pub deleted: Vec<String>,
}

/// The last file of the list with the relative path.
fn last_index(files: &Vec<ScannedFile>, rel: &str) -> (r: Option<usize>)
    ensures
        match r {
            Some(k) => last_with(scanned_views(files@), rel@) == Some(k as int) && k < files.len(),
            None => last_with(scanned_views(files@), rel@) is None,
        },
{
    let ghost fv = scanned_views(files@);
    let mut n: usize = files.len();
    assert(fv.take(n as int) =~= fv);
    while n > 0
        invariant
            n <= files.len(),
            fv == scanned_views(files@),
            last_with(fv, rel@) == last_with(fv.take(n as int), rel@),
        decreases n,
    {
        assert(fv.take(n as int).drop_last() =~= fv.take(n - 1));
        assert(fv.take(n as int).last() == fv[n - 1]);
        if str_eq(files[n - 1].relative_path.as_str(), rel) {
            return Some(n - 1);
        }
        n -= 1;
    }
    None
}

/// Compare an old scan with a new one: the files of the new scan whose path
/// is new, those whose hash changed, and the paths that are gone. Where a
/// scan lists a path twice, its last file stands for it.
pub fn compute_diff(old_files: &Vec<ScannedFile>, new_files: &Vec<ScannedFile>) -> (d: FileDiff)
    ensures
        scanned_views(d.added@) == added_upto(
            scanned_views(old_files@),
            scanned_views(new_files@),
            new_files.len() as int,
        ),
        scanned_views(d.modified@) == modified_upto(
            scanned_views(old_files@),
            scanned_views(new_files@),
            new_files.len() as int,
        ),
        strings_view(d.deleted@) == deleted_upto(
            scanned_views(old_files@),
            scanned_views(new_files@),
            old_files.len() as int,
        ),
{
    let ghost ov = scanned_views(old_files@);
    let ghost nv = scanned_views(new_files@);
    let mut added: Vec<ScannedFile> = Vec::new();
    let mut modified: Vec<ScannedFile> = Vec::new();
    let mut k: usize = 0;
    while k < new_files.len()
        invariant
            k <= new_files.len(),
            ov == scanned_views(old_files@),
            nv == scanned_views(new_files@),
            scanned_views(added@) == added_upto(ov, nv, k as int),
            scanned_views(modified@) == modified_upto(ov, nv, k as int),
        decreases new_files.len() - k,
    {
        let f = &new_files[k];
        let ghost fw = nv[k as int];
        assert(f@ == fw);
        let this = last_index(new_files, f.relative_path.as_str());
        let stands_here = match this {
            Some(j) => j == k,
            None => false,
        };
        if stands_here {
            let ghost a0 = scanned_views(added@);
            let ghost m0 = scanned_views(modified@);
            match last_index(old_files, f.relative_path.as_str()) {
                None => {
                    added.push(copy_file(f));
                    assert(scanned_views(added@) =~= a0.push(fw));
                },
                Some(j) => {
                    assert(ov[j as int] == old_files@[j as int]@);
                    if !str_eq(old_files[j].hash.as_str(), f.hash.as_str()) {
                        modified.push(copy_file(f));
                        assert(scanned_views(modified@) =~= m0.push(fw));
                    }
                },
            }
        }
        k += 1;
    }
    let mut deleted: Vec<String> = Vec::new();
    let mut k: usize = 0;
    while k < old_files.len()
        invariant
            k <= old_files.len(),
            ov == scanned_views(old_files@),
            nv == scanned_views(new_files@),
            strings_view(deleted@) == deleted_upto(ov, nv, k as int),
        decreases old_files.len() - k,
    {
        let f = &old_files[k];
        let ghost fw = ov[k as int];
        assert(f@ == fw);
        let this = last_index(old_files, f.relative_path.as_str());
        let stands_here = match this {
            Some(j) => j == k,
            None => false,
        };
        if stands_here {
            if last_index(new_files, f.relative_path.as_str()).is_none() {
                let ghost d0 = strings_view(deleted@);
                deleted.push(owned(f.relative_path.as_str()));
                assert(strings_view(deleted@) =~= d0.push(fw.relative_path));
            }
        }
        k += 1;
    }
    FileDiff { added, modified, deleted }
}

/// A scan compared with itself shows no change: nothing added, modified
/// or deleted.
pub proof fn lemma_diff_of_same_scan(v: Seq<ScannedView>, n: int)
    requires
        0 <= n <= v.len(),
    ensures
        added_upto(v, v, n).len() == 0,
        modified_upto(v, v, n).len() == 0,
        deleted_upto(v, v, n).len() == 0,
    decreases n,
{
    if n > 0 {
        lemma_diff_of_same_scan(v, n - 1);
    }
}

} // verus!
