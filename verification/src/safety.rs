//! Path and file safety checks for read and edit operations.
//!
//! Paths are Unix paths given as text. The checks that need the file system
//! (resolving symbolic links) take the canonical forms as arguments: the
//! caller canonicalizes the paths that [`canonical_target`] names.
use vstd::prelude::*;
use crate::paths::{
    components, file_name, file_name_spec, join, join_spec, normalize_canonical,
    normalize_canonical_spec, path_components, path_starts_with, starts_with_path, strings_view,
};
use crate::text::{ends_with, is_prefix, is_suffix, starts_with, str_eq};

verus! {

/// Maximum file size allowed for edit operations (10 MiB).
pub const MAX_EDIT_FILE_SIZE: u64 = 10 * 1024 * 1024;

fn has_component(path: &str, name: &str) -> (b: bool)
    ensures
        b == components(path@).contains(name@),
{
    let cs = path_components(path);
    let mut i: usize = 0;
    while i < cs.len()
        invariant
            i <= cs.len(),
            strings_view(cs@) == components(path@),
            forall|k: int| 0 <= k < i ==> strings_view(cs@)[k] != name@,
        decreases cs.len() - i,
    {
        if str_eq(cs[i].as_str(), name) {
            assert(strings_view(cs@)[i as int] == name@);
            return true;
        }
        i += 1;
    }
    false
}

/// The path goes through a `.git` directory.
pub open spec fn in_git_dir(p: Seq<char>) -> bool {
    components(p).contains(".git"@)
}

fn contains_git_dir(path: &str) -> (b: bool)
    ensures
        b == in_git_dir(path@),
{
    has_component(path, ".git")
}

/// Returns `true` if the path is safe to read: it does not go into a `.git`
/// directory.
pub fn is_safe_to_read(path: &str) -> (b: bool)
    ensures
        b == !in_git_dir(path@),
{
    !contains_git_dir(path)
}

/// A file name that edits must leave alone: a lock file (`*.lock`) or an
/// environment file (`.env`, `.env.*`).
pub open spec fn protected_name(name: Seq<char>) -> bool {
    is_suffix(".lock"@, name) || name == ".env"@ || is_prefix(".env."@, name)
}

/// The file name of a path, empty where it has none.
pub open spec fn name_or_empty(p: Seq<char>) -> Seq<char> {
    match file_name_spec(p) {
        Some(n) => n,
        None => Seq::empty(),
    }
}

/// Returns `true` if the path is safe to edit: not in a `.git` directory,
/// not a lock file and not an environment file.
pub fn is_safe_to_edit(path: &str) -> (b: bool)
    ensures
        b == (!in_git_dir(path@) && !protected_name(name_or_empty(path@))),
{
    if contains_git_dir(path) {
        return false;
    }
    let name = match file_name(path) {
        Some(n) => n,
        None => {
            proof {
                reveal_strlit(".lock");
                reveal_strlit(".env");
                reveal_strlit(".env.");
            }
            assert(".lock"@.len() == 5 && ".env"@.len() == 4 && ".env."@.len() == 5);
            assert(name_or_empty(path@) =~= Seq::<char>::empty());
            assert(!protected_name(Seq::<char>::empty()));
            return true;
        },
    };
    let n = name.as_str();
    !(ends_with(n, ".lock") || str_eq(n, ".env") || starts_with(n, ".env."))
}

/// The path has a `..` component.
pub open spec fn has_parent_component(p: Seq<char>) -> bool {
    components(p).contains(".."@)
}

/// Returns `true` if the path has a `..` (parent directory) component.
pub fn has_parent_traversal(path: &str) -> (b: bool)
    ensures
        b == has_parent_component(path@),
{
    has_component(path, "..")
}

/// The path is absolute: it starts at the root.
pub open spec fn is_absolute(p: Seq<char>) -> bool {
    p.len() > 0 && p[0] == '/'
}

/// The path whose canonical form decides whether `path` stays within
/// `root`: `path` itself when absolute, `root` joined with `path` when it
/// has a `..` component, and none when the path is a plain relative one.
pub open spec fn canonical_target_spec(path: Seq<char>, root: Seq<char>) -> Option<Seq<char>> {
    if is_absolute(path) {
        Some(path)
    } else if has_parent_component(path) {
        Some(join_spec(root, path))
    } else {
        None
    }
}

pub fn canonical_target(path: &str, root: &str) -> (r: Option<String>)
    ensures
        match r {
            Some(t) => canonical_target_spec(path@, root@) == Some(t@),
            None => canonical_target_spec(path@, root@) is None,
        },
{
    let v = crate::text::chars_of(path);
    if v.len() > 0 && v[0] == '/' {
        return Some(crate::text::owned(path));
    }
    if has_parent_traversal(path) {
        return Some(join(root, path));
    }
    None
}

/// Whether `path` stays within `root`, given the canonical forms of `root`
/// and of the path that [`canonical_target`] names (`None` where
/// canonicalization failed).
///
/// An absolute path must lie under the root after resolution; one that
/// cannot be resolved is compared with the root as written. A relative path
/// with `..` must resolve under the resolved root, and is refused when it
/// cannot be resolved. A plain relative path stays within the root.
pub open spec fn within_root_spec(
    path: Seq<char>,
    root: Seq<char>,
    canonical_root: Option<Seq<char>>,
    canonical_target: Option<Seq<char>>,
) -> bool {
    if is_absolute(path) {
        match canonical_root {
            None => false,
            Some(r) => match canonical_target {
                Some(t) => path_starts_with(normalize_canonical_spec(t), normalize_canonical_spec(r)),
                None => path_starts_with(path, root),
            },
        }
    } else if has_parent_component(path) {
        match (canonical_root, canonical_target) {
            (Some(r), Some(t)) => path_starts_with(normalize_canonical_spec(t), normalize_canonical_spec(r)),
            _ => false,
        }
    } else {
        true
    }
}

pub open spec fn opt_str(o: Option<&str>) -> Option<Seq<char>> {
    match o {
        Some(s) => Some(s@),
        None => None,
    }
}

/// Check that a path is safe to operate on within the project root.
///
/// Unlike [`is_safe_path`], this works for paths that may not exist yet.
pub fn is_path_within_root(
    path: &str,
    root: &str,
    canonical_root: Option<&str>,
    canonical_target: Option<&str>,
) -> (b: bool)
    ensures
        b == within_root_spec(path@, root@, opt_str(canonical_root), opt_str(canonical_target)),
{
    let v = crate::text::chars_of(path);
    if v.len() > 0 && v[0] == '/' {
        return match canonical_root {
            None => false,
            Some(r) => match canonical_target {
                Some(t) => {
                    let t = normalize_canonical(t);
                    let r = normalize_canonical(r);
                    starts_with_path(t.as_str(), r.as_str())
                },
                None => starts_with_path(path, root),
            },
        };
    }
    if has_parent_traversal(path) {
        return match (canonical_root, canonical_target) {
            (Some(r), Some(t)) => {
                let t = normalize_canonical(t);
                let r = normalize_canonical(r);
                starts_with_path(t.as_str(), r.as_str())
            },
            _ => false,
        };
    }
    true
}

/// Whether a path lies within the root after resolving symbolic links and
/// `..`, given the canonical forms of both (`None` where canonicalization
/// failed, as for a path that does not exist).
pub open spec fn safe_path_spec(canonical_root: Option<Seq<char>>, canonical_path: Option<Seq<char>>) -> bool {
    match (canonical_root, canonical_path) {
        (Some(r), Some(p)) => path_starts_with(normalize_canonical_spec(p), normalize_canonical_spec(r)),
        _ => false,
    }
}

pub fn is_safe_path(canonical_root: Option<&str>, canonical_path: Option<&str>) -> (b: bool)
    ensures
        b == safe_path_spec(opt_str(canonical_root), opt_str(canonical_path)),
{
    match (canonical_root, canonical_path) {
        (Some(r), Some(p)) => {
            let p = normalize_canonical(p);
            let r = normalize_canonical(r);
            starts_with_path(p.as_str(), r.as_str())
        },
        _ => false,
    }
}

/// Returns `true` if the file size is within the limit for edits; files
/// larger than [`MAX_EDIT_FILE_SIZE`] are refused.
pub fn is_safe_file_size(size: u64) -> (ok: bool)
    ensures
        ok == (size <= MAX_EDIT_FILE_SIZE),
{
    size <= MAX_EDIT_FILE_SIZE
}

} // verus!
