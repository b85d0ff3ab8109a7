//! Which git files a build watches so that its recorded provenance is
//! refreshed when the checkout moves.

use vstd::prelude::*;
use crate::text::{chars_of, starts_with, str_starts_with, string_of, trim, trim_str};

verus! {

/// The text after a prefix, trimmed, when the trimmed text starts with it.
pub open spec fn after_prefix(text: Seq<char>, prefix: Seq<char>) -> Option<Seq<char>> {
    let t = trim(text);
    if starts_with(t, prefix) {
        Some(trim(t.subrange(prefix.len() as int, t.len() as int)))
    } else {
        None
    }
}

fn after_prefix_exec(text: &str, prefix: &str) -> (r: Option<String>)
    ensures
        opt_view_eq(r, after_prefix(text@, prefix@)),
{
    let t = trim_str(text);
    if !str_starts_with(t.as_str(), prefix) {
        return None;
    }
    let cs = chars_of(t.as_str());
    let p = chars_of(prefix);
    let rest = string_of(crate::text::slice_chars(&cs, p.len(), cs.len()).as_slice());
    Some(trim_str(rest.as_str()))
}

/// An optional string and an optional text agree.
pub open spec fn opt_view_eq(a: Option<String>, b: Option<Seq<char>>) -> bool {
    crate::text::opt_view(a) == b
}

/// The git directory named by a `.git` file (`gitdir: <path>`), when the
/// file says so.
pub fn gitdir_from_text(text: &str) -> (r: Option<String>)
    ensures
        opt_view_eq(r, after_prefix(text@, "gitdir:"@)),
{
    after_prefix_exec(text, "gitdir:")
}

/// The branch a `HEAD` file points to (`ref: <name>`), when it points to
/// one.
pub open spec fn head_reference(text: Seq<char>) -> Option<Seq<char>> {
    match after_prefix(text, "ref:"@) {
        Some(r) => if r.len() == 0 {
            None
        } else {
            Some(r)
        },
        None => None,
    }
}

/// The branch a `HEAD` file points to.
pub fn head_reference_from_text(text: &str) -> (r: Option<String>)
    ensures
        opt_view_eq(r, head_reference(text@)),
{
    match after_prefix_exec(text, "ref:") {
        Some(r) => if chars_of(r.as_str()).len() == 0 {
            None
        } else {
            Some(r)
        },
        None => None,
    }
}

/// The git directory of a checkout: `.git` itself when it is a directory,
/// else the path its `gitdir:` line names, under the checkout when
/// relative. `dot_git_is_dir` and `dot_git_text` are what the file system
/// said of `.git`.
pub open spec fn git_dir_of(repo_root: Seq<char>, dot_git_is_dir: bool, dot_git_text: Option<Seq<char>>) -> Option<
    Seq<char>,
> {
    let dot_git = crate::paths::path_join(repo_root, ".git"@);
    if dot_git_is_dir {
        Some(dot_git)
    } else {
        match dot_git_text {
            None => None,
            Some(t) => match after_prefix(t, "gitdir:"@) {
                None => None,
                Some(g) => if crate::paths::path_is_absolute(g) {
                    Some(g)
                } else {
                    Some(crate::paths::path_join(repo_root, g))
                },
            },
        }
    }
}

/// The git directory of a checkout.
pub fn resolve_git_dir(repo_root: &str, dot_git_is_dir: bool, dot_git_text: Option<&str>) -> (r: Option<String>)
    ensures
        opt_view_eq(
            r,
            git_dir_of(
                repo_root@,
                dot_git_is_dir,
                match dot_git_text {
                    Some(t) => Some(t@),
                    None => None,
                },
            ),
        ),
{
    let dot_git = crate::paths::join_path(repo_root, ".git");
    if dot_git_is_dir {
        return Some(dot_git);
    }
    let t = match dot_git_text {
        None => {
            return None;
        },
        Some(t) => t,
    };
    match gitdir_from_text(t) {
        None => None,
        Some(g) => if crate::paths::is_absolute_path(g.as_str()) {
            Some(g)
        } else {
            Some(crate::paths::join_path(repo_root, g.as_str()))
        },
    }
}

/// The files a build watches under a git directory: `HEAD`,
/// `packed-refs`, `index` and `logs/HEAD`, then the branch `HEAD` points to
/// and its log, when it points to one.
pub open spec fn watch_paths(git_dir: Seq<char>, reference: Option<Seq<char>>) -> Seq<Seq<char>> {
    let j = |r: Seq<char>| crate::paths::path_join(git_dir, r);
    let logs = crate::paths::path_join(git_dir, "logs"@);
    seq![j("HEAD"@), j("packed-refs"@), j("index"@), crate::paths::path_join(logs, "HEAD"@)] + match reference {
        Some(r) => seq![j(r), crate::paths::path_join(logs, r)],
        None => Seq::empty(),
    }
}

/// The git files a build watches; none without a git directory.
pub fn collect_git_watch_paths(git_dir: Option<&str>, head_text: Option<&str>) -> (r: Vec<String>)
    ensures
        crate::text::strings_view(r@) == match git_dir {
            None => Seq::empty(),
            Some(g) => watch_paths(
                g@,
                match head_text {
                    Some(h) => head_reference(h@),
                    None => None,
                },
            ),
        },
{
    let g = match git_dir {
        None => {
            return Vec::new();
        },
        Some(g) => g,
    };
    let logs = crate::paths::join_path(g, "logs");
    let mut paths: Vec<String> = Vec::new();
    paths.push(crate::paths::join_path(g, "HEAD"));
    paths.push(crate::paths::join_path(g, "packed-refs"));
    paths.push(crate::paths::join_path(g, "index"));
    paths.push(crate::paths::join_path(logs.as_str(), "HEAD"));
    let reference = match head_text {
        Some(h) => head_reference_from_text(h),
        None => None,
    };
    match &reference {
        Some(r) => {
            paths.push(crate::paths::join_path(g, r.as_str()));
            paths.push(crate::paths::join_path(logs.as_str(), r.as_str()));
        },
        None => {},
    }
    let ghost want = watch_paths(
        g@,
        match head_text {
            Some(h) => head_reference(h@),
            None => None,
        },
    );
    assert(crate::text::strings_view(paths@) =~= want);
    paths
}

} // verus!
