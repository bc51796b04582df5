//! The worktrees of the repository, as far as the core looks at them.
use crate::error::{is_config, is_invalid_data, MaestroError};
use crate::text::{blank, is_blank, opt_view, same_text, text_of, trim, trim_text};
use vstd::prelude::*;
use vstd::string::*;

verus! {

/// Branch naming convention for new worktrees.
pub const SETTING_BRANCH_TEMPLATE: &'static str = "branch_template";

/// Where worktrees are created.
pub const SETTING_WORKTREE_ROOT: &'static str = "worktree_root";

/// A worktree and the branch that is checked out in it.
#[derive(Debug)]
pub struct WorktreeRef {
    pub branch: Option<String>,
    pub path: String,
}

/// The path of the first worktree that has `branch` checked out.
pub open spec fn worktree_of(list: Seq<WorktreeRef>, branch: Seq<char>, i: int) -> Option<
    Seq<char>,
>
    decreases list.len() - i,
{
    if i < 0 || i >= list.len() {
        None
    } else if opt_view(list[i].branch) == Some(branch) {
        Some(list[i].path@)
    } else {
        worktree_of(list, branch, i + 1)
    }
}

/// The path of the worktree that has `branch` checked out.
pub fn worktree_path<'a>(list: &'a Vec<WorktreeRef>, branch: &str) -> (r: Option<&'a str>)
    ensures
        match r {
            Some(p) => worktree_of(list@, branch@, 0) == Some(p@),
            None => worktree_of(list@, branch@, 0) is None,
        },
{
    let mut i: usize = 0;
    while i < list.len()
        invariant
            i <= list@.len(),
            worktree_of(list@, branch@, 0) == worktree_of(list@, branch@, i as int),
        decreases list@.len() - i,
    {
        let hit: bool = match &list[i].branch {
            Some(b) => same_text(b.as_str(), branch),
            None => false,
        };
        if hit {
            return Some(list[i].path.as_str());
        }
        i += 1;
    }
    None
}

pub open spec fn no_worktree_text(branch: Seq<char>) -> Seq<char> {
    "no worktree for branch: "@ + branch
}

pub fn no_worktree(branch: &str) -> (e: MaestroError)
    ensures
        is_invalid_data(e, no_worktree_text(branch@)),
{
    MaestroError::InvalidData { message: text_of("no worktree for branch: ").concat(branch) }
}

/// The path of the worktree that has `branch` checked out; an error where there is none.
pub fn require_worktree(list: &Vec<WorktreeRef>, branch: &str) -> (r: Result<String, MaestroError>)
    ensures
        match worktree_of(list@, branch@, 0) {
            Some(p) => r matches Ok(path) && path@ == p,
            None => r matches Err(e) && is_invalid_data(e, no_worktree_text(branch@)),
        },
{
    match worktree_path(list, branch) {
        Some(p) => Ok(text_of(p)),
        None => Err(no_worktree(branch)),
    }
}

/// The open repository.
#[derive(Debug)]
pub struct RepoInfo {
    pub path: String,
    pub default_branch: String,
}

pub const NO_REPOSITORY: &'static str = "no repository selected";

/// The path of the open repository; an error where none is open.
pub fn require_repo(repo: Option<&RepoInfo>) -> (r: Result<&str, MaestroError>)
    ensures
        match repo {
            Some(info) => r matches Ok(path) && path@ == info.path@,
            None => r matches Err(e) && is_config(e, NO_REPOSITORY@),
        },
{
    match repo {
        Some(info) => Ok(info.path.as_str()),
        None => Err(MaestroError::Config { message: text_of(NO_REPOSITORY) }),
    }
}

/// The base that is named by an explicit override, the stored base or the repository, in
/// this order; a blank override counts as none.
pub open spec fn base_of(
    given: Option<Seq<char>>,
    stored: Option<Seq<char>>,
    repo: Option<RepoInfo>,
) -> Option<Seq<char>> {
    if given is Some && !is_blank(given->0) {
        Some(trim(given->0))
    } else if stored is Some {
        stored
    } else {
        match repo {
            Some(info) => Some(info.default_branch@),
            None => None,
        }
    }
}

/// The base to compare a branch against: an explicit override, else the branch's stored
/// base, else the repository's default branch.
pub fn resolve_base(given: Option<&str>, stored: &Option<String>, repo: Option<&RepoInfo>) -> (r: Result<
    String,
    MaestroError,
>)
    ensures
        match base_of(
            match given {
                Some(g) => Some(g@),
                None => None,
            },
            opt_view(*stored),
            match repo {
                Some(i) => Some(*i),
                None => None,
            },
        ) {
            Some(base) => r matches Ok(b) && b@ == base,
            None => r matches Err(e) && is_config(e, NO_REPOSITORY@),
        },
{
    match given {
        Some(g) => {
            if !blank(g) {
                return Ok(trim_text(g));
            }
        },
        None => {},
    }
    match stored {
        Some(s) => Ok(text_of(s.as_str())),
        None => match repo {
            Some(info) => Ok(text_of(info.default_branch.as_str())),
            None => Err(MaestroError::Config { message: text_of(NO_REPOSITORY) }),
        },
    }
}

/// What is stored about a branch.
#[derive(Debug)]
pub struct BranchRecord {
    pub task_id: Option<String>,
    pub base_branch: Option<String>,
}

/// A file that differs from the base.
#[derive(Debug)]
pub struct ChangedFile {
    pub path: String,
    pub status: String,
    /// Where it was before, for a renamed file.
    pub old_path: Option<String>,
}

#[verifier::ext_equal]
pub struct ChangedFileV {
    pub path: Seq<char>,
    pub status: Seq<char>,
    pub old_path: Option<Seq<char>>,
}

impl View for ChangedFile {
    type V = ChangedFileV;

    open spec fn view(&self) -> ChangedFileV {
        ChangedFileV {
            path: self.path@,
            status: self.status@,
            old_path: opt_view(self.old_path),
        }
    }
}

pub open spec fn file_views(s: Seq<ChangedFile>) -> Seq<ChangedFileV> {
    s.map_values(|f: ChangedFile| f@)
}

/// A line of `git blame`.
#[derive(Debug)]
pub struct BlameLine {
    pub sha: String,
    pub author: String,
    pub summary: String,
    pub line: u32,
    pub content: String,
}

} // verus!
