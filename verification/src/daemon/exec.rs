//! What the daemon's tasks need of the repository: a worktree to work in, and the URL of
//! its `origin` remote.
use crate::daemon::RepoOrigin;
use crate::error::{is_config, is_invalid_data, MaestroError};
use crate::text::{opt_view, text_of, trim, trim_text};
use crate::worktree::{worktree_of, worktree_path, WorktreeRef};
use vstd::prelude::*;
use vstd::string::*;

verus! {

/// A worktree to be created: on a branch that exists, or on a new one that is named after
/// its kind, its task and a slug.
#[derive(Debug)]
pub struct CreateWorktreeRequest {
    pub existing_branch: Option<String>,
    pub kind: Option<String>,
    pub task_id: Option<String>,
    pub slug: Option<String>,
    pub base: Option<String>,
}

#[verifier::ext_equal]
pub struct CreateV {
    pub existing_branch: Option<Seq<char>>,
    pub kind: Option<Seq<char>>,
    pub task_id: Option<Seq<char>>,
    pub slug: Option<Seq<char>>,
    pub base: Option<Seq<char>>,
}

impl View for CreateWorktreeRequest {
    type V = CreateV;

    open spec fn view(&self) -> CreateV {
        CreateV {
            existing_branch: opt_view(self.existing_branch),
            kind: opt_view(self.kind),
            task_id: opt_view(self.task_id),
            slug: opt_view(self.slug),
            base: opt_view(self.base),
        }
    }
}

/// A worktree and its branch.
#[derive(Debug)]
pub struct Workplace {
    pub branch: String,
    pub path: String,
}

/// How a task gets its worktree.
#[derive(Debug)]
pub enum WorktreeStep {
    Existing(Workplace),
    Create(CreateWorktreeRequest),
}

pub open spec fn on_branch(branch: Seq<char>) -> CreateV {
    CreateV {
        existing_branch: Some(branch),
        kind: None,
        task_id: None,
        slug: None,
        base: None,
    }
}

/// Whether `r` is how a worktree on `branch` is had.
pub open spec fn is_step_for(r: WorktreeStep, branch: Seq<char>, worktrees: Seq<WorktreeRef>) -> bool {
    match worktree_of(worktrees, branch, 0) {
        Some(path) => r matches WorktreeStep::Existing(w) && w.branch@ == branch && w.path@ == path,
        None => r matches WorktreeStep::Create(c) && c@ == on_branch(branch),
    }
}

fn step_for(branch: &str, worktrees: &Vec<WorktreeRef>) -> (r: WorktreeStep)
    ensures
        is_step_for(r, branch@, worktrees@),
{
    match worktree_path(worktrees, branch) {
        Some(path) => WorktreeStep::Existing(
            Workplace { branch: text_of(branch), path: text_of(path) },
        ),
        None => WorktreeStep::Create(
            CreateWorktreeRequest {
                existing_branch: Some(text_of(branch)),
                kind: None,
                task_id: None,
                slug: None,
                base: None,
            },
        ),
    }
}

/// Get-or-create a research worktree: the one of `known_branch` where the task already has a
/// branch — reattached if it survived a worktree removal or a restart — else a new one.
pub fn ensure_research_worktree(
    task_id: &str,
    slug: &str,
    known_branch: Option<&str>,
    worktrees: &Vec<WorktreeRef>,
) -> (r: WorktreeStep)
    ensures
        match known_branch {
            Some(branch) => is_step_for(r, branch@, worktrees@),
            None => r matches WorktreeStep::Create(c) && c@ == (CreateV {
                existing_branch: None,
                kind: Some("research"@),
                task_id: Some(task_id@),
                slug: Some(slug@),
                base: None,
            }),
        },
{
    match known_branch {
        Some(branch) => step_for(branch, worktrees),
        None => WorktreeStep::Create(
            CreateWorktreeRequest {
                existing_branch: None,
                kind: Some(text_of("research")),
                task_id: Some(text_of(task_id)),
                slug: Some(text_of(slug)),
                base: None,
            },
        ),
    }
}

/// Get-or-create a worktree on a PR's head branch for reviewing it. The branch is fetched
/// either way: for an existing worktree best-effort, so the review sees the latest push (a
/// stale copy still beats a failure); for a new one it has to succeed.
pub fn ensure_review_worktree(head_ref: &str, worktrees: &Vec<WorktreeRef>) -> (r: WorktreeStep)
    ensures
        is_step_for(r, head_ref@, worktrees@),
{
    step_for(head_ref, worktrees)
}

/// The worktree that was created; `branch` is what is checked out in it. It is on the
/// branch that was asked for where it does not say.
pub fn created(request: &CreateWorktreeRequest, branch: Option<&str>, path: &str) -> (r: Result<
    Workplace,
    MaestroError,
>)
    ensures
        match (
            match branch {
                Some(b) => Some(b@),
                None => opt_view(request.existing_branch),
            }
        ) {
            Some(b) => r matches Ok(w) && w.branch@ == b && w.path@ == path@,
            None => r matches Err(e) && is_invalid_data(e, "created worktree has no branch"@),
        },
{
    let on: Option<String> = match branch {
        Some(b) => Some(text_of(b)),
        None => match &request.existing_branch {
            Some(b) => Some(text_of(b.as_str())),
            None => None,
        },
    };
    match on {
        Some(b) => Ok(Workplace { branch: b, path: text_of(path) }),
        None => Err(MaestroError::InvalidData { message: text_of("created worktree has no branch") }),
    }
}

pub const NO_ORIGIN: &'static str = "the repository has no 'origin' remote — set `daemon_repo` instead";

/// What came of `git remote get-url origin`.
#[derive(Debug)]
pub enum OriginProbe {
    NotLaunched { reason: String },
    Ran { success: bool, stdout: String },
}

/// The `origin` remote of the open repository.
pub fn origin_url(probe: OriginProbe) -> (r: RepoOrigin)
    ensures
        match probe {
            OriginProbe::NotLaunched { reason } => r matches RepoOrigin::Failed(e) && is_config(
                e,
                "failed to launch git: "@ + reason@,
            ),
            OriginProbe::Ran { success, stdout } => if success {
                r matches RepoOrigin::Url(u) && u@ == trim(stdout@)
            } else {
                r matches RepoOrigin::Failed(e) && is_config(e, NO_ORIGIN@)
            },
        },
{
    match probe {
        OriginProbe::NotLaunched { reason } => RepoOrigin::Failed(
            MaestroError::Config {
                message: text_of("failed to launch git: ").concat(reason.as_str()),
            },
        ),
        OriginProbe::Ran { success, stdout } => {
            if success {
                RepoOrigin::Url(trim_text(stdout.as_str()))
            } else {
                RepoOrigin::Failed(MaestroError::Config { message: text_of(NO_ORIGIN) })
            }
        },
    }
}

} // verus!
