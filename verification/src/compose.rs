//! Prompt rendering for the PR workflow: commit messages and PR descriptions.
//!
//! This module only takes git context (status/diff/commits) and renders the editable
//! templates in `~/.maestro/prompts/` — it never calls an LLM itself. The *asking* happens
//! through a real session, so generation sees the same context an agent working on the
//! branch would — not just a diff.
use crate::clip::{byte_len, first_bytes, head_end};
use crate::error::{is_config, is_invalid_data, MaestroError};
use crate::prompts::{
    is_read_error, parsed_template, rendered, valid_name, FileRead, PromptManager,
};
use crate::table::{t_put, Table};
use crate::text::{
    blank, char_views, chars_of, has_prefix, is_blank, join, join_texts, lines, lines_of, opt_view,
    starts_with, string_of, text_of, trim, trim_text, views,
};
use crate::worktree::{base_of, resolve_base, BranchRecord, RepoInfo, NO_REPOSITORY};
use vstd::prelude::*;
use vstd::string::*;

verus! {

/// Model for one-shot generation: commit messages, PR descriptions, reply drafts. Empty
/// means the CLI's default model.
pub const SETTING_COMPOSE_MODEL: &'static str = "compose_model";

/// Diffs are context, not gospel — cap what we feed the model.
pub const MAX_DIFF_CHARS: usize = 60000;

pub const COMMIT_TEMPLATE: &'static str = "commit-message";

pub const PR_TEMPLATE: &'static str = "pr-description";

pub const GUIDE_TEMPLATE: &'static str = "review-guide";

pub const NOTHING_TO_COMMIT: &'static str = "nothing to commit — the worktree is clean";

pub open spec fn truncated(text: Seq<char>, max: nat) -> Seq<char> {
    if byte_len(text) <= max {
        text
    } else {
        text.take(head_end(text, max) as int) + "\n… (diff truncated)"@
    }
}

/// The first `max` bytes of `text`, cut at a char boundary, with a marker when cut.
pub fn truncate(text: &str, max: usize) -> (r: String)
    ensures
        r@ == truncated(text@, max as nat),
{
    if text.as_bytes().len() <= max {
        return text_of(text);
    }
    first_bytes(text, max).concat("\n… (diff truncated)")
}

// ---------------------------------------------------------------------------
// What git is asked
// ---------------------------------------------------------------------------

fn two(a: &str, b: &str) -> (r: Vec<String>)
    ensures
        views(r@) == seq![a@, b@],
{
    let mut r: Vec<String> = Vec::new();
    r.push(text_of(a));
    r.push(text_of(b));
    assert(views(r@) =~= seq![a@, b@]);
    r
}

fn three(a: &str, b: &str, c: &str) -> (r: Vec<String>)
    ensures
        views(r@) == seq![a@, b@, c@],
{
    let mut r: Vec<String> = Vec::new();
    r.push(text_of(a));
    r.push(text_of(b));
    r.push(text_of(c));
    assert(views(r@) =~= seq![a@, b@, c@]);
    r
}

pub fn status_args() -> (r: Vec<String>)
    ensures
        views(r@) == seq!["status"@, "--short"@],
{
    two("status", "--short")
}

pub fn merge_base_args(base: &str) -> (r: Vec<String>)
    ensures
        views(r@) == seq!["merge-base"@, base@, "HEAD"@],
{
    three("merge-base", base, "HEAD")
}

pub fn log_args(base: &str) -> (r: Vec<String>)
    ensures
        views(r@) == seq!["log"@, "--format=%h %s"@, base@ + "..HEAD"@],
{
    three("log", "--format=%h %s", text_of(base).concat("..HEAD").as_str())
}

/// `from` is what the merge-base was printed as.
pub fn stat_args(from: &str) -> (r: Vec<String>)
    ensures
        views(r@) == seq!["diff"@, "--stat"@, trim(from@)],
{
    three("diff", "--stat", trim_text(from).as_str())
}

/// `from` is what the merge-base was printed as, or `HEAD`.
pub fn diff_args(from: &str) -> (r: Vec<String>)
    ensures
        views(r@) == seq!["diff"@, trim(from@)],
{
    two("diff", trim_text(from).as_str())
}

/// `git` failed with `args`.
pub fn git_failed(args: &Vec<String>, stderr: &str) -> (e: MaestroError)
    ensures
        is_config(e, "`git "@ + join(views(args@), " "@) + "` failed: "@ + trim(stderr@)),
{
    MaestroError::Config {
        message: text_of("`git ").concat(join_texts(args, " ").as_str()).concat(
            "` failed: ",
        ).concat(trim_text(stderr).as_str()),
    }
}

pub fn git_not_launched(reason: &str) -> (e: MaestroError)
    ensures
        is_config(e, "failed to launch git: "@ + reason@),
{
    MaestroError::Config { message: text_of("failed to launch git: ").concat(reason) }
}

// ---------------------------------------------------------------------------
// Context
// ---------------------------------------------------------------------------

pub open spec fn common_vars(
    branch: Seq<char>,
    task_id: Option<Seq<char>>,
    base: Seq<char>,
    files: Seq<char>,
    diff: Seq<char>,
) -> Seq<(Seq<char>, Seq<char>)> {
    let v = t_put(seq![], "branch"@, branch);
    let v = t_put(
        v,
        "task_id"@,
        match task_id {
            Some(t) => t,
            None => seq![],
        },
    );
    let v = t_put(v, "base"@, base);
    let v = t_put(v, "files"@, files);
    t_put(v, "diff"@, diff)
}

fn fill_common(branch: &str, record: &BranchRecord, base: &str, files: &str, diff: &str) -> (r: Table<
    String,
>)
    ensures
        r.wf(),
        r@ == common_vars(branch@, opt_view(record.task_id), base@, files@, diff@),
{
    let mut vars: Table<String> = Table::new();
    vars.insert("branch", text_of(branch));
    let task: String = match &record.task_id {
        Some(t) => text_of(t.as_str()),
        None => String::new(),
    };
    assert(record.task_id is None ==> task@ =~= seq![]);
    vars.insert("task_id", task);
    vars.insert("base", text_of(base));
    vars.insert("files", text_of(files));
    vars.insert("diff", text_of(diff));
    vars
}

/// The lines of `git status --short` that name untracked files.
pub open spec fn untracked_lines(ls: Seq<Seq<char>>) -> Seq<Seq<char>>
    decreases ls.len(),
{
    if ls.len() == 0 {
        seq![]
    } else if has_prefix(ls.last(), seq!['?', '?']) {
        untracked_lines(ls.drop_last()).push(ls.last())
    } else {
        untracked_lines(ls.drop_last())
    }
}

fn untracked(status: &str) -> (r: Vec<String>)
    ensures
        views(r@) == untracked_lines(lines(status@)),
{
    let s: Vec<char> = chars_of(status);
    let ls: Vec<Vec<char>> = lines_of(s.as_slice());
    let mark: Vec<char> = vec!['?', '?'];
    assert(mark@ =~= seq!['?', '?']);
    let ghost lv = char_views(ls@);
    let mut r: Vec<String> = Vec::new();
    let mut i: usize = 0;
    assert(views(r@) =~= untracked_lines(lv.take(0)));
    while i < ls.len()
        invariant
            i <= ls@.len(),
            mark@ == seq!['?', '?'],
            lv == char_views(ls@),
            views(r@) == untracked_lines(lv.take(i as int)),
        decreases ls@.len() - i,
    {
        assert(lv.take(i + 1).drop_last() =~= lv.take(i as int));
        assert(lv.take(i + 1).last() == ls@[i as int]@);
        if starts_with(ls[i].as_slice(), mark.as_slice()) {
            let ghost done = views(r@);
            let text: String = string_of(ls[i].as_slice());
            let ghost tv = text@;
            r.push(text);
            assert(views(r@) =~= done.push(tv));
        }
        i += 1;
    }
    assert(lv.take(i as int) =~= lv);
    r
}

/// What git said about a branch.
#[derive(Debug)]
pub struct BranchReads {
    /// `git diff --stat` against the merge-base.
    pub stat: String,
    /// `git status --short`.
    pub status: String,
    /// `git diff` against the merge-base: committed and uncommitted changes.
    pub diff: String,
    /// The subjects of the branch's commits; none where git could not say.
    pub commits: Option<String>,
}

/// `git diff` never mentions untracked files, no matter what it's compared against — they
/// are listed by name alongside the tracked-file stat, so a brand new file at least gets
/// acknowledged even though its content doesn't.
pub open spec fn files_of(reads: BranchReads) -> Seq<char> {
    let new = join(untracked_lines(lines(reads.status@)), "\n"@);
    if new.len() == 0 {
        reads.stat@
    } else {
        reads.stat@ + "\n"@ + new
    }
}

pub open spec fn branch_vars(
    branch: Seq<char>,
    record: BranchRecord,
    base: Seq<char>,
    reads: BranchReads,
) -> Seq<(Seq<char>, Seq<char>)> {
    t_put(
        common_vars(
            branch,
            opt_view(record.task_id),
            base,
            files_of(reads),
            truncated(reads.diff@, MAX_DIFF_CHARS as nat),
        ),
        "commits"@,
        match reads.commits {
            Some(c) => c@,
            None => seq![],
        },
    )
}

pub open spec fn nothing_text(base: Seq<char>) -> Seq<char> {
    "no changes on this branch relative to '"@ + base
        + "' (including uncommitted ones) — nothing to describe"@
}

/// Everything a whole-branch prompt needs: commits, file list (tracked stat + untracked
/// names), truncated working-tree diff vs the merge-base.
fn branch_context(
    branch: &str,
    given: Option<&str>,
    record: &BranchRecord,
    repo: Option<&RepoInfo>,
    reads: &BranchReads,
) -> (r: Result<(String, Table<String>), MaestroError>)
    ensures
        match base_of(
            match given {
                Some(g) => Some(g@),
                None => None,
            },
            opt_view(record.base_branch),
            match repo {
                Some(i) => Some(*i),
                None => None,
            },
        ) {
            None => r matches Err(e) && is_config(e, NO_REPOSITORY@),
            Some(base) => if is_blank(truncated(reads.diff@, MAX_DIFF_CHARS as nat)) {
                r matches Err(e) && is_invalid_data(e, nothing_text(base))
            } else {
                r matches Ok(c) && c.0@ == base && c.1.wf() && c.1@ == branch_vars(
                    branch@,
                    *record,
                    base,
                    *reads,
                )
            },
        },
{
    let base: String = match resolve_base(given, &record.base_branch, repo) {
        Ok(b) => b,
        Err(e) => return Err(e),
    };
    let new: String = join_texts(&untracked(reads.status.as_str()), "\n");
    let n: usize = new.as_str().unicode_len();
    let files: String = if n == 0 {
        text_of(reads.stat.as_str())
    } else {
        text_of(reads.stat.as_str()).concat("\n").concat(new.as_str())
    };
    let diff: String = truncate(reads.diff.as_str(), MAX_DIFF_CHARS);
    if blank(diff.as_str()) {
        return Err(
            MaestroError::InvalidData {
                message: text_of("no changes on this branch relative to '").concat(
                    base.as_str(),
                ).concat("' (including uncommitted ones) — nothing to describe"),
            },
        );
    }
    let mut vars: Table<String> = fill_common(
        branch,
        record,
        base.as_str(),
        files.as_str(),
        diff.as_str(),
    );
    let commits: String = match &reads.commits {
        Some(c) => text_of(c.as_str()),
        None => String::new(),
    };
    assert(reads.commits is None ==> commits@ =~= seq![]);
    vars.insert("commits", commits);
    Ok((base, vars))
}

/// Whether `r` is the rendered template `name`, read as `template`.
pub open spec fn is_rendering(
    r: Result<String, MaestroError>,
    name: Seq<char>,
    template: FileRead,
    vars: Seq<(Seq<char>, Seq<char>)>,
) -> bool {
    match template {
        FileRead::Text(raw) => r matches Ok(t) && t@ == rendered(
            parsed_template(name, raw@).body,
            vars,
        ),
        _ => r matches Err(e) && is_read_error(e, name, template),
    }
}

/// Renders the prompts of the PR workflow.
#[derive(Debug)]
pub struct ComposeManager {
    pub prompts: PromptManager,
}

impl ComposeManager {
    pub fn new(prompts: PromptManager) -> (m: Self)
        ensures
            m.prompts == prompts,
    {
        ComposeManager { prompts }
    }

    /// Render the "commit-message" prompt for everything uncommitted in `branch`'s worktree:
    /// `status` is its `git status --short`, `diff` its `git diff HEAD`. `base` overrides
    /// the stored/default base when given (kept in sync with whatever the Create PR dialog
    /// has selected).
    pub fn commit_prompt(
        &self,
        branch: &str,
        base: Option<&str>,
        record: &BranchRecord,
        repo: Option<&RepoInfo>,
        status: &str,
        diff: &str,
        template: FileRead,
    ) -> (r: Result<String, MaestroError>)
        ensures
            if is_blank(status@) {
                r matches Err(e) && is_invalid_data(e, NOTHING_TO_COMMIT@)
            } else {
                match base_of(
                    match base {
                        Some(g) => Some(g@),
                        None => None,
                    },
                    opt_view(record.base_branch),
                    match repo {
                        Some(i) => Some(*i),
                        None => None,
                    },
                ) {
                    None => r matches Err(e) && is_config(e, NO_REPOSITORY@),
                    Some(b) => is_rendering(
                        r,
                        COMMIT_TEMPLATE@,
                        template,
                        common_vars(
                            branch@,
                            opt_view(record.task_id),
                            b,
                            status@,
                            truncated(diff@, MAX_DIFF_CHARS as nat),
                        ),
                    ),
                }
            },
    {
        if blank(status) {
            return Err(MaestroError::InvalidData { message: text_of(NOTHING_TO_COMMIT) });
        }
        let cut: String = truncate(diff, MAX_DIFF_CHARS);
        let resolved: String = match resolve_base(base, &record.base_branch, repo) {
            Ok(b) => b,
            Err(e) => return Err(e),
        };
        let vars: Table<String> = fill_common(
            branch,
            record,
            resolved.as_str(),
            status,
            cut.as_str(),
        );
        proof {
            reveal_strlit("commit-message");
            assert(valid_name(COMMIT_TEMPLATE@));
        }
        self.prompts.render(COMMIT_TEMPLATE, template, &vars)
    }

    /// Render the "pr-description" prompt for `branch` against `base` (falls back to the
    /// stored/default base when absent). The diff is the working tree against the merge-base
    /// — committed **and** uncommitted changes — since a PR about to be opened is described
    /// by what it will contain, not just whatever happens to be committed yet. Returns the
    /// base that was actually used, so the caller can reflect an auto-detected one.
    pub fn pr_prompt(
        &self,
        branch: &str,
        base: Option<&str>,
        record: &BranchRecord,
        repo: Option<&RepoInfo>,
        reads: &BranchReads,
        template: FileRead,
    ) -> (r: Result<(String, String), MaestroError>)
        ensures
            match base_of(
                match base {
                    Some(g) => Some(g@),
                    None => None,
                },
                opt_view(record.base_branch),
                match repo {
                    Some(i) => Some(*i),
                    None => None,
                },
            ) {
                None => r matches Err(e) && is_config(e, NO_REPOSITORY@),
                Some(b) => if is_blank(truncated(reads.diff@, MAX_DIFF_CHARS as nat)) {
                    r matches Err(e) && is_invalid_data(e, nothing_text(b))
                } else {
                    &&& r matches Ok(p) ==> p.0@ == b
                    &&& is_rendering(
                        match r {
                            Ok(p) => Ok(p.1),
                            Err(e) => Err(e),
                        },
                        PR_TEMPLATE@,
                        template,
                        branch_vars(branch@, *record, b, *reads),
                    )
                },
            },
    {
        let (resolved, vars) = match branch_context(branch, base, record, repo, reads) {
            Ok(c) => c,
            Err(e) => return Err(e),
        };
        proof {
            reveal_strlit("pr-description");
            assert(valid_name(PR_TEMPLATE@));
        }
        match self.prompts.render(PR_TEMPLATE, template, &vars) {
            Ok(prompt) => Ok((resolved, prompt)),
            Err(e) => Err(e),
        }
    }

    /// Render the "review-guide" prompt: same branch context as a PR description, but asking
    /// for a machine-readable review roadmap instead of prose (the frontend parses the reply
    /// as JSON).
    pub fn guide_prompt(
        &self,
        branch: &str,
        record: &BranchRecord,
        repo: Option<&RepoInfo>,
        reads: &BranchReads,
        template: FileRead,
    ) -> (r: Result<String, MaestroError>)
        ensures
            match base_of(
                None,
                opt_view(record.base_branch),
                match repo {
                    Some(i) => Some(*i),
                    None => None,
                },
            ) {
                None => r matches Err(e) && is_config(e, NO_REPOSITORY@),
                Some(b) => if is_blank(truncated(reads.diff@, MAX_DIFF_CHARS as nat)) {
                    r matches Err(e) && is_invalid_data(e, nothing_text(b))
                } else {
                    is_rendering(
                        r,
                        GUIDE_TEMPLATE@,
                        template,
                        branch_vars(branch@, *record, b, *reads),
                    )
                },
            },
    {
        let (_, vars) = match branch_context(branch, None, record, repo, reads) {
            Ok(c) => c,
            Err(e) => return Err(e),
        };
        proof {
            reveal_strlit("review-guide");
            assert(valid_name(GUIDE_TEMPLATE@));
        }
        self.prompts.render(GUIDE_TEMPLATE, template, &vars)
    }
}

} // verus!
