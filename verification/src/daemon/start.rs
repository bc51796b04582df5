//! What a queued task starts with: the worktree it needs and the prompt of its session.
use crate::daemon::{
    DaemonTask, DEFAULT_RESEARCH_EFFORT, DEFAULT_RESEARCH_MODEL, DEFAULT_VERIFY_EFFORT,
    DEFAULT_VERIFY_MODEL,
};
use crate::error::{is_invalid_data, MaestroError};
use crate::json::{
    json_parsed, list_in, list_view, member, parse_json, text_in, text_or, unsigned_in, Json,
    JsonV,
};
use crate::session::manager::{SpawnParams, SpawnParamsV};
use crate::session::{writer_mode, SessionType};
use crate::text::{
    blank, decimal, decimal_text, has_text, is_blank, opt_text, opt_view, same_text, text_of,
    views,
};
use vstd::prelude::*;
use vstd::string::*;

verus! {

/// What a task needs before its session can be given the work.
#[derive(Debug)]
pub enum StartPlan {
    /// A worktree on the head branch of the pull request, fetched if need be.
    Review { payload: Json, head_ref: String },
    /// The worktree that has the head branch checked out; the task is dismissed if it is
    /// gone.
    Comment { payload: Json, head_ref: String },
    /// The research worktree of the issue. `known_branch` is the branch a previous attempt
    /// already created.
    Research {
        payload: Json,
        task_id: String,
        slug: String,
        known_branch: Option<String>,
    },
    /// Nothing: a kind of task that is retired.
    Dismiss,
}

pub open spec fn text_at(v: JsonV, key: Seq<char>) -> Seq<char> {
    text_or(text_in(member(v, key)), ""@)
}

pub open spec fn number_at(v: JsonV, key: Seq<char>) -> u64 {
    match unsigned_in(member(v, key)) {
        Some(n) => n,
        None => 0,
    }
}

/// Whether `plan` is what a task of this kind and payload starts with.
pub open spec fn is_plan(plan: StartPlan, t: DaemonTask, v: JsonV) -> bool {
    if t.kind@ == "pr_review"@ {
        plan matches StartPlan::Review { payload, head_ref } && payload@ == v && head_ref@
            == text_at(v, "head_ref"@)
    } else if t.kind@ == "pr_comment"@ {
        plan matches StartPlan::Comment { payload, head_ref } && payload@ == v && head_ref@
            == text_at(v, "head_ref"@)
    } else if t.kind@ == "jira"@ {
        plan matches StartPlan::Research { payload, task_id, slug, known_branch } && payload@ == v
            && task_id@ == text_at(v, "key"@) && slug@ == text_at(v, "summary"@) && opt_view(
            known_branch,
        ) == opt_view(t.branch)
    } else {
        plan is Dismiss
    }
}

/// What a task whose payload was read starts with.
pub fn plan_start(task: &DaemonTask, payload: Json) -> (p: StartPlan)
    ensures
        is_plan(p, *task, payload@),
{
    if same_text(task.kind.as_str(), "pr_review") {
        let head_ref: String = payload.text_or_else("head_ref", "");
        StartPlan::Review { payload, head_ref }
    } else if same_text(task.kind.as_str(), "pr_comment") {
        let head_ref: String = payload.text_or_else("head_ref", "");
        StartPlan::Comment { payload, head_ref }
    } else if same_text(task.kind.as_str(), "jira") {
        let task_id: String = payload.text_or_else("key", "");
        let slug: String = payload.text_or_else("summary", "");
        StartPlan::Research { payload, task_id, slug, known_branch: opt_text(&task.branch) }
    } else {
        // "issue" is the retired GitHub-issue flow; anything queued by an older build is
        // quietly retired with it.
        StartPlan::Dismiss
    }
}

/// What a queued task starts with.
pub fn start(task: &DaemonTask) -> (r: Result<StartPlan, MaestroError>)
    ensures
        match json_parsed(task.payload@) {
            Ok(v) => r matches Ok(p) && is_plan(p, *task, v),
            Err(err) => r matches Err(e) && is_invalid_data(
                e,
                "corrupt daemon task payload: "@ + err,
            ),
        },
{
    match parse_json(task.payload.as_str()) {
        Ok(payload) => Ok(plan_start(task, payload)),
        Err(err) => Err(
            MaestroError::InvalidData {
                message: text_of("corrupt daemon task payload: ").concat(err.as_str()),
            },
        ),
    }
}

/// A prompt for the main session of a branch.
#[derive(Debug)]
pub struct MainPrompt {
    pub branch: String,
    pub cwd: String,
    pub prompt: String,
    /// Seeds a fresh session only; ignored when a live main session already exists.
    pub model: String,
    pub effort: String,
}

/// A setting, or its default where it is empty.
pub open spec fn or_default(setting: Option<Seq<char>>, default: Seq<char>) -> Seq<char> {
    match setting {
        Some(s) => if s.len() == 0 {
            default
        } else {
            s
        },
        None => default,
    }
}

fn setting_or(setting: Option<&str>, default: &str) -> (r: String)
    ensures
        r@ == or_default(
            match setting {
                Some(s) => Some(s@),
                None => None,
            },
            default@,
        ),
{
    match setting {
        Some(s) => {
            if s.is_empty() {
                text_of(default)
            } else {
                text_of(s)
            }
        },
        None => text_of(default),
    }
}

/// `prompt` with a guide behind it, where there is one.
pub open spec fn with_guide(prompt: Seq<char>, guide: Seq<char>) -> Seq<char> {
    if is_blank(guide) {
        prompt
    } else {
        prompt + "\n\n"@ + guide
    }
}

fn add_guide(prompt: String, guide: &str) -> (r: String)
    ensures
        r@ == with_guide(prompt@, guide@),
{
    if blank(guide) {
        prompt
    } else {
        prompt.concat("\n\n").concat(guide)
    }
}

// ---------------------------------------------------------------------------
// Reviews
// ---------------------------------------------------------------------------

pub open spec fn review_prompt(v: JsonV) -> Seq<char> {
    "Your review was requested on PR #"@ + decimal(number_at(v, "pr"@) as nat) + " by "@ + text_at(
        v,
        "author"@,
    ) + ".\n\nTitle: "@ + text_at(v, "pr_title"@) + "\n"@ + text_at(v, "url"@)
        + "\n\nPR description:\n"@ + text_at(v, "pr_body"@)
        + "\n\nThis worktree has the PR branch checked out. Review the changes this branch introduces relative to its base (use read-only git commands like `git log`/`git diff` against the base branch). Do NOT modify any files, do NOT commit, and do NOT post anything to GitHub directly — submit_review_comments is the only way feedback reaches GitHub, one entry per finding (path, line, body), ordered by severity."@
}

fn number_or_zero(v: &Json, key: &str) -> (n: u64)
    ensures
        n == number_at(v@, key@),
{
    match v.number_under(key) {
        Some(n) => n,
        None => 0,
    }
}

/// Reviewing someone else's PR happens in that PR's own worktree's main session —
/// persistent, so a re-review after the head moves continues the same conversation instead
/// of starting cold every time. `gate` is the workflow guide, blank where there is none.
pub fn start_pr_review(
    payload: &Json,
    branch: &str,
    cwd: &str,
    gate: &str,
    model: Option<&str>,
    effort: Option<&str>,
) -> (r: MainPrompt)
    ensures
        r.branch@ == branch@,
        r.cwd@ == cwd@,
        r.prompt@ == with_guide(review_prompt(payload@), gate@),
        r.model@ == or_default(
            match model {
                Some(s) => Some(s@),
                None => None,
            },
            DEFAULT_VERIFY_MODEL@,
        ),
        r.effort@ == or_default(
            match effort {
                Some(s) => Some(s@),
                None => None,
            },
            DEFAULT_VERIFY_EFFORT@,
        ),
{
    let pr: u64 = number_or_zero(payload, "pr");
    let prompt: String = text_of("Your review was requested on PR #").concat(
        decimal_text(pr).as_str(),
    ).concat(" by ").concat(payload.text_or_else("author", "").as_str()).concat(
        ".\n\nTitle: ",
    ).concat(payload.text_or_else("pr_title", "").as_str()).concat("\n").concat(
        payload.text_or_else("url", "").as_str(),
    ).concat("\n\nPR description:\n").concat(payload.text_or_else("pr_body", "").as_str()).concat(
        "\n\nThis worktree has the PR branch checked out. Review the changes this branch introduces relative to its base (use read-only git commands like `git log`/`git diff` against the base branch). Do NOT modify any files, do NOT commit, and do NOT post anything to GitHub directly — submit_review_comments is the only way feedback reaches GitHub, one entry per finding (path, line, body), ordered by severity.",
    );
    MainPrompt {
        branch: text_of(branch),
        cwd: text_of(cwd),
        prompt: add_guide(prompt, gate),
        model: setting_or(model, DEFAULT_VERIFY_MODEL),
        effort: setting_or(effort, DEFAULT_VERIFY_EFFORT),
    }
}

// ---------------------------------------------------------------------------
// Research
// ---------------------------------------------------------------------------

pub open spec fn research_prompt(v: JsonV) -> Seq<char> {
    "You are doing preliminary research for a Jira issue that was just assigned.\n\n"@ + text_at(
        v,
        "key"@,
    ) + ": "@ + text_at(v, "summary"@) + "\n"@ + text_at(v, "url"@) + "\n\n"@ + text_at(
        v,
        "description"@,
    )
        + "\n\nExplore the codebase (read-only) and write your findings to RESEARCH.md in the worktree root: what the issue is really about, which files/modules are involved, a suggested approach, open questions, and risks. Do not modify any other files."@
}

/// The research session of an issue: plan mode, in its research worktree. It never writes.
pub fn start_jira(
    payload: &Json,
    branch: &str,
    cwd: &str,
    model: Option<&str>,
    effort: Option<&str>,
) -> (r: SpawnParams)
    ensures
        r@ == (SpawnParamsV {
            branch: branch@,
            cwd: cwd@,
            session_type: SessionType::Research,
            model: Some(
                or_default(
                    match model {
                        Some(s) => Some(s@),
                        None => None,
                    },
                    DEFAULT_RESEARCH_MODEL@,
                ),
            ),
            effort: Some(
                or_default(
                    match effort {
                        Some(s) => Some(s@),
                        None => None,
                    },
                    DEFAULT_RESEARCH_EFFORT@,
                ),
            ),
            permission_mode: Some("plan"@),
            thinking: None,
            tools_profile: None,
            disallowed_tools: seq![],
            prompt: research_prompt(payload@),
            resume_from: None,
        }),
        !writer_mode(r@.permission_mode),
{
    let prompt: String = text_of(
        "You are doing preliminary research for a Jira issue that was just assigned.\n\n",
    ).concat(payload.text_or_else("key", "").as_str()).concat(": ").concat(
        payload.text_or_else("summary", "").as_str(),
    ).concat("\n").concat(payload.text_or_else("url", "").as_str()).concat("\n\n").concat(
        payload.text_or_else("description", "").as_str(),
    ).concat(
        "\n\nExplore the codebase (read-only) and write your findings to RESEARCH.md in the worktree root: what the issue is really about, which files/modules are involved, a suggested approach, open questions, and risks. Do not modify any other files.",
    );
    let r: SpawnParams = SpawnParams {
        branch: text_of(branch),
        cwd: text_of(cwd),
        session_type: SessionType::Research,
        model: Some(setting_or(model, DEFAULT_RESEARCH_MODEL)),
        effort: Some(setting_or(effort, DEFAULT_RESEARCH_EFFORT)),
        permission_mode: Some(text_of("plan")),
        thinking: None,
        tools_profile: None,
        disallowed_tools: Vec::new(),
        prompt,
        resume_from: None,
    };
    assert(views(r.disallowed_tools@) =~= seq![]);
    r
}

// ---------------------------------------------------------------------------
// Comments
// ---------------------------------------------------------------------------

/// The file a comment is on.
pub open spec fn path_at(c: JsonV) -> Seq<char> {
    text_or(text_in(member(c, "path"@)), "(general)"@)
}

/// The files of the comments, in the order in which they first occur.
pub open spec fn paths_of(comments: Seq<JsonV>) -> Seq<Seq<char>>
    decreases comments.len(),
{
    if comments.len() == 0 {
        seq![]
    } else {
        let before = paths_of(comments.drop_last());
        if before.contains(path_at(comments.last())) {
            before
        } else {
            before.push(path_at(comments.last()))
        }
    }
}

pub open spec fn comment_text(c: JsonV) -> Seq<char> {
    "[comment "@ + decimal(number_at(c, "comment_id"@) as nat) + "] "@ + text_or(
        text_in(member(c, "author"@)),
        "unknown"@,
    ) + ":\n"@ + text_at(c, "body"@) + "\n"@ + text_at(c, "url"@) + "\n\n"@
}

/// The comments on one file.
pub open spec fn on_path(comments: Seq<JsonV>, path: Seq<char>) -> Seq<char>
    decreases comments.len(),
{
    if comments.len() == 0 {
        seq![]
    } else {
        let before = on_path(comments.drop_last(), path);
        if path_at(comments.last()) == path {
            before + comment_text(comments.last())
        } else {
            before
        }
    }
}

/// The comments, file by file.
pub open spec fn by_path(comments: Seq<JsonV>, paths: Seq<Seq<char>>) -> Seq<char>
    decreases paths.len(),
{
    if paths.len() == 0 {
        seq![]
    } else {
        by_path(comments, paths.drop_last()) + ("## "@ + paths.last() + "\n"@ + on_path(
            comments,
            paths.last(),
        ))
    }
}

pub open spec fn comments_at(v: JsonV) -> Seq<JsonV> {
    match list_in(member(v, "comments"@)) {
        Some(l) => l,
        None => seq![],
    }
}

pub open spec fn comment_prompt(v: JsonV) -> Seq<char> {
    let comments = comments_at(v);
    decimal(comments.len()) + " review comment(s) arrived on PR #"@ + decimal(
        number_at(v, "pr"@) as nat,
    ) + ".\n\n"@ + by_path(comments, paths_of(comments))
        + "Read the relevant code (read-only) and judge whether each comment is actionable and correct. Do NOT modify any other files, do NOT commit, and do NOT post anything to GitHub directly — submit_review_comments is the only way a reply reaches GitHub: one entry per comment you want to reply to, in_reply_to set to that comment's id (the number in \"[comment N]\"), path/line matching that same comment's own, body your draft reply."@
}

fn comment_entry(c: &Json) -> (r: String)
    ensures
        r@ == comment_text(c@),
{
    text_of("[comment ").concat(decimal_text(number_or_zero(c, "comment_id")).as_str()).concat(
        "] ",
    ).concat(c.text_or_else("author", "unknown").as_str()).concat(":\n").concat(
        c.text_or_else("body", "").as_str(),
    ).concat("\n").concat(c.text_or_else("url", "").as_str()).concat("\n\n")
}

fn comment_paths(comments: &Vec<Json>) -> (r: Vec<String>)
    ensures
        views(r@) == paths_of(list_view(comments@)),
{
    let ghost cv = list_view(comments@);
    let mut r: Vec<String> = Vec::new();
    let mut i: usize = 0;
    assert(views(r@) =~= paths_of(cv.take(0)));
    while i < comments.len()
        invariant
            i <= comments@.len(),
            cv == list_view(comments@),
            views(r@) == paths_of(cv.take(i as int)),
        decreases comments@.len() - i,
    {
        let ghost done = views(r@);
        assert(cv.take(i + 1).drop_last() =~= cv.take(i as int));
        assert(cv.take(i + 1).last() == comments@[i as int]@);
        let path: String = comments[i].text_or_else("path", "(general)");
        if !has_text(&r, path.as_str()) {
            let ghost pv = path@;
            r.push(path);
            assert(views(r@) =~= done.push(pv));
        }
        i += 1;
    }
    assert(cv.take(i as int) =~= cv);
    r
}

fn comments_on(comments: &Vec<Json>, path: &str) -> (r: String)
    ensures
        r@ == on_path(list_view(comments@), path@),
{
    let ghost cv = list_view(comments@);
    let mut r: String = String::new();
    let mut i: usize = 0;
    assert(r@ =~= on_path(cv.take(0), path@));
    while i < comments.len()
        invariant
            i <= comments@.len(),
            cv == list_view(comments@),
            r@ == on_path(cv.take(i as int), path@),
        decreases comments@.len() - i,
    {
        assert(cv.take(i + 1).drop_last() =~= cv.take(i as int));
        assert(cv.take(i + 1).last() == comments@[i as int]@);
        if same_text(comments[i].text_or_else("path", "(general)").as_str(), path) {
            r.append(comment_entry(&comments[i]).as_str());
        }
        i += 1;
    }
    assert(cv.take(i as int) =~= cv);
    r
}

/// Comments on your own PR go to that branch's main session, so the human sees the same
/// ongoing conversation whichever side triggered it. They are grouped by file: review
/// comments almost always cluster by file, and reading them together is how a human would
/// triage a review too. `gate` and `style` are the workflow and voice guides, blank where
/// there are none.
pub fn start_pr_comment(
    payload: &Json,
    branch: &str,
    cwd: &str,
    gate: &str,
    style: &str,
    model: Option<&str>,
    effort: Option<&str>,
) -> (r: MainPrompt)
    ensures
        r.branch@ == branch@,
        r.cwd@ == cwd@,
        r.prompt@ == with_guide(with_guide(comment_prompt(payload@), gate@), style@),
        r.model@ == or_default(
            match model {
                Some(s) => Some(s@),
                None => None,
            },
            DEFAULT_VERIFY_MODEL@,
        ),
        r.effort@ == or_default(
            match effort {
                Some(s) => Some(s@),
                None => None,
            },
            DEFAULT_VERIFY_EFFORT@,
        ),
{
    let none: Vec<Json> = Vec::new();
    let comments: &Vec<Json> = match payload.list_under("comments") {
        Some(l) => l,
        None => &none,
    };
    let ghost cv = list_view(comments@);
    assert(cv =~= comments_at(payload@));
    let paths: Vec<String> = comment_paths(comments);
    let ghost pv = views(paths@);
    let mut groups: String = String::new();
    let mut i: usize = 0;
    assert(groups@ =~= by_path(cv, pv.take(0)));
    while i < paths.len()
        invariant
            i <= paths@.len(),
            cv == list_view(comments@),
            pv == views(paths@),
            groups@ == by_path(cv, pv.take(i as int)),
        decreases paths@.len() - i,
    {
        assert(pv.take(i + 1).drop_last() =~= pv.take(i as int));
        assert(pv.take(i + 1).last() == paths@[i as int]@);
        let group: String = text_of("## ").concat(paths[i].as_str()).concat("\n").concat(
            comments_on(comments, paths[i].as_str()).as_str(),
        );
        groups.append(group.as_str());
        i += 1;
    }
    assert(pv.take(i as int) =~= pv);
    let pr: u64 = number_or_zero(payload, "pr");
    let prompt: String = decimal_text(comments.len() as u64).concat(
        " review comment(s) arrived on PR #",
    ).concat(decimal_text(pr).as_str()).concat(".\n\n").concat(groups.as_str()).concat(
        "Read the relevant code (read-only) and judge whether each comment is actionable and correct. Do NOT modify any other files, do NOT commit, and do NOT post anything to GitHub directly — submit_review_comments is the only way a reply reaches GitHub: one entry per comment you want to reply to, in_reply_to set to that comment's id (the number in \"[comment N]\"), path/line matching that same comment's own, body your draft reply.",
    );
    assert(prompt@ =~= comment_prompt(payload@));
    MainPrompt {
        branch: text_of(branch),
        cwd: text_of(cwd),
        prompt: add_guide(add_guide(prompt, gate), style),
        model: setting_or(model, DEFAULT_VERIFY_MODEL),
        effort: setting_or(effort, DEFAULT_VERIFY_EFFORT),
    }
}

} // verus!
