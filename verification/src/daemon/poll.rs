//! One GitHub pass of the daemon, step by step. Every read and every write of the pass is
//! asked for, one at a time; the reply decides what is asked for next.
use crate::daemon::github::{
    account_views, comment_views, pull_views, GhAccount, GhComment, GhPull, PullV,
};
use crate::daemon::queue::{
    already_queued_comment_ids, comment_task, comment_task_of, covered_ids, first_token,
    all_lowercased, is_skipped, new_task_views, news_of, poll_accounts, primary_token,
    review_tasks, review_tasks_of, skips, NewTask, NewTaskV,
};
use crate::daemon::{
    as_opt, listed_in, skip_labels, task_views, watch_list, watched_accounts, DaemonManager,
    DaemonSettings, DaemonTask,
};
use crate::error::MaestroError;
use crate::text::{lowercased, opt_view, text_of, views};
use vstd::prelude::*;

verus! {

/// What a pass works with once it knows the open pull requests.
#[derive(Debug)]
pub struct PollPass {
    pub watch: Vec<String>,
    pub skip: Vec<String>,
    pub slug: String,
    pub token: String,
    pub pulls: Vec<GhPull>,
}

#[verifier::ext_equal]
pub struct PassV {
    pub watch: Seq<Seq<char>>,
    pub skip: Seq<Seq<char>>,
    pub slug: Seq<char>,
    pub token: Seq<char>,
    pub pulls: Seq<PullV>,
}

impl View for PollPass {
    type V = PassV;

    open spec fn view(&self) -> PassV {
        PassV {
            watch: views(self.watch@),
            skip: views(self.skip@),
            slug: self.slug@,
            token: self.token@,
            pulls: pull_views(self.pulls@),
        }
    }
}

/// What a pass waits for.
#[derive(Debug)]
#[allow(inconsistent_fields)]
pub enum GithubPoll {
    Accounts,
    Repo { watch: Vec<String> },
    /// The tokens so far, one per watched account, none where gh gave none.
    Tokens { watch: Vec<String>, slug: String, tokens: Vec<Option<String>> },
    Pulls { watch: Vec<String>, slug: String, token: String },
    /// A review request was handed over; these are left.
    Reviews { pass: PollPass, at: usize, left: Vec<NewTask> },
    Worktree { pass: PollPass, at: usize },
    Resolved { pass: PollPass, at: usize },
    Tasks { pass: PollPass, at: usize, resolved: Vec<u64> },
    Comments { pass: PollPass, at: usize, resolved: Vec<u64>, queued: Vec<u64> },
    /// The task for the comments was handed over.
    Comment { pass: PollPass, at: usize },
    Over,
}

#[allow(inconsistent_fields)]
pub enum PollV {
    Accounts,
    Repo { watch: Seq<Seq<char>> },
    Tokens { watch: Seq<Seq<char>>, slug: Seq<char>, tokens: Seq<Option<String>> },
    Pulls { watch: Seq<Seq<char>>, slug: Seq<char>, token: Seq<char> },
    Reviews { pass: PassV, at: int, left: Seq<NewTaskV> },
    Worktree { pass: PassV, at: int },
    Resolved { pass: PassV, at: int },
    Tasks { pass: PassV, at: int, resolved: Seq<u64> },
    Comments { pass: PassV, at: int, resolved: Seq<u64>, queued: Seq<u64> },
    Comment { pass: PassV, at: int },
    Over,
}

impl View for GithubPoll {
    type V = PollV;

    open spec fn view(&self) -> PollV {
        match *self {
            GithubPoll::Accounts => PollV::Accounts,
            GithubPoll::Repo { watch } => PollV::Repo { watch: views(watch@) },
            GithubPoll::Tokens { watch, slug, tokens } => PollV::Tokens {
                watch: views(watch@),
                slug: slug@,
                tokens: tokens@,
            },
            GithubPoll::Pulls { watch, slug, token } => PollV::Pulls {
                watch: views(watch@),
                slug: slug@,
                token: token@,
            },
            GithubPoll::Reviews { pass, at, left } => PollV::Reviews {
                pass: pass@,
                at: at as int,
                left: new_task_views(left@),
            },
            GithubPoll::Worktree { pass, at } => PollV::Worktree { pass: pass@, at: at as int },
            GithubPoll::Resolved { pass, at } => PollV::Resolved { pass: pass@, at: at as int },
            GithubPoll::Tasks { pass, at, resolved } => PollV::Tasks {
                pass: pass@,
                at: at as int,
                resolved: resolved@,
            },
            GithubPoll::Comments { pass, at, resolved, queued } => PollV::Comments {
                pass: pass@,
                at: at as int,
                resolved: resolved@,
                queued: queued@,
            },
            GithubPoll::Comment { pass, at } => PollV::Comment { pass: pass@, at: at as int },
            GithubPoll::Over => PollV::Over,
        }
    }
}

/// What is to be read or written next.
#[derive(Debug)]
#[allow(inconsistent_fields)]
pub enum GhAsk {
    /// The accounts that gh knows.
    Accounts,
    /// The repository to watch.
    Repo,
    Token { account: String },
    /// The open pull requests.
    Pulls { token: String, slug: String },
    /// Put the task into the queue, where no task has its key yet.
    Queue { task: NewTask },
    /// Whether the branch has a worktree here.
    Worktree { branch: String },
    /// The comments whose review thread is marked resolved.
    Resolved { token: String, slug: String, pr: u64 },
    /// The tasks in the queue.
    Tasks,
    /// The comments of the pull request.
    Comments { token: String, slug: String, pr: u64 },
    /// Nothing more: the pass ended.
    Over(Result<(), MaestroError>),
}

#[allow(inconsistent_fields)]
pub enum AskV {
    Accounts,
    Repo,
    Token { account: Seq<char> },
    Pulls { token: Seq<char>, slug: Seq<char> },
    Queue { task: NewTaskV },
    Worktree { branch: Seq<char> },
    Resolved { token: Seq<char>, slug: Seq<char>, pr: u64 },
    Tasks,
    Comments { token: Seq<char>, slug: Seq<char>, pr: u64 },
    Done,
    Failed { code: Seq<char>, text: Seq<char>, transient: bool },
}

/// The pass ended with this error.
pub open spec fn failed_with(e: MaestroError) -> AskV {
    AskV::Failed { code: e.code_text(), text: e.text(), transient: e.transient() }
}

/// The pass ended because something is not configured.
pub open spec fn unconfigured(text: Seq<char>) -> AskV {
    AskV::Failed { code: "config"@, text, transient: false }
}

impl View for GhAsk {
    type V = AskV;

    open spec fn view(&self) -> AskV {
        match *self {
            GhAsk::Accounts => AskV::Accounts,
            GhAsk::Repo => AskV::Repo,
            GhAsk::Token { account } => AskV::Token { account: account@ },
            GhAsk::Pulls { token, slug } => AskV::Pulls { token: token@, slug: slug@ },
            GhAsk::Queue { task } => AskV::Queue { task: task@ },
            GhAsk::Worktree { branch } => AskV::Worktree { branch: branch@ },
            GhAsk::Resolved { token, slug, pr } => AskV::Resolved {
                token: token@,
                slug: slug@,
                pr,
            },
            GhAsk::Tasks => AskV::Tasks,
            GhAsk::Comments { token, slug, pr } => AskV::Comments {
                token: token@,
                slug: slug@,
                pr,
            },
            GhAsk::Over(Ok(_)) => AskV::Done,
            GhAsk::Over(Err(e)) => failed_with(e),
        }
    }
}

/// What came of it.
#[derive(Debug)]
pub enum GhReply {
    Accounts(Result<Vec<GhAccount>, MaestroError>),
    Repo(Result<String, MaestroError>),
    Token(Result<String, MaestroError>),
    Pulls(Result<Vec<GhPull>, MaestroError>),
    Queued(Result<(), MaestroError>),
    Worktree(Result<bool, MaestroError>),
    Resolved(Result<Vec<u64>, MaestroError>),
    Tasks(Result<Vec<DaemonTask>, MaestroError>),
    Comments(Result<Vec<GhComment>, MaestroError>),
}

/// Whether a reply answers what the pass waits for.
pub open spec fn answers(p: PollV, reply: GhReply) -> bool {
    match p {
        PollV::Accounts => reply is Accounts,
        PollV::Repo { watch } => reply is Repo && watch.len() > 0,
        PollV::Tokens { watch, tokens, .. } => reply is Token && tokens.len() < watch.len(),
        PollV::Pulls { .. } => reply is Pulls,
        PollV::Reviews { pass, at, .. } => reply is Queued && at < pass.pulls.len(),
        PollV::Worktree { pass, at } => reply is Worktree && at < pass.pulls.len(),
        PollV::Resolved { pass, at } => reply is Resolved && at < pass.pulls.len(),
        PollV::Tasks { pass, at, .. } => reply is Tasks && at < pass.pulls.len(),
        PollV::Comments { pass, at, .. } => reply is Comments && at < pass.pulls.len(),
        PollV::Comment { pass, at } => reply is Queued && at < pass.pulls.len(),
        PollV::Over => false,
    }
}

// ---------------------------------------------------------------------------
// The steps
// ---------------------------------------------------------------------------

/// The next review request, or on to the comments.
pub open spec fn next_review(pass: PassV, at: int, left: Seq<NewTaskV>) -> (PollV, AskV) {
    if left.len() > 0 {
        (
            PollV::Reviews { pass, at, left: left.skip(1) },
            AskV::Queue { task: left[0] },
        )
    } else {
        (PollV::Worktree { pass, at }, AskV::Worktree { branch: pass.pulls[at].head_ref })
    }
}

/// The pull request at `at`, or the next one that is not skipped.
pub open spec fn next_pull(pass: PassV, at: int) -> (PollV, AskV)
    decreases pass.pulls.len() - at,
{
    if at < 0 || at >= pass.pulls.len() {
        (PollV::Over, AskV::Done)
    } else if is_skipped(pass.pulls[at].labels, pass.skip) {
        next_pull(pass, at + 1)
    } else {
        next_review(
            pass,
            at,
            review_tasks_of(pass.watch, pass.watch.len() > 1, pass.slug, pass.pulls[at]),
        )
    }
}

/// What a pass does on a reply.
pub open spec fn poll_step(
    p: PollV,
    watch_setting: Option<Seq<char>>,
    account_setting: Option<Seq<char>>,
    skip_setting: Option<Seq<char>>,
    reply: GhReply,
) -> (PollV, AskV) {
    match (p, reply) {
        (PollV::Accounts, GhReply::Accounts(Ok(accounts))) => {
            let watch = watch_list(
                listed_in(watch_setting),
                account_setting,
                account_views(accounts@),
            );
            if watch.len() == 0 {
                (
                    PollV::Over,
                    unconfigured(
                        "no gh account available — log in with `gh auth login` and pick one in the daemon panel"@,
                    ),
                )
            } else {
                (PollV::Repo { watch }, AskV::Repo)
            }
        },
        (PollV::Accounts, GhReply::Accounts(Err(e))) => (PollV::Over, failed_with(e)),
        (PollV::Repo { watch }, GhReply::Repo(Ok(slug))) => (
            PollV::Tokens { watch, slug: slug@, tokens: seq![] },
            AskV::Token { account: watch[0] },
        ),
        (PollV::Repo { watch }, GhReply::Repo(Err(e))) => (PollV::Over, failed_with(e)),
        (PollV::Tokens { watch, slug, tokens }, GhReply::Token(t)) => {
            let all = tokens.push(
                match t {
                    Ok(token) => Some(token),
                    Err(_) => None,
                },
            );
            if all.len() < watch.len() {
                (
                    PollV::Tokens { watch, slug, tokens: all },
                    AskV::Token { account: watch[all.len() as int] },
                )
            } else {
                match first_token(all, 0) {
                    Some(token) => (
                        PollV::Pulls { watch, slug, token },
                        AskV::Pulls { token, slug },
                    ),
                    None => (
                        PollV::Over,
                        unconfigured("no token available for any watched gh account"@),
                    ),
                }
            }
        },
        (PollV::Pulls { watch, slug, token }, GhReply::Pulls(Ok(pulls))) => next_pull(
            PassV {
                watch,
                skip: listed_in(skip_setting),
                slug,
                token,
                pulls: pull_views(pulls@),
            },
            0,
        ),
        (PollV::Pulls { .. }, GhReply::Pulls(Err(e))) => (PollV::Over, failed_with(e)),
        (PollV::Reviews { pass, at, left }, GhReply::Queued(Ok(_))) => next_review(pass, at, left),
        (PollV::Reviews { .. }, GhReply::Queued(Err(e))) => (PollV::Over, failed_with(e)),
        // Comments only matter on pull requests whose head branch we work on here.
        (PollV::Worktree { pass, at }, GhReply::Worktree(Ok(here))) => if here {
            (
                PollV::Resolved { pass, at },
                AskV::Resolved {
                    token: pass.token,
                    slug: pass.slug,
                    pr: pass.pulls[at].number,
                },
            )
        } else {
            next_pull(pass, at + 1)
        },
        (PollV::Worktree { .. }, GhReply::Worktree(Err(e))) => (PollV::Over, failed_with(e)),
        // Where the threads cannot be read, all comments count as unresolved.
        (PollV::Resolved { pass, at }, GhReply::Resolved(r)) => (
            PollV::Tasks {
                pass,
                at,
                resolved: match r {
                    Ok(ids) => ids@,
                    Err(_) => seq![],
                },
            },
            AskV::Tasks,
        ),
        (PollV::Tasks { pass, at, resolved }, GhReply::Tasks(r)) => (
            PollV::Comments {
                pass,
                at,
                resolved,
                queued: match r {
                    Ok(tasks) => covered_ids(
                        task_views(tasks@),
                        pass.slug,
                        pass.pulls[at].number,
                    ),
                    Err(_) => seq![],
                },
            },
            AskV::Comments { token: pass.token, slug: pass.slug, pr: pass.pulls[at].number },
        ),
        (
            PollV::Comments { pass, at, resolved, queued },
            GhReply::Comments(Ok(comments)),
        ) => {
            let news = news_of(comment_views(comments@), resolved, pass.watch, queued);
            if news.len() > 0 {
                (
                    PollV::Comment { pass, at },
                    AskV::Queue { task: comment_task_of(pass.slug, pass.pulls[at], news) },
                )
            } else {
                next_pull(pass, at + 1)
            }
        },
        (PollV::Comments { .. }, GhReply::Comments(Err(e))) => (PollV::Over, failed_with(e)),
        (PollV::Comment { pass, at }, GhReply::Queued(Ok(_))) => next_pull(pass, at + 1),
        (PollV::Comment { .. }, GhReply::Queued(Err(e))) => (PollV::Over, failed_with(e)),
        _ => (p, AskV::Done),
    }
}

fn review_step(pass: PollPass, at: usize, left: Vec<NewTask>) -> (r: (GithubPoll, GhAsk))
    requires
        at < pass.pulls@.len(),
    ensures
        (r.0@, r.1@) == next_review(pass@, at as int, new_task_views(left@)),
{
    let ghost lv = new_task_views(left@);
    if left.len() > 0 {
        let mut left: Vec<NewTask> = left;
        let task: NewTask = left.remove(0);
        assert(lv[0] == task@);
        assert(new_task_views(left@) =~= lv.skip(1));
        (GithubPoll::Reviews { pass, at, left }, GhAsk::Queue { task })
    } else {
        let branch: String = text_of(pass.pulls[at].head_ref.as_str());
        assert(pass@.pulls[at as int] == pass.pulls@[at as int]@);
        (GithubPoll::Worktree { pass, at }, GhAsk::Worktree { branch })
    }
}

fn pull_step(pass: PollPass, from: usize) -> (r: (GithubPoll, GhAsk))
    ensures
        (r.0@, r.1@) == next_pull(pass@, from as int),
{
    let mut at: usize = from;
    while at < pass.pulls.len()
        invariant
            next_pull(pass@, at as int) == next_pull(pass@, from as int),
        decreases pass.pulls@.len() - at,
    {
        assert(pass@.pulls[at as int] == pass.pulls@[at as int]@);
        if !skips(&pass.pulls[at], &pass.skip) {
            let left: Vec<NewTask> = review_tasks(&pass.watch, pass.slug.as_str(), &pass.pulls[at]);
            return review_step(pass, at, left);
        }
        at += 1;
    }
    (GithubPoll::Over, GhAsk::Over(Ok(())))
}

fn after_pull(pass: PollPass, at: usize) -> (r: (GithubPoll, GhAsk))
    requires
        at < pass.pulls@.len(),
    ensures
        (r.0@, r.1@) == next_pull(pass@, at + 1),
{
    let n: usize = pass.pulls.len();
    assert(at < n);
    pull_step(pass, at + 1)
}

fn no_ids() -> (r: Vec<u64>)
    ensures
        r@ == Seq::<u64>::empty(),
{
    Vec::new()
}

fn ended(e: MaestroError) -> (r: (GithubPoll, GhAsk))
    ensures
        r.0@ == PollV::Over,
        r.1@ == failed_with(e),
{
    (GithubPoll::Over, GhAsk::Over(Err(e)))
}

fn token_step(watch: Vec<String>, slug: String, tokens: Vec<Option<String>>) -> (r: (
    GithubPoll,
    GhAsk,
))
    ensures
        (r.0@, r.1@) == (if tokens@.len() < watch@.len() {
            (
                PollV::Tokens { watch: views(watch@), slug: slug@, tokens: tokens@ },
                AskV::Token { account: views(watch@)[tokens@.len() as int] },
            )
        } else {
            match first_token(tokens@, 0) {
                Some(token) => (
                    PollV::Pulls { watch: views(watch@), slug: slug@, token },
                    AskV::Pulls { token, slug: slug@ },
                ),
                None => (
                    PollV::Over,
                    unconfigured("no token available for any watched gh account"@),
                ),
            }
        }),
{
    if tokens.len() < watch.len() {
        let account: String = text_of(watch[tokens.len()].as_str());
        (GithubPoll::Tokens { watch, slug, tokens }, GhAsk::Token { account })
    } else {
        match primary_token(&tokens) {
            Ok(token) => {
                let ask: GhAsk = GhAsk::Pulls {
                    token: text_of(token.as_str()),
                    slug: text_of(slug.as_str()),
                };
                (GithubPoll::Pulls { watch, slug, token }, ask)
            },
            Err(e) => ended(e),
        }
    }
}

impl DaemonManager {
    /// A pass begins with the accounts that gh knows.
    pub fn begin_poll() -> (r: (GithubPoll, GhAsk))
        ensures
            r.0@ == PollV::Accounts,
            r.1@ == AskV::Accounts,
    {
        (GithubPoll::Accounts, GhAsk::Accounts)
    }

    /// One step of a pass: what came of the last thing it asked for, and what it asks for
    /// next. A pull request's contents are repo-scoped, not account-scoped — one working
    /// token is enough to see all of it; only "is one of us asked for a review" and "is this
    /// comment ours" look at every watched login.
    pub fn poll_github(&mut self, poll: GithubPoll, settings: &DaemonSettings, reply: GhReply) -> (r: (
        GithubPoll,
        GhAsk,
    ))
        requires
            answers(poll@, reply),
        ensures
            (r.0@, r.1@) == poll_step(
                poll@,
                opt_view(settings.watch_accounts),
                opt_view(settings.account),
                opt_view(settings.skip_labels),
                reply,
            ),
            opt_view(final(self).repo) == (if reply is Repo && reply->Repo_0 is Ok {
                Some(reply->Repo_0->Ok_0@)
            } else {
                opt_view(old(self).repo)
            }),
            final(self).last_poll == old(self).last_poll,
            final(self).last_error == old(self).last_error,
            final(self).utilization == old(self).utilization,
    {
        match (poll, reply) {
            (GithubPoll::Accounts, GhReply::Accounts(Ok(accounts))) => {
                let watched: Vec<String> = watched_accounts(
                    as_opt(&settings.watch_accounts),
                    as_opt(&settings.account),
                    &accounts,
                );
                match poll_accounts(watched) {
                    Ok(watch) => (GithubPoll::Repo { watch }, GhAsk::Repo),
                    Err(e) => ended(e),
                }
            },
            (GithubPoll::Accounts, GhReply::Accounts(Err(e))) => ended(e),
            (GithubPoll::Repo { watch }, GhReply::Repo(Ok(slug))) => {
                self.repo = Some(text_of(slug.as_str()));
                let none: Vec<Option<String>> = Vec::new();
                assert(none@ =~= seq![]);
                token_step(watch, slug, none)
            },
            (GithubPoll::Repo { .. }, GhReply::Repo(Err(e))) => ended(e),
            (GithubPoll::Tokens { watch, slug, tokens }, GhReply::Token(t)) => {
                let mut tokens: Vec<Option<String>> = tokens;
                tokens.push(
                    match t {
                        Ok(token) => Some(token),
                        Err(_) => None,
                    },
                );
                token_step(watch, slug, tokens)
            },
            (GithubPoll::Pulls { watch, slug, token }, GhReply::Pulls(Ok(pulls))) => {
                let skip: Vec<String> = skip_labels(as_opt(&settings.skip_labels));
                pull_step(PollPass { watch, skip, slug, token, pulls }, 0)
            },
            (GithubPoll::Pulls { .. }, GhReply::Pulls(Err(e))) => ended(e),
            (GithubPoll::Reviews { pass, at, left }, GhReply::Queued(Ok(_))) => review_step(
                pass,
                at,
                left,
            ),
            (GithubPoll::Reviews { .. }, GhReply::Queued(Err(e))) => ended(e),
            (GithubPoll::Worktree { pass, at }, GhReply::Worktree(Ok(here))) => {
                if here {
                    assert(pass@.pulls[at as int] == pass.pulls@[at as int]@);
                    let ask: GhAsk = GhAsk::Resolved {
                        token: text_of(pass.token.as_str()),
                        slug: text_of(pass.slug.as_str()),
                        pr: pass.pulls[at].number,
                    };
                    (GithubPoll::Resolved { pass, at }, ask)
                } else {
                    after_pull(pass, at)
                }
            },
            (GithubPoll::Worktree { .. }, GhReply::Worktree(Err(e))) => ended(e),
            (GithubPoll::Resolved { pass, at }, GhReply::Resolved(r)) => {
                let resolved: Vec<u64> = match r {
                    Ok(ids) => ids,
                    Err(_) => no_ids(),
                };
                (GithubPoll::Tasks { pass, at, resolved }, GhAsk::Tasks)
            },
            (GithubPoll::Tasks { pass, at, resolved }, GhReply::Tasks(r)) => {
                assert(pass@.pulls[at as int] == pass.pulls@[at as int]@);
                let pr: u64 = pass.pulls[at].number;
                let queued: Vec<u64> = match r {
                    Ok(tasks) => already_queued_comment_ids(&tasks, pass.slug.as_str(), pr),
                    Err(_) => no_ids(),
                };
                let ask: GhAsk = GhAsk::Comments {
                    token: text_of(pass.token.as_str()),
                    slug: text_of(pass.slug.as_str()),
                    pr,
                };
                (GithubPoll::Comments { pass, at, resolved, queued }, ask)
            },
            (
                GithubPoll::Comments { pass, at, resolved, queued },
                GhReply::Comments(Ok(comments)),
            ) => {
                assert(pass@.pulls[at as int] == pass.pulls@[at as int]@);
                match comment_task(
                    &pass.watch,
                    pass.slug.as_str(),
                    &pass.pulls[at],
                    &comments,
                    &resolved,
                    &queued,
                ) {
                    Some(task) => (GithubPoll::Comment { pass, at }, GhAsk::Queue { task }),
                    None => after_pull(pass, at),
                }
            },
            (GithubPoll::Comments { .. }, GhReply::Comments(Err(e))) => ended(e),
            (GithubPoll::Comment { pass, at }, GhReply::Queued(Ok(_))) => after_pull(pass, at),
            (GithubPoll::Comment { .. }, GhReply::Queued(Err(e))) => ended(e),
            (poll, _) => (poll, GhAsk::Over(Ok(()))),
        }
    }
}

// ---------------------------------------------------------------------------
// Laws
// ---------------------------------------------------------------------------

/// Whether a pass that waits can be told what came of it.
pub open spec fn can_go_on(p: PollV) -> bool {
    match p {
        PollV::Accounts => true,
        PollV::Repo { watch } => watch.len() > 0,
        PollV::Tokens { watch, tokens, .. } => tokens.len() < watch.len(),
        PollV::Pulls { .. } => true,
        PollV::Reviews { pass, at, .. } => 0 <= at < pass.pulls.len(),
        PollV::Worktree { pass, at } => 0 <= at < pass.pulls.len(),
        PollV::Resolved { pass, at } => 0 <= at < pass.pulls.len(),
        PollV::Tasks { pass, at, .. } => 0 <= at < pass.pulls.len(),
        PollV::Comments { pass, at, .. } => 0 <= at < pass.pulls.len(),
        PollV::Comment { pass, at } => 0 <= at < pass.pulls.len(),
        PollV::Over => true,
    }
}

proof fn lemma_next_pull(pass: PassV, at: int)
    requires
        0 <= at,
    ensures
        can_go_on(next_pull(pass, at).0),
        next_pull(pass, at).0 == PollV::Over <==> is_last(next_pull(pass, at).1),
    decreases pass.pulls.len() - at,
{
    if at < pass.pulls.len() && is_skipped(pass.pulls[at].labels, pass.skip) {
        lemma_next_pull(pass, at + 1);
    }
}

/// Whether a pass has said its last word.
pub open spec fn is_last(a: AskV) -> bool {
    a is Done || a is Failed
}

/// A pass never gets stuck: each step either ends it, and says so, or asks for something
/// whose reply it can take.
pub proof fn every_step_goes_on_or_ends(
    p: PollV,
    watch_setting: Option<Seq<char>>,
    account_setting: Option<Seq<char>>,
    skip_setting: Option<Seq<char>>,
    reply: GhReply,
)
    requires
        can_go_on(p),
        answers(p, reply),
    ensures
        ({
            let (n, a) = poll_step(p, watch_setting, account_setting, skip_setting, reply);
            &&& can_go_on(n)
            &&& n == PollV::Over <==> is_last(a)
        }),
{
    match (p, reply) {
        (PollV::Pulls { watch, slug, token }, GhReply::Pulls(Ok(pulls))) => {
            lemma_next_pull(
                PassV {
                    watch,
                    skip: listed_in(skip_setting),
                    slug,
                    token,
                    pulls: pull_views(pulls@),
                },
                0,
            );
        },
        (PollV::Worktree { pass, at }, _) => {
            lemma_next_pull(pass, at + 1);
        },
        (PollV::Comments { pass, at, .. }, _) => {
            lemma_next_pull(pass, at + 1);
        },
        (PollV::Comment { pass, at }, _) => {
            lemma_next_pull(pass, at + 1);
        },
        _ => {},
    }
}

/// A pull request with a skip label, whatever its case, is passed over: nothing is queued
/// for it and nothing more is asked about it.
pub proof fn a_skip_label_silences_a_pull(pass: PassV, at: int, label: Seq<char>, given: Seq<char>)
    requires
        0 <= at < pass.pulls.len(),
        pass.pulls[at].labels.contains(label),
        pass.skip.contains(given),
        lowercased(label) == lowercased(given),
    ensures
        next_pull(pass, at) == next_pull(pass, at + 1),
{
    let labels = pass.pulls[at].labels;
    let i = choose|i: int| 0 <= i < labels.len() && labels[i] == label;
    let j = choose|j: int| 0 <= j < pass.skip.len() && pass.skip[j] == given;
    assert(all_lowercased(pass.skip)[j] == lowercased(given));
    assert(all_lowercased(pass.skip).contains(lowercased(labels[i])));
}

/// A comment that is handed over once is not handed over again: where its task is in the
/// queue, the same comments make the pass go on to the next pull request.
pub proof fn queued_comments_are_passed_over(
    pass: PassV,
    at: int,
    resolved: Seq<u64>,
    queued: Seq<u64>,
    comments: Vec<GhComment>,
)
    requires
        news_of(comment_views(comments@), resolved, pass.watch, queued).len() == 0,
    ensures
        poll_step(
            PollV::Comments { pass, at, resolved, queued },
            None,
            None,
            None,
            GhReply::Comments(Ok(comments)),
        ) == next_pull(pass, at + 1),
{
}

} // verus!
