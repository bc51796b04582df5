//! User-initiated PR actions: create a pull request, list its review comments, post
//! replies. This is the *human's* half of the review loop — the daemon only ever prepares
//! text; everything in this module runs because a button was clicked.
//!
//! All GitHub calls act as the account picked in the daemon panel; gh's globally active
//! account is never switched.
use crate::daemon::github::{
    account_views, comment_views, has_id, new_comment_views, pull_views, CommentV, GhAccount,
    GhComment, GhPull, NewCommentV, NewReviewComment, PullV,
};
use crate::daemon::{acting_account, resolve_account};
use crate::error::{is_config, is_invalid_data, MaestroError};
use crate::text::{
    blank, chars_of, decimal, decimal_text, has_prefix, is_blank, opt_text, opt_view, same_text,
    part_of, starts_with, text_of, trim, trim_text, views,
};
use crate::worktree::{
    base_of, no_worktree_text, require_worktree, resolve_base, worktree_of, RepoInfo, WorktreeRef,
    NO_REPOSITORY,
};
use vstd::prelude::*;
use vstd::string::*;

verus! {

/// What `create` did, for the dialog's success view.
#[derive(Debug)]
pub struct CreatedPr {
    pub url: String,
    pub push_report: String,
}

/// One review comment of the branch's open PR.
#[derive(Debug)]
pub struct PrComment {
    pub pr: u64,
    pub id: u64,
    pub author: String,
    pub path: String,
    pub body: String,
    pub url: String,
}

#[verifier::ext_equal]
pub struct PrCommentV {
    pub pr: u64,
    pub id: u64,
    pub author: Seq<char>,
    pub path: Seq<char>,
    pub body: Seq<char>,
    pub url: Seq<char>,
}

impl View for PrComment {
    type V = PrCommentV;

    open spec fn view(&self) -> PrCommentV {
        PrCommentV {
            pr: self.pr,
            id: self.id,
            author: self.author@,
            path: self.path@,
            body: self.body@,
            url: self.url@,
        }
    }
}

pub open spec fn pr_comment_views(s: Seq<PrComment>) -> Seq<PrCommentV> {
    s.map_values(|c: PrComment| c@)
}

/// Result of posting one reply.
#[derive(Debug)]
pub struct ReplyOutcome {
    pub comment_id: u64,
    pub ok: bool,
    /// The reply's URL on success, the error message on failure.
    pub detail: String,
}

/// One comment a human approved for posting — either a reply to a comment that already
/// exists (`in_reply_to` set) or a brand-new one anchored to a file+line. What the
/// review-comments dialog hands `post_review_comments`.
#[derive(Debug)]
pub struct DraftComment {
    pub path: String,
    pub line: u64,
    pub side: Option<String>,
    pub body: String,
    pub in_reply_to: Option<u64>,
}

/// Result of `post_review_comments`. New comments are grouped into one review submission
/// (GitHub's own grouping), so a failure there is one entry covering all of them, not one
/// per comment.
#[derive(Debug)]
pub struct PostCommentsOutcome {
    pub posted: usize,
    pub failed: Vec<String>,
}

/// A reply to be posted.
#[derive(Debug)]
pub struct Reply {
    pub comment_id: u64,
    pub body: String,
}

#[verifier::ext_equal]
pub struct ReplyV {
    pub comment_id: u64,
    pub body: Seq<char>,
}

impl View for Reply {
    type V = ReplyV;

    open spec fn view(&self) -> ReplyV {
        ReplyV { comment_id: self.comment_id, body: self.body@ }
    }
}

pub open spec fn reply_views(s: Seq<Reply>) -> Seq<ReplyV> {
    s.map_values(|r: Reply| r@)
}

// ---------------------------------------------------------------------------
// Creating a pull request
// ---------------------------------------------------------------------------

pub const NO_ACCOUNT: &'static str = "no gh account available — log in with `gh auth login`";

pub const NO_TITLE: &'static str = "a PR needs a title";

/// A remote-tracking name ("origin/main", "origin/feature/x") reduced to its short form — PRs target branch
/// names, not refs.
pub open spec fn short_base(base: Seq<char>) -> Seq<char> {
    let origin = seq!['o', 'r', 'i', 'g', 'i', 'n', '/'];
    if has_prefix(base, origin) {
        base.skip(7)
    } else {
        base
    }
}

fn shortened(base: String) -> (r: String)
    ensures
        r@ == short_base(base@),
{
    let s: Vec<char> = chars_of(base.as_str());
    let origin: Vec<char> = vec!['o', 'r', 'i', 'g', 'i', 'n', '/'];
    assert(origin@ =~= seq!['o', 'r', 'i', 'g', 'i', 'n', '/']);
    if starts_with(s.as_slice(), origin.as_slice()) {
        assert(s@.skip(7) =~= s@.subrange(7, s@.len() as int));
        part_of(s.as_slice(), 7, s.len())
    } else {
        base
    }
}

/// A pull request to be opened once the branch is pushed.
#[derive(Debug)]
pub struct PrPlan {
    pub title: String,
    pub base: String,
    pub cwd: String,
}

/// The pull requests of the open repository.
#[derive(Debug)]
pub struct PrManager {}

impl PrManager {
    /// The account to act as: the one picked in the daemon panel, else gh's active one.
    pub fn account(setting: Option<&str>, accounts: &Vec<GhAccount>) -> (r: Result<
        String,
        MaestroError,
    >)
        ensures
            ({
                let a = acting_account(
                    match setting {
                        Some(s) => Some(s@),
                        None => None,
                    },
                    account_views(accounts@),
                );
                if a.len() == 0 {
                    r matches Err(e) && is_config(e, NO_ACCOUNT@)
                } else {
                    r matches Ok(name) && name@ == a
                }
            }),
    {
        let account: String = resolve_account(setting, accounts);
        let n: usize = account.as_str().unicode_len();
        if n == 0 {
            return Err(MaestroError::Config { message: text_of(NO_ACCOUNT) });
        }
        Ok(account)
    }

    /// The base to open the PR against: an explicit override, else the branch's stored base,
    /// else the repository's default branch.
    pub fn resolve_pr_base(base: Option<&str>, stored: &Option<String>, repo: Option<&RepoInfo>) -> (r:
        Result<String, MaestroError>)
        ensures
            match base_of(
                match base {
                    Some(g) => Some(g@),
                    None => None,
                },
                opt_view(*stored),
                match repo {
                    Some(i) => Some(*i),
                    None => None,
                },
            ) {
                Some(b) => r matches Ok(t) && t@ == short_base(b),
                None => r matches Err(e) && is_config(e, NO_REPOSITORY@),
            },
    {
        match resolve_base(base, stored, repo) {
            Ok(b) => Ok(shortened(b)),
            Err(e) => Err(e),
        }
    }

    /// What to open a PR for `branch` with. The branch must be committed; the dialog handles
    /// the commit step first. `base` overrides the stored/default base when the user picked
    /// one explicitly.
    pub fn create(
        branch: &str,
        title: &str,
        base: Option<&str>,
        worktrees: &Vec<WorktreeRef>,
        stored: &Option<String>,
        repo: Option<&RepoInfo>,
    ) -> (r: Result<PrPlan, MaestroError>)
        ensures
            if is_blank(title@) {
                r matches Err(e) && is_invalid_data(e, NO_TITLE@)
            } else {
                match worktree_of(worktrees@, branch@, 0) {
                    None => r matches Err(e) && is_invalid_data(e, no_worktree_text(branch@)),
                    Some(cwd) => match base_of(
                        match base {
                            Some(g) => Some(g@),
                            None => None,
                        },
                        opt_view(*stored),
                        match repo {
                            Some(i) => Some(*i),
                            None => None,
                        },
                    ) {
                        None => r matches Err(e) && is_config(e, NO_REPOSITORY@),
                        Some(b) => r matches Ok(p) && p.title@ == trim(title@) && p.base@
                            == short_base(b) && p.cwd@ == cwd,
                    },
                }
            },
    {
        if blank(title) {
            return Err(MaestroError::InvalidData { message: text_of(NO_TITLE) });
        }
        let cwd: String = match require_worktree(worktrees, branch) {
            Ok(p) => p,
            Err(e) => return Err(e),
        };
        match Self::resolve_pr_base(base, stored, repo) {
            Ok(b) => Ok(PrPlan { title: trim_text(title), base: b, cwd }),
            Err(e) => Err(e),
        }
    }

    /// The number of the open PR whose head is `branch`.
    pub fn pull_of(pulls: &Vec<GhPull>, branch: &str) -> (r: Option<u64>)
        ensures
            r == number_of(pull_views(pulls@), branch@, 0),
    {
        let ghost pv = pull_views(pulls@);
        let mut i: usize = 0;
        while i < pulls.len()
            invariant
                i <= pulls@.len(),
                pv == pull_views(pulls@),
                number_of(pv, branch@, 0) == number_of(pv, branch@, i as int),
            decreases pulls@.len() - i,
        {
            assert(pv[i as int] == pulls@[i as int]@);
            if same_text(pulls[i].head_ref.as_str(), branch) {
                return Some(pulls[i].number);
            }
            i += 1;
        }
        None
    }

    /// Review comments of an open PR. Comments whose thread is already resolved on GitHub
    /// are left out — there is nothing to reply to on a thread either side
    /// already marked done.
    pub fn comments(pr: u64, comments: &Vec<GhComment>, resolved: &Vec<u64>) -> (r: Vec<PrComment>)
        ensures
            pr_comment_views(r@) == open_comments(pr, comment_views(comments@), resolved@),
    {
        let ghost cv = comment_views(comments@);
        let mut r: Vec<PrComment> = Vec::new();
        let mut i: usize = 0;
        assert(pr_comment_views(r@) =~= open_comments(pr, cv.take(0), resolved@));
        while i < comments.len()
            invariant
                i <= comments@.len(),
                cv == comment_views(comments@),
                pr_comment_views(r@) == open_comments(pr, cv.take(i as int), resolved@),
            decreases comments@.len() - i,
        {
            assert(cv.take(i + 1).drop_last() =~= cv.take(i as int));
            assert(cv.take(i + 1).last() == comments@[i as int]@);
            let c: &GhComment = &comments[i];
            if !has_id(resolved, c.id) {
                let ghost done = pr_comment_views(r@);
                let path: String = match &c.path {
                    Some(p) => text_of(p.as_str()),
                    None => String::new(),
                };
                assert(c.path is None ==> path@ =~= seq![]);
                let comment: PrComment = PrComment {
                    pr,
                    id: c.id,
                    author: text_of(c.author.as_str()),
                    path,
                    body: text_of(c.body.as_str()),
                    url: text_of(c.url.as_str()),
                };
                let ghost pv = comment@;
                r.push(comment);
                assert(pr_comment_views(r@) =~= done.push(pv));
            }
            i += 1;
        }
        assert(cv.take(i as int) =~= cv);
        r
    }

    /// The replies to post, one per comment; blank ones are left out.
    pub fn replies(replies: &Vec<Reply>) -> (r: Vec<Reply>)
        ensures
            reply_views(r@) == worth_posting(reply_views(replies@)),
    {
        let ghost rv = reply_views(replies@);
        let mut r: Vec<Reply> = Vec::new();
        let mut i: usize = 0;
        assert(reply_views(r@) =~= worth_posting(rv.take(0)));
        while i < replies.len()
            invariant
                i <= replies@.len(),
                rv == reply_views(replies@),
                reply_views(r@) == worth_posting(rv.take(i as int)),
            decreases replies@.len() - i,
        {
            assert(rv.take(i + 1).drop_last() =~= rv.take(i as int));
            assert(rv.take(i + 1).last() == replies@[i as int]@);
            if !blank(replies[i].body.as_str()) {
                let ghost done = reply_views(r@);
                let reply: Reply = Reply {
                    comment_id: replies[i].comment_id,
                    body: trim_text(replies[i].body.as_str()),
                };
                let ghost pv = reply@;
                r.push(reply);
                assert(reply_views(r@) =~= done.push(pv));
            }
            i += 1;
        }
        assert(rv.take(i as int) =~= rv);
        r
    }

    /// What came of posting a reply. Each reply stands alone: a failure on one does not roll
    /// back the others.
    pub fn reply(comment_id: u64, result: Result<String, String>) -> (r: ReplyOutcome)
        ensures
            r.comment_id == comment_id,
            match result {
                Ok(url) => r.ok && r.detail@ == url@,
                Err(message) => !r.ok && r.detail@ == message@,
            },
    {
        match result {
            Ok(url) => ReplyOutcome { comment_id, ok: true, detail: url },
            Err(message) => ReplyOutcome { comment_id, ok: false, detail: message },
        }
    }

    /// What to post of a human-approved batch of draft comments — the review-comments
    /// dialog's "Approve" action. Replies each go through the reply endpoint individually;
    /// brand-new comments are grouped into one review submission, since that is how GitHub
    /// itself groups "here is a batch of findings". Blank drafts are left out.
    pub fn plan_comments(drafts: &Vec<DraftComment>) -> (r: CommentPlan)
        ensures
            r.wf(),
            reply_views(r.replies@) == draft_replies(drafts@),
            new_comment_views(r.review@) == draft_comments(drafts@),
    {
        let mut replies: Vec<Reply> = Vec::new();
        let mut review: Vec<NewReviewComment> = Vec::new();
        let mut i: usize = 0;
        assert(reply_views(replies@) =~= draft_replies(drafts@.take(0)));
        assert(new_comment_views(review@) =~= draft_comments(drafts@.take(0)));
        while i < drafts.len()
            invariant
                i <= drafts@.len(),
                replies@.len() + review@.len() <= i,
                reply_views(replies@) == draft_replies(drafts@.take(i as int)),
                new_comment_views(review@) == draft_comments(drafts@.take(i as int)),
            decreases drafts@.len() - i,
        {
            assert(drafts@.take(i + 1).drop_last() =~= drafts@.take(i as int));
            let d: &DraftComment = &drafts[i];
            if !blank(d.body.as_str()) {
                let body: String = trim_text(d.body.as_str());
                match d.in_reply_to {
                    Some(comment_id) => {
                        let ghost done = reply_views(replies@);
                        let reply: Reply = Reply { comment_id, body };
                        let ghost pv = reply@;
                        replies.push(reply);
                        assert(reply_views(replies@) =~= done.push(pv));
                    },
                    None => {
                        let ghost done = new_comment_views(review@);
                        let comment: NewReviewComment = NewReviewComment {
                            path: text_of(d.path.as_str()),
                            line: d.line,
                            side: opt_text(&d.side),
                            body,
                        };
                        let ghost pv = comment@;
                        review.push(comment);
                        assert(new_comment_views(review@) =~= done.push(pv));
                    },
                }
            }
            i += 1;
        }
        assert(drafts@.take(i as int) =~= drafts@);
        CommentPlan { replies, review }
    }

    /// What came of posting a plan: `replies` holds for each of its replies the error it met,
    /// `review` the error that the review submission met.
    pub fn post_review_comments(
        plan: &CommentPlan,
        replies: &Vec<Option<String>>,
        review: Option<String>,
    ) -> (r: PostCommentsOutcome)
        requires
            plan.wf(),
            replies@.len() == plan.replies@.len(),
        ensures
            r.posted == replies_posted(replies@) + (if review is None {
                plan.review@.len()
            } else {
                0
            }),
            views(r.failed@) == reply_failures(reply_views(plan.replies@), replies@) + (
            if review is None || plan.review@.len() == 0 {
                seq![]
            } else {
                seq![review_failure(plan.review@.len(), review->0@)]
            }),
    {
        let ghost rv = reply_views(plan.replies@);
        let mut posted: usize = 0;
        let mut failed: Vec<String> = Vec::new();
        let mut i: usize = 0;
        assert(views(failed@) =~= reply_failures(rv.take(0), replies@.take(0)));
        while i < replies.len()
            invariant
                i <= replies@.len(),
                replies@.len() == plan.replies@.len(),
                rv == reply_views(plan.replies@),
                posted <= i,
                posted == replies_posted(replies@.take(i as int)),
                views(failed@) == reply_failures(rv.take(i as int), replies@.take(i as int)),
            decreases replies@.len() - i,
        {
            assert(replies@.take(i + 1).drop_last() =~= replies@.take(i as int));
            assert(rv.take(i + 1).drop_last() =~= rv.take(i as int));
            assert(rv[i as int] == plan.replies@[i as int]@);
            match &replies[i] {
                None => {
                    posted += 1;
                },
                Some(message) => {
                    let ghost done = views(failed@);
                    let text: String = text_of("reply to comment ").concat(
                        decimal_text(plan.replies[i].comment_id).as_str(),
                    ).concat(": ").concat(message.as_str());
                    let ghost tv = text@;
                    failed.push(text);
                    assert(views(failed@) =~= done.push(tv));
                },
            }
            i += 1;
        }
        assert(replies@.take(i as int) =~= replies@);
        assert(rv.take(i as int) =~= rv);
        let count: usize = plan.review.len();
        let ghost done = views(failed@);
        match review {
            None => {
                posted += count;
                assert(done =~= done + seq![]);
            },
            Some(message) => {
                if count > 0 {
                    let text: String = text_of("review with ").concat(
                        decimal_text(count as u64).as_str(),
                    ).concat(" new comment(s): ").concat(message.as_str());
                    let ghost tv = text@;
                    failed.push(text);
                    assert(views(failed@) =~= done + seq![tv]);
                } else {
                    assert(done =~= done + seq![]);
                }
            },
        }
        PostCommentsOutcome { posted, failed }
    }
}

pub open spec fn number_of(pulls: Seq<PullV>, branch: Seq<char>, i: int) -> Option<u64>
    decreases pulls.len() - i,
{
    if i < 0 || i >= pulls.len() {
        None
    } else if pulls[i].head_ref == branch {
        Some(pulls[i].number)
    } else {
        number_of(pulls, branch, i + 1)
    }
}

/// The comments of a PR that are not resolved.
pub open spec fn open_comments(pr: u64, comments: Seq<CommentV>, resolved: Seq<u64>) -> Seq<
    PrCommentV,
>
    decreases comments.len(),
{
    if comments.len() == 0 {
        seq![]
    } else {
        let before = open_comments(pr, comments.drop_last(), resolved);
        let c = comments.last();
        if resolved.contains(c.id) {
            before
        } else {
            before.push(
                PrCommentV {
                    pr,
                    id: c.id,
                    author: c.author,
                    path: match c.path {
                        Some(p) => p,
                        None => seq![],
                    },
                    body: c.body,
                    url: c.url,
                },
            )
        }
    }
}

/// The replies that say something, trimmed.
pub open spec fn worth_posting(replies: Seq<ReplyV>) -> Seq<ReplyV>
    decreases replies.len(),
{
    if replies.len() == 0 {
        seq![]
    } else if is_blank(replies.last().body) {
        worth_posting(replies.drop_last())
    } else {
        worth_posting(replies.drop_last()).push(
            (ReplyV { body: trim(replies.last().body), ..replies.last() }),
        )
    }
}

/// The replies among drafts, as far as they say something.
pub open spec fn draft_replies(drafts: Seq<DraftComment>) -> Seq<ReplyV>
    decreases drafts.len(),
{
    if drafts.len() == 0 {
        seq![]
    } else {
        let before = draft_replies(drafts.drop_last());
        let d = drafts.last();
        match d.in_reply_to {
            Some(comment_id) => if is_blank(d.body@) {
                before
            } else {
                before.push(ReplyV { comment_id, body: trim(d.body@) })
            },
            None => before,
        }
    }
}

/// The brand-new comments among drafts, as far as they say something.
pub open spec fn draft_comments(drafts: Seq<DraftComment>) -> Seq<NewCommentV>
    decreases drafts.len(),
{
    if drafts.len() == 0 {
        seq![]
    } else {
        let before = draft_comments(drafts.drop_last());
        let d = drafts.last();
        if d.in_reply_to is Some || is_blank(d.body@) {
            before
        } else {
            before.push(
                NewCommentV {
                    path: d.path@,
                    line: d.line,
                    side: opt_view(d.side),
                    body: trim(d.body@),
                },
            )
        }
    }
}

/// What to post of a batch of drafts.
#[derive(Debug)]
pub struct CommentPlan {
    pub replies: Vec<Reply>,
    pub review: Vec<NewReviewComment>,
}

impl CommentPlan {
    pub open spec fn wf(self) -> bool {
        self.replies@.len() + self.review@.len() <= usize::MAX
    }
}

pub open spec fn replies_posted(results: Seq<Option<String>>) -> nat
    decreases results.len(),
{
    if results.len() == 0 {
        0
    } else if results.last() is None {
        replies_posted(results.drop_last()) + 1
    } else {
        replies_posted(results.drop_last())
    }
}

pub open spec fn reply_failures(replies: Seq<ReplyV>, results: Seq<Option<String>>) -> Seq<
    Seq<char>,
>
    decreases results.len(),
{
    if results.len() == 0 {
        seq![]
    } else {
        let before = reply_failures(replies.drop_last(), results.drop_last());
        match results.last() {
            Some(message) => before.push(
                "reply to comment "@ + decimal(replies.last().comment_id as nat) + ": "@
                    + message@,
            ),
            None => before,
        }
    }
}

pub open spec fn review_failure(count: nat, message: Seq<char>) -> Seq<char> {
    "review with "@ + decimal(count) + " new comment(s): "@ + message
}

/// A blank draft adds nothing to what is posted.
pub proof fn blank_drafts_are_never_posted(drafts: Seq<DraftComment>, d: DraftComment)
    requires
        is_blank(d.body@),
    ensures
        draft_replies(drafts.push(d)) == draft_replies(drafts),
        draft_comments(drafts.push(d)) == draft_comments(drafts),
{
    assert(drafts.push(d).drop_last() =~= drafts);
}

pub open spec fn count_filled(drafts: Seq<DraftComment>) -> nat
    decreases drafts.len(),
{
    if drafts.len() == 0 {
        0
    } else if is_blank(drafts.last().body@) {
        count_filled(drafts.drop_last())
    } else {
        count_filled(drafts.drop_last()) + 1
    }
}

/// As many comments are posted, replies and new ones together, as there are drafts that say
/// something.
pub proof fn every_filled_draft_is_posted_once(drafts: Seq<DraftComment>)
    ensures
        draft_replies(drafts).len() + draft_comments(drafts).len() == count_filled(drafts),
    decreases drafts.len(),
{
    if drafts.len() > 0 {
        every_filled_draft_is_posted_once(drafts.drop_last());
    }
}

/// Comments whose thread is resolved are never shown.
pub proof fn resolved_comments_are_left_out(pr: u64, comments: Seq<CommentV>, resolved: Seq<u64>)
    ensures
        forall|i: int|
            0 <= i < open_comments(pr, comments, resolved).len() ==> !resolved.contains(
                (#[trigger] open_comments(pr, comments, resolved)[i]).id,
            ),
    decreases comments.len(),
{
    if comments.len() > 0 {
        let before = open_comments(pr, comments.drop_last(), resolved);
        let all = open_comments(pr, comments, resolved);
        resolved_comments_are_left_out(pr, comments.drop_last(), resolved);
        assert forall|i: int| 0 <= i < all.len() implies !resolved.contains(
            (#[trigger] all[i]).id,
        ) by {
            if i < before.len() {
                assert(all[i] == before[i]);
            }
        }
    }
}

} // verus!
