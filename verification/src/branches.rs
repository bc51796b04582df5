//! What is read of a branch and what goes out for it: comments and replies of its pull
//! request, the texts that describe it, and where it is opened.
use crate::clip::byte_len;
use crate::compose::{branch_vars, files_of, truncated, untracked_lines, BranchReads};
use crate::daemon::briefing::{includes, lemma_includes, lemma_includes_through};
use crate::daemon::github::{CommentV, NewCommentV, PullV};
use crate::diff::{biggest, old_path_of};
use crate::launcher::{explorer, invocation, is_editor, LaunchV, Platform, RiderSearch};
use crate::pr::{
    draft_comments, draft_replies, number_of, open_comments, replies_posted, reply_failures,
    short_base, worth_posting, DraftComment, PrCommentV, ReplyV,
};
use crate::error::MaestroError;
use crate::table::{t_get, t_get_put, t_put};
use crate::text::{decimal, has_prefix, has_suffix, is_blank, join, lines, lowered, opt_view, trim};
use crate::worktree::{base_of, worktree_of, BranchRecord, ChangedFileV, RepoInfo, WorktreeRef};
use vstd::prelude::*;

verus! {

// ---------------------------------------------------------------------------
// Pull requests
// ---------------------------------------------------------------------------

/// Every comment whose thread is open is listed, whole: with its id, author, file, body and
/// url, under its pull request.
pub proof fn every_open_comment_is_listed(
    pr: u64,
    comments: Seq<CommentV>,
    resolved: Seq<u64>,
    k: int,
)
    requires
        0 <= k < comments.len(),
        !resolved.contains(comments[k].id),
    ensures
        open_comments(pr, comments, resolved).contains(
            (PrCommentV {
                pr,
                id: comments[k].id,
                author: comments[k].author,
                path: match comments[k].path {
                    Some(p) => p,
                    None => seq![],
                },
                body: comments[k].body,
                url: comments[k].url,
            }),
        ),
    decreases comments.len(),
{
    let d = comments.drop_last();
    let before = open_comments(pr, d, resolved);
    let all = open_comments(pr, comments, resolved);
    let want = PrCommentV {
        pr,
        id: comments[k].id,
        author: comments[k].author,
        path: match comments[k].path {
            Some(p) => p,
            None => seq![],
        },
        body: comments[k].body,
        url: comments[k].url,
    };
    if k < d.len() {
        assert(d[k] == comments[k]);
        every_open_comment_is_listed(pr, d, resolved, k);
        let i = choose|i: int| 0 <= i < before.len() && before[i] == want;
        assert(all[i] == want);
    } else {
        assert(all[all.len() - 1] == want);
    }
}

/// A draft that answers a comment is posted as a reply to that comment, any other as a new
/// comment on its file and line; each with its own text, without blanks around it.
pub proof fn every_draft_goes_where_it_belongs(drafts: Seq<DraftComment>, k: int)
    requires
        0 <= k < drafts.len(),
        !is_blank(drafts[k].body@),
    ensures
        drafts[k].in_reply_to matches Some(id) ==> draft_replies(drafts).contains(
            (ReplyV { comment_id: id, body: trim(drafts[k].body@) }),
        ),
        drafts[k].in_reply_to is None ==> draft_comments(drafts).contains(
            (NewCommentV {
                path: drafts[k].path@,
                line: drafts[k].line,
                side: opt_view(drafts[k].side),
                body: trim(drafts[k].body@),
            }),
        ),
    decreases drafts.len(),
{
    let d = drafts.drop_last();
    let replies = draft_replies(d);
    let news = draft_comments(d);
    let all = draft_replies(drafts);
    let every = draft_comments(drafts);
    if k < d.len() {
        assert(d[k] == drafts[k]);
        every_draft_goes_where_it_belongs(d, k);
        match drafts[k].in_reply_to {
            Some(id) => {
                let want = ReplyV { comment_id: id, body: trim(drafts[k].body@) };
                let i = choose|i: int| 0 <= i < replies.len() && replies[i] == want;
                assert(all[i] == want);
            },
            None => {
                let want = NewCommentV {
                    path: drafts[k].path@,
                    line: drafts[k].line,
                    side: opt_view(drafts[k].side),
                    body: trim(drafts[k].body@),
                };
                let i = choose|i: int| 0 <= i < news.len() && news[i] == want;
                assert(every[i] == want);
            },
        }
    } else {
        match drafts[k].in_reply_to {
            Some(id) => {
                assert(all[all.len() - 1] == (ReplyV {
                    comment_id: id,
                    body: trim(drafts[k].body@),
                }));
            },
            None => {
                assert(every[every.len() - 1].body == trim(drafts[k].body@));
            },
        }
    }
}

/// A reply that is not blank is posted to its comment, without blanks around it.
pub proof fn every_filled_reply_is_posted(replies: Seq<ReplyV>, k: int)
    requires
        0 <= k < replies.len(),
        !is_blank(replies[k].body),
    ensures
        worth_posting(replies).contains(
            (ReplyV { comment_id: replies[k].comment_id, body: trim(replies[k].body) }),
        ),
    decreases replies.len(),
{
    let d = replies.drop_last();
    let before = worth_posting(d);
    let all = worth_posting(replies);
    let want = ReplyV { comment_id: replies[k].comment_id, body: trim(replies[k].body) };
    if k < d.len() {
        assert(d[k] == replies[k]);
        every_filled_reply_is_posted(d, k);
        let i = choose|i: int| 0 <= i < before.len() && before[i] == want;
        assert(all[i] == want);
    } else {
        assert(all[all.len() - 1] == want);
    }
}

/// Of the replies that were sent, each either counts as posted or is reported with its
/// comment and what went wrong.
pub proof fn every_reply_is_accounted_for(
    replies: Seq<ReplyV>,
    results: Seq<Option<String>>,
    k: int,
)
    requires
        replies.len() == results.len(),
    ensures
        replies_posted(results) + reply_failures(replies, results).len() == results.len(),
        0 <= k < results.len() && results[k] is Some ==> reply_failures(replies, results).contains(
            "reply to comment "@ + decimal(replies[k].comment_id as nat) + ": "@ + results[k]->0@,
        ),
    decreases results.len(),
{
    if results.len() > 0 {
        let r = replies.drop_last();
        let d = results.drop_last();
        every_reply_is_accounted_for(r, d, k);
        let before = reply_failures(r, d);
        let all = reply_failures(replies, results);
        if 0 <= k < results.len() && results[k] is Some {
            let want = "reply to comment "@ + decimal(replies[k].comment_id as nat) + ": "@
                + results[k]->0@;
            if k < d.len() {
                assert(d[k] == results[k] && r[k] == replies[k]);
                let i = choose|i: int| 0 <= i < before.len() && before[i] == want;
                assert(all[i] == want);
            } else {
                assert(all[all.len() - 1] == want);
            }
        }
    }
}

/// The base of a pull request is named without its remote.
pub proof fn a_base_is_named_without_its_remote(branch: Seq<char>)
    ensures
        short_base("origin/"@ + branch) == branch,
        !has_prefix(branch, "origin/"@) ==> short_base(branch) == branch,
{
    reveal_strlit("origin/");
    let origin = seq!['o', 'r', 'i', 'g', 'i', 'n', '/'];
    assert("origin/"@ =~= origin);
    let s = "origin/"@ + branch;
    assert(s.subrange(0, 7) =~= origin);
    assert(s.skip(7) =~= branch);
}

/// The pull request of a branch is one whose head it is, and is found where there is one.
pub proof fn the_pull_request_of_a_branch_is_found(
    pulls: Seq<PullV>,
    branch: Seq<char>,
    i: int,
    k: int,
)
    requires
        0 <= i,
    ensures
        i <= k < pulls.len() && pulls[k].head_ref == branch ==> number_of(pulls, branch, i) is Some,
        number_of(pulls, branch, i) matches Some(n) ==> exists|j: int|
            0 <= j < pulls.len() && (#[trigger] pulls[j]).head_ref == branch && pulls[j].number
                == n,
    decreases pulls.len() - i,
{
    if i < pulls.len() && pulls[i].head_ref != branch {
        the_pull_request_of_a_branch_is_found(pulls, branch, i + 1, k);
    }
}

// ---------------------------------------------------------------------------
// What describes a branch
// ---------------------------------------------------------------------------

/// A diff that fits is described as it stands; of a longer one, the beginning that fits, and
/// it says so.
pub proof fn a_long_diff_is_cut(text: Seq<char>, max: nat)
    ensures
        byte_len(text) <= max ==> truncated(text, max) == text,
        byte_len(text) > max ==> exists|n: int|
            0 <= n <= text.len() && truncated(text, max) == #[trigger] text.take(n)
                + "\n… (diff truncated)"@ && byte_len(text.take(n)) <= max && (n < text.len()
                ==> byte_len(text.take(n + 1)) > max),
{
    crate::clip::a_beginning_fits_and_is_the_longest(text, max);
}

proof fn lemma_untracked(ls: Seq<Seq<char>>, k: int)
    requires
        0 <= k < ls.len(),
        has_prefix(ls[k], seq!['?', '?']),
    ensures
        untracked_lines(ls).contains(ls[k]),
    decreases ls.len(),
{
    let d = ls.drop_last();
    let before = untracked_lines(d);
    let all = untracked_lines(ls);
    if k < d.len() {
        assert(d[k] == ls[k]);
        lemma_untracked(d, k);
        let i = choose|i: int| 0 <= i < before.len() && before[i] == ls[k];
        assert(all[i] == ls[k]);
    } else {
        assert(all[all.len() - 1] == ls[k]);
    }
}

/// The files of a branch are those that changed and, one by one, those that are new and not
/// tracked yet.
pub proof fn new_files_are_named(reads: BranchReads, k: int)
    requires
        0 <= k < lines(reads.status@).len(),
        has_prefix(lines(reads.status@)[k], "??"@),
    ensures
        includes(files_of(reads), lines(reads.status@)[k]),
        includes(files_of(reads), reads.stat@),
{
    reveal_strlit("??");
    assert("??"@ =~= seq!['?', '?']);
    let ls = lines(reads.status@);
    lemma_untracked(ls, k);
    let found = untracked_lines(ls);
    let i = choose|i: int| 0 <= i < found.len() && found[i] == ls[k];
    crate::upkeep::lemma_joined(found, "\n"@, i);
    let new = join(found, "\n"@);
    let all = files_of(reads);
    assert(ls[k].len() >= 2);
    let (a, b) = choose|a: Seq<char>, b: Seq<char>|
        new == #[trigger] crate::daemon::briefing::between(a, ls[k], b);
    assert(new.len() > 0);
    assert(all =~= (reads.stat@ + "\n"@) + new + seq![]);
    lemma_includes(all, reads.stat@ + "\n"@, new, seq![]);
    lemma_includes_through(all, new, ls[k]);
    assert(all =~= seq![] + reads.stat@ + ("\n"@ + new));
    lemma_includes(all, seq![], reads.stat@, "\n"@ + new);
}

/// The template of a branch's description gets the branch, its task, its base, its files, its
/// diff and its commits, each under its own name.
pub proof fn a_branch_is_described_with_its_diff(
    branch: Seq<char>,
    record: BranchRecord,
    base: Seq<char>,
    reads: BranchReads,
)
    ensures
        ({
            let vars = branch_vars(branch, record, base, reads);
            &&& t_get(vars, "branch"@) == Some(branch)
            &&& t_get(vars, "base"@) == Some(base)
            &&& t_get(vars, "files"@) == Some(files_of(reads))
            &&& t_get(vars, "diff"@) == Some(truncated(reads.diff@, 60000))
            &&& record.task_id matches Some(t) ==> t_get(vars, "task_id"@) == Some(t@)
            &&& reads.commits matches Some(c) ==> t_get(vars, "commits"@) == Some(c@)
        }),
{
    reveal_strlit("branch");
    reveal_strlit("task_id");
    reveal_strlit("base");
    reveal_strlit("files");
    reveal_strlit("diff");
    reveal_strlit("commits");
    assert("branch"@.len() == 6 && "task_id"@.len() == 7 && "base"@.len() == 4 && "files"@.len()
        == 5 && "diff"@.len() == 4 && "commits"@.len() == 7);
    assert("base"@[0] == 'b' && "diff"@[0] == 'd' && "task_id"@[0] == 't' && "commits"@[0] == 'c');
    let none = Seq::<(Seq<char>, Seq<char>)>::empty();
    let task = match opt_view(record.task_id) {
        Some(t) => t,
        None => seq![],
    };
    let diff = truncated(reads.diff@, 60000);
    let commits = match reads.commits {
        Some(c) => c@,
        None => seq![],
    };
    let a = t_put(none, "branch"@, branch);
    let b = t_put(a, "task_id"@, task);
    let c = t_put(b, "base"@, base);
    let d = t_put(c, "files"@, files_of(reads));
    let e = t_put(d, "diff"@, diff);
    crate::asking::lemma_put_unique(none, "branch"@, branch);
    crate::asking::lemma_put_unique(a, "task_id"@, task);
    crate::asking::lemma_put_unique(b, "base"@, base);
    crate::asking::lemma_put_unique(c, "files"@, files_of(reads));
    crate::asking::lemma_put_unique(d, "diff"@, diff);
    let keys = seq!["branch"@, "task_id"@, "base"@, "files"@, "diff"@, "commits"@];
    let vars = branch_vars(branch, record, base, reads);
    assert(vars == t_put(e, "commits"@, commits));
    assert forall|i: int| 0 <= i < 6 implies #[trigger] t_get(vars, keys[i]) == (if keys[i]
        == "commits"@ {
        Some(commits)
    } else if keys[i] == "diff"@ {
        Some(diff)
    } else if keys[i] == "files"@ {
        Some(files_of(reads))
    } else if keys[i] == "base"@ {
        Some(base)
    } else if keys[i] == "task_id"@ {
        Some(task)
    } else {
        Some(branch)
    }) by {
        let k = keys[i];
        t_get_put(e, "commits"@, commits, k);
        t_get_put(d, "diff"@, diff, k);
        t_get_put(c, "files"@, files_of(reads), k);
        t_get_put(b, "base"@, base, k);
        t_get_put(a, "task_id"@, task, k);
        t_get_put(none, "branch"@, branch, k);
    }
    assert(t_get(vars, keys[0]) is Some && t_get(vars, keys[1]) is Some && t_get(vars, keys[2])
        is Some && t_get(vars, keys[3]) is Some && t_get(vars, keys[4]) is Some && t_get(
        vars,
        keys[5],
    ) is Some);
}

// ---------------------------------------------------------------------------
// Worktrees, diffs, editors
// ---------------------------------------------------------------------------

/// The worktree of a branch is one that has it checked out, and is found where there is one.
pub proof fn the_worktree_of_a_branch_is_found(
    list: Seq<WorktreeRef>,
    branch: Seq<char>,
    i: int,
    k: int,
)
    requires
        0 <= i,
    ensures
        i <= k < list.len() && opt_view(list[k].branch) == Some(branch) ==> worktree_of(
            list,
            branch,
            i,
        ) is Some,
        worktree_of(list, branch, i) matches Some(path) ==> exists|j: int|
            0 <= j < list.len() && opt_view((#[trigger] list[j]).branch) == Some(branch)
                && list[j].path@ == path,
    decreases list.len() - i,
{
    if i < list.len() && opt_view(list[i].branch) != Some(branch) {
        the_worktree_of_a_branch_is_found(list, branch, i + 1, k);
    }
}

/// What a branch is held against: what is asked for, else what its record says, else the
/// default branch of the repository.
pub proof fn what_a_branch_is_held_against(
    given: Option<Seq<char>>,
    stored: Option<Seq<char>>,
    repo: Option<RepoInfo>,
)
    ensures
        given is Some && trim(given->0).len() > 0 ==> base_of(given, stored, repo) == Some(
            trim(given->0),
        ),
        (given is None || trim(given->0).len() == 0) && stored is Some ==> base_of(
            given,
            stored,
            repo,
        ) == stored,
        (given is None || trim(given->0).len() == 0) && stored is None && repo is Some
            ==> base_of(given, stored, repo) == Some(repo->0.default_branch@),
        (given is None || trim(given->0).len() == 0) && stored is None && repo is None ==> base_of(
            given,
            stored,
            repo,
        ) is None,
{
}

/// The old side of a renamed file is read under its old name, that of any other under its
/// own.
pub proof fn a_renamed_file_is_read_under_its_old_name(
    files: Seq<ChangedFileV>,
    path: Seq<char>,
    k: int,
)
    requires
        0 <= k < files.len(),
        files[k].path == path,
        forall|j: int| 0 <= j < k ==> (#[trigger] files[j]).path != path,
    ensures
        old_path_of(files, path, 0) == (match files[k].old_path {
            Some(p) => p,
            None => path,
        }),
{
    lemma_old_path(files, path, 0, k);
}

proof fn lemma_old_path(files: Seq<ChangedFileV>, path: Seq<char>, i: int, k: int)
    requires
        0 <= i <= k < files.len(),
        files[k].path == path,
        forall|j: int| 0 <= j < k ==> (#[trigger] files[j]).path != path,
    ensures
        old_path_of(files, path, i) == old_path_of(files, path, k),
    decreases k - i,
{
    if i < k {
        assert(files[i].path != path);
        lemma_old_path(files, path, i + 1, k);
    }
}

/// The size of a diff is that of its larger side; a side that is missing has none.
pub proof fn the_larger_side_counts(old: Seq<char>, new: Seq<char>)
    ensures
        biggest(Some(old), Some(new)) >= byte_len(old),
        biggest(Some(old), Some(new)) >= byte_len(new),
        biggest(Some(old), Some(new)) == byte_len(old) || biggest(Some(old), Some(new))
            == byte_len(new),
        biggest(None, Some(new)) == byte_len(new),
        biggest(Some(old), None) == byte_len(old),
        biggest(None, None) == 0,
{
}

/// An editor is called with the path; a batch file goes through the command interpreter.
pub proof fn how_an_editor_is_called(editor: Seq<char>, path: Seq<char>)
    ensures
        has_suffix(lowered(editor), ".cmd"@) || has_suffix(lowered(editor), ".bat"@)
            ==> invocation(editor, path) == (LaunchV {
            program: "cmd"@,
            args: seq!["/C"@, editor, path],
        }),
        !has_suffix(lowered(editor), ".cmd"@) && !has_suffix(lowered(editor), ".bat"@)
            ==> invocation(editor, path) == (LaunchV { program: editor, args: seq![path] }),
        explorer(Platform::Windows) == "explorer"@,
        explorer(Platform::MacOs) == "open"@,
        explorer(Platform::Other) == "xdg-open"@,
{
}

/// The configured editor is used where there is one.
pub proof fn the_configured_editor_is_used(
    r: Result<String, MaestroError>,
    setting: Seq<char>,
    search: RiderSearch,
)
    requires
        trim(setting).len() > 0,
        is_editor(r, Some(setting), search),
    ensures
        r matches Ok(e) && e@ == trim(setting),
{
}

} // verus!
