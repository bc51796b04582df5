//! From what GitHub and Jira say to what a session is told: nothing that is asked of the
//! user's accounts is lost on the way, and each part arrives in its place.
use crate::bus::EventV;
use crate::daemon::briefing::{
    a_review_is_told_what_to_review, every_comment_is_in_the_prompt, includes,
    research_is_told_the_issue,
};
use crate::daemon::github::{
    comment_of, comments_of, pull_of, pulls_of, resolved_in, with_numbers, AccountV, CommentV,
    GhComment, PullV,
};
use crate::daemon::jira::{issue_of, issues_of, IssueV};
use crate::daemon::poll::{next_pull, next_review, poll_step, AskV, GhReply, PassV, PollV};
use crate::daemon::queue::{
    all_lowercased, comment_payload, comment_task_of, comment_value, comment_values, end_events,
    ends_turn, is_skipped, issue_payload, issue_task_of, news_of, review_payload, review_task,
    review_tasks_of, NewTaskV,
};
use crate::daemon::start::{comment_prompt, research_prompt, review_prompt, with_guide};
use crate::daemon::{
    known_logins, knows_login, poll_error, poll_minutes, watch_list, DaemonTask, TaskV,
};
use crate::error::MaestroError;
use crate::json::{bool_in, json_written, list_in, member, sub_member, text_in, unsigned_in, JsonV};
use crate::session::SessionStatus;
use crate::text::{decimal, is_blank, lowercased, parsed_number};
use vstd::prelude::*;

verus! {

// ---------------------------------------------------------------------------
// What GitHub says
// ---------------------------------------------------------------------------

/// Every open pull request with a number, a title and a head branch is read, with its own
/// number, title, head, author, description and url.
pub proof fn every_pull_request_is_read(
    items: Seq<JsonV>,
    k: int,
    number: u64,
    title: Seq<char>,
    head_ref: Seq<char>,
)
    requires
        0 <= k < items.len(),
        unsigned_in(member(items[k], "number"@)) == Some(number),
        text_in(member(items[k], "title"@)) == Some(title),
        text_in(sub_member(items[k], "head"@, "ref"@)) == Some(head_ref),
    ensures
        exists|p: PullV| #[trigger]
            pulls_of(items).contains(p) && p.number == number && p.title == title && p.head_ref
                == head_ref && (text_in(member(items[k], "body"@)) is Some ==> Some(p.body)
                == text_in(member(items[k], "body"@))) && (text_in(
                sub_member(items[k], "user"@, "login"@),
            ) is Some ==> Some(p.author) == text_in(sub_member(items[k], "user"@, "login"@))) && (
            text_in(sub_member(items[k], "head"@, "sha"@)) is Some ==> Some(p.head_sha) == text_in(
                sub_member(items[k], "head"@, "sha"@),
            )) && (text_in(member(items[k], "html_url"@)) is Some ==> Some(p.url) == text_in(
                member(items[k], "html_url"@),
            )),
{
    let p = pull_of(items[k])->0;
    lemma_pull(items, k, p);
}

proof fn lemma_pull(items: Seq<JsonV>, k: int, p: PullV)
    requires
        0 <= k < items.len(),
        pull_of(items[k]) == Some(p),
    ensures
        pulls_of(items).contains(p),
    decreases items.len(),
{
    let d = items.drop_last();
    let before = pulls_of(d);
    let all = pulls_of(items);
    if k < d.len() {
        assert(d[k] == items[k]);
        lemma_pull(d, k, p);
        let i = choose|i: int| 0 <= i < before.len() && before[i] == p;
        assert(all[i] == p);
    } else {
        assert(all[all.len() - 1] == p);
    }
}

/// Whom a pull request asks for a review is read by login, and its labels by name, as the
/// pull request lists them.
pub proof fn reviewers_and_labels_are_read(
    v: JsonV,
    p: PullV,
    reviewers: Seq<JsonV>,
    labels: Seq<JsonV>,
    k: int,
    text: Seq<char>,
)
    requires
        pull_of(v) == Some(p),
        list_in(member(v, "requested_reviewers"@)) == Some(reviewers),
        list_in(member(v, "labels"@)) == Some(labels),
    ensures
        0 <= k < reviewers.len() && text_in(member(reviewers[k], "login"@)) == Some(text)
            ==> p.requested_reviewers.contains(text),
        0 <= k < labels.len() && text_in(member(labels[k], "name"@)) == Some(text)
            ==> p.labels.contains(text),
{
    if 0 <= k < reviewers.len() && text_in(member(reviewers[k], "login"@)) == Some(text) {
        lemma_text_under(reviewers, "login"@, k, text);
    }
    if 0 <= k < labels.len() && text_in(member(labels[k], "name"@)) == Some(text) {
        lemma_text_under(labels, "name"@, k, text);
    }
}

proof fn lemma_text_under(items: Seq<JsonV>, key: Seq<char>, k: int, text: Seq<char>)
    requires
        0 <= k < items.len(),
        text_in(member(items[k], key)) == Some(text),
    ensures
        crate::daemon::github::texts_under(items, key).contains(text),
    decreases items.len(),
{
    let d = items.drop_last();
    let before = crate::daemon::github::texts_under(d, key);
    let all = crate::daemon::github::texts_under(items, key);
    if k < d.len() {
        assert(d[k] == items[k]);
        lemma_text_under(d, key, k, text);
        let i = choose|i: int| 0 <= i < before.len() && before[i] == text;
        assert(all[i] == text);
    } else {
        assert(all[all.len() - 1] == text);
    }
}

/// Every comment with an id and a body is read, with its own author, file and url.
pub proof fn every_comment_is_read(items: Seq<JsonV>, k: int, id: u64, body: Seq<char>)
    requires
        0 <= k < items.len(),
        unsigned_in(member(items[k], "id"@)) == Some(id),
        text_in(member(items[k], "body"@)) == Some(body),
    ensures
        exists|c: CommentV| #[trigger]
            comments_of(items).contains(c) && c.id == id && c.body == body && c.path == text_in(
                member(items[k], "path"@),
            ) && c.review_id == unsigned_in(member(items[k], "pull_request_review_id"@)) && (
            text_in(sub_member(items[k], "user"@, "login"@)) is Some ==> Some(c.author) == text_in(
                sub_member(items[k], "user"@, "login"@),
            )) && (text_in(member(items[k], "html_url"@)) is Some ==> Some(c.url) == text_in(
                member(items[k], "html_url"@),
            )),
{
    let c = comment_of(items[k])->0;
    lemma_comment(items, k, c);
}

proof fn lemma_comment(items: Seq<JsonV>, k: int, c: CommentV)
    requires
        0 <= k < items.len(),
        comment_of(items[k]) == Some(c),
    ensures
        comments_of(items).contains(c),
    decreases items.len(),
{
    let d = items.drop_last();
    let before = comments_of(d);
    let all = comments_of(items);
    if k < d.len() {
        assert(d[k] == items[k]);
        lemma_comment(d, k, c);
        let i = choose|i: int| 0 <= i < before.len() && before[i] == c;
        assert(all[i] == c);
    } else {
        assert(all[all.len() - 1] == c);
    }
}

proof fn lemma_numbers(ids: Seq<u64>, items: Seq<JsonV>, key: Seq<char>, id: u64)
    ensures
        with_numbers(ids, items, key).contains(id) <==> ids.contains(id) || exists|k: int|
            0 <= k < items.len() && unsigned_in(member(#[trigger] items[k], key)) == Some(id),
    decreases items.len(),
{
    let all = with_numbers(ids, items, key);
    if items.len() > 0 {
        let d = items.drop_last();
        let before = with_numbers(ids, d, key);
        lemma_numbers(ids, d, key, id);
        let last = unsigned_in(member(items.last(), key));
        if exists|k: int| 0 <= k < d.len() && unsigned_in(member(#[trigger] d[k], key)) == Some(id) {
            let k = choose|k: int|
                0 <= k < d.len() && unsigned_in(member(#[trigger] d[k], key)) == Some(id);
            assert(unsigned_in(member(items[k], key)) == Some(id));
        }
        if exists|k: int|
            0 <= k < items.len() && unsigned_in(member(#[trigger] items[k], key)) == Some(id) {
            let k = choose|k: int|
                0 <= k < items.len() && unsigned_in(member(#[trigger] items[k], key)) == Some(id);
            if k < d.len() {
                assert(unsigned_in(member(d[k], key)) == Some(id));
            }
        }
        if before.contains(id) {
            let i = choose|i: int| 0 <= i < before.len() && before[i] == id;
            assert(all[i] == id);
        }
        if last is Some {
            assert(unsigned_in(member(items[items.len() - 1], key)) == last);
            if !before.contains(last->0) {
                assert(all[all.len() - 1] == last->0);
                if all.contains(id) {
                    let i = choose|i: int| 0 <= i < all.len() && all[i] == id;
                    if i < before.len() {
                        assert(before[i] == id);
                    }
                }
            }
        }
    }
}

/// Whether a comment belongs to a review thread that is marked resolved.
pub open spec fn in_resolved_thread(threads: Seq<JsonV>, id: u64) -> bool {
    exists|t: int, k: int|
        #![trigger list_in(sub_member(threads[t], "comments"@, "nodes"@))->0[k]]
        0 <= t < threads.len() && bool_in(member(threads[t], "isResolved"@)) == Some(true)
            && list_in(sub_member(threads[t], "comments"@, "nodes"@)) is Some && 0 <= k < list_in(
            sub_member(threads[t], "comments"@, "nodes"@),
        )->0.len() && unsigned_in(
            member(
                list_in(sub_member(threads[t], "comments"@, "nodes"@))->0[k],
                "databaseId"@,
            ),
        ) == Some(id)
}

/// The resolved comments are exactly those of the threads that are marked resolved.
pub proof fn resolved_comments_are_those_of_resolved_threads(threads: Seq<JsonV>, id: u64)
    ensures
        resolved_in(threads).contains(id) <==> in_resolved_thread(threads, id),
    decreases threads.len(),
{
    if threads.len() > 0 {
        let d = threads.drop_last();
        let t = threads.last();
        resolved_comments_are_those_of_resolved_threads(d, id);
        let before = resolved_in(d);
        if in_resolved_thread(d, id) {
            let (x, k) = choose|x: int, k: int|
                #![trigger list_in(sub_member(d[x], "comments"@, "nodes"@))->0[k]]
                0 <= x < d.len() && bool_in(member(d[x], "isResolved"@)) == Some(true) && list_in(
                    sub_member(d[x], "comments"@, "nodes"@),
                ) is Some && 0 <= k < list_in(sub_member(d[x], "comments"@, "nodes"@))->0.len()
                    && unsigned_in(
                    member(
                        list_in(sub_member(d[x], "comments"@, "nodes"@))->0[k],
                        "databaseId"@,
                    ),
                ) == Some(id);
            assert(threads[x] == d[x]);
            let same = list_in(sub_member(threads[x], "comments"@, "nodes"@))->0[k];
            assert(in_resolved_thread(threads, id));
        }
        if bool_in(member(t, "isResolved"@)) == Some(true) && list_in(
            sub_member(t, "comments"@, "nodes"@),
        ) is Some {
            let l = list_in(sub_member(t, "comments"@, "nodes"@))->0;
            lemma_numbers(before, l, "databaseId"@, id);
            assert(threads[threads.len() - 1] == t);
            if exists|k: int|
                0 <= k < l.len() && unsigned_in(member(#[trigger] l[k], "databaseId"@)) == Some(id) {
                let k = choose|k: int|
                    0 <= k < l.len() && unsigned_in(member(#[trigger] l[k], "databaseId"@))
                        == Some(id);
                let same = list_in(
                    sub_member(threads[threads.len() - 1], "comments"@, "nodes"@),
                )->0[k];
                assert(in_resolved_thread(threads, id));
            }
        }
        if in_resolved_thread(threads, id) && !in_resolved_thread(d, id) {
            let (x, k) = choose|x: int, k: int|
                #![trigger list_in(sub_member(threads[x], "comments"@, "nodes"@))->0[k]]
                0 <= x < threads.len() && bool_in(member(threads[x], "isResolved"@)) == Some(true)
                    && list_in(sub_member(threads[x], "comments"@, "nodes"@)) is Some && 0 <= k
                    < list_in(sub_member(threads[x], "comments"@, "nodes"@))->0.len()
                    && unsigned_in(
                    member(
                        list_in(sub_member(threads[x], "comments"@, "nodes"@))->0[k],
                        "databaseId"@,
                    ),
                ) == Some(id);
            if x < d.len() {
                assert(d[x] == threads[x]);
                let same = list_in(sub_member(d[x], "comments"@, "nodes"@))->0[k];
                assert(in_resolved_thread(d, id));
            } else {
                let l = list_in(sub_member(t, "comments"@, "nodes"@))->0;
                assert(unsigned_in(member(l[k], "databaseId"@)) == Some(id));
            }
        }
    }
}

/// Every issue with a key is read, with its summary, and its url on the site.
pub proof fn every_issue_is_read(items: Seq<JsonV>, site: Seq<char>, k: int, key: Seq<char>)
    requires
        0 <= k < items.len(),
        text_in(member(items[k], "key"@)) == Some(key),
        member(items[k], "fields"@) is Some,
    ensures
        exists|i: IssueV| #[trigger]
            issues_of(items, site).contains(i) && i.key == key && i.url == site + "/browse/"@ + key
                && (text_in(sub_member(items[k], "fields"@, "summary"@)) is Some ==> Some(i.summary)
                == text_in(sub_member(items[k], "fields"@, "summary"@))) && (text_in(
                sub_member(items[k], "fields"@, "description"@),
            ) matches Some(d) ==> i.description == (if d.len() <= 4000 {
                d
            } else {
                d.take(4000)
            })),
{
    let i = issue_of(items[k], site)->0;
    lemma_issue(items, site, k, i);
}

proof fn lemma_issue(items: Seq<JsonV>, site: Seq<char>, k: int, i: IssueV)
    requires
        0 <= k < items.len(),
        issue_of(items[k], site) == Some(i),
    ensures
        issues_of(items, site).contains(i),
    decreases items.len(),
{
    let d = items.drop_last();
    let before = issues_of(d, site);
    let all = issues_of(items, site);
    if k < d.len() {
        assert(d[k] == items[k]);
        lemma_issue(d, site, k, i);
        let n = choose|n: int| 0 <= n < before.len() && before[n] == i;
        assert(all[n] == i);
    } else {
        assert(all[all.len() - 1] == i);
    }
}

// ---------------------------------------------------------------------------
// What is queued
// ---------------------------------------------------------------------------

/// A review is queued for a watched account exactly where its review is requested, once for
/// each, as a review task of that pull request.
pub proof fn a_requested_review_is_queued(
    watch: Seq<Seq<char>>,
    many: bool,
    slug: Seq<char>,
    p: PullV,
    account: Seq<char>,
)
    ensures
        watch.contains(account) && p.requested_reviewers.contains(account) ==> review_tasks_of(
            watch,
            many,
            slug,
            p,
        ).contains(review_task(many, account, slug, p)),
        review_tasks_of(watch, many, slug, p).len() <= watch.len(),
        review_tasks_of(watch, many, slug, p).len() > 0 ==> exists|a: Seq<char>|
            watch.contains(a) && #[trigger] p.requested_reviewers.contains(a),
        ({
            let t = review_task(many, account, slug, p);
            &&& t.kind == "pr_review"@
            &&& t.title == "PR #"@ + decimal(p.number as nat) + " review requested: "@ + p.title
            &&& t.payload == json_written(review_payload(p))
        }),
    decreases watch.len(),
{
    if watch.len() > 0 {
        let d = watch.drop_last();
        a_requested_review_is_queued(d, many, slug, p, account);
        let before = review_tasks_of(d, many, slug, p);
        let all = review_tasks_of(watch, many, slug, p);
        if before.len() > 0 {
            let a = choose|a: Seq<char>|
                d.contains(a) && #[trigger] p.requested_reviewers.contains(a);
            let i = choose|i: int| 0 <= i < d.len() && d[i] == a;
            assert(watch[i] == a);
            assert(watch.contains(a));
        }
        if p.requested_reviewers.contains(watch.last()) {
            assert(watch[watch.len() - 1] == watch.last());
            assert(all[all.len() - 1] == review_task(many, watch.last(), slug, p));
        }
        if watch.contains(account) && p.requested_reviewers.contains(account) {
            let i = choose|i: int| 0 <= i < watch.len() && watch[i] == account;
            if i < d.len() {
                assert(d[i] == account);
                let t = review_task(many, account, slug, p);
                let n = choose|n: int| 0 <= n < before.len() && before[n] == t;
                assert(all[n] == t);
            }
        }
    }
}

/// With one watched account or several, the reviews of two accounts, or of two heads, have
/// keys of their own, so none replaces the other.
pub proof fn reviews_of_two_accounts_are_told_apart(
    a: Seq<char>,
    b: Seq<char>,
    slug: Seq<char>,
    p: PullV,
)
    requires
        a.len() == b.len(),
        a != b,
    ensures
        review_task(true, a, slug, p).key != review_task(true, b, slug, p).key,
{
    let x = review_task(true, a, slug, p).key;
    let y = review_task(true, b, slug, p).key;
    if x == y {
        let n = "pr-review:"@.len() as int;
        assert(x.subrange(n, n + a.len()) =~= a);
        assert(y.subrange(n, n + b.len()) =~= b);
    }
}

proof fn lemma_review_keys(p: PullV)
    ensures
        unsigned_in(member(review_payload(p), "pr"@)) == Some(p.number),
        text_in(member(review_payload(p), "pr_title"@)) == Some(p.title),
        text_in(member(review_payload(p), "pr_body"@)) == Some(p.body),
        text_in(member(review_payload(p), "author"@)) == Some(p.author),
        text_in(member(review_payload(p), "head_ref"@)) == Some(p.head_ref),
        text_in(member(review_payload(p), "url"@)) == Some(p.url),
{
    reveal_strlit("pr");
    reveal_strlit("pr_title");
    reveal_strlit("pr_body");
    reveal_strlit("author");
    reveal_strlit("head_ref");
    reveal_strlit("head_sha");
    reveal_strlit("url");
    assert("pr"@.len() == 2 && "pr_title"@.len() == 8 && "pr_body"@.len() == 7 && "author"@.len()
        == 6 && "head_ref"@.len() == 8 && "head_sha"@.len() == 8 && "url"@.len() == 3);
    assert("pr_title"@[0] == 'p' && "head_ref"@[0] == 'h' && "head_ref"@[5] == 'r'
        && "head_sha"@[5] == 's' && "head_sha"@[0] == 'h');
}

/// A queued review reaches its session whole: number, author, title, url and description of
/// the pull request are in its prompt.
pub proof fn a_queued_review_reaches_its_session(p: PullV, guide: Seq<char>)
    ensures
        includes(
            with_guide(review_prompt(review_payload(p)), guide),
            "Your review was requested on PR #"@ + decimal(p.number as nat) + " by "@ + p.author
                + ".\n\nTitle: "@ + p.title + "\n"@ + p.url + "\n\nPR description:\n"@ + p.body,
        ),
        text_in(member(review_payload(p), "head_ref"@)) == Some(p.head_ref),
{
    lemma_review_keys(p);
    a_review_is_told_what_to_review(
        review_payload(p),
        p.number,
        p.author,
        p.title,
        p.url,
        p.body,
        guide,
    );
}

proof fn lemma_comment_keys(c: CommentV)
    ensures
        unsigned_in(member(comment_value(c), "comment_id"@)) == Some(c.id),
        text_in(member(comment_value(c), "author"@)) == Some(c.author),
        text_in(member(comment_value(c), "path"@)) == c.path,
        text_in(member(comment_value(c), "body"@)) == Some(c.body),
        text_in(member(comment_value(c), "url"@)) == Some(c.url),
{
    reveal_strlit("comment_id");
    reveal_strlit("review_id");
    reveal_strlit("author");
    reveal_strlit("path");
    reveal_strlit("body");
    reveal_strlit("url");
    assert("comment_id"@[0] == 'c' && "review_id"@[0] == 'r' && "author"@[0] == 'a' && "path"@[0]
        == 'p' && "body"@[0] == 'b' && "url"@[0] == 'u');
}

proof fn lemma_payload_keys(p: PullV, comments: Seq<CommentV>)
    ensures
        unsigned_in(member(comment_payload(p, comments), "pr"@)) == Some(p.number),
        text_in(member(comment_payload(p, comments), "head_ref"@)) == Some(p.head_ref),
        list_in(member(comment_payload(p, comments), "comments"@)) == Some(
            comment_values(comments),
        ),
{
    reveal_strlit("pr");
    reveal_strlit("pr_title");
    reveal_strlit("head_ref");
    reveal_strlit("comments");
    assert("pr"@.len() == 2 && "pr_title"@[0] == 'p' && "head_ref"@[0] == 'h' && "comments"@[0]
        == 'c' && "pr_title"@.len() == 8 && "head_ref"@.len() == 8 && "comments"@.len() == 8);
}

/// A queued comment reaches its session whole: its id, author, body and url stand next to
/// each other in the prompt.
pub proof fn a_queued_comment_reaches_its_session(
    p: PullV,
    comments: Seq<CommentV>,
    k: int,
    guide: Seq<char>,
    style: Seq<char>,
)
    requires
        0 <= k < comments.len(),
        comments[k].path is Some,
    ensures
        ({
            let c = comments[k];
            includes(
                with_guide(with_guide(comment_prompt(comment_payload(p, comments)), guide), style),
                "[comment "@ + decimal(c.id as nat) + "] "@ + c.author + ":\n"@ + c.body + "\n"@
                    + c.url + "\n\n"@,
            )
        }),
        text_in(member(comment_payload(p, comments), "head_ref"@)) == Some(p.head_ref),
{
    let c = comments[k];
    lemma_payload_keys(p, comments);
    lemma_comment_keys(c);
    let l = comment_values(comments);
    assert(l[k] == comment_value(c));
    every_comment_is_in_the_prompt(
        comment_payload(p, comments),
        l,
        k,
        c.id,
        c.author,
        c.path->0,
        c.body,
        c.url,
        guide,
        style,
    );
}

/// A queued issue reaches its session whole, and is queued under its key.
pub proof fn a_queued_issue_reaches_its_session(i: IssueV)
    ensures
        includes(
            research_prompt(issue_payload(i)),
            i.key + ": "@ + i.summary + "\n"@ + i.url + "\n\n"@ + i.description,
        ),
        text_in(member(issue_payload(i), "key"@)) == Some(i.key),
        text_in(member(issue_payload(i), "summary"@)) == Some(i.summary),
        issue_task_of(i).key == "jira:"@ + i.key,
        issue_task_of(i).kind == "jira"@,
        issue_task_of(i).title == i.key + " "@ + i.summary,
        issue_task_of(i).payload == json_written(issue_payload(i)),
{
    reveal_strlit("key");
    reveal_strlit("summary");
    reveal_strlit("description");
    reveal_strlit("url");
    assert("key"@[0] == 'k' && "summary"@[0] == 's' && "description"@[0] == 'd' && "url"@[0]
        == 'u');
    research_is_told_the_issue(issue_payload(i), i.key, i.summary, i.url, i.description);
}

/// A task about comments is one of its pull request, and says how many there are.
pub proof fn a_comment_task_says_what_it_is(slug: Seq<char>, p: PullV, comments: Seq<CommentV>)
    ensures
        ({
            let t = comment_task_of(slug, p, comments);
            let prefix = "pr-comment:"@ + slug + "#"@ + decimal(p.number as nat) + ":"@;
            let head = "PR #"@ + decimal(p.number as nat) + " — "@ + decimal(comments.len())
                + " review comment"@;
            &&& t.kind == "pr_comment"@
            &&& t.payload == json_written(comment_payload(p, comments))
            &&& t.key.len() >= prefix.len() && t.key.take(prefix.len() as int) == prefix
            &&& t.title.len() >= head.len() && t.title.take(head.len() as int) == head
        }),
{
    let t = comment_task_of(slug, p, comments);
    let prefix = "pr-comment:"@ + slug + "#"@ + decimal(p.number as nat) + ":"@;
    let head = "PR #"@ + decimal(p.number as nat) + " — "@ + decimal(comments.len())
        + " review comment"@;
    assert(t.key.take(prefix.len() as int) =~= prefix);
    assert(t.title.take(head.len() as int) =~= head);
}

// ---------------------------------------------------------------------------
// Whom it is asked of
// ---------------------------------------------------------------------------

/// The accounts that are watched: those of the setting that gh knows; where there is none,
/// the one to act as, which is the configured one or else the active one.
pub proof fn which_accounts_are_watched(
    watch: Seq<Seq<char>>,
    account: Option<Seq<char>>,
    accounts: Seq<AccountV>,
    login: Seq<char>,
)
    ensures
        (exists|w: Seq<char>| watch.contains(w) && #[trigger] knows_login(accounts, w)) ==> (
        watch_list(watch, account, accounts).contains(login) <==> watch.contains(login)
            && knows_login(accounts, login)),
        (forall|w: Seq<char>| watch.contains(w) ==> !(#[trigger] knows_login(accounts, w)))
            && account is Some && !is_blank(account->0) ==> watch_list(watch, account, accounts)
            == seq![account->0],
{
    lemma_known(watch, accounts, login);
    let configured = known_logins(watch, accounts);
    if exists|w: Seq<char>| watch.contains(w) && #[trigger] knows_login(accounts, w) {
        let w = choose|w: Seq<char>| watch.contains(w) && #[trigger] knows_login(accounts, w);
        lemma_known(watch, accounts, w);
        assert(configured.len() > 0);
    } else if configured.len() > 0 {
        lemma_known(watch, accounts, configured[0]);
        assert(configured.contains(configured[0]));
        assert(knows_login(accounts, configured[0]));
    }
    if account is Some && !is_blank(account->0) {
        assert(account->0.len() > 0) by {
            if account->0.len() == 0 {
                assert(account->0 =~= seq![]);
                assert(crate::text::trim(account->0).len() == 0);
            }
        }
    }
}

proof fn lemma_known(logins: Seq<Seq<char>>, accounts: Seq<AccountV>, login: Seq<char>)
    ensures
        known_logins(logins, accounts).contains(login) <==> logins.contains(login) && knows_login(
            accounts,
            login,
        ),
    decreases logins.len(),
{
    if logins.len() > 0 {
        let d = logins.drop_last();
        let before = known_logins(d, accounts);
        let all = known_logins(logins, accounts);
        lemma_known(d, accounts, login);
        if d.contains(login) {
            let i = choose|i: int| 0 <= i < d.len() && d[i] == login;
            assert(logins[i] == login);
        }
        if logins.contains(login) {
            let i = choose|i: int| 0 <= i < logins.len() && logins[i] == login;
            if i < d.len() {
                assert(d[i] == login);
            }
        }
        if before.contains(login) {
            let i = choose|i: int| 0 <= i < before.len() && before[i] == login;
            assert(all[i] == login);
        }
        if all.contains(login) {
            let i = choose|i: int| 0 <= i < all.len() && all[i] == login;
            if i < before.len() {
                assert(before[i] == login);
            } else {
                assert(logins[logins.len() - 1] == login);
            }
        }
        if all.len() > before.len() {
            assert(all[all.len() - 1] == logins.last());
        }
    }
}

// ---------------------------------------------------------------------------
// A pass over the pull requests
// ---------------------------------------------------------------------------

/// A pull request without a skip label is gone through: each requested review is handed over
/// in turn, and then the pass asks whether its head branch is worked on here.
pub proof fn a_pull_request_is_gone_through(pass: PassV, at: int, left: Seq<NewTaskV>)
    requires
        0 <= at < pass.pulls.len(),
        forall|i: int, j: int|
            0 <= i < pass.pulls[at].labels.len() && 0 <= j < pass.skip.len() ==> lowercased(
                #[trigger] pass.pulls[at].labels[i],
            ) != lowercased(#[trigger] pass.skip[j]),
    ensures
        next_pull(pass, at) == next_review(
            pass,
            at,
            review_tasks_of(pass.watch, pass.watch.len() > 1, pass.slug, pass.pulls[at]),
        ),
        left.len() > 0 ==> next_review(pass, at, left) == (
            (PollV::Reviews { pass, at, left: left.skip(1) }),
            (AskV::Queue { task: left[0] }),
        ),
        left.len() == 0 ==> next_review(pass, at, left) == (
            (PollV::Worktree { pass, at }),
            (AskV::Worktree { branch: pass.pulls[at].head_ref }),
        ),
{
    let labels = pass.pulls[at].labels;
    if is_skipped(labels, pass.skip) {
        let i = choose|i: int|
            0 <= i < labels.len() && all_lowercased(pass.skip).contains(
                lowercased(#[trigger] labels[i]),
            );
        let low = all_lowercased(pass.skip);
        let j = choose|j: int| 0 <= j < low.len() && low[j] == lowercased(labels[i]);
        assert(low[j] == lowercased(pass.skip[j]));
    }
}

/// Comments are asked about only where the head branch is worked on here, with the token and
/// the number of that pull request; where the resolved threads or the tasks in the queue
/// cannot be read, the pass goes on without them; the new comments are handed over as one
/// task, and then the next pull request is gone through.
pub proof fn how_comments_are_gone_through(
    pass: PassV,
    at: int,
    here: bool,
    resolved: Result<Vec<u64>, MaestroError>,
    tasks: Result<Vec<DaemonTask>, MaestroError>,
    comments: Vec<GhComment>,
    settled: Seq<u64>,
    queued: Seq<u64>,
)
    requires
        0 <= at < pass.pulls.len(),
    ensures
        poll_step(
            (PollV::Worktree { pass, at }),
            None,
            None,
            None,
            GhReply::Worktree(Ok(here)),
        ) == (if here {
            (
                PollV::Resolved { pass, at },
                AskV::Resolved {
                    token: pass.token,
                    slug: pass.slug,
                    pr: pass.pulls[at].number,
                },
            )
        } else {
            next_pull(pass, at + 1)
        }),
        poll_step((PollV::Resolved { pass, at }), None, None, None, GhReply::Resolved(resolved)).1
            is Tasks,
        poll_step((PollV::Resolved { pass, at }), None, None, None, GhReply::Resolved(resolved)).0
            == (PollV::Tasks {
            pass,
            at,
            resolved: match resolved {
                Ok(ids) => ids@,
                Err(_) => seq![],
            },
        }),
        poll_step(
            (PollV::Tasks { pass, at, resolved: settled }),
            None,
            None,
            None,
            GhReply::Tasks(tasks),
        ).1 == (AskV::Comments { token: pass.token, slug: pass.slug, pr: pass.pulls[at].number }),
        ({
            let news = news_of(
                crate::daemon::github::comment_views(comments@),
                settled,
                pass.watch,
                queued,
            );
            poll_step(
                (PollV::Comments { pass, at, resolved: settled, queued }),
                None,
                None,
                None,
                GhReply::Comments(Ok(comments)),
            ) == (if news.len() > 0 {
                (
                    PollV::Comment { pass, at },
                    AskV::Queue { task: comment_task_of(pass.slug, pass.pulls[at], news) },
                )
            } else {
                next_pull(pass, at + 1)
            })
        }),
        poll_step((PollV::Comment { pass, at }), None, None, None, GhReply::Queued(Ok(())))
            == next_pull(pass, at + 1),
{
}

// ---------------------------------------------------------------------------
// When a task ends
// ---------------------------------------------------------------------------

/// A turn of a task's session is over when the session waits for input or has ended, and it
/// went well unless the session failed or was cancelled.
pub proof fn when_a_turn_is_over(status: SessionStatus)
    ensures
        ends_turn(SessionStatus::AwaitingInput) == Some(true),
        ends_turn(SessionStatus::Done) == Some(true),
        ends_turn(SessionStatus::Failed) == Some(false),
        ends_turn(SessionStatus::Cancelled) == Some(false),
        ends_turn(SessionStatus::Spawning) is None,
        ends_turn(SessionStatus::Streaming) is None,
{
}

/// A finished task is told, and a plan of replies that went well asks for the user, on its
/// branch and for its session; no other task does.
pub proof fn a_finished_task_is_told(t: TaskV, ok: bool)
    ensures
        end_events(t, ok).len() >= 2,
        end_events(t, ok)[0] == (EventV::DaemonTaskFinished { key: t.key, title: t.title, ok }),
        end_events(t, ok).last() == EventV::DaemonUpdated,
        ok && t.kind == "pr_comment"@ && t.branch is Some ==> end_events(t, ok).len() == 3
            && end_events(t, ok)[1] == (EventV::AttentionRequired {
            source: "pr_review_ready"@,
            branch: t.branch,
            session_id: t.session_id,
            message: "Reply plan ready: "@ + t.title,
        }),
        !(ok && t.kind == "pr_comment"@ && t.branch is Some) ==> end_events(t, ok).len() == 2,
{
}

/// A polling pass is due every so many minutes as the setting says, but never more often than
/// once a minute; without a number there, every five.
pub proof fn how_often_is_polled(setting: Option<Seq<char>>, n: nat)
    ensures
        poll_minutes(None) == 5,
        setting is Some && parsed_number(setting->0, u64::MAX as nat) == Some(n) && 1 <= n
            <= u64::MAX ==> poll_minutes(setting) == n,
        setting is Some && parsed_number(setting->0, u64::MAX as nat) is None ==> poll_minutes(
            setting,
        ) == 5,
        poll_minutes(setting) >= 1,
{
}

/// What went wrong on either side of a pass is told, and nothing is where nothing did.
pub proof fn what_went_wrong_is_told(gh: Option<Seq<char>>, jira: Option<Seq<char>>)
    ensures
        poll_error(gh, jira) is None <==> gh is None && jira is None,
        gh is Some ==> includes(poll_error(gh, jira)->0, gh->0),
        jira is Some ==> includes(poll_error(gh, jira)->0, "Jira: "@ + jira->0),
{
    let e = poll_error(gh, jira)->0;
    let none = Seq::<char>::empty();
    if gh is Some {
        let tail = if jira is Some {
            "; Jira: "@ + jira->0
        } else {
            none
        };
        assert(e =~= crate::daemon::briefing::between(none, gh->0, tail));
    }
    if jira is Some {
        reveal_strlit("; Jira: ");
        reveal_strlit("Jira: ");
        let head = if gh is Some {
            gh->0 + seq![';', ' ']
        } else {
            none
        };
        assert(e =~= crate::daemon::briefing::between(head, "Jira: "@ + jira->0, none));
    }
}

} // verus!
