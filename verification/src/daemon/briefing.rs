//! What the prompt of a prepared session holds: everything that its task was queued with.
use crate::daemon::start::{
    by_path, comment_prompt, comment_text, is_plan, on_path, or_default, path_at, paths_of,
    research_prompt, review_prompt, with_guide, StartPlan,
};
use crate::daemon::DaemonTask;
use crate::json::{list_in, member, text_in, unsigned_in, JsonV};
use crate::text::{decimal, is_blank, opt_view};
use vstd::prelude::*;

verus! {

pub open spec fn between(a: Seq<char>, part: Seq<char>, b: Seq<char>) -> Seq<char> {
    a + part + b
}

/// Whether a text holds `part` somewhere.
pub open spec fn includes(s: Seq<char>, part: Seq<char>) -> bool {
    exists|a: Seq<char>, b: Seq<char>| s == #[trigger] between(a, part, b)
}

pub proof fn lemma_includes(s: Seq<char>, a: Seq<char>, part: Seq<char>, b: Seq<char>)
    requires
        s == a + part + b,
    ensures
        includes(s, part),
{
    assert(s == between(a, part, b));
}

/// What is part of a part is part of the whole.
pub proof fn lemma_includes_through(s: Seq<char>, mid: Seq<char>, part: Seq<char>)
    requires
        includes(s, mid),
        includes(mid, part),
    ensures
        includes(s, part),
{
    let (a, b) = choose|a: Seq<char>, b: Seq<char>| s == #[trigger] between(a, mid, b);
    let (c, d) = choose|c: Seq<char>, d: Seq<char>| mid == #[trigger] between(c, part, d);
    assert(s =~= between(a + c, part, d + b));
}

/// A guide goes behind the prompt, and a blank one is left out.
pub proof fn a_guide_goes_behind_the_prompt(prompt: Seq<char>, guide: Seq<char>)
    ensures
        includes(with_guide(prompt, guide), prompt),
        !is_blank(guide) ==> with_guide(prompt, guide) == prompt + "\n\n"@ + guide,
        is_blank(guide) ==> with_guide(prompt, guide) == prompt,
{
    if is_blank(guide) {
        assert(prompt =~= between(seq![], prompt, seq![]));
    } else {
        assert(with_guide(prompt, guide) =~= between(seq![], prompt, "\n\n"@ + guide));
    }
}

// ---------------------------------------------------------------------------
// Comments
// ---------------------------------------------------------------------------

/// The comments on a file: those in front of one, that one, those behind it.
proof fn lemma_on_path(comments: Seq<JsonV>, k: int) -> (rest: Seq<char>)
    requires
        0 <= k < comments.len(),
    ensures
        on_path(comments, path_at(comments[k])) == on_path(
            comments.take(k),
            path_at(comments[k]),
        ) + comment_text(comments[k]) + rest,
    decreases comments.len(),
{
    let path = path_at(comments[k]);
    let d = comments.drop_last();
    if k == comments.len() - 1 {
        assert(d =~= comments.take(k));
        assert(on_path(comments, path) =~= on_path(comments.take(k), path) + comment_text(
            comments[k],
        ) + seq![]);
        seq![]
    } else {
        let r = lemma_on_path(d, k);
        assert(d.take(k) =~= comments.take(k));
        assert(d[k] == comments[k]);
        if path_at(comments.last()) == path {
            let rest = r + comment_text(comments.last());
            assert(on_path(comments, path) =~= on_path(comments.take(k), path) + comment_text(
                comments[k],
            ) + rest);
            rest
        } else {
            r
        }
    }
}

proof fn lemma_path_listed(comments: Seq<JsonV>, k: int) -> (j: int)
    requires
        0 <= k < comments.len(),
    ensures
        0 <= j < paths_of(comments).len(),
        paths_of(comments)[j] == path_at(comments[k]),
    decreases comments.len(),
{
    let d = comments.drop_last();
    let before = paths_of(d);
    if k == comments.len() - 1 {
        if before.contains(path_at(comments.last())) {
            choose|j: int| 0 <= j < before.len() && before[j] == path_at(comments.last())
        } else {
            before.len() as int
        }
    } else {
        let j = lemma_path_listed(d, k);
        assert(paths_of(comments)[j] == before[j]);
        j
    }
}

proof fn lemma_by_path(comments: Seq<JsonV>, paths: Seq<Seq<char>>, j: int)
    requires
        0 <= j < paths.len(),
    ensures
        includes(
            by_path(comments, paths),
            "## "@ + paths[j] + "\n"@ + on_path(comments, paths[j]),
        ),
    decreases paths.len(),
{
    let group = "## "@ + paths[j] + "\n"@ + on_path(comments, paths[j]);
    let d = paths.drop_last();
    if j == paths.len() - 1 {
        lemma_includes(by_path(comments, paths), by_path(comments, d), group, seq![]);
    } else {
        lemma_by_path(comments, d, j);
        let (a, b) = choose|a: Seq<char>, b: Seq<char>|
            by_path(comments, d) == #[trigger] between(a, group, b);
        let last = "## "@ + paths.last() + "\n"@ + on_path(comments, paths.last());
        assert(by_path(comments, paths) =~= between(a, group, b + last));
    }
}

/// Every comment of the payload is in the prompt, whole: its id, its author, its body and its
/// url stand next to each other under the heading of the file that it is on, behind the
/// earlier comments on that file.
pub proof fn every_comment_is_in_the_prompt(
    v: JsonV,
    comments: Seq<JsonV>,
    k: int,
    id: u64,
    author: Seq<char>,
    path: Seq<char>,
    body: Seq<char>,
    url: Seq<char>,
    guide: Seq<char>,
    style: Seq<char>,
)
    requires
        list_in(member(v, "comments"@)) == Some(comments),
        0 <= k < comments.len(),
        unsigned_in(member(comments[k], "comment_id"@)) == Some(id),
        text_in(member(comments[k], "author"@)) == Some(author),
        text_in(member(comments[k], "path"@)) == Some(path),
        text_in(member(comments[k], "body"@)) == Some(body),
        text_in(member(comments[k], "url"@)) == Some(url),
    ensures
        ({
            let prompt = with_guide(with_guide(comment_prompt(v), guide), style);
            let entry = "[comment "@ + decimal(id as nat) + "] "@ + author + ":\n"@ + body + "\n"@
                + url + "\n\n"@;
            &&& includes(prompt, "## "@ + path + "\n"@ + on_path(comments.take(k), path) + entry)
            &&& includes(prompt, entry)
            &&& includes(prompt, body)
        }),
{
    let prompt = with_guide(with_guide(comment_prompt(v), guide), style);
    let entry = "[comment "@ + decimal(id as nat) + "] "@ + author + ":\n"@ + body + "\n"@ + url
        + "\n\n"@;
    assert(entry =~= comment_text(comments[k]));
    let before = on_path(comments.take(k), path);
    let rest = lemma_on_path(comments, k);
    let paths = paths_of(comments);
    let j = lemma_path_listed(comments, k);
    lemma_by_path(comments, paths, j);
    let group = "## "@ + path + "\n"@ + on_path(comments, path);
    let part = "## "@ + path + "\n"@ + before + entry;
    assert(group =~= between(seq![], part, rest));
    let all = by_path(comments, paths);
    let head = decimal(comments.len()) + " review comment(s) arrived on PR #"@ + decimal(
        crate::daemon::start::number_at(v, "pr"@) as nat,
    ) + ".\n\n"@;
    let p = comment_prompt(v);
    let tail = p.skip((head.len() + all.len()) as int);
    assert(p =~= between(head, all, tail));
    lemma_includes_through(p, all, group);
    lemma_includes_through(p, group, part);
    a_guide_goes_behind_the_prompt(p, guide);
    a_guide_goes_behind_the_prompt(with_guide(p, guide), style);
    lemma_includes_through(with_guide(p, guide), p, part);
    lemma_includes_through(prompt, with_guide(p, guide), part);
    lemma_includes(part, "## "@ + path + "\n"@ + before, entry, seq![]);
    lemma_includes_through(prompt, part, entry);
    assert(entry =~= between(
        "[comment "@ + decimal(id as nat) + "] "@ + author + ":\n"@,
        body,
        "\n"@ + url + "\n\n"@,
    ));
    lemma_includes_through(prompt, entry, body);
}

/// The prompt about comments begins with how many there are and on which pull request, and
/// both guides are in it.
pub proof fn the_comment_prompt_names_its_pull_request(
    v: JsonV,
    comments: Seq<JsonV>,
    pr: u64,
    guide: Seq<char>,
    style: Seq<char>,
)
    requires
        list_in(member(v, "comments"@)) == Some(comments),
        unsigned_in(member(v, "pr"@)) == Some(pr),
    ensures
        ({
            let prompt = with_guide(with_guide(comment_prompt(v), guide), style);
            let head = decimal(comments.len()) + " review comment(s) arrived on PR #"@ + decimal(
                pr as nat,
            ) + ".\n\n"@;
            &&& prompt.len() >= head.len() && prompt.take(head.len() as int) == head
            &&& !is_blank(guide) ==> includes(prompt, guide)
            &&& !is_blank(style) ==> includes(prompt, style)
        }),
{
    let p = comment_prompt(v);
    let g = with_guide(p, guide);
    let prompt = with_guide(g, style);
    let head = decimal(comments.len()) + " review comment(s) arrived on PR #"@ + decimal(pr as nat)
        + ".\n\n"@;
    assert(p.take(head.len() as int) =~= head);
    assert(prompt.take(head.len() as int) =~= p.take(head.len() as int));
    a_guide_goes_behind_the_prompt(g, style);
    if !is_blank(guide) {
        assert(g =~= p + "\n\n"@ + guide + seq![]);
        lemma_includes(g, p + "\n\n"@, guide, seq![]);
        lemma_includes_through(prompt, g, guide);
    }
    if !is_blank(style) {
        assert(prompt =~= g + "\n\n"@ + style + seq![]);
        lemma_includes(prompt, g + "\n\n"@, style, seq![]);
    }
}

// ---------------------------------------------------------------------------
// Reviews and research
// ---------------------------------------------------------------------------

/// A review's prompt holds the number, the author, the title, the url and the description of
/// the pull request, and the guide.
pub proof fn a_review_is_told_what_to_review(
    v: JsonV,
    pr: u64,
    author: Seq<char>,
    title: Seq<char>,
    url: Seq<char>,
    body: Seq<char>,
    guide: Seq<char>,
)
    requires
        unsigned_in(member(v, "pr"@)) == Some(pr),
        text_in(member(v, "author"@)) == Some(author),
        text_in(member(v, "pr_title"@)) == Some(title),
        text_in(member(v, "url"@)) == Some(url),
        text_in(member(v, "pr_body"@)) == Some(body),
    ensures
        includes(
            with_guide(review_prompt(v), guide),
            "Your review was requested on PR #"@ + decimal(pr as nat) + " by "@ + author
                + ".\n\nTitle: "@ + title + "\n"@ + url + "\n\nPR description:\n"@ + body,
        ),
        !is_blank(guide) ==> includes(with_guide(review_prompt(v), guide), guide),
{
    let p = review_prompt(v);
    let g = with_guide(p, guide);
    let told = "Your review was requested on PR #"@ + decimal(pr as nat) + " by "@ + author
        + ".\n\nTitle: "@ + title + "\n"@ + url + "\n\nPR description:\n"@ + body;
    assert(p =~= between(seq![], told, p.skip(told.len() as int)));
    a_guide_goes_behind_the_prompt(p, guide);
    lemma_includes_through(g, p, told);
    if !is_blank(guide) {
        assert(g =~= p + "\n\n"@ + guide + seq![]);
        lemma_includes(g, p + "\n\n"@, guide, seq![]);
    }
}

/// A research session's prompt holds the key, the summary, the url and the description of
/// the issue.
pub proof fn research_is_told_the_issue(
    v: JsonV,
    key: Seq<char>,
    summary: Seq<char>,
    url: Seq<char>,
    description: Seq<char>,
)
    requires
        text_in(member(v, "key"@)) == Some(key),
        text_in(member(v, "summary"@)) == Some(summary),
        text_in(member(v, "url"@)) == Some(url),
        text_in(member(v, "description"@)) == Some(description),
    ensures
        includes(
            research_prompt(v),
            key + ": "@ + summary + "\n"@ + url + "\n\n"@ + description,
        ),
{
    let p = research_prompt(v);
    let head =
        "You are doing preliminary research for a Jira issue that was just assigned.\n\n"@;
    let told = key + ": "@ + summary + "\n"@ + url + "\n\n"@ + description;
    assert(p =~= between(head, told, p.skip((head.len() + told.len()) as int)));
}

/// A task is started as what it was queued as, with its own payload: a review and comments on
/// the head branch that the payload names, an issue under its key and summary on the branch
/// that an earlier attempt made; a retired kind is dismissed.
pub proof fn a_task_is_started_as_what_it_is(
    plan: StartPlan,
    t: DaemonTask,
    v: JsonV,
    head: Seq<char>,
    key: Seq<char>,
    summary: Seq<char>,
)
    requires
        is_plan(plan, t, v),
        text_in(member(v, "head_ref"@)) == Some(head),
        text_in(member(v, "key"@)) == Some(key),
        text_in(member(v, "summary"@)) == Some(summary),
    ensures
        t.kind@ == "pr_review"@ ==> (plan matches StartPlan::Review { payload, head_ref }
            && payload@ == v && head_ref@ == head),
        t.kind@ == "pr_comment"@ ==> (plan matches StartPlan::Comment { payload, head_ref }
            && payload@ == v && head_ref@ == head),
        t.kind@ == "jira"@ ==> (plan matches StartPlan::Research {
            payload,
            task_id,
            slug,
            known_branch,
        } && payload@ == v && task_id@ == key && slug@ == summary && opt_view(known_branch)
            == opt_view(t.branch)),
        t.kind@ != "pr_review"@ && t.kind@ != "pr_comment"@ && t.kind@ != "jira"@ ==> plan
            is Dismiss,
{
    reveal_strlit("pr_review");
    reveal_strlit("pr_comment");
    reveal_strlit("jira");
    assert("pr_review"@.len() == 9 && "pr_comment"@.len() == 10 && "jira"@.len() == 4);
}

/// A setting that is not empty is used as it is; otherwise its default is.
pub proof fn a_setting_overrides_its_default(setting: Option<Seq<char>>, default: Seq<char>)
    ensures
        setting is Some && setting->0.len() > 0 ==> or_default(setting, default) == setting->0,
        setting is None || setting->0.len() == 0 ==> or_default(setting, default) == default,
{
}

} // verus!
