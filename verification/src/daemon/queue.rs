//! What a polling pass queues, and how the queue moves.
use crate::bus::{event_views, Event, EventV};
use crate::daemon::github::{
    add_numbers, comment_views, has_id, with_numbers, CommentV, GhComment, GhPull, PullV,
};
use crate::daemon::jira::{IssueV, JiraIssue};
use crate::daemon::{
    copy_number, opt_number_view, task_views, DaemonManager, DaemonTask, TaskV,
    MAX_DAEMON_TASK_ATTEMPTS,
};
use crate::error::{is_config, MaestroError};
use crate::json::{
    is_plain, json_parsed, json_written, list_in, list_view, member, number_value, object_view,
    parse_json, push_item, push_member, push_number, push_text, reads_as, text_value,
    unsigned_in, write_json, Json, JsonNumber, JsonV, Member, NumberV,
};
use crate::session::{terminal, SessionStatus};
use crate::sorting::{
    deduped, is_ranking, item_views, sort_ranked, sorted, sorting_keeps_the_items_and_orders_them,
    Ranked,
};
use crate::text::{
    before, decimal, decimal_text, has_prefix, has_text, join, join_texts, lower_case, lowercased,
    opt_text, opt_view, same_text, str_starts_with, text_before, text_of, views,
};
use vstd::prelude::*;
use vstd::string::*;

verus! {

/// Work to be queued.
#[derive(Debug)]
pub struct NewTask {
    pub key: String,
    pub kind: String,
    pub title: String,
    /// JSON.
    pub payload: String,
}

#[verifier::ext_equal]
pub struct NewTaskV {
    pub key: Seq<char>,
    pub kind: Seq<char>,
    pub title: Seq<char>,
    pub payload: Seq<char>,
}

impl View for NewTask {
    type V = NewTaskV;

    open spec fn view(&self) -> NewTaskV {
        NewTaskV {
            key: self.key@,
            kind: self.kind@,
            title: self.title@,
            payload: self.payload@,
        }
    }
}

pub open spec fn new_task_views(s: Seq<NewTask>) -> Seq<NewTaskV> {
    s.map_values(|t: NewTask| t@)
}

/// The row of a new task.
pub fn enqueue(task: NewTask, now: i128) -> (r: DaemonTask)
    ensures
        r@ == (TaskV {
            key: task.key@,
            kind: task.kind@,
            state: "queued"@,
            title: task.title@,
            payload: task.payload@,
            branch: None,
            session_id: None,
            attempts: 0,
            created_at: now,
            updated_at: now,
        }),
{
    DaemonTask {
        key: task.key,
        kind: task.kind,
        state: text_of("queued"),
        title: task.title,
        payload: task.payload,
        branch: None,
        session_id: None,
        attempts: 0,
        created_at: now,
        updated_at: now,
    }
}

/// The watch list of a poll. Without any account there is nothing to poll as.
pub fn poll_accounts(watched: Vec<String>) -> (r: Result<Vec<String>, MaestroError>)
    ensures
        if watched@.len() == 0 {
            r matches Err(e) && is_config(
                e,
                "no gh account available — log in with `gh auth login` and pick one in the daemon panel"@,
            )
        } else {
            r matches Ok(v) && v == watched
        },
{
    if watched.len() == 0 {
        Err(
            MaestroError::Config {
                message: text_of(
                    "no gh account available — log in with `gh auth login` and pick one in the daemon panel",
                ),
            },
        )
    } else {
        Ok(watched)
    }
}

/// The first token that could be had, from place `i` on.
pub open spec fn first_token(tokens: Seq<Option<String>>, i: int) -> Option<Seq<char>>
    decreases tokens.len() - i,
{
    if i < 0 || i >= tokens.len() {
        None
    } else {
        match tokens[i] {
            Some(t) => Some(t@),
            None => first_token(tokens, i + 1),
        }
    }
}

/// The token that a poll reads with. A PR's contents are repo-scoped, not account-scoped —
/// one working token is enough to see all of it; `tokens` is one per watched account, none
/// where gh gave none.
pub fn primary_token(tokens: &Vec<Option<String>>) -> (r: Result<String, MaestroError>)
    ensures
        match first_token(tokens@, 0) {
            Some(t) => r matches Ok(s) && s@ == t,
            None => r matches Err(e) && is_config(
                e,
                "no token available for any watched gh account"@,
            ),
        },
{
    let mut i: usize = 0;
    while i < tokens.len()
        invariant
            i <= tokens@.len(),
            first_token(tokens@, 0) == first_token(tokens@, i as int),
        decreases tokens@.len() - i,
    {
        match &tokens[i] {
            Some(t) => return Ok(text_of(t.as_str())),
            None => {},
        }
        i += 1;
    }
    Err(MaestroError::Config { message: text_of("no token available for any watched gh account") })
}

// ---------------------------------------------------------------------------
// Review requests
// ---------------------------------------------------------------------------

pub open spec fn all_lowercased(labels: Seq<Seq<char>>) -> Seq<Seq<char>> {
    labels.map_values(|l: Seq<char>| lowercased(l))
}

/// Whether a pull request carries a label that makes the daemon skip it, whatever the case.
pub open spec fn is_skipped(labels: Seq<Seq<char>>, skip: Seq<Seq<char>>) -> bool {
    exists|i: int|
        0 <= i < labels.len() && all_lowercased(skip).contains(lowercased(#[trigger] labels[i]))
}

/// Whether a pull request carries a label that makes the daemon skip it entirely.
pub fn skips(pull: &GhPull, skip: &Vec<String>) -> (b: bool)
    ensures
        b == is_skipped(pull@.labels, views(skip@)),
{
    let ghost sv = views(skip@);
    let mut low: Vec<String> = Vec::new();
    let mut i: usize = 0;
    while i < skip.len()
        invariant
            i <= skip@.len(),
            sv == views(skip@),
            views(low@) == all_lowercased(sv.take(i as int)),
        decreases skip@.len() - i,
    {
        let ghost done = views(low@);
        let l: String = lower_case(skip[i].as_str());
        let ghost lv = l@;
        low.push(l);
        assert(views(low@) =~= done.push(lv));
        assert(all_lowercased(sv.take(i + 1)) =~= done.push(lv));
        i += 1;
    }
    assert(sv.take(i as int) =~= sv);
    let ghost lv = pull@.labels;
    let mut i: usize = 0;
    while i < pull.labels.len()
        invariant
            i <= pull.labels@.len(),
            lv == views(pull.labels@),
            lv == pull@.labels,
            sv == views(skip@),
            views(low@) == all_lowercased(sv),
            forall|k: int|
                0 <= k < i ==> !all_lowercased(sv).contains(lowercased(#[trigger] lv[k])),
        decreases pull.labels@.len() - i,
    {
        assert(lv[i as int] == pull.labels@[i as int]@);
        if has_text(&low, lower_case(pull.labels[i].as_str()).as_str()) {
            return true;
        }
        i += 1;
    }
    false
}

/// The key of a review: per head SHA, so a new push produces a fresh review pass, and per
/// account where more than one is watched.
pub open spec fn review_key(many: bool, account: Seq<char>, slug: Seq<char>, p: PullV) -> Seq<char> {
    (if many {
        "pr-review:"@ + account + ":"@
    } else {
        "pr-review:"@
    }) + slug + "#"@ + decimal(p.number as nat) + ":"@ + p.head_sha
}

pub open spec fn review_payload(p: PullV) -> JsonV {
    JsonV::Object(
        Map::empty().insert("pr"@, JsonV::Number(NumberV::Unsigned(p.number))).insert(
            "pr_title"@,
            JsonV::Text(p.title),
        ).insert("pr_body"@, JsonV::Text(p.body)).insert("author"@, JsonV::Text(p.author)).insert(
            "head_ref"@,
            JsonV::Text(p.head_ref),
        ).insert("head_sha"@, JsonV::Text(p.head_sha)).insert("url"@, JsonV::Text(p.url)),
    )
}

pub open spec fn review_task(many: bool, account: Seq<char>, slug: Seq<char>, p: PullV) -> NewTaskV {
    NewTaskV {
        key: review_key(many, account, slug, p),
        kind: "pr_review"@,
        title: "PR #"@ + decimal(p.number as nat) + " review requested: "@ + p.title,
        payload: json_written(review_payload(p)),
    }
}

/// A review for each watched account that was asked for one.
pub open spec fn review_tasks_of(
    watch: Seq<Seq<char>>,
    many: bool,
    slug: Seq<char>,
    p: PullV,
) -> Seq<NewTaskV>
    decreases watch.len(),
{
    if watch.len() == 0 {
        seq![]
    } else {
        let before = review_tasks_of(watch.drop_last(), many, slug, p);
        if p.requested_reviewers.contains(watch.last()) {
            before.push(review_task(many, watch.last(), slug, p))
        } else {
            before
        }
    }
}

fn review_payload_text(p: &GhPull) -> (r: String)
    ensures
        r@ == json_written(review_payload(p@)),
        reads_as(r@, review_payload(p@)),
{
    let mut m: Vec<Member> = Vec::new();
    assert(object_view(m@) =~= Map::empty());
    push_number(&mut m, "pr", p.number);
    push_text(&mut m, "pr_title", p.title.as_str());
    push_text(&mut m, "pr_body", p.body.as_str());
    push_text(&mut m, "author", p.author.as_str());
    push_text(&mut m, "head_ref", p.head_ref.as_str());
    push_text(&mut m, "head_sha", p.head_sha.as_str());
    push_text(&mut m, "url", p.url.as_str());
    let j: Json = Json::Object(m);
    assert(j@ == review_payload(p@));
    assert(is_plain(j@, 8)) by {
        let o = object_view(m@);
        assert forall|k: Seq<char>| o.dom().contains(k) implies is_plain(#[trigger] o[k], 7) by {}
    }
    write_json(&j)
}

/// Someone wants one of our watched accounts' review → one task per matching account. The
/// key only carries the account when there is more than one watched.
pub fn review_tasks(watch: &Vec<String>, slug: &str, pull: &GhPull) -> (r: Vec<NewTask>)
    ensures
        new_task_views(r@) == review_tasks_of(views(watch@), watch@.len() > 1, slug@, pull@),
        forall|i: int|
            0 <= i < r@.len() ==> reads_as((#[trigger] r@[i]).payload@, review_payload(pull@)),
{
    let many: bool = watch.len() > 1;
    let ghost wv = views(watch@);
    let mut r: Vec<NewTask> = Vec::new();
    let mut i: usize = 0;
    assert(new_task_views(r@) =~= review_tasks_of(wv.take(0), many, slug@, pull@));
    while i < watch.len()
        invariant
            i <= watch@.len(),
            wv == views(watch@),
            new_task_views(r@) == review_tasks_of(wv.take(i as int), many, slug@, pull@),
            forall|i: int|
                0 <= i < r@.len() ==> reads_as((#[trigger] r@[i]).payload@, review_payload(pull@)),
        decreases watch@.len() - i,
    {
        let ghost done = new_task_views(r@);
        assert(wv.take(i + 1).drop_last() =~= wv.take(i as int));
        assert(wv.take(i + 1).last() == watch@[i as int]@);
        let account: &str = watch[i].as_str();
        if has_text(&pull.requested_reviewers, account) {
            let mut key: String = text_of("pr-review:");
            if many {
                key.append(account);
                key.append(":");
            }
            key.append(slug);
            key.append("#");
            key.append(decimal_text(pull.number).as_str());
            key.append(":");
            key.append(pull.head_sha.as_str());
            assert(key@ =~= review_key(many, account@, slug@, pull@));
            let t: NewTask = NewTask {
                key,
                kind: text_of("pr_review"),
                title: text_of("PR #").concat(decimal_text(pull.number).as_str()).concat(
                    " review requested: ",
                ).concat(pull.title.as_str()),
                payload: review_payload_text(pull),
            };
            let ghost tv = t@;
            assert(tv =~= review_task(many, account@, slug@, pull@));
            r.push(t);
            assert(new_task_views(r@) =~= done.push(tv));
        }
        i += 1;
    }
    assert(wv.take(i as int) =~= wv);
    r
}

// ---------------------------------------------------------------------------
// Review comments
// ---------------------------------------------------------------------------

pub open spec fn comment_key_prefix(slug: Seq<char>, pr: u64) -> Seq<char> {
    "pr-comment:"@ + slug + "#"@ + decimal(pr as nat) + ":"@
}

/// `ids` with the comments that a task covers, where it is one on this pull request.
pub open spec fn with_covered(ids: Seq<u64>, t: TaskV, slug: Seq<char>, pr: u64) -> Seq<u64> {
    if t.kind == "pr_comment"@ && has_prefix(t.key, comment_key_prefix(slug, pr)) {
        match json_parsed(t.payload) {
            Ok(v) => match list_in(member(v, "comments"@)) {
                Some(l) => with_numbers(ids, l, "comment_id"@),
                None => ids,
            },
            Err(_) => ids,
        }
    } else {
        ids
    }
}

/// The comments on a pull request that some task already covers.
pub open spec fn covered_ids(tasks: Seq<TaskV>, slug: Seq<char>, pr: u64) -> Seq<u64>
    decreases tasks.len(),
{
    if tasks.len() == 0 {
        seq![]
    } else {
        with_covered(covered_ids(tasks.drop_last(), slug, pr), tasks.last(), slug, pr)
    }
}

/// Comment ids already folded into some earlier `pr_comment` task for this PR — the guard
/// against re-bundling a comment a previous poll already queued just because a newer,
/// unrelated comment landed alongside it this time.
pub fn already_queued_comment_ids(tasks: &Vec<DaemonTask>, slug: &str, pr: u64) -> (r: Vec<u64>)
    ensures
        r@ == covered_ids(task_views(tasks@), slug@, pr),
{
    let ghost tv = task_views(tasks@);
    let prefix: String = text_of("pr-comment:").concat(slug).concat("#").concat(
        decimal_text(pr).as_str(),
    ).concat(":");
    let mut ids: Vec<u64> = Vec::new();
    let mut i: usize = 0;
    assert(ids@ =~= covered_ids(tv.take(0), slug@, pr));
    while i < tasks.len()
        invariant
            i <= tasks@.len(),
            tv == task_views(tasks@),
            prefix@ == comment_key_prefix(slug@, pr),
            ids@ == covered_ids(tv.take(i as int), slug@, pr),
        decreases tasks@.len() - i,
    {
        assert(tv.take(i + 1).drop_last() =~= tv.take(i as int));
        assert(tv.take(i + 1).last() == tasks@[i as int]@);
        if same_text(tasks[i].kind.as_str(), "pr_comment") && str_starts_with(
            tasks[i].key.as_str(),
            prefix.as_str(),
        ) {
            match parse_json(tasks[i].payload.as_str()) {
                Ok(payload) => match payload.list_under("comments") {
                    Some(comments) => {
                        add_numbers(&mut ids, comments, "comment_id");
                    },
                    None => {},
                },
                Err(_) => {},
            }
        }
        i += 1;
    }
    assert(tv.take(i as int) =~= tv);
    ids
}

/// Whether a comment is incoming feedback that no task covers: its thread is open, none of
/// our accounts wrote it, and it is not queued yet.
pub open spec fn is_fresh(
    c: CommentV,
    resolved: Seq<u64>,
    watch: Seq<Seq<char>>,
    queued: Seq<u64>,
) -> bool {
    !resolved.contains(c.id) && !watch.contains(c.author) && !queued.contains(c.id)
}

pub open spec fn fresh_comments(
    comments: Seq<CommentV>,
    resolved: Seq<u64>,
    watch: Seq<Seq<char>>,
    queued: Seq<u64>,
) -> Seq<CommentV>
    decreases comments.len(),
{
    if comments.len() == 0 {
        seq![]
    } else {
        let before = fresh_comments(comments.drop_last(), resolved, watch, queued);
        if is_fresh(comments.last(), resolved, watch, queued) {
            before.push(comments.last())
        } else {
            before
        }
    }
}

impl Ranked for String {
    open spec fn in_order(a: Seq<char>, b: Seq<char>) -> bool {
        !before(b, a)
    }

    fn may_precede(&self, other: &Self) -> bool {
        !text_before(other.as_str(), self.as_str())
    }
}

pub open spec fn authors_of(comments: Seq<CommentV>) -> Seq<Seq<char>> {
    comments.map_values(|c: CommentV| c.author)
}

/// The authors of the comments, each once, in alphabetical order.
pub open spec fn author_list(comments: Seq<CommentV>) -> Seq<Seq<char>> {
    deduped(sorted::<String>(authors_of(comments)))
}

pub open spec fn id_texts(comments: Seq<CommentV>) -> Seq<Seq<char>> {
    comments.map_values(|c: CommentV| decimal(c.id as nat))
}

pub open spec fn comment_value(c: CommentV) -> JsonV {
    JsonV::Object(
        Map::empty().insert("comment_id"@, JsonV::Number(NumberV::Unsigned(c.id))).insert(
            "review_id"@,
            number_value(c.review_id),
        ).insert("author"@, JsonV::Text(c.author)).insert("path"@, text_value(c.path)).insert(
            "body"@,
            JsonV::Text(c.body),
        ).insert("url"@, JsonV::Text(c.url)),
    )
}

pub open spec fn comment_values(comments: Seq<CommentV>) -> Seq<JsonV> {
    comments.map_values(|c: CommentV| comment_value(c))
}

pub open spec fn comment_payload(p: PullV, comments: Seq<CommentV>) -> JsonV {
    JsonV::Object(
        Map::empty().insert("pr"@, JsonV::Number(NumberV::Unsigned(p.number))).insert(
            "pr_title"@,
            JsonV::Text(p.title),
        ).insert("head_ref"@, JsonV::Text(p.head_ref)).insert(
            "comments"@,
            JsonV::List(comment_values(comments)),
        ),
    )
}

/// The task that covers these comments.
pub open spec fn comment_task_of(slug: Seq<char>, p: PullV, comments: Seq<CommentV>) -> NewTaskV {
    NewTaskV {
        key: comment_key_prefix(slug, p.number) + join(id_texts(comments), "-"@),
        kind: "pr_comment"@,
        title: "PR #"@ + decimal(p.number as nat) + " — "@ + decimal(comments.len())
            + " review comment"@ + (if comments.len() == 1 {
            ""@
        } else {
            "s"@
        }) + " ("@ + join(author_list(comments), ", "@) + ")"@,
        payload: json_written(comment_payload(p, comments)),
    }
}

/// The new comments of a pull request, in the order of their ids.
pub open spec fn news_of(
    comments: Seq<CommentV>,
    resolved: Seq<u64>,
    watch: Seq<Seq<char>>,
    queued: Seq<u64>,
) -> Seq<CommentV> {
    sorted::<GhComment>(fresh_comments(comments, resolved, watch, queued))
}

fn comment_json(c: &GhComment) -> (j: Json)
    ensures
        j@ == comment_value(c@),
{
    let mut m: Vec<Member> = Vec::new();
    assert(object_view(m@) =~= Map::empty());
    push_number(&mut m, "comment_id", c.id);
    let review: Json = match c.review_id {
        Some(n) => Json::Number(JsonNumber::Unsigned(n)),
        None => Json::Null,
    };
    push_member(&mut m, "review_id", review);
    push_text(&mut m, "author", c.author.as_str());
    let path: Json = match &c.path {
        Some(p) => Json::Text(text_of(p.as_str())),
        None => Json::Null,
    };
    push_member(&mut m, "path", path);
    push_text(&mut m, "body", c.body.as_str());
    push_text(&mut m, "url", c.url.as_str());
    Json::Object(m)
}

proof fn lemma_comment_payload_plain(p: PullV, comments: Seq<CommentV>)
    ensures
        is_plain(comment_payload(p, comments), 8),
{
    let l = comment_values(comments);
    assert forall|i: int| 0 <= i < l.len() implies is_plain(#[trigger] l[i], 6) by {
        let o = comment_value(comments[i])->Object_0;
        assert forall|k: Seq<char>| o.dom().contains(k) implies is_plain(#[trigger] o[k], 5) by {}
        assert(o.dom().finite());
    }
    assert(is_plain(JsonV::List(l), 7));
    let o = comment_payload(p, comments)->Object_0;
    assert forall|k: Seq<char>| o.dom().contains(k) implies is_plain(#[trigger] o[k], 7) by {}
    assert(o.dom().finite());
}

fn comment_payload_text(p: &GhPull, comments: &Vec<GhComment>) -> (r: String)
    ensures
        r@ == json_written(comment_payload(p@, comment_views(comments@))),
        reads_as(r@, comment_payload(p@, comment_views(comments@))),
{
    let ghost cv = comment_views(comments@);
    let mut list: Vec<Json> = Vec::new();
    let mut i: usize = 0;
    while i < comments.len()
        invariant
            i <= comments@.len(),
            cv == comment_views(comments@),
            list_view(list@) == comment_values(cv.take(i as int)),
        decreases comments@.len() - i,
    {
        let ghost done = list_view(list@);
        push_item(&mut list, comment_json(&comments[i]));
        assert(comment_values(cv.take(i + 1)) =~= done.push(comment_value(cv[i as int])));
        i += 1;
    }
    assert(cv.take(i as int) =~= cv);
    let mut m: Vec<Member> = Vec::new();
    assert(object_view(m@) =~= Map::empty());
    push_number(&mut m, "pr", p.number);
    push_text(&mut m, "pr_title", p.title.as_str());
    push_text(&mut m, "head_ref", p.head_ref.as_str());
    push_member(&mut m, "comments", Json::List(list));
    let j: Json = Json::Object(m);
    assert(j@ == comment_payload(p@, cv));
    proof {
        lemma_comment_payload_plain(p@, cv);
    }
    write_json(&j)
}

fn author_names(comments: &Vec<GhComment>) -> (r: Vec<String>)
    ensures
        views(r@) == author_list(comment_views(comments@)),
{
    let ghost cv = comment_views(comments@);
    let mut names: Vec<String> = Vec::new();
    let mut i: usize = 0;
    while i < comments.len()
        invariant
            i <= comments@.len(),
            cv == comment_views(comments@),
            views(names@) == authors_of(cv.take(i as int)),
        decreases comments@.len() - i,
    {
        let ghost done = views(names@);
        names.push(text_of(comments[i].author.as_str()));
        assert(views(names@) =~= done.push(cv[i as int].author));
        assert(authors_of(cv.take(i + 1)) =~= done.push(cv[i as int].author));
        i += 1;
    }
    assert(cv.take(i as int) =~= cv);
    assert(item_views(names@) =~= views(names@));
    let ordered: Vec<String> = sort_ranked(names);
    let ghost ov = item_views(ordered@);
    let mut r: Vec<String> = Vec::new();
    let mut i: usize = 0;
    assert(views(r@) =~= deduped(ov.take(0)));
    while i < ordered.len()
        invariant
            i <= ordered@.len(),
            ov == item_views(ordered@),
            views(r@) == deduped(ov.take(i as int)),
        decreases ordered@.len() - i,
    {
        let ghost done = views(r@);
        assert(ov.take(i + 1).drop_last() =~= ov.take(i as int));
        assert(ov.take(i + 1).last() == ordered@[i as int]@);
        let repeated: bool = if r.len() > 0 {
            assert(done.last() == r@[r@.len() - 1]@);
            same_text(r[r.len() - 1].as_str(), ordered[i].as_str())
        } else {
            false
        };
        if !repeated {
            r.push(text_of(ordered[i].as_str()));
            assert(views(r@) =~= done.push(ordered@[i as int]@));
        }
        i += 1;
    }
    assert(ov.take(i as int) =~= ov);
    r
}

fn copy_comment(c: &GhComment) -> (r: GhComment)
    ensures
        r@ == c@,
{
    GhComment {
        id: c.id,
        body: text_of(c.body.as_str()),
        author: text_of(c.author.as_str()),
        path: opt_text(&c.path),
        url: text_of(c.url.as_str()),
        review_id: c.review_id,
    }
}

/// One task per poll, not per review: whatever is newly visible on this pass — regardless
/// of which review submission it came from — gets bundled into one plan. Whoever
/// leaves 4 comments across two separate review submissions still gets one task covering
/// all 4, and a comment already folded into an earlier task never reappears in a later one
/// just because a *different* comment landed in between.
pub fn comment_task(
    watch: &Vec<String>,
    slug: &str,
    pull: &GhPull,
    comments: &Vec<GhComment>,
    resolved: &Vec<u64>,
    queued: &Vec<u64>,
) -> (r: Option<NewTask>)
    ensures
        ({
            let news = news_of(comment_views(comments@), resolved@, views(watch@), queued@);
            match r {
                Some(t) => news.len() > 0 && t@ == comment_task_of(slug@, pull@, news) && reads_as(
                    t.payload@,
                    comment_payload(pull@, news),
                ),
                None => news.len() == 0,
            }
        }),
{
    let ghost cv = comment_views(comments@);
    let mut fresh: Vec<GhComment> = Vec::new();
    let mut i: usize = 0;
    assert(comment_views(fresh@) =~= fresh_comments(cv.take(0), resolved@, views(watch@), queued@));
    while i < comments.len()
        invariant
            i <= comments@.len(),
            cv == comment_views(comments@),
            comment_views(fresh@) == fresh_comments(
                cv.take(i as int),
                resolved@,
                views(watch@),
                queued@,
            ),
        decreases comments@.len() - i,
    {
        let ghost done = comment_views(fresh@);
        assert(cv.take(i + 1).drop_last() =~= cv.take(i as int));
        assert(cv.take(i + 1).last() == comments@[i as int]@);
        // Our own replies (from *any* watched account) come back through this same endpoint
        // on the next poll — without this they would look like a fresh comment to react to.
        if !has_id(resolved, comments[i].id) && !has_text(watch, comments[i].author.as_str())
            && !has_id(queued, comments[i].id) {
            fresh.push(copy_comment(&comments[i]));
            assert(comment_views(fresh@) =~= done.push(comments@[i as int]@));
        }
        i += 1;
    }
    assert(cv.take(i as int) =~= cv);
    let ghost fv = comment_views(fresh@);
    assert(item_views(fresh@) =~= fv);
    let news: Vec<GhComment> = sort_ranked(fresh);
    let ghost nv = comment_views(news@);
    assert(item_views(news@) =~= nv);
    if news.len() == 0 {
        return None;
    }
    let mut ids: Vec<String> = Vec::new();
    let mut i: usize = 0;
    while i < news.len()
        invariant
            i <= news@.len(),
            nv == comment_views(news@),
            views(ids@) == id_texts(nv.take(i as int)),
        decreases news@.len() - i,
    {
        let ghost done = views(ids@);
        ids.push(decimal_text(news[i].id));
        assert(views(ids@) =~= done.push(decimal(nv[i as int].id as nat)));
        assert(id_texts(nv.take(i + 1)) =~= done.push(decimal(nv[i as int].id as nat)));
        i += 1;
    }
    assert(nv.take(i as int) =~= nv);
    let key: String = text_of("pr-comment:").concat(slug).concat("#").concat(
        decimal_text(pull.number).as_str(),
    ).concat(":").concat(join_texts(&ids, "-").as_str());
    let plural: &str = if news.len() == 1 {
        ""
    } else {
        "s"
    };
    let authors: Vec<String> = author_names(&news);
    let title: String = text_of("PR #").concat(decimal_text(pull.number).as_str()).concat(
        " — ",
    ).concat(decimal_text(news.len() as u64).as_str()).concat(" review comment").concat(
        plural,
    ).concat(" (").concat(join_texts(&authors, ", ").as_str()).concat(")");
    Some(
        NewTask {
            key,
            kind: text_of("pr_comment"),
            title,
            payload: comment_payload_text(pull, &news),
        },
    )
}

// ---------------------------------------------------------------------------
// Jira
// ---------------------------------------------------------------------------

pub open spec fn issue_payload(i: IssueV) -> JsonV {
    JsonV::Object(
        Map::empty().insert("key"@, JsonV::Text(i.key)).insert(
            "summary"@,
            JsonV::Text(i.summary),
        ).insert("description"@, JsonV::Text(i.description)).insert("url"@, JsonV::Text(i.url)),
    )
}

pub open spec fn issue_task_of(i: IssueV) -> NewTaskV {
    NewTaskV {
        key: "jira:"@ + i.key,
        kind: "jira"@,
        title: i.key + " "@ + i.summary,
        payload: json_written(issue_payload(i)),
    }
}

/// The research that an issue asks for.
pub fn issue_task(issue: &JiraIssue) -> (t: NewTask)
    ensures
        t@ == issue_task_of(issue@),
        reads_as(t.payload@, issue_payload(issue@)),
{
    let mut m: Vec<Member> = Vec::new();
    assert(object_view(m@) =~= Map::empty());
    push_text(&mut m, "key", issue.key.as_str());
    push_text(&mut m, "summary", issue.summary.as_str());
    push_text(&mut m, "description", issue.description.as_str());
    push_text(&mut m, "url", issue.url.as_str());
    let j: Json = Json::Object(m);
    assert(j@ == issue_payload(issue@));
    assert(is_plain(j@, 8)) by {
        let o = object_view(m@);
        assert forall|k: Seq<char>| o.dom().contains(k) implies is_plain(#[trigger] o[k], 7) by {}
    }
    NewTask {
        key: text_of("jira:").concat(issue.key.as_str()),
        kind: text_of("jira"),
        title: text_of(issue.key.as_str()).concat(" ").concat(issue.summary.as_str()),
        payload: write_json(&j),
    }
}

// ---------------------------------------------------------------------------
// Moving the queue
// ---------------------------------------------------------------------------

/// The task to start: the oldest queued one, where the daemon is on, nothing is running —
/// serial by design — and the usage gate is open. A queue that cannot be read starts
/// nothing.
pub fn drive_queue(
    enabled: bool,
    running: Result<Option<DaemonTask>, MaestroError>,
    usage_gate_open: bool,
    next: Result<Option<DaemonTask>, MaestroError>,
) -> (r: Option<DaemonTask>)
    ensures
        r == (if enabled && usage_gate_open && running is Ok && running->Ok_0 is None && next is Ok {
            next->Ok_0
        } else {
            None
        }),
{
    if !enabled || !usage_gate_open {
        return None;
    }
    match (running, next) {
        (Ok(None), Ok(task)) => task,
        _ => None,
    }
}

/// What becomes of a task that failed to start.
#[derive(Clone, Copy, Debug, PartialEq, Eq, Structural)]
pub enum FailedStart {
    /// Back into the queue, one attempt spent.
    Retry,
    /// Failed for good; the error is reported.
    Fail,
}

/// What becomes of a task that failed to start: a transient failure is tried again while
/// attempts are left.
pub fn start_failed(task: &DaemonTask, err: &MaestroError) -> (r: FailedStart)
    ensures
        r == (if err.transient() && task.attempts + 1 < MAX_DAEMON_TASK_ATTEMPTS {
            FailedStart::Retry
        } else {
            FailedStart::Fail
        }),
{
    if err.is_transient() && task.attempts < MAX_DAEMON_TASK_ATTEMPTS - 1 {
        FailedStart::Retry
    } else {
        FailedStart::Fail
    }
}

/// What is stored of a task that moved on. A branch or a session that is absent stays as it
/// was.
#[derive(Debug)]
pub struct TaskUpdate {
    pub key: String,
    pub state: &'static str,
    pub branch: Option<String>,
    pub session_id: Option<String>,
}

impl TaskUpdate {
    /// The session that works on the task was started.
    pub fn started(key: &str, branch: &str, session_id: &str) -> (u: TaskUpdate)
        ensures
            u.key@ == key@,
            u.state@ == "running"@,
            opt_view(u.branch) == Some(branch@),
            opt_view(u.session_id) == Some(session_id@),
    {
        TaskUpdate {
            key: text_of(key),
            state: "running",
            branch: Some(text_of(branch)),
            session_id: Some(text_of(session_id)),
        }
    }

    /// The task failed to start, for good.
    pub fn failed(key: &str) -> (u: TaskUpdate)
        ensures
            u.key@ == key@,
            u.state@ == "failed"@,
            u.branch is None && u.session_id is None,
    {
        TaskUpdate { key: text_of(key), state: "failed", branch: None, session_id: None }
    }

    /// There is nothing to do for the task any more; dismissed, not failed.
    pub fn dismissed(key: &str) -> (u: TaskUpdate)
        ensures
            u.key@ == key@,
            u.state@ == "dismissed"@,
            u.branch is None && u.session_id is None,
    {
        TaskUpdate { key: text_of(key), state: "dismissed", branch: None, session_id: None }
    }
}

/// Whether a session that changed to `status` has done the work of its task, and whether it
/// did so well. A daemon session's own work is done as soon as its first turn ends —
/// awaiting_input, not just a terminal state. These sessions are conversational (plan mode,
/// ready for a follow-up); waiting for the user to close them would stall the whole queue
/// behind whatever they happen to still have open.
pub open spec fn ends_turn(status: SessionStatus) -> Option<bool> {
    if terminal(status) || status == SessionStatus::AwaitingInput {
        Some(status != SessionStatus::Failed && status != SessionStatus::Cancelled)
    } else {
        None
    }
}

pub fn turn_ended(status: SessionStatus) -> (r: Option<bool>)
    ensures
        r == ends_turn(status),
{
    if status.is_terminal() || status == SessionStatus::AwaitingInput {
        Some(status != SessionStatus::Failed && status != SessionStatus::Cancelled)
    } else {
        None
    }
}

/// A session that ended its turn.
#[derive(Debug)]
pub struct TurnEnd {
    pub session_id: String,
    pub ok: bool,
}

impl DaemonManager {
    /// The user wants nothing more of a task.
    pub fn dismiss_task(key: &str) -> (r: (TaskUpdate, Event))
        ensures
            r.0.key@ == key@,
            r.0.state@ == "dismissed"@,
            r.0.branch is None && r.0.session_id is None,
            r.1 == Event::DaemonUpdated,
    {
        (TaskUpdate::dismissed(key), Event::DaemonUpdated)
    }

    /// What the daemon takes from an event of the bus: the utilization that a rate-limit
    /// report carries, and the end of a session's turn (see [`on_session_finished`]).
    pub fn on_event(&mut self, event: &Event) -> (r: Option<TurnEnd>)
        ensures
            final(self).last_poll == old(self).last_poll,
            final(self).last_error == old(self).last_error,
            final(self).repo == old(self).repo,
            match *event {
                Event::SessionRateLimit { limit, .. } => opt_number_view(
                    final(self).utilization,
                ) == opt_number_view(limit.utilization),
                _ => final(self).utilization == old(self).utilization,
            },
            match *event {
                Event::SessionStatusChanged { session_id, status, .. } => match ends_turn(status) {
                    Some(ok) => r matches Some(t) && t.session_id@ == session_id@ && t.ok == ok,
                    None => r is None,
                },
                _ => r is None,
            },
    {
        match event {
            Event::SessionRateLimit { limit, .. } => {
                self.utilization = copy_number(&limit.utilization);
                None
            },
            Event::SessionStatusChanged { session_id, status, .. } => match turn_ended(*status) {
                Some(ok) => Some(TurnEnd { session_id: text_of(session_id.as_str()), ok }),
                None => None,
            },
            _ => None,
        }
    }
}

/// The end of a task: the state to store, and what is published.
#[derive(Debug)]
pub struct TaskEnd {
    pub key: String,
    pub state: &'static str,
    pub events: Vec<Event>,
}

pub open spec fn end_events(t: TaskV, ok: bool) -> Seq<EventV> {
    let finished = seq![EventV::DaemonTaskFinished { key: t.key, title: t.title, ok }];
    // A PR-comment plan is ready for a human to look at — put it in the attention queue, not
    // just the daemon panel, so it surfaces the same way a permission prompt or gate does.
    let ready = match t.branch {
        Some(branch) => if ok && t.kind == "pr_comment"@ {
            seq![
                EventV::AttentionRequired {
                    source: "pr_review_ready"@,
                    branch: Some(branch),
                    session_id: t.session_id,
                    message: "Reply plan ready: "@ + t.title,
                },
            ]
        } else {
            seq![]
        },
        None => seq![],
    };
    finished + ready + seq![EventV::DaemonUpdated]
}

/// The session of the running task finished its turn. Nothing, where the session is not the
/// running task's.
pub fn on_session_finished(running: Option<&DaemonTask>, session_id: &str, ok: bool) -> (r: Option<
    TaskEnd,
>)
    ensures
        match running {
            Some(t) => if t@.session_id == Some(session_id@) {
                r matches Some(e) && e.key@ == t@.key && e.state@ == (if ok {
                    "done"@
                } else {
                    "failed"@
                }) && event_views(e.events@) == end_events(t@, ok)
            } else {
                r is None
            },
            None => r is None,
        },
{
    let t: &DaemonTask = match running {
        Some(t) => t,
        None => return None,
    };
    let ours: bool = match &t.session_id {
        Some(id) => same_text(id.as_str(), session_id),
        None => false,
    };
    if !ours {
        return None;
    }
    let mut events: Vec<Event> = Vec::new();
    events.push(
        Event::DaemonTaskFinished {
            key: text_of(t.key.as_str()),
            title: text_of(t.title.as_str()),
            ok,
        },
    );
    if ok && same_text(t.kind.as_str(), "pr_comment") {
        match &t.branch {
            Some(branch) => {
                events.push(
                    Event::AttentionRequired {
                        source: text_of("pr_review_ready"),
                        branch: Some(text_of(branch.as_str())),
                        session_id: opt_text(&t.session_id),
                        message: text_of("Reply plan ready: ").concat(t.title.as_str()),
                    },
                );
            },
            None => {},
        }
    }
    events.push(Event::DaemonUpdated);
    assert(event_views(events@) =~= end_events(t@, ok));
    Some(
        TaskEnd {
            key: text_of(t.key.as_str()),
            state: if ok {
                "done"
            } else {
                "failed"
            },
            events,
        },
    )
}

// ---------------------------------------------------------------------------
// Laws
// ---------------------------------------------------------------------------

proof fn lemma_with_numbers(ids: Seq<u64>, items: Seq<JsonV>, key: Seq<char>)
    ensures
        forall|id: u64| ids.contains(id) ==> #[trigger] with_numbers(ids, items, key).contains(id),
        forall|i: int, id: u64|
            0 <= i < items.len() && unsigned_in(member(#[trigger] items[i], key)) == Some(id)
                ==> #[trigger] with_numbers(ids, items, key).contains(id),
    decreases items.len(),
{
    if items.len() > 0 {
        let d = items.drop_last();
        lemma_with_numbers(ids, d, key);
        let before = with_numbers(ids, d, key);
        let after = with_numbers(ids, items, key);
        assert forall|id: u64| before.contains(id) implies #[trigger] after.contains(id) by {
            let k = choose|k: int| 0 <= k < before.len() && before[k] == id;
            assert(after[k] == id);
        }
        assert forall|i: int, id: u64|
            0 <= i < items.len() && unsigned_in(member(#[trigger] items[i], key)) == Some(
                id,
            ) implies #[trigger] after.contains(id) by {
            if i < d.len() {
                assert(d[i] == items[i]);
                assert(before.contains(id));
            } else {
                assert(items[i] == items.last());
                if !before.contains(id) {
                    assert(after.last() == id);
                    assert(after[after.len() - 1] == id);
                }
            }
        }
    }
}

proof fn lemma_covered_grows(ids: Seq<u64>, t: TaskV, slug: Seq<char>, pr: u64)
    ensures
        forall|id: u64| ids.contains(id) ==> #[trigger] with_covered(ids, t, slug, pr).contains(id),
{
    match json_parsed(t.payload) {
        Ok(v) => match list_in(member(v, "comments"@)) {
            Some(l) => {
                lemma_with_numbers(ids, l, "comment_id"@);
            },
            None => {},
        },
        Err(_) => {},
    }
}

proof fn lemma_fresh(
    comments: Seq<CommentV>,
    resolved: Seq<u64>,
    watch: Seq<Seq<char>>,
    queued: Seq<u64>,
)
    ensures
        ({
            let f = fresh_comments(comments, resolved, watch, queued);
            &&& forall|i: int|
                0 <= i < f.len() ==> is_fresh(#[trigger] f[i], resolved, watch, queued)
                    && comments.contains(f[i])
            &&& forall|i: int|
                0 <= i < comments.len() && is_fresh(
                    #[trigger] comments[i],
                    resolved,
                    watch,
                    queued,
                ) ==> f.contains(comments[i])
        }),
    decreases comments.len(),
{
    if comments.len() > 0 {
        let d = comments.drop_last();
        lemma_fresh(d, resolved, watch, queued);
        let before = fresh_comments(d, resolved, watch, queued);
        let f = fresh_comments(comments, resolved, watch, queued);
        assert forall|i: int| 0 <= i < f.len() implies is_fresh(
            #[trigger] f[i],
            resolved,
            watch,
            queued,
        ) && comments.contains(f[i]) by {
            if i < before.len() {
                assert(f[i] == before[i]);
                let k = choose|k: int| 0 <= k < d.len() && d[k] == before[i];
                assert(comments[k] == f[i]);
            } else {
                assert(f[i] == comments[comments.len() - 1]);
            }
        }
        assert forall|i: int|
            0 <= i < comments.len() && is_fresh(
                #[trigger] comments[i],
                resolved,
                watch,
                queued,
            ) implies f.contains(comments[i]) by {
            if i < d.len() {
                assert(d[i] == comments[i]);
                let k = choose|k: int| 0 <= k < before.len() && before[k] == d[i];
                assert(f[k] == comments[i]);
            } else {
                assert(f[f.len() - 1] == comments[i]);
            }
        }
    }
}

proof fn lemma_same_items(a: Seq<CommentV>, b: Seq<CommentV>, c: CommentV)
    requires
        a.to_multiset() == b.to_multiset(),
        a.contains(c),
    ensures
        b.contains(c),
{
    broadcast use vstd::seq_lib::group_to_multiset_ensures;

    assert(a.to_multiset().count(c) > 0);
    assert(b.to_multiset().count(c) > 0);
}

proof fn lemma_comments_ranked()
    ensures
        is_ranking::<GhComment>(),
{
}

/// A comment in a resolved thread, one that a watched account wrote, and one that a task
/// already covers are never queued; everything else is.
pub proof fn news_are_open_foreign_and_new(
    comments: Seq<CommentV>,
    resolved: Seq<u64>,
    watch: Seq<Seq<char>>,
    queued: Seq<u64>,
    c: CommentV,
)
    ensures
        news_of(comments, resolved, watch, queued).contains(c) <==> comments.contains(c)
            && !resolved.contains(c.id) && !watch.contains(c.author) && !queued.contains(c.id),
{
    let f = fresh_comments(comments, resolved, watch, queued);
    let n = news_of(comments, resolved, watch, queued);
    lemma_fresh(comments, resolved, watch, queued);
    lemma_comments_ranked();
    sorting_keeps_the_items_and_orders_them::<GhComment>(f);
    if n.contains(c) {
        lemma_same_items(n, f, c);
    }
    if comments.contains(c) && is_fresh(c, resolved, watch, queued) {
        let i = choose|i: int| 0 <= i < comments.len() && comments[i] == c;
        assert(f.contains(comments[i]));
        lemma_same_items(f, n, c);
    }
}

/// A task covers the comments it was made for.
pub proof fn a_task_covers_its_comments(
    ids: Seq<u64>,
    t: TaskV,
    slug: Seq<char>,
    p: PullV,
    comments: Seq<CommentV>,
    i: int,
)
    requires
        t.kind == "pr_comment"@,
        t.key == comment_task_of(slug, p, comments).key,
        reads_as(t.payload, comment_payload(p, comments)),
        0 <= i < comments.len(),
    ensures
        with_covered(ids, t, slug, p.number).contains(comments[i].id),
{
    reveal_strlit("comment_id");
    reveal_strlit("review_id");
    reveal_strlit("author");
    reveal_strlit("path");
    reveal_strlit("body");
    reveal_strlit("url");
    let prefix = comment_key_prefix(slug, p.number);
    assert(t.key.subrange(0, prefix.len() as int) =~= prefix);
    let v = comment_payload(p, comments);
    let l = comment_values(comments);
    assert(list_in(member(v, "comments"@)) == Some(l));
    lemma_with_numbers(ids, l, "comment_id"@);
    let c = comments[i];
    assert(l[i] == comment_value(c));
    let m0 = Map::<Seq<char>, JsonV>::empty().insert(
        "comment_id"@,
        JsonV::Number(NumberV::Unsigned(c.id)),
    );
    assert("comment_id"@ != "review_id"@) by {
        assert("comment_id"@[0] != "review_id"@[0]);
    }
    assert("comment_id"@ != "author"@) by {
        assert("comment_id"@[0] != "author"@[0]);
    }
    assert("comment_id"@ != "path"@) by {
        assert("comment_id"@[0] != "path"@[0]);
    }
    assert("comment_id"@ != "body"@) by {
        assert("comment_id"@[0] != "body"@[0]);
    }
    assert("comment_id"@ != "url"@) by {
        assert("comment_id"@[0] != "url"@[0]);
    }
    assert(unsigned_in(member(l[i], "comment_id"@)) == Some(c.id));
}

/// Polling is idempotent: once the new comments of a pull request are queued, the same
/// comments make no further task, however often we poll.
pub proof fn polling_again_queues_nothing(
    tasks: Seq<TaskV>,
    t: TaskV,
    slug: Seq<char>,
    p: PullV,
    comments: Seq<CommentV>,
    resolved: Seq<u64>,
    watch: Seq<Seq<char>>,
)
    requires
        ({
            let news = news_of(comments, resolved, watch, covered_ids(tasks, slug, p.number));
            &&& t.kind == "pr_comment"@
            &&& t.key == comment_task_of(slug, p, news).key
            &&& reads_as(t.payload, comment_payload(p, news))
        }),
    ensures
        news_of(
            comments,
            resolved,
            watch,
            covered_ids(tasks.push(t), slug, p.number),
        ).len() == 0,
{
    let before = covered_ids(tasks, slug, p.number);
    let after = covered_ids(tasks.push(t), slug, p.number);
    assert(tasks.push(t).drop_last() =~= tasks);
    let news = news_of(comments, resolved, watch, before);
    let again = news_of(comments, resolved, watch, after);
    lemma_covered_grows(before, t, slug, p.number);
    if again.len() > 0 {
        let c = again[0];
        assert(again.contains(c));
        news_are_open_foreign_and_new(comments, resolved, watch, after, c);
        news_are_open_foreign_and_new(comments, resolved, watch, before, c);
        if before.contains(c.id) {
            assert(after.contains(c.id));
        } else {
            let i = choose|i: int| 0 <= i < news.len() && news[i] == c;
            a_task_covers_its_comments(before, t, slug, p, news, i);
        }
    }
}

/// A new push to a reviewed pull request is a new review; the same head is the same one.
pub proof fn reviews_are_keyed_by_head(
    many: bool,
    account: Seq<char>,
    slug: Seq<char>,
    p: PullV,
    q: PullV,
)
    requires
        p.number == q.number,
    ensures
        review_key(many, account, slug, p) == review_key(many, account, slug, q) <==> p.head_sha
            == q.head_sha,
{
    let a = review_key(many, account, slug, p);
    let b = review_key(many, account, slug, q);
    if a == b {
        let n = a.len() - p.head_sha.len();
        assert(a.subrange(n, a.len() as int) =~= p.head_sha);
        assert(b.subrange(n, b.len() as int) =~= q.head_sha);
    }
}

} // verus!
