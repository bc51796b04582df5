//! GitHub boundary for the daemon, over the `gh` CLI.
//!
//! Account handling is deliberate: `gh` holds several logins (personal and work), and the
//! daemon must never depend on which one happens to be globally active. Every API call
//! carries the token of the *configured* account, so the user's own `gh` usage and the
//! daemon never fight over the active-account switch.
use crate::error::{is_config, is_invalid_data, GitErrorKind, MaestroError};
use crate::json::{
    bool_in, json_list_parsed, json_parsed, list_in, list_view, member, parse_json,
    parse_json_list, sub_member, text_in, text_or, unsigned_in, Json, JsonV,
};
use crate::sorting::Ranked;
use crate::text::{
    chars_of, contains_text, decimal, decimal_text, find_char, find_last_char, find_text,
    first_word, is_blank, join_texts, leading_word, lemma_next_match, lines, lines_of, next_char,
    next_match, opt_view, prev_char, split_on, split_text, string_of, strip_suffixes, text_of, trim,
    trim_text, trimmed, views, without_suffixes, char_views, join, lemma_next_char,
};
use vstd::prelude::*;
use vstd::slice::slice_subrange;
use vstd::string::*;
use vstd::utf8::encode_utf8;

verus! {

/// One `gh` login known on this machine.
#[derive(Debug)]
pub struct GhAccount {
    pub login: String,
    /// Whether this is gh's globally active account (shown as the default pick).
    pub active: bool,
}

#[verifier::ext_equal]
pub struct AccountV {
    pub login: Seq<char>,
    pub active: bool,
}

impl View for GhAccount {
    type V = AccountV;

    open spec fn view(&self) -> AccountV {
        AccountV { login: self.login@, active: self.active }
    }
}

pub open spec fn account_views(s: Seq<GhAccount>) -> Seq<AccountV> {
    s.map_values(|a: GhAccount| a@)
}

#[derive(Debug)]
pub struct GhPull {
    pub number: u64,
    pub title: String,
    pub body: String,
    pub author: String,
    pub head_ref: String,
    pub head_sha: String,
    pub url: String,
    /// Logins whose review is currently requested on this PR.
    pub requested_reviewers: Vec<String>,
    /// Names of the labels on this PR.
    pub labels: Vec<String>,
}

#[verifier::ext_equal]
pub struct PullV {
    pub number: u64,
    pub title: Seq<char>,
    pub body: Seq<char>,
    pub author: Seq<char>,
    pub head_ref: Seq<char>,
    pub head_sha: Seq<char>,
    pub url: Seq<char>,
    pub requested_reviewers: Seq<Seq<char>>,
    pub labels: Seq<Seq<char>>,
}

impl View for GhPull {
    type V = PullV;

    open spec fn view(&self) -> PullV {
        PullV {
            number: self.number,
            title: self.title@,
            body: self.body@,
            author: self.author@,
            head_ref: self.head_ref@,
            head_sha: self.head_sha@,
            url: self.url@,
            requested_reviewers: views(self.requested_reviewers@),
            labels: views(self.labels@),
        }
    }
}

pub open spec fn pull_views(s: Seq<GhPull>) -> Seq<PullV> {
    s.map_values(|p: GhPull| p@)
}

#[derive(Debug)]
pub struct GhComment {
    pub id: u64,
    pub body: String,
    pub author: String,
    pub path: Option<String>,
    pub url: String,
    /// The review submission this comment belongs to — comments left in the same review
    /// share one id. `None` for the rare comment GitHub didn't attach to any review.
    pub review_id: Option<u64>,
}

#[verifier::ext_equal]
pub struct CommentV {
    pub id: u64,
    pub body: Seq<char>,
    pub author: Seq<char>,
    pub path: Option<Seq<char>>,
    pub url: Seq<char>,
    pub review_id: Option<u64>,
}

impl View for GhComment {
    type V = CommentV;

    open spec fn view(&self) -> CommentV {
        CommentV {
            id: self.id,
            body: self.body@,
            author: self.author@,
            path: opt_view(self.path),
            url: self.url@,
            review_id: self.review_id,
        }
    }
}

impl Ranked for GhComment {
    open spec fn in_order(a: CommentV, b: CommentV) -> bool {
        a.id <= b.id
    }

    fn may_precede(&self, other: &Self) -> bool {
        self.id <= other.id
    }
}

pub open spec fn comment_views(s: Seq<GhComment>) -> Seq<CommentV> {
    s.map_values(|c: GhComment| c@)
}

/// A line comment of a new review.
#[derive(Debug)]
pub struct NewReviewComment {
    pub path: String,
    pub line: u64,
    /// Which side of the diff the line is on; none means GitHub's default.
    pub side: Option<String>,
    pub body: String,
}

#[verifier::ext_equal]
pub struct NewCommentV {
    pub path: Seq<char>,
    pub line: u64,
    pub side: Option<Seq<char>>,
    pub body: Seq<char>,
}

impl View for NewReviewComment {
    type V = NewCommentV;

    open spec fn view(&self) -> NewCommentV {
        NewCommentV {
            path: self.path@,
            line: self.line,
            side: opt_view(self.side),
            body: self.body@,
        }
    }
}

pub open spec fn new_comment_views(s: Seq<NewReviewComment>) -> Seq<NewCommentV> {
    s.map_values(|c: NewReviewComment| c@)
}

// ---------------------------------------------------------------------------
// Accounts
// ---------------------------------------------------------------------------

/// The accounts after one more line of `gh auth status`.
pub open spec fn with_status_line(accounts: Seq<AccountV>, line: Seq<char>) -> Seq<AccountV> {
    let l = trim(line);
    match next_match(l, " account "@, 0) {
        Some(i) => {
            let login = first_word(l.subrange(i + " account "@.len(), l.len() as int));
            if login.len() == 0 {
                accounts
            } else {
                accounts.push(AccountV { login, active: false })
            }
        },
        None => if contains_text(l, "Active account: true"@) && accounts.len() > 0 {
            accounts.drop_last().push(AccountV { login: accounts.last().login, active: true })
        } else {
            accounts
        },
    }
}

/// The accounts that `gh auth status` lists: a line with ` account NAME` is a login, a line
/// `Active account: true` marks the last one.
pub open spec fn accounts_in(ls: Seq<Seq<char>>) -> Seq<AccountV>
    decreases ls.len(),
{
    if ls.len() == 0 {
        seq![]
    } else {
        with_status_line(accounts_in(ls.drop_last()), ls.last())
    }
}

/// Parse `gh auth status` text into accounts. Tolerant: unknown lines are skipped.
pub fn parse_auth_status(out: &str) -> (r: Vec<GhAccount>)
    ensures
        account_views(r@) == accounts_in(lines(out@)),
{
    let s: Vec<char> = chars_of(out);
    let ls: Vec<Vec<char>> = lines_of(s.as_slice());
    let ghost lv = char_views(ls@);
    let mark: Vec<char> = chars_of(" account ");
    let flag: Vec<char> = chars_of("Active account: true");
    let mut r: Vec<GhAccount> = Vec::new();
    let mut i: usize = 0;
    assert(account_views(r@) =~= accounts_in(lv.take(0)));
    while i < ls.len()
        invariant
            i <= ls@.len(),
            lv == char_views(ls@),
            mark@ == " account "@,
            flag@ == "Active account: true"@,
            account_views(r@) == accounts_in(lv.take(i as int)),
        decreases ls@.len() - i,
    {
        assert(lv.take(i + 1).drop_last() =~= lv.take(i as int));
        assert(lv.take(i + 1).last() == ls@[i as int]@);
        let ghost done = account_views(r@);
        let line: &[char] = trimmed(ls[i].as_slice());
        proof {
            lemma_next_match(line@, mark@, 0);
        }
        match find_text(line, mark.as_slice(), 0) {
            Some(at) => {
                let n: usize = line.len();
                assert(at + mark@.len() <= n);
                let login: String = leading_word(slice_subrange(line, at + mark.len(), n));
                if !login.as_str().is_empty() {
                    let ghost l = login@;
                    r.push(GhAccount { login, active: false });
                    assert(account_views(r@) =~= done.push(AccountV { login: l, active: false }));
                }
            },
            None => {
                if find_text(line, flag.as_slice(), 0).is_some() {
                    match r.pop() {
                        Some(last) => {
                            let ghost l = last.login@;
                            assert(done.last() == last@);
                            r.push(GhAccount { login: last.login, active: true });
                            assert(account_views(r@) =~= done.drop_last().push(
                                AccountV { login: l, active: true },
                            ));
                        },
                        None => {},
                    }
                }
            },
        }
        i += 1;
    }
    assert(lv.take(i as int) =~= lv);
    r
}

// ---------------------------------------------------------------------------
// Remotes
// ---------------------------------------------------------------------------

/// The parts that are not empty.
pub open spec fn filled_parts(parts: Seq<Seq<char>>) -> Seq<Seq<char>>
    decreases parts.len(),
{
    if parts.len() == 0 {
        seq![]
    } else if parts.last().len() == 0 {
        filled_parts(parts.drop_last())
    } else {
        filled_parts(parts.drop_last()).push(parts.last())
    }
}

/// The path within a remote URL: what follows the last colon, if there is one.
/// "C:\..." is a Windows path, not an SSH remote — drive letters are rejected.
pub open spec fn remote_path(t: Seq<char>) -> Option<Seq<char>> {
    match prev_char(t, ':', t.len() as int) {
        Some(c) => {
            let after = t.subrange(c + 1, t.len() as int);
            if after.len() > 0 && (after[0] == '\\' || (after[0] == '/' && encode_utf8(t).len()
                < 4)) {
                None
            } else {
                Some(after)
            }
        },
        None => Some(t),
    }
}

/// The `owner/name` of a remote URL: its last two path segments.
pub open spec fn slug_of(url: Seq<char>) -> Option<Seq<char>> {
    match remote_path(without_suffixes(trim(url), ".git"@)) {
        Some(path) => {
            let segments = filled_parts(split_on(path, '/'));
            if segments.len() < 2 {
                None
            } else {
                Some(segments[segments.len() - 2] + "/"@ + segments[segments.len() - 1])
            }
        },
        None => None,
    }
}

fn keep_filled(parts: Vec<Vec<char>>) -> (r: Vec<Vec<char>>)
    ensures
        char_views(r@) == filled_parts(char_views(parts@)),
{
    let ghost ps = char_views(parts@);
    let mut r: Vec<Vec<char>> = Vec::new();
    let mut i: usize = 0;
    assert(char_views(r@) =~= filled_parts(ps.take(0)));
    while i < parts.len()
        invariant
            i <= parts@.len(),
            ps == char_views(parts@),
            char_views(r@) == filled_parts(ps.take(i as int)),
        decreases parts@.len() - i,
    {
        let ghost done = char_views(r@);
        assert(ps.take(i + 1).drop_last() =~= ps.take(i as int));
        assert(ps.take(i + 1).last() == parts@[i as int]@);
        if parts[i].len() > 0 {
            let mut part: Vec<char> = Vec::new();
            crate::text::push_all(&mut part, parts[i].as_slice());
            assert(part@ =~= parts@[i as int]@);
            r.push(part);
            assert(char_views(r@) =~= done.push(parts@[i as int]@));
        }
        i += 1;
    }
    assert(ps.take(i as int) =~= ps);
    r
}

/// `owner/name` from a git remote URL — SSH aliases, ssh:// and https forms all reduce to
/// the last two path segments.
pub fn slug_from_remote_url(url: &str) -> (r: Option<String>)
    ensures
        opt_view(r) == slug_of(url@),
{
    let s: Vec<char> = chars_of(url);
    let git: Vec<char> = chars_of(".git");
    proof {
        reveal_strlit(".git");
    }
    let t: &[char] = strip_suffixes(trimmed(s.as_slice()), git.as_slice());
    // host:owner/name  |  ssh://git@host/owner/name  |  https://host/owner/name
    let path: &[char] = match find_last_char(t, ':') {
        Some(c) => {
            let n: usize = t.len();
            let after: &[char] = slice_subrange(t, c + 1, n);
            if after.len() > 0 && (after[0] == '\\' || (after[0] == '/' && string_of(
                t,
            ).as_str().as_bytes().len() < 4)) {
                return None;
            }
            after
        },
        None => t,
    };
    let segments: Vec<Vec<char>> = keep_filled(split_text(path, '/'));
    let ghost sv = char_views(segments@);
    if segments.len() < 2 {
        return None;
    }
    assert(sv[sv.len() - 2] == segments@[segments@.len() - 2]@);
    assert(sv[sv.len() - 1] == segments@[segments@.len() - 1]@);
    let owner: String = string_of(segments[segments.len() - 2].as_slice());
    let name: String = string_of(segments[segments.len() - 1].as_slice());
    Some(owner.concat("/").concat(name.as_str()))
}

// ---------------------------------------------------------------------------
// Replies of the API
// ---------------------------------------------------------------------------

pub open spec fn bad_json_text(err: Seq<char>) -> Seq<char> {
    "unexpected gh api response: "@ + err
}

fn bad_json(err: String) -> (e: MaestroError)
    ensures
        is_invalid_data(e, bad_json_text(err@)),
{
    MaestroError::InvalidData {
        message: text_of("unexpected gh api response: ").concat(err.as_str()),
    }
}

/// The texts under `key` of the items that have one.
pub open spec fn texts_under(items: Seq<JsonV>, key: Seq<char>) -> Seq<Seq<char>>
    decreases items.len(),
{
    if items.len() == 0 {
        seq![]
    } else {
        match text_in(member(items.last(), key)) {
            Some(s) => texts_under(items.drop_last(), key).push(s),
            None => texts_under(items.drop_last(), key),
        }
    }
}

/// The texts under `key` of the items of a list, if it is one.
pub open spec fn listed_texts(list: Option<Seq<JsonV>>, key: Seq<char>) -> Seq<Seq<char>> {
    match list {
        Some(l) => texts_under(l, key),
        None => seq![],
    }
}

fn collect_texts(items: Option<&Vec<Json>>, key: &str) -> (r: Vec<String>)
    ensures
        views(r@) == listed_texts(
            match items {
                Some(l) => Some(list_view(l@)),
                None => None,
            },
            key@,
        ),
{
    let mut r: Vec<String> = Vec::new();
    assert(views(r@) =~= seq![]);
    match items {
        Some(l) => {
            let ghost lv = list_view(l@);
            let mut i: usize = 0;
            assert(lv.take(0) =~= seq![]);
            while i < l.len()
                invariant
                    i <= l@.len(),
                    lv == list_view(l@),
                    views(r@) == texts_under(lv.take(i as int), key@),
                decreases l@.len() - i,
            {
                let ghost done = views(r@);
                assert(lv.take(i + 1).drop_last() =~= lv.take(i as int));
                assert(lv.take(i + 1).last() == l@[i as int]@);
                match l[i].text_under(key) {
                    Some(s) => {
                        r.push(text_of(s));
                        assert(views(r@) =~= done.push(s@));
                    },
                    None => {},
                }
                i += 1;
            }
            assert(lv.take(i as int) =~= lv);
        },
        None => {},
    }
    r
}

/// The pull request that a value describes; nothing without a number, a title and a head.
pub open spec fn pull_of(v: JsonV) -> Option<PullV> {
    match (
        unsigned_in(member(v, "number"@)),
        text_in(member(v, "title"@)),
        text_in(sub_member(v, "head"@, "ref"@)),
    ) {
        (Some(number), Some(title), Some(head_ref)) => Some(
            PullV {
                number,
                title,
                body: text_or(text_in(member(v, "body"@)), ""@),
                author: text_or(text_in(sub_member(v, "user"@, "login"@)), "unknown"@),
                head_ref,
                head_sha: text_or(text_in(sub_member(v, "head"@, "sha"@)), ""@),
                url: text_or(text_in(member(v, "html_url"@)), ""@),
                requested_reviewers: listed_texts(
                    list_in(member(v, "requested_reviewers"@)),
                    "login"@,
                ),
                labels: listed_texts(list_in(member(v, "labels"@)), "name"@),
            },
        ),
        _ => None,
    }
}

pub open spec fn pulls_of(items: Seq<JsonV>) -> Seq<PullV>
    decreases items.len(),
{
    if items.len() == 0 {
        seq![]
    } else {
        match pull_of(items.last()) {
            Some(p) => pulls_of(items.drop_last()).push(p),
            None => pulls_of(items.drop_last()),
        }
    }
}

fn text_or_default(t: Option<&str>, default: &str) -> (r: String)
    ensures
        r@ == text_or(
            match t {
                Some(s) => Some(s@),
                None => None,
            },
            default@,
        ),
{
    match t {
        Some(s) => text_of(s),
        None => text_of(default),
    }
}

fn read_pull(v: &Json) -> (r: Option<GhPull>)
    ensures
        match r {
            Some(p) => pull_of(v@) == Some(p@),
            None => pull_of(v@) is None,
        },
{
    let number: u64 = match v.number_under("number") {
        Some(n) => n,
        None => return None,
    };
    let title: String = match v.text_under("title") {
        Some(s) => text_of(s),
        None => return None,
    };
    let head_ref: String = match v.text_within("head", "ref") {
        Some(s) => text_of(s),
        None => return None,
    };
    Some(
        GhPull {
            number,
            title,
            body: v.text_or_else("body", ""),
            author: text_or_default(v.text_within("user", "login"), "unknown"),
            head_ref,
            head_sha: text_or_default(v.text_within("head", "sha"), ""),
            url: v.text_or_else("html_url", ""),
            requested_reviewers: collect_texts(v.list_under("requested_reviewers"), "login"),
            labels: collect_texts(v.list_under("labels"), "name"),
        },
    )
}

/// The pull requests that the values describe; the others are left out.
pub fn read_pulls(items: &Vec<Json>) -> (r: Vec<GhPull>)
    ensures
        pull_views(r@) == pulls_of(list_view(items@)),
{
    let ghost iv = list_view(items@);
    let mut r: Vec<GhPull> = Vec::new();
    let mut i: usize = 0;
    assert(pull_views(r@) =~= pulls_of(iv.take(0)));
    while i < items.len()
        invariant
            i <= items@.len(),
            iv == list_view(items@),
            pull_views(r@) == pulls_of(iv.take(i as int)),
        decreases items@.len() - i,
    {
        let ghost done = pull_views(r@);
        assert(iv.take(i + 1).drop_last() =~= iv.take(i as int));
        assert(iv.take(i + 1).last() == items@[i as int]@);
        match read_pull(&items[i]) {
            Some(p) => {
                let ghost pv = p@;
                r.push(p);
                assert(pull_views(r@) =~= done.push(pv));
            },
            None => {},
        }
        i += 1;
    }
    assert(iv.take(i as int) =~= iv);
    r
}

/// The open pull requests in a reply of the API.
pub fn parse_pulls(out: &str) -> (r: Result<Vec<GhPull>, MaestroError>)
    ensures
        match json_list_parsed(out@) {
            Ok(items) => r matches Ok(v) && pull_views(v@) == pulls_of(items),
            Err(err) => r matches Err(e) && is_invalid_data(e, bad_json_text(err)),
        },
{
    match parse_json_list(out) {
        Ok(items) => Ok(read_pulls(&items)),
        Err(err) => Err(bad_json(err)),
    }
}

/// The review comment that a value describes; nothing without an id and a body.
pub open spec fn comment_of(v: JsonV) -> Option<CommentV> {
    match (unsigned_in(member(v, "id"@)), text_in(member(v, "body"@))) {
        (Some(id), Some(body)) => Some(
            CommentV {
                id,
                body,
                author: text_or(text_in(sub_member(v, "user"@, "login"@)), "unknown"@),
                path: text_in(member(v, "path"@)),
                url: text_or(text_in(member(v, "html_url"@)), ""@),
                review_id: unsigned_in(member(v, "pull_request_review_id"@)),
            },
        ),
        _ => None,
    }
}

pub open spec fn comments_of(items: Seq<JsonV>) -> Seq<CommentV>
    decreases items.len(),
{
    if items.len() == 0 {
        seq![]
    } else {
        match comment_of(items.last()) {
            Some(c) => comments_of(items.drop_last()).push(c),
            None => comments_of(items.drop_last()),
        }
    }
}

fn read_comment(v: &Json) -> (r: Option<GhComment>)
    ensures
        match r {
            Some(c) => comment_of(v@) == Some(c@),
            None => comment_of(v@) is None,
        },
{
    let id: u64 = match v.number_under("id") {
        Some(n) => n,
        None => return None,
    };
    let body: String = match v.text_under("body") {
        Some(s) => text_of(s),
        None => return None,
    };
    Some(
        GhComment {
            id,
            body,
            author: text_or_default(v.text_within("user", "login"), "unknown"),
            path: crate::text::opt_str(v.text_under("path")),
            url: v.text_or_else("html_url", ""),
            review_id: v.number_under("pull_request_review_id"),
        },
    )
}

/// The review comments that the values describe; the others are left out.
pub fn read_comments(items: &Vec<Json>) -> (r: Vec<GhComment>)
    ensures
        comment_views(r@) == comments_of(list_view(items@)),
{
    let ghost iv = list_view(items@);
    let mut r: Vec<GhComment> = Vec::new();
    let mut i: usize = 0;
    assert(comment_views(r@) =~= comments_of(iv.take(0)));
    while i < items.len()
        invariant
            i <= items@.len(),
            iv == list_view(items@),
            comment_views(r@) == comments_of(iv.take(i as int)),
        decreases items@.len() - i,
    {
        let ghost done = comment_views(r@);
        assert(iv.take(i + 1).drop_last() =~= iv.take(i as int));
        assert(iv.take(i + 1).last() == items@[i as int]@);
        match read_comment(&items[i]) {
            Some(c) => {
                let ghost cv = c@;
                r.push(c);
                assert(comment_views(r@) =~= done.push(cv));
            },
            None => {},
        }
        i += 1;
    }
    assert(iv.take(i as int) =~= iv);
    r
}

/// The review comments in a reply of the API.
pub fn parse_comments(out: &str) -> (r: Result<Vec<GhComment>, MaestroError>)
    ensures
        match json_list_parsed(out@) {
            Ok(items) => r matches Ok(v) && comment_views(v@) == comments_of(items),
            Err(err) => r matches Err(e) && is_invalid_data(e, bad_json_text(err)),
        },
{
    match parse_json_list(out) {
        Ok(items) => Ok(read_comments(&items)),
        Err(err) => Err(bad_json(err)),
    }
}

/// `ids` with `id`, once.
pub open spec fn with_id(ids: Seq<u64>, id: u64) -> Seq<u64> {
    if ids.contains(id) {
        ids
    } else {
        ids.push(id)
    }
}

/// `ids` with the numbers under `key` of the items that have one.
pub open spec fn with_numbers(ids: Seq<u64>, items: Seq<JsonV>, key: Seq<char>) -> Seq<u64>
    decreases items.len(),
{
    if items.len() == 0 {
        ids
    } else {
        let before = with_numbers(ids, items.drop_last(), key);
        match unsigned_in(member(items.last(), key)) {
            Some(id) => with_id(before, id),
            None => before,
        }
    }
}

/// The ids of the comments in the threads that are marked resolved.
pub open spec fn resolved_in(threads: Seq<JsonV>) -> Seq<u64>
    decreases threads.len(),
{
    if threads.len() == 0 {
        seq![]
    } else {
        let before = resolved_in(threads.drop_last());
        let t = threads.last();
        if bool_in(member(t, "isResolved"@)) == Some(true) {
            match list_in(sub_member(t, "comments"@, "nodes"@)) {
                Some(l) => with_numbers(before, l, "databaseId"@),
                None => before,
            }
        } else {
            before
        }
    }
}

/// The review threads of a reply: `data.repository.pullRequest.reviewThreads.nodes`.
pub open spec fn threads_of(v: JsonV) -> Seq<JsonV> {
    match sub_member(v, "data"@, "repository"@) {
        Some(r) => match sub_member(r, "pullRequest"@, "reviewThreads"@) {
            Some(t) => match list_in(member(t, "nodes"@)) {
                Some(l) => l,
                None => seq![],
            },
            None => seq![],
        },
        None => seq![],
    }
}

pub fn has_id(ids: &Vec<u64>, id: u64) -> (b: bool)
    ensures
        b == ids@.contains(id),
{
    let mut i: usize = 0;
    while i < ids.len()
        invariant
            i <= ids@.len(),
            forall|k: int| 0 <= k < i ==> ids@[k] != id,
        decreases ids@.len() - i,
    {
        if ids[i] == id {
            return true;
        }
        i += 1;
    }
    false
}

/// Adds the numbers under `key` of the items to `ids`, each once.
pub fn add_numbers(ids: &mut Vec<u64>, items: &Vec<Json>, key: &str)
    ensures
        final(ids)@ == with_numbers(old(ids)@, list_view(items@), key@),
{
    let ghost iv = list_view(items@);
    let ghost start = ids@;
    let mut i: usize = 0;
    assert(iv.take(0) =~= seq![]);
    while i < items.len()
        invariant
            i <= items@.len(),
            iv == list_view(items@),
            ids@ == with_numbers(start, iv.take(i as int), key@),
        decreases items@.len() - i,
    {
        assert(iv.take(i + 1).drop_last() =~= iv.take(i as int));
        assert(iv.take(i + 1).last() == items@[i as int]@);
        match items[i].number_under(key) {
            Some(id) => {
                if !has_id(ids, id) {
                    ids.push(id);
                }
            },
            None => {},
        }
        i += 1;
    }
    assert(iv.take(i as int) =~= iv);
}

/// The comment ids out of every resolved thread of a `reviewThreads` reply. Tolerant of a
/// missing/malformed shape — an unexpected reply yields no resolved ids.
pub fn read_resolved_ids(reply: &Json) -> (r: Vec<u64>)
    ensures
        r@ == resolved_in(threads_of(reply@)),
{
    let mut r: Vec<u64> = Vec::new();
    let repository: &Json = match reply.get("data") {
        Some(d) => match d.get("repository") {
            Some(r) => r,
            None => return r,
        },
        None => return r,
    };
    let threads: &Vec<Json> = match repository.get("pullRequest") {
        Some(p) => match p.get("reviewThreads") {
            Some(t) => match t.list_under("nodes") {
                Some(l) => l,
                None => return r,
            },
            None => return r,
        },
        None => return r,
    };
    let ghost tv = list_view(threads@);
    let mut i: usize = 0;
    assert(tv.take(0) =~= seq![]);
    while i < threads.len()
        invariant
            i <= threads@.len(),
            tv == list_view(threads@),
            r@ == resolved_in(tv.take(i as int)),
        decreases threads@.len() - i,
    {
        assert(tv.take(i + 1).drop_last() =~= tv.take(i as int));
        assert(tv.take(i + 1).last() == threads@[i as int]@);
        let t: &Json = &threads[i];
        let resolved: bool = match t.get("isResolved") {
            Some(b) => match b.as_bool() {
                Some(b) => b,
                None => false,
            },
            None => false,
        };
        if resolved {
            match t.get("comments") {
                Some(c) => match c.list_under("nodes") {
                    Some(l) => {
                        add_numbers(&mut r, l, "databaseId");
                    },
                    None => {},
                },
                None => {},
            }
        }
        i += 1;
    }
    assert(tv.take(i as int) =~= tv);
    r
}

/// Pull the comment ids out of every resolved thread in a `reviewThreads` reply.
pub fn parse_resolved_ids(raw: &str) -> (r: Result<Vec<u64>, MaestroError>)
    ensures
        match json_parsed(raw@) {
            Ok(v) => r matches Ok(ids) && ids@ == resolved_in(threads_of(v)),
            Err(err) => r matches Err(e) && is_invalid_data(e, bad_json_text(err)),
        },
{
    match parse_json(raw) {
        Ok(v) => Ok(read_resolved_ids(&v)),
        Err(err) => Err(bad_json(err)),
    }
}

/// The `html_url` in a reply of the API; empty where it has none.
pub fn parse_html_url(raw: &str) -> (r: Result<String, MaestroError>)
    ensures
        match json_parsed(raw@) {
            Ok(v) => r matches Ok(s) && s@ == text_or(text_in(member(v, "html_url"@)), ""@),
            Err(err) => r matches Err(e) && is_invalid_data(e, bad_json_text(err)),
        },
{
    match parse_json(raw) {
        Ok(v) => Ok(v.text_or_else("html_url", "")),
        Err(err) => Err(bad_json(err)),
    }
}

// ---------------------------------------------------------------------------
// Calls of the CLI
// ---------------------------------------------------------------------------

/// Asks for the review threads of a pull request and which of them are resolved.
pub const RESOLVED_QUERY: &'static str = "query($owner: String!, $name: String!, $number: Int!) { repository(owner: $owner, name: $name) { pullRequest(number: $number) { reviewThreads(first: 100) { nodes { isResolved comments(first: 100) { nodes { databaseId } } } } } } }";

/// How the daemon talks to GitHub: the arguments of the `gh` calls and what their output
/// says. Running them is left to the caller.
#[derive(Debug)]
pub struct GhCli {}

fn text_list2(a: &str, b: String) -> (r: Vec<String>)
    ensures
        views(r@) == seq![a@, b@],
{
    let ghost bv = b@;
    let mut r: Vec<String> = Vec::new();
    r.push(text_of(a));
    r.push(b);
    assert(views(r@) =~= seq![a@, bv]);
    r
}

impl GhCli {
    /// The arguments that list the logins.
    pub fn accounts_args() -> (r: Vec<String>)
        ensures
            views(r@) == seq!["auth"@, "status"@],
    {
        text_list2("auth", text_of("status"))
    }

    /// The arguments that ask for the token of `account`.
    pub fn token_args(account: &str) -> (r: Vec<String>)
        ensures
            views(r@) == seq!["auth"@, "token"@, "--user"@, account@],
    {
        let mut r: Vec<String> = Vec::new();
        r.push(text_of("auth"));
        r.push(text_of("token"));
        r.push(text_of("--user"));
        r.push(text_of(account));
        assert(views(r@) =~= seq!["auth"@, "token"@, "--user"@, account@]);
        r
    }

    /// The token in what `gh auth token` printed. No token, no polling.
    pub fn token(out: &str, account: &str) -> (r: Result<String, MaestroError>)
        ensures
            if is_blank(out@) {
                r matches Err(e) && is_config(
                    e,
                    "gh returned no token for account '"@ + account@ + "'"@,
                )
            } else {
                r matches Ok(t) && t@ == trim(out@)
            },
    {
        let token: String = trim_text(out);
        if token.as_str().is_empty() {
            return Err(
                MaestroError::Config {
                    message: text_of("gh returned no token for account '").concat(account).concat(
                        "'",
                    ),
                },
            );
        }
        Ok(token)
    }

    /// The arguments that list the open pull requests of `slug`.
    pub fn open_pulls_args(slug: &str) -> (r: Vec<String>)
        ensures
            views(r@) == seq!["api"@, "repos/"@ + slug@ + "/pulls?state=open&per_page=50"@],
    {
        text_list2(
            "api",
            text_of("repos/").concat(slug).concat("/pulls?state=open&per_page=50"),
        )
    }

    /// The arguments that list the review comments of a pull request.
    pub fn pull_comments_args(slug: &str, number: u64) -> (r: Vec<String>)
        ensures
            views(r@) == seq![
                "api"@,
                "repos/"@ + slug@ + "/pulls/"@ + decimal(number as nat)
                    + "/comments?per_page=100"@,
            ],
    {
        text_list2(
            "api",
            text_of("repos/").concat(slug).concat("/pulls/").concat(
                decimal_text(number).as_str(),
            ).concat("/comments?per_page=100"),
        )
    }

    /// The arguments that ask which review threads of a pull request are resolved.
    pub fn resolved_comment_ids_args(slug: &str, number: u64) -> (r: Result<
        Vec<String>,
        MaestroError,
    >)
        ensures
            ({
                let i = next_char(slug@, '/', 0);
                if i >= slug@.len() {
                    r matches Err(e) && is_invalid_data(e, "malformed repo slug: "@ + slug@)
                } else {
                    r matches Ok(v) && views(v@) == seq![
                        "api"@,
                        "graphql"@,
                        "-f"@,
                        "query="@ + RESOLVED_QUERY@,
                        "-f"@,
                        "owner="@ + slug@.subrange(0, i),
                        "-f"@,
                        "name="@ + slug@.subrange(i + 1, slug@.len() as int),
                        "-F"@,
                        "number="@ + decimal(number as nat),
                    ]
                }
            }),
    {
        let s: Vec<char> = chars_of(slug);
        let n: usize = s.len();
        proof {
            lemma_next_char(slug@, '/', 0);
        }
        let i: usize = find_char(s.as_slice(), '/', 0);
        if i >= n {
            return Err(
                MaestroError::InvalidData { message: text_of("malformed repo slug: ").concat(slug) },
            );
        }
        let owner: String = crate::text::part_of(s.as_slice(), 0, i);
        let name: String = crate::text::part_of(s.as_slice(), i + 1, n);
        let mut r: Vec<String> = Vec::new();
        r.push(text_of("api"));
        r.push(text_of("graphql"));
        r.push(text_of("-f"));
        r.push(text_of("query=").concat(RESOLVED_QUERY));
        r.push(text_of("-f"));
        r.push(text_of("owner=").concat(owner.as_str()));
        r.push(text_of("-f"));
        r.push(text_of("name=").concat(name.as_str()));
        r.push(text_of("-F"));
        r.push(text_of("number=").concat(decimal_text(number).as_str()));
        assert(views(r@) =~= seq![
            "api"@,
            "graphql"@,
            "-f"@,
            "query="@ + RESOLVED_QUERY@,
            "-f"@,
            "owner="@ + owner@,
            "-f"@,
            "name="@ + name@,
            "-F"@,
            "number="@ + decimal(number as nat),
        ]);
        Ok(r)
    }

    /// The arguments that create a pull request. User-initiated only; the daemon never
    /// calls this.
    pub fn create_pr_args(base: &str, head: &str, title: &str, body: &str) -> (r: Vec<String>)
        ensures
            views(r@) == seq![
                "pr"@,
                "create"@,
                "--base"@,
                base@,
                "--head"@,
                head@,
                "--title"@,
                title@,
                "--body"@,
                body@,
            ],
    {
        let mut r: Vec<String> = Vec::new();
        r.push(text_of("pr"));
        r.push(text_of("create"));
        r.push(text_of("--base"));
        r.push(text_of(base));
        r.push(text_of("--head"));
        r.push(text_of(head));
        r.push(text_of("--title"));
        r.push(text_of(title));
        r.push(text_of("--body"));
        r.push(text_of(body));
        assert(views(r@) =~= seq![
            "pr"@,
            "create"@,
            "--base"@,
            base@,
            "--head"@,
            head@,
            "--title"@,
            title@,
            "--body"@,
            body@,
        ]);
        r
    }

    /// The URL in what `gh pr create` printed: its last line that is not blank, trimmed.
    pub fn created_pr_url(out: &str) -> (r: String)
        ensures
            r@ == last_filled_line(lines(out@)),
    {
        let s: Vec<char> = chars_of(out);
        let ls: Vec<Vec<char>> = lines_of(s.as_slice());
        let ghost lv = char_views(ls@);
        let mut i: usize = ls.len();
        assert(lv.take(i as int) =~= lv);
        while i > 0
            invariant
                i <= ls@.len(),
                lv == char_views(ls@),
                last_filled_line(lines(out@)) == last_filled_line(lv.take(i as int)),
            decreases i,
        {
            assert(lv.take(i as int).drop_last() =~= lv.take(i - 1));
            assert(lv.take(i as int).last() == ls@[i - 1]@);
            let line: &[char] = trimmed(ls[i - 1].as_slice());
            if line.len() > 0 {
                return string_of(line);
            }
            i -= 1;
        }
        let none: String = String::new();
        assert(none@ =~= seq![]);
        none
    }

    /// The arguments that reply to a review comment. User-initiated only; the daemon never
    /// calls this.
    pub fn reply_args(slug: &str, pr: u64, comment_id: u64, body: &str) -> (r: Vec<String>)
        ensures
            views(r@) == seq![
                "api"@,
                "-X"@,
                "POST"@,
                "repos/"@ + slug@ + "/pulls/"@ + decimal(pr as nat) + "/comments/"@ + decimal(
                    comment_id as nat,
                ) + "/replies"@,
                "-f"@,
                "body="@ + body@,
            ],
    {
        let path: String = text_of("repos/").concat(slug).concat("/pulls/").concat(
            decimal_text(pr).as_str(),
        ).concat("/comments/").concat(decimal_text(comment_id).as_str()).concat("/replies");
        let ghost pv = path@;
        let mut r: Vec<String> = Vec::new();
        r.push(text_of("api"));
        r.push(text_of("-X"));
        r.push(text_of("POST"));
        r.push(path);
        r.push(text_of("-f"));
        r.push(text_of("body=").concat(body));
        assert(views(r@) =~= seq!["api"@, "-X"@, "POST"@, pv, "-f"@, "body="@ + body@]);
        r
    }

    /// The error of a `gh` call that could not be started.
    pub fn not_launched(err: &str) -> (e: MaestroError)
        ensures
            e matches MaestroError::Git { kind, message } && kind == GitErrorKind::NotInstalled
                && message@ == "failed to launch gh: "@ + err@,
    {
        MaestroError::Git {
            kind: GitErrorKind::NotInstalled,
            message: text_of("failed to launch gh: ").concat(err),
        }
    }

    /// The error of a `gh` call that failed.
    pub fn call_failed(args: &Vec<String>, stderr: &str) -> (e: MaestroError)
        ensures
            e matches MaestroError::Git { kind, message } && kind == GitErrorKind::CommandFailed
                && message@ == "`gh "@ + join(views(args@), " "@) + "` failed: "@ + trim(stderr@),
    {
        MaestroError::Git {
            kind: GitErrorKind::CommandFailed,
            message: text_of("`gh ").concat(join_texts(args, " ").as_str()).concat(
                "` failed: ",
            ).concat(trim_text(stderr).as_str()),
        }
    }
}

/// The last line that is not blank, trimmed; empty if there is none.
pub open spec fn last_filled_line(ls: Seq<Seq<char>>) -> Seq<char>
    decreases ls.len(),
{
    if ls.len() == 0 {
        seq![]
    } else if is_blank(ls.last()) {
        last_filled_line(ls.drop_last())
    } else {
        trim(ls.last())
    }
}

} // verus!
