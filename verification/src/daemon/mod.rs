//! Background daemon: watches GitHub and Jira for work addressed to the user and turns it
//! into prepared, human-gated sessions.
//!
//! Three flows, all deliberately read-only:
//! - **review requested on a PR** (the configured account is in `requested_reviewers`) →
//!   fetch the PR branch, get a worktree on it, and have its main session review the diff
//!   and call `submit_review_comments` with its draft findings, one per file+line.
//!   Re-triggers when the PR head moves.
//! - **new review comment on a PR whose head branch has a worktree here** (someone
//!   reviewing *your* work) → the branch's main session verifies the comment against the
//!   diff and calls `submit_review_comments` with a draft reply per comment.
//! - **Jira issue assigned to you** (only when `jira_base_url`/`jira_email`/`jira_token`
//!   are configured) → research worktree + a plan-mode session writing `RESEARCH.md`.
//!
//! Nothing is ever posted to GitHub/Jira and nothing is committed — every
//! `submit_review_comments` call raises a dialog the human approves before anything is
//! posted; acting on anything else prepared here is the human's move through the ordinary
//! (gated) session flow.
//!
//! Off by default (`daemon_enabled`). One task runs at a time; new work waits in a
//! persistent queue that survives restarts without duplicating anything (task keys are
//! idempotent). A usage gate keeps the background lane from eating the 5-hour window
//! interactive work needs.
pub mod briefing;
pub mod exec;
pub mod github;
pub mod jira;
pub mod naming;
pub mod pipeline;
pub mod poll;
pub mod queue;
pub mod start;
use crate::bus::Event;
use crate::daemon::github::{
    account_views, slug_from_remote_url, slug_of, AccountV, GhAccount,
};
use crate::error::{is_config, MaestroError};
use crate::json::{
    is_plain, json_parsed, json_written, list_view, number_view, parse_json, push_item, text_in,
    write_json, Json, JsonNumber, JsonV, NumberV,
};
use crate::text::{
    blank, chars_of, is_blank, opt_text, opt_view, parse_number, parsed_number, same_text, text_of,
    trim, trim_text, views,
};
use vstd::prelude::*;
use vstd::string::*;

verus! {

/// `"true"` turns the daemon on. Also toggleable from the daemon panel.
pub const SETTING_DAEMON_ENABLED: &'static str = "daemon_enabled";

/// The `gh` login the daemon acts as. Empty = gh's currently active account.
pub const SETTING_DAEMON_ACCOUNT: &'static str = "daemon_account";

/// Poll cadence in minutes (default 5, minimum 1).
pub const SETTING_DAEMON_POLL_MINUTES: &'static str = "daemon_poll_minutes";

/// Max 5h-window utilization (percent) at which queued tasks may still start.
pub const SETTING_DAEMON_USAGE_THRESHOLD: &'static str = "daemon_usage_threshold";

/// Model for research sessions (Jira). Empty = [`DEFAULT_RESEARCH_MODEL`].
pub const SETTING_DAEMON_RESEARCH_MODEL: &'static str = "daemon_research_model";

/// Reasoning effort for research sessions. Empty = [`DEFAULT_RESEARCH_EFFORT`].
pub const SETTING_DAEMON_RESEARCH_EFFORT: &'static str = "daemon_research_effort";

/// Model for PR-review / PR-comment sessions. Empty = [`DEFAULT_VERIFY_MODEL`].
pub const SETTING_DAEMON_VERIFY_MODEL: &'static str = "daemon_verify_model";

/// Reasoning effort for PR-review / PR-comment sessions. Empty = [`DEFAULT_VERIFY_EFFORT`].
pub const SETTING_DAEMON_VERIFY_EFFORT: &'static str = "daemon_verify_effort";

/// `owner/name` to watch. Empty = derived from the open repository's origin.
pub const SETTING_DAEMON_REPO: &'static str = "daemon_repo";

/// JSON array of gh logins the daemon polls on behalf of, in addition to (or instead of
/// listing) the single `daemon_account` posting identity. Empty = just that one account.
pub const SETTING_DAEMON_WATCH_ACCOUNTS: &'static str = "daemon_watch_accounts";

/// JSON array of label names (case-insensitive); a PR carrying any of them is skipped
/// entirely — no review-request task, no comment-reply task. Empty = unfiltered.
pub const SETTING_DAEMON_SKIP_LABELS: &'static str = "daemon_skip_labels";

pub const DEFAULT_POLL_MINUTES: u64 = 5;

/// Research is a first pass over unfamiliar ground — a capable model is enough.
pub const DEFAULT_RESEARCH_MODEL: &'static str = "sonnet";

pub const DEFAULT_RESEARCH_EFFORT: &'static str = "high";

/// Verify produces text a human will actually read (a PR review, a reply to a
/// comment) — worth the extra reasoning.
pub const DEFAULT_VERIFY_MODEL: &'static str = "sonnet";

pub const DEFAULT_VERIFY_EFFORT: &'static str = "xhigh";

/// Total start attempts allowed for a task before a transient failure gives up and falls
/// back to `failed` — the spacing of the poll ticks is the backoff, no timer needed.
pub const MAX_DAEMON_TASK_ATTEMPTS: u32 = 3;

// ---------------------------------------------------------------------------
// Tasks
// ---------------------------------------------------------------------------

/// A task of the daemon as it is stored.
#[derive(Debug)]
pub struct DaemonTask {
    pub key: String,
    pub kind: String,
    /// `queued`, `running`, `done`, `failed` or `dismissed`.
    pub state: String,
    pub title: String,
    pub payload: String,
    pub branch: Option<String>,
    pub session_id: Option<String>,
    pub attempts: u32,
    pub created_at: i128,
    pub updated_at: i128,
}

#[verifier::ext_equal]
pub struct TaskV {
    pub key: Seq<char>,
    pub kind: Seq<char>,
    pub state: Seq<char>,
    pub title: Seq<char>,
    pub payload: Seq<char>,
    pub branch: Option<Seq<char>>,
    pub session_id: Option<Seq<char>>,
    pub attempts: u32,
    pub created_at: i128,
    pub updated_at: i128,
}

impl View for DaemonTask {
    type V = TaskV;

    open spec fn view(&self) -> TaskV {
        TaskV {
            key: self.key@,
            kind: self.kind@,
            state: self.state@,
            title: self.title@,
            payload: self.payload@,
            branch: opt_view(self.branch),
            session_id: opt_view(self.session_id),
            attempts: self.attempts,
            created_at: self.created_at,
            updated_at: self.updated_at,
        }
    }
}

pub open spec fn task_views(s: Seq<DaemonTask>) -> Seq<TaskV> {
    s.map_values(|t: DaemonTask| t@)
}

fn copy_task(t: &DaemonTask) -> (r: DaemonTask)
    ensures
        r@ == t@,
{
    DaemonTask {
        key: text_of(t.key.as_str()),
        kind: text_of(t.kind.as_str()),
        state: text_of(t.state.as_str()),
        title: text_of(t.title.as_str()),
        payload: text_of(t.payload.as_str()),
        branch: opt_text(&t.branch),
        session_id: opt_text(&t.session_id),
        attempts: t.attempts,
        created_at: t.created_at,
        updated_at: t.updated_at,
    }
}

/// A setting to be stored, and what announces the change once it is.
#[derive(Debug)]
pub struct SettingChange {
    pub key: &'static str,
    pub value: String,
    pub event: Event,
}

// ---------------------------------------------------------------------------
// Accounts and repository
// ---------------------------------------------------------------------------

/// The login of the active account, from place `i` on; empty if there is none.
pub open spec fn active_login(accounts: Seq<AccountV>, i: int) -> Seq<char>
    decreases accounts.len() - i,
{
    if i < 0 || i >= accounts.len() {
        seq![]
    } else if accounts[i].active {
        accounts[i].login
    } else {
        active_login(accounts, i + 1)
    }
}

/// The gh login the app acts as: the setting when it is not blank, else gh's active one.
pub open spec fn acting_account(setting: Option<Seq<char>>, accounts: Seq<AccountV>) -> Seq<char> {
    match setting {
        Some(a) => if is_blank(a) {
            active_login(accounts, 0)
        } else {
            a
        },
        None => active_login(accounts, 0),
    }
}

/// The gh login the app acts as: the `daemon_account` setting when set, else gh's globally
/// active account. Shared by the daemon and the PR actions so "who am I on GitHub" has
/// exactly one answer.
pub fn resolve_account(setting: Option<&str>, accounts: &Vec<GhAccount>) -> (r: String)
    ensures
        r@ == acting_account(
            match setting {
                Some(s) => Some(s@),
                None => None,
            },
            account_views(accounts@),
        ),
{
    match setting {
        Some(a) => {
            if !blank(a) {
                return text_of(a);
            }
        },
        None => {},
    }
    let ghost av = account_views(accounts@);
    let mut i: usize = 0;
    while i < accounts.len()
        invariant
            i <= accounts@.len(),
            av == account_views(accounts@),
            acting_account(
                match setting {
                    Some(s) => Some(s@),
                    None => None,
                },
                av,
            ) == active_login(av, 0),
            active_login(av, 0) == active_login(av, i as int),
        decreases accounts@.len() - i,
    {
        assert(av[i as int] == accounts@[i as int]@);
        if accounts[i].active {
            return text_of(accounts[i].login.as_str());
        }
        i += 1;
    }
    let none: String = String::new();
    assert(none@ =~= seq![]);
    none
}

/// What is known of the open repository's `origin` remote.
#[derive(Debug)]
pub enum RepoOrigin {
    NoRepository,
    /// Git could not be run, or has no such remote.
    Failed(MaestroError),
    Url(String),
}

/// The `owner/name` this app talks to: the `daemon_repo` setting when set, else derived
/// from the open repository's `origin` remote.
pub fn resolve_slug(setting: Option<&str>, origin: RepoOrigin) -> (r: Result<String, MaestroError>)
    ensures
        match configured_slug(
            match setting {
                Some(s) => Some(s@),
                None => None,
            },
        ) {
            Some(slug) => r matches Ok(s) && s@ == slug,
            None => match origin {
                RepoOrigin::NoRepository => r matches Err(e) && is_config(
                    e,
                    "no repository selected"@,
                ),
                RepoOrigin::Failed(err) => r matches Err(e) && e == err,
                RepoOrigin::Url(url) => match slug_of(url@) {
                    Some(slug) => r matches Ok(s) && s@ == slug,
                    None => r matches Err(e) && is_config(
                        e,
                        "could not derive owner/name from remote '"@ + url@
                            + "' — set `daemon_repo`"@,
                    ),
                },
            },
        },
{
    match setting {
        Some(repo) => {
            if !blank(repo) {
                return Ok(trim_text(repo));
            }
        },
        None => {},
    }
    match origin {
        RepoOrigin::NoRepository => Err(
            MaestroError::Config { message: text_of("no repository selected") },
        ),
        RepoOrigin::Failed(err) => Err(err),
        RepoOrigin::Url(url) => match slug_from_remote_url(url.as_str()) {
            Some(slug) => Ok(slug),
            None => Err(
                MaestroError::Config {
                    message: text_of("could not derive owner/name from remote '").concat(
                        url.as_str(),
                    ).concat("' — set `daemon_repo`"),
                },
            ),
        },
    }
}

/// The slug that the setting gives, where it is not blank.
pub open spec fn configured_slug(setting: Option<Seq<char>>) -> Option<Seq<char>> {
    match setting {
        Some(s) => if is_blank(s) {
            None
        } else {
            Some(trim(s))
        },
        None => None,
    }
}

// ---------------------------------------------------------------------------
// Settings that hold lists
// ---------------------------------------------------------------------------

/// The texts of a list that holds nothing else.
pub open spec fn as_text_list(items: Seq<JsonV>) -> Option<Seq<Seq<char>>>
    decreases items.len(),
{
    if items.len() == 0 {
        Some(seq![])
    } else {
        match (as_text_list(items.drop_last()), text_in(Some(items.last()))) {
            (Some(l), Some(s)) => Some(l.push(s)),
            _ => None,
        }
    }
}

/// The list of texts that a value is; empty if it is none.
pub open spec fn texts_of_value(v: JsonV) -> Seq<Seq<char>> {
    match v {
        JsonV::List(items) => match as_text_list(items) {
            Some(l) => l,
            None => seq![],
        },
        _ => seq![],
    }
}

/// The list of texts in a setting; empty if the setting holds none.
pub open spec fn listed_in(setting: Option<Seq<char>>) -> Seq<Seq<char>> {
    match setting {
        Some(raw) => match json_parsed(raw) {
            Ok(v) => texts_of_value(v),
            Err(_) => seq![],
        },
        None => seq![],
    }
}

/// A list of texts as a value.
pub open spec fn text_list_value(texts: Seq<Seq<char>>) -> JsonV {
    JsonV::List(texts.map_values(|s: Seq<char>| JsonV::Text(s)))
}

/// The list of texts that a value is; empty if it is none.
pub fn read_texts(v: &Json) -> (r: Vec<String>)
    ensures
        views(r@) == texts_of_value(v@),
{
    let mut r: Vec<String> = Vec::new();
    assert(views(r@) =~= seq![]);
    match v {
        Json::List(items) => {
            let ghost iv = list_view(items@);
            let mut i: usize = 0;
            assert(iv.take(0) =~= seq![]);
            while i < items.len()
                invariant
                    i <= items@.len(),
                    iv == list_view(items@),
                    v@ == JsonV::List(iv),
                    as_text_list(iv.take(i as int)) == Some(views(r@)),
                decreases items@.len() - i,
            {
                let ghost done = views(r@);
                assert(iv.take(i + 1).drop_last() =~= iv.take(i as int));
                assert(iv.take(i + 1).last() == items@[i as int]@);
                match items[i].as_str() {
                    Some(s) => {
                        r.push(text_of(s));
                        assert(views(r@) =~= done.push(s@));
                    },
                    None => {
                        proof {
                            lemma_no_text_list(iv, i + 1);
                        }
                        let none: Vec<String> = Vec::new();
                        assert(views(none@) =~= seq![]);
                        return none;
                    },
                }
                i += 1;
            }
            assert(iv.take(i as int) =~= iv);
            r
        },
        _ => r,
    }
}

proof fn lemma_no_text_list(items: Seq<JsonV>, n: int)
    requires
        0 <= n <= items.len(),
        as_text_list(items.take(n)) is None,
    ensures
        as_text_list(items) is None,
    decreases items.len() - n,
{
    if n < items.len() {
        assert(items.take(n + 1).drop_last() =~= items.take(n));
        lemma_no_text_list(items, n + 1);
    } else {
        assert(items.take(n) =~= items);
    }
}

fn texts_in_setting(setting: Option<&str>) -> (r: Vec<String>)
    ensures
        views(r@) == listed_in(
            match setting {
                Some(s) => Some(s@),
                None => None,
            },
        ),
{
    let none: Vec<String> = Vec::new();
    assert(views(none@) =~= seq![]);
    match setting {
        Some(raw) => match parse_json(raw) {
            Ok(v) => read_texts(&v),
            Err(_) => none,
        },
        None => none,
    }
}

/// A list of texts for a setting. Reading the setting gives the list back.
fn write_texts(texts: &Vec<String>) -> (r: String)
    ensures
        r@ == json_written(text_list_value(views(texts@))),
        listed_in(Some(r@)) == views(texts@),
{
    let ghost tv = views(texts@);
    let mut items: Vec<Json> = Vec::new();
    let mut i: usize = 0;
    while i < texts.len()
        invariant
            i <= texts@.len(),
            tv == views(texts@),
            list_view(items@) == tv.take(i as int).map_values(|s: Seq<char>| JsonV::Text(s)),
        decreases texts@.len() - i,
    {
        push_item(&mut items, Json::Text(text_of(texts[i].as_str())));
        assert(list_view(items@) =~= tv.take(i + 1).map_values(|s: Seq<char>| JsonV::Text(s)));
        i += 1;
    }
    assert(tv.take(i as int) =~= tv);
    let j: Json = Json::List(items);
    proof {
        assert(j@ == text_list_value(tv));
        lemma_text_list(tv);
    }
    write_json(&j)
}

proof fn lemma_text_list(texts: Seq<Seq<char>>)
    ensures
        is_plain(text_list_value(texts), 8),
        texts_of_value(text_list_value(texts)) == texts,
    decreases texts.len(),
{
    let f = |s: Seq<char>| JsonV::Text(s);
    let l = texts.map_values(f);
    assert forall|i: int| 0 <= i < l.len() implies is_plain(#[trigger] l[i], 7) by {}
    if texts.len() > 0 {
        lemma_text_list(texts.drop_last());
        assert(l.drop_last() =~= texts.drop_last().map_values(f));
        assert(as_text_list(l.drop_last()) == Some(texts.drop_last())) by {
            lemma_text_list_some(texts.drop_last());
        }
        assert(texts.drop_last().push(texts.last()) =~= texts);
    } else {
        assert(l =~= seq![]);
        assert(texts =~= seq![]);
    }
}

proof fn lemma_text_list_some(texts: Seq<Seq<char>>)
    ensures
        as_text_list(texts.map_values(|s: Seq<char>| JsonV::Text(s))) == Some(texts),
    decreases texts.len(),
{
    let f = |s: Seq<char>| JsonV::Text(s);
    let l = texts.map_values(f);
    if texts.len() > 0 {
        lemma_text_list_some(texts.drop_last());
        assert(l.drop_last() =~= texts.drop_last().map_values(f));
        assert(texts.drop_last().push(texts.last()) =~= texts);
    } else {
        assert(l =~= seq![]);
        assert(texts =~= seq![]);
    }
}

// ---------------------------------------------------------------------------
// Watched accounts
// ---------------------------------------------------------------------------

pub open spec fn knows_login(accounts: Seq<AccountV>, login: Seq<char>) -> bool {
    exists|i: int| 0 <= i < accounts.len() && (#[trigger] accounts[i]).login == login
}

/// The logins that `gh` still knows about.
pub open spec fn known_logins(logins: Seq<Seq<char>>, accounts: Seq<AccountV>) -> Seq<Seq<char>>
    decreases logins.len(),
{
    if logins.len() == 0 {
        seq![]
    } else if knows_login(accounts, logins.last()) {
        known_logins(logins.drop_last(), accounts).push(logins.last())
    } else {
        known_logins(logins.drop_last(), accounts)
    }
}

/// Every account the daemon polls on behalf of: the configured ones that `gh` still knows,
/// else just the posting identity, where there is one.
pub open spec fn watch_list(
    watch: Seq<Seq<char>>,
    account: Option<Seq<char>>,
    accounts: Seq<AccountV>,
) -> Seq<Seq<char>> {
    let configured = known_logins(watch, accounts);
    if configured.len() > 0 {
        configured
    } else if acting_account(account, accounts).len() == 0 {
        seq![]
    } else {
        seq![acting_account(account, accounts)]
    }
}

fn is_known(accounts: &Vec<GhAccount>, login: &str) -> (b: bool)
    ensures
        b == knows_login(account_views(accounts@), login@),
{
    let ghost av = account_views(accounts@);
    let mut i: usize = 0;
    while i < accounts.len()
        invariant
            i <= accounts@.len(),
            av == account_views(accounts@),
            forall|k: int| 0 <= k < i ==> (#[trigger] av[k]).login != login@,
        decreases accounts@.len() - i,
    {
        assert(av[i as int] == accounts@[i as int]@);
        if same_text(accounts[i].login.as_str(), login) {
            return true;
        }
        i += 1;
    }
    false
}

/// Every account the daemon polls on behalf of, in order — the logins of the
/// `daemon_watch_accounts` setting that `gh` still knows about (a since-logged-out account
/// is dropped, not an error); falls back to just the single posting identity when there are
/// none.
pub fn watched_among(watch: &Vec<String>, account: Option<&str>, accounts: &Vec<GhAccount>) -> (r:
    Vec<String>)
    ensures
        views(r@) == watch_list(
            views(watch@),
            match account {
                Some(s) => Some(s@),
                None => None,
            },
            account_views(accounts@),
        ),
{
    let ghost wv = views(watch@);
    let ghost av = account_views(accounts@);
    let mut r: Vec<String> = Vec::new();
    let mut i: usize = 0;
    assert(views(r@) =~= known_logins(wv.take(0), av));
    while i < watch.len()
        invariant
            i <= watch@.len(),
            wv == views(watch@),
            av == account_views(accounts@),
            views(r@) == known_logins(wv.take(i as int), av),
        decreases watch@.len() - i,
    {
        let ghost done = views(r@);
        assert(wv.take(i + 1).drop_last() =~= wv.take(i as int));
        assert(wv.take(i + 1).last() == watch@[i as int]@);
        if is_known(accounts, watch[i].as_str()) {
            r.push(text_of(watch[i].as_str()));
            assert(views(r@) =~= done.push(watch@[i as int]@));
        }
        i += 1;
    }
    assert(wv.take(i as int) =~= wv);
    if r.len() > 0 {
        return r;
    }
    let primary: String = resolve_account(account, accounts);
    if !primary.as_str().is_empty() {
        let ghost p = primary@;
        r.push(primary);
        assert(views(r@) =~= seq![p]);
    } else {
        assert(views(r@) =~= seq![]);
    }
    r
}

/// Every account the daemon polls on behalf of, from the settings.
pub fn watched_accounts(watch: Option<&str>, account: Option<&str>, accounts: &Vec<GhAccount>) -> (r:
    Vec<String>)
    ensures
        views(r@) == watch_list(
            listed_in(
                match watch {
                    Some(s) => Some(s@),
                    None => None,
                },
            ),
            match account {
                Some(s) => Some(s@),
                None => None,
            },
            account_views(accounts@),
        ),
{
    let configured: Vec<String> = texts_in_setting(watch);
    watched_among(&configured, account, accounts)
}

/// The `daemon_skip_labels` setting — empty when unset, meaning nothing is filtered.
pub fn skip_labels(setting: Option<&str>) -> (r: Vec<String>)
    ensures
        views(r@) == listed_in(
            match setting {
                Some(s) => Some(s@),
                None => None,
            },
        ),
{
    texts_in_setting(setting)
}

// ---------------------------------------------------------------------------
// The manager
// ---------------------------------------------------------------------------

/// What the daemon remembers between polls.
#[derive(Debug)]
pub struct DaemonManager {
    /// Nanoseconds since the Unix epoch.
    pub last_poll: Option<i128>,
    pub last_error: Option<String>,
    /// Latest known 5h-window utilization (percent), if the CLI reported one.
    pub utilization: Option<JsonNumber>,
    /// Slug of the watched repository, refreshed each poll.
    pub repo: Option<String>,
}

/// What the frontend chip/panel shows.
#[derive(Debug)]
pub struct DaemonStatus {
    pub enabled: bool,
    /// The account the daemon is configured to act as (resolved, may be empty) — used for
    /// posting/replying elsewhere in the app (unaffected by `watched_accounts`, which is
    /// purely about detection).
    pub account: String,
    /// All gh logins on this machine, for the account picker.
    pub accounts: Vec<GhAccount>,
    /// Every account the daemon polls on behalf of this cycle — always includes at least
    /// `account` when resolvable.
    pub watched_accounts: Vec<String>,
    /// Label names that make the daemon skip a PR entirely. Empty = no filter.
    pub skip_labels: Vec<String>,
    /// Repository being watched (`owner/name`), once resolved.
    pub repo: Option<String>,
    /// Whether the Jira flow has credentials configured.
    pub jira_configured: bool,
    pub queued: usize,
    pub running: Option<DaemonTask>,
    pub last_poll: Option<i128>,
    pub last_error: Option<String>,
    /// Latest known 5h-window utilization (percent), if the CLI reported one.
    pub utilization: Option<JsonNumber>,
}

/// The settings that the daemon reads.
#[derive(Debug)]
pub struct DaemonSettings {
    pub enabled: Option<String>,
    pub account: Option<String>,
    pub watch_accounts: Option<String>,
    pub skip_labels: Option<String>,
}

/// How many tasks are in `state`.
pub open spec fn count_in_state(tasks: Seq<TaskV>, state: Seq<char>) -> nat
    decreases tasks.len(),
{
    if tasks.len() == 0 {
        0
    } else {
        count_in_state(tasks.drop_last(), state) + (if tasks.last().state == state {
            1nat
        } else {
            0
        })
    }
}

/// The first task in `state`, from place `i` on.
pub open spec fn first_in_state(tasks: Seq<TaskV>, state: Seq<char>, i: int) -> Option<TaskV>
    decreases tasks.len() - i,
{
    if i < 0 || i >= tasks.len() {
        None
    } else if tasks[i].state == state {
        Some(tasks[i])
    } else {
        first_in_state(tasks, state, i + 1)
    }
}

pub open spec fn opt_task_view(t: Option<DaemonTask>) -> Option<TaskV> {
    match t {
        Some(t) => Some(t@),
        None => None,
    }
}

pub open spec fn opt_number_view(n: Option<JsonNumber>) -> Option<NumberV> {
    match n {
        Some(n) => Some(number_view(n)),
        None => None,
    }
}

fn copy_number(n: &Option<JsonNumber>) -> (r: Option<JsonNumber>)
    ensures
        opt_number_view(r) == opt_number_view(*n),
{
    match n {
        Some(JsonNumber::Unsigned(u)) => Some(JsonNumber::Unsigned(*u)),
        Some(JsonNumber::Negative(i)) => Some(JsonNumber::Negative(*i)),
        Some(JsonNumber::Other(t)) => Some(JsonNumber::Other(text_of(t.as_str()))),
        None => None,
    }
}

fn count_tasks(tasks: &Vec<DaemonTask>, state: &str) -> (n: usize)
    ensures
        n == count_in_state(task_views(tasks@), state@),
{
    let ghost tv = task_views(tasks@);
    let mut n: usize = 0;
    let mut i: usize = 0;
    while i < tasks.len()
        invariant
            i <= tasks@.len(),
            n <= i,
            tv == task_views(tasks@),
            n == count_in_state(tv.take(i as int), state@),
        decreases tasks@.len() - i,
    {
        assert(tv.take(i + 1).drop_last() =~= tv.take(i as int));
        assert(tv.take(i + 1).last() == tasks@[i as int]@);
        if same_text(tasks[i].state.as_str(), state) {
            n += 1;
        }
        i += 1;
    }
    assert(tv.take(i as int) =~= tv);
    n
}

fn find_task(tasks: &Vec<DaemonTask>, state: &str) -> (r: Option<DaemonTask>)
    ensures
        opt_task_view(r) == first_in_state(task_views(tasks@), state@, 0),
{
    let ghost tv = task_views(tasks@);
    let mut i: usize = 0;
    while i < tasks.len()
        invariant
            i <= tasks@.len(),
            tv == task_views(tasks@),
            first_in_state(tv, state@, 0) == first_in_state(tv, state@, i as int),
        decreases tasks@.len() - i,
    {
        assert(tv[i as int] == tasks@[i as int]@);
        if same_text(tasks[i].state.as_str(), state) {
            return Some(copy_task(&tasks[i]));
        }
        i += 1;
    }
    None
}

/// How long a poll holds, in minutes.
pub open spec fn poll_minutes(setting: Option<Seq<char>>) -> u64 {
    let n = match setting {
        Some(s) => match parsed_number(s, u64::MAX as nat) {
            Some(n) => n as u64,
            None => DEFAULT_POLL_MINUTES,
        },
        None => DEFAULT_POLL_MINUTES,
    };
    if n < 1 {
        1
    } else {
        n
    }
}

/// What a polling pass reports: the two sides are independent — one failing must not
/// silence the other.
pub open spec fn poll_error(gh: Option<Seq<char>>, jira: Option<Seq<char>>) -> Option<Seq<char>> {
    match (gh, jira) {
        (None, None) => None,
        (Some(g), None) => Some(g),
        (None, Some(j)) => Some("Jira: "@ + j),
        (Some(g), Some(j)) => Some(g + "; Jira: "@ + j),
    }
}

impl DaemonManager {
    pub fn new() -> (m: Self)
        ensures
            m.last_poll is None,
            m.last_error is None,
            m.utilization is None,
            m.repo is None,
    {
        DaemonManager { last_poll: None, last_error: None, utilization: None, repo: None }
    }

    /// Whether the `daemon_enabled` setting turns the daemon on.
    pub fn enabled(setting: Option<&str>) -> (b: bool)
        ensures
            b == (setting matches Some(s) && s@ == "true"@),
    {
        match setting {
            Some(s) => same_text(s, "true"),
            None => false,
        }
    }

    pub fn set_enabled(enabled: bool) -> (c: SettingChange)
        ensures
            c.key@ == SETTING_DAEMON_ENABLED@,
            c.value@ == (if enabled {
                "true"@
            } else {
                "false"@
            }),
            c.event is DaemonUpdated,
    {
        SettingChange {
            key: SETTING_DAEMON_ENABLED,
            value: if enabled {
                text_of("true")
            } else {
                text_of("false")
            },
            event: Event::DaemonUpdated,
        }
    }

    pub fn set_account(account: &str) -> (c: SettingChange)
        ensures
            c.key@ == SETTING_DAEMON_ACCOUNT@,
            c.value@ == account@,
            c.event is DaemonUpdated,
    {
        SettingChange {
            key: SETTING_DAEMON_ACCOUNT,
            value: text_of(account),
            event: Event::DaemonUpdated,
        }
    }

    /// Replace the watch list. An empty list is valid — it just means "fall back to the
    /// single posting identity" (see [`watched_accounts`]).
    pub fn set_watched_accounts(accounts: &Vec<String>) -> (c: SettingChange)
        ensures
            c.key@ == SETTING_DAEMON_WATCH_ACCOUNTS@,
            c.value@ == json_written(text_list_value(views(accounts@))),
            listed_in(Some(c.value@)) == views(accounts@),
            c.event is DaemonUpdated,
    {
        SettingChange {
            key: SETTING_DAEMON_WATCH_ACCOUNTS,
            value: write_texts(accounts),
            event: Event::DaemonUpdated,
        }
    }

    /// Replace the skip-label list. An empty list clears filtering entirely.
    pub fn set_skip_labels(labels: &Vec<String>) -> (c: SettingChange)
        ensures
            c.key@ == SETTING_DAEMON_SKIP_LABELS@,
            c.value@ == json_written(text_list_value(views(labels@))),
            listed_in(Some(c.value@)) == views(labels@),
            c.event is DaemonUpdated,
    {
        SettingChange {
            key: SETTING_DAEMON_SKIP_LABELS,
            value: write_texts(labels),
            event: Event::DaemonUpdated,
        }
    }

    /// What the panel shows.
    pub fn status(
        &self,
        settings: &DaemonSettings,
        accounts: Vec<GhAccount>,
        jira_configured: bool,
        tasks: &Vec<DaemonTask>,
    ) -> (s: DaemonStatus)
        ensures
            s.enabled == (opt_view(settings.enabled) == Some("true"@)),
            s.account@ == acting_account(opt_view(settings.account), account_views(accounts@)),
            s.accounts == accounts,
            views(s.watched_accounts@) == watch_list(
                listed_in(opt_view(settings.watch_accounts)),
                opt_view(settings.account),
                account_views(accounts@),
            ),
            views(s.skip_labels@) == listed_in(opt_view(settings.skip_labels)),
            opt_view(s.repo) == opt_view(self.repo),
            s.jira_configured == jira_configured,
            s.queued == count_in_state(task_views(tasks@), "queued"@),
            opt_task_view(s.running) == first_in_state(task_views(tasks@), "running"@, 0),
            s.last_poll == self.last_poll,
            opt_view(s.last_error) == opt_view(self.last_error),
            opt_number_view(s.utilization) == opt_number_view(self.utilization),
    {
        let account: Option<&str> = as_opt(&settings.account);
        let acting: String = resolve_account(account, &accounts);
        let watched: Vec<String> = watched_accounts(
            as_opt(&settings.watch_accounts),
            account,
            &accounts,
        );
        DaemonStatus {
            enabled: DaemonManager::enabled(as_opt(&settings.enabled)),
            account: acting,
            watched_accounts: watched,
            accounts,
            skip_labels: skip_labels(as_opt(&settings.skip_labels)),
            repo: opt_text(&self.repo),
            jira_configured,
            queued: count_tasks(tasks, "queued"),
            running: find_task(tasks, "running"),
            last_poll: self.last_poll,
            last_error: opt_text(&self.last_error),
            utilization: copy_number(&self.utilization),
        }
    }

    /// Whether the next poll is due: never polled, or as long ago as the cadence says.
    pub fn poll_due(&self, setting: Option<&str>, now: i128) -> (b: bool)
        ensures
            b == (match self.last_poll {
                Some(last) => now - last >= poll_minutes(
                    match setting {
                        Some(s) => Some(s@),
                        None => None,
                    },
                ) * 60_000_000_000,
                None => true,
            }),
    {
        let mut minutes: u64 = DEFAULT_POLL_MINUTES;
        match setting {
            Some(s) => {
                let v: Vec<char> = chars_of(s);
                match parse_number(v.as_slice(), u64::MAX) {
                    Some(n) => {
                        minutes = n;
                    },
                    None => {},
                }
            },
            None => {},
        }
        if minutes < 1 {
            minutes = 1;
        }
        match self.last_poll {
            Some(last) => {
                let wait: i128 = (minutes as i128) * 60_000_000_000;
                last <= i128::MAX - wait && now >= last + wait
            },
            None => true,
        }
    }

    /// A polling pass ended: GitHub (review requests + comments on own PRs) and Jira (when
    /// configured) are independent — one failing must not silence the other. Errors land in
    /// `last_error` (and the status chip).
    pub fn polled(&mut self, gh: Option<String>, jira: Option<String>, now: i128) -> (e: Event)
        ensures
            final(self).last_poll == Some(now),
            opt_view(final(self).last_error) == poll_error(opt_view(gh), opt_view(jira)),
            final(self).utilization == old(self).utilization,
            final(self).repo == old(self).repo,
            e is DaemonUpdated,
    {
        self.last_error =
        match (gh, jira) {
            (None, None) => None,
            (Some(g), None) => Some(g),
            (None, Some(j)) => Some(text_of("Jira: ").concat(j.as_str())),
            (Some(g), Some(j)) => Some(g.concat("; Jira: ").concat(j.as_str())),
        };
        self.last_poll = Some(now);
        Event::DaemonUpdated
    }
}

pub fn as_opt(s: &Option<String>) -> (r: Option<&str>)
    ensures
        match r {
            Some(t) => opt_view(*s) == Some(t@),
            None => opt_view(*s) is None,
        },
{
    match s {
        Some(t) => Some(t.as_str()),
        None => None,
    }
}

} // verus!
