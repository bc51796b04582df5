//! The background daemon: polling, the queue, starting and finishing tasks.
use maestro_core::agent::protocol::RateLimitReading;
use maestro_core::bus::Event;
use maestro_core::daemon::exec::{
    created, ensure_research_worktree, ensure_review_worktree, origin_url, OriginProbe,
    WorktreeStep,
};
use maestro_core::daemon::github::{GhAccount, GhComment, GhPull};
use maestro_core::daemon::jira::JiraIssue;
use maestro_core::daemon::poll::{GhAsk, GhReply, GithubPoll};
use maestro_core::daemon::queue::{
    already_queued_comment_ids, drive_queue, enqueue, issue_task, on_session_finished,
    start_failed, turn_ended, FailedStart, NewTask, TaskUpdate,
};
use maestro_core::daemon::start::{
    start, start_jira, start_pr_comment, start_pr_review, MainPrompt, StartPlan,
};
use maestro_core::daemon::{
    DaemonManager, DaemonSettings, DaemonTask, RepoOrigin,
    MAX_DAEMON_TASK_ATTEMPTS,
};
use maestro_core::error::{GitErrorKind, MaestroError};
use maestro_core::json::JsonNumber;
use maestro_core::outside::{millis, nanos, Stamp};
use maestro_core::session::manager::SpawnParams;
use maestro_core::session::SessionStatus;
use maestro_core::worktree::{worktree_path, WorktreeRef};

#[derive(Default)]
struct Gh {
    pulls: Vec<GhPull>,
    comments: Vec<GhComment>,
    resolved: Vec<u64>,
    token_fails: bool,
}

#[derive(Clone, Copy)]
enum SpawnFailure {
    Transient,
    Permanent,
}

/// A store, a GitHub and a repository in memory, driven the way the app drives them.
struct World {
    gh: Gh,
    issues: Vec<JiraIssue>,
    jira_fails: bool,
    jira_configured: bool,
    worktrees: Vec<String>,
    fail_spawn: Option<SpawnFailure>,
    reply_style: String,
    workflow_gate: String,
    watch: Option<String>,
    skip: Option<String>,
    verify_model: Option<String>,
    verify_effort: Option<String>,
    usage_open: bool,
    manager: DaemonManager,
    tasks: Vec<DaemonTask>,
    fetched: Vec<String>,
    created: Vec<(String, String)>,
    main_ensured: Vec<String>,
    main_sent: Vec<MainPrompt>,
    spawned: Vec<SpawnParams>,
    events: Vec<Event>,
}

fn world(gh: Gh) -> World {
    World {
        gh,
        issues: Vec::new(),
        jira_fails: false,
        jira_configured: false,
        worktrees: Vec::new(),
        fail_spawn: None,
        reply_style: String::new(),
        workflow_gate: String::new(),
        watch: None,
        skip: None,
        verify_model: None,
        verify_effort: None,
        usage_open: true,
        manager: DaemonManager::new(),
        tasks: Vec::new(),
        fetched: Vec::new(),
        created: Vec::new(),
        main_ensured: Vec::new(),
        main_sent: Vec::new(),
        spawned: Vec::new(),
        events: Vec::new(),
    }
}

fn accounts() -> Vec<GhAccount> {
    vec![
        GhAccount { login: "personal".into(), active: true },
        GhAccount { login: "work".into(), active: false },
    ]
}

const SLUG: &str = "owner/repo";

impl World {
    fn refs(&self) -> Vec<WorktreeRef> {
        self.worktrees
            .iter()
            .map(|b| WorktreeRef { branch: Some(b.clone()), path: format!("/wt/{b}") })
            .collect()
    }

    fn set_watched_accounts(&mut self, names: &[&str]) {
        let names: Vec<String> = names.iter().map(|n| n.to_string()).collect();
        self.watch = Some(DaemonManager::set_watched_accounts(&names).value);
    }

    fn set_skip_labels(&mut self, labels: &[&str]) {
        let labels: Vec<String> = labels.iter().map(|n| n.to_string()).collect();
        self.skip = Some(DaemonManager::set_skip_labels(&labels).value);
    }

    /// The store keeps the first task under a key.
    fn insert(&mut self, task: NewTask) {
        if !self.tasks.iter().any(|t| t.key == task.key) {
            let at = self.tasks.len() as i128;
            self.tasks.push(enqueue(task, at));
        }
    }

    /// Run one pass, answering whatever it asks for.
    fn poll_github(&mut self) -> Result<(), MaestroError> {
        let settings = DaemonSettings {
            enabled: Some("true".into()),
            account: None,
            watch_accounts: self.watch.clone(),
            skip_labels: self.skip.clone(),
        };
        let (mut poll, mut ask) = DaemonManager::begin_poll();
        loop {
            let reply = match ask {
                GhAsk::Accounts => GhReply::Accounts(Ok(accounts())),
                GhAsk::Repo => GhReply::Repo(Ok(SLUG.into())),
                GhAsk::Token { account } => GhReply::Token(if self.gh.token_fails {
                    Err(MaestroError::Config { message: "no token".into() })
                } else {
                    Ok(format!("tok-{account}"))
                }),
                GhAsk::Pulls { .. } => {
                    GhReply::Pulls(Ok(self.gh.pulls.iter().map(copy_pull).collect()))
                }
                GhAsk::Queue { task } => {
                    self.insert(task);
                    GhReply::Queued(Ok(()))
                }
                GhAsk::Worktree { branch } => {
                    GhReply::Worktree(Ok(worktree_path(&self.refs(), &branch).is_some()))
                }
                GhAsk::Resolved { .. } => GhReply::Resolved(Ok(self.gh.resolved.clone())),
                GhAsk::Tasks => GhReply::Tasks(Ok(self.tasks.iter().map(copy_task).collect())),
                GhAsk::Comments { .. } => {
                    GhReply::Comments(Ok(self.gh.comments.iter().map(copy_comment).collect()))
                }
                GhAsk::Over(result) => return result,
            };
            (poll, ask) = self.manager.poll_github(poll, &settings, reply);
        }
    }

    fn poll_jira(&mut self) -> Result<(), MaestroError> {
        if !self.jira_configured {
            return Ok(());
        }
        if self.jira_fails {
            return Err(MaestroError::Config { message: "401 from Jira".into() });
        }
        let found: Vec<NewTask> = self.issues.iter().map(issue_task).collect();
        for task in found {
            self.insert(task);
        }
        Ok(())
    }

    fn poll_once(&mut self) {
        let gh = self.poll_github().err().map(|e| e.message());
        let jira = self.poll_jira().err().map(|e| e.message());
        let event = self.manager.polled(gh, jira, 1);
        self.events.push(event);
    }

    fn maybe_fail(&self) -> Result<(), MaestroError> {
        match self.fail_spawn {
            Some(SpawnFailure::Transient) => Err(MaestroError::Git {
                kind: GitErrorKind::CommandFailed,
                message: "simulated transient git failure".into(),
            }),
            Some(SpawnFailure::Permanent) => {
                Err(MaestroError::Config { message: "simulated permanent failure".into() })
            }
            None => Ok(()),
        }
    }

    fn running(&self) -> Option<usize> {
        self.tasks.iter().position(|t| t.state == "running")
    }

    fn begin(&mut self, i: usize) -> Result<(), MaestroError> {
        let model = self.verify_model.clone();
        let effort = self.verify_effort.clone();
        match start(&self.tasks[i])? {
            StartPlan::Review { payload, head_ref } => {
                self.fetched.push(head_ref.clone());
                let prompt = start_pr_review(
                    &payload,
                    &head_ref,
                    &format!("/wt/{head_ref}"),
                    &self.workflow_gate,
                    model.as_deref(),
                    effort.as_deref(),
                );
                self.send_to_main(i, prompt)
            }
            StartPlan::Comment { payload, head_ref } => {
                let cwd = format!("/wt/{head_ref}");
                let prompt = start_pr_comment(
                    &payload,
                    &head_ref,
                    &cwd,
                    &self.workflow_gate,
                    &self.reply_style,
                    model.as_deref(),
                    effort.as_deref(),
                );
                self.send_to_main(i, prompt)
            }
            StartPlan::Research { payload, task_id, slug, .. } => {
                let branch = format!("research/{task_id}-x");
                self.created.push((task_id, slug));
                self.maybe_fail()?;
                self.main_ensured.push(branch.clone());
                let params = start_jira(&payload, &branch, &format!("/wt/{branch}"), None, None);
                self.spawned.push(params);
                let id = format!("sess-{}", self.spawned.len());
                self.run(i, branch, id);
                Ok(())
            }
            StartPlan::Dismiss => {
                self.update(TaskUpdate::dismissed(&self.tasks[i].key));
                Ok(())
            }
        }
    }

    fn send_to_main(&mut self, i: usize, prompt: MainPrompt) -> Result<(), MaestroError> {
        self.maybe_fail()?;
        let branch = prompt.branch.clone();
        self.main_sent.push(prompt);
        let id = format!("main-{}", self.main_sent.len());
        self.run(i, branch, id);
        Ok(())
    }

    fn run(&mut self, i: usize, branch: String, session_id: String) {
        self.update(TaskUpdate::started(&self.tasks[i].key, &branch, &session_id));
    }

    fn update(&mut self, update: TaskUpdate) {
        for t in self.tasks.iter_mut().filter(|t| t.key == update.key) {
            t.state = update.state.to_string();
            t.branch = update.branch.clone().or(t.branch.take());
            t.session_id = update.session_id.clone().or(t.session_id.take());
        }
    }

    fn drive_queue(&mut self) {
        let running = self.running().map(|i| copy_task(&self.tasks[i]));
        let queued = self.tasks.iter().find(|t| t.state == "queued").map(copy_task);
        let Some(next) = drive_queue(true, Ok(running), self.usage_open, Ok(queued)) else {
            return;
        };
        let i = self.tasks.iter().position(|t| t.key == next.key).unwrap();
        if let Err(err) = self.begin(i) {
            match start_failed(&self.tasks[i], &err) {
                FailedStart::Retry => self.tasks[i].attempts += 1,
                FailedStart::Fail => {
                    self.update(TaskUpdate::failed(&self.tasks[i].key));
                    self.events.push(Event::ErrorRaised {
                        severity: maestro_core::bus::Severity::Error,
                        code: err.code().to_string(),
                        message: err.message(),
                    });
                }
            }
        }
        self.events.push(Event::DaemonUpdated);
    }

    fn finish(&mut self, session_id: &str, ok: bool) {
        let running = self.running();
        let end = on_session_finished(running.map(|i| &self.tasks[i]), session_id, ok);
        if let (Some(end), Some(i)) = (end, running) {
            assert_eq!(self.tasks[i].key, end.key);
            self.tasks[i].state = end.state.to_string();
            self.events.extend(end.events);
            self.drive_queue();
        }
    }
}

fn copy_task(t: &DaemonTask) -> DaemonTask {
    DaemonTask {
        key: t.key.clone(),
        kind: t.kind.clone(),
        state: t.state.clone(),
        title: t.title.clone(),
        payload: t.payload.clone(),
        branch: t.branch.clone(),
        session_id: t.session_id.clone(),
        attempts: t.attempts,
        created_at: t.created_at,
        updated_at: t.updated_at,
    }
}

fn copy_pull(p: &GhPull) -> GhPull {
    GhPull {
        number: p.number,
        title: p.title.clone(),
        body: p.body.clone(),
        author: p.author.clone(),
        head_ref: p.head_ref.clone(),
        head_sha: p.head_sha.clone(),
        url: p.url.clone(),
        requested_reviewers: p.requested_reviewers.clone(),
        labels: p.labels.clone(),
    }
}

fn copy_comment(c: &GhComment) -> GhComment {
    GhComment {
        id: c.id,
        body: c.body.clone(),
        author: c.author.clone(),
        path: c.path.clone(),
        url: c.url.clone(),
        review_id: c.review_id,
    }
}

fn pull(number: u64, title: &str, head_ref: &str) -> GhPull {
    GhPull {
        number,
        title: title.into(),
        body: "PR body".into(),
        author: "colleague".into(),
        head_ref: head_ref.into(),
        head_sha: format!("sha-{number}"),
        url: format!("https://github.com/owner/repo/pull/{number}"),
        requested_reviewers: Vec::new(),
        labels: Vec::new(),
    }
}

fn review_request(number: u64, title: &str, head_ref: &str) -> GhPull {
    GhPull { requested_reviewers: vec!["personal".into()], ..pull(number, title, head_ref) }
}

fn comment(id: u64, review_id: Option<u64>, pr: u64, path: &str) -> GhComment {
    GhComment {
        id,
        body: format!("Comment {id}"),
        author: "critic".into(),
        path: Some(path.into()),
        url: format!("https://github.com/owner/repo/pull/{pr}#discussion_r{id}"),
        review_id,
    }
}

fn jira_issue(key: &str, summary: &str) -> JiraIssue {
    JiraIssue {
        key: key.into(),
        summary: summary.into(),
        description: "details".into(),
        url: format!("https://org.atlassian.net/browse/{key}"),
    }
}

fn one_review() -> World {
    world(Gh {
        pulls: vec![review_request(12, "Add retry", "feature/retry")],
        ..Default::default()
    })
}

/// Comments on a PR whose head branch has a worktree here.
fn commented(comments: Vec<GhComment>) -> World {
    let mut w = world(Gh {
        pulls: vec![pull(12, "Add retry", "impl/T-1-x")],
        comments,
        ..Default::default()
    });
    w.worktrees = vec!["impl/T-1-x".into()];
    w
}

#[test]
fn polling_is_idempotent_across_ticks() {
    let mut w = one_review();
    w.poll_once();
    w.poll_once();
    assert_eq!(w.tasks.len(), 1, "one review request, one task, however often we poll");
    assert_eq!(w.tasks[0].state, "queued");
}

#[test]
fn review_request_fetches_the_pr_branch_and_spawns_a_review_session() {
    let mut w = one_review();
    w.poll_once();
    w.drive_queue();
    assert_eq!(w.fetched, ["feature/retry"], "the PR head branch is materialized locally");
    assert!(w.spawned.is_empty());
    assert_eq!(w.main_sent.len(), 1);
    let sent = &w.main_sent[0];
    assert_eq!(sent.branch, "feature/retry");
    assert!(sent.prompt.contains("submit_review_comments"));
    assert!(sent.prompt.contains("Add retry"));
    assert!(sent.prompt.contains("do NOT post anything"));
    assert_eq!(sent.model, "sonnet", "the verify bucket defaults to sonnet");
    assert_eq!(sent.effort, "xhigh", "PR review is verify-bucket work — a human will read it");
    let running = &w.tasks[w.running().expect("running")];
    assert_eq!(running.branch.as_deref(), Some("feature/retry"));
}

#[test]
fn an_explicit_daemon_model_setting_overrides_the_bucket_default() {
    let mut w = one_review();
    w.verify_model = Some("opus".into());
    w.verify_effort = Some("medium".into());
    w.poll_once();
    w.drive_queue();
    assert_eq!(w.main_sent[0].model, "opus");
    assert_eq!(w.main_sent[0].effort, "medium");
}

#[test]
fn a_new_push_to_a_reviewed_pr_queues_a_fresh_review() {
    let mut w = one_review();
    w.gh.pulls[0].head_sha = "sha-old".into();
    w.poll_once();
    assert_eq!(w.tasks.len(), 1);
    // Same PR, new head SHA → a second, distinct task.
    w.gh.pulls[0].head_sha = "sha-new".into();
    w.poll_once();
    assert_eq!(w.tasks.len(), 2);
}

#[test]
fn watching_a_second_account_catches_a_review_request_the_first_would_miss() {
    let mut w = one_review();
    w.gh.pulls[0].requested_reviewers = vec!["work".into()];
    w.poll_once();
    assert_eq!(
        w.tasks.len(),
        0,
        "only 'personal' is watched by default; 'work' being asked is not our concern yet"
    );
    w.set_watched_accounts(&["personal", "work"]);
    w.poll_once();
    assert_eq!(w.tasks.len(), 1, "now watching 'work' too, the request is caught");
    assert!(w.tasks[0].key.contains("work"), "key: {}", w.tasks[0].key);
}

#[test]
fn two_watched_accounts_both_requested_produce_two_distinct_tasks() {
    let mut w = one_review();
    w.gh.pulls[0].requested_reviewers = vec!["personal".into(), "work".into()];
    w.set_watched_accounts(&["personal", "work"]);
    w.poll_once();
    assert_eq!(w.tasks.len(), 2, "each watched account being asked to review is its own task");
    assert!(w.tasks.iter().any(|t| t.key.contains("personal")));
    assert!(w.tasks.iter().any(|t| t.key.contains("work")));
}

#[test]
fn a_pr_carrying_a_skip_label_gets_no_review_task_at_all() {
    let mut w = one_review();
    w.gh.pulls[0].labels = vec!["WIP".into()];
    w.set_skip_labels(&["wip"]);
    w.poll_once();
    assert_eq!(
        w.tasks.len(),
        0,
        "a skip-labeled PR must produce no task even though it requests our review"
    );
}

#[test]
fn skip_labels_match_case_insensitively_but_not_a_different_label() {
    let mut w = world(Gh {
        pulls: vec![
            GhPull {
                labels: vec!["Draft".into()],
                ..review_request(12, "Add retry", "feature/retry")
            },
            GhPull {
                labels: vec!["bug".into()],
                ..review_request(13, "Fix crash", "feature/fix-crash")
            },
        ],
        ..Default::default()
    });
    w.set_skip_labels(&["draft"]);
    w.poll_once();
    assert_eq!(w.tasks.len(), 1, "'Draft' (any case) is skipped, 'bug' is untouched");
    assert!(w.tasks[0].key.contains("13"), "key: {}", w.tasks[0].key);
}

#[test]
fn skip_labels_fold_case_beyond_ascii() {
    let mut w = one_review();
    w.gh.pulls[0].labels = vec!["ЧЕРНОВИК".into()];
    w.set_skip_labels(&["черновик"]);
    w.poll_once();
    assert_eq!(w.tasks.len(), 0);
}

#[test]
fn empty_skip_labels_filters_nothing() {
    let mut w = one_review();
    w.gh.pulls[0].labels = vec!["wip".into()];
    w.poll_once();
    assert_eq!(w.tasks.len(), 1);
}

#[test]
fn a_reply_from_any_watched_account_is_never_treated_as_new_feedback() {
    let mut w = commented(vec![
        comment(501, Some(900), 12, "src/retry.rs"),
        GhComment { author: "work".into(), ..comment(502, Some(900), 12, "src/retry.rs") },
    ]);
    w.set_watched_accounts(&["personal", "work"]);
    w.poll_once();
    assert_eq!(w.tasks.len(), 1);
    let payload: serde_json::Value = serde_json::from_str(&w.tasks[0].payload).unwrap();
    let comment_ids: Vec<u64> = payload["comments"]
        .as_array()
        .unwrap()
        .iter()
        .map(|c| c["comment_id"].as_u64().unwrap())
        .collect();
    assert_eq!(comment_ids, vec![501], "502 is our own reply from 'work'");
}

#[test]
fn a_stale_watched_account_no_longer_authenticated_is_dropped_not_errored() {
    let mut w = one_review();
    w.set_watched_accounts(&["ghost"]);
    w.poll_once();
    assert!(
        w.manager.last_error.is_none(),
        "a stale account falls back to the default, not an error: {:?}",
        w.manager.last_error
    );
    // Falls back to the single posting identity ("personal", the active account).
    assert_eq!(w.tasks.len(), 1);
}

#[test]
fn pr_comment_flow_routes_by_head_ref_and_skips_foreign_prs() {
    let mut w = commented(vec![comment(501, Some(900), 12, "src/retry.rs")]);
    w.gh.pulls.push(pull(13, "Not ours", "someone/elses-branch"));
    w.poll_once();
    // Only PR 12's comment is queued: PR 13's head has no worktree here.
    assert_eq!(w.tasks.len(), 1);
    assert!(w.tasks[0].key.contains("#12:501"));

    w.drive_queue();
    assert!(w.spawned.is_empty());
    assert_eq!(w.main_sent.len(), 1);
    assert_eq!(w.main_sent[0].branch, "impl/T-1-x");
    assert!(w.main_sent[0].prompt.contains("submit_review_comments"));
    assert!(w.main_sent[0].prompt.contains("do NOT post anything"));
}

#[test]
fn a_configured_reply_style_guide_is_appended_to_the_comment_prompt() {
    let mut w = commented(vec![comment(501, Some(900), 12, "src/retry.rs")]);
    w.reply_style = "MARKER: match their language".into();
    w.poll_once();
    w.drive_queue();
    assert_eq!(w.main_sent.len(), 1);
    assert!(w.main_sent[0].prompt.contains("MARKER: match their language"));
}

#[test]
fn a_configured_workflow_gate_is_appended_to_the_comment_prompt() {
    let mut w = commented(vec![comment(501, Some(900), 12, "src/retry.rs")]);
    w.workflow_gate = "MARKER: wait for an explicit go-ahead".into();
    w.poll_once();
    w.drive_queue();
    assert_eq!(w.main_sent.len(), 1);
    assert!(w.main_sent[0].prompt.contains("MARKER: wait for an explicit go-ahead"));
}

#[test]
fn a_configured_workflow_gate_is_appended_to_the_review_prompt() {
    let mut w = one_review();
    w.workflow_gate = "MARKER: wait for an explicit go-ahead".into();
    w.poll_once();
    w.drive_queue();
    assert_eq!(w.main_sent.len(), 1);
    assert!(w.main_sent[0].prompt.contains("MARKER: wait for an explicit go-ahead"));
}

#[test]
fn comments_from_the_same_review_become_one_task_not_several() {
    let mut w = commented(vec![
        comment(501, Some(900), 12, "src/retry.rs"),
        comment(502, Some(900), 12, "src/retry.rs"),
        comment(503, Some(900), 12, "src/lib.rs"),
    ]);
    w.poll_once();
    assert_eq!(w.tasks.len(), 1, "one review, one task, regardless of comment count");
    assert!(w.tasks[0].key.contains("#12:501-502-503"));

    w.drive_queue();
    assert_eq!(w.main_sent.len(), 1);
    // All three comments made it into the one prompt.
    let prompt = &w.main_sent[0].prompt;
    assert!(prompt.contains("[comment 501]"));
    assert!(prompt.contains("[comment 502]"));
    assert!(prompt.contains("[comment 503]"));
    assert!(prompt.contains("## src/retry.rs"));
    assert!(prompt.contains("## src/lib.rs"));
}

#[test]
fn comments_from_different_reviews_detected_together_become_one_task() {
    let mut w = commented(vec![
        comment(501, Some(900), 12, "src/retry.rs"),
        comment(601, Some(901), 12, "src/retry.rs"),
    ]);
    w.poll_once();
    assert_eq!(w.tasks.len(), 1, "detected in the same pass, one task");
    assert!(w.tasks[0].key.contains("#12:501-601"));
}

#[test]
fn a_later_comment_makes_a_task_of_its_own() {
    let mut w = commented(vec![comment(501, Some(900), 12, "src/retry.rs")]);
    w.poll_once();
    w.gh.comments.push(comment(502, Some(901), 12, "src/retry.rs"));
    w.poll_once();
    w.poll_once();
    assert_eq!(w.tasks.len(), 2);
    assert!(w.tasks[1].key.ends_with("#12:502"), "{}", w.tasks[1].key);
}

#[test]
fn a_resolved_comment_thread_is_never_queued() {
    let mut w = commented(vec![
        comment(501, Some(900), 12, "src/retry.rs"),
        comment(502, Some(901), 12, "src/lib.rs"),
    ]);
    w.gh.resolved = vec![501];
    w.poll_once();
    assert_eq!(w.tasks.len(), 1, "only the unresolved comment is queued");
    assert!(w.tasks[0].key.contains("#12:502"));
}

#[test]
fn our_own_replies_never_trigger_a_task() {
    let mut w = commented(vec![
        GhComment { author: "personal".into(), ..comment(501, Some(900), 12, "src/retry.rs") },
        comment(502, Some(900), 12, "src/retry.rs"),
    ]);
    w.poll_once();
    assert_eq!(w.tasks.len(), 1, "only the other side's comment is queued");
    assert!(w.tasks[0].key.contains("#12:502"));
    assert!(!w.tasks[0].key.contains("501"));
}

fn task(key: &str, kind: &str, state: &str, title: &str, payload: &str) -> DaemonTask {
    DaemonTask {
        key: key.into(),
        kind: kind.into(),
        state: state.into(),
        title: title.into(),
        payload: payload.into(),
        branch: None,
        session_id: None,
        attempts: 0,
        created_at: 0,
        updated_at: 0,
    }
}

#[test]
fn a_comment_already_covered_by_an_earlier_task_is_not_bundled_again() {
    let tasks = vec![task(
        "pr-comment:owner/repo#12:501",
        "pr_comment",
        "done",
        "PR #12 — 1 review comment (critic)",
        r#"{"pr": 12, "comments": [{"comment_id": 501, "author": "critic"}]}"#,
    )];
    let covered = already_queued_comment_ids(&tasks, "owner/repo", 12);
    assert_eq!(covered, [501]);
    assert!(!covered.contains(&502));
    assert!(already_queued_comment_ids(&tasks, "owner/repo", 1).is_empty());
}

#[test]
fn jira_issue_becomes_a_research_worktree_keyed_by_issue_key() {
    let mut w = world(Gh::default());
    w.issues = vec![jira_issue("ABC-123", "Fix the retry loop")];
    w.jira_configured = true;
    w.poll_once();
    w.drive_queue();
    assert_eq!(w.created.len(), 1);
    assert_eq!(w.created[0].0, "ABC-123", "the Jira key is the task id");
    assert_eq!(
        w.main_ensured.len(),
        1,
        "the research worktree gets its own main agent eagerly, ready for later"
    );
    assert_eq!(w.spawned.len(), 1);
    assert_eq!(w.spawned[0].permission_mode.as_deref(), Some("plan"));
    assert!(w.spawned[0].prompt.contains("ABC-123"));
    assert!(w.spawned[0].prompt.contains("RESEARCH.md"));
    assert_eq!(w.spawned[0].model.as_deref(), Some("sonnet"));
    assert_eq!(
        w.spawned[0].effort.as_deref(),
        Some("high"),
        "research is a lighter first pass than a human-facing reply"
    );
}

#[test]
fn jira_stays_dormant_without_credentials() {
    let mut w = world(Gh::default());
    w.issues = vec![jira_issue("ABC-123", "Fix the retry loop")];
    w.poll_once();
    assert_eq!(w.tasks.len(), 0);
    assert!(maestro_core::daemon::jira::jira_config(None, None, None, None).is_none());
}

#[test]
fn a_jira_failure_does_not_block_github_polling() {
    let mut w = one_review();
    w.jira_configured = true;
    w.jira_fails = true;
    w.poll_once();
    assert_eq!(w.tasks.len(), 1, "the GitHub task is queued despite the Jira error");
    let error = w.manager.last_error.clone().expect("error is surfaced");
    assert!(error.contains("Jira"), "the error names the failing side");
}

#[test]
fn usage_gate_holds_the_queue_until_the_window_clears() {
    let mut w = one_review();
    w.poll_once();
    w.usage_open = false;
    w.drive_queue();
    assert!(w.main_sent.is_empty());
    assert!(w.tasks.iter().any(|t| t.state == "queued"), "the task waits, it is not lost");
    w.usage_open = true;
    w.drive_queue();
    assert_eq!(w.main_sent.len(), 1);
}

#[test]
fn a_failed_token_puts_the_daemon_in_a_visible_error_state() {
    let mut w = world(Gh { token_fails: true, ..Default::default() });
    w.poll_once();
    assert!(w.manager.last_error.is_some());
    assert!(w.manager.last_error.clone().unwrap().contains("no token"));
    assert_eq!(w.tasks.len(), 0);
}

#[test]
fn session_completion_finishes_the_task_and_frees_the_lane() {
    let mut w = one_review();
    w.gh.pulls.push(review_request(13, "Add docs", "feature/docs"));
    w.poll_once();
    w.drive_queue();
    w.drive_queue();
    assert_eq!(w.main_sent.len(), 1, "one at a time");
    w.finish("someone-else", true);
    assert_eq!(w.main_sent.len(), 1);
    w.finish("main-1", true);
    // Finishing the first task pulls the second one in.
    assert_eq!(w.main_sent.len(), 2);
    assert_eq!(
        w.tasks.iter().filter(|t| t.state == "done").count(),
        1,
        "the finished task is recorded as done"
    );
}

#[test]
fn a_finished_pr_comment_task_raises_an_attention_item() {
    let mut w = commented(vec![comment(501, Some(900), 12, "src/retry.rs")]);
    w.poll_once();
    w.drive_queue();
    assert_eq!(w.main_sent.len(), 1);
    w.finish("main-1", true);
    let mut saw_it = false;
    for event in &w.events {
        if let Event::AttentionRequired { source, branch, .. } = event {
            assert_eq!(source, "pr_review_ready");
            assert_eq!(branch.as_deref(), Some("impl/T-1-x"));
            saw_it = true;
        }
    }
    assert!(saw_it, "a finished pr_comment task should raise attention");
}

#[test]
fn a_failed_pr_comment_task_does_not_raise_attention() {
    let mut w = commented(vec![comment(501, Some(900), 12, "src/retry.rs")]);
    w.poll_once();
    w.drive_queue();
    w.finish("main-1", false);
    for event in &w.events {
        assert!(
            !matches!(event, Event::AttentionRequired { .. }),
            "a failed plan is nothing to review"
        );
    }
    assert_eq!(w.tasks[0].state, "failed");
}

#[test]
fn legacy_issue_tasks_are_dismissed_not_crashed() {
    let mut w = world(Gh::default());
    w.tasks.push(task("issue:owner/repo#7", "issue", "queued", "#7 Old flow", "{}"));
    w.drive_queue();
    assert!(w.spawned.is_empty());
    assert_eq!(w.tasks[0].state, "dismissed");
}

#[test]
fn a_corrupt_payload_is_an_error() {
    match start(&task("k", "jira", "queued", "t", "not json")) {
        Err(MaestroError::InvalidData { message }) => {
            assert!(message.starts_with("corrupt daemon task payload: "), "{message}");
        }
        other => panic!("unexpected answer: {other:?}"),
    }
}

fn pr_comment_world(failure: SpawnFailure, attempts: u32) -> World {
    let mut w = world(Gh::default());
    w.worktrees = vec!["feature/retry".into()];
    w.fail_spawn = Some(failure);
    w.tasks.push(DaemonTask {
        attempts,
        ..task(
            "pr-comment:owner/repo#9:501",
            "pr_comment",
            "queued",
            "PR #9 — 1 review comment (critic)",
            r#"{"pr": 9, "head_ref": "feature/retry", "comments": [{"comment_id": 501,
                "author": "critic", "body": "fix this", "path": "src/lib.rs",
                "url": "https://github.com/owner/repo/pull/9#discussion_r501"}]}"#,
        )
    });
    w
}

#[test]
fn a_transient_start_failure_is_requeued_for_retry_not_failed() {
    let mut w = pr_comment_world(SpawnFailure::Transient, 0);
    w.drive_queue();
    assert_eq!(
        w.tasks[0].state, "queued",
        "a transient failure should be retried, not failed outright"
    );
    assert_eq!(w.tasks[0].attempts, 1);
    assert!(
        !w.events.iter().any(|e| matches!(e, Event::ErrorRaised { .. })),
        "no error should surface to the user while retries remain"
    );
}

#[test]
fn a_transient_failure_gives_up_after_max_attempts() {
    let mut w = pr_comment_world(SpawnFailure::Transient, MAX_DAEMON_TASK_ATTEMPTS - 1);
    w.drive_queue();
    assert_eq!(
        w.tasks[0].state, "failed",
        "once the attempt budget is spent, a still-transient failure must fail for real"
    );
    assert!(
        w.events.iter().any(|e| matches!(e, Event::ErrorRaised { .. })),
        "the final failure should surface to the user"
    );
}

#[test]
fn a_permanent_start_failure_is_never_retried() {
    let mut w = pr_comment_world(SpawnFailure::Permanent, 0);
    w.drive_queue();
    assert_eq!(
        w.tasks[0].state, "failed",
        "a permanent-looking error (bad config, etc.) must not be retried"
    );
    assert_eq!(w.tasks[0].attempts, 0, "attempts only bump on an actual retry");
}

#[test]
fn the_queue_advances_on_awaiting_input_without_the_session_being_closed() {
    assert_eq!(turn_ended(SessionStatus::AwaitingInput), Some(true));
    assert_eq!(turn_ended(SessionStatus::Done), Some(true));
    assert_eq!(turn_ended(SessionStatus::Failed), Some(false));
    assert_eq!(turn_ended(SessionStatus::Streaming), None);
    let mut w = one_review();
    w.gh.pulls.push(review_request(13, "Add docs", "feature/docs"));
    w.poll_once();
    w.drive_queue();
    if let Some(ok) = turn_ended(SessionStatus::AwaitingInput) {
        w.finish("main-1", ok);
    }
    assert_eq!(w.tasks.iter().filter(|t| t.state == "done").count(), 1);
    assert_eq!(w.main_sent.len(), 2);
}

#[test]
fn a_task_that_is_dismissed_is_announced() {
    let mut w = one_review();
    w.poll_once();
    let key = w.tasks[0].key.clone();
    let (update, event) = DaemonManager::dismiss_task(&key);
    assert_eq!((update.key.as_str(), update.state), (key.as_str(), "dismissed"));
    assert_eq!(event.name(), "daemon.updated");
    w.update(update);
    w.drive_queue();
    assert!(w.running().is_none(), "nothing is left to start");
    assert_eq!(w.tasks[0].state, "dismissed");
}

#[test]
fn the_daemon_hears_of_rate_limits_and_ended_turns() {
    let mut m = DaemonManager::new();
    let report = Event::SessionRateLimit {
        session_id: "s1".into(),
        limit: RateLimitReading {
            status: "allowed".into(),
            limit_type: None,
            utilization: Some(JsonNumber::Other("61.5".into())),
            percent: Some("62".into()),
            resets_at: None,
        },
    };
    assert!(m.on_event(&report).is_none());
    assert!(matches!(&m.utilization, Some(JsonNumber::Other(t)) if t == "61.5"));
    let changed = |status| Event::SessionStatusChanged {
        session_id: "s2".into(),
        branch: "impl/x".into(),
        status,
    };
    let end = m.on_event(&changed(SessionStatus::Cancelled)).unwrap();
    assert_eq!((end.session_id.as_str(), end.ok), ("s2", false));
    assert!(m.on_event(&changed(SessionStatus::AwaitingInput)).unwrap().ok);
    assert!(m.on_event(&changed(SessionStatus::Streaming)).is_none());
    assert!(m.on_event(&Event::DaemonUpdated).is_none());
    assert!(matches!(&m.utilization, Some(JsonNumber::Other(t)) if t == "61.5"));
}

#[test]
fn worktrees_are_reused_reattached_or_created() {
    let refs = vec![WorktreeRef { branch: Some("r/1".into()), path: "/wt/r1".into() }];
    match ensure_research_worktree("T-1", "fix it", Some("r/1"), &refs) {
        WorktreeStep::Existing(w) => assert_eq!((w.branch, w.path), ("r/1".into(), "/wt/r1".into())),
        other => panic!("unexpected step: {other:?}"),
    }
    match ensure_review_worktree("feature/x", &refs) {
        WorktreeStep::Create(c) => {
            assert_eq!(c.existing_branch.as_deref(), Some("feature/x"));
            assert!(c.kind.is_none());
            let made = created(&c, None, "/wt/x").unwrap();
            assert_eq!(made.branch, "feature/x");
        }
        other => panic!("unexpected step: {other:?}"),
    }
    match ensure_research_worktree("T-1", "fix it", None, &refs) {
        WorktreeStep::Create(c) => {
            assert_eq!(c.kind.as_deref(), Some("research"));
            assert_eq!(c.task_id.as_deref(), Some("T-1"));
            assert_eq!(c.slug.as_deref(), Some("fix it"));
            assert_eq!(created(&c, Some("research/T-1"), "/p").unwrap().branch, "research/T-1");
            match created(&c, None, "/p") {
                Err(MaestroError::InvalidData { message }) => {
                    assert_eq!(message, "created worktree has no branch");
                }
                other => panic!("unexpected answer: {other:?}"),
            }
        }
        other => panic!("unexpected step: {other:?}"),
    }
}

#[test]
fn the_origin_remote_is_read_from_git() {
    match origin_url(OriginProbe::Ran { success: true, stdout: "git@x:a/b.git\n".into() }) {
        RepoOrigin::Url(url) => assert_eq!(url, "git@x:a/b.git"),
        other => panic!("unexpected origin: {other:?}"),
    }
    match origin_url(OriginProbe::Ran { success: false, stdout: String::new() }) {
        RepoOrigin::Failed(e) => assert!(e.message().contains("no 'origin' remote")),
        other => panic!("unexpected origin: {other:?}"),
    }
    match origin_url(OriginProbe::NotLaunched { reason: "x".into() }) {
        RepoOrigin::Failed(e) => assert_eq!(e.message(), "failed to launch git: x"),
        other => panic!("unexpected origin: {other:?}"),
    }
}

#[test]
fn a_pass_ends_with_the_first_read_that_fails() {
    let settings = DaemonSettings {
        enabled: None,
        account: None,
        watch_accounts: None,
        skip_labels: None,
    };
    let denied = || MaestroError::Config { message: "denied".into() };
    let mut manager = DaemonManager::new();
    let (poll, _) = DaemonManager::begin_poll();
    let (poll, ask) = manager.poll_github(poll, &settings, GhReply::Accounts(Err(denied())));
    assert!(matches!(poll, GithubPoll::Over));
    assert!(matches!(ask, GhAsk::Over(Err(e)) if e.message() == "denied"));

    // The repository is remembered as soon as it is known.
    let (poll, _) = DaemonManager::begin_poll();
    let (poll, _) = manager.poll_github(poll, &settings, GhReply::Accounts(Ok(accounts())));
    let (poll, ask) = manager.poll_github(poll, &settings, GhReply::Repo(Ok(SLUG.into())));
    assert_eq!(manager.repo.as_deref(), Some(SLUG));
    assert!(matches!(ask, GhAsk::Token { account } if account == "personal"));
    let (poll, ask) = manager.poll_github(poll, &settings, GhReply::Token(Ok("t".into())));
    assert!(matches!(&ask, GhAsk::Pulls { token, .. } if token == "t"));
    let pulls = vec![review_request(1, "a", "impl/a"), review_request(2, "b", "impl/b")];
    let (poll, ask) = manager.poll_github(poll, &settings, GhReply::Pulls(Ok(pulls)));
    assert!(matches!(ask, GhAsk::Queue { task } if task.kind == "pr_review"));
    let (poll, ask) = manager.poll_github(poll, &settings, GhReply::Queued(Ok(())));
    assert!(matches!(ask, GhAsk::Worktree { branch } if branch == "impl/a"));
    let (poll, _) = manager.poll_github(poll, &settings, GhReply::Worktree(Ok(true)));
    // Threads and queue that cannot be read hold nothing back.
    let (poll, ask) = manager.poll_github(poll, &settings, GhReply::Resolved(Err(denied())));
    assert!(matches!(ask, GhAsk::Tasks));
    let (poll, ask) = manager.poll_github(poll, &settings, GhReply::Tasks(Err(denied())));
    assert!(matches!(ask, GhAsk::Comments { pr: 1, .. }));
    // Comments that cannot be read end the pass.
    let (poll, ask) = manager.poll_github(poll, &settings, GhReply::Comments(Err(denied())));
    assert!(matches!(poll, GithubPoll::Over));
    assert!(matches!(ask, GhAsk::Over(Err(_))));
}

#[test]
fn a_queue_that_cannot_be_read_starts_nothing() {
    let unreadable = || Err(MaestroError::Io { message: "locked".into() });
    let task = || enqueue(issue_task(&jira_issue("A-1", "x")), 1);
    assert!(drive_queue(true, unreadable(), true, Ok(Some(task()))).is_none());
    assert!(drive_queue(true, Ok(None), true, unreadable()).is_none());
    assert!(drive_queue(true, Ok(Some(task())), true, Ok(Some(task()))).is_none());
    assert!(drive_queue(false, Ok(None), true, Ok(Some(task()))).is_none());
    assert!(drive_queue(true, Ok(None), false, Ok(Some(task()))).is_none());
    assert_eq!(drive_queue(true, Ok(None), true, Ok(Some(task()))).unwrap().key, "jira:A-1");
}

#[test]
fn a_poll_is_due_to_the_nanosecond() {
    let mut manager = DaemonManager::new();
    assert!(manager.poll_due(None, 0));
    let last = nanos(1_700_000_000, 5);
    manager.polled(None, None, last);
    let gap: i128 = 3 * 60 * 1_000_000_000;
    assert!(!manager.poll_due(Some("3"), last + gap - 1));
    assert!(manager.poll_due(Some("3"), last + gap));
}

#[test]
fn times_count_nanoseconds() {
    assert_eq!(nanos(1_700_000_000, 5), 1_700_000_000_000_000_005);
    assert_eq!(nanos(-1, 999_999_999), -1);
    assert_eq!(millis(1_700_000_000_123_456_789), 1_700_000_000_123);
    assert_eq!(millis(-1), -1);
    assert_eq!(millis(-1_000_000), -1);
    assert_eq!(millis(-1_000_001), -2);
    let first = Stamp::fresh();
    let second = Stamp::fresh();
    assert!(first.id != second.id);
    assert!(first.now > nanos(1_600_000_000, 0));
    assert!(first.now < nanos(10_000_000_000, 0));
}
