//! Pull requests, questions about lines, and red teams.
use maestro_core::agent::protocol::{Attachment, SidecarEvent, SidecarRequest, PROTOCOL_VERSION};
use maestro_core::agent::sidecar::{
    event_text, not_launched, request_id, EngineSignal, SidecarConfig, SidecarEngine,
};
use maestro_core::agent::EngineCall;
use maestro_core::bus::Event;
use maestro_core::daemon::github::{GhAccount, GhComment, GhPull};
use maestro_core::outside::Stamp;
use maestro_core::pr::{CommentPlan, DraftComment, PostCommentsOutcome, PrManager, Reply};
use maestro_core::prompts::{FileRead, PromptManager};
use maestro_core::questions::{
    active_session, render_blame, render_hunk, AskStep, LineQuestionManager, QuestionContext,
};
use maestro_core::redteam::{
    child_branch_name, AttackSettings, RedTeamManager, Target, RED_TEAM_PREFIX,
};
use maestro_core::session::{Session, SessionStatus, SessionType};
use maestro_core::table::Table;
use maestro_core::worktree::{BlameLine, ChangedFile, RepoInfo, WorktreeRef};

// ---------------------------------------------------------------------------
// Pull requests
// ---------------------------------------------------------------------------

const BRANCH: &str = "impl/T-1-pr-test";

fn repo() -> RepoInfo {
    RepoInfo { path: "/repo".into(), default_branch: "trunk".into() }
}

fn worktrees() -> Vec<WorktreeRef> {
    vec![
        WorktreeRef { branch: Some("main".into()), path: "/repo".into() },
        WorktreeRef { branch: Some(BRANCH.into()), path: "/repo.worktrees/impl-T-1".into() },
        WorktreeRef {
            branch: Some("impl/T-1-x".into()),
            path: "/repo.worktrees/impl-T-1-x".into(),
        },
    ]
}

fn pr_base(base: Option<&str>) -> String {
    PrManager::resolve_pr_base(base, &Some("main".into()), Some(&repo())).unwrap()
}

#[test]
fn an_explicit_base_wins_over_everything_stored() {
    assert_eq!(pr_base(Some("develop")), "develop");
}

#[test]
fn it_falls_back_to_the_branch_s_stored_base() {
    assert_eq!(pr_base(None), "main");
    // Without a stored base, the repository's default branch.
    let r = PrManager::resolve_pr_base(None, &None, Some(&repo())).unwrap();
    assert_eq!(r, "trunk");
    assert!(PrManager::resolve_pr_base(None, &None, None).is_err());
}

#[test]
fn a_blank_override_is_treated_as_absent() {
    assert_eq!(pr_base(Some("   ")), "main");
}

#[test]
fn a_remote_tracking_override_is_reduced_to_its_short_name() {
    assert_eq!(pr_base(Some("origin/develop")), "develop");
}

#[test]
fn a_remote_tracking_name_keeps_the_slashes_of_its_branch() {
    assert_eq!(pr_base(Some("origin/feature/x")), "feature/x");
    assert_eq!(pr_base(Some("feature/origin/x")), "feature/origin/x");
    assert_eq!(pr_base(Some("original/x")), "original/x");
}

#[test]
fn create_refuses_an_empty_title() {
    let stored = Some("main".to_string());
    let err = PrManager::create(BRANCH, "  ", None, &worktrees(), &stored, Some(&repo()))
        .err()
        .unwrap();
    assert!(err.message().contains("title"));

    let plan =
        PrManager::create(BRANCH, " Add retry ", None, &worktrees(), &stored, Some(&repo()))
            .unwrap();
    assert_eq!(plan.title, "Add retry");
    assert_eq!(plan.base, "main");
    assert_eq!(plan.cwd, "/repo.worktrees/impl-T-1");
    let err = PrManager::create("gone", "t", None, &worktrees(), &stored, Some(&repo()));
    assert!(err.is_err(), "a branch needs a worktree to be pushed from");
}

fn pull(head_ref: &str) -> GhPull {
    GhPull {
        number: 42,
        title: "Add retry".into(),
        body: "PR body".into(),
        author: "colleague".into(),
        head_ref: head_ref.into(),
        head_sha: "sha-1".into(),
        url: "https://github.com/owner/repo/pull/42".into(),
        requested_reviewers: Vec::new(),
        labels: Vec::new(),
    }
}

fn comment(id: u64) -> GhComment {
    GhComment {
        id,
        body: format!("Comment {id}"),
        author: "critic".into(),
        path: Some("src/retry.rs".into()),
        url: format!("https://github.com/owner/repo/pull/42#discussion_r{id}"),
        review_id: Some(900),
    }
}

#[test]
fn comments_already_resolved_on_github_are_left_out() {
    let number = PrManager::pull_of(&vec![pull("other"), pull(BRANCH)], BRANCH).unwrap();
    let comments = PrManager::comments(number, &vec![comment(501), comment(502)], &vec![501]);
    assert_eq!(comments.len(), 1);
    assert_eq!(comments[0].id, 502);
    assert_eq!(comments[0].pr, 42);
}

#[test]
fn comments_with_nothing_resolved_all_come_through() {
    let comments = PrManager::comments(42, &vec![comment(501), comment(502)], &Vec::new());
    assert_eq!(comments.len(), 2);
    assert!(PrManager::pull_of(&vec![pull("other")], BRANCH).is_none());
}

fn draft_reply(comment_id: u64, body: &str) -> DraftComment {
    DraftComment {
        path: String::new(),
        line: 0,
        side: None,
        body: body.into(),
        in_reply_to: Some(comment_id),
    }
}

fn draft_new(path: &str, line: u64, body: &str) -> DraftComment {
    DraftComment {
        path: path.into(),
        line,
        side: None,
        body: body.into(),
        in_reply_to: None,
    }
}

/// Post the drafts to a GitHub on which replies or the review fail.
fn post(drafts: Vec<DraftComment>, reply_fails: bool, review_fails: bool) -> PostCommentsOutcome {
    let plan: CommentPlan = PrManager::plan_comments(&drafts);
    let replies: Vec<Option<String>> =
        plan.replies.iter().map(|_| reply_fails.then_some("refused".to_string())).collect();
    let review = review_fails.then_some("refused".to_string());
    PrManager::post_review_comments(&plan, &replies, review)
}

#[test]
fn post_review_comments_posts_replies_and_a_grouped_review_together() {
    let drafts = vec![
        draft_reply(501, "Good catch, fixed."),
        draft_new("src/lib.rs", 42, "This could overflow on a large input."),
        draft_new("src/lib.rs", 50, "Missing a null check here."),
    ];
    let outcome = post(drafts, false, false);
    assert_eq!(outcome.posted, 3, "1 reply + 2 new comments in one review");
    assert!(outcome.failed.is_empty());
}

#[test]
fn a_failed_reply_does_not_block_the_grouped_review() {
    let drafts = vec![
        draft_reply(501, "This will fail."),
        draft_new("src/lib.rs", 42, "A brand-new finding."),
    ];
    let outcome = post(drafts, true, false);
    assert_eq!(outcome.posted, 1, "the review still went through");
    assert_eq!(outcome.failed.len(), 1);
    assert!(outcome.failed[0].contains("501"), "{:?}", outcome.failed);
}

#[test]
fn a_failed_review_does_not_block_already_posted_replies() {
    let drafts = vec![
        draft_reply(501, "Posted fine."),
        draft_new("src/lib.rs", 42, "This review submission fails."),
    ];
    let outcome = post(drafts, false, true);
    assert_eq!(outcome.posted, 1, "the reply still landed");
    assert_eq!(outcome.failed.len(), 1);
    assert!(outcome.failed[0].contains("1 new comment"), "{:?}", outcome.failed);
}

#[test]
fn blank_drafts_are_skipped_and_never_counted() {
    let drafts = vec![draft_reply(501, "   "), draft_new("src/lib.rs", 1, "")];
    let outcome = post(drafts, false, false);
    assert_eq!(outcome.posted, 0);
    assert!(outcome.failed.is_empty());
}

#[test]
fn replies_and_accounts() {
    let replies = PrManager::replies(&vec![
        Reply { comment_id: 1, body: "  ".into() },
        Reply { comment_id: 2, body: "done".into() },
    ]);
    assert_eq!(replies.len(), 1);
    assert_eq!(replies[0].comment_id, 2);
    let ok = PrManager::reply(2, Ok("https://x".into()));
    assert!(ok.ok);
    let bad = PrManager::reply(2, Err("nope".into()));
    assert!(!bad.ok);
    assert!(bad.detail.contains("nope"));

    let accounts = vec![
        GhAccount { login: "personal".into(), active: false },
        GhAccount { login: "work".into(), active: true },
    ];
    assert_eq!(PrManager::account(None, &accounts).unwrap(), "work");
    assert!(PrManager::account(None, &Vec::new()).is_err());
}

// ---------------------------------------------------------------------------
// Questions about lines
// ---------------------------------------------------------------------------

const QUESTION_TEMPLATE: &str = "{{question}}\n{{path}}\n{{hunk}}\n{{blame}}\n";

fn prompts(name: &str) -> PromptManager {
    let mut defaults = Table::new();
    defaults.insert(name, QUESTION_TEMPLATE.to_string());
    PromptManager::new(defaults)
}

fn blame() -> Vec<BlameLine> {
    (3..=5)
        .map(|line| BlameLine {
            sha: "abcd1234".into(),
            author: "Mock".into(),
            summary: "mock commit".into(),
            line,
            content: format!("line {line}"),
        })
        .collect()
}

fn session(id: &str, status: SessionStatus) -> Session {
    let mut s =
        Session::with_id(id.into(), 1, "impl/T-1-x", SessionType::Manual, None, None, None);
    s.status = status;
    s
}

fn ask(question: &str, setting: Option<&str>, rows: &Vec<Session>) -> AskStep {
    let context = QuestionContext {
        contents: Some("one\ntwo\nthree\nfour\nfive\n".into()),
        blame: blame(),
        template: FileRead::Text(QUESTION_TEMPLATE.into()),
    };
    LineQuestionManager::ask(
        "impl/T-1-x",
        "src/lib.rs",
        3,
        5,
        question,
        context,
        &prompts("line-question"),
        setting,
        rows,
        &worktrees(),
    )
    .unwrap()
}

#[test]
fn active_session_gets_a_follow_up_prompt() {
    let rows = vec![session("active", SessionStatus::Streaming)];
    match ask("why is this needed?", None, &rows) {
        AskStep::FollowUp { session_id, prompt } => {
            assert_eq!(session_id, "active");
            assert!(prompt.contains("why is this needed?"));
            assert!(prompt.contains("    3: three\n"));
        }
        AskStep::Spawn { .. } => panic!("no new session is spawned"),
    }
}

#[test]
fn falls_back_to_fresh_session_when_none_active() {
    match ask("why?", None, &Vec::new()) {
        AskStep::Spawn { params } => {
            assert_eq!(params.session_type.as_str(), "research");
            assert_eq!(params.permission_mode.as_deref(), Some("plan"));
            assert!(params.prompt.contains("why?"));
            assert_eq!(params.branch, "impl/T-1-x");
            assert_eq!(params.cwd, "/repo.worktrees/impl-T-1-x");
        }
        AskStep::FollowUp { .. } => panic!("nobody to follow up with"),
    }
    let over = vec![session("over", SessionStatus::Done)];
    assert!(active_session(&over).is_none());
    assert!(matches!(ask("why?", None, &over), AskStep::Spawn { .. }));
}

#[test]
fn fresh_session_target_always_spawns_new() {
    let rows = vec![session("active", SessionStatus::Streaming)];
    assert!(
        matches!(ask("why?", Some("fresh_session"), &rows), AskStep::Spawn { .. }),
        "must not follow up on the active session"
    );
}

#[test]
fn attention_required_when_session_becomes_awaiting_input() {
    let mut manager = LineQuestionManager::new();
    let stamp = Stamp { id: "q1".into(), now: 1 };
    let info = manager.asked("s1", "impl/T-1-x", "src/lib.rs", 3, 5, "why?", &stamp);
    assert_eq!(info.question_id, "q1");
    assert_eq!(info.session_id, "s1");

    let changed = |status| Event::SessionStatusChanged {
        session_id: "s1".into(),
        branch: "impl/T-1-x".into(),
        status,
    };
    assert!(manager.on_event(&changed(SessionStatus::Streaming)).is_none());
    match manager.on_event(&changed(SessionStatus::AwaitingInput)) {
        Some(Event::AttentionRequired { source, session_id, message, .. }) => {
            assert_eq!(source, "line_question");
            assert_eq!(session_id.as_deref(), Some("s1"));
            assert!(message.contains("src/lib.rs:3-5"));
        }
        _ => panic!("completion must publish attention.required"),
    }

    // Consumed on completion — a later terminal status must not re-publish it.
    assert!(
        manager.on_event(&changed(SessionStatus::Done)).is_none(),
        "pending question is cleared after completion"
    );
}

#[test]
fn render_hunk_numbers_the_requested_lines() {
    let out = render_hunk("a\nb\nc\n", 2, 3);
    assert_eq!(out, "    2: b\n    3: c\n");
    // Lines past the end are there, and empty.
    assert_eq!(render_hunk("a\n", 1, 2), "    1: a\n    2: \n");
}

#[test]
fn blame_names_the_commit_of_every_line() {
    let out = render_blame(&blame());
    assert_eq!(out.lines().count(), 3);
    assert!(out.contains("abcd1234"));
    assert!(out.contains("mock commit"));
}

// ---------------------------------------------------------------------------
// Red teams
// ---------------------------------------------------------------------------

fn changed() -> Vec<ChangedFile> {
    vec![ChangedFile { path: "src/a.rs".into(), status: "M".into(), old_path: None }]
}

#[test]
fn child_branch_name_flattens_slashes_under_the_prefix() {
    assert_eq!(child_branch_name("impl/T-9-x"), "redteam/impl-T-9-x");
    assert_eq!(child_branch_name("main"), "redteam/main");
    // Deterministic: the same parent always maps to the same child.
    assert_eq!(child_branch_name("impl/T-9-x"), child_branch_name("impl/T-9-x"));
}

#[test]
fn launch_rejects_a_red_team_branch() {
    let err = RedTeamManager::child_for("redteam/impl-x", "main", &changed()).unwrap_err();
    assert!(err.message().contains("red-team its parent"));
}

#[test]
fn launch_requires_committed_changes() {
    // A fresh worktree branched off main has nothing committed vs its base.
    let err = RedTeamManager::child_for("impl-fresh", "main", &Vec::new()).unwrap_err();
    assert!(err.message().contains("no committed changes"));
}

#[test]
fn an_attack_is_spawned_on_the_child_branch() {
    let child = RedTeamManager::child_for("impl/T-9", "main", &changed()).unwrap();
    assert_eq!(child, format!("{RED_TEAM_PREFIX}impl-T-9"));
    let template = "Attack {{branch}}: {{files}}";
    let mut defaults = Table::new();
    defaults.insert("red-team", template.to_string());
    let params = RedTeamManager::launch(
        &Target {
            branch: "impl/T-9".into(),
            base: "main".into(),
            files: changed(),
            impact: None,
            task_id: None,
            notes: None,
        },
        "/wt/redteam",
        FileRead::Text(template.into()),
        &PromptManager::new(defaults),
        &AttackSettings { model: Some("opus".into()), effort: None },
    )
    .unwrap();
    assert_eq!(params.branch, child);
    assert_eq!(params.cwd, "/wt/redteam");
    assert_eq!(params.session_type, SessionType::RedTeam);
    assert_eq!(params.model.as_deref(), Some("opus"));
    assert!(params.prompt.contains("Attack "));
}

#[test]
fn an_attack_follows_a_finished_implementation_once() {
    let mut done = session("s", SessionStatus::Done);
    done.session_type = SessionType::Implementation;
    let none = Vec::new();
    assert!(RedTeamManager::wants_attack("impl/T-1-x", Some("true"), Some(&done), &none));
    assert!(!RedTeamManager::wants_attack("impl/T-1-x", None, Some(&done), &none));
    assert!(!RedTeamManager::wants_attack("redteam/impl-x", Some("true"), Some(&done), &none));
    let mut attacker = session("rt", SessionStatus::Streaming);
    attacker.session_type = SessionType::RedTeam;
    let running = vec![attacker];
    assert!(!RedTeamManager::wants_attack("impl/T-1-x", Some("true"), Some(&done), &running));
    let event = RedTeamManager::announce("redteam/impl-T-1-x", &done);
    assert_eq!(event.name(), "attention.required");
}

// ---------------------------------------------------------------------------
// The sidecar engine
// ---------------------------------------------------------------------------

#[test]
fn requests_are_numbered_and_refusals_are_blamed_on_their_session() {
    let mut engine = SidecarEngine::new();
    let first = engine.request(EngineCall::Interrupt { session_id: "s1".into() });
    assert!(first.start, "the first request starts the process");
    engine.started();
    engine.sending(&first);
    let second = engine.request(EngineCall::SendPrompt {
        session_id: "s2".into(),
        prompt: "hi".into(),
        attachments: vec![Attachment { media_type: "image/png".into(), data: "AAAA".into() }],
    });
    assert!(!second.start);
    engine.sending(&second);
    assert_ne!(request_id(&first.request), request_id(&second.request));
    assert!(matches!(
        &second.request,
        SidecarRequest::Send { session_id, attachments, .. }
            if session_id == "s2" && attachments.len() == 1
    ));

    // A refused request fails the session that made it, once.
    let id = request_id(&second.request);
    let nack = || SidecarEvent::Ack { id, ok: false, error: Some("no such session".into()) };
    let signals = engine.on_event(nack());
    assert_eq!(signals.len(), 2);
    match &signals[0] {
        EngineSignal::Event(SidecarEvent::Error { session_id, message }) => {
            assert_eq!(session_id.as_deref(), Some("s2"));
            assert!(message.contains("no such session"));
        }
        other => panic!("unexpected signal {other:?}"),
    }
    assert!(matches!(
        &signals[1],
        EngineSignal::Event(SidecarEvent::SessionClosed { session_id, reason })
            if session_id == "s2" && reason == "error"
    ));
    assert!(engine.on_event(nack()).is_empty(), "the session was told already");

    // An accepted request says nothing.
    let ok = SidecarEvent::Ack { id: request_id(&first.request), ok: true, error: None };
    assert!(engine.on_event(ok).is_empty());
}

#[test]
fn another_protocol_version_is_reported() {
    let mut engine = SidecarEngine::new();
    let same = engine.on_event(SidecarEvent::Ready { protocol_version: PROTOCOL_VERSION });
    let other = engine.on_event(SidecarEvent::Ready { protocol_version: PROTOCOL_VERSION + 1 });
    assert!(other.len() > same.len());
    assert!(other
        .iter()
        .any(|s| matches!(s, EngineSignal::Event(SidecarEvent::Error { .. }))));
}

#[test]
fn an_exit_is_a_crash_of_the_running_process_only() {
    let mut engine = SidecarEngine::new();
    let old = engine.started();
    match engine.on_exit(old, Some(3)) {
        Some(EngineSignal::Crashed { code }) => assert_eq!(code, Some(3)),
        other => panic!("a crash is reported, got {other:?}"),
    }
    assert!(engine.on_exit(old, Some(3)).is_none(), "and reported once");
    let new = engine.started();
    assert_ne!(old, new);
    assert!(engine.on_exit(old, None).is_none(), "an older process is not missed");
    // The next request after a crash starts the process again.
    engine.on_exit(new, None);
    assert!(engine.request(EngineCall::ListModels { cwd: ".".into() }).start);
}

#[test]
fn the_sidecar_script_is_found_where_it_is_named() {
    let named = SidecarConfig::resolve(Some("/a.js".into()), Some("/b.js".into()), None);
    assert_eq!(named.args, ["/a.js"]);
    let dev = SidecarConfig::resolve(None, Some("/b.js".into()), Some("/c.js".into()));
    assert_eq!(dev.args, ["/b.js"]);
    let installed = SidecarConfig::resolve(None, None, Some("/c.js".into()));
    assert_eq!(installed.args, ["/c.js"]);
    let nothing = SidecarConfig::resolve(None, None, None);
    assert_eq!(nothing.args, ["sidecar/dist/main.js"]);
    let err = not_launched(&nothing, "not found");
    assert!(err.message().contains("not found"));
    let mut engine = SidecarEngine::new();
    engine.started();
    let err = engine.write_failed("broken pipe");
    assert!(err.message().contains("broken pipe"));
    assert!(engine.running.is_none());
}

#[test]
fn blank_lines_carry_no_event() {
    assert_eq!(event_text("   "), None);
    assert_eq!(event_text(" {\"type\":\"ready\"} ").as_deref(), Some("{\"type\":\"ready\"}"));
}

#[test]
fn a_broken_pipe_is_reported_as_a_crash_once() {
    let mut engine = SidecarEngine::new();
    let first = engine.started();
    engine.write_failed("broken pipe");
    let second = engine.started();
    assert!(matches!(engine.on_exit(first, Some(1)), Some(EngineSignal::Crashed { code: Some(1) })));
    assert!(engine.on_exit(first, Some(1)).is_none(), "and reported once");
    assert!(!engine.request(EngineCall::ListModels { cwd: ".".into() }).start);
    assert!(engine.on_exit(second, None).is_some());
    // Nothing was running: nothing is left to report.
    engine.write_failed("broken pipe");
    assert!(engine.broken.is_empty());
}
