//! The attention queue, and the names of the events that feed it.
use maestro_core::attention::{AttentionKind, AttentionManager, AttentionTarget};
use maestro_core::bus::{Event, Severity};
use maestro_core::json::Json;
use maestro_core::session::SessionStatus;

fn nothing() -> Json {
    Json::Object(Vec::new())
}

fn status(session_id: &str, branch: &str, status: SessionStatus) -> Event {
    Event::SessionStatusChanged {
        session_id: session_id.into(),
        branch: branch.into(),
        status,
    }
}

fn gate(gate_id: &str, session_id: &str, branch: &str) -> Event {
    Event::GatePending {
        gate_id: gate_id.into(),
        session_id: session_id.into(),
        tool: "Bash".into(),
        kind: "git push".into(),
        branch: branch.into(),
        params: Vec::new(),
        note: None,
        raw_args: nothing(),
    }
}

fn permission(session_id: &str, request_id: &str, tool: &str, title: Option<&str>) -> Event {
    Event::SessionPermissionRequest {
        session_id: session_id.into(),
        request_id: request_id.into(),
        tool: tool.into(),
        args: nothing(),
        title: title.map(|t| t.to_string()),
    }
}

#[test]
fn escalation_sessions_stay_out_of_the_queue() {
    let mut mgr = AttentionManager::new();

    mgr.handle(
        &Event::EscalationStarted {
            asking_session_id: "asking".into(),
            target_session_id: "target".into(),
            escalated_session_id: "escalated".into(),
            question: "why?".into(),
        },
        1,
    );

    // Neither its permission prompts nor its failure are the user's problem.
    mgr.handle(&permission("escalated", "req-1", "Bash", None), 2);
    mgr.handle(&status("escalated", "impl/x", SessionStatus::Failed), 3);
    assert!(mgr.list().is_empty());

    // A normal session on the same branch is unaffected.
    mgr.handle(&status("normal", "impl/x", SessionStatus::Failed), 4);
    assert_eq!(mgr.list().len(), 1);
}

#[test]
fn question_dialog_enqueues_and_clears_on_resolution() {
    let mut mgr = AttentionManager::new();

    mgr.handle(
        &Event::SessionUserDialog {
            session_id: "s1".into(),
            request_id: "dlg-1".into(),
            dialog_kind: "ask_user_question".into(),
            payload: Json::Object(Vec::new()),
        },
        1,
    );
    let items = mgr.list();
    assert_eq!(items.len(), 1);
    assert_eq!(items[0].kind, AttentionKind::Question);
    assert_eq!(items[0].target, AttentionTarget::Chat);

    // Answered (or dismissed, or timed out): the queue must not keep nagging.
    mgr.handle(
        &Event::SessionUserDialogResolved {
            session_id: "s1".into(),
            request_id: "dlg-1".into(),
        },
        2,
    );
    assert!(mgr.list().is_empty());
}

#[test]
fn permission_and_gate_events_enqueue_once() {
    let mut mgr = AttentionManager::new();

    for now in 0..2 {
        mgr.handle(
            &permission("s1", "req-1", "Bash", Some("The agent wants to run ls")),
            now,
        );
    }
    assert_eq!(mgr.list().len(), 1, "same request is not duplicated");

    mgr.handle(&gate("g1", "s1", "impl/T-9"), 2);

    let list = mgr.list();
    assert_eq!(list.len(), 2);
    assert_eq!(list[0].kind, AttentionKind::Gate, "gates outrank prompts");
    assert_eq!(list[0].target, AttentionTarget::Gate);
    assert_eq!(list[1].message, "The agent wants to run ls");
}

#[test]
fn resolving_the_source_clears_the_item() {
    let mut mgr = AttentionManager::new();
    mgr.handle(&gate("g1", "s1", "impl/T-9"), 1);
    mgr.handle(
        &Event::GateResolved { gate_id: "g1".into(), reason: "allowed".into() },
        2,
    );
    assert!(mgr.list().is_empty());

    // A permission prompt clears when its session resumes streaming.
    mgr.handle(&permission("s2", "req-2", "Edit", None), 3);
    assert_eq!(mgr.list().len(), 1);
    mgr.handle(&status("s2", "impl/T-9", SessionStatus::Streaming), 4);
    assert!(mgr.list().is_empty());
}

#[test]
fn failures_and_line_questions_are_queued_and_dismissable() {
    let mut mgr = AttentionManager::new();
    mgr.handle(&status("s3", "impl/T-9", SessionStatus::Failed), 1);
    mgr.handle(
        &Event::AttentionRequired {
            source: "line_question".into(),
            branch: Some("impl/T-9".into()),
            session_id: Some("s4".into()),
            message: "Answer ready for src/lib.rs:3-5".into(),
        },
        2,
    );

    let list = mgr.list();
    assert_eq!(list.len(), 2);
    assert_eq!(list[0].kind, AttentionKind::SessionFailed, "failure first");
    assert_eq!(list[1].target, AttentionTarget::Diff);

    assert!(mgr.dismiss(&list[0].id).is_some());
    assert_eq!(mgr.list().len(), 1);
    assert!(mgr.dismiss(&list[0].id).is_none(), "nothing left to dismiss");
    mgr.dismiss_session("s4");
    assert!(mgr.list().is_empty());
}

#[test]
fn dismiss_all_clears_everything_but_gates() {
    let mut mgr = AttentionManager::new();
    mgr.handle(&status("s1", "impl/a", SessionStatus::Failed), 1);
    mgr.handle(
        &Event::AttentionRequired {
            source: "line_question".into(),
            branch: Some("impl/a".into()),
            session_id: Some("s2".into()),
            message: "Answer ready".into(),
        },
        2,
    );
    mgr.handle(&gate("g1", "s3", "impl/a"), 3);

    assert_eq!(mgr.dismiss_all().0, 2);
    let left = mgr.list();
    assert_eq!(left.len(), 1, "an open gate must survive");
    assert_eq!(left[0].kind, AttentionKind::Gate);
    assert_eq!(mgr.dismiss_all().0, 0, "idempotent on gates only");
}

#[test]
fn red_team_findings_point_at_the_notes_tab() {
    let mut mgr = AttentionManager::new();
    mgr.handle(
        &Event::AttentionRequired {
            source: "red_team_ready".into(),
            branch: Some("redteam/impl-T-9".into()),
            session_id: Some("rt1".into()),
            message: "Red team finished".into(),
        },
        1,
    );

    let list = mgr.list();
    assert_eq!(list.len(), 1);
    assert_eq!(list[0].kind, AttentionKind::RedTeamReady);
    // The deliverable is REDTEAM.md, so clicking must land where it renders.
    assert_eq!(list[0].target, AttentionTarget::Notes);
}

#[test]
fn changes_publish_attention_updated() {
    let mut mgr = AttentionManager::new();
    let event = mgr.handle(&status("s5", "b", SessionStatus::Failed), 1).unwrap();
    assert_eq!(event.name(), "attention.updated");
    // What changes nothing announces nothing.
    assert!(mgr.handle(&Event::DaemonUpdated, 2).is_none());
}

#[test]
fn among_equals_the_latest_comes_first() {
    let mut mgr = AttentionManager::new();
    mgr.handle(&gate("g-early", "s1", "impl/a"), 4);
    mgr.handle(&gate("g-late", "s1", "impl/a"), 9);
    let times: Vec<i128> = mgr.list().iter().map(|i| i.created_at).collect();
    assert_eq!(times, [9, 4]);
}

#[test]
fn events_serialize_with_dotted_names() {
    let event = Event::WorktreeCreated {
        branch: "impl/T-1-demo".into(),
        path: "C:/work/maestro-impl-T-1-demo".into(),
    };
    assert_eq!(event.name(), "worktree.created");
    match event {
        Event::WorktreeCreated { branch, .. } => assert_eq!(branch, "impl/T-1-demo"),
        other => panic!("unexpected event {}", other.name()),
    }
    assert_eq!(Event::Test { message: "hello".into() }.name(), "system.test");
    assert_eq!(Event::DiffUpdated { branch: "feature/x".into() }.name(), "diff.updated");
    assert_eq!(
        Event::ErrorRaised {
            severity: Severity::Error,
            code: "git".into(),
            message: "no".into()
        }
        .name(),
        "error.raised"
    );
}

#[test]
fn what_blocks_an_agent_outranks_what_finished() {
    let blocking =
        [AttentionKind::Gate, AttentionKind::Question, AttentionKind::PermissionRequest];
    let finished = [
        AttentionKind::PrReviewReady,
        AttentionKind::RedTeamReady,
        AttentionKind::SessionFailed,
        AttentionKind::LineQuestion,
    ];
    for b in &blocking {
        for f in &finished {
            assert!(b.priority() > f.priority(), "{b:?} before {f:?}");
        }
    }
    assert!(AttentionKind::Gate.priority() > AttentionKind::PermissionRequest.priority());
}

#[test]
fn times_are_told_apart_by_the_nanosecond() {
    let mut mgr = AttentionManager::new();
    mgr.handle(&gate("g-1", "s1", "impl/a"), 5_000_000);
    mgr.handle(&gate("g-2", "s1", "impl/a"), 5_000_001);
    mgr.handle(&gate("g-3", "s1", "impl/a"), 5_000_001);
    let ids: Vec<String> = mgr.list().iter().map(|i| i.id.clone()).collect();
    assert_eq!(ids, ["gate:g-3", "gate:g-2", "gate:g-1"], "of one time, the later one first");
}

#[test]
fn an_announcement_about_nothing_is_known_by_its_millisecond() {
    let mut mgr = AttentionManager::new();
    let announced = Event::AttentionRequired {
        source: "x".into(),
        branch: None,
        session_id: None,
        message: "m".into(),
    };
    mgr.handle(&announced, 7_999_999);
    assert_eq!(mgr.list()[0].id, "x:7");
    mgr.handle(&announced, -1);
    assert_eq!(mgr.list()[1].id, "x:-1");
}
