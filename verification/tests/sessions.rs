//! Sessions: types, states and modes.
use maestro_core::escalation::{
    disallowed_tools, escalation_budget, escalation_prompt, is_escalation, timeout,
};
use maestro_core::session::{
    is_known_effort, is_known_permission_mode, is_known_thinking, is_writer_mode, SessionStatus,
    SessionType,
};

#[test]
fn status_round_trips_through_strings() {
    for status in [
        SessionStatus::Spawning,
        SessionStatus::Streaming,
        SessionStatus::AwaitingInput,
        SessionStatus::Done,
        SessionStatus::Failed,
        SessionStatus::Cancelled,
    ] {
        assert_eq!(SessionStatus::parse(status.as_str()), Some(status));
    }
    assert_eq!(SessionStatus::parse("bogus"), None);
}

#[test]
fn type_round_trips_through_strings() {
    for ty in [
        SessionType::Research,
        SessionType::Implementation,
        SessionType::ReviewFix,
        SessionType::Manual,
        SessionType::Main,
        SessionType::RedTeam,
    ] {
        assert_eq!(SessionType::parse(ty.as_str()), Some(ty));
    }
}

#[test]
fn terminal_states() {
    assert!(SessionStatus::Done.is_terminal());
    assert!(SessionStatus::Failed.is_terminal());
    assert!(SessionStatus::Cancelled.is_terminal());
    assert!(!SessionStatus::Streaming.is_terminal());
}

#[test]
fn state_machine_transitions() {
    let spawning = SessionStatus::Spawning;
    let streaming = SessionStatus::Streaming;
    let awaiting = SessionStatus::AwaitingInput;
    let done = SessionStatus::Done;
    let failed = SessionStatus::Failed;
    let cancelled = SessionStatus::Cancelled;
    // The happy path.
    assert!(spawning.can_transition_to(streaming));
    assert!(streaming.can_transition_to(awaiting));
    assert!(awaiting.can_transition_to(streaming));
    assert!(awaiting.can_transition_to(done));
    // Failure/cancellation from any live state.
    for from in [spawning, streaming, awaiting] {
        assert!(from.can_transition_to(failed));
        assert!(from.can_transition_to(cancelled));
    }
    // Illegal moves.
    assert!(!spawning.can_transition_to(done), "must stream first");
    assert!(!done.can_transition_to(streaming), "terminal is terminal");
    assert!(!failed.can_transition_to(spawning));
    assert!(!streaming.can_transition_to(streaming), "no self-loops");
}

#[test]
fn modes_and_knobs_are_known() {
    assert!(is_writer_mode(None));
    assert!(is_writer_mode(Some("acceptEdits")));
    assert!(!is_writer_mode(Some("plan")));
    assert!(is_known_permission_mode("plan"));
    assert!(!is_known_permission_mode("godmode"));
    assert!(is_known_thinking("off"));
    assert!(is_known_thinking("16000"));
    assert!(!is_known_thinking("a lot"));
    assert!(is_known_effort("high"));
    assert!(!is_known_effort("heroic"));
}

#[test]
fn the_prompt_carries_the_question_and_forbids_acting() {
    let prompt = escalation_prompt("Why three retries?");
    assert!(prompt.contains("Why three retries?"));
    assert!(prompt.contains("read-only"));
    assert!(prompt.contains("do not edit files"));
}

#[test]
fn escalation_sessions_are_recognised() {
    assert!(is_escalation(SessionType::Escalation));
    assert!(!is_escalation(SessionType::Implementation));
}

#[test]
fn disallowed_tools_cover_the_ways_to_change_a_worktree() {
    let disallowed = disallowed_tools();
    for tool in ["Edit", "Write", "Bash"] {
        assert!(disallowed.iter().any(|t| t == tool));
    }
}

#[test]
fn the_escalation_budget_and_timeout() {
    assert_eq!(escalation_budget(), 2);
    assert_eq!(timeout(Some("30")), 30);
    assert_eq!(timeout(None), timeout(Some("soon")));
}
