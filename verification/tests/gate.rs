//! Pending gates and their answers.
use maestro_core::agent::EngineCall;
use maestro_core::bus::Event;
use maestro_core::error::MaestroError;
use maestro_core::gate::rules::{GateRule, GhPrCreateRule, GitPushRule};
use maestro_core::gate::{build_registry, GateManager, GateRegistry, Rule};
use maestro_core::json::{Json, Member};
use maestro_core::outside::Stamp;

fn args(key: &str, value: &str) -> Json {
    Json::Object(vec![Member { key: key.to_string(), value: Json::Text(value.to_string()) }])
}

fn stamp(id: &str, now: i128) -> Stamp {
    Stamp { id: id.to_string(), now }
}

fn manager_with(rule: Rule) -> GateManager {
    let mut registry = GateRegistry::new();
    registry.register(rule);
    GateManager::new(registry)
}

#[test]
fn intercept_records_pending_gate_and_publishes_event() {
    let mut gates = manager_with(Rule::Push(GitPushRule));
    let call = args("command", "git push origin main");
    let event = gates
        .intercept("s-1", "impl/T-7-x", "req-1", "Bash", &call, false, &stamp("g-1", 7))
        .unwrap();
    assert_eq!(event.name(), "gate.pending");
    match event {
        Event::GatePending { kind, branch, raw_args, .. } => {
            assert_eq!(kind, "git push");
            assert_eq!(branch, "impl/T-7-x");
            assert_eq!(raw_args.get("command").unwrap().as_str(), Some("git push origin main"));
        }
        other => panic!("unexpected event: {other:?}"),
    }
    let pending = gates.list();
    assert_eq!(pending.len(), 1);
    assert_eq!(pending[0].request_id, "req-1");
    assert_eq!(pending[0].rule_id, "git_push");
}

#[test]
fn intercept_lets_unmatched_calls_fall_through() {
    let mut gates = manager_with(Rule::Push(GitPushRule));
    let ls = args("command", "ls -la");
    assert!(gates.intercept("s-1", "b", "req-1", "Bash", &ls, false, &stamp("g", 1)).is_none());
    let read = args("file_path", "x");
    assert!(gates.intercept("s-1", "b", "req-2", "Read", &read, false, &stamp("g", 1)).is_none());
    assert!(gates.list().is_empty());
}

#[test]
fn respond_allow_substitutes_edited_params() {
    let mut gates = manager_with(Rule::PrCreate(GhPrCreateRule));
    let call = args("command", "gh pr create --title old --body draft");
    assert!(gates
        .intercept("s-1", "b", "req-7", "Bash", &call, false, &stamp("g-7", 1))
        .is_some());

    let gate_id = gates.list()[0].gate_id.clone();
    let mut edited = gates.list().remove(0).params;
    for p in &mut edited {
        if p.key == "title" {
            p.value = "approved title".into();
        }
    }
    match gates.respond(&gate_id, true, &edited, None).unwrap() {
        EngineCall::RespondPermission { request_id, allow, updated_args, message } => {
            assert_eq!(request_id, "req-7");
            assert!(allow);
            assert!(message.is_none());
            let updated = updated_args.unwrap();
            let command = updated.get("command").unwrap().as_str().unwrap();
            assert!(command.contains("--title 'approved title'"), "{command}");
        }
        other => panic!("unexpected call: {other:?}"),
    }
    let event = gates.resolve(&gate_id, true);
    assert_eq!(event.name(), "gate.resolved");
    assert!(gates.list().is_empty(), "entry removed");
}

#[test]
fn respond_deny_returns_feedback_to_the_agent() {
    let mut gates = manager_with(Rule::Push(GitPushRule));
    let call = args("command", "git push --force");
    assert!(gates
        .intercept("s-1", "b", "req-9", "Bash", &call, false, &stamp("g-9", 1))
        .is_some());
    let gate_id = gates.list()[0].gate_id.clone();
    let feedback = Some("rebase first, no force pushes".to_string());
    match gates.respond(&gate_id, false, &Vec::new(), feedback).unwrap() {
        EngineCall::RespondPermission { request_id, allow, updated_args, message } => {
            assert_eq!(request_id, "req-9");
            assert!(!allow);
            assert!(updated_args.is_none());
            assert_eq!(message.as_deref(), Some("rebase first, no force pushes"));
        }
        other => panic!("unexpected call: {other:?}"),
    }
}

#[test]
fn respond_to_unknown_gate_is_a_typed_error() {
    let gates = manager_with(Rule::Push(GitPushRule));
    match gates.respond("nope", true, &Vec::new(), None) {
        Err(MaestroError::InvalidData { message }) => {
            assert!(message.contains("unknown gate"));
        }
        other => panic!("unexpected answer: {other:?}"),
    }
}

#[test]
fn build_registry_respects_gate_commit_setting() {
    let commit = args("command", "git commit -m 'x'");

    // Default: commit not gated, push/PR always gated.
    let registry = build_registry(None);
    assert!(registry.match_tool("Bash", &commit).is_none());
    assert!(registry.match_tool("Bash", &args("command", "git push")).is_some());
    assert!(registry
        .match_tool("Bash", &args("command", "gh pr create -t x -b y"))
        .is_some());

    // Opt-in: gate_commit = "true".
    let registry = build_registry(Some("true"));
    let (i, gate_match) = registry.match_tool("Bash", &commit).unwrap();
    assert_eq!(registry.rules[i].id(), "git_commit");
    assert_eq!(gate_match.params[0].value, "x");
}

#[test]
fn a_gate_check_is_answered_by_a_decision() {
    let mut gates = manager_with(Rule::Push(GitPushRule));
    let call = args("command", "git push");
    assert!(gates
        .intercept("s-1", "b", "req-1", "Bash", &call, true, &stamp("g-1", 1))
        .is_some());
    match gates.respond("g-1", true, &Vec::new(), None).unwrap() {
        EngineCall::RespondGateCheck { request_id, decision, .. } => {
            assert_eq!(request_id, "req-1");
            assert_eq!(decision, "allow");
        }
        other => panic!("unexpected call: {other:?}"),
    }
}

#[test]
fn pending_gates_are_listed_oldest_first_and_cancelled_with_their_session() {
    let mut gates = manager_with(Rule::Push(GitPushRule));
    let call = args("command", "git push");
    for (id, session, at) in [("g-2", "s-2", 20), ("g-1", "s-1", 10), ("g-3", "s-2", 30)] {
        assert!(gates.intercept(session, "b", "r", "Bash", &call, false, &stamp(id, at)).is_some());
    }
    let ids: Vec<String> = gates.list().into_iter().map(|g| g.gate_id).collect();
    assert_eq!(ids, ["g-1", "g-2", "g-3"]);
    let events = gates.cancel_for_session("s-2", "cancelled");
    assert_eq!(events.len(), 2);
    assert!(events.iter().all(|e| e.name() == "gate.resolved"));
    let ids: Vec<String> = gates.list().into_iter().map(|g| g.gate_id).collect();
    assert_eq!(ids, ["g-1"]);
}

#[test]
fn a_gate_that_was_answered_cannot_be_answered_again() {
    let mut gates = manager_with(Rule::Push(GitPushRule));
    let call = args("command", "git push");
    for id in ["g-1", "g-2"] {
        let request = format!("req-{id}");
        gates.intercept("s-1", "b", &request, "Bash", &call, true, &stamp(id, 1)).unwrap();
    }
    assert!(gates.respond("g-1", true, &Vec::new(), None).is_ok());
    assert_eq!(gates.resolve("g-1", true).name(), "gate.resolved");
    let again = gates.respond("g-1", true, &Vec::new(), None).unwrap_err();
    assert_eq!(again.message(), "unknown gate: g-1");
    assert!(gates.respond("g-2", false, &Vec::new(), None).is_ok(), "the other one waits on");
}

#[test]
fn a_registry_takes_rules_of_any_kind() {
    let mut registry = GateRegistry::new();
    registry.register(GhPrCreateRule);
    assert_eq!(registry.rule("gh_pr_create").map(|r| r.id()), Some(GhPrCreateRule.id()));
    assert!(registry.rule("git_push").is_none());
    let mut gates = GateManager::new(registry);
    let push = args("command", "git push");
    assert!(gates.intercept("s", "b", "r", "Bash", &push, false, &stamp("g0", 1)).is_none());
    let create = args("command", "gh pr create -t x -b y");
    assert!(gates.intercept("s", "b", "r", "Bash", &create, false, &stamp("g1", 2)).is_some());
    assert_eq!(gates.list()[0].rule_id, GhPrCreateRule.id());
}
