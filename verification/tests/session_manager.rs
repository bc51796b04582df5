//! The session manager, driven over a store, an engine and a bus in memory.
use maestro_core::agent::protocol::SidecarEvent;
use maestro_core::agent::{EngineCall, SpawnSessionRequest};
use maestro_core::bus::Event;
use maestro_core::effects::{Action, Effect, StoreWrite};
use maestro_core::error::MaestroError;
use maestro_core::escalation::{
    disallowed_tools, escalation_prompt, resolve_target, AnswerCollector, EscalationManager,
    EscalationStep, ESCALATION_MODEL, NO_ANSWER,
};
use maestro_core::gate::rules::{GateParam, GitPushRule};
use maestro_core::gate::{GateManager, GateRegistry, Rule};
use maestro_core::json::{Json, Member};
use maestro_core::outside::Stamp;
use maestro_core::prompts::{FileRead, PromptManager};
use maestro_core::session::manager::{
    CloseStep, FinalizeInputs, SessionManager, SpawnParams,
};
use maestro_core::session::{Session, SessionStatus, SessionType, READ_ONLY_MODE};
use maestro_core::table::Table;

fn object(pairs: Vec<(&str, Json)>) -> Json {
    Json::Object(
        pairs
            .into_iter()
            .map(|(key, value)| Member { key: key.into(), value })
            .collect(),
    )
}

fn text(s: &str) -> Json {
    Json::Text(s.into())
}

fn copy_of(s: &Session) -> Session {
    Session {
        id: s.id.clone(),
        branch: s.branch.clone(),
        session_type: s.session_type,
        status: s.status,
        model: s.model.clone(),
        effort: s.effort.clone(),
        permission_mode: s.permission_mode.clone(),
        thinking: s.thinking.clone(),
        tools_profile: s.tools_profile.clone(),
        sdk_session_id: s.sdk_session_id.clone(),
        created_at: s.created_at,
        updated_at: s.updated_at,
    }
}

/// A store, an engine and a bus that record what the manager asks of them.
struct World {
    manager: SessionManager,
    prompts: PromptManager,
    rows: Vec<Session>,
    branches: Vec<String>,
    calls: Vec<String>,
    spawns: Vec<SpawnSessionRequest>,
    events: Vec<Event>,
    escalations: Vec<(String, String, String)>,
    policy: Option<String>,
    /// The finalize timeout; `None` leaves the notes step out altogether.
    finalize: Option<String>,
    clock: i128,
}

fn world_with(manager: SessionManager) -> World {
    let mut defaults = Table::new();
    defaults.insert("task-notes", "Write TASK_NOTES.md for {{branch}}".to_string());
    World {
        manager,
        prompts: PromptManager::new(defaults),
        rows: Vec::new(),
        branches: Vec::new(),
        calls: Vec::new(),
        spawns: Vec::new(),
        events: Vec::new(),
        escalations: Vec::new(),
        policy: None,
        finalize: None,
        clock: 0,
    }
}

fn setup() -> World {
    world_with(SessionManager::new())
}

fn setup_with_notes(timeout_secs: &str) -> World {
    let mut w = setup();
    w.finalize = Some(timeout_secs.to_string());
    w
}

fn setup_with_gates() -> World {
    let mut registry = GateRegistry::new();
    registry.register(Rule::Push(GitPushRule));
    world_with(SessionManager::with_gates(Some(GateManager::new(registry))))
}

impl World {
    fn stamp(&mut self) -> Stamp {
        self.clock += 1;
        Stamp { id: format!("id-{}", self.clock), now: self.clock }
    }

    fn row(&self, id: &str) -> Option<Session> {
        self.rows.iter().find(|s| s.id == id).map(copy_of)
    }

    fn engine(&mut self, call: EngineCall) {
        let line = match call {
            EngineCall::SpawnSession(req) => {
                let line = format!("spawn:{}", req.session_id);
                self.spawns.push(req);
                line
            }
            EngineCall::SendPrompt { session_id, .. } => format!("send:{session_id}"),
            EngineCall::Interrupt { session_id } => format!("interrupt:{session_id}"),
            EngineCall::CloseSession { session_id } => format!("close:{session_id}"),
            EngineCall::RespondPermission { request_id, .. } => format!("perm:{request_id}"),
            EngineCall::SetModel { session_id, model } => format!("set_model:{session_id}:{model}"),
            EngineCall::SetEffort { session_id, effort } => {
                format!("set_effort:{session_id}:{effort}")
            }
            EngineCall::SetThinking { session_id, thinking } => {
                format!("set_thinking:{session_id}:{thinking}")
            }
            EngineCall::SetPermissionMode { session_id, mode } => {
                format!("set_permission_mode:{session_id}:{mode}")
            }
            EngineCall::McpAction { session_id, server, action } => {
                format!("mcp:{session_id}:{server}:{action}")
            }
            EngineCall::RespondUserDialog { request_id, behavior, .. } => {
                format!("dialog:{request_id}:{behavior}")
            }
            EngineCall::RespondGateCheck { request_id, decision, .. } => {
                format!("check:{request_id}:{decision}")
            }
            EngineCall::RespondEscalation { request_id, result } => {
                format!("escalation:{request_id}:{result}")
            }
            EngineCall::ListModels { cwd } => format!("models:{cwd}"),
        };
        self.calls.push(line);
    }

    fn store(&mut self, write: StoreWrite) {
        match write {
            StoreWrite::UpsertBranch { branch } => {
                if !self.branches.contains(&branch) {
                    self.branches.push(branch);
                }
            }
            StoreWrite::InsertSession(s) => self.rows.push(s),
            StoreWrite::UpdateStatus { session_id, status } => {
                for s in self.rows.iter_mut().filter(|s| s.id == session_id) {
                    s.status = status;
                }
            }
            StoreWrite::SetSdkId { session_id, sdk_session_id } => {
                for s in self.rows.iter_mut().filter(|s| s.id == session_id) {
                    s.sdk_session_id = Some(sdk_session_id.clone());
                }
            }
            StoreWrite::SetRuntime { session_id, model, effort, permission_mode, thinking } => {
                for s in self.rows.iter_mut().filter(|s| s.id == session_id) {
                    s.model = model.clone().or(s.model.take());
                    s.effort = effort.clone().or(s.effort.take());
                    s.permission_mode = permission_mode.clone().or(s.permission_mode.take());
                    s.thinking = thinking.clone().or(s.thinking.take());
                }
            }
            StoreWrite::DeleteSession { session_id } => self.rows.retain(|s| s.id != session_id),
        }
    }

    fn perform(&mut self, effects: Vec<Effect>) {
        for effect in effects {
            match effect {
                Effect::Publish(event) => self.events.push(event),
                Effect::Require(Action::Engine(call)) | Effect::Attempt(Action::Engine(call)) => {
                    self.engine(call)
                }
                Effect::Require(Action::Store(write)) | Effect::Attempt(Action::Store(write)) => {
                    self.store(write)
                }
                Effect::Escalate { session_id, request_id, question } => {
                    self.escalations.push((session_id, request_id, question))
                }
            }
        }
    }

    fn spawn(&mut self, params: SpawnParams) -> Result<Session, MaestroError> {
        self.perform(vec![SessionManager::branch_row(&params.branch)]);
        let stamp = self.stamp();
        let source = params.resume_from.as_deref().and_then(|id| self.row(id));
        let policy = self.policy.clone();
        let spawned = self.manager.spawn(params, source.as_ref(), policy.as_deref(), &stamp)?;
        self.perform(spawned.effects);
        Ok(spawned.session)
    }

    fn handle(&mut self, event: SidecarEvent) {
        let stamp = self.stamp();
        let id = match &event {
            SidecarEvent::Status { session_id, .. }
            | SidecarEvent::SessionClosed { session_id, .. }
            | SidecarEvent::SessionInit { session_id, .. }
            | SidecarEvent::PermissionRequest { session_id, .. }
            | SidecarEvent::UserDialogRequest { session_id, .. } => session_id.clone(),
            _ => String::new(),
        };
        let row = self.row(&id);
        let effects = self.manager.handle_event(event, row.as_ref(), &stamp);
        self.perform(effects);
    }

    fn status(&mut self, id: &str, status: &str) {
        self.handle(SidecarEvent::Status { session_id: id.into(), status: status.into() });
    }

    fn make_idle(&mut self, id: &str) {
        self.status(id, "awaiting_input");
    }

    fn closed(&mut self, id: &str) {
        self.handle(SidecarEvent::SessionClosed { session_id: id.into(), reason: "closed".into() });
    }

    fn close(&mut self, id: &str) -> Result<(), MaestroError> {
        let row = self.row(id);
        let inputs = self.finalize.clone().map(|timeout| FinalizeInputs {
            timeout: Some(timeout),
            task_id: None,
            base_branch: None,
            notes: None,
            template: FileRead::Text("Write TASK_NOTES.md for {{branch}}".into()),
        });
        match self.manager.close(id, row.as_ref(), inputs, &self.prompts)? {
            CloseStep::Done(effects) => self.perform(effects),
            CloseStep::Finalize { prompt } => {
                assert!(!prompt.is_empty());
                self.calls.push(format!("send:{id}"));
                let now = self.clock;
                let timeout = self.finalize.clone();
                let effects = self.manager.finalize_started(id, timeout.as_deref(), now);
                self.perform(effects);
            }
        }
        Ok(())
    }

    fn delete(&mut self, id: &str) -> Result<(), MaestroError> {
        let row = self.row(id);
        if let Some(effect) = self.manager.delete(id, row.as_ref())? {
            self.perform(vec![effect]);
        }
        Ok(())
    }

    fn list_for_branch(&self, branch: &str) -> Vec<Session> {
        self.rows.iter().filter(|s| s.branch == branch).map(copy_of).collect()
    }

    fn set_permission_mode(&mut self, id: &str, mode: &str) -> Result<(), MaestroError> {
        let effects = self.manager.set_permission_mode(id, mode)?;
        self.perform(effects);
        let last = self.manager.permission_mode_set(id, mode);
        self.perform(vec![last]);
        Ok(())
    }

    fn respond_user_dialog(&mut self, id: &str, result: Option<Json>) -> Result<(), MaestroError> {
        if let Some((session_id, effects)) = self.manager.claim_for_dialog(id, &result)? {
            self.perform(effects);
            let set = self.manager.permission_mode_set(&session_id, "acceptEdits");
            self.perform(vec![set]);
        }
        let answer = self.manager.respond_user_dialog(id, result);
        self.perform(vec![answer]);
        let resolved = self.manager.dialog_answered(id);
        self.perform(vec![resolved]);
        Ok(())
    }

    fn called(&self, line: &str) -> bool {
        self.calls.iter().any(|c| c == line)
    }
}

fn spawn_params(branch: &str) -> SpawnParams {
    SpawnParams {
        branch: branch.into(),
        cwd: ".".into(),
        session_type: SessionType::Manual,
        model: None,
        effort: None,
        permission_mode: None,
        thinking: None,
        tools_profile: None,
        disallowed_tools: Vec::new(),
        prompt: "hi".into(),
        resume_from: None,
    }
}

#[test]
fn single_writer_downgrades_second_session() {
    let mut w = setup();

    let first = w.spawn(spawn_params("impl/T-8-x")).unwrap();
    assert!(first.is_writer());

    let second = w.spawn(spawn_params("impl/T-8-x")).unwrap();
    assert!(!second.is_writer(), "second session must be read-only");
    assert_eq!(second.permission_mode.as_deref(), Some(READ_ONLY_MODE));

    // The engine received the downgraded mode too.
    assert_eq!(w.spawns[1].permission_mode.as_deref(), Some(READ_ONLY_MODE));

    // A different branch still gets a writer.
    let other = w.spawn(spawn_params("impl/T-8-y")).unwrap();
    assert!(other.is_writer());
}

#[test]
fn single_writer_reject_policy() {
    let mut w = setup();
    w.policy = Some("reject".into());

    w.spawn(spawn_params("impl/T-9-x")).unwrap();
    let err = w.spawn(spawn_params("impl/T-9-x")).unwrap_err();
    assert!(err.message().contains("already active"));

    // An explicitly read-only session is still allowed.
    let mut ro = spawn_params("impl/T-9-x");
    ro.permission_mode = Some(READ_ONLY_MODE.into());
    assert!(w.spawn(ro).is_ok());
}

#[test]
fn writer_slot_frees_when_writer_finishes() {
    let mut w = setup();

    let first = w.spawn(spawn_params("impl/T-10-x")).unwrap();
    w.status(&first.id, "streaming");
    w.close(&first.id).unwrap();
    w.closed(&first.id);

    let second = w.spawn(spawn_params("impl/T-10-x")).unwrap();
    assert!(second.is_writer(), "slot freed after the writer finished");
}

#[test]
fn resume_uses_stored_sdk_id_and_inherits_model() {
    let mut w = setup();

    let mut params = spawn_params("impl/T-11-x");
    params.model = Some("opus-5".into());
    let source = w.spawn(params).unwrap();
    w.handle(SidecarEvent::SessionInit {
        session_id: source.id.clone(),
        sdk_session_id: "sdk-resume-me".into(),
        model: None,
    });
    // Finish the source session.
    w.close(&source.id).unwrap();
    w.closed(&source.id);

    let mut resume = spawn_params("impl/T-11-x");
    resume.prompt = String::new();
    resume.resume_from = Some(source.id.clone());
    let resumed = w.spawn(resume).unwrap();
    assert_eq!(resumed.model.as_deref(), Some("opus-5"), "model inherited");

    let last = w.spawns.last().unwrap();
    assert_eq!(last.resume_id.as_deref(), Some("sdk-resume-me"));
}

#[test]
fn spawn_persists_and_publishes() {
    let mut w = setup();

    let session = w.spawn(spawn_params("impl/T-1-x")).unwrap();
    assert_eq!(session.status, SessionStatus::Spawning);
    assert!(w.calls[0].starts_with("spawn:"));
    assert_eq!(w.events[0].name(), "session.status_changed");

    let stored = w.list_for_branch("impl/T-1-x");
    assert_eq!(stored.len(), 1);
    assert_eq!(w.branches, ["impl/T-1-x"]);
}

#[test]
fn a_spawn_the_engine_refuses_ends_failed() {
    let mut w = setup();
    let session = w.spawn(spawn_params("impl/T-1-y")).unwrap();
    let effects = w.manager.spawn_failed(&session.id);
    w.perform(effects);
    assert_eq!(w.row(&session.id).unwrap().status, SessionStatus::Failed);
    assert!(!w.manager.branch_has_writer("impl/T-1-y", None));
}

#[test]
fn status_events_drive_the_state_machine() {
    let mut w = setup();
    let session = w.spawn(spawn_params("impl/T-2-x")).unwrap();

    w.status(&session.id, "streaming");
    w.status(&session.id, "awaiting_input");
    let stored = w.list_for_branch("impl/T-2-x");
    assert_eq!(stored[0].status, SessionStatus::AwaitingInput);

    // An invalid transition (awaiting_input → awaiting_input) is ignored.
    w.status(&session.id, "awaiting_input");
    let stored = w.list_for_branch("impl/T-2-x");
    assert_eq!(stored[0].status, SessionStatus::AwaitingInput);
}

#[test]
fn sdk_session_id_is_persisted() {
    let mut w = setup();
    let session = w.spawn(spawn_params("impl/T-3-x")).unwrap();

    w.handle(SidecarEvent::SessionInit {
        session_id: session.id.clone(),
        sdk_session_id: "sdk-abc".into(),
        model: Some("opus-5".into()),
    });

    let stored = w.list_for_branch("impl/T-3-x");
    assert_eq!(stored[0].sdk_session_id.as_deref(), Some("sdk-abc"));
}

#[test]
fn close_while_idle_is_done_close_while_streaming_is_cancelled() {
    let mut w = setup();

    // Idle close → done.
    let s1 = w.spawn(spawn_params("impl/T-4-x")).unwrap();
    w.status(&s1.id, "streaming");
    w.status(&s1.id, "awaiting_input");
    w.close(&s1.id).unwrap();
    w.closed(&s1.id);

    // Mid-stream close → cancelled.
    let s2 = w.spawn(spawn_params("impl/T-4-x")).unwrap();
    w.status(&s2.id, "streaming");
    w.close(&s2.id).unwrap();
    w.closed(&s2.id);

    assert_eq!(w.row(&s1.id).unwrap().status, SessionStatus::Done);
    assert_eq!(w.row(&s2.id).unwrap().status, SessionStatus::Cancelled);
}

#[test]
fn close_and_delete_of_finished_sessions() {
    let mut w = setup();
    let session = w.spawn(spawn_params("impl/T-7-x")).unwrap();

    // Deleting an active session is rejected.
    assert!(w.delete(&session.id).is_err());

    // Fail it (e.g. crash), then close must be a no-op, delete must work.
    let effects = w.manager.handle_crash(Some(1));
    w.perform(effects);
    assert!(w.close(&session.id).is_ok(), "close on failed is idempotent");
    w.delete(&session.id).unwrap();
    assert!(w.list_for_branch("impl/T-7-x").is_empty());
    // Double-delete is fine.
    w.delete(&session.id).unwrap();
}

#[test]
fn crash_fails_all_live_sessions() {
    let mut w = setup();
    let s1 = w.spawn(spawn_params("impl/T-5-x")).unwrap();
    let s2 = w.spawn(spawn_params("impl/T-5-x")).unwrap();
    w.status(&s1.id, "streaming");

    let effects = w.manager.handle_crash(Some(13));
    w.perform(effects);

    let stored = w.list_for_branch("impl/T-5-x");
    assert!(stored.iter().all(|s| s.status == SessionStatus::Failed));
    assert!(
        w.manager.send(&s2.id, "hi", Vec::new()).is_err(),
        "dead sessions reject sends"
    );
}

#[test]
fn gated_permission_pauses_as_gate_pending() {
    let mut w = setup_with_gates();
    let session = w.spawn(spawn_params("impl/T-7-gate")).unwrap();
    w.events.clear();

    w.handle(SidecarEvent::PermissionRequest {
        session_id: session.id.clone(),
        request_id: "req-push".into(),
        tool: "Bash".into(),
        args: object(vec![("command", text("git push origin main"))]),
        title: None,
    });

    // A gate event replaces the plain permission request entirely.
    assert_eq!(w.events[0].name(), "gate.pending");

    let gates = w.manager.gates.as_mut().unwrap();
    let pending = gates.list();
    assert_eq!(pending.len(), 1);
    assert_eq!(pending[0].branch, "impl/T-7-gate", "branch from runtime map");
    assert_eq!(pending[0].session_id, session.id);

    // Approving executes with the (unedited) args passed back to the engine.
    let edited: Vec<GateParam> = Vec::new();
    match gates.respond(&pending[0].gate_id, true, &edited, None).unwrap() {
        EngineCall::RespondPermission { request_id, allow, updated_args, .. } => {
            assert_eq!(request_id, "req-push");
            assert!(allow);
            assert_eq!(
                updated_args.unwrap().text_under("command"),
                Some("git push origin main")
            );
        }
        other => panic!("expected a permission response, got {other:?}"),
    }
    let resolved = gates.resolve(&pending[0].gate_id, true);
    assert_eq!(resolved.name(), "gate.resolved");
    assert!(gates.list().is_empty());
}

#[test]
fn a_paused_push_waits_for_the_user_and_a_harmless_call_passes() {
    let mut w = setup_with_gates();
    let session = w.spawn(spawn_params("impl/T-20-x")).unwrap();
    let check = |request: &str, command: &str| SidecarEvent::GateCheck {
        session_id: session.id.clone(),
        request_id: request.into(),
        tool: "Bash".into(),
        args: object(vec![("command", text(command))]),
    };
    let before = w.calls.len();
    w.handle(check("req-1", "ls && git push"));
    assert_eq!(w.calls.len(), before, "nothing is answered");
    assert_eq!(w.events.last().unwrap().name(), "gate.pending");
    w.handle(check("req-2", "git status"));
    assert_eq!(w.calls[before..], ["check:req-2:pass"]);
}

#[test]
fn a_session_that_goes_read_only_frees_the_slot() {
    let mut w = setup();
    let writer = w.spawn(spawn_params("impl/T-21-x")).unwrap();
    assert!(w.manager.branch_has_writer("impl/T-21-x", None));
    w.set_permission_mode(&writer.id, READ_ONLY_MODE).unwrap();
    assert!(!w.manager.branch_has_writer("impl/T-21-x", None));
}

#[test]
fn a_process_that_closes_before_its_first_turn_leaves_unheard() {
    let mut w = setup();
    let session = w.spawn(spawn_params("impl/T-22-x")).unwrap();
    let heard = w.events.len();
    w.closed(&session.id);
    assert_eq!(w.events.len(), heard, "the state machine has no edge for it");
    assert!(!w.manager.branch_has_writer("impl/T-22-x", None));
}

#[test]
fn non_gated_permission_falls_through_unchanged() {
    let mut w = setup_with_gates();
    let session = w.spawn(spawn_params("impl/T-7-plain")).unwrap();
    w.events.clear();

    w.handle(SidecarEvent::PermissionRequest {
        session_id: session.id.clone(),
        request_id: "req-ls".into(),
        tool: "Bash".into(),
        args: object(vec![("command", text("ls -la"))]),
        title: Some("List files".into()),
    });

    assert_eq!(w.events[0].name(), "session.permission_request");
    assert!(w.manager.gates.as_ref().unwrap().list().is_empty());
}

#[test]
fn closing_an_implementation_session_asks_for_notes_first() {
    let mut w = setup_with_notes("120");
    let mut params = spawn_params("impl/S2-1");
    params.session_type = SessionType::Implementation;
    let session = w.spawn(params).unwrap();
    w.make_idle(&session.id);

    w.close(&session.id).unwrap();

    // The finalize prompt went out and the session is *not* closed yet.
    assert!(
        w.called(&format!("send:{}", session.id)),
        "expected a finalize prompt, got {:?}",
        w.calls
    );
    assert!(!w.called(&format!("close:{}", session.id)));

    // When that turn ends, the close happens for real.
    w.make_idle(&session.id);
    assert!(w.called(&format!("close:{}", session.id)));
}

#[test]
fn other_session_types_close_untouched() {
    let mut w = setup_with_notes("120");
    for session_type in [SessionType::Manual, SessionType::Research] {
        let mut params = spawn_params("impl/S2-2");
        params.session_type = session_type;
        params.permission_mode = Some(READ_ONLY_MODE.to_string());
        let session = w.spawn(params).unwrap();
        w.make_idle(&session.id);
        w.close(&session.id).unwrap();

        assert!(
            w.called(&format!("close:{}", session.id)),
            "{session_type:?} must close immediately"
        );
        assert!(
            !w.called(&format!("send:{}", session.id)),
            "{session_type:?} must not be asked for notes"
        );
    }
}

#[test]
fn a_streaming_or_terminal_session_closes_immediately() {
    let mut w = setup_with_notes("120");

    // Streaming: the user asked it to stop, so do not queue another turn behind that.
    let mut params = spawn_params("impl/S2-3");
    params.session_type = SessionType::Implementation;
    let streaming = w.spawn(params).unwrap();
    w.status(&streaming.id, "streaming");
    w.close(&streaming.id).unwrap();
    assert!(w.called(&format!("close:{}", streaming.id)));

    // Terminal: close is an idempotent no-op, notes or not.
    let mut params = spawn_params("impl/S2-3b");
    params.session_type = SessionType::Implementation;
    let done = w.spawn(params).unwrap();
    w.make_idle(&done.id);
    w.closed(&done.id);
    let before = w.calls.len();
    w.close(&done.id).unwrap();
    assert_eq!(w.calls.len(), before);
}

#[test]
fn a_finalize_turn_that_never_ends_still_closes() {
    let mut w = setup_with_notes("1");
    let mut params = spawn_params("impl/S2-4");
    params.session_type = SessionType::Implementation;
    let session = w.spawn(params).unwrap();
    w.make_idle(&session.id);
    w.close(&session.id).unwrap();
    assert!(!w.called(&format!("close:{}", session.id)));

    // Nothing happens before the deadline.
    let now = w.clock;
    let effects = w.manager.sweep_finalize_deadlines(now + 999_999_999);
    assert!(effects.is_empty());
    // Past it, the sweep closes the session, once.
    let effects = w.manager.sweep_finalize_deadlines(now + 1_000_000_000);
    w.perform(effects);
    assert!(w.called(&format!("close:{}", session.id)));
    assert!(w.manager.sweep_finalize_deadlines(now + 2_000_000_000).is_empty());
}

#[test]
fn the_finalize_step_can_be_switched_off() {
    let mut w = setup_with_notes("0");
    let mut params = spawn_params("impl/S2-5");
    params.session_type = SessionType::Implementation;
    let session = w.spawn(params).unwrap();
    w.make_idle(&session.id);
    w.close(&session.id).unwrap();

    assert!(w.called(&format!("close:{}", session.id)));
    assert!(!w.called(&format!("send:{}", session.id)));
}

#[test]
fn stale_sessions_failed_at_startup() {
    let mut w = setup();
    let orphan = Session::new("impl/T-6-x", SessionType::Manual, None, None, None);
    let id = orphan.id.clone();
    w.rows.push(orphan);

    let rows: Vec<Session> = w.rows.iter().map(copy_of).collect();
    let effects = w.manager.fail_stale_sessions(&rows, "startup");
    w.perform(effects);

    assert_eq!(w.row(&id).unwrap().status, SessionStatus::Failed);
}

#[test]
fn every_session_gets_an_id_of_its_own() {
    let a = Session::new("b", SessionType::Manual, None, None, None);
    let b = Session::new("b", SessionType::Manual, None, None, None);
    assert_ne!(a.id, b.id);
    assert_eq!(a.status, SessionStatus::Spawning);
    assert_eq!(a.created_at, a.updated_at);
}

#[test]
fn runtime_model_and_effort_reach_engine_store_and_bus() {
    let mut w = setup();
    let session = w.spawn(spawn_params("impl/S3-a")).unwrap();
    w.events.clear();

    let effects = w.manager.set_model(&session.id, "opus-5").unwrap();
    w.perform(effects);
    let effects = w.manager.set_effort(&session.id, "high").unwrap();
    w.perform(effects);

    assert!(w.called(&format!("set_model:{}:opus-5", session.id)));
    assert!(w.called(&format!("set_effort:{}:high", session.id)));

    // Persisted, so history and a later resume agree with the UI.
    let stored = w.row(&session.id).unwrap();
    assert_eq!(stored.model.as_deref(), Some("opus-5"));
    assert_eq!(stored.effort.as_deref(), Some("high"));

    assert_eq!(w.events[0].name(), "session.settings_changed");
    assert_eq!(
        w.manager.set_effort(&session.id, "heroic").unwrap_err().code(),
        "invalid_data"
    );
}

#[test]
fn thinking_is_validated_persisted_and_announced() {
    let mut w = setup();
    let session = w.spawn(spawn_params("impl/S3-e")).unwrap();
    w.events.clear();

    // Only the offered budgets are accepted; a typo must not reach the CLI.
    let err = w.manager.set_thinking(&session.id, "4k").unwrap_err();
    assert_eq!(err.code(), "invalid_data");

    let effects = w.manager.set_thinking(&session.id, "16000").unwrap();
    w.perform(effects);
    assert!(w.called(&format!("set_thinking:{}:16000", session.id)));
    let stored = w.row(&session.id).unwrap();
    assert_eq!(stored.thinking.as_deref(), Some("16000"));

    match &w.events[0] {
        Event::SessionSettingsChanged { thinking, .. } => {
            assert_eq!(thinking.as_deref(), Some("16000"));
        }
        other => panic!("expected settings_changed, got {}", other.name()),
    }
}

#[test]
fn resume_inherits_thinking_budget() {
    let mut w = setup();
    let mut params = spawn_params("impl/S3-f");
    params.thinking = Some("32000".into());
    let first = w.spawn(params).unwrap();
    w.handle(SidecarEvent::SessionInit {
        session_id: first.id.clone(),
        sdk_session_id: "sdk-1".into(),
        model: None,
    });
    w.close(&first.id).unwrap();
    w.closed(&first.id);

    let mut resume = spawn_params("impl/S3-f");
    resume.resume_from = Some(first.id.clone());
    let second = w.spawn(resume).unwrap();
    assert_eq!(second.thinking.as_deref(), Some("32000"));
    assert_eq!(w.spawns.last().unwrap().thinking.as_deref(), Some("32000"));
}

#[test]
fn runtime_settings_rejected_for_unknown_session() {
    let w = setup();
    assert!(w.manager.set_model("nope", "opus-5").is_err());
    assert!(w.manager.set_effort("nope", "high").is_err());
    assert!(w.manager.set_permission_mode("nope", "acceptEdits").is_err());
}

#[test]
fn permission_mode_switch_respects_single_writer() {
    let mut w = setup();
    let writer = w.spawn(spawn_params("impl/S3-b")).unwrap();
    let reader = w.spawn(spawn_params("impl/S3-b")).unwrap();
    assert!(writer.is_writer());
    assert!(!reader.is_writer());

    // The reader cannot grab the write slot while the writer is alive.
    let err = w.set_permission_mode(&reader.id, "acceptEdits").unwrap_err();
    assert_eq!(err.code(), "invalid_data");
    assert!(!w.calls.iter().any(|c| c.starts_with("set_permission_mode:")));

    // Going read-only is always allowed, and frees the slot when the writer does it.
    w.set_permission_mode(&writer.id, READ_ONLY_MODE).unwrap();
    w.set_permission_mode(&reader.id, "acceptEdits").unwrap();
    let stored = w.row(&reader.id).unwrap();
    assert_eq!(stored.permission_mode.as_deref(), Some("acceptEdits"));
}

fn plan_dialog(session_id: &str, request_id: &str) -> SidecarEvent {
    SidecarEvent::UserDialogRequest {
        session_id: session_id.into(),
        request_id: request_id.into(),
        dialog_kind: "plan_approval".into(),
        payload: object(vec![("plan", text("do the thing"))]),
        tool_use_id: None,
    }
}

#[test]
fn approving_a_plan_claims_the_writer_slot() {
    let mut w = setup();
    // A writer already holds the branch, so the planner starts read-only.
    let writer = w.spawn(spawn_params("impl/S3-g")).unwrap();
    let planner = w.spawn(spawn_params("impl/S3-g")).unwrap();
    assert!(!planner.is_writer());

    w.handle(plan_dialog(&planner.id, "plan-1"));

    // Approving would make a second writer on the branch: refused, and the CLI is never
    // told, so the agent stays in plan mode.
    let err = w
        .respond_user_dialog("plan-1", Some(object(vec![("approved", Json::Bool(true))])))
        .unwrap_err();
    assert_eq!(err.code(), "invalid_data");
    assert!(!w.calls.iter().any(|c| c.starts_with("dialog:plan-1")));

    // With the slot free, the same approval promotes the session and reaches the CLI.
    w.close(&writer.id).unwrap();
    w.closed(&writer.id);
    w.respond_user_dialog("plan-1", Some(object(vec![("approved", Json::Bool(true))])))
        .unwrap();
    let stored = w.row(&planner.id).unwrap();
    assert_eq!(stored.permission_mode.as_deref(), Some("acceptEdits"));
    assert!(w.called("dialog:plan-1:completed"));
}

#[test]
fn rejecting_a_plan_leaves_the_session_read_only() {
    let mut w = setup();
    let mut params = spawn_params("impl/S3-h");
    params.permission_mode = Some(READ_ONLY_MODE.to_string());
    let planner = w.spawn(params).unwrap();

    w.handle(plan_dialog(&planner.id, "plan-2"));
    w.respond_user_dialog(
        "plan-2",
        Some(object(vec![
            ("approved", Json::Bool(false)),
            ("feedback", text("narrow it down")),
        ])),
    )
    .unwrap();

    let stored = w.row(&planner.id).unwrap();
    assert_eq!(stored.permission_mode.as_deref(), Some(READ_ONLY_MODE));
}

#[test]
fn mcp_actions_are_validated_and_forwarded() {
    let mut w = setup();
    let session = w.spawn(spawn_params("impl/S3-i")).unwrap();

    assert_eq!(
        w.manager.mcp_action(&session.id, "srv", "restart").unwrap_err().code(),
        "invalid_data"
    );
    assert!(w.manager.mcp_action("nope", "srv", "reconnect").is_err());

    let effect = w.manager.mcp_action(&session.id, "srv", "reconnect").unwrap();
    w.perform(vec![effect]);
    let effect = w.manager.mcp_action(&session.id, "srv", "disable").unwrap();
    w.perform(vec![effect]);
    assert!(w.called(&format!("mcp:{}:srv:reconnect", session.id)));
    assert!(w.called(&format!("mcp:{}:srv:disable", session.id)));
}

#[test]
fn user_dialog_request_is_published_and_answered() {
    let mut w = setup();
    let session = w.spawn(spawn_params("impl/S3-c")).unwrap();
    w.events.clear();

    w.handle(SidecarEvent::UserDialogRequest {
        session_id: session.id.clone(),
        request_id: "dlg-1".into(),
        dialog_kind: "ask_user_question".into(),
        payload: object(vec![("questions", Json::List(Vec::new()))]),
        tool_use_id: None,
    });
    assert_eq!(w.events[0].name(), "session.user_dialog");

    w.respond_user_dialog("dlg-1", Some(object(vec![("answers", Json::List(vec![text("a")]))])))
        .unwrap();
    // The resolution names the session, so the attention queue can clear its entry.
    match &w.events[1] {
        Event::SessionUserDialogResolved { session_id, request_id } => {
            assert_eq!(*session_id, session.id);
            assert_eq!(request_id, "dlg-1");
        }
        other => panic!("expected a resolved event, got {}", other.name()),
    }
    w.respond_user_dialog("dlg-2", None).unwrap();
    assert!(w.called("dialog:dlg-1:completed"));
    assert!(w.called("dialog:dlg-2:cancelled"));
}

#[test]
fn an_escalation_request_is_handed_on() {
    let mut w = setup();
    let session = w.spawn(spawn_params("impl/S3-j")).unwrap();
    w.handle(SidecarEvent::EscalationRequest {
        session_id: session.id.clone(),
        request_id: "esc-1".into(),
        question: "why?".into(),
    });
    assert_eq!(
        w.escalations,
        [(session.id.clone(), "esc-1".to_string(), "why?".to_string())]
    );
}

// ---------------------------------------------------------------------------
// Escalations
// ---------------------------------------------------------------------------

/// The sessions of a branch: with `answerable`, an implementation session with a context;
/// last the one that asks.
fn branch_rows(answerable: bool) -> (Vec<Session>, Session) {
    let mut rows = Vec::new();
    if answerable {
        let mut original = Session::with_id(
            "target".into(),
            1,
            "impl/S2-T2",
            SessionType::Implementation,
            None,
            None,
            None,
        );
        original.sdk_session_id = Some("sdk-original".into());
        rows.push(original);
    }
    let asking = Session::with_id(
        "asking".into(),
        2,
        "impl/S2-T2",
        SessionType::ReviewFix,
        None,
        None,
        None,
    );
    rows.push(copy_of(&asking));
    (rows, asking)
}

#[test]
fn a_branch_without_an_implementation_session_gets_a_readable_refusal() {
    let (rows, asking) = branch_rows(false);
    let mut escalations = EscalationManager::new();
    let step = escalations.answer(&asking.id, Some(&asking), "why three retries?", &rows, Some("."));
    match step {
        // Nothing is spawned: there is nothing to resume.
        EscalationStep::Refuse { text } => {
            assert!(text.contains("Context unavailable"));
            assert!(text.contains("TASK_NOTES.md"));
        }
        EscalationStep::Spawn { .. } => panic!("there is nothing to resume"),
    }
}

#[test]
fn an_unknown_asking_session_is_refused_without_spawning() {
    let (rows, _asking) = branch_rows(true);
    let mut escalations = EscalationManager::new();
    let step = escalations.answer("no-such-session", None, "why?", &rows, Some("."));
    assert!(
        matches!(step, EscalationStep::Refuse { text } if text.contains("Context unavailable"))
    );
}

#[test]
fn an_escalation_needs_a_worktree() {
    let (rows, asking) = branch_rows(true);
    let mut escalations = EscalationManager::new();
    let step = escalations.answer(&asking.id, Some(&asking), "why?", &rows, None);
    assert!(matches!(step, EscalationStep::Refuse { text } if text.contains("no worktree")));
}

#[test]
fn the_budget_is_two_per_turn_and_resets_on_a_new_turn() {
    let (rows, asking) = branch_rows(true);
    let mut escalations = EscalationManager::new();
    assert!(escalations.claim_budget(&asking.id));
    assert!(escalations.claim_budget(&asking.id));
    assert!(
        !escalations.claim_budget(&asking.id),
        "the third call in one turn must be refused"
    );

    // The refusal is an answer, not an error, and it spawns nothing.
    let step = escalations.answer(&asking.id, Some(&asking), "third question", &rows, Some("."));
    assert!(matches!(step, EscalationStep::Refuse { text } if text.contains("escalation budget")));

    // A new turn on the asking session refills it.
    escalations.spent.remove(&asking.id);
    assert!(escalations.claim_budget(&asking.id));
}

#[test]
fn the_budget_loop_refills_on_a_streaming_transition() {
    let (_rows, asking) = branch_rows(true);
    let mut escalations = EscalationManager::new();
    assert!(escalations.claim_budget(&asking.id));
    assert!(escalations.claim_budget(&asking.id));

    escalations.on_event(&Event::SessionStatusChanged {
        session_id: asking.id.clone(),
        branch: "impl/S2-T2".into(),
        status: SessionStatus::Streaming,
    });

    assert!(escalations.claim_budget(&asking.id), "a new turn must refill the budget");
}

#[test]
fn the_target_is_the_latest_implementation_session_with_a_context() {
    let (mut rows, _asking) = branch_rows(true);
    // A newer implementation session without an SDK id is not resumable.
    rows.push(Session::with_id(
        "newer".into(),
        5,
        "impl/S2-T2",
        SessionType::Implementation,
        None,
        None,
        None,
    ));
    // A research session is never the target, even with a context.
    let mut research = Session::with_id(
        "research".into(),
        6,
        "impl/S2-T2",
        SessionType::Research,
        None,
        None,
        None,
    );
    research.sdk_session_id = Some("sdk-research".into());
    rows.push(research);

    let target = resolve_target(&rows).unwrap();
    let resolved = rows.iter().find(|s| s.id == target).unwrap();
    assert_eq!(resolved.session_type, SessionType::Implementation);
    assert_eq!(resolved.sdk_session_id.as_deref(), Some("sdk-original"));
}

#[test]
fn an_escalation_session_is_read_only_and_keeps_the_writer_slot_free() {
    let mut w = setup();
    // Spawn an escalation session the way the manager does.
    let escalated = w
        .spawn(SpawnParams {
            branch: "impl/S2-T2".into(),
            cwd: ".".into(),
            session_type: SessionType::Escalation,
            model: Some(ESCALATION_MODEL.into()),
            effort: None,
            permission_mode: Some(READ_ONLY_MODE.to_string()),
            thinking: None,
            tools_profile: None,
            disallowed_tools: disallowed_tools(),
            prompt: escalation_prompt("why?"),
            resume_from: None,
        })
        .unwrap();
    assert!(!escalated.is_writer());

    // The branch's write slot is still free afterwards.
    let mut carry_on = spawn_params("impl/S2-T2");
    carry_on.session_type = SessionType::Implementation;
    carry_on.prompt = "carry on".into();
    let writer = w.spawn(carry_on).unwrap();
    assert!(writer.is_writer(), "an escalation must not take the slot");

    // And the engine was told to withhold the writing tools.
    let spawned = w.spawns.iter().find(|s| s.session_id == escalated.id).unwrap();
    assert_eq!(spawned.model.as_deref(), Some("sonnet"));
    for tool in disallowed_tools() {
        assert!(spawned.disallowed_tools.contains(&tool));
    }
}

#[test]
fn an_escalation_resumes_the_target_and_collects_its_answer() {
    let (rows, asking) = branch_rows(true);
    let mut escalations = EscalationManager::new();
    let (params, target) =
        match escalations.answer(&asking.id, Some(&asking), "why three?", &rows, Some("/wt")) {
            EscalationStep::Spawn { params, target } => (params, target),
            EscalationStep::Refuse { text } => panic!("refused: {text}"),
        };
    assert_eq!(target, "target");
    assert_eq!(params.resume_from.as_deref(), Some("target"));
    assert_eq!(params.cwd, "/wt");
    assert_eq!(params.session_type, SessionType::Escalation);
    assert!(params.prompt.contains("why three?"));

    let mut collector = AnswerCollector::new("e1");
    assert!(!collector.on_event(&Event::SessionStreamDelta {
        session_id: "e1".into(),
        text: "Because ".into(),
        parent_tool_use_id: None,
    }));
    // Another session's words, and a subagent's, are not the answer.
    collector.on_event(&Event::SessionStreamDelta {
        session_id: "e2".into(),
        text: "noise".into(),
        parent_tool_use_id: None,
    });
    collector.on_event(&Event::SessionStreamDelta {
        session_id: "e1".into(),
        text: "chatter".into(),
        parent_tool_use_id: Some("task-1".into()),
    });
    collector.on_event(&Event::SessionStreamDelta {
        session_id: "e1".into(),
        text: "it flakes.".into(),
        parent_tool_use_id: None,
    });
    assert!(collector.on_event(&Event::SessionStatusChanged {
        session_id: "e1".into(),
        branch: "impl/S2-T2".into(),
        status: SessionStatus::AwaitingInput,
    }));
    assert_eq!(collector.text, "Because it flakes.");
    let outcome = EscalationManager::finished(&asking.id, &target, Some(collector.text));
    assert_eq!(
        outcome.text,
        "The agent that implemented this branch says:\n\nBecause it flakes."
    );
    assert_eq!(outcome.event.name(), "escalation.finished");

    let silent = EscalationManager::finished(&asking.id, &target, None);
    assert_eq!(silent.text, NO_ANSWER);
    assert_eq!(silent.event.name(), "escalation.failed");
    assert_eq!(AnswerCollector::new("e1").timed_out(), None);
}

#[test]
fn a_live_main_session_never_closes() {
    let mut w = setup();
    let mut params = spawn_params("impl/main-1");
    params.session_type = SessionType::Main;
    let main = w.spawn(params).unwrap();
    w.make_idle(&main.id);
    let err = w.close(&main.id).unwrap_err();
    assert!(matches!(err, MaestroError::InvalidData { .. }));
    assert!(err.message().contains("cannot be closed"));
    assert!(!w.called(&format!("close:{}", main.id)));
    // It is still there to talk to.
    assert!(w.manager.send(&main.id, "go on", Vec::new()).is_ok());
}
