//! Session lifecycle manager.
//!
//! Owns the mapping session ↔ branch ↔ runtime status and validates every state-machine
//! transition. It decides; what is to be persisted, sent to the agent engine or published
//! comes back as effects.
use crate::agent::protocol::{Attachment, SidecarEvent};
use crate::agent::{EngineCall, SpawnSessionRequest};
use crate::bus::{Event, EventV, Severity};
use crate::effects::{
    effect_views, published, push_effect, push_events, Action, ActionV, Effect, EffectV,
    EngineCallV, SpawnRequestV, StoreWrite, StoreWriteV,
};
use crate::error::{is_invalid_data, MaestroError};
use crate::gate::rules::GateRule;
use crate::gate::{
    cancelled, gate_for, gates_of, pending_event, resolved_events, GateManager, GatesV, Rule,
    ToolCallV,
};
use crate::json::{bool_in, member, opt_json_view, Json, JsonV};
use crate::outside::Stamp;
use crate::prompts::{parsed_template, rendered, valid_name, FileRead, PromptManager};
use crate::session::{
    is_known_effort, is_known_permission_mode, is_known_thinking, is_writer_mode, known_effort,
    known_permission_mode, known_thinking, may_become, status_of_text, terminal, type_text,
    writer_mode, Session, SessionStatus, SessionType, SessionV,
};
use crate::table::{t_del, t_get, t_keys, t_put, t_unique, Table};
use crate::text::{
    decimal, decimal_text, opt_str, opt_text, opt_view, parse_number, parsed_number, same_text,
    text_of, trim, trimmed, views,
};
use vstd::prelude::*;
use vstd::string::*;

verus! {

/// Setting key for what happens when a second writer is requested on a branch.
pub const SETTING_SINGLE_WRITER_POLICY: &'static str = "single_writer_policy";

/// How long an implementation session gets, on close, to write its `TASK_NOTES.md`.
pub const SETTING_NOTES_FINALIZE_TIMEOUT: &'static str = "notes_finalize_timeout_secs";

/// The permission mode of a session whose plan was approved.
pub const APPROVED_PLAN_MODE: &'static str = "acceptEdits";

/// Default for [`SETTING_NOTES_FINALIZE_TIMEOUT`]. `0` disables the finalize step.
pub const DEFAULT_FINALIZE_TIMEOUT_SECS: u64 = 120;

/// Everything the IPC layer passes in to start a session.
#[derive(Debug)]
pub struct SpawnParams {
    pub branch: String,
    pub cwd: String,
    pub session_type: SessionType,
    pub model: Option<String>,
    pub effort: Option<String>,
    pub permission_mode: Option<String>,
    /// Thinking budget: `default`/`None`, `off`, or a token count.
    pub thinking: Option<String>,
    /// Extra tools the session gets.
    pub tools_profile: Option<String>,
    /// Tools the session may not use at all.
    pub disallowed_tools: Vec<String>,
    pub prompt: String,
    /// Id of a finished session to resume (continues its SDK context).
    pub resume_from: Option<String>,
}

pub struct SpawnParamsV {
    pub branch: Seq<char>,
    pub cwd: Seq<char>,
    pub session_type: SessionType,
    pub model: Option<Seq<char>>,
    pub effort: Option<Seq<char>>,
    pub permission_mode: Option<Seq<char>>,
    pub thinking: Option<Seq<char>>,
    pub tools_profile: Option<Seq<char>>,
    pub disallowed_tools: Seq<Seq<char>>,
    pub prompt: Seq<char>,
    pub resume_from: Option<Seq<char>>,
}

impl View for SpawnParams {
    type V = SpawnParamsV;

    open spec fn view(&self) -> SpawnParamsV {
        SpawnParamsV {
            branch: self.branch@,
            cwd: self.cwd@,
            session_type: self.session_type,
            model: opt_view(self.model),
            effort: opt_view(self.effort),
            permission_mode: opt_view(self.permission_mode),
            thinking: opt_view(self.thinking),
            tools_profile: opt_view(self.tools_profile),
            disallowed_tools: views(self.disallowed_tools@),
            prompt: self.prompt@,
            resume_from: opt_view(self.resume_from),
        }
    }
}

/// A live session.
#[derive(Debug)]
pub struct RuntimeSession {
    pub branch: String,
    pub status: SessionStatus,
    /// Writer sessions hold the branch's single write slot.
    pub is_writer: bool,
    /// Set when the user requested close; decides the terminal status when the session is
    /// closed.
    pub close_requested: bool,
}

pub struct RuntimeV {
    pub branch: Seq<char>,
    pub status: SessionStatus,
    pub is_writer: bool,
    pub close_requested: bool,
}

impl View for RuntimeSession {
    type V = RuntimeV;

    open spec fn view(&self) -> RuntimeV {
        RuntimeV {
            branch: self.branch@,
            status: self.status,
            is_writer: self.is_writer,
            close_requested: self.close_requested,
        }
    }
}

/// A dialog an agent is blocked on.
#[derive(Debug)]
pub struct PendingDialog {
    pub session_id: String,
    pub kind: String,
}

pub struct DialogV {
    pub session_id: Seq<char>,
    pub kind: Seq<char>,
}

impl View for PendingDialog {
    type V = DialogV;

    open spec fn view(&self) -> DialogV {
        DialogV { session_id: self.session_id@, kind: self.kind@ }
    }
}

#[derive(Debug)]
pub struct SessionManager<R: GateRule = Rule> {
    /// Gate for dangerous tool calls; `None` skips gating entirely.
    pub gates: Option<GateManager<R>>,
    pub runtime: Table<RuntimeSession>,
    /// Dialogs the agents are blocked on, by request id.
    pub dialogs: Table<PendingDialog>,
    /// Sessions writing their notes before closing: session id → deadline in nanoseconds since
    /// the Unix epoch.
    pub finalizing: Table<i128>,
}

/// What the session manager is.
pub struct ManagerV {
    pub gates: Option<GatesV>,
    pub runtime: Seq<(Seq<char>, RuntimeV)>,
    pub dialogs: Seq<(Seq<char>, DialogV)>,
    pub finalizing: Seq<(Seq<char>, i128)>,
}

impl<R: GateRule> View for SessionManager<R> {
    type V = ManagerV;

    open spec fn view(&self) -> ManagerV {
        ManagerV {
            gates: match self.gates {
                Some(g) => Some(g@),
                None => None,
            },
            runtime: self.runtime@,
            dialogs: self.dialogs@,
            finalizing: self.finalizing@,
        }
    }
}

pub open spec fn opt_session_view(s: Option<&Session>) -> Option<SessionV> {
    match s {
        Some(s) => Some(s@),
        None => None,
    }
}

// ---------------------------------------------------------------------------
// The single-writer rule
// ---------------------------------------------------------------------------

/// Whether a runtime entry holds the write slot of `branch`.
pub open spec fn holds_slot(r: RuntimeV, branch: Seq<char>) -> bool {
    r.branch == branch && r.is_writer && !terminal(r.status)
}

/// Whether a live session other than `except` holds the write slot of `branch`.
pub open spec fn slot_taken(
    runtime: Seq<(Seq<char>, RuntimeV)>,
    branch: Seq<char>,
    except: Option<Seq<char>>,
) -> bool {
    exists|i: int|
        0 <= i < runtime.len() && Some((#[trigger] runtime[i]).0) != except && holds_slot(
            runtime[i].1,
            branch,
        )
}

/// At most one live session with write permissions per branch.
pub open spec fn single_writer(runtime: Seq<(Seq<char>, RuntimeV)>) -> bool {
    forall|i: int, j: int|
        0 <= i < j < runtime.len() ==> !((#[trigger] runtime[i]).1.branch == (
        #[trigger] runtime[j]).1.branch && holds_slot(runtime[i].1, runtime[i].1.branch)
            && holds_slot(runtime[j].1, runtime[j].1.branch))
}

// ---------------------------------------------------------------------------
// Transitions
// ---------------------------------------------------------------------------

pub open spec fn status_effects(
    id: Seq<char>,
    branch: Seq<char>,
    status: SessionStatus,
) -> Seq<EffectV> {
    seq![
        EffectV::Attempt(
            ActionV::Store(StoreWriteV::UpdateStatus { session_id: id, status }),
        ),
        EffectV::Publish(EventV::Status { session_id: id, branch, status }),
    ]
}

pub open spec fn with_status(r: RuntimeV, status: SessionStatus) -> RuntimeV {
    RuntimeV { branch: r.branch, status, is_writer: r.is_writer, close_requested: r.close_requested }
}

/// The live sessions after a transition: a session that ends leaves the table.
pub open spec fn runtime_after(
    runtime: Seq<(Seq<char>, RuntimeV)>,
    id: Seq<char>,
    next: SessionStatus,
) -> Seq<(Seq<char>, RuntimeV)> {
    match t_get(runtime, id) {
        Some(r) => if may_become(r.status, next) {
            if terminal(next) {
                t_del(runtime, id)
            } else {
                t_put(runtime, id, with_status(r, next))
            }
        } else {
            runtime
        },
        None => runtime,
    }
}

/// What a transition is announced with: nothing where the state machine has no such edge.
/// A session that is not live is taken from its stored row.
pub open spec fn transition_effects(
    runtime: Seq<(Seq<char>, RuntimeV)>,
    id: Seq<char>,
    next: SessionStatus,
    row: Option<SessionV>,
) -> Seq<EffectV> {
    match t_get(runtime, id) {
        Some(r) => if may_become(r.status, next) {
            status_effects(id, r.branch, next)
        } else {
            seq![]
        },
        None => match row {
            Some(s) => if may_become(s.status, next) {
                status_effects(id, s.branch, next)
            } else {
                seq![]
            },
            None => seq![],
        },
    }
}

pub open spec fn with_runtime(m: ManagerV, runtime: Seq<(Seq<char>, RuntimeV)>) -> ManagerV {
    ManagerV { gates: m.gates, runtime, dialogs: m.dialogs, finalizing: m.finalizing }
}

pub open spec fn transitioned(m: ManagerV, id: Seq<char>, next: SessionStatus) -> ManagerV {
    with_runtime(m, runtime_after(m.runtime, id, next))
}

/// The branch of a live session; empty for one that is not live.
pub open spec fn branch_in(runtime: Seq<(Seq<char>, RuntimeV)>, id: Seq<char>) -> Seq<char> {
    match t_get(runtime, id) {
        Some(r) => r.branch,
        None => seq![],
    }
}

// ---------------------------------------------------------------------------
// The finalize step
// ---------------------------------------------------------------------------

pub open spec fn without_finalizing(m: ManagerV, id: Seq<char>) -> ManagerV {
    ManagerV {
        gates: m.gates,
        runtime: m.runtime,
        dialogs: m.dialogs,
        finalizing: t_del(m.finalizing, id),
    }
}

pub open spec fn close_call(id: Seq<char>) -> ActionV {
    ActionV::Engine(EngineCallV::CloseSession { session_id: id })
}

/// The end of a finalize turn: close for real, and let the notes panel know.
pub open spec fn finish_effects(id: Seq<char>, branch: Seq<char>) -> Seq<EffectV> {
    seq![
        EffectV::Publish(EventV::NotesUpdated { branch }),
        EffectV::Attempt(close_call(id)),
    ]
}

pub open spec fn finish_effects_if(m: ManagerV, id: Seq<char>, branch: Seq<char>) -> Seq<EffectV> {
    if t_get(m.finalizing, id) is Some {
        finish_effects(id, branch)
    } else {
        seq![]
    }
}

/// The finalizing sessions whose deadline has not passed.
pub open spec fn unexpired(finalizing: Seq<(Seq<char>, i128)>, now: i128) -> Seq<(Seq<char>, i128)>
    decreases finalizing.len(),
{
    if finalizing.len() == 0 {
        seq![]
    } else {
        let before = unexpired(finalizing.drop_last(), now);
        if finalizing.last().1 <= now {
            before
        } else {
            before.push(finalizing.last())
        }
    }
}

/// What ends the finalize turns whose deadline has passed.
pub open spec fn expiry_effects(
    finalizing: Seq<(Seq<char>, i128)>,
    runtime: Seq<(Seq<char>, RuntimeV)>,
    now: i128,
) -> Seq<EffectV>
    decreases finalizing.len(),
{
    if finalizing.len() == 0 {
        seq![]
    } else {
        let before = expiry_effects(finalizing.drop_last(), runtime, now);
        if finalizing.last().1 <= now {
            before + finish_effects(
                finalizing.last().0,
                branch_in(runtime, finalizing.last().0),
            )
        } else {
            before
        }
    }
}

/// Seconds that a finalize turn may take, from the setting.
pub open spec fn finalize_secs(setting: Option<Seq<char>>) -> u64 {
    match setting {
        Some(raw) => match parsed_number(trim(raw), u64::MAX as nat) {
            Some(n) => n as u64,
            None => DEFAULT_FINALIZE_TIMEOUT_SECS,
        },
        None => DEFAULT_FINALIZE_TIMEOUT_SECS,
    }
}

pub fn finalize_timeout(setting: Option<&str>) -> (secs: u64)
    ensures
        secs == finalize_secs(
            match setting {
                Some(s) => Some(s@),
                None => None,
            },
        ),
{
    match setting {
        Some(raw) => {
            let v: Vec<char> = crate::text::chars_of(raw);
            match parse_number(trimmed(v.as_slice()), u64::MAX) {
                Some(n) => n,
                None => DEFAULT_FINALIZE_TIMEOUT_SECS,
            }
        },
        None => DEFAULT_FINALIZE_TIMEOUT_SECS,
    }
}

/// When a finalize turn that starts now has to end. A timeout too long to be counted in
/// milliseconds counts as none, and the last representable moment is never exceeded.
pub open spec fn deadline(now: i128, secs: u64) -> i128 {
    if secs > 9_223_372_036_854_775 {
        now
    } else if now + secs * 1_000_000_000 > i128::MAX {
        i128::MAX
    } else {
        (now + secs * 1_000_000_000) as i128
    }
}

fn deadline_after(now: i128, secs: u64) -> (r: i128)
    ensures
        r == deadline(now, secs),
{
    if secs > 9_223_372_036_854_775 {
        return now;
    }
    let wait: i128 = (secs as i128) * 1_000_000_000;
    if now > i128::MAX - wait {
        i128::MAX
    } else {
        now + wait
    }
}

// ---------------------------------------------------------------------------
// Events from the sidecar
// ---------------------------------------------------------------------------

pub open spec fn raised(severity: Severity, code: Seq<char>, message: Seq<char>) -> EffectV {
    EffectV::Publish(EventV::ErrorRaised { severity, code, message })
}

/// The terminal status of a session that was closed for `reason`.
pub open spec fn closed_status(reason: Seq<char>, r: Option<RuntimeV>) -> SessionStatus {
    if reason == "error"@ {
        SessionStatus::Failed
    } else {
        match r {
            Some(r) => if r.close_requested {
                if r.status == SessionStatus::AwaitingInput {
                    SessionStatus::Done
                } else {
                    SessionStatus::Cancelled
                }
            } else {
                SessionStatus::Done
            },
            None => SessionStatus::Done,
        }
    }
}

pub open spec fn cancel_gates(g: Option<GatesV>, id: Seq<char>) -> Option<GatesV> {
    match g {
        Some(g) => Some(cancelled(g, id)),
        None => None,
    }
}

pub open spec fn cancel_events(g: Option<GatesV>, id: Seq<char>, reason: Seq<char>) -> Seq<EventV> {
    match g {
        Some(g) => resolved_events(gates_of(g.pending, id), reason),
        None => seq![],
    }
}

/// The manager and the effects after a session was closed.
pub open spec fn closed(
    m: ManagerV,
    id: Seq<char>,
    reason: Seq<char>,
    row: Option<SessionV>,
) -> (ManagerV, Seq<EffectV>) {
    let status = closed_status(reason, t_get(m.runtime, id));
    (
        ManagerV {
            gates: cancel_gates(m.gates, id),
            runtime: t_del(runtime_after(m.runtime, id, status), id),
            dialogs: m.dialogs,
            finalizing: t_del(m.finalizing, id),
        },
        published(cancel_events(m.gates, id, "session closed"@)) + transition_effects(
            m.runtime,
            id,
            status,
            row,
        ),
    )
}

/// The manager and the effects after a tool call asked for permission or paused.
pub open spec fn asked(
    m: ManagerV,
    call: ToolCallV,
    id: Seq<char>,
    now: i128,
    otherwise: EffectV,
) -> (ManagerV, Seq<EffectV>) {
    match m.gates {
        Some(g) => match gate_for(g.rules, call, id, now) {
            Some(p) => (
                ManagerV {
                    gates: Some(
                        GatesV { rules: g.rules, pending: t_put(g.pending, id, p) },
                    ),
                    runtime: m.runtime,
                    dialogs: m.dialogs,
                    finalizing: m.finalizing,
                },
                seq![EffectV::Publish(pending_event(p))],
            ),
            None => (m, seq![otherwise]),
        },
        None => (m, seq![otherwise]),
    }
}

pub open spec fn rate_limit_message(window: Option<Seq<char>>, percent: Option<Seq<char>>) -> Seq<
    char,
> {
    let w = match window {
        Some(w) => w,
        None => "quota"@,
    };
    let used = match percent {
        Some(p) => " at "@ + p + "%"@,
        None => seq![],
    };
    "Rate limit ("@ + w + ")"@ + used
}

/// The event a sidecar event is passed on as, payload and all; nothing for the others.
pub open spec fn passed_on(e: SidecarEvent) -> Option<Event> {
    match e {
        SidecarEvent::StreamDelta { session_id, text, parent_tool_use_id } => Some(
            Event::SessionStreamDelta { session_id, text, parent_tool_use_id },
        ),
        SidecarEvent::ThinkingDelta { session_id, text, parent_tool_use_id } => Some(
            Event::SessionThinkingDelta { session_id, text, parent_tool_use_id },
        ),
        SidecarEvent::ToolUse { session_id, tool_use_id, name, summary, parent_tool_use_id } =>
        Some(
            Event::SessionToolUse { session_id, tool_use_id, name, summary, parent_tool_use_id },
        ),
        SidecarEvent::ToolResult { session_id, tool_use_id, is_error, text } => Some(
            Event::SessionToolResult { session_id, tool_use_id, is_error, text },
        ),
        SidecarEvent::Agents { session_id, agents } => Some(
            Event::SessionAgents { session_id, agents },
        ),
        SidecarEvent::McpServers { session_id, servers } => Some(
            Event::SessionMcpServers { session_id, servers },
        ),
        SidecarEvent::Todos { session_id, items } => Some(
            Event::SessionTodos { session_id, items },
        ),
        SidecarEvent::Usage { session_id, usage } => Some(
            Event::SessionUsage { session_id, usage },
        ),
        SidecarEvent::PermissionDenied { session_id, tool, reason, message } => Some(
            Event::SessionPermissionDenied { session_id, tool, reason, message },
        ),
        SidecarEvent::Commands { session_id, commands } => Some(
            Event::SessionCommands { session_id, commands },
        ),
        SidecarEvent::Models { session_id, models } => Some(
            Event::SessionModels { session_id, models },
        ),
        _ => None,
    }
}

/// The manager and the effects after an event from the sidecar. `row` is the stored row of
/// the event's session; a gate that opens takes `id` and `now`.
pub open spec fn handled(
    m: ManagerV,
    e: SidecarEvent,
    row: Option<SessionV>,
    id: Seq<char>,
    now: i128,
) -> (ManagerV, Seq<EffectV>) {
    match e {
        SidecarEvent::SessionInit { session_id, sdk_session_id, .. } => (
            m,
            seq![
                EffectV::Attempt(
                    ActionV::Store(
                        StoreWriteV::SetSdkId {
                            session_id: session_id@,
                            sdk_session_id: sdk_session_id@,
                        },
                    ),
                ),
            ],
        ),
        SidecarEvent::Status { session_id, status } => match status_of_text(status@) {
            None => (m, seq![]),
            Some(s) => {
                let m1 = transitioned(m, session_id@, s);
                let f1 = transition_effects(m.runtime, session_id@, s, row);
                if s == SessionStatus::AwaitingInput {
                    // A session that was writing its notes has finished that turn.
                    (
                        without_finalizing(m1, session_id@),
                        f1 + finish_effects_if(
                            m1,
                            session_id@,
                            branch_in(m1.runtime, session_id@),
                        ),
                    )
                } else {
                    (m1, f1)
                }
            },
        },
        SidecarEvent::RateLimit { session_id, limit } => {
            let passed = EffectV::Publish(
                EventV::Carried(Event::SessionRateLimit { session_id, limit }),
            );
            if limit.status@ == "allowed"@ {
                (m, seq![passed])
            } else {
                (
                    m,
                    seq![
                        raised(
                            if limit.status@ == "rejected"@ {
                                Severity::Error
                            } else {
                                Severity::Warning
                            },
                            "rate_limit"@,
                            rate_limit_message(
                                opt_view(limit.limit_type),
                                opt_view(limit.percent),
                            ),
                        ),
                        passed,
                    ],
                )
            }
        },
        SidecarEvent::PermissionRequest { session_id, request_id, tool, args, title } => asked(
            m,
            ToolCallV {
                session_id: session_id@,
                branch: branch_in(m.runtime, session_id@),
                request_id: request_id@,
                tool: tool@,
                args: args@,
                by_check: false,
            },
            id,
            now,
            EffectV::Publish(
                EventV::Carried(
                    Event::SessionPermissionRequest { session_id, request_id, tool, args, title },
                ),
            ),
        ),
        SidecarEvent::GateCheck { session_id, request_id, tool, args } => asked(
            m,
            ToolCallV {
                session_id: session_id@,
                branch: branch_in(m.runtime, session_id@),
                request_id: request_id@,
                tool: tool@,
                args: args@,
                by_check: true,
            },
            id,
            now,
            EffectV::Attempt(
                ActionV::Engine(
                    EngineCallV::RespondGateCheck {
                        request_id: request_id@,
                        decision: "pass"@,
                        updated_args: None,
                        message: None,
                    },
                ),
            ),
        ),
        SidecarEvent::EscalationRequest { session_id, request_id, question } => (
            m,
            seq![
                EffectV::Escalate {
                    session_id: session_id@,
                    request_id: request_id@,
                    question: question@,
                },
            ],
        ),
        SidecarEvent::UserDialogRequest { session_id, request_id, dialog_kind, payload, .. } => (
            ManagerV {
                gates: m.gates,
                runtime: m.runtime,
                dialogs: t_put(
                    m.dialogs,
                    request_id@,
                    DialogV { session_id: session_id@, kind: dialog_kind@ },
                ),
                finalizing: m.finalizing,
            },
            seq![
                EffectV::Publish(
                    EventV::Carried(
                        Event::SessionUserDialog { session_id, request_id, dialog_kind, payload },
                    ),
                ),
            ],
        ),
        SidecarEvent::SessionClosed { session_id, reason } => closed(
            m,
            session_id@,
            reason@,
            row,
        ),
        SidecarEvent::Error { message, .. } => (
            m,
            seq![raised(Severity::Error, "agent"@, message@)],
        ),
        _ => match passed_on(e) {
            Some(event) => (m, seq![EffectV::Publish(event@)]),
            None => (m, seq![]),
        },
    }
}

// ---------------------------------------------------------------------------
// Spawning
// ---------------------------------------------------------------------------

/// What a spawn inherits from the session it resumes.
pub open spec fn inherited(own: Option<Seq<char>>, source: Option<Seq<char>>) -> Option<Seq<char>> {
    match own {
        Some(v) => Some(v),
        None => source,
    }
}

/// Why a resume is refused, if it is.
pub open spec fn resume_error(p: SpawnParamsV, source: Option<SessionV>) -> Option<Seq<char>> {
    match p.resume_from {
        None => None,
        Some(id) => match source {
            None => Some("cannot resume: unknown session "@ + id),
            Some(s) => if s.sdk_session_id is None {
                Some("cannot resume: session has no SDK session id"@)
            } else {
                None
            },
        },
    }
}

/// The params with what they inherit from the resumed session.
pub open spec fn resolved_params(p: SpawnParamsV, source: Option<SessionV>) -> SpawnParamsV {
    match (p.resume_from, source) {
        (Some(_), Some(s)) => SpawnParamsV {
            model: inherited(p.model, s.model),
            effort: inherited(p.effort, s.effort),
            thinking: inherited(p.thinking, s.thinking),
            ..p
        },
        _ => p,
    }
}

/// Whether the request finds the branch's write slot taken.
pub open spec fn writer_conflict(m: ManagerV, p: SpawnParamsV) -> bool {
    writer_mode(p.permission_mode) && slot_taken(m.runtime, p.branch, None)
}

pub open spec fn rejects(policy: Option<Seq<char>>) -> bool {
    policy == Some("reject"@)
}

/// The permission mode that a session really gets.
pub open spec fn effective_mode(m: ManagerV, p: SpawnParamsV) -> Option<Seq<char>> {
    if writer_conflict(m, p) {
        Some("plan"@)
    } else {
        p.permission_mode
    }
}

pub open spec fn spawned_session(
    m: ManagerV,
    p: SpawnParamsV,
    source: Option<SessionV>,
    id: Seq<char>,
    now: i128,
) -> SessionV {
    let q = resolved_params(p, source);
    SessionV {
        id,
        branch: p.branch,
        session_type: p.session_type,
        status: SessionStatus::Spawning,
        model: q.model,
        effort: q.effort,
        permission_mode: effective_mode(m, p),
        thinking: q.thinking,
        tools_profile: p.tools_profile,
        sdk_session_id: None,
        created_at: now,
        updated_at: now,
    }
}

pub open spec fn spawn_request(
    m: ManagerV,
    p: SpawnParamsV,
    source: Option<SessionV>,
    id: Seq<char>,
) -> SpawnRequestV {
    let q = resolved_params(p, source);
    SpawnRequestV {
        session_id: id,
        cwd: p.cwd,
        prompt: p.prompt,
        session_type: type_text(p.session_type),
        model: q.model,
        effort: q.effort,
        permission_mode: effective_mode(m, p),
        thinking: q.thinking,
        tools_profile: p.tools_profile,
        disallowed_tools: p.disallowed_tools,
        resume_id: match (p.resume_from, source) {
            (Some(_), Some(s)) => s.sdk_session_id,
            _ => None,
        },
    }
}

/// What starting a session asks for, in order.
pub open spec fn spawn_effects(
    m: ManagerV,
    p: SpawnParamsV,
    source: Option<SessionV>,
    id: Seq<char>,
    now: i128,
) -> Seq<EffectV> {
    let notice = if writer_conflict(m, p) {
        seq![
            raised(
                Severity::Info,
                "session"@,
                "a writer is already active on "@ + p.branch
                    + " — new session started read-only"@,
            ),
        ]
    } else {
        seq![]
    };
    notice + seq![
        EffectV::Require(
            ActionV::Store(
                StoreWriteV::InsertSession(spawned_session(m, p, source, id, now)),
            ),
        ),
        EffectV::Publish(
            EventV::Status { session_id: id, branch: p.branch, status: SessionStatus::Spawning },
        ),
        EffectV::Require(
            ActionV::Engine(EngineCallV::SpawnSession(spawn_request(m, p, source, id))),
        ),
    ]
}

pub open spec fn spawned(m: ManagerV, p: SpawnParamsV, id: Seq<char>) -> ManagerV {
    with_runtime(
        m,
        t_put(
            m.runtime,
            id,
            RuntimeV {
                branch: p.branch,
                status: SessionStatus::Spawning,
                is_writer: writer_mode(effective_mode(m, p)),
                close_requested: false,
            },
        ),
    )
}

/// Why a spawn is refused, if it is.
pub open spec fn spawn_error(
    m: ManagerV,
    p: SpawnParamsV,
    source: Option<SessionV>,
    policy: Option<Seq<char>>,
) -> Option<Seq<char>> {
    match resume_error(p, source) {
        Some(e) => Some(e),
        None => if writer_conflict(m, p) && rejects(policy) {
            Some("a writer session is already active on "@ + p.branch + " — close it first"@)
        } else {
            None
        },
    }
}

/// A session to start: its row and the work in order.
#[derive(Debug)]
pub struct Spawned {
    pub session: Session,
    pub effects: Vec<Effect>,
}

// ---------------------------------------------------------------------------
// Live settings
// ---------------------------------------------------------------------------

/// Why a session cannot take a request, if it cannot.
pub open spec fn liveness_error(runtime: Seq<(Seq<char>, RuntimeV)>, id: Seq<char>) -> Option<
    Seq<char>,
> {
    match t_get(runtime, id) {
        Some(r) => if terminal(r.status) {
            Some("session is finished: "@ + id)
        } else {
            None
        },
        None => Some("unknown session: "@ + id),
    }
}

pub open spec fn runtime_write(
    id: Seq<char>,
    model: Option<Seq<char>>,
    effort: Option<Seq<char>>,
    mode: Option<Seq<char>>,
    thinking: Option<Seq<char>>,
) -> EffectV {
    EffectV::Require(
        ActionV::Store(
            StoreWriteV::SetRuntime {
                session_id: id,
                model,
                effort,
                permission_mode: mode,
                thinking,
            },
        ),
    )
}

pub open spec fn settings_event(
    id: Seq<char>,
    model: Option<Seq<char>>,
    effort: Option<Seq<char>>,
    mode: Option<Seq<char>>,
    thinking: Option<Seq<char>>,
) -> EffectV {
    EffectV::Publish(
        EventV::SettingsChanged {
            session_id: id,
            model,
            effort,
            permission_mode: mode,
            thinking,
        },
    )
}

/// Why a permission mode cannot be set, if it cannot.
pub open spec fn mode_error(m: ManagerV, id: Seq<char>, mode: Seq<char>) -> Option<Seq<char>> {
    if !known_permission_mode(mode) {
        Some(
            "unknown permission mode \""@ + mode
                + "\" — expected one of: default, acceptEdits, auto, plan"@,
        )
    } else {
        match liveness_error(m.runtime, id) {
            Some(e) => Some(e),
            None => if writer_mode(Some(mode)) && slot_taken(
                m.runtime,
                branch_in(m.runtime, id),
                Some(id),
            ) {
                Some(
                    "another writer session is active on "@ + branch_in(m.runtime, id)
                        + " — close it first"@,
                )
            } else {
                None
            },
        }
    }
}

pub open spec fn mode_effects(id: Seq<char>, mode: Seq<char>) -> Seq<EffectV> {
    seq![
        EffectV::Require(
            ActionV::Engine(EngineCallV::SetPermissionMode { session_id: id, mode }),
        ),
        runtime_write(id, None, None, Some(mode), None),
    ]
}

/// The manager after a live session took on a permission mode.
pub open spec fn mode_set(m: ManagerV, id: Seq<char>, mode: Seq<char>) -> ManagerV {
    match t_get(m.runtime, id) {
        Some(r) => with_runtime(
            m,
            t_put(
                m.runtime,
                id,
                RuntimeV {
                    branch: r.branch,
                    status: r.status,
                    is_writer: writer_mode(Some(mode)),
                    close_requested: r.close_requested,
                },
            ),
        ),
        None => m,
    }
}

/// Whether a dialog's result approves a plan.
pub open spec fn approves_plan(result: Option<JsonV>) -> bool {
    match result {
        Some(v) => bool_in(member(v, "approved"@)) == Some(true),
        None => false,
    }
}

/// The session that an answer to a dialog turns into a writer, if it does.
pub open spec fn dialog_claims(m: ManagerV, request_id: Seq<char>, result: Option<JsonV>) -> Option<
    Seq<char>,
> {
    match t_get(m.dialogs, request_id) {
        Some(d) => if d.kind == "plan_approval"@ && approves_plan(result) {
            Some(d.session_id)
        } else {
            None
        },
        None => None,
    }
}

fn plan_approved(result: &Option<Json>) -> (b: bool)
    ensures
        b == approves_plan(opt_json_view(*result)),
{
    match result {
        Some(v) => match v.get("approved") {
            Some(a) => match a.as_bool() {
                Some(b) => b,
                None => false,
            },
            None => false,
        },
        None => false,
    }
}

fn invalid(message: String) -> (e: MaestroError)
    ensures
        is_invalid_data(e, message@),
{
    MaestroError::InvalidData { message }
}

fn copy_session(s: &Session) -> (r: Session)
    ensures
        r@ == s@,
{
    Session {
        id: text_of(s.id.as_str()),
        branch: text_of(s.branch.as_str()),
        session_type: s.session_type,
        status: s.status,
        model: opt_text(&s.model),
        effort: opt_text(&s.effort),
        permission_mode: opt_text(&s.permission_mode),
        thinking: opt_text(&s.thinking),
        tools_profile: opt_text(&s.tools_profile),
        sdk_session_id: opt_text(&s.sdk_session_id),
        created_at: s.created_at,
        updated_at: s.updated_at,
    }
}

/// What `{:?}` writes for an exit code.
pub open spec fn exit_code_text(code: Option<i32>) -> Seq<char> {
    match code {
        None => "None"@,
        Some(c) => if c < 0 {
            "Some(-"@ + decimal((-c) as nat) + ")"@
        } else {
            "Some("@ + decimal(c as nat) + ")"@
        },
    }
}

fn show_exit_code(code: Option<i32>) -> (r: String)
    ensures
        r@ == exit_code_text(code),
{
    match code {
        None => text_of("None"),
        Some(c) => {
            if c < 0 {
                let n: u64 = (-(c as i64)) as u64;
                text_of("Some(-").concat(decimal_text(n).as_str()).concat(")")
            } else {
                text_of("Some(").concat(decimal_text(c as u64).as_str()).concat(")")
            }
        },
    }
}

/// The manager after the gates of all these sessions were cancelled.
pub open spec fn all_gates_cancelled(g: Option<GatesV>, ids: Seq<Seq<char>>) -> Option<GatesV>
    decreases ids.len(),
{
    if ids.len() == 0 {
        g
    } else {
        cancel_gates(all_gates_cancelled(g, ids.drop_last()), ids.last())
    }
}

pub open spec fn all_cancel_events(
    g: Option<GatesV>,
    ids: Seq<Seq<char>>,
    reason: Seq<char>,
) -> Seq<EventV>
    decreases ids.len(),
{
    if ids.len() == 0 {
        seq![]
    } else {
        all_cancel_events(g, ids.drop_last(), reason) + cancel_events(
            all_gates_cancelled(g, ids.drop_last()),
            ids.last(),
            reason,
        )
    }
}

/// The live sessions after all of `ids` failed.
pub open spec fn all_failed(runtime: Seq<(Seq<char>, RuntimeV)>, ids: Seq<Seq<char>>) -> Seq<
    (Seq<char>, RuntimeV),
>
    decreases ids.len(),
{
    if ids.len() == 0 {
        runtime
    } else {
        runtime_after(
            all_failed(runtime, ids.drop_last()),
            ids.last(),
            SessionStatus::Failed,
        )
    }
}

pub open spec fn all_failed_effects(
    runtime: Seq<(Seq<char>, RuntimeV)>,
    ids: Seq<Seq<char>>,
) -> Seq<EffectV>
    decreases ids.len(),
{
    if ids.len() == 0 {
        seq![]
    } else {
        all_failed_effects(runtime, ids.drop_last()) + transition_effects(
            all_failed(runtime, ids.drop_last()),
            ids.last(),
            SessionStatus::Failed,
            None,
        )
    }
}

pub open spec fn crash_message(code: Option<i32>) -> Seq<char> {
    "agent sidecar crashed (exit code "@ + exit_code_text(code) + "); sessions failed"@
}

/// The manager and the effects after the sidecar crashed.
pub open spec fn crashed(m: ManagerV, code: Option<i32>) -> (ManagerV, Seq<EffectV>) {
    let ids = t_keys(m.runtime);
    (
        ManagerV {
            gates: all_gates_cancelled(m.gates, ids),
            runtime: all_failed(m.runtime, ids),
            dialogs: m.dialogs,
            finalizing: m.finalizing,
        },
        published(all_cancel_events(m.gates, ids, "sidecar crashed"@)) + seq![
            raised(Severity::Error, "agent"@, crash_message(code)),
        ] + all_failed_effects(m.runtime, ids),
    )
}

pub open spec fn session_views(rows: Seq<Session>) -> Seq<SessionV> {
    rows.map_values(|s: Session| s@)
}

/// The manager and the effects after the stored rows of sessions that cannot be alive any
/// more were failed.
pub open spec fn swept(m: ManagerV, rows: Seq<SessionV>, reason: Seq<char>) -> (
    ManagerV,
    Seq<EffectV>,
)
    decreases rows.len(),
{
    if rows.len() == 0 {
        (m, seq![])
    } else {
        let (m1, f1) = swept(m, rows.drop_last(), reason);
        let row = rows.last();
        let m2 = ManagerV {
            gates: cancel_gates(m1.gates, row.id),
            runtime: m1.runtime,
            dialogs: m1.dialogs,
            finalizing: m1.finalizing,
        };
        (
            transitioned(m2, row.id, SessionStatus::Failed),
            f1 + published(cancel_events(m1.gates, row.id, reason)) + transition_effects(
                m2.runtime,
                row.id,
                SessionStatus::Failed,
                Some(row),
            ),
        )
    }
}

/// What is not expired is part of what there was, in its order, keys unique.
proof fn lemma_unexpired(fs: Seq<(Seq<char>, i128)>, now: i128)
    requires
        t_unique(fs),
    ensures
        t_unique(unexpired(fs, now)),
        forall|i: int|
            0 <= i < unexpired(fs, now).len() ==> fs.contains(#[trigger] unexpired(fs, now)[i]),
    decreases fs.len(),
{
    if fs.len() > 0 {
        let r = fs.drop_last();
        assert forall|a: int, b: int| 0 <= a < b < r.len() implies (#[trigger] r[a]).0 != (
        #[trigger] r[b]).0 by {
            assert(fs[a].0 != fs[b].0);
        }
        lemma_unexpired(r, now);
        let d = unexpired(r, now);
        let t = unexpired(fs, now);
        assert(fs[fs.len() - 1] == fs.last());
        assert forall|i: int| 0 <= i < d.len() implies fs.contains(#[trigger] d[i]) && d[i].0
            != fs.last().0 by {
            let j = choose|j: int| 0 <= j < r.len() && r[j] == d[i];
            assert(fs[j] == d[i]);
            assert(fs[j].0 != fs[fs.len() - 1].0);
        }
        if fs.last().1 > now {
            assert forall|i: int| 0 <= i < t.len() implies fs.contains(#[trigger] t[i]) by {
                if i < d.len() {
                    assert(t[i] == d[i]);
                }
            }
            assert forall|a: int, b: int| 0 <= a < b < t.len() implies (#[trigger] t[a]).0 != (
            #[trigger] t[b]).0 by {
                assert(t[a] == d[a]);
                if b < d.len() {
                    assert(t[b] == d[b]);
                }
            }
        }
    }
}

impl<R: GateRule> SessionManager<R> {
    pub open spec fn wf(self) -> bool {
        &&& self.runtime.wf()
        &&& self.dialogs.wf()
        &&& self.finalizing.wf()
        &&& (self.gates matches Some(g) ==> g.wf())
    }

    /// A manager without live sessions.
    pub fn with_gates(gates: Option<GateManager<R>>) -> (m: Self)
        requires
            gates matches Some(g) ==> g.wf(),
        ensures
            m.wf(),
            m@.runtime == Seq::<(Seq<char>, RuntimeV)>::empty(),
            m@.dialogs == Seq::<(Seq<char>, DialogV)>::empty(),
            m@.finalizing == Seq::<(Seq<char>, i128)>::empty(),
            m.gates == gates,
    {
        SessionManager {
            gates,
            runtime: Table::new(),
            dialogs: Table::new(),
            finalizing: Table::new(),
        }
    }

    pub fn new() -> (m: Self)
        ensures
            m.wf(),
            m@.runtime == Seq::<(Seq<char>, RuntimeV)>::empty(),
            m.gates is None,
    {
        SessionManager::with_gates(None)
    }

    /// The runtime entry of a session, copied.
    fn entry(&self, session_id: &str) -> (r: Option<RuntimeSession>)
        requires
            self.wf(),
        ensures
            match r {
                Some(e) => t_get(self@.runtime, session_id@) == Some(e@),
                None => t_get(self@.runtime, session_id@) is None,
            },
    {
        match self.runtime.get(session_id) {
            Some(e) => Some(
                RuntimeSession {
                    branch: text_of(e.branch.as_str()),
                    status: e.status,
                    is_writer: e.is_writer,
                    close_requested: e.close_requested,
                },
            ),
            None => None,
        }
    }

    fn branch_of(&self, session_id: &str) -> (r: String)
        requires
            self.wf(),
        ensures
            r@ == branch_in(self@.runtime, session_id@),
    {
        match self.runtime.get(session_id) {
            Some(e) => text_of(e.branch.as_str()),
            None => String::new(),
        }
    }

    /// Apply a validated state-machine transition: what is to be persisted and published
    /// goes behind `out`.
    fn transition(
        &mut self,
        session_id: &str,
        next: SessionStatus,
        row: Option<&Session>,
        out: &mut Vec<Effect>,
    )
        requires
            old(self).wf(),
        ensures
            final(self).wf(),
            final(self)@ == transitioned(old(self)@, session_id@, next),
            effect_views(final(out)@) == effect_views(old(out)@) + transition_effects(
                old(self)@.runtime,
                session_id@,
                next,
                opt_session_view(row),
            ),
    {
        let ghost before = effect_views(out@);
        assert(before + Seq::<EffectV>::empty() =~= before);
        let branch: String = match self.entry(session_id) {
            Some(entry) => {
                if !entry.status.can_transition_to(next) {
                    return;
                }
                let branch: String = text_of(entry.branch.as_str());
                if next.is_terminal() {
                    self.runtime.remove(session_id);
                } else {
                    self.runtime.insert(session_id, RuntimeSession { status: next, ..entry });
                }
                branch
            },
            None => match row {
                Some(session) => {
                    if !session.status.can_transition_to(next) {
                        return;
                    }
                    text_of(session.branch.as_str())
                },
                None => {
                    return;
                },
            },
        };
        push_effect(
            out,
            Effect::Attempt(
                Action::Store(
                    StoreWrite::UpdateStatus { session_id: text_of(session_id), status: next },
                ),
            ),
        );
        push_effect(
            out,
            Effect::Publish(
                Event::SessionStatusChanged {
                    session_id: text_of(session_id),
                    branch: text_of(branch.as_str()),
                    status: next,
                },
            ),
        );
        assert(effect_views(out@) =~= before + status_effects(session_id@, branch@, next));
    }

    /// The finalize turn ended (or ran out of time): close for real, and let the notes
    /// panel know there may be something new to read.
    fn finish_finalize(&mut self, session_id: &str, branch: &str, out: &mut Vec<Effect>)
        requires
            old(self).wf(),
        ensures
            final(self).wf(),
            final(self)@ == without_finalizing(old(self)@, session_id@),
            effect_views(final(out)@) == effect_views(old(out)@) + finish_effects_if(
                old(self)@,
                session_id@,
                branch@,
            ),
    {
        let ghost before = effect_views(out@);
        assert(before + Seq::<EffectV>::empty() =~= before);
        match self.finalizing.remove(session_id) {
            Some(_) => {
                push_effect(out, Effect::Publish(Event::NotesUpdated { branch: text_of(branch) }));
                push_effect(
                    out,
                    Effect::Attempt(
                        Action::Engine(
                            EngineCall::CloseSession { session_id: text_of(session_id) },
                        ),
                    ),
                );
                assert(effect_views(out@) =~= before + finish_effects(session_id@, branch@));
            },
            None => {},
        }
    }

    /// Deadline sweep for finalize turns that never end. Called after every engine signal,
    /// so no timer is needed: a stuck session is closed on the next event.
    pub fn sweep_finalize_deadlines(&mut self, now: i128) -> (r: Vec<Effect>)
        requires
            old(self).wf(),
        ensures
            final(self).wf(),
            final(self)@ == (ManagerV {
                gates: old(self)@.gates,
                runtime: old(self)@.runtime,
                dialogs: old(self)@.dialogs,
                finalizing: unexpired(old(self)@.finalizing, now),
            }),
            effect_views(r@) == expiry_effects(
                old(self)@.finalizing,
                old(self)@.runtime,
                now,
            ),
    {
        let ghost fs = self.finalizing@;
        let ghost rt = self.runtime@;
        let ghost start = self@;
        let mut rest: Table<i128> = Table::new();
        std::mem::swap(&mut self.finalizing, &mut rest);
        let mut out: Vec<Effect> = Vec::new();
        let ghost mut n: int = 0;
        assert(fs.take(0) =~= seq![]);
        assert(effect_views(out@) =~= seq![]);
        assert(self.finalizing@ =~= seq![]);
        while rest.entries.len() > 0
            invariant
                0 <= n <= fs.len(),
                t_unique(fs),
                self.runtime.wf(),
                self.dialogs.wf(),
                self.gates matches Some(g) ==> g.wf(),
                self@.gates == start.gates,
                self@.runtime == rt,
                self@.dialogs == start.dialogs,
                rest@ == fs.subrange(n, fs.len() as int),
                self.finalizing@ == unexpired(fs.take(n), now),
                self.finalizing.wf(),
                effect_views(out@) == expiry_effects(fs.take(n), rt, now),
            decreases rest.entries@.len(),
        {
            let ghost before = rest@;
            assert(before.len() == rest.entries@.len());
            let e: crate::table::Entry<i128> = rest.entries.remove(0);
            assert(before[0] == (e.key@, e.value@));
            assert(rest@ =~= before.subrange(1, before.len() as int));
            assert(before.subrange(1, before.len() as int) =~= fs.subrange(
                n + 1,
                fs.len() as int,
            ));
            assert(fs.take(n + 1).drop_last() =~= fs.take(n));
            assert(fs.take(n + 1).last() == (e.key@, e.value@));
            if e.value <= now {
                let ghost done = effect_views(out@);
                let branch: String = match self.runtime.get(e.key.as_str()) {
                    Some(r) => text_of(r.branch.as_str()),
                    None => String::new(),
                };
                push_effect(
                    &mut out,
                    Effect::Publish(Event::NotesUpdated { branch: text_of(branch.as_str()) }),
                );
                let ghost id = e.key@;
                push_effect(
                    &mut out,
                    Effect::Attempt(
                        Action::Engine(EngineCall::CloseSession { session_id: e.key }),
                    ),
                );
                assert(effect_views(out@) =~= done + finish_effects(id, branch@));
            } else {
                let ghost kept = self.finalizing@;
                self.finalizing.entries.push(e);
                assert(self.finalizing@ =~= kept.push((e.key@, e.value@)));
                proof {
                    let part = fs.take(n + 1);
                    assert forall|a: int, b: int| 0 <= a < b < part.len() implies (
                    #[trigger] part[a]).0 != (#[trigger] part[b]).0 by {
                        assert(fs[a].0 != fs[b].0);
                    }
                    lemma_unexpired(part, now);
                }
            }
            proof {
                n = n + 1;
            }
        }
        assert(rest@.len() == 0);
        assert(fs.take(n) =~= fs);
        out
    }
}

impl SessionManager {
    /// What every spawn begins with, one that is then refused too: the branch's row is
    /// upserted, so that sessions on branches created elsewhere (e.g. the primary worktree)
    /// find it.
    pub fn branch_row(branch: &str) -> (r: Effect)
        ensures
            r@ == EffectV::Require(ActionV::Store(StoreWriteV::UpsertBranch { branch: branch@ })),
    {
        Effect::Require(Action::Store(StoreWrite::UpsertBranch { branch: text_of(branch) }))
    }
}

impl<R: GateRule> SessionManager<R> {
    /// Spawn a new session bound to a branch, with the stamp's id and time; its branch has
    /// its row (see [`SessionManager::branch_row`]). `source` is the stored row of the
    /// session to resume, `policy` the `single_writer_policy` setting.
    ///
    /// **Single-writer rule**: at most one live session with write permissions per branch.
    /// A second writer request is downgraded to read-only or rejected, depending on the
    /// policy. On success the session is live; where one of the effects then fails,
    /// [`SessionManager::spawn_failed`] ends it.
    pub fn spawn(
        &mut self,
        params: SpawnParams,
        source: Option<&Session>,
        policy: Option<&str>,
        stamp: &Stamp,
    ) -> (r: Result<Spawned, MaestroError>)
        requires
            old(self).wf(),
        ensures
            final(self).wf(),
            ({
                let policy = match policy {
                    Some(p) => Some(p@),
                    None => None,
                };
                let source = opt_session_view(source);
                match spawn_error(old(self)@, params@, source, policy) {
                    Some(message) => final(self)@ == old(self)@ && (r matches Err(e)
                        && is_invalid_data(e, message)),
                    None => final(self)@ == spawned(old(self)@, params@, stamp.id@) && (
                    r matches Ok(s) && s.session@ == spawned_session(
                        old(self)@,
                        params@,
                        source,
                        stamp.id@,
                        stamp.now,
                    ) && effect_views(s.effects@) == spawn_effects(
                        old(self)@,
                        params@,
                        source,
                        stamp.id@,
                        stamp.now,
                    )),
                }
            }),
    {
        let ghost m = self@;
        let ghost p = params@;
        let ghost src = opt_session_view(source);
        let mut params: SpawnParams = params;
        let mut effects: Vec<Effect> = Vec::new();
        assert(effect_views(effects@) =~= seq![]);
        // Resolve resume before anything else: inherit context from the old session.
        let mut resume_id: Option<String> = None;
        match &params.resume_from {
            Some(source_id) => {
                let s: &Session = match source {
                    Some(s) => s,
                    None => return Err(
                        invalid(
                            text_of("cannot resume: unknown session ").concat(source_id.as_str()),
                        ),
                    ),
                };
                match &s.sdk_session_id {
                    Some(sdk) => {
                        resume_id = Some(text_of(sdk.as_str()));
                    },
                    None => return Err(
                        invalid(text_of("cannot resume: session has no SDK session id")),
                    ),
                }
                if params.model.is_none() {
                    params.model = opt_text(&s.model);
                }
                if params.effort.is_none() {
                    params.effort = opt_text(&s.effort);
                }
                if params.thinking.is_none() {
                    params.thinking = opt_text(&s.thinking);
                }
            },
            None => {},
        }
        let ghost q = resolved_params(p, src);
        assert(params@ =~= q);
        // Single-writer enforcement.
        let mut permission_mode: Option<String> = opt_text(&params.permission_mode);
        let wants: bool = match &params.permission_mode {
            Some(mode) => is_writer_mode(Some(mode.as_str())),
            None => is_writer_mode(None),
        };
        if wants && self.branch_has_writer(params.branch.as_str(), None) {
            let reject: bool = match policy {
                Some(p) => same_text(p, "reject"),
                None => false,
            };
            if reject {
                return Err(
                    invalid(
                        text_of("a writer session is already active on ").concat(
                            params.branch.as_str(),
                        ).concat(" — close it first"),
                    ),
                );
            }
            permission_mode = Some(text_of("plan"));
            push_effect(
                &mut effects,
                Effect::Publish(
                    Event::ErrorRaised {
                        severity: Severity::Info,
                        code: text_of("session"),
                        message: text_of("a writer is already active on ").concat(
                            params.branch.as_str(),
                        ).concat(" — new session started read-only"),
                    },
                ),
            );
        }
        assert(opt_view(permission_mode) == effective_mode(m, p));
        let ghost head = effect_views(effects@);
        let mut session: Session = Session::with_id(
            text_of(stamp.id.as_str()),
            stamp.now,
            params.branch.as_str(),
            params.session_type,
            opt_text(&params.model),
            opt_text(&params.effort),
            opt_text(&permission_mode),
        );
        session.thinking = opt_text(&params.thinking);
        session.tools_profile = opt_text(&params.tools_profile);
        assert(session@ =~= spawned_session(m, p, src, stamp.id@, stamp.now));
        let writer: bool = session.is_writer();
        self.runtime.insert(
            stamp.id.as_str(),
            RuntimeSession {
                branch: text_of(params.branch.as_str()),
                status: SessionStatus::Spawning,
                is_writer: writer,
                close_requested: false,
            },
        );
        push_effect(
            &mut effects,
            Effect::Require(Action::Store(StoreWrite::InsertSession(copy_session(&session)))),
        );
        push_effect(
            &mut effects,
            Effect::Publish(
                Event::SessionStatusChanged {
                    session_id: text_of(stamp.id.as_str()),
                    branch: text_of(params.branch.as_str()),
                    status: SessionStatus::Spawning,
                },
            ),
        );
        let request: SpawnSessionRequest = SpawnSessionRequest {
            session_id: text_of(stamp.id.as_str()),
            cwd: params.cwd,
            prompt: params.prompt,
            session_type: text_of(params.session_type.as_str()),
            model: params.model,
            effort: params.effort,
            permission_mode,
            thinking: params.thinking,
            tools_profile: params.tools_profile,
            disallowed_tools: params.disallowed_tools,
            resume_id,
        };
        assert(request@ =~= spawn_request(m, p, src, stamp.id@));
        push_effect(
            &mut effects,
            Effect::Require(Action::Engine(EngineCall::SpawnSession(request))),
        );
        assert(effect_views(effects@) =~= spawn_effects(m, p, src, stamp.id@, stamp.now));
        Ok(Spawned { session, effects })
    }

    /// The engine did not take the session: it failed before it began. Where its row was
    /// not stored either, there is nothing to tell of it.
    pub fn spawn_failed(&mut self, session_id: &str) -> (r: Vec<Effect>)
        requires
            old(self).wf(),
        ensures
            final(self).wf(),
            final(self)@ == transitioned(old(self)@, session_id@, SessionStatus::Failed),
            effect_views(r@) == transition_effects(
                old(self)@.runtime,
                session_id@,
                SessionStatus::Failed,
                None,
            ),
    {
        let mut out: Vec<Effect> = Vec::new();
        assert(effect_views(out@) =~= seq![]);
        self.transition(session_id, SessionStatus::Failed, None, &mut out);
        assert(effect_views(out@) =~= transition_effects(
            old(self)@.runtime,
            session_id@,
            SessionStatus::Failed,
            None,
        ));
        out
    }

    /// Is a live writer session other than `except` currently bound to `branch`?
    pub fn branch_has_writer(&self, branch: &str, except: Option<&str>) -> (b: bool)
        ensures
            b == slot_taken(
                self@.runtime,
                branch@,
                match except {
                    Some(e) => Some(e@),
                    None => None,
                },
            ),
    {
        let ghost ex = match except {
            Some(e) => Some(e@),
            None => None,
        };
        let mut i: usize = 0;
        while i < self.runtime.entries.len()
            invariant
                i <= self.runtime.entries@.len(),
                ex == (match except {
                    Some(e) => Some(e@),
                    None => None,
                }),
                forall|k: int|
                    0 <= k < i ==> !(Some((#[trigger] self@.runtime[k]).0) != ex && holds_slot(
                        self@.runtime[k].1,
                        branch@,
                    )),
            decreases self.runtime.entries@.len() - i,
        {
            let e: &crate::table::Entry<RuntimeSession> = &self.runtime.entries[i];
            assert(self@.runtime[i as int] == (e.key@, e.value@));
            let excepted: bool = match except {
                Some(x) => same_text(x, e.key.as_str()),
                None => false,
            };
            if !excepted && same_text(e.value.branch.as_str(), branch) && e.value.is_writer
                && !e.value.status.is_terminal() {
                return true;
            }
            i += 1;
        }
        false
    }

    fn ensure_live(&self, session_id: &str) -> (r: Result<(), MaestroError>)
        requires
            self.wf(),
        ensures
            match liveness_error(self@.runtime, session_id@) {
                Some(message) => r matches Err(e) && is_invalid_data(e, message),
                None => r is Ok,
            },
    {
        match self.runtime.get(session_id) {
            Some(entry) => {
                if entry.status.is_terminal() {
                    Err(invalid(text_of("session is finished: ").concat(session_id)))
                } else {
                    Ok(())
                }
            },
            None => Err(invalid(text_of("unknown session: ").concat(session_id))),
        }
    }

    /// Send a prompt to a live session.
    pub fn send(&self, session_id: &str, prompt: &str, attachments: Vec<Attachment>) -> (r: Result<
        Effect,
        MaestroError,
    >)
        requires
            self.wf(),
        ensures
            match liveness_error(self@.runtime, session_id@) {
                Some(message) => r matches Err(e) && is_invalid_data(e, message),
                None => r matches Ok(f) && f@ == EffectV::Require(
                    ActionV::Engine(
                        EngineCallV::SendPrompt {
                            session_id: session_id@,
                            prompt: prompt@,
                            attachments: attachments@,
                        },
                    ),
                ),
            },
    {
        match self.ensure_live(session_id) {
            Err(e) => Err(e),
            Ok(_) => Ok(
                Effect::Require(
                    Action::Engine(
                        EngineCall::SendPrompt {
                            session_id: text_of(session_id),
                            prompt: text_of(prompt),
                            attachments,
                        },
                    ),
                ),
            ),
        }
    }

    /// Interrupt the turn of a live session.
    pub fn interrupt(&self, session_id: &str) -> (r: Result<Effect, MaestroError>)
        requires
            self.wf(),
        ensures
            match liveness_error(self@.runtime, session_id@) {
                Some(message) => r matches Err(e) && is_invalid_data(e, message),
                None => r matches Ok(f) && f@ == EffectV::Require(
                    ActionV::Engine(EngineCallV::Interrupt { session_id: session_id@ }),
                ),
            },
    {
        match self.ensure_live(session_id) {
            Err(e) => Err(e),
            Ok(_) => Ok(
                Effect::Require(
                    Action::Engine(EngineCall::Interrupt { session_id: text_of(session_id) }),
                ),
            ),
        }
    }

    /// Delete a **finished** session (list cleanup). Deleting an active session is
    /// rejected; deleting one that is already gone does nothing. `row` is its stored row.
    pub fn delete(&self, session_id: &str, row: Option<&Session>) -> (r: Result<
        Option<Effect>,
        MaestroError,
    >)
        ensures
            match opt_session_view(row) {
                None => r matches Ok(f) && f is None,
                Some(s) => if terminal(s.status) {
                    r matches Ok(Some(f)) && f@ == EffectV::Require(
                        ActionV::Store(StoreWriteV::DeleteSession { session_id: session_id@ }),
                    )
                } else {
                    r matches Err(e) && is_invalid_data(
                        e,
                        "session is still active — close it before removing"@,
                    )
                },
            },
    {
        match row {
            None => Ok(None),
            Some(s) => {
                if s.status.is_terminal() {
                    Ok(
                        Some(
                            Effect::Require(
                                Action::Store(
                                    StoreWrite::DeleteSession { session_id: text_of(session_id) },
                                ),
                            ),
                        ),
                    )
                } else {
                    Err(invalid(text_of("session is still active — close it before removing")))
                }
            },
        }
    }

    /// The effects that change a setting of a live session: the engine first, then the
    /// stored row, then the announcement.
    fn setting_effects(
        &self,
        session_id: &str,
        call: EngineCall,
        model: Option<&str>,
        effort: Option<&str>,
        thinking: Option<&str>,
    ) -> (r: Result<Vec<Effect>, MaestroError>)
        requires
            self.wf(),
        ensures
            ({
                let m = match model {
                    Some(s) => Some(s@),
                    None => None,
                };
                let f = match effort {
                    Some(s) => Some(s@),
                    None => None,
                };
                let t = match thinking {
                    Some(s) => Some(s@),
                    None => None,
                };
                match liveness_error(self@.runtime, session_id@) {
                    Some(message) => r matches Err(e) && is_invalid_data(e, message),
                    None => r matches Ok(v) && effect_views(v@) == seq![
                        EffectV::Require(ActionV::Engine(call@)),
                        runtime_write(session_id@, m, f, None, t),
                        settings_event(session_id@, m, f, None, t),
                    ],
                }
            }),
    {
        match self.ensure_live(session_id) {
            Err(e) => return Err(e),
            Ok(_) => {},
        }
        let mut v: Vec<Effect> = Vec::new();
        assert(effect_views(v@) =~= seq![]);
        push_effect(&mut v, Effect::Require(Action::Engine(call)));
        push_effect(
            &mut v,
            Effect::Require(
                Action::Store(
                    StoreWrite::SetRuntime {
                        session_id: text_of(session_id),
                        model: opt_str(model),
                        effort: opt_str(effort),
                        permission_mode: None,
                        thinking: opt_str(thinking),
                    },
                ),
            ),
        );
        push_effect(
            &mut v,
            Effect::Publish(
                Event::SessionSettingsChanged {
                    session_id: text_of(session_id),
                    model: opt_str(model),
                    effort: opt_str(effort),
                    permission_mode: None,
                    thinking: opt_str(thinking),
                },
            ),
        );
        assert(effect_views(v@) =~= seq![
            effect_views(v@)[0],
            effect_views(v@)[1],
            effect_views(v@)[2],
        ]);
        Ok(v)
    }

    /// Change the model of a live session and persist it. An empty string clears the
    /// override.
    pub fn set_model(&self, session_id: &str, model: &str) -> (r: Result<
        Vec<Effect>,
        MaestroError,
    >)
        requires
            self.wf(),
        ensures
            match liveness_error(self@.runtime, session_id@) {
                Some(message) => r matches Err(e) && is_invalid_data(e, message),
                None => r matches Ok(v) && effect_views(v@) == seq![
                    EffectV::Require(
                        ActionV::Engine(
                            EngineCallV::SetModel { session_id: session_id@, model: model@ },
                        ),
                    ),
                    runtime_write(session_id@, Some(model@), None, None, None),
                    settings_event(session_id@, Some(model@), None, None, None),
                ],
            },
    {
        self.setting_effects(
            session_id,
            EngineCall::SetModel { session_id: text_of(session_id), model: text_of(model) },
            Some(model),
            None,
            None,
        )
    }

    /// Change the effort of a live session; an empty string clears the override.
    pub fn set_effort(&self, session_id: &str, effort: &str) -> (r: Result<
        Vec<Effect>,
        MaestroError,
    >)
        requires
            self.wf(),
        ensures
            if !known_effort(effort@) {
                r matches Err(e) && is_invalid_data(
                    e,
                    "unknown effort \""@ + effort@
                        + "\" — expected one of: low, medium, high, xhigh, max"@,
                )
            } else {
                match liveness_error(self@.runtime, session_id@) {
                    Some(message) => r matches Err(e) && is_invalid_data(e, message),
                    None => r matches Ok(v) && effect_views(v@) == seq![
                        EffectV::Require(
                            ActionV::Engine(
                                EngineCallV::SetEffort {
                                    session_id: session_id@,
                                    effort: effort@,
                                },
                            ),
                        ),
                        runtime_write(session_id@, None, Some(effort@), None, None),
                        settings_event(session_id@, None, Some(effort@), None, None),
                    ],
                }
            },
    {
        if !is_known_effort(effort) {
            return Err(
                invalid(
                    text_of("unknown effort \"").concat(effort).concat(
                        "\" — expected one of: low, medium, high, xhigh, max",
                    ),
                ),
            );
        }
        self.setting_effects(
            session_id,
            EngineCall::SetEffort { session_id: text_of(session_id), effort: text_of(effort) },
            None,
            Some(effort),
            None,
        )
    }

    /// Change how much the model may think.
    pub fn set_thinking(&self, session_id: &str, thinking: &str) -> (r: Result<
        Vec<Effect>,
        MaestroError,
    >)
        requires
            self.wf(),
        ensures
            if !known_thinking(thinking@) {
                r matches Err(e) && is_invalid_data(
                    e,
                    "unknown thinking setting \""@ + thinking@
                        + "\" — expected one of: default, off, 4000, 16000, 32000"@,
                )
            } else {
                match liveness_error(self@.runtime, session_id@) {
                    Some(message) => r matches Err(e) && is_invalid_data(e, message),
                    None => r matches Ok(v) && effect_views(v@) == seq![
                        EffectV::Require(
                            ActionV::Engine(
                                EngineCallV::SetThinking {
                                    session_id: session_id@,
                                    thinking: thinking@,
                                },
                            ),
                        ),
                        runtime_write(session_id@, None, None, None, Some(thinking@)),
                        settings_event(session_id@, None, None, None, Some(thinking@)),
                    ],
                }
            },
    {
        if !is_known_thinking(thinking) {
            return Err(
                invalid(
                    text_of("unknown thinking setting \"").concat(thinking).concat(
                        "\" — expected one of: default, off, 4000, 16000, 32000",
                    ),
                ),
            );
        }
        self.setting_effects(
            session_id,
            EngineCall::SetThinking {
                session_id: text_of(session_id),
                thinking: text_of(thinking),
            },
            None,
            None,
            Some(thinking),
        )
    }

    /// Change the permission mode of a live session. Switching to a writer mode respects
    /// the branch's single writer. Once the effects are done,
    /// [`SessionManager::permission_mode_set`] records the change.
    pub fn set_permission_mode(&self, session_id: &str, mode: &str) -> (r: Result<
        Vec<Effect>,
        MaestroError,
    >)
        requires
            self.wf(),
        ensures
            match mode_error(self@, session_id@, mode@) {
                Some(message) => r matches Err(e) && is_invalid_data(e, message),
                None => r matches Ok(v) && effect_views(v@) == mode_effects(session_id@, mode@),
            },
    {
        if !is_known_permission_mode(mode) {
            return Err(
                invalid(
                    text_of("unknown permission mode \"").concat(mode).concat(
                        "\" — expected one of: default, acceptEdits, auto, plan",
                    ),
                ),
            );
        }
        match self.ensure_live(session_id) {
            Err(e) => return Err(e),
            Ok(_) => {},
        }
        let branch: String = self.branch_of(session_id);
        if is_writer_mode(Some(mode)) && self.branch_has_writer(branch.as_str(), Some(session_id)) {
            return Err(
                invalid(
                    text_of("another writer session is active on ").concat(branch.as_str()).concat(
                        " — close it first",
                    ),
                ),
            );
        }
        let mut v: Vec<Effect> = Vec::new();
        assert(effect_views(v@) =~= seq![]);
        push_effect(
            &mut v,
            Effect::Require(
                Action::Engine(
                    EngineCall::SetPermissionMode {
                        session_id: text_of(session_id),
                        mode: text_of(mode),
                    },
                ),
            ),
        );
        push_effect(
            &mut v,
            Effect::Require(
                Action::Store(
                    StoreWrite::SetRuntime {
                        session_id: text_of(session_id),
                        model: None,
                        effort: None,
                        permission_mode: Some(text_of(mode)),
                        thinking: None,
                    },
                ),
            ),
        );
        assert(effect_views(v@) =~= mode_effects(session_id@, mode@));
        Ok(v)
    }

    /// A live session took on a permission mode: this can flip it between writer and
    /// read-only.
    pub fn permission_mode_set(&mut self, session_id: &str, mode: &str) -> (r: Effect)
        requires
            old(self).wf(),
        ensures
            final(self).wf(),
            final(self)@ == mode_set(old(self)@, session_id@, mode@),
            r@ == settings_event(session_id@, None, None, Some(mode@), None),
    {
        match self.entry(session_id) {
            Some(entry) => {
                let writer: bool = is_writer_mode(Some(mode));
                self.runtime.insert(session_id, RuntimeSession { is_writer: writer, ..entry });
            },
            None => {},
        }
        Effect::Publish(
            Event::SessionSettingsChanged {
                session_id: text_of(session_id),
                model: None,
                effort: None,
                permission_mode: Some(text_of(mode)),
                thinking: None,
            },
        )
    }

    /// What an answer to a dialog asks for before it may reach the agent. An approved plan
    /// turns a read-only session into a writer: the branch allows one, so the slot is
    /// claimed first, and the approval is refused if it is taken.
    pub fn claim_for_dialog(&self, request_id: &str, result: &Option<Json>) -> (r: Result<
        Option<(String, Vec<Effect>)>,
        MaestroError,
    >)
        requires
            self.wf(),
        ensures
            match dialog_claims(self@, request_id@, opt_json_view(*result)) {
                None => r matches Ok(c) && c is None,
                Some(id) => match mode_error(self@, id, APPROVED_PLAN_MODE@) {
                    Some(message) => r matches Err(e) && is_invalid_data(
                        e,
                        "cannot start on this plan: "@ + message,
                    ),
                    None => r matches Ok(Some(c)) && c.0@ == id && effect_views(c.1@)
                        == mode_effects(id, APPROVED_PLAN_MODE@),
                },
            },
    {
        match self.dialogs.get(request_id) {
            Some(d) => {
                if same_text(d.kind.as_str(), "plan_approval") && plan_approved(result) {
                    match self.set_permission_mode(d.session_id.as_str(), APPROVED_PLAN_MODE) {
                        Ok(v) => Ok(Some((text_of(d.session_id.as_str()), v))),
                        Err(err) => Err(
                            invalid(
                                text_of("cannot start on this plan: ").concat(
                                    err.message().as_str(),
                                ),
                            ),
                        ),
                    }
                } else {
                    Ok(None)
                }
            },
            None => Ok(None),
        }
    }

    /// The engine call that answers a dialog. `result` is dialog-specific; `None` cancels,
    /// which makes the CLI apply the dialog's own default.
    pub fn respond_user_dialog(&self, request_id: &str, result: Option<Json>) -> (r: Effect)
        ensures
            r@ == EffectV::Require(
                ActionV::Engine(
                    EngineCallV::RespondUserDialog {
                        request_id: request_id@,
                        behavior: if result is Some {
                            "completed"@
                        } else {
                            "cancelled"@
                        },
                        result: opt_json_view(result),
                    },
                ),
            ),
    {
        let behavior: String = if result.is_some() {
            text_of("completed")
        } else {
            text_of("cancelled")
        };
        Effect::Require(
            Action::Engine(
                EngineCall::RespondUserDialog { request_id: text_of(request_id), behavior, result },
            ),
        )
    }

    /// The answer reached the agent: the dialog is gone and whatever waits on it stands
    /// down.
    pub fn dialog_answered(&mut self, request_id: &str) -> (r: Effect)
        requires
            old(self).wf(),
        ensures
            final(self).wf(),
            final(self)@ == (ManagerV {
                gates: old(self)@.gates,
                runtime: old(self)@.runtime,
                dialogs: t_del(old(self)@.dialogs, request_id@),
                finalizing: old(self)@.finalizing,
            }),
            r@ == EffectV::Publish(
                EventV::DialogResolved {
                    session_id: match t_get(old(self)@.dialogs, request_id@) {
                        Some(d) => d.session_id,
                        None => seq![],
                    },
                    request_id: request_id@,
                },
            ),
    {
        let session_id: String = match self.dialogs.remove(request_id) {
            Some(d) => d.session_id,
            None => String::new(),
        };
        Effect::Publish(
            Event::SessionUserDialogResolved { session_id, request_id: text_of(request_id) },
        )
    }

    /// Reconnect or enable/disable one of a session's MCP servers.
    pub fn mcp_action(&self, session_id: &str, server: &str, action: &str) -> (r: Result<
        Effect,
        MaestroError,
    >)
        requires
            self.wf(),
        ensures
            if !(action@ == "reconnect"@ || action@ == "enable"@ || action@ == "disable"@) {
                r matches Err(e) && is_invalid_data(e, "unknown mcp action: "@ + action@)
            } else {
                match liveness_error(self@.runtime, session_id@) {
                    Some(message) => r matches Err(e) && is_invalid_data(e, message),
                    None => r matches Ok(f) && f@ == EffectV::Require(
                        ActionV::Engine(
                            EngineCallV::McpAction {
                                session_id: session_id@,
                                server: server@,
                                action: action@,
                            },
                        ),
                    ),
                }
            },
    {
        if !(same_text(action, "reconnect") || same_text(action, "enable") || same_text(
            action,
            "disable",
        )) {
            return Err(invalid(text_of("unknown mcp action: ").concat(action)));
        }
        match self.ensure_live(session_id) {
            Err(e) => Err(e),
            Ok(_) => Ok(
                Effect::Require(
                    Action::Engine(
                        EngineCall::McpAction {
                            session_id: text_of(session_id),
                            server: text_of(server),
                            action: text_of(action),
                        },
                    ),
                ),
            ),
        }
    }

    /// Cancel the gates of a session; the events go behind `out`.
    fn cancel_session_gates(&mut self, session_id: &str, reason: &str, out: &mut Vec<Effect>)
        requires
            old(self).wf(),
        ensures
            final(self).wf(),
            final(self)@ == (ManagerV {
                gates: cancel_gates(old(self)@.gates, session_id@),
                runtime: old(self)@.runtime,
                dialogs: old(self)@.dialogs,
                finalizing: old(self)@.finalizing,
            }),
            effect_views(final(out)@) == effect_views(old(out)@) + published(
                cancel_events(old(self)@.gates, session_id@, reason@),
            ),
    {
        let ghost before = effect_views(out@);
        let mut gates: Option<GateManager<R>> = None;
        std::mem::swap(&mut self.gates, &mut gates);
        match gates {
            Some(g) => {
                let mut g: GateManager<R> = g;
                let events: Vec<Event> = g.cancel_for_session(session_id, reason);
                push_events(out, events);
                self.gates = Some(g);
            },
            None => {
                assert(before + published(Seq::<EventV>::empty()) =~= before);
            },
        }
    }

    /// Try to gate a tool call; the announcement goes behind `out`.
    fn try_gate(
        &mut self,
        session_id: &str,
        request_id: &str,
        tool: &str,
        args: &Json,
        by_check: bool,
        stamp: &Stamp,
        out: &mut Vec<Effect>,
        otherwise: Ghost<EffectV>,
    ) -> (b: bool)
        requires
            old(self).wf(),
            effect_views(old(out)@).len() == 0,
        ensures
            final(self).wf(),
            ({
                let call = ToolCallV {
                    session_id: session_id@,
                    branch: branch_in(old(self)@.runtime, session_id@),
                    request_id: request_id@,
                    tool: tool@,
                    args: args@,
                    by_check,
                };
                let (m, f) = asked(old(self)@, call, stamp.id@, stamp.now, otherwise@);
                &&& final(self)@ == m
                &&& b ==> effect_views(final(out)@) == f
                &&& !b ==> final(out)@ == old(out)@ && f == seq![otherwise@]
            }),
    {
        let branch: String = self.branch_of(session_id);
        let mut gates: Option<GateManager<R>> = None;
        std::mem::swap(&mut self.gates, &mut gates);
        match gates {
            Some(g) => {
                let mut g: GateManager<R> = g;
                let hit: Option<Event> = g.intercept(
                    session_id,
                    branch.as_str(),
                    request_id,
                    tool,
                    args,
                    by_check,
                    stamp,
                );
                self.gates = Some(g);
                match hit {
                    Some(e) => {
                        push_effect(out, Effect::Publish(e));
                        assert(effect_views(out@) =~= seq![EffectV::Publish(e@)]);
                        true
                    },
                    None => false,
                }
            },
            None => false,
        }
    }

    /// React to an event from the sidecar. `row` is the stored row of the event's session;
    /// a gate that opens takes the stamp's id and time.
    pub fn handle_event(&mut self, event: SidecarEvent, row: Option<&Session>, stamp: &Stamp) -> (r:
        Vec<Effect>)
        requires
            old(self).wf(),
        ensures
            final(self).wf(),
            (final(self)@, effect_views(r@)) == handled(
                old(self)@,
                event,
                opt_session_view(row),
                stamp.id@,
                stamp.now,
            ),
    {
        let ghost m = self@;
        let ghost e0 = event;
        let ghost want = handled(m, event, opt_session_view(row), stamp.id@, stamp.now);
        let mut out: Vec<Effect> = Vec::new();
        assert(effect_views(out@) =~= seq![]);
        match event {
            SidecarEvent::SessionInit { session_id, sdk_session_id, .. } => {
                push_effect(
                    &mut out,
                    Effect::Attempt(
                        Action::Store(StoreWrite::SetSdkId { session_id, sdk_session_id }),
                    ),
                );
            },
            SidecarEvent::Status { session_id, status } => {
                match SessionStatus::parse(status.as_str()) {
                    Some(s) => {
                        self.transition(session_id.as_str(), s, row, &mut out);
                        // A session that was writing its notes has finished that turn.
                        if s == SessionStatus::AwaitingInput {
                            let branch: String = self.branch_of(session_id.as_str());
                            self.finish_finalize(session_id.as_str(), branch.as_str(), &mut out);
                        }
                    },
                    None => {},
                }
            },
            SidecarEvent::StreamDelta { session_id, text, parent_tool_use_id } => {
                push_effect(
                    &mut out,
                    Effect::Publish(
                        Event::SessionStreamDelta { session_id, text, parent_tool_use_id },
                    ),
                );
            },
            SidecarEvent::ThinkingDelta { session_id, text, parent_tool_use_id } => {
                push_effect(
                    &mut out,
                    Effect::Publish(
                        Event::SessionThinkingDelta { session_id, text, parent_tool_use_id },
                    ),
                );
            },
            SidecarEvent::ToolUse { session_id, tool_use_id, name, summary, parent_tool_use_id } => {
                push_effect(
                    &mut out,
                    Effect::Publish(
                        Event::SessionToolUse {
                            session_id,
                            tool_use_id,
                            name,
                            summary,
                            parent_tool_use_id,
                        },
                    ),
                );
            },
            SidecarEvent::ToolResult { session_id, tool_use_id, is_error, text } => {
                push_effect(
                    &mut out,
                    Effect::Publish(
                        Event::SessionToolResult { session_id, tool_use_id, is_error, text },
                    ),
                );
            },
            SidecarEvent::Agents { session_id, agents } => {
                push_effect(
                    &mut out,
                    Effect::Publish(Event::SessionAgents { session_id, agents }),
                );
            },
            SidecarEvent::McpServers { session_id, servers } => {
                push_effect(
                    &mut out,
                    Effect::Publish(Event::SessionMcpServers { session_id, servers }),
                );
            },
            SidecarEvent::Todos { session_id, items } => {
                push_effect(&mut out, Effect::Publish(Event::SessionTodos { session_id, items }));
            },
            SidecarEvent::Usage { session_id, usage } => {
                push_effect(&mut out, Effect::Publish(Event::SessionUsage { session_id, usage }));
            },
            SidecarEvent::RateLimit { session_id, limit } => {
                // Worth knowing before it becomes a wall, so it is also an error event.
                if !same_text(limit.status.as_str(), "allowed") {
                    let mut message: String = text_of("Rate limit (");
                    match &limit.limit_type {
                        Some(w) => message.append(w.as_str()),
                        None => message.append("quota"),
                    }
                    message.append(")");
                    let ghost head = message@;
                    match &limit.percent {
                        Some(p) => {
                            message.append(" at ");
                            message.append(p.as_str());
                            message.append("%");
                            assert(message@ =~= head + (" at "@ + p@ + "%"@));
                        },
                        None => {
                            assert(message@ =~= head + seq![]);
                        },
                    }
                    let severity: Severity = if same_text(limit.status.as_str(), "rejected") {
                        Severity::Error
                    } else {
                        Severity::Warning
                    };
                    push_effect(
                        &mut out,
                        Effect::Publish(
                            Event::ErrorRaised { severity, code: text_of("rate_limit"), message },
                        ),
                    );
                }
                push_effect(
                    &mut out,
                    Effect::Publish(Event::SessionRateLimit { session_id, limit }),
                );
            },
            SidecarEvent::PermissionDenied { session_id, tool, reason, message } => {
                push_effect(
                    &mut out,
                    Effect::Publish(
                        Event::SessionPermissionDenied { session_id, tool, reason, message },
                    ),
                );
            },
            SidecarEvent::PermissionRequest { session_id, request_id, tool, args, title } => {
                // Gated operations pause here instead of the plain permission prompt.
                let ghost plain = EffectV::Publish(
                    EventV::Carried(
                        Event::SessionPermissionRequest {
                            session_id,
                            request_id,
                            tool,
                            args,
                            title,
                        },
                    ),
                );
                if !self.try_gate(
                    session_id.as_str(),
                    request_id.as_str(),
                    tool.as_str(),
                    &args,
                    false,
                    stamp,
                    &mut out,
                    Ghost(plain),
                ) {
                    push_effect(
                        &mut out,
                        Effect::Publish(
                            Event::SessionPermissionRequest {
                                session_id,
                                request_id,
                                tool,
                                args,
                                title,
                            },
                        ),
                    );
                    assert(effect_views(out@) =~= seq![plain]);
                }
            },
            SidecarEvent::GateCheck { session_id, request_id, tool, args } => {
                let ghost pass = EffectV::Attempt(
                    ActionV::Engine(
                        EngineCallV::RespondGateCheck {
                            request_id: request_id@,
                            decision: "pass"@,
                            updated_args: None,
                            message: None,
                        },
                    ),
                );
                if !self.try_gate(
                    session_id.as_str(),
                    request_id.as_str(),
                    tool.as_str(),
                    &args,
                    true,
                    stamp,
                    &mut out,
                    Ghost(pass),
                ) {
                    push_effect(
                        &mut out,
                        Effect::Attempt(
                            Action::Engine(
                                EngineCall::RespondGateCheck {
                                    request_id,
                                    decision: text_of("pass"),
                                    updated_args: None,
                                    message: None,
                                },
                            ),
                        ),
                    );
                    assert(effect_views(out@) =~= seq![pass]);
                }
            },
            SidecarEvent::EscalationRequest { session_id, request_id, question } => {
                push_effect(&mut out, Effect::Escalate { session_id, request_id, question });
            },
            SidecarEvent::UserDialogRequest {
                session_id,
                request_id,
                dialog_kind,
                payload,
                ..
            } => {
                self.dialogs.insert(
                    request_id.as_str(),
                    PendingDialog {
                        session_id: text_of(session_id.as_str()),
                        kind: text_of(dialog_kind.as_str()),
                    },
                );
                push_effect(
                    &mut out,
                    Effect::Publish(
                        Event::SessionUserDialog { session_id, request_id, dialog_kind, payload },
                    ),
                );
            },
            SidecarEvent::Commands { session_id, commands } => {
                push_effect(
                    &mut out,
                    Effect::Publish(Event::SessionCommands { session_id, commands }),
                );
            },
            SidecarEvent::Models { session_id, models } => {
                push_effect(
                    &mut out,
                    Effect::Publish(Event::SessionModels { session_id, models }),
                );
            },
            SidecarEvent::SessionClosed { session_id, reason } => {
                self.finalizing.remove(session_id.as_str());
                // Any gate still waiting on this session can no longer execute.
                self.cancel_session_gates(session_id.as_str(), "session closed", &mut out);
                let entry: Option<RuntimeSession> = self.entry(session_id.as_str());
                let status: SessionStatus = if same_text(reason.as_str(), "error") {
                    SessionStatus::Failed
                } else {
                    match entry {
                        Some(r) => {
                            if r.close_requested {
                                if r.status == SessionStatus::AwaitingInput {
                                    SessionStatus::Done
                                } else {
                                    SessionStatus::Cancelled
                                }
                            } else {
                                SessionStatus::Done
                            }
                        },
                        None => SessionStatus::Done,
                    }
                };
                self.transition(session_id.as_str(), status, row, &mut out);
                self.runtime.remove(session_id.as_str());
                assert(effect_views(out@) =~= want.1);
            },
            SidecarEvent::Error { message, .. } => {
                push_effect(
                    &mut out,
                    Effect::Publish(
                        Event::ErrorRaised {
                            severity: Severity::Error,
                            code: text_of("agent"),
                            message,
                        },
                    ),
                );
            },
            SidecarEvent::Result { .. } | SidecarEvent::Ready { .. } | SidecarEvent::Ack { .. } => {},
        }
        assert(effect_views(out@) =~= want.1);
        out
    }

    /// The sidecar died: every live session failed with it.
    pub fn handle_crash(&mut self, code: Option<i32>) -> (r: Vec<Effect>)
        requires
            old(self).wf(),
        ensures
            final(self).wf(),
            (final(self)@, effect_views(r@)) == crashed(old(self)@, code),
    {
        let ghost m = self@;
        let mut out: Vec<Effect> = Vec::new();
        assert(effect_views(out@) =~= seq![]);
        let live: Vec<String> = self.runtime.key_list();
        let ghost ids = t_keys(m.runtime);
        // Pending gates target requests that died with the process.
        let mut i: usize = 0;
        assert(published(Seq::<EventV>::empty()) =~= seq![]);
        while i < live.len()
            invariant
                i <= live@.len(),
                self.wf(),
                ids == views(live@),
                self@ == (ManagerV {
                    gates: all_gates_cancelled(m.gates, ids.take(i as int)),
                    runtime: m.runtime,
                    dialogs: m.dialogs,
                    finalizing: m.finalizing,
                }),
                effect_views(out@) == published(
                    all_cancel_events(m.gates, ids.take(i as int), "sidecar crashed"@),
                ),
            decreases live@.len() - i,
        {
            assert(ids.take(i + 1).drop_last() =~= ids.take(i as int));
            assert(ids.take(i + 1).last() == live@[i as int]@);
            let ghost done = all_cancel_events(m.gates, ids.take(i as int), "sidecar crashed"@);
            let ghost more = cancel_events(self@.gates, live@[i as int]@, "sidecar crashed"@);
            self.cancel_session_gates(live[i].as_str(), "sidecar crashed", &mut out);
            assert(published(done) + published(more) =~= published(done + more));
            i += 1;
        }
        assert(ids.take(i as int) =~= ids);
        let message: String = text_of("agent sidecar crashed (exit code ").concat(
            show_exit_code(code).as_str(),
        ).concat("); sessions failed");
        push_effect(
            &mut out,
            Effect::Publish(
                Event::ErrorRaised { severity: Severity::Error, code: text_of("agent"), message },
            ),
        );
        let ghost head = effect_views(out@);
        let ghost gone = all_gates_cancelled(m.gates, ids);
        let mut i: usize = 0;
        assert(head + Seq::<EffectV>::empty() =~= head);
        while i < live.len()
            invariant
                i <= live@.len(),
                self.wf(),
                ids == views(live@),
                self@ == (ManagerV {
                    gates: gone,
                    runtime: all_failed(m.runtime, ids.take(i as int)),
                    dialogs: m.dialogs,
                    finalizing: m.finalizing,
                }),
                effect_views(out@) == head + all_failed_effects(m.runtime, ids.take(i as int)),
            decreases live@.len() - i,
        {
            assert(ids.take(i + 1).drop_last() =~= ids.take(i as int));
            assert(ids.take(i + 1).last() == live@[i as int]@);
            let ghost done = all_failed_effects(m.runtime, ids.take(i as int));
            let ghost more = transition_effects(
                self@.runtime,
                live@[i as int]@,
                SessionStatus::Failed,
                None,
            );
            self.transition(live[i].as_str(), SessionStatus::Failed, None, &mut out);
            assert(head + done + more =~= head + (done + more));
            i += 1;
        }
        assert(ids.take(i as int) =~= ids);
        assert(effect_views(out@) =~= crashed(m, code).1);
        out
    }

    /// Fail the stored rows of sessions that cannot be alive any more: those of a previous
    /// run at startup, those left over after a crash.
    pub fn fail_stale_sessions(&mut self, rows: &Vec<Session>, reason: &str) -> (r: Vec<Effect>)
        requires
            old(self).wf(),
        ensures
            final(self).wf(),
            (final(self)@, effect_views(r@)) == swept(
                old(self)@,
                session_views(rows@),
                reason@,
            ),
    {
        let ghost m = self@;
        let ghost rv = session_views(rows@);
        let mut out: Vec<Effect> = Vec::new();
        assert(effect_views(out@) =~= seq![]);
        let mut i: usize = 0;
        while i < rows.len()
            invariant
                i <= rows@.len(),
                self.wf(),
                rv == session_views(rows@),
                (self@, effect_views(out@)) == swept(m, rv.take(i as int), reason@),
            decreases rows@.len() - i,
        {
            assert(rv.take(i + 1).drop_last() =~= rv.take(i as int));
            assert(rv.take(i + 1).last() == rows@[i as int]@);
            self.cancel_session_gates(rows[i].id.as_str(), reason, &mut out);
            self.transition(rows[i].id.as_str(), SessionStatus::Failed, Some(&rows[i]), &mut out);
            i += 1;
        }
        assert(rv.take(i as int) =~= rv);
        out
    }
}

// ---------------------------------------------------------------------------
// Closing
// ---------------------------------------------------------------------------

/// Template of the prompt that asks a closing session for its notes.
pub const NOTES_TEMPLATE: &'static str = "task-notes";

/// What the finalize step is made from.
#[derive(Debug)]
pub struct FinalizeInputs {
    /// The [`SETTING_NOTES_FINALIZE_TIMEOUT`] setting.
    pub timeout: Option<String>,
    pub task_id: Option<String>,
    pub base_branch: Option<String>,
    /// The notes so far.
    pub notes: Option<String>,
    /// What came of reading the notes template.
    pub template: FileRead,
}

/// What closing a session takes.
#[derive(Debug)]
pub enum CloseStep {
    /// These effects, and nothing more.
    Done(Vec<Effect>),
    /// One last turn: send `prompt`. Where the engine takes it,
    /// [`SessionManager::finalize_started`] records the turn; else the session is closed
    /// as usual.
    Finalize { prompt: String },
}

pub open spec fn or_text(s: Option<String>, default: Seq<char>) -> Seq<char> {
    match s {
        Some(s) => s@,
        None => default,
    }
}

/// The variables of the notes prompt.
pub open spec fn finalize_vars(branch: Seq<char>, f: FinalizeInputs) -> Seq<
    (Seq<char>, Seq<char>),
> {
    t_put(
        t_put(
            t_put(
                t_put(seq![], "branch"@, branch),
                "task_id"@,
                or_text(f.task_id, "(none)"@),
            ),
            "base"@,
            or_text(f.base_branch, "(unknown)"@),
        ),
        "notes"@,
        or_text(f.notes, "none yet"@),
    )
}

/// The prompt of the last turn that a closing session gets, where it gets one: an
/// implementation session that is idle and not already writing its notes.
pub open spec fn finalize_prompt(
    m: ManagerV,
    id: Seq<char>,
    row: Option<SessionV>,
    inputs: Option<FinalizeInputs>,
) -> Option<Seq<char>> {
    match (inputs, t_get(m.runtime, id), row) {
        (Some(f), Some(r), Some(s)) => match f.template {
            FileRead::Text(raw) => if finalize_secs(opt_view(f.timeout)) > 0 && r.status
                == SessionStatus::AwaitingInput && s.session_type == SessionType::Implementation
                && t_get(m.finalizing, id) is None {
                Some(
                    rendered(
                        parsed_template(NOTES_TEMPLATE@, raw@).body,
                        finalize_vars(r.branch, f),
                    ),
                )
            } else {
                None
            },
            _ => None,
        },
        _ => None,
    }
}

/// Whether a stored row is that of a worktree's main session, which never closes.
pub open spec fn unclosable(row: Option<SessionV>) -> bool {
    row matches Some(s) && s.session_type == SessionType::Main
}

/// A session that was asked to close.
pub open spec fn close_asked(m: ManagerV, id: Seq<char>) -> ManagerV {
    match t_get(m.runtime, id) {
        Some(r) => with_runtime(
            m,
            t_put(
                m.runtime,
                id,
                RuntimeV {
                    branch: r.branch,
                    status: r.status,
                    is_writer: r.is_writer,
                    close_requested: true,
                },
            ),
        ),
        None => m,
    }
}

pub open spec fn finalize_recorded(m: ManagerV, id: Seq<char>, until: i128) -> ManagerV {
    ManagerV {
        gates: m.gates,
        runtime: m.runtime,
        dialogs: m.dialogs,
        finalizing: t_put(m.finalizing, id, until),
    }
}

fn text_or(s: &Option<String>, default: &str) -> (r: String)
    ensures
        r@ == or_text(*s, default@),
{
    match s {
        Some(s) => text_of(s.as_str()),
        None => text_of(default),
    }
}

impl<R: GateRule> SessionManager<R> {
    /// Close the session. If it is idle this is a graceful completion (`done`); mid-work it
    /// is a cancellation (`cancelled`). Closing an already-finished session is a no-op; a
    /// stale row that is not finished is swept to failed. A worktree's main session is never
    /// closed while it is live: nothing changes and the caller is told so. `row` is the session's stored row,
    /// `finalize` what its last turn is made from where notes are kept.
    pub fn close(
        &mut self,
        session_id: &str,
        row: Option<&Session>,
        finalize: Option<FinalizeInputs>,
        prompts: &PromptManager,
    ) -> (r: Result<CloseStep, MaestroError>)
        requires
            old(self).wf(),
        ensures
            final(self).wf(),
            final(self)@ == (if unclosable(opt_session_view(row)) {
                old(self)@
            } else {
                close_asked(old(self)@, session_id@)
            }),
            match t_get(old(self)@.runtime, session_id@) {
                None => match opt_session_view(row) {
                    None => r matches Err(e) && is_invalid_data(
                        e,
                        "unknown session: "@ + session_id@,
                    ),
                    Some(s) => r matches Ok(CloseStep::Done(v)) && effect_views(v@) == (
                    if terminal(s.status) {
                        seq![]
                    } else {
                        transition_effects(
                            old(self)@.runtime,
                            session_id@,
                            SessionStatus::Failed,
                            Some(s),
                        )
                    }),
                },
                Some(_) => if unclosable(opt_session_view(row)) {
                    r matches Err(e) && is_invalid_data(
                        e,
                        "a main session cannot be closed: "@ + session_id@,
                    )
                } else {
                    match finalize_prompt(
                        old(self)@,
                        session_id@,
                        opt_session_view(row),
                        finalize,
                    ) {
                        Some(p) => r matches Ok(CloseStep::Finalize { prompt }) && prompt@ == p,
                        None => r matches Ok(CloseStep::Done(v)) && effect_views(v@) == seq![
                            EffectV::Require(close_call(session_id@)),
                        ],
                    }
                },
            },
    {
        let mut out: Vec<Effect> = Vec::new();
        assert(effect_views(out@) =~= seq![]);
        match self.entry(session_id) {
            None => match row {
                None => Err(invalid(text_of("unknown session: ").concat(session_id))),
                Some(s) => {
                    if !s.status.is_terminal() {
                        self.transition(session_id, SessionStatus::Failed, Some(s), &mut out);
                    }
                    assert(effect_views(out@) =~= (if terminal(s.status) {
                        seq![]
                    } else {
                        transition_effects(
                            old(self)@.runtime,
                            session_id@,
                            SessionStatus::Failed,
                            Some(s@),
                        )
                    }));
                    Ok(CloseStep::Done(out))
                },
            },
            Some(entry) => {
                let main: bool = match row {
                    Some(s) => s.session_type == SessionType::Main,
                    None => false,
                };
                if main {
                    return Err(
                        invalid(text_of("a main session cannot be closed: ").concat(session_id)),
                    );
                }
                let prompt: Option<String> = self.start_finalize(
                    session_id,
                    row,
                    finalize,
                    prompts,
                );
                self.runtime.insert(session_id, RuntimeSession { close_requested: true, ..entry });
                match prompt {
                    // An implementation session gets one last turn to write down what it
                    // decided.
                    Some(prompt) => Ok(CloseStep::Finalize { prompt }),
                    None => {
                        push_effect(
                            &mut out,
                            Effect::Require(
                                Action::Engine(
                                    EngineCall::CloseSession { session_id: text_of(session_id) },
                                ),
                            ),
                        );
                        assert(effect_views(out@) =~= seq![
                            EffectV::Require(close_call(session_id@)),
                        ]);
                        Ok(CloseStep::Done(out))
                    },
                }
            },
        }
    }

    /// What asks a closing implementation session to write its `TASK_NOTES.md`; nothing when
    /// there is nothing to ask — wrong session type, not idle, notes disabled, no template —
    /// in which case the caller closes as usual. Notes are best-effort: they never block or
    /// fail a close.
    fn start_finalize(
        &self,
        session_id: &str,
        row: Option<&Session>,
        finalize: Option<FinalizeInputs>,
        prompts: &PromptManager,
    ) -> (r: Option<String>)
        requires
            self.wf(),
        ensures
            opt_view(r) == finalize_prompt(
                self@,
                session_id@,
                opt_session_view(row),
                finalize,
            ),
    {
        let f: FinalizeInputs = match finalize {
            Some(f) => f,
            None => return None,
        };
        let secs: u64 = match &f.timeout {
            Some(t) => finalize_timeout(Some(t.as_str())),
            None => finalize_timeout(None),
        };
        // Only a session that is idle can take another turn; a streaming one would queue
        // the prompt behind work the user just asked to stop.
        let branch: String = match self.runtime.get(session_id) {
            Some(entry) => {
                if entry.status != SessionStatus::AwaitingInput {
                    return None;
                }
                text_of(entry.branch.as_str())
            },
            None => return None,
        };
        match row {
            Some(s) => {
                if s.session_type != SessionType::Implementation {
                    return None;
                }
            },
            None => return None,
        }
        if secs == 0 || self.finalizing.get(session_id).is_some() {
            return None;
        }
        let mut vars: Table<String> = Table::new();
        vars.insert("branch", branch);
        vars.insert("task_id", text_or(&f.task_id, "(none)"));
        vars.insert("base", text_or(&f.base_branch, "(unknown)"));
        vars.insert("notes", text_or(&f.notes, "none yet"));
        proof {
            lemma_notes_template_name();
        }
        match prompts.render(NOTES_TEMPLATE, f.template, &vars) {
            Ok(prompt) => Some(prompt),
            Err(_) => None,
        }
    }

    /// The engine took the notes prompt: the close is deferred until that turn ends, or its
    /// time is up.
    pub fn finalize_started(&mut self, session_id: &str, timeout: Option<&str>, now: i128) -> (r:
        Vec<Effect>)
        requires
            old(self).wf(),
        ensures
            final(self).wf(),
            ({
                let setting = match timeout {
                    Some(t) => Some(t@),
                    None => None,
                };
                &&& final(self)@ == transitioned(
                    finalize_recorded(
                        old(self)@,
                        session_id@,
                        deadline(now, finalize_secs(setting)),
                    ),
                    session_id@,
                    SessionStatus::Streaming,
                )
                &&& effect_views(r@) == transition_effects(
                    old(self)@.runtime,
                    session_id@,
                    SessionStatus::Streaming,
                    None,
                )
            }),
    {
        let secs: u64 = finalize_timeout(timeout);
        let mut out: Vec<Effect> = Vec::new();
        assert(effect_views(out@) =~= seq![]);
        self.finalizing.insert(session_id, deadline_after(now, secs));
        self.transition(session_id, SessionStatus::Streaming, None, &mut out);
        assert(effect_views(out@) =~= transition_effects(
            old(self)@.runtime,
            session_id@,
            SessionStatus::Streaming,
            None,
        ));
        out
    }

    /// The engine call that answers a permission request.
    pub fn respond_permission(
        &self,
        request_id: &str,
        allow: bool,
        updated_args: Option<Json>,
        message: Option<String>,
    ) -> (r: Effect)
        ensures
            r@ == EffectV::Require(
                ActionV::Engine(
                    EngineCallV::RespondPermission {
                        request_id: request_id@,
                        allow,
                        updated_args: opt_json_view(updated_args),
                        message: opt_view(message),
                    },
                ),
            ),
    {
        Effect::Require(
            Action::Engine(
                EngineCall::RespondPermission {
                    request_id: text_of(request_id),
                    allow,
                    updated_args,
                    message,
                },
            ),
        )
    }

    /// Ask the CLI for its model list; the answer arrives as a `session.models` event with
    /// an empty session id. Costs nothing — no session, no turn.
    pub fn refresh_models(&self, cwd: &str) -> (r: Effect)
        ensures
            r@ == EffectV::Require(ActionV::Engine(EngineCallV::ListModels { cwd: cwd@ })),
    {
        Effect::Require(Action::Engine(EngineCall::ListModels { cwd: text_of(cwd) }))
    }
}

proof fn lemma_notes_template_name()
    ensures
        valid_name(NOTES_TEMPLATE@),
{
    reveal_strlit("task-notes");
    assert(valid_name(NOTES_TEMPLATE@));
}

} // verus!
