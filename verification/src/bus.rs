//! The events of the core. Every state change is published as a typed [`Event`]; panels
//! and background tasks are subscribers.
use crate::agent::protocol::{
    AgentInfo, CommandInfo, McpServerInfo, ModelOption, RateLimitReading, TodoItem, UsageReading,
};
use crate::gate::rules::{params_view, GateParam, GateParamV};
use crate::json::{Json, JsonV};
use crate::session::SessionStatus;
use crate::text::opt_view;
use vstd::prelude::*;

verus! {

/// How serious a raised error is.
#[derive(Clone, Copy, Debug, PartialEq, Eq, Structural)]
pub enum Severity {
    Info,
    Warning,
    Error,
}

/// All events that can flow through the system.
#[derive(Debug)]
#[allow(inconsistent_fields)]
pub enum Event {
    WorktreeCreated { branch: String, path: String },
    WorktreeRemoved { branch: String },
    SessionStatusChanged { session_id: String, branch: String, status: SessionStatus },
    /// `parent_tool_use_id` is set when a subagent produced the text.
    SessionStreamDelta { session_id: String, text: String, parent_tool_use_id: Option<String> },
    SessionToolUse {
        session_id: String,
        tool_use_id: String,
        name: String,
        summary: String,
        parent_tool_use_id: Option<String>,
    },
    SessionPermissionRequest {
        session_id: String,
        request_id: String,
        tool: String,
        args: Json,
        title: Option<String>,
    },
    /// The agent asked a blocking question.
    SessionUserDialog {
        session_id: String,
        request_id: String,
        dialog_kind: String,
        payload: Json,
    },
    /// A slice of the agent's reasoning.
    SessionThinkingDelta { session_id: String, text: String, parent_tool_use_id: Option<String> },
    /// What a tool returned, matched to its call by `tool_use_id`.
    SessionToolResult { session_id: String, tool_use_id: String, is_error: bool, text: String },
    SessionAgents { session_id: String, agents: Vec<AgentInfo> },
    SessionMcpServers { session_id: String, servers: Vec<McpServerInfo> },
    SessionTodos { session_id: String, items: Vec<TodoItem> },
    SessionUsage { session_id: String, usage: UsageReading },
    SessionRateLimit { session_id: String, limit: RateLimitReading },
    /// A tool call denied without asking the user.
    SessionPermissionDenied { session_id: String, tool: String, reason: String, message: String },
    /// The dialog was answered or dismissed; whatever was waiting on it can stand down.
    SessionUserDialogResolved { session_id: String, request_id: String },
    /// A runtime knob of a live session changed.
    SessionSettingsChanged {
        session_id: String,
        model: Option<String>,
        effort: Option<String>,
        permission_mode: Option<String>,
        thinking: Option<String>,
    },
    SessionCommands { session_id: String, commands: Vec<CommandInfo> },
    SessionModels { session_id: String, models: Vec<ModelOption> },
    DiffUpdated { branch: String },
    GatePending {
        gate_id: String,
        session_id: String,
        tool: String,
        kind: String,
        branch: String,
        params: Vec<GateParam>,
        /// Explanation shown when a gate has no editable params.
        note: Option<String>,
        raw_args: Json,
    },
    QuestionAnswering { question_id: String, session_id: String },
    QuestionAnswered { question_id: String, session_id: String, ok: bool },
    /// A gate left the pending set: answered by the user, cancelled, or its session died.
    GateResolved { gate_id: String, reason: String },
    AttentionRequired {
        source: String,
        branch: Option<String>,
        session_id: Option<String>,
        message: String,
    },
    /// The attention queue changed; panels refetch it.
    AttentionUpdated { count: usize },
    NotesUpdated { branch: String },
    EscalationStarted {
        asking_session_id: String,
        target_session_id: String,
        escalated_session_id: String,
        question: String,
    },
    EscalationFinished { asking_session_id: String, target_session_id: String, chars: u32 },
    EscalationFailed { asking_session_id: String, target_session_id: String, reason: String },
    CheckStarted { branch: String },
    CheckFinished { branch: String, passed: bool, exit_code: Option<i32> },
    DaemonUpdated,
    DaemonTaskFinished { key: String, title: String, ok: bool },
    ErrorRaised { severity: Severity, code: String, message: String },
    /// Diagnostic event used to verify the pipeline end to end.
    Test { message: String },
}

/// What an event is. An event that is passed on with its payload untouched is itself.
#[allow(inconsistent_fields)]
pub enum EventV {
    Status { session_id: Seq<char>, branch: Seq<char>, status: SessionStatus },
    DialogResolved { session_id: Seq<char>, request_id: Seq<char> },
    SettingsChanged {
        session_id: Seq<char>,
        model: Option<Seq<char>>,
        effort: Option<Seq<char>>,
        permission_mode: Option<Seq<char>>,
        thinking: Option<Seq<char>>,
    },
    DiffUpdated { branch: Seq<char> },
    GatePending {
        gate_id: Seq<char>,
        session_id: Seq<char>,
        tool: Seq<char>,
        kind: Seq<char>,
        branch: Seq<char>,
        params: Seq<GateParamV>,
        note: Option<Seq<char>>,
        raw_args: JsonV,
    },
    GateResolved { gate_id: Seq<char>, reason: Seq<char> },
    AttentionRequired {
        source: Seq<char>,
        branch: Option<Seq<char>>,
        session_id: Option<Seq<char>>,
        message: Seq<char>,
    },
    AttentionUpdated { count: nat },
    NotesUpdated { branch: Seq<char> },
    EscalationStarted {
        asking: Seq<char>,
        target: Seq<char>,
        escalated: Seq<char>,
        question: Seq<char>,
    },
    EscalationFinished { asking: Seq<char>, target: Seq<char>, chars: nat },
    EscalationFailed { asking: Seq<char>, target: Seq<char>, reason: Seq<char> },
    CheckStarted { branch: Seq<char> },
    CheckFinished { branch: Seq<char>, passed: bool, exit_code: Option<i32> },
    DaemonUpdated,
    DaemonTaskFinished { key: Seq<char>, title: Seq<char>, ok: bool },
    ErrorRaised { severity: Severity, code: Seq<char>, message: Seq<char> },
    Carried(Event),
}

pub open spec fn event_view(e: Event) -> EventV {
    match e {
        Event::SessionStatusChanged { session_id, branch, status } => EventV::Status {
            session_id: session_id@,
            branch: branch@,
            status,
        },
        Event::SessionUserDialogResolved { session_id, request_id } => EventV::DialogResolved {
            session_id: session_id@,
            request_id: request_id@,
        },
        Event::SessionSettingsChanged { session_id, model, effort, permission_mode, thinking } =>
        EventV::SettingsChanged {
            session_id: session_id@,
            model: opt_view(model),
            effort: opt_view(effort),
            permission_mode: opt_view(permission_mode),
            thinking: opt_view(thinking),
        },
        Event::DiffUpdated { branch } => EventV::DiffUpdated { branch: branch@ },
        Event::GatePending { gate_id, session_id, tool, kind, branch, params, note, raw_args } =>
        EventV::GatePending {
            gate_id: gate_id@,
            session_id: session_id@,
            tool: tool@,
            kind: kind@,
            branch: branch@,
            params: params_view(params@),
            note: opt_view(note),
            raw_args: raw_args@,
        },
        Event::GateResolved { gate_id, reason } => EventV::GateResolved {
            gate_id: gate_id@,
            reason: reason@,
        },
        Event::AttentionRequired { source, branch, session_id, message } =>
        EventV::AttentionRequired {
            source: source@,
            branch: opt_view(branch),
            session_id: opt_view(session_id),
            message: message@,
        },
        Event::AttentionUpdated { count } => EventV::AttentionUpdated { count: count as nat },
        Event::NotesUpdated { branch } => EventV::NotesUpdated { branch: branch@ },
        Event::EscalationStarted {
            asking_session_id,
            target_session_id,
            escalated_session_id,
            question,
        } => EventV::EscalationStarted {
            asking: asking_session_id@,
            target: target_session_id@,
            escalated: escalated_session_id@,
            question: question@,
        },
        Event::EscalationFinished { asking_session_id, target_session_id, chars } =>
        EventV::EscalationFinished {
            asking: asking_session_id@,
            target: target_session_id@,
            chars: chars as nat,
        },
        Event::EscalationFailed { asking_session_id, target_session_id, reason } =>
        EventV::EscalationFailed {
            asking: asking_session_id@,
            target: target_session_id@,
            reason: reason@,
        },
        Event::CheckStarted { branch } => EventV::CheckStarted { branch: branch@ },
        Event::CheckFinished { branch, passed, exit_code } => EventV::CheckFinished {
            branch: branch@,
            passed,
            exit_code,
        },
        Event::DaemonUpdated => EventV::DaemonUpdated,
        Event::DaemonTaskFinished { key, title, ok } => EventV::DaemonTaskFinished {
            key: key@,
            title: title@,
            ok,
        },
        Event::ErrorRaised { severity, code, message } => EventV::ErrorRaised {
            severity,
            code: code@,
            message: message@,
        },
        other => EventV::Carried(other),
    }
}

impl View for Event {
    type V = EventV;

    open spec fn view(&self) -> EventV {
        event_view(*self)
    }
}

pub open spec fn event_views(v: Seq<Event>) -> Seq<EventV> {
    v.map_values(|e: Event| e@)
}

/// Event name as it appears on the wire.
pub open spec fn event_name(e: Event) -> Seq<char> {
    match e {
        Event::WorktreeCreated { .. } => "worktree.created"@,
        Event::WorktreeRemoved { .. } => "worktree.removed"@,
        Event::SessionStatusChanged { .. } => "session.status_changed"@,
        Event::SessionStreamDelta { .. } => "session.stream_delta"@,
        Event::SessionToolUse { .. } => "session.tool_use"@,
        Event::SessionPermissionRequest { .. } => "session.permission_request"@,
        Event::SessionUserDialog { .. } => "session.user_dialog"@,
        Event::SessionThinkingDelta { .. } => "session.thinking_delta"@,
        Event::SessionToolResult { .. } => "session.tool_result"@,
        Event::SessionAgents { .. } => "session.agents"@,
        Event::SessionMcpServers { .. } => "session.mcp_servers"@,
        Event::SessionTodos { .. } => "session.todos"@,
        Event::SessionUsage { .. } => "session.usage"@,
        Event::SessionRateLimit { .. } => "session.rate_limit"@,
        Event::SessionPermissionDenied { .. } => "session.permission_denied"@,
        Event::SessionUserDialogResolved { .. } => "session.user_dialog_resolved"@,
        Event::SessionSettingsChanged { .. } => "session.settings_changed"@,
        Event::SessionCommands { .. } => "session.commands"@,
        Event::SessionModels { .. } => "session.models"@,
        Event::DiffUpdated { .. } => "diff.updated"@,
        Event::GatePending { .. } => "gate.pending"@,
        Event::QuestionAnswering { .. } => "question.answering"@,
        Event::QuestionAnswered { .. } => "question.answered"@,
        Event::GateResolved { .. } => "gate.resolved"@,
        Event::AttentionRequired { .. } => "attention.required"@,
        Event::AttentionUpdated { .. } => "attention.updated"@,
        Event::NotesUpdated { .. } => "notes.updated"@,
        Event::EscalationStarted { .. } => "escalation.started"@,
        Event::EscalationFinished { .. } => "escalation.finished"@,
        Event::EscalationFailed { .. } => "escalation.failed"@,
        Event::CheckStarted { .. } => "check.started"@,
        Event::CheckFinished { .. } => "check.finished"@,
        Event::DaemonUpdated => "daemon.updated"@,
        Event::DaemonTaskFinished { .. } => "daemon.task_finished"@,
        Event::ErrorRaised { .. } => "error.raised"@,
        Event::Test { .. } => "system.test"@,
    }
}

impl Event {
    /// Event name as it appears on the wire.
    pub fn name(&self) -> (r: &'static str)
        ensures
            r@ == event_name(*self),
    {
        match self {
            Event::WorktreeCreated { .. } => "worktree.created",
            Event::WorktreeRemoved { .. } => "worktree.removed",
            Event::SessionStatusChanged { .. } => "session.status_changed",
            Event::SessionStreamDelta { .. } => "session.stream_delta",
            Event::SessionToolUse { .. } => "session.tool_use",
            Event::SessionPermissionRequest { .. } => "session.permission_request",
            Event::SessionUserDialog { .. } => "session.user_dialog",
            Event::SessionThinkingDelta { .. } => "session.thinking_delta",
            Event::SessionToolResult { .. } => "session.tool_result",
            Event::SessionAgents { .. } => "session.agents",
            Event::SessionMcpServers { .. } => "session.mcp_servers",
            Event::SessionTodos { .. } => "session.todos",
            Event::SessionUsage { .. } => "session.usage",
            Event::SessionRateLimit { .. } => "session.rate_limit",
            Event::SessionPermissionDenied { .. } => "session.permission_denied",
            Event::SessionUserDialogResolved { .. } => "session.user_dialog_resolved",
            Event::SessionSettingsChanged { .. } => "session.settings_changed",
            Event::SessionCommands { .. } => "session.commands",
            Event::SessionModels { .. } => "session.models",
            Event::DiffUpdated { .. } => "diff.updated",
            Event::GatePending { .. } => "gate.pending",
            Event::QuestionAnswering { .. } => "question.answering",
            Event::QuestionAnswered { .. } => "question.answered",
            Event::GateResolved { .. } => "gate.resolved",
            Event::AttentionRequired { .. } => "attention.required",
            Event::AttentionUpdated { .. } => "attention.updated",
            Event::NotesUpdated { .. } => "notes.updated",
            Event::EscalationStarted { .. } => "escalation.started",
            Event::EscalationFinished { .. } => "escalation.finished",
            Event::EscalationFailed { .. } => "escalation.failed",
            Event::CheckStarted { .. } => "check.started",
            Event::CheckFinished { .. } => "check.finished",
            Event::DaemonUpdated => "daemon.updated",
            Event::DaemonTaskFinished { .. } => "daemon.task_finished",
            Event::ErrorRaised { .. } => "error.raised",
            Event::Test { .. } => "system.test",
        }
    }
}

} // verus!
