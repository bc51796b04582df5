//! The protocol between the core and the agent sidecar: NDJSON over stdio, one JSON
//! object per line.
use crate::json::{Json, JsonNumber};
use vstd::prelude::*;

verus! {

pub const PROTOCOL_VERSION: u32 = 5;

/// Requests sent to the sidecar. Every request carries an `id`; the sidecar answers with an
/// `ack` event carrying the same id.
#[derive(Debug)]
#[allow(inconsistent_fields)]
pub enum SidecarRequest {
    Spawn {
        id: u64,
        session_id: String,
        cwd: String,
        prompt: String,
        session_type: String,
        model: Option<String>,
        effort: Option<String>,
        permission_mode: Option<String>,
        /// Empty or absent leaves the CLI default; `off` disables thinking; a decimal string
        /// is a token budget.
        thinking: Option<String>,
        /// Extra tools this session gets (`review` → `ask_original_agent`).
        tools_profile: Option<String>,
        /// Tools the session may not use at all.
        disallowed_tools: Vec<String>,
        resume_id: Option<String>,
    },
    Send { id: u64, session_id: String, prompt: String, attachments: Vec<Attachment> },
    Interrupt { id: u64, session_id: String },
    Close { id: u64, session_id: String },
    PermissionResponse {
        id: u64,
        request_id: String,
        allow: bool,
        updated_args: Option<Json>,
        message: Option<String>,
    },
    /// An empty model clears the override.
    SetModel { id: u64, session_id: String, model: String },
    /// An empty effort clears the override.
    SetEffort { id: u64, session_id: String, effort: String },
    SetPermissionMode { id: u64, session_id: String, permission_mode: String },
    /// Change how much the model may think mid-session.
    SetThinking { id: u64, session_id: String, thinking: String },
    /// Answer a dialog the CLI asked the host to render: `completed` carries a
    /// dialog-specific result; `cancelled` applies the CLI default.
    UserDialogResponse { id: u64, request_id: String, behavior: String, result: Option<Json> },
    /// The verdict on a paused tool call. `pass` hands it back to the CLI's own permission
    /// handling; `allow`/`deny` are final in every permission mode.
    GateDecision {
        id: u64,
        request_id: String,
        decision: String,
        updated_args: Option<Json>,
        message: Option<String>,
    },
    /// Answer an `ask_original_agent` call. Always a readable result, including failures.
    EscalationResponse { id: u64, request_id: String, result: String },
    /// Reconnect or enable/disable one MCP server of a running session.
    McpAction { id: u64, session_id: String, server: String, action: String },
    /// Ask the CLI for its model list without starting a session (no tokens spent).
    ListModels { id: u64, cwd: String },
    Shutdown { id: u64 },
}

/// An image pasted into the chat, carried to the model as a content block.
#[derive(Debug)]
pub struct Attachment {
    /// MIME type, e.g. `image/png`.
    pub media_type: String,
    /// Base64 payload without a data-URI prefix.
    pub data: String,
}

/// A subagent profile the session can delegate to.
#[derive(Debug)]
pub struct AgentInfo {
    pub name: String,
    pub description: String,
    pub model: String,
}

/// Connection state of one MCP server.
#[derive(Debug)]
pub struct McpServerInfo {
    pub name: String,
    pub status: String,
    pub tool_count: u32,
    pub detail: String,
}

/// One entry of the agent's todo list.
#[derive(Debug)]
pub struct TodoItem {
    pub content: String,
    pub status: String,
}

/// A slash command supported by a running session (for input autocomplete).
#[derive(Debug)]
pub struct CommandInfo {
    /// Command name without the leading slash.
    pub name: String,
    pub description: String,
    pub argument_hint: String,
}

/// A model option reported by the running CLI (for the new-session selector).
#[derive(Debug)]
pub struct ModelOption {
    pub id: String,
    pub display_name: String,
}

/// Cost and context pressure of a session. A reading may be partial.
#[derive(Debug)]
pub struct UsageReading {
    pub total_cost_usd: Option<JsonNumber>,
    pub num_turns: Option<u32>,
    pub input_tokens: Option<u64>,
    pub output_tokens: Option<u64>,
    pub context_tokens: Option<u64>,
    pub context_max_tokens: Option<u64>,
    pub context_percent: Option<JsonNumber>,
}

/// Subscription rate-limit state; the warning precedes the wall.
#[derive(Debug)]
pub struct RateLimitReading {
    pub status: String,
    pub limit_type: Option<String>,
    pub utilization: Option<JsonNumber>,
    /// The utilization rounded to whole percent, in digits.
    pub percent: Option<String>,
    pub resets_at: Option<String>,
}

/// Events received from the sidecar.
#[derive(Debug)]
#[allow(inconsistent_fields)]
pub enum SidecarEvent {
    Ready { protocol_version: u32 },
    Ack { id: u64, ok: bool, error: Option<String> },
    SessionInit { session_id: String, sdk_session_id: String, model: Option<String> },
    Commands { session_id: String, commands: Vec<CommandInfo> },
    Models { session_id: String, models: Vec<ModelOption> },
    /// `parent_tool_use_id` is set when the text came from a subagent.
    StreamDelta { session_id: String, text: String, parent_tool_use_id: Option<String> },
    /// The agent's reasoning, kept apart from its answer.
    ThinkingDelta { session_id: String, text: String, parent_tool_use_id: Option<String> },
    ToolUse {
        session_id: String,
        tool_use_id: String,
        name: String,
        summary: String,
        parent_tool_use_id: Option<String>,
    },
    /// What the tool returned, matched to its call by `tool_use_id`.
    ToolResult { session_id: String, tool_use_id: String, is_error: bool, text: String },
    /// A tool is about to run and is paused until the core answers. Fires in every
    /// permission mode.
    GateCheck { session_id: String, request_id: String, tool: String, args: Json },
    /// The session asked the agent that implemented this branch about its reasoning.
    EscalationRequest { session_id: String, request_id: String, question: String },
    /// Subagent profiles this session can delegate to.
    Agents { session_id: String, agents: Vec<AgentInfo> },
    /// MCP servers of this session and their connection state.
    McpServers { session_id: String, servers: Vec<McpServerInfo> },
    /// The agent's checklist, replaced wholesale on every update.
    Todos { session_id: String, items: Vec<TodoItem> },
    Usage { session_id: String, usage: UsageReading },
    RateLimit { session_id: String, limit: RateLimitReading },
    /// A tool call denied without asking the user.
    PermissionDenied { session_id: String, tool: String, reason: String, message: String },
    PermissionRequest {
        session_id: String,
        request_id: String,
        tool: String,
        args: Json,
        title: Option<String>,
    },
    /// The CLI wants a blocking dialog rendered.
    UserDialogRequest {
        session_id: String,
        request_id: String,
        dialog_kind: String,
        payload: Json,
        tool_use_id: Option<String>,
    },
    Status { session_id: String, status: String },
    Result { session_id: String, subtype: String, is_error: bool },
    SessionClosed { session_id: String, reason: String },
    Error { session_id: Option<String>, message: String },
}

} // verus!
