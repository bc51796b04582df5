//! The agent engine: what the session layer asks of it, and how the sidecar's answers
//! are routed.
pub mod protocol;
pub mod sidecar;
use crate::agent::protocol::Attachment;
use crate::json::Json;
use vstd::prelude::*;

verus! {

/// Everything the session layer needs to know to start a session.
#[derive(Debug)]
pub struct SpawnSessionRequest {
    pub session_id: String,
    pub cwd: String,
    pub prompt: String,
    pub session_type: String,
    pub model: Option<String>,
    pub effort: Option<String>,
    pub permission_mode: Option<String>,
    pub thinking: Option<String>,
    /// Extra tools this session gets (`review` → `ask_original_agent`).
    pub tools_profile: Option<String>,
    /// Tools this session may not use at all.
    pub disallowed_tools: Vec<String>,
    pub resume_id: Option<String>,
}

/// One call of the agent engine.
#[derive(Debug)]
#[allow(inconsistent_fields)]
pub enum EngineCall {
    SpawnSession(SpawnSessionRequest),
    SendPrompt { session_id: String, prompt: String, attachments: Vec<Attachment> },
    Interrupt { session_id: String },
    CloseSession { session_id: String },
    RespondPermission {
        request_id: String,
        allow: bool,
        updated_args: Option<Json>,
        message: Option<String>,
    },
    /// Ask the CLI which models it offers; the answer arrives as a `models` event.
    ListModels { cwd: String },
    /// An empty string clears the override.
    SetModel { session_id: String, model: String },
    /// An empty string clears the override.
    SetEffort { session_id: String, effort: String },
    SetPermissionMode { session_id: String, mode: String },
    SetThinking { session_id: String, thinking: String },
    /// `reconnect`, `enable` or `disable` one of the session's MCP servers.
    McpAction { session_id: String, server: String, action: String },
    /// Answer an `ask_original_agent` call with text the asking agent can read.
    RespondEscalation { request_id: String, result: String },
    /// Answer a paused tool call: `pass`, `allow` or `deny`.
    RespondGateCheck {
        request_id: String,
        decision: String,
        updated_args: Option<Json>,
        message: Option<String>,
    },
    /// Answer a dialog the CLI asked the host to render.
    RespondUserDialog { request_id: String, behavior: String, result: Option<Json> },
}

} // verus!
