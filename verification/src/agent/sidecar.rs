//! The sidecar supervisor: which request is which, whether the process has to be started,
//! and where its events go.
//!
//! The supervisor restarts the process lazily after a crash: the crash is signalled to the
//! session layer (which fails affected sessions), and the next request spawns a fresh
//! process.
use crate::agent::protocol::{SidecarEvent, SidecarRequest, PROTOCOL_VERSION};
use crate::agent::EngineCall;
use crate::error::{is_config, is_invalid_data, MaestroError};
use crate::text::{
    blank, decimal, decimal_text, is_blank, join, join_texts, opt_view, text_of, trim, trim_text,
    views,
};
use std::collections::{HashMap, HashSet};
use vstd::prelude::*;
use vstd::string::*;

verus! {

broadcast use vstd::std_specs::hash::group_hash_axioms;

/// Signals delivered to the session layer: sidecar events plus process death.
#[derive(Debug)]
pub enum EngineSignal {
    Event(SidecarEvent),
    Crashed { code: Option<i32> },
}

/// How to launch the sidecar process.
#[derive(Debug)]
pub struct SidecarConfig {
    pub program: String,
    pub args: Vec<String>,
    pub env: Vec<(String, String)>,
}

pub const FALLBACK_SCRIPT: &'static str = "sidecar/dist/main.js";

/// The sidecar's script: the one the environment names, then the one of the development
/// tree, then the one beside the executable.
pub open spec fn script_of(
    named: Option<Seq<char>>,
    development: Option<Seq<char>>,
    installed: Option<Seq<char>>,
) -> Seq<char> {
    match named {
        Some(p) => p,
        None => match development {
            Some(p) => p,
            None => match installed {
                Some(p) => p,
                None => FALLBACK_SCRIPT@,
            },
        },
    }
}

impl SidecarConfig {
    /// Resolution order: `named`, what `MAESTRO_SIDECAR_SCRIPT` holds, then `development`,
    /// the dev-tree path if it exists, then `installed`, `sidecar/main.js` beside the
    /// executable.
    pub fn resolve(named: Option<String>, development: Option<String>, installed: Option<String>) -> (r:
        SidecarConfig)
        ensures
            r.program@ == "node"@,
            views(r.args@) == seq![
                script_of(opt_view(named), opt_view(development), opt_view(installed)),
            ],
            r.env@.len() == 0,
    {
        let script: String = match named {
            Some(p) => p,
            None => match development {
                Some(p) => p,
                None => match installed {
                    Some(p) => p,
                    None => text_of(FALLBACK_SCRIPT),
                },
            },
        };
        let ghost sv = script@;
        let mut args: Vec<String> = Vec::new();
        args.push(script);
        assert(views(args@) =~= seq![sv]);
        SidecarConfig { program: text_of("node"), args, env: Vec::new() }
    }
}

/// The session that a call is about, if a failure is to be blamed on one.
pub open spec fn session_of(call: EngineCall) -> Option<Seq<char>> {
    match call {
        EngineCall::SpawnSession(req) => Some(req.session_id@),
        EngineCall::SendPrompt { session_id, .. } => Some(session_id@),
        EngineCall::Interrupt { session_id } => Some(session_id@),
        EngineCall::CloseSession { session_id } => Some(session_id@),
        EngineCall::SetModel { session_id, .. } => Some(session_id@),
        EngineCall::SetEffort { session_id, .. } => Some(session_id@),
        EngineCall::SetPermissionMode { session_id, .. } => Some(session_id@),
        EngineCall::SetThinking { session_id, .. } => Some(session_id@),
        EngineCall::McpAction { session_id, .. } => Some(session_id@),
        _ => None,
    }
}

/// The request that carries a call.
pub open spec fn request_for(call: EngineCall, id: u64) -> SidecarRequest {
    match call {
        EngineCall::SpawnSession(req) => SidecarRequest::Spawn {
            id,
            session_id: req.session_id,
            cwd: req.cwd,
            prompt: req.prompt,
            session_type: req.session_type,
            model: req.model,
            effort: req.effort,
            permission_mode: req.permission_mode,
            thinking: req.thinking,
            tools_profile: req.tools_profile,
            disallowed_tools: req.disallowed_tools,
            resume_id: req.resume_id,
        },
        EngineCall::SendPrompt { session_id, prompt, attachments } => SidecarRequest::Send {
            id,
            session_id,
            prompt,
            attachments,
        },
        EngineCall::Interrupt { session_id } => SidecarRequest::Interrupt { id, session_id },
        EngineCall::CloseSession { session_id } => SidecarRequest::Close { id, session_id },
        EngineCall::RespondPermission { request_id, allow, updated_args, message } =>
        SidecarRequest::PermissionResponse { id, request_id, allow, updated_args, message },
        EngineCall::ListModels { cwd } => SidecarRequest::ListModels { id, cwd },
        EngineCall::SetModel { session_id, model } => SidecarRequest::SetModel {
            id,
            session_id,
            model,
        },
        EngineCall::SetEffort { session_id, effort } => SidecarRequest::SetEffort {
            id,
            session_id,
            effort,
        },
        EngineCall::SetPermissionMode { session_id, mode } => SidecarRequest::SetPermissionMode {
            id,
            session_id,
            permission_mode: mode,
        },
        EngineCall::SetThinking { session_id, thinking } => SidecarRequest::SetThinking {
            id,
            session_id,
            thinking,
        },
        EngineCall::McpAction { session_id, server, action } => SidecarRequest::McpAction {
            id,
            session_id,
            server,
            action,
        },
        EngineCall::RespondEscalation { request_id, result } =>
        SidecarRequest::EscalationResponse { id, request_id, result },
        EngineCall::RespondGateCheck { request_id, decision, updated_args, message } =>
        SidecarRequest::GateDecision { id, request_id, decision, updated_args, message },
        EngineCall::RespondUserDialog { request_id, behavior, result } =>
        SidecarRequest::UserDialogResponse { id, request_id, behavior, result },
    }
}

fn make_request(call: EngineCall, id: u64) -> (r: SidecarRequest)
    ensures
        r == request_for(call, id),
{
    match call {
        EngineCall::SpawnSession(req) => SidecarRequest::Spawn {
            id,
            session_id: req.session_id,
            cwd: req.cwd,
            prompt: req.prompt,
            session_type: req.session_type,
            model: req.model,
            effort: req.effort,
            permission_mode: req.permission_mode,
            thinking: req.thinking,
            tools_profile: req.tools_profile,
            disallowed_tools: req.disallowed_tools,
            resume_id: req.resume_id,
        },
        EngineCall::SendPrompt { session_id, prompt, attachments } => SidecarRequest::Send {
            id,
            session_id,
            prompt,
            attachments,
        },
        EngineCall::Interrupt { session_id } => SidecarRequest::Interrupt { id, session_id },
        EngineCall::CloseSession { session_id } => SidecarRequest::Close { id, session_id },
        EngineCall::RespondPermission { request_id, allow, updated_args, message } =>
        SidecarRequest::PermissionResponse { id, request_id, allow, updated_args, message },
        EngineCall::ListModels { cwd } => SidecarRequest::ListModels { id, cwd },
        EngineCall::SetModel { session_id, model } => SidecarRequest::SetModel {
            id,
            session_id,
            model,
        },
        EngineCall::SetEffort { session_id, effort } => SidecarRequest::SetEffort {
            id,
            session_id,
            effort,
        },
        EngineCall::SetPermissionMode { session_id, mode } => SidecarRequest::SetPermissionMode {
            id,
            session_id,
            permission_mode: mode,
        },
        EngineCall::SetThinking { session_id, thinking } => SidecarRequest::SetThinking {
            id,
            session_id,
            thinking,
        },
        EngineCall::McpAction { session_id, server, action } => SidecarRequest::McpAction {
            id,
            session_id,
            server,
            action,
        },
        EngineCall::RespondEscalation { request_id, result } =>
        SidecarRequest::EscalationResponse { id, request_id, result },
        EngineCall::RespondGateCheck { request_id, decision, updated_args, message } =>
        SidecarRequest::GateDecision { id, request_id, decision, updated_args, message },
        EngineCall::RespondUserDialog { request_id, behavior, result } =>
        SidecarRequest::UserDialogResponse { id, request_id, behavior, result },
    }
}

fn session_text(call: &EngineCall) -> (r: Option<String>)
    ensures
        opt_view(r) == session_of(*call),
{
    match call {
        EngineCall::SpawnSession(req) => Some(text_of(req.session_id.as_str())),
        EngineCall::SendPrompt { session_id, .. } => Some(text_of(session_id.as_str())),
        EngineCall::Interrupt { session_id } => Some(text_of(session_id.as_str())),
        EngineCall::CloseSession { session_id } => Some(text_of(session_id.as_str())),
        EngineCall::SetModel { session_id, .. } => Some(text_of(session_id.as_str())),
        EngineCall::SetEffort { session_id, .. } => Some(text_of(session_id.as_str())),
        EngineCall::SetPermissionMode { session_id, .. } => Some(text_of(session_id.as_str())),
        EngineCall::SetThinking { session_id, .. } => Some(text_of(session_id.as_str())),
        EngineCall::McpAction { session_id, .. } => Some(text_of(session_id.as_str())),
        _ => None,
    }
}

pub open spec fn id_of(request: SidecarRequest) -> u64 {
    match request {
        SidecarRequest::Spawn { id, .. } => id,
        SidecarRequest::Send { id, .. } => id,
        SidecarRequest::Interrupt { id, .. } => id,
        SidecarRequest::Close { id, .. } => id,
        SidecarRequest::PermissionResponse { id, .. } => id,
        SidecarRequest::ListModels { id, .. } => id,
        SidecarRequest::SetModel { id, .. } => id,
        SidecarRequest::SetEffort { id, .. } => id,
        SidecarRequest::SetPermissionMode { id, .. } => id,
        SidecarRequest::SetThinking { id, .. } => id,
        SidecarRequest::McpAction { id, .. } => id,
        SidecarRequest::EscalationResponse { id, .. } => id,
        SidecarRequest::GateDecision { id, .. } => id,
        SidecarRequest::UserDialogResponse { id, .. } => id,
        SidecarRequest::Shutdown { id } => id,
    }
}

/// The id that a request's answer will carry.
pub fn request_id(request: &SidecarRequest) -> (r: u64)
    ensures
        r == id_of(*request),
{
    match request {
        SidecarRequest::Spawn { id, .. } => *id,
        SidecarRequest::Send { id, .. } => *id,
        SidecarRequest::Interrupt { id, .. } => *id,
        SidecarRequest::Close { id, .. } => *id,
        SidecarRequest::PermissionResponse { id, .. } => *id,
        SidecarRequest::ListModels { id, .. } => *id,
        SidecarRequest::SetModel { id, .. } => *id,
        SidecarRequest::SetEffort { id, .. } => *id,
        SidecarRequest::SetPermissionMode { id, .. } => *id,
        SidecarRequest::SetThinking { id, .. } => *id,
        SidecarRequest::McpAction { id, .. } => *id,
        SidecarRequest::EscalationResponse { id, .. } => *id,
        SidecarRequest::GateDecision { id, .. } => *id,
        SidecarRequest::UserDialogResponse { id, .. } => *id,
        SidecarRequest::Shutdown { id } => *id,
    }
}

/// A request on its way to the sidecar.
#[derive(Debug)]
pub struct Outgoing {
    pub request: SidecarRequest,
    /// The session to blame if the sidecar rejects it.
    pub session_id: Option<String>,
    /// Whether the sidecar has to be started first.
    pub start: bool,
}

/// The supervisor's state.
#[derive(Debug)]
pub struct SidecarEngine {
    pub next_id: u64,
    /// How many processes were started.
    pub generation: u64,
    /// The generation of the process that requests are written to.
    pub running: Option<u64>,
    /// The generations whose pipe broke and whose exit was not seen yet.
    pub broken: HashSet<u64>,
    /// Request id → session id, so failed acks can be attributed to a session.
    pub pending: HashMap<u64, String>,
}

/// Which session each unanswered request is about.
pub open spec fn blamed(pending: Map<u64, String>) -> Map<u64, Seq<char>> {
    pending.map_values(|s: String| s@)
}

pub open spec fn next_of(n: u64) -> u64 {
    if n == u64::MAX {
        0
    } else {
        (n + 1) as u64
    }
}

pub open spec fn mismatch_text(version: u32) -> Seq<char> {
    "the sidecar speaks protocol v"@ + decimal(version as nat) + ", this build expects v"@
        + decimal(PROTOCOL_VERSION as nat) + "; rebuild it with: cd sidecar && npm run build"@
}

/// Whether `s` raises an error.
pub open spec fn is_error_signal(
    s: EngineSignal,
    session: Option<Seq<char>>,
    text: Seq<char>,
) -> bool {
    s matches EngineSignal::Event(SidecarEvent::Error { session_id, message }) && opt_view(
        session_id,
    ) == session && message@ == text
}

/// Whether `s` closes a session for an error.
pub open spec fn is_close_signal(s: EngineSignal, session: Seq<char>) -> bool {
    s matches EngineSignal::Event(SidecarEvent::SessionClosed { session_id, reason }) && session_id@
        == session && reason@ == "error"@
}

/// The requests that are still to be answered after an event.
pub open spec fn pending_after(pending: Map<u64, Seq<char>>, e: SidecarEvent) -> Map<
    u64,
    Seq<char>,
> {
    match e {
        SidecarEvent::Ack { id, .. } => pending.remove(id),
        _ => pending,
    }
}

/// Whether `r` is what the session layer hears of an event.
pub open spec fn is_routed(r: Seq<EngineSignal>, pending: Map<u64, Seq<char>>, e: SidecarEvent) -> bool {
    match e {
        SidecarEvent::Ready { protocol_version } => if protocol_version == PROTOCOL_VERSION {
            r.len() == 0
        } else {
            r.len() == 1 && is_error_signal(r[0], None, mismatch_text(protocol_version))
        },
        SidecarEvent::Ack { id, ok, error } => if ok || !pending.dom().contains(id) {
            r.len() == 0
        } else {
            r.len() == 2 && is_error_signal(
                r[0],
                Some(pending[id]),
                match error {
                    Some(m) => m@,
                    None => "request rejected"@,
                },
            ) && is_close_signal(r[1], pending[id])
        },
        _ => r == seq![EngineSignal::Event(e)],
    }
}

impl SidecarEngine {
    pub fn new() -> (e: Self)
        ensures
            e.next_id == 1,
            e.generation == 0,
            e.running is None,
            e.broken@ == Set::<u64>::empty(),
            blamed(e.pending@) == Map::<u64, Seq<char>>::empty(),
    {
        let pending: HashMap<u64, String> = HashMap::new();
        assert(blamed(pending@) =~= Map::empty());
        SidecarEngine { next_id: 1, generation: 0, running: None, broken: HashSet::new(), pending }
    }

    /// The request that carries `call`, under an id of its own.
    pub fn request(&mut self, call: EngineCall) -> (r: Outgoing)
        ensures
            r.request == request_for(call, old(self).next_id),
            opt_view(r.session_id) == session_of(call),
            r.start == (old(self).running is None),
            final(self).next_id == next_of(old(self).next_id),
            final(self).generation == old(self).generation,
            final(self).running == old(self).running,
            final(self).broken == old(self).broken,
            final(self).pending == old(self).pending,
    {
        let id: u64 = self.next_id;
        self.next_id = if id == u64::MAX {
            0
        } else {
            id + 1
        };
        Outgoing {
            session_id: session_text(&call),
            request: make_request(call, id),
            start: self.running.is_none(),
        }
    }

    /// A process was started; requests are now written to it.
    pub fn started(&mut self) -> (generation: u64)
        ensures
            generation == next_of(old(self).generation),
            final(self).generation == generation,
            final(self).running == Some(generation),
            final(self).broken == old(self).broken,
            final(self).next_id == old(self).next_id,
            final(self).pending == old(self).pending,
    {
        let generation: u64 = if self.generation == u64::MAX {
            0
        } else {
            self.generation + 1
        };
        self.generation = generation;
        self.running = Some(generation);
        generation
    }

    /// A request is about to be written: remember whom to blame for it.
    pub fn sending(&mut self, outgoing: &Outgoing)
        ensures
            blamed(final(self).pending@) == (match outgoing.session_id {
                Some(s) => blamed(old(self).pending@).insert(id_of(outgoing.request), s@),
                None => blamed(old(self).pending@),
            }),
            final(self).next_id == old(self).next_id,
            final(self).generation == old(self).generation,
            final(self).running == old(self).running,
            final(self).broken == old(self).broken,
    {
        match &outgoing.session_id {
            Some(s) => {
                let id: u64 = request_id(&outgoing.request);
                let ghost before = self.pending@;
                self.pending.insert(id, text_of(s.as_str()));
                assert(blamed(self.pending@) =~= blamed(before).insert(id, s@));
            },
            None => {},
        }
    }

    /// The pipe broke: the process is dead or dying, and the next request restarts it. Its
    /// exit is still to be reported as the crash that it is.
    pub fn write_failed(&mut self, reason: &str) -> (e: MaestroError)
        ensures
            final(self).running is None,
            final(self).broken@ == broken_by(old(self).broken@, old(self).running),
            final(self).next_id == old(self).next_id,
            final(self).generation == old(self).generation,
            final(self).pending == old(self).pending,
            is_invalid_data(e, "sidecar write failed: "@ + reason@),
    {
        match self.running {
            Some(generation) => {
                self.broken.insert(generation);
            },
            None => {},
        }
        self.running = None;
        MaestroError::InvalidData { message: text_of("sidecar write failed: ").concat(reason) }
    }

    /// What the session layer hears of an event of the sidecar.
    pub fn on_event(&mut self, event: SidecarEvent) -> (r: Vec<EngineSignal>)
        ensures
            is_routed(r@, blamed(old(self).pending@), event),
            blamed(final(self).pending@) == pending_after(blamed(old(self).pending@), event),
            final(self).next_id == old(self).next_id,
            final(self).generation == old(self).generation,
            final(self).running == old(self).running,
            final(self).broken == old(self).broken,
    {
        let mut out: Vec<EngineSignal> = Vec::new();
        match event {
            SidecarEvent::Ready { protocol_version } => {
                if protocol_version != PROTOCOL_VERSION {
                    out.push(
                        EngineSignal::Event(
                            SidecarEvent::Error {
                                session_id: None,
                                message: text_of("the sidecar speaks protocol v").concat(
                                    decimal_text(protocol_version as u64).as_str(),
                                ).concat(", this build expects v").concat(
                                    decimal_text(PROTOCOL_VERSION as u64).as_str(),
                                ).concat("; rebuild it with: cd sidecar && npm run build"),
                            },
                        ),
                    );
                }
                out
            },
            SidecarEvent::Ack { id, ok, error } => {
                let ghost before = self.pending@;
                let session: Option<String> = self.pending.remove(&id);
                assert(blamed(self.pending@) =~= blamed(before).remove(id));
                if !ok {
                    let message: String = match error {
                        Some(m) => m,
                        None => text_of("request rejected"),
                    };
                    match session {
                        Some(session_id) => {
                            // Attribute the failure to the session so it can be failed.
                            out.push(
                                EngineSignal::Event(
                                    SidecarEvent::Error {
                                        session_id: Some(text_of(session_id.as_str())),
                                        message,
                                    },
                                ),
                            );
                            out.push(
                                EngineSignal::Event(
                                    SidecarEvent::SessionClosed {
                                        session_id,
                                        reason: text_of("error"),
                                    },
                                ),
                            );
                        },
                        None => {},
                    }
                }
                out
            },
            other => {
                let ghost e = other;
                out.push(EngineSignal::Event(other));
                assert(out@ =~= seq![EngineSignal::Event(e)]);
                out
            },
        }
    }

    /// A process exited. While it still counted as the running one, or when its pipe broke
    /// before, that is a crash; anything else was reported already.
    pub fn on_exit(&mut self, generation: u64, code: Option<i32>) -> (r: Option<EngineSignal>)
        ensures
            final(self).running == running_after(old(self).running, generation),
            final(self).broken@ == old(self).broken@.remove(generation),
            final(self).next_id == old(self).next_id,
            final(self).generation == old(self).generation,
            final(self).pending == old(self).pending,
            if is_crash(old(self).running, old(self).broken@, generation) {
                r == Some(EngineSignal::Crashed { code })
            } else {
                r is None
            },
    {
        let current: bool = match self.running {
            Some(g) => g == generation,
            None => false,
        };
        let broke: bool = self.broken.remove(&generation);
        if current {
            self.running = None;
        }
        if current || broke {
            Some(EngineSignal::Crashed { code })
        } else {
            None
        }
    }
}

/// The running process after the one of `generation` exited.
pub open spec fn running_after(running: Option<u64>, generation: u64) -> Option<u64> {
    if running == Some(generation) {
        None
    } else {
        running
    }
}

/// The processes whose exit is still to be reported, after a write to the running one failed.
pub open spec fn broken_by(broken: Set<u64>, running: Option<u64>) -> Set<u64> {
    match running {
        Some(generation) => broken.insert(generation),
        None => broken,
    }
}

/// Whether the exit of the process of `generation` is a crash that nobody heard of.
pub open spec fn is_crash(running: Option<u64>, broken: Set<u64>, generation: u64) -> bool {
    running == Some(generation) || broken.contains(generation)
}

/// The sidecar could not be started.
pub fn not_launched(config: &SidecarConfig, reason: &str) -> (e: MaestroError)
    ensures
        is_config(
            e,
            "failed to launch sidecar ("@ + config.program@ + " "@ + join(
                views(config.args@),
                " "@,
            ) + "): "@ + reason@,
        ),
{
    MaestroError::Config {
        message: text_of("failed to launch sidecar (").concat(config.program.as_str()).concat(
            " ",
        ).concat(join_texts(&config.args, " ").as_str()).concat("): ").concat(reason),
    }
}

/// What is to be parsed of a line of the sidecar's output; blank ones are passed over.
pub fn event_text(line: &str) -> (r: Option<String>)
    ensures
        match r {
            Some(t) => !is_blank(line@) && t@ == trim(line@),
            None => is_blank(line@),
        },
{
    if blank(line) {
        None
    } else {
        Some(trim_text(line))
    }
}

/// A rejected request fails its session once: the same answer again is blamed on no one.
pub proof fn a_rejection_is_blamed_once(
    pending: Map<u64, Seq<char>>,
    e: SidecarEvent,
    r: Seq<EngineSignal>,
)
    requires
        e is Ack,
        is_routed(r, pending_after(pending, e), e),
    ensures
        r.len() == 0,
{
}

/// A crash is reported once, and the next request starts a new process; the exit of a
/// process that another has replaced is no crash of that other one.
pub proof fn a_crash_is_reported_once(
    running: Option<u64>,
    broken: Set<u64>,
    generation: u64,
    newer: u64,
)
    requires
        newer != generation,
    ensures
        !is_crash(running_after(running, generation), broken.remove(generation), generation),
        running_after(Some(generation), generation) is None,
        running_after(Some(newer), generation) == Some(newer),
{
}

/// A process whose pipe broke has crashed: its exit is reported, whether or not another one
/// was started in the meantime.
pub proof fn a_broken_pipe_is_a_crash(
    running: Option<u64>,
    broken: Set<u64>,
    generation: u64,
    newer: Option<u64>,
)
    requires
        is_crash(running, broken, generation),
    ensures
        is_crash(newer, broken_by(broken, running), generation),
{
}

} // verus!
