//! What the core wants done: events to publish, calls of the agent engine, writes to the
//! store. The core decides; whoever drives it performs the effects in their order.
use crate::agent::protocol::Attachment;
use crate::agent::{EngineCall, SpawnSessionRequest};
use crate::bus::{Event, EventV};
use crate::json::{opt_json_view, JsonV};
use crate::session::{Session, SessionStatus, SessionV};
use crate::text::{opt_view, views};
use vstd::prelude::*;

verus! {

/// One write to the store.
#[derive(Debug)]
#[allow(inconsistent_fields)]
pub enum StoreWrite {
    UpsertBranch { branch: String },
    InsertSession(Session),
    UpdateStatus { session_id: String, status: SessionStatus },
    SetSdkId { session_id: String, sdk_session_id: String },
    /// Only the settings that are present change.
    SetRuntime {
        session_id: String,
        model: Option<String>,
        effort: Option<String>,
        permission_mode: Option<String>,
        thinking: Option<String>,
    },
    DeleteSession { session_id: String },
}

/// Work that can fail.
#[derive(Debug)]
pub enum Action {
    Engine(EngineCall),
    Store(StoreWrite),
}

/// One thing to be done.
#[derive(Debug)]
#[allow(inconsistent_fields)]
pub enum Effect {
    Publish(Event),
    /// Where it fails, the operation ends there with that error.
    Require(Action),
    /// Where it fails, the error is reported and the operation goes on.
    Attempt(Action),
    /// Hand a question to the escalation layer.
    Escalate { session_id: String, request_id: String, question: String },
}

pub struct SpawnRequestV {
    pub session_id: Seq<char>,
    pub cwd: Seq<char>,
    pub prompt: Seq<char>,
    pub session_type: Seq<char>,
    pub model: Option<Seq<char>>,
    pub effort: Option<Seq<char>>,
    pub permission_mode: Option<Seq<char>>,
    pub thinking: Option<Seq<char>>,
    pub tools_profile: Option<Seq<char>>,
    pub disallowed_tools: Seq<Seq<char>>,
    pub resume_id: Option<Seq<char>>,
}

impl View for SpawnSessionRequest {
    type V = SpawnRequestV;

    open spec fn view(&self) -> SpawnRequestV {
        SpawnRequestV {
            session_id: self.session_id@,
            cwd: self.cwd@,
            prompt: self.prompt@,
            session_type: self.session_type@,
            model: opt_view(self.model),
            effort: opt_view(self.effort),
            permission_mode: opt_view(self.permission_mode),
            thinking: opt_view(self.thinking),
            tools_profile: opt_view(self.tools_profile),
            disallowed_tools: views(self.disallowed_tools@),
            resume_id: opt_view(self.resume_id),
        }
    }
}

#[allow(inconsistent_fields)]
pub enum EngineCallV {
    SpawnSession(SpawnRequestV),
    SendPrompt { session_id: Seq<char>, prompt: Seq<char>, attachments: Seq<Attachment> },
    Interrupt { session_id: Seq<char> },
    CloseSession { session_id: Seq<char> },
    RespondPermission {
        request_id: Seq<char>,
        allow: bool,
        updated_args: Option<JsonV>,
        message: Option<Seq<char>>,
    },
    ListModels { cwd: Seq<char> },
    SetModel { session_id: Seq<char>, model: Seq<char> },
    SetEffort { session_id: Seq<char>, effort: Seq<char> },
    SetPermissionMode { session_id: Seq<char>, mode: Seq<char> },
    SetThinking { session_id: Seq<char>, thinking: Seq<char> },
    McpAction { session_id: Seq<char>, server: Seq<char>, action: Seq<char> },
    RespondEscalation { request_id: Seq<char>, result: Seq<char> },
    RespondGateCheck {
        request_id: Seq<char>,
        decision: Seq<char>,
        updated_args: Option<JsonV>,
        message: Option<Seq<char>>,
    },
    RespondUserDialog { request_id: Seq<char>, behavior: Seq<char>, result: Option<JsonV> },
}

impl View for EngineCall {
    type V = EngineCallV;

    open spec fn view(&self) -> EngineCallV {
        match *self {
            EngineCall::SpawnSession(r) => EngineCallV::SpawnSession(r@),
            EngineCall::SendPrompt { session_id, prompt, attachments } => EngineCallV::SendPrompt {
                session_id: session_id@,
                prompt: prompt@,
                attachments: attachments@,
            },
            EngineCall::Interrupt { session_id } => EngineCallV::Interrupt {
                session_id: session_id@,
            },
            EngineCall::CloseSession { session_id } => EngineCallV::CloseSession {
                session_id: session_id@,
            },
            EngineCall::RespondPermission { request_id, allow, updated_args, message } =>
            EngineCallV::RespondPermission {
                request_id: request_id@,
                allow,
                updated_args: opt_json_view(updated_args),
                message: opt_view(message),
            },
            EngineCall::ListModels { cwd } => EngineCallV::ListModels { cwd: cwd@ },
            EngineCall::SetModel { session_id, model } => EngineCallV::SetModel {
                session_id: session_id@,
                model: model@,
            },
            EngineCall::SetEffort { session_id, effort } => EngineCallV::SetEffort {
                session_id: session_id@,
                effort: effort@,
            },
            EngineCall::SetPermissionMode { session_id, mode } => EngineCallV::SetPermissionMode {
                session_id: session_id@,
                mode: mode@,
            },
            EngineCall::SetThinking { session_id, thinking } => EngineCallV::SetThinking {
                session_id: session_id@,
                thinking: thinking@,
            },
            EngineCall::McpAction { session_id, server, action } => EngineCallV::McpAction {
                session_id: session_id@,
                server: server@,
                action: action@,
            },
            EngineCall::RespondEscalation { request_id, result } =>
            EngineCallV::RespondEscalation { request_id: request_id@, result: result@ },
            EngineCall::RespondGateCheck { request_id, decision, updated_args, message } =>
            EngineCallV::RespondGateCheck {
                request_id: request_id@,
                decision: decision@,
                updated_args: opt_json_view(updated_args),
                message: opt_view(message),
            },
            EngineCall::RespondUserDialog { request_id, behavior, result } =>
            EngineCallV::RespondUserDialog {
                request_id: request_id@,
                behavior: behavior@,
                result: opt_json_view(result),
            },
        }
    }
}

#[allow(inconsistent_fields)]
pub enum StoreWriteV {
    UpsertBranch { branch: Seq<char> },
    InsertSession(SessionV),
    UpdateStatus { session_id: Seq<char>, status: SessionStatus },
    SetSdkId { session_id: Seq<char>, sdk_session_id: Seq<char> },
    SetRuntime {
        session_id: Seq<char>,
        model: Option<Seq<char>>,
        effort: Option<Seq<char>>,
        permission_mode: Option<Seq<char>>,
        thinking: Option<Seq<char>>,
    },
    DeleteSession { session_id: Seq<char> },
}

impl View for StoreWrite {
    type V = StoreWriteV;

    open spec fn view(&self) -> StoreWriteV {
        match *self {
            StoreWrite::UpsertBranch { branch } => StoreWriteV::UpsertBranch { branch: branch@ },
            StoreWrite::InsertSession(s) => StoreWriteV::InsertSession(s@),
            StoreWrite::UpdateStatus { session_id, status } => StoreWriteV::UpdateStatus {
                session_id: session_id@,
                status,
            },
            StoreWrite::SetSdkId { session_id, sdk_session_id } => StoreWriteV::SetSdkId {
                session_id: session_id@,
                sdk_session_id: sdk_session_id@,
            },
            StoreWrite::SetRuntime { session_id, model, effort, permission_mode, thinking } =>
            StoreWriteV::SetRuntime {
                session_id: session_id@,
                model: opt_view(model),
                effort: opt_view(effort),
                permission_mode: opt_view(permission_mode),
                thinking: opt_view(thinking),
            },
            StoreWrite::DeleteSession { session_id } => StoreWriteV::DeleteSession {
                session_id: session_id@,
            },
        }
    }
}

pub enum ActionV {
    Engine(EngineCallV),
    Store(StoreWriteV),
}

impl View for Action {
    type V = ActionV;

    open spec fn view(&self) -> ActionV {
        match *self {
            Action::Engine(c) => ActionV::Engine(c@),
            Action::Store(w) => ActionV::Store(w@),
        }
    }
}

#[allow(inconsistent_fields)]
pub enum EffectV {
    Publish(EventV),
    Require(ActionV),
    Attempt(ActionV),
    Escalate { session_id: Seq<char>, request_id: Seq<char>, question: Seq<char> },
}

impl View for Effect {
    type V = EffectV;

    open spec fn view(&self) -> EffectV {
        match *self {
            Effect::Publish(e) => EffectV::Publish(e@),
            Effect::Require(a) => EffectV::Require(a@),
            Effect::Attempt(a) => EffectV::Attempt(a@),
            Effect::Escalate { session_id, request_id, question } => EffectV::Escalate {
                session_id: session_id@,
                request_id: request_id@,
                question: question@,
            },
        }
    }
}

pub open spec fn effect_views(v: Seq<Effect>) -> Seq<EffectV> {
    v.map_values(|e: Effect| e@)
}

/// The events as effects.
pub open spec fn published(events: Seq<EventV>) -> Seq<EffectV> {
    events.map_values(|e: EventV| EffectV::Publish(e))
}

pub fn push_effect(v: &mut Vec<Effect>, e: Effect)
    ensures
        effect_views(final(v)@) == effect_views(old(v)@).push(e@),
{
    v.push(e);
    assert(effect_views(v@) =~= effect_views(old(v)@).push(e@));
}

/// Appends the events, each to be published.
pub fn push_events(v: &mut Vec<Effect>, events: Vec<Event>)
    ensures
        effect_views(final(v)@) == effect_views(old(v)@) + published(
            crate::bus::event_views(events@),
        ),
{
    let ghost all = crate::bus::event_views(events@);
    let mut rest: Vec<Event> = events;
    let ghost mut n: int = 0;
    assert(effect_views(v@) + published(all.take(0)) =~= effect_views(v@));
    while rest.len() > 0
        invariant
            0 <= n <= all.len(),
            crate::bus::event_views(rest@) == all.subrange(n, all.len() as int),
            effect_views(v@) == effect_views(old(v)@) + published(all.take(n)),
        decreases rest@.len(),
    {
        let ghost before = crate::bus::event_views(rest@);
        assert(before.len() == rest@.len());
        let e: Event = rest.remove(0);
        assert(before[0] == e@);
        assert(crate::bus::event_views(rest@) =~= before.subrange(1, before.len() as int));
        assert(before.subrange(1, before.len() as int) =~= all.subrange(n + 1, all.len() as int));
        push_effect(v, Effect::Publish(e));
        assert(published(all.take(n + 1)) =~= published(all.take(n)).push(
            EffectV::Publish(all[n]),
        ));
        assert(effect_views(v@) =~= effect_views(old(v)@) + published(all.take(n + 1)));
        proof {
            n = n + 1;
        }
    }
    assert(crate::bus::event_views(rest@).len() == 0);
    assert(all.take(n) =~= all);
}

} // verus!
