//! What a session is started with, how it moves and how it ends, in terms of what was asked
//! for.
use crate::agent::protocol::SidecarEvent;
use crate::asking::lemma_put_unique;
use crate::bus::{Event, EventV, Severity};
use crate::daemon::briefing::{includes, lemma_includes};
use crate::effects::{ActionV, EffectV, EngineCallV, SpawnRequestV, StoreWriteV};
use crate::gate::best_match;
use crate::gate::wrapping::lemma_not_blank;
use crate::housekeeping::{a_written_number_reads_back, lemma_decimal};
use crate::session::manager::{
    approves_plan, branch_in, close_asked, closed, closed_status, crash_message, deadline,
    dialog_claims, finalize_prompt, finalize_secs, finalize_vars, mode_effects, or_text,
    rate_limit_message, unclosable, finish_effects_if, handled, liveness_error, mode_error,
    mode_set, runtime_after, slot_taken, spawn_effects, spawn_error, spawn_request, spawned,
    spawned_session, transition_effects, transitioned, writer_conflict, DialogV, FinalizeInputs,
    ManagerV, RuntimeV, SpawnParamsV,
};
use crate::session::{
    known_effort, known_thinking, may_become, status_of_text, terminal, writer_mode, SessionStatus,
    SessionType, SessionV,
};
use crate::table::{t_get, t_get_at, t_get_del, t_get_has, t_get_put, t_put, t_unique};
use crate::text::{decimal, is_ascii_digit};
use vstd::prelude::*;

verus! {

// ---------------------------------------------------------------------------
// Starting
// ---------------------------------------------------------------------------

/// Whether the effects end with storing `row`, telling of it and starting `request`.
pub open spec fn starts(effects: Seq<EffectV>, row: SessionV, request: SpawnRequestV) -> bool {
    let n = effects.len() as int;
    &&& n >= 3
    &&& effects[n - 3] == EffectV::Require(ActionV::Store(StoreWriteV::InsertSession(row)))
    &&& effects[n - 2] == EffectV::Publish(
        EventV::Status {
            session_id: row.id,
            branch: row.branch,
            status: SessionStatus::Spawning,
        },
    )
    &&& effects[n - 1] == EffectV::Require(
        ActionV::Engine(EngineCallV::SpawnSession(request)),
    )
}

/// A setting of a new session: what the caller gives, whatever session is resumed; one that
/// the caller leaves open is that of the resumed session, and stays open without one.
pub open spec fn taken_from(
    got: Option<Seq<char>>,
    given: Option<Seq<char>>,
    resumes: bool,
    resumed: Option<Seq<char>>,
) -> bool {
    &&& given is Some ==> got == given
    &&& given is None && resumes ==> got == resumed
    &&& given is None && !resumes ==> got is None
}

/// A session is started with what the caller asked for: the stored row, the row that is
/// handed back and the request to the engine hold the same model, effort and thinking budget,
/// which are the caller's own where they are given and the resumed session's where they are
/// not; everything else is the caller's.
pub proof fn a_spawn_starts_what_was_asked_for(
    m: ManagerV,
    p: SpawnParamsV,
    source: Option<SessionV>,
    policy: Option<Seq<char>>,
    id: Seq<char>,
    now: i128,
)
    requires
        spawn_error(m, p, source, policy) is None,
    ensures
        ({
            let row = spawned_session(m, p, source, id, now);
            let request = spawn_request(m, p, source, id);
            let resumes = p.resume_from is Some;
            let s = source->0;
            &&& starts(spawn_effects(m, p, source, id, now), row, request)
            &&& taken_from(row.model, p.model, resumes, s.model)
            &&& taken_from(row.effort, p.effort, resumes, s.effort)
            &&& taken_from(row.thinking, p.thinking, resumes, s.thinking)
            &&& request.model == row.model
            &&& request.effort == row.effort
            &&& request.thinking == row.thinking
            &&& request.permission_mode == row.permission_mode
            &&& row.id == id && request.session_id == id
            &&& row.branch == p.branch
            &&& row.session_type == p.session_type
            &&& request.session_type == (match p.session_type {
                SessionType::Research => "research"@,
                SessionType::Escalation => "escalation"@,
                SessionType::Implementation => "implementation"@,
                SessionType::ReviewFix => "review_fix"@,
                SessionType::Manual => "manual"@,
                SessionType::Main => "main"@,
                SessionType::RedTeam => "red_team"@,
            })
            &&& row.tools_profile == p.tools_profile && request.tools_profile == p.tools_profile
            &&& request.disallowed_tools == p.disallowed_tools
            &&& request.cwd == p.cwd
            &&& request.prompt == p.prompt
            &&& row.status == SessionStatus::Spawning
            &&& row.sdk_session_id is None
            &&& row.created_at == now && row.updated_at == now
            &&& !resumes ==> request.resume_id is None
            &&& resumes ==> source is Some && request.resume_id is Some && request.resume_id
                == s.sdk_session_id
        }),
{
    let effects = spawn_effects(m, p, source, id, now);
    let n = effects.len() as int;
    assert(n == 3 || n == 4);
}

/// A session can be resumed exactly where its row is known and the engine has an id for it.
pub proof fn only_a_known_session_is_resumed(
    m: ManagerV,
    p: SpawnParamsV,
    source: Option<SessionV>,
    policy: Option<Seq<char>>,
)
    ensures
        p.resume_from is Some && source is None ==> spawn_error(m, p, source, policy) == Some(
            "cannot resume: unknown session "@ + p.resume_from->0,
        ),
        p.resume_from is Some && source is Some && source->0.sdk_session_id is None
            ==> spawn_error(m, p, source, policy) == Some(
            "cannot resume: session has no SDK session id"@,
        ),
        p.permission_mode == Some("plan"@) && (p.resume_from is None || source is Some
            && source->0.sdk_session_id is Some) ==> spawn_error(m, p, source, policy) is None,
{
}

/// Whether a live session writes on the branch.
pub open spec fn writer_on(m: ManagerV, branch: Seq<char>, writer: Seq<char>) -> bool {
    t_get(m.runtime, writer) matches Some(r) && r.branch == branch && r.is_writer && r.status
        != SessionStatus::Done && r.status != SessionStatus::Failed && r.status
        != SessionStatus::Cancelled
}

proof fn lemma_writer_on(m: ManagerV, branch: Seq<char>, writer: Seq<char>)
    requires
        writer_on(m, branch, writer),
    ensures
        slot_taken(m.runtime, branch, None),
        forall|id: Seq<char>| id != writer ==> #[trigger] slot_taken(m.runtime, branch, Some(id)),
{
    t_get_has(m.runtime, writer);
    lemma_found(m.runtime, writer);
    let i = choose|i: int|
        0 <= i < m.runtime.len() && #[trigger] m.runtime[i] == (writer, t_get(
            m.runtime,
            writer,
        )->0);
    assert(Some(m.runtime[i].0) != None::<Seq<char>>);
    assert forall|id: Seq<char>| id != writer implies #[trigger] slot_taken(
        m.runtime,
        branch,
        Some(id),
    ) by {
        assert(Some(m.runtime[i].0) != Some(id));
    }
}

/// What is found under a key stands there.
proof fn lemma_found(rt: Seq<(Seq<char>, RuntimeV)>, id: Seq<char>)
    requires
        t_get(rt, id) is Some,
    ensures
        exists|i: int| 0 <= i < rt.len() && #[trigger] rt[i] == (id, t_get(rt, id)->0),
    decreases rt.len(),
{
    if rt.last().0 == id {
        assert(rt[rt.len() - 1] == (id, t_get(rt, id)->0));
    } else {
        let d = rt.drop_last();
        lemma_found(d, id);
        let i = choose|i: int| 0 <= i < d.len() && #[trigger] d[i] == (id, t_get(d, id)->0);
        assert(rt[i] == d[i]);
    }
}

/// On a branch with a live writer every new session is read-only: one that asks to write is
/// refused under the policy `reject`, and otherwise starts in the mode `plan`, with a notice.
pub proof fn a_second_writer_is_refused_or_made_read_only(
    m: ManagerV,
    p: SpawnParamsV,
    source: Option<SessionV>,
    policy: Option<Seq<char>>,
    id: Seq<char>,
    now: i128,
    writer: Seq<char>,
)
    requires
        t_unique(m.runtime),
        writer_on(m, p.branch, writer),
        p.resume_from is None,
        p.permission_mode != Some("plan"@),
    ensures
        policy == Some("reject"@) ==> spawn_error(m, p, source, policy) == Some(
            "a writer session is already active on "@ + p.branch + " — close it first"@,
        ),
        policy != Some("reject"@) ==> {
            &&& spawn_error(m, p, source, policy) is None
            &&& spawned_session(m, p, source, id, now).permission_mode == Some("plan"@)
            &&& spawn_effects(m, p, source, id, now).len() == 4
            &&& spawn_effects(m, p, source, id, now)[0] == EffectV::Publish(
                EventV::ErrorRaised {
                    severity: Severity::Info,
                    code: "session"@,
                    message: "a writer is already active on "@ + p.branch
                        + " — new session started read-only"@,
                },
            )
            &&& t_get(spawned(m, p, id).runtime, id) == Some(
                RuntimeV {
                    branch: p.branch,
                    status: SessionStatus::Spawning,
                    is_writer: false,
                    close_requested: false,
                },
            )
        },
{
    lemma_writer_on(m, p.branch, writer);
    let r = RuntimeV {
        branch: p.branch,
        status: SessionStatus::Spawning,
        is_writer: writer_mode(Some("plan"@)),
        close_requested: false,
    };
    t_get_put(m.runtime, id, r, id);
}

/// On a branch without a live writer, and for a session that asks for `plan`, the mode is
/// the one that was asked for, without a notice; the session counts as the branch's writer
/// exactly where that mode is not `plan`.
pub proof fn a_first_writer_writes(
    m: ManagerV,
    p: SpawnParamsV,
    source: Option<SessionV>,
    policy: Option<Seq<char>>,
    id: Seq<char>,
    now: i128,
)
    requires
        t_unique(m.runtime),
        p.resume_from is None,
        p.permission_mode == Some("plan"@) || forall|w: Seq<char>|
            !(#[trigger] writer_on(m, p.branch, w)),
    ensures
        spawn_error(m, p, source, policy) is None,
        spawned_session(m, p, source, id, now).permission_mode == p.permission_mode,
        spawn_effects(m, p, source, id, now).len() == 3,
        t_get(spawned(m, p, id).runtime, id) == Some(
            RuntimeV {
                branch: p.branch,
                status: SessionStatus::Spawning,
                is_writer: p.permission_mode != Some("plan"@),
                close_requested: false,
            },
        ),
        forall|o: Seq<char>|
            o != id ==> #[trigger] t_get(spawned(m, p, id).runtime, o) == t_get(m.runtime, o),
{
    if writer_conflict(m, p) {
        let i = choose|i: int|
            0 <= i < m.runtime.len() && Some((#[trigger] m.runtime[i]).0) != None::<Seq<char>>
                && crate::session::manager::holds_slot(m.runtime[i].1, p.branch);
        t_get_at(m.runtime, i);
        assert(writer_on(m, p.branch, m.runtime[i].0));
    }
    let r = RuntimeV {
        branch: p.branch,
        status: SessionStatus::Spawning,
        is_writer: p.permission_mode != Some("plan"@),
        close_requested: false,
    };
    assert forall|o: Seq<char>| #[trigger] t_get(spawned(m, p, id).runtime, o) == (if o == id {
        Some(r)
    } else {
        t_get(m.runtime, o)
    }) by {
        t_get_put(m.runtime, id, r, o);
    }
}

// ---------------------------------------------------------------------------
// Moving
// ---------------------------------------------------------------------------

/// The state machine: a live session can take on any other status but `spawning`; one that
/// has not begun cannot be done, and one that has ended stays what it is.
pub proof fn the_edges_of_the_state_machine(from: SessionStatus, to: SessionStatus)
    ensures
        terminal(from) <==> from == SessionStatus::Done || from == SessionStatus::Failed || from
            == SessionStatus::Cancelled,
        may_become(from, to) <==> {
            &&& from != SessionStatus::Done
            &&& from != SessionStatus::Failed
            &&& from != SessionStatus::Cancelled
            &&& to != SessionStatus::Spawning
            &&& to != from
            &&& !(from == SessionStatus::Spawning && to == SessionStatus::Done)
        },
{
}

/// A status that the engine reports of a live session is stored, told and taken on: a final
/// one takes the session out of the live ones. Every other live session stays what it is.
pub proof fn a_reported_status_is_taken_on(
    m: ManagerV,
    session_id: String,
    status: String,
    next: SessionStatus,
    row: Option<SessionV>,
    id: Seq<char>,
    now: i128,
    other: Seq<char>,
)
    requires
        t_unique(m.runtime),
        t_get(m.runtime, session_id@) is Some,
        status_of_text(status@) == Some(next),
        may_become(t_get(m.runtime, session_id@)->0.status, next),
        other != session_id@,
    ensures
        ({
            let r = t_get(m.runtime, session_id@)->0;
            let (after, effects) = handled(
                m,
                SidecarEvent::Status { session_id, status },
                row,
                id,
                now,
            );
            &&& effects.len() >= 2
            &&& effects[0] == EffectV::Attempt(
                ActionV::Store(StoreWriteV::UpdateStatus { session_id: session_id@, status: next }),
            )
            &&& effects[1] == EffectV::Publish(
                EventV::Status { session_id: session_id@, branch: r.branch, status: next },
            )
            &&& t_get(after.runtime, session_id@) == (if next == SessionStatus::Done || next
                == SessionStatus::Failed || next == SessionStatus::Cancelled {
                None::<RuntimeV>
            } else {
                Some(
                    RuntimeV {
                        branch: r.branch,
                        status: next,
                        is_writer: r.is_writer,
                        close_requested: r.close_requested,
                    },
                )
            })
            &&& t_get(after.runtime, other) == t_get(m.runtime, other)
            &&& after.gates == m.gates && after.dialogs == m.dialogs
        }),
{
    let r = t_get(m.runtime, session_id@)->0;
    if terminal(next) {
        t_get_del(m.runtime, session_id@, session_id@);
        t_get_del(m.runtime, session_id@, other);
    } else {
        let s = RuntimeV {
            branch: r.branch,
            status: next,
            is_writer: r.is_writer,
            close_requested: r.close_requested,
        };
        t_get_put(m.runtime, session_id@, s, session_id@);
        t_get_put(m.runtime, session_id@, s, other);
    }
}

/// A session that was writing its notes is closed when that turn ends, and the notes panel
/// hears of it.
pub proof fn the_notes_turn_ends_with_a_close(
    m: ManagerV,
    session_id: String,
    status: String,
    row: Option<SessionV>,
    id: Seq<char>,
    now: i128,
)
    requires
        t_unique(m.runtime),
        status@ == "awaiting_input"@,
        t_get(m.finalizing, session_id@) is Some,
    ensures
        ({
            let (after, effects) = handled(
                m,
                SidecarEvent::Status { session_id, status },
                row,
                id,
                now,
            );
            let n = effects.len() as int;
            &&& t_get(after.finalizing, session_id@) is None
            &&& n >= 2
            &&& effects[n - 2] matches EffectV::Publish(EventV::NotesUpdated { branch }) && (
            t_get(m.runtime, session_id@) matches Some(r) ==> branch == r.branch)
            &&& effects[n - 1] == EffectV::Attempt(
                ActionV::Engine(EngineCallV::CloseSession { session_id: session_id@ }),
            )
        }),
{
    reveal_strlit("spawning");
    reveal_strlit("streaming");
    reveal_strlit("awaiting_input");
    assert("spawning"@.len() == 8 && "streaming"@.len() == 9 && "awaiting_input"@.len() == 14);
    let s = SessionStatus::AwaitingInput;
    let m1 = transitioned(m, session_id@, s);
    t_get_del(m1.finalizing, session_id@, session_id@);
    match t_get(m.runtime, session_id@) {
        Some(r) => {
            if may_become(r.status, s) {
                t_get_put(
                    m.runtime,
                    session_id@,
                    RuntimeV {
                        branch: r.branch,
                        status: s,
                        is_writer: r.is_writer,
                        close_requested: r.close_requested,
                    },
                    session_id@,
                );
            }
        },
        None => {},
    }
    let (after, effects) = handled(m, SidecarEvent::Status { session_id, status }, row, id, now);
    let f = finish_effects_if(m1, session_id@, branch_in(m1.runtime, session_id@));
    let n = effects.len() as int;
    assert(effects[n - 2] == f[0]);
    assert(effects[n - 1] == f[1]);
}

/// A live session that the engine closed ends as failed where the reason is an error, as
/// cancelled where the user closed it in the middle of its work, and as done otherwise; that
/// status is stored and told.
pub proof fn how_a_session_ends(
    m: ManagerV,
    id: Seq<char>,
    reason: Seq<char>,
    row: Option<SessionV>,
    r: RuntimeV,
)
    requires
        t_get(m.runtime, id) == Some(r),
        r.status == SessionStatus::Streaming || r.status == SessionStatus::AwaitingInput,
    ensures
        ({
            let end = if reason == "error"@ {
                SessionStatus::Failed
            } else if r.close_requested && r.status == SessionStatus::Streaming {
                SessionStatus::Cancelled
            } else {
                SessionStatus::Done
            };
            let effects = closed(m, id, reason, row).1;
            let n = effects.len() as int;
            &&& n >= 2
            &&& effects[n - 2] == EffectV::Attempt(
                ActionV::Store(StoreWriteV::UpdateStatus { session_id: id, status: end }),
            )
            &&& effects[n - 1] == EffectV::Publish(
                EventV::Status { session_id: id, branch: r.branch, status: end },
            )
        }),
{
    let effects = closed(m, id, reason, row).1;
    let n = effects.len() as int;
    let end = closed_status(reason, Some(r));
    let f = transition_effects(m.runtime, id, end, row);
    assert(effects[n - 2] == f[0]);
    assert(effects[n - 1] == f[1]);
}

/// A closed session leaves every other session as it was, live, at its notes or waiting for
/// an answer.
pub proof fn a_close_concerns_one_session(
    m: ManagerV,
    id: Seq<char>,
    reason: Seq<char>,
    row: Option<SessionV>,
    other: Seq<char>,
)
    requires
        t_unique(m.runtime),
        other != id,
    ensures
        t_get(closed(m, id, reason, row).0.runtime, other) == t_get(m.runtime, other),
        t_get(closed(m, id, reason, row).0.finalizing, other) == t_get(m.finalizing, other),
        closed(m, id, reason, row).0.dialogs == m.dialogs,
{
    let s = closed_status(reason, t_get(m.runtime, id));
    let rt = runtime_after(m.runtime, id, s);
    t_get_del(rt, id, other);
    t_get_del(m.finalizing, id, other);
    match t_get(m.runtime, id) {
        Some(r) => {
            t_get_del(m.runtime, id, other);
            t_get_put(
                m.runtime,
                id,
                RuntimeV {
                    branch: r.branch,
                    status: s,
                    is_writer: r.is_writer,
                    close_requested: r.close_requested,
                },
                other,
            );
        },
        None => {},
    }
}

/// Asking a session to close marks that session and changes nothing else.
pub proof fn asking_to_close_marks_the_session(m: ManagerV, id: Seq<char>, other: Seq<char>)
    requires
        t_unique(m.runtime),
        other != id,
    ensures
        ({
            let after = close_asked(m, id);
            &&& t_get(m.runtime, id) matches Some(r) ==> t_get(after.runtime, id) == Some(
                RuntimeV {
                    branch: r.branch,
                    status: r.status,
                    is_writer: r.is_writer,
                    close_requested: true,
                },
            )
            &&& t_get(after.runtime, other) == t_get(m.runtime, other)
            &&& after.gates == m.gates && after.dialogs == m.dialogs && after.finalizing
                == m.finalizing
        }),
{
    match t_get(m.runtime, id) {
        Some(r) => {
            let s = RuntimeV {
                branch: r.branch,
                status: r.status,
                is_writer: r.is_writer,
                close_requested: true,
            };
            t_get_put(m.runtime, id, s, id);
            t_get_put(m.runtime, id, s, other);
        },
        None => {},
    }
}

/// A notes turn ends the given number of seconds after it began.
pub proof fn a_deadline_is_that_many_seconds_away(now: i128, secs: u64)
    requires
        secs <= 1_000_000_000_000,
        0 <= now <= 1_000_000_000_000_000_000_000,
    ensures
        deadline(now, secs) - now == secs * 1_000_000_000,
{
}

// ---------------------------------------------------------------------------
// What is passed on
// ---------------------------------------------------------------------------

/// What an agent says and does is told as it came, each kind as its own, and changes nothing
/// in the manager.
pub proof fn what_an_agent_does_is_told(
    m: ManagerV,
    e: SidecarEvent,
    row: Option<SessionV>,
    id: Seq<char>,
    now: i128,
)
    ensures
        e matches SidecarEvent::StreamDelta { session_id, text, parent_tool_use_id } ==> tells(
            m,
            handled(m, e, row, id, now),
            Event::SessionStreamDelta { session_id, text, parent_tool_use_id },
        ),
        e matches SidecarEvent::ThinkingDelta { session_id, text, parent_tool_use_id } ==> tells(
            m,
            handled(m, e, row, id, now),
            Event::SessionThinkingDelta { session_id, text, parent_tool_use_id },
        ),
        e matches SidecarEvent::ToolUse {
            session_id,
            tool_use_id,
            name,
            summary,
            parent_tool_use_id,
        } ==> tells(
            m,
            handled(m, e, row, id, now),
            Event::SessionToolUse { session_id, tool_use_id, name, summary, parent_tool_use_id },
        ),
        e matches SidecarEvent::ToolResult { session_id, tool_use_id, is_error, text } ==> tells(
            m,
            handled(m, e, row, id, now),
            Event::SessionToolResult { session_id, tool_use_id, is_error, text },
        ),
        e matches SidecarEvent::Agents { session_id, agents } ==> tells(
            m,
            handled(m, e, row, id, now),
            Event::SessionAgents { session_id, agents },
        ),
        e matches SidecarEvent::McpServers { session_id, servers } ==> tells(
            m,
            handled(m, e, row, id, now),
            Event::SessionMcpServers { session_id, servers },
        ),
        e matches SidecarEvent::Todos { session_id, items } ==> tells(
            m,
            handled(m, e, row, id, now),
            Event::SessionTodos { session_id, items },
        ),
        e matches SidecarEvent::Usage { session_id, usage } ==> tells(
            m,
            handled(m, e, row, id, now),
            Event::SessionUsage { session_id, usage },
        ),
        e matches SidecarEvent::PermissionDenied { session_id, tool, reason, message } ==> tells(
            m,
            handled(m, e, row, id, now),
            Event::SessionPermissionDenied { session_id, tool, reason, message },
        ),
        e matches SidecarEvent::Commands { session_id, commands } ==> tells(
            m,
            handled(m, e, row, id, now),
            Event::SessionCommands { session_id, commands },
        ),
        e matches SidecarEvent::Models { session_id, models } ==> tells(
            m,
            handled(m, e, row, id, now),
            Event::SessionModels { session_id, models },
        ),
{
}

/// Whether an event changed nothing and was told as `event`, and as nothing else.
pub open spec fn tells(m: ManagerV, after: (ManagerV, Seq<EffectV>), event: Event) -> bool {
    after.0 == m && after.1 == seq![EffectV::Publish(EventV::Carried(event))]
}

/// The engine's own id of a session is stored, for a later resume.
pub proof fn the_engines_id_is_stored(
    m: ManagerV,
    e: SidecarEvent,
    row: Option<SessionV>,
    id: Seq<char>,
    now: i128,
)
    ensures
        e matches SidecarEvent::SessionInit { session_id, sdk_session_id, .. } ==> handled(
            m,
            e,
            row,
            id,
            now,
        ) == (
            m,
            seq![
                EffectV::Attempt(
                    ActionV::Store(
                        StoreWriteV::SetSdkId {
                            session_id: session_id@,
                            sdk_session_id: sdk_session_id@,
                        },
                    ),
                ),
            ],
        ),
{
}

/// A question of an agent is told as it came, and the manager knows from then on whose
/// dialog it is; the other dialogs stay.
pub proof fn a_question_waits_under_its_request(
    m: ManagerV,
    e: SidecarEvent,
    row: Option<SessionV>,
    id: Seq<char>,
    now: i128,
    other: Seq<char>,
)
    requires
        t_unique(m.dialogs),
    ensures
        e matches SidecarEvent::UserDialogRequest {
            session_id,
            request_id,
            dialog_kind,
            payload,
            ..
        } ==> {
            let (after, effects) = handled(m, e, row, id, now);
            &&& t_get(after.dialogs, request_id@) == Some(
                DialogV { session_id: session_id@, kind: dialog_kind@ },
            )
            &&& other != request_id@ ==> t_get(after.dialogs, other) == t_get(m.dialogs, other)
            &&& after.runtime == m.runtime && after.gates == m.gates && after.finalizing
                == m.finalizing
            &&& effects == seq![
                EffectV::Publish(
                    EventV::Carried(
                        Event::SessionUserDialog { session_id, request_id, dialog_kind, payload },
                    ),
                ),
            ]
        },
{
    match e {
        SidecarEvent::UserDialogRequest { session_id, request_id, dialog_kind, .. } => {
            let d = DialogV { session_id: session_id@, kind: dialog_kind@ };
            t_get_put(m.dialogs, request_id@, d, request_id@);
            t_get_put(m.dialogs, request_id@, d, other);
        },
        _ => {},
    }
}

/// A tool call that no rule matches is left to the user's own permission prompt, or handed
/// back to the agent where it only asked whether a rule holds it up.
pub proof fn an_ungated_call_is_not_held_up(
    m: ManagerV,
    e: SidecarEvent,
    row: Option<SessionV>,
    id: Seq<char>,
    now: i128,
)
    requires
        match e {
            SidecarEvent::PermissionRequest { tool, args, .. } => m.gates matches Some(g)
                ==> best_match(g.rules, tool@, args@, g.rules.len() as int) is None,
            SidecarEvent::GateCheck { tool, args, .. } => m.gates matches Some(g) ==> best_match(
                g.rules,
                tool@,
                args@,
                g.rules.len() as int,
            ) is None,
            _ => false,
        },
    ensures
        e matches SidecarEvent::PermissionRequest { session_id, request_id, tool, args, title }
            ==> tells(
            m,
            handled(m, e, row, id, now),
            Event::SessionPermissionRequest { session_id, request_id, tool, args, title },
        ),
        e matches SidecarEvent::GateCheck { request_id, .. } ==> handled(m, e, row, id, now) == (
            m,
            seq![
                EffectV::Attempt(
                    ActionV::Engine(
                        EngineCallV::RespondGateCheck {
                            request_id: request_id@,
                            decision: "pass"@,
                            updated_args: None,
                            message: None,
                        },
                    ),
                ),
            ],
        ),
{
}

/// A question to the implementer goes to the escalation layer, an error of the agent is
/// raised with its message, and a quota that is used up is raised as an error, one that is
/// short as a warning; the reading itself is told in any case.
pub proof fn questions_errors_and_quotas_are_raised(
    m: ManagerV,
    e: SidecarEvent,
    row: Option<SessionV>,
    id: Seq<char>,
    now: i128,
)
    ensures
        e matches SidecarEvent::EscalationRequest { session_id, request_id, question } ==> handled(
            m,
            e,
            row,
            id,
            now,
        ) == (
            m,
            seq![
                EffectV::Escalate {
                    session_id: session_id@,
                    request_id: request_id@,
                    question: question@,
                },
            ],
        ),
        e matches SidecarEvent::Error { message, .. } ==> handled(m, e, row, id, now) == (
            m,
            seq![
                EffectV::Publish(
                    EventV::ErrorRaised {
                        severity: Severity::Error,
                        code: "agent"@,
                        message: message@,
                    },
                ),
            ],
        ),
        e matches SidecarEvent::RateLimit { session_id, limit } ==> {
            let (after, effects) = handled(m, e, row, id, now);
            &&& after == m
            &&& effects.len() >= 1
            &&& effects.last() == EffectV::Publish(
                EventV::Carried(Event::SessionRateLimit { session_id, limit }),
            )
            &&& limit.status@ == "allowed"@ <==> effects.len() == 1
            &&& limit.status@ != "allowed"@ ==> effects.len() == 2 && (effects[0]
                matches EffectV::Publish(EventV::ErrorRaised { severity, code, .. }) && code
                == "rate_limit"@ && severity == (if limit.status@ == "rejected"@ {
                Severity::Error
            } else {
                Severity::Warning
            }))
        },
{
}

// ---------------------------------------------------------------------------
// Live settings
// ---------------------------------------------------------------------------

/// Only a live session takes requests.
pub proof fn only_a_live_session_takes_requests(m: ManagerV, id: Seq<char>)
    ensures
        liveness_error(m.runtime, id) is None <==> (t_get(m.runtime, id) matches Some(r)
            && r.status != SessionStatus::Done && r.status != SessionStatus::Failed && r.status
            != SessionStatus::Cancelled),
{
}

/// A live session can take on each of the four modes in which the gates hold, and no other;
/// a writing mode only where no other live session writes on its branch.
pub proof fn which_modes_can_be_set(m: ManagerV, id: Seq<char>, mode: Seq<char>, writer: Seq<char>)
    requires
        t_unique(m.runtime),
        t_get(m.runtime, id) is Some,
        !terminal(t_get(m.runtime, id)->0.status),
    ensures
        mode_error(m, id, "plan"@) is None,
        mode_error(m, id, mode) is None ==> mode == "default"@ || mode == "acceptEdits"@ || mode
            == "auto"@ || mode == "plan"@,
        mode != "plan"@ && writer != id && writer_on(m, branch_in(m.runtime, id), writer)
            ==> mode_error(m, id, mode) is Some,
        (mode == "default"@ || mode == "acceptEdits"@ || mode == "auto"@) && (forall|w: Seq<char>|
            w != id ==> !(#[trigger] writer_on(m, branch_in(m.runtime, id), w))) ==> mode_error(
            m,
            id,
            mode,
        ) is None,
        mode_error(m, id, mode) is None ==> t_get(mode_set(m, id, mode).runtime, id) == Some(
            RuntimeV {
                branch: t_get(m.runtime, id)->0.branch,
                status: t_get(m.runtime, id)->0.status,
                is_writer: mode != "plan"@,
                close_requested: t_get(m.runtime, id)->0.close_requested,
            },
        ),
{
    let branch = branch_in(m.runtime, id);
    let r = t_get(m.runtime, id)->0;
    if writer_on(m, branch, writer) {
        lemma_writer_on(m, branch, writer);
    }
    if slot_taken(m.runtime, branch, Some(id)) {
        let i = choose|i: int|
            0 <= i < m.runtime.len() && Some((#[trigger] m.runtime[i]).0) != Some(id)
                && crate::session::manager::holds_slot(m.runtime[i].1, branch);
        t_get_at(m.runtime, i);
        assert(writer_on(m, branch, m.runtime[i].0));
    }
    t_get_put(
        m.runtime,
        id,
        RuntimeV {
            branch: r.branch,
            status: r.status,
            is_writer: writer_mode(Some(mode)),
            close_requested: r.close_requested,
        },
        id,
    );
}

/// The efforts and thinking budgets that can be set; the empty text clears either.
pub proof fn which_efforts_and_budgets_are_known(text: Seq<char>)
    ensures
        known_effort(text) <==> text == ""@ || text == "low"@ || text == "medium"@ || text
            == "high"@ || text == "xhigh"@ || text == "max"@,
        known_thinking(text) <==> text == ""@ || text == "default"@ || text == "off"@ || text
            == "4000"@ || text == "16000"@ || text == "32000"@,
{
    reveal_strlit("");
    if text.len() == 0 {
        assert(text =~= ""@);
    }
}

/// Approving a plan, and nothing else, turns the session that asked into a writer.
pub proof fn only_an_approved_plan_claims_the_branch(
    m: ManagerV,
    request_id: Seq<char>,
    result: Option<crate::json::JsonV>,
)
    ensures
        dialog_claims(m, request_id, result) matches Some(id) ==> (t_get(m.dialogs, request_id)
            matches Some(d) && d.session_id == id && d.kind == "plan_approval"@) && approves_plan(
            result,
        ),
        t_get(m.dialogs, request_id) matches Some(d) && d.kind == "plan_approval"@
            && approves_plan(result) ==> dialog_claims(m, request_id, result) == Some(
            t_get(m.dialogs, request_id)->0.session_id,
        ),
        approves_plan(None) == false,
{
}

// ---------------------------------------------------------------------------
// What is said
// ---------------------------------------------------------------------------

/// The last turn of a session is told its branch, its task, its base and the notes so far,
/// each under its own name.
pub proof fn the_notes_turn_is_told_its_branch(branch: Seq<char>, f: FinalizeInputs)
    ensures
        ({
            let vars = finalize_vars(branch, f);
            &&& t_get(vars, "branch"@) == Some(branch)
            &&& f.task_id matches Some(id) ==> t_get(vars, "task_id"@) == Some(id@)
            &&& f.task_id is None ==> t_get(vars, "task_id"@) == Some("(none)"@)
            &&& f.base_branch matches Some(base) ==> t_get(vars, "base"@) == Some(base@)
            &&& f.base_branch is None ==> t_get(vars, "base"@) == Some("(unknown)"@)
            &&& f.notes matches Some(notes) ==> t_get(vars, "notes"@) == Some(notes@)
            &&& f.notes is None ==> t_get(vars, "notes"@) == Some("none yet"@)
        }),
{
    reveal_strlit("branch");
    reveal_strlit("task_id");
    reveal_strlit("base");
    reveal_strlit("notes");
    assert("branch"@.len() == 6 && "task_id"@.len() == 7 && "base"@.len() == 4 && "notes"@.len()
        == 5);
    let none = Seq::<(Seq<char>, Seq<char>)>::empty();
    let task = or_text(f.task_id, "(none)"@);
    let base = or_text(f.base_branch, "(unknown)"@);
    let notes = or_text(f.notes, "none yet"@);
    let a = t_put(none, "branch"@, branch);
    let b = t_put(a, "task_id"@, task);
    let c = t_put(b, "base"@, base);
    lemma_put_unique(none, "branch"@, branch);
    lemma_put_unique(a, "task_id"@, task);
    lemma_put_unique(b, "base"@, base);
    let vars = finalize_vars(branch, f);
    let keys = seq!["branch"@, "task_id"@, "base"@, "notes"@];
    let values = seq![branch, task, base, notes];
    assert forall|i: int| 0 <= i < 4 implies #[trigger] t_get(vars, keys[i]) == Some(
        values[i],
    ) by {
        let q = keys[i];
        t_get_put(c, "notes"@, notes, q);
        t_get_put(b, "base"@, base, q);
        t_get_put(a, "task_id"@, task, q);
        t_get_put(none, "branch"@, branch, q);
    }
    assert(t_get(vars, keys[0]) is Some && t_get(vars, keys[1]) is Some && t_get(vars, keys[2])
        is Some && t_get(vars, keys[3]) is Some);
}

/// Notes are asked for when an implementation that waits for input is closed, once; no other
/// session is, and none where the time for it is set to nothing.
pub proof fn when_notes_are_asked_for(
    m: ManagerV,
    id: Seq<char>,
    row: SessionV,
    f: FinalizeInputs,
    r: RuntimeV,
    secs: u64,
)
    requires
        t_get(m.runtime, id) == Some(r),
        f.template is Text,
        f.timeout matches Some(t) ==> t@ == decimal(secs as nat),
    ensures
        finalize_prompt(m, id, Some(row), Some(f)) is Some <==> (r.status
            == SessionStatus::AwaitingInput && row.session_type == SessionType::Implementation
            && t_get(m.finalizing, id) is None && (f.timeout is None || secs > 0)),
        finalize_prompt(m, id, Some(row), None) is None,
        finalize_prompt(m, id, None, Some(f)) is None,
        finalize_secs(Some(decimal(secs as nat))) == secs,
        finalize_secs(None) == 120,
{
    let d = decimal(secs as nat);
    lemma_decimal(secs as nat);
    a_written_number_reads_back(secs as nat, u64::MAX as nat);
    assert(is_ascii_digit(d[0]) && is_ascii_digit(d[d.len() - 1]));
    lemma_not_blank(d);
}

/// The main session cannot be closed, and every other one can.
pub proof fn only_the_main_session_stays(row: SessionV)
    ensures
        unclosable(Some(row)) <==> row.session_type == SessionType::Main,
        !unclosable(None),
{
}

/// A quota that runs out is named with its window and how much of it is used.
pub proof fn a_quota_is_named(window: Seq<char>, percent: Seq<char>)
    ensures
        includes(rate_limit_message(Some(window), Some(percent)), window),
        includes(rate_limit_message(Some(window), Some(percent)), percent + "%"@),
        includes(rate_limit_message(Some(window), None), window),
        includes(rate_limit_message(None, Some(percent)), percent + "%"@),
{
    let t = rate_limit_message(Some(window), Some(percent));
    let start = "Rate limit ("@;
    let used = " at "@ + percent + "%"@;
    let p = percent + "%"@;
    assert(t =~= start + window + (")"@ + used));
    lemma_includes(t, start, window, ")"@ + used);
    assert(t =~= (start + window + ")"@ + " at "@) + p + seq![]);
    lemma_includes(t, start + window + ")"@ + " at "@, p, seq![]);
    let u = rate_limit_message(Some(window), None);
    assert(u =~= start + window + ")"@);
    lemma_includes(u, start, window, ")"@);
    let v = rate_limit_message(None, Some(percent));
    assert(v =~= (start + "quota"@ + ")"@ + " at "@) + p + seq![]);
    lemma_includes(v, start + "quota"@ + ")"@ + " at "@, p, seq![]);
}

/// A crash is told with the code that the process exited with.
pub proof fn a_crash_is_told_with_its_code(code: i32)
    ensures
        code >= 0 ==> includes(crash_message(Some(code)), decimal(code as nat)),
        code < 0 ==> includes(crash_message(Some(code)), "-"@ + decimal((-code) as nat)),
{
    let start = "agent sidecar crashed (exit code "@;
    let end = ")"@ + "); sessions failed"@;
    let t = crash_message(Some(code));
    if code >= 0 {
        let d = decimal(code as nat);
        assert(t =~= (start + "Some("@) + d + end);
        lemma_includes(t, start + "Some("@, d, end);
    } else {
        reveal_strlit("Some(-");
        reveal_strlit("Some(");
        reveal_strlit("-");
        assert("Some(-"@ =~= "Some("@ + "-"@);
        let d = "-"@ + decimal((-code) as nat);
        assert(t =~= (start + "Some("@) + d + end);
        lemma_includes(t, start + "Some("@, d, end);
    }
}

/// A mode that is set reaches the engine and is stored, of that session and nothing else of
/// it.
pub proof fn a_mode_that_is_set_is_sent_and_stored(id: Seq<char>, mode: Seq<char>)
    ensures
        mode_effects(id, mode).contains(
            EffectV::Require(
                ActionV::Engine((EngineCallV::SetPermissionMode { session_id: id, mode })),
            ),
        ),
        mode_effects(id, mode).contains(
            EffectV::Require(
                ActionV::Store(
                    (StoreWriteV::SetRuntime {
                        session_id: id,
                        model: None,
                        effort: None,
                        permission_mode: Some(mode),
                        thinking: None,
                    }),
                ),
            ),
        ),
{
    let e = mode_effects(id, mode);
    assert(e[0] == e[0] && e[1] == e[1]);
    assert(e.contains(e[0]) && e.contains(e[1]));
}

} // verus!
