//! What every operation of the session manager keeps.
use crate::agent::protocol::SidecarEvent;
use crate::bus::EventV;
use crate::effects::{published, ActionV, EffectV, EngineCallV};
use crate::gate::rules::{GateRule, GhPrCreateRule, GitPushRule};
use crate::gate::{
    best_match, builtin_rules, gate_for, gates_not_of, gates_of, pending_event,
    push_and_pr_are_always_gated, PendingGateV, ToolCallV,
};
use crate::json::JsonV;
use crate::session::manager::{
    all_failed, all_failed_effects, branch_in, cancel_events, close_asked, close_call, closed,
    closed_status, crashed, effective_mode, expiry_effects, finish_effects, handled, holds_slot,
    mode_error, mode_set, runtime_after, single_writer, slot_taken, spawned, swept,
    transition_effects, unexpired, with_status, writer_conflict, ManagerV, RuntimeV, SpawnParamsV,
};
use crate::session::{
    live_can_fail_or_be_cancelled, may_become, status_of_text, terminal, writer_mode,
    SessionStatus, SessionV,
};
use crate::table::{
    t_del, t_del_unique, t_get, t_get_at, t_get_del, t_get_has, t_get_put, t_keys, t_put, t_unique,
};
use vstd::prelude::*;

verus! {

/// The rule that there is at most one writer per branch, by session ids.
pub open spec fn one_writer(rt: Seq<(Seq<char>, RuntimeV)>) -> bool {
    forall|a: Seq<char>, b: Seq<char>|
        #![trigger t_get(rt, a), t_get(rt, b)]
        match (t_get(rt, a), t_get(rt, b)) {
            (Some(x), Some(y)) => a == b || !(x.branch == y.branch && holds_slot(x, x.branch)
                && holds_slot(y, y.branch)),
            _ => true,
        }
}

/// Whether every session in the table is live.
pub open spec fn all_live(rt: Seq<(Seq<char>, RuntimeV)>) -> bool {
    forall|a: Seq<char>|
        #![trigger t_get(rt, a)]
        match t_get(rt, a) {
            Some(x) => !terminal(x.status),
            None => true,
        }
}

/// What holds of the table of live sessions at all times.
pub open spec fn sound(rt: Seq<(Seq<char>, RuntimeV)>) -> bool {
    t_unique(rt) && one_writer(rt) && all_live(rt)
}

/// The two ways to say that a branch has at most one writer agree.
pub proof fn single_writer_by_id(rt: Seq<(Seq<char>, RuntimeV)>)
    requires
        t_unique(rt),
    ensures
        single_writer(rt) <==> one_writer(rt),
{
    if single_writer(rt) {
        assert forall|a: Seq<char>, b: Seq<char>|
            #![trigger t_get(rt, a), t_get(rt, b)]
            match (t_get(rt, a), t_get(rt, b)) {
                (Some(x), Some(y)) => a == b || !(x.branch == y.branch && holds_slot(x, x.branch)
                    && holds_slot(y, y.branch)),
                _ => true,
            } by {
            t_get_has(rt, a);
            t_get_has(rt, b);
            if t_get(rt, a) is Some && t_get(rt, b) is Some && a != b {
                let i = choose|i: int| 0 <= i < rt.len() && (#[trigger] rt[i]).0 == a;
                let j = choose|j: int| 0 <= j < rt.len() && (#[trigger] rt[j]).0 == b;
                t_get_at(rt, i);
                t_get_at(rt, j);
                if i < j {
                    assert(!(rt[i].1.branch == rt[j].1.branch && holds_slot(
                        rt[i].1,
                        rt[i].1.branch,
                    ) && holds_slot(rt[j].1, rt[j].1.branch)));
                } else {
                    assert(!(rt[j].1.branch == rt[i].1.branch && holds_slot(
                        rt[j].1,
                        rt[j].1.branch,
                    ) && holds_slot(rt[i].1, rt[i].1.branch)));
                }
            }
        }
    }
    if one_writer(rt) {
        assert forall|i: int, j: int| 0 <= i < j < rt.len() implies !((#[trigger] rt[i]).1.branch
            == (#[trigger] rt[j]).1.branch && holds_slot(rt[i].1, rt[i].1.branch) && holds_slot(
            rt[j].1,
            rt[j].1.branch,
        )) by {
            t_get_at(rt, i);
            t_get_at(rt, j);
            assert(t_get(rt, rt[i].0) is Some && t_get(rt, rt[j].0) is Some);
            assert(rt[i].0 != rt[j].0);
        }
    }
}

/// A table without sessions is sound.
pub proof fn no_sessions_are_sound()
    ensures
        sound(seq![]),
{
}

proof fn lemma_put(rt: Seq<(Seq<char>, RuntimeV)>, id: Seq<char>, r: RuntimeV)
    requires
        sound(rt),
        !terminal(r.status),
        r.is_writer ==> !slot_taken(rt, r.branch, Some(id)),
    ensures
        sound(t_put(rt, id, r)),
{
    let t = t_put(rt, id, r);
    t_get_put(rt, id, r, id);
    assert forall|a: Seq<char>| #![trigger t_get(t, a)] match t_get(t, a) {
        Some(x) => !terminal(x.status),
        None => true,
    } by {
        t_get_put(rt, id, r, a);
        assert(match t_get(rt, a) {
            Some(x) => !terminal(x.status),
            None => true,
        });
    }
    assert forall|a: Seq<char>, b: Seq<char>|
        #![trigger t_get(t, a), t_get(t, b)]
        match (t_get(t, a), t_get(t, b)) {
            (Some(x), Some(y)) => a == b || !(x.branch == y.branch && holds_slot(x, x.branch)
                && holds_slot(y, y.branch)),
            _ => true,
        } by {
        t_get_put(rt, id, r, a);
        t_get_put(rt, id, r, b);
        if t_get(t, a) is Some && t_get(t, b) is Some && a != b {
            if a == id {
                lemma_slot(rt, b, id, r);
            } else if b == id {
                lemma_slot(rt, a, id, r);
            } else {
                assert(t_get(rt, a) is Some && t_get(rt, b) is Some);
            }
        }
    }
}

/// Another session that holds the write slot of the branch takes it.
proof fn lemma_slot(rt: Seq<(Seq<char>, RuntimeV)>, other: Seq<char>, id: Seq<char>, r: RuntimeV)
    requires
        t_unique(rt),
        other != id,
        t_get(rt, other) is Some,
        r.is_writer ==> !slot_taken(rt, r.branch, Some(id)),
    ensures
        !(t_get(rt, other)->0.branch == r.branch && holds_slot(
            t_get(rt, other)->0,
            t_get(rt, other)->0.branch,
        ) && holds_slot(r, r.branch)),
{
    t_get_has(rt, other);
    let i = choose|i: int| 0 <= i < rt.len() && (#[trigger] rt[i]).0 == other;
    t_get_at(rt, i);
    if rt[i].1.branch == r.branch && holds_slot(rt[i].1, r.branch) && r.is_writer {
        assert(Some(rt[i].0) != Some(id));
        assert(slot_taken(rt, r.branch, Some(id)));
    }
}

proof fn lemma_del(rt: Seq<(Seq<char>, RuntimeV)>, id: Seq<char>)
    requires
        sound(rt),
    ensures
        sound(t_del(rt, id)),
        t_get(t_del(rt, id), id) is None,
{
    let t = t_del(rt, id);
    t_del_unique(rt, id);
    t_get_del(rt, id, id);
    assert forall|a: Seq<char>| #![trigger t_get(t, a)] match t_get(t, a) {
        Some(x) => !terminal(x.status),
        None => true,
    } by {
        t_get_del(rt, id, a);
        assert(match t_get(rt, a) {
            Some(x) => !terminal(x.status),
            None => true,
        });
    }
    assert forall|a: Seq<char>, b: Seq<char>|
        #![trigger t_get(t, a), t_get(t, b)]
        match (t_get(t, a), t_get(t, b)) {
            (Some(x), Some(y)) => a == b || !(x.branch == y.branch && holds_slot(x, x.branch)
                && holds_slot(y, y.branch)),
            _ => true,
        } by {
        t_get_del(rt, id, a);
        t_get_del(rt, id, b);
        assert(match (t_get(rt, a), t_get(rt, b)) {
            (Some(x), Some(y)) => a == b || !(x.branch == y.branch && holds_slot(x, x.branch)
                && holds_slot(y, y.branch)),
            _ => true,
        });
    }
}

/// A live session's own slot is not taken by another.
proof fn lemma_own_slot(rt: Seq<(Seq<char>, RuntimeV)>, id: Seq<char>)
    requires
        sound(rt),
        t_get(rt, id) is Some,
        t_get(rt, id)->0.is_writer,
    ensures
        !slot_taken(rt, t_get(rt, id)->0.branch, Some(id)),
{
    let r = t_get(rt, id)->0;
    assert(!terminal(r.status));
    if slot_taken(rt, r.branch, Some(id)) {
        let i = choose|i: int|
            0 <= i < rt.len() && Some((#[trigger] rt[i]).0) != Some(id) && holds_slot(
                rt[i].1,
                r.branch,
            );
        t_get_at(rt, i);
        assert(t_get(rt, rt[i].0) is Some);
    }
}

/// A transition keeps the table sound.
pub proof fn transitions_keep_one_writer(
    rt: Seq<(Seq<char>, RuntimeV)>,
    id: Seq<char>,
    next: SessionStatus,
)
    requires
        sound(rt),
    ensures
        sound(runtime_after(rt, id, next)),
{
    match t_get(rt, id) {
        Some(r) => {
            if may_become(r.status, next) {
                if terminal(next) {
                    lemma_del(rt, id);
                } else {
                    if r.is_writer {
                        lemma_own_slot(rt, id);
                    }
                    lemma_put(
                        rt,
                        id,
                        RuntimeV {
                            branch: r.branch,
                            status: next,
                            is_writer: r.is_writer,
                            close_requested: r.close_requested,
                        },
                    );
                }
            }
        },
        None => {},
    }
}

/// **Single-writer rule**: a spawn never leaves two live writers on a branch.
pub proof fn spawning_keeps_one_writer(m: ManagerV, p: SpawnParamsV, id: Seq<char>)
    requires
        sound(m.runtime),
    ensures
        sound(spawned(m, p, id).runtime),
        single_writer(spawned(m, p, id).runtime),
{
    reveal_strlit("plan");
    let r = RuntimeV {
        branch: p.branch,
        status: SessionStatus::Spawning,
        is_writer: writer_mode(effective_mode(m, p)),
        close_requested: false,
    };
    if r.is_writer {
        assert(!writer_conflict(m, p));
        assert(!slot_taken(m.runtime, p.branch, Some(id))) by {
            if slot_taken(m.runtime, p.branch, Some(id)) {
                let i = choose|i: int|
                    0 <= i < m.runtime.len() && Some((#[trigger] m.runtime[i]).0) != Some(id)
                        && holds_slot(m.runtime[i].1, p.branch);
                assert(Some(m.runtime[i].0) != None::<Seq<char>>);
                assert(slot_taken(m.runtime, p.branch, None));
            }
        }
    }
    lemma_put(m.runtime, id, r);
    single_writer_by_id(spawned(m, p, id).runtime);
}

/// A mode that may be set leaves at most one live writer on the branch.
pub proof fn mode_changes_keep_one_writer(m: ManagerV, id: Seq<char>, mode: Seq<char>)
    requires
        sound(m.runtime),
        mode_error(m, id, mode) is None,
    ensures
        sound(mode_set(m, id, mode).runtime),
        single_writer(mode_set(m, id, mode).runtime),
{
    match t_get(m.runtime, id) {
        Some(r) => {
            lemma_put(
                m.runtime,
                id,
                RuntimeV {
                    branch: r.branch,
                    status: r.status,
                    is_writer: writer_mode(Some(mode)),
                    close_requested: r.close_requested,
                },
            );
        },
        None => {},
    }
    single_writer_by_id(mode_set(m, id, mode).runtime);
}

/// Asking a session to close keeps the table sound.
pub proof fn closing_keeps_one_writer(m: ManagerV, id: Seq<char>)
    requires
        sound(m.runtime),
    ensures
        sound(close_asked(m, id).runtime),
{
    match t_get(m.runtime, id) {
        Some(r) => {
            if r.is_writer {
                lemma_own_slot(m.runtime, id);
            }
            lemma_put(
                m.runtime,
                id,
                RuntimeV {
                    branch: r.branch,
                    status: r.status,
                    is_writer: r.is_writer,
                    close_requested: true,
                },
            );
        },
        None => {},
    }
}

/// No event from the sidecar leads to a second writer on a branch, or to a finished session
/// among the live ones.
pub proof fn events_keep_one_writer(
    m: ManagerV,
    e: SidecarEvent,
    row: Option<SessionV>,
    id: Seq<char>,
    now: i128,
)
    requires
        sound(m.runtime),
    ensures
        sound(handled(m, e, row, id, now).0.runtime),
        single_writer(handled(m, e, row, id, now).0.runtime),
{
    match e {
        SidecarEvent::Status { session_id, status } => match status_of_text(status@) {
            Some(s) => {
                transitions_keep_one_writer(m.runtime, session_id@, s);
            },
            None => {},
        },
        SidecarEvent::SessionClosed { session_id, reason } => {
            let s = closed_status(reason@, t_get(m.runtime, session_id@));
            transitions_keep_one_writer(m.runtime, session_id@, s);
            lemma_del(runtime_after(m.runtime, session_id@, s), session_id@);
        },
        _ => {},
    }
    single_writer_by_id(handled(m, e, row, id, now).0.runtime);
}

proof fn lemma_none_left(pending: Seq<(Seq<char>, PendingGateV)>, id: Seq<char>)
    ensures
        gates_of(gates_not_of(pending, id), id).len() == 0,
    decreases pending.len(),
{
    if pending.len() > 0 {
        let d = pending.drop_last();
        lemma_none_left(d, id);
        if pending.last().1.session_id != id {
            assert(gates_not_of(pending, id).drop_last() =~= gates_not_of(d, id));
        }
    }
}

/// A closed session leaves nothing behind: it is not live, waits for no notes and holds no
/// gate.
pub proof fn a_closed_session_leaves_nothing(
    m: ManagerV,
    id: Seq<char>,
    reason: Seq<char>,
    row: Option<SessionV>,
)
    ensures
        ({
            let after = closed(m, id, reason, row).0;
            &&& t_get(after.runtime, id) is None
            &&& t_get(after.finalizing, id) is None
            &&& (after.gates matches Some(g) ==> gates_of(g.pending, id).len() == 0)
        }),
{
    let s = closed_status(reason, t_get(m.runtime, id));
    t_get_del(runtime_after(m.runtime, id, s), id, id);
    t_get_del(m.finalizing, id, id);
    match m.gates {
        Some(g) => {
            lemma_none_left(g.pending, id);
        },
        None => {},
    }
}

proof fn lemma_failed(rt: Seq<(Seq<char>, RuntimeV)>, id: Seq<char>)
    requires
        sound(rt),
    ensures
        t_get(runtime_after(rt, id, SessionStatus::Failed), id) is None,
        forall|q: Seq<char>|
            #![trigger t_get(runtime_after(rt, id, SessionStatus::Failed), q)]
            t_get(rt, q) is None ==> t_get(runtime_after(rt, id, SessionStatus::Failed), q) is None,
{
    match t_get(rt, id) {
        Some(r) => {
            live_can_fail_or_be_cancelled(r.status);
            t_get_del(rt, id, id);
        },
        None => {},
    }
    assert forall|q: Seq<char>|
        #![trigger t_get(runtime_after(rt, id, SessionStatus::Failed), q)]
        t_get(rt, q) is None implies t_get(runtime_after(rt, id, SessionStatus::Failed), q) is None by {
        t_get_del(rt, id, q);
    }
}

proof fn lemma_all_failed(rt: Seq<(Seq<char>, RuntimeV)>, ids: Seq<Seq<char>>)
    requires
        sound(rt),
    ensures
        sound(all_failed(rt, ids)),
        forall|k: int|
            0 <= k < ids.len() ==> t_get(all_failed(rt, ids), #[trigger] ids[k]) is None,
        forall|q: Seq<char>|
            #![trigger t_get(all_failed(rt, ids), q)]
            t_get(rt, q) is None ==> t_get(all_failed(rt, ids), q) is None,
    decreases ids.len(),
{
    if ids.len() > 0 {
        let d = ids.drop_last();
        lemma_all_failed(rt, d);
        let before = all_failed(rt, d);
        transitions_keep_one_writer(before, ids.last(), SessionStatus::Failed);
        lemma_failed(before, ids.last());
        assert forall|k: int| 0 <= k < ids.len() implies t_get(
            all_failed(rt, ids),
            #[trigger] ids[k],
        ) is None by {
            if k < d.len() {
                assert(t_get(before, d[k]) is None);
            }
        }
        assert forall|q: Seq<char>|
            #![trigger t_get(all_failed(rt, ids), q)]
            t_get(rt, q) is None implies t_get(all_failed(rt, ids), q) is None by {
            assert(t_get(before, q) is None);
        }
    }
}

/// After a crash no session is live.
pub proof fn a_crash_leaves_no_session_live(m: ManagerV, code: Option<i32>)
    requires
        sound(m.runtime),
    ensures
        crashed(m, code).0.runtime.len() == 0,
{
    let ids = t_keys(m.runtime);
    lemma_all_failed(m.runtime, ids);
    let rt = all_failed(m.runtime, ids);
    if rt.len() > 0 {
        let id = rt[0].0;
        t_get_at(rt, 0);
        if t_get(m.runtime, id) is Some {
            t_get_has(m.runtime, id);
            let i = choose|i: int| 0 <= i < m.runtime.len() && (#[trigger] m.runtime[i]).0 == id;
            assert(ids[i] == id);
        }
    }
}

/// After the stale sessions were swept, none of them is live.
pub proof fn swept_sessions_are_not_live(m: ManagerV, rows: Seq<SessionV>, reason: Seq<char>)
    requires
        sound(m.runtime),
    ensures
        sound(swept(m, rows, reason).0.runtime),
        forall|k: int|
            0 <= k < rows.len() ==> t_get(
                swept(m, rows, reason).0.runtime,
                (#[trigger] rows[k]).id,
            ) is None,
    decreases rows.len(),
{
    if rows.len() > 0 {
        let d = rows.drop_last();
        swept_sessions_are_not_live(m, d, reason);
        let before = swept(m, d, reason).0.runtime;
        transitions_keep_one_writer(before, rows.last().id, SessionStatus::Failed);
        lemma_failed(before, rows.last().id);
        assert forall|k: int| 0 <= k < rows.len() implies t_get(
            swept(m, rows, reason).0.runtime,
            (#[trigger] rows[k]).id,
        ) is None by {
            if k < d.len() {
                assert(t_get(before, d[k].id) is None);
            }
        }
    }
}

// ---------------------------------------------------------------------------
// Who answers a tool call
// ---------------------------------------------------------------------------

/// Whether an effect answers a tool call that waits for its verdict.
pub open spec fn answers_a_call(f: EffectV) -> bool {
    match f {
        EffectV::Require(ActionV::Engine(call)) => is_verdict(call),
        EffectV::Attempt(ActionV::Engine(call)) => is_verdict(call),
        _ => false,
    }
}

pub open spec fn is_verdict(call: EngineCallV) -> bool {
    call is RespondGateCheck || call is RespondPermission
}

/// No tool call is allowed or denied without the user: the one answer that an event brings
/// about hands a call that no rule matches back to the agent's own permission handling.
pub proof fn only_ungated_calls_are_passed(
    m: ManagerV,
    e: SidecarEvent,
    row: Option<SessionV>,
    id: Seq<char>,
    now: i128,
    k: int,
)
    requires
        0 <= k < handled(m, e, row, id, now).1.len(),
        answers_a_call(handled(m, e, row, id, now).1[k]),
    ensures
        e matches SidecarEvent::GateCheck { request_id, tool, args, .. } && handled(
            m,
            e,
            row,
            id,
            now,
        ).1[k] == EffectV::Attempt(
            ActionV::Engine(
                EngineCallV::RespondGateCheck {
                    request_id: request_id@,
                    decision: "pass"@,
                    updated_args: None,
                    message: None,
                },
            ),
        ) && (m.gates matches Some(g) ==> best_match(
            g.rules,
            tool@,
            args@,
            g.rules.len() as int,
        ) is None),
{
    match e {
        SidecarEvent::SessionClosed { session_id, reason } => {
            let events = published(cancel_events(m.gates, session_id@, "session closed"@));
            assert(k < events.len() ==> handled(m, e, row, id, now).1[k] == events[k]);
        },
        _ => {},
    }
}

/// A push or a new pull request waits for the user, every time: whatever the permission
/// mode, the call becomes a pending gate that is announced, and nothing else happens.
pub proof fn pushes_and_pull_requests_wait_for_approval(
    m: ManagerV,
    gate_commit: Option<Seq<char>>,
    e: SidecarEvent,
    row: Option<SessionV>,
    id: Seq<char>,
    now: i128,
)
    requires
        m.gates matches Some(g) && g.rules == builtin_rules(gate_commit) && t_unique(g.pending),
        match e {
            SidecarEvent::GateCheck { tool, args, .. } => dangerous(tool@, args@),
            SidecarEvent::PermissionRequest { tool, args, .. } => dangerous(tool@, args@),
            _ => false,
        },
    ensures
        ({
            let after = handled(m, e, row, id, now);
            &&& after.0.gates matches Some(g) && t_get(g.pending, id) matches Some(p)
                && after.1 == seq![EffectV::Publish(pending_event(p))]
                && call_of(e) == (p.request_id, p.tool, p.original_args)
        }),
{
    let (request_id, tool, args) = call_of(e);
    push_and_pr_are_always_gated(gate_commit, tool, args);
    let g = m.gates->0;
    let after = handled(m, e, row, id, now);
    let p = t_get(after.0.gates->0.pending, id);
    let (session_id, by_check) = match e {
        SidecarEvent::GateCheck { session_id, .. } => (session_id@, true),
        SidecarEvent::PermissionRequest { session_id, .. } => (session_id@, false),
        _ => (seq![], false),
    };
    let call = ToolCallV {
        session_id,
        branch: branch_in(m.runtime, session_id),
        request_id,
        tool,
        args,
        by_check,
    };
    let pending = gate_for(g.rules, call, id, now)->0;
    t_get_put(g.pending, id, pending, id);
}

/// A command that pushes or opens a pull request.
pub open spec fn dangerous(tool: Seq<char>, args: JsonV) -> bool {
    GitPushRule.match_of(tool, args) is Some || GhPrCreateRule.match_of(tool, args) is Some
}

/// The request, the tool and the arguments of the call that an event pauses.
pub open spec fn call_of(e: SidecarEvent) -> (Seq<char>, Seq<char>, JsonV) {
    match e {
        SidecarEvent::GateCheck { request_id, tool, args, .. } => (request_id@, tool@, args@),
        SidecarEvent::PermissionRequest { request_id, tool, args, .. } => (
            request_id@,
            tool@,
            args@,
        ),
        _ => (seq![], seq![], JsonV::Null),
    }
}

// ---------------------------------------------------------------------------
// Every state change is an event
// ---------------------------------------------------------------------------

pub open spec fn status_in(rt: Seq<(Seq<char>, RuntimeV)>, s: Seq<char>) -> Option<SessionStatus> {
    match t_get(rt, s) {
        Some(r) => Some(r.status),
        None => None,
    }
}

/// Whether the effects publish that session `s` of `branch` has the status `now`; for one
/// that is not live any more, a final one.
pub open spec fn announces(
    effects: Seq<EffectV>,
    s: Seq<char>,
    branch: Seq<char>,
    now: Option<SessionStatus>,
) -> bool {
    exists|k: int|
        0 <= k < effects.len() && (#[trigger] effects[k] matches EffectV::Publish(
            EventV::Status { session_id, branch: b, status },
        ) && session_id == s && b == branch && match now {
            Some(x) => status == x,
            None => terminal(status),
        })
}

/// A session whose process closed on its own before the first turn began: the state machine
/// has no edge for it.
pub open spec fn leaves_unheard(m: ManagerV, e: SidecarEvent, s: Seq<char>) -> bool {
    match e {
        SidecarEvent::SessionClosed { session_id, reason } => session_id@ == s && status_in(
            m.runtime,
            s,
        ) == Some(SessionStatus::Spawning) && closed_status(reason@, t_get(m.runtime, s))
            == SessionStatus::Done,
        _ => false,
    }
}

/// Every change of a session's status is published. The one exception is a session
/// that [leaves unheard](leaves_unheard).
pub proof fn every_status_change_is_announced(
    m: ManagerV,
    e: SidecarEvent,
    row: Option<SessionV>,
    id: Seq<char>,
    now: i128,
    s: Seq<char>,
)
    requires
        sound(m.runtime),
        !leaves_unheard(m, e, s),
        status_in(handled(m, e, row, id, now).0.runtime, s) != status_in(m.runtime, s),
    ensures
        announces(
            handled(m, e, row, id, now).1,
            s,
            branch_in(m.runtime, s),
            status_in(handled(m, e, row, id, now).0.runtime, s),
        ),
{
    let after = handled(m, e, row, id, now);
    match e {
        SidecarEvent::Status { session_id, status } => match status_of_text(status@) {
            Some(next) => {
                lemma_elsewhere(m.runtime, session_id@, next, s);
                let f1 = transition_effects(m.runtime, session_id@, next, row);
                assert(after.1[1] == f1[1]);
            },
            None => {},
        },
        SidecarEvent::SessionClosed { session_id, reason } => {
            let next = closed_status(reason@, t_get(m.runtime, session_id@));
            lemma_elsewhere(m.runtime, session_id@, next, s);
            let rt = runtime_after(m.runtime, session_id@, next);
            t_get_del(rt, session_id@, s);
            let events = published(cancel_events(m.gates, session_id@, "session closed"@));
            let f1 = transition_effects(m.runtime, session_id@, next, row);
            if s == session_id@ && t_get(m.runtime, s) is Some {
                assert(may_become(t_get(m.runtime, s)->0.status, next));
                assert(after.1[events.len() as int + 1] == f1[1]);
            }
        },
        _ => {},
    }
}

/// A transition leaves the other sessions as they are.
proof fn lemma_elsewhere(
    rt: Seq<(Seq<char>, RuntimeV)>,
    id: Seq<char>,
    next: SessionStatus,
    s: Seq<char>,
)
    requires
        t_unique(rt),
    ensures
        s != id ==> t_get(runtime_after(rt, id, next), s) == t_get(rt, s),
        t_get(rt, id) matches Some(r) && may_become(r.status, next) ==> status_in(
            runtime_after(rt, id, next),
            id,
        ) == (if terminal(next) {
            None
        } else {
            Some(next)
        }),
{
    match t_get(rt, id) {
        Some(r) => {
            t_get_del(rt, id, s);
            t_get_del(rt, id, id);
            t_get_put(rt, id, with_status(r, next), s);
            t_get_put(rt, id, with_status(r, next), id);
        },
        None => {},
    }
}

/// The sessions that are not among `ids` stay as they are when those fail.
proof fn lemma_spared(rt: Seq<(Seq<char>, RuntimeV)>, ids: Seq<Seq<char>>, s: Seq<char>)
    requires
        sound(rt),
        !ids.contains(s),
    ensures
        t_get(all_failed(rt, ids), s) == t_get(rt, s),
    decreases ids.len(),
{
    if ids.len() > 0 {
        let d = ids.drop_last();
        assert(!d.contains(s)) by {
            if d.contains(s) {
                let k = choose|k: int| 0 <= k < d.len() && d[k] == s;
                assert(ids[k] == s);
            }
        }
        lemma_spared(rt, d, s);
        lemma_all_failed(rt, d);
        assert(ids.last() == ids[ids.len() - 1]);
        lemma_elsewhere(all_failed(rt, d), ids.last(), SessionStatus::Failed, s);
    }
}

proof fn lemma_failures_announced(
    rt: Seq<(Seq<char>, RuntimeV)>,
    ids: Seq<Seq<char>>,
    s: Seq<char>,
) -> (k: int)
    requires
        sound(rt),
        ids.contains(s),
        t_get(rt, s) is Some,
    ensures
        0 <= k < all_failed_effects(rt, ids).len(),
        all_failed_effects(rt, ids)[k] == EffectV::Publish(
            EventV::Status {
                session_id: s,
                branch: branch_in(rt, s),
                status: SessionStatus::Failed,
            },
        ),
    decreases ids.len(),
{
    let d = ids.drop_last();
    let before = all_failed_effects(rt, d);
    if d.contains(s) {
        let k = lemma_failures_announced(rt, d, s);
        assert(all_failed_effects(rt, ids)[k] == before[k]);
        k
    } else {
        let i = choose|i: int| 0 <= i < ids.len() && ids[i] == s;
        assert(i == ids.len() - 1) by {
            if i < d.len() {
                assert(d[i] == s);
            }
        }
        lemma_spared(rt, d, s);
        let f = transition_effects(all_failed(rt, d), s, SessionStatus::Failed, None);
        assert(may_become(t_get(rt, s)->0.status, SessionStatus::Failed));
        assert(all_failed_effects(rt, ids)[before.len() as int + 1] == f[1]);
        before.len() as int + 1
    }
}

/// A crash is told of every session that was live: it failed.
pub proof fn a_crash_fails_every_session_aloud(m: ManagerV, code: Option<i32>, s: Seq<char>)
    requires
        sound(m.runtime),
        t_get(m.runtime, s) is Some,
    ensures
        crashed(m, code).1.contains(
            EffectV::Publish(
                EventV::Status {
                    session_id: s,
                    branch: branch_in(m.runtime, s),
                    status: SessionStatus::Failed,
                },
            ),
        ),
{
    let ids = t_keys(m.runtime);
    t_get_has(m.runtime, s);
    let i = choose|i: int| 0 <= i < m.runtime.len() && (#[trigger] m.runtime[i]).0 == s;
    assert(ids[i] == s);
    let k = lemma_failures_announced(m.runtime, ids, s);
    let f = all_failed_effects(m.runtime, ids);
    let at = crashed(m, code).1.len() - f.len() + k;
    assert(crashed(m, code).1[at] == f[k]);
}

/// A live session changes its status along the edges of the state machine only.
pub proof fn statuses_move_along_the_edges(
    m: ManagerV,
    e: SidecarEvent,
    row: Option<SessionV>,
    id: Seq<char>,
    now: i128,
    s: Seq<char>,
)
    requires
        sound(m.runtime),
    ensures
        match (status_in(m.runtime, s), status_in(handled(m, e, row, id, now).0.runtime, s)) {
            (Some(a), Some(b)) => a == b || may_become(a, b),
            (None, Some(_)) => false,
            _ => true,
        },
{
    match e {
        SidecarEvent::Status { session_id, status } => match status_of_text(status@) {
            Some(next) => {
                lemma_elsewhere(m.runtime, session_id@, next, s);
            },
            None => {},
        },
        SidecarEvent::SessionClosed { session_id, reason } => {
            let next = closed_status(reason@, t_get(m.runtime, session_id@));
            lemma_elsewhere(m.runtime, session_id@, next, s);
            t_get_del(runtime_after(m.runtime, session_id@, next), session_id@, s);
        },
        _ => {},
    }
}

// ---------------------------------------------------------------------------
// The write slot, the notes
// ---------------------------------------------------------------------------

/// Going read-only is always allowed to a live session, and frees the branch's write slot.
pub proof fn going_read_only_frees_the_slot(m: ManagerV, id: Seq<char>)
    requires
        sound(m.runtime),
        t_get(m.runtime, id) matches Some(r) && holds_slot(r, r.branch),
    ensures
        mode_error(m, id, "plan"@) is None,
        !slot_taken(mode_set(m, id, "plan"@).runtime, branch_in(m.runtime, id), None),
{
    let r = t_get(m.runtime, id)->0;
    let after = mode_set(m, id, "plan"@).runtime;
    mode_changes_keep_one_writer(m, id, "plan"@);
    if slot_taken(after, r.branch, None) {
        let i = choose|i: int|
            0 <= i < after.len() && Some((#[trigger] after[i]).0) != None::<Seq<char>>
                && holds_slot(after[i].1, r.branch);
        let other = after[i].0;
        t_get_at(after, i);
        t_get_put(
            m.runtime,
            id,
            RuntimeV {
                branch: r.branch,
                status: r.status,
                is_writer: false,
                close_requested: r.close_requested,
            },
            other,
        );
        assert(other != id);
        assert(t_get(m.runtime, other) is Some && t_get(m.runtime, id) is Some);
    }
}

/// A finalize turn whose time is up is over: the session is closed and waits for no notes
/// any more, and every other one waits on.
pub proof fn no_finalize_turn_outlives_its_deadline(
    finalizing: Seq<(Seq<char>, i128)>,
    runtime: Seq<(Seq<char>, RuntimeV)>,
    now: i128,
    k: int,
)
    requires
        0 <= k < finalizing.len(),
    ensures
        finalizing[k].1 <= now ==> expiry_effects(finalizing, runtime, now).contains(
            EffectV::Attempt(close_call(finalizing[k].0)),
        ),
        finalizing[k].1 > now ==> unexpired(finalizing, now).contains(finalizing[k]),
        forall|i: int|
            0 <= i < unexpired(finalizing, now).len() ==> (#[trigger] unexpired(
                finalizing,
                now,
            )[i]).1 > now,
    decreases finalizing.len(),
{
    let d = finalizing.drop_last();
    let before = expiry_effects(d, runtime, now);
    let all = expiry_effects(finalizing, runtime, now);
    let last = finalizing.last();
    if d.len() > 0 {
        let j = if k < d.len() {
            k
        } else {
            0
        };
        no_finalize_turn_outlives_its_deadline(d, runtime, now, j);
        if k < d.len() {
            assert(d[k] == finalizing[k]);
            if finalizing[k].1 <= now {
                let x = EffectV::Attempt(close_call(finalizing[k].0));
                let at = choose|at: int| 0 <= at < before.len() && before[at] == x;
                assert(all[at] == x);
            } else {
                let at = choose|at: int|
                    0 <= at < unexpired(d, now).len() && unexpired(d, now)[at] == finalizing[k];
                assert(unexpired(finalizing, now)[at] == finalizing[k]);
            }
        }
    }
    if k == d.len() {
        if last.1 <= now {
            let f = finish_effects(last.0, branch_in(runtime, last.0));
            assert(all[before.len() as int + 1] == f[1]);
        } else {
            let u = unexpired(finalizing, now);
            assert(u[u.len() - 1] == last);
        }
    }
    assert forall|i: int| 0 <= i < unexpired(finalizing, now).len() implies (#[trigger] unexpired(
        finalizing,
        now,
    )[i]).1 > now by {
        if i < unexpired(d, now).len() {
            assert(unexpired(finalizing, now)[i] == unexpired(d, now)[i]);
        }
    }
}

} // verus!
