//! `ask_original_agent` — the live fallback when `TASK_NOTES.md` does not answer it.
//!
//! A review session can ask the agent that implemented the branch why it did something. The
//! answer comes from resuming that implementation session's own context, read-only, on a
//! cheap model, for exactly one question.
//!
//! Two rules shape everything here:
//!
//! 1. **Every outcome is text the asking agent can read.** No implementation session, no
//!    resumable context, a spawn failure, a crash mid-flight, a timeout, over budget — all
//!    of them answer the tool call with a sentence explaining what to do instead. A thrown
//!    error would kill the asking turn, which is a far worse failure than a missing answer.
//! 2. **The budget is enforced here, not in the prompt.** Two escalations per asking turn,
//!    counted per session and reset when that session starts a new turn. Prompt wording is
//!    not a limit.
use crate::bus::{Event, EventV};
use crate::session::manager::{
    opt_session_view, session_views, spawned, writer_conflict, ManagerV, SpawnParams, SpawnParamsV,
};
use crate::session::{
    terminal, writer_mode, Session, SessionStatus, SessionType, SessionV, READ_ONLY_MODE,
};
use crate::table::{t_del, t_get, t_get_del, t_get_put, t_put, t_unique, Table};
use crate::text::{
    blank, chars_of, is_blank, opt_view, parse_number, parsed_number, same_text, text_of, trim,
    trim_text, trimmed, views,
};
use vstd::prelude::*;
use vstd::string::*;
use vstd::utf8::encode_utf8;

verus! {

/// Setting key for how long one escalation may take.
pub const SETTING_ESCALATION_TIMEOUT: &'static str = "escalation_timeout_secs";

/// Default for [`SETTING_ESCALATION_TIMEOUT`].
pub const DEFAULT_TIMEOUT_SECS: u64 = 120;

/// Escalations one asking turn may make. Deliberately small: the notes are the primary
/// channel, and an agent that needs a conversation is a sign the notes were inadequate.
pub const BUDGET_PER_TURN: u32 = 2;

/// Model every escalation runs on, whatever the original used — the answer is a lookup in
/// context that already exists, not new reasoning.
pub const ESCALATION_MODEL: &'static str = "sonnet";

/// What the asking agent is told when there is nothing to ask.
pub const NO_CONTEXT: &'static str = "Context unavailable: no implementation session for this branch can be resumed. Answer from TASK_NOTES.md and the code.";

pub const OVER_BUDGET: &'static str = "Context unavailable: this turn already used its escalation budget (2 questions). Answer from TASK_NOTES.md and the code.";

pub const NO_WORKTREE: &'static str = "Context unavailable: this branch has no worktree to run in. Answer from TASK_NOTES.md and the code.";

pub const NO_ANSWER: &'static str = "Context unavailable: the original agent did not answer in time. Answer from TASK_NOTES.md and the code.";

/// Tools an escalated session may never use. Belt and braces: it also runs in plan mode.
pub open spec fn disallowed() -> Seq<Seq<char>> {
    seq!["Edit"@, "Write"@, "Bash"@]
}

/// Tools an escalated session may never use.
pub fn disallowed_tools() -> (r: Vec<String>)
    ensures
        views(r@) == disallowed(),
{
    let mut r: Vec<String> = Vec::new();
    r.push(text_of("Edit"));
    r.push(text_of("Write"));
    r.push(text_of("Bash"));
    assert(views(r@) =~= disallowed());
    r
}

/// Public for the session manager's routing: it needs the type name, not the internals.
pub fn is_escalation(session_type: SessionType) -> (b: bool)
    ensures
        b == (session_type == SessionType::Escalation),
{
    session_type == SessionType::Escalation
}

/// Convenience for the IPC layer and tests.
pub fn escalation_budget() -> (n: u32)
    ensures
        n == BUDGET_PER_TURN,
{
    BUDGET_PER_TURN
}

/// How long one escalation may take, in seconds.
pub open spec fn timeout_secs(setting: Option<Seq<char>>) -> u64 {
    let n = match setting {
        Some(raw) => match parsed_number(trim(raw), u64::MAX as nat) {
            Some(n) => n as u64,
            None => DEFAULT_TIMEOUT_SECS,
        },
        None => DEFAULT_TIMEOUT_SECS,
    };
    if n < 1 {
        1
    } else {
        n
    }
}

pub fn timeout(setting: Option<&str>) -> (secs: u64)
    ensures
        secs == timeout_secs(
            match setting {
                Some(s) => Some(s@),
                None => None,
            },
        ),
{
    let mut secs: u64 = DEFAULT_TIMEOUT_SECS;
    match setting {
        Some(raw) => {
            let v: Vec<char> = chars_of(raw);
            match parse_number(trimmed(v.as_slice()), u64::MAX) {
                Some(n) => {
                    secs = n;
                },
                None => {},
            }
        },
        None => {},
    }
    if secs < 1 {
        1
    } else {
        secs
    }
}

/// The escalated session's only turn. It resumes the implementation context, so it already
/// knows the work; all it needs is the question and a hard stop on doing anything else.
pub open spec fn prompt_for(question: Seq<char>) -> Seq<char> {
    "Another agent is reviewing this branch and asks you, the agent that implemented it, one question. You are read-only now: do not edit files, run commands, or start new work — just answer from what you did and why.\n\nQuestion: "@
        + question
        + "\n\nAnswer in at most a short paragraph. If you genuinely do not know, say so plainly."@
}

pub fn escalation_prompt(question: &str) -> (r: String)
    ensures
        r@ == prompt_for(question@),
{
    text_of(
        "Another agent is reviewing this branch and asks you, the agent that implemented it, one question. You are read-only now: do not edit files, run commands, or start new work — just answer from what you did and why.\n\nQuestion: ",
    ).concat(question).concat(
        "\n\nAnswer in at most a short paragraph. If you genuinely do not know, say so plainly.",
    )
}

// ---------------------------------------------------------------------------
// The target
// ---------------------------------------------------------------------------

/// Whether a session can be asked: it implemented the branch, and its context can be
/// resumed.
pub open spec fn can_answer(s: SessionV) -> bool {
    s.session_type == SessionType::Implementation && s.sdk_session_id is Some
}

/// The latest of the sessions that can be asked.
pub open spec fn latest(rows: Seq<SessionV>) -> Option<SessionV>
    decreases rows.len(),
{
    if rows.len() == 0 {
        None
    } else {
        let before = latest(rows.drop_last());
        let s = rows.last();
        if can_answer(s) {
            match before {
                Some(b) => if s.created_at >= b.created_at {
                    Some(s)
                } else {
                    before
                },
                None => Some(s),
            }
        } else {
            before
        }
    }
}

/// Latest implementation session of the branch that has a resumable SDK context. Never
/// research/manual (they did not write the code), never a fan-out.
pub fn resolve_target(rows: &Vec<Session>) -> (r: Option<String>)
    ensures
        opt_view(r) == (match latest(session_views(rows@)) {
            Some(s) => Some(s.id),
            None => None,
        }),
{
    let ghost rv = session_views(rows@);
    let mut best: Option<usize> = None;
    let mut i: usize = 0;
    while i < rows.len()
        invariant
            i <= rows@.len(),
            rv == session_views(rows@),
            match best {
                Some(b) => b < rows@.len() && latest(rv.take(i as int)) == Some(rows@[b as int]@),
                None => latest(rv.take(i as int)) is None,
            },
        decreases rows@.len() - i,
    {
        assert(rv.take(i + 1).drop_last() =~= rv.take(i as int));
        assert(rv.take(i + 1).last() == rows@[i as int]@);
        let s: &Session = &rows[i];
        if s.session_type == SessionType::Implementation && s.sdk_session_id.is_some() {
            let newer: bool = match best {
                Some(b) => s.created_at >= rows[b].created_at,
                None => true,
            };
            if newer {
                best = Some(i);
            }
        }
        i += 1;
    }
    assert(rv.take(i as int) =~= rv);
    match best {
        Some(b) => Some(text_of(rows[b].id.as_str())),
        None => None,
    }
}

proof fn lemma_latest(rows: Seq<SessionV>)
    ensures
        match latest(rows) {
            Some(s) => rows.contains(s) && can_answer(s) && forall|i: int|
                0 <= i < rows.len() && can_answer(#[trigger] rows[i]) ==> rows[i].created_at
                    <= s.created_at,
            None => forall|i: int| 0 <= i < rows.len() ==> !can_answer(#[trigger] rows[i]),
        },
    decreases rows.len(),
{
    if rows.len() > 0 {
        let d = rows.drop_last();
        lemma_latest(d);
        assert(rows[rows.len() - 1] == rows.last());
        assert forall|i: int| 0 <= i < rows.len() - 1 implies rows[i] == d[i] by {}
        match latest(d) {
            Some(s) => {
                let k = choose|k: int| 0 <= k < d.len() && d[k] == s;
                assert(rows[k] == s);
            },
            None => {},
        }
    }
}

/// The target can be resumed and implemented the branch, and no such session is younger.
pub proof fn the_target_is_the_latest_implementation(rows: Seq<SessionV>, i: int)
    requires
        0 <= i < rows.len(),
        can_answer(rows[i]),
    ensures
        latest(rows) matches Some(s) && rows.contains(s) && can_answer(s) && rows[i].created_at
            <= s.created_at,
{
    lemma_latest(rows);
}

// ---------------------------------------------------------------------------
// The budget
// ---------------------------------------------------------------------------

#[derive(Debug)]
pub struct EscalationManager {
    /// Escalations spent by each asking session in its current turn.
    pub spent: Table<u32>,
}

/// What a session has spent.
pub open spec fn spent_by(spent: Seq<(Seq<char>, u32)>, id: Seq<char>) -> u32 {
    match t_get(spent, id) {
        Some(n) => n,
        None => 0,
    }
}

/// Whether a session may still ask.
pub open spec fn within_budget(spent: Seq<(Seq<char>, u32)>, id: Seq<char>) -> bool {
    spent_by(spent, id) < BUDGET_PER_TURN
}

/// The counts after a session asked once more.
pub open spec fn claimed(spent: Seq<(Seq<char>, u32)>, id: Seq<char>) -> Seq<(Seq<char>, u32)> {
    if within_budget(spent, id) {
        t_put(spent, id, (spent_by(spent, id) + 1) as u32)
    } else {
        spent
    }
}

/// The counts after a status change: a new turn starts (streaming) or the session is gone —
/// either way its spent count no longer applies.
pub open spec fn refilled(
    spent: Seq<(Seq<char>, u32)>,
    id: Seq<char>,
    status: SessionStatus,
) -> Seq<(Seq<char>, u32)> {
    if status == SessionStatus::Streaming || terminal(status) {
        t_del(spent, id)
    } else {
        spent
    }
}

/// What an `ask_original_agent` call leads to.
#[derive(Debug)]
pub enum EscalationStep {
    /// An answer at once.
    Refuse { text: &'static str },
    /// A session to spawn, resuming `target`.
    Spawn { params: SpawnParams, target: String },
}

/// The session that answers.
pub open spec fn escalation_params(
    branch: Seq<char>,
    cwd: Seq<char>,
    question: Seq<char>,
    target: Seq<char>,
) -> SpawnParamsV {
    SpawnParamsV {
        branch,
        cwd,
        session_type: SessionType::Escalation,
        model: Some(ESCALATION_MODEL@),
        effort: None,
        permission_mode: Some(READ_ONLY_MODE@),
        thinking: None,
        tools_profile: None,
        disallowed_tools: disallowed(),
        prompt: prompt_for(question),
        resume_from: Some(target),
    }
}

/// Why a call is answered at once, if it is.
pub open spec fn refusal(
    spent: Seq<(Seq<char>, u32)>,
    id: Seq<char>,
    asking: Option<SessionV>,
    rows: Seq<SessionV>,
    cwd: Option<Seq<char>>,
) -> Option<Seq<char>> {
    if asking is None {
        Some(NO_CONTEXT@)
    } else if !within_budget(spent, id) {
        Some(OVER_BUDGET@)
    } else if latest(rows) is None {
        Some(NO_CONTEXT@)
    } else if cwd is None {
        Some(NO_WORKTREE@)
    } else {
        None
    }
}

impl EscalationManager {
    pub open spec fn wf(self) -> bool {
        self.spent.wf()
    }

    pub fn new() -> (m: Self)
        ensures
            m.wf(),
            m.spent@ == Seq::<(Seq<char>, u32)>::empty(),
    {
        EscalationManager { spent: Table::new() }
    }

    /// Take one escalation from the asking turn's budget. False when it is used up.
    pub fn claim_budget(&mut self, asking_session_id: &str) -> (b: bool)
        requires
            old(self).wf(),
        ensures
            final(self).wf(),
            b == within_budget(old(self).spent@, asking_session_id@),
            final(self).spent@ == claimed(old(self).spent@, asking_session_id@),
    {
        let used: u32 = match self.spent.get(asking_session_id) {
            Some(n) => *n,
            None => 0,
        };
        if used >= BUDGET_PER_TURN {
            return false;
        }
        self.spent.insert(asking_session_id, used + 1);
        true
    }

    /// Keep the budget in step with the sessions: a new turn on an asking session refills it.
    pub fn on_event(&mut self, event: &Event)
        requires
            old(self).wf(),
        ensures
            final(self).wf(),
            final(self).spent@ == (match *event {
                Event::SessionStatusChanged { session_id, status, .. } => refilled(
                    old(self).spent@,
                    session_id@,
                    status,
                ),
                _ => old(self).spent@,
            }),
    {
        match event {
            Event::SessionStatusChanged { session_id, status, .. } => {
                if *status == SessionStatus::Streaming || status.is_terminal() {
                    self.spent.remove(session_id.as_str());
                }
            },
            _ => {},
        }
    }

    /// What one `ask_original_agent` call leads to. `asking` is the stored row of the asking
    /// session, `rows` are the sessions of its branch, `cwd` is its branch's worktree.
    pub fn answer(
        &mut self,
        asking_session_id: &str,
        asking: Option<&Session>,
        question: &str,
        rows: &Vec<Session>,
        cwd: Option<&str>,
    ) -> (r: EscalationStep)
        requires
            old(self).wf(),
        ensures
            final(self).wf(),
            final(self).spent@ == (if asking is Some {
                claimed(old(self).spent@, asking_session_id@)
            } else {
                old(self).spent@
            }),
            match refusal(
                old(self).spent@,
                asking_session_id@,
                opt_session_view(asking),
                session_views(rows@),
                match cwd {
                    Some(c) => Some(c@),
                    None => None,
                },
            ) {
                Some(t) => r matches EscalationStep::Refuse { text } && text@ == t,
                None => r matches EscalationStep::Spawn { params, target } && target@ == latest(
                    session_views(rows@),
                )->0.id && params@ == escalation_params(
                    asking->0@.branch,
                    cwd->0@,
                    question@,
                    target@,
                ),
            },
    {
        let asking: &Session = match asking {
            Some(s) => s,
            None => return EscalationStep::Refuse { text: NO_CONTEXT },
        };
        if !self.claim_budget(asking_session_id) {
            return EscalationStep::Refuse { text: OVER_BUDGET };
        }
        let target: String = match resolve_target(rows) {
            Some(t) => t,
            None => return EscalationStep::Refuse { text: NO_CONTEXT },
        };
        let cwd: &str = match cwd {
            Some(c) => c,
            None => return EscalationStep::Refuse { text: NO_WORKTREE },
        };
        let params: SpawnParams = SpawnParams {
            branch: text_of(asking.branch.as_str()),
            cwd: text_of(cwd),
            session_type: SessionType::Escalation,
            model: Some(text_of(ESCALATION_MODEL)),
            effort: None,
            permission_mode: Some(text_of(READ_ONLY_MODE)),
            thinking: None,
            tools_profile: None,
            disallowed_tools: disallowed_tools(),
            prompt: escalation_prompt(question),
            resume_from: Some(text_of(target.as_str())),
        };
        EscalationStep::Spawn { params, target }
    }

    /// The answer where the session could not be spawned.
    pub fn spawn_failed(asking_session_id: &str, target: &str) -> (r: Outcome)
        ensures
            r.event@ == (EventV::EscalationFailed {
                asking: asking_session_id@,
                target: target@,
                reason: "spawn failed"@,
            }),
            r.text@ == NO_CONTEXT@,
    {
        Outcome {
            event: Event::EscalationFailed {
                asking_session_id: text_of(asking_session_id),
                target_session_id: text_of(target),
                reason: text_of("spawn failed"),
            },
            text: text_of(NO_CONTEXT),
        }
    }

    /// Announced after the spawn so the event names the session that will answer — which is
    /// what the attention queue needs to leave it alone.
    pub fn started(asking_session_id: &str, target: &str, escalated: &str, question: &str) -> (e:
        Event)
        ensures
            e@ == (EventV::EscalationStarted {
                asking: asking_session_id@,
                target: target@,
                escalated: escalated@,
                question: question@,
            }),
    {
        Event::EscalationStarted {
            asking_session_id: text_of(asking_session_id),
            target_session_id: text_of(target),
            escalated_session_id: text_of(escalated),
            question: text_of(question),
        }
    }

    /// The answer once the escalated session was heard, or its time was up.
    pub fn finished(asking_session_id: &str, target: &str, answer: Option<String>) -> (r: Outcome)
        ensures
            match answer {
                Some(t) => if is_blank(t@) {
                    is_no_answer(r, asking_session_id@, target@)
                } else {
                    r.event@ == (EventV::EscalationFinished {
                        asking: asking_session_id@,
                        target: target@,
                        chars: (encode_utf8(t@).len() as u32) as nat,
                    }) && r.text@ == "The agent that implemented this branch says:\n\n"@ + trim(t@)
                },
                None => is_no_answer(r, asking_session_id@, target@),
            },
    {
        match answer {
            Some(text) => {
                if !blank(text.as_str()) {
                    let bytes: usize = text.as_str().as_bytes().len();
                    return Outcome {
                        event: Event::EscalationFinished {
                            asking_session_id: text_of(asking_session_id),
                            target_session_id: text_of(target),
                            chars: #[verifier::truncate]
                            (bytes as u32),
                        },
                        text: text_of("The agent that implemented this branch says:\n\n").concat(
                            trim_text(text.as_str()).as_str(),
                        ),
                    };
                }
            },
            None => {},
        }
        Outcome {
            event: Event::EscalationFailed {
                asking_session_id: text_of(asking_session_id),
                target_session_id: text_of(target),
                reason: text_of("no answer before timeout"),
            },
            text: text_of(NO_ANSWER),
        }
    }
}

/// What goes back to the asking agent, and the event that announces it.
#[derive(Debug)]
pub struct Outcome {
    pub event: Event,
    pub text: String,
}

pub open spec fn is_no_answer(r: Outcome, asking: Seq<char>, target: Seq<char>) -> bool {
    r.event@ == (EventV::EscalationFailed { asking, target, reason: "no answer before timeout"@ })
        && r.text@ == NO_ANSWER@
}

// ---------------------------------------------------------------------------
// Collecting the answer
// ---------------------------------------------------------------------------

/// Collects the escalated session's reply: its stream deltas until its turn ends. The text
/// arrives in pieces on the bus, and the turn's end is a status transition.
#[derive(Debug)]
pub struct AnswerCollector {
    pub session_id: String,
    pub text: String,
}

/// What the session has said after one more event. Subagent chatter is not the answer.
pub open spec fn heard(id: Seq<char>, text: Seq<char>, e: Event) -> Seq<char> {
    match e {
        Event::SessionStreamDelta { session_id, text: delta, parent_tool_use_id } => if session_id@
            == id && parent_tool_use_id is None {
            text + delta@
        } else {
            text
        },
        _ => text,
    }
}

/// Whether the session's turn ended (idle again) or the session died.
pub open spec fn turn_over(id: Seq<char>, e: Event) -> bool {
    match e {
        Event::SessionStatusChanged { session_id, status, .. } => session_id@ == id && (status
            == SessionStatus::AwaitingInput || terminal(status)),
        _ => false,
    }
}

impl AnswerCollector {
    pub fn new(session_id: &str) -> (c: Self)
        ensures
            c.session_id@ == session_id@,
            c.text@ == Seq::<char>::empty(),
    {
        let c: AnswerCollector = AnswerCollector {
            session_id: text_of(session_id),
            text: String::new(),
        };
        assert(c.text@ =~= Seq::<char>::empty());
        c
    }

    /// One more event of the bus; true once the turn is over.
    pub fn on_event(&mut self, event: &Event) -> (over: bool)
        ensures
            final(self).session_id == old(self).session_id,
            final(self).text@ == heard(old(self).session_id@, old(self).text@, *event),
            over == turn_over(old(self).session_id@, *event),
    {
        match event {
            Event::SessionStreamDelta { session_id, text, parent_tool_use_id } => {
                if same_text(session_id.as_str(), self.session_id.as_str())
                    && parent_tool_use_id.is_none() {
                    self.text.append(text.as_str());
                }
                false
            },
            Event::SessionStatusChanged { session_id, status, .. } => same_text(
                session_id.as_str(),
                self.session_id.as_str(),
            ) && (*status == SessionStatus::AwaitingInput || status.is_terminal()),
            _ => false,
        }
    }

    /// The time is up: partial text is still worth returning.
    pub fn timed_out(self) -> (r: Option<String>)
        ensures
            opt_view(r) == (if is_blank(self.text@) {
                None
            } else {
                Some(self.text@)
            }),
    {
        if blank(self.text.as_str()) {
            None
        } else {
            Some(self.text)
        }
    }
}

// ---------------------------------------------------------------------------
// Laws
// ---------------------------------------------------------------------------

/// Two questions per turn: from a fresh turn on the third is refused, and the budget of
/// another session is untouched.
pub proof fn the_budget_is_two_per_turn(
    spent: Seq<(Seq<char>, u32)>,
    id: Seq<char>,
    other: Seq<char>,
)
    requires
        t_unique(spent),
        spent_by(spent, id) == 0,
        other != id,
    ensures
        within_budget(spent, id),
        within_budget(claimed(spent, id), id),
        !within_budget(claimed(claimed(spent, id), id), id),
        spent_by(claimed(spent, id), other) == spent_by(spent, other),
{
    let one = claimed(spent, id);
    t_get_put(spent, id, 1, id);
    t_get_put(spent, id, 1, other);
    t_get_put(one, id, 2, id);
}

/// No session ever spends more than its budget.
pub proof fn no_turn_goes_over_budget(
    spent: Seq<(Seq<char>, u32)>,
    id: Seq<char>,
    asked: Seq<char>,
)
    requires
        t_unique(spent),
        spent_by(spent, id) <= BUDGET_PER_TURN,
    ensures
        spent_by(claimed(spent, asked), id) <= BUDGET_PER_TURN,
{
    t_get_put(spent, asked, (spent_by(spent, asked) + 1) as u32, id);
}

/// A new turn, or the end of the session, refills its budget and no other.
pub proof fn a_new_turn_refills_the_budget(
    spent: Seq<(Seq<char>, u32)>,
    id: Seq<char>,
    other: Seq<char>,
    status: SessionStatus,
)
    requires
        status == SessionStatus::Streaming || terminal(status),
        other != id,
    ensures
        spent_by(refilled(spent, id, status), id) == 0,
        spent_by(refilled(spent, id, status), other) == spent_by(spent, other),
{
    t_get_del(spent, id, id);
    t_get_del(spent, id, other);
}

/// An escalation never takes a branch's write slot.
pub proof fn an_escalation_is_no_writer(
    m: ManagerV,
    branch: Seq<char>,
    cwd: Seq<char>,
    question: Seq<char>,
    target: Seq<char>,
    id: Seq<char>,
)
    requires
        t_unique(m.runtime),
    ensures
        ({
            let p = escalation_params(branch, cwd, question, target);
            &&& !writer_conflict(m, p)
            &&& t_get(spawned(m, p, id).runtime, id) matches Some(r) && !r.is_writer
        }),
{
    let p = escalation_params(branch, cwd, question, target);
    assert(!writer_mode(p.permission_mode));
    let r = crate::session::manager::RuntimeV {
        branch: p.branch,
        status: SessionStatus::Spawning,
        is_writer: false,
        close_requested: false,
    };
    t_get_put(m.runtime, id, r, id);
}

} // verus!
