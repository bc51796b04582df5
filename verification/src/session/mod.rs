//! Session entity and state machine.
//!
//! A session is bound to a branch at spawn time and persisted. The manager drives the
//! state machine from sidecar events and publishes every change.
pub mod laws;
pub mod lifecycle;
pub mod manager;
use crate::outside::{fresh_id, now_nanos};
use crate::text::{opt_view, same_text, text_of};
use vstd::prelude::*;

verus! {

/// What kind of work a session performs.
#[derive(Clone, Copy, Debug, PartialEq, Eq, Structural)]
pub enum SessionType {
    Research,
    Implementation,
    ReviewFix,
    Manual,
    /// A short read-only session that answers another session's `ask_original_agent`
    /// question by resuming the context of the one that implemented the branch.
    Escalation,
    /// The one persistent, unclosable session pinned to a worktree. PR review, reply
    /// drafting and commit or PR-description generation resume it, so that the answer
    /// reflects a continuous conversation.
    Main,
    /// Adversarial QA in a child worktree branched off the branch under attack.
    RedTeam,
}

pub open spec fn type_text(t: SessionType) -> Seq<char> {
    match t {
        SessionType::Research => "research"@,
        SessionType::Escalation => "escalation"@,
        SessionType::Implementation => "implementation"@,
        SessionType::ReviewFix => "review_fix"@,
        SessionType::Manual => "manual"@,
        SessionType::Main => "main"@,
        SessionType::RedTeam => "red_team"@,
    }
}

pub open spec fn type_of_text(s: Seq<char>) -> Option<SessionType> {
    if s == "research"@ {
        Some(SessionType::Research)
    } else if s == "implementation"@ {
        Some(SessionType::Implementation)
    } else if s == "review_fix"@ {
        Some(SessionType::ReviewFix)
    } else if s == "escalation"@ {
        Some(SessionType::Escalation)
    } else if s == "manual"@ {
        Some(SessionType::Manual)
    } else if s == "main"@ {
        Some(SessionType::Main)
    } else if s == "red_team"@ {
        Some(SessionType::RedTeam)
    } else {
        None
    }
}

impl SessionType {
    pub fn as_str(&self) -> (r: &'static str)
        ensures
            r@ == type_text(*self),
    {
        match self {
            SessionType::Research => "research",
            SessionType::Escalation => "escalation",
            SessionType::Implementation => "implementation",
            SessionType::ReviewFix => "review_fix",
            SessionType::Manual => "manual",
            SessionType::Main => "main",
            SessionType::RedTeam => "red_team",
        }
    }

    pub fn parse(s: &str) -> (r: Option<Self>)
        ensures
            r == type_of_text(s@),
    {
        if same_text(s, "research") {
            Some(SessionType::Research)
        } else if same_text(s, "implementation") {
            Some(SessionType::Implementation)
        } else if same_text(s, "review_fix") {
            Some(SessionType::ReviewFix)
        } else if same_text(s, "escalation") {
            Some(SessionType::Escalation)
        } else if same_text(s, "manual") {
            Some(SessionType::Manual)
        } else if same_text(s, "main") {
            Some(SessionType::Main)
        } else if same_text(s, "red_team") {
            Some(SessionType::RedTeam)
        } else {
            None
        }
    }
}

/// Session lifecycle: `spawning → streaming ⇄ awaiting_input → done | failed | cancelled`.
#[derive(Clone, Copy, Debug, PartialEq, Eq, Structural)]
pub enum SessionStatus {
    Spawning,
    Streaming,
    AwaitingInput,
    Done,
    Failed,
    Cancelled,
}

pub open spec fn status_text(s: SessionStatus) -> Seq<char> {
    match s {
        SessionStatus::Spawning => "spawning"@,
        SessionStatus::Streaming => "streaming"@,
        SessionStatus::AwaitingInput => "awaiting_input"@,
        SessionStatus::Done => "done"@,
        SessionStatus::Failed => "failed"@,
        SessionStatus::Cancelled => "cancelled"@,
    }
}

pub open spec fn status_of_text(s: Seq<char>) -> Option<SessionStatus> {
    if s == "spawning"@ {
        Some(SessionStatus::Spawning)
    } else if s == "streaming"@ {
        Some(SessionStatus::Streaming)
    } else if s == "awaiting_input"@ {
        Some(SessionStatus::AwaitingInput)
    } else if s == "done"@ {
        Some(SessionStatus::Done)
    } else if s == "failed"@ {
        Some(SessionStatus::Failed)
    } else if s == "cancelled"@ {
        Some(SessionStatus::Cancelled)
    } else {
        None
    }
}

pub open spec fn terminal(s: SessionStatus) -> bool {
    s == SessionStatus::Done || s == SessionStatus::Failed || s == SessionStatus::Cancelled
}

/// The edges of the session state machine.
pub open spec fn may_become(from: SessionStatus, to: SessionStatus) -> bool {
    match from {
        SessionStatus::Spawning => to == SessionStatus::Streaming || to
            == SessionStatus::AwaitingInput || to == SessionStatus::Failed || to
            == SessionStatus::Cancelled,
        SessionStatus::Streaming => to == SessionStatus::AwaitingInput || to == SessionStatus::Done
            || to == SessionStatus::Failed || to == SessionStatus::Cancelled,
        SessionStatus::AwaitingInput => to == SessionStatus::Streaming || to == SessionStatus::Done
            || to == SessionStatus::Failed || to == SessionStatus::Cancelled,
        _ => false,
    }
}

impl SessionStatus {
    pub fn as_str(&self) -> (r: &'static str)
        ensures
            r@ == status_text(*self),
    {
        match self {
            SessionStatus::Spawning => "spawning",
            SessionStatus::Streaming => "streaming",
            SessionStatus::AwaitingInput => "awaiting_input",
            SessionStatus::Done => "done",
            SessionStatus::Failed => "failed",
            SessionStatus::Cancelled => "cancelled",
        }
    }

    pub fn parse(s: &str) -> (r: Option<Self>)
        ensures
            r == status_of_text(s@),
    {
        if same_text(s, "spawning") {
            Some(SessionStatus::Spawning)
        } else if same_text(s, "streaming") {
            Some(SessionStatus::Streaming)
        } else if same_text(s, "awaiting_input") {
            Some(SessionStatus::AwaitingInput)
        } else if same_text(s, "done") {
            Some(SessionStatus::Done)
        } else if same_text(s, "failed") {
            Some(SessionStatus::Failed)
        } else if same_text(s, "cancelled") {
            Some(SessionStatus::Cancelled)
        } else {
            None
        }
    }

    /// Terminal states cannot transition further.
    pub fn is_terminal(&self) -> (b: bool)
        ensures
            b == terminal(*self),
    {
        match self {
            SessionStatus::Done | SessionStatus::Failed | SessionStatus::Cancelled => true,
            _ => false,
        }
    }

    /// Whether the state machine has an edge to `next`. Terminal states never
    /// transition; self-transitions are rejected.
    pub fn can_transition_to(&self, next: SessionStatus) -> (b: bool)
        ensures
            b == may_become(*self, next),
    {
        if *self == next {
            return false;
        }
        match self {
            SessionStatus::Spawning => match next {
                SessionStatus::Streaming | SessionStatus::AwaitingInput | SessionStatus::Failed
                | SessionStatus::Cancelled => true,
                _ => false,
            },
            SessionStatus::Streaming => match next {
                SessionStatus::AwaitingInput | SessionStatus::Done | SessionStatus::Failed
                | SessionStatus::Cancelled => true,
                _ => false,
            },
            SessionStatus::AwaitingInput => match next {
                SessionStatus::Streaming | SessionStatus::Done | SessionStatus::Failed
                | SessionStatus::Cancelled => true,
                _ => false,
            },
            _ => false,
        }
    }
}

/// A session type's name parses back to that type.
pub proof fn type_text_parses_back(t: SessionType)
    ensures
        type_of_text(type_text(t)) == Some(t),
{
    reveal_strlit("research");
    reveal_strlit("escalation");
    reveal_strlit("implementation");
    reveal_strlit("review_fix");
    reveal_strlit("manual");
    reveal_strlit("main");
    reveal_strlit("red_team");
    assert("research"@.len() == 8);
    assert("escalation"@.len() == 10);
    assert("implementation"@.len() == 14);
    assert("manual"@.len() == 6);
    assert("main"@.len() == 4);
    assert("red_team"@[0] == 'r' && "red_team"@[2] == 'd' && "research"@[2] == 's');
    assert("review_fix"@[0] == 'r' && "escalation"@[0] == 'e');
}

/// A status's name parses back to that status.
pub proof fn status_text_parses_back(s: SessionStatus)
    ensures
        status_of_text(status_text(s)) == Some(s),
{
    reveal_strlit("spawning");
    reveal_strlit("streaming");
    reveal_strlit("awaiting_input");
    reveal_strlit("done");
    reveal_strlit("failed");
    reveal_strlit("cancelled");
    assert("spawning"@.len() == 8);
    assert("streaming"@.len() == 9);
    assert("awaiting_input"@.len() == 14);
    assert("done"@.len() == 4);
    assert("failed"@.len() == 6);
    assert("cancelled"@.len() == 9);
    assert("streaming"@[0] == 's' && "cancelled"@[0] == 'c');
}

/// A name that parses is the name of what it parses to.
pub proof fn parsed_status_has_that_text(text: Seq<char>)
    ensures
        status_of_text(text) matches Some(s) ==> status_text(s) == text,
{
}

/// A terminal status never changes again, and no status changes to itself.
pub proof fn terminal_is_final(from: SessionStatus, to: SessionStatus)
    ensures
        terminal(from) ==> !may_become(from, to),
        !may_become(from, from),
{
}

/// Every live status can still fail and can still be cancelled.
pub proof fn live_can_fail_or_be_cancelled(from: SessionStatus)
    requires
        !terminal(from),
    ensures
        may_become(from, SessionStatus::Failed),
        may_become(from, SessionStatus::Cancelled),
{
}

/// Nothing becomes `spawning` again.
pub proof fn spawning_is_only_initial(from: SessionStatus)
    ensures
        !may_become(from, SessionStatus::Spawning),
{
}

/// Permission mode that runs without write access. Sessions in this mode do not count as
/// writers for the single-writer rule.
pub const READ_ONLY_MODE: &'static str = "plan";

/// The tool profile of sessions that may ask the original implementer.
pub const REVIEW_TOOLS_PROFILE: &'static str = "review";

pub open spec fn writer_mode(mode: Option<Seq<char>>) -> bool {
    mode != Some("plan"@)
}

/// Does this permission mode grant write access to the worktree?
pub fn is_writer_mode(permission_mode: Option<&str>) -> (b: bool)
    ensures
        b == writer_mode(
            match permission_mode {
                Some(m) => Some(m@),
                None => None,
            },
        ),
{
    match permission_mode {
        Some(m) => !same_text(m, "plan"),
        None => true,
    }
}

/// Thinking options offered in the UI; the empty text clears the override.
pub open spec fn known_thinking(t: Seq<char>) -> bool {
    ||| t.len() == 0
    ||| t == "default"@
    ||| t == "off"@
    ||| t == "4000"@
    ||| t == "16000"@
    ||| t == "32000"@
}

pub fn is_known_thinking(thinking: &str) -> (b: bool)
    ensures
        b == known_thinking(thinking@),
{
    thinking.is_empty() || same_text(thinking, "default") || same_text(thinking, "off")
        || same_text(thinking, "4000") || same_text(thinking, "16000") || same_text(
        thinking,
        "32000",
    )
}

/// Reasoning-effort levels the CLI accepts; the empty text clears the override.
pub open spec fn known_effort(e: Seq<char>) -> bool {
    ||| e.len() == 0
    ||| e == "low"@
    ||| e == "medium"@
    ||| e == "high"@
    ||| e == "xhigh"@
    ||| e == "max"@
}

pub fn is_known_effort(effort: &str) -> (b: bool)
    ensures
        b == known_effort(effort@),
{
    effort.is_empty() || same_text(effort, "low") || same_text(effort, "medium") || same_text(
        effort,
        "high",
    ) || same_text(effort, "xhigh") || same_text(effort, "max")
}

/// Permission modes the CLI accepts. Modes in which the CLI never asks are absent on
/// purpose: they would silently disarm the commit/push gate.
pub open spec fn known_permission_mode(m: Seq<char>) -> bool {
    m == "default"@ || m == "acceptEdits"@ || m == "auto"@ || m == "plan"@
}

pub fn is_known_permission_mode(mode: &str) -> (b: bool)
    ensures
        b == known_permission_mode(mode@),
{
    same_text(mode, "default") || same_text(mode, "acceptEdits") || same_text(mode, "auto")
        || same_text(mode, "plan")
}

/// A session row. `branch` links worktree, task and PR.
#[derive(Debug)]
pub struct Session {
    pub id: String,
    pub branch: String,
    pub session_type: SessionType,
    pub status: SessionStatus,
    pub model: Option<String>,
    pub effort: Option<String>,
    /// Effective permission mode (may have been downgraded by the single-writer rule).
    pub permission_mode: Option<String>,
    /// Thinking budget: `None`/`default` = CLI default, `off`, or a token count.
    pub thinking: Option<String>,
    /// Extra tool profile this session ran with.
    pub tools_profile: Option<String>,
    /// The agent SDK's session id, kept for resume.
    pub sdk_session_id: Option<String>,
    /// Nanoseconds since the Unix epoch.
    pub created_at: i128,
    pub updated_at: i128,
}

pub struct SessionV {
    pub id: Seq<char>,
    pub branch: Seq<char>,
    pub session_type: SessionType,
    pub status: SessionStatus,
    pub model: Option<Seq<char>>,
    pub effort: Option<Seq<char>>,
    pub permission_mode: Option<Seq<char>>,
    pub thinking: Option<Seq<char>>,
    pub tools_profile: Option<Seq<char>>,
    pub sdk_session_id: Option<Seq<char>>,
    pub created_at: i128,
    pub updated_at: i128,
}

impl View for Session {
    type V = SessionV;

    open spec fn view(&self) -> SessionV {
        SessionV {
            id: self.id@,
            branch: self.branch@,
            session_type: self.session_type,
            status: self.status,
            model: opt_view(self.model),
            effort: opt_view(self.effort),
            permission_mode: opt_view(self.permission_mode),
            thinking: opt_view(self.thinking),
            tools_profile: opt_view(self.tools_profile),
            sdk_session_id: opt_view(self.sdk_session_id),
            created_at: self.created_at,
            updated_at: self.updated_at,
        }
    }
}

impl Session {
    /// A session in the initial `spawning` state, with the given id and time.
    pub fn with_id(
        id: String,
        now: i128,
        branch: &str,
        session_type: SessionType,
        model: Option<String>,
        effort: Option<String>,
        permission_mode: Option<String>,
    ) -> (s: Self)
        ensures
            s@ == (SessionV {
                id: id@,
                branch: branch@,
                session_type,
                status: SessionStatus::Spawning,
                model: opt_view(model),
                effort: opt_view(effort),
                permission_mode: opt_view(permission_mode),
                thinking: None,
                tools_profile: None,
                sdk_session_id: None,
                created_at: now,
                updated_at: now,
            }),
    {
        Session {
            id,
            branch: text_of(branch),
            session_type,
            status: SessionStatus::Spawning,
            model,
            effort,
            permission_mode,
            thinking: None,
            tools_profile: None,
            sdk_session_id: None,
            created_at: now,
            updated_at: now,
        }
    }

    /// Create a new session bound to a branch, in the initial `spawning` state. Its id and
    /// its times are those of the moment.
    pub fn new(
        branch: &str,
        session_type: SessionType,
        model: Option<String>,
        effort: Option<String>,
        permission_mode: Option<String>,
    ) -> (s: Self)
        ensures
            s@ == (SessionV {
                id: s@.id,
                branch: branch@,
                session_type,
                status: SessionStatus::Spawning,
                model: opt_view(model),
                effort: opt_view(effort),
                permission_mode: opt_view(permission_mode),
                thinking: None,
                tools_profile: None,
                sdk_session_id: None,
                created_at: s@.created_at,
                updated_at: s@.created_at,
            }),
    {
        Session::with_id(
            fresh_id(),
            now_nanos(),
            branch,
            session_type,
            model,
            effort,
            permission_mode,
        )
    }

    pub fn is_writer(&self) -> (b: bool)
        ensures
            b == writer_mode(self@.permission_mode),
    {
        match &self.permission_mode {
            Some(m) => is_writer_mode(Some(m.as_str())),
            None => is_writer_mode(None),
        }
    }
}

} // verus!
