//! Line-level question flow.
//!
//! Selecting lines in the diff viewer builds context (file path, hunk text, blame, branch),
//! renders the `line-question` prompt template, and sends it to the worktree's most recently
//! active session (as a follow-up) or a fresh short-lived session, per the
//! `line_question_target` setting. Completion is announced as `attention.required` — the
//! core always announces; the UI decides whether the user is still looking.
use crate::bus::{Event, EventV};
use crate::error::{is_invalid_data, MaestroError};
use crate::outside::Stamp;
use crate::prompts::{
    is_read_error, parsed_template, rendered, valid_name, FileRead, PromptManager,
};
use crate::session::manager::{session_views, SpawnParams, SpawnParamsV};
use crate::session::{terminal, Session, SessionStatus, SessionType, SessionV, READ_ONLY_MODE};
use crate::table::{t_del, t_get, t_get_del, t_put, Table};
use crate::text::{
    char_views, chars_of, decimal, decimal_text, join, join_texts, lines, lines_of, opt_view,
    part_of, same_text, string_of, text_of, views,
};
use crate::worktree::{no_worktree_text, require_worktree, worktree_of, BlameLine, WorktreeRef};
use vstd::prelude::*;
use vstd::string::*;

verus! {

/// Setting key controlling where a line question is sent: `"active_session"` (default)
/// sends a follow-up to the most recently active session, falling back to a fresh one when
/// none is live; `"fresh_session"` always spawns a new session.
pub const SETTING_LINE_QUESTION_TARGET: &'static str = "line_question_target";

pub const TARGET_FRESH_SESSION: &'static str = "fresh_session";

pub const LINE_QUESTION_TEMPLATE: &'static str = "line-question";

/// What the UI needs to bind the inline answer block to the session stream.
#[derive(Debug)]
pub struct LineQuestionInfo {
    pub question_id: String,
    pub session_id: String,
    pub branch: String,
    pub path: String,
    pub line_start: u32,
    pub line_end: u32,
    pub question: String,
}

/// The lines a question is about.
#[derive(Debug)]
pub struct PendingQuestion {
    pub branch: String,
    pub path: String,
    pub line_start: u32,
    pub line_end: u32,
}

#[verifier::ext_equal]
pub struct QuestionV {
    pub branch: Seq<char>,
    pub path: Seq<char>,
    pub line_start: u32,
    pub line_end: u32,
}

impl View for PendingQuestion {
    type V = QuestionV;

    open spec fn view(&self) -> QuestionV {
        QuestionV {
            branch: self.branch@,
            path: self.path@,
            line_start: self.line_start,
            line_end: self.line_end,
        }
    }
}

// ---------------------------------------------------------------------------
// Context
// ---------------------------------------------------------------------------

/// `n` spaces.
pub open spec fn spaces(n: int) -> Seq<char> {
    if n <= 0 {
        seq![]
    } else {
        Seq::new(n as nat, |i: int| ' ')
    }
}

/// A number right-aligned to five places.
pub open spec fn aligned(n: nat) -> Seq<char> {
    spaces(5 - decimal(n).len()) + decimal(n)
}

/// The text of a 1-based line; empty where there is none.
pub open spec fn line_at(ls: Seq<Seq<char>>, n: int) -> Seq<char> {
    let i = if n > 0 {
        n - 1
    } else {
        0
    };
    if i < ls.len() {
        ls[i]
    } else {
        seq![]
    }
}

/// The lines from `n` to `last`, numbered.
pub open spec fn numbered(ls: Seq<Seq<char>>, n: int, last: int) -> Seq<char>
    decreases last + 1 - n,
{
    if n < 0 || n > last {
        seq![]
    } else {
        aligned(n as nat) + ": "@ + line_at(ls, n) + "\n"@ + numbered(ls, n + 1, last)
    }
}

/// The lines `start..=end` of a text, numbered; at least the first of them.
pub open spec fn hunk_of(contents: Seq<char>, start: u32, end: u32) -> Seq<char> {
    numbered(
        lines(contents),
        start as int,
        if end > start {
            end as int
        } else {
            start as int
        },
    )
}

fn pad(n: u64) -> (r: String)
    ensures
        r@ == aligned(n as nat),
{
    let digits: String = decimal_text(n);
    let d: Vec<char> = chars_of(digits.as_str());
    let mut r: String = String::new();
    let mut k: usize = d.len();
    assert(r@ =~= spaces(0));
    while k < 5
        invariant
            d@.len() <= k,
            d@.len() < 5 ==> k <= 5,
            d@.len() >= 5 ==> k == d@.len(),
            r@ == spaces(k - d@.len()),
        decreases 5 - k,
    {
        r.push(' ');
        assert(r@ =~= spaces(k + 1 - d@.len()));
        k += 1;
    }
    assert(r@ =~= spaces(5 - d@.len()));
    r.concat(digits.as_str())
}

/// Render `start..=end` (1-based, inclusive) of `contents` with line numbers.
pub fn render_hunk(contents: &str, start: u32, end: u32) -> (out: String)
    ensures
        out@ == hunk_of(contents@, start, end),
{
    let s: Vec<char> = chars_of(contents);
    let ls: Vec<Vec<char>> = lines_of(s.as_slice());
    let ghost lv = char_views(ls@);
    let last: u64 = if end > start {
        end as u64
    } else {
        start as u64
    };
    let mut out: String = String::new();
    let mut n: u64 = start as u64;
    assert(out@ + numbered(lv, n as int, last as int) =~= hunk_of(contents@, start, end));
    while n <= last
        invariant
            last <= u32::MAX,
            n <= last + 1,
            lv == char_views(ls@),
            out@ + numbered(lv, n as int, last as int) == hunk_of(contents@, start, end),
        decreases last + 1 - n,
    {
        let ghost before = out@;
        let i: u64 = if n > 0 {
            n - 1
        } else {
            0
        };
        let text: String = if i < ls.len() as u64 {
            assert(lv[i as int] == ls@[i as int]@);
            string_of(ls[i as usize].as_slice())
        } else {
            String::new()
        };
        assert(text@ =~= line_at(lv, n as int));
        let line: String = pad(n).concat(": ").concat(text.as_str()).concat("\n");
        out.append(line.as_str());
        assert(out@ + numbered(lv, n + 1, last as int) =~= before + numbered(
            lv,
            n as int,
            last as int,
        ));
        n += 1;
    }
    assert(out@ + numbered(lv, n as int, last as int) =~= out@);
    out
}

/// One line of blame: the short hash, the author and the commit's summary.
pub open spec fn blame_text(l: BlameLine) -> Seq<char> {
    let sha = if l.sha@.len() > 8 {
        l.sha@.subrange(0, 8)
    } else {
        l.sha@
    };
    sha + " "@ + l.author@ + " "@ + l.summary@
}

pub open spec fn blame_texts(ls: Seq<BlameLine>) -> Seq<Seq<char>> {
    ls.map_values(|l: BlameLine| blame_text(l))
}

pub fn render_blame(ls: &Vec<BlameLine>) -> (r: String)
    ensures
        r@ == join(blame_texts(ls@), "\n"@),
{
    let mut texts: Vec<String> = Vec::new();
    let mut i: usize = 0;
    while i < ls.len()
        invariant
            i <= ls@.len(),
            views(texts@) == blame_texts(ls@.take(i as int)),
        decreases ls@.len() - i,
    {
        let ghost done = views(texts@);
        let l: &BlameLine = &ls[i];
        let sha: Vec<char> = chars_of(l.sha.as_str());
        let short: String = if sha.len() > 8 {
            part_of(sha.as_slice(), 0, 8)
        } else {
            text_of(l.sha.as_str())
        };
        let text: String = short.concat(" ").concat(l.author.as_str()).concat(" ").concat(
            l.summary.as_str(),
        );
        let ghost tv = text@;
        texts.push(text);
        assert(tv == blame_text(ls@[i as int]));
        assert(views(texts@) =~= done.push(tv));
        assert(blame_texts(ls@.take(i + 1)) =~= done.push(tv));
        i += 1;
    }
    assert(ls@.take(i as int) =~= ls@);
    join_texts(&texts, "\n")
}

/// What a question is asked with.
pub open spec fn question_vars(
    branch: Seq<char>,
    path: Seq<char>,
    start: u32,
    end: u32,
    question: Seq<char>,
    contents: Option<Seq<char>>,
    blame: Seq<BlameLine>,
) -> Seq<(Seq<char>, Seq<char>)> {
    let text = match contents {
        Some(c) => c,
        None => ""@,
    };
    t_put(
        t_put(
            t_put(
                t_put(
                    t_put(
                        t_put(
                            t_put(seq![], "branch"@, branch),
                            "file"@,
                            path,
                        ),
                        "line_start"@,
                        decimal(start as nat),
                    ),
                    "line_end"@,
                    decimal(end as nat),
                ),
                "hunk"@,
                hunk_of(text, start, end),
            ),
            "blame"@,
            join(blame_texts(blame), "\n"@),
        ),
        "question"@,
        question,
    )
}

// ---------------------------------------------------------------------------
// Who answers
// ---------------------------------------------------------------------------

/// The most recently updated of the live sessions; the first of them where several were
/// updated at once.
pub open spec fn most_recent(rows: Seq<SessionV>) -> Option<SessionV>
    decreases rows.len(),
{
    if rows.len() == 0 {
        None
    } else {
        let before = most_recent(rows.drop_last());
        let s = rows.last();
        if terminal(s.status) {
            before
        } else {
            match before {
                Some(b) => if s.updated_at > b.updated_at {
                    Some(s)
                } else {
                    before
                },
                None => Some(s),
            }
        }
    }
}

/// Most recently updated non-terminal session of a branch, if any.
pub fn active_session(rows: &Vec<Session>) -> (r: Option<String>)
    ensures
        opt_view(r) == (match most_recent(session_views(rows@)) {
            Some(s) => Some(s.id),
            None => None,
        }),
{
    let ghost rv = session_views(rows@);
    let mut best: Option<usize> = None;
    let mut i: usize = 0;
    while i < rows.len()
        invariant
            i <= rows@.len(),
            rv == session_views(rows@),
            match best {
                Some(b) => b < rows@.len() && most_recent(rv.take(i as int)) == Some(
                    rows@[b as int]@,
                ),
                None => most_recent(rv.take(i as int)) is None,
            },
        decreases rows@.len() - i,
    {
        assert(rv.take(i + 1).drop_last() =~= rv.take(i as int));
        assert(rv.take(i + 1).last() == rows@[i as int]@);
        let s: &Session = &rows[i];
        if !s.status.is_terminal() {
            let newer: bool = match best {
                Some(b) => s.updated_at > rows[b].updated_at,
                None => true,
            };
            if newer {
                best = Some(i);
            }
        }
        i += 1;
    }
    assert(rv.take(i as int) =~= rv);
    match best {
        Some(b) => Some(text_of(rows[b].id.as_str())),
        None => None,
    }
}

/// How a question reaches a session.
#[derive(Debug)]
pub enum AskStep {
    /// As a follow-up to a live session.
    FollowUp { session_id: String, prompt: String },
    /// With a session of its own.
    Spawn { params: SpawnParams },
}

/// A read-only research session with the question as its initial message.
pub open spec fn fresh_params(branch: Seq<char>, cwd: Seq<char>, prompt: Seq<char>) -> SpawnParamsV {
    SpawnParamsV {
        branch,
        cwd,
        session_type: SessionType::Research,
        model: None,
        effort: None,
        permission_mode: Some(READ_ONLY_MODE@),
        thinking: None,
        tools_profile: None,
        disallowed_tools: seq![],
        prompt,
        resume_from: None,
    }
}

/// Whether `r` is how a prompt reaches a session of `branch`.
pub open spec fn is_dispatch(
    r: Result<AskStep, MaestroError>,
    branch: Seq<char>,
    prompt: Seq<char>,
    setting: Option<Seq<char>>,
    rows: Seq<SessionV>,
    worktrees: Seq<WorktreeRef>,
) -> bool {
    let active = if setting == Some(TARGET_FRESH_SESSION@) {
        None
    } else {
        most_recent(rows)
    };
    match active {
        Some(s) => r matches Ok(AskStep::FollowUp { session_id, prompt: p }) && session_id@ == s.id
            && p@ == prompt,
        None => match worktree_of(worktrees, branch, 0) {
            Some(cwd) => r matches Ok(AskStep::Spawn { params }) && params@ == fresh_params(
                branch,
                cwd,
                prompt,
            ),
            None => r matches Err(e) && is_invalid_data(e, no_worktree_text(branch)),
        },
    }
}

/// How a prompt reaches a session of `branch`, per the configured target. `rows` are the
/// branch's sessions.
pub fn dispatch(
    branch: &str,
    prompt: String,
    setting: Option<&str>,
    rows: &Vec<Session>,
    worktrees: &Vec<WorktreeRef>,
) -> (r: Result<AskStep, MaestroError>)
    ensures
        is_dispatch(
            r,
            branch@,
            prompt@,
            match setting {
                Some(s) => Some(s@),
                None => None,
            },
            session_views(rows@),
            worktrees@,
        ),
{
    let fresh: bool = match setting {
        Some(t) => same_text(t, TARGET_FRESH_SESSION),
        None => false,
    };
    if !fresh {
        match active_session(rows) {
            Some(id) => return Ok(AskStep::FollowUp { session_id: id, prompt }),
            None => {},
        }
    }
    match require_worktree(worktrees, branch) {
        Ok(cwd) => {
            let params: SpawnParams = SpawnParams {
                branch: text_of(branch),
                cwd,
                session_type: SessionType::Research,
                model: None,
                effort: None,
                permission_mode: Some(text_of(READ_ONLY_MODE)),
                thinking: None,
                tools_profile: None,
                disallowed_tools: Vec::new(),
                prompt,
                resume_from: None,
            };
            assert(views(params.disallowed_tools@) =~= seq![]);
            Ok(AskStep::Spawn { params })
        },
        Err(e) => Err(e),
    }
}

/// The lines of a question and what is known about them.
#[derive(Debug)]
pub struct QuestionContext {
    /// The new side of the file, where there is one.
    pub contents: Option<String>,
    /// Empty where blame was not to be had.
    pub blame: Vec<BlameLine>,
    /// What came of reading the question template.
    pub template: FileRead,
}

/// Line questions that wait for their answer.
#[derive(Debug)]
pub struct LineQuestionManager {
    /// One pending question per session id — a session answers one line question at a time.
    pub pending: Table<PendingQuestion>,
}

impl LineQuestionManager {
    pub open spec fn wf(self) -> bool {
        self.pending.wf()
    }

    pub fn new() -> (m: Self)
        ensures
            m.wf(),
            m.pending@ == Seq::<(Seq<char>, QuestionV)>::empty(),
    {
        LineQuestionManager { pending: Table::new() }
    }

    /// Build context for `path` lines `start..=end` on `branch`, render the `line-question`
    /// template, and say how it reaches a session per the configured target.
    pub fn ask(
        branch: &str,
        path: &str,
        start: u32,
        end: u32,
        question: &str,
        context: QuestionContext,
        prompts: &PromptManager,
        setting: Option<&str>,
        rows: &Vec<Session>,
        worktrees: &Vec<WorktreeRef>,
    ) -> (r: Result<AskStep, MaestroError>)
        ensures
            match context.template {
                FileRead::Text(raw) => is_dispatch(
                    r,
                    branch@,
                    rendered(
                        parsed_template(LINE_QUESTION_TEMPLATE@, raw@).body,
                        question_vars(
                            branch@,
                            path@,
                            start,
                            end,
                            question@,
                            opt_view(context.contents),
                            context.blame@,
                        ),
                    ),
                    match setting {
                        Some(s) => Some(s@),
                        None => None,
                    },
                    session_views(rows@),
                    worktrees@,
                ),
                _ => r matches Err(e) && is_read_error(
                    e,
                    LINE_QUESTION_TEMPLATE@,
                    context.template,
                ),
            },
    {
        let hunk: String = match &context.contents {
            Some(c) => render_hunk(c.as_str(), start, end),
            None => render_hunk("", start, end),
        };
        let mut vars: Table<String> = Table::new();
        vars.insert("branch", text_of(branch));
        vars.insert("file", text_of(path));
        vars.insert("line_start", decimal_text(start as u64));
        vars.insert("line_end", decimal_text(end as u64));
        vars.insert("hunk", hunk);
        vars.insert("blame", render_blame(&context.blame));
        vars.insert("question", text_of(question));
        proof {
            reveal_strlit("line-question");
            assert(valid_name(LINE_QUESTION_TEMPLATE@));
        }
        let prompt: String = match prompts.render(LINE_QUESTION_TEMPLATE, context.template, &vars) {
            Ok(p) => p,
            Err(e) => return Err(e),
        };
        dispatch(branch, prompt, setting, rows, worktrees)
    }

    /// The question reached a session: remember what it was about. The stamp's id is the
    /// question's.
    pub fn asked(
        &mut self,
        session_id: &str,
        branch: &str,
        path: &str,
        start: u32,
        end: u32,
        question: &str,
        stamp: &Stamp,
    ) -> (r: LineQuestionInfo)
        requires
            old(self).wf(),
        ensures
            final(self).wf(),
            final(self).pending@ == t_put(
                old(self).pending@,
                session_id@,
                QuestionV { branch: branch@, path: path@, line_start: start, line_end: end },
            ),
            r.question_id@ == stamp.id@,
            r.session_id@ == session_id@,
            r.branch@ == branch@,
            r.path@ == path@,
            r.line_start == start,
            r.line_end == end,
            r.question@ == question@,
    {
        self.pending.insert(
            session_id,
            PendingQuestion {
                branch: text_of(branch),
                path: text_of(path),
                line_start: start,
                line_end: end,
            },
        );
        LineQuestionInfo {
            question_id: text_of(stamp.id.as_str()),
            session_id: text_of(session_id),
            branch: text_of(branch),
            path: text_of(path),
            line_start: start,
            line_end: end,
            question: text_of(question),
        }
    }

    /// When a session with a pending question reaches `awaiting_input` or a terminal status,
    /// its answer is announced, once.
    pub fn on_event(&mut self, event: &Event) -> (r: Option<Event>)
        requires
            old(self).wf(),
        ensures
            final(self).wf(),
            ({
                let after = answered(old(self).pending@, *event);
                &&& final(self).pending@ == after.0
                &&& match r {
                    Some(e) => after.1 == Some(e@),
                    None => after.1 is None,
                }
            }),
    {
        match event {
            Event::SessionStatusChanged { session_id, status, .. } => {
                if *status == SessionStatus::AwaitingInput || status.is_terminal() {
                    self.complete(session_id.as_str())
                } else {
                    None
                }
            },
            _ => None,
        }
    }

    fn complete(&mut self, session_id: &str) -> (r: Option<Event>)
        requires
            old(self).wf(),
        ensures
            final(self).wf(),
            final(self).pending@ == t_del(old(self).pending@, session_id@),
            match t_get(old(self).pending@, session_id@) {
                Some(q) => r matches Some(e) && e@ == answer_event(session_id@, q),
                None => r is None,
            },
    {
        match self.pending.remove(session_id) {
            Some(q) => Some(
                Event::AttentionRequired {
                    source: text_of("line_question"),
                    branch: Some(q.branch),
                    session_id: Some(text_of(session_id)),
                    message: text_of("Answer ready for ").concat(q.path.as_str()).concat(
                        ":",
                    ).concat(decimal_text(q.line_start as u64).as_str()).concat("-").concat(
                        decimal_text(q.line_end as u64).as_str(),
                    ),
                },
            ),
            None => None,
        }
    }
}

pub open spec fn answer_event(session_id: Seq<char>, q: QuestionV) -> EventV {
    EventV::AttentionRequired {
        source: "line_question"@,
        branch: Some(q.branch),
        session_id: Some(session_id),
        message: "Answer ready for "@ + q.path + ":"@ + decimal(q.line_start as nat) + "-"@
            + decimal(q.line_end as nat),
    }
}

/// The pending questions after an event, and the answer that it announces.
pub open spec fn answered(pending: Seq<(Seq<char>, QuestionV)>, e: Event) -> (
    Seq<(Seq<char>, QuestionV)>,
    Option<EventV>,
) {
    match e {
        Event::SessionStatusChanged { session_id, status, .. } => if status
            == SessionStatus::AwaitingInput || terminal(status) {
            (
                t_del(pending, session_id@),
                match t_get(pending, session_id@) {
                    Some(q) => Some(answer_event(session_id@, q)),
                    None => None,
                },
            )
        } else {
            (pending, None)
        },
        _ => (pending, None),
    }
}

/// An answer is announced once: the same event again announces nothing.
pub proof fn an_answer_is_announced_once(pending: Seq<(Seq<char>, QuestionV)>, e: Event)
    ensures
        answered(answered(pending, e).0, e).1 is None,
{
    match e {
        Event::SessionStatusChanged { session_id, .. } => {
            t_get_del(pending, session_id@, session_id@);
        },
        _ => {},
    }
}

} // verus!
