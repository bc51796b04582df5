//! Who is asked, with what, and what comes back: escalations to the agent that implemented a
//! branch, and questions about lines of its diff.
use crate::bus::{Event, EventV};
use crate::daemon::briefing::{between, includes};
use crate::escalation::{
    escalation_params, heard, latest, prompt_for, refusal, spent_by, timeout_secs, turn_over,
    NO_CONTEXT, NO_WORKTREE, OVER_BUDGET,
};
use crate::questions::{
    aligned, answered, fresh_params, hunk_of, line_at, most_recent, numbered, question_vars,
    QuestionV,
};
use crate::session::manager::{spawn_error, spawn_request, spawned_session, ManagerV};
use crate::session::{SessionStatus, SessionType, SessionV};
use crate::table::{t_get, t_get_del, t_get_put, t_put, t_unique};
use crate::text::{decimal, lines, parsed_number, trim};
use crate::worktree::BlameLine;
use vstd::prelude::*;

verus! {

// ---------------------------------------------------------------------------
// Escalations
// ---------------------------------------------------------------------------

/// The session that is asked implemented the branch and can be resumed, and no later one of
/// that kind is passed over; nobody is asked exactly where there is none.
pub proof fn the_latest_implementer_is_asked(rows: Seq<SessionV>, i: int)
    ensures
        latest(rows) matches Some(s) ==> rows.contains(s) && s.session_type
            == SessionType::Implementation && s.sdk_session_id is Some,
        0 <= i < rows.len() && rows[i].session_type == SessionType::Implementation
            && rows[i].sdk_session_id is Some ==> latest(rows) is Some && rows[i].created_at
            <= latest(rows)->0.created_at,
    decreases rows.len(),
{
    if rows.len() > 0 {
        let d = rows.drop_last();
        let s = rows.last();
        assert(rows[rows.len() - 1] == s);
        if 0 <= i < d.len() {
            assert(d[i] == rows[i]);
        }
        the_latest_implementer_is_asked(d, i);
        if latest(d) is Some {
            let k = choose|k: int| 0 <= k < d.len() && d[k] == latest(d)->0;
            assert(rows[k] == latest(d)->0);
        }
    }
}

/// An escalation asks the question itself, of the session that is resumed, in read-only mode
/// and without the tools that change anything, on the model for escalations, whatever the
/// resumed session ran on.
pub proof fn an_escalation_asks_the_question(
    m: ManagerV,
    branch: Seq<char>,
    cwd: Seq<char>,
    question: Seq<char>,
    source: SessionV,
    id: Seq<char>,
    now: i128,
)
    requires
        source.sdk_session_id is Some,
    ensures
        ({
            let p = escalation_params(branch, cwd, question, source.id);
            let row = spawned_session(m, p, Some(source), id, now);
            let request = spawn_request(m, p, Some(source), id);
            &&& spawn_error(m, p, Some(source), None) is None
            &&& includes(request.prompt, "Question: "@ + question)
            &&& request.resume_id == source.sdk_session_id
            &&& row.permission_mode == Some("plan"@) && request.permission_mode == Some("plan"@)
            &&& row.session_type == SessionType::Escalation
            &&& row.model == Some("sonnet"@) && request.model == Some("sonnet"@)
            &&& row.branch == branch && request.cwd == cwd
            &&& request.disallowed_tools.contains("Edit"@)
            &&& request.disallowed_tools.contains("Write"@)
            &&& request.disallowed_tools.contains("Bash"@)
        }),
{
    let p = escalation_params(branch, cwd, question, source.id);
    let t = p.disallowed_tools;
    assert(t[0] == "Edit"@ && t[1] == "Write"@ && t[2] == "Bash"@);
    let all = prompt_for(question);
    let head =
        "Another agent is reviewing this branch and asks you, the agent that implemented it, one question. You are read-only now: do not edit files, run commands, or start new work — just answer from what you did and why.\n\nQuestion: "@;
    reveal_strlit(
        "Another agent is reviewing this branch and asks you, the agent that implemented it, one question. You are read-only now: do not edit files, run commands, or start new work — just answer from what you did and why.\n\nQuestion: ",
    );
    reveal_strlit("Question: ");
    let n = head.len() as int;
    let asked = "Question: "@ + question;
    assert(head.subrange(n - 10, n) =~= "Question: "@);
    assert(all =~= between(head.take(n - 10), asked, all.skip(n + question.len())));
}

/// An escalation is refused to an unknown session, to one whose budget is used up, where
/// nobody can be asked and where the branch has no worktree, in that order, and otherwise not.
pub proof fn when_an_escalation_is_refused(
    spent: Seq<(Seq<char>, u32)>,
    id: Seq<char>,
    asking: Option<SessionV>,
    rows: Seq<SessionV>,
    cwd: Option<Seq<char>>,
)
    ensures
        refusal(spent, id, asking, rows, cwd) is None <==> asking is Some && spent_by(spent, id) < 2
            && latest(rows) is Some && cwd is Some,
        asking is Some && spent_by(spent, id) >= 2 ==> refusal(spent, id, asking, rows, cwd)
            == Some(OVER_BUDGET@),
        asking is None || spent_by(spent, id) < 2 && latest(rows) is None ==> refusal(
            spent,
            id,
            asking,
            rows,
            cwd,
        ) == Some(NO_CONTEXT@),
        asking is Some && spent_by(spent, id) < 2 && latest(rows) is Some && cwd is None ==> refusal(
            spent,
            id,
            asking,
            rows,
            cwd,
        ) == Some(NO_WORKTREE@),
{
}

/// The answer is what the asked session itself says, in order: no other session and no
/// subagent is heard.
pub proof fn only_the_asked_session_is_heard(id: Seq<char>, text: Seq<char>, e: Event)
    ensures
        e matches Event::SessionStreamDelta { session_id, text: delta, parent_tool_use_id }
            ==> heard(id, text, e) == (if session_id@ == id && parent_tool_use_id is None {
            text + delta@
        } else {
            text
        }),
        !(e is SessionStreamDelta) ==> heard(id, text, e) == text,
        turn_over(id, e) <==> (e matches Event::SessionStatusChanged { session_id, status, .. }
            && session_id@ == id && (status == SessionStatus::AwaitingInput || status
            == SessionStatus::Done || status == SessionStatus::Failed || status
            == SessionStatus::Cancelled)),
{
}

/// How long an escalation may take is what the setting says, at least a second.
pub proof fn how_long_an_escalation_may_take(setting: Seq<char>, n: nat)
    ensures
        parsed_number(trim(setting), u64::MAX as nat) == Some(n) && 1 <= n <= u64::MAX
            ==> timeout_secs(Some(setting)) == n,
        timeout_secs(Some(setting)) >= 1,
        parsed_number(trim(setting), u64::MAX as nat) is None ==> timeout_secs(Some(setting))
            == timeout_secs(None),
{
}

// ---------------------------------------------------------------------------
// Questions about lines
// ---------------------------------------------------------------------------

proof fn lemma_numbered(ls: Seq<Seq<char>>, n: int, last: int, k: int)
    requires
        0 <= n <= k <= last,
    ensures
        includes(numbered(ls, n, last), aligned(k as nat) + ": "@ + line_at(ls, k) + "\n"@),
    decreases last + 1 - n,
{
    let all = numbered(ls, n, last);
    let first = aligned(n as nat) + ": "@ + line_at(ls, n) + "\n"@;
    let rest = numbered(ls, n + 1, last);
    if k == n {
        assert(all =~= between(seq![], first, rest));
    } else {
        lemma_numbered(ls, n + 1, last, k);
        let part = aligned(k as nat) + ": "@ + line_at(ls, k) + "\n"@;
        let (a, b) = choose|a: Seq<char>, b: Seq<char>| rest == #[trigger] between(a, part, b);
        assert(all =~= between(first + a, part, b));
    }
}

/// Every line that is asked about is shown under its number.
pub proof fn every_line_asked_about_is_shown(contents: Seq<char>, start: u32, end: u32, k: int)
    requires
        1 <= start <= k,
        k <= end || k == start,
        k <= lines(contents).len(),
    ensures
        includes(
            hunk_of(contents, start, end),
            decimal(k as nat) + ": "@ + lines(contents)[k - 1] + "\n"@,
        ),
{
    let last = if end > start {
        end as int
    } else {
        start as int
    };
    let ls = lines(contents);
    lemma_numbered(ls, start as int, last, k);
    let all = hunk_of(contents, start, end);
    let part = aligned(k as nat) + ": "@ + line_at(ls, k) + "\n"@;
    let (a, b) = choose|a: Seq<char>, b: Seq<char>| all == #[trigger] between(a, part, b);
    let pad = crate::questions::spaces(5 - decimal(k as nat).len());
    let shown = decimal(k as nat) + ": "@ + ls[k - 1] + "\n"@;
    assert(part =~= pad + shown);
    assert(all =~= between(a + pad, shown, b));
}

/// The template of a question gets the branch, the file, the lines, the code, who wrote it
/// and the question itself, each under its own name.
pub proof fn a_question_is_put_with_its_context(
    branch: Seq<char>,
    path: Seq<char>,
    start: u32,
    end: u32,
    question: Seq<char>,
    contents: Seq<char>,
    blame: Seq<BlameLine>,
)
    ensures
        ({
            let vars = question_vars(branch, path, start, end, question, Some(contents), blame);
            &&& t_get(vars, "branch"@) == Some(branch)
            &&& t_get(vars, "file"@) == Some(path)
            &&& t_get(vars, "line_start"@) == Some(decimal(start as nat))
            &&& t_get(vars, "line_end"@) == Some(decimal(end as nat))
            &&& t_get(vars, "hunk"@) == Some(hunk_of(contents, start, end))
            &&& t_get(vars, "question"@) == Some(question)
        }),
{
    reveal_strlit("branch");
    reveal_strlit("file");
    reveal_strlit("line_start");
    reveal_strlit("line_end");
    reveal_strlit("hunk");
    reveal_strlit("blame");
    reveal_strlit("question");
    assert("branch"@.len() == 6 && "file"@.len() == 4 && "line_start"@.len() == 10
        && "line_end"@.len() == 8 && "hunk"@.len() == 4 && "blame"@.len() == 5 && "question"@.len()
        == 8);
    assert("file"@[0] == 'f' && "hunk"@[0] == 'h' && "line_end"@[0] == 'l' && "question"@[0]
        == 'q');
    let none = Seq::<(Seq<char>, Seq<char>)>::empty();
    let a = t_put(none, "branch"@, branch);
    let b = t_put(a, "file"@, path);
    let c = t_put(b, "line_start"@, decimal(start as nat));
    let d = t_put(c, "line_end"@, decimal(end as nat));
    let e = t_put(d, "hunk"@, hunk_of(contents, start, end));
    let who = crate::text::join(crate::questions::blame_texts(blame), "\n"@);
    let f = t_put(e, "blame"@, who);
    let keys = seq!["branch"@, "file"@, "line_start"@, "line_end"@, "hunk"@, "question"@];
    lemma_put_unique(none, "branch"@, branch);
    lemma_put_unique(a, "file"@, path);
    lemma_put_unique(b, "line_start"@, decimal(start as nat));
    lemma_put_unique(c, "line_end"@, decimal(end as nat));
    lemma_put_unique(d, "hunk"@, hunk_of(contents, start, end));
    lemma_put_unique(e, "blame"@, who);
    assert forall|i: int| 0 <= i < 6 implies #[trigger] t_get(
        t_put(f, "question"@, question),
        keys[i],
    ) == (if keys[i] == "question"@ {
        Some(question)
    } else if keys[i] == "hunk"@ {
        Some(hunk_of(contents, start, end))
    } else if keys[i] == "line_end"@ {
        Some(decimal(end as nat))
    } else if keys[i] == "line_start"@ {
        Some(decimal(start as nat))
    } else if keys[i] == "file"@ {
        Some(path)
    } else {
        Some(branch)
    }) by {
        let k = keys[i];
        t_get_put(f, "question"@, question, k);
        t_get_put(e, "blame"@, who, k);
        t_get_put(d, "hunk"@, hunk_of(contents, start, end), k);
        t_get_put(c, "line_end"@, decimal(end as nat), k);
        t_get_put(b, "line_start"@, decimal(start as nat), k);
        t_get_put(a, "file"@, path, k);
        t_get_put(none, "branch"@, branch, k);
    }
    let vars = question_vars(branch, path, start, end, question, Some(contents), blame);
    assert(vars == t_put(f, "question"@, question));
    assert(keys[0] == "branch"@ && keys[1] == "file"@ && keys[2] == "line_start"@ && keys[3]
        == "line_end"@ && keys[4] == "hunk"@ && keys[5] == "question"@);
    assert(t_get(vars, keys[0]) is Some && t_get(vars, keys[1]) is Some && t_get(vars, keys[2])
        is Some && t_get(vars, keys[3]) is Some && t_get(vars, keys[4]) is Some && t_get(
        vars,
        keys[5],
    ) is Some);
}

pub proof fn lemma_put_unique(s: Seq<(Seq<char>, Seq<char>)>, k: Seq<char>, v: Seq<char>)
    requires
        t_unique(s),
    ensures
        t_unique(t_put(s, k, v)),
{
    let t = t_put(s, k, v);
    assert forall|i: int, j: int| 0 <= i < j < t.len() implies (#[trigger] t[i]).0 != (
    #[trigger] t[j]).0 by {
        if j < s.len() {
            assert(t[i].0 == s[i].0 && t[j].0 == s[j].0);
            assert(s[i].0 != s[j].0);
        } else {
            assert(t[i] == s[i]);
        }
    }
}

/// A question follows up in the live session that was used last; no ended session is asked.
pub proof fn the_session_used_last_is_asked(rows: Seq<SessionV>, i: int)
    ensures
        most_recent(rows) matches Some(s) ==> rows.contains(s) && s.status != SessionStatus::Done
            && s.status != SessionStatus::Failed && s.status != SessionStatus::Cancelled,
        0 <= i < rows.len() && rows[i].status != SessionStatus::Done && rows[i].status
            != SessionStatus::Failed && rows[i].status != SessionStatus::Cancelled
            ==> most_recent(rows) is Some && rows[i].updated_at <= most_recent(rows)->0.updated_at,
    decreases rows.len(),
{
    if rows.len() > 0 {
        let d = rows.drop_last();
        assert(rows[rows.len() - 1] == rows.last());
        if 0 <= i < d.len() {
            assert(d[i] == rows[i]);
        }
        the_session_used_last_is_asked(d, i);
        if most_recent(d) is Some {
            let k = choose|k: int| 0 <= k < d.len() && d[k] == most_recent(d)->0;
            assert(rows[k] == most_recent(d)->0);
        }
    }
}

/// Where no session is live, a question starts one that only reads: a research session on
/// the branch, in the mode `plan`, with the question for its prompt.
pub proof fn a_fresh_question_only_reads(branch: Seq<char>, cwd: Seq<char>, prompt: Seq<char>)
    ensures
        ({
            let p = fresh_params(branch, cwd, prompt);
            &&& p.branch == branch && p.cwd == cwd && p.prompt == prompt
            &&& p.session_type == SessionType::Research
            &&& p.permission_mode == Some("plan"@)
            &&& p.resume_from is None
        }),
{
}

/// An answer is announced when the asked session waits for input or ends: for the lines that
/// were asked about, on their branch; the other questions wait on. Before that, and on any
/// other event, nothing is announced.
pub proof fn an_answer_is_announced_when_the_turn_ends(
    pending: Seq<(Seq<char>, QuestionV)>,
    session_id: String,
    branch: String,
    status: SessionStatus,
    q: QuestionV,
    other: Seq<char>,
)
    requires
        t_get(pending, session_id@) == Some(q),
        other != session_id@,
    ensures
        ({
            let (after, told) = answered(
                pending,
                Event::SessionStatusChanged { session_id, branch, status },
            );
            if status == SessionStatus::Spawning || status == SessionStatus::Streaming {
                after == pending && told is None
            } else {
                &&& t_get(after, session_id@) is None
                &&& t_get(after, other) == t_get(pending, other)
                &&& told == Some(
                    EventV::AttentionRequired {
                        source: "line_question"@,
                        branch: Some(q.branch),
                        session_id: Some(session_id@),
                        message: "Answer ready for "@ + q.path + ":"@ + decimal(
                            q.line_start as nat,
                        ) + "-"@ + decimal(q.line_end as nat),
                    },
                )
            }
        }),
{
    t_get_del(pending, session_id@, session_id@);
    t_get_del(pending, session_id@, other);
}

} // verus!
