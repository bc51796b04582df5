//! What notes, templates, checks and red teams keep of what they are given.
use crate::checks::{after_verdict, command_of, shown, tail_of, CheckStatus, CheckV, Verdict};
use crate::clip::byte_len;
use crate::daemon::briefing::{includes, lemma_includes, lemma_includes_through};
use crate::impact::{impacted_views, ImpactReport};
use crate::notes::{
    heading_mark, kept_section, note_lines_from, notes_of, qa_end, qa_entry, sections_from,
    sections_of, with_qa, NotesFile, SectionV,
};
use crate::prompts::{
    fingerprint, normal_form, prompt_file, rendered, rendered_from, sync_step, synced, FileRead,
};
use crate::redteam::{
    attack_params, dependent_line, dependent_lines, dependents, is_live_attack, refusal, sets_off,
    under_attack, AttackSettings, Target,
};
use crate::session::{SessionStatus, SessionType, SessionV};
use crate::table::{t_get, t_get_put, t_unique};
use crate::text::{
    decimal, has_prefix, is_blank, join, lemma_next_match, next_match, occurs_at, opt_view, trim,
    trim_end,
};
use vstd::prelude::*;

verus! {

// ---------------------------------------------------------------------------
// Notes
// ---------------------------------------------------------------------------

/// Every question and every answer that is noted is in the notes, whatever stood there.
pub proof fn a_noted_answer_is_in_the_notes(
    raw: Seq<char>,
    context: Seq<char>,
    question: Seq<char>,
    answer: Seq<char>,
)
    requires
        !is_blank(answer),
    ensures
        includes(
            with_qa(raw, qa_entry(context, question, answer)),
            "### "@ + context + "\n\n**Q:** "@ + trim(question) + "\n\n"@ + trim(answer),
        ),
{
    reveal_strlit("\n");
    let entry = qa_entry(context, question, answer);
    let t = trim_end(entry);
    let all = with_qa(raw, entry);
    let s = trim_end(raw);
    assert(includes(all, t)) by {
        match qa_end(s) {
            Some(end) => {
                let head = trim_end(s.subrange(0, end)) + "\n\n"@;
                let tail = all.skip((head.len() + t.len()) as int);
                assert(all =~= head + t + tail);
                lemma_includes(all, head, t, tail);
            },
            None => {
                let n = all.len() - 1 - t.len();
                assert(all =~= all.take(n) + t + "\n"@);
                lemma_includes(all, all.take(n), t, "\n"@);
            },
        }
    }
    let asked = "### "@ + context + "\n\n**Q:** "@ + trim(question) + "\n\n"@;
    let whole = asked + trim(answer);
    assert(entry =~= whole + "\n"@);
    lemma_trimmed_entry(whole, answer, asked);
}

/// An entry that ends in a text that is not blank loses only its line feed.
proof fn lemma_trimmed_entry(whole: Seq<char>, answer: Seq<char>, asked: Seq<char>)
    requires
        whole == asked + trim(answer),
        !is_blank(answer),
    ensures
        trim_end(whole + "\n"@) == whole,
{
    reveal_strlit("\n");
    let a = crate::text::trim_start(answer);
    crate::text::lemma_before_space(a, a.len() as int);
    let e = crate::text::before_space(a, a.len() as int);
    assert(trim(answer) == a.subrange(0, e));
    assert(e > 0);
    let w = whole + "\n"@;
    assert(whole.last() == a[e - 1]);
    assert(crate::text::before_space(w, w.len() as int) == w.len() - 1) by {
        assert(crate::text::is_white_space(w[w.len() - 1]));
        assert(!crate::text::is_white_space(w[w.len() - 2]));
        assert(crate::text::before_space(w, w.len() - 1) == w.len() - 1);
    }
    assert(w.subrange(0, w.len() - 1) =~= whole);
}

/// Every heading of the notes is the title of a section.
pub proof fn every_heading_is_a_section(raw: Seq<char>, k: int, title: Seq<char>)
    requires
        0 <= k < note_lines_from(raw, 0).len(),
        note_lines_from(raw, 0)[k] == "## "@ + title,
        trim(title).len() > 0,
    ensures
        exists|s: SectionV| #[trigger] sections_of(raw).contains(s) && s.title == trim(title),
{
    reveal_strlit("## ");
    assert("## "@ =~= heading_mark());
    let ls = note_lines_from(raw, 0);
    assert(ls[k].subrange(0, 3) =~= heading_mark());
    assert(ls[k].subrange(3, ls[k].len() as int) =~= title);
    let none = Seq::<char>::empty();
    let empty = Seq::<Seq<char>>::empty();
    lemma_heading(ls, 0, none, empty, k);
    let all = sections_from(ls, 0, none, empty);
    assert(all == sections_of(raw));
    let s = choose|s: SectionV| #[trigger] all.contains(s) && s.title == trim(title);
    assert(sections_of(raw).contains(s));
}

proof fn lemma_heading(
    ls: Seq<Seq<char>>,
    i: int,
    title: Seq<char>,
    body: Seq<Seq<char>>,
    k: int,
)
    requires
        0 <= i <= k < ls.len(),
        has_prefix(ls[k], heading_mark()),
        trim(ls[k].subrange(3, ls[k].len() as int)).len() > 0,
    ensures
        exists|s: SectionV| #[trigger]
            sections_from(ls, i, title, body).contains(s) && s.title == trim(
                ls[k].subrange(3, ls[k].len() as int),
            ),
    decreases ls.len() - i,
{
    let want = trim(ls[k].subrange(3, ls[k].len() as int));
    let all = sections_from(ls, i, title, body);
    if has_prefix(ls[i], heading_mark()) {
        let first = kept_section(title, body);
        let t = trim(ls[i].subrange(3, ls[i].len() as int));
        let rest = sections_from(ls, i + 1, t, seq![]);
        if i == k {
            lemma_titled(ls, i + 1, t, seq![]);
        } else {
            lemma_heading(ls, i + 1, t, seq![], k);
        }
        let s = choose|s: SectionV| #[trigger] rest.contains(s) && s.title == want;
        let n = choose|n: int| 0 <= n < rest.len() && rest[n] == s;
        assert(all[first.len() + n] == s);
        assert(all.contains(s));
    } else {
        lemma_heading(ls, i + 1, title, body.push(ls[i]), k);
    }
}

proof fn lemma_titled(ls: Seq<Seq<char>>, i: int, title: Seq<char>, body: Seq<Seq<char>>)
    requires
        0 <= i <= ls.len(),
        title.len() > 0,
    ensures
        exists|s: SectionV| #[trigger]
            sections_from(ls, i, title, body).contains(s) && s.title == title,
    decreases ls.len() - i,
{
    let all = sections_from(ls, i, title, body);
    if i >= ls.len() || has_prefix(ls[i], heading_mark()) {
        let s = kept_section(title, body)[0];
        assert(all[0] == s);
        assert(all.contains(s));
    } else {
        lemma_titled(ls, i + 1, title, body.push(ls[i]));
    }
}

/// Notes that can be read are shown as they stand; where there is no file, no worktree, or
/// the file cannot be read, there are none, and for the latter two the reason is given.
pub proof fn what_the_notes_panel_shows(branch: Seq<char>, file: Option<NotesFile>)
    ensures
        notes_of(branch, file).branch == branch,
        file matches Some(f) ==> {
            let n = notes_of(branch, file);
            match f.read {
                FileRead::Text(raw) => n.exists && n.raw == raw@ && n.sections == sections_of(raw@)
                    && n.path == Some(f.path@) && n.updated_at == f.updated_at && n.unavailable
                    is None,
                FileRead::NotFound { .. } => !n.exists && n.unavailable is None && n.path == Some(
                    f.path@,
                ) && n.raw.len() == 0,
                FileRead::Failed { message } => !n.exists && n.unavailable is Some && includes(
                    n.unavailable->0,
                    message@,
                ),
            }
        },
        file is None ==> !notes_of(branch, file).exists && notes_of(branch, file).unavailable
            is Some,
{
    match file {
        Some(f) => match f.read {
            FileRead::Failed { message } => {
                let why = notes_of(branch, file).unavailable->0;
                let head = crate::notes::NOTES_FILE@ + ": "@;
                assert(why =~= head + message@ + seq![]);
                lemma_includes(why, head, message@, seq![]);
            },
            _ => {},
        },
        None => {},
    }
}

// ---------------------------------------------------------------------------
// Templates
// ---------------------------------------------------------------------------

/// A placeholder with a value is replaced by the value, once: the text in front of it stays,
/// the value is not looked into, and the text behind it is rendered on.
pub proof fn a_placeholder_is_replaced_by_its_value(
    front: Seq<char>,
    name: Seq<char>,
    behind: Seq<char>,
    vars: Seq<(Seq<char>, Seq<char>)>,
    value: Seq<char>,
)
    requires
        !front.contains('{'),
        !name.contains('}'),
        t_get(vars, trim(name)) == Some(value),
    ensures
        rendered(front + "{{"@ + name + "}}"@ + behind, vars) == front + value + rendered(
            behind,
            vars,
        ),
{
    reveal_strlit("{{");
    reveal_strlit("}}");
    let open = seq!['{', '{'];
    let close = seq!['}', '}'];
    assert("{{"@ =~= open);
    assert("}}"@ =~= close);
    let s = front + open + name + close + behind;
    let n = front.len() as int;
    let m = n + 2 + name.len();
    lemma_next_match(s, open, 0);
    assert(s.subrange(n, n + 2) =~= open);
    assert(occurs_at(s, open, n));
    let o = next_match(s, open, 0)->0;
    assert(o == n) by {
        if o < n {
            assert(s.subrange(o, o + 2)[0] == '{');
            assert(front[o] == '{');
            assert(front.contains('{'));
        }
    }
    lemma_next_match(s, close, n + 2);
    assert(s.subrange(m, m + 2) =~= close);
    assert(occurs_at(s, close, m));
    let c = next_match(s, close, n + 2)->0;
    assert(c == m) by {
        if c < m {
            assert(s.subrange(c, c + 2)[0] == '}');
            assert(name[c - n - 2] == '}');
            assert(name.contains('}'));
        }
    }
    assert(s.subrange(n + 2, m) =~= name);
    assert(s.subrange(0, n) =~= front);
    assert(s.skip(m + 2) =~= behind);
    lemma_rendered_behind(s, behind, vars, m + 2, 0);
}

proof fn lemma_part_behind(s: Seq<char>, b: Seq<char>, d: int, i: int, j: int)
    requires
        0 <= d,
        0 <= i <= j <= b.len(),
        s.len() == d + b.len(),
        s.skip(d) == b,
    ensures
        s.subrange(d + i, d + j) == b.subrange(i, j),
{
    assert(s.subrange(d + i, d + j) =~= s.skip(d).subrange(i, j));
}

proof fn lemma_match_behind(s: Seq<char>, b: Seq<char>, p: Seq<char>, d: int, i: int)
    requires
        0 <= d,
        0 <= i,
        s.len() == d + b.len(),
        s.skip(d) == b,
    ensures
        next_match(s, p, d + i) == (match next_match(b, p, i) {
            Some(k) => Some(k + d),
            None => None::<int>,
        }),
    decreases b.len() + 1 - i,
{
    if i + p.len() <= b.len() {
        lemma_part_behind(s, b, d, i, i + p.len());
        if !occurs_at(b, p, i) {
            lemma_match_behind(s, b, p, d, i + 1);
        }
    }
}

proof fn lemma_rendered_behind(
    s: Seq<char>,
    b: Seq<char>,
    vars: Seq<(Seq<char>, Seq<char>)>,
    d: int,
    i: int,
)
    requires
        0 <= d,
        0 <= i <= b.len(),
        s.len() == d + b.len(),
        s.skip(d) == b,
    ensures
        rendered_from(s, vars, d + i) == rendered_from(b, vars, i),
    decreases b.len() - i,
{
    let open = seq!['{', '{'];
    let close = seq!['}', '}'];
    lemma_match_behind(s, b, open, d, i);
    lemma_next_match(b, open, i);
    lemma_part_behind(s, b, d, i, b.len() as int);
    match next_match(b, open, i) {
        Some(o) => {
            lemma_match_behind(s, b, close, d, o + 2);
            lemma_next_match(b, close, o + 2);
            match next_match(b, close, o + 2) {
                Some(c) => {
                    lemma_part_behind(s, b, d, i, o);
                    lemma_part_behind(s, b, d, o + 2, c);
                    lemma_rendered_behind(s, b, vars, d, c + 2);
                },
                None => {},
            }
        },
        None => {},
    }
}

/// What becomes of an installed template: a missing one is installed, one that cannot be read
/// is left, one that the user never touched follows a new default, one that is the default is
/// taken on as such, and any other is the user's own and stays.
pub proof fn what_becomes_of_a_template(
    default: Seq<char>,
    raw: String,
    path: String,
    message: String,
    installed: Option<Seq<char>>,
)
    ensures
        sync_step(default, (FileRead::NotFound { path }), installed) is Install,
        sync_step(default, (FileRead::Failed { message }), installed) is Leave,
        ({
            let held = fingerprint(normal_form(raw@));
            let shipped = fingerprint(normal_form(default));
            let step = sync_step(default, FileRead::Text(raw), installed);
            &&& installed == Some(held) && held != shipped ==> step is Install
            &&& installed == Some(held) && held == shipped ==> step is Leave
            &&& installed is Some && installed != Some(held) ==> step is Leave
            &&& installed is None && held == shipped ==> step is Adopt
            &&& installed is None && held != shipped ==> step is Leave
        }),
{
}

/// A template that is missing is written with its default, and its record is that default's.
pub proof fn a_missing_template_is_written(
    defaults: Seq<(Seq<char>, Seq<char>)>,
    files: Seq<FileRead>,
    meta: Seq<(Seq<char>, Seq<char>)>,
    k: int,
)
    requires
        defaults.len() == files.len(),
        0 <= k < defaults.len(),
        files[k] is NotFound,
    ensures
        synced(defaults, files, meta).writes.contains(defaults[k]),
        synced(defaults, files, meta).changed,
    decreases defaults.len(),
{
    let d = defaults.drop_last();
    let f = files.drop_last();
    let before = synced(d, f, meta);
    let all = synced(defaults, files, meta);
    if k < d.len() {
        assert(d[k] == defaults[k] && f[k] == files[k]);
        a_missing_template_is_written(d, f, meta, k);
        let i = choose|i: int| 0 <= i < before.writes.len() && before.writes[i] == defaults[k];
        assert(all.writes[i] == defaults[k]);
    } else {
        assert(all.writes[before.writes.len() as int] == defaults[k]);
    }
}

/// Only defaults are ever written, each under its own name.
pub proof fn only_defaults_are_written(
    defaults: Seq<(Seq<char>, Seq<char>)>,
    files: Seq<FileRead>,
    meta: Seq<(Seq<char>, Seq<char>)>,
    i: int,
)
    requires
        0 <= i < synced(defaults, files, meta).writes.len(),
    ensures
        defaults.contains(synced(defaults, files, meta).writes[i]),
    decreases defaults.len(),
{
    let d = defaults.drop_last();
    let f = files.drop_last();
    let before = synced(d, f, meta);
    let all = synced(defaults, files, meta);
    if i < before.writes.len() {
        only_defaults_are_written(d, f, meta, i);
        let k = choose|k: int| 0 <= k < d.len() && d[k] == before.writes[i];
        assert(defaults[k] == before.writes[i]);
        assert(all.writes[i] == before.writes[i]);
    } else {
        assert(defaults[defaults.len() - 1] == defaults.last());
    }
}

/// A template counts as edited exactly where it differs from its default in more than line
/// ends and trailing blanks, and an update is offered exactly where the default has moved on
/// under an edited one.
pub proof fn when_a_template_counts_as_edited(
    default: Seq<char>,
    installed: Option<Seq<char>>,
    name: Seq<char>,
    content: Seq<char>,
)
    ensures
        ({
            let f = prompt_file(Some(default), installed, name, content);
            &&& f.name == name && f.content == content && f.has_default
            &&& f.modified <==> normal_form(default) != normal_form(content)
            &&& f.update_available <==> f.modified && installed is Some && installed->0
                != fingerprint(normal_form(default))
        }),
        !prompt_file(None, installed, name, content).has_default,
        !prompt_file(None, installed, name, content).modified,
{
}

// ---------------------------------------------------------------------------
// Checks
// ---------------------------------------------------------------------------

/// The output of a check is what it wrote, and behind it what it wrote as errors; of a long
/// one the end is kept, and it says so.
pub proof fn the_output_of_a_check_is_kept(stdout: Seq<char>, stderr: Seq<char>, max: nat)
    ensures
        includes(shown(stdout, stderr), stdout),
        !is_blank(stderr) ==> includes(shown(stdout, stderr), stderr),
        byte_len(stdout) <= max ==> tail_of(stdout, max) == stdout,
        byte_len(stdout) > max ==> exists|n: int|
            0 <= n <= stdout.len() && tail_of(stdout, max) == "… (output trimmed)\n"@
                + #[trigger] stdout.skip(n) && byte_len(stdout.skip(n)) <= max && (n > 0
                ==> byte_len(stdout.skip(n - 1)) > max),
{
    let all = shown(stdout, stderr);
    if is_blank(stderr) {
        assert(all =~= seq![] + stdout + seq![]);
        lemma_includes(all, seq![], stdout, seq![]);
    } else {
        let mark = "\n--- stderr ---\n"@;
        assert(all =~= seq![] + stdout + (mark + stderr));
        lemma_includes(all, seq![], stdout, mark + stderr);
        assert(all =~= (stdout + mark) + stderr + seq![]);
        lemma_includes(all, stdout + mark, stderr, seq![]);
    }
    crate::clip::an_end_fits_and_is_the_longest(stdout, max);
}

/// A check that ended has passed or failed as its verdict says, with its exit code and its
/// output, and the results of other branches stay.
pub proof fn a_verdict_is_recorded(
    results: Seq<(Seq<char>, CheckV)>,
    branch: Seq<char>,
    v: Verdict,
    now: i128,
    other: Seq<char>,
)
    requires
        t_unique(results),
        t_get(results, branch) is Some,
        other != branch,
    ensures
        ({
            let before = t_get(results, branch)->0;
            let after = after_verdict(results, branch, v, now);
            let c = t_get(after, branch)->0;
            &&& t_get(after, branch) is Some
            &&& c.status == CheckStatus::Passed <==> v.passed
            &&& c.status == CheckStatus::Failed <==> !v.passed
            &&& c.exit_code == v.exit_code
            &&& c.output_tail == v.output@
            &&& c.finished_at == Some(now)
            &&& c.branch == before.branch && c.command == before.command && c.started_at
                == before.started_at
            &&& t_get(after, other) == t_get(results, other)
        }),
{
    let c = t_get(results, branch)->0;
    let done = CheckV {
        status: if v.passed {
            CheckStatus::Passed
        } else {
            CheckStatus::Failed
        },
        exit_code: v.exit_code,
        output_tail: v.output@,
        finished_at: Some(now),
        ..c
    };
    t_get_put(results, branch, done, branch);
    t_get_put(results, branch, done, other);
}

/// A check runs the configured command, without blanks around it; a blank one is none.
pub proof fn the_configured_command_is_run(setting: Seq<char>)
    ensures
        command_of(None) is None,
        command_of(Some(setting)) is None <==> trim(setting).len() == 0,
        trim(setting).len() > 0 ==> command_of(Some(setting)) == Some(trim(setting)),
{
}

// ---------------------------------------------------------------------------
// Red teams
// ---------------------------------------------------------------------------

/// A red team is set off by itself exactly where the setting is `true`, an implementation
/// session finished, its branch is no red team's own and no attack on it is under way.
pub proof fn when_a_red_team_is_set_off(
    branch: Seq<char>,
    setting: Option<Seq<char>>,
    finished: SessionV,
    child_rows: Seq<SessionV>,
    i: int,
)
    ensures
        sets_off(branch, setting, Some(finished), child_rows) ==> {
            &&& setting == Some("true"@)
            &&& finished.session_type == SessionType::Implementation
            &&& !has_prefix(branch, "redteam/"@)
            &&& 0 <= i < child_rows.len() && child_rows[i].session_type == SessionType::RedTeam
                ==> child_rows[i].status == SessionStatus::Done || child_rows[i].status
                == SessionStatus::Failed || child_rows[i].status == SessionStatus::Cancelled
        },
        setting == Some("true"@) && finished.session_type == SessionType::Implementation
            && !has_prefix(branch, "redteam/"@) && child_rows.len() == 0 ==> sets_off(
            branch,
            setting,
            Some(finished),
            child_rows,
        ),
        !sets_off(branch, setting, None, child_rows),
{
    if 0 <= i < child_rows.len() && child_rows[i].session_type == SessionType::RedTeam
        && child_rows[i].status != SessionStatus::Done && child_rows[i].status
        != SessionStatus::Failed && child_rows[i].status != SessionStatus::Cancelled {
        assert(is_live_attack(child_rows[i]));
        assert(under_attack(child_rows));
    }
}

/// An attack runs on a branch of its own, as a red team, with the model and the effort of the
/// settings, and cannot post to GitHub.
pub proof fn how_a_red_team_is_started(
    t: Target,
    cwd: Seq<char>,
    prompt: Seq<char>,
    settings: AttackSettings,
)
    ensures
        ({
            let p = attack_params(t, cwd, prompt, settings);
            &&& has_prefix(p.branch, "redteam/"@)
            &&& p.cwd == cwd && p.prompt == prompt
            &&& p.session_type == SessionType::RedTeam
            &&& p.permission_mode == Some("acceptEdits"@)
            &&& p.tools_profile == Some("review"@)
            &&& p.disallowed_tools.contains("mcp__maestro__submit_review_comments"@)
            &&& p.resume_from is None
            &&& opt_view(settings.model) matches Some(m) ==> p.model == (if is_blank(m) {
                None::<Seq<char>>
            } else {
                Some(m)
            })
            &&& opt_view(settings.effort) matches Some(e) ==> p.effort == (if is_blank(e) {
                None::<Seq<char>>
            } else {
                Some(e)
            })
        }),
{
    crate::redteam::a_child_is_a_red_team_branch(t.branch@);
    let tools = attack_params(t, cwd, prompt, settings).disallowed_tools;
    assert(tools[0] == "mcp__maestro__submit_review_comments"@);
}

pub proof fn lemma_joined(parts: Seq<Seq<char>>, sep: Seq<char>, k: int)
    requires
        0 <= k < parts.len(),
    ensures
        includes(join(parts, sep), parts[k]),
    decreases parts.len(),
{
    let all = join(parts, sep);
    if parts.len() == 1 {
        assert(all =~= seq![] + parts[k] + seq![]);
        lemma_includes(all, seq![], parts[k], seq![]);
    } else {
        let d = parts.drop_last();
        let before = join(d, sep);
        if k < d.len() {
            lemma_joined(d, sep, k);
            assert(d[k] == parts[k]);
            assert(all =~= seq![] + before + (sep + parts.last()));
            lemma_includes(all, seq![], before, sep + parts.last());
            lemma_includes_through(all, before, parts[k]);
        } else {
            assert(all =~= (before + sep) + parts[k] + seq![]);
            lemma_includes(all, before + sep, parts[k], seq![]);
        }
    }
}

/// The files that depend on what changed are named to the red team, each with its kind and
/// its distance, up to thirty of them.
pub proof fn dependents_are_named(report: ImpactReport, k: int)
    requires
        0 <= k < report.impacted@.len(),
        k < 30,
    ensures
        includes(
            dependents(Some(report)),
            impacted_views(report.impacted@)[k].path + " ("@ + impacted_views(
                report.impacted@,
            )[k].kind + ", ring "@ + decimal(
                impacted_views(report.impacted@)[k].distance as nat,
            ) + ")"@,
        ),
{
    let all = impacted_views(report.impacted@);
    let cut = if all.len() > 30 {
        all.take(30)
    } else {
        all
    };
    let ls = dependent_lines(cut);
    assert(cut[k] == all[k]);
    assert(ls[k] == dependent_line(all[k]));
    lemma_joined(ls, "\n"@, k);
}

/// There is nothing to attack on a red team's own branch, nor where nothing was committed.
pub proof fn when_there_is_nothing_to_attack(
    branch: Seq<char>,
    base: Seq<char>,
    files: Seq<crate::worktree::ChangedFileV>,
)
    ensures
        refusal(branch, base, files) is None <==> !has_prefix(branch, "redteam/"@) && files.len()
            > 0,
{
}

} // verus!
