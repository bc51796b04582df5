//! The QA antagonist's launch logic: a child worktree branched off the parent's committed
//! state, plus a writer session whose only goal is to break those changes — edge cases,
//! race conditions, failing tests as proof, findings in REDTEAM.md. Production code stays
//! untouched; findings return to the parent's main agent with a human in the middle.
use crate::bus::{Event, EventV};
use crate::error::{is_invalid_data, MaestroError};
use crate::impact::{impacted_views, ImpactReport, ImpactedFile, ImpactedV};
use crate::prompts::{
    is_read_error, parsed_template, rendered, valid_name, FileRead, PromptManager,
};
use crate::session::manager::{session_views, SpawnParams, SpawnParamsV};
use crate::session::{terminal, Session, SessionType, SessionV, REVIEW_TOOLS_PROFILE};
use crate::table::{t_put, Table};
use crate::text::{
    blank, chars_of, decimal, decimal_text, has_prefix, is_blank, join, join_texts, opt_view,
    replace_text, replaced, same_text, str_starts_with, string_of, text_of, views,
};
use crate::worktree::{file_views, ChangedFile, ChangedFileV};
use vstd::prelude::*;
use vstd::string::*;

verus! {

/// Child worktrees of the antagonist live under this branch prefix.
pub const RED_TEAM_PREFIX: &'static str = "redteam/";

pub const RED_TEAM_TEMPLATE: &'static str = "red-team";

pub const ALREADY_RED_TEAM: &'static str = "this already is a red-team worktree — red-team its parent instead";

pub const NO_DEPENDENTS: &'static str = "(no outside dependents found)";

pub const NO_SCAN: &'static str = "(blast-radius scan unavailable)";

pub const NO_NOTES: &'static str = "No TASK_NOTES.md on the parent branch — the implementer left no record.";

/// How many dependents the antagonist is told about.
pub const MAX_DEPENDENTS: usize = 30;

pub open spec fn child_of(parent: Seq<char>) -> Seq<char> {
    RED_TEAM_PREFIX@ + replaced(parent, seq!['/'], seq!['-'])
}

/// The child branch attacking `parent`: the prefix plus the parent with `/` flattened, so
/// the mapping is deterministic and the operation idempotent.
pub fn child_branch_name(parent: &str) -> (r: String)
    ensures
        r@ == child_of(parent@),
{
    let s: Vec<char> = chars_of(parent);
    let from: Vec<char> = vec!['/'];
    let to: Vec<char> = vec!['-'];
    assert(from@ =~= seq!['/']);
    assert(to@ =~= seq!['-']);
    let flat: Vec<char> = replace_text(s.as_slice(), from.as_slice(), to.as_slice());
    text_of(RED_TEAM_PREFIX).concat(string_of(flat.as_slice()).as_str())
}

/// The child of a branch is a red-team branch, and so is never attacked itself.
pub proof fn a_child_is_a_red_team_branch(parent: Seq<char>)
    ensures
        has_prefix(child_of(parent), RED_TEAM_PREFIX@),
{
    assert(child_of(parent).subrange(0, RED_TEAM_PREFIX@.len() as int) =~= RED_TEAM_PREFIX@);
}

// ---------------------------------------------------------------------------
// The automatic trigger
// ---------------------------------------------------------------------------

pub open spec fn is_live_attack(s: SessionV) -> bool {
    s.session_type == SessionType::RedTeam && !terminal(s.status)
}

pub open spec fn under_attack(rows: Seq<SessionV>) -> bool {
    exists|i: int| 0 <= i < rows.len() && is_live_attack(#[trigger] rows[i])
}

fn attack_in_progress(rows: &Vec<Session>) -> (b: bool)
    ensures
        b == under_attack(session_views(rows@)),
{
    let ghost rv = session_views(rows@);
    let mut i: usize = 0;
    while i < rows.len()
        invariant
            i <= rows@.len(),
            rv == session_views(rows@),
            forall|k: int| 0 <= k < i ==> !is_live_attack(#[trigger] rv[k]),
        decreases rows@.len() - i,
    {
        assert(rv[i as int] == rows@[i as int]@);
        if rows[i].session_type == SessionType::RedTeam && !rows[i].status.is_terminal() {
            return true;
        }
        i += 1;
    }
    false
}

/// Whether a session that finished on `branch` sets off an attack.
pub open spec fn sets_off(
    branch: Seq<char>,
    setting: Option<Seq<char>>,
    finished: Option<SessionV>,
    child_rows: Seq<SessionV>,
) -> bool {
    &&& !has_prefix(branch, RED_TEAM_PREFIX@)
    &&& setting == Some("true"@)
    &&& finished matches Some(s) && s.session_type == SessionType::Implementation
    &&& !under_attack(child_rows)
}

pub open spec fn file_line(f: ChangedFileV) -> Seq<char> {
    f.status + " "@ + f.path
}

pub open spec fn file_lines(s: Seq<ChangedFileV>) -> Seq<Seq<char>> {
    s.map_values(|f: ChangedFileV| file_line(f))
}

pub open spec fn dependent_line(f: ImpactedV) -> Seq<char> {
    f.path + " ("@ + f.kind + ", ring "@ + decimal(f.distance as nat) + ")"@
}

pub open spec fn dependent_lines(s: Seq<ImpactedV>) -> Seq<Seq<char>> {
    s.map_values(|f: ImpactedV| dependent_line(f))
}

/// What the antagonist is told about the change's dependents.
pub open spec fn dependents(report: Option<ImpactReport>) -> Seq<char> {
    match report {
        Some(r) => {
            let all = impacted_views(r.impacted@);
            if all.len() == 0 {
                NO_DEPENDENTS@
            } else {
                join(
                    dependent_lines(
                        if all.len() > MAX_DEPENDENTS {
                            all.take(MAX_DEPENDENTS as int)
                        } else {
                            all
                        },
                    ),
                    "\n"@,
                )
            }
        },
        None => NO_SCAN@,
    }
}

pub open spec fn or_text(t: Option<Seq<char>>, otherwise: Seq<char>) -> Seq<char> {
    match t {
        Some(t) => t,
        None => otherwise,
    }
}

/// The value of a setting that is not blank.
pub open spec fn filled(setting: Option<Seq<char>>) -> Option<Seq<char>> {
    match setting {
        Some(s) => if is_blank(s) {
            None
        } else {
            Some(s)
        },
        None => None,
    }
}

fn chosen(setting: &Option<String>) -> (r: Option<String>)
    ensures
        opt_view(r) == filled(opt_view(*setting)),
{
    match setting {
        Some(s) => if blank(s.as_str()) {
            None
        } else {
            Some(text_of(s.as_str()))
        },
        None => None,
    }
}

/// What is known about the branch under attack.
#[derive(Debug)]
pub struct Target {
    pub branch: String,
    pub base: String,
    /// The committed diff: the child branches off the parent's committed state.
    pub files: Vec<ChangedFile>,
    /// None where the scan failed.
    pub impact: Option<ImpactReport>,
    pub task_id: Option<String>,
    pub notes: Option<String>,
}

pub open spec fn attack_vars(t: Target) -> Seq<(Seq<char>, Seq<char>)> {
    let v = t_put(seq![], "parent_branch"@, t.branch@);
    let v = t_put(v, "base"@, t.base@);
    let v = t_put(v, "impacted"@, dependents(t.impact));
    let v = t_put(v, "task_id"@, or_text(opt_view(t.task_id), "(none)"@));
    let v = t_put(v, "files"@, join(file_lines(file_views(t.files@)), "\n"@));
    t_put(v, "notes"@, or_text(opt_view(t.notes), NO_NOTES@))
}

/// The settings of the antagonist's sessions.
#[derive(Debug)]
pub struct AttackSettings {
    pub model: Option<String>,
    pub effort: Option<String>,
}

/// The antagonist's session: it writes tests on its own in its own isolated worktree, and
/// asks the implementer whether a behaviour is intended; it does not comment on the PR.
pub open spec fn attack_params(
    t: Target,
    cwd: Seq<char>,
    prompt: Seq<char>,
    settings: AttackSettings,
) -> SpawnParamsV {
    SpawnParamsV {
        branch: child_of(t.branch@),
        cwd,
        session_type: SessionType::RedTeam,
        model: filled(opt_view(settings.model)),
        effort: filled(opt_view(settings.effort)),
        permission_mode: Some("acceptEdits"@),
        thinking: None,
        tools_profile: Some(REVIEW_TOOLS_PROFILE@),
        disallowed_tools: seq!["mcp__maestro__submit_review_comments"@],
        prompt,
        resume_from: None,
    }
}

pub open spec fn no_changes_text(branch: Seq<char>, base: Seq<char>) -> Seq<char> {
    "no committed changes on "@ + branch + " vs "@ + base
        + " — commit first; the red team attacks committed code"@
}

/// Why a branch cannot be attacked.
pub open spec fn refusal(branch: Seq<char>, base: Seq<char>, files: Seq<ChangedFileV>) -> Option<
    Seq<char>,
> {
    if has_prefix(branch, RED_TEAM_PREFIX@) {
        Some(ALREADY_RED_TEAM@)
    } else if files.len() == 0 {
        Some(no_changes_text(branch, base))
    } else {
        None
    }
}

fn lines_of_files(files: &Vec<ChangedFile>) -> (r: String)
    ensures
        r@ == join(file_lines(file_views(files@)), "\n"@),
{
    let ghost fv = file_views(files@);
    let mut out: Vec<String> = Vec::new();
    let mut i: usize = 0;
    while i < files.len()
        invariant
            i <= files@.len(),
            fv == file_views(files@),
            views(out@) == file_lines(fv.take(i as int)),
        decreases files@.len() - i,
    {
        let ghost done = views(out@);
        let text: String = text_of(files[i].status.as_str()).concat(" ").concat(
            files[i].path.as_str(),
        );
        let ghost tv = text@;
        out.push(text);
        assert(fv[i as int] == files@[i as int]@);
        assert(views(out@) =~= done.push(tv));
        assert(file_lines(fv.take(i + 1)) =~= done.push(tv));
        i += 1;
    }
    assert(fv.take(i as int) =~= fv);
    join_texts(&out, "\n")
}

fn describe_dependents(report: &Option<ImpactReport>) -> (r: String)
    ensures
        r@ == dependents(*report),
{
    let files: &Vec<ImpactedFile> = match report {
        Some(report) => &report.impacted,
        None => return text_of(NO_SCAN),
    };
    let ghost all = impacted_views(files@);
    let n: usize = files.len();
    if n == 0 {
        return text_of(NO_DEPENDENTS);
    }
    let top: usize = if n > MAX_DEPENDENTS {
        MAX_DEPENDENTS
    } else {
        n
    };
    let mut out: Vec<String> = Vec::new();
    let mut i: usize = 0;
    while i < top
        invariant
            i <= top <= files@.len(),
            all == impacted_views(files@),
            views(out@) == dependent_lines(all.take(i as int)),
        decreases top - i,
    {
        let ghost done = views(out@);
        let text: String = text_of(files[i].path.as_str()).concat(" (").concat(
            files[i].kind.as_str(),
        ).concat(", ring ").concat(decimal_text(files[i].distance as u64).as_str()).concat(")");
        let ghost tv = text@;
        out.push(text);
        assert(all[i as int] == files@[i as int]@);
        assert(views(out@) =~= done.push(tv));
        assert(dependent_lines(all.take(i + 1)) =~= done.push(tv));
        i += 1;
    }
    assert(all.take(all.len() as int) =~= all);
    join_texts(&out, "\n")
}

fn text_or(t: &Option<String>, otherwise: &str) -> (r: String)
    ensures
        r@ == or_text(opt_view(*t), otherwise@),
{
    match t {
        Some(t) => text_of(t.as_str()),
        None => text_of(otherwise),
    }
}

/// Launches the antagonist.
#[derive(Debug)]
pub struct RedTeamManager {}

impl RedTeamManager {
    /// The `red_team_auto` trigger: whenever an implementation session finishes (`done`, not
    /// failed/cancelled) on a normal branch, attack its committed changes without being
    /// asked. Only a finished *implementation* session means "new code to attack" —
    /// main-agent turns, reviews, and manual chats end constantly; and a live antagonist is
    /// already on it: re-arming now would just fight it. `finished` is the stored session,
    /// `child_rows` are the sessions of the child branch.
    pub fn wants_attack(
        branch: &str,
        setting: Option<&str>,
        finished: Option<&Session>,
        child_rows: &Vec<Session>,
    ) -> (b: bool)
        ensures
            b == sets_off(
                branch@,
                match setting {
                    Some(s) => Some(s@),
                    None => None,
                },
                match finished {
                    Some(s) => Some(s@),
                    None => None,
                },
                session_views(child_rows@),
            ),
    {
        if str_starts_with(branch, RED_TEAM_PREFIX) {
            return false;
        }
        let enabled: bool = match setting {
            Some(s) => same_text(s, "true"),
            None => false,
        };
        let implementation: bool = match finished {
            Some(s) => s.session_type == SessionType::Implementation,
            None => false,
        };
        enabled && implementation && !attack_in_progress(child_rows)
    }

    /// A worktree and a session appearing unprompted deserve one line of explanation in the
    /// queue. `branch` is the one that was finished.
    pub fn announce(branch: &str, session: &Session) -> (e: Event)
        ensures
            e@ == (EventV::AttentionRequired {
                source: "red_team_launched"@,
                branch: Some(session.branch@),
                session_id: Some(session.id@),
                message: "Implementation on "@ + branch@
                    + " finished — the red team is attacking it automatically"@,
            }),
    {
        Event::AttentionRequired {
            source: text_of("red_team_launched"),
            branch: Some(text_of(session.branch.as_str())),
            session_id: Some(text_of(session.id.as_str())),
            message: text_of("Implementation on ").concat(branch).concat(
                " finished — the red team is attacking it automatically",
            ),
        }
    }

    /// The antagonist itself is not attacked: its parent is to be attacked instead.
    pub fn attackable(branch: &str) -> (r: Result<(), MaestroError>)
        ensures
            match r {
                Ok(_) => !has_prefix(branch@, RED_TEAM_PREFIX@),
                Err(e) => has_prefix(branch@, RED_TEAM_PREFIX@) && is_invalid_data(
                    e,
                    ALREADY_RED_TEAM@,
                ),
            },
    {
        if str_starts_with(branch, RED_TEAM_PREFIX) {
            Err(MaestroError::InvalidData { message: text_of(ALREADY_RED_TEAM) })
        } else {
            Ok(())
        }
    }

    /// The branch of the antagonist's worktree. Fails when `branch` is itself a red-team
    /// worktree or has no committed changes vs its base.
    pub fn child_for(branch: &str, base: &str, files: &Vec<ChangedFile>) -> (r: Result<
        String,
        MaestroError,
    >)
        ensures
            match refusal(branch@, base@, file_views(files@)) {
                Some(text) => r matches Err(e) && is_invalid_data(e, text),
                None => r matches Ok(child) && child@ == child_of(branch@),
            },
    {
        match Self::attackable(branch) {
            Ok(_) => {},
            Err(e) => return Err(e),
        }
        if files.len() == 0 {
            return Err(
                MaestroError::InvalidData {
                    message: text_of("no committed changes on ").concat(branch).concat(
                        " vs ",
                    ).concat(base).concat(" — commit first; the red team attacks committed code"),
                },
            );
        }
        Ok(child_branch_name(branch))
    }

    /// The session to spawn (or re-arm) in the child worktree at `cwd`. `template` is what
    /// came of reading the attack template.
    pub fn launch(
        target: &Target,
        cwd: &str,
        template: FileRead,
        prompts: &PromptManager,
        settings: &AttackSettings,
    ) -> (r: Result<SpawnParams, MaestroError>)
        ensures
            match refusal(target.branch@, target.base@, file_views(target.files@)) {
                Some(text) => r matches Err(e) && is_invalid_data(e, text),
                None => match template {
                    FileRead::Text(raw) => r matches Ok(params) && params@ == attack_params(
                        *target,
                        cwd@,
                        rendered(
                            parsed_template(RED_TEAM_TEMPLATE@, raw@).body,
                            attack_vars(*target),
                        ),
                        *settings,
                    ),
                    _ => r matches Err(e) && is_read_error(e, RED_TEAM_TEMPLATE@, template),
                },
            },
    {
        let child: String = match Self::child_for(
            target.branch.as_str(),
            target.base.as_str(),
            &target.files,
        ) {
            Ok(child) => child,
            Err(e) => return Err(e),
        };
        let mut vars: Table<String> = Table::new();
        vars.insert("parent_branch", text_of(target.branch.as_str()));
        vars.insert("base", text_of(target.base.as_str()));
        vars.insert("impacted", describe_dependents(&target.impact));
        vars.insert("task_id", text_or(&target.task_id, "(none)"));
        vars.insert("files", lines_of_files(&target.files));
        vars.insert("notes", text_or(&target.notes, NO_NOTES));
        proof {
            reveal_strlit("red-team");
            assert(valid_name(RED_TEAM_TEMPLATE@));
        }
        let prompt: String = match prompts.render(RED_TEAM_TEMPLATE, template, &vars) {
            Ok(p) => p,
            Err(e) => return Err(e),
        };
        let mut disallowed: Vec<String> = Vec::new();
        disallowed.push(text_of("mcp__maestro__submit_review_comments"));
        assert(views(disallowed@) =~= seq!["mcp__maestro__submit_review_comments"@]);
        Ok(
            SpawnParams {
                branch: child,
                cwd: text_of(cwd),
                session_type: SessionType::RedTeam,
                model: chosen(&settings.model),
                effort: chosen(&settings.effort),
                permission_mode: Some(text_of("acceptEdits")),
                thinking: None,
                tools_profile: Some(text_of(REVIEW_TOOLS_PROFILE)),
                disallowed_tools: disallowed,
                prompt,
                resume_from: None,
            },
        )
    }
}

/// A branch whose antagonist is at work is not attacked again.
pub proof fn an_attack_is_not_doubled(
    branch: Seq<char>,
    setting: Option<Seq<char>>,
    finished: Option<SessionV>,
    child_rows: Seq<SessionV>,
    attack: SessionV,
)
    requires
        is_live_attack(attack),
    ensures
        !sets_off(branch, setting, finished, child_rows.push(attack)),
{
    let rows = child_rows.push(attack);
    assert(is_live_attack(rows[child_rows.len() as int]));
}

/// The antagonist's own branch is never attacked, neither by hand nor automatically.
pub proof fn the_antagonist_is_never_attacked(
    parent: Seq<char>,
    base: Seq<char>,
    files: Seq<ChangedFileV>,
    setting: Option<Seq<char>>,
    finished: Option<SessionV>,
    child_rows: Seq<SessionV>,
)
    ensures
        refusal(child_of(parent), base, files) == Some(ALREADY_RED_TEAM@),
        !sets_off(child_of(parent), setting, finished, child_rows),
{
    a_child_is_a_red_team_branch(parent);
}

} // verus!
