//! Check runner: one configurable command (`check_command`, e.g. `npm test` or
//! `dotnet build`) run inside a worktree, with the verdict surfaced as a badge.
//!
//! The point is closing the loop after an agent finishes: "the diff looks fine — but does
//! it build?" is answerable without leaving the app. Runs are manual by default;
//! `check_auto = true` also fires one whenever a session on the branch reaches `done`.
use crate::bus::{Event, EventV};
use crate::clip::{byte_len, last_bytes, tail_start};
use crate::error::{is_config, is_invalid_data, MaestroError};
use crate::session::SessionStatus;
use crate::table::{t_get, t_get_put, t_put, t_unique, Table};
use crate::text::{
    blank, decimal, decimal_text, is_blank, opt_view, same_text, text_of, trim, trim_text,
};
use crate::worktree::{no_worktree_text, require_worktree, worktree_of, WorktreeRef};
use vstd::prelude::*;
use vstd::string::*;

verus! {

/// The command to run. Empty/absent disables the whole feature (buttons hidden).
pub const SETTING_CHECK_COMMAND: &'static str = "check_command";

/// `"true"` also runs the check automatically when a session finishes.
pub const SETTING_CHECK_AUTO: &'static str = "check_auto";

/// A run is killed after this long — a hung test suite must not wedge the app.
pub const CHECK_TIMEOUT_SECS: u64 = 1800;

/// Only the tail of the output is kept; a full test log can be enormous.
pub const MAX_OUTPUT_BYTES: usize = 65536;

pub const NOT_CONFIGURED: &'static str = "no check command configured — set `check_command` in ~/.maestro/config.toml";

#[derive(Clone, Copy, Debug, PartialEq, Eq, Structural)]
pub enum CheckStatus {
    Running,
    Passed,
    Failed,
}

/// Result (or progress) of the latest check run on one branch.
#[derive(Debug)]
pub struct CheckResult {
    pub branch: String,
    pub status: CheckStatus,
    pub exit_code: Option<i32>,
    /// The command that was run, so the output panel can say what it's showing.
    pub command: String,
    /// Last `MAX_OUTPUT_BYTES` of stdout and stderr.
    pub output_tail: String,
    /// Nanoseconds since the Unix epoch.
    pub started_at: i128,
    pub finished_at: Option<i128>,
}

#[verifier::ext_equal]
pub struct CheckV {
    pub branch: Seq<char>,
    pub status: CheckStatus,
    pub exit_code: Option<i32>,
    pub command: Seq<char>,
    pub output_tail: Seq<char>,
    pub started_at: i128,
    pub finished_at: Option<i128>,
}

impl View for CheckResult {
    type V = CheckV;

    open spec fn view(&self) -> CheckV {
        CheckV {
            branch: self.branch@,
            status: self.status,
            exit_code: self.exit_code,
            command: self.command@,
            output_tail: self.output_tail@,
            started_at: self.started_at,
            finished_at: self.finished_at,
        }
    }
}

// ---------------------------------------------------------------------------
// The command's output
// ---------------------------------------------------------------------------

pub open spec fn tail_of(text: Seq<char>, max: nat) -> Seq<char> {
    if byte_len(text) <= max {
        text
    } else {
        "… (output trimmed)\n"@ + text.skip(tail_start(text, max) as int)
    }
}

/// Last `max` bytes of `text`, cut at a char boundary, with a marker when trimmed.
pub fn tail(text: &str, max: usize) -> (r: String)
    ensures
        r@ == tail_of(text@, max as nat),
{
    if text.as_bytes().len() <= max {
        return text_of(text);
    }
    text_of("… (output trimmed)\n").concat(last_bytes(text, max).as_str())
}

/// What became of the check command.
#[derive(Debug)]
pub enum CommandOutcome {
    Finished { success: bool, code: Option<i32>, stdout: String, stderr: String },
    NotLaunched { reason: String },
    TimedOut,
}

/// The verdict on a run of the check command.
#[derive(Debug)]
pub struct Verdict {
    pub passed: bool,
    pub exit_code: Option<i32>,
    pub output: String,
}

/// What is shown of a command that finished: its errors follow its output.
pub open spec fn shown(stdout: Seq<char>, stderr: Seq<char>) -> Seq<char> {
    if is_blank(stderr) {
        stdout
    } else {
        stdout + "\n--- stderr ---\n"@ + stderr
    }
}

/// The verdict on a run — never an error: a launch failure or timeout is a failed check
/// with the reason in the output.
pub fn verdict(outcome: CommandOutcome) -> (v: Verdict)
    ensures
        match outcome {
            CommandOutcome::Finished { success, code, stdout, stderr } => v.passed == success
                && v.exit_code == code && v.output@ == tail_of(
                shown(stdout@, stderr@),
                MAX_OUTPUT_BYTES as nat,
            ),
            CommandOutcome::NotLaunched { reason } => !v.passed && v.exit_code is None && v.output@
                == "failed to launch check command: "@ + reason@,
            CommandOutcome::TimedOut => !v.passed && v.exit_code is None && v.output@
                == "check timed out after "@ + decimal((CHECK_TIMEOUT_SECS / 60) as nat)
                + " minutes and was killed"@,
        },
{
    match outcome {
        CommandOutcome::Finished { success, code, stdout, stderr } => {
            let text: String = if blank(stderr.as_str()) {
                stdout
            } else {
                stdout.concat("\n--- stderr ---\n").concat(stderr.as_str())
            };
            Verdict {
                passed: success,
                exit_code: code,
                output: tail(text.as_str(), MAX_OUTPUT_BYTES),
            }
        },
        CommandOutcome::NotLaunched { reason } => Verdict {
            passed: false,
            exit_code: None,
            output: text_of("failed to launch check command: ").concat(reason.as_str()),
        },
        CommandOutcome::TimedOut => Verdict {
            passed: false,
            exit_code: None,
            output: text_of("check timed out after ").concat(
                decimal_text(CHECK_TIMEOUT_SECS / 60).as_str(),
            ).concat(" minutes and was killed"),
        },
    }
}

// ---------------------------------------------------------------------------
// Runs
// ---------------------------------------------------------------------------

/// The configured command, if any.
pub open spec fn command_of(setting: Option<Seq<char>>) -> Option<Seq<char>> {
    match setting {
        Some(s) => if is_blank(s) {
            None
        } else {
            Some(trim(s))
        },
        None => None,
    }
}

/// A check that is to be run.
#[derive(Debug)]
pub struct CheckRun {
    pub command: String,
    pub cwd: String,
    pub event: Event,
}

pub open spec fn running(results: Seq<(Seq<char>, CheckV)>, branch: Seq<char>) -> bool {
    match t_get(results, branch) {
        Some(c) => c.status == CheckStatus::Running,
        None => false,
    }
}

/// A run that has just started.
pub open spec fn started(branch: Seq<char>, command: Seq<char>, now: i128) -> CheckV {
    CheckV {
        branch,
        status: CheckStatus::Running,
        exit_code: None,
        command,
        output_tail: seq![],
        started_at: now,
        finished_at: None,
    }
}

/// The results after a run on `branch` ended.
pub open spec fn after_verdict(
    results: Seq<(Seq<char>, CheckV)>,
    branch: Seq<char>,
    v: Verdict,
    now: i128,
) -> Seq<(Seq<char>, CheckV)> {
    match t_get(results, branch) {
        Some(c) => t_put(
            results,
            branch,
            (CheckV {
                status: if v.passed {
                    CheckStatus::Passed
                } else {
                    CheckStatus::Failed
                },
                exit_code: v.exit_code,
                output_tail: v.output@,
                finished_at: Some(now),
                ..c
            }),
        ),
        None => results,
    }
}

/// Whether a check is refused, and with which error.
pub open spec fn is_refusal(
    e: MaestroError,
    results: Seq<(Seq<char>, CheckV)>,
    branch: Seq<char>,
    setting: Option<Seq<char>>,
    worktrees: Seq<WorktreeRef>,
) -> bool {
    if command_of(setting) is None {
        is_config(e, NOT_CONFIGURED@)
    } else if worktree_of(worktrees, branch, 0) is None {
        is_invalid_data(e, no_worktree_text(branch))
    } else {
        running(results, branch) && is_invalid_data(
            e,
            "a check is already running for '"@ + branch + "'"@,
        )
    }
}

/// The latest check of every branch.
#[derive(Debug)]
pub struct ChecksManager {
    pub results: Table<CheckResult>,
}

impl ChecksManager {
    pub open spec fn wf(self) -> bool {
        self.results.wf()
    }

    pub fn new() -> (m: Self)
        ensures
            m.wf(),
            m.results@ == Seq::<(Seq<char>, CheckV)>::empty(),
    {
        ChecksManager { results: Table::new() }
    }

    /// The configured check command, if any. The frontend uses this to decide whether to
    /// show check UI at all.
    pub fn command(setting: Option<&str>) -> (r: Option<String>)
        ensures
            opt_view(r) == command_of(
                match setting {
                    Some(s) => Some(s@),
                    None => None,
                },
            ),
    {
        match setting {
            Some(s) => if blank(s) {
                None
            } else {
                Some(trim_text(s))
            },
            None => None,
        }
    }

    /// Latest result for `branch`, if a check ever ran this app session.
    pub fn get(&self, branch: &str) -> (r: Option<&CheckResult>)
        requires
            self.wf(),
        ensures
            match r {
                Some(c) => t_get(self.results@, branch@) == Some(c@),
                None => t_get(self.results@, branch@) is None,
            },
    {
        self.results.get(branch)
    }

    /// Start the configured check in `branch`'s worktree. The verdict is handed to
    /// [`ChecksManager::finished`]. A second start while one is running on the same branch
    /// is refused.
    pub fn run(
        &mut self,
        branch: &str,
        setting: Option<&str>,
        worktrees: &Vec<WorktreeRef>,
        now: i128,
    ) -> (r: Result<CheckRun, MaestroError>)
        requires
            old(self).wf(),
        ensures
            final(self).wf(),
            ({
                let given = match setting {
                    Some(s) => Some(s@),
                    None => None,
                };
                let command = command_of(given);
                let cwd = worktree_of(worktrees@, branch@, 0);
                if command is None || cwd is None || running(old(self).results@, branch@) {
                    &&& final(self).results@ == old(self).results@
                    &&& r matches Err(e) && is_refusal(
                        e,
                        old(self).results@,
                        branch@,
                        given,
                        worktrees@,
                    )
                } else {
                    &&& final(self).results@ == t_put(
                        old(self).results@,
                        branch@,
                        started(branch@, command->0, now),
                    )
                    &&& r matches Ok(run) && run.command@ == command->0 && run.cwd@ == cwd->0
                        && run.event@ == (EventV::CheckStarted { branch: branch@ })
                }
            }),
    {
        let command: String = match Self::command(setting) {
            Some(c) => c,
            None => return Err(MaestroError::Config { message: text_of(NOT_CONFIGURED) }),
        };
        let cwd: String = match require_worktree(worktrees, branch) {
            Ok(p) => p,
            Err(e) => return Err(e),
        };
        let busy: bool = match self.results.get(branch) {
            Some(c) => c.status == CheckStatus::Running,
            None => false,
        };
        if busy {
            return Err(
                MaestroError::InvalidData {
                    message: text_of("a check is already running for '").concat(branch).concat("'"),
                },
            );
        }
        let result: CheckResult = CheckResult {
            branch: text_of(branch),
            status: CheckStatus::Running,
            exit_code: None,
            command: text_of(command.as_str()),
            output_tail: String::new(),
            started_at: now,
            finished_at: None,
        };
        assert(result@ =~= started(branch@, command@, now));
        self.results.insert(branch, result);
        Ok(CheckRun { command, cwd, event: Event::CheckStarted { branch: text_of(branch) } })
    }

    /// The run on `branch` ended.
    pub fn finished(&mut self, branch: &str, verdict: Verdict, now: i128) -> (e: Event)
        requires
            old(self).wf(),
        ensures
            final(self).wf(),
            final(self).results@ == after_verdict(old(self).results@, branch@, verdict, now),
            e@ == (EventV::CheckFinished {
                branch: branch@,
                passed: verdict.passed,
                exit_code: verdict.exit_code,
            }),
    {
        let entry: Option<CheckResult> = match self.results.get(branch) {
            Some(c) => Some(
                CheckResult {
                    branch: text_of(c.branch.as_str()),
                    status: if verdict.passed {
                        CheckStatus::Passed
                    } else {
                        CheckStatus::Failed
                    },
                    exit_code: verdict.exit_code,
                    command: text_of(c.command.as_str()),
                    output_tail: text_of(verdict.output.as_str()),
                    started_at: c.started_at,
                    finished_at: Some(now),
                },
            ),
            None => None,
        };
        match entry {
            Some(result) => self.results.insert(branch, result),
            None => {},
        }
        Event::CheckFinished {
            branch: text_of(branch),
            passed: verdict.passed,
            exit_code: verdict.exit_code,
        }
    }

    /// With `check_auto = true`, a session reaching `done` kicks off a check on its branch.
    pub fn auto_branch(event: &Event, setting: Option<&str>) -> (r: Option<String>)
        ensures
            match *event {
                Event::SessionStatusChanged { branch, status, .. } => if status
                    == SessionStatus::Done && setting is Some && setting->0@ == "true"@ {
                    opt_view(r) == Some(branch@)
                } else {
                    r is None
                },
                _ => r is None,
            },
    {
        match event {
            Event::SessionStatusChanged { branch, status, .. } => {
                let auto: bool = match setting {
                    Some(s) => same_text(s, "true"),
                    None => false,
                };
                if *status == SessionStatus::Done && auto {
                    Some(text_of(branch.as_str()))
                } else {
                    None
                }
            },
            _ => None,
        }
    }
}

/// Between its start and its verdict, a run keeps others off its branch, and no other
/// branch; the verdict lets the next one start.
pub proof fn one_run_per_branch(
    results: Seq<(Seq<char>, CheckV)>,
    branch: Seq<char>,
    other: Seq<char>,
    command: Seq<char>,
    v: Verdict,
    start: i128,
    end: i128,
)
    requires
        t_unique(results),
    ensures
        ({
            let during = t_put(results, branch, started(branch, command, start));
            let after = after_verdict(during, branch, v, end);
            &&& running(during, branch)
            &&& !running(after, branch)
            &&& other != branch ==> running(during, other) == running(results, other)
            &&& other != branch ==> running(after, other) == running(results, other)
        }),
{
    let c = started(branch, command, start);
    let during = t_put(results, branch, c);
    t_get_put(results, branch, c, branch);
    t_get_put(results, branch, c, other);
    let done = CheckV {
        status: if v.passed {
            CheckStatus::Passed
        } else {
            CheckStatus::Failed
        },
        exit_code: v.exit_code,
        output_tail: v.output@,
        finished_at: Some(end),
        ..c
    };
    t_get_put(during, branch, done, branch);
    t_get_put(during, branch, done, other);
}

} // verus!
