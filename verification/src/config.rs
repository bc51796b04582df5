//! App config file (`~/.maestro/config.toml`).
//!
//! Everything configurable already has a settings key in the store; this module gives
//! those keys a hand-editable home. On startup the file is created with commented
//! defaults if missing, then every value present in it is written into the settings
//! table. That keeps exactly one lookup path at runtime while the user edits a file
//! instead of poking the database.
use crate::attention::SETTING_OS_NOTIFICATIONS;
use crate::checks::{SETTING_CHECK_AUTO, SETTING_CHECK_COMMAND};
use crate::compose::SETTING_COMPOSE_MODEL;
use crate::daemon::jira::{
    SETTING_JIRA_BASE_URL, SETTING_JIRA_EMAIL, SETTING_JIRA_JQL, SETTING_JIRA_TOKEN,
};
use crate::daemon::{
    SETTING_DAEMON_ACCOUNT, SETTING_DAEMON_ENABLED, SETTING_DAEMON_POLL_MINUTES,
    SETTING_DAEMON_REPO, SETTING_DAEMON_RESEARCH_MODEL, SETTING_DAEMON_USAGE_THRESHOLD,
    SETTING_DAEMON_VERIFY_MODEL,
};
use crate::gate::SETTING_GATE_COMMIT;
use crate::launcher::SETTING_EDITOR_COMMAND;
use crate::questions::SETTING_LINE_QUESTION_TARGET;
use crate::session::manager::{SETTING_NOTES_FINALIZE_TIMEOUT, SETTING_SINGLE_WRITER_POLICY};
use crate::settings::{setting_views, Setting, SettingV};
use crate::text::{decimal, decimal_text, opt_text, opt_view, text_of};
use crate::worktree::{SETTING_BRANCH_TEMPLATE, SETTING_WORKTREE_ROOT};
use vstd::prelude::*;
use vstd::string::*;

verus! {

/// `"true"` attacks every finished implementation session without being asked.
pub const SETTING_RED_TEAM_AUTO: &'static str = "red_team_auto";

/// Model of the antagonist's sessions; empty means the session default.
pub const SETTING_RED_TEAM_MODEL: &'static str = "red_team_model";

/// Effort of the antagonist's sessions; empty means the session default.
pub const SETTING_RED_TEAM_EFFORT: &'static str = "red_team_effort";

/// Whether the blast radius also counts plain references.
pub const SETTING_IMPACT_INCLUDE_REFERENCES: &'static str = "impact_include_references";

/// The file written on first run. Values are commented out so the built-in defaults stay
/// in charge until the user opts in — and so the file documents what can be changed.
pub const DEFAULT_CONFIG: &'static str = r#"# MaestroIDE configuration (~/.maestro/config.toml)
#
# Values here are applied at startup. Uncomment a line to override the default.
# Prompt templates are separate files in ~/.maestro/prompts/.

# Branch naming convention for new worktrees.
# branch_naming = "{type}/{task-id}-{slug}"

# Where worktrees are created. Default: beside the repository, in
# <parent>/<repo-name>.worktrees. A configured root gets a per-repository subdirectory.
# worktree_root = "D:/maestro-worktrees"

# What happens when a second write-capable session is started on one worktree:
#   "read_only" (default) — start it in read-only (plan) mode
#   "reject"              — refuse to start it
# single_writer_policy = "read_only"

# Where a line question goes:
#   "active_session" (default) — follow-up to the worktree's live session
#   "fresh_session"            — always a new read-only session
# line_question_target = "active_session"

# Gate `git commit` for approval as well as push and PR creation.
# gate_commit = false

# OS notifications when an agent needs you (also toggleable in the app).
# os_notifications = false

# How long to wait for an implementation session's last turn to write TASK_NOTES.md
# when it is closed. 0 disables the finalize step entirely.
# notes_finalize_timeout_secs = 120

# Editor used by the "Open in editor" button (executable path or name; the worktree
# path is passed as its argument). Default: auto-detect JetBrains Rider.
# editor_command = "C:/Program Files/JetBrains/JetBrains Rider 2025.1/bin/rider64.exe"

# Check command run inside a worktree by the "Run checks" action (build, tests,
# lint — whatever proves the branch is healthy). Empty = feature hidden.
# check_command = "dotnet build"

# Also run the check automatically whenever a session on the branch finishes.
# check_auto = false

# --- GitHub daemon (Этап 3) ---
# Watches assigned issues and PR review comments, spawns read-only research
# sessions. It never commits, never posts to GitHub — human in the loop.

# Master switch (also toggleable from the daemon panel in the app).
# daemon_enabled = false

# Which gh account the daemon acts as. Default: gh's active account.
# The global gh active account is never switched — the token is passed per call.
# daemon_account = "ESievierin"

# Repository to watch as "owner/name". Default: derived from the open
# repository's origin remote.
# daemon_repo = "owner/repo"

# How often to poll GitHub, in minutes.
# daemon_poll_minutes = 5

# Hold the task queue while 5h-window utilization is above this percentage.
# daemon_usage_threshold = 50.0

# Model for issue-research sessions (empty = session default).
# daemon_research_model = "sonnet"

# Model for PR-review / PR-comment-verification sessions (empty = session default).
# daemon_verify_model = "sonnet"

# --- Jira (research flow) ---
# All three must be set for the daemon to poll Jira. The token is an Atlassian
# API token (id.atlassian.com → Security → API tokens), not your password.
# jira_base_url = "https://yourorg.atlassian.net"
# jira_email = "you@yourorg.com"
# jira_token = "..."

# What counts as "my work". Default: open unresolved issues assigned to you.
# jira_jql = "assignee = currentUser() AND resolution = EMPTY ORDER BY updated DESC"

# Model for one-shot generation: commit messages, PR descriptions, reply drafts
# (empty = the agent CLI's default model).
# compose_model = "sonnet"
"#;

/// Parsed config file. Every field is optional: absent means "leave the current setting".
#[derive(Debug)]
pub struct Config {
    pub branch_naming: Option<String>,
    pub worktree_root: Option<String>,
    pub single_writer_policy: Option<String>,
    pub line_question_target: Option<String>,
    pub gate_commit: Option<bool>,
    pub os_notifications: Option<bool>,
    pub notes_finalize_timeout_secs: Option<u64>,
    pub editor_command: Option<String>,
    pub check_command: Option<String>,
    pub check_auto: Option<bool>,
    pub daemon_enabled: Option<bool>,
    pub daemon_account: Option<String>,
    pub daemon_repo: Option<String>,
    pub daemon_poll_minutes: Option<u64>,
    /// A percentage, as its decimal text.
    pub daemon_usage_threshold: Option<String>,
    pub daemon_research_model: Option<String>,
    pub daemon_verify_model: Option<String>,
    pub jira_base_url: Option<String>,
    pub jira_email: Option<String>,
    pub jira_token: Option<String>,
    pub jira_jql: Option<String>,
    pub compose_model: Option<String>,
}

/// What was found where the config file should be.
#[derive(Debug)]
pub enum ConfigFile {
    /// No file yet; `has_directory` says whether its directory is there, or was created.
    Missing { has_directory: bool },
    Unreadable,
    Malformed,
    Parsed(Config),
}

/// The config in force, and what the file is to be created with.
#[derive(Debug)]
pub struct LoadedConfig {
    pub config: Config,
    pub write: Option<&'static str>,
}

pub open spec fn flag_text(b: Option<bool>) -> Option<Seq<char>> {
    match b {
        Some(true) => Some("true"@),
        Some(false) => Some("false"@),
        None => None,
    }
}

pub open spec fn number_text(n: Option<u64>) -> Option<Seq<char>> {
    match n {
        Some(n) => Some(decimal(n as nat)),
        None => None,
    }
}

/// The settings with one more, where it has a value.
pub open spec fn with(s: Seq<SettingV>, key: Seq<char>, value: Option<Seq<char>>) -> Seq<SettingV> {
    match value {
        Some(v) => s.push(SettingV { key, value: v }),
        None => s,
    }
}

/// The settings that a config file overrides, in the order of the file.
pub open spec fn overrides(c: Config) -> Seq<SettingV> {
    let s = Seq::<SettingV>::empty();
    let s = with(s, SETTING_BRANCH_TEMPLATE@, opt_view(c.branch_naming));
    let s = with(s, SETTING_WORKTREE_ROOT@, opt_view(c.worktree_root));
    let s = with(s, SETTING_SINGLE_WRITER_POLICY@, opt_view(c.single_writer_policy));
    let s = with(s, SETTING_LINE_QUESTION_TARGET@, opt_view(c.line_question_target));
    let s = with(s, SETTING_GATE_COMMIT@, flag_text(c.gate_commit));
    let s = with(s, SETTING_OS_NOTIFICATIONS@, flag_text(c.os_notifications));
    let s = with(s, SETTING_NOTES_FINALIZE_TIMEOUT@, number_text(c.notes_finalize_timeout_secs));
    let s = with(s, SETTING_EDITOR_COMMAND@, opt_view(c.editor_command));
    let s = with(s, SETTING_CHECK_COMMAND@, opt_view(c.check_command));
    let s = with(s, SETTING_CHECK_AUTO@, flag_text(c.check_auto));
    let s = with(s, SETTING_DAEMON_ENABLED@, flag_text(c.daemon_enabled));
    let s = with(s, SETTING_DAEMON_ACCOUNT@, opt_view(c.daemon_account));
    let s = with(s, SETTING_DAEMON_REPO@, opt_view(c.daemon_repo));
    let s = with(s, SETTING_DAEMON_POLL_MINUTES@, number_text(c.daemon_poll_minutes));
    let s = with(s, SETTING_DAEMON_USAGE_THRESHOLD@, opt_view(c.daemon_usage_threshold));
    let s = with(s, SETTING_DAEMON_RESEARCH_MODEL@, opt_view(c.daemon_research_model));
    let s = with(s, SETTING_DAEMON_VERIFY_MODEL@, opt_view(c.daemon_verify_model));
    let s = with(s, SETTING_JIRA_BASE_URL@, opt_view(c.jira_base_url));
    let s = with(s, SETTING_JIRA_EMAIL@, opt_view(c.jira_email));
    let s = with(s, SETTING_JIRA_TOKEN@, opt_view(c.jira_token));
    let s = with(s, SETTING_JIRA_JQL@, opt_view(c.jira_jql));
    let s = with(s, SETTING_COMPOSE_MODEL@, opt_view(c.compose_model));
    s
}

fn flag(b: Option<bool>) -> (r: Option<String>)
    ensures
        opt_view(r) == flag_text(b),
{
    match b {
        Some(true) => Some(text_of("true")),
        Some(false) => Some(text_of("false")),
        None => None,
    }
}

fn number(n: Option<u64>) -> (r: Option<String>)
    ensures
        opt_view(r) == number_text(n),
{
    match n {
        Some(n) => Some(decimal_text(n)),
        None => None,
    }
}

fn put(out: &mut Vec<Setting>, key: &str, value: Option<String>)
    ensures
        setting_views(final(out)@) == with(setting_views(old(out)@), key@, opt_view(value)),
{
    match value {
        Some(v) => {
            let ghost done = setting_views(out@);
            let ghost sv = SettingV { key: key@, value: v@ };
            out.push(Setting { key: text_of(key), value: v });
            assert(setting_views(out@) =~= done.push(sv));
        },
        None => {},
    }
}

impl Default for Config {
    fn default() -> (c: Self)
        ensures
            overrides(c) == Seq::<SettingV>::empty(),
    {
        Config {
            branch_naming: None,
            worktree_root: None,
            single_writer_policy: None,
            line_question_target: None,
            gate_commit: None,
            os_notifications: None,
            notes_finalize_timeout_secs: None,
            editor_command: None,
            check_command: None,
            check_auto: None,
            daemon_enabled: None,
            daemon_account: None,
            daemon_repo: None,
            daemon_poll_minutes: None,
            daemon_usage_threshold: None,
            daemon_research_model: None,
            daemon_verify_model: None,
            jira_base_url: None,
            jira_email: None,
            jira_token: None,
            jira_jql: None,
            compose_model: None,
        }
    }
}

impl Config {
    /// The config in force after a look at the file. A missing file is created with
    /// commented defaults; a malformed one is ignored rather than blocking startup — the
    /// app still runs on defaults.
    pub fn load_or_create(file: ConfigFile) -> (r: LoadedConfig)
        ensures
            match file {
                ConfigFile::Parsed(c) => r.config == c && r.write is None,
                ConfigFile::Missing { has_directory } => overrides(r.config) == Seq::<
                    SettingV,
                >::empty() && match r.write {
                    Some(text) => has_directory && text@ == DEFAULT_CONFIG@,
                    None => !has_directory,
                },
                ConfigFile::Malformed | ConfigFile::Unreadable => overrides(r.config) == Seq::<
                    SettingV,
                >::empty() && r.write is None,
            },
    {
        match file {
            ConfigFile::Parsed(config) => LoadedConfig { config, write: None },
            ConfigFile::Missing { has_directory } => LoadedConfig {
                config: Config::default(),
                write: if has_directory {
                    Some(DEFAULT_CONFIG)
                } else {
                    None
                },
            },
            ConfigFile::Malformed => LoadedConfig { config: Config::default(), write: None },
            ConfigFile::Unreadable => LoadedConfig { config: Config::default(), write: None },
        }
    }

    /// The settings to write: the values present in the file, so the rest of the core
    /// keeps reading settings and knows nothing about the file.
    pub fn apply(&self) -> (r: Vec<Setting>)
        ensures
            setting_views(r@) == overrides(*self),
    {
        let mut out: Vec<Setting> = Vec::new();
        assert(setting_views(out@) =~= seq![]);
        put(&mut out, SETTING_BRANCH_TEMPLATE, opt_text(&self.branch_naming));
        put(&mut out, SETTING_WORKTREE_ROOT, opt_text(&self.worktree_root));
        put(&mut out, SETTING_SINGLE_WRITER_POLICY, opt_text(&self.single_writer_policy));
        put(&mut out, SETTING_LINE_QUESTION_TARGET, opt_text(&self.line_question_target));
        put(&mut out, SETTING_GATE_COMMIT, flag(self.gate_commit));
        put(&mut out, SETTING_OS_NOTIFICATIONS, flag(self.os_notifications));
        put(&mut out, SETTING_NOTES_FINALIZE_TIMEOUT, number(self.notes_finalize_timeout_secs));
        put(&mut out, SETTING_EDITOR_COMMAND, opt_text(&self.editor_command));
        put(&mut out, SETTING_CHECK_COMMAND, opt_text(&self.check_command));
        put(&mut out, SETTING_CHECK_AUTO, flag(self.check_auto));
        put(&mut out, SETTING_DAEMON_ENABLED, flag(self.daemon_enabled));
        put(&mut out, SETTING_DAEMON_ACCOUNT, opt_text(&self.daemon_account));
        put(&mut out, SETTING_DAEMON_REPO, opt_text(&self.daemon_repo));
        put(&mut out, SETTING_DAEMON_POLL_MINUTES, number(self.daemon_poll_minutes));
        put(&mut out, SETTING_DAEMON_USAGE_THRESHOLD, opt_text(&self.daemon_usage_threshold));
        put(&mut out, SETTING_DAEMON_RESEARCH_MODEL, opt_text(&self.daemon_research_model));
        put(&mut out, SETTING_DAEMON_VERIFY_MODEL, opt_text(&self.daemon_verify_model));
        put(&mut out, SETTING_JIRA_BASE_URL, opt_text(&self.jira_base_url));
        put(&mut out, SETTING_JIRA_EMAIL, opt_text(&self.jira_email));
        put(&mut out, SETTING_JIRA_TOKEN, opt_text(&self.jira_token));
        put(&mut out, SETTING_JIRA_JQL, opt_text(&self.jira_jql));
        put(&mut out, SETTING_COMPOSE_MODEL, opt_text(&self.compose_model));
        out
    }
}

} // verus!
