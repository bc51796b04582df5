//! Setup diagnostics: a read-only snapshot of whether the environment this app depends on is
//! actually working. Nothing here calls a network API or changes anything — useful for
//! getting set up on a new machine, especially right after carrying settings over with an
//! export and import.
use crate::daemon::github::{account_views, AccountV, GhAccount};
use crate::daemon::jira::{given, is_given};
use crate::text::{
    chars_of, decimal, decimal_text, join, join_texts, lines, lines_of, opt_view,
    parse_number, parsed_number, string_of, text_of, trim, trim_text, views,
};
use crate::units::{human, human_size};
use vstd::prelude::*;
use vstd::string::*;

verus! {

#[derive(Debug)]
pub struct HealthCheck {
    pub name: String,
    pub ok: bool,
    pub detail: String,
}

#[verifier::ext_equal]
pub struct CheckV {
    pub name: Seq<char>,
    pub ok: bool,
    pub detail: Seq<char>,
}

impl View for HealthCheck {
    type V = CheckV;

    open spec fn view(&self) -> CheckV {
        CheckV { name: self.name@, ok: self.ok, detail: self.detail@ }
    }
}

#[derive(Debug)]
pub struct HealthReport {
    pub checks: Vec<HealthCheck>,
}

pub open spec fn check_views(s: Seq<HealthCheck>) -> Seq<CheckV> {
    s.map_values(|c: HealthCheck| c@)
}

/// What came of asking a tool for its version.
#[derive(Debug)]
pub enum ToolProbe {
    Ran { success: bool, stdout: String, stderr: String },
    NotFound { reason: String },
}

/// What was found where the config file should be.
#[derive(Debug)]
pub enum ConfigProbe {
    Missing,
    Unreadable { reason: String },
    /// It holds a config.
    Valid { path: String },
    /// It does not; `reason` is the parser's message.
    Malformed { reason: String },
}

/// What the checks look at.
#[derive(Debug)]
pub struct HealthProbes {
    pub git: ToolProbe,
    pub node: ToolProbe,
    /// The accounts that gh knows, or why it could not say.
    pub accounts: Result<Vec<GhAccount>, String>,
    /// The editor that would be used, or why there is none.
    pub editor: Result<String, String>,
    /// Whether a file of the editor's name exists.
    pub editor_exists: bool,
    pub jira_base_url: Option<String>,
    pub jira_email: Option<String>,
    pub jira_token: Option<String>,
    /// The open repository, or why it could not be told.
    pub repo: Result<Option<String>, String>,
    pub config: ConfigProbe,
    pub telemetry_retention: Option<String>,
    /// How many conversation logs there are, and how many bytes they take.
    pub log_files: u64,
    pub log_bytes: u64,
}

fn check(name: &str, ok: bool, detail: String) -> (c: HealthCheck)
    ensures
        c@ == (CheckV { name: name@, ok, detail: detail@ }),
{
    HealthCheck { name: text_of(name), ok, detail }
}

pub open spec fn node_check(p: ToolProbe) -> CheckV {
    match p {
        ToolProbe::Ran { success, stdout, stderr } => CheckV {
            name: "node"@,
            ok: success,
            detail: if success {
                trim(stdout@) + " — runs the agent sidecar"@
            } else {
                trim(stderr@)
            },
        },
        ToolProbe::NotFound { reason } => CheckV {
            name: "node"@,
            ok: false,
            detail: "not found on PATH — agent sessions cannot start: "@ + reason@,
        },
    }
}

/// The sidecar is a Node process; without `node` on PATH every agent session dies at spawn
/// with an error that never names the real culprit.
pub fn check_node(probe: &ToolProbe) -> (c: HealthCheck)
    ensures
        c@ == node_check(*probe),
{
    match probe {
        ToolProbe::Ran { success, stdout, stderr } => check(
            "node",
            *success,
            if *success {
                trim_text(stdout.as_str()).concat(" — runs the agent sidecar")
            } else {
                trim_text(stderr.as_str())
            },
        ),
        ToolProbe::NotFound { reason } => check(
            "node",
            false,
            text_of("not found on PATH — agent sessions cannot start: ").concat(reason.as_str()),
        ),
    }
}

pub open spec fn git_check(p: ToolProbe) -> CheckV {
    match p {
        ToolProbe::Ran { success, stdout, stderr } => CheckV {
            name: "git"@,
            ok: success,
            detail: if success {
                trim(stdout@)
            } else {
                trim(stderr@)
            },
        },
        ToolProbe::NotFound { reason } => CheckV {
            name: "git"@,
            ok: false,
            detail: "not found on PATH: "@ + reason@,
        },
    }
}

pub fn check_git(probe: &ToolProbe) -> (c: HealthCheck)
    ensures
        c@ == git_check(*probe),
{
    match probe {
        ToolProbe::Ran { success, stdout, stderr } => check(
            "git",
            *success,
            if *success {
                trim_text(stdout.as_str())
            } else {
                trim_text(stderr.as_str())
            },
        ),
        ToolProbe::NotFound { reason } => check(
            "git",
            false,
            text_of("not found on PATH: ").concat(reason.as_str()),
        ),
    }
}

pub open spec fn logins(accounts: Seq<AccountV>) -> Seq<Seq<char>> {
    accounts.map_values(|a: AccountV| a.login)
}

pub open spec fn gh_check(accounts: Result<Vec<GhAccount>, String>) -> CheckV {
    match accounts {
        Ok(accounts) => if accounts@.len() > 0 {
            CheckV {
                name: "gh"@,
                ok: true,
                detail: decimal(accounts@.len()) + " account"@ + (if accounts@.len() == 1 {
                    ""@
                } else {
                    "s"@
                }) + " authenticated: "@ + join(logins(account_views(accounts@)), ", "@),
            }
        } else {
            CheckV {
                name: "gh"@,
                ok: false,
                detail: "gh is installed but no account is logged in — run `gh auth login`"@,
            }
        },
        Err(reason) => CheckV { name: "gh"@, ok: false, detail: reason@ },
    }
}

fn login_list(accounts: &Vec<GhAccount>) -> (r: Vec<String>)
    ensures
        views(r@) == logins(account_views(accounts@)),
{
    let ghost av = account_views(accounts@);
    let mut r: Vec<String> = Vec::new();
    let mut i: usize = 0;
    while i < accounts.len()
        invariant
            i <= accounts@.len(),
            av == account_views(accounts@),
            views(r@) == logins(av.take(i as int)),
        decreases accounts@.len() - i,
    {
        let ghost done = views(r@);
        let login: String = text_of(accounts[i].login.as_str());
        let ghost one = login@;
        r.push(login);
        assert(av[i as int] == accounts@[i as int]@);
        assert(views(r@) =~= done.push(one));
        assert(logins(av.take(i + 1)) =~= done.push(one));
        i += 1;
    }
    assert(av.take(i as int) =~= av);
    r
}

pub fn check_gh(accounts: &Result<Vec<GhAccount>, String>) -> (c: HealthCheck)
    ensures
        c@ == gh_check(*accounts),
{
    match accounts {
        Ok(accounts) => {
            let n: usize = accounts.len();
            if n > 0 {
                let plural: &str = if n == 1 {
                    ""
                } else {
                    "s"
                };
                check(
                    "gh",
                    true,
                    decimal_text(n as u64).concat(" account").concat(plural).concat(
                        " authenticated: ",
                    ).concat(join_texts(&login_list(accounts), ", ").as_str()),
                )
            } else {
                check(
                    "gh",
                    false,
                    text_of("gh is installed but no account is logged in — run `gh auth login`"),
                )
            }
        },
        Err(reason) => check("gh", false, text_of(reason.as_str())),
    }
}

/// Whether an editor is named by a path rather than by a bare command name.
pub open spec fn is_path(editor: Seq<char>) -> bool {
    editor.contains('/') || editor.contains('\\')
}

fn looks_like_path(editor: &str) -> (b: bool)
    ensures
        b == is_path(editor@),
{
    let s: Vec<char> = chars_of(editor);
    let mut i: usize = 0;
    while i < s.len()
        invariant
            i <= s@.len(),
            s@ == editor@,
            forall|k: int| 0 <= k < i ==> s@[k] != '/' && s@[k] != '\\',
        decreases s@.len() - i,
    {
        if s[i] == '/' || s[i] == '\\' {
            return true;
        }
        i += 1;
    }
    false
}

/// A configured full path is worth verifying — it is exactly the kind of thing that stops
/// resolving after a settings import from another machine. A bare command name has nothing
/// more to check here.
pub open spec fn editor_check(editor: Result<String, String>, exists_on_disk: bool) -> CheckV {
    match editor {
        Ok(editor) => {
            let missing = is_path(editor@) && !exists_on_disk;
            CheckV {
                name: "editor"@,
                ok: !missing,
                detail: if missing {
                    "configured editor not found on disk: "@ + editor@
                } else {
                    editor@
                },
            }
        },
        Err(reason) => CheckV { name: "editor"@, ok: false, detail: reason@ },
    }
}

pub fn check_editor(editor: &Result<String, String>, exists_on_disk: bool) -> (c: HealthCheck)
    ensures
        c@ == editor_check(*editor, exists_on_disk),
{
    match editor {
        Ok(editor) => {
            let missing: bool = looks_like_path(editor.as_str()) && !exists_on_disk;
            check(
                "editor",
                !missing,
                if missing {
                    text_of("configured editor not found on disk: ").concat(editor.as_str())
                } else {
                    text_of(editor.as_str())
                },
            )
        },
        Err(reason) => check("editor", false, text_of(reason.as_str())),
    }
}

pub open spec fn jira_check(
    base_url: Option<Seq<char>>,
    email: Option<Seq<char>>,
    token: Option<Seq<char>>,
) -> CheckV {
    let configured = is_given(base_url) && is_given(email) && is_given(token);
    CheckV {
        name: "jira"@,
        ok: configured,
        detail: if configured {
            "base URL, email, and token are all set"@
        } else {
            "not configured — optional; only needed for the Jira daemon flow"@
        },
    }
}

pub fn check_jira(base_url: &Option<String>, email: &Option<String>, token: &Option<String>) -> (c:
    HealthCheck)
    ensures
        c@ == jira_check(opt_view(*base_url), opt_view(*email), opt_view(*token)),
{
    let configured: bool = given(base_url) && given(email) && given(token);
    check(
        "jira",
        configured,
        if configured {
            text_of("base URL, email, and token are all set")
        } else {
            text_of("not configured — optional; only needed for the Jira daemon flow")
        },
    )
}

pub open spec fn repo_check(repo: Result<Option<String>, String>) -> CheckV {
    match repo {
        Ok(Some(path)) => CheckV { name: "repository"@, ok: true, detail: path@ },
        Ok(None) => CheckV {
            name: "repository"@,
            ok: false,
            detail: "no repository selected yet"@,
        },
        Err(reason) => CheckV { name: "repository"@, ok: false, detail: reason@ },
    }
}

pub fn check_repo(repo: &Result<Option<String>, String>) -> (c: HealthCheck)
    ensures
        c@ == repo_check(*repo),
{
    match repo {
        Ok(Some(path)) => check("repository", true, text_of(path.as_str())),
        Ok(None) => check("repository", false, text_of("no repository selected yet")),
        Err(reason) => check("repository", false, text_of(reason.as_str())),
    }
}

/// The first line of a parser's message — it already names the line and column.
pub open spec fn first_line(message: Seq<char>) -> Seq<char> {
    let ls = lines(message);
    if ls.len() > 0 {
        ls[0]
    } else {
        "parse error"@
    }
}

pub open spec fn config_check(p: ConfigProbe) -> CheckV {
    match p {
        ConfigProbe::Missing => CheckV {
            name: "config.toml"@,
            ok: true,
            detail: "not created yet — defaults in effect"@,
        },
        ConfigProbe::Unreadable { reason } => CheckV {
            name: "config.toml"@,
            ok: false,
            detail: "unreadable: "@ + reason@,
        },
        ConfigProbe::Valid { path } => CheckV {
            name: "config.toml"@,
            ok: true,
            detail: path@,
        },
        ConfigProbe::Malformed { reason } => CheckV {
            name: "config.toml"@,
            ok: false,
            detail: "ignored (defaults in effect): "@ + first_line(reason@),
        },
    }
}

/// A malformed config.toml is otherwise applied as "no overrides" with only a log line to
/// show for it — the one silent failure mode a user actually hits after hand-editing the
/// file.
pub fn check_config(probe: &ConfigProbe) -> (c: HealthCheck)
    ensures
        c@ == config_check(*probe),
{
    match probe {
        ConfigProbe::Missing => check(
            "config.toml",
            true,
            text_of("not created yet — defaults in effect"),
        ),
        ConfigProbe::Unreadable { reason } => check(
            "config.toml",
            false,
            text_of("unreadable: ").concat(reason.as_str()),
        ),
        ConfigProbe::Valid { path } => check("config.toml", true, text_of(path.as_str())),
        ConfigProbe::Malformed { reason } => {
            let s: Vec<char> = chars_of(reason.as_str());
            let ls: Vec<Vec<char>> = lines_of(s.as_slice());
            let first: String = if ls.len() > 0 {
                assert(lines(reason@)[0] == ls@[0]@);
                string_of(ls[0].as_slice())
            } else {
                assert(lines(reason@).len() == ls@.len());
                text_of("parse error")
            };
            check(
                "config.toml",
                false,
                text_of("ignored (defaults in effect): ").concat(first.as_str()),
            )
        },
    }
}

/// For how many days logs are kept; 0 means forever.
pub open spec fn retention_days(setting: Option<Seq<char>>) -> nat {
    match setting {
        Some(s) => match parsed_number(s, u32::MAX as nat) {
            Some(n) => n,
            None => 0,
        },
        None => 0,
    }
}

pub open spec fn telemetry_check(setting: Option<Seq<char>>, files: u64, bytes: u64) -> CheckV {
    let days = retention_days(setting);
    let policy = if days == 0 {
        "kept forever"@
    } else {
        "kept "@ + decimal(days) + " days"@
    };
    CheckV {
        name: "telemetry"@,
        ok: true,
        detail: if files == 0 {
            "empty — "@ + policy
        } else {
            decimal(files as nat) + " file"@ + (if files == 1 {
                ""@
            } else {
                "s"@
            }) + " / "@ + human(bytes as nat) + " — "@ + policy
        },
    }
}

/// How much disk the conversation logs occupy and what governs it — the number that tells a
/// user whether `telemetry_retention_days` is worth setting. Informational: a footprint is
/// never a failure.
pub fn check_telemetry(retention: &Option<String>, files: u64, bytes: u64) -> (c: HealthCheck)
    ensures
        c@ == telemetry_check(opt_view(*retention), files, bytes),
{
    let days: u64 = match retention {
        Some(r) => {
            let s: Vec<char> = chars_of(r.as_str());
            match parse_number(s.as_slice(), u32::MAX as u64) {
                Some(n) => n,
                None => 0,
            }
        },
        None => 0,
    };
    let policy: String = if days == 0 {
        text_of("kept forever")
    } else {
        text_of("kept ").concat(decimal_text(days).as_str()).concat(" days")
    };
    if files == 0 {
        return check("telemetry", true, text_of("empty — ").concat(policy.as_str()));
    }
    let plural: &str = if files == 1 {
        ""
    } else {
        "s"
    };
    check(
        "telemetry",
        true,
        decimal_text(files).concat(" file").concat(plural).concat(" / ").concat(
            human_size(bytes).as_str(),
        ).concat(" — ").concat(policy.as_str()),
    )
}

/// The sum of the sizes of files.
pub open spec fn total(sizes: Seq<u64>) -> nat
    decreases sizes.len(),
{
    if sizes.len() == 0 {
        0
    } else {
        total(sizes.drop_last()) + sizes.last() as nat
    }
}

proof fn lemma_total_grows(sizes: Seq<u64>, i: int)
    requires
        0 <= i <= sizes.len(),
    ensures
        total(sizes.take(i)) <= total(sizes),
    decreases sizes.len() - i,
{
    if i < sizes.len() {
        lemma_total_grows(sizes, i + 1);
        assert(sizes.take(i + 1).drop_last() =~= sizes.take(i));
    } else {
        assert(sizes.take(i) =~= sizes);
    }
}

/// File count and byte total of the files of these sizes.
pub fn dir_footprint(sizes: &Vec<u64>) -> (r: (u64, u64))
    requires
        sizes@.len() <= u64::MAX,
        total(sizes@) <= u64::MAX,
    ensures
        r.0 == sizes@.len(),
        r.1 == total(sizes@),
{
    let mut bytes: u64 = 0;
    let mut i: usize = 0;
    while i < sizes.len()
        invariant
            i <= sizes@.len(),
            total(sizes@) <= u64::MAX,
            bytes == total(sizes@.take(i as int)),
        decreases sizes@.len() - i,
    {
        proof {
            lemma_total_grows(sizes@, i + 1);
            assert(sizes@.take(i + 1).drop_last() =~= sizes@.take(i as int));
        }
        bytes = bytes + sizes[i];
        i += 1;
    }
    assert(sizes@.take(i as int) =~= sizes@);
    (sizes.len() as u64, bytes)
}

/// Every check, in the order in which they are shown.
pub open spec fn report(p: HealthProbes) -> Seq<CheckV> {
    seq![
        git_check(p.git),
        node_check(p.node),
        gh_check(p.accounts),
        editor_check(p.editor, p.editor_exists),
        jira_check(opt_view(p.jira_base_url), opt_view(p.jira_email), opt_view(p.jira_token)),
        repo_check(p.repo),
        config_check(p.config),
        telemetry_check(opt_view(p.telemetry_retention), p.log_files, p.log_bytes),
    ]
}

/// Run every check. Each one is independent — one broken tool does not hide the state of the
/// rest.
pub fn run(probes: &HealthProbes) -> (r: HealthReport)
    ensures
        check_views(r.checks@) == report(*probes),
{
    let mut checks: Vec<HealthCheck> = Vec::new();
    checks.push(check_git(&probes.git));
    checks.push(check_node(&probes.node));
    checks.push(check_gh(&probes.accounts));
    checks.push(check_editor(&probes.editor, probes.editor_exists));
    checks.push(check_jira(&probes.jira_base_url, &probes.jira_email, &probes.jira_token));
    checks.push(check_repo(&probes.repo));
    checks.push(check_config(&probes.config));
    checks.push(
        check_telemetry(&probes.telemetry_retention, probes.log_files, probes.log_bytes),
    );
    assert(check_views(checks@) =~= report(*probes));
    HealthReport { checks }
}

} // verus!
