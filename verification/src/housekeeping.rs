//! What is kept, exported, reported and handed on: settings and bundles, health checks,
//! sizes and requests to the sidecar.
use crate::agent::protocol::{SidecarEvent, SidecarRequest};
use crate::agent::sidecar::{
    id_of, is_close_signal, is_error_signal, is_routed, next_of, request_for, script_of, session_of,
    EngineSignal,
};
use crate::agent::{EngineCall, SpawnSessionRequest};
use crate::backup::{
    applied, exportable, exportable_keys, exported_prompts, skipped, writable, EntryV,
    EXPORTABLE_SETTINGS,
};
use crate::config::{overrides, with, Config};
use crate::daemon::briefing::{includes, lemma_includes, lemma_includes_through};
use crate::daemon::github::{account_views, GhAccount};
use crate::error::{GitErrorKind, MaestroError};
use crate::health::{
    config_check, editor_check, gh_check, git_check, jira_check, logins, node_check, repo_check,
    report, retention_days, telemetry_check, total, ConfigProbe, HealthProbes, ToolProbe,
};
use crate::prompts::{valid_name, PromptFile};
use crate::settings::SettingV;
use crate::text::{
    all_digits, decimal, digit, digits_value, is_ascii_digit, join, parsed_number, trim,
    unsigned_part,
};
use crate::units::{double, half_even, human, one_place, spacing};
use vstd::prelude::*;

verus! {

// ---------------------------------------------------------------------------
// Numbers
// ---------------------------------------------------------------------------

pub proof fn lemma_decimal(n: nat)
    ensures
        decimal(n).len() > 0,
        all_digits(decimal(n)),
        digits_value(decimal(n)) == n,
    decreases n,
{
    let s = decimal(n);
    if n < 10 {
        assert(s.drop_last() =~= Seq::<char>::empty());
        assert(digits_value(s.drop_last()) == 0);
        assert(s.last() as u32 - '0' as u32 == n);
        assert forall|i: int| 0 <= i < s.len() implies is_ascii_digit(#[trigger] s[i]) by {
            assert(s[i] == digit(n));
        }
    } else {
        lemma_decimal(n / 10);
        let before = decimal(n / 10);
        assert(s.drop_last() =~= before);
        assert(s.last() as u32 - '0' as u32 == n % 10);
        assert forall|i: int| 0 <= i < s.len() implies is_ascii_digit(#[trigger] s[i]) by {
            if i < before.len() {
                assert(s[i] == before[i]);
            }
        }
    }
}

/// A number that is written out reads back as itself, with or without a plus sign, as long as
/// it is not too large.
pub proof fn a_written_number_reads_back(n: nat, max: nat)
    ensures
        parsed_number(decimal(n), max) == (if n <= max {
            Some(n)
        } else {
            None
        }),
        parsed_number(seq!['+'] + decimal(n), max) == parsed_number(decimal(n), max),
{
    lemma_decimal(n);
    let s = decimal(n);
    assert(is_ascii_digit(s[0]));
    let p = seq!['+'] + s;
    assert(p.subrange(1, p.len() as int) =~= s);
}

/// A text that holds anything but digits behind its sign is no number.
pub proof fn other_texts_are_no_numbers(s: Seq<char>, max: nat, k: int)
    requires
        0 <= k < s.len(),
        !is_ascii_digit(s[k]),
        k > 0 || s[0] != '+',
    ensures
        parsed_number(s, max) is None,
{
    let d = unsigned_part(s);
    if s[0] == '+' {
        assert(d[k - 1] == s[k]);
    }
    assert(!all_digits(d));
}

// ---------------------------------------------------------------------------
// Sizes
// ---------------------------------------------------------------------------

/// A rounded quotient is at most half a divisor away.
pub proof fn a_rounded_quotient_is_near(n: nat, d: nat)
    requires
        d > 0,
    ensures
        2 * (half_even(n, d) * d) <= 2 * n + d,
        2 * n <= 2 * (half_even(n, d) * d) + d,
        n % d == 0 ==> half_even(n, d) * d == n,
{
    let q = n / d;
    let r = n % d;
    vstd::arithmetic::div_mod::lemma_fundamental_div_mod(n as int, d as int);
    assert(q * d == d * q) by (nonlinear_arith);
    assert((q + 1) * d == q * d + d) by (nonlinear_arith);
    assert(0 <= r < d) by (nonlinear_arith)
        requires
            r == n % d,
            d > 0,
    ;
}

/// A whole number of kilobytes, megabytes or gigabytes below the next unit is shown as that
/// number; fewer than a thousand and twenty-four bytes are counted.
pub proof fn a_whole_size_is_shown_whole(k: nat)
    requires
        0 < k < 1024,
    ensures
        human(k) == decimal(k) + " B"@,
        human(k * 1024) == decimal(k) + "."@ + decimal(0) + " KB"@,
        human(k * 0x10_0000) == decimal(k) + "."@ + decimal(0) + " MB"@,
        human(k * 0x4000_0000) == decimal(k) + "."@ + decimal(0) + " GB"@,
{
    lemma_whole(k, 1024);
    lemma_whole(k, 0x10_0000);
    lemma_whole(k, 0x4000_0000);
}

proof fn lemma_whole(k: nat, unit: nat)
    requires
        0 < k < 1024,
        unit == 1024 || unit == 0x10_0000 || unit == 0x4000_0000,
    ensures
        double(k * unit) == k * unit,
        one_place(double(k * unit), unit) == decimal(k) + "."@ + decimal(0),
{
    let n = k * unit;
    assert(n < 0x20_0000_0000_0000);
    assert(spacing(n) == 1);
    assert(n / 1 == n && n % 1 == 0);
    assert(half_even(n, 1) == n);
    assert(10 * n == (10 * k) * unit) by (nonlinear_arith)
        requires
            n == k * unit,
    ;
    vstd::arithmetic::div_mod::lemma_div_multiples_vanish((10 * k) as int, unit as int);
    vstd::arithmetic::div_mod::lemma_mod_multiples_basic((10 * k) as int, unit as int);
    assert((10 * k) * unit == unit * (10 * k)) by (nonlinear_arith);
    assert(half_even(10 * n, unit) == 10 * k);
    assert((10 * k) / 10 == k && (10 * k) % 10 == 0);
}

/// The size of a directory counts every file.
pub proof fn every_file_counts(sizes: Seq<u64>, more: u64)
    ensures
        total(sizes.push(more)) == total(sizes) + more,
        total(seq![]) == 0,
{
    assert(sizes.push(more).drop_last() =~= sizes);
}

// ---------------------------------------------------------------------------
// Settings
// ---------------------------------------------------------------------------

/// What may leave the machine: preferences, and nothing else. No token, no account, no
/// address and no path is among them.
pub proof fn what_may_be_exported(key: Seq<char>)
    ensures
        exportable(key) <==> {
            ||| key == "telemetry_enabled"@
            ||| key == "telemetry_retention_days"@
            ||| key == "os_notifications"@
            ||| key == "notification_digest"@
            ||| key == "single_writer_policy"@
            ||| key == "notes_finalize_timeout_secs"@
            ||| key == "gate_commit"@
            ||| key == "check_command"@
            ||| key == "check_auto"@
            ||| key == "line_question_target"@
            ||| key == "escalation_timeout_secs"@
            ||| key == "branch_template"@
            ||| key == "daemon_enabled"@
            ||| key == "daemon_poll_minutes"@
            ||| key == "daemon_usage_threshold"@
            ||| key == "daemon_research_model"@
            ||| key == "daemon_research_effort"@
            ||| key == "daemon_verify_model"@
            ||| key == "daemon_verify_effort"@
            ||| key == "daemon_skip_labels"@
            ||| key == "red_team_model"@
            ||| key == "red_team_effort"@
            ||| key == "red_team_auto"@
            ||| key == "impact_include_references"@
        },
{
    let keys = exportable_keys();
    assert(keys.len() == 24);
    assert forall|i: int| 0 <= i < 24 implies #[trigger] keys[i] == EXPORTABLE_SETTINGS@[i]@ by {}
    assert(keys[0] == "telemetry_enabled"@ && keys[1] == "telemetry_retention_days"@ && keys[2]
        == "os_notifications"@ && keys[3] == "notification_digest"@);
    assert(keys[4] == "single_writer_policy"@ && keys[5] == "notes_finalize_timeout_secs"@
        && keys[6] == "gate_commit"@ && keys[7] == "check_command"@);
    assert(keys[8] == "check_auto"@ && keys[9] == "line_question_target"@ && keys[10]
        == "escalation_timeout_secs"@ && keys[11] == "branch_template"@);
    assert(keys[12] == "daemon_enabled"@ && keys[13] == "daemon_poll_minutes"@ && keys[14]
        == "daemon_usage_threshold"@ && keys[15] == "daemon_research_model"@);
    assert(keys[16] == "daemon_research_effort"@ && keys[17] == "daemon_verify_model"@ && keys[18]
        == "daemon_verify_effort"@ && keys[19] == "daemon_skip_labels"@);
    assert(keys[20] == "red_team_model"@ && keys[21] == "red_team_effort"@ && keys[22]
        == "red_team_auto"@ && keys[23] == "impact_include_references"@);
}

/// Of a bundle, every setting that may be carried is applied with its value, and every other
/// key is named as skipped.
pub proof fn every_setting_is_applied_or_named(settings: Seq<SettingV>, k: int)
    requires
        0 <= k < settings.len(),
    ensures
        exportable(settings[k].key) ==> applied(settings).contains(settings[k]),
        !exportable(settings[k].key) ==> skipped(settings).contains(settings[k].key),
    decreases settings.len(),
{
    let d = settings.drop_last();
    let all = applied(settings);
    let left = skipped(settings);
    if k < d.len() {
        assert(d[k] == settings[k]);
        every_setting_is_applied_or_named(d, k);
        if exportable(settings[k].key) {
            let i = choose|i: int| 0 <= i < applied(d).len() && applied(d)[i] == settings[k];
            assert(all[i] == settings[k]);
        } else {
            let i = choose|i: int| 0 <= i < skipped(d).len() && skipped(d)[i] == settings[k].key;
            assert(left[i] == settings[k].key);
        }
    } else if exportable(settings[k].key) {
        assert(all[all.len() - 1] == settings[k]);
    } else {
        assert(left[left.len() - 1] == settings[k].key);
    }
}

/// A template that the user has edited or written is exported with its text.
pub proof fn what_the_user_wrote_is_exported(files: Seq<PromptFile>, k: int)
    requires
        0 <= k < files.len(),
        files[k].modified || !files[k].has_default,
    ensures
        exported_prompts(files).contains(
            (EntryV { name: files[k].name@, content: files[k].content@ }),
        ),
    decreases files.len(),
{
    let d = files.drop_last();
    let before = exported_prompts(d);
    let all = exported_prompts(files);
    let want = EntryV { name: files[k].name@, content: files[k].content@ };
    if k < d.len() {
        assert(d[k] == files[k]);
        what_the_user_wrote_is_exported(d, k);
        let i = choose|i: int| 0 <= i < before.len() && before[i] == want;
        assert(all[i] == want);
    } else {
        assert(all[all.len() - 1] == want);
    }
}

/// An unedited default is not exported: each exported entry is of a template that the user
/// has edited or written.
pub proof fn no_unedited_default_is_exported(files: Seq<PromptFile>, i: int)
    requires
        0 <= i < exported_prompts(files).len(),
    ensures
        exists|k: int|
            0 <= k < files.len() && ((#[trigger] files[k]).modified || !files[k].has_default)
                && exported_prompts(files)[i] == (EntryV {
                name: files[k].name@,
                content: files[k].content@,
            }),
    decreases files.len(),
{
    let d = files.drop_last();
    let before = exported_prompts(d);
    let last = files[files.len() - 1];
    if i < before.len() {
        no_unedited_default_is_exported(d, i);
        let k = choose|k: int|
            0 <= k < d.len() && ((#[trigger] d[k]).modified || !d[k].has_default) && before[i] == (
            EntryV { name: d[k].name@, content: d[k].content@ });
        assert(files[k] == d[k]);
    } else {
        assert(files.last() == last);
    }
}

/// The templates of a bundle are written up to the first whose name is no file name.
pub proof fn templates_are_written_up_to_a_bad_name(prompts: Seq<EntryV>, i: int)
    requires
        0 <= i <= prompts.len(),
    ensures
        i <= writable(prompts, i) <= prompts.len(),
        forall|k: int|
            i <= k < writable(prompts, i) ==> valid_name((#[trigger] prompts[k]).name),
        writable(prompts, i) < prompts.len() ==> !valid_name(
            prompts[writable(prompts, i)].name,
        ),
    decreases prompts.len() - i,
{
    if i < prompts.len() && valid_name(prompts[i].name) {
        templates_are_written_up_to_a_bad_name(prompts, i + 1);
    }
}

proof fn lemma_with(s: Seq<SettingV>, key: Seq<char>, value: Option<Seq<char>>)
    ensures
        forall|x: SettingV| s.contains(x) ==> #[trigger] with(s, key, value).contains(x),
        value matches Some(v) ==> with(s, key, value).contains((SettingV { key, value: v })),
{
    let all = with(s, key, value);
    assert forall|x: SettingV| s.contains(x) implies #[trigger] all.contains(x) by {
        let i = choose|i: int| 0 <= i < s.len() && s[i] == x;
        assert(all[i] == x);
    }
    if value is Some {
        assert(all[all.len() - 1] == (SettingV { key, value: value->0 }));
    }
}

/// Whether a text of the config file is written under `key`, where there is one.
pub open spec fn sets(c: Config, key: Seq<char>, value: Option<String>) -> bool {
    value matches Some(v) ==> overrides(c).contains((SettingV { key, value: v@ }))
}

/// Whether a switch of the config file is written under `key`, where there is one.
pub open spec fn switches(c: Config, key: Seq<char>, value: Option<bool>) -> bool {
    &&& value == Some(true) ==> overrides(c).contains((SettingV { key, value: "true"@ }))
    &&& value == Some(false) ==> overrides(c).contains((SettingV { key, value: "false"@ }))
}

/// Whether a number of the config file is written under `key`, where there is one.
pub open spec fn counts(c: Config, key: Seq<char>, value: Option<u64>) -> bool {
    value matches Some(n) ==> overrides(c).contains((SettingV { key, value: decimal(n as nat) }))
}

/// Every value of the config file overrides its setting.
pub proof fn every_value_of_the_config_is_written(c: Config)
    ensures
        sets(c, "branch_template"@, c.branch_naming),
        sets(c, "worktree_root"@, c.worktree_root),
        sets(c, "single_writer_policy"@, c.single_writer_policy),
        sets(c, "line_question_target"@, c.line_question_target),
        switches(c, "gate_commit"@, c.gate_commit),
        switches(c, "os_notifications"@, c.os_notifications),
        counts(c, "notes_finalize_timeout_secs"@, c.notes_finalize_timeout_secs),
        sets(c, "editor_command"@, c.editor_command),
        sets(c, "check_command"@, c.check_command),
        switches(c, "check_auto"@, c.check_auto),
        switches(c, "daemon_enabled"@, c.daemon_enabled),
        sets(c, "daemon_account"@, c.daemon_account),
        sets(c, "daemon_repo"@, c.daemon_repo),
        counts(c, "daemon_poll_minutes"@, c.daemon_poll_minutes),
        sets(c, "daemon_usage_threshold"@, c.daemon_usage_threshold),
        sets(c, "daemon_research_model"@, c.daemon_research_model),
        sets(c, "daemon_verify_model"@, c.daemon_verify_model),
        sets(c, "jira_base_url"@, c.jira_base_url),
        sets(c, "jira_email"@, c.jira_email),
        sets(c, "jira_token"@, c.jira_token),
        sets(c, "jira_jql"@, c.jira_jql),
        sets(c, "compose_model"@, c.compose_model),
{
    assert forall|s: Seq<SettingV>, k: Seq<char>, v: Option<Seq<char>>, x: SettingV|
        s.contains(x) implies #[trigger] with(s, k, v).contains(x) by {
        lemma_with(s, k, v);
    }
    assert forall|s: Seq<SettingV>, k: Seq<char>, v: Seq<char>|
        (#[trigger] with(s, k, Some(v))).contains((SettingV { key: k, value: v })) by {
        lemma_with(s, k, Some(v));
    }
}

// ---------------------------------------------------------------------------
// Health
// ---------------------------------------------------------------------------

/// A tool is fine when it runs; otherwise it is told why it does not.
pub proof fn a_tool_is_fine_when_it_runs(p: ToolProbe)
    ensures
        git_check(p).ok <==> (p matches ToolProbe::Ran { success, .. } && success),
        node_check(p).ok == git_check(p).ok,
        p matches ToolProbe::Ran { success, stdout, stderr } ==> {
            &&& success ==> includes(git_check(p).detail, trim(stdout@)) && includes(
                node_check(p).detail,
                trim(stdout@),
            )
            &&& !success ==> git_check(p).detail == trim(stderr@) && node_check(p).detail == trim(
                stderr@,
            )
        },
        p matches ToolProbe::NotFound { reason } ==> includes(git_check(p).detail, reason@)
            && includes(node_check(p).detail, reason@),
{
    match p {
        ToolProbe::Ran { success, stdout, stderr } => {
            let g = git_check(p).detail;
            let n = node_check(p).detail;
            if success {
                let t = trim(stdout@);
                let after = " — runs the agent sidecar"@;
                assert(g =~= seq![] + t + seq![]);
                lemma_includes(g, seq![], t, seq![]);
                assert(n =~= seq![] + t + after);
                lemma_includes(n, seq![], t, after);
            }
        },
        ToolProbe::NotFound { reason } => {
            let g = git_check(p).detail;
            let n = node_check(p).detail;
            let before = "not found on PATH: "@;
            let why = "not found on PATH — agent sessions cannot start: "@;
            assert(g =~= before + reason@ + seq![]);
            lemma_includes(g, before, reason@, seq![]);
            assert(n =~= why + reason@ + seq![]);
            lemma_includes(n, why, reason@, seq![]);
        },
    }
}

/// GitHub's tool is fine when an account is logged in, and every one is named.
pub proof fn every_account_is_named(accounts: Vec<GhAccount>, k: int)
    requires
        0 <= k < accounts@.len(),
    ensures
        gh_check(Ok(accounts)).ok,
        includes(gh_check(Ok(accounts)).detail, accounts@[k].login@),
{
    let all = logins(account_views(accounts@));
    assert(account_views(accounts@)[k] == accounts@[k]@);
    assert(all[k] == accounts@[k].login@);
    crate::upkeep::lemma_joined(all, ", "@, k);
    let listed = join(all, ", "@);
    let before = decimal(accounts@.len()) + " account"@ + (if accounts@.len() == 1 {
        ""@
    } else {
        "s"@
    }) + " authenticated: "@;
    let d = gh_check(Ok(accounts)).detail;
    assert(d =~= before + listed + seq![]);
    lemma_includes(d, before, listed, seq![]);
    lemma_includes_through(d, listed, accounts@[k].login@);
}

/// Without an account, or without an answer, GitHub's tool is not fine.
pub proof fn without_an_account_github_is_out(none: Vec<GhAccount>, reason: String)
    requires
        none@.len() == 0,
    ensures
        !gh_check(Ok(none)).ok,
        !gh_check(Err(reason)).ok,
        gh_check(Err(reason)).detail == reason@,
{
}

/// An editor that is named by a path has to be there; one that is named by a command is taken
/// as it is.
pub proof fn an_editor_named_by_a_path_has_to_exist(editor: String, there: bool)
    ensures
        editor_check(Ok(editor), there).ok <==> (there || !(editor@.contains('/')
            || editor@.contains('\\'))),
        includes(editor_check(Ok(editor), there).detail, editor@),
{
    let d = editor_check(Ok(editor), there).detail;
    let before = "configured editor not found on disk: "@;
    if editor_check(Ok(editor), there).ok {
        assert(d =~= seq![] + editor@ + seq![]);
        lemma_includes(d, seq![], editor@, seq![]);
    } else {
        assert(d =~= before + editor@ + seq![]);
        lemma_includes(d, before, editor@, seq![]);
    }
}

/// Jira counts as configured when all three of its settings hold something.
pub proof fn jira_needs_all_three(url: Seq<char>, email: Seq<char>, token: Seq<char>)
    ensures
        jira_check(Some(url), Some(email), Some(token)).ok <==> (trim(url).len() > 0 && trim(
            email,
        ).len() > 0 && trim(token).len() > 0),
        !jira_check(None, Some(email), Some(token)).ok,
        !jira_check(Some(url), None, Some(token)).ok,
        !jira_check(Some(url), Some(email), None).ok,
{
}

/// A repository has to be open; a config file may be missing, but one that is there has to be
/// readable and well-formed.
pub proof fn what_has_to_be_in_place(
    repo: Result<Option<String>, String>,
    config: ConfigProbe,
)
    ensures
        repo_check(repo).ok <==> (repo matches Ok(path) && path is Some),
        repo matches Ok(Some(path)) ==> repo_check(repo).detail == path@,
        repo matches Err(reason) ==> repo_check(repo).detail == reason@,
        config_check(config).ok <==> (config is Missing || config is Valid),
        config matches ConfigProbe::Unreadable { reason } ==> config_check(config).detail
            == "unreadable: "@ + reason@,
        config matches ConfigProbe::Valid { path } ==> config_check(config).detail == path@,
{
}

/// The size of the logs is never a failure; how long they are kept is told in days, or that
/// they are kept forever where the setting is 0, missing or no number.
pub proof fn how_long_logs_are_kept(days: u32, files: u64, bytes: u64)
    requires
        days > 0,
        files > 0,
    ensures
        retention_days(Some(decimal(days as nat))) == days,
        retention_days(Some(decimal(0))) == 0,
        retention_days(None) == 0,
        telemetry_check(Some(decimal(days as nat)), files, bytes).ok,
        includes(
            telemetry_check(Some(decimal(days as nat)), files, bytes).detail,
            "kept "@ + decimal(days as nat) + " days"@,
        ),
        includes(telemetry_check(None, files, bytes).detail, "kept forever"@),
        includes(telemetry_check(None, files, bytes).detail, human(bytes as nat)),
        includes(telemetry_check(None, files, bytes).detail, decimal(files as nat)),
        includes(telemetry_check(None, 0, bytes).detail, "empty"@),
{
    a_written_number_reads_back(days as nat, u32::MAX as nat);
    a_written_number_reads_back(0, u32::MAX as nat);
    let s = if files == 1 {
        ""@
    } else {
        "s"@
    };
    let before = decimal(files as nat) + " file"@ + s + " / "@ + human(bytes as nat) + " — "@;
    let kept = "kept "@ + decimal(days as nat) + " days"@;
    let d = telemetry_check(Some(decimal(days as nat)), files, bytes).detail;
    assert(d =~= before + kept + seq![]);
    lemma_includes(d, before, kept, seq![]);
    let e = telemetry_check(None, files, bytes).detail;
    let forever = "kept forever"@;
    assert(e =~= before + forever + seq![]);
    lemma_includes(e, before, forever, seq![]);
    let start = decimal(files as nat) + " file"@ + s + " / "@;
    assert(e =~= start + human(bytes as nat) + (" — "@ + forever));
    lemma_includes(e, start, human(bytes as nat), " — "@ + forever);
    let rest = " file"@ + s + " / "@ + human(bytes as nat) + " — "@ + forever;
    assert(e =~= seq![] + decimal(files as nat) + rest);
    lemma_includes(e, seq![], decimal(files as nat), rest);
    let f = telemetry_check(None, 0, bytes).detail;
    reveal_strlit("empty — ");
    reveal_strlit("empty");
    reveal_strlit(" — ");
    assert("empty — "@ =~= "empty"@ + " — "@);
    assert(f =~= seq![] + "empty"@ + (" — "@ + forever));
    lemma_includes(f, seq![], "empty"@, " — "@ + forever);
}

/// Every tool and every setting is reported under its own name, whatever the others are.
pub proof fn everything_is_reported(p: HealthProbes)
    ensures
        report(p).len() == 8,
        report(p)[0].name == "git"@ && report(p)[0] == git_check(p.git),
        report(p)[1].name == "node"@ && report(p)[1] == node_check(p.node),
        report(p)[2].name == "gh"@ && report(p)[2] == gh_check(p.accounts),
        report(p)[3].name == "editor"@,
        report(p)[4].name == "jira"@,
        report(p)[5].name == "repository"@ && report(p)[5] == repo_check(p.repo),
        report(p)[6].name == "config.toml"@ && report(p)[6] == config_check(p.config),
        report(p)[7].name == "telemetry"@,
{
}

// ---------------------------------------------------------------------------
// Errors
// ---------------------------------------------------------------------------

/// Only a git command that ran and failed is worth another try; the message of an error is
/// the one it was made with.
pub proof fn what_is_worth_another_try(message: String)
    ensures
        (MaestroError::Git { kind: GitErrorKind::CommandFailed, message }).transient(),
        !(MaestroError::Git { kind: GitErrorKind::NotInstalled, message }).transient(),
        !(MaestroError::InvalidData { message }).transient(),
        !(MaestroError::Config { message }).transient(),
        !(MaestroError::Io { message }).transient(),
        (MaestroError::InvalidData { message }).text() == message@,
        (MaestroError::Config { message }).text() == message@,
        (MaestroError::Io { message }).text() == message@,
        (MaestroError::InvalidData { message }).code_text() == "invalid_data"@,
        (MaestroError::Config { message }).code_text() == "config"@,
        (MaestroError::Io { message }).code_text() == "io"@,
{
}

// ---------------------------------------------------------------------------
// The sidecar
// ---------------------------------------------------------------------------

/// A request carries the id it was given, and one id is followed by another.
pub proof fn a_request_carries_its_id(call: EngineCall, id: u64)
    ensures
        id_of(request_for(call, id)) == id,
        next_of(id) != id,
        id < u64::MAX ==> next_of(id) == id + 1,
{
}

/// A session is started with everything that was asked for.
pub proof fn a_start_carries_what_was_asked_for(asked: SpawnSessionRequest, id: u64)
    ensures
        session_of(EngineCall::SpawnSession(asked)) == Some(asked.session_id@),
        request_for(EngineCall::SpawnSession(asked), id) matches SidecarRequest::Spawn {
            id: sent,
            session_id,
            cwd,
            prompt,
            session_type,
            model,
            effort,
            permission_mode,
            thinking,
            tools_profile,
            disallowed_tools,
            resume_id,
        } && sent == id && session_id == asked.session_id && cwd == asked.cwd && prompt
            == asked.prompt && session_type == asked.session_type && model == asked.model && effort
            == asked.effort && permission_mode == asked.permission_mode && thinking
            == asked.thinking && tools_profile == asked.tools_profile && disallowed_tools
            == asked.disallowed_tools && resume_id == asked.resume_id,
{
}

/// What is said to a session, and what is changed of it, reaches that session.
pub proof fn a_session_gets_what_is_said_to_it(session_id: String, text: String, id: u64)
    ensures
        request_for((EngineCall::Interrupt { session_id }), id) == (SidecarRequest::Interrupt {
            id,
            session_id,
        }),
        request_for((EngineCall::CloseSession { session_id }), id) == (SidecarRequest::Close {
            id,
            session_id,
        }),
        request_for((EngineCall::SetModel { session_id, model: text }), id) == (
        SidecarRequest::SetModel { id, session_id, model: text }),
        request_for((EngineCall::SetEffort { session_id, effort: text }), id) == (
        SidecarRequest::SetEffort { id, session_id, effort: text }),
        request_for((EngineCall::SetPermissionMode { session_id, mode: text }), id) == (
        SidecarRequest::SetPermissionMode { id, session_id, permission_mode: text }),
        request_for((EngineCall::SetThinking { session_id, thinking: text }), id) == (
        SidecarRequest::SetThinking { id, session_id, thinking: text }),
{
}

/// A rejected request is told to the session it was about, with the reason, and closes it; an
/// accepted one is not told.
pub proof fn a_rejection_is_told_to_its_session(
    r: Seq<EngineSignal>,
    pending: Map<u64, Seq<char>>,
    id: u64,
    ok: bool,
    error: Option<String>,
)
    requires
        pending.dom().contains(id),
        is_routed(r, pending, (SidecarEvent::Ack { id, ok, error })),
    ensures
        ok ==> r.len() == 0,
        !ok ==> r.len() == 2 && is_close_signal(r[1], pending[id]),
        !ok && error is Some ==> is_error_signal(r[0], Some(pending[id]), error->0@),
        !ok && error is None ==> is_error_signal(r[0], Some(pending[id]), "request rejected"@),
{
}

/// The script that the environment names is run first of all, then that of the development
/// tree, then the installed one.
pub proof fn which_script_is_run(
    named: Seq<char>,
    development: Option<Seq<char>>,
    tree: Seq<char>,
    installed: Option<Seq<char>>,
    beside: Seq<char>,
)
    ensures
        script_of(Some(named), development, installed) == named,
        script_of(None, Some(tree), installed) == tree,
        script_of(None, None, Some(beside)) == beside,
        script_of(None, None, None) == "sidecar/dist/main.js"@,
{
}

} // verus!
