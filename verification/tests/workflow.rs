//! Checks, prompts for the PR workflow, diffs, health, launching and the antagonist.
use maestro_core::bus::Event;
use maestro_core::checks::{
    tail, verdict, CheckStatus, ChecksManager, CommandOutcome, MAX_OUTPUT_BYTES,
};
use maestro_core::compose::{
    diff_args, git_failed, log_args, truncate, BranchReads, ComposeManager,
};
use maestro_core::daemon::github::GhAccount;
use maestro_core::diff::{
    normalize_line_endings, DiffManager, DiffScope, DiffSnapshot, NewSide, MAX_FILE_DIFF_BYTES,
};
use maestro_core::error::MaestroError;
use maestro_core::health::{
    check_config, check_editor, check_gh, check_git, check_jira, check_node, check_repo,
    check_telemetry, dir_footprint, run, ConfigProbe, HealthProbes, ToolProbe,
};
use maestro_core::launcher::{
    detect_rider, editor_invocation, open_in_editor, open_in_explorer, resolve_editor,
    InstalledApp, Platform, RiderSearch,
};
use maestro_core::prompts::{FileRead, PromptManager};
use maestro_core::session::SessionStatus;
use maestro_core::table::Table;
use maestro_core::units::{human_size, one_place_text};
use maestro_core::worktree::{
    require_worktree, BranchRecord, ChangedFile, RepoInfo, WorktreeRef,
};

fn worktrees() -> Vec<WorktreeRef> {
    vec![
        WorktreeRef { branch: Some("main".into()), path: "/repo".into() },
        WorktreeRef { branch: None, path: "/detached".into() },
        WorktreeRef { branch: Some("impl/T-1-x".into()), path: "/wt/x".into() },
    ]
}

fn done(branch: &str) -> Event {
    Event::SessionStatusChanged {
        session_id: "s1".into(),
        branch: branch.into(),
        status: SessionStatus::Done,
    }
}

// ---------- checks ----------

#[test]
fn tail_keeps_short_text_and_trims_long_text() {
    assert_eq!(tail("short", 100), "short");
    let long = "x".repeat(200);
    let trimmed = tail(&long, 50);
    assert!(trimmed.starts_with("… (output trimmed)"));
    assert!(trimmed.ends_with(&"x".repeat(50)));
    assert_eq!(trimmed, format!("… (output trimmed)\n{}", "x".repeat(50)));
}

#[test]
fn a_tail_never_cuts_a_character() {
    // Two bytes each: of five bytes, two characters fit.
    assert_eq!(tail("абвгд", 5), "… (output trimmed)\nгд");
    assert_eq!(tail("абвгд", 10), "абвгд");
    assert_eq!(tail("€€", 2), "… (output trimmed)\n");
    assert_eq!(tail("a😀b", 5), "… (output trimmed)\n😀b");
}

#[test]
fn a_run_is_judged_by_how_it_ended() {
    let v = verdict(CommandOutcome::Finished {
        success: true,
        code: Some(0),
        stdout: "ok\n".into(),
        stderr: " \n".into(),
    });
    assert!(v.passed);
    assert_eq!(v.exit_code, Some(0));
    assert_eq!(v.output, "ok\n");

    let v = verdict(CommandOutcome::Finished {
        success: false,
        code: Some(3),
        stdout: "out".into(),
        stderr: "bad".into(),
    });
    assert!(!v.passed);
    assert_eq!(v.exit_code, Some(3));
    assert_eq!(v.output, "out\n--- stderr ---\nbad");

    let v = verdict(CommandOutcome::NotLaunched { reason: "no sh".into() });
    assert_eq!(v.output, "failed to launch check command: no sh");
    assert!(!v.passed && v.exit_code.is_none());

    let v = verdict(CommandOutcome::TimedOut);
    assert_eq!(v.output, "check timed out after 30 minutes and was killed");
    assert!(!v.passed && v.exit_code.is_none());

    let v = verdict(CommandOutcome::Finished {
        success: true,
        code: Some(0),
        stdout: "y".repeat(MAX_OUTPUT_BYTES + 1),
        stderr: String::new(),
    });
    assert!(v.output.starts_with("… (output trimmed)\n"));
    assert_eq!(v.output.len(), "… (output trimmed)\n".len() + MAX_OUTPUT_BYTES);
}

#[test]
fn one_check_runs_per_branch() {
    let mut checks = ChecksManager::new();
    let trees = worktrees();
    match checks.run("main", None, &trees, 1) {
        Err(MaestroError::Config { message }) => assert!(message.contains("check_command")),
        other => panic!("unexpected answer: {other:?}"),
    }
    match checks.run("ghost", Some("make"), &trees, 1) {
        Err(MaestroError::InvalidData { message }) => {
            assert_eq!(message, "no worktree for branch: ghost");
        }
        other => panic!("unexpected answer: {other:?}"),
    }
    let started = checks.run("main", Some(" make test "), &trees, 5).unwrap();
    assert_eq!(started.command, "make test");
    assert_eq!(started.cwd, "/repo");
    assert_eq!(started.event.name(), "check.started");
    assert_eq!(checks.get("main").unwrap().status, CheckStatus::Running);
    match checks.run("main", Some("make"), &trees, 6) {
        Err(MaestroError::InvalidData { message }) => {
            assert_eq!(message, "a check is already running for 'main'");
        }
        other => panic!("unexpected answer: {other:?}"),
    }
    assert!(checks.run("impl/T-1-x", Some("make"), &trees, 6).is_ok());

    let v = verdict(CommandOutcome::NotLaunched { reason: "x".into() });
    assert_eq!(checks.finished("main", v, 9).name(), "check.finished");
    let result = checks.get("main").unwrap();
    assert_eq!(result.status, CheckStatus::Failed);
    assert_eq!(result.started_at, 5);
    assert_eq!(result.finished_at, Some(9));
    assert!(checks.run("main", Some("make"), &trees, 10).is_ok());
    assert!(checks.get("nowhere").is_none());
}

#[test]
fn checks_run_by_themselves_only_where_asked() {
    assert_eq!(ChecksManager::auto_branch(&done("b"), Some("true")).as_deref(), Some("b"));
    assert!(ChecksManager::auto_branch(&done("b"), Some("yes")).is_none());
    assert!(ChecksManager::auto_branch(&done("b"), None).is_none());
    assert!(ChecksManager::auto_branch(&Event::DaemonUpdated, Some("true")).is_none());
    assert_eq!(ChecksManager::command(Some("  ")), None);
}

// ---------- compose ----------

#[test]
fn truncation_is_char_boundary_safe() {
    let text = "аб".repeat(10); // multi-byte
    let out = truncate(&text, 7);
    assert!(out.contains("truncated"));
    assert_eq!(out, "аба\n… (diff truncated)");
}

#[test]
fn truncation_is_a_no_op_under_the_limit() {
    assert_eq!(truncate("short", 100), "short");
}

fn compose() -> ComposeManager {
    ComposeManager::new(PromptManager::new(Table::new()))
}

fn template() -> FileRead {
    FileRead::Text(
        "{{branch}}|{{task_id}}|{{base}}|{{files}}|{{diff}}|{{commits}}".to_string(),
    )
}

fn record() -> BranchRecord {
    BranchRecord { task_id: Some("T-1".into()), base_branch: Some("main".into()) }
}

fn reads(stat: &str, status: &str, diff: &str) -> BranchReads {
    BranchReads {
        stat: stat.into(),
        status: status.into(),
        diff: diff.into(),
        commits: Some("abc init".into()),
    }
}

#[test]
fn commit_prompt_rejects_a_clean_worktree() {
    let err = compose()
        .commit_prompt("impl/x", None, &record(), None, " \n", "", template())
        .unwrap_err();
    assert!(err.message().contains("clean"));
}

#[test]
fn commit_prompt_renders_status_task_id_base_and_diff() {
    let prompt = compose()
        .commit_prompt("impl/x", None, &record(), None, " M a.txt", "-base\n+changed", template())
        .unwrap();
    assert_eq!(prompt, "impl/x|T-1|main| M a.txt|-base\n+changed|{{commits}}");
}

#[test]
fn pr_prompt_includes_uncommitted_changes() {
    let (base, prompt) = compose()
        .pr_prompt(
            "impl/x",
            None,
            &record(),
            None,
            &reads("a.txt | 2", " M a.txt\n", "+uncommitted work"),
            template(),
        )
        .unwrap();
    assert_eq!(base, "main");
    assert!(prompt.contains("uncommitted work"));
    assert_eq!(prompt, "impl/x|T-1|main|a.txt | 2|+uncommitted work|abc init");
}

#[test]
fn pr_prompt_lists_new_untracked_files_by_name() {
    let (_base, prompt) = compose()
        .pr_prompt(
            "impl/x",
            None,
            &record(),
            None,
            &reads("a.txt | 2", " M a.txt\n?? b.txt\n?? c.txt\n", "+changed too"),
            template(),
        )
        .unwrap();
    assert!(prompt.contains("a.txt | 2\n?? b.txt\n?? c.txt|"), "named even without its content");
}

#[test]
fn pr_prompt_honors_an_explicit_base_override() {
    let (base, prompt) = compose()
        .pr_prompt(
            "impl/x",
            Some(" develop "),
            &record(),
            None,
            &reads("", "", "on the branch"),
            template(),
        )
        .unwrap();
    assert_eq!(base, "develop");
    assert!(prompt.contains("on the branch"));
}

#[test]
fn pr_prompt_refuses_when_there_is_nothing_to_describe() {
    let err = compose()
        .pr_prompt("impl/x", None, &record(), None, &reads("", "?? new", " \n"), template())
        .unwrap_err();
    assert!(err.message().contains("nothing to describe"));
}

#[test]
fn a_guide_needs_a_base() {
    let repo = RepoInfo { path: "/repo".into(), default_branch: "trunk".into() };
    let nothing = BranchRecord { task_id: None, base_branch: None };
    let prompt = compose()
        .guide_prompt("b", &nothing, Some(&repo), &reads("s", "", "d"), template())
        .unwrap();
    assert_eq!(prompt, "b||trunk|s|d|abc init");
    match compose().guide_prompt("b", &nothing, None, &reads("s", "", "d"), template()) {
        Err(MaestroError::Config { message }) => assert_eq!(message, "no repository selected"),
        other => panic!("unexpected answer: {other:?}"),
    }
    let unread = FileRead::Failed { message: "denied".into() };
    match compose().guide_prompt("b", &nothing, Some(&repo), &reads("s", "", "d"), unread) {
        Err(MaestroError::Io { message }) => assert_eq!(message, "denied"),
        other => panic!("unexpected answer: {other:?}"),
    }
}

#[test]
fn git_is_asked_and_its_failures_are_told() {
    assert_eq!(log_args("main"), ["log", "--format=%h %s", "main..HEAD"]);
    assert_eq!(diff_args("abc123\n"), ["diff", "abc123"]);
    assert_eq!(
        git_failed(&log_args("x"), "fatal: no\n").message(),
        "`git log --format=%h %s x..HEAD` failed: fatal: no"
    );
}

// ---------- diff ----------

#[test]
fn mod_crlf_checkout_is_not_reported_as_edited() {
    assert_eq!(
        normalize_line_endings("fn main() {\r\n    old();\r\n}\r\n".into()),
        "fn main() {\n    old();\n}\n",
    );
    // Already-LF content passes through unchanged.
    assert_eq!(
        normalize_line_endings("fn main() {\n    old();\n}\n".into()),
        "fn main() {\n    old();\n}\n",
    );
    // A bare `\r` (old Mac-style) is left alone.
    assert_eq!(normalize_line_endings("a\rb".into()), "a\rb");
}

fn snapshot(branch: &str, scope: DiffScope, at: i128) -> DiffSnapshot {
    DiffSnapshot {
        branch: branch.into(),
        scope,
        base: "main".into(),
        merge_base: "mb0".into(),
        files: vec![
            ChangedFile { path: "src/lib.rs".into(), status: "M".into(), old_path: None },
            ChangedFile {
                path: "src/renamed.rs".into(),
                status: "R".into(),
                old_path: Some("src/original.rs".into()),
            },
        ],
        unified: "diff".into(),
        computed_at: at,
    }
}

#[test]
fn get_is_cached_refresh_recomputes() {
    let mut diffs = DiffManager::new();
    assert!(diffs.get("impl/T-1-x", DiffScope::Branch).is_none());
    diffs.computed(snapshot("impl/T-1-x", DiffScope::Branch, 1));
    assert_eq!(diffs.get("impl/T-1-x", DiffScope::Branch).unwrap().computed_at, 1);
    assert!(diffs.get("impl/T-1-x", DiffScope::Worktree).is_none());

    let event = diffs.refresh(snapshot("impl/T-1-x", DiffScope::Branch, 2));
    assert_eq!(event.name(), "diff.updated");
    assert_eq!(diffs.get("impl/T-1-x", DiffScope::Branch).unwrap().computed_at, 2);
}

#[test]
fn invalidate_drops_cache_and_publishes() {
    let mut diffs = DiffManager::new();
    diffs.computed(snapshot("a", DiffScope::Branch, 1));
    diffs.computed(snapshot("a", DiffScope::Worktree, 1));
    diffs.computed(snapshot("b", DiffScope::Branch, 1));
    assert_eq!(diffs.invalidate("a").name(), "diff.updated");
    assert!(diffs.get("a", DiffScope::Branch).is_none());
    assert!(diffs.get("a", DiffScope::Worktree).is_none());
    assert!(diffs.get("b", DiffScope::Branch).is_some());
    diffs.lagged();
    assert!(diffs.get("b", DiffScope::Branch).is_none());
}

#[test]
fn session_done_invalidates_via_bus() {
    let mut diffs = DiffManager::new();
    diffs.computed(snapshot("impl/T-1-x", DiffScope::Branch, 1));
    assert!(diffs.on_event(&Event::DaemonUpdated).is_none());
    assert_eq!(diffs.on_event(&done("impl/T-1-x")).unwrap().name(), "diff.updated");
    assert!(diffs.get("impl/T-1-x", DiffScope::Branch).is_none());
}

#[test]
fn an_oversized_file_is_refused_with_a_reason() {
    let huge = "x".repeat(MAX_FILE_DIFF_BYTES + 1);
    let file = DiffManager::file_diff("src/lib.rs", Some(huge.clone()), Some("small".into()));
    assert!(file.old.is_none() && file.new.is_none(), "contents withheld");
    let message = file.too_large.expect("a reason");
    assert_eq!(
        message,
        format!(
            "src/lib.rs is {:.1} MB — too large to diff in the editor (limit {:.0} MB). \
             Use git or an editor for this one.",
            huge.len() as f64 / (1024.0 * 1024.0),
            MAX_FILE_DIFF_BYTES as f64 / (1024.0 * 1024.0)
        )
    );

    let file = DiffManager::file_diff("src/lib.rs", Some("a\r\nb".into()), None);
    assert!(file.too_large.is_none());
    assert_eq!(file.old.as_deref(), Some("a\nb"));
    assert!(file.new.is_none());
}

#[test]
fn file_diff_reads_old_side_of_renames() {
    let s = snapshot("impl/T-1-x", DiffScope::Branch, 1);
    let sides = DiffManager::sides(&s, "src/renamed.rs");
    assert_eq!(sides.old_path, "src/original.rs");
    assert_eq!(sides.old_revision, "mb0");
    assert_eq!(sides.new, NewSide::BranchHead);
    let s = snapshot("impl/T-1-x", DiffScope::Worktree, 1);
    let sides = DiffManager::sides(&s, "src/lib.rs");
    assert_eq!(sides.old_path, "src/lib.rs");
    assert_eq!(sides.new, NewSide::OnDisk);
    assert_eq!(DiffManager::sides(&s, "elsewhere.rs").old_path, "elsewhere.rs");
    assert_eq!(DiffScope::default(), DiffScope::Worktree);
}

#[test]
fn base_falls_back_to_default_branch_and_respects_stored_base() {
    let repo = RepoInfo { path: "/repo".into(), default_branch: "main".into() };
    assert_eq!(DiffManager::base_for(&None, Some(&repo)).unwrap(), "main");
    assert_eq!(DiffManager::base_for(&Some("develop".into()), Some(&repo)).unwrap(), "develop");
    assert!(DiffManager::base_for(&None, None).is_err());
}

// ---------- health ----------

fn account(login: &str) -> GhAccount {
    GhAccount { login: login.into(), active: true }
}

fn ran(success: bool, stdout: &str, stderr: &str) -> ToolProbe {
    ToolProbe::Ran { success, stdout: stdout.into(), stderr: stderr.into() }
}

#[test]
fn gh_check_reports_authenticated_accounts() {
    let check = check_gh(&Ok(vec![account("alice")]));
    assert!(check.ok);
    assert!(check.detail.contains("alice"));
    assert_eq!(check.detail, "1 account authenticated: alice");
    let check = check_gh(&Ok(vec![account("alice"), account("bob")]));
    assert_eq!(check.detail, "2 accounts authenticated: alice, bob");
}

#[test]
fn gh_check_flags_no_authenticated_account() {
    let check = check_gh(&Ok(vec![]));
    assert!(!check.ok);
    assert!(check.detail.contains("gh auth login"));
}

#[test]
fn gh_check_flags_missing_cli() {
    let check = check_gh(&Err("gh not found".into()));
    assert!(!check.ok);
    assert_eq!(check.detail, "gh not found");
}

#[test]
fn jira_check_requires_all_three_settings() {
    assert!(!check_jira(&None, &None, &None).ok);
    let url = Some("https://org.atlassian.net".to_string());
    let email = Some("me@org.com".to_string());
    assert!(!check_jira(&url, &email, &None).ok, "token still missing");
    assert!(!check_jira(&url, &email, &Some(" ".into())).ok);
    assert!(check_jira(&url, &email, &Some("tok".into())).ok);
}

#[test]
fn repo_check_reports_none_selected() {
    let check = check_repo(&Ok(None));
    assert!(!check.ok);
    assert!(check.detail.contains("no repository"));
    assert_eq!(check_repo(&Ok(Some("/repo".into()))).detail, "/repo");
    assert!(!check_repo(&Err("store is gone".into())).ok);
}

#[test]
fn editor_check_flags_a_configured_path_that_does_not_exist() {
    let check = check_editor(&Ok("Z:/nowhere/rider64.exe".into()), false);
    assert!(!check.ok);
    assert!(check.detail.contains("not found on disk"));
    let check = check_editor(&Ok("rider".into()), false);
    assert!(check.ok, "a bare command name has nothing more to check");
    assert_eq!(check.detail, "rider");
    assert!(check_editor(&Ok("C:\\rider64.exe".into()), true).ok);
    assert!(!check_editor(&Err("no editor".into()), true).ok);
}

#[test]
fn run_produces_one_check_per_area() {
    let report = run(&HealthProbes {
        git: ran(true, "git version 2\n", ""),
        node: ToolProbe::NotFound { reason: "os error 2".into() },
        accounts: Ok(vec![]),
        editor: Err("none".into()),
        editor_exists: false,
        jira_base_url: None,
        jira_email: None,
        jira_token: None,
        repo: Ok(None),
        config: ConfigProbe::Missing,
        telemetry_retention: None,
        log_files: 0,
        log_bytes: 0,
    });
    let names: Vec<&str> = report.checks.iter().map(|c| c.name.as_str()).collect();
    assert_eq!(
        names,
        ["git", "node", "gh", "editor", "jira", "repository", "config.toml", "telemetry"]
    );
    assert!(report.checks[0].ok);
}

#[test]
fn tool_checks_show_versions_and_reasons() {
    assert_eq!(check_git(&ran(true, "git version 2\n", "")).detail, "git version 2");
    assert_eq!(check_git(&ran(false, "", "broken\n")).detail, "broken");
    let missing = ToolProbe::NotFound { reason: "x".into() };
    assert_eq!(check_git(&missing).detail, "not found on PATH: x");
    let node = check_node(&ran(true, "v20.1.0\n", ""));
    assert!(node.ok);
    assert_eq!(node.detail, "v20.1.0 — runs the agent sidecar");
    assert_eq!(
        check_node(&missing).detail,
        "not found on PATH — agent sessions cannot start: x"
    );
}

#[test]
fn telemetry_check_reports_footprint_and_policy() {
    let empty = check_telemetry(&None, 0, 0);
    assert!(empty.ok);
    assert!(empty.detail.contains("empty"), "{}", empty.detail);
    assert!(empty.detail.contains("forever"), "{}", empty.detail);

    let (files, bytes) = dir_footprint(&vec![2048, 1024]);
    let full = check_telemetry(&Some("30".into()), files, bytes);
    assert!(full.detail.contains("2 files"), "{}", full.detail);
    assert!(full.detail.contains("3.0 KB"), "{}", full.detail);
    assert!(full.detail.contains("kept 30 days"), "{}", full.detail);
    assert_eq!(
        check_telemetry(&Some("soon".into()), 1, 5).detail,
        "1 file / 5 B — kept forever"
    );
}

#[test]
fn human_size_picks_sane_units() {
    assert_eq!(human_size(512), "512 B");
    assert_eq!(human_size(2048), "2.0 KB");
    assert_eq!(human_size(5 * 1024 * 1024), "5.0 MB");
}

/// The same with floating-point numbers.
fn float_size(bytes: u64) -> String {
    let units = ["B", "KB", "MB", "GB"];
    let mut size = bytes as f64;
    let mut unit = 0;
    while size >= 1024.0 && unit < units.len() - 1 {
        size /= 1024.0;
        unit += 1;
    }
    if unit == 0 {
        format!("{bytes} B")
    } else {
        format!("{size:.1} {}", units[unit])
    }
}

#[test]
fn sizes_agree_with_floating_point() {
    let mut n: u64 = 1;
    let mut tried = 0;
    while tried < 20_000 {
        n = n.wrapping_mul(6364136223846793005).wrapping_add(1442695040888963407);
        let bytes = n >> (tried % 64);
        assert_eq!(human_size(bytes), float_size(bytes), "{bytes}");
        assert_eq!(
            one_place_text(bytes, 1024 * 1024),
            format!("{:.1}", bytes as f64 / (1024.0 * 1024.0)),
            "{bytes}"
        );
        tried += 1;
    }
    for bytes in [0, 1023, 1024, 1075, 1126, 1177, 1228, 1280, 1536, 0x1F_FFFF_FFFF_FFFF, u64::MAX] {
        assert_eq!(human_size(bytes), float_size(bytes), "{bytes}");
    }
    // Exact halves of a tenth go to the even neighbour.
    for k in 0..2000u64 {
        let bytes = 1024 * 1024 + k * 51;
        assert_eq!(human_size(bytes), float_size(bytes), "{bytes}");
    }
}

#[test]
fn config_check_passes_when_absent_or_valid_and_fails_on_garbage() {
    let absent = check_config(&ConfigProbe::Missing);
    assert!(absent.ok);
    assert!(absent.detail.contains("defaults"));
    assert!(check_config(&ConfigProbe::Valid { path: "/c.toml".into() }).ok);
    let broken = check_config(&ConfigProbe::Malformed { reason: "line 1\n  |\n".into() });
    assert!(!broken.ok);
    assert!(broken.detail.contains("ignored"), "{}", broken.detail);
    assert_eq!(broken.detail, "ignored (defaults in effect): line 1");
    let empty = check_config(&ConfigProbe::Malformed { reason: String::new() });
    assert_eq!(empty.detail, "ignored (defaults in effect): parse error");
    let unreadable = check_config(&ConfigProbe::Unreadable { reason: "denied".into() });
    assert_eq!(unreadable.detail, "unreadable: denied");
}

// ---------- launcher ----------

fn nothing_found() -> RiderSearch {
    RiderSearch { on_path: None, toolbox: Vec::new(), installed: Vec::new() }
}

#[test]
fn configured_editor_wins_over_detection() {
    let search = RiderSearch { on_path: Some("/bin/rider\n".into()), ..nothing_found() };
    assert_eq!(
        resolve_editor(Some("D:/tools/myeditor.exe"), &search).expect("resolve"),
        "D:/tools/myeditor.exe"
    );
}

#[test]
fn blank_setting_falls_through_to_detection() {
    match resolve_editor(Some("   "), &nothing_found()) {
        Ok(editor) => assert!(!editor.trim().is_empty()),
        Err(err) => assert!(err.message().contains("editor_command"), "{err:?}"),
    }
    let search = RiderSearch { on_path: Some(" C:/rider.cmd \nother\n".into()), ..nothing_found() };
    assert_eq!(resolve_editor(Some("   "), &search).unwrap(), "C:/rider.cmd");
}

#[test]
fn cmd_shims_are_wrapped_and_executables_are_not() {
    let path = "C:/work/repo.worktrees/impl-T-1-x";
    let launch = editor_invocation("C:/Users/u/JetBrains/Toolbox/scripts/rider.cmd", path);
    assert_eq!(launch.program, "cmd");
    assert_eq!(launch.args[0], "/C");
    assert!(launch.args[1].ends_with("rider.cmd"));
    assert!(launch.args[2].contains("impl-T-1-x"));

    let launch = editor_invocation("C:/Rider/bin/rider64.exe", path);
    assert_eq!(launch.program, "C:/Rider/bin/rider64.exe");
    assert_eq!(launch.args.len(), 1);
    assert_eq!(editor_invocation("X.BAT", path).program, "cmd");
}

#[test]
fn rider_is_found_in_the_usual_places() {
    let app = |name: &str| InstalledApp { name: name.into(), executable: format!("{name}/rider64") };
    let mut search = nothing_found();
    search.installed = vec![
        app("JetBrains Rider 2025.1"),
        app("JetBrains Rider 2024.3"),
        app("Toolbox"),
    ];
    assert_eq!(detect_rider(&search).unwrap(), "JetBrains Rider 2025.1/rider64");
    search.toolbox = vec!["shim".into(), "app".into()];
    assert_eq!(detect_rider(&search).unwrap(), "shim");
    search.on_path = Some("  \n".into());
    assert_eq!(detect_rider(&search).unwrap(), "shim");
    assert!(detect_rider(&nothing_found()).is_none());
}

#[test]
fn explorers_differ_by_platform() {
    assert_eq!(open_in_explorer(Platform::Windows, "p").program, "explorer");
    assert_eq!(open_in_explorer(Platform::MacOs, "p").program, "open");
    let launch = open_in_explorer(Platform::Other, "p");
    assert_eq!(launch.program, "xdg-open");
    assert_eq!(launch.args, ["p"]);
    assert_eq!(open_in_editor(Some("vi"), &nothing_found(), "p").unwrap().args, ["p"]);
    assert!(open_in_editor(None, &nothing_found(), "p").is_err());
}

#[test]
fn blame_resolves_worktree_path() {
    assert_eq!(require_worktree(&worktrees(), "impl/T-1-x").unwrap(), "/wt/x");
    let err = require_worktree(&worktrees(), "no-such-branch").unwrap_err();
    assert!(err.message().contains("no-such-branch"));
}
