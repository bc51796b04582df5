//! The config file, the settings it lands in, and the portable bundle.
use maestro_core::attention::SETTING_OS_NOTIFICATIONS;
use maestro_core::backup::{
    export, import, is_exportable, not_a_bundle, PromptEntry, SettingsBundle, BUNDLE_VERSION,
    EXPORTABLE_SETTINGS,
};
use maestro_core::config::{Config, ConfigFile, DEFAULT_CONFIG};
use maestro_core::daemon::SETTING_DAEMON_POLL_MINUTES;
use maestro_core::gate::SETTING_GATE_COMMIT;
use maestro_core::prompts::{default_names, FileRead, ListedFile, PromptManager};
use maestro_core::questions::SETTING_LINE_QUESTION_TARGET;
use maestro_core::session::manager::SETTING_SINGLE_WRITER_POLICY;
use maestro_core::settings::{Setting, SETTING_TELEMETRY_ENABLED};
use maestro_core::table::Table;
use maestro_core::worktree::{SETTING_BRANCH_TEMPLATE, SETTING_WORKTREE_ROOT};

fn prompts() -> PromptManager {
    let mut defaults = Table::new();
    for name in default_names() {
        let text = format!("---\ndescription: about {name}\n---\nBody of {name}\n");
        defaults.insert(&name, text);
    }
    PromptManager::new(defaults)
}

fn setting(key: &str, value: &str) -> Setting {
    Setting { key: key.into(), value: value.into() }
}

fn value_of<'a>(settings: &'a [Setting], key: &str) -> Option<&'a str> {
    settings.iter().find(|s| s.key == key).map(|s| s.value.as_str())
}

#[test]
fn missing_file_is_created_with_commented_defaults() {
    let first = Config::load_or_create(ConfigFile::Missing { has_directory: true });
    let written = first.write.unwrap();
    assert!(first.config.branch_naming.is_none(), "defaults stay in charge");
    assert!(written.contains("# branch_naming"), "documented but inert");
    assert_eq!(written, DEFAULT_CONFIG);
    let inert: toml::Table = written.parse().unwrap();
    assert!(inert.is_empty(), "the defaults are comments only");

    // A second run must not clobber a file the user has edited.
    let edited = Config { gate_commit: Some(true), ..Default::default() };
    let reloaded = Config::load_or_create(ConfigFile::Parsed(edited));
    assert_eq!(reloaded.config.gate_commit, Some(true));
    assert!(reloaded.write.is_none());
}

#[test]
fn values_land_in_the_settings_table() {
    let config = Config {
        branch_naming: Some("{type}/{task-id}".into()),
        single_writer_policy: Some("reject".into()),
        line_question_target: None,
        gate_commit: Some(true),
        os_notifications: Some(false),
        notes_finalize_timeout_secs: Some(30),
        worktree_root: Some("D:/wt".into()),
        editor_command: Some("D:/tools/rider64.exe".into()),
        check_command: Some("dotnet build".into()),
        check_auto: Some(true),
        ..Default::default()
    };
    let store = config.apply();

    assert_eq!(value_of(&store, SETTING_BRANCH_TEMPLATE), Some("{type}/{task-id}"));
    assert_eq!(value_of(&store, SETTING_SINGLE_WRITER_POLICY), Some("reject"));
    assert_eq!(value_of(&store, SETTING_GATE_COMMIT), Some("true"));
    assert_eq!(value_of(&store, SETTING_OS_NOTIFICATIONS), Some("false"));
    assert_eq!(
        value_of(&store, SETTING_LINE_QUESTION_TARGET),
        None,
        "absent keys are left alone"
    );
    assert_eq!(value_of(&store, SETTING_WORKTREE_ROOT), Some("D:/wt"));
    assert_eq!(value_of(&store, "notes_finalize_timeout_secs"), Some("30"));
    assert_eq!(store.len(), 9);
    assert!(Config::default().apply().is_empty());
}

#[test]
fn malformed_config_falls_back_to_defaults() {
    assert!("this is not = valid = toml".parse::<toml::Table>().is_err());
    let loaded = Config::load_or_create(ConfigFile::Malformed);
    assert!(loaded.config.gate_commit.is_none(), "startup is not blocked");
    assert!(loaded.write.is_none(), "a file the user wrote stays");
    assert!(Config::load_or_create(ConfigFile::Unreadable).write.is_none());
}

#[test]
fn export_then_import_round_trips_settings_and_prompts() {
    let mut src = Table::new();
    src.insert(SETTING_TELEMETRY_ENABLED, "false".to_string());
    src.insert(SETTING_DAEMON_POLL_MINUTES, "10".to_string());
    // Not in the allowlist — must never appear in the export.
    src.insert("jira_token", "super-secret".to_string());
    src.insert("repo_path", "/Users/alice/repo".to_string());

    let manager = prompts();
    let none = Table::new();
    let saved = manager.save("commit-message", "Custom: {{branch}}", &none).unwrap();
    assert!(saved.modified);
    let listed: Vec<ListedFile> = default_names()
        .into_iter()
        .map(|name| {
            let text = if name == "commit-message" {
                "Custom: {{branch}}".to_string()
            } else {
                manager.default_for(&name).unwrap().to_string()
            };
            ListedFile { name, read: FileRead::Text(text) }
        })
        .collect();
    let files = manager.list(&listed, &none);

    let bundle = export(&src, &files, 1_700_000_000_000_000_000);
    assert_eq!(bundle.version, BUNDLE_VERSION);
    assert_eq!(value_of(&bundle.settings, SETTING_TELEMETRY_ENABLED).unwrap(), "false");
    assert_eq!(value_of(&bundle.settings, SETTING_DAEMON_POLL_MINUTES).unwrap(), "10");
    assert!(
        value_of(&bundle.settings, "jira_token").is_none(),
        "a secret must never end up in the exported bundle"
    );
    assert!(value_of(&bundle.settings, "repo_path").is_none());
    assert!(bundle
        .prompts
        .iter()
        .any(|p| p.name == "commit-message" && p.content == "Custom: {{branch}}"));
    assert!(
        !bundle.prompts.iter().any(|p| p.name == "line-question"),
        "unedited defaults stay out of the bundle — they reinstall themselves \
         and must keep receiving shipped updates on the destination"
    );

    let plan = import(&prompts(), &bundle);
    let summary = plan.outcome.unwrap();
    assert_eq!(summary.settings_applied, 2);
    assert!(summary.settings_skipped.is_empty());
    assert_eq!(value_of(&plan.settings, SETTING_TELEMETRY_ENABLED), Some("false"));
    assert_eq!(value_of(&plan.settings, SETTING_DAEMON_POLL_MINUTES), Some("10"));
    assert_eq!(plan.prompts.len(), 1);
    assert_eq!(plan.prompts[0].content, "Custom: {{branch}}");
}

#[test]
fn import_never_writes_a_setting_outside_the_allowlist() {
    let bundle = SettingsBundle {
        version: BUNDLE_VERSION,
        exported_at: 0,
        settings: vec![
            setting("jira_token", "smuggled-secret"),
            setting("repo_path", "/etc/passwd"),
            setting(SETTING_TELEMETRY_ENABLED, "false"),
        ],
        prompts: Vec::new(),
    };

    let plan = import(&prompts(), &bundle);
    let summary = plan.outcome.unwrap();
    assert_eq!(summary.settings_applied, 1);
    assert_eq!(summary.settings_skipped.len(), 2);
    assert!(value_of(&plan.settings, "jira_token").is_none());
    assert!(value_of(&plan.settings, "repo_path").is_none());
}

#[test]
fn an_import_stops_at_a_prompt_with_a_bad_name() {
    let bundle = SettingsBundle {
        version: BUNDLE_VERSION,
        exported_at: 0,
        settings: vec![setting(SETTING_TELEMETRY_ENABLED, "true")],
        prompts: vec![
            PromptEntry { name: "mine".into(), content: "a".into() },
            PromptEntry { name: "../escape".into(), content: "b".into() },
            PromptEntry { name: "other".into(), content: "c".into() },
        ],
    };
    let plan = import(&prompts(), &bundle);
    assert_eq!(plan.settings.len(), 1);
    assert_eq!(plan.prompts.len(), 1, "what came before the bad name was written");
    assert_eq!(plan.outcome.unwrap_err().code(), "invalid_data");
}

#[test]
fn parse_reports_a_readable_error_for_garbage_input() {
    let reason = serde_json::from_str::<serde_json::Value>("not json at all").unwrap_err();
    let err = not_a_bundle(&reason.to_string());
    assert!(err.message().contains("not a valid settings bundle"));
    assert_eq!(err.code(), "invalid_data");
}

#[test]
fn the_allowlist_holds_preferences_only() {
    for key in EXPORTABLE_SETTINGS {
        assert!(is_exportable(key));
    }
    for key in ["jira_token", "repo_path", "worktree_root", "editor_command"] {
        assert!(!is_exportable(key));
    }
}
