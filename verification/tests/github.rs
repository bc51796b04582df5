//! What gh and Jira say, and what they are asked.
use maestro_core::daemon::github::{
    parse_auth_status, parse_comments, parse_pulls, parse_resolved_ids, slug_from_remote_url,
    GhCli,
};
use maestro_core::daemon::jira::{jira_config, urlencode, JiraCli};
use maestro_core::daemon::{resolve_account, resolve_slug, RepoOrigin};
use maestro_core::error::MaestroError;

#[test]
fn parses_auth_status_with_active_flag() {
    let out = "github.com\n\
               ✓ Logged in to github.com account ESievierin (keyring)\n\
               - Active account: true\n\
               - Git operations protocol: ssh\n\
               \n\
               ✓ Logged in to github.com account Yehor-Sievierin-Rply (keyring)\n\
               - Active account: false\n";
    let accounts = parse_auth_status(out);
    assert_eq!(accounts.len(), 2);
    assert_eq!(accounts[0].login, "ESievierin");
    assert!(accounts[0].active);
    assert_eq!(accounts[1].login, "Yehor-Sievierin-Rply");
    assert!(!accounts[1].active);

    assert_eq!(resolve_account(None, &accounts), "ESievierin");
    assert_eq!(resolve_account(Some("other"), &accounts), "other");
    assert_eq!(resolve_account(Some("  "), &accounts), "ESievierin");
    assert_eq!(resolve_account(None, &Vec::new()), "");
}

#[test]
fn resolved_ids_come_only_from_resolved_threads() {
    let raw = r#"{
        "data": {
            "repository": {
                "pullRequest": {
                    "reviewThreads": {
                        "nodes": [
                            {
                                "isResolved": true,
                                "comments": { "nodes": [{ "databaseId": 111 }, { "databaseId": 112 }] }
                            },
                            {
                                "isResolved": false,
                                "comments": { "nodes": [{ "databaseId": 222 }] }
                            }
                        ]
                    }
                }
            }
        }
    }"#;
    let resolved = parse_resolved_ids(raw).expect("parses");
    assert_eq!(resolved, [111, 112]);
}

#[test]
fn resolved_ids_is_empty_on_an_unexpected_shape() {
    let resolved = parse_resolved_ids(r#"{"data": null}"#).expect("still parses as JSON");
    assert!(resolved.is_empty());
    assert!(parse_resolved_ids("not json").is_err());
}

#[test]
fn slugs_from_all_remote_url_shapes() {
    assert_eq!(
        slug_from_remote_url("git@github.com:reply-team/replyapp.git").as_deref(),
        Some("reply-team/replyapp")
    );
    assert_eq!(
        slug_from_remote_url("github-maestro:ESievierin/maestro-ide.git").as_deref(),
        Some("ESievierin/maestro-ide")
    );
    assert_eq!(
        slug_from_remote_url("https://github.com/owner/repo").as_deref(),
        Some("owner/repo")
    );
    assert_eq!(
        slug_from_remote_url("ssh://git@github.com/owner/repo.git").as_deref(),
        Some("owner/repo")
    );
    assert_eq!(slug_from_remote_url("not-a-remote"), None);
}

#[test]
fn the_slug_comes_from_the_setting_or_the_remote() {
    let url = || RepoOrigin::Url("git@github.com:owner/repo.git".into());
    assert_eq!(resolve_slug(Some("a/b"), url()).unwrap(), "a/b");
    assert_eq!(resolve_slug(None, url()).unwrap(), "owner/repo");
    assert_eq!(resolve_slug(Some(" "), url()).unwrap(), "owner/repo");
    match resolve_slug(None, RepoOrigin::NoRepository) {
        Err(MaestroError::Config { message }) => assert!(message.contains("no repository")),
        other => panic!("unexpected answer: {other:?}"),
    }
    assert!(resolve_slug(None, RepoOrigin::Url("nonsense".into())).is_err());
}

#[test]
fn pulls_and_comments_are_read_from_the_api() {
    let pulls = parse_pulls(
        r#"[{"number": 7, "title": "T", "body": null, "user": {"login": "u"},
             "head": {"ref": "impl/x", "sha": "abc"}, "html_url": "https://x",
             "requested_reviewers": [{"login": "me"}], "labels": [{"name": "wip"}]}]"#,
    )
    .expect("parses");
    assert_eq!(pulls.len(), 1);
    assert_eq!(pulls[0].number, 7);
    assert_eq!(pulls[0].head_ref, "impl/x");
    assert_eq!(pulls[0].head_sha, "abc");
    assert_eq!(pulls[0].requested_reviewers, ["me"]);
    assert_eq!(pulls[0].labels, ["wip"]);
    assert_eq!(pulls[0].body, "");

    let comments = parse_comments(
        r#"[{"id": 5, "body": "b", "user": {"login": "u"}, "path": "a.rs",
             "html_url": "https://c", "pull_request_review_id": 9}]"#,
    )
    .expect("parses");
    assert_eq!(comments[0].id, 5);
    assert_eq!(comments[0].path.as_deref(), Some("a.rs"));
    assert_eq!(comments[0].review_id, Some(9));

    match parse_pulls("{}") {
        Err(MaestroError::Config { .. }) | Err(MaestroError::InvalidData { .. }) => {}
        other => panic!("unexpected answer: {other:?}"),
    }
}

#[test]
fn a_token_is_trimmed_and_must_be_there() {
    assert_eq!(GhCli::token("tok\n", "me").unwrap(), "tok");
    assert!(GhCli::token("  \n", "me").is_err());
}

#[test]
fn jql_is_percent_encoded() {
    assert_eq!(urlencode("a = b"), "a%20%3D%20b");
    assert_eq!(urlencode("safe-chars_only.~"), "safe-chars_only.~");
    assert_eq!(urlencode("é"), "%C3%A9");
}

#[test]
fn jira_needs_all_three_settings_and_reads_its_issues() {
    assert!(jira_config(Some("https://x"), Some("me"), None, None).is_none());
    assert!(jira_config(Some("https://x"), Some("  "), Some("t"), None).is_none());
    let config = jira_config(Some("https://x/"), Some("me@x"), Some("t\"k"), None).unwrap();
    assert!(JiraCli::search_url(&config).starts_with("https://x/rest/api/2/search?maxResults=50"));
    assert_eq!(JiraCli::credentials_line(&config), "user = \"me@x:tk\"\n");
    let issues = JiraCli::my_issues(
        &config,
        r#"{"issues": [{"key": "AB-1", "fields": {"summary": "S", "description": "D"}}]}"#,
    )
    .expect("parses");
    assert_eq!(issues.len(), 1);
    assert_eq!(issues[0].key, "AB-1");
    assert_eq!(
        JiraCli::request_failed("", "curl: down").message(),
        "Jira request failed: curl: down"
    );
}
