//! The rules that gate shell commands.
use maestro_core::gate::rules::{
    count_flag_detail, splice, split_commands, Edit, FlagName, GateMatch, GateParam, GateRule,
    GhPrCreateRule, GitCommitRule, GitPushRule,
};
use maestro_core::gate::shell::{sh_quote, tokenize, unwrap_heredoc, Token};
use maestro_core::json::{Json, Member};

const BASH_TOOL: &str = "Bash";

fn text(key: &str, value: &str) -> Member {
    Member { key: key.to_string(), value: Json::Text(value.to_string()) }
}

fn bash(command: &str) -> Json {
    Json::Object(vec![text("command", command), text("description", "test")])
}

fn words(tokens: &[Token]) -> Vec<String> {
    tokens.iter().map(|t| t.text.clone()).collect()
}

fn param(key: &str, label: &str, value: &str, multiline: bool) -> GateParam {
    GateParam {
        key: key.to_string(),
        label: label.to_string(),
        value: value.to_string(),
        multiline,
    }
}

fn command_in(args: &Json) -> String {
    args.get("command").and_then(|c| c.as_str()).unwrap().to_string()
}

/// The bytes `start..end` of a text.
fn slice(s: &str, start: usize, end: usize) -> &str {
    &s[start..end]
}

// ---------- tokenizer ----------

#[test]
fn tokenize_plain_words() {
    let tokens = tokenize("git push origin main");
    assert_eq!(words(&tokens), ["git", "push", "origin", "main"]);
    assert!(tokens.iter().all(|t| !t.is_separator));
}

#[test]
fn tokenize_resolves_quotes() {
    let tokens = tokenize(r#"git commit -m "hello world" -t 'single quoted'"#);
    assert_eq!(words(&tokens), ["git", "commit", "-m", "hello world", "-t", "single quoted"]);
}

#[test]
fn tokenize_escaped_quotes_in_double_quotes() {
    let tokens = tokenize(r#"--title "A \"quoted\" title""#);
    assert_eq!(words(&tokens), ["--title", r#"A "quoted" title"#]);
}

#[test]
fn tokenize_marks_separators() {
    let tokens = tokenize("cd x && git push; echo hi | cat");
    let seps: Vec<&str> =
        tokens.iter().filter(|t| t.is_separator).map(|t| t.text.as_str()).collect();
    assert_eq!(seps, ["&&", ";", "|"]);
    let segments = split_commands(&tokens);
    assert_eq!(segments.len(), 4);
    assert_eq!(segments[1][0].text, "git");
}

#[test]
fn tokenize_spans_cover_raw_tokens() {
    let command = r#"git commit -m "hello world""#;
    let tokens = tokenize(command);
    let msg = tokens.last().unwrap();
    assert_eq!(slice(command, msg.start, msg.end), r#""hello world""#);
    let git = &tokens[0];
    assert_eq!(slice(command, git.start, git.end), "git");
}

#[test]
fn tokenize_keeps_substitution_with_heredoc_as_one_token() {
    let command =
        "git commit -m \"$(cat <<'EOF'\nLine one.\n\nLine (two) with \"quotes\".\nEOF\n)\"";
    let tokens = tokenize(command);
    assert_eq!(tokens.len(), 4);
    let msg = &tokens[3];
    assert!(msg.text.starts_with("$(cat <<'EOF'"));
    assert!(msg.text.ends_with(')'));
    assert_eq!(slice(command, msg.start, msg.end), &command[14..]);
}

#[test]
fn tokenize_handles_plain_substitution() {
    let tokens = tokenize("echo $(git rev-parse HEAD) done");
    assert_eq!(words(&tokens), ["echo", "$(git rev-parse HEAD)", "done"]);
}

#[test]
fn token_spans_count_bytes() {
    let command = "echo 'жёлтый' | cat €🦀";
    let tokens = tokenize(command);
    assert_eq!(words(&tokens), ["echo", "жёлтый", "|", "cat", "€🦀"]);
    let spans: Vec<(usize, usize)> = tokens.iter().map(|t| (t.start, t.end)).collect();
    assert_eq!(spans, [(0, 4), (5, 19), (20, 21), (22, 25), (26, 33)]);
    assert_eq!(slice(command, tokens[1].start, tokens[1].end), "'жёлтый'");
    assert_eq!(slice(command, tokens[4].start, tokens[4].end), "€🦀");
}

#[test]
fn a_flag_stands_at_its_bytes() {
    let message = FlagName { long: "--message", short: "-m", cluster: true };
    let command = "git -C /tmp/é commit --message='größe' --amend";
    let tokens = tokenize(command);
    let (count, hit, _) = count_flag_detail(&tokens, &message);
    assert_eq!(count, 1);
    let hit = hit.unwrap();
    assert_eq!(hit.value, "größe");
    assert_eq!((hit.start, hit.end), (22, 41));
    assert_eq!(slice(command, hit.start, hit.end), "--message='größe'");
}

#[test]
fn an_edit_replaces_bytes() {
    let edits = vec![
        Edit { start: 3, end: 5, text: "e".to_string() },
        Edit { start: 9, end: 13, text: "krab".to_string() },
    ];
    assert_eq!(splice("aéé €🦀.", edits), "aée €krab.");
    let edits = vec![Edit { start: 3, end: 3, text: "-".to_string() }];
    assert_eq!(splice("aéé", edits), "aé-é");
}

#[test]
fn a_message_behind_other_letters_is_edited_in_its_place() {
    let args = bash("git -C /tmp/größe commit -m 'änderung eins' --amend");
    let edited = vec![param("message", "Message", "änderung zwei €", true)];
    let command = command_in(&GitCommitRule.apply(&args, &edited));
    assert_eq!(command, "git -C /tmp/größe commit -m 'änderung zwei €' --amend");
}

// ---------- quoting / heredoc helpers ----------

#[test]
fn sh_quote_passes_plain_words_through() {
    assert_eq!(sh_quote("origin/main"), "origin/main");
    assert_eq!(sh_quote("v1.2.3"), "v1.2.3");
}

#[test]
fn sh_quote_wraps_and_escapes() {
    assert_eq!(sh_quote("two words"), "'two words'");
    assert_eq!(sh_quote("it's done"), r"'it'\''s done'");
    assert_eq!(sh_quote(""), "''");
    assert_eq!(sh_quote("a\"b"), "'a\"b'");
}

#[test]
fn unwrap_heredoc_variants() {
    let quoted = "$(cat <<'EOF'\nHello\nworld\nEOF\n)";
    assert_eq!(unwrap_heredoc(quoted).as_deref(), Some("Hello\nworld"));

    let unquoted = "$(cat <<EOF\nsingle line\nEOF\n)";
    assert_eq!(unwrap_heredoc(unquoted).as_deref(), Some("single line"));

    let dashed = "$(cat <<-'MSG'\nbody\nMSG\n)";
    assert_eq!(unwrap_heredoc(dashed).as_deref(), Some("body"));

    let with_quotes = "$(cat <<'EOF'\nHe said \"hi\" and 'bye'.\nEOF\n)";
    assert_eq!(unwrap_heredoc(with_quotes).as_deref(), Some("He said \"hi\" and 'bye'."));

    assert_eq!(unwrap_heredoc("plain text"), None);
    assert_eq!(unwrap_heredoc("$(git rev-parse HEAD)"), None);
}

#[test]
fn a_quoted_value_is_one_word_again() {
    for value in ["", "plain", "two words", "it's", "a\"b", "$(rm)", "a\nb", "' '", "x;y", "\\"] {
        let tokens = tokenize(&sh_quote(value));
        assert_eq!(words(&tokens), [value], "{value:?}");
        assert!(!tokens[0].is_separator);
    }
}

// ---------- git push rule ----------

#[test]
fn git_push_matches_variants() {
    let rule = GitPushRule;
    for command in [
        "git push",
        "git push origin main",
        "git push --force-with-lease",
        "git -C ../elsewhere push",
        "cd repo && git push",
        "git add -A; git commit -m x; git push",
        "git push | tee log.txt",
    ] {
        let m = rule.matches(BASH_TOOL, &bash(command));
        assert!(m.is_some(), "should match: {command}");
        assert_eq!(m.unwrap().kind, "git push");
    }
}

#[test]
fn git_push_ignores_non_push() {
    let rule = GitPushRule;
    for command in [
        "git pull",
        "git status",
        "echo git push",
        "echo \"git push\"",
        "cargo build",
        "git commit -m 'do not push yet'",
    ] {
        assert!(
            rule.matches(BASH_TOOL, &bash(command)).is_none(),
            "should not match: {command}"
        );
    }
}

#[test]
fn git_push_has_no_editable_params_and_identity_apply() {
    let rule = GitPushRule;
    let args = bash("git push origin main");
    let m = rule.matches(BASH_TOOL, &args).unwrap();
    assert!(m.params.is_empty());
    assert_eq!(format!("{:?}", rule.apply(&args, &Vec::new())), format!("{args:?}"));
}

#[test]
fn rules_ignore_other_tools() {
    let args = Json::Object(vec![text("command", "git push")]);
    assert!(GitPushRule.matches("Read", &args).is_none());
    assert!(GhPrCreateRule.matches("Write", &args).is_none());
    assert!(GitCommitRule.matches("Grep", &args).is_none());
}

// ---------- gh pr create rule ----------

fn pr_params(command: &str) -> (String, String) {
    let m: GateMatch = GhPrCreateRule
        .matches(BASH_TOOL, &bash(command))
        .unwrap_or_else(|| panic!("should match: {command}"));
    assert_eq!(m.kind, "PR creation");
    let title = m.params.iter().find(|p| p.key == "title").unwrap();
    let body = m.params.iter().find(|p| p.key == "body").unwrap();
    assert!(!title.multiline);
    assert!(body.multiline);
    (title.value.clone(), body.value.clone())
}

#[test]
fn pr_create_extracts_quoted_title_and_body() {
    let (title, body) =
        pr_params(r#"gh pr create --title "A \"quoted\" title" --body 'multi word'"#);
    assert_eq!(title, r#"A "quoted" title"#);
    assert_eq!(body, "multi word");
}

#[test]
fn pr_create_supports_equals_and_short_flags() {
    let (title, body) = pr_params(r#"gh pr create --title="T one" -b "B one""#);
    assert_eq!(title, "T one");
    assert_eq!(body, "B one");

    let (title, body) = pr_params("gh pr create -t short -b=inline");
    assert_eq!(title, "short");
    assert_eq!(body, "inline");
}

#[test]
fn pr_create_unwraps_heredoc_body() {
    let command =
        "gh pr create --title \"T7 gate\" --body \"$(cat <<'EOF'\n## Summary\n- gate\nEOF\n)\"";
    let (title, body) = pr_params(command);
    assert_eq!(title, "T7 gate");
    assert_eq!(body, "## Summary\n- gate");
}

#[test]
fn pr_create_fill_is_gated_but_not_editable() {
    let m = GhPrCreateRule
        .matches(BASH_TOOL, &bash("gh pr create --fill"))
        .expect("should gate");
    assert!(m.params.is_empty(), "no editable params for --fill");
    assert!(m.note.is_some(), "the dialog explains why");
}

#[test]
fn pr_create_bare_command_offers_empty_editable_params() {
    let (title, body) = pr_params("gh pr create");
    assert_eq!(title, "");
    assert_eq!(body, "");
}

#[test]
fn line_continuations_still_match() {
    for command in [
        "git push \\\n  --force-with-lease origin HEAD",
        "git \\\n  push origin main",
        "git \\\r\n  push origin main",
    ] {
        assert!(
            GitPushRule.matches(BASH_TOOL, &bash(command)).is_some(),
            "must gate: {command:?}"
        );
    }
}

#[test]
fn wrapped_invocations_are_gated() {
    for command in [
        "sh -c \"git push origin main\"",
        "bash -c 'git push'",
        "eval \"git push\"",
        "command git push",
        "env git push",
        "time git push",
        "/usr/bin/git push",
        "(git push)",
        "{ git push; }",
        "$(git push)",
        "if true; then git push; fi",
    ] {
        assert!(
            GitPushRule.matches(BASH_TOOL, &bash(command)).is_some(),
            "must gate: {command}"
        );
    }
    let m = GhPrCreateRule
        .matches(BASH_TOOL, &bash("sh -c \"gh pr create -t A -b B\""))
        .expect("nested pr create must gate");
    assert!(m.params.is_empty());
    assert!(m.note.is_some());
}

#[test]
fn unrelated_git_commands_do_not_match() {
    for command in ["git status", "git log --oneline", "gh pr view 3", "ls -la"] {
        assert!(
            GitPushRule.matches(BASH_TOOL, &bash(command)).is_none(),
            "must not gate: {command}"
        );
        assert!(
            GhPrCreateRule.matches(BASH_TOOL, &bash(command)).is_none(),
            "must not gate: {command}"
        );
    }
}

#[test]
fn ambiguous_commands_are_not_editable() {
    let repeated = GhPrCreateRule
        .matches(BASH_TOOL, &bash("gh pr create --title A --body B --title EVIL"))
        .expect("must gate");
    assert!(repeated.params.is_empty(), "repeated --title is ambiguous");
    assert!(repeated.note.is_some());

    let two_prs = GhPrCreateRule
        .matches(BASH_TOOL, &bash("gh pr create -t A -b B; gh pr create -t C -b D"))
        .expect("must gate");
    assert!(two_prs.params.is_empty());

    let two_commits = GitCommitRule
        .matches(BASH_TOOL, &bash("git commit -m \"a\" && git commit -m \"b\""))
        .expect("must gate");
    assert!(two_commits.params.is_empty(), "two commits are ambiguous");
    assert!(two_commits.note.as_deref().is_some_and(|n| n.contains("2")));
}

#[test]
fn external_message_sources_are_not_editable() {
    for (rule_kind, command) in [
        ("commit", "git commit -F msg.txt"),
        ("commit", "git commit --file=msg.txt"),
    ] {
        let m = GitCommitRule
            .matches(BASH_TOOL, &bash(command))
            .unwrap_or_else(|| panic!("must gate: {command}"));
        assert_eq!(m.kind, rule_kind);
        assert!(m.params.is_empty(), "not editable: {command}");
        assert!(m.note.is_some(), "note explains why: {command}");
    }
    let pr = GhPrCreateRule
        .matches(BASH_TOOL, &bash("gh pr create -t A --body-file b.md"))
        .expect("must gate");
    assert!(pr.params.is_empty());
}

#[test]
fn dangling_and_ambiguous_flags_are_handled() {
    let ambiguous = GhPrCreateRule
        .matches(BASH_TOOL, &bash("gh pr create --title --body B"))
        .expect("must gate");
    assert!(ambiguous.params.is_empty());
    assert!(ambiguous.note.is_some());

    let m = GitCommitRule.matches(BASH_TOOL, &bash("git commit -m")).expect("must gate");
    assert!(m.params.iter().all(|p| p.value.is_empty()));
}

#[test]
fn pr_create_ignores_other_gh_commands() {
    for command in ["gh pr view", "gh pr list", "gh issue create", "gh repo clone x"] {
        assert!(
            GhPrCreateRule.matches(BASH_TOOL, &bash(command)).is_none(),
            "should not match: {command}"
        );
    }
}

#[test]
fn pr_create_apply_round_trips_edited_values() {
    let rule = GhPrCreateRule;
    let args = bash(r#"gh pr create --title "old title" --body "old body" --draft"#);
    let edited = vec![
        param("title", "Title", "new \"final\" title", false),
        param("body", "Body", "line one\nline two", true),
    ];
    let updated = rule.apply(&args, &edited);
    let command = command_in(&updated);
    assert!(command.contains("--draft"), "unrelated flags kept: {command}");

    let (title, body) = pr_params(&command);
    assert_eq!(title, "new \"final\" title");
    assert_eq!(body, "line one\nline two");
    assert_eq!(updated.get("description").unwrap().as_str(), Some("test"));
}

#[test]
fn pr_create_apply_rebuilds_heredoc_body_as_quoted_value() {
    let rule = GhPrCreateRule;
    let args = bash("gh pr create -t old --body \"$(cat <<'EOF'\nold body\nEOF\n)\" --base main");
    let edited = vec![
        param("title", "Title", "new title", false),
        param("body", "Body", "approved body\nwith 'quotes'", true),
    ];
    let updated = rule.apply(&args, &edited);
    let command = command_in(&updated);
    assert!(command.contains("--base main"));
    assert!(!command.contains("cat <<"), "heredoc replaced: {command}");

    let (title, body) = pr_params(&command);
    assert_eq!(title, "new title");
    assert_eq!(body, "approved body\nwith 'quotes'");
}

#[test]
fn pr_create_apply_appends_missing_flags() {
    let rule = GhPrCreateRule;
    let args = bash("gh pr create --draft");
    let edited = vec![
        param("title", "Title", "added title", false),
        param("body", "Body", "", true),
    ];
    let updated = rule.apply(&args, &edited);
    let (title, body) = pr_params(&command_in(&updated));
    assert_eq!(title, "added title");
    assert_eq!(body, "", "empty edit is not appended");
}

#[test]
fn pr_create_apply_only_touches_the_pr_segment() {
    let rule = GhPrCreateRule;
    let args = bash(r#"git push -u origin HEAD && gh pr create --title old --body b"#);
    let edited = vec![
        param("title", "Title", "new", false),
        param("body", "Body", "b", true),
    ];
    let updated = rule.apply(&args, &edited);
    let command = command_in(&updated);
    assert!(command.starts_with("git push -u origin HEAD && "));
    let (title, _) = pr_params(&command);
    assert_eq!(title, "new");
}

// ---------- git commit rule ----------

fn commit_message(command: &str) -> String {
    let m = GitCommitRule
        .matches(BASH_TOOL, &bash(command))
        .unwrap_or_else(|| panic!("should match: {command}"));
    assert_eq!(m.kind, "commit");
    m.params[0].value.clone()
}

#[test]
fn commit_extracts_message_variants() {
    assert_eq!(commit_message(r#"git commit -m "fix: bug""#), "fix: bug");
    assert_eq!(commit_message("git commit --message='the fix'"), "the fix");
    assert_eq!(commit_message("git commit -am 'all in'"), "all in");
    assert_eq!(commit_message(r#"git commit -m"attached""#), "attached");
    assert_eq!(commit_message("git commit"), "");
}

#[test]
fn commit_unwraps_heredoc_message() {
    let command = "git commit -m \"$(cat <<'EOF'\nT7: gate registry\n\nDetails here.\nEOF\n)\"";
    assert_eq!(commit_message(command), "T7: gate registry\n\nDetails here.");
}

#[test]
fn commit_does_not_match_other_git_commands() {
    for command in ["git push", "git status", "npm run commitlint"] {
        assert!(
            GitCommitRule.matches(BASH_TOOL, &bash(command)).is_none(),
            "should not match: {command}"
        );
    }
}

#[test]
fn commit_apply_round_trips_with_quotes_inside_message() {
    let rule = GitCommitRule;
    let args = bash(r#"git add -A && git commit -m "old message" && echo done"#);
    let edited = vec![param("message", "Commit message", "T7: it's \"done\"", true)];
    let updated = rule.apply(&args, &edited);
    let command = command_in(&updated);
    assert!(command.starts_with("git add -A && "));
    assert!(command.ends_with(" && echo done"));
    assert_eq!(commit_message(&command), "T7: it's \"done\"");
}

#[test]
fn commit_apply_replaces_heredoc_message() {
    let rule = GitCommitRule;
    let args = bash("git commit -m \"$(cat <<'EOF'\nold\nEOF\n)\" --no-verify");
    let edited = vec![param("message", "Commit message", "approved", true)];
    let updated = rule.apply(&args, &edited);
    assert_eq!(command_in(&updated), "git commit -m approved --no-verify");
}

#[test]
fn commit_apply_appends_message_when_absent() {
    let rule = GitCommitRule;
    let args = bash("git commit");
    let edited = vec![param("message", "Commit message", "typed in", true)];
    let updated = rule.apply(&args, &edited);
    assert_eq!(command_in(&updated), "git commit --message 'typed in'");
}

// ---------- what a gate sees ----------

#[test]
fn a_command_handed_to_shells_is_seen_to_a_depth() {
    let mut command = "git push origin main".to_string();
    for shell in ["sh", "bash", "zsh"] {
        command = format!("{shell} -c {}", sh_quote(&command));
        let m = GitPushRule.matches(BASH_TOOL, &bash(&command));
        assert!(m.is_some(), "must gate: {command}");
    }
    let deeper = format!("ksh -c {}", sh_quote(&command));
    assert!(GitPushRule.matches(BASH_TOOL, &bash(&deeper)).is_none(), "three levels are looked at");
}

#[test]
fn commands_in_a_row_are_each_seen() {
    for operator in ["&&", "||", "|", ";", "&"] {
        for command in [
            format!("cd 'some dir' {operator} git push"),
            format!("git push {operator} cd 'some dir'"),
        ] {
            assert!(
                GitPushRule.matches(BASH_TOOL, &bash(&command)).is_some(),
                "must gate: {command}"
            );
        }
        let harmless = format!("cd 'git push' {operator} ls");
        assert!(
            GitPushRule.matches(BASH_TOOL, &bash(&harmless)).is_none(),
            "must pass: {harmless}"
        );
    }
}

#[test]
fn a_call_approved_without_edits_is_left_alone() {
    let none = Vec::new();
    for command in ["gh pr create --title 'It''s' --body x", "git commit -m 'a b' && ls"] {
        let pr = GhPrCreateRule.apply(&bash(command), &none);
        let commit = GitCommitRule.apply(&bash(command), &none);
        assert_eq!(command_in(&pr), command);
        assert_eq!(command_in(&commit), command);
    }
}

#[test]
fn commands_in_backticks_are_seen() {
    for command in [
        "`git push`",
        "echo `git push origin main`",
        "echo \"`git push`\"",
        "x && `sh -c 'git push'`",
        "$(git push)",
    ] {
        assert!(
            GitPushRule.matches(BASH_TOOL, &bash(command)).is_some(),
            "must gate: {command}"
        );
    }
    assert!(GitPushRule.matches(BASH_TOOL, &bash("echo `git status`")).is_none());
    assert!(GitPushRule.matches(BASH_TOOL, &bash("echo \\`git push\\`")).is_none());
}

#[test]
fn a_backtick_span_is_one_piece_of_a_word() {
    let tokens = tokenize("echo a`git push`b \"see `x \\` y` z\" c");
    assert_eq!(words(&tokens), ["echo", "a`git push`b", "see `x \\` y` z", "c"]);
    // An escaped backtick opens nothing, and an open one takes the rest.
    assert_eq!(words(&tokenize("a \\` b")), ["a", "`", "b"]);
    assert_eq!(words(&tokenize("a `b c")), ["a", "`b c"]);
}

#[test]
fn what_lies_between_tokens_is_blank() {
    let command = "git \t push\\\n  origin;ls 'a b' \\\r\n`c d`";
    let tokens = tokenize(command);
    let inside = |x: usize| tokens.iter().any(|t| t.start <= x && x < t.end);
    let between: String =
        command.chars().enumerate().filter(|(x, _)| !inside(*x)).map(|(_, c)| c).collect();
    assert_eq!(between.replace("\\\r\n", "").replace("\\\n", "").trim(), "");
    assert_eq!(words(&tokens), ["git", "push", "origin", ";", "ls", "a b", "`c d`"]);
}

#[test]
fn a_cluster_that_swallows_a_flag_is_ambiguous() {
    let message = FlagName { long: "--message", short: "-m", cluster: true };
    let tokens = tokenize("git commit -am --amend");
    let (count, hit, ambiguous) = count_flag_detail(&tokens, &message);
    assert_eq!(count, 1);
    assert_eq!(hit.unwrap().value, "--amend");
    assert!(ambiguous);
    let m = GitCommitRule.matches(BASH_TOOL, &bash("git commit -am --amend")).expect("must gate");
    assert!(m.params.is_empty());
    assert!(m.note.is_some());
    // A value of its own keeps the flag editable, whatever follows.
    let tokens = tokenize("git commit -mam --amend");
    let (count, hit, ambiguous) = count_flag_detail(&tokens, &message);
    assert_eq!((count, hit.unwrap().value.as_str(), ambiguous), (1, "am", false));
}
