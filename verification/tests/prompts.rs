//! Prompt templates.
use maestro_core::error::MaestroError;
use maestro_core::prompts::{
    default_names, fnv1a, load_meta, normalize, parse_template, record_of, render_body, save_meta,
    FileRead, ListedFile, PromptFile, PromptManager,
};
use maestro_core::table::Table;
use std::collections::BTreeMap;

/// A prompts directory in memory: what the files hold, and the record of defaults.
struct Dir {
    manager: PromptManager,
    files: BTreeMap<String, String>,
    meta: String,
}

fn default_text(name: &str) -> String {
    match name {
        "commit-message" => {
            "---\nname: commit-message\ndescription: Commit\nvariables: [branch]\n---\nUse the imperative mood on {{branch}}.\n".to_string()
        }
        "line-question" => {
            "---\nname: line-question\ndescription: Ask\nvariables: [question]\n---\n{{question}} on {{branch}}\n".to_string()
        }
        other => format!("---\nname: {other}\ndescription: About {other}\n---\nBody of {other}\n"),
    }
}

impl Dir {
    fn empty() -> Dir {
        let mut defaults = Table::new();
        for name in default_names() {
            defaults.insert(&name, default_text(&name));
        }
        Dir {
            manager: PromptManager::new(defaults),
            files: BTreeMap::new(),
            meta: String::new(),
        }
    }

    fn new() -> Dir {
        let mut dir = Dir::empty();
        dir.start();
        dir
    }

    fn read_file(&self, name: &str) -> FileRead {
        match self.files.get(name) {
            Some(text) => FileRead::Text(text.clone()),
            None => FileRead::NotFound { path: format!("/prompts/{name}.md") },
        }
    }

    fn record(&self) -> Table<String> {
        load_meta(if self.meta.is_empty() { None } else { Some(&self.meta) })
    }

    /// A start of the app.
    fn start(&mut self) {
        let reads: Vec<FileRead> =
            default_names().iter().map(|name| self.read_file(name)).collect();
        let plan = self.manager.sync_defaults(&reads, self.record());
        for write in plan.writes {
            self.files.insert(write.name, write.content);
        }
        if let Some(meta) = plan.meta {
            self.meta = save_meta(&meta);
        }
    }

    fn list(&self) -> Vec<PromptFile> {
        let listed: Vec<ListedFile> = self
            .files
            .keys()
            .map(|name| ListedFile { name: name.clone(), read: self.read_file(name) })
            .collect();
        self.manager.list(&listed, &self.record())
    }

    fn save(&mut self, name: &str, content: &str) -> Result<PromptFile, MaestroError> {
        let saved = self.manager.save(name, content, &self.record())?;
        self.files.insert(name.to_string(), content.to_string());
        Ok(saved)
    }

    fn reset(&mut self, name: &str) -> Result<PromptFile, MaestroError> {
        let mut meta = self.record();
        let file = self.manager.reset(name, &mut meta)?;
        self.files.insert(name.to_string(), file.content.clone());
        self.meta = save_meta(&meta);
        Ok(file)
    }

    fn delete(&mut self, name: &str) -> Result<(), MaestroError> {
        self.manager.delete(name)?;
        self.files.remove(name);
        Ok(())
    }

    fn read(&self, name: &str) -> Result<PromptFile, MaestroError> {
        self.manager.read(name, self.read_file(name), &self.record())
    }

    fn render(&self, name: &str, vars: &Table<String>) -> Result<String, MaestroError> {
        self.manager.render(name, self.read_file(name), vars)
    }
}

fn vars(pairs: &[(&str, &str)]) -> Table<String> {
    let mut table = Table::new();
    for (key, value) in pairs {
        table.insert(key, value.to_string());
    }
    table
}

#[test]
fn installs_every_default_and_lists_them() {
    let dir = Dir::new();
    let listed = dir.list();
    let names: Vec<&str> = listed.iter().map(|p| p.name.as_str()).collect();
    for expected in ["commit-message", "line-question", "pr-description", "task-notes"] {
        assert!(names.contains(&expected), "missing default: {expected}");
    }
    assert!(listed.iter().all(|p| p.has_default && !p.modified));
    assert!(
        listed.iter().all(|p| p.description.is_some()),
        "defaults carry a description"
    );
}

#[test]
fn save_marks_modified_and_reset_restores() {
    let mut dir = Dir::new();
    let edited = dir
        .save(
            "commit-message",
            "---
name: commit-message
---
Just {{branch}}
",
        )
        .expect("save");
    assert!(edited.modified, "an edited template is reported as modified");

    // The very next render uses the edit — no restart, nothing cached.
    assert_eq!(
        dir.render("commit-message", &vars(&[("branch", "impl/T-8")])).expect("render"),
        "Just impl/T-8
"
    );

    let reset = dir.reset("commit-message").expect("reset");
    assert!(!reset.modified, "reset returns to the built-in default");
    assert!(reset.content.contains("imperative mood"));
}

#[test]
fn user_templates_have_no_default_to_reset_to() {
    let mut dir = Dir::new();
    let custom = dir.save("my-own", "hello {{x}}").expect("save");
    assert!(!custom.has_default);
    assert!(!custom.modified);
    assert!(dir.reset("my-own").is_err(), "nothing to reset to");
}

#[test]
fn delete_removes_a_custom_template_and_it_stops_being_listed() {
    let mut dir = Dir::new();
    dir.save("my-own", "hello {{x}}").expect("save");
    assert!(dir.list().iter().any(|p| p.name == "my-own"));

    dir.delete("my-own").expect("delete");
    assert!(!dir.list().iter().any(|p| p.name == "my-own"));
    assert!(dir.read("my-own").is_err(), "the file is really gone");
}

#[test]
fn delete_refuses_a_template_with_a_built_in_default() {
    let mut dir = Dir::new();
    let err = dir.delete("commit-message").unwrap_err();
    assert!(err.message().contains("built-in default"), "{err:?}");
    // Refused, not just erroring cosmetically — the file must still be there.
    assert!(dir.read("commit-message").is_ok());
}

#[test]
fn template_names_cannot_escape_the_prompts_dir() {
    let mut dir = Dir::new();
    for bad in ["../evil", "sub/dir", "with space", "", "dots.."] {
        assert!(dir.save(bad, "x").is_err(), "must reject the name {bad:?}");
    }
}

#[test]
fn a_crlf_checkout_of_a_template_is_not_reported_as_edited() {
    let mut dir = Dir::new();
    let default = dir.manager.default_for("task-notes").expect("default exists").to_string();
    let crlf = default.replace('\n', "\r\n");
    let saved = dir.save("task-notes", &crlf).expect("save");
    assert!(!saved.modified);
}

#[test]
fn parses_frontmatter_and_body() {
    let raw = "---\nname: line-question\ndescription: Ask about lines\nvariables: [file, question]\n---\nHello {{file}}: {{question}}\n";
    let template = parse_template("line-question", raw);
    assert_eq!(template.description.as_deref(), Some("Ask about lines"));
    assert_eq!(template.variables, vec!["file".to_string(), "question".to_string()]);
    assert_eq!(template.body, "Hello {{file}}: {{question}}\n");
}

#[test]
fn body_without_frontmatter_is_used_verbatim() {
    let template = parse_template("plain", "just a body {{x}}");
    assert!(template.description.is_none());
    assert_eq!(template.body, "just a body {{x}}");
}

#[test]
fn unclosed_frontmatter_is_all_body() {
    let template = parse_template("plain", "---\nname: x\nno end");
    assert_eq!(template.body, "---\nname: x\nno end");
}

#[test]
fn preview_substitutes_declared_variables_with_labeled_samples() {
    let raw = "---\nname: t\nvariables: [branch, files]\n---\nOn {{branch}}:\n{{files}}\nUndeclared {{other}} stays.\n";
    let rendered = PromptManager::preview(raw);
    assert!(rendered.contains("On [sample branch]:"), "{rendered}");
    assert!(rendered.contains("[sample files]"), "{rendered}");
    // Undeclared placeholders keep their braces so the author notices them.
    assert!(rendered.contains("{{other}}"), "{rendered}");
    assert!(!rendered.contains("name: t"), "frontmatter must be stripped");
}

#[test]
fn renders_known_vars_and_passes_through_unknown() {
    let out =
        render_body("hello {{name}}, unknown {{missing}}!", &vars(&[("name", "world")]));
    assert_eq!(out, "hello world, unknown {{missing}}!");
}

#[test]
fn placeholders_are_trimmed_and_an_open_one_stays() {
    assert_eq!(render_body("a {{ x }} b", &vars(&[("x", "1")])), "a 1 b");
    assert_eq!(render_body("a {{x", &vars(&[("x", "1")])), "a {{x");
    assert_eq!(render_body("{{x}}{{x}}", &vars(&[("x", "{{y}}"), ("y", "2")])), "{{y}}{{y}}");
}

#[test]
fn defaults_install_once_and_edits_are_never_clobbered() {
    let mut dir = Dir::new();
    assert!(dir.files.contains_key("line-question"), "installed on first run");
    dir.files.insert("line-question".into(), "edited by the user".into());
    // Another start of the app must not clobber the edit.
    dir.start();
    assert_eq!(dir.files["line-question"], "edited by the user");
}

#[test]
fn a_stale_unedited_default_is_updated_on_startup() {
    let mut dir = Dir::new();
    // An older install: the file holds a previous default, and the record says exactly that
    // content was installed.
    let old_default = "the old shipped default";
    dir.files.insert("line-question".into(), old_default.into());
    let mut meta = dir.record();
    meta.insert("line-question", fnv1a(&normalize(old_default)));
    dir.meta = save_meta(&meta);

    // A restart with a newer shipped default replaces the untouched file.
    dir.start();
    assert_eq!(
        normalize(&dir.files["line-question"]),
        normalize(dir.manager.default_for("line-question").unwrap()),
        "the stale-but-unedited template caught up with the shipped default"
    );
}

#[test]
fn an_edited_template_with_a_moved_default_reports_update_available() {
    let mut dir = Dir::new();
    dir.save("line-question", "my custom question prompt").unwrap();
    let mut meta = dir.record();
    meta.insert("line-question", fnv1a("an older default"));
    dir.meta = save_meta(&meta);

    let file = dir.read("line-question").unwrap();
    assert!(file.modified);
    assert!(
        file.update_available,
        "the editor can now say: the built-in default changed since your edit"
    );

    // Reset picks up the current default and re-records it, so the flag clears.
    let reset = dir.reset("line-question").unwrap();
    assert!(!reset.modified);
    assert!(!reset.update_available);
}

#[test]
fn a_pre_hash_install_matching_the_default_is_adopted_for_updates() {
    let mut dir = Dir::new();
    dir.meta = String::new();
    dir.start();
    assert!(
        dir.record().contains_key("line-question"),
        "files still equal to the default get re-adopted into the update flow"
    );
}

#[test]
fn render_uses_the_installed_default_template() {
    let dir = Dir::new();
    let rendered = dir
        .render(
            "line-question",
            &vars(&[
                ("question", "why?"),
                ("branch", "impl/T-6-x"),
                ("file", "src/lib.rs"),
                ("line_start", "1"),
                ("line_end", "2"),
                ("hunk", "1: fn x() {}"),
                ("blame", "abc Mock commit"),
            ]),
        )
        .unwrap();
    assert!(rendered.contains("why?"));
    assert!(!rendered.contains("{{question}}"));
}

#[test]
fn a_template_that_cannot_be_read_is_an_error() {
    let dir = Dir::empty();
    match dir.render("line-question", &vars(&[])) {
        Err(MaestroError::Config { message }) => {
            assert!(message.contains("prompt template not found"), "{message}");
        }
        other => panic!("unexpected answer: {other:?}"),
    }
    let failed = FileRead::Failed { message: "denied".into() };
    match dir.manager.render("line-question", failed, &vars(&[])) {
        Err(MaestroError::Io { message }) => assert_eq!(message, "denied"),
        other => panic!("unexpected answer: {other:?}"),
    }
}

#[test]
fn the_record_survives_being_written_and_a_broken_one_is_empty() {
    let meta = vars(&[("a", "1"), ("b", "2")]);
    let text = save_meta(&meta);
    let read = load_meta(Some(&text));
    assert_eq!(read.get("a").map(|s| s.as_str()), Some("1"));
    assert_eq!(read.get("b").map(|s| s.as_str()), Some("2"));
    assert_eq!(load_meta(Some("not json")).len(), 0);
    assert_eq!(load_meta(Some("{\"a\": 1}")).len(), 0);
    assert_eq!(load_meta(None).len(), 0);
}

#[test]
fn a_record_counts_only_where_every_value_is_a_text() {
    // A key may occur twice: the last text counts, but no value may be anything else.
    let twice = load_meta(Some(r#"{"a": "1", "b": "2", "a": "3"}"#));
    assert_eq!(twice.len(), 2);
    assert_eq!(twice.get("a").map(|s| s.as_str()), Some("3"));
    assert_eq!(load_meta(Some(r#"{"a": 1, "a": "3"}"#)).len(), 0);
    assert_eq!(load_meta(Some(r#"{"a": null, "a": "3"}"#)).len(), 0);
    assert_eq!(load_meta(Some("[]")).len(), 0);

    let pairs = vec![("a".to_string(), "1".to_string()), ("a".to_string(), "2".to_string())];
    let record = record_of(&pairs);
    assert_eq!(record.len(), 1);
    assert_eq!(record.get("a").map(|s| s.as_str()), Some("2"));
}

#[test]
fn fingerprints_are_fnv1a() {
    assert_eq!(fnv1a(""), "cbf29ce484222325");
    assert_eq!(fnv1a("a"), "af63dc4c8601ec8c");
    assert_eq!(fnv1a("foobar"), "85944171f73967e8");
}

#[test]
fn a_blank_first_line_is_dropped_behind_frontmatter_only() {
    let plain = parse_template("plain", "\nhello");
    assert_eq!(plain.description, None);
    assert!(plain.variables.is_empty());
    assert_eq!(plain.body, "\nhello");
    assert_eq!(parse_template("t", "---\nname: t\n---\n\nhello").body, "hello");
    assert_eq!(parse_template("t", "---\nname: t\n---\n\n\nhello").body, "\nhello");
}

#[test]
fn a_reset_template_is_its_default_when_read_again() {
    let mut dir = Dir::new();
    dir.save("commit-message", "mine").expect("save");
    let reset = dir.reset("commit-message").expect("reset");
    assert!(reset.has_default && !reset.modified && !reset.update_available);
    assert_eq!(reset.content, default_text("commit-message"));
    let mut odd = Table::new();
    odd.insert("../escape", String::new());
    assert!(!PromptManager::named_well(&odd));
    assert!(PromptManager::named_well(&dir.manager.defaults));
}
