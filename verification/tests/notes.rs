//! Task notes.
use maestro_core::notes::{format_qa, insert_into_qa, parse_sections, NotesFile, NotesManager};
use maestro_core::prompts::FileRead;

const WELL_FORMED: &str = "\
# Task notes

## Decisions

- Chose SQLite over a file, because queries.

## Trade-offs

- No file watcher: notes refresh on read.

## Open questions

- none yet
";

fn file(read: FileRead) -> Option<NotesFile> {
    Some(NotesFile { path: "/wt/TASK_NOTES.md".into(), read, updated_at: Some(7) })
}

#[test]
fn notes_round_trip_through_a_real_worktree() {
    let notes = NotesManager::new();
    let missing = FileRead::NotFound { path: "/wt/TASK_NOTES.md".into() };
    let empty = notes.read("b", file(missing));
    assert!(!empty.exists);
    assert!(empty.unavailable.is_none());
    assert!(empty.path.unwrap().ends_with("TASK_NOTES.md"));

    let written = notes.read("b", file(FileRead::Text(WELL_FORMED.into())));
    assert!(written.exists);
    assert_eq!(written.sections.len(), 4);
    assert!(written.updated_at.is_some());
    assert!(notes.current_text("b", file(FileRead::Text(WELL_FORMED.into()))).is_some());
    assert_eq!(notes.current_text("b", file(FileRead::Text(" \n".into()))), None);
    assert_eq!(notes.write("b", true).unwrap().name(), "notes.updated");

    let updated = notes
        .append_qa(
            "b",
            file(FileRead::Text(WELL_FORMED.into())),
            "src.rs:1-2",
            "why three retries?",
            "The gateway retries twice.",
        )
        .unwrap();
    assert!(updated.contains("## Q&A"));
    assert!(updated.contains("### src.rs:1-2"));
    assert!(updated.contains("The gateway retries twice."));
    assert!(updated.contains("- Chose SQLite over a file, because queries."));
}

#[test]
fn an_unreadable_file_is_a_state_with_a_reason() {
    let notes = NotesManager::new();
    let failed = notes.read("b", file(FileRead::Failed { message: "denied".into() }));
    assert!(!failed.exists);
    assert_eq!(failed.unavailable.as_deref(), Some("TASK_NOTES.md: denied"));
}

#[test]
fn an_unknown_branch_is_unavailable_rather_than_an_error() {
    let notes = NotesManager::new();
    let notes_for_ghost = notes.read("impl/does-not-exist", None);
    assert!(!notes_for_ghost.exists);
    assert!(notes_for_ghost.unavailable.expect("a reason").contains("no worktree"));
    // Writing there is an error, because the caller asked for something impossible.
    assert!(notes.write("impl/does-not-exist", false).is_err());
    assert!(notes.append_qa("impl/does-not-exist", None, "a", "b", "c").is_err());
}

#[test]
fn a_qa_entry_creates_the_section_when_it_is_missing() {
    let updated = insert_into_qa(WELL_FORMED, &format_qa("src/a.rs:10-12", "why?", "because."));
    assert!(updated.contains("## Q&A"));
    assert!(updated.contains("### src/a.rs:10-12"));
    assert!(updated.contains("**Q:** why?"));
    assert!(updated.contains("because."));
    // The sections that were already there survive untouched.
    assert!(updated.contains("## Decisions"));
    assert!(updated.contains("- Chose SQLite over a file, because queries."));
}

#[test]
fn a_second_qa_entry_joins_the_existing_section() {
    let first = insert_into_qa(WELL_FORMED, &format_qa("src/a.rs:1-2", "q one", "a one"));
    let second = insert_into_qa(&first, &format_qa("src/b.rs:3-4", "q two", "a two"));
    assert_eq!(second.matches("## Q&A").count(), 1, "one section, two entries");
    assert!(second.find("q one").unwrap() < second.find("q two").unwrap());
    // And the Q&A section stays the last one, not spliced into another.
    let sections = parse_sections(&second);
    assert_eq!(sections.last().unwrap().title, "Q&A");
}

#[test]
fn a_qa_entry_lands_before_a_following_section() {
    let raw = "## Q&A

### old.rs:1-1

**Q:** old?

old answer

## Open questions

- none yet
";
    let updated = insert_into_qa(raw, &format_qa("new.rs:2-2", "new?", "new answer"));
    let qa_at = updated.find("new answer").expect("the new entry");
    let next_at = updated.find("## Open questions").expect("the later section");
    assert!(
        qa_at < next_at,
        "the entry belongs inside Q&A:
{updated}"
    );
    assert!(updated.contains("old answer"), "the old entry survives");
}

#[test]
fn notes_that_do_not_exist_yet_start_with_the_qa_section() {
    let updated = insert_into_qa("", &format_qa("src/a.rs:1-1", "why?", "because."));
    assert!(updated.starts_with("## Q&A"));
}

#[test]
fn parses_the_three_sections() {
    let sections = parse_sections(WELL_FORMED);
    let titles: Vec<&str> = sections.iter().map(|s| s.title.as_str()).collect();
    assert_eq!(titles, ["", "Decisions", "Trade-offs", "Open questions"]);
    assert_eq!(sections[0].body, "# Task notes");
    assert!(sections[1].body.contains("SQLite"));
    assert_eq!(sections[3].body, "- none yet");
}

#[test]
fn keeps_sections_it_did_not_expect() {
    let raw = format!("{WELL_FORMED}\n## Notes from the user\n\n- keep me\n");
    let sections = parse_sections(&raw);
    let last = sections.last().expect("a section");
    assert_eq!(last.title, "Notes from the user");
    assert_eq!(last.body, "- keep me");
}

#[test]
fn crlf_parses_like_lf() {
    let crlf = WELL_FORMED.replace('\n', "\r\n");
    assert_eq!(
        format!("{:?}", parse_sections(&crlf)),
        format!("{:?}", parse_sections(WELL_FORMED))
    );
}

#[test]
fn empty_input_has_no_sections() {
    assert!(parse_sections("").is_empty());
    assert!(parse_sections("\n\n  \n").is_empty());
}

#[test]
fn heading_without_body_is_kept() {
    let sections = parse_sections("## Decisions\n");
    assert_eq!(sections.len(), 1);
    assert_eq!(sections[0].title, "Decisions");
    assert_eq!(sections[0].body, "");
}
