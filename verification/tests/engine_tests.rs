use review_helper::context::{Author, ProjectContext, ShowMethod, Task};
use review_helper::ledger::{FileNotesStorage, LedgerError};
use review_helper::notes::{extract_excerpt, TaskNode};
use review_helper::review::{Review, StepOutcome};

fn code_lines() -> Vec<String> {
    ["a", "b", "c", "d"].iter().map(|s| s.to_string()).collect()
}

fn fresh_context() -> ProjectContext {
    let bank: FileNotesStorage<TaskNode, TaskNode> =
        FileNotesStorage::new("notes/t1.txt".to_string(), "").unwrap();
    let task = Task::new(
        "t1".to_string(),
        "main.cpp".to_string(),
        ShowMethod::Console,
        bank,
    );
    let author = Author::new("Alice Doe".to_string(), "@alice".to_string());
    ProjectContext::new(author, vec![task], ".".to_string(), "config.json".to_string())
}

fn fresh_review() -> Review {
    let mut ctx = fresh_context();
    ctx.switch_to_task("t1").unwrap();
    let mut review = Review::new(ctx, "reviews/t1.txt".to_string()).unwrap();
    // The first step leaves Start and only prints the banner.
    let out = review.step(Some(""), None);
    assert!(matches!(out, StepOutcome::Started));
    review
}

#[test]
fn excerpt_extraction_formats_numbered_lines() {
    let lines = code_lines();
    assert_eq!(extract_excerpt(&lines, 2, 3), "   2: b\n   3: c");
}

#[test]
fn excerpt_extraction_edges() {
    let lines = code_lines();
    assert_eq!(extract_excerpt(&lines, 1, 1), "   1: a");
    // A range past the end stops at the last line.
    assert_eq!(extract_excerpt(&lines, 3, 9), "   3: c\n   4: d");
    // A range starting past the end selects nothing.
    assert_eq!(extract_excerpt(&lines, 9, 9), "");
}

#[test]
fn new_command_adds_bank_note() {
    let mut review = fresh_review();
    let out = review.step(Some("new hello world"), None);
    assert!(matches!(out, StepOutcome::BankUpdated));
    assert_eq!(review.task.notes.necessary_notes.len(), 1);
    assert_eq!(review.task.notes.necessary_notes[0].text, "hello world");
    assert_eq!(review.task.notes.optional_notes.len(), 0);
}

#[test]
fn new_optional_command_adds_optional_bank_note() {
    let mut review = fresh_review();
    let out = review.step(Some("new optional side note"), None);
    assert!(matches!(out, StepOutcome::BankUpdated));
    assert_eq!(review.task.notes.optional_notes.len(), 1);
    assert_eq!(review.task.notes.optional_notes[0].text, "side note");
    assert_eq!(review.task.notes.necessary_notes.len(), 0);
}

#[test]
fn new_command_joins_tokens_with_single_spaces() {
    let mut review = fresh_review();
    review.step(Some("new   spaced \t out  text"), None);
    assert_eq!(review.task.notes.necessary_notes[0].text, "spaced out text");
}

#[test]
fn short_aliases_work() {
    let mut review = fresh_review();
    assert!(matches!(review.step(Some("n o quick"), None), StepOutcome::BankUpdated));
    assert_eq!(review.task.notes.optional_notes[0].text, "quick");
    assert!(matches!(review.step(Some("a 0"), None), StepOutcome::Rejected(_)));
    assert!(matches!(review.step(Some("s"), None), StepOutcome::ShowRequested));
    assert!(matches!(review.step(Some("d"), None), StepOutcome::CuratedUpdated));
    assert!(matches!(review.step(Some("c"), None), StepOutcome::Completed));
    assert!(review.is_finished());
}

#[test]
fn add_command_promotes_bank_note() {
    let mut review = fresh_review();
    review.step(Some("new hello world"), None);
    let out = review.step(Some("add 0"), None);
    assert!(matches!(out, StepOutcome::CuratedUpdated));
    assert_eq!(review.current_notes.necessary_notes.len(), 1);
    assert_eq!(review.current_notes.necessary_notes[0].text, "hello world");
    assert!(review.current_notes.necessary_notes[0].references.is_empty());
}

#[test]
fn add_reference_attaches_excerpt() {
    let sep = "\n--------------------------------------------------\n";
    let mut review = fresh_review();
    review.step(Some("new hello world"), None);
    let lines = code_lines();
    let out = review.step(Some("add reference 2 3 0"), Some(&lines));
    assert!(matches!(out, StepOutcome::CuratedUpdated));
    let rendered = review.current_notes.render();
    assert_eq!(
        rendered,
        format!("Necessary:\n0) hello world{}   2: b\n   3: c{}\n", sep, sep)
    );
}

#[test]
fn add_optional_goes_to_optional_list() {
    let mut review = fresh_review();
    review.step(Some("new optional side note"), None);
    let out = review.step(Some("add optional 0"), None);
    assert!(matches!(out, StepOutcome::CuratedUpdated));
    assert_eq!(review.current_notes.optional_notes.len(), 1);
    assert_eq!(review.current_notes.optional_notes[0].text, "side note");
}

#[test]
fn add_with_unknown_index_is_rejected() {
    let mut review = fresh_review();
    match review.step(Some("add 0"), None) {
        StepOutcome::Rejected(msg) => assert_eq!(msg, "Note not found"),
        _ => panic!("expected a rejected command"),
    }
}

#[test]
fn add_with_bad_number_is_rejected() {
    let mut review = fresh_review();
    match review.step(Some("add zero"), None) {
        StepOutcome::Rejected(msg) => assert_eq!(msg, "Incorrect number of note"),
        _ => panic!("expected a rejected command"),
    }
    match review.step(Some("add"), None) {
        StepOutcome::Rejected(msg) => assert_eq!(msg, "No text in note"),
        _ => panic!("expected a rejected command"),
    }
}

#[test]
fn add_reference_without_readable_file_is_rejected() {
    let mut review = fresh_review();
    review.step(Some("new hello"), None);
    match review.step(Some("add reference 2 3 0"), None) {
        StepOutcome::Rejected(msg) => assert_eq!(msg, "Can't open file with code"),
        _ => panic!("expected a rejected command"),
    }
}

#[test]
fn add_reference_with_zero_start_is_rejected() {
    let mut review = fresh_review();
    review.step(Some("new hello"), None);
    let lines = code_lines();
    match review.step(Some("add reference 0 2 0"), Some(&lines)) {
        StepOutcome::Rejected(msg) => assert_eq!(msg, "Incorrect reference range"),
        _ => panic!("expected a rejected command"),
    }
}

#[test]
fn add_reference_with_missing_numbers_is_rejected() {
    let mut review = fresh_review();
    match review.step(Some("add reference"), None) {
        StepOutcome::Rejected(msg) => assert_eq!(msg, "No first number in reference"),
        _ => panic!("expected a rejected command"),
    }
    match review.step(Some("add reference 2"), None) {
        StepOutcome::Rejected(msg) => assert_eq!(msg, "No second number in reference"),
        _ => panic!("expected a rejected command"),
    }
    match review.step(Some("add reference x 3 0"), None) {
        StepOutcome::Rejected(msg) => assert_eq!(msg, "Incorrect first number in reference"),
        _ => panic!("expected a rejected command"),
    }
    match review.step(Some("add reference 2 y 0"), None) {
        StepOutcome::Rejected(msg) => assert_eq!(msg, "Incorrect second number in reference"),
        _ => panic!("expected a rejected command"),
    }
}

#[test]
fn new_with_reference_modifier_is_rejected() {
    let mut review = fresh_review();
    match review.step(Some("new reference 1 2 text"), None) {
        StepOutcome::Rejected(msg) => assert_eq!(msg, "Incorrect note type"),
        _ => panic!("expected a rejected command"),
    }
}

#[test]
fn new_without_text_is_rejected() {
    let mut review = fresh_review();
    match review.step(Some("new"), None) {
        StepOutcome::Rejected(msg) => assert_eq!(msg, "No text in note"),
        _ => panic!("expected a rejected command"),
    }
    match review.step(Some("new optional"), None) {
        StepOutcome::Rejected(msg) => assert_eq!(msg, "No text in note"),
        _ => panic!("expected a rejected command"),
    }
}

#[test]
fn drop_clears_curated_ledger() {
    let mut review = fresh_review();
    review.step(Some("new hello"), None);
    review.step(Some("add 0"), None);
    assert_eq!(review.current_notes.necessary_notes.len(), 1);
    let out = review.step(Some("drop"), None);
    assert!(matches!(out, StepOutcome::CuratedUpdated));
    assert_eq!(review.current_notes.necessary_notes.len(), 0);
    assert_eq!(review.current_notes.render(), "");
}

#[test]
fn bogus_command_changes_nothing() {
    let mut review = fresh_review();
    let out = review.step(Some("bogus"), None);
    match out {
        StepOutcome::Rejected(msg) => assert_eq!(msg, "Unknown action"),
        _ => panic!("expected a rejected command"),
    }
    assert!(!review.is_finished());
    assert_eq!(review.task.notes.necessary_notes.len(), 0);
    assert_eq!(review.current_notes.necessary_notes.len(), 0);
}

#[test]
fn empty_line_is_unknown_action() {
    let mut review = fresh_review();
    match review.step(Some(""), None) {
        StepOutcome::Rejected(msg) => assert_eq!(msg, "Unknown action"),
        _ => panic!("expected a rejected command"),
    }
}

#[test]
fn failed_read_is_reported_and_non_fatal() {
    let mut review = fresh_review();
    match review.step(None, None) {
        StepOutcome::Rejected(msg) => assert_eq!(msg, "Reading line fail"),
        _ => panic!("expected a rejected command"),
    }
    assert!(!review.is_finished());
}

#[test]
fn complete_finishes_session() {
    let mut review = fresh_review();
    assert!(!review.is_finished());
    let out = review.step(Some("complete"), None);
    assert!(matches!(out, StepOutcome::Completed));
    assert!(review.is_finished());
}

#[test]
fn show_renders_author_line_and_report() {
    let mut review = fresh_review();
    review.step(Some("new hello world"), None);
    review.step(Some("add 0"), None);
    let out = review.step(Some("show"), None);
    assert!(matches!(out, StepOutcome::ShowRequested));
    let plus = "+".repeat(50);
    assert_eq!(
        review.show_text(),
        format!("Author: Alice Doe(tg: @alice)\n{}\nNecessary:\n0) hello world\n", plus)
    );
}

#[test]
fn switch_to_unknown_task_fails() {
    let mut ctx = fresh_context();
    assert_eq!(ctx.switch_to_task("missing").unwrap_err(), LedgerError::NotFound);
    assert!(ctx.check_task("missing").is_err());
    assert!(ctx.check_task("t1").is_ok());
}

#[test]
fn review_without_selected_task_fails() {
    let ctx = fresh_context();
    assert_eq!(
        Review::new(ctx, "reviews/t1.txt".to_string()).unwrap_err(),
        LedgerError::NotFound
    );
}

#[test]
fn task_find_note_respects_the_two_lists() {
    let mut ctx = fresh_context();
    ctx.switch_to_task("t1").unwrap();
    let task = &mut ctx.tasks[0];
    task.add_note("needed".to_string(), false);
    task.add_note("maybe".to_string(), true);
    assert_eq!(task.find_note(0, false).unwrap().text, "needed");
    assert_eq!(task.find_note(0, true).unwrap().text, "maybe");
    assert_eq!(task.find_note(1, false).unwrap_err(), LedgerError::NotFound);
}
