use review_helper::ledger::{FileNotesStorage, LedgerError, Note};
use review_helper::notes::{ReviewNote, TaskNode};

type BankLedger = FileNotesStorage<TaskNode, TaskNode>;
type ReviewLedger = FileNotesStorage<ReviewNote, ReviewNote>;

fn bank_from(content: &str) -> Result<BankLedger, LedgerError> {
    FileNotesStorage::new("notes/t.txt".to_string(), content)
}

#[test]
fn parse_empty_content_gives_empty_ledger() {
    let ledger = bank_from("").unwrap();
    assert_eq!(ledger.necessary_notes.len(), 0);
    assert_eq!(ledger.optional_notes.len(), 0);
}

#[test]
fn render_empty_ledger_is_zero_bytes() {
    let ledger = bank_from("").unwrap();
    assert_eq!(ledger.render(), "");
}

#[test]
fn parse_simple_file() {
    let ledger = bank_from("Necessary:\n0) first\n1) second\nOptional:\n0) side\n").unwrap();
    assert_eq!(ledger.necessary_notes.len(), 2);
    assert_eq!(ledger.necessary_notes[0].text, "first");
    assert_eq!(ledger.necessary_notes[1].text, "second");
    assert_eq!(ledger.optional_notes.len(), 1);
    assert_eq!(ledger.optional_notes[0].text, "side");
}

#[test]
fn parse_requires_necessary_header_first() {
    assert_eq!(bank_from("Optional:\n0) x\n").unwrap_err(), LedgerError::Format);
    assert_eq!(bank_from("0) x\n").unwrap_err(), LedgerError::Format);
    assert_eq!(bank_from("garbage\n").unwrap_err(), LedgerError::Format);
}

#[test]
fn parse_rejects_index_hole() {
    // Indices 0,1,3 skip 2: the running count is broken.
    let content = "Necessary:\n0) a\n1) b\n3) c\n";
    assert_eq!(bank_from(content).unwrap_err(), LedgerError::Format);
}

#[test]
fn parse_rejects_wrong_start_index() {
    assert_eq!(bank_from("Necessary:\n1) a\n").unwrap_err(), LedgerError::Format);
    assert_eq!(
        bank_from("Necessary:\n0) a\nOptional:\n1) b\n").unwrap_err(),
        LedgerError::Format
    );
}

#[test]
fn optional_indices_restart_at_zero() {
    let ledger = bank_from("Necessary:\n0) a\n1) b\nOptional:\n0) c\n1) d\n").unwrap();
    assert_eq!(ledger.necessary_notes.len(), 2);
    assert_eq!(ledger.optional_notes.len(), 2);
    assert_eq!(ledger.optional_notes[1].text, "d");
}

#[test]
fn render_writes_headers_only_for_nonempty_lists() {
    let mut ledger = bank_from("").unwrap();
    ledger.add_note(TaskNode { text: "only".to_string() });
    assert_eq!(ledger.render(), "Necessary:\n0) only\n");

    let mut opt_only = bank_from("").unwrap();
    opt_only.add_optional_note(TaskNode { text: "side".to_string() });
    assert_eq!(opt_only.render(), "Optional:\n0) side\n");
}

#[test]
fn render_full_format() {
    let mut ledger = bank_from("").unwrap();
    ledger.add_note(TaskNode { text: "first".to_string() });
    ledger.add_note(TaskNode { text: "second".to_string() });
    ledger.add_optional_note(TaskNode { text: "side".to_string() });
    assert_eq!(ledger.render(), "Necessary:\n0) first\n1) second\nOptional:\n0) side\n");
}

#[test]
fn round_trip_reproduces_texts() {
    let mut ledger = bank_from("").unwrap();
    let nec = ["alpha", "beta with spaces", "gamma)with paren", "0) looks like a line"];
    let opt = ["delta", "epsilon"];
    for t in nec {
        ledger.add_note(TaskNode { text: t.to_string() });
    }
    for t in opt {
        ledger.add_optional_note(TaskNode { text: t.to_string() });
    }
    let reparsed = bank_from(&ledger.render()).unwrap();
    assert_eq!(reparsed.necessary_notes.len(), nec.len());
    assert_eq!(reparsed.optional_notes.len(), opt.len());
    for (i, t) in nec.iter().enumerate() {
        assert_eq!(&reparsed.necessary_notes[i].text, t);
    }
    for (i, t) in opt.iter().enumerate() {
        assert_eq!(&reparsed.optional_notes[i].text, t);
    }
}

#[test]
fn round_trip_many_notes_crosses_two_digit_indices() {
    let mut ledger = bank_from("").unwrap();
    for i in 0..12 {
        ledger.add_note(TaskNode { text: format!("note number {}", i) });
    }
    let reparsed = bank_from(&ledger.render()).unwrap();
    assert_eq!(reparsed.necessary_notes.len(), 12);
    assert_eq!(reparsed.necessary_notes[11].text, "note number 11");
}

#[test]
fn append_persists_at_prior_length() {
    let mut ledger = bank_from("Necessary:\n0) a\n1) b\n").unwrap();
    let prior_len = ledger.necessary_notes.len();
    ledger.add_note(TaskNode { text: "fresh".to_string() });
    let reparsed = bank_from(&ledger.render()).unwrap();
    assert_eq!(reparsed.necessary_notes.len(), prior_len + 1);
    assert_eq!(reparsed.necessary_notes[prior_len].text, "fresh");
}

#[test]
fn clear_empties_file_and_is_idempotent() {
    let mut ledger = bank_from("Necessary:\n0) a\nOptional:\n0) b\n").unwrap();
    ledger.clear();
    assert_eq!(ledger.render(), "");
    let after_once = ledger.render();
    ledger.clear();
    assert_eq!(ledger.render(), after_once);
    assert_eq!(ledger.necessary_notes.len(), 0);
    assert_eq!(ledger.optional_notes.len(), 0);
}

#[test]
fn clear_on_already_empty_ledger_keeps_file_empty() {
    let mut ledger = bank_from("").unwrap();
    ledger.clear();
    assert_eq!(ledger.render(), "");
}

#[test]
fn find_note_out_of_bounds_is_not_found() {
    let ledger = bank_from("Necessary:\n0) a\n").unwrap();
    assert!(ledger.find_note(0).is_ok());
    assert_eq!(ledger.find_note(1).unwrap_err(), LedgerError::NotFound);
    assert_eq!(ledger.find_optional_note(0).unwrap_err(), LedgerError::NotFound);
}

#[test]
fn parse_line_reads_index_and_text() {
    let (num, text) = BankLedger::parse_line("17) some text").unwrap();
    assert_eq!(num, 17);
    assert_eq!(text, "some text");
    assert!(BankLedger::parse_line("no paren here").is_none());
    assert!(BankLedger::parse_line(") text").is_none());
    assert!(BankLedger::parse_line("x7) text").is_none());
    assert!(BankLedger::parse_line("99999999999999999999999999999) text").is_none());
}

#[test]
fn review_note_renders_with_fenced_excerpts() {
    let sep = "\n--------------------------------------------------\n";
    let plain = ReviewNote::new("bare remark".to_string());
    assert_eq!(plain.text(), "bare remark");

    let lines: Vec<String> = ["a", "b", "c", "d"].iter().map(|s| s.to_string()).collect();
    let mut with_ref = ReviewNote::new("remark".to_string());
    with_ref.add_code_reference(&lines, 2, 3);
    assert_eq!(
        with_ref.text(),
        format!("remark{}   2: b\n   3: c{}", sep, sep)
    );
}

#[test]
fn review_ledger_stores_rendered_note_text() {
    let mut ledger: ReviewLedger =
        FileNotesStorage::new("reviews/t.txt".to_string(), "").unwrap();
    ledger.add_note(ReviewNote::new("plain".to_string()));
    assert_eq!(ledger.render(), "Necessary:\n0) plain\n");
}
