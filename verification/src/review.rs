//! The interactive review engine: a command-driven state machine that
//! turns one line of operator input at a time into ledger mutations.
//!
//! A session walks `Start -> Review -> Finish`. Every call of
//! [`Review::step`] consumes at most one line and performs at most one
//! action; whatever goes wrong with a single line is reported back as a
//! rejected command and never ends the session. The caller does the I/O
//! around each step: it reads the input line and the task's source file,
//! and afterwards persists whichever ledger the returned outcome names.

use vstd::prelude::*;

use crate::command::{parse_type, spec_parse_type, NoteType};
use crate::context::{Author, ProjectContext, Task};
use crate::ledger::{render_ledger, FileNotesStorage, LedgerError, Note};
use crate::lines::{join_from, join_with};
use crate::notes::{excerpt_text, ReviewNote};
use crate::textfmt::{dec_val, is_usize_digits, parse_usize, str_eq};
use crate::tokens::{tokenize, tokens_of};

verus! {

/// Where in its life a session stands.
#[derive(Debug, Clone, Copy, PartialEq, Eq, Structural)]
pub enum ReviewState {
    Start,
    Review,
    Finish,
}

/// What one line of operator input asks the engine to do.
#[derive(Debug)]
pub enum ReviewAction {
    /// Record a candidate note in the task's bank (text, to the optional
    /// list?).
    NewNote(ReviewNote, bool),
    /// Promote a bank note into the curated review (note, to the optional
    /// list?).
    AddNote(ReviewNote, bool),
    Show,
    Drop,
    Complete,
    /// The line could not be carried out; the message goes to the operator.
    Incorrect(String),
}

/// The mathematical shadow of a [`ReviewAction`], over character
/// sequences.
pub enum ActionModel {
    NewNote { text: Seq<char>, refs: Seq<Seq<char>>, optional: bool },
    AddNote { text: Seq<char>, refs: Seq<Seq<char>>, optional: bool },
    Show,
    Drop,
    Complete,
    Incorrect { msg: Seq<char> },
}

/// The model of an action value.
pub open spec fn action_model(a: ReviewAction) -> ActionModel {
    match a {
        ReviewAction::NewNote(n, o) => ActionModel::NewNote {
            text: n.text@,
            refs: n.references.deep_view(),
            optional: o,
        },
        ReviewAction::AddNote(n, o) => ActionModel::AddNote {
            text: n.text@,
            refs: n.references.deep_view(),
            optional: o,
        },
        ReviewAction::Show => ActionModel::Show,
        ReviewAction::Drop => ActionModel::Drop,
        ReviewAction::Complete => ActionModel::Complete,
        ReviewAction::Incorrect(m) => ActionModel::Incorrect { msg: m@ },
    }
}

/// The model of the optionally read source file.
pub open spec fn code_model(code_lines: Option<&Vec<String>>) -> Option<Seq<Seq<char>>> {
    match code_lines {
        Some(v) => Some(v.deep_view()),
        None => None,
    }
}

/// The model of the optionally read input line.
pub open spec fn input_model(input: Option<&str>) -> Option<Seq<char>> {
    match input {
        Some(s) => Some(s@),
        None => None,
    }
}

/// What an `add ... reference first second ...` command yields once the
/// bank note text is in hand: the note with the extracted excerpt, or the
/// message when the source file could not be read or the range is not a
/// 1-based range.
pub open spec fn add_with_reference_model(
    text: Seq<char>,
    optional: bool,
    f: usize,
    s: usize,
    code: Option<Seq<Seq<char>>>,
) -> ActionModel {
    match code {
        None => ActionModel::Incorrect { msg: "Can't open file with code"@ },
        Some(lns) => if 1 <= f && f as int <= s as int + 1 {
            ActionModel::AddNote {
                text,
                refs: seq![excerpt_text(lns, f as int, s as int)],
                optional,
            }
        } else {
            ActionModel::Incorrect { msg: "Incorrect reference range"@ }
        },
    }
}

/// The decision one line of input leads to, given the bank note texts and
/// the source file lines (when readable). This is the whole command
/// protocol in one place.
pub open spec fn spec_ask_action(
    line: Seq<char>,
    bank_nec: Seq<Seq<char>>,
    bank_opt: Seq<Seq<char>>,
    code: Option<Seq<Seq<char>>>,
) -> ActionModel {
    let toks = tokens_of(line);
    if toks.len() == 0 {
        ActionModel::Incorrect { msg: "Unknown action"@ }
    } else if toks[0] == "new"@ || toks[0] == "n"@ {
        match spec_parse_type(toks, 1) {
            Err(m) => ActionModel::Incorrect { msg: m },
            Ok((nt, next)) => if nt is NecessaryWithReference || nt is OptionalWithReference {
                ActionModel::Incorrect { msg: "Incorrect note type"@ }
            } else {
                ActionModel::NewNote {
                    text: join_with(toks.subrange(next, toks.len() as int), " "@),
                    refs: Seq::empty(),
                    optional: nt is Optional,
                }
            },
        }
    } else if toks[0] == "add"@ || toks[0] == "a"@ {
        match spec_parse_type(toks, 1) {
            Err(m) => ActionModel::Incorrect { msg: m },
            Ok((nt, next)) => if next >= toks.len() {
                ActionModel::Incorrect { msg: "No number in note"@ }
            } else if !is_usize_digits(toks[next]) {
                ActionModel::Incorrect { msg: "Incorrect number of note"@ }
            } else {
                let num = dec_val(toks[next]) as int;
                let bank = if nt.is_optional_kind() {
                    bank_opt
                } else {
                    bank_nec
                };
                if num >= bank.len() {
                    ActionModel::Incorrect { msg: "Note not found"@ }
                } else {
                    match nt {
                        NoteType::Necessary => ActionModel::AddNote {
                            text: bank[num],
                            refs: Seq::empty(),
                            optional: false,
                        },
                        NoteType::Optional => ActionModel::AddNote {
                            text: bank[num],
                            refs: Seq::empty(),
                            optional: true,
                        },
                        NoteType::NecessaryWithReference(f, s) => add_with_reference_model(
                            bank[num],
                            false,
                            f,
                            s,
                            code,
                        ),
                        NoteType::OptionalWithReference(f, s) => add_with_reference_model(
                            bank[num],
                            true,
                            f,
                            s,
                            code,
                        ),
                    }
                }
            },
        }
    } else if toks[0] == "show"@ || toks[0] == "s"@ {
        ActionModel::Show
    } else if toks[0] == "complete"@ || toks[0] == "c"@ {
        ActionModel::Complete
    } else if toks[0] == "drop"@ || toks[0] == "d"@ {
        ActionModel::Drop
    } else {
        ActionModel::Incorrect { msg: "Unknown action"@ }
    }
}

/// What one step reports back to the caller: the banner moments, which
/// ledger must be persisted, a requested show, or the message of a
/// rejected command.
#[derive(Debug)]
pub enum StepOutcome {
    /// The session banner moment; no ledger changed.
    Started,
    /// The task's bank ledger changed and must be persisted.
    BankUpdated,
    /// The curated ledger changed and must be persisted.
    CuratedUpdated,
    /// Render the curated report to the task's show destination.
    ShowRequested,
    /// The session reached `Finish`.
    Completed,
    /// The line was not carried out; print the message and carry on.
    Rejected(String),
}

/// The separator between the author line and the report body.
pub open spec fn author_sep() -> Seq<char> {
    "\n++++++++++++++++++++++++++++++++++++++++++++++++++\n"@
}

/// One review session: the task under review (owned for the session), the
/// author identity, where the session stands, and the curated notes that
/// will become the report.
#[derive(Debug)]
pub struct Review {
    pub task: Task,
    pub author: Author,
    pub state: ReviewState,
    pub current_notes: FileNotesStorage<ReviewNote, ReviewNote>,
}

/// The full transition relation of one step: from the prior engine state
/// and the line of input (with the source file lines at hand) to the new
/// engine state and the reported outcome.
pub open spec fn step_post(
    pre: Review,
    post: Review,
    input: Option<Seq<char>>,
    code: Option<Seq<Seq<char>>>,
    out: StepOutcome,
) -> bool {
    match pre.state {
        ReviewState::Start => {
            &&& out is Started
            &&& post.task == pre.task
            &&& post.author == pre.author
            &&& post.current_notes == pre.current_notes
            &&& post.state is Review
        },
        ReviewState::Review => {
            let act = match input {
                None => ActionModel::Incorrect { msg: "Reading line fail"@ },
                Some(l) => spec_ask_action(
                    l,
                    pre.task.notes.nec_texts(),
                    pre.task.notes.opt_texts(),
                    code,
                ),
            };
            match act {
                ActionModel::NewNote { text, refs, optional } => {
                    &&& out is BankUpdated
                    &&& post.state == pre.state
                    &&& post.author == pre.author
                    &&& post.current_notes == pre.current_notes
                    &&& post.task.name == pre.task.name
                    &&& post.task.code_file_name == pre.task.code_file_name
                    &&& post.task.show_method == pre.task.show_method
                    &&& post.task.notes.file_name == pre.task.notes.file_name
                    &&& (optional ==> {
                        &&& post.task.notes.opt_texts() == pre.task.notes.opt_texts().push(text)
                        &&& post.task.notes.necessary_notes@ == pre.task.notes.necessary_notes@
                    })
                    &&& (!optional ==> {
                        &&& post.task.notes.nec_texts() == pre.task.notes.nec_texts().push(text)
                        &&& post.task.notes.optional_notes@ == pre.task.notes.optional_notes@
                    })
                },
                ActionModel::AddNote { text, refs, optional } => {
                    &&& out is CuratedUpdated
                    &&& post.state == pre.state
                    &&& post.author == pre.author
                    &&& post.task == pre.task
                    &&& post.current_notes.file_name == pre.current_notes.file_name
                    &&& (optional ==> exists|n: ReviewNote|
                        {
                            &&& n.text@ == text
                            &&& n.references.deep_view() == refs
                            &&& post.current_notes.optional_notes@
                                == pre.current_notes.optional_notes@.push(n)
                            &&& post.current_notes.necessary_notes@
                                == pre.current_notes.necessary_notes@
                        })
                    &&& (!optional ==> exists|n: ReviewNote|
                        {
                            &&& n.text@ == text
                            &&& n.references.deep_view() == refs
                            &&& post.current_notes.necessary_notes@
                                == pre.current_notes.necessary_notes@.push(n)
                            &&& post.current_notes.optional_notes@
                                == pre.current_notes.optional_notes@
                        })
                },
                ActionModel::Show => {
                    &&& out is ShowRequested
                    &&& post == pre
                },
                ActionModel::Drop => {
                    &&& out is CuratedUpdated
                    &&& post.state == pre.state
                    &&& post.author == pre.author
                    &&& post.task == pre.task
                    &&& post.current_notes.file_name == pre.current_notes.file_name
                    &&& post.current_notes.necessary_notes@ == Seq::<ReviewNote>::empty()
                    &&& post.current_notes.optional_notes@ == Seq::<ReviewNote>::empty()
                },
                ActionModel::Complete => {
                    &&& out is Completed
                    &&& post.task == pre.task
                    &&& post.author == pre.author
                    &&& post.current_notes == pre.current_notes
                    &&& post.state is Finish
                },
                ActionModel::Incorrect { msg } => {
                    &&& post == pre
                    &&& match out {
                        StepOutcome::Rejected(m) => m@ == msg,
                        _ => false,
                    }
                },
            }
        },
        ReviewState::Finish => false,
    }
}

impl Review {
    /// Opens a session for the context's selected task: the task leaves
    /// the context and is owned by the session, and the curated ledger
    /// starts out empty, bound to the given report file (which the caller
    /// has just truncated). Fails when no task was selected.
    pub fn new(context: ProjectContext, notes_file_name: String) -> (r: Result<Review, LedgerError>)
        requires
            context.wf(),
        ensures
            match r {
                Ok(review) => {
                    &&& context.current_task is Some
                    &&& review.task == context.tasks@[context.current_task.unwrap() as int]
                    &&& review.author == context.author
                    &&& review.state is Start
                    &&& review.current_notes.file_name == notes_file_name
                    &&& review.current_notes.necessary_notes@ == Seq::<ReviewNote>::empty()
                    &&& review.current_notes.optional_notes@ == Seq::<ReviewNote>::empty()
                },
                Err(e) => context.current_task is None && e == LedgerError::NotFound,
            },
    {
        let mut context = context;
        let idx = match context.current_task {
            None => {
                return Err(LedgerError::NotFound);
            },
            Some(i) => i,
        };
        let task = context.tasks.swap_remove(idx);
        Ok(
            Review {
                task,
                author: context.author,
                state: ReviewState::Start,
                current_notes: FileNotesStorage {
                    file_name: notes_file_name,
                    necessary_notes: Vec::new(),
                    optional_notes: Vec::new(),
                },
            },
        )
    }

    /// Whether the session has reached its terminal state.
    pub fn is_finished(&self) -> (r: bool)
        ensures
            r == (self.state is Finish),
    {
        match self.state {
            ReviewState::Finish => true,
            _ => false,
        }
    }

    /// Decides what one line of input asks for, resolving the referenced
    /// bank note and extracting the requested excerpt from the source
    /// lines. Never fails: whatever cannot be carried out comes back as
    /// `Incorrect` with the message for the operator.
    pub fn ask_action(&self, input: &str, code_lines: Option<&Vec<String>>) -> (r: ReviewAction)
        ensures
            action_model(r) == spec_ask_action(
                input@,
                self.task.notes.nec_texts(),
                self.task.notes.opt_texts(),
                code_model(code_lines),
            ),
    {
        let toks = tokenize(input);
        let ghost tv = toks.deep_view();
        if toks.len() == 0 {
            return ReviewAction::Incorrect("Unknown action".to_owned());
        }
        proof {
            assert(tv[0] == toks@[0]@);
        }
        let verb = toks[0].as_str();
        if str_eq(verb, "new") || str_eq(verb, "n") {
            match parse_type(&toks, 1) {
                Err(m) => ReviewAction::Incorrect(m),
                Ok((nt, next)) => {
                    let has_ref = match nt {
                        NoteType::NecessaryWithReference(_, _) => true,
                        NoteType::OptionalWithReference(_, _) => true,
                        _ => false,
                    };
                    if has_ref {
                        return ReviewAction::Incorrect("Incorrect note type".to_owned());
                    }
                    let text = join_from(&toks, next, " ");
                    let note = ReviewNote::new(text);
                    proof {
                        assert(note.references.deep_view() =~~= Seq::<Seq<char>>::empty());
                    }
                    let optional = match nt {
                        NoteType::Optional => true,
                        _ => false,
                    };
                    ReviewAction::NewNote(note, optional)
                },
            }
        } else if str_eq(verb, "add") || str_eq(verb, "a") {
            match parse_type(&toks, 1) {
                Err(m) => ReviewAction::Incorrect(m),
                Ok((nt, next)) => {
                    if next >= toks.len() {
                        return ReviewAction::Incorrect("No number in note".to_owned());
                    }
                    proof {
                        assert(tv[next as int] == toks@[next as int]@);
                    }
                    let num = match parse_usize(toks[next].as_str()) {
                        None => {
                            return ReviewAction::Incorrect("Incorrect number of note".to_owned());
                        },
                        Some(n) => n,
                    };
                    let optional = nt.is_optional();
                    let text = match self.task.find_note(num, optional) {
                        Err(_) => {
                            return ReviewAction::Incorrect("Note not found".to_owned());
                        },
                        Ok(node) => node.text(),
                    };
                    let mut note = ReviewNote::new(text);
                    proof {
                        assert(note.references.deep_view() =~~= Seq::<Seq<char>>::empty());
                    }
                    match nt {
                        NoteType::Necessary | NoteType::Optional => ReviewAction::AddNote(
                            note,
                            optional,
                        ),
                        NoteType::NecessaryWithReference(f, s) | NoteType::OptionalWithReference(
                            f,
                            s,
                        ) => {
                            match code_lines {
                                None => ReviewAction::Incorrect(
                                    "Can't open file with code".to_owned(),
                                ),
                                Some(lines) => {
                                    if 1 <= f && f - 1 <= s {
                                        note.add_code_reference(lines, f, s);
                                        proof {
                                            assert(note.references.deep_view()
                                                =~~= seq![excerpt_text(lines.deep_view(), f as int, s as int)]);
                                        }
                                        ReviewAction::AddNote(note, optional)
                                    } else {
                                        ReviewAction::Incorrect(
                                            "Incorrect reference range".to_owned(),
                                        )
                                    }
                                },
                            }
                        },
                    }
                },
            }
        } else if str_eq(verb, "show") || str_eq(verb, "s") {
            ReviewAction::Show
        } else if str_eq(verb, "complete") || str_eq(verb, "c") {
            ReviewAction::Complete
        } else if str_eq(verb, "drop") || str_eq(verb, "d") {
            ReviewAction::Drop
        } else {
            ReviewAction::Incorrect("Unknown action".to_owned())
        }
    }

    /// Performs one step of the session: consumes one line of input (or
    /// `None` when reading it failed) together with the task's source
    /// lines (or `None` when the file was unreadable), mutates at most one
    /// ledger, and reports what the caller must do. Stepping a finished
    /// session is a caller error and excluded.
    pub fn step(&mut self, input: Option<&str>, code_lines: Option<&Vec<String>>) -> (out:
        StepOutcome)
        requires
            !(old(self).state is Finish),
        ensures
            step_post(*old(self), *final(self), input_model(input), code_model(code_lines), out),
    {
        match self.state {
            ReviewState::Start => {
                self.state = ReviewState::Review;
                StepOutcome::Started
            },
            ReviewState::Review => {
                let action = match input {
                    None => ReviewAction::Incorrect("Reading line fail".to_owned()),
                    Some(line) => self.ask_action(line, code_lines),
                };
                match action {
                    ReviewAction::NewNote(note, optional) => {
                        let text = note.text_to_storage();
                        self.task.add_note(text, optional);
                        StepOutcome::BankUpdated
                    },
                    ReviewAction::AddNote(note, optional) => {
                        if optional {
                            self.current_notes.add_optional_note(note);
                        } else {
                            self.current_notes.add_note(note);
                        }
                        StepOutcome::CuratedUpdated
                    },
                    ReviewAction::Show => StepOutcome::ShowRequested,
                    ReviewAction::Drop => {
                        self.current_notes.clear();
                        StepOutcome::CuratedUpdated
                    },
                    ReviewAction::Complete => {
                        self.state = ReviewState::Finish;
                        StepOutcome::Completed
                    },
                    ReviewAction::Incorrect(msg) => StepOutcome::Rejected(msg),
                }
            },
            ReviewState::Finish => {
                proof {
                    assert(false);
                }
                StepOutcome::Started
            },
        }
    }

    /// Renders the report for a `show`: the author line, the separator,
    /// then the curated ledger in its file format. Touches nothing.
    pub fn show_text(&self) -> (r: String)
        ensures
            r@ == self.author.display_spec() + author_sep() + render_ledger(
                self.current_notes.nec_texts(),
                self.current_notes.opt_texts(),
            ),
    {
        let mut r = self.author.display_line();
        r.append("\n++++++++++++++++++++++++++++++++++++++++++++++++++\n");
        let body = self.current_notes.render();
        r.append(body.as_str());
        r
    }
}

} // verus!
