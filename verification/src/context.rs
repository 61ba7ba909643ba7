//! The project context a review session starts from: the author identity,
//! the list of reviewable tasks, and which task is currently selected.
//!
//! Loading the context from a configuration file and checking directories
//! on disk belong to the caller; here live the data and the decisions —
//! selecting a task by name, adding a task, recording bank notes against a
//! task.

use vstd::prelude::*;

use crate::ledger::{FileNotesStorage, LedgerError};
use crate::notes::TaskNode;
use crate::textfmt::str_eq;

verus! {

/// The report's author identity, immutable once loaded.
#[derive(Debug)]
pub struct Author {
    pub name: String,
    pub contacts: String,
}

impl Author {
    pub fn new(name: String, contacts: String) -> (r: Self)
        ensures
            r.name == name,
            r.contacts == contacts,
    {
        Author { name, contacts }
    }

    /// The author line shown at the top of a report.
    pub open spec fn display_spec(&self) -> Seq<char> {
        "Author: "@ + self.name@ + "(tg: "@ + self.contacts@ + ")"@
    }

    /// Renders the author line shown at the top of a report.
    pub fn display_line(&self) -> (r: String)
        ensures
            r@ == self.display_spec(),
    {
        let mut r = "Author: ".to_owned();
        r.append(self.name.as_str());
        r.append("(tg: ");
        r.append(self.contacts.as_str());
        r.append(")");
        r
    }
}

/// Where a `show` command sends the rendered report.
#[derive(Debug)]
pub enum ShowMethod {
    Console,
    File { file_name: String },
}

/// One reviewable unit: its name, the source file under review, and the
/// private bank ledger of candidate notes.
#[derive(Debug)]
pub struct Task {
    pub name: String,
    pub code_file_name: String,
    pub show_method: ShowMethod,
    pub notes: FileNotesStorage<TaskNode, TaskNode>,
}

impl Task {
    /// Assembles a task around an already-opened bank ledger; creating the
    /// task's directory and files is the caller's side of the work.
    pub fn new(
        name: String,
        code_file_name: String,
        show_method: ShowMethod,
        notes: FileNotesStorage<TaskNode, TaskNode>,
    ) -> (r: Self)
        ensures
            r.name == name,
            r.code_file_name == code_file_name,
            r.show_method == show_method,
            r.notes == notes,
    {
        Task { name, code_file_name, show_method, notes }
    }

    /// Records one candidate remark in the bank ledger, in the optional
    /// list when asked, the necessary list otherwise.
    pub fn add_note(&mut self, text: String, optional: bool)
        ensures
            final(self).name == old(self).name,
            final(self).code_file_name == old(self).code_file_name,
            final(self).show_method == old(self).show_method,
            final(self).notes.file_name == old(self).notes.file_name,
            optional ==> {
                &&& final(self).notes.opt_texts() == old(self).notes.opt_texts().push(text@)
                &&& final(self).notes.necessary_notes@ == old(self).notes.necessary_notes@
            },
            !optional ==> {
                &&& final(self).notes.nec_texts() == old(self).notes.nec_texts().push(text@)
                &&& final(self).notes.optional_notes@ == old(self).notes.optional_notes@
            },
    {
        if optional {
            self.notes.add_optional_note(TaskNode { text });
        } else {
            self.notes.add_note(TaskNode { text });
        }
    }

    /// Looks a bank note up by index, in the optional list when asked.
    pub fn find_note(&self, num: usize, optional: bool) -> (r: Result<&TaskNode, LedgerError>)
        ensures
            match r {
                Ok(note) => if optional {
                    num < self.notes.optional_notes@.len() && *note
                        == self.notes.optional_notes@[num as int]
                } else {
                    num < self.notes.necessary_notes@.len() && *note
                        == self.notes.necessary_notes@[num as int]
                },
                Err(e) => e == LedgerError::NotFound && if optional {
                    num >= self.notes.optional_notes@.len()
                } else {
                    num >= self.notes.necessary_notes@.len()
                },
            },
    {
        if optional {
            self.notes.find_optional_note(num)
        } else {
            self.notes.find_note(num)
        }
    }
}

/// Everything a session needs from the project: author, tasks, the
/// selected task, and where the project and its configuration live.
#[derive(Debug)]
pub struct ProjectContext {
    pub author: Author,
    pub current_task: Option<usize>,
    pub tasks: Vec<Task>,
    pub project_dir: String,
    pub config_path: String,
}

impl ProjectContext {
    /// A selected task, when there is one, is a real index.
    pub open spec fn wf(&self) -> bool {
        match self.current_task {
            Some(i) => i < self.tasks@.len(),
            None => true,
        }
    }

    /// Assembles a context; reading the configuration file that feeds it
    /// is the caller's side of the work.
    pub fn new(author: Author, tasks: Vec<Task>, project_dir: String, config_path: String) -> (r:
        Self)
        ensures
            r.author == author,
            r.tasks == tasks,
            r.project_dir == project_dir,
            r.config_path == config_path,
            r.current_task is None,
            r.wf(),
    {
        ProjectContext { author, current_task: None, tasks, project_dir, config_path }
    }

    /// Selects the first task with the given name for reviewing; fails
    /// with `NotFound` and changes nothing when no task has that name.
    pub fn switch_to_task(&mut self, task_name: &str) -> (r: Result<(), LedgerError>)
        requires
            old(self).wf(),
        ensures
            final(self).author == old(self).author,
            final(self).tasks == old(self).tasks,
            final(self).project_dir == old(self).project_dir,
            final(self).config_path == old(self).config_path,
            final(self).wf(),
            match r {
                Ok(()) => ({
                    &&& final(self).current_task is Some
                    &&& ({
                        let i = final(self).current_task.unwrap() as int;
                        &&& 0 <= i < old(self).tasks@.len()
                        &&& old(self).tasks@[i].name@ == task_name@
                        &&& forall|k: int|
                            0 <= k < i ==> old(self).tasks@[k].name@ != task_name@
                    })
                }),
                Err(e) => ({
                    &&& final(self).current_task == old(self).current_task
                    &&& forall|k: int|
                        0 <= k < old(self).tasks@.len() ==> old(
                            self,
                        ).tasks@[k].name@ != task_name@
                    &&& e == LedgerError::NotFound
                }),
            },
    {
        let mut i: usize = 0;
        while i < self.tasks.len()
            invariant
                0 <= i <= self.tasks@.len(),
                forall|k: int| 0 <= k < i ==> self.tasks@[k].name@ != task_name@,
                *self == *old(self),
            decreases self.tasks@.len() - i,
        {
            if str_eq(self.tasks[i].name.as_str(), task_name) {
                self.current_task = Some(i);
                return Ok(());
            }
            i = i + 1;
        }
        Err(LedgerError::NotFound)
    }

    /// Finds the first task with the given name, as selecting it would.
    pub fn check_task(&self, task_name: &str) -> (r: Result<&Task, LedgerError>)
        ensures
            match r {
                Ok(task) => exists|i: int|
                    {
                        &&& 0 <= i < self.tasks@.len()
                        &&& *task == self.tasks@[i]
                        &&& self.tasks@[i].name@ == task_name@
                        &&& forall|k: int| 0 <= k < i ==> self.tasks@[k].name@ != task_name@
                    },
                Err(e) => ({
                    &&& forall|k: int|
                        0 <= k < self.tasks@.len() ==> self.tasks@[k].name@ != task_name@
                    &&& e == LedgerError::NotFound
                }),
            },
    {
        let mut i: usize = 0;
        while i < self.tasks.len()
            invariant
                0 <= i <= self.tasks@.len(),
                forall|k: int| 0 <= k < i ==> self.tasks@[k].name@ != task_name@,
            decreases self.tasks@.len() - i,
        {
            if str_eq(self.tasks[i].name.as_str(), task_name) {
                let task = &self.tasks[i];
                proof {
                    assert({
                        &&& 0 <= i < self.tasks@.len()
                        &&& *task == self.tasks@[i as int]
                        &&& self.tasks@[i as int].name@ == task_name@
                        &&& forall|k: int| 0 <= k < i ==> self.tasks@[k].name@ != task_name@
                    });
                }
                return Ok(task);
            }
            i = i + 1;
        }
        Err(LedgerError::NotFound)
    }

    /// Adds a freshly created task to the project.
    pub fn add_task(&mut self, task: Task)
        requires
            old(self).wf(),
        ensures
            final(self).tasks@ == old(self).tasks@.push(task),
            final(self).author == old(self).author,
            final(self).current_task == old(self).current_task,
            final(self).project_dir == old(self).project_dir,
            final(self).config_path == old(self).config_path,
            final(self).wf(),
    {
        self.tasks.push(task);
    }
}

} // verus!
