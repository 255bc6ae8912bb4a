//! A task together with where its output goes.
use vstd::prelude::*;

use crate::eval::command::{CommandTask, TaskView};

verus! {

/// A command: the task, and the files that its standard output and standard
/// error go to, each either truncated or appended to.
#[derive(Debug)]
pub struct Command {
    task: CommandTask,
    stdout_to: Option<String>,
    stderr_to: Option<String>,
    stdout_append: bool,
    stderr_append: bool,
}

/// A command as a mathematical value.
pub struct CommandView {
    pub task: TaskView,
    pub stdout_to: Option<Seq<char>>,
    pub stderr_to: Option<Seq<char>>,
    pub stdout_append: bool,
    pub stderr_append: bool,
}

impl View for Command {
    type V = CommandView;

    closed spec fn view(&self) -> CommandView {
        CommandView {
            task: self.task@,
            stdout_to: self.stdout_to.deep_view(),
            stderr_to: self.stderr_to.deep_view(),
            stdout_append: self.stdout_append,
            stderr_append: self.stderr_append,
        }
    }
}

impl Command {
    /// The command that runs `command` with no redirection.
    pub fn new(command: CommandTask) -> (r: Self)
        ensures
            r@ == (CommandView {
                task: command@,
                stdout_to: None,
                stderr_to: None,
                stdout_append: false,
                stderr_append: false,
            }),
    {
        Self {
            task: command,
            stdout_to: None,
            stderr_to: None,
            stdout_append: false,
            stderr_append: false,
        }
    }

    /// The same command, appending to its standard output file or not.
    pub fn with_stdout_append(self, append: bool) -> (r: Self)
        ensures
            r@ == (CommandView { stdout_append: append, ..self@ }),
    {
        let mut s = self;
        s.stdout_append = append;
        s
    }

    /// The same command, appending to its standard error file or not.
    pub fn with_stderr_append(self, append: bool) -> (r: Self)
        ensures
            r@ == (CommandView { stderr_append: append, ..self@ }),
    {
        let mut s = self;
        s.stderr_append = append;
        s
    }

    /// The same command, with its standard output sent to `path`.
    pub fn with_stdout_to(self, path: Option<String>) -> (r: Self)
        ensures
            r@ == (CommandView { stdout_to: path.deep_view(), ..self@ }),
    {
        let mut s = self;
        s.stdout_to = path;
        s
    }

    /// The same command, with its standard error sent to `path`.
    pub fn with_stderr_to(self, path: Option<String>) -> (r: Self)
        ensures
            r@ == (CommandView { stderr_to: path.deep_view(), ..self@ }),
    {
        let mut s = self;
        s.stderr_to = path;
        s
    }

    /// The file that standard error goes to, if any.
    pub fn stderr_to(&self) -> (r: Option<&String>)
        ensures
            match r {
                Some(p) => self@.stderr_to == Some(p@),
                None => self@.stderr_to is None,
            },
    {
        self.stderr_to.as_ref()
    }

    /// The file that standard output goes to, if any.
    pub fn stdout_to(&self) -> (r: Option<&String>)
        ensures
            match r {
                Some(p) => self@.stdout_to == Some(p@),
                None => self@.stdout_to is None,
            },
    {
        self.stdout_to.as_ref()
    }

    /// Whether standard output is appended to its file rather than truncating it.
    pub fn stdout_append(&self) -> (r: bool)
        ensures
            r == self@.stdout_append,
    {
        self.stdout_append
    }

    /// Whether standard error is appended to its file rather than truncating it.
    pub fn stderr_append(&self) -> (r: bool)
        ensures
            r == self@.stderr_append,
    {
        self.stderr_append
    }

    /// The task.
    pub fn task(&self) -> (r: &CommandTask)
        ensures
            r@ == self@.task,
    {
        &self.task
    }
}

} // verus!
