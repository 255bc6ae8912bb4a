//! Several commands that share where their output goes.
use vstd::prelude::*;

use crate::error::EvaluatorError;
use crate::eval::command::{
    builtin_name, builtin_names, task_accepts, task_of, words_from, BuiltinCommand, CommandTask,
    TaskView,
};

verus! {

/// One command of a pipeline: a builtin, or a program to run.
#[derive(Debug)]
pub enum Command {
    Builtin(BuiltinCommand),
    Extern { argv: Vec<String> },
}

impl View for Command {
    type V = TaskView;

    open spec fn view(&self) -> TaskView {
        match self {
            Command::Builtin(b) => TaskView::Builtin(b@),
            Command::Extern { argv } => TaskView::Extern(argv.deep_view()),
        }
    }
}

impl BuiltinCommand {
    /// A copy of the builtin, arguments included.
    pub fn duplicate(&self) -> (r: BuiltinCommand)
        ensures
            r@ == self@,
    {
        match self {
            BuiltinCommand::exit => BuiltinCommand::exit,
            BuiltinCommand::pwd => BuiltinCommand::pwd,
            BuiltinCommand::cd(p) => match p {
                Some(s) => BuiltinCommand::cd(Some(s.clone())),
                None => BuiltinCommand::cd(None),
            },
            BuiltinCommand::echo(args) => {
                let copy = words_from(args.as_slice(), 0);
                assert(args.deep_view().skip(0) =~= args.deep_view());
                BuiltinCommand::echo(copy)
            },
            BuiltinCommand::type_(a) => BuiltinCommand::type_(a.clone()),
        }
    }
}

impl Command {
    /// Whether the command's first word names a builtin.
    pub fn is_builtin(command: &[String]) -> (r: bool)
        requires
            command@.len() >= 1,
        ensures
            r == builtin_names().contains(command@[0]@),
    {
        CommandTask::is_builtin(command)
    }

    /// A command that runs the program `argv[0]` with arguments `argv[1..]`.
    pub fn extern_argv(argv: Vec<String>) -> (r: Self)
        ensures
            r == (Command::Extern { argv }),
    {
        Self::Extern { argv }
    }

    /// The command for a task.
    pub fn from_task(task: CommandTask) -> (r: Self)
        ensures
            r@ == task@,
    {
        match task {
            CommandTask::Builtin(b) => Command::Builtin(b),
            CommandTask::Extern { argv } => Command::Extern { argv },
        }
    }

    /// The command that a word list asks for (see `CommandTask::try_from`).
    pub fn try_from(command: &[String]) -> (r: Result<Command, EvaluatorError>)
        requires
            task_accepts(command.deep_view()),
        ensures
            match task_of(command.deep_view()) {
                Ok(t) => r matches Ok(c) && c@ == t,
                Err(n) => r matches Err(EvaluatorError::WrongNumberOfArguments(m)) && m == n,
            },
    {
        let task = CommandTask::try_from(command)?;
        Ok(Command::from_task(task))
    }

    /// The name under which the command is reported.
    pub fn display_name(&self) -> (r: String)
        requires
            self matches Command::Extern { argv } ==> argv@.len() >= 1,
        ensures
            r@ == match self@ {
                TaskView::Builtin(b) => builtin_name(b),
                TaskView::Extern(argv) => argv[0],
            },
    {
        match self {
            Command::Builtin(bi) => String::from_str(bi.name()),
            Command::Extern { argv } => argv[0].clone(),
        }
    }

    /// A copy of the command.
    pub fn duplicate(&self) -> (r: Command)
        ensures
            r@ == self@,
    {
        match self {
            Command::Builtin(b) => Command::Builtin(b.duplicate()),
            Command::Extern { argv } => {
                let copy = words_from(argv.as_slice(), 0);
                assert(argv.deep_view().skip(0) =~= argv.deep_view());
                Command::Extern { argv: copy }
            },
        }
    }
}

/// Several commands, and the files that their standard output and standard
/// error go to.
#[derive(Debug)]
pub struct CompositeCommand {
    commands: Vec<Command>,
    stdout_to: Option<String>,
    stderr_to: Option<String>,
}

/// A composite command as a mathematical value.
pub struct CompositeView {
    pub commands: Seq<TaskView>,
    pub stdout_to: Option<Seq<char>>,
    pub stderr_to: Option<Seq<char>>,
}

impl View for CompositeCommand {
    type V = CompositeView;

    closed spec fn view(&self) -> CompositeView {
        CompositeView {
            commands: self.commands@.map_values(|c: Command| c@),
            stdout_to: self.stdout_to.deep_view(),
            stderr_to: self.stderr_to.deep_view(),
        }
    }
}

impl CompositeCommand {
    /// Copies of the commands, with nothing redirected.
    pub fn new(commands: &[Command]) -> (r: Self)
        ensures
            r@ == (CompositeView {
                commands: commands@.map_values(|c: Command| c@),
                stdout_to: None,
                stderr_to: None,
            }),
    {
        let mut v: Vec<Command> = Vec::new();
        let mut i: usize = 0;
        while i < commands.len()
            invariant
                i <= commands@.len(),
                v@.map_values(|c: Command| c@) == commands@.take(i as int).map_values(
                    |c: Command| c@,
                ),
            decreases commands@.len() - i,
        {
            let c = commands[i].duplicate();
            let ghost before = v@;
            v.push(c);
            assert(v@ == before.push(c));
            assert(commands@.take(i + 1) == commands@.take(i as int).push(commands@[i as int]));
            assert(c@ == commands@[i as int]@);
            assert(v@.map_values(|c: Command| c@) =~= before.map_values(|c: Command| c@).push(
                c@,
            ));
            assert(v@.map_values(|c: Command| c@) =~= commands@.take(i + 1).map_values(
                |c: Command| c@,
            ));
            i = i + 1;
        }
        assert(commands@.take(commands@.len() as int) =~= commands@);
        Self { commands: v, stdout_to: None, stderr_to: None }
    }

    /// The same commands, with standard output sent to `path`.
    pub fn with_stdout_to(self, path: Option<String>) -> (r: Self)
        ensures
            r@ == (CompositeView { stdout_to: path.deep_view(), ..self@ }),
    {
        let mut s = self;
        s.stdout_to = path;
        s
    }

    /// The same commands, with standard error sent to `path`.
    pub fn with_stderr_to(self, path: Option<String>) -> (r: Self)
        ensures
            r@ == (CompositeView { stderr_to: path.deep_view(), ..self@ }),
    {
        let mut s = self;
        s.stderr_to = path;
        s
    }

    /// The commands.
    pub fn commands(&self) -> (r: &[Command])
        ensures
            r@.map_values(|c: Command| c@) == self@.commands,
    {
        self.commands.as_slice()
    }

    /// The number of commands.
    pub fn commands_len(&self) -> (r: usize)
        ensures
            r == self@.commands.len(),
    {
        self.commands().len()
    }

    /// The file that standard error goes to, if any.
    pub fn stderr_to(&self) -> (r: Option<&String>)
        ensures
            match r {
                Some(p) => self@.stderr_to == Some(p@),
                None => self@.stderr_to is None,
            },
    {
        self.stderr_to.as_ref()
    }

    /// The file that standard output goes to, if any.
    pub fn stdout_to(&self) -> (r: Option<&String>)
        ensures
            match r {
                Some(p) => self@.stdout_to == Some(p@),
                None => self@.stdout_to is None,
            },
    {
        self.stdout_to.as_ref()
    }
}

} // verus!
