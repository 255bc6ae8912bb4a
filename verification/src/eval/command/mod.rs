//! The task a command line asks for: one of the shell's builtins, or a
//! program to run.
pub mod builtins;
pub mod composite;

pub use composite::Command;

use vstd::prelude::*;

use crate::error::EvaluatorError;
use crate::text::same_text;

verus! {

/// The shell's builtin commands.
#[allow(non_camel_case_types)]
#[derive(Debug)]
pub enum BuiltinCommand {
    exit,
    pwd,
    cd(Option<String>),
    echo(Vec<String>),
    type_(String),
}

/// A builtin command as a mathematical value.
pub enum BuiltinView {
    Exit,
    Pwd,
    Cd(Option<Seq<char>>),
    Echo(Seq<Seq<char>>),
    Type(Seq<char>),
}

impl View for BuiltinCommand {
    type V = BuiltinView;

    open spec fn view(&self) -> BuiltinView {
        match self {
            BuiltinCommand::exit => BuiltinView::Exit,
            BuiltinCommand::pwd => BuiltinView::Pwd,
            BuiltinCommand::cd(p) => BuiltinView::Cd(p.deep_view()),
            BuiltinCommand::echo(args) => BuiltinView::Echo(args.deep_view()),
            BuiltinCommand::type_(a) => BuiltinView::Type(a@),
        }
    }
}

/// What a command line asks the shell to do.
#[derive(Debug)]
pub enum CommandTask {
    Builtin(BuiltinCommand),
    Extern { argv: Vec<String> },
}

/// A task as a mathematical value.
pub enum TaskView {
    Builtin(BuiltinView),
    Extern(Seq<Seq<char>>),
}

impl View for CommandTask {
    type V = TaskView;

    open spec fn view(&self) -> TaskView {
        match self {
            CommandTask::Builtin(b) => TaskView::Builtin(b@),
            CommandTask::Extern { argv } => TaskView::Extern(argv.deep_view()),
        }
    }
}

/// The names of the builtins, in the order in which they are declared.
pub open spec fn builtin_names() -> Seq<Seq<char>> {
    seq!["exit"@, "pwd"@, "cd"@, "echo"@, "type"@]
}

/// The name of a builtin, as the shell prints and reads it.
pub open spec fn builtin_name(b: BuiltinView) -> Seq<char> {
    match b {
        BuiltinView::Exit => "exit"@,
        BuiltinView::Pwd => "pwd"@,
        BuiltinView::Cd(_) => "cd"@,
        BuiltinView::Echo(_) => "echo"@,
        BuiltinView::Type(_) => "type"@,
    }
}

/// The builtin that a name stands for, with empty arguments.
pub open spec fn builtin_from_name(name: Seq<char>) -> Option<BuiltinView> {
    if name == "exit"@ {
        Some(BuiltinView::Exit)
    } else if name == "pwd"@ {
        Some(BuiltinView::Pwd)
    } else if name == "cd"@ {
        Some(BuiltinView::Cd(None))
    } else if name == "echo"@ {
        Some(BuiltinView::Echo(seq![]))
    } else if name == "type"@ {
        Some(BuiltinView::Type(seq![]))
    } else {
        None
    }
}

/// Every builtin, with empty arguments, in declaration order.
pub open spec fn all_builtins() -> Seq<BuiltinView> {
    seq![
        BuiltinView::Exit,
        BuiltinView::Pwd,
        BuiltinView::Cd(None),
        BuiltinView::Echo(seq![]),
        BuiltinView::Type(seq![]),
    ]
}

impl BuiltinCommand {
    /// The builtin's name (`exit`, `pwd`, `cd`, `echo`, `type`).
    pub fn name(&self) -> (r: &'static str)
        ensures
            r@ == builtin_name(self@),
    {
        match self {
            BuiltinCommand::exit => "exit",
            BuiltinCommand::pwd => "pwd",
            BuiltinCommand::cd(_) => "cd",
            BuiltinCommand::echo(_) => "echo",
            BuiltinCommand::type_(_) => "type",
        }
    }

    /// The builtin named `name`, with empty arguments, if there is one.
    pub fn from_name(name: &str) -> (r: Option<BuiltinCommand>)
        ensures
            match r {
                Some(b) => builtin_from_name(name@) == Some(b@),
                None => builtin_from_name(name@) is None,
            },
    {
        if same_text(name, "exit") {
            Some(BuiltinCommand::exit)
        } else if same_text(name, "pwd") {
            Some(BuiltinCommand::pwd)
        } else if same_text(name, "cd") {
            Some(BuiltinCommand::cd(None))
        } else if same_text(name, "echo") {
            let v: Vec<String> = Vec::new();
            assert(v.deep_view() =~= seq![]);
            Some(BuiltinCommand::echo(v))
        } else if same_text(name, "type") {
            Some(BuiltinCommand::type_(String::new()))
        } else {
            None
        }
    }

    /// Every builtin, with empty arguments, in declaration order.
    pub fn all() -> (r: Vec<BuiltinCommand>)
        ensures
            r@.len() == all_builtins().len(),
            forall|i: int| 0 <= i < r@.len() ==> #[trigger] r@[i]@ == all_builtins()[i],
    {
        let mut v: Vec<BuiltinCommand> = Vec::new();
        v.push(BuiltinCommand::exit);
        v.push(BuiltinCommand::pwd);
        v.push(BuiltinCommand::cd(None));
        let e: Vec<String> = Vec::new();
        assert(e.deep_view() =~= seq![]);
        v.push(BuiltinCommand::echo(e));
        v.push(BuiltinCommand::type_(String::new()));
        v
    }
}

/// Each builtin's name reads back as that builtin (with empty arguments).
pub proof fn law_builtin_names_read_back(i: int)
    requires
        0 <= i < all_builtins().len(),
    ensures
        builtin_from_name(builtin_name(all_builtins()[i])) == Some(all_builtins()[i]),
        builtin_names()[i] == builtin_name(all_builtins()[i]),
{
    reveal_strlit("exit");
    reveal_strlit("pwd");
    reveal_strlit("cd");
    reveal_strlit("echo");
    reveal_strlit("type");
    assert("exit"@.len() == 4 && "pwd"@.len() == 3 && "cd"@.len() == 2 && "echo"@.len() == 4
        && "type"@.len() == 4);
    assert("exit"@[0] == 'e' && "echo"@[0] == 'e' && "type"@[0] == 't');
    assert("exit"@[1] == 'x' && "echo"@[1] == 'c');
    assert("pwd"@ != "exit"@);
    assert("cd"@ != "exit"@ && "cd"@ != "pwd"@);
    assert("echo"@ != "exit"@ && "echo"@ != "pwd"@ && "echo"@ != "cd"@);
    assert("type"@ != "exit"@ && "type"@ != "pwd"@ && "type"@ != "cd"@ && "type"@ != "echo"@);
    assert(all_builtins()[1] == BuiltinView::Pwd);
    assert(all_builtins()[2] == BuiltinView::Cd(None));
    assert(all_builtins()[3] == BuiltinView::Echo(seq![]));
    assert(all_builtins()[4] == BuiltinView::Type(seq![]));
}

/// One end of the range of argument counts that a builtin accepts.
#[derive(Debug, Clone, Copy)]
pub enum ArgBound {
    Included(u8),
    Excluded(u8),
    Unbounded,
}

/// A range of argument counts, as `start..end` with either end open, closed or absent.
#[derive(Debug, Clone, Copy)]
pub struct ArgRange {
    pub start: ArgBound,
    pub end: ArgBound,
}

impl ArgRange {
    /// Whether `n` lies in the range.
    pub open spec fn spec_contains(self, n: int) -> bool {
        &&& match self.start {
            ArgBound::Included(s) => s <= n,
            ArgBound::Excluded(s) => s < n,
            ArgBound::Unbounded => true,
        }
        &&& match self.end {
            ArgBound::Included(e) => n <= e,
            ArgBound::Excluded(e) => n < e,
            ArgBound::Unbounded => true,
        }
    }

    /// The range with the given ends.
    pub fn new(start: ArgBound, end: ArgBound) -> (r: ArgRange)
        ensures
            r == (ArgRange { start, end }),
    {
        ArgRange { start, end }
    }

    /// `n..`
    pub fn at_least(n: u8) -> (r: ArgRange)
        ensures
            forall|k: int| r.spec_contains(k) <==> n <= k,
    {
        ArgRange { start: ArgBound::Included(n), end: ArgBound::Unbounded }
    }

    /// `..=n`
    pub fn at_most(n: u8) -> (r: ArgRange)
        ensures
            forall|k: int| r.spec_contains(k) <==> k <= n,
    {
        ArgRange { start: ArgBound::Unbounded, end: ArgBound::Included(n) }
    }

    /// `n..=n`
    pub fn exactly(n: u8) -> (r: ArgRange)
        ensures
            forall|k: int| r.spec_contains(k) <==> k == n,
    {
        ArgRange { start: ArgBound::Included(n), end: ArgBound::Included(n) }
    }

    /// Whether `n` lies in the range.
    pub fn contains(&self, n: u8) -> (r: bool)
        ensures
            r == self.spec_contains(n as int),
    {
        let lower = match self.start {
            ArgBound::Included(s) => s <= n,
            ArgBound::Excluded(s) => s < n,
            ArgBound::Unbounded => true,
        };
        let upper = match self.end {
            ArgBound::Included(e) => n <= e,
            ArgBound::Excluded(e) => n < e,
            ArgBound::Unbounded => true,
        };
        lower && upper
    }
}

/// The number of arguments that a command line of `len` words is counted as
/// having: the word count is taken modulo 256 (as a `u8`), less the command
/// name itself.
pub open spec fn arg_count(len: nat) -> int {
    (len % 256) as int - 1
}

/// Checks that the command's argument count lies in `allowed`.
pub fn guarantee_args(command: &[String], allowed: ArgRange) -> (r: Result<(), EvaluatorError>)
    requires
        command@.len() % 256 != 0,
    ensures
        allowed.spec_contains(arg_count(command@.len())) ==> r is Ok,
        !allowed.spec_contains(arg_count(command@.len())) ==> (r matches Err(
            EvaluatorError::WrongNumberOfArguments(n),
        ) && n == arg_count(command@.len())),
{
    let count: u8 = ((command.len() % 256) as u8) - 1;
    if !allowed.contains(count) {
        return Err(EvaluatorError::WrongNumberOfArguments(count));
    }
    Ok(())
}

/// The inputs on which turning a word list into a task is defined: there is a
/// command name; a builtin that checks its argument count sees a word count
/// that is not a multiple of 256; and `type` is not asked about an empty word.
pub open spec fn task_accepts(argv: Seq<Seq<char>>) -> bool {
    &&& argv.len() >= 1
    &&& (argv[0] == "type"@ || argv[0] == "cd"@ || argv[0] == "echo"@) ==> argv.len() % 256 != 0
    &&& (argv[0] == "type"@ && arg_count(argv.len()) == 1) ==> argv[1].len() > 0
}

/// Whether a task can be made of `argv` (see `task_accepts`).
pub fn accepts_task(argv: &[String]) -> (r: bool)
    ensures
        r == task_accepts(argv.deep_view()),
{
    if argv.len() == 0 {
        return false;
    }
    let ghost words = argv.deep_view();
    assert(words[0] == argv@[0]@);
    let name = argv[0].as_str();
    let checks_count = same_text(name, "type") || same_text(name, "cd") || same_text(name, "echo");
    if checks_count && argv.len() % 256 == 0 {
        return false;
    }
    if same_text(name, "type") && argv.len() % 256 == 2 {
        assert(words[1] == argv@[1]@);
        return argv[1].as_str().unicode_len() > 0;
    }
    true
}

/// The task that a word list asks for, or the argument count that a builtin
/// refused.
pub open spec fn task_of(argv: Seq<Seq<char>>) -> Result<TaskView, u8> {
    match builtin_from_name(argv[0]) {
        None => Ok(TaskView::Extern(argv)),
        Some(b) => match b {
            BuiltinView::Type(_) => if arg_count(argv.len()) == 1 {
                Ok(TaskView::Builtin(BuiltinView::Type(argv[1])))
            } else {
                Err(arg_count(argv.len()) as u8)
            },
            BuiltinView::Cd(_) => if arg_count(argv.len()) <= 1 {
                Ok(
                    TaskView::Builtin(
                        BuiltinView::Cd(if argv.len() > 1 { Some(argv[1]) } else { None }),
                    ),
                )
            } else {
                Err(arg_count(argv.len()) as u8)
            },
            BuiltinView::Echo(_) => if arg_count(argv.len()) >= 1 {
                Ok(TaskView::Builtin(BuiltinView::Echo(argv.skip(1))))
            } else {
                Err(arg_count(argv.len()) as u8)
            },
            other => Ok(TaskView::Builtin(other)),
        },
    }
}

/// A word list whose first word names no builtin is a program to run, word
/// list and all; one whose first word names a builtin is that builtin, or is
/// refused for its argument count.
pub proof fn law_builtin_words_make_builtin_tasks(argv: Seq<Seq<char>>)
    requires
        argv.len() >= 1,
    ensures
        !builtin_names().contains(argv[0]) ==> task_of(argv) == Ok::<TaskView, u8>(
            TaskView::Extern(argv),
        ),
        builtin_names().contains(argv[0]) ==> (task_of(argv) is Err || (task_of(argv) matches Ok(
            TaskView::Builtin(b),
        ) && builtin_name(b) == argv[0])),
{
    if builtin_names().contains(argv[0]) {
        let k = choose|k: int| 0 <= k < builtin_names().len() && builtin_names()[k] == argv[0];
        assert(builtin_names()[k] == argv[0]);
    } else {
        assert(builtin_names()[0] == "exit"@);
        assert(builtin_names()[1] == "pwd"@);
        assert(builtin_names()[2] == "cd"@);
        assert(builtin_names()[3] == "echo"@);
        assert(builtin_names()[4] == "type"@);
        assert(argv[0] != "exit"@);
        assert(argv[0] != "pwd"@);
        assert(argv[0] != "cd"@);
        assert(argv[0] != "echo"@);
        assert(argv[0] != "type"@);
    }
}

/// The builtins keep their arguments: `echo` with at least one argument is
/// echo of exactly all the words after its name, however many; `cd` alone goes
/// home and `cd` with one word goes there; `type` with one word asks about that
/// word. (Word counts are taken modulo 256, as `arg_count` says.)
pub proof fn law_builtins_keep_their_arguments(argv: Seq<Seq<char>>)
    requires
        argv.len() >= 1,
    ensures
        argv[0] == "echo"@ && argv.len() % 256 >= 2 ==> task_of(argv) == Ok::<TaskView, u8>(
            TaskView::Builtin(BuiltinView::Echo(argv.skip(1))),
        ),
        argv[0] == "cd"@ && argv.len() == 1 ==> task_of(argv) == Ok::<TaskView, u8>(
            TaskView::Builtin(BuiltinView::Cd(None)),
        ),
        argv[0] == "cd"@ && argv.len() == 2 ==> task_of(argv) == Ok::<TaskView, u8>(
            TaskView::Builtin(BuiltinView::Cd(Some(argv[1]))),
        ),
        argv[0] == "type"@ && argv.len() == 2 ==> task_of(argv) == Ok::<TaskView, u8>(
            TaskView::Builtin(BuiltinView::Type(argv[1])),
        ),
{
    reveal_strlit("exit");
    reveal_strlit("pwd");
    reveal_strlit("cd");
    reveal_strlit("echo");
    reveal_strlit("type");
    assert("exit"@.len() == 4 && "pwd"@.len() == 3 && "cd"@.len() == 2 && "echo"@.len() == 4
        && "type"@.len() == 4);
    assert("exit"@[0] == 'e' && "echo"@[0] == 'e' && "type"@[0] == 't');
    assert("exit"@[1] == 'x' && "echo"@[1] == 'c');
    assert("echo"@ != "exit"@ && "echo"@ != "pwd"@ && "echo"@ != "cd"@);
    assert("cd"@ != "exit"@ && "cd"@ != "pwd"@);
    assert("type"@ != "exit"@ && "type"@ != "pwd"@ && "type"@ != "cd"@ && "type"@ != "echo"@);
}

/// Copies of the words of `words` from `start` on.
pub(crate) fn words_from(words: &[String], start: usize) -> (r: Vec<String>)
    requires
        start <= words@.len(),
    ensures
        r.deep_view() == words.deep_view().skip(start as int),
{
    let mut v: Vec<String> = Vec::new();
    let mut j: usize = start;
    while j < words.len()
        invariant
            start <= j <= words@.len(),
            v.deep_view() == words.deep_view().subrange(start as int, j as int),
        decreases words@.len() - j,
    {
        let w = words[j].clone();
        assert(w@ == words.deep_view()[j as int]);
        let ghost before = v@;
        let ghost before_deep = v.deep_view();
        v.push(w);
        assert(v@ == before.push(w));
        j = j + 1;
        assert(before_deep.len() == before.len());
        assert(before_deep.len() == j - 1 - start);
        assert forall|k: int| 0 <= k < v@.len() implies v.deep_view()[k] == words.deep_view()[start
            + k] by {
            assert(v.deep_view()[k] == v@[k]@);
            if k < before.len() {
                assert(before_deep[k] == before[k]@);
                assert(v@[k] == before[k]);
            } else {
                assert(v@[k] == w);
            }
        }
        assert(words.deep_view().len() == words@.len());
        assert(v.deep_view().len() == j - start);
        assert(v.deep_view() =~= words.deep_view().subrange(start as int, j as int));
    }
    assert(words.deep_view().subrange(start as int, words@.len() as int) =~= words.deep_view().skip(
        start as int,
    ));
    v
}

impl CommandTask {
    /// Whether the command's first word names a builtin.
    pub fn is_builtin(command: &[String]) -> (r: bool)
        requires
            command@.len() >= 1,
        ensures
            r == builtin_names().contains(command@[0]@),
    {
        let builtins = BuiltinCommand::all();
        let mut is_builtin = false;
        let mut i: usize = 0;
        while i < builtins.len()
            invariant
                builtins@.len() == 5,
                command@.len() >= 1,
                forall|k: int| 0 <= k < 5 ==> #[trigger] builtins@[k]@ == all_builtins()[k],
                i <= 5,
                is_builtin == exists|k: int| 0 <= k < i && builtin_names()[k] == command@[0]@,
            decreases 5 - i,
        {
            let same = same_text(builtins[i].name(), command[0].as_str());
            assert(builtin_name(all_builtins()[i as int]) == builtin_names()[i as int]);
            is_builtin = is_builtin || same;
            i = i + 1;
        }
        proof {
            if builtin_names().contains(command@[0]@) {
                let k = choose|k: int| 0 <= k < 5 && builtin_names()[k] == command@[0]@;
                assert(builtin_names()[k] == command@[0]@);
            }
        }
        is_builtin
    }

    /// A task that runs the program `argv[0]` with arguments `argv[1..]`.
    pub fn extern_argv(argv: Vec<String>) -> (r: Self)
        ensures
            r == (CommandTask::Extern { argv }),
    {
        CommandTask::Extern { argv }
    }

    /// The task that a word list asks for: a builtin, if the first word names
    /// one and the builtin accepts its argument count (`type` takes exactly one
    /// argument, `cd` at most one, `echo` at least one), or else the program
    /// that the first word names.
    pub fn try_from(command: &[String]) -> (r: Result<CommandTask, EvaluatorError>)
        requires
            task_accepts(command.deep_view()),
        ensures
            match task_of(command.deep_view()) {
                Ok(t) => r matches Ok(c) && c@ == t,
                Err(n) => r matches Err(EvaluatorError::WrongNumberOfArguments(m)) && m == n,
            },
    {
        let ghost argv = command.deep_view();
        assert(argv[0] == command@[0]@);
        match BuiltinCommand::from_name(command[0].as_str()) {
            None => {
                let all = words_from(command, 0);
                assert(argv.skip(0) =~= argv);
                Ok(CommandTask::extern_argv(all))
            },
            Some(builtin_command) => {
                let chosen = match builtin_command {
                    BuiltinCommand::type_(_) => {
                        guarantee_args(command, ArgRange::exactly(1))?;
                        assert(argv[1] == command@[1]@);
                        BuiltinCommand::type_(command[1].clone())
                    },
                    BuiltinCommand::cd(_) => {
                        guarantee_args(command, ArgRange::at_most(1))?;
                        if command.len() > 1 {
                            assert(argv[1] == command@[1]@);
                            BuiltinCommand::cd(Some(command[1].clone()))
                        } else {
                            BuiltinCommand::cd(None)
                        }
                    },
                    BuiltinCommand::echo(_) => {
                        guarantee_args(command, ArgRange::at_least(1))?;
                        BuiltinCommand::echo(words_from(command, 1))
                    },
                    other => other,
                };
                Ok(CommandTask::Builtin(chosen))
            },
        }
    }

    /// The name under which the task is reported: the builtin's name or the
    /// program's.
    pub fn display_name(&self) -> (r: String)
        requires
            self matches CommandTask::Extern { argv } ==> argv@.len() >= 1,
        ensures
            r@ == match self@ {
                TaskView::Builtin(b) => builtin_name(b),
                TaskView::Extern(argv) => argv[0],
            },
    {
        match self {
            CommandTask::Builtin(bi) => String::from_str(bi.name()),
            CommandTask::Extern { argv } => argv[0].clone(),
        }
    }

    /// The line printed when the task fails: its name, a colon, a blank and
    /// the message.
    pub fn failure_line(&self, message: &str) -> (r: String)
        requires
            self matches CommandTask::Extern { argv } ==> argv@.len() >= 1,
        ensures
            r@ == match self@ {
                TaskView::Builtin(b) => builtin_name(b),
                TaskView::Extern(argv) => argv[0],
            } + ": "@ + message@,
    {
        let mut line = self.display_name();
        line.append(": ");
        line.append(message);
        line
    }

    /// Whether the task is the `exit` builtin, which ends an interactive session.
    pub fn is_exit(&self) -> (r: bool)
        ensures
            r == (self@ == TaskView::Builtin(BuiltinView::Exit)),
    {
        matches!(self, CommandTask::Builtin(BuiltinCommand::exit))
    }
}

} // verus!
