use pesh::error::EvaluatorError;
use pesh::eval::command::{guarantee_args, ArgBound, ArgRange, BuiltinCommand, CommandTask};
use pesh::eval::pipeline::{Command as PipelineCommand, CompositeCommand};

fn words(ws: &[&str]) -> Vec<String> {
    ws.iter().map(|w| w.to_string()).collect()
}

#[test]
fn command_command_range_stupidity() {
    assert!((..=1).contains(&0));
    assert!((..=1).contains(&1));
    assert!((1..=1).contains(&1));
    assert!((1..).contains(&1));
    assert!((1..).contains(&2));
    assert!(ArgRange::at_most(1).contains(0));
    assert!(ArgRange::at_most(1).contains(1));
    assert!(ArgRange::exactly(1).contains(1));
    assert!(ArgRange::at_least(1).contains(1));
    assert!(ArgRange::at_least(1).contains(2));
    guarantee_args(&["aa".to_string(), "bb".to_string()], ArgRange::at_least(1)).unwrap();
}

#[test]
fn command_command_builtin_checker() {
    assert!(PipelineCommand::is_builtin(&["cd".to_string()]));
    assert!(PipelineCommand::is_builtin(&["cd".to_string(), "foo".to_string()]));
    assert!(PipelineCommand::is_builtin(&["type".to_string(), "bar".to_string()]));
    assert!(PipelineCommand::is_builtin(&["type".to_string(), "type".to_string()]));
    assert!(!PipelineCommand::is_builtin(&["gabbakhjdksjfda".to_string()]));
}

#[test]
fn mod_command_range_stupidity() {
    assert!((..=1).contains(&0));
    assert!((..=1).contains(&1));
    assert!((1..=1).contains(&1));
    assert!((1..).contains(&1));
    assert!((1..).contains(&2));
    assert!(ArgRange::new(ArgBound::Unbounded, ArgBound::Included(1)).contains(0));
    assert!(ArgRange::new(ArgBound::Included(1), ArgBound::Unbounded).contains(2));
    guarantee_args(&["aa".to_string(), "bb".to_string()], ArgRange::at_least(1)).unwrap();
}

#[test]
fn mod_command_builtin_checker() {
    assert!(CommandTask::is_builtin(&["cd".to_string()]));
    assert!(CommandTask::is_builtin(&["cd".to_string(), "foo".to_string()]));
    assert!(CommandTask::is_builtin(&["type".to_string(), "bar".to_string()]));
    assert!(CommandTask::is_builtin(&["type".to_string(), "type".to_string()]));
    assert!(!CommandTask::is_builtin(&["gabbakhjdksjfda".to_string()]));
}

#[test]
fn every_builtin_is_recognised() {
    for name in ["exit", "pwd", "cd", "echo", "type"] {
        assert!(CommandTask::is_builtin(&[name.to_string()]));
    }
    assert!(!CommandTask::is_builtin(&["Echo".to_string()]));
    assert!(!CommandTask::is_builtin(&["".to_string()]));
}

#[test]
fn arg_range_bounds() {
    let r = ArgRange::new(ArgBound::Excluded(1), ArgBound::Excluded(3));
    assert!(!r.contains(1));
    assert!(r.contains(2));
    assert!(!r.contains(3));
    assert!(!ArgRange::exactly(1).contains(0));
    assert!(!ArgRange::at_most(1).contains(2));
    assert!(!ArgRange::at_least(1).contains(0));
}

#[test]
fn guarantee_args_reports_the_count() {
    match guarantee_args(&words(&["cd", "a", "b"]), ArgRange::at_most(1)) {
        Err(EvaluatorError::WrongNumberOfArguments(2)) => {}
        other => panic!("unexpected {:?}", other),
    }
    match guarantee_args(&words(&["type"]), ArgRange::exactly(1)) {
        Err(EvaluatorError::WrongNumberOfArguments(0)) => {}
        other => panic!("unexpected {:?}", other),
    }
    assert!(guarantee_args(&words(&["type", "ls"]), ArgRange::exactly(1)).is_ok());
}

#[test]
fn builtin_names_read_back() {
    for b in BuiltinCommand::all() {
        let back = BuiltinCommand::from_name(b.name()).unwrap();
        assert_eq!(back.name(), b.name());
    }
    assert_eq!(BuiltinCommand::all().len(), 5);
    assert!(BuiltinCommand::from_name("ls").is_none());
    assert!(matches!(BuiltinCommand::from_name("cd"), Some(BuiltinCommand::cd(None))));
}

#[test]
fn try_from_builtins() {
    match CommandTask::try_from(&words(&["type", "ls"])).unwrap() {
        CommandTask::Builtin(BuiltinCommand::type_(a)) => assert_eq!(a, "ls"),
        other => panic!("unexpected {:?}", other),
    }
    match CommandTask::try_from(&words(&["cd"])).unwrap() {
        CommandTask::Builtin(BuiltinCommand::cd(None)) => {}
        other => panic!("unexpected {:?}", other),
    }
    match CommandTask::try_from(&words(&["cd", "/tmp"])).unwrap() {
        CommandTask::Builtin(BuiltinCommand::cd(Some(p))) => assert_eq!(p, "/tmp"),
        other => panic!("unexpected {:?}", other),
    }
    match CommandTask::try_from(&words(&["echo", "a", "b"])).unwrap() {
        CommandTask::Builtin(BuiltinCommand::echo(args)) => assert_eq!(args, words(&["a", "b"])),
        other => panic!("unexpected {:?}", other),
    }
    match CommandTask::try_from(&words(&["exit", "now"])).unwrap() {
        CommandTask::Builtin(BuiltinCommand::exit) => {}
        other => panic!("unexpected {:?}", other),
    }
    match CommandTask::try_from(&words(&["pwd"])).unwrap() {
        CommandTask::Builtin(BuiltinCommand::pwd) => {}
        other => panic!("unexpected {:?}", other),
    }
}

#[test]
fn try_from_externs_and_errors() {
    match CommandTask::try_from(&words(&["ls", "-l"])).unwrap() {
        CommandTask::Extern { argv } => assert_eq!(argv, words(&["ls", "-l"])),
        other => panic!("unexpected {:?}", other),
    }
    assert!(matches!(
        CommandTask::try_from(&words(&["echo"])),
        Err(EvaluatorError::WrongNumberOfArguments(0))
    ));
    assert!(matches!(
        CommandTask::try_from(&words(&["type", "a", "b"])),
        Err(EvaluatorError::WrongNumberOfArguments(2))
    ));
    assert!(matches!(
        CommandTask::try_from(&words(&["cd", "a", "b"])),
        Err(EvaluatorError::WrongNumberOfArguments(2))
    ));
}

#[test]
fn task_names_and_exit() {
    let t = CommandTask::try_from(&words(&["ls", "-a"])).unwrap();
    assert_eq!(t.display_name(), "ls");
    assert!(!t.is_exit());
    let t = CommandTask::try_from(&words(&["echo", "x"])).unwrap();
    assert_eq!(t.display_name(), "echo");
    let t = CommandTask::try_from(&words(&["exit"])).unwrap();
    assert!(t.is_exit());
    let e = CommandTask::extern_argv(words(&["vim"]));
    assert_eq!(e.display_name(), "vim");
}

#[test]
fn pipeline_commands() {
    let a = PipelineCommand::try_from(&words(&["echo", "hi"])).unwrap();
    let b = PipelineCommand::extern_argv(words(&["wc", "-l"]));
    assert_eq!(a.display_name(), "echo");
    assert_eq!(b.display_name(), "wc");
    let c = CompositeCommand::new(&[a, b])
        .with_stdout_to(Some("out".to_string()))
        .with_stderr_to(None);
    assert_eq!(c.commands_len(), 2);
    assert_eq!(c.commands()[1].display_name(), "wc");
    assert_eq!(c.stdout_to(), Some(&"out".to_string()));
    assert_eq!(c.stderr_to(), None);
    let d = PipelineCommand::from_task(CommandTask::extern_argv(words(&["ls"])));
    assert!(matches!(d.duplicate(), PipelineCommand::Extern { argv } if argv == words(&["ls"])));
}

#[test]
fn error_messages() {
    assert_eq!(EvaluatorError::CommandNotFound.message(), "not found");
    assert_eq!(EvaluatorError::SplitError.message(), "input could not be parsed");
    assert_eq!(EvaluatorError::WrongNumberOfArguments(3).message(), "wrong number of arguments");
    assert_eq!(
        EvaluatorError::FileOrDirNotFound("/nope".to_string()).message(),
        "no such file or directory"
    );
}
