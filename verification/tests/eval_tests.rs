use pesh::error::EvaluatorError;
use pesh::eval::command::builtins::{
    cd_target, echo_output, is_home_path, type_builtin_report, type_path_report, OutputStream,
};
use pesh::eval::command::{BuiltinCommand, CommandTask};
use pesh::eval::parser::split;
use pesh::eval::{first_executable, DirEntryInfo};
use pesh::eval::{
    eval_command, eval_raw, eval_raw_checked, eval_task, normalize_redirections, path_entries,
    supports_command,
};

fn words(ws: &[&str]) -> Vec<String> {
    ws.iter().map(|w| w.to_string()).collect()
}

#[test]
fn eval_split() {
    assert_eq!(split("hello world").unwrap(), ["hello", "world"]);
    assert_eq!(
        split("hello world 19193139-asfjkagsjiju==??").unwrap(),
        ["hello", "world", "19193139-asfjkagsjiju==??"]
    );
    assert_eq!(split("hello \"world of love\"").unwrap(), ["hello", "world of love"]);
    assert_eq!(split("hello \"world \\\"of love\"").unwrap(), ["hello", "world \"of love"]);
    assert_eq!(
        split("hello \"world's boom \\\"of love\"").unwrap(),
        ["hello", "world's boom \"of love"]
    );
}

#[test]
fn split_refuses_unclosed_quote() {
    assert!(matches!(split("echo \"open"), Err(EvaluatorError::SplitError)));
    assert_eq!(split("").unwrap(), Vec::<String>::new());
}

#[test]
fn normalize_examples() {
    assert_eq!(normalize_redirections("echo hi"), "echo hi");
    assert_eq!(normalize_redirections("echo hi>out"), "echo hi > out");
    assert_eq!(normalize_redirections("echo hi>>out"), "echo hi >> out");
    assert_eq!(normalize_redirections("ls 2>err"), "ls  2> err");
    assert_eq!(normalize_redirections("ls 1>>log"), "ls  1>> log");
    assert_eq!(normalize_redirections("ls >"), "ls  > ");
    assert_eq!(normalize_redirections("a 2>"), "a  > ");
    assert_eq!(normalize_redirections("x2"), "x2");
    assert_eq!(normalize_redirections("&"), "&");
    assert_eq!(normalize_redirections("12 34"), "12 34");
    assert_eq!(normalize_redirections(""), "");
}

#[test]
fn plain_line_unchanged() {
    for line in ["ls -la /tmp", "echo 1 2 3", "a&b", "cd ~", "type type"] {
        assert_eq!(normalize_redirections(line), line);
    }
}

#[test]
fn eval_command_redirections() {
    let c = eval_command(&words(&["echo", "hi", ">", "out"])).unwrap();
    assert_eq!(c.stdout_to(), Some(&"out".to_string()));
    assert!(!c.stdout_append());
    assert_eq!(c.stderr_to(), None);
    match c.task() {
        CommandTask::Builtin(BuiltinCommand::echo(args)) => assert_eq!(args, &words(&["hi"])),
        other => panic!("unexpected {:?}", other),
    }

    let c = eval_command(&words(&["ls", "1>>", "log", "2>", "err"])).unwrap();
    assert_eq!(c.stdout_to(), Some(&"log".to_string()));
    assert!(c.stdout_append());
    assert_eq!(c.stderr_to(), Some(&"err".to_string()));
    assert!(!c.stderr_append());
    match c.task() {
        CommandTask::Extern { argv } => assert_eq!(argv, &words(&["ls"])),
        other => panic!("unexpected {:?}", other),
    }

    let c = eval_command(&words(&["ls", "2>>", "e", ">>", "o"])).unwrap();
    assert!(c.stderr_append());
    assert!(c.stdout_append());

    let c = eval_command(&words(&["ls", "-l"])).unwrap();
    assert_eq!(c.stdout_to(), None);
    assert_eq!(c.stderr_to(), None);
}

#[test]
fn eval_command_last_redirection_wins() {
    let c = eval_command(&words(&["ls", ">", "a", ">", "b"])).unwrap();
    assert_eq!(c.stdout_to(), Some(&"b".to_string()));
}

#[test]
fn eval_command_argument_errors() {
    assert!(matches!(
        eval_command(&words(&["type", ">", "f"])),
        Err(EvaluatorError::WrongNumberOfArguments(0))
    ));
}

#[test]
fn eval_task_examples() {
    assert!(matches!(eval_task(&words(&["pwd"])), Ok(CommandTask::Builtin(BuiltinCommand::pwd))));
}

#[test]
fn support_checks() {
    assert!(supports_command(&words(&["ls"])));
    assert!(!supports_command(&words(&["ls", ";", "pwd"])));
    assert!(!supports_command(&words(&["ls", "&&", "pwd"])));
    assert!(!supports_command(&words(&["ls", "||", "pwd"])));
    assert!(!supports_command(&words(&["ls", "&>", "f"])));
    assert!(!supports_command(&words(&["ls", "3>", "f"])));
    assert!(!supports_command(&words(&[">", "f"])));
    assert!(!supports_command(&words(&[])));
    assert!(!supports_command(&words(&["type", ""])));
    assert!(supports_command(&words(&["type", "", "x"])));
}

#[test]
fn eval_raw_examples() {
    let c = eval_raw("echo hello world>greeting.txt").unwrap();
    assert_eq!(c.stdout_to(), Some(&"greeting.txt".to_string()));
    match c.task() {
        CommandTask::Builtin(BuiltinCommand::echo(args)) => {
            assert_eq!(args, &words(&["hello", "world"]))
        }
        other => panic!("unexpected {:?}", other),
    }
    let c = eval_raw("ls -l 2>>errors").unwrap();
    assert_eq!(c.stderr_to(), Some(&"errors".to_string()));
    assert!(c.stderr_append());
    let c = eval_raw("cat \"my file\"").unwrap();
    match c.task() {
        CommandTask::Extern { argv } => assert_eq!(argv, &words(&["cat", "my file"])),
        other => panic!("unexpected {:?}", other),
    }
    assert!(matches!(eval_raw("echo \"oops"), Err(EvaluatorError::SplitError)));
    assert!(matches!(eval_raw("cd a b"), Err(EvaluatorError::WrongNumberOfArguments(2))));
    assert!(matches!(eval_raw("echo"), Err(EvaluatorError::WrongNumberOfArguments(0))));
}

#[test]
fn eval_raw_checked_examples() {
    assert!(eval_raw_checked("ls ; pwd").is_none());
    assert!(eval_raw_checked("ls 3>x").is_none());
    assert!(eval_raw_checked("").is_none());
    assert!(eval_raw_checked("> out").is_none());
    assert!(matches!(eval_raw_checked("echo \"x"), Some(Err(EvaluatorError::SplitError))));
    let c = eval_raw_checked("pwd").unwrap().unwrap();
    assert!(matches!(c.task(), CommandTask::Builtin(BuiltinCommand::pwd)));
    let c = eval_raw_checked("exit").unwrap().unwrap();
    assert!(c.task().is_exit());
}

#[test]
fn echo_output_examples() {
    assert_eq!(echo_output(&words(&["a", "b", "c"])), "a b c\n");
    assert_eq!(echo_output(&words(&["one"])), "one\n");
    assert_eq!(echo_output(&words(&[])), "");
    assert_eq!(echo_output(&words(&["", "x"])), " x\n");
}

#[test]
fn type_reports() {
    let r = type_builtin_report("cd").unwrap();
    assert_eq!(r.text, "cd is a shell builtin\n");
    assert_eq!(r.stream, OutputStream::Stdout);
    assert!(r.success);
    assert!(type_builtin_report("ls").is_none());
    let r = type_path_report("ls", Some("/usr/bin/ls"));
    assert_eq!(r.text, "ls is /usr/bin/ls\n");
    assert_eq!(r.stream, OutputStream::Stdout);
    assert!(r.success);
    let r = type_path_report("nope", None);
    assert_eq!(r.text, "nope not found\n");
    assert_eq!(r.stream, OutputStream::Stderr);
    assert!(!r.success);
}

#[test]
fn cd_targets() {
    assert_eq!(cd_target(None, "/home/u"), "/home/u");
    assert_eq!(cd_target(Some("~"), "/home/u"), "/home/u");
    assert_eq!(cd_target(Some("~/"), "/home/u"), "/home/u");
    assert_eq!(cd_target(Some("~/./"), "/home/u"), "/home/u");
    assert_eq!(cd_target(Some("~x"), "/home/u"), "~x");
    assert_eq!(cd_target(Some("~/.."), "/home/u"), "~/..");
    assert_eq!(cd_target(Some("/tmp"), "/home/u"), "/tmp");
    assert!(is_home_path("~//."));
    assert!(!is_home_path("~/.x"));
    assert!(!is_home_path(""));
}

#[test]
fn path_entries_examples() {
    assert_eq!(path_entries("/usr/bin:/bin"), ["/usr/bin", "/bin"]);
    assert_eq!(path_entries(""), [""]);
    assert_eq!(path_entries("a::b:"), ["a", "", "b", ""]);
    assert_eq!(path_entries("/usr/bin:/usr/sbin").join(":"), "/usr/bin:/usr/sbin");
}

#[test]
fn normalize_letter_before_redirection() {
    assert_eq!(normalize_redirections("a>b"), "a > b");
    assert_eq!(normalize_redirections("ls x>y"), "ls x > y");
}

#[test]
fn plain_line_evaluates_as_split_then_words() {
    let line = "echo \"a b\" c";
    let direct = eval_raw(line).unwrap();
    let via = eval_command(&split(line).unwrap()).unwrap();
    match (direct.task(), via.task()) {
        (CommandTask::Builtin(BuiltinCommand::echo(a)), CommandTask::Builtin(BuiltinCommand::echo(b))) => {
            assert_eq!(a, b);
            assert_eq!(a, &words(&["a b", "c"]));
        }
        other => panic!("unexpected {:?}", other),
    }
}

#[test]
fn plain_words_evaluate_as_task() {
    let ws = words(&["cat", "-n", "file"]);
    let c = eval_command(&ws).unwrap();
    assert_eq!(c.stdout_to(), None);
    assert_eq!(c.stderr_to(), None);
    assert!(!c.stdout_append() && !c.stderr_append());
    match (c.task(), CommandTask::try_from(&ws).unwrap()) {
        (CommandTask::Extern { argv: a }, CommandTask::Extern { argv: b }) => assert_eq!(a, &b),
        other => panic!("unexpected {:?}", other),
    }
    assert!(matches!(
        eval_task(&words(&["echo"])),
        Err(EvaluatorError::WrongNumberOfArguments(0))
    ));
}

#[test]
fn first_executable_choice() {
    let e = |n: &str, d: bool, x: bool| DirEntryInfo { name: n.to_string(), is_dir: d, executable: x };
    let entries = vec![
        e("bash", true, true),
        e("bash", false, false),
        e("sh", false, true),
        e("bash", false, true),
        e("bash", false, true),
    ];
    assert_eq!(first_executable(&entries, "bash"), Some(3));
    assert_eq!(first_executable(&entries, "sh"), Some(2));
    assert_eq!(first_executable(&entries, "zsh"), None);
}

#[test]
fn failure_lines() {
    let t = CommandTask::try_from(&words(&["ls"])).unwrap();
    assert_eq!(t.failure_line("not found"), "ls: not found");
    let t = CommandTask::try_from(&words(&["cd", "/x"])).unwrap();
    assert_eq!(t.failure_line("no such file or directory"), "cd: no such file or directory");
}
