use pesh::cli::completion::PeshCompletion;
use pesh::cli::theme::posix::{PosixTheme, PROMPT_DOLLAR};
use pesh::cli::CliArgs;

fn words(ws: &[&str]) -> Vec<String> {
    ws.iter().map(|w| w.to_string()).collect()
}

#[test]
fn interactive_without_command() {
    let a = CliArgs { command: None, posix: false, debug: false };
    assert!(a.is_interactive());
    let a = CliArgs { command: Some("ls".to_string()), posix: true, debug: false };
    assert!(!a.is_interactive());
}

#[test]
fn matches_are_fitting_candidates_once() {
    let c = PeshCompletion::new();
    assert_eq!(c.find_matches_for("e", &words(&["env", "exit", "ls"])), ["exit", "echo", "env"]);
    assert_eq!(c.find_matches_for("", &[]), ["exit", "pwd", "cd", "echo", "type"]);
    assert_eq!(c.find_matches_for("zz", &words(&["ls"])), Vec::<String>::new());
    assert_eq!(c.find_matches_for("l", &words(&["ls", "ls", "less"])), ["ls", "less"]);
}

#[test]
fn completion_sequence() {
    let mut c = PeshCompletion::new();
    assert_eq!(c.get("ec", &[]), Some("echo".to_string()));
    assert_eq!(c.get("ech", &[]), Some("echo".to_string()));
    assert_eq!(c.get("ty", &[]), Some("type".to_string()));
    assert_eq!(c.get("zzz", &[]), None);
    assert_eq!(c.get("p", &words(&["python"])), Some("pwd".to_string()));
}

#[test]
fn posix_theme_texts() {
    let t = PosixTheme;
    assert_eq!(PROMPT_DOLLAR, '$');
    assert_eq!(t.format_prompt("$"), "$");
    assert_eq!(t.format_error("bad"), "error: bad");
    assert_eq!(t.format_confirm_prompt("Go?", None), "Go? [y/n] ");
    assert_eq!(t.format_confirm_prompt("Go?", Some(true)), "Go? [Y/n] ");
    assert_eq!(t.format_confirm_prompt("", Some(false)), "[y/N] ");
    assert_eq!(t.format_confirm_prompt_selection("Go?", Some(true)), "Go? yes");
    assert_eq!(t.format_confirm_prompt_selection("", Some(false)), "no");
    assert_eq!(t.format_confirm_prompt_selection("", None), "");
    assert_eq!(t.format_confirm_prompt_selection("Go?", None), "Go?");
    assert_eq!(t.format_input_prompt("Name", Some("bob")), "Name [bob]: ");
    assert_eq!(t.format_input_prompt("", Some("bob")), "[bob]: ");
    assert_eq!(t.format_input_prompt("$", None), "$ ");
    assert_eq!(t.format_input_prompt_selection("$", "ls"), "$ ls");
    assert_eq!(t.format_password_prompt("Pw"), "Pw ");
    assert_eq!(t.format_password_prompt_selection("Pw"), "Pw [hidden]");
    assert_eq!(t.format_select_prompt("Pick"), "Pick");
    assert_eq!(t.format_select_prompt_selection("Pick", "a"), "Pick a");
    assert_eq!(t.format_multi_select_prompt("Pick"), "Pick");
    assert_eq!(t.format_sort_prompt("Sort"), "Sort");
    assert_eq!(t.format_multi_select_prompt_selection("Pick", &words(&["a", "b"])), "Pick a, b");
    assert_eq!(t.format_sort_prompt_selection("Sort", &words(&[])), "Sort ");
    assert_eq!(t.format_select_prompt_item("x", true), "> x");
    assert_eq!(t.format_select_prompt_item("x", false), "  x");
    assert_eq!(t.format_multi_select_prompt_item("x", true, false), "  [x] x");
    assert_eq!(t.format_multi_select_prompt_item("x", false, true), "> [ ] x");
    assert_eq!(t.format_sort_prompt_item("x", true, true), "> [x] x");
    assert_eq!(t.format_sort_prompt_item("x", true, false), "  [ ] x");
}

#[test]
fn repeated_presses_scroll_through_matches() {
    let programs = words(&["env", "exit"]);
    let mut c = PeshCompletion::new();
    assert_eq!(c.get("e", &programs), Some("exit".to_string()));
    assert_eq!(c.get("e", &programs), Some("echo".to_string()));
    assert_eq!(c.get("e", &programs), Some("env".to_string()));
    assert_eq!(c.get("e", &programs), Some("exit".to_string()));
    assert_eq!(c.get("c", &programs), Some("cd".to_string()));
    assert_eq!(c.get("c", &programs), Some("cd".to_string()));
}
