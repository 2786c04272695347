//! The command-matching engine: arity matching, parsing, and first-match
//! dispatch over a registry.

use remslice::command::{run_command, Action, ArgsLim, Command};
use remslice::command_lists::{get_config_commands, get_rem_commands};

fn cmd(names: &[&str], args_lim: ArgsLim, action: Action) -> Command {
    Command::new(names.iter().map(|s| s.to_string()).collect(), args_lim, action)
}

#[test]
fn fixed_matches_exact_count_only() {
    let c = cmd(&["line"], ArgsLim::Fixed(1), Action::Line);
    assert!(c.matches("line", 1));
    assert!(!c.matches("line", 0));
    assert!(!c.matches("line", 2));
    assert!(!c.matches("lin", 1));
    assert!(!c.matches("lines", 1));
}

#[test]
fn no_args_matches_zero_only() {
    let c = cmd(&["q", "exit", "quit"], ArgsLim::NoArgs, Action::Quit);
    assert!(c.matches("q", 0));
    assert!(c.matches("exit", 0));
    assert!(c.matches("quit", 0));
    assert!(!c.matches("quit", 1));
    assert!(!c.matches("bye", 0));
}

#[test]
fn endless_matches_at_least_count() {
    let c = cmd(&["tip", "b"], ArgsLim::EndlessLastArg(2), Action::TipGrep);
    assert!(c.matches("tip", 2));
    assert!(c.matches("tip", 3));
    assert!(c.matches("b", 17));
    assert!(!c.matches("tip", 1));
    assert!(!c.matches("tip", 0));
}

#[test]
fn fixed_parse_length_equals_supplied_count() {
    let c = cmd(&["two"], ArgsLim::Fixed(2), Action::Line);
    let args = c.parse_input("two a b");
    assert_eq!(args, vec!["a".to_string(), "b".to_string()]);
    let c0 = cmd(&["none"], ArgsLim::NoArgs, Action::Quit);
    let args0 = c0.parse_input("none");
    assert!(args0.is_empty());
}

#[test]
fn consecutive_spaces_make_empty_tokens() {
    // Every single space is a delimiter: "a  b" supplies three arguments,
    // the middle one empty. Preserved observed behaviour.
    let c = cmd(&["x"], ArgsLim::Fixed(3), Action::Line);
    assert!(c.matches("x", 3));
    let args = c.parse_input("x a  b");
    assert_eq!(args, vec!["a".to_string(), "".to_string(), "b".to_string()]);
}

#[test]
fn non_trailing_arguments_are_lower_cased() {
    let c = cmd(&["al"], ArgsLim::Fixed(1), Action::Al);
    let args = c.parse_input("al MyAlias");
    assert_eq!(args, vec!["myalias".to_string()]);
}

#[test]
fn endless_trailing_argument_is_verbatim() {
    // The declared count of arguments, the last of which keeps the rest of
    // the line verbatim, however many spaces it holds.
    let three = cmd(&["cmd"], ArgsLim::EndlessLastArg(3), Action::Tda);
    let args = three.parse_input("cmd a1 a2 rest of the line");
    assert_eq!(
        args,
        vec!["a1".to_string(), "a2".to_string(), "rest of the line".to_string()]
    );
    let two = cmd(&["cmd"], ArgsLim::EndlessLastArg(2), Action::Tda);
    let spaced = two.parse_input("cmd a1 rest  with   spaces");
    assert_eq!(
        spaced,
        vec!["a1".to_string(), "rest  with   spaces".to_string()]
    );
    assert_eq!(
        two.parse_input("cmd a1 a2 rest of the line"),
        vec!["a1".to_string(), "a2 rest of the line".to_string()]
    );
}

#[test]
fn endless_tail_keeps_case() {
    let c = cmd(&["grep"], ArgsLim::EndlessLastArg(1), Action::Grep);
    let args = c.parse_input("grep Mixed Case Tail");
    assert_eq!(args, vec!["Mixed Case Tail".to_string()]);
}

#[test]
fn overload_precedence_first_match_wins() {
    // Two entries named "tip": the more specific arity stands first and
    // takes every input it accepts.
    let reg = vec![
        cmd(&["tip"], ArgsLim::EndlessLastArg(2), Action::TipGrep),
        cmd(&["tip"], ArgsLim::EndlessLastArg(1), Action::TipLoad),
    ];
    let two = run_command("tip x y", &reg).expect("two-argument tip must dispatch");
    assert_eq!(two.index, 0);
    assert_eq!(two.args, vec!["x".to_string(), "y".to_string()]);
    let one = run_command("tip x", &reg).expect("one-argument tip must dispatch");
    assert_eq!(one.index, 1);
    assert_eq!(one.args, vec!["x".to_string()]);
}

#[test]
fn dispatch_quit_and_reject_extra_argument() {
    let reg = get_rem_commands();
    let hit = run_command("quit", &reg).expect("quit must dispatch");
    assert_eq!(reg[hit.index].action(), Action::Quit);
    assert!(hit.args.is_empty());
    assert!(run_command("quit now", &reg).is_none());
}

#[test]
fn dispatch_lower_cases_the_command_name() {
    let reg = get_rem_commands();
    let hit = run_command("QUIT", &reg).expect("upper-case quit must dispatch");
    assert_eq!(reg[hit.index].action(), Action::Quit);
}

#[test]
fn dispatch_empty_and_unknown_lines() {
    let reg = get_rem_commands();
    assert!(run_command("", &reg).is_none());
    assert!(run_command("definitely_not_a_command", &reg).is_none());
}

#[test]
fn dispatch_tdt_overloads() {
    let reg = get_rem_commands();
    let bare = run_command("tdt", &reg).expect("bare tdt must dispatch");
    assert_eq!(reg[bare.index].action(), Action::TdtOne);
    let counted = run_command("tdt 3", &reg).expect("counted tdt must dispatch");
    assert_eq!(reg[counted.index].action(), Action::TdtArg);
    assert_eq!(counted.args, vec!["3".to_string()]);
}

#[test]
fn real_table_tip_overloads() {
    // The interactive table holds two "tip" entries, the more specific
    // arity first.
    let reg = get_rem_commands();
    let two = run_command("tip x y", &reg).expect("two-argument tip must dispatch");
    assert_eq!(reg[two.index].action(), Action::TipGrep);
    assert_eq!(two.args, vec!["x".to_string(), "y".to_string()]);
    let one = run_command("tip x", &reg).expect("one-argument tip must dispatch");
    assert_eq!(reg[one.index].action(), Action::TipLoad);
    assert_eq!(one.args, vec!["x".to_string()]);
}

#[test]
fn config_table_recognizes_its_vocabulary() {
    let reg = get_config_commands();
    let tip = run_command("tip alpha /some/path", &reg).expect("tip line must dispatch");
    assert_eq!(reg[tip.index].action(), Action::CfgTip);
    assert_eq!(tip.args, vec!["alpha".to_string(), "/some/path".to_string()]);
    let todo = run_command("todo my todos.md", &reg).expect("todo line must dispatch");
    assert_eq!(reg[todo.index].action(), Action::CfgTodo);
    assert_eq!(todo.args, vec!["my todos.md".to_string()]);
    assert!(run_command("score", &reg).is_none());
}
