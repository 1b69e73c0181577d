use yash::builtins::{cd, command, exec, exit, r, set_pos, source, Action, Builtin, BuiltinError, NativeBuiltin};
use yash::command::{Command, ParseError, SpecialAction};
use yash::shell::{split_assignment, Shell};

fn words(w: &[&str]) -> Vec<String> {
    w.iter().map(|s| s.to_string()).collect()
}

fn cmd(w: &[&str]) -> Command {
    Command::parse_args(words(w)).unwrap()
}

#[test]
fn parse_plain_command() {
    let c = cmd(&["echo", "a", "b"]);
    assert_eq!(c.command, "echo");
    assert_eq!(c.args, words(&["a", "b"]));
    assert_eq!(c.special_action, None);
    let e = Command::parse_args(vec![]).unwrap();
    assert_eq!(e.command, "");
    assert!(e.args.is_empty());
}

#[test]
fn parse_redirection_and_pipe() {
    let c = cmd(&["ls", "-l", ">", "out.txt"]);
    assert_eq!(c.args, words(&["-l"]));
    assert_eq!(c.special_action, Some(SpecialAction::Redir { to: "out.txt".to_string() }));
    let c = cmd(&["ls", "|", "grep", "x", ">", "f"]);
    assert!(c.args.is_empty());
    match c.special_action {
        Some(SpecialAction::Pipe { next_command }) => {
            assert_eq!(next_command.command, "grep");
            assert_eq!(next_command.args, words(&["x"]));
            assert_eq!(next_command.special_action, Some(SpecialAction::Redir { to: "f".to_string() }));
        }
        other => panic!("expected a pipe, got {:?}", other),
    }
    assert_eq!(Command::parse_args(words(&["ls", ">"])), Err(ParseError::MissingTarget));
    assert_eq!(Command::parse_args(words(&["a", "|", "b", ">"])), Err(ParseError::MissingTarget));
}

#[test]
fn shift_drops_the_command_name() {
    let c = cmd(&["exec", "vim", "f"]).shift();
    assert_eq!(c.command, "vim");
    assert_eq!(c.args, words(&["f"]));
    let c = cmd(&["exec"]).shift();
    assert_eq!(c.command, "");
    let c = exec(cmd(&["exec", "ls"]));
    assert_eq!(c.command, "ls");
}

#[test]
fn variables() {
    let mut shell = Shell::new();
    assert_eq!(shell.get_var("FOO"), None);
    shell.set_var("FOO".into(), "fool".into());
    assert_eq!(shell.get_var("FOO"), Some("fool".to_string()));
    shell.set_var("FOO".into(), "bar".into());
    assert_eq!(shell.get_var("FOO"), Some("bar".to_string()));
}

#[test]
fn assignment_before_a_command() {
    let mut shell = Shell::new();
    assert_eq!(shell.try_command_or_var(cmd(&["A=1"])), None);
    assert_eq!(shell.get_var("A"), Some("1".to_string()));
    let c = shell.try_command_or_var(cmd(&["B=x=y", "env", "-i"])).unwrap();
    assert_eq!(c.command, "env");
    assert_eq!(c.args, words(&["-i"]));
    assert_eq!(shell.take_oneshot_var(), Some(("B".to_string(), "x=y".to_string())));
    assert_eq!(shell.take_oneshot_var(), None);
    let c = shell.try_command_or_var(cmd(&["ls"])).unwrap();
    assert_eq!(c.command, "ls");
}

#[test]
fn aliases_resolve_to_builtins_or_programs() {
    let mut shell = Shell::new();
    let r = shell.resolve(cmd(&["cd", "/"])).unwrap();
    assert_eq!(r.builtin, Some(NativeBuiltin::Cd));
    let r = shell.resolve(cmd(&["ls"])).unwrap();
    assert_eq!(r.builtin, None);
    shell.register_builtin(Builtin::new_alias("ll".into(), "ls".into(), words(&["-l"])));
    shell.register_builtin(Builtin::new_alias("la".into(), "ll".into(), words(&["-a"])));
    let r = shell.resolve(cmd(&["la", "src"])).unwrap();
    assert_eq!(r.builtin, None);
    assert_eq!(r.command.command, "ls");
    assert_eq!(r.command.args, words(&["-l", "-a", "src"]));
    assert_eq!(shell.builtin("ll"), Some(&Action::Alias { cmd: "ls".into(), extra_args: words(&["-l"]) }));
    shell.register_builtin(Builtin::new_fn("ll".into(), NativeBuiltin::Exit));
    assert_eq!(shell.builtin("ll"), Some(&Action::Native(NativeBuiltin::Exit)));
}

#[test]
fn alias_loops_are_refused() {
    let mut shell = Shell::new();
    shell.register_builtin(Builtin::new_alias("a".into(), "a".into(), vec![]));
    assert_eq!(shell.resolve(cmd(&["a"])).unwrap_err(), BuiltinError::TooDeep);
}

#[test]
fn exit_and_set_pos() {
    let mut shell = Shell::new();
    assert_eq!(shell.exit_code(), None);
    assert_eq!(exit(&mut shell, cmd(&["exit", "3"])), Ok(()));
    assert_eq!(shell.exit_code(), Some(3));
    assert_eq!(exit(&mut shell, cmd(&["exit"])), Ok(()));
    assert_eq!(shell.exit_code(), Some(0));
    assert_eq!(exit(&mut shell, cmd(&["exit", "-7"])), Ok(()));
    assert_eq!(shell.exit_code(), Some(-7));
    assert_eq!(exit(&mut shell, cmd(&["exit", "x"])), Ok(()));
    assert_eq!(shell.exit_code(), Some(0));
    assert_eq!(set_pos(&mut shell, cmd(&["set_pos", "5", "10"])), Ok(b"\x1b[10;5H".to_vec()));
    assert_eq!(set_pos(&mut shell, cmd(&["set_pos", "5"])), Err(BuiltinError::MissingArgument));
    assert_eq!(set_pos(&mut shell, cmd(&["set_pos", "300", "1"])), Err(BuiltinError::InvalidNumber));
}

#[test]
fn assignments_split_at_the_first_equals() {
    assert_eq!(split_assignment("A=b=c"), Some(("A".to_string(), "b=c".to_string())));
    assert_eq!(split_assignment("A="), Some(("A".to_string(), String::new())));
    assert_eq!(split_assignment("plain"), None);
}

#[test]
fn removing_aliases_keeps_native_builtins() {
    let mut shell = Shell::new();
    assert_eq!(shell.builtins().len(), 9);
    shell.register_builtin(Builtin::new_alias("ll".into(), "ls".into(), words(&["-l"])));
    assert_eq!(shell.builtins().len(), 10);
    assert!(shell.remove_alias("ll"));
    assert!(!shell.remove_alias("ll"));
    assert!(!shell.remove_alias("cd"));
    assert_eq!(shell.builtins().len(), 9);
    assert_eq!(shell.builtin("ll"), None);
}

#[test]
fn builtin_arguments() {
    assert_eq!(cd(cmd(&["cd", "/tmp"])), Some("/tmp".to_string()));
    assert_eq!(cd(cmd(&["cd"])), None);
    assert_eq!(source(cmd(&["source"])), Err(BuiltinError::MissingArgument));
    assert_eq!(source(cmd(&["source", "rc", "x"])), Ok("rc".to_string()));
    let c = command(cmd(&["command", "cd", "/"]));
    assert_eq!(c.command, "cd");
    assert_eq!(c.args, words(&["/"]));
    let c = r(cmd(&["r"]));
    assert_eq!(c.command, "cargo");
    assert_eq!(c.args, words(&["run"]));
}
