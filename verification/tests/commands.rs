use drshell::commands::{
    builtin_name, generate_cmd, parse_cmd, parse_cmd_fail_process, Cmd, CmdParseFail,
    HistoryArgs, BUILTIN_CMDS,
};
use drshell::env::FileFacts;

fn words(list: &[&str]) -> Vec<String> {
    list.iter().map(|w| w.to_string()).collect()
}

fn executable(path: &str, name: &str) -> FileFacts {
    FileFacts {
        path: Some(path.to_string()),
        name: Some(name.to_string()),
        is_file: true,
        mode: Some(0o755),
    }
}

fn nothing() -> Vec<FileFacts> {
    vec![]
}

#[test]
fn an_empty_stage_is_no_command() {
    assert!(matches!(
        parse_cmd(vec![], &nothing()),
        Err(CmdParseFail::NoCommand)
    ));
}

#[test]
fn a_builtin_with_dash_h_asks_for_help() {
    for name in ["echo", "exit", "type", "pwd", "cd", "list-builtins", "history"] {
        assert!(
            matches!(
                parse_cmd(words(&[name, "-h"]), &nothing()),
                Ok(Cmd::BuiltinHelp(helped)) if helped == name
            ),
            "{}",
            name
        );
        assert!(matches!(
            parse_cmd(words(&[name, "-h", "more"]), &nothing()),
            Ok(Cmd::BuiltinHelp(helped)) if helped == name
        ));
    }
}

#[test]
fn help_is_asked_only_by_the_second_word() {
    assert!(matches!(
        parse_cmd(words(&["echo", "a", "-h"]), &nothing()),
        Ok(Cmd::Echo(args)) if args == words(&["a", "-h"])
    ));
    assert!(matches!(
        parse_cmd(words(&["ls", "-h"]), &nothing()),
        Err(CmdParseFail::NotCommand(name)) if name == "ls"
    ));
}

#[test]
fn echo_takes_all_its_words() {
    assert!(matches!(
        parse_cmd(words(&["echo"]), &nothing()),
        Ok(Cmd::Echo(args)) if args.is_empty()
    ));
    assert!(matches!(
        parse_cmd(words(&["echo", "a", "b c"]), &nothing()),
        Ok(Cmd::Echo(args)) if args == words(&["a", "b c"])
    ));
}

#[test]
fn exit_takes_nothing_or_zero_or_one() {
    assert!(matches!(parse_cmd(words(&["exit"]), &nothing()), Ok(Cmd::Exit(0))));
    assert!(matches!(parse_cmd(words(&["exit", "0"]), &nothing()), Ok(Cmd::Exit(0))));
    assert!(matches!(parse_cmd(words(&["exit", "1"]), &nothing()), Ok(Cmd::Exit(1))));
    assert!(matches!(parse_cmd(words(&["exit", "+1"]), &nothing()), Ok(Cmd::Exit(1))));
    assert!(matches!(parse_cmd(words(&["exit", "-0"]), &nothing()), Ok(Cmd::Exit(0))));
    assert!(matches!(parse_cmd(words(&["exit", "001"]), &nothing()), Ok(Cmd::Exit(1))));
    for bad in ["2", "-1", "one", "", "1 ", "0x1", "99999999999", "+", "-"] {
        assert!(
            matches!(
                parse_cmd(words(&["exit", bad]), &nothing()),
                Err(CmdParseFail::ExitArgsError)
            ),
            "{:?}",
            bad
        );
    }
    assert!(matches!(
        parse_cmd(words(&["exit", "0", "1"]), &nothing()),
        Err(CmdParseFail::ExitArgsError)
    ));
}

#[test]
fn type_needs_a_name() {
    assert!(matches!(
        parse_cmd(words(&["type"]), &nothing()),
        Err(CmdParseFail::TypeArgsError)
    ));
    assert!(matches!(
        parse_cmd(words(&["type", "ls", "more"]), &nothing()),
        Ok(Cmd::Type(name)) if name == "ls"
    ));
}

#[test]
fn pwd_and_the_builtin_list_take_no_notice_of_arguments() {
    assert!(matches!(parse_cmd(words(&["pwd"]), &nothing()), Ok(Cmd::Pwd)));
    assert!(matches!(parse_cmd(words(&["pwd", "x"]), &nothing()), Ok(Cmd::Pwd)));
    assert!(matches!(
        parse_cmd(words(&["list-builtins"]), &nothing()),
        Ok(Cmd::BuiltinLs)
    ));
}

#[test]
fn cd_takes_exactly_one_directory() {
    assert!(matches!(
        parse_cmd(words(&["cd", "/tmp"]), &nothing()),
        Ok(Cmd::Cd(dir)) if dir == "/tmp"
    ));
    assert!(matches!(
        parse_cmd(words(&["cd"]), &nothing()),
        Err(CmdParseFail::CdArgsError)
    ));
    assert!(matches!(
        parse_cmd(words(&["cd", "a", "b"]), &nothing()),
        Err(CmdParseFail::CdArgsError)
    ));
}

#[test]
fn history_takes_a_limit_or_a_file() {
    assert!(matches!(
        parse_cmd(words(&["history"]), &nothing()),
        Ok(Cmd::History(HistoryArgs::Show(None)))
    ));
    assert!(matches!(
        parse_cmd(words(&["history", "12"]), &nothing()),
        Ok(Cmd::History(HistoryArgs::Show(Some(12))))
    ));
    assert!(matches!(
        parse_cmd(words(&["history", "+007"]), &nothing()),
        Ok(Cmd::History(HistoryArgs::Show(Some(7))))
    ));
    assert!(matches!(
        parse_cmd(words(&["history", "-r", "f"]), &nothing()),
        Ok(Cmd::History(HistoryArgs::ReadFromFile(file))) if file == "f"
    ));
    assert!(matches!(
        parse_cmd(words(&["history", "-w", "g"]), &nothing()),
        Ok(Cmd::History(HistoryArgs::WriteToFile(file))) if file == "g"
    ));
}

#[test]
fn history_refuses_other_arguments() {
    for bad in [
        words(&["history", "-r"]),
        words(&["history", "-w"]),
        words(&["history", "-r", "a", "b"]),
        words(&["history", "-w", "a", "b"]),
        words(&["history", "-1"]),
        words(&["history", "many"]),
        words(&["history", "-a", "f"]),
        words(&["history", ""]),
        words(&["history", "340282366920938463463374607431768211456"]),
    ] {
        assert!(matches!(
            parse_cmd(bad, &nothing()),
            Err(CmdParseFail::HistoryArgsError)
        ));
    }
}

#[test]
fn any_other_name_must_be_an_executable() {
    let probes = vec![executable("/bin/ls", "ls")];
    assert!(matches!(
        parse_cmd(words(&["ls", "-l"]), &probes),
        Ok(Cmd::NotBuiltin(all)) if all == words(&["ls", "-l"])
    ));
    assert!(matches!(
        parse_cmd(words(&["ls", "-l"]), &nothing()),
        Err(CmdParseFail::NotCommand(name)) if name == "ls"
    ));
    let not_runnable = vec![FileFacts {
        path: Some("/etc/passwd".to_string()),
        name: Some("passwd".to_string()),
        is_file: true,
        mode: Some(0o644),
    }];
    assert!(matches!(
        parse_cmd(words(&["passwd"]), &not_runnable),
        Err(CmdParseFail::NotCommand(name)) if name == "passwd"
    ));
}

#[test]
fn a_builtin_is_never_looked_up() {
    let probes = vec![executable("/bin/echo", "echo")];
    assert!(matches!(
        parse_cmd(words(&["echo", "a"]), &probes),
        Ok(Cmd::Echo(_))
    ));
}

#[test]
fn compile_failures_have_their_messages() {
    assert_eq!(parse_cmd_fail_process(CmdParseFail::NoCommand), None);
    assert_eq!(
        parse_cmd_fail_process(CmdParseFail::ExitArgsError),
        Some("no number of exiting!!!".to_string())
    );
    assert_eq!(
        parse_cmd_fail_process(CmdParseFail::TypeArgsError),
        Some("no name of a command!!!".to_string())
    );
    assert_eq!(
        parse_cmd_fail_process(CmdParseFail::CdArgsError),
        Some("no name of a directory!!!".to_string())
    );
    assert_eq!(
        parse_cmd_fail_process(CmdParseFail::NotCommand("frob".to_string())),
        Some("frob: command not found".to_string())
    );
    assert_eq!(
        parse_cmd_fail_process(CmdParseFail::HistoryArgsError),
        Some("wrong args for history!!!".to_string())
    );
}

#[test]
fn the_list_of_builtins_holds_them_all() {
    assert_eq!(
        BUILTIN_CMDS,
        ["echo", "exit", "type", "pwd", "cd", "list-builtins", "history"]
    );
    for name in BUILTIN_CMDS {
        assert_eq!(builtin_name(name), Some(name));
    }
}

#[test]
fn the_builtins_are_known_by_name() {
    for name in ["echo", "exit", "type", "pwd", "cd", "list-builtins", "history"] {
        assert_eq!(builtin_name(name), Some(name));
    }
    for name in ["", "ls", "Echo", "echo ", "lsbuiltin"] {
        assert_eq!(builtin_name(name), None);
    }
}

#[test]
fn an_executable_runs_as_itself() {
    let command = generate_cmd(Cmd::NotBuiltin(words(&["grep", "-n", "a b"])));
    assert_eq!(command.program, "grep");
    assert_eq!(command.args, words(&["-n", "a b"]));
    let command = generate_cmd(Cmd::NotBuiltin(words(&["ls"])));
    assert_eq!(command.program, "ls");
    assert!(command.args.is_empty());
}

#[test]
fn a_builtin_runs_as_the_shell_with_dash_c() {
    let cases: Vec<(Cmd, Vec<String>)> = vec![
        (Cmd::Echo(words(&["a", "b"])), words(&["-c", "echo", "a", "b"])),
        (Cmd::Echo(vec![]), words(&["-c", "echo"])),
        (Cmd::Exit(0), words(&["-c", "exit", "0"])),
        (Cmd::Exit(1), words(&["-c", "exit", "1"])),
        (Cmd::Exit(-12), words(&["-c", "exit", "-12"])),
        (Cmd::Exit(i32::MIN), words(&["-c", "exit", "-2147483648"])),
        (Cmd::Type("ls".to_string()), words(&["-c", "type", "ls"])),
        (Cmd::Pwd, words(&["-c", "pwd"])),
        (Cmd::Cd("/tmp".to_string()), words(&["-c", "cd", "/tmp"])),
        (Cmd::BuiltinLs, words(&["-c", "list-builtins"])),
        (Cmd::BuiltinHelp("cd"), words(&["-c", "cd", "-h"])),
        (
            Cmd::History(HistoryArgs::Show(None)),
            words(&["-c", "history"]),
        ),
        (
            Cmd::History(HistoryArgs::Show(Some(1024))),
            words(&["-c", "history", "1024"]),
        ),
        (
            Cmd::History(HistoryArgs::Show(Some(0))),
            words(&["-c", "history", "0"]),
        ),
        (
            Cmd::History(HistoryArgs::ReadFromFile("f".to_string())),
            words(&["-c", "history", "-r", "f"]),
        ),
        (
            Cmd::History(HistoryArgs::WriteToFile("g".to_string())),
            words(&["-c", "history", "-w", "g"]),
        ),
    ];
    for (cmd, args) in cases {
        let command = generate_cmd(cmd);
        assert_eq!(command.program, "drshell");
        assert_eq!(command.args, args);
    }
}

#[test]
fn what_a_builtin_is_started_with_compiles_to_it_again() {
    let command = generate_cmd(Cmd::History(HistoryArgs::Show(Some(42))));
    let again: Vec<String> = command.args[1..].to_vec();
    assert!(matches!(
        parse_cmd(again, &nothing()),
        Ok(Cmd::History(HistoryArgs::Show(Some(42))))
    ));
    let command = generate_cmd(Cmd::Exit(1));
    let again: Vec<String> = command.args[1..].to_vec();
    assert!(matches!(parse_cmd(again, &nothing()), Ok(Cmd::Exit(1))));
}
