use drshell::args::{parse_args, ArgsParseSuccess, SubCmd};
use drshell::builtins::{builtinhelp, cd, cd_fail_process, echo, exit, type_cmd};
use drshell::commands::{Api, Cmd, CmdParseFail};
use drshell::env::FileFacts;
use drshell::input::split_input;
use drshell::operators::{Opt, OptParseFail};
use drshell::repl::parse_cmds_and_opts;
use drshell::rustyline::{Key, Rustyline};

fn words(list: &[&str]) -> Vec<String> {
    list.iter().map(|w| w.to_string()).collect()
}

fn executable(path: &str, name: &str) -> FileFacts {
    FileFacts {
        path: Some(path.to_string()),
        name: Some(name.to_string()),
        is_file: true,
        mode: Some(0o755),
    }
}

#[test]
fn without_arguments_the_shell_runs_its_loop() {
    assert!(matches!(
        parse_args(vec![], &vec![]),
        Ok(ArgsParseSuccess::NoArgs)
    ));
    assert!(matches!(
        parse_args(words(&["drshell"]), &vec![]),
        Ok(ArgsParseSuccess::NoArgs)
    ));
}

#[test]
fn dash_c_compiles_the_command_that_follows() {
    assert!(matches!(
        parse_args(words(&["drshell", "-c", "echo", "a", "b"]), &vec![]),
        Ok(ArgsParseSuccess::SubCmdExeOver(SubCmd::Eval(Cmd::Echo(args)))) if args == words(&["a", "b"])
    ));
    assert!(matches!(
        parse_args(words(&["drshell", "-c", "frob"]), &vec![]),
        Ok(ArgsParseSuccess::SubCmdExeOver(SubCmd::CmdFail(CmdParseFail::NotCommand(name)))) if name == "frob"
    ));
    assert!(matches!(
        parse_args(words(&["drshell", "-c", "frob"]), &vec![executable("/bin/frob", "frob")]),
        Ok(ArgsParseSuccess::SubCmdExeOver(SubCmd::Eval(Cmd::NotBuiltin(all)))) if all == words(&["frob"])
    ));
    assert!(matches!(
        parse_args(words(&["drshell", "-c"]), &vec![]),
        Ok(ArgsParseSuccess::SubCmdExeOver(SubCmd::CmdFail(
            CmdParseFail::NoCommand
        )))
    ));
}

#[test]
fn dash_o_reads_the_sink_that_follows() {
    assert!(matches!(
        parse_args(words(&["drshell", "-o", "append_stderr", "log"]), &vec![]),
        Ok(ArgsParseSuccess::SubCmdExeOver(SubCmd::Sink(Opt::AppendStderr(file)))) if file == "log"
    ));
    assert!(matches!(
        parse_args(words(&["drshell", "-o", "tee", "log"]), &vec![]),
        Ok(ArgsParseSuccess::SubCmdExeOver(SubCmd::OptFail(
            OptParseFail::WrongOpt
        )))
    ));
    assert!(matches!(
        parse_args(words(&["drshell", "-o"]), &vec![]),
        Ok(ArgsParseSuccess::SubCmdExeOver(SubCmd::OptFail(
            OptParseFail::NoOpt
        )))
    ));
}

#[test]
fn any_other_mode_does_nothing() {
    assert!(matches!(
        parse_args(words(&["drshell", "-x", "echo"]), &vec![]),
        Ok(ArgsParseSuccess::SubCmdExeOver(SubCmd::Nothing))
    ));
}

#[test]
fn every_stage_is_compiled_with_its_own_probes() {
    let parsed = match split_input("ls -l | echo a | wc > out".to_string()) {
        Ok(parsed) => parsed,
        Err(_) => panic!("the line is well formed"),
    };
    let probes = vec![
        vec![executable("/bin/ls", "ls")],
        vec![],
        vec![executable("/usr/bin/wc", "wc")],
    ];
    let (cmds, opts) = match parse_cmds_and_opts(parsed, &probes) {
        Ok(done) => done,
        Err(_) => panic!("every stage names a command"),
    };
    assert_eq!(cmds.len(), 3);
    assert!(matches!(&cmds[0], Cmd::NotBuiltin(all) if *all == words(&["ls", "-l"])));
    assert!(matches!(&cmds[1], Cmd::Echo(args) if *args == words(&["a"])));
    assert!(matches!(&cmds[2], Cmd::NotBuiltin(all) if *all == words(&["wc"])));
    assert_eq!(opts.len(), 1);
    assert!(matches!(&opts[0], Opt::RedirectStdout(file) if file == "out"));
}

#[test]
fn the_first_stage_that_fails_is_reported() {
    let parsed = match split_input("ls | frob | cd | nope".to_string()) {
        Ok(parsed) => parsed,
        Err(_) => panic!("the line is well formed"),
    };
    let probes = vec![vec![executable("/bin/ls", "ls")], vec![], vec![], vec![]];
    assert!(matches!(
        parse_cmds_and_opts(parsed, &probes),
        Err(CmdParseFail::NotCommand(name)) if name == "frob"
    ));
}

#[test]
fn a_stage_without_probes_is_not_found() {
    let parsed = match split_input("ls | wc".to_string()) {
        Ok(parsed) => parsed,
        Err(_) => panic!("the line is well formed"),
    };
    let probes = vec![vec![executable("/bin/ls", "ls")]];
    assert!(matches!(
        parse_cmds_and_opts(parsed, &probes),
        Err(CmdParseFail::NotCommand(name)) if name == "wc"
    ));
}

#[test]
fn a_single_arrow_walks_the_history() {
    let editor = Rustyline::new();
    assert!(matches!(
        editor.handle(&vec![Key::Up]),
        Some(Api::DisplayPreviousCmd)
    ));
    assert!(matches!(
        editor.handle(&vec![Key::Down]),
        Some(Api::DisplayNextCmd)
    ));
    assert!(editor.handle(&vec![Key::Other]).is_none());
    assert!(editor.handle(&vec![]).is_none());
    assert!(editor.handle(&vec![Key::Up, Key::Up]).is_none());
    assert!(editor.handle(&vec![Key::Other, Key::Down]).is_none());
}

#[test]
fn every_builtin_has_its_help() {
    assert_eq!(
        builtinhelp("echo"),
        Some("Description:\necho the words\nUsage:\necho <STRING>".to_string())
    );
    assert_eq!(
        builtinhelp("exit"),
        Some(
            "Description:\nterminate the shell progress\nUsage:\nexit <NUMBER>\nDetails:\nthe number can be 0 or 1"
                .to_string()
        )
    );
    assert_eq!(
        builtinhelp("cd"),
        Some(
            "Description:\nchange the current working directory\nUsage:\ncd <DIRECTORY>\nDetails:\n1. - the last work directory\n2. ~ the home directory"
                .to_string()
        )
    );
    for name in ["type", "pwd", "list-builtins", "history"] {
        let text = match builtinhelp(name) {
            Some(text) => text,
            None => panic!("a builtin has help"),
        };
        assert!(text.starts_with("Description:\n"));
        assert!(text.contains("\nUsage:\n"));
    }
    assert_eq!(builtinhelp("ls"), None);
    assert_eq!(builtinhelp(""), None);
}

#[test]
fn echo_writes_its_words_on_one_line() {
    assert_eq!(echo(&words(&["a"])), Some("a\n".to_string()));
    assert_eq!(echo(&words(&["a", "b c", "d"])), Some("a b c d\n".to_string()));
    assert_eq!(echo(&words(&["", ""])), Some(" \n".to_string()));
    assert_eq!(echo(&vec![]), None);
}

#[test]
fn type_tells_builtins_from_executables() {
    let probes = vec![executable("/bin/ls", "ls")];
    assert_eq!(
        type_cmd("cd".to_string(), &probes),
        Ok("cd is a shell builtin".to_string())
    );
    assert_eq!(
        type_cmd("ls".to_string(), &probes),
        Ok("ls is /bin/ls".to_string())
    );
    assert_eq!(
        type_cmd("ls".to_string(), &vec![]),
        Err("ls: not found".to_string())
    );
    assert_eq!(
        type_cmd("".to_string(), &probes),
        Err(": not found".to_string())
    );
}

#[test]
fn exit_leaves_only_with_zero_or_one() {
    assert_eq!(exit(0), Ok(0));
    assert_eq!(exit(1), Ok(1));
    for code in [2, -1, i32::MAX, i32::MIN] {
        assert_eq!(exit(code), Err("need number 0 or 1 to exit!!!".to_string()));
    }
}

#[test]
fn cd_resolves_its_target() {
    let home = || Ok("/home/me".to_string());
    assert_eq!(cd("/tmp".to_string(), "", home()), Ok("/tmp".to_string()));
    assert_eq!(cd("~".to_string(), "", home()), Ok("/home/me".to_string()));
    assert_eq!(
        cd("~/src/x".to_string(), "", home()),
        Ok("/home/me/src/x".to_string())
    );
    assert_eq!(cd("~x".to_string(), "", home()), Ok("~x".to_string()));
    assert_eq!(cd("-".to_string(), "/var", home()), Ok("/var".to_string()));
    assert_eq!(
        cd("-".to_string(), "", home()),
        Err("no previous worked directory".to_string())
    );
    assert_eq!(
        cd("".to_string(), "/var", home()),
        Err("cd: : No such file or directory".to_string())
    );
    assert_eq!(
        cd("~".to_string(), "", Err("not set".to_string())),
        Err("can't get the directory of home: not set".to_string())
    );
    assert_eq!(
        cd("~/x".to_string(), "", Err("not set".to_string())),
        Err("can't get the directory of home: not set".to_string())
    );
    assert_eq!(
        cd("é~/".to_string(), "", Err("not set".to_string())),
        Ok("é~/".to_string())
    );
    assert_eq!(
        cd_fail_process("/nowhere"),
        "cd: /nowhere: No such file or directory"
    );
}
