use drshell::operators::{
    find_last_opt, find_last_opts, generate_opt, operator_action, parse_opt,
    parse_opt_fail_process, Opt, OptFind, OptParseFail,
};

fn words(list: &[&str]) -> Vec<String> {
    list.iter().map(|w| w.to_string()).collect()
}

#[test]
fn the_last_operator_for_each_stream_wins() {
    let opts = vec![
        Opt::RedirectStdout("a".to_string()),
        Opt::AppendStdout("b".to_string()),
        Opt::RedirectStderr("c".to_string()),
    ];
    let (stdout, stderr) = find_last_opts(&opts);
    assert!(matches!(stdout, Some(Opt::AppendStdout(file)) if file == "b"));
    assert!(matches!(stderr, Some(Opt::RedirectStderr(file)) if file == "c"));
}

#[test]
fn no_operators_resolve_to_nothing() {
    let opts: Vec<Opt> = vec![];
    let (stdout, stderr) = find_last_opts(&opts);
    assert!(stdout.is_none());
    assert!(stderr.is_none());
}

#[test]
fn a_later_operator_for_one_stream_keeps_the_other() {
    let opts = vec![
        Opt::AppendStderr("e".to_string()),
        Opt::RedirectStdout("o1".to_string()),
        Opt::AppendStdout("o2".to_string()),
    ];
    assert!(matches!(
        find_last_opt(&opts, OptFind::Stderr),
        Some(Opt::AppendStderr(file)) if file == "e"
    ));
    assert!(matches!(
        find_last_opt(&opts, OptFind::Stdout),
        Some(Opt::AppendStdout(file)) if file == "o2"
    ));
    let only_out = vec![Opt::RedirectStdout("o".to_string())];
    assert!(find_last_opt(&only_out, OptFind::Stderr).is_none());
}

#[test]
fn the_winner_is_the_operator_in_the_list() {
    let opts = vec![
        Opt::RedirectStdout("same".to_string()),
        Opt::RedirectStdout("same".to_string()),
    ];
    match find_last_opt(&opts, OptFind::Stdout) {
        Some(found) => assert!(std::ptr::eq(found, &opts[1])),
        None => panic!("an operator takes the output"),
    }
}

#[test]
fn a_sink_is_the_shell_with_the_operator_name_and_file() {
    let cases = [
        (Opt::RedirectStdout("f".to_string()), "redirect_stdout"),
        (Opt::RedirectStderr("f".to_string()), "redirect_stderr"),
        (Opt::AppendStdout("f".to_string()), "append_stdout"),
        (Opt::AppendStderr("f".to_string()), "append_stderr"),
    ];
    for (opt, name) in cases {
        let command = generate_opt(&opt);
        assert_eq!(command.program, "drshell");
        assert_eq!(command.args, words(&["-o", name, "f"]));
    }
}

#[test]
fn sink_arguments_are_read_back() {
    assert!(matches!(
        parse_opt(words(&["redirect_stdout", "f"])),
        Ok(Opt::RedirectStdout(file)) if file == "f"
    ));
    assert!(matches!(
        parse_opt(words(&["redirect_stderr", "f"])),
        Ok(Opt::RedirectStdout(file)) if file == "f"
    ));
    assert!(matches!(
        parse_opt(words(&["append_stdout", "g"])),
        Ok(Opt::AppendStdout(file)) if file == "g"
    ));
    assert!(matches!(
        parse_opt(words(&["append_stderr", "h", "more"])),
        Ok(Opt::AppendStderr(file)) if file == "h"
    ));
}

#[test]
fn sink_arguments_are_refused() {
    assert!(matches!(parse_opt(vec![]), Err(OptParseFail::NoOpt)));
    assert!(matches!(
        parse_opt(words(&["copy", "f"])),
        Err(OptParseFail::WrongOpt)
    ));
    assert!(matches!(
        parse_opt(words(&["copy"])),
        Err(OptParseFail::WrongOpt)
    ));
    assert!(matches!(
        parse_opt(words(&["append_stdout"])),
        Err(OptParseFail::NofileName)
    ));
    assert!(matches!(
        parse_opt(words(&["redirect_stdout", ""])),
        Err(OptParseFail::NofileName)
    ));
}

#[test]
fn truncating_sinks_reset_the_file_and_appending_ones_keep_it() {
    for exists in [true, false] {
        let sink = operator_action(Opt::RedirectStdout("f".to_string()), exists);
        assert_eq!(sink.file, "f");
        assert!(sink.reset);
        let sink = operator_action(Opt::RedirectStderr("f".to_string()), exists);
        assert!(sink.reset);
    }
    let sink = operator_action(Opt::AppendStdout("g".to_string()), true);
    assert_eq!(sink.file, "g");
    assert!(!sink.reset);
    let sink = operator_action(Opt::AppendStderr("g".to_string()), true);
    assert!(!sink.reset);
    let sink = operator_action(Opt::AppendStdout("g".to_string()), false);
    assert!(sink.reset);
    let sink = operator_action(Opt::AppendStderr("g".to_string()), false);
    assert!(sink.reset);
}

#[test]
fn sink_failures_have_their_messages() {
    assert_eq!(parse_opt_fail_process(OptParseFail::NoOpt), "no opt!!!");
    assert_eq!(
        parse_opt_fail_process(OptParseFail::NofileName),
        "no filename for opt!!!"
    );
    assert_eq!(parse_opt_fail_process(OptParseFail::WrongOpt), "wrong opt!!!");
}

#[test]
fn every_operator_names_its_file() {
    assert_eq!(Opt::RedirectStdout("a".to_string()).file(), "a");
    assert_eq!(Opt::RedirectStderr("b".to_string()).file(), "b");
    assert_eq!(Opt::AppendStdout("c".to_string()).file(), "c");
    assert_eq!(Opt::AppendStderr("d".to_string()).file(), "d");
}
