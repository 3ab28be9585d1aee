//! The command compiler: from the words of a stage to a command of the
//! shell, and from a command to the process that runs it.

use crate::decimal::{
    decimal_text, i32_to_string, i32_value, parse_i32, parse_usize, signed_decimal_text,
    usize_to_string, usize_value,
};
use crate::env::{facts, if_executable, if_executable_spec, FileFacts};
use crate::history::{
    display_next_cmd, display_previous_cmd, file_text, input_history, next_place, previous_place,
    read_from_file, recall_next, recall_previous, recalled_line, save_history, shown_text, submit,
    write_to_file, History, HistoryView,
};
use crate::lines::text_lines;
use crate::pipeline::{Command, CommandView};
use crate::text::str_eq;
use vstd::prelude::*;
use vstd::string::StringExecFns;

verus! {

/// A command of the shell, ready to run.
#[derive(Debug)]
pub enum Cmd {
    Echo(Vec<String>),
    Exit(i32),
    Type(String),
    Pwd,
    Cd(String),
    BuiltinLs,
    BuiltinHelp(&'static str),
    History(HistoryArgs),
    NotBuiltin(Vec<String>),
}

/// What `history` is asked to do.
#[derive(Debug)]
pub enum HistoryArgs {
    Show(Option<usize>),
    ReadFromFile(String),
    WriteToFile(String),
}

/// Why the words of a stage are no command.
pub enum CmdParseFail {
    NoCommand,
    NotCommand(String),
    ExitArgsError,
    TypeArgsError,
    CdArgsError,
    HistoryArgsError,
}

/// What the line editor and the prompt loop ask of the history.
pub enum Api<'a> {
    /// Take in the line that was submitted.
    SaveHistory(&'a str),
    DisplayPreviousCmd,
    DisplayNextCmd,
    InputHistory,
    /// Take in the text of a history file.
    ReadHistoryFromFile(&'a str),
    /// Give the text for the history file.
    WriteHistoryToFile,
}

/// The arguments of `history` as a value.
pub enum HistoryArgsView {
    Show(Option<usize>),
    ReadFromFile(Seq<char>),
    WriteToFile(Seq<char>),
}

/// A command as a value.
pub enum CmdView {
    Echo(Seq<Seq<char>>),
    Exit(i32),
    Type(Seq<char>),
    Pwd,
    Cd(Seq<char>),
    BuiltinLs,
    BuiltinHelp(Seq<char>),
    History(HistoryArgsView),
    NotBuiltin(Seq<Seq<char>>),
}

/// A compile failure as a value.
pub enum CmdParseFailView {
    NoCommand,
    NotCommand(Seq<char>),
    ExitArgsError,
    TypeArgsError,
    CdArgsError,
    HistoryArgsError,
}

impl View for HistoryArgs {
    type V = HistoryArgsView;

    open spec fn view(&self) -> HistoryArgsView {
        match self {
            HistoryArgs::Show(limit) => HistoryArgsView::Show(*limit),
            HistoryArgs::ReadFromFile(file) => HistoryArgsView::ReadFromFile(file@),
            HistoryArgs::WriteToFile(file) => HistoryArgsView::WriteToFile(file@),
        }
    }
}

impl View for Cmd {
    type V = CmdView;

    open spec fn view(&self) -> CmdView {
        match self {
            Cmd::Echo(words) => CmdView::Echo(words.deep_view()),
            Cmd::Exit(code) => CmdView::Exit(*code),
            Cmd::Type(name) => CmdView::Type(name@),
            Cmd::Pwd => CmdView::Pwd,
            Cmd::Cd(dir) => CmdView::Cd(dir@),
            Cmd::BuiltinLs => CmdView::BuiltinLs,
            Cmd::BuiltinHelp(name) => CmdView::BuiltinHelp(name@),
            Cmd::History(args) => CmdView::History(args@),
            Cmd::NotBuiltin(words) => CmdView::NotBuiltin(words.deep_view()),
        }
    }
}

impl View for CmdParseFail {
    type V = CmdParseFailView;

    open spec fn view(&self) -> CmdParseFailView {
        match self {
            CmdParseFail::NoCommand => CmdParseFailView::NoCommand,
            CmdParseFail::NotCommand(name) => CmdParseFailView::NotCommand(name@),
            CmdParseFail::ExitArgsError => CmdParseFailView::ExitArgsError,
            CmdParseFail::TypeArgsError => CmdParseFailView::TypeArgsError,
            CmdParseFail::CdArgsError => CmdParseFailView::CdArgsError,
            CmdParseFail::HistoryArgsError => CmdParseFailView::HistoryArgsError,
        }
    }
}

/// The names of the commands that the shell runs itself.
pub const BUILTIN_CMDS: [&'static str; 7] = [
    "echo",
    "exit",
    "type",
    "pwd",
    "cd",
    "list-builtins",
    "history",
];

/// The same names, as contracts speak of them.
pub open spec fn builtin_cmds() -> Seq<Seq<char>> {
    seq!["echo"@, "exit"@, "type"@, "pwd"@, "cd"@, "list-builtins"@, "history"@]
}

/// Whether the shell runs a command of that name itself.
pub open spec fn is_builtin(name: Seq<char>) -> bool {
    builtin_cmds().contains(name)
}

/// `exit` takes no argument, or one that is the number 0 or 1.
pub open spec fn parse_exit(cmd: Seq<Seq<char>>) -> Result<CmdView, CmdParseFailView> {
    if cmd.len() == 1 {
        Ok(CmdView::Exit(0))
    } else if cmd.len() == 2 && (i32_value(cmd[1]) == Some(0i32) || i32_value(cmd[1]) == Some(
        1i32,
    )) {
        Ok(CmdView::Exit(i32_value(cmd[1])->0))
    } else {
        Err(CmdParseFailView::ExitArgsError)
    }
}

/// `history` takes nothing, or a number of entries, or `-r` or `-w` and
/// then exactly one file.
pub open spec fn parse_history(cmd: Seq<Seq<char>>) -> Result<CmdView, CmdParseFailView> {
    if cmd.len() == 1 {
        Ok(CmdView::History(HistoryArgsView::Show(None)))
    } else if cmd[1] == "-r"@ || cmd[1] == "-w"@ {
        if cmd.len() != 3 {
            Err(CmdParseFailView::HistoryArgsError)
        } else if cmd[1] == "-r"@ {
            Ok(CmdView::History(HistoryArgsView::ReadFromFile(cmd[2])))
        } else {
            Ok(CmdView::History(HistoryArgsView::WriteToFile(cmd[2])))
        }
    } else {
        match usize_value(cmd[1]) {
            Some(limit) => Ok(CmdView::History(HistoryArgsView::Show(Some(limit)))),
            None => Err(CmdParseFailView::HistoryArgsError),
        }
    }
}

/// The command that the words of a stage stand for. A builtin followed by
/// `-h` asks for its help; then the builtins are tried by name, each with
/// its own arguments; any other name must be that of an executable, which
/// `found` says.
pub open spec fn parse_cmd_spec(cmd: Seq<Seq<char>>, found: bool) -> Result<
    CmdView,
    CmdParseFailView,
> {
    if cmd.len() == 0 {
        Err(CmdParseFailView::NoCommand)
    } else if cmd.len() >= 2 && is_builtin(cmd[0]) && cmd[1] == "-h"@ {
        Ok(CmdView::BuiltinHelp(cmd[0]))
    } else if cmd[0] == "echo"@ {
        Ok(CmdView::Echo(cmd.skip(1)))
    } else if cmd[0] == "exit"@ {
        parse_exit(cmd)
    } else if cmd[0] == "type"@ {
        if cmd.len() == 1 {
            Err(CmdParseFailView::TypeArgsError)
        } else {
            Ok(CmdView::Type(cmd[1]))
        }
    } else if cmd[0] == "pwd"@ {
        Ok(CmdView::Pwd)
    } else if cmd[0] == "cd"@ {
        if cmd.len() == 2 {
            Ok(CmdView::Cd(cmd[1]))
        } else {
            Err(CmdParseFailView::CdArgsError)
        }
    } else if cmd[0] == "list-builtins"@ {
        Ok(CmdView::BuiltinLs)
    } else if cmd[0] == "history"@ {
        parse_history(cmd)
    } else if found {
        Ok(CmdView::NotBuiltin(cmd))
    } else {
        Err(CmdParseFailView::NotCommand(cmd[0]))
    }
}

/// The builtin of that name, if there is one.
pub fn builtin_name(name: &str) -> (r: Option<&'static str>)
    ensures
        r is Some <==> is_builtin(name@),
        r is Some ==> r->Some_0@ == name@,
{
    let r = if str_eq(name, "echo") {
        Some("echo")
    } else if str_eq(name, "exit") {
        Some("exit")
    } else if str_eq(name, "type") {
        Some("type")
    } else if str_eq(name, "pwd") {
        Some("pwd")
    } else if str_eq(name, "cd") {
        Some("cd")
    } else if str_eq(name, "list-builtins") {
        Some("list-builtins")
    } else if str_eq(name, "history") {
        Some("history")
    } else {
        None
    };
    proof {
        let all = builtin_cmds();
        if r is Some {
            assert(all[0] == "echo"@ && all[1] == "exit"@ && all[2] == "type"@ && all[3] == "pwd"@
                && all[4] == "cd"@ && all[5] == "list-builtins"@ && all[6] == "history"@);
        }
    }
    r
}

fn parse_exit_args(cmd: &Vec<String>) -> (r: Result<Cmd, CmdParseFail>)
    requires
        cmd.len() >= 1,
    ensures
        match parse_exit(cmd.deep_view()) {
            Ok(c) => r is Ok && r->Ok_0@ == c,
            Err(e) => r is Err && r->Err_0@ == e,
        },
{
    if cmd.len() == 1 {
        Ok(Cmd::Exit(0))
    } else if cmd.len() == 2 {
        assert(cmd.deep_view()[1] == cmd@[1]@);
        match parse_i32(cmd[1].as_str()) {
            Some(code) => if code == 0 || code == 1 {
                Ok(Cmd::Exit(code))
            } else {
                Err(CmdParseFail::ExitArgsError)
            },
            None => Err(CmdParseFail::ExitArgsError),
        }
    } else {
        Err(CmdParseFail::ExitArgsError)
    }
}

fn parse_history_args(cmd: &Vec<String>) -> (r: Result<Cmd, CmdParseFail>)
    requires
        cmd.len() >= 1,
    ensures
        match parse_history(cmd.deep_view()) {
            Ok(c) => r is Ok && r->Ok_0@ == c,
            Err(e) => r is Err && r->Err_0@ == e,
        },
{
    let len = cmd.len();
    if len == 1 {
        return Ok(Cmd::History(HistoryArgs::Show(None)));
    }
    assert(cmd.deep_view()[1] == cmd@[1]@);
    let arg = cmd[1].as_str();
    let read = str_eq(arg, "-r");
    if read || str_eq(arg, "-w") {
        if len != 3 {
            Err(CmdParseFail::HistoryArgsError)
        } else {
            assert(cmd.deep_view()[2] == cmd@[2]@);
            if read {
                Ok(Cmd::History(HistoryArgs::ReadFromFile(cmd[2].clone())))
            } else {
                Ok(Cmd::History(HistoryArgs::WriteToFile(cmd[2].clone())))
            }
        }
    } else {
        match parse_usize(arg) {
            Some(limit) => Ok(Cmd::History(HistoryArgs::Show(Some(limit)))),
            None => Err(CmdParseFail::HistoryArgsError),
        }
    }
}

/// Compiles the words of a stage. `probes` holds what was found under the
/// command's name in each directory of the search path, in order.
pub fn parse_cmd(cmd: Vec<String>, probes: &Vec<FileFacts>) -> (r: Result<Cmd, CmdParseFail>)
    ensures
        match parse_cmd_spec(cmd.deep_view(), if_executable_spec(facts(probes@)) is Some) {
            Ok(c) => r is Ok && r->Ok_0@ == c,
            Err(e) => r is Err && r->Err_0@ == e,
        },
{
    let mut cmd = cmd;
    let ghost words = cmd.deep_view();
    if cmd.len() == 0 {
        return Err(CmdParseFail::NoCommand);
    }
    assert(words[0] == cmd@[0]@);
    if cmd.len() >= 2 {
        assert(words[1] == cmd@[1]@);
        if str_eq(cmd[1].as_str(), "-h") {
            if let Some(name) = builtin_name(cmd[0].as_str()) {
                return Ok(Cmd::BuiltinHelp(name));
            }
        }
    }
    if str_eq(cmd[0].as_str(), "echo") {
        cmd.remove(0);
        assert(cmd.deep_view() =~= words.skip(1));
        Ok(Cmd::Echo(cmd))
    } else if str_eq(cmd[0].as_str(), "exit") {
        parse_exit_args(&cmd)
    } else if str_eq(cmd[0].as_str(), "type") {
        if cmd.len() == 1 {
            Err(CmdParseFail::TypeArgsError)
        } else {
            Ok(Cmd::Type(cmd[1].clone()))
        }
    } else if str_eq(cmd[0].as_str(), "pwd") {
        Ok(Cmd::Pwd)
    } else if str_eq(cmd[0].as_str(), "cd") {
        if cmd.len() == 2 {
            Ok(Cmd::Cd(cmd[1].clone()))
        } else {
            Err(CmdParseFail::CdArgsError)
        }
    } else if str_eq(cmd[0].as_str(), "list-builtins") {
        Ok(Cmd::BuiltinLs)
    } else if str_eq(cmd[0].as_str(), "history") {
        parse_history_args(&cmd)
    } else if if_executable(probes).is_some() {
        Ok(Cmd::NotBuiltin(cmd))
    } else {
        Err(CmdParseFail::NotCommand(cmd[0].clone()))
    }
}

/// What is reported for each failure; an empty stage is not reported.
pub open spec fn parse_cmd_fail_text(reason: CmdParseFailView) -> Option<Seq<char>> {
    match reason {
        CmdParseFailView::NoCommand => None,
        CmdParseFailView::ExitArgsError => Some("no number of exiting!!!"@),
        CmdParseFailView::TypeArgsError => Some("no name of a command!!!"@),
        CmdParseFailView::CdArgsError => Some("no name of a directory!!!"@),
        CmdParseFailView::NotCommand(name) => Some(name + ": command not found"@),
        CmdParseFailView::HistoryArgsError => Some("wrong args for history!!!"@),
    }
}

/// The line that reports why a stage was not compiled; an empty stage is
/// passed over in silence.
pub fn parse_cmd_fail_process(reason: CmdParseFail) -> (r: Option<String>)
    ensures
        match parse_cmd_fail_text(reason@) {
            Some(text) => r is Some && r->Some_0@ == text,
            None => r is None,
        },
{
    match reason {
        CmdParseFail::NoCommand => None,
        CmdParseFail::ExitArgsError => Some("no number of exiting!!!".to_owned()),
        CmdParseFail::TypeArgsError => Some("no name of a command!!!".to_owned()),
        CmdParseFail::CdArgsError => Some("no name of a directory!!!".to_owned()),
        CmdParseFail::NotCommand(name) => Some(name.concat(": command not found")),
        CmdParseFail::HistoryArgsError => Some("wrong args for history!!!".to_owned()),
    }
}

impl Cmd {
    /// A command can be run when it names what to run: one that is no
    /// builtin holds at least the program's name.
    pub open spec fn wf(&self) -> bool {
        self matches Cmd::NotBuiltin(words) ==> words.len() > 0
    }
}

/// The arguments that make the shell run a builtin in a process of its own.
pub open spec fn builtin_args(cmd: CmdView) -> Seq<Seq<char>> {
    match cmd {
        CmdView::Echo(words) => seq!["-c"@, "echo"@] + words,
        CmdView::Exit(code) => seq!["-c"@, "exit"@, signed_decimal_text(code as int)],
        CmdView::Type(name) => seq!["-c"@, "type"@, name],
        CmdView::Pwd => seq!["-c"@, "pwd"@],
        CmdView::Cd(dir) => seq!["-c"@, "cd"@, dir],
        CmdView::BuiltinLs => seq!["-c"@, "list-builtins"@],
        CmdView::BuiltinHelp(name) => seq!["-c"@, name, "-h"@],
        CmdView::History(HistoryArgsView::Show(None)) => seq!["-c"@, "history"@],
        CmdView::History(HistoryArgsView::Show(Some(limit))) => seq![
            "-c"@,
            "history"@,
            decimal_text(limit as nat),
        ],
        CmdView::History(HistoryArgsView::ReadFromFile(file)) => seq![
            "-c"@,
            "history"@,
            "-r"@,
            file,
        ],
        CmdView::History(HistoryArgsView::WriteToFile(file)) => seq![
            "-c"@,
            "history"@,
            "-w"@,
            file,
        ],
        CmdView::NotBuiltin(words) => words.skip(1),
    }
}

/// The process that runs a command as a stage of a pipeline: the program
/// itself where it is no builtin, else the shell started with `-c` and the
/// builtin's words.
pub open spec fn generate_cmd_spec(cmd: CmdView) -> CommandView {
    CommandView {
        program: match cmd {
            CmdView::NotBuiltin(words) => words[0],
            _ => "drshell"@,
        },
        args: builtin_args(cmd),
    }
}

/// The process that runs a command as a stage of a pipeline.
pub fn generate_cmd(cmd: Cmd) -> (r: Command)
    requires
        cmd.wf(),
    ensures
        r@ == generate_cmd_spec(cmd@),
{
    let ghost view = cmd@;
    let mut args: Vec<String> = Vec::new();
    let program = match cmd {
        Cmd::NotBuiltin(mut words) => {
            let ghost all = words.deep_view();
            let program = words.remove(0);
            assert(words.deep_view() =~= all.skip(1));
            args = words;
            program
        },
        other => {
            args.push("-c".to_owned());
            match other {
                Cmd::Echo(mut words) => {
                    let ghost all = words.deep_view();
                    args.push("echo".to_owned());
                    args.append(&mut words);
                    assert(args.deep_view() =~= seq!["-c"@, "echo"@] + all);
                },
                Cmd::Exit(code) => {
                    args.push("exit".to_owned());
                    args.push(i32_to_string(code));
                },
                Cmd::Type(name) => {
                    args.push("type".to_owned());
                    args.push(name);
                },
                Cmd::Pwd => {
                    args.push("pwd".to_owned());
                },
                Cmd::Cd(dir) => {
                    args.push("cd".to_owned());
                    args.push(dir);
                },
                Cmd::BuiltinLs => {
                    args.push("list-builtins".to_owned());
                },
                Cmd::BuiltinHelp(name) => {
                    args.push(name.to_owned());
                    args.push("-h".to_owned());
                },
                Cmd::History(history_args) => {
                    args.push("history".to_owned());
                    match history_args {
                        HistoryArgs::Show(limit) => {
                            if let Some(limit) = limit {
                                args.push(usize_to_string(limit));
                            }
                        },
                        HistoryArgs::ReadFromFile(file) => {
                            args.push("-r".to_owned());
                            args.push(file);
                        },
                        HistoryArgs::WriteToFile(file) => {
                            args.push("-w".to_owned());
                            args.push(file);
                        },
                    }
                },
                Cmd::NotBuiltin(_) => {},
            }
            "drshell".to_owned()
        },
    };
    assert(args.deep_view() =~= builtin_args(view));
    Command { program, args }
}

/// What a request does to the history, and the text it gives back: for a
/// step of the cursor what is to be written to the terminal, for the input
/// the recalled line, for the file its text.
pub fn api(history: &mut History, request: Api) -> (r: Option<String>)
    ensures
        old(history)@.wf(),
        match request {
            Api::SaveHistory(line) => {
                &&& final(history)@ == submit(old(history)@, line@)
                &&& r is None
            },
            Api::DisplayPreviousCmd => {
                &&& final(history)@ == recall_previous(old(history)@)
                &&& old(history)@.entries.len() == 0 ==> r is None
                &&& old(history)@.entries.len() > 0 ==> r is Some && r->Some_0@ == shown_text(
                    old(history)@.browsing,
                    old(history)@.entries[previous_place(old(history)@)],
                )
            },
            Api::DisplayNextCmd => {
                &&& final(history)@ == recall_next(old(history)@)
                &&& old(history)@.entries.len() == 0 ==> r is None
                &&& old(history)@.entries.len() > 0 ==> r is Some && r->Some_0@ == shown_text(
                    old(history)@.browsing,
                    old(history)@.entries[next_place(old(history)@)],
                )
            },
            Api::InputHistory => {
                &&& final(history)@ == old(history)@
                &&& match recalled_line(old(history)@) {
                    Some(line) => r is Some && r->Some_0@ == line,
                    None => r is None,
                }
            },
            Api::ReadHistoryFromFile(text) => {
                &&& final(history)@ == (HistoryView {
                    entries: old(history)@.entries + text_lines(text@),
                    ..old(history)@
                })
                &&& r is None
            },
            Api::WriteHistoryToFile => {
                &&& final(history)@ == old(history)@
                &&& r is Some
                &&& r->Some_0@ == file_text(old(history)@.entries)
            },
        },
{
    match request {
        Api::SaveHistory(line) => {
            save_history(history, line);
            None
        },
        Api::DisplayPreviousCmd => display_previous_cmd(history),
        Api::DisplayNextCmd => display_next_cmd(history),
        Api::InputHistory => input_history(history),
        Api::ReadHistoryFromFile(text) => {
            read_from_file(history, text);
            None
        },
        Api::WriteHistoryToFile => Some(write_to_file(history)),
    }
}

} // verus!
