//! A builtin that runs as a stage is started as the shell with `-c`, and
//! must then compile to the very command it was. A sink is started as the
//! shell with `-o`, and must then treat its file as the operator says.

use crate::args::{parse_args_spec, SubCmdView};
use crate::commands::{
    builtin_args, builtin_cmds, generate_cmd_spec, is_builtin, parse_cmd_spec, parse_exit,
    parse_history, CmdParseFailView, CmdView, HistoryArgsView,
};
use crate::decimal::{
    decimal_text, i32_value, lemma_decimal_text_reads_back, signed_decimal_text, usize_value,
};
use crate::operators::{generate_opt_spec, opt_name, parse_opt_spec, Redirect};
use vstd::prelude::*;

verus! {

/// A number in decimal is none of the flags.
proof fn lemma_number_is_no_flag(n: nat)
    ensures
        decimal_text(n) != "-h"@,
        decimal_text(n) != "-r"@,
        decimal_text(n) != "-w"@,
{
    reveal_strlit("-h");
    reveal_strlit("-r");
    reveal_strlit("-w");
    lemma_decimal_text_reads_back(n);
    let text = decimal_text(n);
    assert(crate::decimal::is_digit(text[0]));
    assert("-h"@[0] == '-' && "-r"@[0] == '-' && "-w"@[0] == '-');
}

/// Every name in the list of builtins is a builtin.
proof fn lemma_builtins_listed()
    ensures
        is_builtin("echo"@),
        is_builtin("exit"@),
        is_builtin("type"@),
        is_builtin("pwd"@),
        is_builtin("cd"@),
        is_builtin("list-builtins"@),
        is_builtin("history"@),
{
    let all = builtin_cmds();
    assert(all[0] == "echo"@);
    assert(all[1] == "exit"@);
    assert(all[2] == "type"@);
    assert(all[3] == "pwd"@);
    assert(all[4] == "cd"@);
    assert(all[5] == "list-builtins"@);
    assert(all[6] == "history"@);
}

/// A builtin that was compiled from words compiles again to itself from
/// the words it is started with in a process of its own, whatever lies
/// along the search path then.
pub proof fn lemma_builtin_compiles_again(words: Seq<Seq<char>>, found: bool, found_again: bool)
    requires
        parse_cmd_spec(words, found) is Ok,
        !(parse_cmd_spec(words, found)->Ok_0 is NotBuiltin),
    ensures
        parse_cmd_spec(builtin_args(parse_cmd_spec(words, found)->Ok_0).skip(1), found_again)
            == parse_cmd_spec(words, found),
{
    let cmd = parse_cmd_spec(words, found)->Ok_0;
    let again = builtin_args(cmd).skip(1);
    lemma_builtins_listed();
    if words.len() >= 2 && is_builtin(words[0]) && words[1] == "-h"@ {
        assert(again =~= seq![words[0], "-h"@]);
    } else if words[0] == "echo"@ {
        assert(again =~= words);
        assert(again.skip(1) =~= words.skip(1));
    } else if words[0] == "exit"@ {
        let code = cmd->Exit_0;
        let text = signed_decimal_text(code as int);
        assert(code == 0 || code == 1);
        lemma_decimal_text_reads_back(code as nat);
        lemma_number_is_no_flag(code as nat);
        assert(again =~= seq!["exit"@, text]);
        assert(i32_value(text) == Some(code));
        assert(parse_exit(again) == Ok::<CmdView, CmdParseFailView>(CmdView::Exit(code)));
    } else if words[0] == "type"@ {
        assert(again =~= seq!["type"@, words[1]]);
    } else if words[0] == "pwd"@ {
        assert(again =~= seq!["pwd"@]);
    } else if words[0] == "cd"@ {
        assert(again =~= words);
    } else if words[0] == "list-builtins"@ {
        assert(again =~= seq!["list-builtins"@]);
    } else {
        assert(words[0] == "history"@);
        match cmd->History_0 {
            HistoryArgsView::Show(None) => {
                assert(again =~= seq!["history"@]);
            },
            HistoryArgsView::Show(Some(limit)) => {
                let text = decimal_text(limit as nat);
                lemma_decimal_text_reads_back(limit as nat);
                lemma_number_is_no_flag(limit as nat);
                assert(again =~= seq!["history"@, text]);
                assert(usize_value(text) == Some(limit));
                assert(parse_history(again) == Ok::<CmdView, CmdParseFailView>(
                    CmdView::History(HistoryArgsView::Show(Some(limit))),
                ));
            },
            HistoryArgsView::ReadFromFile(file) => {
                assert(again =~= words);
            },
            HistoryArgsView::WriteToFile(file) => {
                assert(again =~= words);
            },
        }
    }
}

/// A builtin stage, started as the process that was generated for it, is
/// asked to run the command it was compiled as.
pub proof fn lemma_stage_runs_its_command(
    words: Seq<Seq<char>>,
    found: bool,
    program: Seq<char>,
    found_again: bool,
)
    requires
        parse_cmd_spec(words, found) is Ok,
        !(parse_cmd_spec(words, found)->Ok_0 is NotBuiltin),
    ensures
        parse_args_spec(
            seq![program] + generate_cmd_spec(parse_cmd_spec(words, found)->Ok_0).args,
            found_again,
        ) == Some(SubCmdView::Eval(parse_cmd_spec(words, found)->Ok_0)),
{
    let cmd = parse_cmd_spec(words, found)->Ok_0;
    let args = seq![program] + generate_cmd_spec(cmd).args;
    lemma_builtin_compiles_again(words, found, found_again);
    assert(builtin_args(cmd)[0] == "-c"@);
    assert(args[1] == "-c"@);
    assert(args.skip(2) =~= builtin_args(cmd).skip(1));
}

/// The names of the appending sinks differ from each other and from those
/// of the truncating ones.
proof fn lemma_sink_names_differ()
    ensures
        "append_stdout"@ != "redirect_stdout"@,
        "append_stdout"@ != "redirect_stderr"@,
        "append_stderr"@ != "redirect_stdout"@,
        "append_stderr"@ != "redirect_stderr"@,
        "append_stderr"@ != "append_stdout"@,
{
    reveal_strlit("redirect_stdout");
    reveal_strlit("redirect_stderr");
    reveal_strlit("append_stdout");
    reveal_strlit("append_stderr");
    assert("redirect_stdout"@[0] == 'r' && "redirect_stderr"@[0] == 'r');
    assert("append_stdout"@[0] == 'a' && "append_stderr"@[0] == 'a');
    assert("append_stdout"@[10] == 'o' && "append_stderr"@[10] == 'e');
}

/// The sink that is started for a redirection reads back the file and the
/// mode of that redirection, and with them all that it acts on. The file
/// must have a name.
pub proof fn lemma_sink_reads_its_operator(op: Redirect, program: Seq<char>, found: bool)
    requires
        op.file.len() > 0,
    ensures
        parse_opt_spec(generate_opt_spec(op).args.skip(1)) matches Ok(read) && read.mode == op.mode
            && read.file == op.file,
        parse_args_spec(seq![program] + generate_opt_spec(op).args, found) matches Some(
            SubCmdView::Sink(read),
        ) && read.mode == op.mode && read.file == op.file,
{
    lemma_sink_names_differ();
    let name = opt_name(op.stream, op.mode);
    let args = generate_opt_spec(op).args;
    let all = seq![program] + args;
    assert(args.skip(1) =~= seq![name, op.file]);
    assert(all[1] == "-o"@);
    assert(all.skip(2) =~= args.skip(1));
    reveal_strlit("-o");
    reveal_strlit("-c");
    assert("-o"@[1] == 'o' && "-c"@[1] == 'c');
}

} // verus!
