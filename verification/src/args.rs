//! The entry modes: what the shell was started to do.

use crate::commands::{parse_cmd, parse_cmd_spec, Cmd, CmdParseFail, CmdParseFailView, CmdView};
use crate::env::{facts, if_executable_spec, FileFacts};
use crate::operators::{parse_opt, parse_opt_spec, Opt, OptParseFail, Redirect};
use crate::text::str_eq;
use vstd::prelude::*;

verus! {

/// What the shell does in place of its prompt loop.
pub enum SubCmd {
    /// Run this command, then leave.
    Eval(Cmd),
    /// Report that the command was not compiled, then leave.
    CmdFail(CmdParseFail),
    /// Copy the input to a file as this operator says, then leave.
    Sink(Opt),
    /// Report that the operator was not read, then leave.
    OptFail(OptParseFail),
    /// Leave.
    Nothing,
}

/// What the arguments ask for.
pub enum ArgsParseSuccess {
    /// The shell was started for one task, which is all it does.
    SubCmdExeOver(SubCmd),
    /// The shell was started without arguments: it runs its prompt loop.
    NoArgs,
}

/// Why an argument list is refused. None is: an unknown mode does nothing,
/// and what goes wrong under `-c` or `-o` is part of the task.
pub enum ArgsParseFail {
    Never,
}

/// A task as a value.
pub enum SubCmdView {
    Eval(CmdView),
    CmdFail(CmdParseFailView),
    Sink(Redirect),
    OptFail(OptParseFail),
    Nothing,
}

impl View for SubCmd {
    type V = SubCmdView;

    open spec fn view(&self) -> SubCmdView {
        match self {
            SubCmd::Eval(cmd) => SubCmdView::Eval(cmd@),
            SubCmd::CmdFail(reason) => SubCmdView::CmdFail(reason@),
            SubCmd::Sink(opt) => SubCmdView::Sink(opt@),
            SubCmd::OptFail(reason) => SubCmdView::OptFail(*reason),
            SubCmd::Nothing => SubCmdView::Nothing,
        }
    }
}

/// The task that the arguments name, the program's own name being the
/// first of them: none where no argument follows it; after `-c` the command
/// that the further arguments compile to; after `-o` the sink that they
/// describe; after anything else nothing at all.
pub open spec fn parse_args_spec(args: Seq<Seq<char>>, found: bool) -> Option<SubCmdView> {
    if args.len() <= 1 {
        None
    } else if args[1] == "-c"@ {
        Some(
            match parse_cmd_spec(args.skip(2), found) {
                Ok(cmd) => SubCmdView::Eval(cmd),
                Err(reason) => SubCmdView::CmdFail(reason),
            },
        )
    } else if args[1] == "-o"@ {
        Some(
            match parse_opt_spec(args.skip(2)) {
                Ok(opt) => SubCmdView::Sink(opt),
                Err(reason) => SubCmdView::OptFail(reason),
            },
        )
    } else {
        Some(SubCmdView::Nothing)
    }
}

/// Reads the arguments the shell was started with. `probes` holds what was
/// found along the search path under the name of the command after `-c`.
pub fn parse_args(args: Vec<String>, probes: &Vec<FileFacts>) -> (r: Result<
    ArgsParseSuccess,
    ArgsParseFail,
>)
    ensures
        r is Ok,
        match parse_args_spec(args.deep_view(), if_executable_spec(facts(probes@)) is Some) {
            None => r->Ok_0 is NoArgs,
            Some(task) => (r->Ok_0 matches ArgsParseSuccess::SubCmdExeOver(sub) && sub@ == task),
        },
{
    let ghost all = args.deep_view();
    if args.len() <= 1 {
        return Ok(ArgsParseSuccess::NoArgs);
    }
    assert(all[1] == args@[1]@);
    let to_cmd = str_eq(args[1].as_str(), "-c");
    let to_opt = str_eq(args[1].as_str(), "-o");
    if !to_cmd && !to_opt {
        return Ok(ArgsParseSuccess::SubCmdExeOver(SubCmd::Nothing));
    }
    let mut rest: Vec<String> = Vec::new();
    let mut i: usize = 2;
    assert(rest.deep_view() =~= all.skip(2).take(0));
    while i < args.len()
        invariant
            2 <= i <= args.len(),
            all == args.deep_view(),
            rest.deep_view() == all.skip(2).take(i - 2),
        decreases args.len() - i,
    {
        let ghost held = rest.deep_view();
        rest.push(args[i].clone());
        assert(rest.deep_view() =~= held.push(args@[i as int]@));
        assert(all.skip(2).take(i - 2 + 1) =~= all.skip(2).take(i - 2).push(args@[i as int]@));
        i += 1;
    }
    assert(all.skip(2).take(args.len() - 2) =~= all.skip(2));
    let sub = if to_cmd {
        match parse_cmd(rest, probes) {
            Ok(cmd) => SubCmd::Eval(cmd),
            Err(reason) => SubCmd::CmdFail(reason),
        }
    } else {
        match parse_opt(rest) {
            Ok(opt) => SubCmd::Sink(opt),
            Err(reason) => SubCmd::OptFail(reason),
        }
    };
    Ok(ArgsParseSuccess::SubCmdExeOver(sub))
}

} // verus!
