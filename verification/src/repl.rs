//! One turn of the prompt loop: the line that is submitted, the commands
//! it compiles to, and how they are run.

use crate::commands::{
    generate_cmd, generate_cmd_spec, parse_cmd, parse_cmd_spec, Cmd, CmdParseFail,
    CmdParseFailView, CmdView,
};
use crate::env::{facts, if_executable_spec, FileFacts, FileFactsView};
use crate::history::{input_history, recalled_line, save_history, submit, History};
use crate::input::CmdsAndOperators;
use crate::operators::{
    find_last_opts, generate_opt, generate_opt_spec, last_opt_index, redirects, Opt, OptFind,
    Redirect,
};
use crate::pipeline::{plan_of, Cmds, CmdsView, Pipeline, PipelineView};
use vstd::prelude::*;

verus! {

/// The line that is submitted: the recalled entry while the history is
/// browsed, else the line as typed.
pub open spec fn submitted_line(history: crate::history::HistoryView, line: Seq<char>) -> Seq<
    char,
> {
    match recalled_line(history) {
        Some(recalled) => recalled,
        None => line,
    }
}

/// Settles the line to run and takes it into the history.
pub fn handle_history_with_line(history: &mut History, line: String) -> (r: String)
    ensures
        old(history)@.wf(),
        r@ == submitted_line(old(history)@, line@),
        final(history)@ == submit(old(history)@, r@),
{
    let line = match input_history(history) {
        Some(recalled) => recalled,
        None => line,
    };
    save_history(history, line.as_str());
    line
}

/// The commands of a list, in order.
pub open spec fn cmd_views(cmds: Seq<Cmd>) -> Seq<CmdView> {
    Seq::new(cmds.len(), |i: int| cmds[i]@)
}

/// The probes of each stage, in order.
pub open spec fn probe_facts(probes: Seq<Vec<FileFacts>>) -> Seq<Seq<FileFactsView>> {
    Seq::new(probes.len(), |i: int| facts(probes[i]@))
}

/// Whether the command of stage `k` was found along the search path. A
/// stage without probes was not.
pub open spec fn found_at(probes: Seq<Seq<FileFactsView>>, k: int) -> bool {
    0 <= k < probes.len() && if_executable_spec(probes[k]) is Some
}

/// The commands that the stages compile to, or why the first stage that
/// does not compile fails.
pub open spec fn compile_stages(
    stages: Seq<Seq<Seq<char>>>,
    probes: Seq<Seq<FileFactsView>>,
) -> Result<Seq<CmdView>, CmdParseFailView>
    decreases stages.len(),
{
    if stages.len() == 0 {
        Ok(Seq::empty())
    } else {
        match compile_stages(stages.drop_last(), probes) {
            Err(reason) => Err(reason),
            Ok(done) => match parse_cmd_spec(stages.last(), found_at(probes, stages.len() - 1)) {
                Ok(cmd) => Ok(done.push(cmd)),
                Err(reason) => Err(reason),
            },
        }
    }
}

/// Compiles every stage of a split line. `probes` holds, for each stage in
/// turn, what was found along the search path under its command's name.
pub fn parse_cmds_and_opts(cmds_and_operators: CmdsAndOperators, probes: &Vec<Vec<FileFacts>>) -> (r:
    Result<(Vec<Cmd>, Vec<Opt>), CmdParseFail>)
    ensures
        match compile_stages(cmds_and_operators@.stages, probe_facts(probes@)) {
            Ok(cmds) => {
                &&& r is Ok
                &&& cmd_views(r->Ok_0.0@) == cmds
                &&& redirects(r->Ok_0.1@) == cmds_and_operators@.operators
                &&& forall|i: int| 0 <= i < r->Ok_0.0.len() ==> (#[trigger] r->Ok_0.0@[i]).wf()
            },
            Err(reason) => r is Err && r->Err_0@ == reason,
        },
{
    let ghost stages = cmds_and_operators@.stages;
    let ghost found = probe_facts(probes@);
    let CmdsAndOperators { cmds: mut rest, operators } = cmds_and_operators;
    let none: Vec<FileFacts> = Vec::new();
    let mut cmds: Vec<Cmd> = Vec::new();
    let mut i: usize = 0;
    assert(stages.take(0).len() == 0);
    assert(cmd_views(cmds@) =~= Seq::<CmdView>::empty());
    assert(rest.deep_view() =~= stages.skip(0));
    while rest.len() > 0
        invariant
            0 <= i <= stages.len(),
            i + rest.len() == stages.len(),
            stages.len() <= usize::MAX,
            stages == cmds_and_operators@.stages,
            rest.deep_view() == stages.skip(i as int),
            found == probe_facts(probes@),
            none@.len() == 0,
            compile_stages(stages.take(i as int), found) == Ok::<
                Seq<CmdView>,
                CmdParseFailView,
            >(cmd_views(cmds@)),
            forall|k: int| 0 <= k < cmds.len() ==> (#[trigger] cmds@[k]).wf(),
        decreases rest.len(),
    {
        let ghost left = rest.deep_view();
        let ghost held = rest@;
        let ghost done = cmd_views(cmds@);
        let stage = rest.remove(0);
        proof {
            assert(stage.deep_view() == left[0]);
            assert(left[0] == stages[i as int]);
            assert forall|j: int| 0 <= j < rest.len() implies #[trigger] rest.deep_view()[j]
                == stages.skip(i + 1)[j] by {
                assert(rest@[j] == held[j + 1]);
                assert(left[j + 1] == held[j + 1].deep_view());
            }
            assert(rest.deep_view() =~= stages.skip(i + 1));
            assert(stages.take(i + 1).drop_last() =~= stages.take(i as int));
            assert(stages.take(i + 1).last() == stages[i as int]);
        }
        let probe = if i < probes.len() {
            assert(found[i as int] == facts(probes@[i as int]@));
            &probes[i]
        } else {
            assert(facts(none@).len() == 0);
            &none
        };
        assert(found_at(found, i as int) == (if_executable_spec(facts(probe@)) is Some));
        assert(stages.take(i + 1).len() - 1 == i);
        match parse_cmd(stage, probe) {
            Ok(cmd) => {
                cmds.push(cmd);
                assert(cmd_views(cmds@) =~= done.push(cmd@));
            },
            Err(reason) => {
                proof {
                    assert(parse_cmd_spec(stages[i as int], found_at(found, i as int)) is Err);
                    assert(compile_stages(stages.take(i + 1), found) == Err::<
                        Seq<CmdView>,
                        CmdParseFailView,
                    >(reason@));
                    lemma_compile_fails_on(stages, found, i as int);
                }
                return Err(reason);
            },
        }
        i += 1;
    }
    assert(stages.take(i as int) =~= stages);
    Ok((cmds, operators))
}

/// Once a stage fails, the stages behind it are not looked at.
proof fn lemma_compile_fails_on(
    stages: Seq<Seq<Seq<char>>>,
    probes: Seq<Seq<FileFactsView>>,
    at: int,
)
    requires
        0 <= at < stages.len(),
        compile_stages(stages.take(at + 1), probes) is Err,
    ensures
        compile_stages(stages, probes) == compile_stages(stages.take(at + 1), probes),
    decreases stages.len() - at,
{
    if at + 1 == stages.len() {
        assert(stages.take(at + 1) =~= stages);
    } else {
        let shorter = stages.drop_last();
        assert(shorter.take(at + 1) =~= stages.take(at + 1));
        lemma_compile_fails_on(shorter, probes, at);
    }
}

/// How the commands of a line are run.
pub enum Execution {
    /// A single command without redirection runs inside the shell.
    Eval(Cmd),
    /// Anything else runs as a pipeline of processes.
    Pipe(Pipeline),
}

/// The processes of a line: one for each command, and a sink for each
/// stream that the redirections in force send to a file.
pub open spec fn line_cmds(cmds: Seq<CmdView>, ops: Seq<Redirect>) -> CmdsView {
    CmdsView {
        cmds: Seq::new(cmds.len(), |i: int| generate_cmd_spec(cmds[i])),
        redirect_stdout: match last_opt_index(ops, OptFind::Stdout) {
            Some(i) => Some(generate_opt_spec(ops[i])),
            None => None,
        },
        redirect_stderr: match last_opt_index(ops, OptFind::Stderr) {
            Some(i) => Some(generate_opt_spec(ops[i])),
            None => None,
        },
    }
}

/// Decides how a compiled line is run, and plans its pipeline where it
/// takes one.
pub fn execute_cmds_and_opts(cmds: Vec<Cmd>, opts: Vec<Opt>) -> (r: Execution)
    requires
        forall|i: int| 0 <= i < cmds.len() ==> (#[trigger] cmds@[i]).wf(),
    ensures
        cmds.len() == 1 && opts.len() == 0 ==> (r matches Execution::Eval(cmd) && cmd@
            == cmds@[0]@),
        !(cmds.len() == 1 && opts.len() == 0) ==> (r matches Execution::Pipe(pipeline)
            && pipeline@ == (PipelineView {
            plan: plan_of(line_cmds(cmd_views(cmds@), redirects(opts@))),
            next: 0,
            childs: Seq::empty(),
        })),
{
    let ghost all = cmd_views(cmds@);
    let ghost ops = redirects(opts@);
    let mut cmds = cmds;
    if cmds.len() == 1 && opts.len() == 0 {
        let cmd = cmds.remove(0);
        return Execution::Eval(cmd);
    }
    let mut cmds_generate = Cmds::new();
    let ghost total = cmds.len();
    let mut done: usize = 0;
    assert(cmds_generate@.cmds =~= Seq::new(0nat, |i: int| generate_cmd_spec(all[i])));
    while cmds.len() > 0
        invariant
            done + cmds.len() == total,
            total == all.len(),
            forall|i: int| 0 <= i < cmds.len() ==> (#[trigger] cmds@[i]).wf(),
            forall|i: int| 0 <= i < cmds.len() ==> (#[trigger] cmds@[i])@ == all[done + i],
            cmds_generate@ == (CmdsView {
                cmds: Seq::new(done as nat, |i: int| generate_cmd_spec(all[i])),
                redirect_stdout: None,
                redirect_stderr: None,
            }),
        decreases cmds.len(),
    {
        let ghost before = cmds@;
        let ghost made = cmds_generate@.cmds;
        let cmd = cmds.remove(0);
        assert(cmd == before[0]);
        assert forall|i: int| 0 <= i < cmds.len() implies (#[trigger] cmds@[i]).wf() && cmds@[i]@
            == all[done + 1 + i] by {
            assert(cmds@[i] == before[i + 1]);
        }
        let command = generate_cmd(cmd);
        cmds_generate.add_cmd(command);
        done += 1;
        assert(cmds_generate@.cmds =~= Seq::new(done as nat, |i: int| generate_cmd_spec(all[i])));
    }
    let (redirect_stdout, redirect_stderr) = find_last_opts(&opts);
    proof {
        if let Some(i) = last_opt_index(ops, OptFind::Stdout) {
            crate::operators::lemma_last_opt_wins(ops, OptFind::Stdout);
            assert(ops[i] == opts@[i]@);
        }
        if let Some(i) = last_opt_index(ops, OptFind::Stderr) {
            crate::operators::lemma_last_opt_wins(ops, OptFind::Stderr);
            assert(ops[i] == opts@[i]@);
        }
    }
    if let Some(opt) = redirect_stdout {
        cmds_generate.add_redirect_stdout(generate_opt(opt));
    }
    if let Some(opt) = redirect_stderr {
        cmds_generate.add_redirect_stderr(generate_opt(opt));
    }
    assert(cmds_generate@.cmds =~= line_cmds(all, ops).cmds);
    assert(cmds_generate@ == line_cmds(all, ops));
    let mut pipeline = Pipeline::new();
    pipeline.pipe(cmds_generate);
    Execution::Pipe(pipeline)
}

} // verus!
