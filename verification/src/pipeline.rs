//! The pipeline executor: which processes to start, in which order, how
//! their streams are joined, and which processes are owned meanwhile.
//!
//! The executor decides; the caller starts, awaits and ends the processes
//! and reports back what happened.

use vstd::prelude::*;

verus! {

/// A program and its arguments, as text.
pub struct CommandView {
    pub program: Seq<char>,
    pub args: Seq<Seq<char>>,
}

/// A process to start: the program to run and the arguments to hand it.
pub struct Command {
    pub program: String,
    pub args: Vec<String>,
}

impl View for Command {
    type V = CommandView;

    open spec fn view(&self) -> CommandView {
        CommandView { program: self.program@, args: self.args.deep_view() }
    }
}

/// The commands of one line: the stages, left to right, and the sinks that
/// take the last stage's output and errors to a file.
pub struct Cmds {
    cmds: Vec<Command>,
    redirect_stdout: Option<Command>,
    redirect_stderr: Option<Command>,
}

/// The commands of one line as a value.
pub struct CmdsView {
    pub cmds: Seq<CommandView>,
    pub redirect_stdout: Option<CommandView>,
    pub redirect_stderr: Option<CommandView>,
}

/// The commands of a list, in order.
pub open spec fn command_views(cmds: Seq<Command>) -> Seq<CommandView> {
    Seq::new(cmds.len(), |i: int| cmds[i]@)
}

/// A command that may be missing, as a value.
pub open spec fn option_view(cmd: Option<Command>) -> Option<CommandView> {
    match cmd {
        Some(cmd) => Some(cmd@),
        None => None,
    }
}

impl View for Cmds {
    type V = CmdsView;

    closed spec fn view(&self) -> CmdsView {
        CmdsView {
            cmds: command_views(self.cmds@),
            redirect_stdout: option_view(self.redirect_stdout),
            redirect_stderr: option_view(self.redirect_stderr),
        }
    }
}

impl Cmds {
    /// No stage and no sink.
    pub fn new() -> (r: Self)
        ensures
            r@ == (CmdsView { cmds: Seq::empty(), redirect_stdout: None, redirect_stderr: None }),
    {
        let r = Self { cmds: Vec::new(), redirect_stdout: None, redirect_stderr: None };
        assert(r@.cmds =~= Seq::<CommandView>::empty());
        r
    }

    /// Adds a stage behind those already there.
    pub fn add_cmd(&mut self, cmd: Command)
        ensures
            final(self)@ == (CmdsView { cmds: old(self)@.cmds.push(cmd@), ..old(self)@ }),
    {
        self.cmds.push(cmd);
        assert(self@.cmds =~= old(self)@.cmds.push(cmd@));
    }

    /// Sets the sink for the last stage's output, in place of an earlier one.
    pub fn add_redirect_stdout(&mut self, cmd: Command)
        ensures
            final(self)@ == (CmdsView { redirect_stdout: Some(cmd@), ..old(self)@ }),
    {
        self.redirect_stdout = Some(cmd);
    }

    /// Sets the sink for the last stage's errors, in place of an earlier one.
    pub fn add_redirect_stderr(&mut self, cmd: Command)
        ensures
            final(self)@ == (CmdsView { redirect_stderr: Some(cmd@), ..old(self)@ }),
    {
        self.redirect_stderr = Some(cmd);
    }

    /// Whether there is no stage.
    pub fn is_empty(&self) -> (r: bool)
        ensures
            r == (self@.cmds.len() == 0),
    {
        self.cmds.len() == 0
    }
}

/// Where a process reads from.
#[derive(Clone, Copy, Debug, PartialEq, Eq, Structural)]
pub enum Input {
    /// The shell's own input.
    Inherit,
    /// The output of the process started at that step.
    Stdout(usize),
    /// The errors of the process started at that step.
    Stderr(usize),
}

/// A step as a value.
pub struct SpawnView {
    pub command: CommandView,
    pub stdin: Input,
    pub stdout_piped: bool,
    pub stderr_piped: bool,
}

/// One step of a pipeline: the process to start and its wiring. A stream
/// that is not captured as a pipe is the shell's own.
pub struct Spawn<'a> {
    pub command: &'a Command,
    pub stdin: Input,
    /// Whether the output is captured as a pipe, for a later step to read.
    pub stdout_piped: bool,
    /// Whether the errors are captured as a pipe, for a later step to read.
    pub stderr_piped: bool,
}

impl<'a> View for Spawn<'a> {
    type V = SpawnView;

    open spec fn view(&self) -> SpawnView {
        SpawnView {
            command: self.command@,
            stdin: self.stdin,
            stdout_piped: self.stdout_piped,
            stderr_piped: self.stderr_piped,
        }
    }
}

/// How many processes a line takes: its stages and its sinks. A line
/// without a stage takes none.
pub open spec fn plan_len(cmds: CmdsView) -> int {
    if cmds.cmds.len() == 0 {
        0
    } else {
        cmds.cmds.len() + if cmds.redirect_stdout is Some {
            1int
        } else {
            0int
        } + if cmds.redirect_stderr is Some {
            1int
        } else {
            0int
        }
    }
}

/// The step that starts stage `k`. Every stage but the first reads the
/// output of the stage before it; every stage but the last has its output
/// captured for the next; the last has its output and its errors captured
/// where a sink waits for them.
pub open spec fn stage_step(cmds: CmdsView, k: int) -> SpawnView {
    let last = cmds.cmds.len() - 1;
    SpawnView {
        command: cmds.cmds[k],
        stdin: if k == 0 {
            Input::Inherit
        } else {
            Input::Stdout((k - 1) as usize)
        },
        stdout_piped: k < last || cmds.redirect_stdout is Some,
        stderr_piped: k == last && cmds.redirect_stderr is Some,
    }
}

/// The steps of a line, in the order they are taken: the stages from left to
/// right, then the sink for the last stage's output, then the sink for its
/// errors.
pub open spec fn plan_step(cmds: CmdsView, k: int) -> SpawnView {
    let stages = cmds.cmds.len() as int;
    if k < stages {
        stage_step(cmds, k)
    } else if k == stages && cmds.redirect_stdout is Some {
        SpawnView {
            command: cmds.redirect_stdout->0,
            stdin: Input::Stdout((stages - 1) as usize),
            stdout_piped: false,
            stderr_piped: false,
        }
    } else {
        SpawnView {
            command: cmds.redirect_stderr->0,
            stdin: Input::Stderr((stages - 1) as usize),
            stdout_piped: false,
            stderr_piped: false,
        }
    }
}

/// The plan of a line: all its steps, in order.
pub open spec fn plan_of(cmds: CmdsView) -> Seq<SpawnView> {
    Seq::new(plan_len(cmds) as nat, |k: int| plan_step(cmds, k))
}

/// How a plan joins its processes. The stages come first, each started
/// with its own command; every stage but the first reads the output of the
/// stage before it. A step reads only what a step before it had captured,
/// and whatever a step has captured is read by one later step and no other.
pub proof fn lemma_plan_wiring(cmds: CmdsView)
    requires
        0 < cmds.cmds.len() <= usize::MAX,
    ensures
        plan_of(cmds).len() == plan_len(cmds),
        forall|k: int|
            0 <= k < cmds.cmds.len() ==> (#[trigger] plan_of(cmds)[k]).command == cmds.cmds[k],
        plan_of(cmds)[0].stdin == Input::Inherit,
        forall|k: int|
            0 < k < cmds.cmds.len() ==> (#[trigger] plan_of(cmds)[k]).stdin == Input::Stdout(
                (k - 1) as usize,
            ),
        forall|k: int|
            0 <= k < plan_of(cmds).len() ==> match (#[trigger] plan_of(cmds)[k]).stdin {
                Input::Inherit => true,
                Input::Stdout(j) => j < k && plan_of(cmds)[j as int].stdout_piped,
                Input::Stderr(j) => j < k && plan_of(cmds)[j as int].stderr_piped,
            },
        forall|j: int|
            0 <= j < plan_of(cmds).len() && (#[trigger] plan_of(cmds)[j]).stdout_piped ==> exists|
                k: int,
            |
                j < k < plan_of(cmds).len() && (#[trigger] plan_of(cmds)[k]).stdin == Input::Stdout(
                    j as usize,
                ),
        forall|j: int|
            0 <= j < plan_of(cmds).len() && (#[trigger] plan_of(cmds)[j]).stderr_piped ==> exists|
                k: int,
            |
                j < k < plan_of(cmds).len() && (#[trigger] plan_of(cmds)[k]).stdin == Input::Stderr(
                    j as usize,
                ),
        forall|k1: int, k2: int|
            0 <= k1 < plan_of(cmds).len() && 0 <= k2 < plan_of(cmds).len() && (#[trigger] plan_of(
                cmds,
            )[k1]).stdin == (#[trigger] plan_of(cmds)[k2]).stdin && plan_of(cmds)[k1].stdin
                != Input::Inherit ==> k1 == k2,
{
    let plan = plan_of(cmds);
    let stages = cmds.cmds.len() as int;
    assert forall|j: int| 0 <= j < plan.len() && (#[trigger] plan[j]).stdout_piped implies exists|
        k: int,
    |
        j < k < plan.len() && (#[trigger] plan[k]).stdin == Input::Stdout(j as usize) by {
        assert(plan[j + 1].stdin == Input::Stdout(j as usize));
    }
    assert forall|j: int| 0 <= j < plan.len() && (#[trigger] plan[j]).stderr_piped implies exists|
        k: int,
    |
        j < k < plan.len() && (#[trigger] plan[k]).stdin == Input::Stderr(j as usize) by {
        assert(plan[plan.len() - 1].stdin == Input::Stderr(j as usize));
    }
}

/// A pipeline as a value: the steps planned, how many of them are done, and
/// the processes owned, in the order they were started.
pub struct PipelineView {
    pub plan: Seq<SpawnView>,
    pub next: int,
    pub childs: Seq<u32>,
}

impl PipelineView {
    /// The step to take now, if one is left.
    pub open spec fn pending(self) -> Option<SpawnView> {
        if 0 <= self.next < self.plan.len() {
            Some(self.plan[self.next])
        } else {
            None
        }
    }
}

/// The executor's state for one line.
pub struct Pipeline {
    cmds: Cmds,
    /// The steps done; wide enough to count every stage and both sinks.
    next: u128,
    childs: Vec<u32>,
}

impl View for Pipeline {
    type V = PipelineView;

    closed spec fn view(&self) -> PipelineView {
        PipelineView { plan: plan_of(self.cmds@), next: self.next as int, childs: self.childs@ }
    }
}

impl Pipeline {
    /// A pipeline with nothing planned and nothing owned.
    pub fn new() -> (r: Self)
        ensures
            r@ == (PipelineView { plan: Seq::empty(), next: 0, childs: Seq::empty() }),
    {
        let r = Self { cmds: Cmds::new(), next: 0, childs: Vec::new() };
        assert(r@.plan =~= Seq::<SpawnView>::empty());
        r
    }

    /// Plans the processes of a line. The processes owned so far stay owned.
    pub fn pipe(&mut self, cmds: Cmds)
        ensures
            final(self)@ == (PipelineView { plan: plan_of(cmds@), next: 0, childs: old(self)@.childs }),
    {
        self.cmds = cmds;
        self.next = 0;
    }

    /// The step to take now: the next process to start and its wiring.
    /// Steps come strictly in order, each only after the one before it was
    /// reported as started.
    pub fn next_spawn(&self) -> (r: Option<Spawn<'_>>)
        ensures
            match self@.pending() {
                Some(step) => r is Some && r->Some_0@ == step,
                None => r is None,
            },
    {
        let stages = self.cmds.cmds.len();
        let to_stdout = self.cmds.redirect_stdout.is_some();
        let to_stderr = self.cmds.redirect_stderr.is_some();
        if stages == 0 {
            None
        } else if self.next < stages as u128 {
            let k = self.next as usize;
            Some(
                Spawn {
                    command: &self.cmds.cmds[k],
                    stdin: if k == 0 {
                        Input::Inherit
                    } else {
                        Input::Stdout(k - 1)
                    },
                    stdout_piped: k < stages - 1 || to_stdout,
                    stderr_piped: k == stages - 1 && to_stderr,
                },
            )
        } else if self.next == stages as u128 && to_stdout {
            match &self.cmds.redirect_stdout {
                Some(command) => Some(
                    Spawn {
                        command,
                        stdin: Input::Stdout(stages - 1),
                        stdout_piped: false,
                        stderr_piped: false,
                    },
                ),
                None => None,
            }
        } else if to_stderr && ((self.next == stages as u128 && !to_stdout) || (self.next
            - stages as u128 == 1 && to_stdout)) {
            match &self.cmds.redirect_stderr {
                Some(command) => Some(
                    Spawn {
                        command,
                        stdin: Input::Stderr(stages - 1),
                        stdout_piped: false,
                        stderr_piped: false,
                    },
                ),
                None => None,
            }
        } else {
            None
        }
    }

    /// Records that the pending step started a process, which is owned from
    /// now on.
    pub fn spawned(&mut self, child: u32)
        ensures
            final(self)@ == (PipelineView {
                plan: old(self)@.plan,
                next: if old(self)@.pending() is Some {
                    old(self)@.next + 1
                } else {
                    old(self)@.next
                },
                childs: old(self)@.childs.push(child),
            }),
    {
        if self.next_spawn().is_some() {
            assert(self@.plan.len() == plan_len(self.cmds@));
            assert(self.cmds@.cmds.len() == self.cmds.cmds.len());
            assert(self.next < self.cmds.cmds.len() + 2);
            self.next = self.next + 1;
        }
        self.childs.push(child);
    }

    /// Records that the pending step failed to start. Every process started
    /// so far is handed out to be ended, none stays owned, and no further
    /// step is taken.
    pub fn spawn_failed(&mut self) -> (r: Vec<u32>)
        ensures
            r@ == old(self)@.childs,
            final(self)@ == (PipelineView { plan: Seq::empty(), next: 0, childs: Seq::empty() }),
    {
        let mut childs: Vec<u32> = Vec::new();
        core::mem::swap(&mut self.childs, &mut childs);
        self.cmds = Cmds::new();
        self.next = 0;
        assert(self@.plan =~= Seq::<SpawnView>::empty());
        childs
    }

    /// Hands out every owned process to be awaited, in the order they were
    /// started; none stays owned.
    pub fn wait(&mut self) -> (r: Vec<u32>)
        ensures
            r@ == old(self)@.childs,
            final(self)@ == (PipelineView { childs: Seq::empty(), ..old(self)@ }),
    {
        let mut childs: Vec<u32> = Vec::new();
        core::mem::swap(&mut self.childs, &mut childs);
        childs
    }

    /// Hands out every owned process to be ended, in the order they were
    /// started; none stays owned.
    pub fn kill(&mut self) -> (r: Vec<u32>)
        ensures
            r@ == old(self)@.childs,
            final(self)@ == (PipelineView { childs: Seq::empty(), ..old(self)@ }),
    {
        let mut childs: Vec<u32> = Vec::new();
        core::mem::swap(&mut self.childs, &mut childs);
        childs
    }
}

} // verus!
