//! Redirection operators: which one wins for each stream, how one is handed
//! to a sink process, and how a sink reads it back.

use crate::pipeline::{Command, CommandView};
use crate::text::str_eq;
use vstd::prelude::*;

verus! {

/// A redirection: the stream it takes, how it writes, and the file it names.
#[derive(Debug)]
pub enum Opt {
    RedirectStdout(String),
    RedirectStderr(String),
    AppendStdout(String),
    AppendStderr(String),
}

/// The stream that a redirection takes.
#[derive(Clone, Copy, Debug, PartialEq, Eq, Structural)]
pub enum OptFind {
    Stdout,
    Stderr,
}

/// How a redirection treats what the file already holds.
pub enum Mode {
    Truncate,
    Append,
}

/// Why the arguments of a sink are refused.
pub enum OptParseFail {
    NoOpt,
    NofileName,
    WrongOpt,
}

/// What an operator means.
pub struct Redirect {
    pub stream: OptFind,
    pub mode: Mode,
    pub file: Seq<char>,
}

impl View for Opt {
    type V = Redirect;

    open spec fn view(&self) -> Redirect {
        match self {
            Opt::RedirectStdout(file) => Redirect {
                stream: OptFind::Stdout,
                mode: Mode::Truncate,
                file: file@,
            },
            Opt::RedirectStderr(file) => Redirect {
                stream: OptFind::Stderr,
                mode: Mode::Truncate,
                file: file@,
            },
            Opt::AppendStdout(file) => Redirect {
                stream: OptFind::Stdout,
                mode: Mode::Append,
                file: file@,
            },
            Opt::AppendStderr(file) => Redirect {
                stream: OptFind::Stderr,
                mode: Mode::Append,
                file: file@,
            },
        }
    }
}

impl Opt {
    /// The file that the operator names.
    pub fn file(&self) -> (r: &String)
        ensures
            r@ == self@.file,
    {
        match self {
            Opt::RedirectStdout(file) => file,
            Opt::RedirectStderr(file) => file,
            Opt::AppendStdout(file) => file,
            Opt::AppendStderr(file) => file,
        }
    }
}

/// The meanings of a list of operators, in order.
pub open spec fn redirects(opts: Seq<Opt>) -> Seq<Redirect> {
    Seq::new(opts.len(), |i: int| opts[i]@)
}

/// The place of the last redirection that takes `stream`.
pub open spec fn last_opt_index(ops: Seq<Redirect>, stream: OptFind) -> Option<int>
    decreases ops.len(),
{
    if ops.len() == 0 {
        None
    } else if ops.last().stream == stream {
        Some(ops.len() - 1)
    } else {
        last_opt_index(ops.drop_last(), stream)
    }
}

/// The last redirection for a stream wins: it takes the stream, and none
/// after it does. Where there is none, no redirection takes the stream.
pub proof fn lemma_last_opt_wins(ops: Seq<Redirect>, stream: OptFind)
    ensures
        match last_opt_index(ops, stream) {
            Some(i) => {
                &&& 0 <= i < ops.len()
                &&& ops[i].stream == stream
                &&& forall|j: int| i < j < ops.len() ==> (#[trigger] ops[j]).stream != stream
            },
            None => forall|j: int| 0 <= j < ops.len() ==> (#[trigger] ops[j]).stream != stream,
        },
    decreases ops.len(),
{
    if ops.len() > 0 && ops.last().stream != stream {
        let rest = ops.drop_last();
        lemma_last_opt_wins(rest, stream);
        assert forall|j: int| 0 <= j < rest.len() implies rest[j] == ops[j] by {}
        match last_opt_index(rest, stream) {
            Some(i) => {
                assert forall|j: int| i < j < ops.len() implies (#[trigger] ops[j]).stream
                    != stream by {
                    if j < rest.len() {
                        assert(rest[j] == ops[j]);
                    }
                }
            },
            None => {
                assert forall|j: int| 0 <= j < ops.len() implies (#[trigger] ops[j]).stream
                    != stream by {
                    if j < rest.len() {
                        assert(rest[j] == ops[j]);
                    }
                }
            },
        }
    }
}

/// The streams are resolved apart: a further redirection changes nothing
/// for the stream that it does not take.
pub proof fn lemma_other_stream_unchanged(ops: Seq<Redirect>, next: Redirect, stream: OptFind)
    requires
        next.stream != stream,
    ensures
        last_opt_index(ops.push(next), stream) == last_opt_index(ops, stream),
{
    assert(ops.push(next).drop_last() =~= ops);
}

fn takes(opt: &Opt, stream: OptFind) -> (r: bool)
    ensures
        r == (opt@.stream == stream),
{
    match opt {
        Opt::RedirectStdout(_) | Opt::AppendStdout(_) => match stream {
            OptFind::Stdout => true,
            OptFind::Stderr => false,
        },
        Opt::RedirectStderr(_) | Opt::AppendStderr(_) => match stream {
            OptFind::Stdout => false,
            OptFind::Stderr => true,
        },
    }
}

/// The last operator that takes the stream `opt`, if any does.
pub fn find_last_opt(opts: &Vec<Opt>, opt: OptFind) -> (r: Option<&Opt>)
    ensures
        match last_opt_index(redirects(opts@), opt) {
            Some(i) => r == Some(&opts@[i]),
            None => r is None,
        },
{
    let ghost ops = redirects(opts@);
    let mut i: usize = opts.len();
    assert(ops.take(i as int) =~= ops);
    while i > 0
        invariant
            i <= opts.len(),
            ops == redirects(opts@),
            last_opt_index(ops, opt) == last_opt_index(ops.take(i as int), opt),
        decreases i,
    {
        i -= 1;
        assert(ops.take(i + 1).last() == opts@[i as int]@);
        if takes(&opts[i], opt) {
            return Some(&opts[i]);
        }
        assert(ops.take(i + 1).drop_last() =~= ops.take(i as int));
    }
    proof {
        assert(ops.take(0).len() == 0);
    }
    None
}

/// The operators in force: first the one for stdout, then the one for stderr.
pub fn find_last_opts(opts: &Vec<Opt>) -> (r: (Option<&Opt>, Option<&Opt>))
    ensures
        match last_opt_index(redirects(opts@), OptFind::Stdout) {
            Some(i) => r.0 == Some(&opts@[i]),
            None => r.0 is None,
        },
        match last_opt_index(redirects(opts@), OptFind::Stderr) {
            Some(i) => r.1 == Some(&opts@[i]),
            None => r.1 is None,
        },
{
    (find_last_opt(opts, OptFind::Stdout), find_last_opt(opts, OptFind::Stderr))
}

/// The name under which a sink process is told what to do.
pub open spec fn opt_name(stream: OptFind, mode: Mode) -> Seq<char> {
    match (stream, mode) {
        (OptFind::Stdout, Mode::Truncate) => "redirect_stdout"@,
        (OptFind::Stderr, Mode::Truncate) => "redirect_stderr"@,
        (OptFind::Stdout, Mode::Append) => "append_stdout"@,
        (OptFind::Stderr, Mode::Append) => "append_stderr"@,
    }
}

/// The sink process for a redirection.
pub open spec fn generate_opt_spec(op: Redirect) -> CommandView {
    CommandView { program: "drshell"@, args: seq!["-o"@, opt_name(op.stream, op.mode), op.file] }
}

/// The sink process for an operator: the shell itself, started with `-o`,
/// the operator's name and its file.
pub fn generate_opt(opt: &Opt) -> (r: Command)
    ensures
        r@ == generate_opt_spec(opt@),
{
    let mut args: Vec<String> = Vec::new();
    args.push("-o".to_owned());
    let file = match opt {
        Opt::RedirectStdout(file) => {
            args.push("redirect_stdout".to_owned());
            file
        },
        Opt::RedirectStderr(file) => {
            args.push("redirect_stderr".to_owned());
            file
        },
        Opt::AppendStdout(file) => {
            args.push("append_stdout".to_owned());
            file
        },
        Opt::AppendStderr(file) => {
            args.push("append_stderr".to_owned());
            file
        },
    };
    args.push(file.clone());
    let r = Command { program: "drshell".to_owned(), args };
    assert(r@.args =~= generate_opt_spec(opt@).args);
    r
}

/// What a sink's arguments ask for. Both truncating names are read as the
/// truncating operator on stdout: a sink copies its own input whichever
/// stream feeds it.
pub open spec fn parse_opt_spec(opt: Seq<Seq<char>>) -> Result<Redirect, OptParseFail> {
    if opt.len() == 0 {
        Err(OptParseFail::NoOpt)
    } else {
        let file = if opt.len() > 1 {
            opt[1]
        } else {
            Seq::<char>::empty()
        };
        let name = opt[0];
        if name != "redirect_stdout"@ && name != "redirect_stderr"@ && name != "append_stdout"@
            && name != "append_stderr"@ {
            Err(OptParseFail::WrongOpt)
        } else if file.len() == 0 {
            Err(OptParseFail::NofileName)
        } else if name == "redirect_stdout"@ || name == "redirect_stderr"@ {
            Ok(Redirect { stream: OptFind::Stdout, mode: Mode::Truncate, file })
        } else if name == "append_stdout"@ {
            Ok(Redirect { stream: OptFind::Stdout, mode: Mode::Append, file })
        } else {
            Ok(Redirect { stream: OptFind::Stderr, mode: Mode::Append, file })
        }
    }
}

/// Reads the arguments of a sink process: the operator's name, then its file.
pub fn parse_opt(opt: Vec<String>) -> (r: Result<Opt, OptParseFail>)
    ensures
        match parse_opt_spec(opt.deep_view()) {
            Ok(op) => r is Ok && r->Ok_0@ == op,
            Err(reason) => r == Err::<Opt, OptParseFail>(reason),
        },
{
    if opt.len() == 0 {
        return Err(OptParseFail::NoOpt);
    }
    let optname = &opt[0];
    let filename = if opt.len() > 1 {
        opt[1].clone()
    } else {
        String::new()
    };
    assert(opt.deep_view()[0] == optname@);
    assert(opt.len() > 1 ==> opt.deep_view()[1] == filename@);
    let empty = filename.as_str().is_empty();
    if str_eq(optname.as_str(), "redirect_stdout") || str_eq(optname.as_str(), "redirect_stderr") {
        if empty {
            Err(OptParseFail::NofileName)
        } else {
            Ok(Opt::RedirectStdout(filename))
        }
    } else if str_eq(optname.as_str(), "append_stdout") {
        if empty {
            Err(OptParseFail::NofileName)
        } else {
            Ok(Opt::AppendStdout(filename))
        }
    } else if str_eq(optname.as_str(), "append_stderr") {
        if empty {
            Err(OptParseFail::NofileName)
        } else {
            Ok(Opt::AppendStderr(filename))
        }
    } else {
        Err(OptParseFail::WrongOpt)
    }
}

/// What a sink does before it copies its input to the file.
pub struct Sink {
    /// The file that the input is appended to, line by line.
    pub file: String,
    /// Whether the file is first written anew, empty.
    pub reset: bool,
}

/// How a sink treats its file: it is emptied where the operator truncates,
/// and created empty where it does not exist yet; an appending operator
/// leaves a file that exists as it is.
pub fn operator_action(opt: Opt, exists: bool) -> (r: Sink)
    ensures
        r.file@ == opt@.file,
        r.reset == (opt@.mode is Truncate || !exists),
{
    match opt {
        Opt::RedirectStdout(file) => Sink { file, reset: true },
        Opt::RedirectStderr(file) => Sink { file, reset: true },
        Opt::AppendStdout(file) => Sink { file, reset: !exists },
        Opt::AppendStderr(file) => Sink { file, reset: !exists },
    }
}

/// What is reported for each failure.
pub open spec fn parse_opt_fail_text(reason: OptParseFail) -> Seq<char> {
    match reason {
        OptParseFail::NoOpt => "no opt!!!"@,
        OptParseFail::NofileName => "no filename for opt!!!"@,
        OptParseFail::WrongOpt => "wrong opt!!!"@,
    }
}

/// The line that reports why a sink's arguments were refused.
pub fn parse_opt_fail_process(reason: OptParseFail) -> (r: String)
    ensures
        r@ == parse_opt_fail_text(reason),
{
    match reason {
        OptParseFail::NoOpt => "no opt!!!".to_owned(),
        OptParseFail::NofileName => "no filename for opt!!!".to_owned(),
        OptParseFail::WrongOpt => "wrong opt!!!".to_owned(),
    }
}

} // verus!
