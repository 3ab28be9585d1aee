//! The splitter: from a raw line to pipeline stages and redirections.

use crate::operators::{redirects, Mode, Opt, OptFind, Redirect};
use crate::text::{is_blank, lemma_trim_end_blank, str_eq, trim_end, trim_end_spec};
use vstd::prelude::*;
use vstd::std_specs::iter::IteratorSpec;

verus! {

/// A line that was split: its pipeline stages and its redirections.
pub struct CmdsAndOperators {
    pub cmds: Vec<Vec<String>>,
    pub operators: Vec<Opt>,
}

/// Why a line is not split.
pub enum InputSplitFail {
    NoInput,
    NoRedirectArg,
    NoAppendArg,
    NoPipCmd,
    ShlexError,
}

/// The words of a line with the redirections taken out, not yet cut into
/// stages.
pub struct CmdsNoSplitAndOperators {
    pub cmds: Vec<String>,
    pub operators: Vec<Opt>,
}

/// What a split line holds: the stages, each a command name and its
/// arguments, and the redirections in the order they were written.
pub struct ParsedLine {
    pub stages: Seq<Seq<Seq<char>>>,
    pub operators: Seq<Redirect>,
}

impl View for CmdsAndOperators {
    type V = ParsedLine;

    open spec fn view(&self) -> ParsedLine {
        ParsedLine { stages: self.cmds.deep_view(), operators: redirects(self.operators@) }
    }
}

/// The word that separates two stages.
pub open spec fn is_pipe(word: Seq<char>) -> bool {
    word == "|"@
}

/// Two or more pipes written as one word: pipes with nothing between them.
pub open spec fn is_pipe_run(word: Seq<char>) -> bool {
    word.len() >= 2 && forall|i: int| 0 <= i < word.len() ==> #[trigger] word[i] == '|'
}

/// The operators that write a file anew.
pub open spec fn is_truncate_token(word: Seq<char>) -> bool {
    word == ">"@ || word == "1>"@ || word == "2>"@
}

/// The operators that write behind what a file holds.
pub open spec fn is_append_token(word: Seq<char>) -> bool {
    word == ">>"@ || word == "1>>"@ || word == "2>>"@
}

/// The words that redirect a stream.
pub open spec fn is_operator_token(word: Seq<char>) -> bool {
    is_truncate_token(word) || is_append_token(word)
}

/// The redirection that an operator word and the word after it stand for.
pub open spec fn operator_of(word: Seq<char>, file: Seq<char>) -> Redirect
    recommends
        is_operator_token(word),
{
    if word == ">"@ || word == "1>"@ {
        Redirect { stream: OptFind::Stdout, mode: Mode::Truncate, file }
    } else if word == "2>"@ {
        Redirect { stream: OptFind::Stderr, mode: Mode::Truncate, file }
    } else if word == ">>"@ || word == "1>>"@ {
        Redirect { stream: OptFind::Stdout, mode: Mode::Append, file }
    } else {
        Redirect { stream: OptFind::Stderr, mode: Mode::Append, file }
    }
}

/// The words that are left when each operator and the word after it are
/// taken out.
pub open spec fn command_tokens(words: Seq<Seq<char>>) -> Seq<Seq<char>>
    decreases words.len(),
{
    if words.len() == 0 {
        Seq::empty()
    } else if is_operator_token(words[0]) {
        if words.len() >= 2 {
            command_tokens(words.skip(2))
        } else {
            Seq::empty()
        }
    } else {
        seq![words[0]] + command_tokens(words.skip(1))
    }
}

/// The redirections among the words, in order: each operator with the word
/// after it as its file.
pub open spec fn operator_list(words: Seq<Seq<char>>) -> Seq<Redirect>
    decreases words.len(),
{
    if words.len() == 0 {
        Seq::empty()
    } else if is_operator_token(words[0]) {
        if words.len() >= 2 {
            seq![operator_of(words[0], words[1])] + operator_list(words.skip(2))
        } else {
            Seq::empty()
        }
    } else {
        operator_list(words.skip(1))
    }
}

/// Taking the operators out fails on no words at all, and on a last word
/// that is an operator with no file after it.
pub open spec fn split_operators_spec(words: Seq<Seq<char>>) -> Result<
    (Seq<Seq<char>>, Seq<Redirect>),
    InputSplitFail,
> {
    if words.len() == 0 {
        Err(InputSplitFail::NoInput)
    } else if is_truncate_token(words.last()) {
        Err(InputSplitFail::NoRedirectArg)
    } else if is_append_token(words.last()) {
        Err(InputSplitFail::NoAppendArg)
    } else {
        Ok((command_tokens(words), operator_list(words)))
    }
}

/// Whether the words at `i` and behind it are both pipes.
pub open spec fn adjacent_pipes(words: Seq<Seq<char>>, i: int) -> bool {
    is_pipe(words[i]) && is_pipe(words[i + 1])
}

/// A pipe is misplaced when it is the first word, the last word, or next to
/// another pipe, be it as the next word or within one word.
pub open spec fn misplaced_pipe(words: Seq<Seq<char>>) -> bool
    recommends
        words.len() > 0,
{
    ||| is_pipe(words[0])
    ||| is_pipe(words.last())
    ||| exists|i: int| 0 <= i < words.len() - 1 && #[trigger] adjacent_pipes(words, i)
    ||| exists|i: int| 0 <= i < words.len() && is_pipe_run(#[trigger] words[i])
}

/// The runs of words between the pipes. A pipe closes the run before it and
/// opens the next; any other word joins the run that is open.
pub open spec fn stages_of(words: Seq<Seq<char>>) -> Seq<Seq<Seq<char>>>
    decreases words.len(),
{
    if words.len() == 0 {
        seq![Seq::empty()]
    } else {
        let before = stages_of(words.drop_last());
        if is_pipe(words.last()) {
            before.push(Seq::empty())
        } else {
            before.drop_last().push(before.last().push(words.last()))
        }
    }
}

/// Cutting into stages fails on no words at all and on a misplaced pipe.
pub open spec fn split_cmds_spec(cmds: Seq<Seq<char>>) -> Result<
    Seq<Seq<Seq<char>>>,
    InputSplitFail,
> {
    if cmds.len() == 0 {
        Err(InputSplitFail::NoInput)
    } else if misplaced_pipe(cmds) {
        Err(InputSplitFail::NoPipCmd)
    } else {
        Ok(stages_of(cmds))
    }
}

/// What a line's words split into: the operators are taken out first, then
/// the rest is cut at the pipes.
pub open spec fn parse_words(words: Seq<Seq<char>>) -> Result<ParsedLine, InputSplitFail> {
    match split_operators_spec(words) {
        Err(reason) => Err(reason),
        Ok((cmds, operators)) => match split_cmds_spec(cmds) {
            Err(reason) => Err(reason),
            Ok(stages) => Ok(ParsedLine { stages, operators }),
        },
    }
}

/// The words that `shlex::split` reads from a line, by the quoting rules of
/// a POSIX shell; `None` where the line ends inside a quotation or after a
/// lone backslash.
pub uninterp spec fn shlex_words(line: Seq<char>) -> Option<Seq<Seq<char>>>;

/// What a raw line splits into: its trailing whitespace is dropped, the rest
/// is read as words, and the words are split.
pub open spec fn parse_line(line: Seq<char>) -> Result<ParsedLine, InputSplitFail> {
    match shlex_words(trim_end_spec(line)) {
        None => Err(InputSplitFail::ShlexError),
        Some(words) => parse_words(words),
    }
}

impl ParsedLine {
    /// Every line that was split has at least one stage, no stage is empty,
    /// and no word of a stage is made of pipes or is an operator.
    pub open spec fn wf(self) -> bool {
        &&& self.stages.len() >= 1
        &&& forall|k: int| 0 <= k < self.stages.len() ==> (#[trigger] self.stages[k]).len() > 0
        &&& forall|k: int, j: int|
            0 <= k < self.stages.len() && 0 <= j < self.stages[k].len() ==> {
                &&& !is_pipe(#[trigger] self.stages[k][j])
                &&& !is_pipe_run(self.stages[k][j])
                &&& !is_operator_token(self.stages[k][j])
            }
    }
}

/// `shlex::split` on the line: the words it reads, or `None` where the
/// quoting is malformed. A line of no characters has no words.
#[verifier::external_body]
fn lex(line: &str) -> (r: Option<Vec<String>>)
    ensures
        match shlex_words(line@) {
            Some(words) => r is Some && r->Some_0.deep_view() == words,
            None => r is None,
        },
        line@.len() == 0 ==> r is Some && r->Some_0.deep_view().len() == 0,
{
    shlex::split(line)
}

fn is_truncate(word: &str) -> (r: bool)
    ensures
        r == is_truncate_token(word@),
{
    str_eq(word, ">") || str_eq(word, "1>") || str_eq(word, "2>")
}

fn is_append(word: &str) -> (r: bool)
    ensures
        r == is_append_token(word@),
{
    str_eq(word, ">>") || str_eq(word, "1>>") || str_eq(word, "2>>")
}

fn operator_for(word: &str, file: String) -> (r: Opt)
    requires
        is_operator_token(word@),
    ensures
        r@ == operator_of(word@, file@),
{
    if str_eq(word, ">") || str_eq(word, "1>") {
        Opt::RedirectStdout(file)
    } else if str_eq(word, "2>") {
        Opt::RedirectStderr(file)
    } else if str_eq(word, ">>") || str_eq(word, "1>>") {
        Opt::AppendStdout(file)
    } else {
        Opt::AppendStderr(file)
    }
}

/// Takes the redirections out of a line's words. Each operator takes the
/// word after it as its file; every other word stays, in order.
pub fn split_operators(words: Vec<String>) -> (r: Result<CmdsNoSplitAndOperators, InputSplitFail>)
    ensures
        match split_operators_spec(words.deep_view()) {
            Ok((cmds, operators)) => {
                &&& r is Ok
                &&& r->Ok_0.cmds.deep_view() == cmds
                &&& redirects(r->Ok_0.operators@) == operators
            },
            Err(reason) => r is Err && r->Err_0 == reason,
        },
{
    let n = words.len();
    let ghost t = words.deep_view();
    if n == 0 {
        return Err(InputSplitFail::NoInput);
    }
    let last = words[n - 1].as_str();
    if is_truncate(last) {
        return Err(InputSplitFail::NoRedirectArg);
    } else if is_append(last) {
        return Err(InputSplitFail::NoAppendArg);
    }
    let mut operators: Vec<Opt> = Vec::new();
    let mut cmds: Vec<String> = Vec::new();
    let mut i: usize = 0;
    assert(t.skip(0) =~= t);
    assert(cmds.deep_view() + command_tokens(t) =~= command_tokens(t));
    assert(redirects(operators@) + operator_list(t) =~= operator_list(t));
    while i < n
        invariant
            i <= n,
            n == words.len(),
            n > 0,
            t == words.deep_view(),
            !is_operator_token(t[n - 1]),
            command_tokens(t) == cmds.deep_view() + command_tokens(t.skip(i as int)),
            operator_list(t) == redirects(operators@) + operator_list(t.skip(i as int)),
        decreases n - i,
    {
        let word = &words[i];
        let ghost rest = t.skip(i as int);
        let ghost old_cmds = cmds.deep_view();
        let ghost old_ops = redirects(operators@);
        assert(rest[0] == word@);
        if is_truncate(word.as_str()) || is_append(word.as_str()) {
            assert(i < n - 1);
            let file = words[i + 1].clone();
            assert(rest[1] == file@);
            let opt = operator_for(word.as_str(), file);
            operators.push(opt);
            proof {
                assert(rest.skip(2) =~= t.skip(i + 2));
                assert(redirects(operators@) =~= old_ops.push(opt@));
                assert(old_ops + (seq![opt@] + operator_list(rest.skip(2))) =~= old_ops.push(opt@)
                    + operator_list(rest.skip(2)));
            }
            i += 2;
        } else {
            cmds.push(word.clone());
            proof {
                assert(rest.skip(1) =~= t.skip(i + 1));
                assert(cmds.deep_view() =~= old_cmds.push(word@));
                assert(old_cmds + (seq![word@] + command_tokens(rest.skip(1))) =~= old_cmds.push(
                    word@,
                ) + command_tokens(rest.skip(1)));
            }
            i += 1;
        }
    }
    proof {
        assert(t.skip(n as int).len() == 0);
        assert(cmds.deep_view() + Seq::<Seq<char>>::empty() =~= cmds.deep_view());
        assert(redirects(operators@) + Seq::<Redirect>::empty() =~= redirects(operators@));
    }
    Ok(CmdsNoSplitAndOperators { cmds, operators })
}

fn pipe_run(word: &str) -> (r: bool)
    ensures
        r == is_pipe_run(word@),
{
    broadcast use vstd::string::group_string_axioms;

    let total = word.unicode_len();
    if total < 2 {
        return false;
    }
    let mut it = word.chars();
    let mut seen: usize = 0;
    loop
        invariant
            total == word@.len(),
            total >= 2,
            seen <= total,
            it.obeys_prophetic_iter_laws(),
            it.remaining() == word@.skip(seen as int),
            forall|i: int| 0 <= i < seen ==> #[trigger] word@[i] == '|',
        decreases total - seen,
    {
        match it.next() {
            None => {
                return true;
            },
            Some(c) => {
                assert(word@[seen as int] == c);
                if c != '|' {
                    return false;
                }
                proof {
                    assert(word@.skip(seen as int).drop_first() =~= word@.skip(seen + 1));
                }
                seen = seen + 1;
            },
        }
    }
}

fn has_misplaced_pipe(cmds: &Vec<String>) -> (r: bool)
    requires
        cmds.len() > 0,
    ensures
        r == misplaced_pipe(cmds.deep_view()),
{
    let n = cmds.len();
    let ghost t = cmds.deep_view();
    if str_eq(cmds[0].as_str(), "|") || str_eq(cmds[n - 1].as_str(), "|") {
        return true;
    }
    let mut i: usize = 0;
    while i < n
        invariant
            n == cmds.len(),
            n > 0,
            i <= n,
            t == cmds.deep_view(),
            forall|j: int| 0 <= j < i && j < n - 1 ==> !#[trigger] adjacent_pipes(t, j),
            forall|j: int| 0 <= j < i ==> !is_pipe_run(#[trigger] t[j]),
        decreases n - i,
    {
        assert(t[i as int] == cmds@[i as int]@);
        if pipe_run(cmds[i].as_str()) {
            return true;
        }
        if i < n - 1 && str_eq(cmds[i].as_str(), "|") && str_eq(cmds[i + 1].as_str(), "|") {
            assert(adjacent_pipes(t, i as int));
            return true;
        }
        i += 1;
    }
    false
}

/// Cuts a command's words at the pipes into stages. A pipe that is the
/// first word, the last word, or next to another pipe is refused.
pub fn split_cmds(cmds: Vec<String>) -> (r: Result<Vec<Vec<String>>, InputSplitFail>)
    ensures
        match split_cmds_spec(cmds.deep_view()) {
            Ok(stages) => r is Ok && r->Ok_0.deep_view() == stages,
            Err(reason) => r is Err && r->Err_0 == reason,
        },
{
    if cmds.len() == 0 {
        return Err(InputSplitFail::NoInput);
    }
    if has_misplaced_pipe(&cmds) {
        return Err(InputSplitFail::NoPipCmd);
    }
    let n = cmds.len();
    let ghost t = cmds.deep_view();
    let mut cmd: Vec<String> = Vec::new();
    let mut cmds_split: Vec<Vec<String>> = Vec::new();
    let mut i: usize = 0;
    proof {
        assert(t.take(0).len() == 0);
        assert(cmd.deep_view() =~= Seq::<Seq<char>>::empty());
        assert(cmds_split.deep_view().push(cmd.deep_view()) =~= seq![Seq::<Seq<char>>::empty()]);
    }
    while i < n
        invariant
            i <= n,
            n == cmds.len(),
            t == cmds.deep_view(),
            cmds_split.deep_view().push(cmd.deep_view()) == stages_of(t.take(i as int)),
        decreases n - i,
    {
        let word = &cmds[i];
        let ghost done = cmds_split.deep_view();
        let ghost open = cmd.deep_view();
        proof {
            assert(t.take(i + 1).drop_last() =~= t.take(i as int));
            assert(t.take(i + 1).last() == word@);
            assert(done.push(open).drop_last() =~= done);
        }
        if str_eq(word.as_str(), "|") {
            cmds_split.push(cmd);
            cmd = Vec::new();
            assert(cmds_split.deep_view() =~= done.push(open));
            assert(cmd.deep_view() =~= Seq::<Seq<char>>::empty());
        } else {
            cmd.push(word.clone());
            assert(cmd.deep_view() =~= open.push(word@));
        }
        i += 1;
    }
    let ghost done = cmds_split.deep_view();
    let ghost open = cmd.deep_view();
    cmds_split.push(cmd);
    proof {
        assert(t.take(n as int) =~= t);
        assert(cmds_split.deep_view() =~= done.push(open));
    }
    Ok(cmds_split)
}

/// Splits a line's words into stages and redirections.
pub fn split_tokens(words: Vec<String>) -> (r: Result<CmdsAndOperators, InputSplitFail>)
    ensures
        match parse_words(words.deep_view()) {
            Ok(parsed) => r is Ok && r->Ok_0@ == parsed,
            Err(reason) => r is Err && r->Err_0 == reason,
        },
{
    match split_operators(words) {
        Err(reason) => Err(reason),
        Ok(parts) => match split_cmds(parts.cmds) {
            Err(reason) => Err(reason),
            Ok(cmds) => Ok(CmdsAndOperators { cmds, operators: parts.operators }),
        },
    }
}

/// Splits a raw line into stages and redirections. A line that is empty or
/// all whitespace has no input.
pub fn split_input(input: String) -> (r: Result<CmdsAndOperators, InputSplitFail>)
    ensures
        match parse_line(input@) {
            Ok(parsed) => r is Ok && r->Ok_0@ == parsed,
            Err(reason) => r is Err && r->Err_0 == reason,
        },
        is_blank(input@) ==> r is Err && r->Err_0 == InputSplitFail::NoInput,
{
    let line = trim_end(input.as_str());
    proof {
        lemma_trim_end_blank(input@);
    }
    match lex(line) {
        None => Err(InputSplitFail::ShlexError),
        Some(words) => split_tokens(words),
    }
}

/// What is reported for each failure; a line without input is not reported.
pub open spec fn split_fail_text(reason: InputSplitFail) -> Option<Seq<char>> {
    match reason {
        InputSplitFail::NoInput => None,
        InputSplitFail::NoRedirectArg => Some("no file to redirect!!!"@),
        InputSplitFail::NoAppendArg => Some("no file to append!!!"@),
        InputSplitFail::NoPipCmd => Some("no command for the pips!!!"@),
        InputSplitFail::ShlexError => Some("shlex error!!!"@),
    }
}

/// The line that reports why a line was not split; a line without input is
/// passed over in silence.
pub fn split_fail_process(reason: InputSplitFail) -> (r: Option<String>)
    ensures
        match split_fail_text(reason) {
            Some(text) => r is Some && r->Some_0@ == text,
            None => r is None,
        },
{
    match reason {
        InputSplitFail::NoInput => None,
        InputSplitFail::NoRedirectArg => Some("no file to redirect!!!".to_owned()),
        InputSplitFail::NoAppendArg => Some("no file to append!!!".to_owned()),
        InputSplitFail::NoPipCmd => Some("no command for the pips!!!".to_owned()),
        InputSplitFail::ShlexError => Some("shlex error!!!".to_owned()),
    }
}

} // verus!
