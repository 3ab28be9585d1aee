//! Completion: the candidates for the word under the cursor. Places in a
//! line count its characters.

use crate::env::{exe_views, Exe, ExeView};
use crate::order::{sort_unique, sorted_texts};
use crate::rustyline::Rustyline;
use crate::text::{chars_of, has_prefix, starts_with};
use vstd::prelude::*;
use vstd::string::{StrSliceExecFns, StringExecFns};

verus! {

/// A candidate: what is listed, and the line that takes the place of the
/// one typed.
pub struct Pair {
    pub display: String,
    pub replacement: String,
}

/// A candidate as a value.
pub struct PairView {
    pub display: Seq<char>,
    pub replacement: Seq<char>,
}

impl View for Pair {
    type V = PairView;

    open spec fn view(&self) -> PairView {
        PairView { display: self.display@, replacement: self.replacement@ }
    }
}

/// The candidates of a list, in order.
pub open spec fn pair_views(pairs: Seq<Pair>) -> Seq<PairView> {
    Seq::new(pairs.len(), |i: int| pairs[i]@)
}

/// The builtins as they head the list of commands: last named, first
/// listed.
pub open spec fn front_builtins() -> Seq<Seq<char>> {
    seq!["history"@, "list-builtins"@, "cd"@, "pwd"@, "type"@, "exit"@, "echo"@]
}

/// The names of a list of executables, in order.
pub open spec fn exe_names(exes: Seq<ExeView>) -> Seq<Seq<char>> {
    Seq::new(exes.len(), |i: int| exes[i].name)
}

/// The commands that can be completed: the builtins, then the names of the
/// executables, each once, in order.
pub open spec fn sort_cmds_spec(exes: Seq<ExeView>) -> Seq<Seq<char>> {
    front_builtins() + sorted_texts(exe_names(exes))
}

/// The commands that can be completed, given the executables found along
/// the search path.
pub fn sort_cmds(exes: &Vec<Exe>) -> (r: Vec<String>)
    ensures
        r.deep_view() == sort_cmds_spec(exe_views(exes@)),
{
    let ghost wanted = exe_names(exe_views(exes@));
    let mut names: Vec<String> = Vec::new();
    let mut i: usize = 0;
    while i < exes.len()
        invariant
            i <= exes.len(),
            wanted == exe_names(exe_views(exes@)),
            names.deep_view() =~= wanted.take(i as int),
        decreases exes.len() - i,
    {
        let ghost held = names.deep_view();
        names.push(exes[i].get_name());
        assert(names.deep_view() =~= held.push(exes@[i as int]@.name));
        i += 1;
    }
    assert(wanted.take(exes.len() as int) =~= wanted);
    let mut cmds = sort_unique(&names);
    let ghost sorted = cmds.deep_view();
    cmds.insert(0, "echo".to_owned());
    cmds.insert(0, "exit".to_owned());
    cmds.insert(0, "type".to_owned());
    cmds.insert(0, "pwd".to_owned());
    cmds.insert(0, "cd".to_owned());
    cmds.insert(0, "list-builtins".to_owned());
    cmds.insert(0, "history".to_owned());
    assert(cmds.deep_view() =~= front_builtins() + sorted);
    cmds
}

/// The names that begin with the prefix, in order.
pub open spec fn matching(names: Seq<Seq<char>>, prefix: Seq<char>) -> Seq<Seq<char>>
    decreases names.len(),
{
    if names.len() == 0 {
        Seq::empty()
    } else {
        let before = matching(names.drop_last(), prefix);
        if has_prefix(names.last(), prefix) {
            before.push(names.last())
        } else {
            before
        }
    }
}

/// The candidates for a list of names: each puts its name behind the head
/// of the line, and a name that is the only one is followed by a space.
pub open spec fn pairs_for(head: Seq<char>, names: Seq<Seq<char>>) -> Seq<PairView> {
    Seq::new(
        names.len(),
        |i: int|
            PairView {
                display: names[i],
                replacement: if names.len() == 1 {
                    head + names[i] + " "@
                } else {
                    head + names[i]
                },
            },
    )
}

/// The commands that complete the word from `pos` to the end of the line.
/// An empty word has no candidates.
pub open spec fn complete_cmds_spec(line: Seq<char>, pos: int, cmds: Seq<Seq<char>>) -> Seq<
    PairView,
> {
    if pos >= line.len() {
        Seq::empty()
    } else {
        pairs_for(line.take(pos), matching(cmds, line.skip(pos)))
    }
}

/// The files that complete the word from `pos` to the end of the line. An
/// empty word is completed by every file.
pub open spec fn complete_files_spec(line: Seq<char>, pos: int, files: Seq<Seq<char>>) -> Seq<
    PairView,
> {
    pairs_for(
        line.take(pos),
        if pos >= line.len() {
            files
        } else {
            matching(files, line.skip(pos))
        },
    )
}

fn select(names: &Vec<String>, prefix: &Vec<char>) -> (r: Vec<String>)
    ensures
        r.deep_view() == matching(names.deep_view(), prefix@),
{
    let ghost all = names.deep_view();
    let mut found: Vec<String> = Vec::new();
    let mut i: usize = 0;
    assert(all.take(0).len() == 0);
    assert(found.deep_view() =~= matching(all.take(0), prefix@));
    while i < names.len()
        invariant
            i <= names.len(),
            all == names.deep_view(),
            found.deep_view() == matching(all.take(i as int), prefix@),
        decreases names.len() - i,
    {
        let ghost held = found.deep_view();
        proof {
            assert(all.take(i + 1).drop_last() =~= all.take(i as int));
            assert(all.take(i + 1).last() == names@[i as int]@);
        }
        let chars = chars_of(names[i].as_str());
        if starts_with(&chars, prefix) {
            found.push(names[i].clone());
            assert(found.deep_view() =~= held.push(names@[i as int]@));
        }
        i += 1;
    }
    assert(all.take(names.len() as int) =~= all);
    found
}

fn pairs(head: &str, names: &Vec<String>) -> (r: Vec<Pair>)
    ensures
        pair_views(r@) == pairs_for(head@, names.deep_view()),
{
    let ghost all = names.deep_view();
    let single = names.len() == 1;
    let mut result: Vec<Pair> = Vec::new();
    let mut i: usize = 0;
    while i < names.len()
        invariant
            i <= names.len(),
            all == names.deep_view(),
            single == (names.len() == 1),
            result.len() == i,
            forall|k: int| 0 <= k < i ==> (#[trigger] result@[k])@ == pairs_for(head@, all)[k],
        decreases names.len() - i,
    {
        let mut replacement = head.to_owned();
        replacement.append(names[i].as_str());
        if single {
            replacement.append(" ");
        }
        result.push(Pair { display: names[i].clone(), replacement });
        i += 1;
    }
    assert(pair_views(result@) =~= pairs_for(head@, all));
    result
}

/// The candidates among the commands for the word that begins at `pos`.
pub fn complete_cmds(line: &str, pos: usize, exes: &Vec<Exe>) -> (r: Vec<Pair>)
    requires
        pos <= line@.len(),
    ensures
        pair_views(r@) == complete_cmds_spec(line@, pos as int, sort_cmds_spec(exe_views(exes@))),
{
    let len = line.unicode_len();
    if pos >= len {
        let none: Vec<Pair> = Vec::new();
        assert(pair_views(none@) =~= Seq::<PairView>::empty());
        return none;
    }
    let prefix = chars_of(line.substring_char(pos, len));
    assert(line@.subrange(pos as int, len as int) =~= line@.skip(pos as int));
    assert(line@.subrange(0, pos as int) =~= line@.take(pos as int));
    let cmds = select(&sort_cmds(exes), &prefix);
    pairs(line.substring_char(0, pos), &cmds)
}

/// The candidates among the files of the working directory for the word
/// that begins at `pos`.
pub fn complete_files(line: &str, pos: usize, files: &Vec<String>) -> (r: Vec<Pair>)
    requires
        pos <= line@.len(),
    ensures
        pair_views(r@) == complete_files_spec(line@, pos as int, files.deep_view()),
{
    let len = line.unicode_len();
    assert(line@.subrange(0, pos as int) =~= line@.take(pos as int));
    if pos >= len {
        pairs(line.substring_char(0, pos), files)
    } else {
        let prefix = chars_of(line.substring_char(pos, len));
        assert(line@.subrange(pos as int, len as int) =~= line@.skip(pos as int));
        let found = select(files, &prefix);
        pairs(line.substring_char(0, pos), &found)
    }
}

/// The place of the first character that is no space.
pub open spec fn first_non_space(s: Seq<char>) -> Option<int>
    decreases s.len(),
{
    if s.len() == 0 {
        None
    } else if s[0] != ' ' {
        Some(0)
    } else {
        match first_non_space(s.skip(1)) {
            Some(i) => Some(i + 1),
            None => None,
        }
    }
}

/// The place of the last space.
pub open spec fn last_space(s: Seq<char>) -> Option<int>
    decreases s.len(),
{
    if s.len() == 0 {
        None
    } else if s.last() == ' ' {
        Some(s.len() - 1)
    } else {
        last_space(s.drop_last())
    }
}

/// Whether a text holds a space.
pub open spec fn has_space(s: Seq<char>) -> bool {
    exists|i: int| 0 <= i < s.len() && #[trigger] s[i] == ' '
}

/// Whether a pipe between two spaces begins at place `i`.
pub open spec fn pipe_at(s: Seq<char>, i: int) -> bool {
    0 <= i && i + 3 <= s.len() && s[i] == ' ' && s[i + 1] == '|' && s[i + 2] == ' '
}

/// The last place below `bound` where a pipe between two spaces begins.
pub open spec fn last_pipe_below(s: Seq<char>, bound: int) -> Option<int>
    decreases bound,
{
    if bound <= 0 {
        None
    } else if pipe_at(s, bound - 1) {
        Some(bound - 1)
    } else {
        last_pipe_below(s, bound - 1)
    }
}

/// The last place where a pipe between two spaces begins.
pub open spec fn last_pipe(s: Seq<char>) -> Option<int> {
    last_pipe_below(s, s.len() as int)
}

/// The candidates for a line with the cursor at `pos`. While the line is
/// its first word up to the cursor, commands complete it. Behind the last
/// pipe the same holds for the command that follows it. Anywhere else the
/// files complete what follows the last space.
pub open spec fn complete_spec(
    line: Seq<char>,
    pos: int,
    cmds: Seq<Seq<char>>,
    files: Seq<Seq<char>>,
) -> Seq<PairView> {
    let start = match first_non_space(line) {
        Some(i) => i,
        None => 0,
    };
    let at_space = match last_space(line) {
        Some(q) => complete_files_spec(line, q + 1, files),
        None => Seq::empty(),
    };
    if !has_space(line.subrange(start, pos)) {
        complete_cmds_spec(line, start, cmds)
    } else {
        match last_pipe(line) {
            Some(p) => match first_non_space(line.skip(p + 3)) {
                Some(i) => if !has_space(line.skip(p + 3 + i)) {
                    complete_cmds_spec(line, p + 3 + i, cmds)
                } else {
                    at_space
                },
                None => Seq::empty(),
            },
            None => at_space,
        }
    }
}

/// The place where the completed word may begin: the first character that
/// is no space, or the line's beginning.
pub open spec fn word_start(line: Seq<char>) -> int {
    match first_non_space(line) {
        Some(i) => i,
        None => 0,
    }
}

proof fn lemma_first_non_space(s: Seq<char>)
    ensures
        match first_non_space(s) {
            Some(i) => 0 <= i < s.len() && s[i] != ' ' && forall|j: int|
                0 <= j < i ==> #[trigger] s[j] == ' ',
            None => forall|j: int| 0 <= j < s.len() ==> #[trigger] s[j] == ' ',
        },
    decreases s.len(),
{
    if s.len() > 0 && s[0] == ' ' {
        let rest = s.skip(1);
        lemma_first_non_space(rest);
        match first_non_space(rest) {
            Some(i) => {
                assert(rest[i] == s[i + 1]);
                assert forall|j: int| 0 <= j < i + 1 implies #[trigger] s[j] == ' ' by {
                    if j > 0 {
                        assert(rest[j - 1] == s[j]);
                    }
                }
            },
            None => {
                assert forall|j: int| 0 <= j < s.len() implies #[trigger] s[j] == ' ' by {
                    if j > 0 {
                        assert(rest[j - 1] == s[j]);
                    }
                }
            },
        }
    }
}

fn find_non_space(chars: &Vec<char>, from: usize) -> (r: Option<usize>)
    requires
        from <= chars.len(),
    ensures
        match first_non_space(chars@.skip(from as int)) {
            Some(i) => r == Some((from + i) as usize) && 0 <= i && from + i < chars.len(),
            None => r is None,
        },
{
    let ghost tail = chars@.skip(from as int);
    let mut i: usize = from;
    assert(tail.skip(0) =~= tail);
    while i < chars.len()
        invariant
            from <= i <= chars.len(),
            tail == chars@.skip(from as int),
            first_non_space(tail) == match first_non_space(tail.skip(i - from)) {
                Some(k) => Some(k + (i - from)),
                None => None,
            },
        decreases chars.len() - i,
    {
        assert(tail.skip(i - from)[0] == chars@[i as int]);
        assert(tail.skip(i - from).skip(1) =~= tail.skip(i - from + 1));
        if chars[i] != ' ' {
            return Some(i);
        }
        i += 1;
    }
    assert(tail.skip(chars.len() - from).len() == 0);
    None
}

fn holds_space(chars: &Vec<char>, from: usize, to: usize) -> (r: bool)
    requires
        from <= to <= chars.len(),
    ensures
        r == has_space(chars@.subrange(from as int, to as int)),
{
    let ghost part = chars@.subrange(from as int, to as int);
    let mut i: usize = from;
    while i < to
        invariant
            from <= i <= to <= chars.len(),
            part == chars@.subrange(from as int, to as int),
            forall|j: int| 0 <= j < i - from ==> #[trigger] part[j] != ' ',
        decreases to - i,
    {
        if chars[i] == ' ' {
            assert(part[i - from] == ' ');
            return true;
        }
        i += 1;
    }
    false
}

fn rfind_space(chars: &Vec<char>) -> (r: Option<usize>)
    ensures
        match last_space(chars@) {
            Some(q) => r == Some(q as usize) && 0 <= q < chars.len(),
            None => r is None,
        },
{
    let mut i: usize = chars.len();
    assert(chars@.take(i as int) =~= chars@);
    while i > 0
        invariant
            i <= chars.len(),
            last_space(chars@) == last_space(chars@.take(i as int)),
        decreases i,
    {
        i -= 1;
        assert(chars@.take(i + 1).last() == chars@[i as int]);
        if chars[i] == ' ' {
            return Some(i);
        }
        assert(chars@.take(i + 1).drop_last() =~= chars@.take(i as int));
    }
    assert(chars@.take(0).len() == 0);
    None
}

fn rfind_pipe(chars: &Vec<char>) -> (r: Option<usize>)
    ensures
        match last_pipe(chars@) {
            Some(p) => r == Some(p as usize) && 0 <= p && p + 3 <= chars.len(),
            None => r is None,
        },
{
    let mut bound: usize = chars.len();
    while bound > 0
        invariant
            bound <= chars.len(),
            last_pipe(chars@) == last_pipe_below(chars@, bound as int),
        decreases bound,
    {
        let i = bound - 1;
        if chars.len() - i >= 3 && chars[i] == ' ' && chars[i + 1] == '|' && chars[i + 2] == ' ' {
            return Some(i);
        }
        bound -= 1;
    }
    None
}

/// The place where the completed word may begin.
pub fn word_start_of(line: &str) -> (r: usize)
    ensures
        r == word_start(line@),
        r <= line@.len(),
{
    let chars = chars_of(line);
    assert(chars@.skip(0) =~= chars@);
    match find_non_space(&chars, 0) {
        Some(i) => i,
        None => 0,
    }
}

impl Rustyline {
    /// The candidates for the line with the cursor at `pos`, and the place
    /// from which each replacement takes the line's place: its beginning.
    pub fn complete(&self, line: &str, pos: usize, exes: &Vec<Exe>, files: &Vec<String>) -> (r: (
        usize,
        Vec<Pair>,
    ))
        requires
            word_start(line@) <= pos <= line@.len(),
        ensures
            r.0 == 0,
            pair_views(r.1@) == complete_spec(
                line@,
                pos as int,
                sort_cmds_spec(exe_views(exes@)),
                files.deep_view(),
            ),
    {
        let chars = chars_of(line);
        let none: Vec<Pair> = Vec::new();
        assert(pair_views(none@) =~= Seq::<PairView>::empty());
        assert(chars@.skip(0) =~= chars@);
        let start = match find_non_space(&chars, 0) {
            Some(i) => i,
            None => 0,
        };
        proof {
            lemma_first_non_space(chars@);
        }
        let result = if !holds_space(&chars, start, pos) {
            complete_cmds(line, start, exes)
        } else {
            match rfind_pipe(&chars) {
                Some(p) => match find_non_space(&chars, p + 3) {
                    Some(at) => {
                        assert(chars@.subrange(at as int, chars.len() as int) =~= chars@.skip(
                            at as int,
                        ));
                        if !holds_space(&chars, at, chars.len()) {
                            complete_cmds(line, at, exes)
                        } else {
                            match rfind_space(&chars) {
                                Some(q) => complete_files(line, q + 1, files),
                                None => none,
                            }
                        }
                    },
                    None => none,
                },
                None => match rfind_space(&chars) {
                    Some(q) => complete_files(line, q + 1, files),
                    None => none,
                },
            }
        };
        (0, result)
    }
}

} // verus!
