//! The history log and its recall cursor.

use crate::decimal::{decimal_text, usize_to_string};
use crate::lines::{first_newline, lines_of, text_lines};
use crate::text::{blank, has_prefix, is_blank, str_eq};
use vstd::prelude::*;
use vstd::string::StringExecFns;

verus! {

/// The way the cursor last moved.
#[derive(Clone, Copy, Debug, PartialEq, Eq, Structural)]
pub enum Direction {
    Up,
    Down,
}

struct Status {
    pos_cursor: usize,
    in_history_mode: bool,
    last_direction: Direction,
}

/// The lines submitted so far, oldest first, and the cursor that walks them.
pub struct History {
    cmds: Vec<String>,
    status: Status,
}

/// A history as a value: the entries, oldest first, each at the place it
/// was given when it came in, and the cursor.
pub struct HistoryView {
    pub entries: Seq<Seq<char>>,
    pub position: int,
    pub browsing: bool,
    pub last_direction: Direction,
}

impl HistoryView {
    /// The cursor points at an entry whenever there is one, and nobody
    /// browses an empty log.
    pub open spec fn wf(self) -> bool {
        &&& self.entries.len() == 0 ==> self.position == 0 && !self.browsing
        &&& self.entries.len() > 0 ==> 0 <= self.position < self.entries.len()
    }
}

impl View for History {
    type V = HistoryView;

    closed spec fn view(&self) -> HistoryView {
        HistoryView {
            entries: self.cmds.deep_view(),
            position: self.status.pos_cursor as int,
            browsing: self.status.in_history_mode,
            last_direction: self.status.last_direction,
        }
    }
}

/// The prefix that clears the terminal's line and draws the prompt anew.
pub open spec fn redraw_prefix() -> Seq<char> {
    "\x1b[2K\r$ "@
}

/// What is written to the terminal for a recalled entry: the bare entry on
/// the first step of a walk, and a fresh prompt with the entry after that.
pub open spec fn shown_text(browsing: bool, entry: Seq<char>) -> Seq<char> {
    if browsing {
        redraw_prefix() + entry
    } else {
        entry
    }
}

/// A submitted line joins the log unless it is blank, and the cursor goes
/// back to rest on the newest entry.
pub open spec fn submit(v: HistoryView, line: Seq<char>) -> HistoryView {
    if is_blank(line) {
        v
    } else {
        HistoryView {
            entries: v.entries.push(line),
            position: v.entries.len() as int,
            browsing: false,
            last_direction: Direction::Up,
        }
    }
}

/// The place of the entry that a step back shows. After a step forward the
/// cursor first goes back over the entry just shown.
pub open spec fn previous_place(v: HistoryView) -> int {
    if v.browsing && v.last_direction == Direction::Down {
        let step = if v.position == v.entries.len() - 1 {
            1int
        } else {
            2int
        };
        if v.position >= step {
            v.position - step
        } else {
            0
        }
    } else {
        v.position
    }
}

/// The place of the entry that a step forward shows. After a step back the
/// cursor first goes forward over the entry just shown.
pub open spec fn next_place(v: HistoryView) -> int {
    if v.browsing && v.last_direction == Direction::Up {
        let step = if v.position == 0 {
            1int
        } else {
            2int
        };
        if v.position + step <= v.entries.len() - 1 {
            v.position + step
        } else {
            v.entries.len() - 1
        }
    } else {
        v.position
    }
}

/// The history after a step back: the cursor rests one below the entry
/// shown, or on the oldest.
pub open spec fn recall_previous(v: HistoryView) -> HistoryView {
    if v.entries.len() == 0 {
        v
    } else {
        let place = previous_place(v);
        HistoryView {
            entries: v.entries,
            position: if place > 0 {
                place - 1
            } else {
                0
            },
            browsing: true,
            last_direction: Direction::Up,
        }
    }
}

/// The history after a step forward: the cursor rests one above the entry
/// shown, or on the newest.
pub open spec fn recall_next(v: HistoryView) -> HistoryView {
    if v.entries.len() == 0 {
        v
    } else {
        let place = next_place(v);
        HistoryView {
            entries: v.entries,
            position: if place < v.entries.len() - 1 {
                place + 1
            } else {
                place
            },
            browsing: true,
            last_direction: Direction::Down,
        }
    }
}

/// The entry under the cursor, while browsing.
pub open spec fn recalled_line(v: HistoryView) -> Option<Seq<char>> {
    if v.browsing {
        Some(v.entries[v.position])
    } else {
        None
    }
}

/// The steps keep the cursor on an entry.
pub proof fn lemma_steps_keep_wf(v: HistoryView, line: Seq<char>)
    requires
        v.wf(),
    ensures
        submit(v, line).wf(),
        recall_previous(v).wf(),
        recall_next(v).wf(),
        v.entries.len() > 0 ==> 0 <= previous_place(v) < v.entries.len(),
        v.entries.len() > 0 ==> 0 <= next_place(v) < v.entries.len(),
{
}

/// The log only grows: no step drops or changes an entry, and only a line
/// that is not blank adds one.
pub proof fn lemma_log_only_grows(v: HistoryView, line: Seq<char>)
    ensures
        recall_previous(v).entries == v.entries,
        recall_next(v).entries == v.entries,
        submit(v, line).entries.take(v.entries.len() as int) == v.entries,
        is_blank(line) ==> submit(v, line) == v,
        !is_blank(line) ==> submit(v, line).entries == v.entries.push(line),
{
    assert(submit(v, line).entries.take(v.entries.len() as int) =~= v.entries);
}

/// A step back and a step forward show an entry of the log, and leave the
/// cursor browsing.
pub proof fn lemma_steps_show_an_entry(v: HistoryView)
    requires
        v.wf(),
        v.entries.len() > 0,
    ensures
        0 <= previous_place(v) < v.entries.len(),
        0 <= next_place(v) < v.entries.len(),
        recall_previous(v).browsing,
        recall_next(v).browsing,
        recalled_line(recall_previous(v)) is Some,
        recalled_line(recall_next(v)) is Some,
{
}

impl History {
    #[verifier::type_invariant]
    spec fn inv(&self) -> bool {
        self@.wf()
    }

    /// An empty log with the cursor at rest.
    pub fn new() -> (r: History)
        ensures
            r@ == (HistoryView {
                entries: Seq::empty(),
                position: 0,
                browsing: false,
                last_direction: Direction::Up,
            }),
    {
        let r = History {
            cmds: Vec::new(),
            status: Status { pos_cursor: 0, in_history_mode: false, last_direction: Direction::Up },
        };
        assert(r@.entries =~= Seq::<Seq<char>>::empty());
        r
    }
}

/// Takes in a submitted line. A line that is empty or all whitespace leaves
/// the history as it is.
pub fn save_history(history: &mut History, h: &str)
    ensures
        old(history)@.wf(),
        final(history)@ == submit(old(history)@, h@),
        is_blank(h@) ==> final(history)@ == old(history)@,
        !is_blank(h@) ==> final(history)@.entries == old(history)@.entries.push(h@),
{
    proof {
        use_type_invariant(&*history);
    }
    if blank(h) {
        return ;
    }
    let ghost before = history@;
    let mut taken = History::new();
    core::mem::swap(history, &mut taken);
    let mut cmds = taken.cmds;
    cmds.push(h.to_owned());
    let newest = cmds.len() - 1;
    *history = History {
        cmds,
        status: Status {
            pos_cursor: newest,
            in_history_mode: false,
            last_direction: Direction::Up,
        },
    };
    assert(history@.entries =~= before.entries.push(h@));
}

fn show(browsing: bool, entry: &String) -> (r: String)
    ensures
        r@ == shown_text(browsing, entry@),
{
    if browsing {
        let mut text = "\x1b[2K\r$ ".to_owned();
        text.append(entry.as_str());
        text
    } else {
        entry.clone()
    }
}

/// Steps back through the log and gives what is to be written to the
/// terminal; nothing where the log is empty.
pub fn display_previous_cmd(history: &mut History) -> (r: Option<String>)
    ensures
        old(history)@.wf(),
        final(history)@ == recall_previous(old(history)@),
        old(history)@.entries.len() == 0 ==> r is None,
        old(history)@.entries.len() > 0 ==> r is Some && r->Some_0@ == shown_text(
            old(history)@.browsing,
            old(history)@.entries[previous_place(old(history)@)],
        ),
{
    proof {
        use_type_invariant(&*history);
    }
    let len = history.cmds.len();
    if len == 0 {
        return None;
    }
    let browsing = history.status.in_history_mode;
    let mut place = history.status.pos_cursor;
    if browsing && history.status.last_direction == Direction::Down {
        let step: usize = if place == len - 1 {
            1
        } else {
            2
        };
        place = if place >= step {
            place - step
        } else {
            0
        };
    }
    let text = show(browsing, &history.cmds[place]);
    history.status = Status {
        pos_cursor: if place > 0 {
            place - 1
        } else {
            0
        },
        in_history_mode: true,
        last_direction: Direction::Up,
    };
    Some(text)
}

/// Steps forward through the log and gives what is to be written to the
/// terminal; nothing where the log is empty.
pub fn display_next_cmd(history: &mut History) -> (r: Option<String>)
    ensures
        old(history)@.wf(),
        final(history)@ == recall_next(old(history)@),
        old(history)@.entries.len() == 0 ==> r is None,
        old(history)@.entries.len() > 0 ==> r is Some && r->Some_0@ == shown_text(
            old(history)@.browsing,
            old(history)@.entries[next_place(old(history)@)],
        ),
{
    proof {
        use_type_invariant(&*history);
    }
    let len = history.cmds.len();
    if len == 0 {
        return None;
    }
    let browsing = history.status.in_history_mode;
    let mut place = history.status.pos_cursor;
    if browsing && history.status.last_direction == Direction::Up {
        let step: usize = if place == 0 {
            1
        } else {
            2
        };
        place = if step <= len - 1 - place {
            place + step
        } else {
            len - 1
        };
    }
    let text = show(browsing, &history.cmds[place]);
    history.status = Status {
        pos_cursor: if place < len - 1 {
            place + 1
        } else {
            place
        },
        in_history_mode: true,
        last_direction: Direction::Down,
    };
    Some(text)
}

/// The entry under the cursor while browsing, which then takes the place of
/// the line about to be submitted.
pub fn input_history(history: &History) -> (r: Option<String>)
    ensures
        history@.wf(),
        match recalled_line(history@) {
            Some(line) => r is Some && r->Some_0@ == line,
            None => r is None,
        },
{
    proof {
        use_type_invariant(history);
    }
    if history.status.in_history_mode {
        Some(history.cmds[history.status.pos_cursor].clone())
    } else {
        None
    }
}

/// One line of the listing: the entry's number, counted from one, and the
/// entry.
pub open spec fn listed_line(place: int, entry: Seq<char>) -> Seq<char> {
    decimal_text((place + 1) as nat) + " "@ + entry
}

/// How many entries a listing shows: all, or the newest `limit`.
pub open spec fn listed_count(entries: Seq<Seq<char>>, limit: Option<usize>) -> int {
    match limit {
        Some(limit) => if limit < entries.len() {
            limit as int
        } else {
            entries.len() as int
        },
        None => entries.len() as int,
    }
}

/// The listing of the newest entries, oldest first, each under its number.
pub open spec fn listing(entries: Seq<Seq<char>>, limit: Option<usize>) -> Seq<Seq<char>> {
    let shown = listed_count(entries, limit);
    let first = entries.len() - shown;
    Seq::new(shown as nat, |k: int| listed_line(first + k, entries[first + k]))
}

/// The lines that list the log, or its newest `limit` entries.
pub fn history(log: &History, limit: Option<usize>) -> (r: Vec<String>)
    ensures
        log@.wf(),
        r.deep_view() == listing(log@.entries, limit),
{
    proof {
        use_type_invariant(log);
    }
    let len = log.cmds.len();
    let shown = match limit {
        Some(limit) => if limit < len {
            limit
        } else {
            len
        },
        None => len,
    };
    let first = len - shown;
    let ghost entries = log@.entries;
    let mut lines: Vec<String> = Vec::new();
    let mut i: usize = first;
    while i < len
        invariant
            first <= i <= len,
            len == log.cmds.len(),
            entries == log.cmds.deep_view(),
            lines.len() == i - first,
            forall|k: int|
                0 <= k < i - first ==> #[trigger] lines@[k]@ == listed_line(
                    first + k,
                    entries[first + k],
                ),
        decreases len - i,
    {
        let mut line = usize_to_string(i + 1);
        line.append(" ");
        line.append(log.cmds[i].as_str());
        lines.push(line);
        i += 1;
    }
    assert(lines.deep_view() =~= listing(entries, limit));
    lines
}

/// The lines of a history file join the log, in order, behind what it holds;
/// the cursor stays where it is.
pub fn read_from_file(history: &mut History, buffer: &str)
    ensures
        old(history)@.wf(),
        final(history)@ == (HistoryView {
            entries: old(history)@.entries + text_lines(buffer@),
            ..old(history)@
        }),
{
    proof {
        use_type_invariant(&*history);
    }
    let ghost before = history@;
    let lines = lines_of(buffer);
    let mut taken = History::new();
    core::mem::swap(history, &mut taken);
    let mut cmds = taken.cmds;
    let status = taken.status;
    let mut i: usize = 0;
    assert(lines.deep_view().take(0) =~= Seq::<Seq<char>>::empty());
    assert(cmds.deep_view() =~= before.entries + lines.deep_view().take(0));
    while i < lines.len()
        invariant
            i <= lines.len(),
            cmds.deep_view() == before.entries + lines.deep_view().take(i as int),
        decreases lines.len() - i,
    {
        let ghost held = cmds.deep_view();
        cmds.push(lines[i].clone());
        assert(cmds.deep_view() =~= held.push(lines@[i as int]@));
        assert(lines.deep_view().take(i + 1) =~= lines.deep_view().take(i as int).push(
            lines@[i as int]@,
        ));
        i += 1;
    }
    assert(lines.deep_view().take(lines.len() as int) =~= lines.deep_view());
    *history = History { cmds, status };
}

/// The log as the text of a history file: every entry with a line feed
/// after it.
pub open spec fn file_text(entries: Seq<Seq<char>>) -> Seq<char>
    decreases entries.len(),
{
    if entries.len() == 0 {
        Seq::empty()
    } else {
        file_text(entries.drop_last()) + entries.last() + "\n"@
    }
}

fn text_of(cmds: &Vec<String>, from: usize) -> (r: String)
    requires
        from <= cmds.len(),
    ensures
        r@ == file_text(cmds.deep_view().skip(from as int)),
{
    let ghost kept = cmds.deep_view().skip(from as int);
    let mut buffer = String::new();
    let mut i: usize = from;
    assert(kept.take(0).len() == 0);
    while i < cmds.len()
        invariant
            from <= i <= cmds.len(),
            kept == cmds.deep_view().skip(from as int),
            buffer@ == file_text(kept.take(i - from)),
        decreases cmds.len() - i,
    {
        proof {
            assert(kept.take(i - from + 1).drop_last() =~= kept.take(i - from));
            assert(kept.take(i - from + 1).last() == cmds@[i as int]@);
        }
        buffer.append(cmds[i].as_str());
        buffer.append("\n");
        i += 1;
    }
    assert(kept.take(cmds.len() - from) =~= kept);
    buffer
}

/// The text that a history file is overwritten with: the whole log.
pub fn write_to_file(history: &History) -> (r: String)
    ensures
        history@.wf(),
        r@ == file_text(history@.entries),
{
    proof {
        use_type_invariant(history);
    }
    assert(history.cmds.deep_view().skip(0) =~= history.cmds.deep_view());
    text_of(&history.cmds, 0)
}

/// A line that asked for the log to be appended to a file: `history -a`
/// and then something that is no whitespace.
pub open spec fn is_append_request(line: Seq<char>) -> bool {
    has_prefix(line, "history -a "@) && !is_blank(line.skip("history -a "@.len() as int))
}

/// The place where the entries not yet appended begin: behind the last
/// request to append, the newest entry not counted as one.
pub open spec fn unsaved_from(entries: Seq<Seq<char>>) -> int {
    unsaved_from_below(entries, entries.len() - 1)
}

/// The same, looking only at the first `below` entries.
pub open spec fn unsaved_from_below(entries: Seq<Seq<char>>, below: int) -> int
    decreases below,
{
    if below <= 0 {
        0
    } else if is_append_request(entries[below - 1]) {
        below
    } else {
        unsaved_from_below(entries, below - 1)
    }
}

fn append_request(line: &str) -> (r: bool)
    ensures
        r == is_append_request(line@),
{
    let prefix = "history -a ";
    let width = prefix.unicode_len();
    let len = line.unicode_len();
    if len < width {
        return false;
    }
    if !str_eq(line.substring_char(0, width), prefix) {
        return false;
    }
    proof {
        assert(line@.subrange(width as int, len as int) =~= line@.skip(width as int));
    }
    !blank(line.substring_char(width, len))
}

/// The text that is appended to a history file: the entries that came in
/// since the log was last appended.
pub fn append_to_file(history: &History) -> (r: String)
    ensures
        history@.wf(),
        r@ == file_text(history@.entries.skip(unsaved_from(history@.entries))),
        0 <= unsaved_from(history@.entries) <= history@.entries.len(),
{
    proof {
        use_type_invariant(history);
    }
    let len = history.cmds.len();
    let ghost entries = history@.entries;
    if len == 0 {
        return text_of(&history.cmds, 0);
    }
    let mut below: usize = len - 1;
    while below > 0
        invariant
            below <= len - 1,
            len == history.cmds.len(),
            entries == history.cmds.deep_view(),
            unsaved_from(entries) == unsaved_from_below(entries, below as int),
        ensures
            below <= len - 1,
            unsaved_from(entries) == below,
        decreases below,
    {
        assert(entries[below - 1] == history.cmds@[below - 1]@);
        if append_request(history.cmds[below - 1].as_str()) {
            break ;
        }
        below -= 1;
    }
    text_of(&history.cmds, below)
}

/// The text of a log begins with its first entry and a line feed.
pub proof fn lemma_file_text_unfolds(entries: Seq<Seq<char>>)
    requires
        entries.len() > 0,
    ensures
        file_text(entries) == entries[0] + "\n"@ + file_text(entries.skip(1)),
    decreases entries.len(),
{
    if entries.len() == 1 {
        assert(entries.drop_last().len() == 0);
        assert(entries.skip(1).len() == 0);
        assert(file_text(entries.drop_last()) =~= Seq::<char>::empty());
        assert(file_text(entries.skip(1)) =~= Seq::<char>::empty());
        assert(file_text(entries) == file_text(entries.drop_last()) + entries.last() + "\n"@);
        assert(file_text(entries) =~= entries[0] + "\n"@ + file_text(entries.skip(1)));
    } else {
        let shorter = entries.drop_last();
        lemma_file_text_unfolds(shorter);
        assert(shorter.skip(1) =~= entries.skip(1).drop_last());
        assert(shorter[0] == entries[0]);
        assert(entries.skip(1).last() == entries.last());
        let tail = entries.skip(1);
        assert(file_text(tail) == file_text(tail.drop_last()) + tail.last() + "\n"@);
        assert(file_text(entries) == file_text(shorter) + entries.last() + "\n"@);
        assert(file_text(entries) =~= entries[0] + "\n"@ + file_text(tail));
    }
}

/// An entry survives the file when it holds no line feed and does not end
/// in a carriage return.
pub open spec fn survives_file(entry: Seq<char>) -> bool {
    &&& forall|i: int| 0 <= i < entry.len() ==> #[trigger] entry[i] != '\n'
    &&& entry.len() > 0 ==> entry.last() != '\r'
}

proof fn lemma_first_newline(s: Seq<char>, k: int)
    requires
        0 <= k < s.len(),
        s[k] == '\n',
        forall|i: int| 0 <= i < k ==> #[trigger] s[i] != '\n',
    ensures
        first_newline(s) == k,
    decreases k,
{
    if k > 0 {
        let rest = s.skip(1);
        assert forall|i: int| 0 <= i < k - 1 implies #[trigger] rest[i] != '\n' by {
            assert(rest[i] == s[i + 1]);
        }
        lemma_first_newline(rest, k - 1);
    }
}

/// A log is read back from its file text as it was written, where every
/// entry survives the file.
pub proof fn lemma_file_text_reads_back(entries: Seq<Seq<char>>)
    requires
        forall|i: int| 0 <= i < entries.len() ==> survives_file(#[trigger] entries[i]),
    ensures
        text_lines(file_text(entries)) == entries,
    decreases entries.len(),
{
    reveal_strlit("\n");
    if entries.len() == 0 {
        assert(text_lines(file_text(entries)) =~= entries);
    } else {
        let first = entries[0];
        let rest = entries.skip(1);
        let text = file_text(entries);
        lemma_file_text_unfolds(entries);
        assert forall|i: int| 0 <= i < rest.len() implies survives_file(#[trigger] rest[i]) by {
            assert(rest[i] == entries[i + 1]);
        }
        lemma_file_text_reads_back(rest);
        assert(survives_file(first));
        let k = first.len() as int;
        assert("\n"@.len() == 1 && "\n"@[0] == '\n');
        assert(text[k] == '\n');
        assert forall|i: int| 0 <= i < k implies #[trigger] text[i] != '\n' by {
            assert(text[i] == first[i]);
        }
        lemma_first_newline(text, k);
        assert(text.take(k) =~= first);
        assert(text.skip(k + 1) =~= file_text(rest));
        assert(text_lines(text) =~= seq![first] + rest);
        assert(seq![first] + rest =~= entries);
    }
}

/// The file in which the history is kept between runs, below the home
/// directory.
pub fn history_file(home: &str) -> (r: String)
    ensures
        r@ == home@ + "/.drhistory"@,
{
    let mut path = home.to_owned();
    path.append("/.drhistory");
    path
}

} // verus!
