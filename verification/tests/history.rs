use drshell::commands::{api, Api};
use drshell::history::{
    append_to_file, display_next_cmd, display_previous_cmd, history, history_file,
    input_history, read_from_file, save_history, write_to_file, History,
};
use drshell::repl::handle_history_with_line;

const REDRAW: &str = "\x1b[2K\r$ ";

fn filled(lines: &[&str]) -> History {
    let mut log = History::new();
    for line in lines {
        save_history(&mut log, line);
    }
    log
}

fn redrawn(entry: &str) -> Option<String> {
    Some(format!("{}{}", REDRAW, entry))
}

#[test]
fn stepping_back_walks_to_the_oldest_and_stays() {
    let mut log = filled(&["e0", "e1", "e2"]);
    assert_eq!(display_previous_cmd(&mut log), Some("e2".to_string()));
    assert_eq!(display_previous_cmd(&mut log), redrawn("e1"));
    assert_eq!(display_previous_cmd(&mut log), redrawn("e0"));
    assert_eq!(display_previous_cmd(&mut log), redrawn("e0"));
    assert_eq!(display_next_cmd(&mut log), redrawn("e1"));
}

#[test]
fn stepping_forward_walks_to_the_newest_and_stays() {
    let mut log = filled(&["e0", "e1", "e2"]);
    assert_eq!(display_previous_cmd(&mut log), Some("e2".to_string()));
    assert_eq!(display_previous_cmd(&mut log), redrawn("e1"));
    assert_eq!(display_previous_cmd(&mut log), redrawn("e0"));
    assert_eq!(display_next_cmd(&mut log), redrawn("e1"));
    assert_eq!(display_next_cmd(&mut log), redrawn("e2"));
    assert_eq!(display_next_cmd(&mut log), redrawn("e2"));
    assert_eq!(display_previous_cmd(&mut log), redrawn("e1"));
}

#[test]
fn turning_round_in_the_middle_skips_the_entry_shown() {
    let mut log = filled(&["e0", "e1", "e2", "e3", "e4"]);
    assert_eq!(display_previous_cmd(&mut log), Some("e4".to_string()));
    assert_eq!(display_previous_cmd(&mut log), redrawn("e3"));
    assert_eq!(display_previous_cmd(&mut log), redrawn("e2"));
    assert_eq!(display_next_cmd(&mut log), redrawn("e3"));
    assert_eq!(display_next_cmd(&mut log), redrawn("e4"));
    assert_eq!(display_previous_cmd(&mut log), redrawn("e3"));
}

#[test]
fn the_first_step_forward_shows_the_newest_bare() {
    let mut log = filled(&["e0", "e1"]);
    assert_eq!(display_next_cmd(&mut log), Some("e1".to_string()));
    assert_eq!(display_next_cmd(&mut log), redrawn("e1"));
}

#[test]
fn an_empty_log_recalls_nothing() {
    let mut log = History::new();
    assert_eq!(display_previous_cmd(&mut log), None);
    assert_eq!(display_next_cmd(&mut log), None);
    assert_eq!(input_history(&log), None);
    assert!(history(&log, None).is_empty());
    assert_eq!(write_to_file(&log), "");
    assert_eq!(append_to_file(&log), "");
}

#[test]
fn blank_lines_never_become_entries() {
    let mut log = filled(&["a"]);
    for line in ["", "  ", "\t", " \n ", "\u{a0}\u{2003}"] {
        save_history(&mut log, line);
    }
    assert_eq!(write_to_file(&log), "a\n");
    let mut empty = History::new();
    save_history(&mut empty, "");
    save_history(&mut empty, "  ");
    assert_eq!(write_to_file(&empty), "");
    assert_eq!(display_previous_cmd(&mut empty), None);
}

#[test]
fn a_blank_line_leaves_the_cursor_where_it_is() {
    let mut log = filled(&["e0", "e1", "e2"]);
    assert_eq!(display_previous_cmd(&mut log), Some("e2".to_string()));
    assert_eq!(display_previous_cmd(&mut log), redrawn("e1"));
    save_history(&mut log, "   ");
    assert_eq!(input_history(&log), Some("e0".to_string()));
    assert_eq!(display_previous_cmd(&mut log), redrawn("e0"));
}

#[test]
fn a_line_is_kept_as_typed() {
    let mut log = History::new();
    save_history(&mut log, "  ls -l  ");
    assert_eq!(write_to_file(&log), "  ls -l  \n");
}

#[test]
fn submitting_puts_the_cursor_to_rest_on_the_newest() {
    let mut log = filled(&["e0", "e1", "e2"]);
    assert_eq!(display_previous_cmd(&mut log), Some("e2".to_string()));
    assert_eq!(display_previous_cmd(&mut log), redrawn("e1"));
    save_history(&mut log, "e3");
    assert_eq!(input_history(&log), None);
    assert_eq!(display_previous_cmd(&mut log), Some("e3".to_string()));
}

#[test]
fn the_recalled_line_is_the_entry_under_the_cursor() {
    let mut log = filled(&["e0", "e1", "e2"]);
    assert_eq!(input_history(&log), None);
    display_previous_cmd(&mut log);
    assert_eq!(input_history(&log), Some("e1".to_string()));
    display_previous_cmd(&mut log);
    assert_eq!(input_history(&log), Some("e0".to_string()));
    display_previous_cmd(&mut log);
    assert_eq!(input_history(&log), Some("e0".to_string()));
}

#[test]
fn the_submitted_line_is_the_recalled_one_while_browsing() {
    let mut log = filled(&["e0", "e1", "e2"]);
    assert_eq!(
        handle_history_with_line(&mut log, "typed".to_string()),
        "typed"
    );
    assert_eq!(write_to_file(&log), "e0\ne1\ne2\ntyped\n");
    display_previous_cmd(&mut log);
    assert_eq!(handle_history_with_line(&mut log, "".to_string()), "e2");
    assert_eq!(write_to_file(&log), "e0\ne1\ne2\ntyped\ne2\n");
    assert_eq!(handle_history_with_line(&mut log, "".to_string()), "");
    assert_eq!(write_to_file(&log), "e0\ne1\ne2\ntyped\ne2\n");
}

#[test]
fn the_listing_numbers_the_entries_from_one() {
    let log = filled(&["a", "b b", "c"]);
    assert_eq!(history(&log, None), vec!["1 a", "2 b b", "3 c"]);
    assert_eq!(history(&log, Some(2)), vec!["2 b b", "3 c"]);
    assert_eq!(history(&log, Some(0)), Vec::<String>::new());
    assert_eq!(history(&log, Some(3)), vec!["1 a", "2 b b", "3 c"]);
    assert_eq!(history(&log, Some(100)), vec!["1 a", "2 b b", "3 c"]);
}

#[test]
fn the_listing_writes_numbers_in_decimal() {
    let lines: Vec<String> = (0..12).map(|i| format!("c{}", i)).collect();
    let refs: Vec<&str> = lines.iter().map(|l| l.as_str()).collect();
    let log = filled(&refs);
    assert_eq!(history(&log, Some(3)), vec!["10 c9", "11 c10", "12 c11"]);
}

#[test]
fn the_file_text_is_one_line_per_entry() {
    let log = filled(&["a", "b c", "d"]);
    assert_eq!(write_to_file(&log), "a\nb c\nd\n");
}

#[test]
fn the_lines_of_a_file_join_the_log() {
    let mut log = filled(&["first"]);
    read_from_file(&mut log, "a\nb c\r\n\nlast");
    assert_eq!(write_to_file(&log), "first\na\nb c\n\nlast\n");
    read_from_file(&mut log, "");
    assert_eq!(write_to_file(&log), "first\na\nb c\n\nlast\n");
    read_from_file(&mut log, "x\n");
    assert_eq!(write_to_file(&log), "first\na\nb c\n\nlast\nx\n");
}

#[test]
fn a_lone_carriage_return_stays_in_its_line() {
    let mut log = History::new();
    read_from_file(&mut log, "a\rb\nc\r");
    assert_eq!(history(&log, None), vec!["1 a\rb", "2 c\r"]);
}

#[test]
fn loading_leaves_the_cursor_alone() {
    let mut log = History::new();
    read_from_file(&mut log, "a\nb\nc\n");
    assert_eq!(input_history(&log), None);
    assert_eq!(display_previous_cmd(&mut log), Some("a".to_string()));
}

#[test]
fn what_is_written_is_read_back() {
    let log = filled(&["ls -l", "echo 'a b' > f", "cat f | wc"]);
    let text = write_to_file(&log);
    let mut copy = History::new();
    read_from_file(&mut copy, &text);
    assert_eq!(write_to_file(&copy), text);
    assert_eq!(history(&copy, None), history(&log, None));
}

#[test]
fn appending_takes_what_came_in_since_the_last_append() {
    let log = filled(&["a", "history -a f", "b", "c", "history -a f"]);
    assert_eq!(append_to_file(&log), "b\nc\nhistory -a f\n");
    let log = filled(&["a", "b"]);
    assert_eq!(append_to_file(&log), "a\nb\n");
    let log = filled(&["a", "history -a ", "b", "history -a", "c"]);
    assert_eq!(append_to_file(&log), "a\nhistory -a \nb\nhistory -a\nc\n");
    let log = filled(&["a", "history -a   g  ", "b"]);
    assert_eq!(append_to_file(&log), "b\n");
    let log = filled(&["a", "history -a f"]);
    assert_eq!(append_to_file(&log), "a\nhistory -a f\n");
}

#[test]
fn requests_reach_the_history() {
    let mut log = History::new();
    assert_eq!(api(&mut log, Api::SaveHistory("e0")), None);
    assert_eq!(api(&mut log, Api::SaveHistory(" ")), None);
    assert_eq!(api(&mut log, Api::ReadHistoryFromFile("e1\ne2\n")), None);
    assert_eq!(
        api(&mut log, Api::WriteHistoryToFile),
        Some("e0\ne1\ne2\n".to_string())
    );
    assert_eq!(api(&mut log, Api::InputHistory), None);
    assert_eq!(
        api(&mut log, Api::DisplayPreviousCmd),
        Some("e0".to_string())
    );
    assert_eq!(api(&mut log, Api::DisplayNextCmd), redrawn("e1"));
    assert_eq!(api(&mut log, Api::InputHistory), Some("e2".to_string()));
}

#[test]
fn the_history_file_lies_below_the_home_directory() {
    assert_eq!(history_file("/home/me"), "/home/me/.drhistory");
    assert_eq!(history_file(""), "/.drhistory");
}

#[test]
fn an_entry_with_a_line_feed_does_not_survive_the_file() {
    let mut log = History::new();
    save_history(&mut log, "a\nb");
    save_history(&mut log, "c\r");
    let mut copy = History::new();
    read_from_file(&mut copy, &write_to_file(&log));
    assert_eq!(history(&copy, None), vec!["1 a", "2 b", "3 c"]);
}

#[test]
fn a_file_is_cut_into_lines_at_its_line_feeds() {
    let cases: [(&str, &[&str]); 10] = [
        ("", &[]),
        ("\n", &[""]),
        ("a", &["a"]),
        ("a\n", &["a"]),
        ("a\n\n", &["a", ""]),
        ("\na", &["", "a"]),
        ("a\r\nb", &["a", "b"]),
        ("a\r\r\nb\r", &["a\r", "b\r"]),
        ("a\n\rb", &["a", "\rb"]),
        ("\r\n\r\n", &["", ""]),
    ];
    for (text, lines) in cases {
        let mut log = History::new();
        read_from_file(&mut log, text);
        let expected: String = lines.iter().map(|l| format!("{}\n", l)).collect();
        assert_eq!(write_to_file(&log), expected, "{:?}", text);
    }
}
