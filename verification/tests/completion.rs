use drshell::completion::{complete_cmds, complete_files, sort_cmds, word_start_of, Pair};
use drshell::env::Exe;
use drshell::order::{sort_unique, str_lt};
use drshell::rustyline::Rustyline;
use drshell::text::{blank, chars_of, starts_with, str_eq, trim_end};

fn exe(name: &str) -> Exe {
    Exe {
        name: name.to_string(),
        path: format!("/bin/{}", name),
    }
}

fn words(list: &[&str]) -> Vec<String> {
    list.iter().map(|w| w.to_string()).collect()
}

fn shown(pairs: &[Pair]) -> Vec<(String, String)> {
    pairs
        .iter()
        .map(|p| (p.display.clone(), p.replacement.clone()))
        .collect()
}

fn pair(display: &str, replacement: &str) -> (String, String) {
    (display.to_string(), replacement.to_string())
}

#[test]
fn texts_are_ordered_by_their_bytes() {
    let samples = [
        "", "a", "A", "ab", "abc", "b", "ls", "ls2", "é", "z", "zz", "\u{10000}", "\u{ffff}", "~",
    ];
    for a in samples {
        for b in samples {
            assert_eq!(str_lt(a, b), a < b, "{:?} {:?}", a, b);
            assert_eq!(str_eq(a, b), a == b, "{:?} {:?}", a, b);
        }
    }
}

#[test]
fn sorting_keeps_each_text_once() {
    assert_eq!(
        sort_unique(&words(&["ls", "cat", "ls", "awk", "cat", "ls2", ""])),
        words(&["", "awk", "cat", "ls", "ls2"])
    );
    assert!(sort_unique(&vec![]).is_empty());
    let mut expected = words(&["b", "a", "c", "B", "é", "aa", "a", "c"]);
    let sorted = sort_unique(&expected);
    expected.sort();
    expected.dedup();
    assert_eq!(sorted, expected);
}

#[test]
fn the_builtins_head_the_commands() {
    let cmds = sort_cmds(&vec![exe("ls"), exe("cat"), exe("ls"), exe("echo")]);
    assert_eq!(
        cmds,
        words(&[
            "history",
            "list-builtins",
            "cd",
            "pwd",
            "type",
            "exit",
            "echo",
            "cat",
            "echo",
            "ls"
        ])
    );
}

#[test]
fn commands_complete_the_word_typed() {
    let exes = vec![exe("ls"), exe("lsof"), exe("cat"), exe("less")];
    assert_eq!(
        shown(&complete_cmds("l", 0, &exes)),
        vec![
            pair("list-builtins", "list-builtins"),
            pair("less", "less"),
            pair("ls", "ls"),
            pair("lsof", "lsof"),
        ]
    );
    assert_eq!(
        shown(&complete_cmds("  ca", 2, &exes)),
        vec![pair("cat", "  cat ")]
    );
    assert_eq!(
        shown(&complete_cmds("ls | hi", 5, &exes)),
        vec![pair("history", "ls | history ")]
    );
    assert!(complete_cmds("ls", 2, &exes).is_empty());
    assert!(complete_cmds("", 0, &exes).is_empty());
    assert!(complete_cmds("zz", 0, &exes).is_empty());
}

#[test]
fn files_complete_the_word_typed() {
    let files = words(&["Cargo.toml", "src", "scripts", "README"]);
    assert_eq!(
        shown(&complete_files("cat s", 4, &files)),
        vec![pair("src", "cat src"), pair("scripts", "cat scripts")]
    );
    assert_eq!(
        shown(&complete_files("cat sr", 4, &files)),
        vec![pair("src", "cat src ")]
    );
    assert_eq!(
        shown(&complete_files("cat ", 4, &files)),
        vec![
            pair("Cargo.toml", "cat Cargo.toml"),
            pair("src", "cat src"),
            pair("scripts", "cat scripts"),
            pair("README", "cat README"),
        ]
    );
    assert_eq!(
        shown(&complete_files("cat ", 4, &words(&["only"]))),
        vec![pair("only", "cat only ")]
    );
    assert!(complete_files("cat x", 4, &files).is_empty());
}

#[test]
fn places_count_characters() {
    let files = words(&["été.txt", "eté"]);
    assert_eq!(
        shown(&complete_files("écho ét", 5, &files)),
        vec![pair("été.txt", "écho été.txt ")]
    );
}

#[test]
fn the_cursor_decides_what_completes() {
    let editor = Rustyline::new();
    let exes = vec![exe("ls"), exe("grep")];
    let files = words(&["src", "gradle"]);
    let (from, found) = editor.complete("gr", 2, &exes, &files);
    assert_eq!(from, 0);
    assert_eq!(shown(&found), vec![pair("grep", "grep ")]);
    let (_, found) = editor.complete("  gr", 4, &exes, &files);
    assert_eq!(shown(&found), vec![pair("grep", "  grep ")]);
    let (_, found) = editor.complete("ls gr", 5, &exes, &files);
    assert_eq!(shown(&found), vec![pair("gradle", "ls gradle ")]);
    let (_, found) = editor.complete("ls | gr", 7, &exes, &files);
    assert_eq!(shown(&found), vec![pair("grep", "ls | grep ")]);
    let (_, found) = editor.complete("ls |  gr", 8, &exes, &files);
    assert_eq!(shown(&found), vec![pair("grep", "ls |  grep ")]);
    let (_, found) = editor.complete("ls | grep s", 11, &exes, &files);
    assert_eq!(shown(&found), vec![pair("src", "ls | grep src ")]);
    let (_, found) = editor.complete("ls | ", 5, &exes, &files);
    assert!(found.is_empty());
    let (_, found) = editor.complete("ls ", 3, &exes, &files);
    assert_eq!(
        shown(&found),
        vec![pair("src", "ls src"), pair("gradle", "ls gradle")]
    );
    let (_, found) = editor.complete("", 0, &exes, &files);
    assert!(found.is_empty());
    let (_, found) = editor.complete("ls gr", 2, &exes, &files);
    assert!(found.is_empty());
}

#[test]
fn text_helpers_agree_with_the_standard_ones() {
    for s in ["", " ", "a", " a ", "a \t\n", "\u{a0}", "a\u{2003}\u{3000}", "é ", "\u{200b}", "\u{85}"] {
        assert_eq!(trim_end(s), s.trim_end(), "{:?}", s);
        assert_eq!(blank(s), s.trim().is_empty(), "{:?}", s);
        assert_eq!(chars_of(s), s.chars().collect::<Vec<char>>());
    }
    assert!(starts_with(&chars_of("history"), &chars_of("hi")));
    assert!(starts_with(&chars_of("hi"), &chars_of("")));
    assert!(!starts_with(&chars_of("hi"), &chars_of("his")));
    assert!(!starts_with(&chars_of("hi"), &chars_of("ho")));
}

#[test]
fn every_character_is_whitespace_as_the_standard_says() {
    let mut c = 0u32;
    while c <= 0x10ffff {
        if let Some(ch) = char::from_u32(c) {
            assert_eq!(
                drshell::text::char_is_whitespace(ch),
                ch.is_whitespace(),
                "{:x}",
                c
            );
        }
        c += 1;
    }
}

#[test]
fn a_word_starts_behind_the_leading_spaces() {
    assert_eq!(word_start_of(""), 0);
    assert_eq!(word_start_of("ls"), 0);
    assert_eq!(word_start_of("   ls -l"), 3);
    assert_eq!(word_start_of("    "), 0);
    assert_eq!(word_start_of(" \tls"), 1);
}
