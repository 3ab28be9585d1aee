//! What the builtin commands say and decide; the caller does what they ask
//! of the system.

use crate::commands::{builtin_name, is_builtin};
use crate::env::{facts, if_executable, if_executable_spec, FileFacts};
use crate::text::str_eq;
use vstd::prelude::*;
use vstd::string::{StrSliceExecFns, StringExecFns};

verus! {

/// The help of a builtin: what it does, how it is called, and for some a
/// few details. A name that is no builtin has none.
pub open spec fn help_text(name: Seq<char>) -> Option<Seq<char>> {
    if name == "echo"@ {
        Some("Description:\necho the words\nUsage:\necho <STRING>"@)
    } else if name == "exit"@ {
        Some(
            "Description:\nterminate the shell progress\nUsage:\nexit <NUMBER>\nDetails:\nthe number can be 0 or 1"@,
        )
    } else if name == "type"@ {
        Some("Description:\nshow the command if builtin or other\nUsage:\ntype <COMMAND>"@)
    } else if name == "pwd"@ {
        Some("Description:\nprint the current working directory\nUsage:\npwd"@)
    } else if name == "cd"@ {
        Some(
            "Description:\nchange the current working directory\nUsage:\ncd <DIRECTORY>\nDetails:\n1. - the last work directory\n2. ~ the home directory"@,
        )
    } else if name == "list-builtins"@ {
        Some("Description:\nlist all the builtin commands\nUsage:\nlist-builtins"@)
    } else if name == "history"@ {
        Some(
            "Description:\n1. list the previously executed commands\n2. write the history to a file\n3. read history from a file\n4. append the history to a file\nUsage:\nhistory <LIMIT> | <-w FILE> | <-r FILE> | <-a FILE>"@,
        )
    } else {
        None
    }
}

/// The text that `-h` prints for a builtin.
pub fn builtinhelp(cmd: &str) -> (r: Option<String>)
    ensures
        match help_text(cmd@) {
            Some(text) => r is Some && r->Some_0@ == text,
            None => r is None,
        },
{
    if str_eq(cmd, "echo") {
        Some("Description:\necho the words\nUsage:\necho <STRING>".to_owned())
    } else if str_eq(cmd, "exit") {
        Some(
            "Description:\nterminate the shell progress\nUsage:\nexit <NUMBER>\nDetails:\nthe number can be 0 or 1".to_owned(),
        )
    } else if str_eq(cmd, "type") {
        Some(
            "Description:\nshow the command if builtin or other\nUsage:\ntype <COMMAND>".to_owned(),
        )
    } else if str_eq(cmd, "pwd") {
        Some("Description:\nprint the current working directory\nUsage:\npwd".to_owned())
    } else if str_eq(cmd, "cd") {
        Some(
            "Description:\nchange the current working directory\nUsage:\ncd <DIRECTORY>\nDetails:\n1. - the last work directory\n2. ~ the home directory".to_owned(),
        )
    } else if str_eq(cmd, "list-builtins") {
        Some("Description:\nlist all the builtin commands\nUsage:\nlist-builtins".to_owned())
    } else if str_eq(cmd, "history") {
        Some(
            "Description:\n1. list the previously executed commands\n2. write the history to a file\n3. read history from a file\n4. append the history to a file\nUsage:\nhistory <LIMIT> | <-w FILE> | <-r FILE> | <-a FILE>".to_owned(),
        )
    } else {
        None
    }
}

/// The words with a space between each two.
pub open spec fn spaced(words: Seq<Seq<char>>) -> Seq<char>
    decreases words.len(),
{
    if words.len() == 0 {
        Seq::empty()
    } else if words.len() == 1 {
        words[0]
    } else {
        spaced(words.drop_last()) + " "@ + words.last()
    }
}

/// What `echo` writes: its words with spaces between and a line feed at the
/// end. Without words it writes nothing of its own and copies its input
/// through instead.
pub fn echo(words: &Vec<String>) -> (r: Option<String>)
    ensures
        words.len() == 0 ==> r is None,
        words.len() > 0 ==> r is Some && r->Some_0@ == spaced(words.deep_view()) + "\n"@,
{
    if words.len() == 0 {
        return None;
    }
    let ghost all = words.deep_view();
    let mut text = words[0].clone();
    let mut i: usize = 1;
    assert(all.take(1) =~= seq![all[0]]);
    while i < words.len()
        invariant
            1 <= i <= words.len(),
            all == words.deep_view(),
            text@ == spaced(all.take(i as int)),
        decreases words.len() - i,
    {
        proof {
            assert(all.take(i + 1).drop_last() =~= all.take(i as int));
            assert(all.take(i + 1).last() == words@[i as int]@);
        }
        text.append(" ");
        text.append(words[i].as_str());
        i += 1;
    }
    assert(all.take(words.len() as int) =~= all);
    text.append("\n");
    Some(text)
}

/// What `type` finds out about a name: a builtin is one; any other name is
/// looked up along the search path, and an empty name is never found.
pub open spec fn type_text(command: Seq<char>, found: Option<Seq<char>>) -> Result<
    Seq<char>,
    Seq<char>,
> {
    if is_builtin(command) {
        Ok(command + " is a shell builtin"@)
    } else if command.len() == 0 {
        Err(command + ": not found"@)
    } else {
        match found {
            Some(path) => Ok(command + " is "@ + path),
            None => Err(command + ": not found"@),
        }
    }
}

/// The line that `type` writes: to the output what a name is, or to the
/// errors that it was not found. `probes` holds what was found along the
/// search path under the name.
pub fn type_cmd(command: String, probes: &Vec<FileFacts>) -> (r: Result<String, String>)
    ensures
        match type_text(command@, if_executable_spec(facts(probes@))) {
            Ok(text) => r is Ok && r->Ok_0@ == text,
            Err(text) => r is Err && r->Err_0@ == text,
        },
{
    if builtin_name(command.as_str()).is_some() {
        return Ok(command.concat(" is a shell builtin"));
    }
    if command.as_str().is_empty() {
        return Err(command.concat(": not found"));
    }
    match if_executable(probes) {
        Some(path) => {
            let mut text = command.concat(" is ");
            text.append(path.as_str());
            Ok(text)
        },
        None => Err(command.concat(": not found")),
    }
}

/// `exit` leaves the shell only with the code 0 or 1.
pub fn exit(num: i32) -> (r: Result<i32, String>)
    ensures
        num == 0 || num == 1 ==> r == Ok::<i32, String>(num),
        !(num == 0 || num == 1) ==> r is Err && r->Err_0@ == "need number 0 or 1 to exit!!!"@,
{
    if num != 0 && num != 1 {
        Err("need number 0 or 1 to exit!!!".to_owned())
    } else {
        Ok(num)
    }
}

/// Where `cd` goes. `-` is the directory that was left last, `~` the home
/// directory, `~/` a path below it; any other path is taken as it stands.
/// `home` is the home directory, or why it is not known.
pub open spec fn cd_target(
    dir: Seq<char>,
    last_dir: Seq<char>,
    home: Result<Seq<char>, Seq<char>>,
) -> Result<Seq<char>, Seq<char>> {
    if dir.len() == 0 {
        Err("cd: : No such file or directory"@)
    } else if dir == "-"@ {
        if last_dir.len() == 0 {
            Err("no previous worked directory"@)
        } else {
            Ok(last_dir)
        }
    } else if dir == "~"@ || (dir.len() >= 2 && dir[0] == '~' && dir[1] == '/') {
        match home {
            Ok(home) => Ok(home + dir.skip(1)),
            Err(reason) => Err("can't get the directory of home: "@ + reason),
        }
    } else {
        Ok(dir)
    }
}

/// The directory that `cd` changes to, or the line that reports why it
/// does not.
pub fn cd(dir: String, last_dir: &str, home: Result<String, String>) -> (r: Result<String, String>)
    ensures
        match cd_target(
            dir@,
            last_dir@,
            match home {
                Ok(home) => Ok(home@),
                Err(reason) => Err(reason@),
            },
        ) {
            Ok(target) => r is Ok && r->Ok_0@ == target,
            Err(text) => r is Err && r->Err_0@ == text,
        },
{
    let len = dir.as_str().unicode_len();
    if len == 0 {
        return Err("cd: : No such file or directory".to_owned());
    }
    if str_eq(dir.as_str(), "-") {
        return if last_dir.is_empty() {
            Err("no previous worked directory".to_owned())
        } else {
            Ok(last_dir.to_owned())
        };
    }
    let below_home = len >= 2 && dir.as_str().get_char(0) == '~' && dir.as_str().get_char(1) == '/';
    if str_eq(dir.as_str(), "~") || below_home {
        match home {
            Ok(home) => {
                let mut target = home;
                proof {
                    assert(dir@.subrange(1, len as int) =~= dir@.skip(1));
                }
                target.append(dir.as_str().substring_char(1, len));
                Ok(target)
            },
            Err(reason) => {
                let mut text = "can't get the directory of home: ".to_owned();
                text.append(reason.as_str());
                Err(text)
            },
        }
    } else {
        Ok(dir)
    }
}

/// The line that reports that `cd` could not enter a directory.
pub fn cd_fail_process(dir: &str) -> (r: String)
    ensures
        r@ == "cd: "@ + dir@ + ": No such file or directory"@,
{
    let mut text = "cd: ".to_owned();
    text.append(dir);
    text.append(": No such file or directory");
    text
}

} // verus!
