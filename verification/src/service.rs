//! The operations on a todo list: add, list, finish, delete, and the config.
//!
//! Every operation works on the text of the files it concerns. The caller reads the
//! files, hands their text over, and writes back what an operation changed once it
//! has returned `Ok`; what an operation gives back as lines is meant to be shown.

use vstd::prelude::*;
use crate::calendar::{Date, Day};
use crate::clock::{time_text, Time};
use crate::due_date::{normalized_date, parse_due_date};
use crate::due_time::{normalized_time, parse_due_time};
use crate::model::{DeletionMethod, Record, Todo, TodoState};
use crate::numerals::{decimal, push_decimal, read_usize, usize_reading};
use crate::records::{append_line, appended, read_all, remove_line, removed, TodoError};
use crate::split::{joined, lines, split_lines, trim, trimmed};
use crate::text::{chars_of, is_word, push_all, string_of, string_views, views};

verus! {

/// The text of a config that may be missing.
pub open spec fn config_text(config: Option<&str>) -> Option<Seq<char>> {
    match config {
        Some(text) => Some(text@),
        None => None,
    }
}

/// The name under which todos are added: the first line of the config;
/// `no-name-given` where the config has no line; `default-name` where there is no
/// config.
pub open spec fn owner_name(config: Option<Seq<char>>) -> Seq<char> {
    match config {
        Some(text) => if lines(text).len() > 0 {
            lines(text)[0]
        } else {
            "no-name-given"@
        },
        None => "default-name"@,
    }
}

/// The name under which todos are added.
pub fn get_name(config: Option<&str>) -> (r: String)
    ensures
        r@ == owner_name(config_text(config)),
{
    match config {
        Some(text) => {
            let found = split_lines(&chars_of(text));
            if found.len() > 0 {
                string_of(&found[0])
            } else {
                String::from_str("no-name-given")
            }
        },
        None => String::from_str("default-name"),
    }
}

/// Whether the config asks to keep deleted todos: whether its second line, without
/// the whitespace around it, is `keep`.
pub open spec fn keeps_deleted(config: Seq<char>) -> bool {
    lines(config).len() >= 2 && trimmed(lines(config)[1]) == "keep"@
}

/// Whether deleted todos go to the file of deleted todos.
pub fn is_delete_in_file(config: &str) -> (r: bool)
    ensures
        r == keeps_deleted(config@),
{
    let found = split_lines(&chars_of(config));
    if found.len() >= 2 {
        is_word(&trim(&found[1]), "keep")
    } else {
        false
    }
}

/// The word for the config that `deleted_value` most likely means: `keep` or
/// `discard`, whichever is nearer by Levenshtein distance, and `keep` where both are
/// equally near.
pub fn parse_deleted_value(deleted_value: &str) -> (r: String)
    ensures
        r@ == DeletionMethod::nearest(deleted_value@).token_text(),
{
    DeletionMethod::closest_to(deleted_value).token()
}

/// The record of a todo that is added on the day `today` at the minute `now`.
pub open spec fn added_record(
    owner: Seq<char>,
    description: Seq<char>,
    due_date: Seq<char>,
    due_time: Seq<char>,
    today: Day,
    now: int,
) -> Record {
    Record {
        owner_name: owner,
        description,
        due_date: normalized_date(due_date, today),
        due_time: normalized_time(due_time, now),
        created_time: time_text(now),
        created_date: today.short_text(),
    }
}

/// Adds a todo at the end of the file of open todos, under the name from the config,
/// with its due date and due time made canonical.
pub fn handle_add(
    description: &str,
    due_date: &str,
    due_time: &str,
    config: Option<&str>,
    today: Date,
    now: Time,
    todo_file: &mut String,
)
    ensures
        final(todo_file)@ == appended(
            old(todo_file)@,
            added_record(
                owner_name(config_text(config)),
                description@,
                due_date@,
                due_time@,
                today@,
                now@,
            ).line(),
        ),
{
    let mut created_date: Vec<char> = Vec::new();
    today.write_short_text(&mut created_date);
    let todo = Todo::new(
        get_name(config),
        String::from_str(description),
        parse_due_date(String::from_str(due_date), today),
        parse_due_time(String::from_str(due_time), now),
        now.text(),
        string_of(&created_date),
    );
    append_line(todo_file, todo.to_line());
}

/// How a stored line is shown: its description and its due date, a tab after each,
/// and before them, where an index is wanted, the index in square brackets and a tab.
pub open spec fn shown_line(line: Seq<char>, index: Option<nat>) -> Seq<char> {
    let record = Record::of_line(line);
    let fields = record.description.push('\t') + record.due_date.push('\t');
    match index {
        Some(i) => seq!['['] + decimal(i) + seq![']', '\t'] + fields,
        None => fields,
    }
}

/// How the lines of a file are shown, one after the other, each with its position
/// in the file as index where `with_index` is set.
pub open spec fn listing(file: Seq<char>, with_index: bool) -> Seq<Seq<char>> {
    Seq::new(
        lines(file).len(),
        |i: int|
            shown_line(
                lines(file)[i],
                if with_index {
                    Some(i as nat)
                } else {
                    None
                },
            ),
    )
}

/// The open todos as lines to show, with or without their indices.
pub fn display_todo(with_index: bool, todo_file: &str) -> (r: Vec<String>)
    ensures
        string_views(r@) == listing(todo_file@, with_index),
{
    let stored = read_all(todo_file);
    let mut out: Vec<String> = Vec::new();
    let mut i: usize = 0;
    while i < stored.len()
        invariant
            i <= stored.len(),
            string_views(stored@) == lines(todo_file@),
            out.len() == i,
            forall|k: int|
                0 <= k < i ==> (#[trigger] out@[k])@ == shown_line(
                    lines(todo_file@)[k],
                    if with_index {
                        Some(k as nat)
                    } else {
                        None
                    },
                ),
        decreases stored.len() - i,
    {
        assert(string_views(stored@)[i as int] == stored@[i as int]@);
        let todo = Todo::from_line(stored[i].as_str());
        let mut shown: Vec<char> = Vec::new();
        if with_index {
            shown.push('[');
            push_decimal(&mut shown, i);
            shown.push(']');
            shown.push('\t');
            assert(shown@ == seq!['['] + decimal(i as nat) + seq![']', '\t']);
        }
        push_all(&mut shown, &chars_of(todo.description.as_str()));
        shown.push('\t');
        push_all(&mut shown, &chars_of(todo.due_date.as_str()));
        shown.push('\t');
        assert(shown@ == shown_line(
            lines(todo_file@)[i as int],
            if with_index {
                Some(i as nat)
            } else {
                None
            },
        ));
        out.push(string_of(&shown));
        i += 1;
    }
    assert(string_views(out@) == listing(todo_file@, with_index));
    out
}

/// The position that `index` names among `count` lines, if it names one: `index`
/// read as a number, where that is below `count`.
pub open spec fn line_named(index: Seq<char>, count: nat) -> Option<int> {
    match usize_reading(index) {
        Some(i) if i < count => Some(i as int),
        _ => None,
    }
}

/// The two files after the line that `index` names has gone from `from` to the end
/// of `to`; nothing where `index` names no line of `from`.
pub open spec fn line_moved(index: Seq<char>, from: Seq<char>, to: Seq<char>) -> Option<
    (Seq<char>, Seq<char>),
> {
    match line_named(index, lines(from).len()) {
        Some(k) => Some((removed(from, k), appended(to, lines(from)[k]))),
        None => None,
    }
}

/// Takes the line that `index` names out of the file `from`, if there is one, and
/// gives it back.
fn take_line(index: &str, from: &mut String) -> (r: Result<String, TodoError>)
    ensures
        match line_named(index@, lines(old(from)@).len()) {
            Some(k) => r is Ok && r.unwrap()@ == lines(old(from)@)[k] && final(from)@ == removed(
                old(from)@,
                k,
            ),
            None => r == Err::<String, TodoError>(TodoError::IndexOutOfBounds) && final(from)@
                == old(from)@,
        },
{
    let stored = read_all(from.as_str());
    match read_usize(&chars_of(index)) {
        Some(i) => {
            if i < stored.len() {
                assert(string_views(stored@)[i as int] == stored@[i as int]@);
                let line = stored[i].clone();
                match remove_line(from, i) {
                    Ok(_) => Ok(line),
                    Err(e) => Err(e),
                }
            } else {
                Err(TodoError::IndexOutOfBounds)
            }
        },
        None => Err(TodoError::IndexOutOfBounds),
    }
}

/// Finishes the open todo that `index` names: moves its line, as it is, from the file
/// of open todos to the end of the file of finished todos. Without an index nothing
/// is moved, and the open todos come back as lines to show, with their indices.
/// Where `index` names no line, both files stay as they are.
pub fn handle_finish(
    index: Option<&str>,
    todo_file: &mut String,
    finished_file: &mut String,
) -> (r: Result<Vec<String>, TodoError>)
    ensures
        match index {
            Some(i) => match line_moved(i@, old(todo_file)@, old(finished_file)@) {
                Some(after) => r is Ok && r.unwrap()@.len() == 0 && final(todo_file)@ == after.0
                    && final(finished_file)@ == after.1,
                None => r is Err && r.unwrap_err() == TodoError::IndexOutOfBounds && final(todo_file)@ == old(todo_file)@ && final(finished_file)@ == old(finished_file)@,
            },
            None => r is Ok && string_views(r.unwrap()@) == listing(old(todo_file)@, true)
                && final(todo_file)@ == old(todo_file)@ && final(finished_file)@ == old(finished_file)@,
        },
{
    match index {
        Some(i) => {
            match take_line(i, todo_file) {
                Ok(line) => {
                    append_line(finished_file, line);
                    Ok(Vec::new())
                },
                Err(e) => Err(e),
            }
        },
        None => Ok(display_todo(true, todo_file.as_str())),
    }
}

/// Deletes the open todo that `index` names: takes its line out of the file of open
/// todos and, where the config asks to keep deleted todos, adds it, as it is, at the
/// end of the file of deleted todos. Without an index nothing is deleted, and the
/// open todos come back as lines to show, with their indices. Where `index` names no
/// line, both files stay as they are.
pub fn handle_delete(
    index: Option<&str>,
    config: &str,
    todo_file: &mut String,
    deleted_file: &mut String,
) -> (r: Result<Vec<String>, TodoError>)
    ensures
        match index {
            Some(i) => match line_moved(i@, old(todo_file)@, old(deleted_file)@) {
                Some(after) => r is Ok && r.unwrap()@.len() == 0 && final(todo_file)@ == after.0
                    && final(deleted_file)@ == if keeps_deleted(config@) {
                    after.1
                } else {
                    old(deleted_file)@
                },
                None => r is Err && r.unwrap_err() == TodoError::IndexOutOfBounds && final(todo_file)@ == old(todo_file)@ && final(deleted_file)@ == old(deleted_file)@,
            },
            None => r is Ok && string_views(r.unwrap()@) == listing(old(todo_file)@, true)
                && final(todo_file)@ == old(todo_file)@ && final(deleted_file)@ == old(deleted_file)@,
        },
{
    match index {
        Some(i) => {
            match take_line(i, todo_file) {
                Ok(line) => {
                    if is_delete_in_file(config) {
                        append_line(deleted_file, line);
                    }
                    Ok(Vec::new())
                },
                Err(e) => Err(e),
            }
        },
        None => Ok(display_todo(true, todo_file.as_str())),
    }
}


/// What to do with the config.
#[derive(Debug)]
pub enum ConfigCommand {
    /// Put this name in place of the name under which todos are added.
    Name(String),
    /// Put the deletion method that this word most likely means in place of the one
    /// that is set.
    Deleted(String),
    /// Show the config.
    Show,
}

/// The config `config`, of two lines, with `name` as its first line.
pub open spec fn config_with_name(config: Seq<char>, name: Seq<char>) -> Seq<char> {
    joined(seq![name, lines(config)[1]])
}

/// The config `config`, of two lines, with the word of the deletion method nearest
/// to `value` as its second line.
pub open spec fn config_with_method(config: Seq<char>, value: Seq<char>) -> Seq<char> {
    joined(seq![lines(config)[0], DeletionMethod::nearest(value).token_text()])
}

/// How a config is shown: a heading, then each of its lines after a tab.
pub open spec fn shown_config(config: Seq<char>) -> Seq<Seq<char>> {
    seq!["current config:"@] + Seq::new(
        lines(config).len(),
        |i: int| seq!['\t'] + lines(config)[i],
    )
}

/// Writes a config of the two lines `first` and `second`.
fn write_config(config: &mut String, first: &Vec<char>, second: &Vec<char>)
    ensures
        final(config)@ == joined(seq![first@, second@]),
{
    let mut out: Vec<char> = Vec::new();
    push_all(&mut out, first);
    out.push('\n');
    push_all(&mut out, second);
    out.push('\n');
    proof {
        let both = seq![first@, second@];
        assert(both.drop_last() == seq![first@]);
        assert(seq![first@].drop_last() == Seq::<Seq<char>>::empty());
        assert(joined(Seq::<Seq<char>>::empty()) == Seq::<char>::empty());
        assert(joined(seq![first@]) == Seq::<char>::empty() + first@.push('\n'));
        assert(out@ == joined(both));
    }
    *config = string_of(&out);
}

/// Changes or shows the config. A change needs a config of exactly two lines, and
/// leaves one of two lines, each ended by a line feed; any other config is corrupt,
/// and stays as it is. What comes back are the lines to show.
pub fn handle_config(command: ConfigCommand, config: &mut String) -> (r: Result<
    Vec<String>,
    TodoError,
>)
    ensures
        match command {
            ConfigCommand::Name(name) => if lines(old(config)@).len() == 2 {
                r is Ok && r.unwrap()@.len() == 0 && final(config)@ == config_with_name(
                    old(config)@,
                    name@,
                )
            } else {
                r is Err && r.unwrap_err() == TodoError::ConfigCorrupt && final(config)@ == old(config)@
            },
            ConfigCommand::Deleted(value) => if lines(old(config)@).len() == 2 {
                r is Ok && r.unwrap()@.len() == 0 && final(config)@ == config_with_method(
                    old(config)@,
                    value@,
                )
            } else {
                r is Err && r.unwrap_err() == TodoError::ConfigCorrupt && final(config)@ == old(config)@
            },
            ConfigCommand::Show => r is Ok && string_views(r.unwrap()@) == shown_config(
                old(config)@,
            ) && final(config)@ == old(config)@,
        },
{
    let found = split_lines(&chars_of(config.as_str()));
    match command {
        ConfigCommand::Name(name) => {
            if found.len() != 2 {
                return Err(TodoError::ConfigCorrupt);
            }
            write_config(config, &chars_of(name.as_str()), &found[1]);
            Ok(Vec::new())
        },
        ConfigCommand::Deleted(value) => {
            if found.len() != 2 {
                return Err(TodoError::ConfigCorrupt);
            }
            let method = parse_deleted_value(value.as_str());
            write_config(config, &found[0], &chars_of(method.as_str()));
            Ok(Vec::new())
        },
        ConfigCommand::Show => {
            let mut out: Vec<String> = Vec::new();
            out.push(String::from_str("current config:"));
            let mut i: usize = 0;
            while i < found.len()
                invariant
                    i <= found.len(),
                    views(found@) == lines(config@),
                    out.len() == i + 1,
                    out@[0]@ == "current config:"@,
                    forall|k: int|
                        0 <= k < i ==> (#[trigger] out@[k + 1])@ == seq!['\t'] + lines(config@)[k],
                decreases found.len() - i,
            {
                assert(views(found@)[i as int] == found@[i as int]@);
                let mut shown: Vec<char> = Vec::new();
                shown.push('\t');
                push_all(&mut shown, &found[i]);
                out.push(string_of(&shown));
                i += 1;
            }
            proof {
                let shown = shown_config(config@);
                assert(views(found@).len() == found@.len());
                assert(string_views(out@).len() == shown.len());
                assert forall|k: int| 0 <= k < shown.len() implies string_views(out@)[k]
                    == shown[k] by {
                    if k > 0 {
                        assert(out@[k - 1 + 1]@ == seq!['\t'] + lines(config@)[k - 1]);
                    }
                }
                assert(string_views(out@) == shown);
            }
            Ok(out)
        },
    }
}

/// Which of the files of a todo list are there.
#[derive(Clone, Copy, Debug)]
pub struct FilesPresent {
    pub config: bool,
    pub todo: bool,
    pub finished: bool,
    pub deleted: bool,
}

/// A file to create, by name, and what to write into it.
#[derive(Debug)]
pub struct NewFile {
    pub name: String,
    pub contents: String,
}

/// The config that a new todo list starts with.
pub open spec fn default_config_text() -> Seq<char> {
    "default-name\nkeep\n"@
}

/// The files to create, as pairs of name and contents: each file of a todo list that
/// is not there yet, the config first, with the contents given for it or else the
/// default ones, then the empty files of open, finished and deleted todos.
pub open spec fn files_to_create(config: Option<Seq<char>>, present: FilesPresent) -> Seq<
    (Seq<char>, Seq<char>),
> {
    let first = if present.config {
        seq![]
    } else {
        seq![
            (
                ".todo.config"@,
                match config {
                    Some(text) => text,
                    None => default_config_text(),
                },
            ),
        ]
    };
    let second = if present.todo {
        first
    } else {
        first.push((TodoState::Open.file_name_text(), Seq::empty()))
    };
    let third = if present.finished {
        second
    } else {
        second.push((TodoState::Done.file_name_text(), Seq::empty()))
    };
    if present.deleted {
        third
    } else {
        third.push((TodoState::Deleted.file_name_text(), Seq::empty()))
    }
}

/// Name and contents of each file.
pub open spec fn new_file_views(files: Seq<NewFile>) -> Seq<(Seq<char>, Seq<char>)> {
    Seq::new(files.len(), |i: int| (files[i].name@, files[i].contents@))
}

/// The config that a new todo list starts with.
pub fn default_config() -> (r: String)
    ensures
        r@ == default_config_text(),
{
    String::from_str("default-name\nkeep\n")
}

/// Plans a new todo list: which files to create, and with what in them. `config`
/// holds the contents for the config, where the caller has some.
pub fn handle_create(config: Option<&str>, present: FilesPresent) -> (r: Vec<NewFile>)
    ensures
        new_file_views(r@) == files_to_create(config_text(config), present),
{
    let mut out: Vec<NewFile> = Vec::new();
    if !present.config {
        let contents = match config {
            Some(text) => String::from_str(text),
            None => default_config(),
        };
        out.push(NewFile { name: String::from_str(".todo.config"), contents });
    }
    assert(new_file_views(out@) == if present.config {
        Seq::<(Seq<char>, Seq<char>)>::empty()
    } else {
        seq![
            (
                ".todo.config"@,
                match config_text(config) {
                    Some(text) => text,
                    None => default_config_text(),
                },
            ),
        ]
    });
    if !present.todo {
        let ghost before = new_file_views(out@);
        out.push(NewFile { name: TodoState::Open.file_name(), contents: String::new() });
        assert(new_file_views(out@) == before.push(
            (TodoState::Open.file_name_text(), Seq::empty()),
        ));
    }
    if !present.finished {
        let ghost before = new_file_views(out@);
        out.push(NewFile { name: TodoState::Done.file_name(), contents: String::new() });
        assert(new_file_views(out@) == before.push(
            (TodoState::Done.file_name_text(), Seq::empty()),
        ));
    }
    if !present.deleted {
        let ghost before = new_file_views(out@);
        out.push(NewFile { name: TodoState::Deleted.file_name(), contents: String::new() });
        assert(new_file_views(out@) == before.push(
            (TodoState::Deleted.file_name_text(), Seq::empty()),
        ));
    }
    out
}

} // verus!
