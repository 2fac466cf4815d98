//! The record store: a file of lines, held in memory as the text of the file.
//!
//! Whoever owns the file on disk reads it into a `String`, lets the store change that
//! string, and writes it back when the store reports success.

use vstd::prelude::*;
use crate::split::{join_lines, joined, lines, split_lines};
use crate::text::{chars_of, string_of, string_views, views};

verus! {

/// Why an operation on the todo files was given up.
#[derive(Clone, Copy, Debug, PartialEq, Eq, Structural)]
pub enum TodoError {
    /// There is no line at the index that was asked for.
    IndexOutOfBounds,
    /// The config does not consist of exactly two lines.
    ConfigCorrupt,
}

impl TodoError {
    /// The message to show for this error.
    pub fn message(&self) -> (r: String)
        ensures
            r@ == match self {
                TodoError::IndexOutOfBounds => "Index out of bounds"@,
                TodoError::ConfigCorrupt => "config file is broken!"@,
            },
    {
        match self {
            TodoError::IndexOutOfBounds => String::from_str("Index out of bounds"),
            TodoError::ConfigCorrupt => String::from_str("config file is broken!"),
        }
    }
}

/// The file `file` with `line` added at its end.
pub open spec fn appended(file: Seq<char>, line: Seq<char>) -> Seq<char> {
    file + line.push('\n')
}

/// The file `file` rewritten without its line at `index`.
pub open spec fn removed(file: Seq<char>, index: int) -> Seq<char> {
    joined(lines(file).remove(index))
}

/// Adds `line` and a line feed at the end of `file`.
pub fn append_line(file: &mut String, line: String)
    ensures
        final(file)@ == appended(old(file)@, line@),
{
    file.append(line.as_str());
    file.push('\n');
}

/// The lines of `file`, in order; none for an empty file.
pub fn read_all(file: &str) -> (r: Vec<String>)
    ensures
        string_views(r@) == lines(file@),
{
    let parts = split_lines(&chars_of(file));
    let mut out: Vec<String> = Vec::new();
    let mut i: usize = 0;
    while i < parts.len()
        invariant
            i <= parts.len(),
            string_views(out@) == views(parts@).take(i as int),
        decreases parts.len() - i,
    {
        let ghost before = string_views(out@);
        out.push(string_of(&parts[i]));
        assert(string_views(out@) == before.push(parts@[i as int]@));
        i += 1;
    }
    assert(views(parts@).take(parts.len() as int) == views(parts@));
    out
}

/// Removes the line at `index` and rewrites `file` from the lines that are left, each
/// ended by a line feed. Where there is no such line, `file` stays as it is.
pub fn remove_line(file: &mut String, index: usize) -> (r: Result<(), TodoError>)
    ensures
        match r {
            Ok(_) => index < lines(old(file)@).len() && final(file)@ == removed(
                old(file)@,
                index as int,
            ),
            Err(e) => e == TodoError::IndexOutOfBounds && index >= lines(old(file)@).len()
                && final(file)@ == old(file)@,
        },
{
    let mut parts = split_lines(&chars_of(file.as_str()));
    if index < parts.len() {
        let ghost before = views(parts@);
        parts.remove(index);
        assert(views(parts@) == before.remove(index as int));
        *file = string_of(&join_lines(&parts));
        Ok(())
    } else {
        Err(TodoError::IndexOutOfBounds)
    }
}


/// A line that comes back from the store as it went in: it holds no line feed and
/// does not end in a carriage return.
pub open spec fn is_storable(line: Seq<char>) -> bool {
    !line.contains('\n') && !(line.len() > 0 && line.last() == '\r')
}

pub open spec fn all_storable(lines: Seq<Seq<char>>) -> bool {
    forall|i: int| 0 <= i < lines.len() ==> is_storable(#[trigger] lines[i])
}

/// Text without a line feed, written where a line starts, is one more line, unless it
/// is empty.
proof fn lemma_lines_of_open_line(file: Seq<char>, tail: Seq<char>)
    requires
        file.len() == 0 || file.last() == '\n',
        !tail.contains('\n'),
    ensures
        lines(file + tail) == if tail.len() == 0 {
            lines(file)
        } else {
            lines(file).push(tail)
        },
    decreases tail.len(),
{
    if tail.len() == 0 {
        assert(file + tail == file);
    } else {
        let shorter = tail.drop_last();
        let c = tail.last();
        let s = file + tail;
        assert(tail[tail.len() - 1] == c);
        assert(c != '\n');
        assert(s.drop_last() == file + shorter);
        assert(s.last() == c);
        assert(!shorter.contains('\n')) by {
            if shorter.contains('\n') {
                let i = choose|i: int| 0 <= i < shorter.len() && shorter[i] == '\n';
                assert(tail[i] == '\n');
            }
        }
        lemma_lines_of_open_line(file, shorter);
        if shorter.len() == 0 {
            assert(tail == seq![c]);
            if file.len() > 0 {
                assert(s[s.len() - 2] == file.last());
            }
        } else {
            assert(s[s.len() - 2] == shorter.last());
            assert(tail[shorter.len() - 1] == shorter.last());
            assert(shorter.push(c) == tail);
            let before = lines(file).push(shorter);
            assert(before.update(before.len() - 1, before.last().push(c)) == lines(file).push(
                tail,
            ));
        }
    }
}

/// A storable line, appended where a line starts, is read back as the last line.
pub proof fn lemma_lines_of_appended(file: Seq<char>, line: Seq<char>)
    requires
        file.len() == 0 || file.last() == '\n',
        is_storable(line),
    ensures
        lines(appended(file, line)) == lines(file).push(line),
{
    let s = appended(file, line);
    lemma_lines_of_open_line(file, line);
    assert(s == (file + line).push('\n'));
    assert(s.drop_last() == file + line);
    assert(s.last() == '\n');
    if line.len() == 0 {
        assert(file + line == file);
        if file.len() > 0 {
            assert(s[s.len() - 2] == file.last());
        }
        assert(line == Seq::<char>::empty());
    } else {
        assert(s[s.len() - 2] == line.last());
        assert(line[line.len() - 1] == line.last());
        let before = lines(file).push(line);
        assert(before.update(before.len() - 1, line) == before);
    }
}

/// Appending a line to a file of lines gives the file of those lines and the new one.
pub proof fn lemma_append_extends(lines: Seq<Seq<char>>, line: Seq<char>)
    ensures
        appended(joined(lines), line) == joined(lines.push(line)),
{
    assert(lines.push(line).drop_last() == lines);
}

/// A file written from storable lines is read back as those lines.
pub proof fn lemma_lines_of_joined(written: Seq<Seq<char>>)
    requires
        all_storable(written),
    ensures
        lines(joined(written)) == written,
    decreases written.len(),
{
    if written.len() > 0 {
        let rest = written.drop_last();
        assert(all_storable(rest)) by {
            assert forall|i: int| 0 <= i < rest.len() implies is_storable(#[trigger] rest[i]) by {
                assert(rest[i] == written[i]);
            }
        }
        lemma_lines_of_joined(rest);
        lemma_joined_ends_lines(rest);
        assert(is_storable(written[written.len() - 1]));
        lemma_lines_of_appended(joined(rest), written.last());
        assert(rest.push(written.last()) == written);
    }
}

/// A file written from lines is empty or ends in a line feed.
pub proof fn lemma_joined_ends_lines(written: Seq<Seq<char>>)
    ensures
        joined(written).len() == 0 || joined(written).last() == '\n',
{
    if written.len() > 0 {
        let s = joined(written.drop_last()) + written.last().push('\n');
        assert(s.last() == '\n');
    }
}

/// After storable lines were appended to an empty file, one by one, removing the
/// line at a valid index `k` leaves all the other lines, in their order: one line
/// fewer, and the line that went is the one that stood at `k`.
pub proof fn lemma_remove_after_appends(written: Seq<Seq<char>>, k: int)
    requires
        all_storable(written),
        0 <= k < written.len(),
    ensures
        lines(joined(written)) == written,
        lines(removed(joined(written), k)) == written.remove(k),
        lines(removed(joined(written), k)).len() == written.len() - 1,
        lines(joined(written))[k] == written[k],
{
    lemma_lines_of_joined(written);
    let left = written.remove(k);
    assert(all_storable(left)) by {
        assert forall|i: int| 0 <= i < left.len() implies is_storable(#[trigger] left[i]) by {
            if i < k {
                assert(left[i] == written[i]);
            } else {
                assert(left[i] == written[i + 1]);
            }
        }
    }
    lemma_lines_of_joined(left);
}

} // verus!
