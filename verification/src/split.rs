//! Cutting text into words, lines and tab-separated fields.
//!
//! Each cut is defined by reading the text one character at a time from the left, so
//! that the definition of `cut(s)` refers to `cut(s.drop_last())` and the last
//! character only.

use vstd::prelude::*;
use crate::text::views;

verus! {

/// The characters with the Unicode property White_Space.
pub open spec fn is_whitespace(c: char) -> bool {
    ||| '\u{9}' <= c <= '\u{d}'
    ||| c == ' '
    ||| c == '\u{85}'
    ||| c == '\u{a0}'
    ||| c == '\u{1680}'
    ||| '\u{2000}' <= c <= '\u{200a}'
    ||| c == '\u{2028}'
    ||| c == '\u{2029}'
    ||| c == '\u{202f}'
    ||| c == '\u{205f}'
    ||| c == '\u{3000}'
}

pub fn char_is_whitespace(c: char) -> (r: bool)
    ensures
        r == is_whitespace(c),
{
    ('\u{9}' <= c && c <= '\u{d}') || c == ' ' || c == '\u{85}' || c == '\u{a0}' || c
        == '\u{1680}' || ('\u{2000}' <= c && c <= '\u{200a}') || c == '\u{2028}' || c
        == '\u{2029}' || c == '\u{202f}' || c == '\u{205f}' || c == '\u{3000}'
}

/// The maximal runs of non-whitespace characters of `s`, in order.
pub open spec fn words(s: Seq<char>) -> Seq<Seq<char>>
    decreases s.len(),
{
    if s.len() == 0 {
        seq![]
    } else {
        let before = words(s.drop_last());
        let c = s.last();
        if is_whitespace(c) {
            before
        } else if s.len() >= 2 && !is_whitespace(s[s.len() - 2]) {
            before.update(before.len() - 1, before.last().push(c))
        } else {
            before.push(seq![c])
        }
    }
}

/// Splits `s` at whitespace; no word is empty.
pub fn split_words(s: &Vec<char>) -> (r: Vec<Vec<char>>)
    ensures
        views(r@) == words(s@),
{
    let mut done: Vec<Vec<char>> = Vec::new();
    let mut word: Vec<char> = Vec::new();
    let mut i: usize = 0;
    while i < s.len()
        invariant
            i <= s.len(),
            word@.len() > 0 <==> (i > 0 && !is_whitespace(s@[i - 1])),
            words(s@.take(i as int)) == if word@.len() > 0 {
                views(done@).push(word@)
            } else {
                views(done@)
            },
        decreases s.len() - i,
    {
        let c = s[i];
        proof {
            let t = s@.take(i + 1);
            assert(t.drop_last() == s@.take(i as int));
            assert(t.last() == c);
            if i > 0 {
                assert(t[t.len() - 2] == s@[i - 1]);
            }
        }
        if char_is_whitespace(c) {
            if word.len() > 0 {
                let ghost before = views(done@);
                done.push(word);
                assert(views(done@) == before.push(word@));
                word = Vec::new();
            }
        } else {
            let ghost before = views(done@).push(word@);
            word.push(c);
            if word.len() > 1 {
                assert(views(done@).push(word@) == before.update(
                    before.len() - 1,
                    before.last().push(c),
                ));
            } else {
                assert(word@ == seq![c]);
            }
        }
        i += 1;
    }
    assert(s@.take(s.len() as int) == s@);
    if word.len() > 0 {
        let ghost before = views(done@);
        done.push(word);
        assert(views(done@) == before.push(word@));
    }
    done
}

/// A whitespace-free, non-empty text is its own single word.
pub proof fn lemma_words_of_solid_text(s: Seq<char>)
    requires
        s.len() > 0,
        forall|i: int| 0 <= i < s.len() ==> !is_whitespace(s[i]),
    ensures
        words(s) == seq![s],
    decreases s.len(),
{
    if s.len() == 1 {
        assert(words(s.drop_last()) == Seq::<Seq<char>>::empty());
        assert(seq![s.last()] == s);
    } else {
        lemma_words_of_solid_text(s.drop_last());
        let before = words(s.drop_last());
        assert(before == seq![s.drop_last()]);
        assert(s.drop_last().push(s.last()) == s);
        assert(before.update(0, before.last().push(s.last())) == seq![s]);
    }
}


/// `line` without the carriage return that ends it, if one does.
pub open spec fn without_carriage_return(line: Seq<char>) -> Seq<char> {
    if line.len() > 0 && line.last() == '\r' {
        line.drop_last()
    } else {
        line
    }
}

/// The lines of `s`. A line ends at a line feed, or at a carriage return directly
/// followed by one; the ending is not part of the line. Text after the last line
/// feed is a line too, unless it is empty.
pub open spec fn lines(s: Seq<char>) -> Seq<Seq<char>>
    decreases s.len(),
{
    if s.len() == 0 {
        seq![]
    } else {
        let before = lines(s.drop_last());
        let c = s.last();
        if s.len() == 1 || s[s.len() - 2] == '\n' {
            if c == '\n' {
                before.push(seq![])
            } else {
                before.push(seq![c])
            }
        } else if c == '\n' {
            before.update(before.len() - 1, without_carriage_return(before.last()))
        } else {
            before.update(before.len() - 1, before.last().push(c))
        }
    }
}

/// Splits `s` into its lines.
pub fn split_lines(s: &Vec<char>) -> (r: Vec<Vec<char>>)
    ensures
        views(r@) == lines(s@),
{
    let mut done: Vec<Vec<char>> = Vec::new();
    let mut line: Vec<char> = Vec::new();
    let mut open = false;
    let mut i: usize = 0;
    while i < s.len()
        invariant
            i <= s.len(),
            open <==> (i > 0 && s@[i - 1] != '\n'),
            lines(s@.take(i as int)) == if open {
                views(done@).push(line@)
            } else {
                views(done@)
            },
        decreases s.len() - i,
    {
        let c = s[i];
        proof {
            let t = s@.take(i + 1);
            assert(t.drop_last() == s@.take(i as int));
            assert(t.last() == c);
            if i > 0 {
                assert(t[t.len() - 2] == s@[i - 1]);
            }
        }
        let ghost before = lines(s@.take(i as int));
        let ghost closed = views(done@);
        if c == '\n' {
            if open {
                let n = line.len();
                if n > 0 && line[n - 1] == '\r' {
                    line.pop();
                }
                assert(line@ == without_carriage_return(before.last()));
            } else {
                line = Vec::new();
            }
            done.push(line);
            assert(views(done@) == closed.push(line@));
            line = Vec::new();
            open = false;
        } else {
            if !open {
                line = Vec::new();
            }
            line.push(c);
            open = true;
        }
        assert(lines(s@.take(i + 1)) == if open {
            views(done@).push(line@)
        } else {
            views(done@)
        });
        i += 1;
    }
    assert(s@.take(s.len() as int) == s@);
    if open {
        let ghost closed = views(done@);
        done.push(line);
        assert(views(done@) == closed.push(line@));
    }
    done
}

/// Every line followed by a line feed, one after the other.
pub open spec fn joined(lines: Seq<Seq<char>>) -> Seq<char>
    decreases lines.len(),
{
    if lines.len() == 0 {
        seq![]
    } else {
        joined(lines.drop_last()) + lines.last().push('\n')
    }
}

/// Writes every line of `lines` out, each ended by a line feed.
pub fn join_lines(lines: &Vec<Vec<char>>) -> (r: Vec<char>)
    ensures
        r@ == joined(views(lines@)),
{
    let mut out: Vec<char> = Vec::new();
    let mut i: usize = 0;
    while i < lines.len()
        invariant
            i <= lines.len(),
            out@ == joined(views(lines@).take(i as int)),
        decreases lines.len() - i,
    {
        proof {
            let t = views(lines@).take(i + 1);
            assert(t.drop_last() == views(lines@).take(i as int));
            assert(t.last() == lines@[i as int]@);
        }
        crate::text::push_all(&mut out, &lines[i]);
        out.push('\n');
        assert(out@ == joined(views(lines@).take(i as int)) + lines@[i as int]@.push('\n'));
        i += 1;
    }
    assert(views(lines@).take(lines.len() as int) == views(lines@));
    out
}

/// The pieces of `s` between occurrences of `separator`; there is always one piece
/// more than there are separators.
pub open spec fn fields(s: Seq<char>, separator: char) -> Seq<Seq<char>>
    decreases s.len(),
{
    if s.len() == 0 {
        seq![seq![]]
    } else {
        let before = fields(s.drop_last(), separator);
        if s.last() == separator {
            before.push(seq![])
        } else {
            before.update(before.len() - 1, before.last().push(s.last()))
        }
    }
}

/// Splits `s` at every occurrence of `separator`.
pub fn split_fields(s: &Vec<char>, separator: char) -> (r: Vec<Vec<char>>)
    ensures
        views(r@) == fields(s@, separator),
        r@.len() > 0,
{
    let mut done: Vec<Vec<char>> = Vec::new();
    let mut piece: Vec<char> = Vec::new();
    let mut i: usize = 0;
    while i < s.len()
        invariant
            i <= s.len(),
            fields(s@.take(i as int), separator) == views(done@).push(piece@),
        decreases s.len() - i,
    {
        let c = s[i];
        proof {
            let t = s@.take(i + 1);
            assert(t.drop_last() == s@.take(i as int));
            assert(t.last() == c);
        }
        let ghost before = views(done@).push(piece@);
        if c == separator {
            done.push(piece);
            assert(views(done@) == before);
            piece = Vec::new();
        } else {
            piece.push(c);
            assert(views(done@).push(piece@) == before.update(
                before.len() - 1,
                before.last().push(c),
            ));
        }
        i += 1;
    }
    assert(s@.take(s.len() as int) == s@);
    let ghost closed = views(done@);
    done.push(piece);
    assert(views(done@) == closed.push(piece@));
    done
}

/// `s` without the whitespace at its end.
pub open spec fn trimmed_end(s: Seq<char>) -> Seq<char>
    decreases s.len(),
{
    if s.len() > 0 && is_whitespace(s.last()) {
        trimmed_end(s.drop_last())
    } else {
        s
    }
}

/// `s` without the whitespace at its start.
pub open spec fn trimmed_start(s: Seq<char>) -> Seq<char>
    decreases s.len(),
{
    if s.len() > 0 && is_whitespace(s[0]) {
        trimmed_start(s.drop_first())
    } else {
        s
    }
}

/// `s` without the whitespace at either end.
pub open spec fn trimmed(s: Seq<char>) -> Seq<char> {
    trimmed_start(trimmed_end(s))
}

/// Removes the whitespace at both ends of `s`.
pub fn trim(s: &Vec<char>) -> (r: Vec<char>)
    ensures
        r@ == trimmed(s@),
{
    let mut end: usize = s.len();
    assert(s@.take(s.len() as int) == s@);
    while end > 0 && char_is_whitespace(s[end - 1])
        invariant
            end <= s.len(),
            trimmed_end(s@) == trimmed_end(s@.take(end as int)),
        decreases end,
    {
        assert(s@.take(end as int).drop_last() == s@.take(end - 1));
        end -= 1;
    }
    assert(trimmed_end(s@) == s@.take(end as int));
    let mut start: usize = 0;
    while start < end && char_is_whitespace(s[start])
        invariant
            start <= end <= s.len(),
            trimmed(s@) == trimmed_start(s@.subrange(start as int, end as int)),
        decreases end - start,
    {
        assert(s@.subrange(start as int, end as int).drop_first() == s@.subrange(
            start + 1,
            end as int,
        ));
        start += 1;
    }
    let mut out: Vec<char> = Vec::new();
    let mut i: usize = start;
    while i < end
        invariant
            start <= i <= end <= s.len(),
            out@ == s@.subrange(start as int, i as int),
        decreases end - i,
    {
        out.push(s[i]);
        i += 1;
    }
    out
}

} // verus!
