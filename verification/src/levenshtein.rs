//! The Levenshtein distance between two texts.

use vstd::prelude::*;
use crate::text::chars_of;

verus! {

pub open spec fn min3(a: int, b: int, c: int) -> int {
    if a <= b && a <= c {
        a
    } else if b <= c {
        b
    } else {
        c
    }
}

/// The least number of characters to insert, to delete or to replace by another that
/// turns `a` into `b`.
pub open spec fn levenshtein(a: Seq<char>, b: Seq<char>) -> int
    decreases a.len() + b.len(),
{
    if a.len() == 0 {
        b.len() as int
    } else if b.len() == 0 {
        a.len() as int
    } else {
        min3(
            levenshtein(a.drop_last(), b) + 1,
            levenshtein(a, b.drop_last()) + 1,
            levenshtein(a.drop_last(), b.drop_last()) + if a.last() == b.last() {
                0int
            } else {
                1
            },
        )
    }
}

/// The distance is at most the length of the longer text.
pub proof fn lemma_levenshtein_bounds(a: Seq<char>, b: Seq<char>)
    ensures
        0 <= levenshtein(a, b),
        levenshtein(a, b) <= a.len() || levenshtein(a, b) <= b.len(),
    decreases a.len() + b.len(),
{
    if a.len() > 0 && b.len() > 0 {
        lemma_levenshtein_bounds(a.drop_last(), b);
        lemma_levenshtein_bounds(a, b.drop_last());
        lemma_levenshtein_bounds(a.drop_last(), b.drop_last());
    }
}

fn least(a: u128, b: u128, c: u128) -> (r: u128)
    ensures
        r == min3(a as int, b as int, c as int),
{
    if a <= b && a <= c {
        a
    } else if b <= c {
        b
    } else {
        c
    }
}

/// The Levenshtein distance between `a` and `b`, character by character.
pub fn edit_distance(a: &str, b: &str) -> (r: usize)
    ensures
        r == levenshtein(a@, b@),
{
    let a = chars_of(a);
    let b = chars_of(b);
    let mut row: Vec<usize> = Vec::new();
    let mut j: usize = 0;
    while j < b.len()
        invariant
            j <= b.len(),
            row.len() == j,
            forall|k: int| 0 <= k < j ==> row@[k] == levenshtein(a@.take(0), b@.take(k)),
        decreases b.len() - j,
    {
        row.push(j);
        j += 1;
    }
    row.push(b.len());
    let mut i: usize = 0;
    while i < a.len()
        invariant
            i <= a.len(),
            row.len() == b.len() + 1,
            forall|k: int| 0 <= k <= b.len() ==> row@[k] == levenshtein(a@.take(i as int), b@.take(k)),
        decreases a.len() - i,
    {
        let mut next: Vec<usize> = Vec::new();
        next.push(i + 1);
        let mut j: usize = 0;
        while j < b.len()
            invariant
                i < a.len(),
                j <= b.len(),
                row.len() == b.len() + 1,
                next.len() == j + 1,
                forall|k: int|
                    0 <= k <= b.len() ==> row@[k] == levenshtein(a@.take(i as int), b@.take(k)),
                forall|k: int| 0 <= k <= j ==> next@[k] == levenshtein(a@.take(i + 1), b@.take(k)),
            decreases b.len() - j,
        {
            let cost: u128 = if a[i] == b[j] {
                0
            } else {
                1
            };
            proof {
                let x = a@.take(i + 1);
                let y = b@.take(j + 1);
                assert(x.drop_last() == a@.take(i as int));
                assert(y.drop_last() == b@.take(j as int));
                assert(x.last() == a@[i as int]);
                assert(y.last() == b@[j as int]);
                lemma_levenshtein_bounds(x, y);
            }
            let best = least(
                row[j + 1] as u128 + 1,
                next[j] as u128 + 1,
                row[j] as u128 + cost,
            );
            next.push(best as usize);
            j += 1;
        }
        row = next;
        i += 1;
    }
    assert(a@.take(a.len() as int) == a@);
    assert(b@.take(b.len() as int) == b@);
    row[b.len()]
}

} // verus!
