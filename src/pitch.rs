//! Pitch classes and the octave-continuous rows built from them.
use vstd::prelude::*;

verus! {

/// A row of pitch classes: every value is one of the twelve chromatic steps.
pub open spec fn is_pitch_class_row(row: Seq<usize>) -> bool {
    forall|i: int| 0 <= i < row.len() ==> #[trigger] row[i] < 12
}

/// The raw value that the note at `i` is compared against: the note before it,
/// or 0 for the first note of the row.
pub open spec fn previous_class(row: Seq<usize>, i: int) -> int {
    if i <= 0 {
        0
    } else {
        row[i - 1] as int
    }
}

/// How many times the pitch class falls among the first `n` notes of `row`:
/// each fall starts a new octave.
pub open spec fn octave_jumps(row: Seq<usize>, n: int) -> int
    decreases n,
{
    if n <= 0 {
        0
    } else {
        octave_jumps(row, n - 1) + if (row[n - 1] as int) < previous_class(row, n - 1) {
            1int
        } else {
            0int
        }
    }
}

/// The absolute pitch of note `i`: its pitch class raised by the octaves
/// started up to and including it.
pub open spec fn normalized_at(row: Seq<usize>, i: int) -> int {
    row[i] + 12 * octave_jumps(row, i + 1)
}

/// The whole row in absolute pitches.
pub open spec fn normalized(row: Seq<usize>) -> Seq<usize> {
    Seq::new(row.len(), |i: int| normalized_at(row, i) as usize)
}

/// Longest row whose absolute pitches are sure to fit in a `usize`.
pub open spec fn row_fits(row: Seq<usize>) -> bool {
    row.len() < usize::MAX / 12
}

proof fn lemma_octave_jumps_bounds(row: Seq<usize>, n: int)
    requires
        0 <= n,
    ensures
        0 <= octave_jumps(row, n) <= n,
    decreases n,
{
    if n > 0 {
        lemma_octave_jumps_bounds(row, n - 1);
    }
}

/// Turns a row of pitch classes into absolute pitches: whenever a pitch class
/// is lower than the one before it, every note from there on is an octave
/// higher.
pub fn adjust_octaves(row: &[usize]) -> (r: Vec<usize>)
    requires
        is_pitch_class_row(row@),
        row_fits(row@),
    ensures
        r@ == normalized(row@),
        forall|i: int| 0 <= i < row@.len() ==> r@[i] == normalized_at(row@, i),
        forall|i: int| 0 <= i < row@.len() ==> #[trigger] r@[i] < 12 * (row@.len() + 1),
{
    let mut out: Vec<usize> = Vec::new();
    let mut last: usize = 0;
    let mut add: usize = 0;
    let mut i: usize = 0;
    while i < row.len()
        invariant
            i <= row@.len(),
            row_fits(row@),
            is_pitch_class_row(row@),
            out@.len() == i,
            add == octave_jumps(row@, i as int),
            last == previous_class(row@, i as int),
            forall|j: int| 0 <= j < i ==> out@[j] == normalized_at(row@, j),
            forall|j: int| 0 <= j < i ==> #[trigger] out@[j] < 12 * (row@.len() + 1),
        decreases row@.len() - i,
    {
        let x = row[i];
        proof {
            lemma_octave_jumps_bounds(row@, i as int);
        }
        if x < last {
            add = add + 1;
        }
        last = x;
        assert(x < 12);
        out.push(x + 12 * add);
        i = i + 1;
    }
    assert(out@ =~= normalized(row@));
    out
}

/// A strictly ascending row never falls, so normalizing leaves it as it is.
pub proof fn lemma_ascending_row_is_normalized(row: Seq<usize>)
    requires
        forall|i: int, j: int| 0 <= i < j < row.len() ==> row[i] < row[j],
    ensures
        forall|i: int| 0 <= i < row.len() ==> #[trigger] normalized_at(row, i) == row[i],
        normalized(row) == row,
{
    assert forall|n: int| 0 <= n <= row.len() implies octave_jumps(row, n) == 0 by {
        lemma_ascending_no_jumps(row, n);
    }
    assert forall|i: int| 0 <= i < row.len() implies #[trigger] normalized_at(row, i) == row[i] by {
        assert(octave_jumps(row, i + 1) == 0);
    }
    assert(normalized(row) =~= row);
}

proof fn lemma_ascending_no_jumps(row: Seq<usize>, n: int)
    requires
        forall|i: int, j: int| 0 <= i < j < row.len() ==> row[i] < row[j],
        0 <= n <= row.len(),
    ensures
        octave_jumps(row, n) == 0,
    decreases n,
{
    if n > 0 {
        lemma_ascending_no_jumps(row, n - 1);
        if n >= 2 {
            assert(row[n - 2] < row[n - 1]);
        }
    }
}

} // verus!
