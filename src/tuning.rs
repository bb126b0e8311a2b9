//! A tuning: for every hole, the pitch class of each way of playing it.
use vstd::prelude::*;
use crate::error::TuningError;
use crate::label::{Label, Reed};
use crate::notes::{rows_of_text, str_to_rows};
use crate::ordering::{label_texts, notes_in_order, order, ordering, pair_texts, string_views};
use crate::pitch::{adjust_octaves, is_pitch_class_row, normalized, row_fits};

verus! {

/// Every note of a harmonica, one entry per hole in each row; `None` where a
/// technique sounds nothing on that hole.
#[derive(Debug, PartialEq, Eq, Clone)]
pub struct Tuning {
    pub blow: Vec<Option<usize>>,
    pub draw: Vec<Option<usize>>,
    pub bends_half: Vec<Option<usize>>,
    pub bends_full: Vec<Option<usize>>,
    pub bends_one_and_half: Vec<Option<usize>>,
    pub blow_bends_half: Vec<Option<usize>>,
    pub blow_bends_full: Vec<Option<usize>>,
    pub overblows: Vec<Option<usize>>,
    pub overdraws: Vec<Option<usize>>,
}

/// The rows of a tuning as sequences.
pub struct TuningView {
    pub blow: Seq<Option<usize>>,
    pub draw: Seq<Option<usize>>,
    pub bends_half: Seq<Option<usize>>,
    pub bends_full: Seq<Option<usize>>,
    pub bends_one_and_half: Seq<Option<usize>>,
    pub blow_bends_half: Seq<Option<usize>>,
    pub blow_bends_full: Seq<Option<usize>>,
    pub overblows: Seq<Option<usize>>,
    pub overdraws: Seq<Option<usize>>,
}

impl View for Tuning {
    type V = TuningView;

    open spec fn view(&self) -> TuningView {
        TuningView {
            blow: self.blow@,
            draw: self.draw@,
            bends_half: self.bends_half@,
            bends_full: self.bends_full@,
            bends_one_and_half: self.bends_one_and_half@,
            blow_bends_half: self.blow_bends_half@,
            blow_bends_full: self.blow_bends_full@,
            overblows: self.overblows@,
            overdraws: self.overdraws@,
        }
    }
}

/// A draw bend of `depth` semitones: the draw reed bends that far only when
/// the draw note lies at least `depth + 1` semitones above the blow note.
pub open spec fn draw_bend(top: int, bottom: int, depth: int) -> Option<usize> {
    if bottom - top >= depth + 1 {
        Some(((bottom - depth) % 12) as usize)
    } else {
        None
    }
}

/// A blow bend of `depth` semitones, the mirror image of a draw bend.
pub open spec fn blow_bend(top: int, bottom: int, depth: int) -> Option<usize> {
    if top - bottom >= depth + 1 {
        Some(((top - depth) % 12) as usize)
    } else {
        None
    }
}

/// Whether `l` is the overblow (blow reed) or overdraw (draw reed) of `hole`.
pub open spec fn names_extended(l: Label, hole: int, reed: Reed) -> bool {
    l matches Label::Hole { hole: h, reed: r, extended: true, .. } && h == hole && r == reed
}

/// Whether some duplicate reported by the canonical order is the overblow or
/// overdraw of `hole`: that note is already played another way.
pub open spec fn pruned(duplicates: Seq<(Label, Label)>, hole: int, reed: Reed) -> bool {
    exists|k: int| 0 <= k < duplicates.len() && #[trigger] names_extended(duplicates[k].0, hole, reed)
}

pub open spec fn overblow_candidate(top: int, bottom: int) -> Option<usize> {
    if bottom > top {
        Some(((bottom + 1) % 12) as usize)
    } else {
        None
    }
}

pub open spec fn overdraw_candidate(top: int, bottom: int) -> Option<usize> {
    if bottom > top {
        None
    } else {
        Some(((top + 1) % 12) as usize)
    }
}

/// The tuning derived from rows of blow and draw pitch classes.
pub open spec fn derived(top: Seq<usize>, bottom: Seq<usize>) -> TuningView {
    let nt = normalized(top);
    let nb = normalized(bottom);
    let duplicates = ordering(nt, nb).duplicates;
    let n = top.len();
    TuningView {
        blow: Seq::new(n, |i: int| Some(top[i])),
        draw: Seq::new(n, |i: int| Some(bottom[i])),
        bends_half: Seq::new(n, |i: int| draw_bend(nt[i] as int, nb[i] as int, 1)),
        bends_full: Seq::new(n, |i: int| draw_bend(nt[i] as int, nb[i] as int, 2)),
        bends_one_and_half: Seq::new(n, |i: int| draw_bend(nt[i] as int, nb[i] as int, 3)),
        blow_bends_half: Seq::new(n, |i: int| blow_bend(nt[i] as int, nb[i] as int, 1)),
        blow_bends_full: Seq::new(n, |i: int| blow_bend(nt[i] as int, nb[i] as int, 2)),
        overblows: Seq::new(
            n,
            |i: int|
                if pruned(duplicates, i + 1, Reed::Blow) {
                    None
                } else {
                    overblow_candidate(nt[i] as int, nb[i] as int)
                },
        ),
        overdraws: Seq::new(
            n,
            |i: int|
                if pruned(duplicates, i + 1, Reed::Draw) {
                    None
                } else {
                    overdraw_candidate(nt[i] as int, nb[i] as int)
                },
        ),
    }
}

/// Rows that a tuning can be built from: as many draw notes as blow notes,
/// and at least one hole.
pub open spec fn rows_match(top: Seq<usize>, bottom: Seq<usize>) -> bool {
    top.len() == bottom.len() && top.len() > 0
}

impl Tuning {
    /// Derives every playable note from the blow and draw pitch classes of
    /// each hole.
    pub fn new(top_notes: Vec<usize>, bottom_notes: Vec<usize>) -> (r: Result<Tuning, TuningError>)
        requires
            is_pitch_class_row(top_notes@),
            is_pitch_class_row(bottom_notes@),
            row_fits(top_notes@),
            row_fits(bottom_notes@),
        ensures
            match r {
                Ok(t) => {
                    &&& rows_match(top_notes@, bottom_notes@)
                    &&& !ordering(normalized(top_notes@), normalized(bottom_notes@)).stalled
                    &&& t@ == derived(top_notes@, bottom_notes@)
                },
                Err(e) => {
                    ||| e == TuningError::MalformedTuningRow && !rows_match(
                        top_notes@,
                        bottom_notes@,
                    )
                    ||| e == TuningError::InconsistentOrdering && rows_match(
                        top_notes@,
                        bottom_notes@,
                    ) && ordering(normalized(top_notes@), normalized(bottom_notes@)).stalled
                },
            },
    {
        if top_notes.len() != bottom_notes.len() || top_notes.len() == 0 {
            return Err(TuningError::MalformedTuningRow);
        }
        let top = adjust_octaves(top_notes.as_slice());
        let bottom = adjust_octaves(bottom_notes.as_slice());
        let duplicates = match order(top.as_slice(), bottom.as_slice()) {
            Ok((_, found)) => found,
            Err(e) => {
                return Err(e);
            },
        };
        let ghost nt = normalized(top_notes@);
        let ghost nb = normalized(bottom_notes@);
        let n = top.len();
        let mut blow: Vec<Option<usize>> = Vec::new();
        let mut draw: Vec<Option<usize>> = Vec::new();
        let mut bends_half: Vec<Option<usize>> = Vec::new();
        let mut bends_full: Vec<Option<usize>> = Vec::new();
        let mut bends_one_and_half: Vec<Option<usize>> = Vec::new();
        let mut blow_bends_half: Vec<Option<usize>> = Vec::new();
        let mut blow_bends_full: Vec<Option<usize>> = Vec::new();
        let mut overblows: Vec<Option<usize>> = Vec::new();
        let mut overdraws: Vec<Option<usize>> = Vec::new();
        let mut i: usize = 0;
        while i < n
            invariant
                n == top@.len() == bottom@.len() == top_notes@.len() == bottom_notes@.len(),
                top@ == nt,
                bottom@ == nb,
                nt == normalized(top_notes@),
                nb == normalized(bottom_notes@),
                forall|j: int| 0 <= j < n ==> #[trigger] top@[j] < usize::MAX,
                forall|j: int| 0 <= j < n ==> #[trigger] bottom@[j] < usize::MAX,
                i <= n,
                blow@.len() == i,
                draw@.len() == i,
                bends_half@.len() == i,
                bends_full@.len() == i,
                bends_one_and_half@.len() == i,
                blow_bends_half@.len() == i,
                blow_bends_full@.len() == i,
                overblows@.len() == i,
                overdraws@.len() == i,
                forall|j: int| 0 <= j < i ==> #[trigger] blow@[j] == Some(top_notes@[j]),
                forall|j: int| 0 <= j < i ==> #[trigger] draw@[j] == Some(bottom_notes@[j]),
                forall|j: int|
                    0 <= j < i ==> #[trigger] bends_half@[j] == draw_bend(nt[j] as int, nb[j] as int, 1),
                forall|j: int|
                    0 <= j < i ==> #[trigger] bends_full@[j] == draw_bend(nt[j] as int, nb[j] as int, 2),
                forall|j: int|
                    0 <= j < i ==> #[trigger] bends_one_and_half@[j] == draw_bend(
                        nt[j] as int,
                        nb[j] as int,
                        3,
                    ),
                forall|j: int|
                    0 <= j < i ==> #[trigger] blow_bends_half@[j] == blow_bend(
                        nt[j] as int,
                        nb[j] as int,
                        1,
                    ),
                forall|j: int|
                    0 <= j < i ==> #[trigger] blow_bends_full@[j] == blow_bend(
                        nt[j] as int,
                        nb[j] as int,
                        2,
                    ),
                forall|j: int|
                    0 <= j < i ==> #[trigger] overblows@[j] == overblow_candidate(
                        nt[j] as int,
                        nb[j] as int,
                    ),
                forall|j: int|
                    0 <= j < i ==> #[trigger] overdraws@[j] == overdraw_candidate(
                        nt[j] as int,
                        nb[j] as int,
                    ),
            decreases n - i,
        {
            let t = top[i];
            let b = bottom[i];
            blow.push(Some(top_notes[i]));
            draw.push(Some(bottom_notes[i]));
            if b > t {
                overblows.push(Some((b + 1) % 12));
                overdraws.push(None);
                bends_one_and_half.push(
                    if b - t >= 4 {
                        Some((b - 3) % 12)
                    } else {
                        None
                    },
                );
                bends_full.push(
                    if b - t >= 3 {
                        Some((b - 2) % 12)
                    } else {
                        None
                    },
                );
                bends_half.push(
                    if b - t >= 2 {
                        Some((b - 1) % 12)
                    } else {
                        None
                    },
                );
                blow_bends_full.push(None);
                blow_bends_half.push(None);
            } else {
                overblows.push(None);
                overdraws.push(Some((t + 1) % 12));
                bends_one_and_half.push(None);
                bends_full.push(None);
                bends_half.push(None);
                blow_bends_full.push(
                    if t - b >= 3 {
                        Some((t - 2) % 12)
                    } else {
                        None
                    },
                );
                blow_bends_half.push(
                    if t - b >= 2 {
                        Some((t - 1) % 12)
                    } else {
                        None
                    },
                );
            }
            i = i + 1;
        }
        // an overblow or overdraw that another fingering already plays is dropped
        let mut k: usize = 0;
        while k < duplicates.len()
            invariant
                k <= duplicates@.len(),
                duplicates@ == ordering(nt, nb).duplicates,
                nt.len() == n,
                nb.len() == n,
                overblows@.len() == n,
                overdraws@.len() == n,
                forall|j: int|
                    0 <= j < n ==> #[trigger] overblows@[j] == if pruned(
                        duplicates@.take(k as int),
                        j + 1,
                        Reed::Blow,
                    ) {
                        None
                    } else {
                        overblow_candidate(nt[j] as int, nb[j] as int)
                    },
                forall|j: int|
                    0 <= j < n ==> #[trigger] overdraws@[j] == if pruned(
                        duplicates@.take(k as int),
                        j + 1,
                        Reed::Draw,
                    ) {
                        None
                    } else {
                        overdraw_candidate(nt[j] as int, nb[j] as int)
                    },
            decreases duplicates@.len() - k,
        {
            let (fresh, _) = duplicates[k];
            proof {
                lemma_pruned_step(duplicates@, k as int, Reed::Blow);
                lemma_pruned_step(duplicates@, k as int, Reed::Draw);
            }
            if let Label::Hole { hole, reed, bends: _, extended: true } = fresh {
                if hole >= 1 && hole <= n {
                    if reed == Reed::Draw {
                        overdraws[hole - 1] = None;
                    } else {
                        overblows[hole - 1] = None;
                    }
                }
            }
            k = k + 1;
        }
        assert(duplicates@.take(duplicates@.len() as int) =~= duplicates@);
        let tuning = Tuning {
            blow,
            draw,
            bends_half,
            bends_full,
            bends_one_and_half,
            blow_bends_half,
            blow_bends_full,
            overblows,
            overdraws,
        };
        assert(tuning@.blow =~= derived(top_notes@, bottom_notes@).blow);
        assert(tuning@.draw =~= derived(top_notes@, bottom_notes@).draw);
        assert(tuning@.bends_half =~= derived(top_notes@, bottom_notes@).bends_half);
        assert(tuning@.bends_full =~= derived(top_notes@, bottom_notes@).bends_full);
        assert(tuning@.bends_one_and_half =~= derived(top_notes@, bottom_notes@).bends_one_and_half);
        assert(tuning@.blow_bends_half =~= derived(top_notes@, bottom_notes@).blow_bends_half);
        assert(tuning@.blow_bends_full =~= derived(top_notes@, bottom_notes@).blow_bends_full);
        assert(tuning@.overblows =~= derived(top_notes@, bottom_notes@).overblows);
        assert(tuning@.overdraws =~= derived(top_notes@, bottom_notes@).overdraws);
        Ok(tuning)
    }
}

/// The layout of a richter-tuned harmonica in C.
pub open spec fn richter_layout() -> TuningView {
    TuningView {
        blow: seq![Some(0usize), Some(4), Some(7), Some(0), Some(4), Some(7), Some(0), Some(4), Some(7), Some(0)],
        draw: seq![Some(2usize), Some(7), Some(11), Some(2), Some(5), Some(9), Some(11), Some(2), Some(5), Some(9)],
        bends_half: seq![Some(1usize), Some(6), Some(10), Some(1), None, Some(8), None, None, None, None],
        bends_full: seq![None, Some(5usize), Some(9), None, None, None, None, None, None, None],
        bends_one_and_half: seq![None, None, Some(8usize), None, None, None, None, None, None, None],
        blow_bends_half: seq![None, None, None, None, None, None, None, Some(3usize), Some(6), Some(11)],
        blow_bends_full: seq![None, None, None, None, None, None, None, None, None, Some(10usize)],
        overblows: seq![Some(3usize), None, None, Some(3), Some(6), Some(10), None, None, None, None],
        overdraws: seq![None, None, None, None, None, None, Some(1usize), None, Some(8), Some(1)],
    }
}

impl Default for Tuning {
    /// The richter tuning in C.
    fn default() -> (r: Tuning)
        ensures
            r@ == richter_layout(),
    {
        let t = Tuning {
            blow: vec![Some(0), Some(4), Some(7), Some(0), Some(4), Some(7), Some(0), Some(4), Some(7), Some(0)],
            draw: vec![Some(2), Some(7), Some(11), Some(2), Some(5), Some(9), Some(11), Some(2), Some(5), Some(9)],
            bends_half: vec![Some(1), Some(6), Some(10), Some(1), None, Some(8), None, None, None, None],
            bends_full: vec![None, Some(5), Some(9), None, None, None, None, None, None, None],
            bends_one_and_half: vec![None, None, Some(8), None, None, None, None, None, None, None],
            blow_bends_half: vec![None, None, None, None, None, None, None, Some(3), Some(6), Some(11)],
            blow_bends_full: vec![None, None, None, None, None, None, None, None, None, Some(10)],
            overblows: vec![Some(3), None, None, Some(3), Some(6), Some(10), None, None, None, None],
            overdraws: vec![None, None, None, None, None, None, Some(1), None, Some(8), Some(1)],
        };
        assert(t@.blow =~= richter_layout().blow);
        assert(t@.draw =~= richter_layout().draw);
        assert(t@.bends_half =~= richter_layout().bends_half);
        assert(t@.bends_full =~= richter_layout().bends_full);
        assert(t@.bends_one_and_half =~= richter_layout().bends_one_and_half);
        assert(t@.blow_bends_half =~= richter_layout().blow_bends_half);
        assert(t@.blow_bends_full =~= richter_layout().blow_bends_full);
        assert(t@.overblows =~= richter_layout().overblows);
        assert(t@.overdraws =~= richter_layout().overdraws);
        t
    }
}

/// Deriving a tuning has no hidden state: two tunings derived from the same
/// rows are equal row by row.
pub proof fn lemma_derivation_is_repeatable(
    top: Seq<usize>,
    bottom: Seq<usize>,
    first: Tuning,
    second: Tuning,
)
    requires
        first@ == derived(top, bottom),
        second@ == derived(top, bottom),
    ensures
        first@.blow == second@.blow,
        first@.draw == second@.draw,
        first@.bends_half == second@.bends_half,
        first@.bends_full == second@.bends_full,
        first@.bends_one_and_half == second@.bends_one_and_half,
        first@.blow_bends_half == second@.blow_bends_half,
        first@.blow_bends_full == second@.blow_bends_full,
        first@.overblows == second@.overblows,
        first@.overdraws == second@.overdraws,
{
}

/// Draw bends and blow bends never share a hole: draw bends appear only where
/// the draw note is above the blow note, blow bends only where it is below.
pub proof fn lemma_bend_families_exclusive(top: Seq<usize>, bottom: Seq<usize>, i: int)
    requires
        top.len() == bottom.len(),
        0 <= i < top.len(),
    ensures
        ({
            let t = derived(top, bottom);
            let draw_bent = t.bends_half[i] is Some || t.bends_full[i] is Some
                || t.bends_one_and_half[i] is Some;
            let blow_bent = t.blow_bends_half[i] is Some || t.blow_bends_full[i] is Some;
            &&& !(draw_bent && blow_bent)
            &&& draw_bent ==> normalized(bottom)[i] > normalized(top)[i]
            &&& blow_bent ==> normalized(bottom)[i] < normalized(top)[i]
        }),
{
}

impl Tuning {
    /// Reads a tuning from its text, two lines of note names, and derives
    /// every playable note.
    pub fn from_text(input: &str) -> (r: Result<Tuning, TuningError>)
        requires
            input@.len() + 1 < usize::MAX / 12,
        ensures
            match rows_of_text(input@) {
                Err(e) => r == Err::<Tuning, TuningError>(e),
                Ok((top, bottom)) => match r {
                    Ok(t) => {
                        &&& rows_match(top, bottom)
                        &&& !ordering(normalized(top), normalized(bottom)).stalled
                        &&& t@ == derived(top, bottom)
                    },
                    Err(e) => {
                        ||| e == TuningError::MalformedTuningRow && !rows_match(top, bottom)
                        ||| e == TuningError::InconsistentOrdering && rows_match(top, bottom)
                            && ordering(normalized(top), normalized(bottom)).stalled
                    },
                },
            },
    {
        let (top, bottom) = match str_to_rows(input) {
            Ok(rows) => rows,
            Err(e) => {
                return Err(e);
            },
        };
        Tuning::new(top, bottom)
    }
}

/// Reads a tuning from its text and writes out the canonical order of its
/// fingerings and the duplicate stream.
pub fn str_to_notes_in_order(input: &str) -> (r: Result<(Vec<String>, Vec<String>), TuningError>)
    requires
        input@.len() + 1 < usize::MAX / 12,
    ensures
        match rows_of_text(input@) {
            Err(e) => r == Err::<(Vec<String>, Vec<String>), TuningError>(e),
            Ok((top, bottom)) => if top.len() != bottom.len() {
                r == Err::<(Vec<String>, Vec<String>), TuningError>(TuningError::MalformedTuningRow)
            } else {
                let walk = ordering(normalized(top), normalized(bottom));
                match r {
                    Ok((names, duplicates)) => {
                        &&& !walk.stalled
                        &&& string_views(names@) == label_texts(walk.labels)
                        &&& string_views(duplicates@) == pair_texts(walk.duplicates)
                    },
                    Err(e) => e == TuningError::InconsistentOrdering && walk.stalled,
                }
            },
        },
{
    let (top, bottom) = match str_to_rows(input) {
        Ok(rows) => rows,
        Err(e) => {
            return Err(e);
        },
    };
    if top.len() != bottom.len() {
        return Err(TuningError::MalformedTuningRow);
    }
    let top = adjust_octaves(top.as_slice());
    let bottom = adjust_octaves(bottom.as_slice());
    notes_in_order(top.as_slice(), bottom.as_slice())
}

proof fn lemma_pruned_step(duplicates: Seq<(Label, Label)>, k: int, reed: Reed)
    requires
        0 <= k < duplicates.len(),
    ensures
        forall|hole: int|
            #[trigger] pruned(duplicates.take(k + 1), hole, reed) <==> pruned(
                duplicates.take(k),
                hole,
                reed,
            ) || names_extended(duplicates[k].0, hole, reed),
{
    assert forall|hole: int|
        #[trigger] pruned(duplicates.take(k + 1), hole, reed) <==> pruned(
            duplicates.take(k),
            hole,
            reed,
        ) || names_extended(duplicates[k].0, hole, reed) by {
        if pruned(duplicates.take(k + 1), hole, reed) {
            let m = choose|m: int|
                0 <= m < k + 1 && #[trigger] names_extended(duplicates.take(k + 1)[m].0, hole, reed);
            if m < k {
                assert(names_extended(duplicates.take(k)[m].0, hole, reed));
            }
        }
        if pruned(duplicates.take(k), hole, reed) {
            let m = choose|m: int|
                0 <= m < k && #[trigger] names_extended(duplicates.take(k)[m].0, hole, reed);
            assert(names_extended(duplicates.take(k + 1)[m].0, hole, reed));
        }
        if names_extended(duplicates[k].0, hole, reed) {
            assert(names_extended(duplicates.take(k + 1)[k].0, hole, reed));
        }
    }
}

} // verus!
