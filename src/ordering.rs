//! The canonical order of fingerings: walking the holes in pitch order, each
//! newly reached pitch gets a label, and each fingering of a pitch that is
//! already labelled is reported as a duplicate beside the earlier label.
use vstd::prelude::*;
use crate::error::TuningError;
use crate::label::{Label, Reed, label_text};

verus! {

/// The walk over the holes, as far as it has gone. The label at index `p`
/// names absolute pitch `p`.
pub struct OrderState {
    pub labels: Seq<Label>,
    pub duplicates: Seq<(Label, Label)>,
    /// Whether the previous hole's draw note is above its blow note.
    pub last_draw_higher: bool,
    /// The higher note of the previous hole.
    pub last_higher: int,
    /// Whether a lookup found no label where one was needed.
    pub stalled: bool,
}

pub open spec fn initial_state() -> OrderState {
    OrderState {
        labels: Seq::empty(),
        duplicates: Seq::empty(),
        last_draw_higher: true,
        last_higher: 0,
        stalled: false,
    }
}

/// The reed of a hole's lower note.
pub open spec fn lower_reed(draw_higher: bool) -> Reed {
    if draw_higher {
        Reed::Blow
    } else {
        Reed::Draw
    }
}

/// The reed of a hole's higher note, which is also the reed that bends.
pub open spec fn higher_reed(draw_higher: bool) -> Reed {
    if draw_higher {
        Reed::Draw
    } else {
        Reed::Blow
    }
}

pub open spec fn plain(hole: int, reed: Reed, bends: int) -> Label {
    Label::Hole { hole: hole as usize, reed, bends: bends as usize, extended: false }
}

pub open spec fn extended(hole: int, reed: Reed) -> Label {
    Label::Hole { hole: hole as usize, reed, bends: 0, extended: true }
}

/// A fingering that sounds `pitch`: a new label if the pitch is not labelled
/// yet, else a duplicate of the label at `alt`.
pub open spec fn visit(s: OrderState, pitch: int, label: Label, alt: int) -> OrderState {
    if pitch >= s.labels.len() {
        OrderState { labels: s.labels.push(label), ..s }
    } else {
        OrderState { duplicates: s.duplicates.push((label, s.labels[alt])), ..s }
    }
}

/// The bends of a hole, from `step` semitones below its higher note up to one.
pub open spec fn ladder(s: OrderState, hole: int, reed: Reed, higher: int, step: int) -> OrderState
    decreases step,
{
    if step <= 0 {
        s
    } else {
        ladder(
            visit(s, higher - step, plain(hole, reed, step), higher - step),
            hole,
            reed,
            higher,
            step - 1,
        )
    }
}

/// Pitches below `lower` that nothing reaches yet: the first is the previous
/// hole's overblow or overdraw, the rest are gaps.
pub open spec fn fill_gap(s: OrderState, label: Label, lower: int) -> OrderState {
    OrderState {
        labels: s.labels.push(label) + Seq::new(
            (lower - s.labels.len() - 1) as nat,
            |_k: int| Label::Gap,
        ),
        ..s
    }
}

/// One hole of the walk: hole `i + 1` of `n`, with blow note `top` and draw
/// note `bottom` in absolute pitch.
pub open spec fn hole_step(s: OrderState, top: int, bottom: int, i: int, n: int) -> OrderState {
    let hole = i + 1;
    let draw_higher = bottom > top;
    let lower = if draw_higher { top } else { bottom };
    let higher = if draw_higher { bottom } else { top };
    let previous = extended(i, lower_reed(s.last_draw_higher));
    let gap = lower > s.labels.len();
    let s1 = if gap { fill_gap(s, previous, lower) } else { s };
    let s2 = visit(s1, lower, plain(hole, lower_reed(draw_higher), 0), lower);
    let s3 = ladder(s2, hole, higher_reed(draw_higher), higher, higher - lower - 1);
    let s4 = visit(s3, higher, plain(hole, higher_reed(draw_higher), 0), lower);
    let s5 = if i == n - 1 && s4.labels.len() == higher + 1 {
        OrderState { labels: s4.labels.push(extended(hole, lower_reed(draw_higher))), ..s4 }
    } else {
        s4
    };
    let s6 = if !gap && i > 0 {
        if s.last_higher + 1 < s5.labels.len() {
            OrderState {
                duplicates: s5.duplicates.push((previous, s5.labels[s.last_higher + 1])),
                ..s5
            }
        } else {
            OrderState { stalled: true, ..s5 }
        }
    } else {
        s5
    };
    OrderState { last_draw_higher: draw_higher, last_higher: higher, ..s6 }
}

/// The walk over the first `i` holes; it stops where it stalls.
pub open spec fn walk_prefix(top: Seq<usize>, bottom: Seq<usize>, i: int) -> OrderState
    decreases i,
{
    if i <= 0 {
        initial_state()
    } else {
        let p = walk_prefix(top, bottom, i - 1);
        if p.stalled {
            p
        } else {
            hole_step(p, top[i - 1] as int, bottom[i - 1] as int, i - 1, top.len() as int)
        }
    }
}

/// The canonical order of fingerings of a whole instrument.
pub open spec fn ordering(top: Seq<usize>, bottom: Seq<usize>) -> OrderState {
    walk_prefix(top, bottom, top.len() as int)
}

proof fn lemma_ladder_keeps_flags(s: OrderState, hole: int, reed: Reed, higher: int, step: int)
    ensures
        ladder(s, hole, reed, higher, step).stalled == s.stalled,
        ladder(s, hole, reed, higher, step).last_draw_higher == s.last_draw_higher,
        ladder(s, hole, reed, higher, step).last_higher == s.last_higher,
    decreases step,
{
    if step > 0 {
        lemma_ladder_keeps_flags(
            visit(s, higher - step, plain(hole, reed, step), higher - step),
            hole,
            reed,
            higher,
            step - 1,
        );
    }
}

struct Walk {
    labels: Vec<Label>,
    duplicates: Vec<(Label, Label)>,
    last_draw_higher: bool,
    last_higher: usize,
}

impl Walk {
    spec fn state(&self) -> OrderState {
        OrderState {
            labels: self.labels@,
            duplicates: self.duplicates@,
            last_draw_higher: self.last_draw_higher,
            last_higher: self.last_higher as int,
            stalled: false,
        }
    }

    fn visit(&mut self, pitch: usize, label: Label, alt: usize)
        requires
            pitch < old(self).labels@.len() ==> alt < old(self).labels@.len(),
        ensures
            final(self).state() == visit(old(self).state(), pitch as int, label, alt as int),
    {
        if pitch >= self.labels.len() {
            self.labels.push(label);
        } else {
            let earlier = self.labels[alt];
            self.duplicates.push((label, earlier));
        }
    }

    fn climb(&mut self, hole: usize, reed: Reed, higher: usize, steps: usize)
        requires
            steps <= higher,
            old(self).labels@.len() >= higher - steps,
        ensures
            final(self).state() == ladder(
                old(self).state(),
                hole as int,
                reed,
                higher as int,
                steps as int,
            ),
            final(self).labels@.len() >= higher,
    {
        let ghost start = self.state();
        let mut step = steps;
        while step > 0
            invariant
                step <= steps <= higher,
                self.labels@.len() >= higher - step,
                ladder(self.state(), hole as int, reed, higher as int, step as int) == ladder(
                    start,
                    hole as int,
                    reed,
                    higher as int,
                    steps as int,
                ),
            decreases step,
        {
            let pitch = higher - step;
            self.visit(pitch, Label::Hole { hole, reed, bends: step, extended: false }, pitch);
            step = step - 1;
        }
    }

    fn hole(&mut self, top: usize, bottom: usize, i: usize, n: usize) -> (ok: bool)
        requires
            i < n,
        ensures
            ok == !hole_step(old(self).state(), top as int, bottom as int, i as int, n as int).stalled,
            ok ==> final(self).state() == hole_step(
                old(self).state(),
                top as int,
                bottom as int,
                i as int,
                n as int,
            ),
    {
        let ghost s = self.state();
        let draw_higher = bottom > top;
        let lower = if draw_higher { top } else { bottom };
        let higher = if draw_higher { bottom } else { top };
        let lower_reed = if draw_higher { Reed::Blow } else { Reed::Draw };
        let higher_reed = if draw_higher { Reed::Draw } else { Reed::Blow };
        let previous_reed = if self.last_draw_higher { Reed::Blow } else { Reed::Draw };
        let previous = Label::Hole { hole: i, reed: previous_reed, bends: 0, extended: true };
        let gap = lower > self.labels.len();
        if gap {
            self.labels.push(previous);
            while self.labels.len() < lower
                invariant
                    s.labels.len() < lower,
                    self.labels@.len() <= lower,
                    self.labels@ =~= s.labels.push(previous) + Seq::new(
                        (self.labels@.len() - s.labels.len() - 1) as nat,
                        |_k: int| Label::Gap,
                    ),
                    self.duplicates@ == s.duplicates,
                    self.last_draw_higher == s.last_draw_higher,
                    self.last_higher == s.last_higher,
                decreases lower - self.labels@.len(),
            {
                self.labels.push(Label::Gap);
            }
        }
        let ghost s1 = if gap { fill_gap(s, previous, lower as int) } else { s };
        assert(self.state() == s1);
        let hole = i + 1;
        self.visit(lower, Label::Hole { hole, reed: lower_reed, bends: 0, extended: false }, lower);
        let steps = if higher > lower { higher - lower - 1 } else { 0 };
        let ghost s2 = self.state();
        self.climb(hole, higher_reed, higher, steps);
        proof {
            lemma_ladder_keeps_flags(s2, hole as int, higher_reed, higher as int, steps as int);
            lemma_ladder_keeps_flags(s2, hole as int, higher_reed, higher as int, higher - lower - 1);
        }
        self.visit(higher, Label::Hole { hole, reed: higher_reed, bends: 0, extended: false }, lower);
        if i + 1 == n && self.labels.len() > 0 && self.labels.len() - 1 == higher {
            self.labels.push(Label::Hole { hole, reed: lower_reed, bends: 0, extended: true });
        }
        if !gap && i > 0 {
            if self.labels.len() > 0 && self.last_higher < self.labels.len() - 1 {
                let earlier = self.labels[self.last_higher + 1];
                self.duplicates.push((previous, earlier));
            } else {
                return false;
            }
        }
        self.last_draw_higher = draw_higher;
        self.last_higher = higher;
        true
    }
}

proof fn lemma_stall_persists(top: Seq<usize>, bottom: Seq<usize>, i: int, j: int)
    requires
        0 <= i <= j,
        walk_prefix(top, bottom, i).stalled,
    ensures
        walk_prefix(top, bottom, j) == walk_prefix(top, bottom, i),
    decreases j - i,
{
    if j > i {
        lemma_stall_persists(top, bottom, i, j - 1);
    }
}

/// Walks the holes in pitch order and labels every pitch that the instrument
/// reaches; a pitch reached again is reported with the label it already has.
pub fn order(top: &[usize], bottom: &[usize]) -> (r: Result<
    (Vec<Label>, Vec<(Label, Label)>),
    TuningError,
>)
    requires
        top@.len() == bottom@.len(),
    ensures
        match r {
            Ok((labels, duplicates)) => {
                &&& !ordering(top@, bottom@).stalled
                &&& labels@ == ordering(top@, bottom@).labels
                &&& duplicates@ == ordering(top@, bottom@).duplicates
            },
            Err(e) => e == TuningError::InconsistentOrdering && ordering(top@, bottom@).stalled,
        },
{
    let mut walk = Walk {
        labels: Vec::new(),
        duplicates: Vec::new(),
        last_draw_higher: true,
        last_higher: 0,
    };
    let mut i: usize = 0;
    while i < top.len()
        invariant
            i <= top@.len(),
            top@.len() == bottom@.len(),
            walk.state() == walk_prefix(top@, bottom@, i as int),
        decreases top@.len() - i,
    {
        let ok = walk.hole(top[i], bottom[i], i, top.len());
        if !ok {
            proof {
                lemma_stall_persists(top@, bottom@, i + 1, top@.len() as int);
            }
            return Err(TuningError::InconsistentOrdering);
        }
        i = i + 1;
    }
    Ok((walk.labels, walk.duplicates))
}

/// The higher of the two notes of hole index `i`.
pub open spec fn higher_at(top: Seq<usize>, bottom: Seq<usize>, i: int) -> int {
    if bottom[i] > top[i] {
        bottom[i] as int
    } else {
        top[i] as int
    }
}

/// The highest of the higher notes of the holes before hole index `i`.
pub open spec fn max_higher(top: Seq<usize>, bottom: Seq<usize>, i: int) -> int
    decreases i,
{
    if i <= 1 {
        higher_at(top, bottom, 0)
    } else {
        let m = max_higher(top, bottom, i - 1);
        let h = higher_at(top, bottom, i - 1);
        if h > m {
            h
        } else {
            m
        }
    }
}

/// The walk stalls at hole index `i`: the hole before it has the highest
/// higher note so far, hole `i` reaches no pitch above it, and hole `i` is not
/// the last hole, whose overblow or overdraw would name that pitch, with an
/// equal higher note.
pub open spec fn stalls_at(top: Seq<usize>, bottom: Seq<usize>, i: int) -> bool {
    &&& 1 <= i < top.len()
    &&& max_higher(top, bottom, i) == higher_at(top, bottom, i - 1)
    &&& higher_at(top, bottom, i) <= higher_at(top, bottom, i - 1)
    &&& !(i == top.len() - 1 && higher_at(top, bottom, i) == higher_at(top, bottom, i - 1))
}

proof fn lemma_ladder_length(s: OrderState, hole: int, reed: Reed, higher: int, step: int)
    requires
        0 <= step,
        s.labels.len() >= higher - step,
    ensures
        ladder(s, hole, reed, higher, step).labels.len() == if s.labels.len() >= higher {
            s.labels.len() as int
        } else {
            higher
        },
    decreases step,
{
    if step > 0 {
        lemma_ladder_length(
            visit(s, higher - step, plain(hole, reed, step), higher - step),
            hole,
            reed,
            higher,
            step - 1,
        );
    }
}

proof fn lemma_hole_step_shape(s: OrderState, top: int, bottom: int, i: int, n: int)
    requires
        0 <= top,
        0 <= bottom,
        0 <= i,
        !s.stalled,
    ensures
        ({
            let higher = if bottom > top { bottom } else { top };
            let lower = if bottom > top { top } else { bottom };
            let len = s.labels.len() as int;
            let reached = if len >= higher + 1 { len } else { higher + 1 };
            let last = if i == n - 1 && reached == higher + 1 { reached + 1 } else { reached };
            let r = hole_step(s, top, bottom, i, n);
            &&& r.last_higher == higher
            &&& r.labels.len() == last
            &&& r.stalled == (lower <= len && i > 0 && s.last_higher + 1 >= last)
        }),
{
    let draw_higher = bottom > top;
    let lower = if draw_higher { top } else { bottom };
    let higher = if draw_higher { bottom } else { top };
    let previous = extended(i, lower_reed(s.last_draw_higher));
    let gap = lower > s.labels.len();
    let s1 = if gap { fill_gap(s, previous, lower) } else { s };
    let s2 = visit(s1, lower, plain(i + 1, lower_reed(draw_higher), 0), lower);
    assert(s2.labels.len() == if s.labels.len() >= lower + 1 { s.labels.len() as int } else { lower + 1 });
    lemma_ladder_length(s2, i + 1, higher_reed(draw_higher), higher, if higher > lower { higher - lower - 1 } else { 0 });
    lemma_ladder_keeps_flags(s2, i + 1, higher_reed(draw_higher), higher, higher - lower - 1);
}

proof fn lemma_prefix_shape(top: Seq<usize>, bottom: Seq<usize>, i: int)
    requires
        top.len() == bottom.len(),
        0 <= i <= top.len(),
    ensures
        walk_prefix(top, bottom, i).stalled <==> exists|j: int| 1 <= j < i && #[trigger] stalls_at(top, bottom, j),
        !walk_prefix(top, bottom, i).stalled && 1 <= i < top.len() ==> {
            &&& walk_prefix(top, bottom, i).labels.len() == max_higher(top, bottom, i) + 1
            &&& walk_prefix(top, bottom, i).last_higher == higher_at(top, bottom, i - 1)
        },
        i == 0 ==> walk_prefix(top, bottom, i).labels.len() == 0,
    decreases i,
{
    if i > 0 {
        lemma_prefix_shape(top, bottom, i - 1);
        let p = walk_prefix(top, bottom, i - 1);
        if p.stalled {
            let j = choose|j: int| 1 <= j < i - 1 && #[trigger] stalls_at(top, bottom, j);
            assert(1 <= j < i && stalls_at(top, bottom, j));
        } else {
            let n = top.len() as int;
            lemma_hole_step_shape(p, top[i - 1] as int, bottom[i - 1] as int, i - 1, n);
            assert(walk_prefix(top, bottom, i) == hole_step(p, top[i - 1] as int, bottom[i - 1] as int, i - 1, n));
            if walk_prefix(top, bottom, i).stalled {
                assert(stalls_at(top, bottom, i - 1));
            } else {
                assert forall|j: int| 1 <= j < i implies !#[trigger] stalls_at(top, bottom, j) by {
                    if j == i - 1 {
                        assert(!stalls_at(top, bottom, i - 1));
                    }
                }
            }
        }
    }
}

/// The walk completes exactly when no hole stalls it: every lookup of an
/// earlier label then finds one, and the walk fails only at a stalling hole.
pub proof fn lemma_ordering_completes(top: Seq<usize>, bottom: Seq<usize>)
    requires
        top.len() == bottom.len(),
    ensures
        ordering(top, bottom).stalled <==> exists|j: int| #[trigger] stalls_at(top, bottom, j),
{
    lemma_prefix_shape(top, bottom, top.len() as int);
    if ordering(top, bottom).stalled {
        let j = choose|j: int| 1 <= j < top.len() && #[trigger] stalls_at(top, bottom, j);
        assert(stalls_at(top, bottom, j));
    } else {
        assert forall|j: int| !#[trigger] stalls_at(top, bottom, j) by {
            if 1 <= j < top.len() {
            }
        }
    }
}

/// The labels as they are written.
pub open spec fn label_texts(labels: Seq<Label>) -> Seq<Seq<char>> {
    labels.map_values(|l: Label| label_text(l))
}

/// The duplicate pairs as one stream of written labels: each new fingering
/// followed by the label that already names its pitch.
pub open spec fn pair_texts(pairs: Seq<(Label, Label)>) -> Seq<Seq<char>> {
    Seq::new(
        2 * pairs.len(),
        |k: int|
            if k % 2 == 0 {
                label_text(pairs[k / 2].0)
            } else {
                label_text(pairs[k / 2].1)
            },
    )
}

pub open spec fn string_views(v: Seq<String>) -> Seq<Seq<char>> {
    v.map_values(|s: String| s@)
}

/// The canonical order of fingerings and the duplicate stream, written out.
pub fn notes_in_order(top: &[usize], bottom: &[usize]) -> (r: Result<
    (Vec<String>, Vec<String>),
    TuningError,
>)
    requires
        top@.len() == bottom@.len(),
    ensures
        match r {
            Ok((names, duplicates)) => {
                &&& !ordering(top@, bottom@).stalled
                &&& string_views(names@) == label_texts(ordering(top@, bottom@).labels)
                &&& string_views(duplicates@) == pair_texts(ordering(top@, bottom@).duplicates)
            },
            Err(e) => e == TuningError::InconsistentOrdering && ordering(top@, bottom@).stalled,
        },
{
    let (labels, pairs) = match order(top, bottom) {
        Ok(found) => found,
        Err(e) => {
            return Err(e);
        },
    };
    let mut names: Vec<String> = Vec::new();
    let mut k: usize = 0;
    while k < labels.len()
        invariant
            k <= labels@.len(),
            names@.len() == k,
            forall|j: int| 0 <= j < k ==> #[trigger] names@[j]@ == label_text(labels@[j]),
        decreases labels@.len() - k,
    {
        names.push(labels[k].text());
        k = k + 1;
    }
    let mut duplicates: Vec<String> = Vec::new();
    let mut k: usize = 0;
    while k < pairs.len()
        invariant
            k <= pairs@.len(),
            duplicates@.len() == 2 * k,
            forall|j: int|
                0 <= j < 2 * k ==> #[trigger] duplicates@[j]@ == pair_texts(pairs@)[j],
        decreases pairs@.len() - k,
    {
        let (fresh, earlier) = pairs[k];
        duplicates.push(fresh.text());
        duplicates.push(earlier.text());
        k = k + 1;
    }
    assert(string_views(names@) =~= label_texts(labels@));
    assert(string_views(duplicates@) =~= pair_texts(pairs@));
    Ok((names, duplicates))
}

} // verus!
