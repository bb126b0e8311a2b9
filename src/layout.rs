//! The rows of a layout as they are shown: each note named by scale degree
//! or by note name, and marked when it belongs to the chosen scale.
use vstd::prelude::*;
use crate::label::{decimal, decimal_string};
use crate::notes::{scale_degree, to_scale_degree, ChromaticScale};
use crate::scales::{is_scale_note, lookup_scale, scale_table};
use crate::tuning::Tuning;

verus! {

/// What the shown layout is for: the scale to mark, if any, and the position
/// played in (1 to 12).
pub struct Setup<'a> {
    pub scale: Option<&'a str>,
    pub position: usize,
}

/// Whether `degree` belongs to the scale, if one is chosen.
pub open spec fn marked(scale: Option<&str>, degree: Seq<char>) -> bool {
    match scale {
        Some(name) => match lookup_scale(scale_table(), name@) {
            Some(d) => d.contains(degree),
            None => false,
        },
        None => false,
    }
}

/// A shown cell as characters and mark.
pub open spec fn cell_view(c: Option<(String, bool)>) -> Option<(Seq<char>, bool)> {
    match c {
        Some((text, mark)) => Some((text@, mark)),
        None => None,
    }
}

/// The cell of a note shown by its scale degree.
pub open spec fn degree_cell(note: Option<usize>, scale: Option<&str>, position: int) -> Option<
    (Seq<char>, bool),
> {
    match note {
        Some(x) => Some(
            (scale_degree(x as int, position), marked(scale, scale_degree(x as int, position))),
        ),
        None => None,
    }
}

/// The cell of a note shown by its name in `names`.
pub open spec fn name_cell(
    note: Option<usize>,
    names: Seq<Seq<char>>,
    scale: Option<&str>,
    position: int,
) -> Option<(Seq<char>, bool)> {
    match note {
        Some(x) => Some((names[x as int], marked(scale, scale_degree(x as int, position)))),
        None => None,
    }
}

fn mark(scale: Option<&str>, degree: &str) -> (r: bool)
    ensures
        r == marked(scale, degree@),
{
    match scale {
        Some(name) => is_scale_note(degree, name),
        None => false,
    }
}

impl Tuning {
    /// Shows a row by scale degrees, marking those of the chosen scale.
    pub fn get_row_degrees(row: &[Option<usize>], setup: &Setup) -> (r: Vec<Option<(String, bool)>>)
        requires
            setup.position >= 1,
        ensures
            r@.len() == row@.len(),
            forall|k: int|
                0 <= k < row@.len() ==> #[trigger] cell_view(r@[k]) == degree_cell(
                    row@[k],
                    setup.scale,
                    setup.position as int,
                ),
    {
        let mut res: Vec<Option<(String, bool)>> = Vec::new();
        let mut k: usize = 0;
        while k < row.len()
            invariant
                setup.position >= 1,
                k <= row@.len(),
                res@.len() == k,
                forall|j: int|
                    0 <= j < k ==> #[trigger] cell_view(res@[j]) == degree_cell(
                        row@[j],
                        setup.scale,
                        setup.position as int,
                    ),
            decreases row@.len() - k,
        {
            match row[k] {
                Some(note_index) => {
                    let degree = to_scale_degree(note_index, setup.position);
                    let is_scale_note = mark(setup.scale, degree.as_str());
                    res.push(Some((degree, is_scale_note)));
                },
                None => {
                    res.push(None);
                },
            }
            k = k + 1;
        }
        res
    }

    /// Shows a row by note names of the scale from `root`, marking the notes
    /// whose scale degree belongs to the chosen scale.
    pub fn get_row_notes(indices: &[Option<usize>], root: &ChromaticScale, setup: &Setup) -> (r: Vec<
        Option<(String, bool)>,
    >)
        requires
            setup.position >= 1,
            forall|k: int| 0 <= k < indices@.len() && #[trigger] indices@[k] is Some ==> indices@[k]->0 < 12,
        ensures
            r@.len() == indices@.len(),
            forall|k: int|
                0 <= k < indices@.len() ==> #[trigger] cell_view(r@[k]) == name_cell(
                    indices@[k],
                    root.names(),
                    setup.scale,
                    setup.position as int,
                ),
    {
        let mut res: Vec<Option<(String, bool)>> = Vec::new();
        let mut k: usize = 0;
        while k < indices.len()
            invariant
                setup.position >= 1,
                forall|j: int| 0 <= j < indices@.len() && #[trigger] indices@[j] is Some ==> indices@[j]->0 < 12,
                k <= indices@.len(),
                res@.len() == k,
                forall|j: int|
                    0 <= j < k ==> #[trigger] cell_view(res@[j]) == name_cell(
                        indices@[j],
                        root.names(),
                        setup.scale,
                        setup.position as int,
                    ),
            decreases indices@.len() - k,
        {
            match indices[k] {
                Some(note_index) => {
                    assert(indices@[k as int] is Some);
                    let note = root.0[note_index].to_owned();
                    let degree = to_scale_degree(note_index, setup.position);
                    let is_scale_note = mark(setup.scale, degree.as_str());
                    res.push(Some((note, is_scale_note)));
                },
                None => {
                    res.push(None);
                },
            }
            k = k + 1;
        }
        res
    }
}

/// The hole numbers under a layout of `len` holes, each in a cell four
/// characters wide; a layout always numbers at least its first hole.
pub open spec fn number_row(len: nat) -> Seq<char>
    decreases len,
{
    if len <= 1 {
        "1"@
    } else {
        number_row((len - 1) as nat) + if len - 1 < 10 {
            "   "@
        } else {
            "  "@
        } + decimal(len)
    }
}

/// The hole numbers under a layout of `len` holes.
pub fn hole_numbers(len: usize) -> (r: String)
    ensures
        r@ == number_row(len as nat),
{
    let mut numbers = String::from_str("1");
    let mut i: usize = 1;
    while i < len
        invariant
            1 <= i <= len || (i == 1 && len <= 1),
            numbers@ == number_row(i as nat),
        decreases len - i,
    {
        if i < 10 {
            numbers.append("   ");
        } else {
            numbers.append("  ");
        }
        let next = decimal_string(i + 1);
        numbers.append(next.as_str());
        i = i + 1;
    }
    numbers
}

/// The English ordinal of `n`: 1st, 2nd, 3rd, and `th` after any other number.
pub open spec fn ordinal(n: nat) -> Seq<char> {
    decimal(n) + if n == 1 {
        "st"@
    } else if n == 2 {
        "nd"@
    } else if n == 3 {
        "rd"@
    } else {
        "th"@
    }
}

/// The ordinal of `n` as a string.
pub fn to_ordinal(n: usize) -> (r: String)
    ensures
        r@ == ordinal(n as nat),
{
    let suffix = if n == 1 {
        "st"
    } else if n == 2 {
        "nd"
    } else if n == 3 {
        "rd"
    } else {
        "th"
    };
    let mut s = decimal_string(n);
    s.append(suffix);
    s
}

/// The caption of an exported layout: the root and the tuning, the marked
/// scale if there is one, and the position.
pub open spec fn caption(
    tuning_name: Seq<char>,
    root: Option<Seq<char>>,
    scale: Option<Seq<char>>,
    position: nat,
) -> Seq<char> {
    let kind = match root {
        Some(r) => r + " "@ + tuning_name + " harmonica"@,
        None => tuning_name + " harmonica"@,
    };
    let scale_text = match scale {
        Some(s) => ", "@ + s + " scale"@,
        None => Seq::empty(),
    };
    kind + scale_text + ", "@ + ordinal(position) + " position"@
}

pub open spec fn root_name(root: &Option<ChromaticScale>) -> Option<Seq<char>> {
    match root {
        Some(scale) => Some(scale.names()[0]),
        None => None,
    }
}

pub open spec fn scale_name(scale: Option<&str>) -> Option<Seq<char>> {
    match scale {
        Some(s) => Some(s@),
        None => None,
    }
}

/// The caption of an exported layout.
pub fn get_caption(tuning_name: &str, root: &Option<ChromaticScale>, setup: &Setup) -> (r: String)
    ensures
        r@ == caption(tuning_name@, root_name(root), scale_name(setup.scale), setup.position as nat),
{
    let mut s = String::new();
    match root {
        Some(scale) => {
            s.append(scale.0[0]);
            s.append(" ");
        },
        None => {},
    }
    s.append(tuning_name);
    s.append(" harmonica");
    match setup.scale {
        Some(name) => {
            s.append(", ");
            s.append(name);
            s.append(" scale");
        },
        None => {},
    }
    s.append(", ");
    let ordinal = to_ordinal(setup.position);
    s.append(ordinal.as_str());
    s.append(" position");
    assert(s@ =~= caption(tuning_name@, root_name(root), scale_name(setup.scale), setup.position as nat));
    s
}

} // verus!
