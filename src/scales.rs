//! Scales, as the scale degrees they hold.
use vstd::prelude::*;
use crate::notes::{find_name, str_views};

verus! {

/// Every known scale by name, in order of name, with its scale degrees.
pub open spec fn scale_table() -> Seq<(Seq<char>, Seq<Seq<char>>)> {
    seq![
        ("acoustic"@, seq!["1"@, "2"@, "3"@, "#4"@, "5"@, "6"@, "b7"@]),
        ("aeolian"@, seq!["1"@, "2"@, "b3"@, "4"@, "5"@, "b6"@, "b7"@]),
        ("arabic"@, seq!["1"@, "b2"@, "3"@, "4"@, "5"@, "b6"@, "7"@]),
        ("blues"@, seq!["1"@, "b3"@, "4"@, "#4"@, "5"@, "b7"@]),
        ("dorian"@, seq!["1"@, "2"@, "b3"@, "4"@, "5"@, "6"@, "b7"@]),
        ("double harmonic"@, seq!["1"@, "b2"@, "3"@, "4"@, "5"@, "b6"@, "7"@]),
        ("harmonic minor"@, seq!["1"@, "2"@, "b3"@, "4"@, "5"@, "b6"@, "7"@]),
        ("ionian"@, seq!["1"@, "2"@, "3"@, "4"@, "5"@, "6"@, "7"@]),
        ("locrian"@, seq!["1"@, "b2"@, "b3"@, "4"@, "#4"@, "b6"@, "b7"@]),
        ("lydian"@, seq!["1"@, "2"@, "3"@, "#4"@, "5"@, "6"@, "7"@]),
        ("lydian dominant"@, seq!["1"@, "2"@, "3"@, "#4"@, "5"@, "6"@, "b7"@]),
        ("major"@, seq!["1"@, "2"@, "3"@, "4"@, "5"@, "6"@, "7"@]),
        ("major blues"@, seq!["1"@, "2"@, "b3"@, "3"@, "5"@, "6"@]),
        ("major pentatonic"@, seq!["1"@, "2"@, "3"@, "5"@, "6"@]),
        ("melodic minor"@, seq!["1"@, "2"@, "b3"@, "4"@, "5"@, "6"@, "7"@]),
        ("minor"@, seq!["1"@, "2"@, "b3"@, "4"@, "5"@, "b6"@, "b7"@]),
        ("minor blues"@, seq!["1"@, "b3"@, "4"@, "#4"@, "5"@, "b7"@]),
        ("minor pentatonic"@, seq!["1"@, "b3"@, "4"@, "5"@, "b7"@]),
        ("mixolydian"@, seq!["1"@, "2"@, "3"@, "4"@, "5"@, "6"@, "b7"@]),
        ("natural minor"@, seq!["1"@, "2"@, "b3"@, "4"@, "5"@, "b6"@, "b7"@]),
        ("phrygian"@, seq!["1"@, "b2"@, "b3"@, "4"@, "5"@, "b6"@, "b7"@]),
        ("phrygian dominant"@, seq!["1"@, "b2"@, "3"@, "4"@, "5"@, "b6"@, "b7"@]),
    ]
}

/// The scale degrees of the first scale called `name`.
pub open spec fn lookup_scale(table: Seq<(Seq<char>, Seq<Seq<char>>)>, name: Seq<char>) -> Option<
    Seq<Seq<char>>,
>
    decreases table.len(),
{
    if table.len() == 0 {
        None
    } else if table[0].0 == name {
        Some(table[0].1)
    } else {
        lookup_scale(table.drop_first(), name)
    }
}

pub open spec fn scale_entries(v: Seq<(&'static str, Vec<&'static str>)>) -> Seq<
    (Seq<char>, Seq<Seq<char>>),
> {
    v.map_values(|e: (&'static str, Vec<&'static str>)| (e.0@, str_views(e.1@)))
}

/// Every known scale by name, in order of name, with its scale degrees.
pub fn get_scales() -> (r: Vec<(&'static str, Vec<&'static str>)>)
    ensures
        scale_entries(r@) == scale_table(),
{
    let r = vec![
        ("acoustic", vec!["1", "2", "3", "#4", "5", "6", "b7"]),
        ("aeolian", vec!["1", "2", "b3", "4", "5", "b6", "b7"]),
        ("arabic", vec!["1", "b2", "3", "4", "5", "b6", "7"]),
        ("blues", vec!["1", "b3", "4", "#4", "5", "b7"]),
        ("dorian", vec!["1", "2", "b3", "4", "5", "6", "b7"]),
        ("double harmonic", vec!["1", "b2", "3", "4", "5", "b6", "7"]),
        ("harmonic minor", vec!["1", "2", "b3", "4", "5", "b6", "7"]),
        ("ionian", vec!["1", "2", "3", "4", "5", "6", "7"]),
        ("locrian", vec!["1", "b2", "b3", "4", "#4", "b6", "b7"]),
        ("lydian", vec!["1", "2", "3", "#4", "5", "6", "7"]),
        ("lydian dominant", vec!["1", "2", "3", "#4", "5", "6", "b7"]),
        ("major", vec!["1", "2", "3", "4", "5", "6", "7"]),
        ("major blues", vec!["1", "2", "b3", "3", "5", "6"]),
        ("major pentatonic", vec!["1", "2", "3", "5", "6"]),
        ("melodic minor", vec!["1", "2", "b3", "4", "5", "6", "7"]),
        ("minor", vec!["1", "2", "b3", "4", "5", "b6", "b7"]),
        ("minor blues", vec!["1", "b3", "4", "#4", "5", "b7"]),
        ("minor pentatonic", vec!["1", "b3", "4", "5", "b7"]),
        ("mixolydian", vec!["1", "2", "3", "4", "5", "6", "b7"]),
        ("natural minor", vec!["1", "2", "b3", "4", "5", "b6", "b7"]),
        ("phrygian", vec!["1", "b2", "b3", "4", "5", "b6", "b7"]),
        ("phrygian dominant", vec!["1", "b2", "3", "4", "5", "b6", "b7"]),
    ];
    assert(scale_entries(r@) =~~= scale_table());
    r
}

/// The scale degrees of the scale called `name`, if there is one.
pub fn scale_degrees(name: &str) -> (r: Option<Vec<&'static str>>)
    ensures
        match r {
            Some(d) => lookup_scale(scale_table(), name@) == Some(str_views(d@)),
            None => lookup_scale(scale_table(), name@) is None,
        },
{
    let scales = get_scales();
    let mut i: usize = 0;
    assert(scale_table().skip(0) =~= scale_table());
    while i < scales.len()
        invariant
            i <= scales@.len(),
            scale_entries(scales@) == scale_table(),
            lookup_scale(scale_table(), name@) == lookup_scale(scale_table().skip(i as int), name@),
        decreases scales@.len() - i,
    {
        assert(scale_table().skip(i as int).drop_first() =~= scale_table().skip(i + 1));
        let (scale_name, degrees) = &scales[i];
        if crate::text::same_text(scale_name, name) {
            return Some(degrees.clone());
        }
        i = i + 1;
    }
    None
}

/// Whether scale degree `note` belongs to the scale called `scale`; an
/// unknown scale holds no degree.
pub fn is_scale_note(note: &str, scale: &str) -> (r: bool)
    ensures
        r == match lookup_scale(scale_table(), scale@) {
            Some(d) => d.contains(note@),
            None => false,
        },
{
    match scale_degrees(scale) {
        Some(degrees) => find_name(degrees.as_slice(), note).is_some(),
        None => false,
    }
}

} // verus!
