//! Tunings known by name, each written as two lines of note names.
use vstd::prelude::*;
use crate::text::same_text;

verus! {

/// Every known tuning by name, with its text.
pub open spec fn tuning_table() -> Seq<(Seq<char>, Seq<char>)> {
    seq![
        ("richter"@, "C E G C E G C E G C\nD G B D F A B D F A\n"@),
        ("country"@, "C E G C E G C E G C\nD G B D F# A B D F A\n"@),
        ("wilde tuning"@, "C E G C E E G C E A\nD G B D F G B D G C\n"@),
        ("wilde minor tuning"@, "C Eb G C Eb Eb G C Eb A\nD G Bb D F G Bb D G C\n"@),
        ("melody maker"@, "C E A C E G C E G C\nD G B D F# A B D F# A\n"@),
        ("natural minor"@, "C Eb G C Eb G C Eb G C\nD G Bb D F A Bb D F A\n"@),
        ("harmonic minor"@, "C Eb G C Eb G C Eb G C\nD G B D F Ab B D F Ab\n"@),
        ("paddy richter"@, "C E A C E G C E G C\nD G B D F A B D F A\n"@),
        ("pentaharp"@, "A D E A D E A D E A\nC Eb G C Eb G C Eb G C"@),
        ("powerdraw"@, "C E G C E G A C E A\nD G B D F A B D G C"@),
        ("powerbender"@, "C E G C D F A C E A\nD G B D E G B D G C"@),
        ("diminished"@, "C Eb Gb A C Eb Gb A C Eb\nD F Ab B D F Ab B D F"@),
        ("spiral"@, "C E G B D F A C E G\nD F A C E G B D F A"@),
        ("lucky 13 diminished"@, "A C Eb Gb A C Eb Gb A C Eb Gb A\nB D F Ab B D F Ab B D F Ab B"@),
        ("lucky 13 powerchromatic"@, "C D F A C D F A C D F A C\nD E G B D E G B D E G B D"@),
        ("easy 3rd"@, "C E G C E G C E G C\nD F A D F A B D F A"@),
        ("4 hole richter"@, "C E G C\nD F A B"@),
        ("5 hole richter"@, "C E G C E\nD F A B D"@),
    ]
}

/// The text of the first tuning called `name`.
pub open spec fn lookup_tuning(table: Seq<(Seq<char>, Seq<char>)>, name: Seq<char>) -> Option<
    Seq<char>,
>
    decreases table.len(),
{
    if table.len() == 0 {
        None
    } else if table[0].0 == name {
        Some(table[0].1)
    } else {
        lookup_tuning(table.drop_first(), name)
    }
}

pub open spec fn tuning_entries(v: Seq<(&'static str, &'static str)>) -> Seq<(Seq<char>, Seq<char>)> {
    v.map_values(|e: (&'static str, &'static str)| (e.0@, e.1@))
}

/// Every known tuning by name, with its text.
pub fn get_tunings() -> (r: Vec<(&'static str, &'static str)>)
    ensures
        tuning_entries(r@) == tuning_table(),
{
    let r = vec![
        ("richter", "C E G C E G C E G C\nD G B D F A B D F A\n"),
        ("country", "C E G C E G C E G C\nD G B D F# A B D F A\n"),
        ("wilde tuning", "C E G C E E G C E A\nD G B D F G B D G C\n"),
        ("wilde minor tuning", "C Eb G C Eb Eb G C Eb A\nD G Bb D F G Bb D G C\n"),
        ("melody maker", "C E A C E G C E G C\nD G B D F# A B D F# A\n"),
        ("natural minor", "C Eb G C Eb G C Eb G C\nD G Bb D F A Bb D F A\n"),
        ("harmonic minor", "C Eb G C Eb G C Eb G C\nD G B D F Ab B D F Ab\n"),
        ("paddy richter", "C E A C E G C E G C\nD G B D F A B D F A\n"),
        ("pentaharp", "A D E A D E A D E A\nC Eb G C Eb G C Eb G C"),
        ("powerdraw", "C E G C E G A C E A\nD G B D F A B D G C"),
        ("powerbender", "C E G C D F A C E A\nD G B D E G B D G C"),
        ("diminished", "C Eb Gb A C Eb Gb A C Eb\nD F Ab B D F Ab B D F"),
        ("spiral", "C E G B D F A C E G\nD F A C E G B D F A"),
        ("lucky 13 diminished", "A C Eb Gb A C Eb Gb A C Eb Gb A\nB D F Ab B D F Ab B D F Ab B"),
        ("lucky 13 powerchromatic", "C D F A C D F A C D F A C\nD E G B D E G B D E G B D"),
        ("easy 3rd", "C E G C E G C E G C\nD F A D F A B D F A"),
        ("4 hole richter", "C E G C\nD F A B"),
        ("5 hole richter", "C E G C E\nD F A B D"),
    ];
    assert(tuning_entries(r@) =~~= tuning_table());
    r
}

/// The text of the tuning called `name`, if there is one.
pub fn find_tuning(name: &str) -> (r: Option<&'static str>)
    ensures
        match r {
            Some(text) => lookup_tuning(tuning_table(), name@) == Some(text@),
            None => lookup_tuning(tuning_table(), name@) is None,
        },
{
    let tunings = get_tunings();
    let mut i: usize = 0;
    assert(tuning_table().skip(0) =~= tuning_table());
    while i < tunings.len()
        invariant
            i <= tunings@.len(),
            tuning_entries(tunings@) == tuning_table(),
            lookup_tuning(tuning_table(), name@) == lookup_tuning(tuning_table().skip(i as int), name@),
        decreases tunings@.len() - i,
    {
        assert(tuning_table().skip(i as int).drop_first() =~= tuning_table().skip(i + 1));
        let (tuning_name, text) = tunings[i];
        if same_text(tuning_name, name) {
            return Some(text);
        }
        i = i + 1;
    }
    None
}

} // verus!
