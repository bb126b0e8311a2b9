use harptool::scales::{get_scales, is_scale_note, scale_degrees};
use harptool::tunings::{find_tuning, get_tunings};
use harptool::{
    adjust_octaves, get_caption, notes_in_order, order, str_to_notes_in_order, str_to_rows,
    to_ordinal, to_scale_degree, ChromaticScale, Label, Reed, Setup, Tuning, TuningError,
};

#[test]
fn ascending_row_is_left_as_it_is() {
    let row = vec![0, 2, 5, 7, 11];
    assert_eq!(adjust_octaves(&row), row);
    let empty: Vec<usize> = Vec::new();
    assert_eq!(adjust_octaves(&empty), empty);
}

#[test]
fn first_note_is_compared_against_zero() {
    assert_eq!(adjust_octaves(&[5, 5, 3, 0]), vec![5, 5, 15, 24]);
}

#[test]
fn richter_rows_derive_the_richter_layout() {
    let t = Tuning::new(
        vec![0, 4, 7, 0, 4, 7, 0, 4, 7, 0],
        vec![2, 7, 11, 2, 5, 9, 11, 2, 5, 9],
    )
    .unwrap();
    assert_eq!(
        t.bends_half,
        vec![Some(1), Some(6), Some(10), Some(1), None, Some(8), None, None, None, None]
    );
    assert_eq!(t.bends_full, vec![None, Some(5), Some(9), None, None, None, None, None, None, None]);
    assert_eq!(
        t.bends_one_and_half,
        vec![None, None, Some(8), None, None, None, None, None, None, None]
    );
    assert_eq!(
        t.blow_bends_half,
        vec![None, None, None, None, None, None, None, Some(3), Some(6), Some(11)]
    );
    assert_eq!(
        t.blow_bends_full,
        vec![None, None, None, None, None, None, None, None, None, Some(10)]
    );
    assert_eq!(
        t.overblows,
        vec![Some(3), None, None, Some(3), Some(6), Some(10), None, None, None, None]
    );
    assert_eq!(
        t.overdraws,
        vec![None, None, None, None, None, None, Some(1), None, Some(8), Some(1)]
    );
}

#[test]
fn richter_canonical_order_and_duplicates() {
    let (notes, duplicates) =
        str_to_notes_in_order("C E G C E G C E G C\nD G B D F A B D F A\n").unwrap();
    assert_eq!(notes.len(), 38);
    assert_eq!(
        &notes[..13],
        ["1", "-1'", "-1", "1o", "2", "-2''", "-2'", "-2", "-3'''", "-3''", "-3'", "-3", "4"]
    );
    assert_eq!(&notes[notes.len() - 2..], ["10", "-10o"]);
    assert_eq!(duplicates, ["3", "-2", "2o", "-3'''", "3o", "4", "-8o", "-9"]);
}

#[test]
fn derivation_is_repeatable() {
    let first = Tuning::new(vec![0, 4, 7, 0, 4, 4], vec![2, 7, 11, 2, 5, 7]).unwrap();
    let second = Tuning::new(vec![0, 4, 7, 0, 4, 4], vec![2, 7, 11, 2, 5, 7]).unwrap();
    assert_eq!(first, second);
}

#[test]
fn bend_families_never_share_a_hole() {
    for (name, text) in get_tunings() {
        let t = Tuning::from_text(text).unwrap();
        for i in 0..t.blow.len() {
            let draw_bent = t.bends_half[i].is_some()
                || t.bends_full[i].is_some()
                || t.bends_one_and_half[i].is_some();
            let blow_bent = t.blow_bends_half[i].is_some() || t.blow_bends_full[i].is_some();
            assert!(!(draw_bent && blow_bent), "{} hole {}", name, i + 1);
        }
    }
}

#[test]
fn ordering_fails_only_where_a_hole_stalls() {
    // every pair of rows of three pitch classes out of a few values
    let values = [0usize, 2, 4, 7, 11];
    for a in values {
        for b in values {
            for c in values {
                for d in values {
                    let top = adjust_octaves(&[a, b, c]);
                    let bottom = adjust_octaves(&[d, c, b]);
                    let res = order(&top, &bottom);
                    let higher: Vec<usize> =
                        (0..3).map(|i| top[i].max(bottom[i])).collect();
                    let stalls = (1..3).any(|i| {
                        let running = higher[..i].iter().copied().max().unwrap();
                        running == higher[i - 1]
                            && higher[i] <= higher[i - 1]
                            && !(i == 2 && higher[i] == higher[i - 1])
                    });
                    assert_eq!(res.is_err(), stalls, "{:?} {:?}", top, bottom);
                }
            }
        }
    }
}

#[test]
fn a_stalling_tuning_is_rejected() {
    assert_eq!(
        order(&[0, 0, 0], &[2, 2, 2]),
        Err(TuningError::InconsistentOrdering)
    );
    assert_eq!(
        Tuning::new(vec![0, 0, 0], vec![2, 2, 2]),
        Err(TuningError::InconsistentOrdering)
    );
}

#[test]
fn four_hole_tuning_derives_and_orders() {
    let t = Tuning::new(vec![0, 4, 7, 0], vec![2, 5, 7, 11]).unwrap();
    assert_eq!(t.blow.len(), 4);
    let top = adjust_octaves(&[0, 4, 7, 0]);
    let bottom = adjust_octaves(&[2, 5, 7, 11]);
    let (notes, _) = notes_in_order(&top, &bottom).unwrap();
    assert!(!notes.is_empty());
    let (notes, _) = str_to_notes_in_order("C E G C\nD F A B").unwrap();
    assert_eq!(notes.last().unwrap(), "-4o");
}

#[test]
fn malformed_rows_are_rejected() {
    assert_eq!(Tuning::new(vec![0, 4], vec![2]), Err(TuningError::MalformedTuningRow));
    assert_eq!(Tuning::new(vec![], vec![]), Err(TuningError::MalformedTuningRow));
    assert_eq!(str_to_rows("C E G"), Err(TuningError::MalformedTuningRow));
    assert_eq!(str_to_rows(""), Err(TuningError::MalformedTuningRow));
    assert_eq!(str_to_rows("C E G\nD H B"), Err(TuningError::MalformedTuningRow));
    assert_eq!(
        str_to_notes_in_order("C E G\nD G"),
        Err(TuningError::MalformedTuningRow)
    );
}

#[test]
fn roots_are_checked() {
    assert_eq!(ChromaticScale::new("H", None).unwrap_err(), TuningError::InvalidRootNote);
    assert_eq!(
        ChromaticScale::new("Bb", Some(true)).unwrap_err(),
        TuningError::SharpFlatConflict
    );
    assert_eq!(
        ChromaticScale::new("F#", Some(false)).unwrap_err(),
        TuningError::SharpFlatConflict
    );
    assert_eq!(ChromaticScale::new("E#", None).unwrap_err(), TuningError::InvalidRootNote);
    let f = ChromaticScale::new("F", None).unwrap();
    assert_eq!(f.0, ["F", "Gb", "G", "Ab", "A", "Bb", "B", "C", "Db", "D", "Eb", "E"]);
    let a = ChromaticScale::new("A", None).unwrap();
    assert_eq!(a.0[3], "C");
    assert_eq!(a.0[1], "A#");
}

#[test]
fn rows_read_with_windows_line_ends() {
    let (top, bottom) = str_to_rows("C E G\r\nD G B\r\n").unwrap();
    assert_eq!(top, vec![0, 4, 7]);
    assert_eq!(bottom, vec![2, 7, 11]);
}

#[test]
fn labels_are_written_out() {
    let l = Label::Hole { hole: 12, reed: Reed::Draw, bends: 2, extended: false };
    assert_eq!(l.text(), "-12''");
    let l = Label::Hole { hole: 3, reed: Reed::Blow, bends: 0, extended: true };
    assert_eq!(l.text(), "3o");
    assert_eq!(Label::Gap.text(), "X");
}

#[test]
fn scale_degrees_follow_the_position() {
    assert_eq!(to_scale_degree(0, 1), "1");
    assert_eq!(to_scale_degree(4, 2), "6");
    assert_eq!(to_scale_degree(7, 12), "2");
    assert_eq!(to_scale_degree(23, 1), "7");
}

#[test]
fn scales_are_looked_up_by_name() {
    assert!(is_scale_note("b3", "blues"));
    assert!(!is_scale_note("3", "blues"));
    assert!(!is_scale_note("1", "no such scale"));
    assert_eq!(scale_degrees("major pentatonic").unwrap(), vec!["1", "2", "3", "5", "6"]);
    assert_eq!(get_scales().len(), 22);
    assert_eq!(get_scales()[0].0, "acoustic");
}

#[test]
fn tunings_are_looked_up_by_name() {
    assert_eq!(find_tuning("4 hole richter"), Some("C E G C\nD F A B"));
    assert_eq!(find_tuning("nothing"), None);
    assert_eq!(get_tunings().len(), 18);
}

#[test]
fn captions_and_ordinals() {
    assert_eq!(to_ordinal(1), "1st");
    assert_eq!(to_ordinal(2), "2nd");
    assert_eq!(to_ordinal(3), "3rd");
    assert_eq!(to_ordinal(11), "11th");
    let setup = Setup { scale: Some("blues"), position: 2 };
    let root = Some(ChromaticScale::new("G", None).unwrap());
    assert_eq!(
        get_caption("richter", &root, &setup),
        "G richter harmonica, blues scale, 2nd position"
    );
    let setup = Setup { scale: None, position: 12 };
    assert_eq!(get_caption("spiral", &None, &setup), "spiral harmonica, 12th position");
}

#[test]
fn hole_numbers_line_up_under_the_holes() {
    assert_eq!(
        harptool::hole_numbers(12),
        "1   2   3   4   5   6   7   8   9   10  11  12"
    );
    assert_eq!(harptool::hole_numbers(0), "1");
}
