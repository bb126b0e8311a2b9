use harptool::{
    adjust_octaves, convert_to_numbers, notes_in_order, str_to_notes_in_order, str_to_rows,
    ChromaticScale, Setup, Tuning,
};

#[test]
fn test_tuning_new() {
    let tuning = Tuning::new(
        vec![0, 4, 7, 0, 4, 7, 0, 4, 7, 0],
        vec![2, 7, 11, 2, 5, 9, 11, 2, 5, 9],
    )
    .unwrap();
    assert_eq!(tuning, Tuning::default());
}

#[test]
fn test_tuning_from_str() {
    let richter = "C E G C E G C E G C\nD G B D F A B D F A\n";
    let tuning = Tuning::from_text(richter).unwrap();
    assert_eq!(tuning, Tuning::default());
}

#[test]
fn test_convert_to_numbers() {
    let top = vec!["C", "E", "G", "C", "E", "G", "C", "E", "G", "C"];
    let bottom = vec!["D", "G", "B", "D", "F", "A", "B", "D", "F", "A"];
    let top_numbers = vec![0, 4, 7, 0, 4, 7, 0, 4, 7, 0];
    let bottom_numbers = vec![2, 7, 11, 2, 5, 9, 11, 2, 5, 9];
    let (res_top, res_bottom) = convert_to_numbers(top, bottom).unwrap();
    assert_eq!(top_numbers, res_top);
    assert_eq!(bottom_numbers, res_bottom);

    let top = vec!["D", "F#", "A", "D", "F#", "A", "D", "F#", "A", "D"];
    let bottom = vec!["E", "A", "C#", "E", "G", "B", "C#", "E", "G", "B"];
    let (res_top, res_bottom) = convert_to_numbers(top, bottom).unwrap();
    assert_eq!(top_numbers, res_top);
    assert_eq!(bottom_numbers, res_bottom);

    let top = vec!["F", "A", "C", "F", "A", "C", "F", "A", "C", "F"];
    let bottom = vec!["G", "C", "E", "G", "Bb", "D", "E", "G", "Bb", "D"];
    let (res_top, res_bottom) = convert_to_numbers(top, bottom).unwrap();
    assert_eq!(top_numbers, res_top);
    assert_eq!(bottom_numbers, res_bottom);
}

#[test]
fn test_str_to_rows() {
    let richter = "C E G C E G C E G C\nD G B D F A B D F A\n";
    let (top, bottom) = str_to_rows(richter).unwrap();
    let expected_top = vec![0, 4, 7, 0, 4, 7, 0, 4, 7, 0];
    let expected_bottom = vec![2, 7, 11, 2, 5, 9, 11, 2, 5, 9];
    assert_eq!(expected_bottom, bottom);
    assert_eq!(expected_top, top);
}

#[test]
fn test_adjust_octaves() {
    let notes = vec![0, 4, 7, 0, 4, 7, 0, 4, 7, 0];
    let res = adjust_octaves(&notes);
    let expected = vec![0, 4, 7, 12, 16, 19, 24, 28, 31, 36];
    assert_eq!(res, expected);

    let notes = vec![2, 7, 11, 2, 5, 9, 11, 2, 5, 9];
    let res = adjust_octaves(&notes);
    let expected = vec![2, 7, 11, 14, 17, 21, 23, 26, 29, 33];
    assert_eq!(res, expected);

    let notes = vec![0, 4, 7, 0, 4, 4, 7, 0, 4, 9];
    let res = adjust_octaves(&notes);
    let expected = vec![0, 4, 7, 12, 16, 16, 19, 24, 28, 33];
    assert_eq!(res, expected);

    let notes = vec![2, 7, 11, 2, 5, 7, 11, 2, 7, 0];
    let res = adjust_octaves(&notes);
    let expected = [2, 7, 11, 14, 17, 19, 23, 26, 31, 36];
    assert_eq!(res, expected);
}

#[test]
fn test_notes_in_order() {
    let top = vec![0, 4, 7, 12, 16, 19, 24, 28, 31, 36];
    let bottom = vec![2, 7, 11, 14, 17, 21, 23, 26, 29, 33];
    let res = notes_in_order(&top, &bottom).unwrap();
    let expected = vec![
        "1", "-1'", "-1", "1o", "2", "-2''", "-2'", "-2", "-3'''", "-3''", "-3'", "-3", "4",
        "-4'", "-4", "4o", "5", "-5", "5o", "6", "-6'", "-6", "6o", "-7", "7", "-7o", "-8",
        "8'", "8", "-9", "9'", "9", "-9o", "-10", "10''", "10'", "10", "-10o",
    ];
    assert_eq!(res.0, expected);
}

#[test]
fn test_str_to_notes_in_order() {
    let richter = "C E G C E G C E G C\nD G B D F A B D F A\n";
    let (notes, duplicated) = str_to_notes_in_order(richter).unwrap();
    let expected = vec![
        "1", "-1'", "-1", "1o", "2", "-2''", "-2'", "-2", "-3'''", "-3''", "-3'", "-3", "4",
        "-4'", "-4", "4o", "5", "-5", "5o", "6", "-6'", "-6", "6o", "-7", "7", "-7o", "-8",
        "8'", "8", "-9", "9'", "9", "-9o", "-10", "10''", "10'", "10", "-10o",
    ];
    assert_eq!(notes, expected);
    let expected_duplicated = ["3", "-2", "2o", "-3'''", "3o", "4", "-8o", "-9"];
    assert_eq!(duplicated, expected_duplicated);

    let wilde = "C E G C E E G C E A\nD G B D F G B D G C\n";
    let res = str_to_notes_in_order(wilde).unwrap();
    let expected = vec![
        "1", "-1'", "-1", "1o", "2", "-2''", "-2'", "-2", "-3'''", "-3''", "-3'", "-3", "4",
        "-4'", "-4", "4o", "5", "-5", "-6'", "-6", "-7'''", "-7''", "-7'", "-7", "8", "-8'",
        "-8", "8o", "9", "-9''", "-9'", "-9", "9o", "10", "-10''", "-10'", "-10", "10o",
    ];
    assert_eq!(res.0, expected);
}

#[test]
fn test_notes_in_order_no_panics() {
    let mut tunings: Vec<&str> = Vec::new();
    tunings.push("C E G C E G C E G C\nD G B D F A B D F A\n");
    tunings.push("C E G C E G C E G C\nD G B D F# A B D F A\n");
    tunings.push("C E G C E E G C E A\nD G B D F G B D G C\n");
    tunings.push("C E A C E G C E G C\nD G B D F# A B D F# A\n");
    tunings.push("C Eb G C Eb G C Eb G C\nD G Bb D F A Bb D F A\n");
    tunings.push("C Eb G C Eb G C Eb G C\nD G B D F Ab B D F Ab\n");
    tunings.push("C E A C E G C E G C\nD G B D F A B D F A\n");
    tunings.push("A D E A D E A D E A\nC Eb G C Eb G C Eb G C");
    tunings.push("C E G C E G A C E A\nD G B D F A B D G C");
    tunings.push("C E G C D F A C E A\nD G B D E G B D G C");
    for tuning in tunings {
        let (_, _) = str_to_notes_in_order(tuning).unwrap();
    }
}

#[test]
fn test_get_row_notes() {
    let richter = Tuning::default();
    let root = ChromaticScale::new("C", None).unwrap();
    let setup = Setup {
        scale: Some("major"),
        position: 3,
    };
    let res = Tuning::get_row_notes(&richter.blow, &root, &setup);
    // E, G in D major scale
    let expected = vec![
        Some(("C".to_string(), false)),
        Some(("E".to_string(), true)),
        Some(("G".to_string(), true)),
        Some(("C".to_string(), false)),
        Some(("E".to_string(), true)),
        Some(("G".to_string(), true)),
        Some(("C".to_string(), false)),
        Some(("E".to_string(), true)),
        Some(("G".to_string(), true)),
        Some(("C".to_string(), false)),
    ];
    assert_eq!(res, expected);

    // only hole 2 and 3 have double bends, only hole -3'' is in 2nd pos major scale
    let res = Tuning::get_row_notes(&richter.bends_full, &root, &setup);
    let expected = vec![
        None,
        Some(("F".to_string(), false)),
        Some(("A".to_string(), true)),
        None,
        None,
        None,
        None,
        None,
        None,
        None,
    ];
    assert_eq!(res, expected);
}

#[test]
fn test_get_row_degrees() {
    let richter = Tuning::default();
    let setup = Setup {
        scale: Some("major"),
        position: 1,
    };
    let res = Tuning::get_row_degrees(&richter.blow, &setup);
    let expected = vec![
        Some(("1".to_string(), true)),
        Some(("3".to_string(), true)),
        Some(("5".to_string(), true)),
        Some(("1".to_string(), true)),
        Some(("3".to_string(), true)),
        Some(("5".to_string(), true)),
        Some(("1".to_string(), true)),
        Some(("3".to_string(), true)),
        Some(("5".to_string(), true)),
        Some(("1".to_string(), true)),
    ];
    assert_eq!(res, expected);
}
