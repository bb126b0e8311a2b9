//! Note names: chromatic scales from a root, scale degrees, and reading the
//! two rows of a tuning written as note names.
use vstd::prelude::*;
use crate::error::TuningError;
use crate::text::{lemma_split_on_sizes, lemma_text_lines_sizes, lines_of, same_text, split_on, split_text, text_lines};

verus! {

/// The characters of each string.
pub open spec fn str_views(v: Seq<&str>) -> Seq<Seq<char>> {
    v.map_values(|x: &str| x@)
}

/// The index of the first name equal to `s`.
pub open spec fn name_index(names: Seq<Seq<char>>, s: Seq<char>) -> Option<nat>
    decreases names.len(),
{
    if names.len() == 0 {
        None
    } else if names[0] == s {
        Some(0)
    } else {
        match name_index(names.drop_first(), s) {
            Some(k) => Some(k + 1),
            None => None,
        }
    }
}

proof fn lemma_name_index(names: Seq<Seq<char>>, s: Seq<char>, i: int)
    requires
        0 <= i <= names.len(),
        forall|j: int| 0 <= j < i ==> names[j] != s,
    ensures
        i < names.len() && names[i] == s ==> name_index(names, s) == Some(i as nat),
        i == names.len() ==> name_index(names, s) is None,
    decreases i,
{
    if i > 0 {
        lemma_name_index(names.drop_first(), s, i - 1);
    }
}

/// Where `s` first stands among `names`.
pub fn find_name(names: &[&str], s: &str) -> (r: Option<usize>)
    ensures
        match r {
            Some(i) => name_index(str_views(names@), s@) == Some(i as nat),
            None => name_index(str_views(names@), s@) is None,
        },
        r is Some ==> r->0 < names@.len(),
        r is Some <==> str_views(names@).contains(s@),
{
    let mut i: usize = 0;
    while i < names.len()
        invariant
            i <= names@.len(),
            forall|j: int| 0 <= j < i ==> str_views(names@)[j] != s@,
        decreases names@.len() - i,
    {
        if same_text(names[i], s) {
            proof {
                lemma_name_index(str_views(names@), s@, i as int);
            }
            assert(str_views(names@)[i as int] == s@);
            return Some(i);
        }
        i = i + 1;
    }
    proof {
        lemma_name_index(str_views(names@), s@, i as int);
    }
    None
}

pub open spec fn sharp_names() -> Seq<Seq<char>> {
    seq!["C"@, "C#"@, "D"@, "D#"@, "E"@, "F"@, "F#"@, "G"@, "G#"@, "A"@, "A#"@, "B"@]
}

pub open spec fn flat_names() -> Seq<Seq<char>> {
    seq!["C"@, "Db"@, "D"@, "Eb"@, "E"@, "F"@, "Gb"@, "G"@, "Ab"@, "A"@, "Bb"@, "B"@]
}

/// Roots that are written with a flat, and so rule out sharps.
pub open spec fn flat_roots() -> Seq<Seq<char>> {
    seq!["Bb"@, "Eb"@, "Ab"@, "Db"@, "Gb"@, "Cb"@, "Fb"@]
}

/// Roots that are written with a sharp, and so rule out flats.
pub open spec fn sharp_roots() -> Seq<Seq<char>> {
    seq!["F#"@, "C#"@, "G#"@, "D#"@, "A#"@, "E#"@, "B#"@]
}

/// Roots whose scale is written with flats unless sharps are asked for.
pub open spec fn flat_keys() -> Seq<Seq<char>> {
    seq!["Bb"@, "Eb"@, "Ab"@, "Db"@, "Gb"@, "F"@]
}

/// The roots a scale can start from.
pub open spec fn valid_roots() -> Seq<Seq<char>> {
    seq![
        "F"@, "C"@, "G"@, "D"@, "A"@, "E"@, "B"@, "Bb"@, "Eb"@, "Ab"@, "Db"@, "Gb"@, "F#"@,
        "C#"@, "G#"@, "D#"@, "A#"@,
    ]
}

/// Whether the scale from `root` is written with sharps.
pub open spec fn spelled_sharp(root: Seq<char>, use_sharps: Option<bool>) -> bool {
    match use_sharps {
        Some(v) => v,
        None => !flat_keys().contains(root),
    }
}

/// The twelve note names from `root` upwards.
pub open spec fn chromatic_scale(root: Seq<char>, use_sharps: Option<bool>) -> Result<
    Seq<Seq<char>>,
    TuningError,
> {
    let sharp = spelled_sharp(root, use_sharps);
    if use_sharps is Some && ((sharp && flat_roots().contains(root)) || (!sharp
        && sharp_roots().contains(root))) {
        Err(TuningError::SharpFlatConflict)
    } else if !valid_roots().contains(root) {
        Err(TuningError::InvalidRootNote)
    } else {
        let alphabet = if sharp {
            sharp_names()
        } else {
            flat_names()
        };
        match name_index(alphabet, root) {
            Some(p) => Ok(Seq::new(12, |k: int| alphabet[(p + k) % 12])),
            None => Err(TuningError::InvalidRootNote),
        }
    }
}

/// A valid root that does not clash with the asked spelling is always a name
/// of the alphabet it is spelled in, so a valid root always yields a scale.
pub proof fn lemma_valid_root_is_spelled(root: Seq<char>, use_sharps: Option<bool>)
    requires
        valid_roots().contains(root),
    ensures
        chromatic_scale(root, use_sharps) is Ok || chromatic_scale(root, use_sharps) == Err::<
            Seq<Seq<char>>,
            TuningError,
        >(TuningError::SharpFlatConflict),
{
    reveal_strlit("C");
    reveal_strlit("C#");
    reveal_strlit("D");
    reveal_strlit("D#");
    reveal_strlit("E");
    reveal_strlit("F");
    reveal_strlit("F#");
    reveal_strlit("G");
    reveal_strlit("G#");
    reveal_strlit("A");
    reveal_strlit("A#");
    reveal_strlit("B");
    reveal_strlit("Db");
    reveal_strlit("Eb");
    reveal_strlit("Gb");
    reveal_strlit("Ab");
    reveal_strlit("Bb");
    reveal_strlit("Cb");
    reveal_strlit("Fb");
    reveal_strlit("E#");
    reveal_strlit("B#");
    let k = choose|k: int| 0 <= k < valid_roots().len() && valid_roots()[k] == root;
    let sharp = spelled_sharp(root, use_sharps);
    let alphabet = if sharp {
        sharp_names()
    } else {
        flat_names()
    };
    if !(use_sharps is Some && ((sharp && flat_roots().contains(root)) || (!sharp
        && sharp_roots().contains(root)))) {
        assert(alphabet.contains(root)) by {
            if root == "F"@ {
                assert(alphabet[5] == root);
            } else if root == "C"@ {
                assert(alphabet[0] == root);
            } else if root == "G"@ {
                assert(alphabet[7] == root);
            } else if root == "D"@ {
                assert(alphabet[2] == root);
            } else if root == "A"@ {
                assert(alphabet[9] == root);
            } else if root == "E"@ {
                assert(alphabet[4] == root);
            } else if root == "B"@ {
                assert(alphabet[11] == root);
            } else if root == "Bb"@ {
                assert(flat_keys()[0] == root && flat_roots()[0] == root);
                assert(alphabet[10] == root);
            } else if root == "A#"@ {
                assert(sharp_roots()[4] == root);
                assert forall|j: int| 0 <= j < flat_keys().len() implies #[trigger] flat_keys()[j] != root by {
                    assert(flat_keys()[j].len() == 1 || flat_keys()[j][1] == 'b');
                    assert(root[1] == '#');
                }
                assert(alphabet[10] == root);
            } else if root == "Eb"@ {
                assert(flat_keys()[1] == root && flat_roots()[1] == root);
                assert(alphabet[3] == root);
            } else if root == "D#"@ {
                assert(sharp_roots()[3] == root);
                assert forall|j: int| 0 <= j < flat_keys().len() implies #[trigger] flat_keys()[j] != root by {
                    assert(flat_keys()[j].len() == 1 || flat_keys()[j][1] == 'b');
                    assert(root[1] == '#');
                }
                assert(alphabet[3] == root);
            } else if root == "Ab"@ {
                assert(flat_keys()[2] == root && flat_roots()[2] == root);
                assert(alphabet[8] == root);
            } else if root == "G#"@ {
                assert(sharp_roots()[2] == root);
                assert forall|j: int| 0 <= j < flat_keys().len() implies #[trigger] flat_keys()[j] != root by {
                    assert(flat_keys()[j].len() == 1 || flat_keys()[j][1] == 'b');
                    assert(root[1] == '#');
                }
                assert(alphabet[8] == root);
            } else if root == "Db"@ {
                assert(flat_keys()[3] == root && flat_roots()[3] == root);
                assert(alphabet[1] == root);
            } else if root == "C#"@ {
                assert(sharp_roots()[1] == root);
                assert forall|j: int| 0 <= j < flat_keys().len() implies #[trigger] flat_keys()[j] != root by {
                    assert(flat_keys()[j].len() == 1 || flat_keys()[j][1] == 'b');
                    assert(root[1] == '#');
                }
                assert(alphabet[1] == root);
            } else if root == "Gb"@ {
                assert(flat_keys()[4] == root && flat_roots()[4] == root);
                assert(alphabet[6] == root);
            } else {
                assert(root == "F#"@);
                assert(sharp_roots()[0] == root);
                assert forall|j: int| 0 <= j < flat_keys().len() implies #[trigger] flat_keys()[j] != root by {
                    assert(flat_keys()[j].len() == 1 || flat_keys()[j][1] == 'b');
                    assert(root[1] == '#');
                }
                assert(alphabet[6] == root);
            }
        }
        let i = choose|i: int| 0 <= i < alphabet.len() && alphabet[i] == root;
        lemma_name_index_found(alphabet, root, i);
    }
}

proof fn lemma_name_index_found(names: Seq<Seq<char>>, s: Seq<char>, i: int)
    requires
        0 <= i < names.len(),
        names[i] == s,
    ensures
        name_index(names, s) is Some,
    decreases i,
{
    if names[0] != s {
        lemma_name_index_found(names.drop_first(), s, i - 1);
    }
}

/// The twelve note names of a chromatic scale, from its root upwards.
#[derive(Debug)]
pub struct ChromaticScale(pub [&'static str; 12]);

impl ChromaticScale {
    pub open spec fn names(&self) -> Seq<Seq<char>> {
        str_views(self.0@)
    }

    fn rotated(notes: [&'static str; 12], p: usize) -> (r: ChromaticScale)
        requires
            p < 12,
        ensures
            r.names() == Seq::new(12, |k: int| str_views(notes@)[(p + k) % 12]),
    {
        let mut scale: [&'static str; 12] = [""; 12];
        let mut k: usize = 0;
        while k < 12
            invariant
                p < 12,
                k <= 12,
                forall|j: int| 0 <= j < k ==> #[trigger] scale@[j] == notes@[(p + j) % 12],
            decreases 12 - k,
        {
            scale[k] = notes[(p + k) % 12];
            k = k + 1;
        }
        let r = ChromaticScale(scale);
        assert(r.names() =~= Seq::new(12, |k: int| str_views(notes@)[(p + k) % 12]));
        r
    }

    /// The chromatic scale from `root`, written with sharps or flats as asked,
    /// or as the root suggests when nothing is asked.
    pub fn new(root: &str, use_sharps: Option<bool>) -> (r: Result<ChromaticScale, TuningError>)
        ensures
            match r {
                Ok(scale) => chromatic_scale(root@, use_sharps) == Ok::<
                    Seq<Seq<char>>,
                    TuningError,
                >(scale.names()),
                Err(e) => chromatic_scale(root@, use_sharps) == Err::<Seq<Seq<char>>, TuningError>(
                    e,
                ),
            },
            r == Err::<ChromaticScale, TuningError>(TuningError::InvalidRootNote) ==> !valid_roots().contains(root@),
    {
        proof {
            if valid_roots().contains(root@) {
                lemma_valid_root_is_spelled(root@, use_sharps);
            }
        }
        let flat_roots_list = ["Bb", "Eb", "Ab", "Db", "Gb", "Cb", "Fb"];
        let sharp_roots_list = ["F#", "C#", "G#", "D#", "A#", "E#", "B#"];
        let flat_keys_list = ["Bb", "Eb", "Ab", "Db", "Gb", "F"];
        let valid_roots_list = [
            "F", "C", "G", "D", "A", "E", "B", "Bb", "Eb", "Ab", "Db", "Gb", "F#", "C#", "G#",
            "D#", "A#",
        ];
        let sharp_names_list = ["C", "C#", "D", "D#", "E", "F", "F#", "G", "G#", "A", "A#", "B"];
        let flat_names_list = ["C", "Db", "D", "Eb", "E", "F", "Gb", "G", "Ab", "A", "Bb", "B"];
        assert(str_views(flat_roots_list@) =~= flat_roots());
        assert(str_views(sharp_roots_list@) =~= sharp_roots());
        assert(str_views(flat_keys_list@) =~= flat_keys());
        assert(str_views(valid_roots_list@) =~= valid_roots());
        assert(str_views(sharp_names_list@) =~= sharp_names());
        assert(str_views(flat_names_list@) =~= flat_names());
        let sharp = match use_sharps {
            Some(v) => v,
            None => find_name(&flat_keys_list, root).is_none(),
        };
        if use_sharps.is_some() {
            if (sharp && find_name(&flat_roots_list, root).is_some()) || (!sharp && find_name(&sharp_roots_list, root).is_some()) {
                return Err(TuningError::SharpFlatConflict);
            }
        }
        if find_name(&valid_roots_list, root).is_none() {
            return Err(TuningError::InvalidRootNote);
        }
        let notes = if sharp {
            sharp_names_list
        } else {
            flat_names_list
        };
        let ghost alphabet = if sharp {
            sharp_names()
        } else {
            flat_names()
        };
        assert(str_views(notes@) == alphabet);
        let p = match find_name(&notes, root) {
            Some(p) => p,
            None => {
                return Err(TuningError::InvalidRootNote);
            },
        };
        let scale = ChromaticScale::rotated(notes, p);
        assert(name_index(alphabet, root@) == Some(p as nat));
        assert(spelled_sharp(root@, use_sharps) == sharp);
        assert(valid_roots().contains(root@));
        assert(scale.names() =~= Seq::new(12, |k: int| alphabet[(p + k) % 12]));
        assert(chromatic_scale(root@, use_sharps) == Ok::<Seq<Seq<char>>, TuningError>(scale.names()));
        Ok(scale)
    }
}

/// The names of the twelve scale degrees, from the root upwards.
pub open spec fn degree_names() -> Seq<Seq<char>> {
    seq!["1"@, "b2"@, "2"@, "b3"@, "3"@, "4"@, "#4"@, "5"@, "b6"@, "6"@, "b7"@, "7"@]
}

/// The scale degree of pitch class `index` when playing in `position`: each
/// position starts a fourth above the one before.
pub open spec fn scale_degree(index: int, position: int) -> Seq<char> {
    degree_names()[(index + (position - 1) * 5) % 12]
}

/// The scale degree of pitch class `index` in `position`.
pub fn to_scale_degree(index: usize, position: usize) -> (r: String)
    requires
        position >= 1,
    ensures
        r@ == scale_degree(index as int, position as int),
{
    let degrees = ["1", "b2", "2", "b3", "3", "4", "#4", "5", "b6", "6", "b7", "7"];
    assert(str_views(degrees@) =~= degree_names());
    let k = (index % 12 + ((position - 1) % 12) * 5) % 12;
    proof {
        let a = index as int;
        let b = (position - 1) as int;
        vstd::arithmetic::div_mod::lemma_mul_mod_noop_left(b, 5, 12);
        vstd::arithmetic::div_mod::lemma_add_mod_noop(a, b * 5, 12);
        vstd::arithmetic::div_mod::lemma_mod_twice(b * 5, 12);
        vstd::arithmetic::div_mod::lemma_add_mod_noop(a % 12, (b % 12) * 5, 12);
        vstd::arithmetic::div_mod::lemma_mod_bound(a, 12);
        assert(k == (a + b * 5) % 12);
    }
    let name = degrees[k];
    assert(name@ == str_views(degrees@)[k as int]);
    name.to_owned()
}

/// Flat spellings of notes: a row that uses any of them is read with flats.
pub open spec fn flat_spellings() -> Seq<Seq<char>> {
    seq!["Bb"@, "Eb"@, "Ab"@, "Db"@, "Gb"@]
}

pub open spec fn uses_flats(names: Seq<Seq<char>>) -> bool {
    exists|k: int| 0 <= k < names.len() && flat_spellings().contains(#[trigger] names[k])
}

/// Whether every name is one of `scale`.
pub open spec fn all_named(scale: Seq<Seq<char>>, names: Seq<Seq<char>>) -> bool {
    forall|k: int| 0 <= k < names.len() ==> #[trigger] name_index(scale, names[k]) is Some
}

/// The pitch class of each name, counted from the scale's root.
pub open spec fn pitch_classes(scale: Seq<Seq<char>>, names: Seq<Seq<char>>) -> Seq<usize> {
    Seq::new(names.len(), |k: int| name_index(scale, names[k])->0 as usize)
}

/// Reads two rows of note names as pitch classes of the chromatic scale that
/// starts at the first blow note, written with flats if any name is.
pub open spec fn numbers_of(top: Seq<Seq<char>>, bottom: Seq<Seq<char>>) -> Result<
    (Seq<usize>, Seq<usize>),
    TuningError,
> {
    if top.len() == 0 {
        Err(TuningError::MalformedTuningRow)
    } else {
        let sharp = !(uses_flats(top) || uses_flats(bottom));
        match chromatic_scale(top[0], Some(sharp)) {
            Err(e) => Err(e),
            Ok(scale) => if all_named(scale, top) && all_named(scale, bottom) {
                Ok((pitch_classes(scale, top), pitch_classes(scale, bottom)))
            } else {
                Err(TuningError::MalformedTuningRow)
            },
        }
    }
}

fn any_flat(names: &Vec<&str>) -> (r: bool)
    ensures
        r == uses_flats(str_views(names@)),
{
    let flats = ["Bb", "Eb", "Ab", "Db", "Gb"];
    assert(str_views(flats@) =~= flat_spellings());
    let mut i: usize = 0;
    while i < names.len()
        invariant
            i <= names@.len(),
            str_views(flats@) == flat_spellings(),
            forall|j: int| 0 <= j < i ==> !flat_spellings().contains(#[trigger] str_views(names@)[j]),
        decreases names@.len() - i,
    {
        if find_name(&flats, names[i]).is_some() {
            assert(flat_spellings().contains(str_views(names@)[i as int]));
            return true;
        }
        i = i + 1;
    }
    false
}

fn classes_in(scale: &ChromaticScale, names: &Vec<&str>) -> (r: Option<Vec<usize>>)
    ensures
        match r {
            Some(v) => all_named(scale.names(), str_views(names@)) && v@ == pitch_classes(
                scale.names(),
                str_views(names@),
            ),
            None => !all_named(scale.names(), str_views(names@)),
        },
        r is Some ==> forall|k: int| 0 <= k < r->0@.len() ==> #[trigger] r->0@[k] < 12,
{
    let mut out: Vec<usize> = Vec::new();
    let mut i: usize = 0;
    while i < names.len()
        invariant
            i <= names@.len(),
            out@.len() == i,
            forall|j: int| 0 <= j < i ==> #[trigger] name_index(scale.names(), str_views(names@)[j]) is Some,
            forall|j: int| 0 <= j < i ==> #[trigger] out@[j] == pitch_classes(scale.names(), str_views(names@))[j],
            forall|j: int| 0 <= j < i ==> #[trigger] out@[j] < 12,
        decreases names@.len() - i,
    {
        match find_name(&scale.0, names[i]) {
            Some(k) => {
                out.push(k);
            },
            None => {
                assert(name_index(scale.names(), str_views(names@)[i as int]) is None);
                return None;
            },
        }
        i = i + 1;
    }
    assert(out@ =~= pitch_classes(scale.names(), str_views(names@)));
    Some(out)
}

/// Reads two rows of note names as pitch classes.
pub fn convert_to_numbers(top: Vec<&str>, bottom: Vec<&str>) -> (r: Result<
    (Vec<usize>, Vec<usize>),
    TuningError,
>)
    ensures
        match r {
            Ok((t, b)) => {
                &&& numbers_of(str_views(top@), str_views(bottom@)) == Ok::<
                    (Seq<usize>, Seq<usize>),
                    TuningError,
                >((t@, b@))
                &&& forall|k: int| 0 <= k < t@.len() ==> #[trigger] t@[k] < 12
                &&& forall|k: int| 0 <= k < b@.len() ==> #[trigger] b@[k] < 12
            },
            Err(e) => numbers_of(str_views(top@), str_views(bottom@)) == Err::<
                (Seq<usize>, Seq<usize>),
                TuningError,
            >(e),
        },
{
    if top.len() == 0 {
        return Err(TuningError::MalformedTuningRow);
    }
    let sharp = !(any_flat(&top) || any_flat(&bottom));
    let scale = match ChromaticScale::new(top[0], Some(sharp)) {
        Ok(scale) => scale,
        Err(e) => {
            return Err(e);
        },
    };
    let t = match classes_in(&scale, &top) {
        Some(t) => t,
        None => {
            return Err(TuningError::MalformedTuningRow);
        },
    };
    let b = match classes_in(&scale, &bottom) {
        Some(b) => b,
        None => {
            return Err(TuningError::MalformedTuningRow);
        },
    };
    Ok((t, b))
}

/// The pitch classes of a tuning written as two lines of note names
/// separated by single spaces: blow notes first, then draw notes.
pub open spec fn rows_of_text(s: Seq<char>) -> Result<(Seq<usize>, Seq<usize>), TuningError> {
    let lines = text_lines(s);
    if lines.len() < 2 {
        Err(TuningError::MalformedTuningRow)
    } else {
        numbers_of(split_on(lines[0], ' '), split_on(lines[1], ' '))
    }
}

/// Reads the blow and draw rows of a tuning from its text.
pub fn str_to_rows(input: &str) -> (r: Result<(Vec<usize>, Vec<usize>), TuningError>)
    ensures
        match r {
            Ok((t, b)) => {
                &&& rows_of_text(input@) == Ok::<(Seq<usize>, Seq<usize>), TuningError>((t@, b@))
                &&& forall|k: int| 0 <= k < t@.len() ==> #[trigger] t@[k] < 12
                &&& forall|k: int| 0 <= k < b@.len() ==> #[trigger] b@[k] < 12
                &&& t@.len() <= input@.len() + 1
                &&& b@.len() <= input@.len() + 1
            },
            Err(e) => rows_of_text(input@) == Err::<(Seq<usize>, Seq<usize>), TuningError>(e),
        },
{
    let lines = lines_of(input);
    if lines.len() < 2 {
        return Err(TuningError::MalformedTuningRow);
    }
    let top = split_text(lines[0], ' ');
    let bottom = split_text(lines[1], ' ');
    proof {
        lemma_text_lines_sizes(input@);
        lemma_split_on_sizes(lines@[0]@, ' ');
        lemma_split_on_sizes(lines@[1]@, ' ');
    }
    assert(str_views(top@) =~= split_on(lines@[0]@, ' '));
    assert(str_views(bottom@) =~= split_on(lines@[1]@, ' '));
    convert_to_numbers(top, bottom)
}

} // verus!
