//! Fingering labels: which hole, which reed, how far bent, and whether the
//! note is an overblow or an overdraw.
use vstd::prelude::*;

verus! {

/// The reed a fingering sounds: blow notes are written with a positive hole
/// number, draw notes with a negative one.
#[derive(Clone, Copy, Debug, PartialEq, Eq, Structural)]
pub enum Reed {
    Blow,
    Draw,
}

/// A label in the canonical order of fingerings.
#[derive(Clone, Copy, Debug, PartialEq, Eq, Structural)]
pub enum Label {
    /// A note played on hole `hole`, bent down by `bends` semitones; with
    /// `extended` it is an overblow (blow reed) or an overdraw (draw reed).
    Hole { hole: usize, reed: Reed, bends: usize, extended: bool },
    /// A pitch that no fingering reaches.
    Gap,
}

pub open spec fn digit_char(d: int) -> char {
    seq!['0', '1', '2', '3', '4', '5', '6', '7', '8', '9'][d]
}

/// The decimal numeral of `n`.
pub open spec fn decimal(n: nat) -> Seq<char>
    decreases n,
{
    if n < 10 {
        seq![digit_char(n as int)]
    } else {
        decimal(n / 10).push(digit_char((n % 10) as int))
    }
}

/// How a label is written: the signed hole number (the sign of zero is not
/// written), then `o` for an overblow or overdraw, then one apostrophe per
/// bent semitone; a pitch that nothing reaches is `X`.
pub open spec fn label_text(l: Label) -> Seq<char> {
    match l {
        Label::Hole { hole, reed, bends, extended } => {
            let sign = if reed == Reed::Draw && hole > 0 {
                seq!['-']
            } else {
                Seq::empty()
            };
            let marker = if extended {
                seq!['o']
            } else {
                Seq::empty()
            };
            sign + decimal(hole as nat) + marker + Seq::new(bends as nat, |_k: int| '\'')
        },
        Label::Gap => seq!['X'],
    }
}

fn digit_str(d: usize) -> (r: &'static str)
    requires
        d < 10,
    ensures
        r@ == seq![digit_char(d as int)],
{
    proof {
        reveal_strlit("0");
        reveal_strlit("1");
        reveal_strlit("2");
        reveal_strlit("3");
        reveal_strlit("4");
        reveal_strlit("5");
        reveal_strlit("6");
        reveal_strlit("7");
        reveal_strlit("8");
        reveal_strlit("9");
    }
    let r = if d == 0 {
        "0"
    } else if d == 1 {
        "1"
    } else if d == 2 {
        "2"
    } else if d == 3 {
        "3"
    } else if d == 4 {
        "4"
    } else if d == 5 {
        "5"
    } else if d == 6 {
        "6"
    } else if d == 7 {
        "7"
    } else if d == 8 {
        "8"
    } else {
        "9"
    };
    assert(r@ =~= seq![digit_char(d as int)]);
    r
}

/// The decimal numeral of `n` as a string.
pub fn decimal_string(n: usize) -> (r: String)
    ensures
        r@ == decimal(n as nat),
    decreases n,
{
    if n < 10 {
        String::from_str(digit_str(n))
    } else {
        let mut s = decimal_string(n / 10);
        s.append(digit_str(n % 10));
        s
    }
}

impl Label {
    /// The label as it is written.
    pub fn text(&self) -> (r: String)
        ensures
            r@ == label_text(*self),
    {
        proof {
            reveal_strlit("-");
            reveal_strlit("o");
            reveal_strlit("'");
            reveal_strlit("X");
        }
        match *self {
            Label::Hole { hole, reed, bends, extended } => {
                let mut s = String::new();
                if reed == Reed::Draw && hole > 0 {
                    s.append("-");
                }
                let digits = decimal_string(hole);
                s.append(digits.as_str());
                if extended {
                    s.append("o");
                }
                let ghost head = s@;
                let mut k: usize = 0;
                while k < bends
                    invariant
                        k <= bends,
                        s@ =~= head + Seq::new(k as nat, |_j: int| '\''),
                    decreases bends - k,
                {
                    proof {
                        reveal_strlit("'");
                    }
                    assert("'"@ =~= seq!['\'']);
                    s.append("'");
                    k = k + 1;
                }
                assert(s@ =~= label_text(*self));
                s
            },
            Label::Gap => {
                let s = String::from_str("X");
                assert(s@ =~= label_text(*self));
                s
            },
        }
    }
}

} // verus!
