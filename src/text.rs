//! Plain text: comparing strings, and cutting text into lines and words.
use vstd::prelude::*;

verus! {

/// Whether two strings hold the same characters.
pub fn same_text(a: &str, b: &str) -> (r: bool)
    ensures
        r == (a@ == b@),
{
    let n = a.unicode_len();
    if n != b.unicode_len() {
        return false;
    }
    let mut i: usize = 0;
    while i < n
        invariant
            n == a@.len() == b@.len(),
            i <= n,
            a@.take(i as int) == b@.take(i as int),
        decreases n - i,
    {
        if a.get_char(i) != b.get_char(i) {
            return false;
        }
        assert(a@.take(i + 1) =~= a@.take(i as int).push(a@[i as int]));
        assert(b@.take(i + 1) =~= b@.take(i as int).push(b@[i as int]));
        i = i + 1;
    }
    assert(a@ =~= a@.take(n as int));
    assert(b@ =~= b@.take(n as int));
    true
}

/// The pieces of `s` between occurrences of `sep`, empty pieces included:
/// one more piece than there are separators.
pub open spec fn split_on(s: Seq<char>, sep: char) -> Seq<Seq<char>>
    decreases s.len(),
{
    if s.len() == 0 {
        seq![Seq::empty()]
    } else {
        let init = split_on(s.drop_last(), sep);
        if s.last() == sep {
            init.push(Seq::empty())
        } else {
            init.update(init.len() - 1, init.last().push(s.last()))
        }
    }
}

pub proof fn lemma_split_on_sizes(s: Seq<char>, sep: char)
    ensures
        1 <= split_on(s, sep).len() <= s.len() + 1,
        forall|k: int| 0 <= k < split_on(s, sep).len() ==> #[trigger] split_on(s, sep)[k].len() <= s.len(),
    decreases s.len(),
{
    if s.len() > 0 {
        lemma_split_on_sizes(s.drop_last(), sep);
    }
}

/// Cuts `s` at every `sep`, keeping empty pieces.
pub fn split_text<'a>(s: &'a str, sep: char) -> (r: Vec<&'a str>)
    ensures
        r@.len() == split_on(s@, sep).len(),
        forall|k: int| 0 <= k < r@.len() ==> #[trigger] r@[k]@ == split_on(s@, sep)[k],
{
    let n = s.unicode_len();
    let mut pieces: Vec<&'a str> = Vec::new();
    let mut start: usize = 0;
    let mut i: usize = 0;
    assert(s@.take(0) =~= Seq::<char>::empty());
    assert(pieces@.map_values(|p: &str| p@).push(s@.subrange(0, 0)) =~= seq![Seq::<char>::empty()]);
    while i < n
        invariant
            n == s@.len(),
            start <= i <= n,
            split_on(s@.take(i as int), sep) =~= pieces@.map_values(|p: &str| p@).push(
                s@.subrange(start as int, i as int),
            ),
        decreases n - i,
    {
        let c = s.get_char(i);
        let ghost before = pieces@.map_values(|p: &str| p@);
        let ghost current = s@.subrange(start as int, i as int);
        assert(s@.take(i + 1).drop_last() =~= s@.take(i as int));
        assert(s@.take(i + 1).last() == c);
        assert(split_on(s@.take(i + 1), sep) == if c == sep {
            split_on(s@.take(i as int), sep).push(Seq::empty())
        } else {
            let init = split_on(s@.take(i as int), sep);
            init.update(init.len() - 1, init.last().push(c))
        });
        if c == sep {
            pieces.push(s.substring_char(start, i));
            start = i + 1;
            assert(pieces@.map_values(|p: &str| p@) =~= before.push(current));
            assert(s@.subrange(start as int, i + 1) =~= Seq::<char>::empty());
        } else {
            assert(s@.subrange(start as int, i + 1) =~= current.push(c));
            assert(before.push(current).update(before.len() as int, current.push(c)) =~= before.push(current.push(c)));
        }
        i = i + 1;
    }
    let ghost before = pieces@.map_values(|p: &str| p@);
    pieces.push(s.substring_char(start, n));
    assert(s@.take(n as int) =~= s@);
    assert(pieces@.map_values(|p: &str| p@) =~= before.push(s@.subrange(start as int, n as int)));
    assert(split_on(s@, sep) =~= pieces@.map_values(|p: &str| p@));
    pieces
}

/// The lines of `s`: the pieces between line feeds, without a carriage
/// return that ends a piece followed by a line feed, and without the empty
/// piece after a final line feed.
pub open spec fn text_lines(s: Seq<char>) -> Seq<Seq<char>> {
    let pieces = split_on(s, '\n');
    let count = if pieces.last().len() == 0 {
        pieces.len() - 1
    } else {
        pieces.len() as int
    };
    Seq::new(
        count as nat,
        |k: int|
            if k < pieces.len() - 1 && pieces[k].len() > 0 && pieces[k].last() == '\r' {
                pieces[k].drop_last()
            } else {
                pieces[k]
            },
    )
}

pub proof fn lemma_text_lines_sizes(s: Seq<char>)
    ensures
        forall|k: int| 0 <= k < text_lines(s).len() ==> #[trigger] text_lines(s)[k].len() <= s.len(),
{
    lemma_split_on_sizes(s, '\n');
}

/// Cuts `s` into its lines.
pub fn lines_of<'a>(s: &'a str) -> (r: Vec<&'a str>)
    ensures
        r@.len() == text_lines(s@).len(),
        forall|k: int| 0 <= k < r@.len() ==> #[trigger] r@[k]@ == text_lines(s@)[k],
{
    let pieces = split_text(s, '\n');
    proof {
        lemma_split_on_sizes(s@, '\n');
    }
    let count = if pieces[pieces.len() - 1].unicode_len() == 0 {
        pieces.len() - 1
    } else {
        pieces.len()
    };
    let mut lines: Vec<&'a str> = Vec::new();
    let mut k: usize = 0;
    while k < count
        invariant
            count == text_lines(s@).len(),
            count <= pieces@.len(),
            pieces@.len() == split_on(s@, '\n').len(),
            forall|j: int| 0 <= j < pieces@.len() ==> #[trigger] pieces@[j]@ == split_on(s@, '\n')[j],
            k <= count,
            lines@.len() == k,
            forall|j: int| 0 <= j < k ==> #[trigger] lines@[j]@ == text_lines(s@)[j],
        decreases count - k,
    {
        let piece = pieces[k];
        let len = piece.unicode_len();
        if k + 1 < pieces.len() && len > 0 && piece.get_char(len - 1) == '\r' {
            lines.push(piece.substring_char(0, len - 1));
        } else {
            lines.push(piece);
        }
        k = k + 1;
    }
    lines
}

} // verus!
