//! Character sequences: reading the characters of a string, looking for a
//! character, and cutting a sequence at a separator.

use vstd::prelude::*;
use vstd::slice::slice_index_get;

verus! {

/// The pieces of `s` that lie between the occurrences of `sep`, in order.
/// There is always at least one piece, and a piece may be empty: cutting
/// `a,,b` at the comma gives `a`, the empty piece and `b`.
pub open spec fn split(s: Seq<char>, sep: char) -> Seq<Seq<char>>
    decreases s.len(),
{
    if s.len() == 0 {
        seq![Seq::<char>::empty()]
    } else {
        let before = split(s.drop_last(), sep);
        if s.last() == sep {
            before.push(Seq::<char>::empty())
        } else {
            before.update(before.len() - 1, before.last().push(s.last()))
        }
    }
}

/// A cut always leaves at least one piece.
pub proof fn lemma_split_nonempty(s: Seq<char>, sep: char)
    ensures
        split(s, sep).len() >= 1,
    decreases s.len(),
{
    if s.len() > 0 {
        lemma_split_nonempty(s.drop_last(), sep);
    }
}

/// A sequence without the separator is its own single piece.
pub proof fn lemma_split_without_separator(s: Seq<char>, sep: char)
    requires
        !s.contains(sep),
    ensures
        split(s, sep) == seq![s],
    decreases s.len(),
{
    if s.len() == 0 {
        assert(s == Seq::<char>::empty());
    } else {
        let front = s.drop_last();
        assert forall|c: char| front.contains(c) implies s.contains(c) by {
            let i = choose|i: int| 0 <= i < front.len() && front[i] == c;
            assert(s[i] == c);
        }
        assert(s[s.len() - 1] == s.last());
        lemma_split_without_separator(front, sep);
        assert(front.push(s.last()) == s);
        assert(seq![front].update(0, s) == seq![s]);
    }
}

/// Cutting `a`, a separator and `b` in a row gives the pieces of `a`
/// followed by the pieces of `b`.
pub proof fn lemma_split_around_separator(a: Seq<char>, b: Seq<char>, sep: char)
    ensures
        split(a.push(sep) + b, sep) == split(a, sep) + split(b, sep),
    decreases b.len(),
{
    let whole = a.push(sep) + b;
    lemma_split_nonempty(a, sep);
    lemma_split_nonempty(b, sep);
    if b.len() == 0 {
        assert(whole == a.push(sep));
        assert(whole.drop_last() == a);
        assert(split(a, sep).push(Seq::<char>::empty()) == split(a, sep) + split(b, sep));
    } else {
        let front = b.drop_last();
        lemma_split_around_separator(a, front, sep);
        lemma_split_nonempty(front, sep);
        assert(whole.drop_last() == a.push(sep) + front);
        assert(whole.last() == b.last());
        let left = split(a, sep);
        let right = split(front, sep);
        if b.last() == sep {
            assert((left + right).push(Seq::<char>::empty()) == left + right.push(
                Seq::<char>::empty(),
            ));
        } else {
            let grown = right.last().push(b.last());
            assert((left + right).last() == right.last());
            assert((left + right).update((left + right).len() - 1, grown) == left + right.update(
                right.len() - 1,
                grown,
            ));
        }
    }
}

/// A piece holds no character that the whole does not hold.
pub proof fn lemma_split_keeps_chars(s: Seq<char>, sep: char, k: int, c: char)
    requires
        0 <= k < split(s, sep).len(),
        split(s, sep)[k].contains(c),
    ensures
        s.contains(c),
    decreases s.len(),
{
    let piece = split(s, sep)[k];
    let at = choose|i: int| 0 <= i < piece.len() && piece[i] == c;
    if s.len() > 0 {
        let front = s.drop_last();
        let before = split(front, sep);
        lemma_split_nonempty(front, sep);
        if k == before.len() - 1 && s.last() != sep && at == before.last().len() {
            assert(s[s.len() - 1] == c);
        } else {
            if k == before.len() - 1 && s.last() != sep {
                assert(before.last()[at] == c);
            }
            lemma_split_keeps_chars(front, sep, k, c);
            let i = choose|i: int| 0 <= i < front.len() && front[i] == c;
            assert(s[i] == c);
        }
    }
}

/// A stretch of a character sequence: the characters at the positions from
/// `from` up to, not including, `to`.
#[derive(Debug, Clone, Copy)]
pub struct Piece {
    pub from: usize,
    pub to: usize,
}

impl Piece {
    /// The characters of `s` that this piece covers.
    pub open spec fn of(self, s: Seq<char>) -> Seq<char> {
        s.subrange(self.from as int, self.to as int)
    }
}

/// Whether `pieces` are the stretches of `s` between the occurrences of
/// `sep`: the first starts at the front, each next one starts just behind
/// the separator that ended the one before, the last ends at the back.
pub open spec fn cuts(pieces: Seq<Piece>, s: Seq<char>, sep: char) -> bool {
    &&& pieces.len() == split(s, sep).len()
    &&& pieces[0].from == 0
    &&& pieces.last().to == s.len()
    &&& forall|i: int|
        0 <= i < pieces.len() ==> {
            &&& (#[trigger] pieces[i]).from <= pieces[i].to <= s.len()
            &&& pieces[i].of(s) == split(s, sep)[i]
        }
    &&& forall|i: int, j: int|
        0 <= i && j == i + 1 && j < pieces.len() ==> (#[trigger] pieces[i]).to + 1 == (
        #[trigger] pieces[j]).from
}

/// The characters of `s`, in order.
pub fn chars_of(s: &str) -> (chars: Vec<char>)
    ensures
        chars@ == s@,
{
    let mut chars: Vec<char> = Vec::new();
    for c in it: s.chars()
        invariant
            it.seq() == s@,
            chars@ == s@.take(it.index()),
    {
        chars.push(c);
    }
    chars
}

/// Whether `c` occurs in `s`.
pub fn contains_char(s: &[char], c: char) -> (found: bool)
    ensures
        found == s@.contains(c),
{
    let mut i: usize = 0;
    while i < s.len()
        invariant
            i <= s@.len(),
            forall|k: int| 0 <= k < i ==> s@[k] != c,
        decreases s@.len() - i,
    {
        if *slice_index_get(s, i) == c {
            return true;
        }
        i += 1;
    }
    false
}

/// Cuts `s` at every occurrence of `sep`.
pub fn split_at(s: &[char], sep: char) -> (pieces: Vec<Piece>)
    ensures
        cuts(pieces@, s@, sep),
{
    let mut pieces: Vec<Piece> = Vec::new();
    let mut from: usize = 0;
    let mut i: usize = 0;
    proof {
        assert(s@.take(0) == Seq::<char>::empty());
        assert(s@.subrange(0, 0) == Seq::<char>::empty());
    }
    while i < s.len()
        invariant
            from <= i <= s@.len(),
            pieces@.len() + 1 == split(s@.take(i as int), sep).len(),
            pieces@.len() == 0 ==> from == 0,
            pieces@.len() > 0 ==> pieces@[0].from == 0 && pieces@.last().to + 1 == from,
            s@.subrange(from as int, i as int) == split(s@.take(i as int), sep).last(),
            forall|k: int|
                0 <= k < pieces@.len() ==> {
                    &&& (#[trigger] pieces@[k]).from <= pieces@[k].to < i
                    &&& pieces@[k].of(s@) == split(s@.take(i as int), sep)[k]
                },
            forall|k: int, l: int|
                0 <= k && l == k + 1 && l < pieces@.len() ==> (#[trigger] pieces@[k]).to + 1 == (
                #[trigger] pieces@[l]).from,
        decreases s@.len() - i,
    {
        let c = *slice_index_get(s, i);
        proof {
            let next = s@.take(i + 1);
            assert(next.drop_last() == s@.take(i as int));
            assert(next.last() == c);
            lemma_split_nonempty(s@.take(i as int), sep);
            if c != sep {
                assert(s@.subrange(from as int, i + 1) == s@.subrange(from as int, i as int).push(
                    c,
                ));
            } else {
                assert(s@.subrange(i + 1, i + 1) == Seq::<char>::empty());
            }
        }
        if c == sep {
            pieces.push(Piece { from, to: i });
            from = i + 1;
        }
        i += 1;
    }
    proof {
        assert(s@.take(i as int) == s@);
    }
    pieces.push(Piece { from, to: i });
    pieces
}

} // verus!
