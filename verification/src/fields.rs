//! Comma-separated text.
use vstd::prelude::*;

verus! {

/// The pieces of `s` between its commas, in order. A text without a comma is
/// one piece; two commas in a row enclose an empty piece.
pub open spec fn split_commas(s: Seq<char>) -> Seq<Seq<char>>
    decreases s.len(),
{
    if s.len() == 0 {
        seq![Seq::<char>::empty()]
    } else {
        let front = split_commas(s.drop_last());
        if s.last() == ',' {
            front.push(Seq::<char>::empty())
        } else {
            front.update(front.len() - 1, front.last().push(s.last()))
        }
    }
}

/// Splitting always gives at least one piece.
pub proof fn split_commas_is_inhabited(s: Seq<char>)
    ensures
        split_commas(s).len() > 0,
    decreases s.len(),
{
    if s.len() > 0 {
        split_commas_is_inhabited(s.drop_last());
    }
}

/// A comma begins a piece; any other character lengthens the last piece.
pub proof fn pieces_of_push(s: Seq<char>, c: char)
    ensures
        split_commas(s.push(c)).len() == split_commas(s).len() + if c == ',' {
            1int
        } else {
            0int
        },
{
    assert(s.push(c).drop_last() =~= s);
    split_commas_is_inhabited(s);
}

/// Two texts joined have the pieces of both, the last of the first and the
/// first of the second being one.
pub proof fn pieces_of_concat(a: Seq<char>, b: Seq<char>)
    ensures
        split_commas(a + b).len() + 1 == split_commas(a).len() + split_commas(b).len(),
    decreases b.len(),
{
    if b.len() == 0 {
        assert(a + b =~= a);
    } else {
        pieces_of_concat(a, b.drop_last());
        assert(a + b =~= (a + b.drop_last()).push(b.last()));
        assert(b =~= b.drop_last().push(b.last()));
        pieces_of_push(a + b.drop_last(), b.last());
        pieces_of_push(b.drop_last(), b.last());
    }
}

} // verus!
