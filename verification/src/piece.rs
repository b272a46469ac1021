//! The six token colors. `Golden` is the wildcard: it can stand in for any
//! other color when paying a card's cost, is never produced by a card, and
//! cannot be collected directly.

use vstd::prelude::*;

verus! {

#[derive(Clone, Copy, PartialEq, Eq, Structural, Debug)]
pub enum Piece {
    Red,
    Green,
    Blue,
    Brown,
    White,
    Golden,
}

/// The canonical order of the six tokens. Wherever an error must name "the"
/// offending token, the first token in this order is reported.
pub open spec fn piece_at(i: int) -> Piece {
    if i == 0 {
        Piece::Red
    } else if i == 1 {
        Piece::Green
    } else if i == 2 {
        Piece::Blue
    } else if i == 3 {
        Piece::Brown
    } else if i == 4 {
        Piece::White
    } else {
        Piece::Golden
    }
}

/// A predicate holds of some token color.
pub open spec fn exists_piece(f: spec_fn(Piece) -> bool) -> bool {
    ||| f(Piece::Red)
    ||| f(Piece::Green)
    ||| f(Piece::Blue)
    ||| f(Piece::Brown)
    ||| f(Piece::White)
    ||| f(Piece::Golden)
}

/// A predicate holds of every token color.
pub open spec fn forall_piece(f: spec_fn(Piece) -> bool) -> bool {
    &&& f(Piece::Red)
    &&& f(Piece::Green)
    &&& f(Piece::Blue)
    &&& f(Piece::Brown)
    &&& f(Piece::White)
    &&& f(Piece::Golden)
}

/// The finite conjunction over the six colors agrees with the unbounded
/// quantifier.
pub proof fn lemma_forall_piece(f: spec_fn(Piece) -> bool)
    ensures
        forall_piece(f) <==> forall|p: Piece| #[trigger] f(p),
{
    if forall_piece(f) {
        assert forall|p: Piece| #[trigger] f(p) by {
            match p {
                Piece::Red => assert(f(Piece::Red)),
                Piece::Green => assert(f(Piece::Green)),
                Piece::Blue => assert(f(Piece::Blue)),
                Piece::Brown => assert(f(Piece::Brown)),
                Piece::White => assert(f(Piece::White)),
                Piece::Golden => assert(f(Piece::Golden)),
            }
        }
    }
}

} // verus!
