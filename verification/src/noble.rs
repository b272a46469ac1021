//! Nobles: bonus entities with a token cost (never the wildcard) and a
//! fixed victory-point award, each acquired at most once per game.

use vstd::prelude::*;

use crate::bank::Funds;

verus! {

/// The fixed victory-point award for acquiring any noble.
pub const NOBLE_VICTORY_POINTS: u8 = 3;

#[derive(Clone, Copy, PartialEq, Eq, Structural, Debug)]
pub struct NobleId {
    pub id: u8,
}

impl NobleId {
    pub fn new(id: u8) -> (r: NobleId)
        ensures
            r == (NobleId { id }),
    {
        NobleId { id }
    }
}

#[derive(Clone, Copy, PartialEq, Eq, Structural, Debug)]
pub struct Noble {
    pub id: NobleId,
    pub cost: Funds,
}

impl Noble {
    pub fn new(id: NobleId, cost: Funds) -> (r: Noble)
        ensures
            r == (Noble { id, cost }),
    {
        Noble { id, cost }
    }
}

} // verus!
