//! Production cards: purchasable entities with a per-token cost, a token
//! color they produce once owned, and optional victory points; plus the
//! payment algorithm that buys one.

use vstd::prelude::*;

use crate::bank::Funds;
use crate::board::BuyOperationFail;
use crate::piece::{piece_at, Piece};
use crate::player::Player;

verus! {

/// A purchasable entity. Its cost never charges the wildcard token in the
/// standard game; once owned it permanently produces one token of
/// `produces` as purchasing credit.
#[derive(Clone, Copy, PartialEq, Eq, Debug)]
pub struct ProductionCard {
    pub cost: Funds,
    pub produces: Piece,
    pub victory_points: Option<u8>,
}

/// The opaque identity of a card, stable for the card's lifetime.
#[derive(Clone, Copy, PartialEq, Eq, Structural, Debug)]
pub struct CardId {
    pub id: u8,
}

impl CardId {
    pub fn new(id: u8) -> (r: CardId)
        ensures
            r == (CardId { id }),
    {
        CardId { id }
    }
}

/// A value tagged with a stable unique identifier, for lookup and removal.
#[derive(Clone, Copy, PartialEq, Eq, Debug)]
pub struct Identifiable<T, IdType = u8> {
    pub uid: IdType,
    pub data: T,
}

/// A production card tagged with its identity, as it sits in decks, sale
/// windows and player hands.
pub type TaggedCard = Identifiable<ProductionCard, CardId>;

impl Identifiable<ProductionCard, CardId> {
    pub fn new(card: ProductionCard, uid: CardId) -> (r: TaggedCard)
        ensures
            r == (Identifiable { uid, data: card }),
    {
        Identifiable { uid, data: card }
    }
}

/// How many of the owned cards produce the token `p`.
pub open spec fn count_produces(cards: Seq<TaggedCard>, p: Piece) -> nat
    decreases cards.len(),
{
    if cards.len() == 0 {
        0
    } else {
        count_produces(cards.drop_last(), p) + (if cards.last().data.produces == p {
            1nat
        } else {
            0nat
        })
    }
}

/// Count the owned cards that produce the token `p`.
pub fn count_produces_exec(cards: &Vec<TaggedCard>, p: Piece) -> (r: usize)
    ensures
        r == count_produces(cards@, p),
{
    let mut r: usize = 0;
    let n = cards.len();
    assert(cards@.take(0int) =~= Seq::<TaggedCard>::empty());
    for i in 0..n
        invariant
            n == cards@.len(),
            r == count_produces(cards@.take(i as int), p),
            r <= i,
    {
        proof {
            assert(cards@.take(i + 1).drop_last() =~= cards@.take(i as int));
            assert(cards@.take(i + 1).last() == cards@[i as int]);
        }
        if cards[i].data.produces == p {
            r = r + 1;
        }
    }
    proof {
        assert(cards@.take(n as int) =~= cards@);
    }
    r
}

pub open spec fn zero_funds() -> Funds {
    Funds { red: 0, green: 0, blue: 0, brown: 0, white: 0, golden: 0 }
}

/// One step of the payment algorithm, for the token `p` with cost `c`:
/// production credit first (free), then stored tokens of that color, then
/// wildcards for any remaining shortfall; an uncoverable shortfall is
/// recorded in the deficit ledger and payment of other tokens goes on.
pub open spec fn buy_step(
    rem: Funds,
    miss: Funds,
    any_missing: bool,
    prod: nat,
    c: u8,
    p: Piece,
) -> (Funds, Funds, bool) {
    if prod >= c {
        (rem, miss, any_missing)
    } else {
        let have = rem.cnt(p);
        if have + prod >= c {
            (rem.spec_with_cnt(p, (have + prod - c) as u8), miss, any_missing)
        } else {
            let g = rem.cnt(Piece::Golden);
            if have + prod + g >= c {
                (
                    rem.spec_with_cnt(p, 0).spec_with_cnt(
                        Piece::Golden,
                        (g - (c - have - prod)) as u8,
                    ),
                    miss,
                    any_missing,
                )
            } else {
                (rem, miss.spec_with_cnt(p, (c - have - prod) as u8), true)
            }
        }
    }
}

/// The payment algorithm folded over the tokens from canonical index `i`
/// on. The state is (remaining funds, deficit ledger, any-deficit flag).
pub open spec fn buy_fold(
    rem: Funds,
    miss: Funds,
    any_missing: bool,
    cards: Seq<TaggedCard>,
    cost: Funds,
    i: int,
) -> (Funds, Funds, bool)
    decreases 6 - i,
{
    if i < 0 || i >= 6 {
        (rem, miss, any_missing)
    } else {
        let p = piece_at(i);
        let t = buy_step(rem, miss, any_missing, count_produces(cards, p), cost.cnt(p), p);
        buy_fold(t.0, t.1, t.2, cards, cost, i + 1)
    }
}

/// Buying a card: the buyer's funds after paying `cost` with the credit of
/// the owned `cards`, or the complete deficit ledger over all tokens if any
/// token cannot be covered.
pub open spec fn spec_buy(funds: Funds, cards: Seq<TaggedCard>, cost: Funds) -> Result<
    Funds,
    Funds,
> {
    let t = buy_fold(funds, zero_funds(), false, cards, cost, 0);
    if t.2 {
        Err(t.1)
    } else {
        Ok(t.0)
    }
}

/// The token at canonical index `i`.
fn piece_index(i: usize) -> (p: Piece)
    requires
        i < 6,
    ensures
        p == piece_at(i as int),
{
    if i == 0 {
        Piece::Red
    } else if i == 1 {
        Piece::Green
    } else if i == 2 {
        Piece::Blue
    } else if i == 3 {
        Piece::Brown
    } else if i == 4 {
        Piece::White
    } else {
        Piece::Golden
    }
}

impl ProductionCard {
    pub fn new(cost: Funds, produces: Piece, victory_points: Option<u8>) -> (r: ProductionCard)
        ensures
            r == (ProductionCard { cost, produces, victory_points }),
    {
        ProductionCard { cost, produces, victory_points }
    }

    /// Pay for `prod_card` out of the player's stored tokens, after the
    /// player's production credit, using wildcards last; per `spec_buy`.
    /// On failure the error carries the complete deficit ledger.
    pub fn buy(player: Player, prod_card: ProductionCard) -> (r: Result<Funds, BuyOperationFail>)
        ensures
            match r {
                Ok(f) => spec_buy(player.funds, player.production_cards@, prod_card.cost)
                    == Ok::<Funds, Funds>(f),
                Err(BuyOperationFail::NotEnoughFunds(m)) => spec_buy(
                    player.funds,
                    player.production_cards@,
                    prod_card.cost,
                ) == Err::<Funds, Funds>(m),
                Err(BuyOperationFail::CardNotFoundOnBoard) => false,
            },
    {
        let ghost cards = player.production_cards@;
        let ghost cost_ghost = prod_card.cost;
        let mut rem = player.funds;
        let mut miss = Funds::new(0, 0, 0, 0, 0, 0);
        let mut any_missing = false;
        for i in 0..6usize
            invariant
                cards == player.production_cards@,
                cost_ghost == prod_card.cost,
                buy_fold(rem, miss, any_missing, cards, cost_ghost, i as int) == buy_fold(
                    player.funds,
                    zero_funds(),
                    false,
                    cards,
                    cost_ghost,
                    0,
                ),
        {
            let p = piece_index(i);
            let prod = count_produces_exec(&player.production_cards, p);
            let c = prod_card.cost.get(p);
            let ghost rem0 = rem;
            let ghost miss0 = miss;
            let ghost any0 = any_missing;
            if prod >= c as usize {
                // covered by production credit alone
            } else {
                let have = rem.get(p);
                if have as usize + prod >= c as usize {
                    rem = rem.with_cnt(p, ((have as usize + prod) - c as usize) as u8);
                } else {
                    let g = rem.get(Piece::Golden);
                    if have as usize + prod + g as usize >= c as usize {
                        rem = rem.with_cnt(p, 0).with_cnt(
                            Piece::Golden,
                            (g as usize - ((c as usize - have as usize) - prod)) as u8,
                        );
                    } else {
                        miss = miss.with_cnt(p, ((c as usize - have as usize) - prod) as u8);
                        any_missing = true;
                    }
                }
            }
            proof {
                assert(buy_step(rem0, miss0, any0, count_produces(cards, p), cost_ghost.cnt(p), p)
                    == (rem, miss, any_missing));
            }
        }
        if any_missing {
            Err(BuyOperationFail::NotEnoughFunds(miss))
        } else {
            Ok(rem)
        }
    }
}

/// Paying never adds tokens: every count of the remaining funds is at most
/// the matching count the buyer started with.
pub proof fn lemma_buy_fold_le(
    rem: Funds,
    miss: Funds,
    any_missing: bool,
    cards: Seq<TaggedCard>,
    cost: Funds,
    i: int,
)
    ensures
        forall|p: Piece| #[trigger]
            buy_fold(rem, miss, any_missing, cards, cost, i).0.cnt(p) <= rem.cnt(p),
    decreases 6 - i,
{
    if 0 <= i < 6 {
        let q = piece_at(i);
        let t = buy_step(rem, miss, any_missing, count_produces(cards, q), cost.cnt(q), q);
        lemma_buy_fold_le(t.0, t.1, t.2, cards, cost, i + 1);
        assert forall|p: Piece| #[trigger]
            buy_fold(rem, miss, any_missing, cards, cost, i).0.cnt(p) <= rem.cnt(p) by {
            assert(buy_fold(t.0, t.1, t.2, cards, cost, i + 1).0.cnt(p) <= t.0.cnt(p));
            assert(t.0.cnt(p) <= rem.cnt(p));
        }
    }
}

/// A successful purchase spends tokens only: `spec_buy` returning `Ok`
/// means the remaining funds can be subtracted from the starting funds.
pub proof fn lemma_buy_le(funds: Funds, cards: Seq<TaggedCard>, cost: Funds)
    ensures
        spec_buy(funds, cards, cost) matches Ok(f) ==> forall|p: Piece| #[trigger] f.cnt(p)
            <= funds.cnt(p),
{
    lemma_buy_fold_le(funds, zero_funds(), false, cards, cost, 0);
}

} // verus!
