//! Players: identity, held tokens, permanently owned production cards, a
//! bounded private hand of reserved cards, and acquired nobles.

use vstd::prelude::*;

use crate::bank::Funds;
use crate::board::{spec_reserve, Board};
use crate::noble::{Noble, NOBLE_VICTORY_POINTS};
use crate::piece::{forall_piece, Piece};
use crate::production_card::{count_produces, count_produces_exec, CardId, TaggedCard};

verus! {

#[derive(Clone, Copy, PartialEq, Eq, Structural, Debug)]
pub struct PlayerId {
    pub id: u8,
}

impl PlayerId {
    pub fn new(id: u8) -> (r: PlayerId)
        ensures
            r == (PlayerId { id }),
    {
        PlayerId { id }
    }
}

#[derive(PartialEq, Eq, Debug)]
pub struct Player {
    pub id: PlayerId,
    pub funds: Funds,
    pub production_cards: Vec<TaggedCard>,
    pub reserved_cards: Vec<TaggedCard>,
    pub nobles: Vec<Noble>,
}

/// The mathematical model of a player: the same fields with the card and
/// noble lists as sequences.
#[verifier::ext_equal]
pub struct PlayerView {
    pub id: PlayerId,
    pub funds: Funds,
    pub production_cards: Seq<TaggedCard>,
    pub reserved_cards: Seq<TaggedCard>,
    pub nobles: Seq<Noble>,
}

impl View for Player {
    type V = PlayerView;

    open spec fn view(&self) -> PlayerView {
        PlayerView {
            id: self.id,
            funds: self.funds,
            production_cards: self.production_cards@,
            reserved_cards: self.reserved_cards@,
            nobles: self.nobles@,
        }
    }
}

impl Clone for Player {
    fn clone(&self) -> (r: Self)
        ensures
            r@ == self@,
    {
        Player {
            id: self.id,
            funds: self.funds,
            production_cards: crate::util::copy_vec(&self.production_cards),
            reserved_cards: crate::util::copy_vec(&self.reserved_cards),
            nobles: crate::util::copy_vec(&self.nobles),
        }
    }
}

/// A player's total victory points: the sum of the owned cards' points
/// plus the fixed award for each acquired noble.
pub open spec fn spec_player_points(p: PlayerView) -> int {
    sum_points(p.production_cards) + (NOBLE_VICTORY_POINTS as int) * p.nobles.len()
}

/// The sum of the victory points of a card list.
pub open spec fn sum_points(cards: Seq<TaggedCard>) -> int
    decreases cards.len(),
{
    if cards.len() == 0 {
        0
    } else {
        sum_points(cards.drop_last()) + (match cards.last().data.victory_points {
            Some(v) => v as int,
            None => 0,
        })
    }
}

pub proof fn lemma_sum_points_bounds(cards: Seq<TaggedCard>)
    ensures
        0 <= sum_points(cards) <= 255 * cards.len(),
    decreases cards.len(),
{
    if cards.len() > 0 {
        lemma_sum_points_bounds(cards.drop_last());
    }
}

/// Why a reservation was refused.
#[derive(PartialEq, Eq, Debug)]
pub enum ReserveOperationFail {
    NotEnoughPieces(Vec<(Piece, u8)>),
    MaximumReservedCardsExceed,
    CardNotFound,
}

/// The bank ledger and the acting player after a successful reservation.
#[derive(Debug)]
pub struct ReserveOperationSuccess {
    pub bank_funds: Funds,
    pub player: Player,
}

impl ReserveOperationSuccess {
    pub fn new(bank_funds: Funds, player: Player) -> (r: ReserveOperationSuccess)
        ensures
            r.bank_funds == bank_funds,
            r.player@ == player@,
    {
        ReserveOperationSuccess { bank_funds, player }
    }
}

impl Player {
    /// A new player holding the given funds and cards and no nobles yet.
    pub fn new(
        id: PlayerId,
        funds: Funds,
        production_cards: Vec<TaggedCard>,
        reserved_cards: Vec<TaggedCard>,
    ) -> (r: Player)
        ensures
            r@ == (PlayerView {
                id,
                funds,
                production_cards: production_cards@,
                reserved_cards: reserved_cards@,
                nobles: Seq::<Noble>::empty(),
            }),
    {
        let r = Player { id, funds, production_cards, reserved_cards, nobles: Vec::new() };
        proof {
            assert(r@ =~= (PlayerView {
                id,
                funds,
                production_cards: r.production_cards@,
                reserved_cards: r.reserved_cards@,
                nobles: Seq::<Noble>::empty(),
            }));
        }
        r
    }

    /// The funds the player's owned production cards yield as credit: one
    /// token of a card's produced color per owned card.
    pub fn get_production(&self) -> (r: Funds)
        requires
            forall_piece(|p: Piece| count_produces(self.production_cards@, p) <= 255),
        ensures
            forall|p: Piece| #[trigger] r.cnt(p) == count_produces(self.production_cards@, p),
    {
        let counts = Self::count_all_produced(&self.production_cards);
        counts
    }

    /// The funds a card list yields as production credit.
    pub fn get_funds_from_production_cards(production_cards: Vec<TaggedCard>) -> (r: Funds)
        requires
            forall_piece(|p: Piece| count_produces(production_cards@, p) <= 255),
        ensures
            forall|p: Piece| #[trigger] r.cnt(p) == count_produces(production_cards@, p),
    {
        Self::count_all_produced(&production_cards)
    }

    fn count_all_produced(cards: &Vec<TaggedCard>) -> (r: Funds)
        requires
            forall_piece(|p: Piece| count_produces(cards@, p) <= 255),
        ensures
            forall|p: Piece| #[trigger] r.cnt(p) == count_produces(cards@, p),
    {
        let red = count_produces_exec(cards, Piece::Red);
        let green = count_produces_exec(cards, Piece::Green);
        let blue = count_produces_exec(cards, Piece::Blue);
        let brown = count_produces_exec(cards, Piece::Brown);
        let white = count_produces_exec(cards, Piece::White);
        let golden = count_produces_exec(cards, Piece::Golden);
        let r = Funds {
            red: red as u8,
            green: green as u8,
            blue: blue as u8,
            brown: brown as u8,
            white: white as u8,
            golden: golden as u8,
        };
        proof {
            assert forall|p: Piece| #[trigger] r.cnt(p) == count_produces(cards@, p) by {
                match p {
                    Piece::Red => {},
                    Piece::Green => {},
                    Piece::Blue => {},
                    Piece::Brown => {},
                    Piece::White => {},
                    Piece::Golden => {},
                }
            }
        }
        r
    }

    /// Reserve the card with the given id from the board's sale windows
    /// for the current player, per `spec_reserve`: the card must be on
    /// sale and the player's hand below its cap of 3; the card joins the
    /// hand (it stays on sale), and one wildcard moves from the bank to
    /// the player if the bank holds any.
    pub fn reserve_card(board: &Board, card_id: &CardId) -> (r: Result<
        ReserveOperationSuccess,
        ReserveOperationFail,
    >)
        requires
            board@.player_turn < board@.players.len(),
        ensures
            match r {
                Ok(s) => ({
                    let rr = spec_reserve(board@, *card_id);
                    rr matches Ok(pair) && s.bank_funds == pair.0 && s.player@ == pair.1
                }),
                Err(e) => spec_reserve(board@, *card_id) == Err::<
                    (Funds, PlayerView),
                    ReserveOperationFail,
                >(e),
            },
    {
        let card = match board.get_card_from_board(card_id) {
            None => {
                return Err(ReserveOperationFail::CardNotFound);
            },
            Some(c) => c,
        };

        let player = board.get_who_is_playing_now();

        if player.reserved_cards.len() >= 3 {
            return Err(ReserveOperationFail::MaximumReservedCardsExceed);
        }

        let mut bank = board.bank;
        let mut player_updated = player.clone();
        player_updated.reserved_cards.push(card);

        if bank.golden > 0 {
            bank.golden = bank.golden - 1;
            player_updated.funds.golden = player_updated.funds.golden.saturating_add(1);
        }

        proof {
            let pair = spec_reserve(board@, *card_id)->Ok_0;
            assert(player_updated@ =~= pair.1);
        }
        Ok(ReserveOperationSuccess { bank_funds: bank, player: player_updated })
    }

    /// The player's total victory points: owned cards' points plus the
    /// fixed award per acquired noble.
    pub fn total_victory_points(&self) -> (r: u128)
        ensures
            r == spec_player_points(self@),
    {
        let ghost cards = self.production_cards@;
        let mut total: u128 = 0;
        let n = self.production_cards.len();
        assert(cards.take(0int) =~= Seq::<TaggedCard>::empty());
        for i in 0..n
            invariant
                n == cards.len(),
                cards == self.production_cards@,
                total == sum_points(cards.take(i as int)),
                total <= 255 * i,
        {
            proof {
                assert(cards.take(i + 1).drop_last() =~= cards.take(i as int));
                assert(cards.take(i + 1).last() == cards[i as int]);
            }
            match self.production_cards[i].data.victory_points {
                Some(points) => {
                    total = total + points as u128;
                },
                None => {},
            }
        }
        proof {
            assert(cards.take(n as int) =~= cards);
        }
        total + (NOBLE_VICTORY_POINTS as u128) * (self.nobles.len() as u128)
    }
}

} // verus!
