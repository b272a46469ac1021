//! The board: the aggregate state machine. It holds the ordered player
//! list and the current turn, the bank, the per-tier draw decks and sale
//! windows, the noble pool, the phase flag, the round flag and the
//! declared winner, and dispatches every player action.

use vstd::prelude::*;

use crate::bank::{spec_add, spec_collect, sub_all, CollectError, CollectRequest, Funds};
use crate::noble::{Noble, NobleId};
use crate::piece::Piece;
use crate::player::{spec_player_points, Player, PlayerId, PlayerView, ReserveOperationFail};
use crate::production_card::{count_produces_exec, spec_buy, CardId, ProductionCard, TaggedCard};

verus! {

/// The number of players whose victory points end the game.
pub const WINNING_POINTS_THRESHOLD: u8 = 15;

/// The outcome of a finished game: a sole winner, or the tied players in
/// board order.
#[derive(Clone, PartialEq, Eq, Debug)]
pub enum Winner {
    Winner(PlayerId),
    Draw(Vec<PlayerId>),
}

/// The mathematical model of a `Winner`: the draw set as a sequence.
#[verifier::ext_equal]
pub enum WinnerView {
    Winner(PlayerId),
    Draw(Seq<PlayerId>),
}

impl View for Winner {
    type V = WinnerView;

    open spec fn view(&self) -> WinnerView {
        match self {
            Winner::Winner(id) => WinnerView::Winner(*id),
            Winner::Draw(ids) => WinnerView::Draw(ids@),
        }
    }
}

/// Whether the win threshold has been reached: once `LastRound`, never
/// back.
#[derive(Clone, Copy, PartialEq, Eq, Structural, Debug)]
pub enum RoundType {
    Normal,
    LastRound,
}

/// The three card-difficulty levels, each with its own deck and sale
/// window.
#[derive(Clone, Copy, PartialEq, Eq, Structural, Debug)]
pub enum ProductionTier {
    One,
    Two,
    Three,
}

/// The phase of the turn: normally any action is open; after an action
/// that makes a noble attainable, only selecting a noble is.
#[derive(Clone, Copy, PartialEq, Eq, Structural, Debug)]
pub enum ActionType {
    Normal,
    SelectNoble,
}

/// A player's request: one of the six game operations.
#[derive(PartialEq, Eq, Debug)]
pub enum Action {
    PassTheTurn,
    CollectPieces(Vec<Piece>, Vec<Piece>),
    ReserveCardFromDeck(ProductionTier),
    ReserveCardFromBoard(CardId),
    BuyCard(CardId),
    SelectNoble(NobleId),
}

/// The mathematical model of an `Action`: the token lists as sequences.
#[verifier::ext_equal]
pub enum ActionView {
    PassTheTurn,
    CollectPieces(Seq<Piece>, Seq<Piece>),
    ReserveCardFromDeck(ProductionTier),
    ReserveCardFromBoard(CardId),
    BuyCard(CardId),
    SelectNoble(NobleId),
}

impl View for Action {
    type V = ActionView;

    open spec fn view(&self) -> ActionView {
        match self {
            Action::PassTheTurn => ActionView::PassTheTurn,
            Action::CollectPieces(c, d) => ActionView::CollectPieces(c@, d@),
            Action::ReserveCardFromDeck(t) => ActionView::ReserveCardFromDeck(*t),
            Action::ReserveCardFromBoard(id) => ActionView::ReserveCardFromBoard(*id),
            Action::BuyCard(id) => ActionView::BuyCard(*id),
            Action::SelectNoble(id) => ActionView::SelectNoble(*id),
        }
    }
}

/// Why an action was refused.
#[derive(PartialEq, Eq, Debug)]
pub enum ActionFail {
    CannotReserveFromEmptyDeck,
    CardNotFoundOnBoard,
    NobleNotFound,
    InvalidBuyOperation(BuyOperationFail),
    InvalidReserve(ReserveOperationFail),
    InvalidCollect(CollectError),
    YouCannotSelectNobleNow,
    YouNeedToSelectNoble,
}

/// Why a purchase was refused. `NotEnoughFunds` carries the complete
/// deficit ledger over all tokens.
#[derive(PartialEq, Eq, Debug)]
pub enum BuyOperationFail {
    NotEnoughFunds(Funds),
    CardNotFoundOnBoard,
}

/// The aggregate game state. Board values are immutable snapshots: every
/// action consumes one board and yields the next.
#[derive(Debug)]
pub struct Board {
    pub players: Vec<Player>,
    pub player_turn: usize,
    pub bank: Funds,
    pub deck_one: Vec<TaggedCard>,
    pub deck_two: Vec<TaggedCard>,
    pub deck_three: Vec<TaggedCard>,
    pub sale_one: Vec<TaggedCard>,
    pub sale_two: Vec<TaggedCard>,
    pub sale_three: Vec<TaggedCard>,
    pub nobles: Vec<Noble>,
    pub action_needed: ActionType,
    pub round_type: RoundType,
    pub winner: Option<Winner>,
}

/// The mathematical model of a `Board`: players, decks, sale windows and
/// nobles as sequences, the winner as a `WinnerView`.
#[verifier::ext_equal]
pub struct BoardView {
    pub players: Seq<PlayerView>,
    pub player_turn: int,
    pub bank: Funds,
    pub deck_one: Seq<TaggedCard>,
    pub deck_two: Seq<TaggedCard>,
    pub deck_three: Seq<TaggedCard>,
    pub sale_one: Seq<TaggedCard>,
    pub sale_two: Seq<TaggedCard>,
    pub sale_three: Seq<TaggedCard>,
    pub nobles: Seq<Noble>,
    pub action_needed: ActionType,
    pub round_type: RoundType,
    pub winner: Option<WinnerView>,
}

impl View for Board {
    type V = BoardView;

    open spec fn view(&self) -> BoardView {
        BoardView {
            players: self.players@.map_values(|p: Player| p@),
            player_turn: self.player_turn as int,
            bank: self.bank,
            deck_one: self.deck_one@,
            deck_two: self.deck_two@,
            deck_three: self.deck_three@,
            sale_one: self.sale_one@,
            sale_two: self.sale_two@,
            sale_three: self.sale_three@,
            nobles: self.nobles@,
            action_needed: self.action_needed,
            round_type: self.round_type,
            winner: match &self.winner {
                Some(w) => Some(w@),
                None => None,
            },
        }
    }
}

impl BoardView {
    /// The deck of the given tier.
    pub open spec fn deck(self, tier: ProductionTier) -> Seq<TaggedCard> {
        match tier {
            ProductionTier::One => self.deck_one,
            ProductionTier::Two => self.deck_two,
            ProductionTier::Three => self.deck_three,
        }
    }

    /// The sale window of the given tier.
    pub open spec fn sale(self, tier: ProductionTier) -> Seq<TaggedCard> {
        match tier {
            ProductionTier::One => self.sale_one,
            ProductionTier::Two => self.sale_two,
            ProductionTier::Three => self.sale_three,
        }
    }

    /// This board with the given tier's deck replaced.
    pub open spec fn with_deck(self, tier: ProductionTier, d: Seq<TaggedCard>) -> BoardView {
        match tier {
            ProductionTier::One => BoardView { deck_one: d, ..self },
            ProductionTier::Two => BoardView { deck_two: d, ..self },
            ProductionTier::Three => BoardView { deck_three: d, ..self },
        }
    }

    /// This board with the given tier's sale window replaced.
    pub open spec fn with_sale(self, tier: ProductionTier, s: Seq<TaggedCard>) -> BoardView {
        match tier {
            ProductionTier::One => BoardView { sale_one: s, ..self },
            ProductionTier::Two => BoardView { sale_two: s, ..self },
            ProductionTier::Three => BoardView { sale_three: s, ..self },
        }
    }

    /// The player whose turn it is.
    pub open spec fn current_player(self) -> PlayerView {
        self.players[self.player_turn]
    }
}

/// The first position `>= i` holding a card with the given id.
pub open spec fn find_card_from(cards: Seq<TaggedCard>, id: CardId, i: int) -> Option<int>
    decreases cards.len() - i,
{
    if i < 0 || i >= cards.len() {
        None
    } else if cards[i].uid == id {
        Some(i)
    } else {
        find_card_from(cards, id, i + 1)
    }
}

/// Where a card with the given id is on sale: the first match, searching
/// the tiers in order and each sale window front to back.
pub open spec fn spec_find_card_pos(b: BoardView, id: CardId) -> Option<(ProductionTier, int)> {
    match find_card_from(b.sale_one, id, 0) {
        Some(i) => Some((ProductionTier::One, i)),
        None => match find_card_from(b.sale_two, id, 0) {
            Some(i) => Some((ProductionTier::Two, i)),
            None => match find_card_from(b.sale_three, id, 0) {
                Some(i) => Some((ProductionTier::Three, i)),
                None => None,
            },
        },
    }
}

/// The card with the given id on sale, if any.
pub open spec fn spec_find_card(b: BoardView, id: CardId) -> Option<TaggedCard> {
    match spec_find_card_pos(b, id) {
        Some(pos) => Some(b.sale(pos.0)[pos.1]),
        None => None,
    }
}

/// The noble pool with every noble of the given id removed.
pub open spec fn nobles_without(nobles: Seq<Noble>, id: NobleId) -> Seq<Noble> {
    nobles.filter(|n: Noble| n.id != id)
}

/// The first position `>= i` holding a noble with the given id.
pub open spec fn find_noble_from(nobles: Seq<Noble>, id: NobleId, i: int) -> Option<int>
    decreases nobles.len() - i,
{
    if i < 0 || i >= nobles.len() {
        None
    } else if nobles[i].id == id {
        Some(i)
    } else {
        find_noble_from(nobles, id, i + 1)
    }
}

/// The owned cards' production alone covers the cost, token by token.
pub open spec fn covers_cost(cards: Seq<TaggedCard>, cost: Funds) -> bool {
    crate::piece::forall_piece(
        |p: Piece| crate::production_card::count_produces(cards, p) >= cost.cnt(p),
    )
}

/// Some noble in the pool is attainable by the player: the player's
/// production-card credit alone (not stored tokens) covers its cost.
pub open spec fn can_select_noble_spec(player: PlayerView, nobles: Seq<Noble>) -> bool {
    exists|i: int|
        0 <= i < nobles.len() && #[trigger] covers_cost(player.production_cards, nobles[i].cost)
}

/// Some player has reached the win threshold.
pub open spec fn threshold_reached(players: Seq<PlayerView>) -> bool {
    exists|i: int|
        0 <= i < players.len() && #[trigger] spec_player_points(players[i])
            >= WINNING_POINTS_THRESHOLD as int
}

/// Player `i` wins or ties for the win: no player has more victory
/// points, and no player with as many points owns fewer production cards.
pub open spec fn is_winner_candidate(players: Seq<PlayerView>, i: int) -> bool {
    &&& 0 <= i < players.len()
    &&& forall|j: int|
        0 <= j < players.len() ==> #[trigger] spec_player_points(players[j])
            <= spec_player_points(players[i])
    &&& forall|j: int|
        0 <= j < players.len() && #[trigger] spec_player_points(players[j])
            == spec_player_points(players[i]) ==> players[i].production_cards.len()
            <= players[j].production_cards.len()
}

/// The ids of the winner candidates among the first `n` players, in board
/// order.
pub open spec fn winner_ids_upto(players: Seq<PlayerView>, n: int) -> Seq<PlayerId>
    decreases n,
{
    if n <= 0 {
        Seq::empty()
    } else {
        winner_ids_upto(players, n - 1) + (if is_winner_candidate(players, n - 1) {
            seq![players[n - 1].id]
        } else {
            Seq::empty()
        })
    }
}

/// The ids of all winner candidates, in board order.
pub open spec fn winner_ids(players: Seq<PlayerView>) -> Seq<PlayerId> {
    winner_ids_upto(players, players.len() as int)
}

/// The game's outcome for a player roster: the sole candidate if exactly
/// one remains, else all tied candidates as a draw, in board order.
pub open spec fn spec_winner(players: Seq<PlayerView>) -> Option<WinnerView> {
    if players.len() == 0 {
        None
    } else {
        let ids = winner_ids(players);
        if ids.len() == 1 {
            Some(WinnerView::Winner(ids[0]))
        } else {
            Some(WinnerView::Draw(ids))
        }
    }
}

/// Reserving a card from a sale window: the card must be on sale and the
/// hand below its cap of 3; the card joins the hand (it is not removed
/// from sale), and one wildcard moves from the bank to the player if the
/// bank holds any. The result is the new bank ledger and the new current
/// player.
pub open spec fn spec_reserve(b: BoardView, id: CardId) -> Result<
    (Funds, PlayerView),
    ReserveOperationFail,
> {
    match spec_find_card(b, id) {
        None => Err(ReserveOperationFail::CardNotFound),
        Some(card) => {
            let cur = b.current_player();
            if cur.reserved_cards.len() >= 3 {
                Err(ReserveOperationFail::MaximumReservedCardsExceed)
            } else {
                let take_golden = b.bank.golden > 0;
                let new_bank = if take_golden {
                    Funds { golden: (b.bank.golden - 1) as u8, ..b.bank }
                } else {
                    b.bank
                };
                let new_funds = if take_golden {
                    Funds { golden: crate::bank::sat_add(cur.funds.golden, 1), ..cur.funds }
                } else {
                    cur.funds
                };
                Ok(
                    (
                        new_bank,
                        PlayerView {
                            funds: new_funds,
                            reserved_cards: cur.reserved_cards.push(card),
                            ..cur
                        },
                    ),
                )
            }
        },
    }
}

/// The effect of an action before the end-of-turn protocol: the board
/// after the operation itself, and whether the action was a noble
/// selection. Meaningful when `pre.player_turn` indexes `pre.players` and
/// the phase gate of `spec_do_action` has passed.
pub open spec fn spec_effect(pre: BoardView, a: ActionView) -> Result<
    (BoardView, bool),
    ActionFail,
> {
    match a {
        ActionView::PassTheTurn => Ok((pre, false)),
        ActionView::CollectPieces(c, d) => {
            match spec_collect(pre.bank, pre.current_player().funds, c, d) {
                Err(e) => Err(ActionFail::InvalidCollect(e)),
                Ok(pair) => Ok(
                    (
                        BoardView {
                            bank: pair.0,
                            players: pre.players.update(
                                pre.player_turn,
                                PlayerView { funds: pair.1, ..pre.current_player() },
                            ),
                            ..pre
                        },
                        false,
                    ),
                ),
            }
        },
        ActionView::ReserveCardFromDeck(tier) => {
            let deck = pre.deck(tier);
            if deck.len() == 0 {
                Err(ActionFail::CannotReserveFromEmptyDeck)
            } else {
                let cur = pre.current_player();
                let with_card = PlayerView {
                    reserved_cards: cur.reserved_cards.push(deck.last()),
                    ..cur
                };
                Ok(
                    (
                        BoardView {
                            players: pre.players.update(pre.player_turn, with_card),
                            ..pre.with_deck(tier, deck.drop_last())
                        },
                        false,
                    ),
                )
            }
        },
        ActionView::ReserveCardFromBoard(id) => {
            match spec_reserve(pre, id) {
                Err(e) => Err(ActionFail::InvalidReserve(e)),
                Ok(pair) => Ok(
                    (
                        BoardView {
                            bank: pair.0,
                            players: pre.players.update(pre.player_turn, pair.1),
                            ..pre
                        },
                        false,
                    ),
                ),
            }
        },
        ActionView::BuyCard(id) => {
            match spec_find_card_pos(pre, id) {
                None => Err(ActionFail::InvalidBuyOperation(BuyOperationFail::CardNotFoundOnBoard)),
                Some(pos) => {
                    let tier = pos.0;
                    let idx = pos.1;
                    let card = pre.sale(tier)[idx];
                    let cur = pre.current_player();
                    match spec_buy(cur.funds, cur.production_cards, card.data.cost) {
                        Err(m) => Err(
                            ActionFail::InvalidBuyOperation(BuyOperationFail::NotEnoughFunds(m)),
                        ),
                        Ok(remaining) => {
                            let used = sub_all(cur.funds, remaining);
                            let deck = pre.deck(tier);
                            let new_sale = pre.sale(tier).remove(idx) + (if deck.len() > 0 {
                                seq![deck.last()]
                            } else {
                                Seq::empty()
                            });
                            let new_deck = if deck.len() > 0 {
                                deck.drop_last()
                            } else {
                                deck
                            };
                            let buyer = PlayerView {
                                funds: remaining,
                                production_cards: cur.production_cards.push(card),
                                ..cur
                            };
                            Ok(
                                (
                                    BoardView {
                                        bank: spec_add(pre.bank, used),
                                        players: pre.players.update(pre.player_turn, buyer),
                                        ..pre.with_sale(tier, new_sale).with_deck(tier, new_deck)
                                    },
                                    false,
                                ),
                            )
                        },
                    }
                },
            }
        },
        ActionView::SelectNoble(nid) => {
            match find_noble_from(pre.nobles, nid, 0) {
                None => Err(ActionFail::NobleNotFound),
                Some(i) => {
                    let noble = pre.nobles[i];
                    let cur = pre.current_player();
                    let with_noble = PlayerView { nobles: cur.nobles.push(noble), ..cur };
                    Ok(
                        (
                            BoardView {
                                action_needed: ActionType::Normal,
                                nobles: nobles_without(pre.nobles, nid),
                                players: pre.players.update(pre.player_turn, with_noble),
                                ..pre
                            },
                            true,
                        ),
                    )
                },
            }
        },
    }
}

/// The end-of-turn protocol after a successful effect `mid` of an action
/// taken on `pre`:
/// 1. if the action was not itself a noble selection and the now-current
///    player can attain a noble, the phase becomes `SelectNoble` and the
///    turn is held;
/// 2. if any player has reached the win threshold, the round becomes
///    `LastRound` (and never reverts);
/// 3. if the turn is not held: when the pre-action current player was the
///    last seat and the round is `LastRound`, the winner is computed from
///    the pre-action roster; then the turn advances cyclically.
pub open spec fn spec_post(pre: BoardView, mid: BoardView, selected: bool) -> BoardView {
    let can_sel = !selected && can_select_noble_spec(mid.current_player(), mid.nobles);
    let round = if threshold_reached(mid.players) {
        RoundType::LastRound
    } else {
        mid.round_type
    };
    if can_sel {
        BoardView { action_needed: ActionType::SelectNoble, round_type: round, ..mid }
    } else {
        let w = if pre.player_turn == pre.players.len() - 1 && round == RoundType::LastRound {
            spec_winner(pre.players)
        } else {
            mid.winner
        };
        let next = if mid.player_turn == mid.players.len() - 1 {
            0int
        } else {
            mid.player_turn + 1
        };
        BoardView { round_type: round, winner: w, player_turn: next, ..mid }
    }
}

/// The board's whole transition relation: the phase gate, then the
/// action's effect, then the end-of-turn protocol. Meaningful when
/// `pre.player_turn` indexes `pre.players`.
pub open spec fn spec_do_action(pre: BoardView, a: ActionView) -> Result<BoardView, ActionFail> {
    if pre.action_needed == ActionType::Normal && (a matches ActionView::SelectNoble(_)) {
        Err(ActionFail::YouCannotSelectNobleNow)
    } else if pre.action_needed == ActionType::SelectNoble && !(a
        matches ActionView::SelectNoble(_)) {
        Err(ActionFail::YouNeedToSelectNoble)
    } else {
        match spec_effect(pre, a) {
            Err(e) => Err(e),
            Ok(t) => Ok(spec_post(pre, t.0, t.1)),
        }
    }
}

/// Replacing one player leaves the roster's model updated at that seat.
pub proof fn lemma_players_view_update(a: Seq<Player>, i: int, p: Player)
    requires
        0 <= i < a.len(),
    ensures
        a.update(i, p).map_values(|q: Player| q@) =~= a.map_values(|q: Player| q@).update(i, p@),
{
}

/// How many cards the initial sale window of a deck holds.
pub open spec fn initial_sale_count(d: Seq<TaggedCard>) -> int {
    if d.len() >= 4 {
        4
    } else {
        d.len() as int
    }
}

/// The initial sale window drawn from a deck: up to four cards off the
/// top (the deck's end), in draw order.
pub open spec fn initial_sale(d: Seq<TaggedCard>) -> Seq<TaggedCard> {
    Seq::new(initial_sale_count(d) as nat, |i: int| d[d.len() - 1 - i])
}

/// What remains of a deck after the initial sale window is drawn.
pub open spec fn initial_deck(d: Seq<TaggedCard>) -> Seq<TaggedCard> {
    d.take(d.len() - initial_sale_count(d))
}

/// A fresh board's windows: each tier sells exactly `min(4, deck size)`
/// cards, and the rest of that deck stays to be drawn.
pub proof fn lemma_initial_window_counts(d: Seq<TaggedCard>)
    ensures
        initial_sale(d).len() == (if d.len() < 4 {
            d.len() as int
        } else {
            4
        }),
        initial_deck(d).len() == d.len() - initial_sale(d).len(),
{
}

/// Draw up to four cards off the top of a deck into a fresh sale window.
#[verifier::loop_isolation(false)]
fn fill_sale(deck: &mut Vec<TaggedCard>) -> (sale: Vec<TaggedCard>)
    ensures
        final(deck)@ == initial_deck(old(deck)@),
        sale@ == initial_sale(old(deck)@),
{
    let mut sale: Vec<TaggedCard> = Vec::new();
    let n = deck.len();
    let k = if n >= 4 {
        4usize
    } else {
        n
    };
    for j in 0..k
        invariant
            deck@ == old(deck)@.take(n - j),
            sale@.len() == j,
            forall|i: int| 0 <= i < j ==> sale@[i] == old(deck)@[n - 1 - i],
    {
        let c = match deck.pop() {
            Some(c) => c,
            None => {
                proof {
                    assert(false);
                }
                unreached()
            },
        };
        sale.push(c);
        proof {
            assert(deck@ =~= old(deck)@.take(n - (j + 1)));
        }
    }
    proof {
        assert(sale@ =~= initial_sale(old(deck)@));
        assert(deck@ =~= initial_deck(old(deck)@));
    }
    sale
}

impl Board {
    /// A fresh board: sale windows drawn from the decks, first seat to
    /// play, normal phase and round, no winner yet.
    pub fn new(
        players: Vec<Player>,
        bank: Funds,
        deck_one: Vec<TaggedCard>,
        deck_two: Vec<TaggedCard>,
        deck_three: Vec<TaggedCard>,
        nobles: Vec<Noble>,
    ) -> (b: Board)
        ensures
            b@ == (BoardView {
                players: players@.map_values(|p: Player| p@),
                player_turn: 0,
                bank,
                deck_one: initial_deck(deck_one@),
                deck_two: initial_deck(deck_two@),
                deck_three: initial_deck(deck_three@),
                sale_one: initial_sale(deck_one@),
                sale_two: initial_sale(deck_two@),
                sale_three: initial_sale(deck_three@),
                nobles: nobles@,
                action_needed: ActionType::Normal,
                round_type: RoundType::Normal,
                winner: None,
            }),
    {
        let mut deck_one = deck_one;
        let mut deck_two = deck_two;
        let mut deck_three = deck_three;
        let sale_one = fill_sale(&mut deck_one);
        let sale_two = fill_sale(&mut deck_two);
        let sale_three = fill_sale(&mut deck_three);
        let b = Board {
            players,
            player_turn: 0,
            bank,
            deck_one,
            deck_two,
            deck_three,
            sale_one,
            sale_two,
            sale_three,
            nobles,
            action_needed: ActionType::Normal,
            round_type: RoundType::Normal,
            winner: None,
        };
        proof {
            assert(b@ =~= (BoardView {
                players: b.players@.map_values(|p: Player| p@),
                player_turn: 0,
                bank,
                deck_one: b.deck_one@,
                deck_two: b.deck_two@,
                deck_three: b.deck_three@,
                sale_one: b.sale_one@,
                sale_two: b.sale_two@,
                sale_three: b.sale_three@,
                nobles: b.nobles@,
                action_needed: ActionType::Normal,
                round_type: RoundType::Normal,
                winner: None,
            }));
        }
        b
    }

    /// A copy of the given tier's draw deck.
    pub fn get_deck(&self, tier: &ProductionTier) -> (r: Vec<TaggedCard>)
        ensures
            r@ == self@.deck(*tier),
    {
        match tier {
            ProductionTier::One => crate::util::copy_vec(&self.deck_one),
            ProductionTier::Two => crate::util::copy_vec(&self.deck_two),
            ProductionTier::Three => crate::util::copy_vec(&self.deck_three),
        }
    }

    /// A copy of the given tier's sale window.
    pub fn get_cards_for_sale(&self, tier: &ProductionTier) -> (r: Vec<TaggedCard>)
        ensures
            r@ == self@.sale(*tier),
    {
        match tier {
            ProductionTier::One => crate::util::copy_vec(&self.sale_one),
            ProductionTier::Two => crate::util::copy_vec(&self.sale_two),
            ProductionTier::Three => crate::util::copy_vec(&self.sale_three),
        }
    }

    /// A copy of the noble pool.
    pub fn get_nobles(&self) -> (r: Vec<Noble>)
        ensures
            r@ == self@.nobles,
    {
        crate::util::copy_vec(&self.nobles)
    }

    /// The players in turn order.
    pub fn get_players(&self) -> (r: &Vec<Player>)
        ensures
            r@ == self.players@,
    {
        &self.players
    }

    /// The player whose turn it is.
    pub fn get_who_is_playing_now(&self) -> (r: &Player)
        requires
            self@.player_turn < self@.players.len(),
        ensures
            r@ == self@.current_player(),
    {
        &self.players[self.player_turn]
    }

    /// The card with the given id on sale, if any: the first match,
    /// searching the tiers in order.
    pub fn get_card_from_board(&self, card_id: &CardId) -> (r: Option<TaggedCard>)
        ensures
            r == spec_find_card(self@, *card_id),
    {
        match self.find_card_pos(card_id) {
            None => None,
            Some((tier, idx)) => {
                match tier {
                    ProductionTier::One => Some(self.sale_one[idx]),
                    ProductionTier::Two => Some(self.sale_two[idx]),
                    ProductionTier::Three => Some(self.sale_three[idx]),
                }
            },
        }
    }

    /// Where the card with the given id is on sale, if anywhere.
    fn find_card_pos(&self, card_id: &CardId) -> (r: Option<(ProductionTier, usize)>)
        ensures
            match r {
                Some(pos) => spec_find_card_pos(self@, *card_id) == Some(
                    (pos.0, pos.1 as int),
                ) && pos.1 < self@.sale(pos.0).len(),
                None => spec_find_card_pos(self@, *card_id) == None::<(ProductionTier, int)>,
            },
    {
        if let Some(i) = find_card_in(&self.sale_one, card_id) {
            return Some((ProductionTier::One, i));
        }
        if let Some(i) = find_card_in(&self.sale_two, card_id) {
            return Some((ProductionTier::Two, i));
        }
        if let Some(i) = find_card_in(&self.sale_three, card_id) {
            return Some((ProductionTier::Three, i));
        }
        None
    }

    /// The seat after the current one, cyclically.
    fn get_who_plays_next(&self) -> (r: usize)
        requires
            self@.player_turn < self@.players.len(),
        ensures
            r == if self@.player_turn == self@.players.len() - 1 {
                0int
            } else {
                self@.player_turn + 1
            },
    {
        let n_of_players = self.players.len();
        if self.player_turn == n_of_players - 1 {
            return 0;
        }
        self.player_turn + 1
    }

    /// Whether the current seat is the last in turn order.
    fn is_last_player_turn(&self) -> (r: bool)
        requires
            self@.players.len() >= 1,
        ensures
            r == (self@.player_turn == self@.players.len() - 1),
    {
        self.player_turn == self.players.len() - 1
    }
}

impl Board {
    /// Whether the current player can attain some noble in the pool by
    /// production credit alone.
    fn can_select_noble(&self) -> (r: bool)
        requires
            self@.player_turn < self@.players.len(),
        ensures
            r == can_select_noble_spec(self@.current_player(), self@.nobles),
    {
        let player = &self.players[self.player_turn];
        let n = self.nobles.len();
        for i in 0..n
            invariant
                n == self.nobles@.len(),
                self@.player_turn < self@.players.len(),
                player@ == self@.current_player(),
                forall|j: int|
                    0 <= j < i ==> !(#[trigger] covers_cost(
                        self@.current_player().production_cards,
                        self@.nobles[j].cost,
                    )),
        {
            if covers_cost_exec(&player.production_cards, &self.nobles[i].cost) {
                proof {
                    assert(covers_cost(
                        self@.current_player().production_cards,
                        self@.nobles[i as int].cost,
                    ));
                }
                return true;
            }
        }
        false
    }

    /// Whether some player's victory points have reached the win
    /// threshold.
    fn has_some_player_passed_win_threshold(&self) -> (r: bool)
        ensures
            r == threshold_reached(self@.players),
    {
        let n = self.players.len();
        for i in 0..n
            invariant
                n == self.players@.len(),
                forall|j: int|
                    0 <= j < i ==> #[trigger] spec_player_points(self@.players[j]) < (
                    WINNING_POINTS_THRESHOLD as int),
        {
            if self.players[i].total_victory_points() >= WINNING_POINTS_THRESHOLD as u128 {
                proof {
                    assert(spec_player_points(self@.players[i as int])
                        >= WINNING_POINTS_THRESHOLD as int);
                }
                return true;
            }
        }
        false
    }

    /// The game's outcome for the current roster: among the players with
    /// the most victory points, those owning the fewest production cards;
    /// one sole winner, or the tied players as a draw in board order.
    fn get_winner(&self) -> (r: Option<Winner>)
        ensures
            match r {
                Some(w) => spec_winner(self@.players) == Some(w@),
                None => spec_winner(self@.players) == None::<WinnerView>,
            },
    {
        let ghost pv = self@.players;
        let n = self.players.len();
        if n == 0 {
            return None;
        }

        let mut max_points = self.players[0].total_victory_points();
        proof {
            assert(spec_player_points(pv[0]) == max_points);
        }
        for i in 1..n
            invariant
                n == pv.len(),
                pv == self@.players,
                1 <= i <= n,
                exists|j: int| 0 <= j < i && #[trigger] spec_player_points(pv[j]) == max_points,
                forall|j: int| 0 <= j < i ==> #[trigger] spec_player_points(pv[j]) <= max_points,
        {
            let p = self.players[i].total_victory_points();
            if p > max_points {
                max_points = p;
                proof {
                    assert(spec_player_points(pv[i as int]) == max_points);
                }
            } else {
                proof {
                    assert(spec_player_points(pv[i as int]) <= max_points);
                }
            }
        }

        let mut min_cards: Option<usize> = None;
        for i in 0..n
            invariant
                n == pv.len(),
                pv == self@.players,
                exists|j: int| 0 <= j < n && #[trigger] spec_player_points(pv[j]) == max_points,
                forall|j: int| 0 <= j < n ==> #[trigger] spec_player_points(pv[j]) <= max_points,
                match min_cards {
                    None => forall|j: int|
                        0 <= j < i ==> #[trigger] spec_player_points(pv[j]) != max_points,
                    Some(m) => {
                        &&& exists|j: int|
                            0 <= j < i && #[trigger] spec_player_points(pv[j]) == max_points
                                && pv[j].production_cards.len() == m
                        &&& forall|j: int|
                            0 <= j < i && #[trigger] spec_player_points(pv[j]) == max_points
                                ==> m <= pv[j].production_cards.len()
                    },
                },
        {
            let p = self.players[i].total_victory_points();
            if p == max_points {
                let cards_len = self.players[i].production_cards.len();
                proof {
                    assert(spec_player_points(pv[i as int]) == max_points);
                    assert(pv[i as int].production_cards.len() == cards_len);
                }
                let ghost old_min = min_cards;
                min_cards = match min_cards {
                    None => Some(cards_len),
                    Some(m) => if cards_len < m {
                        Some(cards_len)
                    } else {
                        Some(m)
                    },
                };
                proof {
                    let m2 = min_cards->Some_0;
                    if m2 == cards_len {
                        assert(spec_player_points(pv[i as int]) == max_points && pv[
                            i as int
                        ].production_cards.len() == m2);
                    } else {
                        let j0 = choose|j: int|
                            0 <= j < i && #[trigger] spec_player_points(pv[j]) == max_points && pv[
                                j
                            ].production_cards.len() == m2;
                        assert(0 <= j0 < i + 1 && spec_player_points(pv[j0]) == max_points && pv[
                            j0
                        ].production_cards.len() == m2);
                    }
                }
            } else {
                proof {
                    assert(spec_player_points(pv[i as int]) != max_points);
                }
            }
        }
        let mc = match min_cards {
            Some(m) => m,
            None => {
                proof {
                    assert(false);
                }
                unreached()
            },
        };

        let mut ids: Vec<PlayerId> = Vec::new();
        for i in 0..n
            invariant
                n == pv.len(),
                pv == self@.players,
                exists|j: int|
                    0 <= j < n && #[trigger] spec_player_points(pv[j]) == max_points
                        && pv[j].production_cards.len() == mc,
                forall|j: int| 0 <= j < n ==> #[trigger] spec_player_points(pv[j]) <= max_points,
                forall|j: int|
                    0 <= j < n && #[trigger] spec_player_points(pv[j]) == max_points ==> mc <= pv[
                        j
                    ].production_cards.len(),
                ids@ == winner_ids_upto(pv, i as int),
        {
            let p = self.players[i].total_victory_points();
            let cards_len = self.players[i].production_cards.len();
            proof {
                assert(is_winner_candidate(pv, i as int) <==> (spec_player_points(pv[i as int])
                    == max_points && pv[i as int].production_cards.len() == mc)) by {
                    if spec_player_points(pv[i as int]) == max_points && pv[
                        i as int
                    ].production_cards.len() == mc {
                        assert forall|j: int|
                            0 <= j < n && #[trigger] spec_player_points(pv[j])
                                == spec_player_points(pv[i as int]) implies pv[
                            i as int
                        ].production_cards.len() <= pv[j].production_cards.len() by {}
                    }
                    if is_winner_candidate(pv, i as int) {
                        let j0 = choose|j: int|
                            0 <= j < n && #[trigger] spec_player_points(pv[j]) == max_points && pv[
                                j
                            ].production_cards.len() == mc;
                        assert(spec_player_points(pv[j0]) <= spec_player_points(pv[i as int]));
                        assert(spec_player_points(pv[i as int]) == max_points);
                        assert(pv[i as int].production_cards.len() <= pv[
                            j0
                        ].production_cards.len());
                    }
                }
            }
            if p == max_points && cards_len == mc {
                ids.push(self.players[i].id);
                proof {
                    assert(self.players[i as int].id == pv[i as int].id);
                    assert(ids@ =~= winner_ids_upto(pv, i + 1));
                }
            } else {
                proof {
                    assert(ids@ =~= winner_ids_upto(pv, i + 1));
                }
            }
        }

        if ids.len() == 1 {
            return Some(Winner::Winner(ids[0]));
        }
        Some(Winner::Draw(ids))
    }
}

/// The owned cards' production alone covers the cost, token by token.
fn covers_cost_exec(cards: &Vec<TaggedCard>, cost: &Funds) -> (r: bool)
    ensures
        r == covers_cost(cards@, *cost),
{
    let r = count_produces_exec(cards, Piece::Red) >= cost.red as usize
        && count_produces_exec(cards, Piece::Green) >= cost.green as usize
        && count_produces_exec(cards, Piece::Blue) >= cost.blue as usize
        && count_produces_exec(cards, Piece::Brown) >= cost.brown as usize
        && count_produces_exec(cards, Piece::White) >= cost.white as usize
        && count_produces_exec(cards, Piece::Golden) >= cost.golden as usize;
    r
}

/// Put `p` in seat `i`, leaving the roster's model updated at that seat.
fn replace_player(players: &mut Vec<Player>, i: usize, p: Player)
    requires
        i < old(players)@.len(),
    ensures
        final(players)@.len() == old(players)@.len(),
        final(players)@.map_values(|q: Player| q@) == old(players)@.map_values(
            |q: Player| q@,
        ).update(i as int, p@),
{
    let ghost before = players@;
    let ghost pv = p@;
    let _removed = players.remove(i);
    players.insert(i, p);
    proof {
        assert(players@ =~= before.update(i as int, p));
        lemma_players_view_update(before, i as int, p);
        assert(players@.map_values(|q: Player| q@) =~= before.map_values(|q: Player| q@).update(
            i as int,
            pv,
        ));
    }
}

/// The first noble with the given id in the pool, front to back.
fn find_noble_in(nobles: &Vec<Noble>, noble_id: &NobleId) -> (r: Option<usize>)
    ensures
        match r {
            Some(i) => find_noble_from(nobles@, *noble_id, 0) == Some(i as int) && i
                < nobles@.len(),
            None => find_noble_from(nobles@, *noble_id, 0) == None::<int>,
        },
{
    let n = nobles.len();
    for i in 0..n
        invariant
            n == nobles@.len(),
            find_noble_from(nobles@, *noble_id, 0) == find_noble_from(
                nobles@,
                *noble_id,
                i as int,
            ),
    {
        if nobles[i].id.id == noble_id.id {
            return Some(i);
        }
    }
    None
}

/// The noble pool with every noble of the given id removed.
fn filter_out_noble(nobles: &Vec<Noble>, noble_id: &NobleId) -> (r: Vec<Noble>)
    ensures
        r@ == nobles_without(nobles@, *noble_id),
{
    let mut r: Vec<Noble> = Vec::new();
    let n = nobles.len();
    assert(nobles@.take(0int) =~= Seq::<Noble>::empty());
    assert(Seq::<Noble>::empty().filter(|nb: Noble| nb.id != *noble_id) =~= Seq::<Noble>::empty());
    for i in 0..n
        invariant
            n == nobles@.len(),
            r@ == nobles_without(nobles@.take(i as int), *noble_id),
    {
        proof {
            assert(nobles@.take(i + 1).drop_last() =~= nobles@.take(i as int));
            assert(nobles@.take(i + 1).last() == nobles@[i as int]);
            reveal_with_fuel(Seq::filter, 2);
        }
        if !(nobles[i].id.id == noble_id.id) {
            r.push(nobles[i]);
        }
        proof {
            assert(r@ =~= nobles_without(nobles@.take(i + 1), *noble_id));
        }
    }
    proof {
        assert(nobles@.take(n as int) =~= nobles@);
    }
    r
}

impl Board {
    /// Run the collect-and-discard protocol for the current player
    /// against the bank; on success the bank and that player's funds are
    /// replaced.
    fn action_collect_pieces(
        board: Board,
        collect_pieces: &Vec<Piece>,
        discard_pieces: &Vec<Piece>,
    ) -> (r: Result<Board, ActionFail>)
        requires
            board@.player_turn < board@.players.len(),
        ensures
            match r {
                Ok(nb) => spec_effect(
                    board@,
                    ActionView::CollectPieces(collect_pieces@, discard_pieces@),
                ) == Ok::<(BoardView, bool), ActionFail>((nb@, false)) && nb@.player_turn
                    == board@.player_turn && nb@.players.len() == board@.players.len(),
                Err(e) => spec_effect(
                    board@,
                    ActionView::CollectPieces(collect_pieces@, discard_pieces@),
                ) == Err::<(BoardView, bool), ActionFail>(e),
            },
    {
        let ghost pre = board@;
        let mut b = board;
        let turn = b.player_turn;
        let player_funds = b.players[turn].funds;
        let collect_request = CollectRequest::new(
            b.bank,
            player_funds,
            crate::util::copy_vec(collect_pieces),
            crate::util::copy_vec(discard_pieces),
        );
        match Funds::collect(collect_request) {
            Err(e) => Err(ActionFail::InvalidCollect(e)),
            Ok(success) => {
                b.bank = success.bank_funds;
                let ghost players0 = b.players@;
                let mut p = b.players.remove(turn);
                p.funds = success.player_funds;
                b.players.insert(turn, p);
                proof {
                    let pair = spec_collect(
                        pre.bank,
                        pre.current_player().funds,
                        collect_pieces@,
                        discard_pieces@,
                    )->Ok_0;
                    assert(p@ =~= (PlayerView { funds: pair.1, ..pre.current_player() }));
                    assert(b.players@ =~= players0.update(turn as int, p));
                    lemma_players_view_update(players0, turn as int, p);
                    assert(b@ =~= (BoardView {
                        bank: pair.0,
                        players: pre.players.update(
                            pre.player_turn,
                            PlayerView { funds: pair.1, ..pre.current_player() },
                        ),
                        ..pre
                    }));
                }
                Ok(b)
            },
        }
    }

    /// Pop the top card of the given tier's deck into the current
    /// player's reserved hand.
    fn action_reserve_card_from_deck(board: Board, tier: &ProductionTier) -> (r: Result<
        Board,
        ActionFail,
    >)
        requires
            board@.player_turn < board@.players.len(),
        ensures
            match r {
                Ok(nb) => spec_effect(board@, ActionView::ReserveCardFromDeck(*tier)) == Ok::<
                    (BoardView, bool),
                    ActionFail,
                >((nb@, false)) && nb@.player_turn == board@.player_turn && nb@.players.len()
                    == board@.players.len(),
                Err(e) => spec_effect(board@, ActionView::ReserveCardFromDeck(*tier)) == Err::<
                    (BoardView, bool),
                    ActionFail,
                >(e),
            },
    {
        let ghost pre = board@;
        let mut b = board;
        let card_drawn = match tier {
            ProductionTier::One => b.deck_one.pop(),
            ProductionTier::Two => b.deck_two.pop(),
            ProductionTier::Three => b.deck_three.pop(),
        };
        let card = match card_drawn {
            None => {
                return Err(ActionFail::CannotReserveFromEmptyDeck);
            },
            Some(c) => c,
        };
        let turn = b.player_turn;
        let ghost players0 = b.players@;
        let mut p = b.players.remove(turn);
        p.reserved_cards.push(card);
        b.players.insert(turn, p);
        proof {
            let cur = pre.current_player();
            let deck = pre.deck(*tier);
            assert(p@ =~= (PlayerView { reserved_cards: cur.reserved_cards.push(deck.last()), ..cur
            }));
            assert(b.players@ =~= players0.update(turn as int, p));
            lemma_players_view_update(players0, turn as int, p);
            assert(b@ =~= (BoardView {
                players: pre.players.update(
                    pre.player_turn,
                    PlayerView { reserved_cards: cur.reserved_cards.push(deck.last()), ..cur },
                ),
                ..pre.with_deck(*tier, deck.drop_last())
            }));
        }
        Ok(b)
    }

    /// Reserve the card with the given id from a sale window for the
    /// current player, wrapping any refusal as an action failure.
    fn action_reserve_card(board: Board, card_id: &CardId) -> (r: Result<Board, ActionFail>)
        requires
            board@.player_turn < board@.players.len(),
        ensures
            match r {
                Ok(nb) => spec_effect(board@, ActionView::ReserveCardFromBoard(*card_id)) == Ok::<
                    (BoardView, bool),
                    ActionFail,
                >((nb@, false)) && nb@.player_turn == board@.player_turn && nb@.players.len()
                    == board@.players.len(),
                Err(e) => spec_effect(board@, ActionView::ReserveCardFromBoard(*card_id)) == Err::<
                    (BoardView, bool),
                    ActionFail,
                >(e),
            },
    {
        match Self::reserve_card(board, card_id) {
            Ok(nb) => Ok(nb),
            Err(e) => Err(ActionFail::InvalidReserve(e)),
        }
    }

    /// Reserve the card with the given id: apply the player-level
    /// reservation of `spec_reserve` to this board.
    fn reserve_card(board: Board, card_id: &CardId) -> (r: Result<Board, ReserveOperationFail>)
        requires
            board@.player_turn < board@.players.len(),
        ensures
            match r {
                Ok(nb) => spec_effect(board@, ActionView::ReserveCardFromBoard(*card_id)) == Ok::<
                    (BoardView, bool),
                    ActionFail,
                >((nb@, false)) && nb@.player_turn == board@.player_turn && nb@.players.len()
                    == board@.players.len(),
                Err(e) => spec_reserve(board@, *card_id) == Err::<
                    (Funds, PlayerView),
                    ReserveOperationFail,
                >(e),
            },
    {
        let ghost pre = board@;
        let success = match Player::reserve_card(&board, card_id) {
            Ok(s) => s,
            Err(e) => {
                return Err(e);
            },
        };
        let mut b = board;
        b.bank = success.bank_funds;
        let turn = b.player_turn;
        let ghost pv = success.player@;
        let mut players = b.players;
        replace_player(&mut players, turn, success.player);
        b.players = players;
        proof {
            let pair = spec_reserve(pre, *card_id)->Ok_0;
            assert(b@.players =~= pre.players.update(pre.player_turn, pair.1));
            assert(b@ =~= (BoardView {
                bank: pair.0,
                players: pre.players.update(pre.player_turn, pair.1),
                ..pre
            }));
        }
        Ok(b)
    }

    /// Buy the card with the given id off a sale window: pay per the
    /// purchase algorithm, move the card to the buyer's production, draw
    /// a replacement if that tier's deck has one, and credit the payment
    /// to the bank.
    fn action_buy_production_card(board: Board, card_id: &CardId) -> (r: Result<Board, ActionFail>)
        requires
            board@.player_turn < board@.players.len(),
        ensures
            match r {
                Ok(nb) => spec_effect(board@, ActionView::BuyCard(*card_id)) == Ok::<
                    (BoardView, bool),
                    ActionFail,
                >((nb@, false)) && nb@.player_turn == board@.player_turn && nb@.players.len()
                    == board@.players.len(),
                Err(e) => spec_effect(board@, ActionView::BuyCard(*card_id)) == Err::<
                    (BoardView, bool),
                    ActionFail,
                >(e),
            },
    {
        let ghost pre = board@;
        let mut b = board;
        let (tier, idx) = match b.find_card_pos(card_id) {
            None => {
                return Err(ActionFail::InvalidBuyOperation(BuyOperationFail::CardNotFoundOnBoard));
            },
            Some(pos) => pos,
        };
        let card = match tier {
            ProductionTier::One => b.sale_one[idx],
            ProductionTier::Two => b.sale_two[idx],
            ProductionTier::Three => b.sale_three[idx],
        };
        let turn = b.player_turn;
        let player_ref = &b.players[turn];
        let player_clone = player_ref.clone();
        let ghost cur = pre.current_player();
        let player_remaining_funds = match ProductionCard::buy(player_clone, card.data) {
            Err(BuyOperationFail::NotEnoughFunds(m)) => {
                return Err(ActionFail::InvalidBuyOperation(BuyOperationFail::NotEnoughFunds(m)));
            },
            Err(BuyOperationFail::CardNotFoundOnBoard) => {
                proof {
                    assert(false);
                }
                unreached()
            },
            Ok(f) => f,
        };
        proof {
            crate::production_card::lemma_buy_le(cur.funds, cur.production_cards, card.data.cost);
            crate::piece::lemma_forall_piece(
                |p: Piece| player_remaining_funds.cnt(p) <= cur.funds.cnt(p),
            );
        }
        let used_coins = match b.players[turn].funds.sub(player_remaining_funds) {
            Ok(u) => u,
            Err(_) => {
                proof {
                    assert(false);
                }
                unreached()
            },
        };
        let ghost players0 = b.players@;
        let mut p = b.players.remove(turn);
        p.funds = player_remaining_funds;
        p.production_cards.push(card);
        b.players.insert(turn, p);
        match tier {
            ProductionTier::One => {
                let _bought = b.sale_one.remove(idx);
                match b.deck_one.pop() {
                    Some(card_drawn) => b.sale_one.push(card_drawn),
                    None => {},
                }
            },
            ProductionTier::Two => {
                let _bought = b.sale_two.remove(idx);
                match b.deck_two.pop() {
                    Some(card_drawn) => b.sale_two.push(card_drawn),
                    None => {},
                }
            },
            ProductionTier::Three => {
                let _bought = b.sale_three.remove(idx);
                match b.deck_three.pop() {
                    Some(card_drawn) => b.sale_three.push(card_drawn),
                    None => {},
                }
            },
        }
        b.bank = b.bank.add(used_coins);
        proof {
            let remaining = spec_buy(cur.funds, cur.production_cards, card.data.cost)->Ok_0;
            let used = sub_all(cur.funds, remaining);
            let deck = pre.deck(tier);
            let new_sale = pre.sale(tier).remove(idx as int) + (if deck.len() > 0 {
                seq![deck.last()]
            } else {
                Seq::empty()
            });
            let new_deck = if deck.len() > 0 {
                deck.drop_last()
            } else {
                deck
            };
            let buyer = PlayerView {
                funds: remaining,
                production_cards: cur.production_cards.push(card),
                ..cur
            };
            assert(p@ =~= buyer);
            assert(b.players@ =~= players0.update(turn as int, p));
            lemma_players_view_update(players0, turn as int, p);
            assert(b@.sale(tier) =~= new_sale);
            assert(b@ =~= (BoardView {
                bank: spec_add(pre.bank, used),
                players: pre.players.update(pre.player_turn, buyer),
                ..pre.with_sale(tier, new_sale).with_deck(tier, new_deck)
            }));
        }
        Ok(b)
    }

    /// Take the noble with the given id from the pool into the current
    /// player's nobles and return the phase to normal.
    fn action_select_noble(board: Board, noble_id: &NobleId) -> (r: Result<Board, ActionFail>)
        requires
            board@.player_turn < board@.players.len(),
        ensures
            match r {
                Ok(nb) => spec_effect(board@, ActionView::SelectNoble(*noble_id)) == Ok::<
                    (BoardView, bool),
                    ActionFail,
                >((nb@, true)) && nb@.player_turn == board@.player_turn && nb@.players.len()
                    == board@.players.len(),
                Err(e) => spec_effect(board@, ActionView::SelectNoble(*noble_id)) == Err::<
                    (BoardView, bool),
                    ActionFail,
                >(e),
            },
    {
        let ghost pre = board@;
        let mut b = board;
        b.action_needed = ActionType::Normal;
        let idx = match find_noble_in(&b.nobles, noble_id) {
            None => {
                return Err(ActionFail::NobleNotFound);
            },
            Some(i) => i,
        };
        let noble = b.nobles[idx];
        let remaining_nobles = filter_out_noble(&b.nobles, noble_id);
        b.nobles = remaining_nobles;
        let turn = b.player_turn;
        let ghost players0 = b.players@;
        let mut p = b.players.remove(turn);
        p.nobles.push(noble);
        b.players.insert(turn, p);
        proof {
            let cur = pre.current_player();
            assert(p@ =~= (PlayerView { nobles: cur.nobles.push(noble), ..cur }));
            assert(b.players@ =~= players0.update(turn as int, p));
            lemma_players_view_update(players0, turn as int, p);
            assert(b@ =~= (BoardView {
                action_needed: ActionType::Normal,
                nobles: nobles_without(pre.nobles, *noble_id),
                players: pre.players.update(pre.player_turn, p@),
                ..pre
            }));
        }
        Ok(b)
    }

    /// Dispatch one player action: the phase gate, the action's effect,
    /// then the end-of-turn protocol, per `spec_do_action`. Consumes the
    /// board and returns the next snapshot, or the refusal.
    pub fn do_action(board: Board, action: &Action) -> (r: Result<Board, ActionFail>)
        requires
            board@.player_turn < board@.players.len(),
        ensures
            match r {
                Ok(nb) => spec_do_action(board@, action@) == Ok::<BoardView, ActionFail>(nb@)
                    && nb@.player_turn < nb@.players.len(),
                Err(e) => spec_do_action(board@, action@) == Err::<BoardView, ActionFail>(e),
            },
    {
        let ghost pre = board@;
        match board.action_needed {
            ActionType::Normal => {
                if let Action::SelectNoble(_) = action {
                    return Err(ActionFail::YouCannotSelectNobleNow);
                }
            },
            ActionType::SelectNoble => {
                match action {
                    Action::SelectNoble(_) => {},
                    _ => {
                        return Err(ActionFail::YouNeedToSelectNoble);
                    },
                }
            },
        }

        let was_last = board.is_last_player_turn();
        let pre_winner = board.get_winner();

        let (mut new_board_state, has_selected_noble): (Board, bool) = match action {
            Action::PassTheTurn => (board, false),
            Action::ReserveCardFromDeck(tier) => {
                match Self::action_reserve_card_from_deck(board, tier) {
                    Ok(nb) => (nb, false),
                    Err(e) => {
                        return Err(e);
                    },
                }
            },
            Action::CollectPieces(collect_pieces, discard_pieces) => {
                match Self::action_collect_pieces(board, collect_pieces, discard_pieces) {
                    Ok(nb) => (nb, false),
                    Err(e) => {
                        return Err(e);
                    },
                }
            },
            Action::ReserveCardFromBoard(card_id) => {
                match Self::action_reserve_card(board, card_id) {
                    Ok(nb) => (nb, false),
                    Err(e) => {
                        return Err(e);
                    },
                }
            },
            Action::BuyCard(card_id) => {
                match Self::action_buy_production_card(board, card_id) {
                    Ok(nb) => (nb, false),
                    Err(e) => {
                        return Err(e);
                    },
                }
            },
            Action::SelectNoble(noble_id) => {
                match Self::action_select_noble(board, noble_id) {
                    Ok(nb) => (nb, true),
                    Err(e) => {
                        return Err(e);
                    },
                }
            },
        };
        let ghost mid = new_board_state@;
        proof {
            assert(spec_effect(pre, action@) == Ok::<(BoardView, bool), ActionFail>(
                (mid, has_selected_noble),
            ));
        }

        let can_select = !has_selected_noble && new_board_state.can_select_noble();
        if can_select {
            new_board_state.action_needed = ActionType::SelectNoble;
        }

        if new_board_state.has_some_player_passed_win_threshold() {
            new_board_state.round_type = RoundType::LastRound;
        }

        if !can_select {
            if was_last && new_board_state.round_type == RoundType::LastRound {
                new_board_state.winner = pre_winner;
            }
            let next = new_board_state.get_who_plays_next();
            new_board_state.player_turn = next;
        }

        proof {
            assert(new_board_state@ =~= spec_post(pre, mid, has_selected_noble));
        }
        Ok(new_board_state)
    }
}

/// A fresh roster holding the same players, seat by seat.
fn clone_players(v: &Vec<Player>) -> (r: Vec<Player>)
    ensures
        r@.map_values(|q: Player| q@) == v@.map_values(|q: Player| q@),
{
    let mut r: Vec<Player> = Vec::new();
    let n = v.len();
    for i in 0..n
        invariant
            n == v@.len(),
            r@.len() == i,
            forall|j: int| 0 <= j < i ==> #[trigger] r@[j]@ == v@[j]@,
    {
        let p = &v[i];
        r.push(p.clone());
    }
    proof {
        assert(r@.map_values(|q: Player| q@) =~= v@.map_values(|q: Player| q@));
    }
    r
}

impl Clone for Board {
    /// A fresh snapshot with the same model.
    fn clone(&self) -> (r: Self)
        ensures
            r@ == self@,
    {
        let winner: Option<Winner> = match &self.winner {
            None => None,
            Some(Winner::Winner(id)) => Some(Winner::Winner(*id)),
            Some(Winner::Draw(ids)) => Some(Winner::Draw(crate::util::copy_vec(ids))),
        };
        let r = Board {
            players: clone_players(&self.players),
            player_turn: self.player_turn,
            bank: self.bank,
            deck_one: crate::util::copy_vec(&self.deck_one),
            deck_two: crate::util::copy_vec(&self.deck_two),
            deck_three: crate::util::copy_vec(&self.deck_three),
            sale_one: crate::util::copy_vec(&self.sale_one),
            sale_two: crate::util::copy_vec(&self.sale_two),
            sale_three: crate::util::copy_vec(&self.sale_three),
            nobles: crate::util::copy_vec(&self.nobles),
            action_needed: self.action_needed,
            round_type: self.round_type,
            winner,
        };
        proof {
            assert(r@ =~= self@);
        }
        r
    }
}

/// A successful action never changes the roster's size or seating: the
/// players stay as many and keep their identities, and the new turn
/// index stays in range.
pub proof fn lemma_do_action_preserves_roster(pre: BoardView, a: ActionView)
    requires
        0 <= pre.player_turn < pre.players.len(),
    ensures
        spec_do_action(pre, a) matches Ok(nb) ==> {
            &&& nb.players.len() == pre.players.len()
            &&& forall|i: int|
                0 <= i < pre.players.len() ==> #[trigger] nb.players[i].id == pre.players[i].id
            &&& 0 <= nb.player_turn < nb.players.len()
        },
{
    if spec_do_action(pre, a) is Ok {
        let nb = spec_do_action(pre, a)->Ok_0;
        let t = spec_effect(pre, a)->Ok_0;
        let mid = t.0;
        assert(mid.players.len() == pre.players.len() && forall|i: int|
            0 <= i < pre.players.len() ==> #[trigger] mid.players[i].id == pre.players[i].id)
            by {
            match a {
                ActionView::PassTheTurn => {},
                ActionView::CollectPieces(c, d) => {},
                ActionView::ReserveCardFromDeck(tier) => {},
                ActionView::ReserveCardFromBoard(id) => {},
                ActionView::BuyCard(id) => {},
                ActionView::SelectNoble(nid) => {},
            }
        }
        assert(nb.players == mid.players);
    }
}

/// The board after `n` consecutive pass-the-turn actions, if all are
/// accepted.
pub open spec fn spec_pass_times(b: BoardView, n: nat) -> Option<BoardView>
    decreases n,
{
    if n == 0 {
        Some(b)
    } else {
        match spec_pass_times(b, (n - 1) as nat) {
            None => None,
            Some(b1) => match spec_do_action(b1, ActionView::PassTheTurn) {
                Ok(b2) => Some(b2),
                Err(_) => None,
            },
        }
    }
}

/// Passing the turn `k` times moves the turn index `k` seats forward,
/// cyclically, and touches no player. The noble pool must be empty, or a
/// pass could be held for a noble selection instead of advancing.
pub proof fn lemma_pass_turn_advances(b: BoardView, k: nat)
    requires
        b.action_needed == ActionType::Normal,
        0 <= b.player_turn < b.players.len(),
        b.nobles.len() == 0,
    ensures
        ({
            let r = spec_pass_times(b, k);
            &&& r is Some
            &&& r->0.players == b.players
            &&& r->0.nobles == b.nobles
            &&& r->0.action_needed == ActionType::Normal
            &&& r->0.player_turn == (b.player_turn + k) % (b.players.len() as int)
        }),
    decreases k,
{
    let n = b.players.len() as int;
    if k == 0 {
        vstd::arithmetic::div_mod::lemma_small_mod(b.player_turn as nat, n as nat);
    } else {
        lemma_pass_turn_advances(b, (k - 1) as nat);
        let b1 = spec_pass_times(b, (k - 1) as nat)->0;
        let t1 = b1.player_turn;
        assert(t1 == (b.player_turn + (k - 1)) % n);
        vstd::arithmetic::div_mod::lemma_mod_bound(b.player_turn + (k - 1), n);
        let b2 = spec_do_action(b1, ActionView::PassTheTurn)->Ok_0;
        assert(b2.players == b1.players && b2.nobles == b1.nobles && b2.action_needed
            == ActionType::Normal && b2.player_turn == (if t1 == n - 1 {
            0int
        } else {
            t1 + 1
        }));
        assert(b2.player_turn == (b.player_turn + k) % n) by {
            let x = b.player_turn + (k - 1);
            vstd::arithmetic::div_mod::lemma_add_mod_noop(x, 1, n);
            if n == 1 {
                vstd::arithmetic::div_mod::lemma_mod_bound(x + 1, n);
            } else {
                vstd::arithmetic::div_mod::lemma_small_mod(1nat, n as nat);
                if t1 == n - 1 {
                    vstd::arithmetic::div_mod::lemma_mod_self_0(n);
                } else {
                    vstd::arithmetic::div_mod::lemma_small_mod((t1 + 1) as nat, n as nat);
                }
            }
        }
    }
}

/// Turn cycling: with as many passes as there are seats, the turn index
/// comes back to where it started.
pub proof fn lemma_pass_turn_cycles(b: BoardView)
    requires
        b.action_needed == ActionType::Normal,
        0 <= b.player_turn < b.players.len(),
        b.nobles.len() == 0,
    ensures
        ({
            let r = spec_pass_times(b, b.players.len());
            r is Some && r->0.player_turn == b.player_turn
        }),
{
    let n = b.players.len() as int;
    lemma_pass_turn_advances(b, b.players.len());
    vstd::arithmetic::div_mod::lemma_mod_add_multiples_vanish(b.player_turn, n);
    vstd::arithmetic::div_mod::lemma_small_mod(b.player_turn as nat, n as nat);
}

/// What a successful purchase does: the bought card leaves its sale
/// window, a replacement is drawn there if that tier's deck is not
/// empty, the card joins the buyer's production, and the computed
/// payment moves from the buyer to the bank.
pub proof fn lemma_buy_card_effect(pre: BoardView, id: CardId)
    requires
        0 <= pre.player_turn < pre.players.len(),
        spec_do_action(pre, ActionView::BuyCard(id)) is Ok,
    ensures
        ({
            let nb = spec_do_action(pre, ActionView::BuyCard(id))->Ok_0;
            let pos = spec_find_card_pos(pre, id)->Some_0;
            let tier = pos.0;
            let idx = pos.1;
            let card = pre.sale(tier)[idx];
            let cur = pre.current_player();
            let remaining = spec_buy(cur.funds, cur.production_cards, card.data.cost)->Ok_0;
            &&& spec_find_card_pos(pre, id) is Some
            &&& spec_buy(cur.funds, cur.production_cards, card.data.cost) is Ok
            &&& nb.players[pre.player_turn].production_cards == cur.production_cards.push(card)
            &&& nb.players[pre.player_turn].funds == remaining
            &&& nb.sale(tier) == pre.sale(tier).remove(idx) + (if pre.deck(tier).len() > 0 {
                seq![pre.deck(tier).last()]
            } else {
                Seq::empty()
            })
            &&& nb.deck(tier) == (if pre.deck(tier).len() > 0 {
                pre.deck(tier).drop_last()
            } else {
                pre.deck(tier)
            })
            &&& nb.bank == spec_add(pre.bank, sub_all(cur.funds, remaining))
        }),
{
}

/// Reaching the win threshold flips the round to its last: after any
/// accepted action, if some player now holds enough victory points, the
/// round flag reads `LastRound`.
pub proof fn lemma_threshold_sets_last_round(pre: BoardView, a: ActionView)
    requires
        spec_do_action(pre, a) is Ok,
        threshold_reached(spec_do_action(pre, a)->Ok_0.players),
    ensures
        spec_do_action(pre, a)->Ok_0.round_type == RoundType::LastRound,
{
}

/// The last round never reverts: once the round flag reads `LastRound`,
/// every accepted action leaves it so.
pub proof fn lemma_last_round_is_monotonic(pre: BoardView, a: ActionView)
    requires
        pre.round_type == RoundType::LastRound,
        spec_do_action(pre, a) is Ok,
    ensures
        spec_do_action(pre, a)->Ok_0.round_type == RoundType::LastRound,
{
    let t = spec_effect(pre, a)->Ok_0;
    match a {
        ActionView::PassTheTurn => {},
        ActionView::CollectPieces(c, d) => {},
        ActionView::ReserveCardFromDeck(tier) => {},
        ActionView::ReserveCardFromBoard(id) => {},
        ActionView::BuyCard(id) => {},
        ActionView::SelectNoble(nid) => {},
    }
}

/// The winner is only ever assigned when the seat that was last in turn
/// order completes an action during the last round, and then it is the
/// outcome computed from the pre-action roster.
pub proof fn lemma_winner_assigned_only_by_last_seat(pre: BoardView, a: ActionView)
    requires
        spec_do_action(pre, a) is Ok,
        spec_do_action(pre, a)->Ok_0.winner != pre.winner,
    ensures
        pre.player_turn == pre.players.len() - 1,
        spec_do_action(pre, a)->Ok_0.round_type == RoundType::LastRound,
        spec_do_action(pre, a)->Ok_0.winner == spec_winner(pre.players),
{
    let t = spec_effect(pre, a)->Ok_0;
    assert(t.0.winner == pre.winner) by {
        match a {
            ActionView::PassTheTurn => {},
            ActionView::CollectPieces(c, d) => {},
            ActionView::ReserveCardFromDeck(tier) => {},
            ActionView::ReserveCardFromBoard(id) => {},
            ActionView::BuyCard(id) => {},
            ActionView::SelectNoble(nid) => {},
        }
    }
}

/// Every winner candidate before seat `n` puts its id in the list.
proof fn lemma_winner_ids_member(players: Seq<PlayerView>, i: int, n: int)
    requires
        0 <= i < n <= players.len(),
        is_winner_candidate(players, i),
    ensures
        winner_ids_upto(players, n).len() >= 1,
    decreases n,
{
    if i < n - 1 {
        lemma_winner_ids_member(players, i, n - 1);
    }
}

/// Two distinct winner candidates make the list at least two long.
proof fn lemma_winner_ids_two_members(players: Seq<PlayerView>, i: int, j: int, n: int)
    requires
        0 <= i < j < n <= players.len(),
        is_winner_candidate(players, i),
        is_winner_candidate(players, j),
    ensures
        winner_ids_upto(players, n).len() >= 2,
    decreases n,
{
    if j < n - 1 {
        lemma_winner_ids_two_members(players, i, j, n - 1);
    } else {
        lemma_winner_ids_member(players, i, n - 1);
    }
}

/// Only candidates put their ids in the list.
proof fn lemma_winner_ids_only_candidates(players: Seq<PlayerView>, i: int, n: int)
    requires
        0 <= i < players.len(),
        0 <= n <= players.len(),
        forall|j: int| 0 <= j < players.len() && j != i ==> !is_winner_candidate(players, j),
    ensures
        winner_ids_upto(players, n) == (if is_winner_candidate(players, i) && i < n {
            seq![players[i].id]
        } else {
            Seq::<PlayerId>::empty()
        }),
    decreases n,
{
    if n > 0 {
        lemma_winner_ids_only_candidates(players, i, n - 1);
        if is_winner_candidate(players, i) && i < n {
            assert(winner_ids_upto(players, n) =~= seq![players[i].id]);
        } else {
            assert(winner_ids_upto(players, n) =~= Seq::<PlayerId>::empty());
        }
    } else {
        assert(winner_ids_upto(players, 0) =~= Seq::<PlayerId>::empty());
    }
}

/// The tie-break among the top scorers: if exactly one player both holds
/// the most victory points and, among those, owns the fewest production
/// cards, that player is the sole winner.
pub proof fn lemma_sole_winner(players: Seq<PlayerView>, i: int)
    requires
        0 <= i < players.len(),
        is_winner_candidate(players, i),
        forall|j: int| 0 <= j < players.len() && j != i ==> !is_winner_candidate(players, j),
    ensures
        spec_winner(players) == Some(WinnerView::Winner(players[i].id)),
{
    lemma_winner_ids_only_candidates(players, i, players.len() as int);
}

/// The draw: two distinct players both tied at the top score and the
/// fewest cards make the outcome a draw set, listed in board order.
pub proof fn lemma_draw_winners(players: Seq<PlayerView>, i: int, j: int)
    requires
        0 <= i < j < players.len(),
        is_winner_candidate(players, i),
        is_winner_candidate(players, j),
    ensures
        spec_winner(players) matches Some(w) && w == WinnerView::Draw(winner_ids(players)),
        winner_ids(players).len() >= 2,
{
    lemma_winner_ids_two_members(players, i, j, players.len() as int);
}

/// Reserving a card from a sale window moves exactly one wildcard from
/// the bank to the player when the bank holds any, and none otherwise;
/// no other token moves. The player's wildcard count must be below its
/// 255-count bound, where the transfer would be swallowed.
pub proof fn lemma_reserve_moves_one_wildcard(b: BoardView, id: CardId)
    requires
        0 <= b.player_turn < b.players.len(),
        b.current_player().funds.golden < 255,
        spec_reserve(b, id) is Ok,
    ensures
        ({
            let pair = spec_reserve(b, id)->Ok_0;
            let cur = b.current_player();
            &&& forall|p: Piece|
                p != Piece::Golden ==> #[trigger] pair.0.cnt(p) == b.bank.cnt(p)
                    && pair.1.funds.cnt(p) == cur.funds.cnt(p)
            &&& pair.0.golden + pair.1.funds.golden == b.bank.golden + cur.funds.golden
            &&& (b.bank.golden == 0 ==> pair.0 == b.bank && pair.1.funds == cur.funds)
            &&& (b.bank.golden > 0 ==> pair.0.golden == b.bank.golden - 1 && pair.1.funds.golden
                == cur.funds.golden + 1)
        }),
{
    assert forall|p: Piece|
        p != Piece::Golden implies #[trigger] spec_reserve(b, id)->Ok_0.0.cnt(p) == b.bank.cnt(p)
        && spec_reserve(b, id)->Ok_0.1.funds.cnt(p) == b.current_player().funds.cnt(p) by {
        match p {
            Piece::Red => {},
            Piece::Green => {},
            Piece::Blue => {},
            Piece::Brown => {},
            Piece::White => {},
            Piece::Golden => {},
        }
    }
}

/// The first card with the given id in one card list, front to back.
fn find_card_in(cards: &Vec<TaggedCard>, card_id: &CardId) -> (r: Option<usize>)
    ensures
        match r {
            Some(i) => find_card_from(cards@, *card_id, 0) == Some(i as int) && i < cards@.len(),
            None => find_card_from(cards@, *card_id, 0) == None::<int>,
        },
{
    let n = cards.len();
    for i in 0..n
        invariant
            n == cards@.len(),
            find_card_from(cards@, *card_id, 0) == find_card_from(cards@, *card_id, i as int),
    {
        if cards[i].uid.id == card_id.id {
            return Some(i);
        }
    }
    None
}

} // verus!
