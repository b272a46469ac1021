//! The standard game setup: the full card tables of the three tiers, the
//! noble table, shuffled decks, and the initial board for 2 to 4 players.
//!
//! Shuffling and noble selection are random; their contracts state what
//! holds of every outcome: a shuffled deck holds exactly the cards it was
//! given, and the noble draw takes the requested number of nobles from
//! the table without repetition.

use vstd::prelude::*;

use crate::bank::Funds;
use crate::board::{ActionType, Board, RoundType, WinnerView};
use crate::noble::{Noble, NobleId};
use crate::piece::Piece;
use crate::player::{Player, PlayerId, PlayerView};
use crate::production_card::{CardId, Identifiable, ProductionCard, TaggedCard};

verus! {

/// Relies on rand's `SliceRandom::shuffle`: an in-place Fisher-Yates
/// permutation of the slice, so the result holds exactly the given cards.
#[verifier::external_body]
fn shuffle_cards(cards: Vec<TaggedCard>) -> (r: Vec<TaggedCard>)
    ensures
        r@.len() == cards@.len(),
        r@.to_multiset() == cards@.to_multiset(),
{
    let mut cards = cards;
    let rng = &mut rand::thread_rng();
    rand::seq::SliceRandom::shuffle(cards.as_mut_slice(), rng);
    cards
}

/// Relies on rand's `SliceRandom::choose_multiple`: `amount` elements
/// chosen without repetition (all of them if the slice is shorter), so
/// the result is a sub-multiset of the given nobles.
#[verifier::external_body]
fn choose_nobles(nobles: &Vec<Noble>, amount: usize) -> (r: Vec<Noble>)
    ensures
        r@.len() == (if amount <= nobles@.len() {
            amount as int
        } else {
            nobles@.len() as int
        }),
        r@.to_multiset().subset_of(nobles@.to_multiset()),
{
    let rng = &mut rand::thread_rng();
    rand::seq::SliceRandom::choose_multiple(nobles.as_slice(), rng, amount).cloned().collect()
}

/// Tag each card with its position's id, counting up from `first_id`.
fn tag_cards(cards: Vec<ProductionCard>, first_id: u8) -> (r: Vec<TaggedCard>)
    requires
        first_id + cards@.len() <= 256,
    ensures
        r@.len() == cards@.len(),
        forall|i: int|
            0 <= i < cards@.len() ==> r@[i] == (Identifiable {
                uid: CardId { id: (first_id + i) as u8 },
                data: cards@[i],
            }),
{
    let mut r: Vec<TaggedCard> = Vec::new();
    let n = cards.len();
    for i in 0..n
        invariant
            n == cards@.len(),
            first_id + n <= 256,
            r@.len() == i,
            forall|j: int|
                0 <= j < i ==> r@[j] == (Identifiable {
                    uid: CardId { id: (first_id + j) as u8 },
                    data: cards@[j],
                }),
    {
        r.push(Identifiable { uid: CardId { id: first_id + i as u8 }, data: cards[i] });
    }
    r
}

/// No card in the list charges or produces the wildcard token.
pub open spec fn wildcard_free(cards: Seq<TaggedCard>) -> bool {
    forall|i: int|
        0 <= i < cards.len() ==> (#[trigger] cards[i]).data.cost.golden == 0 && cards[
            i
        ].data.produces != Piece::Golden
}

/// A reshuffling keeps every per-card property: each card of the result
/// already sat somewhere in the input.
proof fn lemma_shuffle_keeps_wildcard_free(a: Seq<TaggedCard>, b: Seq<TaggedCard>)
    requires
        a.to_multiset() == b.to_multiset(),
        wildcard_free(a),
    ensures
        wildcard_free(b),
{
    assert forall|i: int|
        0 <= i < b.len() implies (#[trigger] b[i]).data.cost.golden == 0 && b[i].data.produces
        != Piece::Golden by {
        a.to_multiset_ensures();
        b.to_multiset_ensures();
        let x = b[i];
        assert(b.contains(x));
        assert(a.to_multiset().count(x) > 0);
        assert(a.contains(x));
        let j = choose|j: int| 0 <= j < a.len() && a[j] == x;
        assert(a[j].data.cost.golden == 0);
    }
}

/// The three shuffled draw decks, cards tagged with the unique ids 1 to
/// 90: the first tier's 40 cards, the second tier's 30, the third's 20.
/// No card charges or produces the wildcard token.
pub fn get_shuffled_decks() -> (r: (Vec<TaggedCard>, Vec<TaggedCard>, Vec<TaggedCard>))
    ensures
        r.0@.len() == 40,
        r.1@.len() == 30,
        r.2@.len() == 20,
        wildcard_free(r.0@),
        wildcard_free(r.1@),
        wildcard_free(r.2@),
{
    let tier_one = tag_cards(get_tier_one_cards(), 1);
    let tier_two = tag_cards(get_tier_two_cards(), 41);
    let tier_three = tag_cards(get_tier_three_cards(), 71);
    let ghost t1 = tier_one@;
    let ghost t2 = tier_two@;
    let ghost t3 = tier_three@;
    let r = (shuffle_cards(tier_one), shuffle_cards(tier_two), shuffle_cards(tier_three));
    proof {
        lemma_shuffle_keeps_wildcard_free(t1, r.0@);
        lemma_shuffle_keeps_wildcard_free(t2, r.1@);
        lemma_shuffle_keeps_wildcard_free(t3, r.2@);
    }
    r
}

/// Draw `quantity` nobles from the noble table at random, without
/// repetition.
fn get_random_nobles(quantity: u8) -> (r: Vec<Noble>)
    requires
        quantity <= 10,
    ensures
        r@.len() == quantity as int,
{
    let nobles = get_nobles();
    choose_nobles(&nobles, quantity as usize)
}

/// The starting bank for a game of `n` players: 7 of each color and 5
/// wildcards for 4 players, 5 and 5 for 3, 4 and 5 for 2.
pub open spec fn initial_bank(n: u8) -> Funds {
    if n == 2 {
        Funds { red: 4, green: 4, blue: 4, brown: 4, white: 4, golden: 5 }
    } else if n == 3 {
        Funds { red: 5, green: 5, blue: 5, brown: 5, white: 5, golden: 5 }
    } else {
        Funds { red: 7, green: 7, blue: 7, brown: 7, white: 7, golden: 5 }
    }
}

/// A fresh player with the given seat number and nothing else.
pub open spec fn initial_player(seat: int) -> PlayerView {
    PlayerView {
        id: PlayerId { id: seat as u8 },
        funds: Funds { red: 0, green: 0, blue: 0, brown: 0, white: 0, golden: 0 },
        production_cards: Seq::empty(),
        reserved_cards: Seq::empty(),
        nobles: Seq::empty(),
    }
}

/// The standard initial board for `n_of_players` players: fresh players
/// seated 1 to n, the standard bank, three freshly shuffled decks with
/// four cards of each tier moved on sale, and n + 1 nobles drawn at
/// random. No card in play charges or produces the wildcard token.
pub fn get_original_game_board(n_of_players: u8) -> (b: Board)
    requires
        2 <= n_of_players <= 4,
    ensures
        b@.players.len() == n_of_players as int,
        forall|i: int|
            0 <= i < n_of_players as int ==> b@.players[i] == initial_player(i + 1),
        b@.player_turn == 0,
        b@.bank == initial_bank(n_of_players),
        b@.deck_one.len() == 36,
        b@.deck_two.len() == 26,
        b@.deck_three.len() == 16,
        b@.sale_one.len() == 4,
        b@.sale_two.len() == 4,
        b@.sale_three.len() == 4,
        b@.nobles.len() == n_of_players as int + 1,
        wildcard_free(b@.deck_one),
        wildcard_free(b@.deck_two),
        wildcard_free(b@.deck_three),
        wildcard_free(b@.sale_one),
        wildcard_free(b@.sale_two),
        wildcard_free(b@.sale_three),
        b@.action_needed == ActionType::Normal,
        b@.round_type == RoundType::Normal,
        b@.winner == None::<WinnerView>,
{
    let mut players: Vec<Player> = Vec::new();
    let n = n_of_players;
    for seat in 1..(n + 1)
        invariant
            n <= 4,
            players@.len() == seat - 1,
            forall|i: int| 0 <= i < seat - 1 ==> players@[i]@ == initial_player(i + 1),
    {
        players.push(
            Player::new(PlayerId::new(seat), Funds::new(0, 0, 0, 0, 0, 0), Vec::new(), Vec::new()),
        );
        proof {
            assert(players@[seat - 1]@ =~= initial_player(seat as int));
        }
    }

    let bank = if n_of_players == 2 {
        Funds::new(4, 4, 4, 4, 4, 5)
    } else if n_of_players == 3 {
        Funds::new(5, 5, 5, 5, 5, 5)
    } else {
        Funds::new(7, 7, 7, 7, 7, 5)
    };

    let decks = get_shuffled_decks();
    let (deck_one, deck_two, deck_three) = decks;
    let nobles = get_random_nobles(n_of_players + 1);

    let ghost players_v = players@;
    let b = Board::new(players, bank, deck_one, deck_two, deck_three, nobles);
    proof {
        assert forall|i: int|
            0 <= i < n_of_players as int implies b@.players[i] == initial_player(i + 1) by {
            assert(b@.players[i] == players_v.map_values(|p: Player| p@)[i]);
            assert(players_v[i]@ == initial_player(i + 1));
        }
    }
    b
}

/// The first tier's 40 production cards.
pub fn get_tier_one_cards() -> (r: Vec<ProductionCard>)
    ensures
        r@.len() == 40,
        forall|i: int| 0 <= i < 40 ==> (#[trigger] r@[i]).cost.golden == 0,
        forall|i: int| 0 <= i < 40 ==> (#[trigger] r@[i]).produces != Piece::Golden,
{
    vec![
        ProductionCard::new(Funds::new(0, 0, 2, 0, 2, 0), Piece::Green, None),
        ProductionCard::new(Funds::new(1, 0, 1, 2, 1, 0), Piece::Green, None),
        ProductionCard::new(Funds::new(1, 0, 1, 1, 1, 0), Piece::Green, None),
        ProductionCard::new(Funds::new(0, 3, 0, 0, 0, 0), Piece::Brown, None),
        ProductionCard::new(Funds::new(0, 0, 4, 0, 0, 0), Piece::Brown, Some(1)),
        ProductionCard::new(Funds::new(1, 1, 2, 0, 1, 0), Piece::Brown, None),
        ProductionCard::new(Funds::new(1, 3, 1, 0, 0, 0), Piece::Blue, None),
        ProductionCard::new(Funds::new(2, 1, 0, 1, 1, 0), Piece::Blue, None),
        ProductionCard::new(Funds::new(0, 2, 0, 2, 0, 0), Piece::Blue, None),
        ProductionCard::new(Funds::new(0, 0, 2, 2, 0, 0), Piece::White, None),
        ProductionCard::new(Funds::new(0, 0, 0, 0, 3, 0), Piece::Red, None),
        ProductionCard::new(Funds::new(0, 0, 0, 4, 0, 0), Piece::Green, Some(1)),
        ProductionCard::new(Funds::new(0, 1, 3, 0, 1, 0), Piece::Green, None),
        ProductionCard::new(Funds::new(2, 0, 1, 2, 0, 0), Piece::Green, None),
        ProductionCard::new(Funds::new(1, 0, 0, 3, 1, 0), Piece::Red, None),
        ProductionCard::new(Funds::new(0, 0, 0, 0, 4, 0), Piece::Red, Some(1)),
        ProductionCard::new(Funds::new(0, 0, 3, 0, 0, 0), Piece::White, None),
        ProductionCard::new(Funds::new(2, 2, 0, 0, 0, 0), Piece::Brown, None),
        ProductionCard::new(Funds::new(3, 1, 0, 1, 0, 0), Piece::Brown, None),
        ProductionCard::new(Funds::new(0, 2, 0, 0, 2, 0), Piece::Brown, None),
        ProductionCard::new(Funds::new(1, 1, 0, 1, 1, 0), Piece::Blue, None),
        ProductionCard::new(Funds::new(4, 0, 0, 0, 0, 0), Piece::Blue, Some(1)),
        ProductionCard::new(Funds::new(0, 1, 0, 2, 2, 0), Piece::Red, None),
        ProductionCard::new(Funds::new(2, 0, 0, 0, 2, 0), Piece::Red, None),
        ProductionCard::new(Funds::new(0, 1, 2, 0, 0, 0), Piece::Red, None),
        ProductionCard::new(Funds::new(1, 0, 2, 0, 2, 0), Piece::Brown, None),
        ProductionCard::new(Funds::new(2, 2, 0, 0, 1, 0), Piece::Blue, None),
        ProductionCard::new(Funds::new(0, 0, 0, 3, 0, 0), Piece::Blue, None),
        ProductionCard::new(Funds::new(0, 0, 2, 1, 2, 0), Piece::White, None),
        ProductionCard::new(Funds::new(1, 1, 1, 1, 0, 0), Piece::White, None),
        ProductionCard::new(Funds::new(0, 0, 0, 2, 1, 0), Piece::Blue, None),
        ProductionCard::new(Funds::new(1, 1, 1, 0, 1, 0), Piece::Brown, None),
        ProductionCard::new(Funds::new(2, 0, 2, 0, 0, 0), Piece::Green, None),
        ProductionCard::new(Funds::new(3, 0, 0, 0, 0, 0), Piece::Green, None),
        ProductionCard::new(Funds::new(1, 2, 1, 1, 0, 0), Piece::White, None),
        ProductionCard::new(Funds::new(2, 0, 0, 1, 0, 0), Piece::White, None),
        ProductionCard::new(Funds::new(0, 0, 1, 1, 3, 0), Piece::White, None),
        ProductionCard::new(Funds::new(0, 4, 0, 0, 0, 0), Piece::White, Some(1)),
        ProductionCard::new(Funds::new(0, 1, 1, 1, 2, 0), Piece::Red, None),
        ProductionCard::new(Funds::new(0, 1, 1, 1, 1, 0), Piece::Red, None),
    ]
}

/// The second tier's 30 production cards.
pub fn get_tier_two_cards() -> (r: Vec<ProductionCard>)
    ensures
        r@.len() == 30,
        forall|i: int| 0 <= i < 30 ==> (#[trigger] r@[i]).cost.golden == 0,
        forall|i: int| 0 <= i < 30 ==> (#[trigger] r@[i]).produces != Piece::Golden,
{
    vec![
        ProductionCard::new(Funds::new(0, 3, 0, 2, 3, 0), Piece::Brown, Some(1)),
        ProductionCard::new(Funds::new(3, 2, 0, 0, 3, 0), Piece::Green, Some(1)),
        ProductionCard::new(Funds::new(2, 0, 3, 3, 0, 0), Piece::Red, Some(1)),
        ProductionCard::new(Funds::new(0, 0, 6, 0, 0, 0), Piece::Blue, Some(3)),
        ProductionCard::new(Funds::new(1, 0, 0, 4, 2, 0), Piece::Blue, Some(2)),
        ProductionCard::new(Funds::new(3, 0, 3, 0, 2, 0), Piece::White, Some(1)),
        ProductionCard::new(Funds::new(0, 0, 2, 1, 4, 0), Piece::Green, Some(2)),
        ProductionCard::new(Funds::new(0, 0, 5, 0, 0, 0), Piece::Blue, Some(2)),
        ProductionCard::new(Funds::new(0, 0, 0, 0, 5, 0), Piece::Brown, Some(2)),
        ProductionCard::new(Funds::new(2, 0, 0, 3, 2, 0), Piece::Red, Some(1)),
        ProductionCard::new(Funds::new(0, 0, 0, 0, 6, 0), Piece::White, Some(3)),
        ProductionCard::new(Funds::new(0, 2, 4, 0, 1, 0), Piece::Red, Some(2)),
        ProductionCard::new(Funds::new(5, 0, 0, 0, 0, 0), Piece::White, Some(2)),
        ProductionCard::new(Funds::new(0, 6, 0, 0, 0, 0), Piece::Green, Some(3)),
        ProductionCard::new(Funds::new(0, 5, 0, 0, 0, 0), Piece::Green, Some(2)),
        ProductionCard::new(Funds::new(0, 0, 0, 5, 0, 0), Piece::Red, Some(2)),
        ProductionCard::new(Funds::new(0, 2, 2, 0, 3, 0), Piece::Brown, Some(1)),
        ProductionCard::new(Funds::new(0, 0, 0, 6, 0, 0), Piece::Brown, Some(3)),
        ProductionCard::new(Funds::new(3, 5, 0, 0, 0, 0), Piece::Brown, Some(2)),
        ProductionCard::new(Funds::new(0, 3, 5, 0, 0, 0), Piece::Green, Some(2)),
        ProductionCard::new(Funds::new(0, 3, 2, 3, 0, 0), Piece::Blue, Some(1)),
        ProductionCard::new(Funds::new(2, 2, 2, 0, 0, 0), Piece::Blue, Some(1)),
        ProductionCard::new(Funds::new(0, 0, 3, 0, 5, 0), Piece::Blue, Some(2)),
        ProductionCard::new(Funds::new(0, 0, 3, 2, 2, 0), Piece::Green, Some(1)),
        ProductionCard::new(Funds::new(5, 0, 0, 3, 0, 0), Piece::White, Some(2)),
        ProductionCard::new(Funds::new(4, 1, 0, 2, 0, 0), Piece::White, Some(2)),
        ProductionCard::new(Funds::new(2, 4, 0, 1, 0, 0), Piece::Brown, Some(2)),
        ProductionCard::new(Funds::new(2, 3, 0, 2, 0, 0), Piece::White, Some(1)),
        ProductionCard::new(Funds::new(6, 0, 0, 0, 0, 0), Piece::Red, Some(3)),
        ProductionCard::new(Funds::new(0, 0, 0, 5, 3, 0), Piece::Red, Some(2)),
    ]
}

/// The third tier's 20 production cards.
pub fn get_tier_three_cards() -> (r: Vec<ProductionCard>)
    ensures
        r@.len() == 20,
        forall|i: int| 0 <= i < 20 ==> (#[trigger] r@[i]).cost.golden == 0,
        forall|i: int| 0 <= i < 20 ==> (#[trigger] r@[i]).produces != Piece::Golden,
{
    vec![
        ProductionCard::new(Funds::new(3, 0, 3, 3, 5, 0), Piece::Green, Some(3)),
        ProductionCard::new(Funds::new(3, 3, 0, 5, 3, 0), Piece::Blue, Some(3)),
        ProductionCard::new(Funds::new(0, 3, 6, 0, 3, 0), Piece::Green, Some(4)),
        ProductionCard::new(Funds::new(0, 0, 0, 7, 3, 0), Piece::White, Some(5)),
        ProductionCard::new(Funds::new(7, 0, 0, 0, 0, 0), Piece::Brown, Some(4)),
        ProductionCard::new(Funds::new(6, 3, 0, 3, 0, 0), Piece::Brown, Some(4)),
        ProductionCard::new(Funds::new(0, 0, 3, 3, 6, 0), Piece::Blue, Some(4)),
        ProductionCard::new(Funds::new(0, 7, 0, 0, 0, 0), Piece::Red, Some(4)),
        ProductionCard::new(Funds::new(0, 3, 5, 3, 3, 0), Piece::Red, Some(3)),
        ProductionCard::new(Funds::new(3, 6, 3, 0, 0, 0), Piece::Red, Some(4)),
        ProductionCard::new(Funds::new(3, 0, 0, 6, 3, 0), Piece::White, Some(4)),
        ProductionCard::new(Funds::new(3, 5, 3, 0, 3, 0), Piece::Brown, Some(3)),
        ProductionCard::new(Funds::new(0, 0, 3, 0, 7, 0), Piece::Blue, Some(5)),
        ProductionCard::new(Funds::new(3, 7, 0, 0, 0, 0), Piece::Red, Some(5)),
        ProductionCard::new(Funds::new(0, 3, 7, 0, 0, 0), Piece::Green, Some(5)),
        ProductionCard::new(Funds::new(0, 0, 0, 7, 0, 0), Piece::White, Some(4)),
        ProductionCard::new(Funds::new(0, 0, 7, 0, 0, 0), Piece::Green, Some(4)),
        ProductionCard::new(Funds::new(5, 3, 3, 3, 0, 0), Piece::White, Some(3)),
        ProductionCard::new(Funds::new(0, 0, 0, 0, 7, 0), Piece::Blue, Some(4)),
        ProductionCard::new(Funds::new(7, 0, 0, 3, 0, 0), Piece::Brown, Some(5)),
    ]
}

/// The table of the 10 nobles, ids 1 to 10. No noble ever charges the
/// wildcard token.
pub fn get_nobles() -> (r: Vec<Noble>)
    ensures
        r@.len() == 10,
        forall|i: int| 0 <= i < 10 ==> (#[trigger] r@[i]).id == (NobleId { id: (i + 1) as u8 }),
        forall|i: int| 0 <= i < 10 ==> (#[trigger] r@[i]).cost.golden == 0,
{
    vec![
        Noble::new(NobleId::new(1), Funds::new(0, 4, 4, 0, 0, 0)),
        Noble::new(NobleId::new(2), Funds::new(0, 0, 4, 0, 4, 0)),
        Noble::new(NobleId::new(3), Funds::new(4, 4, 0, 0, 0, 0)),
        Noble::new(NobleId::new(4), Funds::new(0, 0, 0, 4, 4, 0)),
        Noble::new(NobleId::new(5), Funds::new(3, 0, 0, 3, 3, 0)),
        Noble::new(NobleId::new(6), Funds::new(3, 3, 0, 3, 0, 0)),
        Noble::new(NobleId::new(7), Funds::new(3, 3, 3, 0, 0, 0)),
        Noble::new(NobleId::new(8), Funds::new(4, 0, 0, 4, 0, 0)),
        Noble::new(NobleId::new(9), Funds::new(0, 3, 3, 0, 3, 0)),
        Noble::new(NobleId::new(10), Funds::new(0, 0, 3, 3, 3, 0)),
    ]
}

} // verus!
