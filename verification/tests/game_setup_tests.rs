use splendor::bank::Funds;
use splendor::board::{ActionType, RoundType};
use splendor::original_game::{
    get_nobles, get_original_game_board, get_shuffled_decks, get_tier_one_cards,
    get_tier_three_cards, get_tier_two_cards,
};
use splendor::piece::Piece;

// A fresh two-player board: the full decks minus the four cards moved on
// sale per tier, the two-player bank, and three nobles. Three nobles (not
// the whole table of ten) also shows the random draw really narrows the
// noble pool.
#[test]
fn two_player_setup_counts() {
    let board = get_original_game_board(2);
    assert_eq!(board.players.len(), 2);
    assert_eq!(board.players[0].id.id, 1);
    assert_eq!(board.players[1].id.id, 2);
    assert_eq!(board.bank, Funds::new(4, 4, 4, 4, 4, 5));
    assert_eq!(board.sale_one.len(), 4);
    assert_eq!(board.sale_two.len(), 4);
    assert_eq!(board.sale_three.len(), 4);
    assert_eq!(board.deck_one.len(), 36);
    assert_eq!(board.deck_two.len(), 26);
    assert_eq!(board.deck_three.len(), 16);
    assert_eq!(board.nobles.len(), 3);
    assert_eq!(board.player_turn, 0);
    assert_eq!(board.action_needed, ActionType::Normal);
    assert_eq!(board.round_type, RoundType::Normal);
    assert_eq!(board.winner, None);
}

#[test]
fn three_and_four_player_setup_banks() {
    let board3 = get_original_game_board(3);
    assert_eq!(board3.players.len(), 3);
    assert_eq!(board3.bank, Funds::new(5, 5, 5, 5, 5, 5));
    assert_eq!(board3.nobles.len(), 4);

    let board4 = get_original_game_board(4);
    assert_eq!(board4.players.len(), 4);
    assert_eq!(board4.bank, Funds::new(7, 7, 7, 7, 7, 5));
    assert_eq!(board4.nobles.len(), 5);
}

// A shuffled deck holds exactly the cards of its tier's table, each card
// once, under the ids 1 to 90.
#[test]
fn shuffled_decks_hold_the_tables() {
    let (one, two, three) = get_shuffled_decks();
    assert_eq!(one.len(), 40);
    assert_eq!(two.len(), 30);
    assert_eq!(three.len(), 20);

    let mut ids: Vec<u8> = one
        .iter()
        .chain(two.iter())
        .chain(three.iter())
        .map(|c| c.uid.id)
        .collect();
    ids.sort();
    let expected: Vec<u8> = (1..=90).collect();
    assert_eq!(ids, expected);

    // every card of the first deck comes from the first tier's table
    let table = get_tier_one_cards();
    for card in &one {
        assert!(table.contains(&card.data));
    }
}

#[test]
fn card_tables_and_nobles_have_no_wildcard_cost() {
    for card in get_tier_one_cards()
        .iter()
        .chain(get_tier_two_cards().iter())
        .chain(get_tier_three_cards().iter())
    {
        assert_eq!(card.cost.get(Piece::Golden), 0);
        assert_ne!(card.produces, Piece::Golden);
    }
    let nobles = get_nobles();
    assert_eq!(nobles.len(), 10);
    for (i, noble) in nobles.iter().enumerate() {
        assert_eq!(noble.id.id as usize, i + 1);
        assert_eq!(noble.cost.get(Piece::Golden), 0);
    }
}

// The exact expansion of a ledger into a token list: alphabetical color
// order, each color repeated its count's number of times.
#[test]
fn piece_list_expansion_is_in_alphabetical_order() {
    let funds = Funds::new(1, 0, 2, 0, 0, 1);
    assert_eq!(
        funds.to_piece_list(),
        vec![Piece::Blue, Piece::Blue, Piece::Golden, Piece::Red]
    );
}
