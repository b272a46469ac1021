use splendor::bank::Funds;
use splendor::board::{Action, ActionFail, Board, ProductionTier};
use splendor::piece::Piece;
use splendor::player::{Player, PlayerId, ReserveOperationFail};
use splendor::production_card::{CardId, Identifiable, ProductionCard, TaggedCard};

fn get_production_card(card_id: CardId) -> TaggedCard {
    let cost = get_initial_bank();
    let card = ProductionCard::new(cost, Piece::Red, Some(1));
    Identifiable::new(card, card_id)
}

fn get_initial_player(id: PlayerId) -> Player {
    let funds = Funds::new(0, 0, 0, 0, 0, 0);
    Player::new(id, funds, vec![], vec![])
}

fn get_initial_bank() -> Funds {
    Funds::new(7, 7, 7, 7, 7, 5)
}

fn get_default_cost() -> Funds {
    Funds::new(0, 1, 2, 1, 1, 0)
}

fn get_tier_one_deck() -> Vec<TaggedCard> {
    vec![
        get_production_card(CardId::new(5)),
        get_production_card(CardId::new(4)),
        get_production_card(CardId::new(3)),
        get_production_card(CardId::new(2)),
        get_production_card(CardId::new(1)),
    ]
}

#[test]
fn can_reserve_card() {
    let player_funds = Funds::new(3, 2, 3, 1, 1, 1);

    let p1 = Player::new(PlayerId::new(1), player_funds, vec![], vec![]);
    let p2 = get_initial_player(PlayerId::new(2));
    let p3 = get_initial_player(PlayerId::new(3));
    let bank_funds = Funds::new(8, 8, 8, 8, 8, 8);
    let board = Board::new(
        vec![p1, p2, p3],
        bank_funds,
        get_tier_one_deck(),
        vec![],
        vec![],
        vec![],
    );

    let result = Player::reserve_card(&board, &CardId::new(1)).unwrap();

    let expected_bank_funds = Funds::new(8, 8, 8, 8, 8, 7);
    assert_eq!(result.bank_funds, expected_bank_funds);

    let expected_player_funds = Funds::new(3, 2, 3, 1, 1, 2);
    assert_eq!(result.player.funds, expected_player_funds);

    assert_eq!(result.player.reserved_cards.len(), 1);
    let player_prod_card = result.player.reserved_cards.get(0).unwrap();
    let expected_prod_card = get_production_card(CardId::new(1));
    assert_eq!(player_prod_card.uid, expected_prod_card.uid);
    assert_eq!(player_prod_card.data, expected_prod_card.data);
}

#[test]
fn cannot_reserve_more_than_3() {
    let prod_card = ProductionCard::new(get_default_cost(), Piece::Red, None);

    let bank_funds = Funds::new(8, 8, 8, 8, 8, 8);
    let player_funds = Funds::new(3, 2, 3, 1, 1, 1);
    let p1 = Player::new(
        PlayerId::new(1),
        player_funds,
        vec![],
        vec![
            Identifiable::new(prod_card.clone(), CardId::new(6)),
            Identifiable::new(prod_card.clone(), CardId::new(7)),
            Identifiable::new(prod_card, CardId::new(8)),
        ],
    );
    let p2 = get_initial_player(PlayerId::new(2));
    let p3 = get_initial_player(PlayerId::new(3));
    let board = Board::new(
        vec![p1, p2, p3],
        bank_funds,
        get_tier_one_deck(),
        vec![],
        vec![],
        vec![],
    );

    let result = Player::reserve_card(&board, &CardId::new(1));
    assert!(result.is_err());
    let result = result.unwrap_err();
    assert_eq!(result, ReserveOperationFail::MaximumReservedCardsExceed);
}

#[test]
fn do_not_get_golden_if_there_is_none() {
    let bank_funds = Funds::new(8, 8, 8, 8, 8, 0);
    let player_funds = Funds::new(3, 2, 3, 1, 1, 1);

    let p1 = Player::new(PlayerId::new(1), player_funds, vec![], vec![]);
    let p2 = get_initial_player(PlayerId::new(2));
    let p3 = get_initial_player(PlayerId::new(3));
    let board = Board::new(
        vec![p1, p2, p3],
        bank_funds,
        get_tier_one_deck(),
        vec![],
        vec![],
        vec![],
    );

    let result = Player::reserve_card(&board, &CardId::new(1));
    assert!(result.is_ok());

    let expected_bank_funds = Funds::new(8, 8, 8, 8, 8, 0);
    let result = result.unwrap();
    assert_eq!(result.bank_funds, expected_bank_funds);

    let expected_player_funds = Funds::new(3, 2, 3, 1, 1, 1);
    assert_eq!(result.player.funds, expected_player_funds);

    assert_eq!(result.player.reserved_cards.len(), 1);
    let player_prod_card = result.player.reserved_cards.get(0).unwrap();
    let expected_prod_card = get_production_card(CardId::new(1));
    assert_eq!(player_prod_card.uid, expected_prod_card.uid);
    assert_eq!(player_prod_card.data, expected_prod_card.data);
}

// The reservation cap applies only to reserving off a sale window: a
// fourth card can still be reserved blind off the top of a deck.
#[test]
fn deck_reservation_ignores_the_hand_cap() {
    let prod_card = ProductionCard::new(get_default_cost(), Piece::Red, None);
    let p1 = Player::new(
        PlayerId::new(1),
        Funds::new(0, 0, 0, 0, 0, 0),
        vec![],
        vec![
            Identifiable::new(prod_card.clone(), CardId::new(6)),
            Identifiable::new(prod_card.clone(), CardId::new(7)),
            Identifiable::new(prod_card, CardId::new(8)),
        ],
    );
    let p2 = get_initial_player(PlayerId::new(2));
    let board = Board::new(
        vec![p1, p2],
        get_initial_bank(),
        get_tier_one_deck(),
        vec![],
        vec![],
        vec![],
    );

    // The window route is refused at three reserved cards...
    let refused = Board::do_action(board.clone(), &Action::ReserveCardFromBoard(CardId::new(1)));
    assert_eq!(
        refused.unwrap_err(),
        ActionFail::InvalidReserve(ReserveOperationFail::MaximumReservedCardsExceed)
    );

    // ...while the deck route still hands out a fourth card.
    let after = Board::do_action(board, &Action::ReserveCardFromDeck(ProductionTier::One)).unwrap();
    assert_eq!(after.players[0].reserved_cards.len(), 4);
}
