use splendor::bank::{CollectError, Funds};
use splendor::board::{
    Action, ActionFail, ActionType, Board, BuyOperationFail, ProductionTier, RoundType, Winner,
};
use splendor::noble::{Noble, NobleId};
use splendor::piece::Piece;
use splendor::player::{Player, PlayerId, ReserveOperationFail};
use splendor::production_card::{CardId, Identifiable, ProductionCard, TaggedCard};

fn get_default_production_card_cost() -> Funds {
    Funds::new(1, 1, 0, 0, 0, 0)
}

fn get_production_card(card_id: CardId) -> TaggedCard {
    let cost = get_default_production_card_cost();
    let card = ProductionCard::new(cost, Piece::Red, Some(1));
    Identifiable::new(card, card_id)
}

fn get_initial_player(id: PlayerId) -> Player {
    let funds = Funds::new(0, 0, 0, 0, 0, 0);
    Player::new(id, funds, vec![], vec![])
}

fn get_player_with_winning_points(id: PlayerId, card_id: CardId, winning_points: u8) -> Player {
    let player = get_initial_player(id);
    let card = get_production_card(card_id.clone());
    let card = Identifiable::new(
        ProductionCard {
            victory_points: Some(winning_points),
            ..card.data
        },
        card_id,
    );
    Player {
        production_cards: vec![card],
        ..player
    }
}

fn get_initial_bank() -> Funds {
    Funds::new(7, 7, 7, 7, 7, 5)
}

fn get_default_board() -> Board {
    let p1 = get_initial_player(PlayerId::new(1));
    let p2 = get_initial_player(PlayerId::new(2));
    let p3 = get_initial_player(PlayerId::new(3));
    let bank_funds = get_initial_bank();
    let deck_one = vec![
        get_production_card(CardId::new(5)),
        get_production_card(CardId::new(4)),
        get_production_card(CardId::new(3)),
        get_production_card(CardId::new(2)),
        get_production_card(CardId::new(1)),
    ];
    let nobles = vec![];
    Board::new(vec![p1, p2, p3], bank_funds, deck_one, vec![], vec![], nobles)
}

#[test]
fn auto_draw_necessary_cards() {
    let board = get_default_board();
    assert_eq!(board.sale_one.len(), 4);
    assert_eq!(board.deck_one.len(), 1);

    let p1 = get_initial_player(PlayerId::new(1));
    let p2 = get_initial_player(PlayerId::new(2));
    let p3 = get_initial_player(PlayerId::new(3));
    let bank_funds = get_initial_bank();
    let deck_one = vec![
        get_production_card(CardId::new(5)),
        get_production_card(CardId::new(4)),
    ];

    let board = Board::new(vec![p1, p2, p3], bank_funds, deck_one, vec![], vec![], vec![]);
    assert_eq!(board.deck_one.len(), 0);
    assert_eq!(board.sale_one.len(), 2);
}

#[test]
fn can_pass_the_turn() {
    let board = get_default_board();
    let action = &Action::PassTheTurn;

    let current_player = 0;

    let result = Board::do_action(board, action);
    assert!(result.is_ok());

    let board_after = result.unwrap();
    assert_ne!(current_player, board_after.player_turn);
}

#[test]
fn turn_cycles_back_to_first_person() {
    let board = get_default_board();
    let action = &Action::PassTheTurn;

    let result = Board::do_action(board, action);
    assert!(result.is_ok());

    let board = result.unwrap();
    assert_eq!(1, board.player_turn);

    let result = Board::do_action(board, action);
    assert!(result.is_ok());

    let board = result.unwrap();
    assert_eq!(2, board.player_turn);

    // Cycle back to first player
    let result = Board::do_action(board, action);
    assert!(result.is_ok());

    let board = result.unwrap();
    assert_eq!(0, board.player_turn);
}

#[test]
fn can_collect_up_to_three_pieces() {
    let board = get_default_board();
    let action = &Action::CollectPieces(vec![Piece::Red, Piece::Blue, Piece::White], vec![]);

    let result = Board::do_action(board, action);
    assert!(result.is_ok());

    let result = result.unwrap();
    let red = result.bank.get(Piece::Red);
    let blue = result.bank.get(Piece::Blue);
    let white = result.bank.get(Piece::White);
    assert_eq!(red, 6);
    assert_eq!(blue, 6);
    assert_eq!(white, 6);

    let expected_player_funds = Funds::new(1, 0, 1, 0, 1, 0);
    let first_player = result.players.get(0);
    assert_eq!(first_player.unwrap().funds, expected_player_funds);

    let board = get_default_board();
    let action = &Action::CollectPieces(
        vec![Piece::Red, Piece::Blue, Piece::White, Piece::Red],
        vec![],
    );

    let result = Board::do_action(board, action).unwrap_err();
    assert_eq!(
        result,
        ActionFail::InvalidCollect(CollectError::CannotCollectMoreThanThree)
    );
}

#[test]
fn can_reserve_card_from_deck() {
    let board = get_default_board();

    let first_player = board.players.get(0).unwrap();

    assert_eq!(board.deck_one.len(), 1);
    assert_eq!(first_player.reserved_cards.len(), 0);
    assert_eq!(board.player_turn, 0);

    let action = &Action::ReserveCardFromDeck(ProductionTier::One);

    let board = Board::do_action(board, action).unwrap();

    // Assert that p1 has a production card reserved
    let first_player = board.players.get(0).unwrap();

    assert_eq!(first_player.reserved_cards.len(), 1);

    assert_eq!(board.deck_one.len(), 0);

    // Make sure the turn is passed to the next player
    assert_eq!(board.player_turn, 1);
    assert_eq!(board.round_type, RoundType::Normal);

    // Assert that we cannot reserve from an empty deck
    let action = &Action::ReserveCardFromDeck(ProductionTier::One);
    let result = Board::do_action(board.clone(), action).unwrap_err();
    assert_eq!(result, ActionFail::CannotReserveFromEmptyDeck);
}

#[test]
fn can_reserve_card_from_board() {
    let board = get_default_board();

    let first_player = board.players.get(0).unwrap();

    assert_eq!(board.deck_one.len(), 1);
    assert_eq!(first_player.reserved_cards.len(), 0);
    assert_eq!(first_player.funds.get(Piece::Golden), 0);
    assert_eq!(board.player_turn, 0);

    let action = &Action::ReserveCardFromBoard(CardId::new(1));

    let result = Board::do_action(board, action).unwrap();

    let player_one = result.players.get(0).unwrap();

    assert_eq!(player_one.reserved_cards.len(), 1);
    assert_eq!(player_one.funds.get(Piece::Golden), 1);
    assert_eq!(result.player_turn, 1);

    let player_reserved_card = player_one.reserved_cards.get(0).unwrap();

    let expected_card = get_production_card(CardId::new(1));

    assert_eq!(player_reserved_card.uid, expected_card.uid);
    assert_eq!(player_reserved_card.data, expected_card.data);
}

#[test]
fn cannot_reserve_card_that_does_not_exist() {
    let board = get_default_board();
    let action = &Action::ReserveCardFromBoard(CardId::new(255));
    let result = Board::do_action(board, action).unwrap_err();
    assert_eq!(
        result,
        ActionFail::InvalidReserve(ReserveOperationFail::CardNotFound)
    );
}

#[test]
fn can_buy_production_card() {
    let board = get_default_board();
    let action = &Action::CollectPieces(vec![Piece::Red, Piece::Green, Piece::Blue], vec![]);
    let action_pass = &Action::PassTheTurn;

    assert_eq!(board.bank, Funds::new(7, 7, 7, 7, 7, 5));

    let board = Board::do_action(board, action).unwrap();
    assert_eq!(board.bank, Funds::new(6, 6, 6, 7, 7, 5));
    let board = Board::do_action(board, action_pass).unwrap();
    let board = Board::do_action(board, action_pass).unwrap();

    let board = Board::do_action(board, action).unwrap();
    assert_eq!(board.bank, Funds::new(5, 5, 5, 7, 7, 5));

    let board = Board::do_action(board, action_pass).unwrap();
    let board = Board::do_action(board, action_pass).unwrap();

    let player_one = board.players.get(0).unwrap();
    assert_eq!(player_one.production_cards.len(), 0);
    assert_eq!(board.deck_one.len(), 1);
    assert_eq!(board.sale_one.len(), 4);
    let expected_player_funds = Funds::new(2, 2, 2, 0, 0, 0);
    assert_eq!(player_one.funds, expected_player_funds);

    let action = &Action::BuyCard(CardId::new(1));
    let board = Board::do_action(board, action).unwrap();
    let board = Board::do_action(board, action_pass).unwrap();
    let board = Board::do_action(board, action_pass).unwrap();

    let player_one = board.players.get(0).unwrap();
    assert_eq!(player_one.production_cards.len(), 1);

    // Make sure that the money was transfered, from the player to the bank
    let expected_player_funds = Funds::new(1, 1, 2, 0, 0, 0);
    let expected_bank_funds = Funds::new(6, 6, 5, 7, 7, 5);
    assert_eq!(player_one.funds, expected_player_funds);
    assert_eq!(board.bank, expected_bank_funds);

    // Makes sure a new card was drawn
    assert_eq!(board.deck_one.len(), 0);
    assert_eq!(board.sale_one.len(), 4);

    // Makes sure the card is not on sale anymore
    let action_fail = Board::do_action(board.clone(), action).unwrap_err();
    assert_eq!(
        action_fail,
        ActionFail::InvalidBuyOperation(BuyOperationFail::CardNotFoundOnBoard)
    );

    // Make sure you used the card instead of the coins
    // Using 1 production card (red), the player red coin should is not reduced, only 1 green

    let action = &Action::BuyCard(CardId::new(2));
    let board = Board::do_action(board, action).unwrap();

    let player_one = board.players.get(0).unwrap();
    assert_eq!(player_one.production_cards.len(), 2);

    let expected_player_funds = Funds::new(1, 0, 2, 0, 0, 0);
    let expected_bank_funds = Funds::new(6, 7, 5, 7, 7, 5);
    assert_eq!(player_one.funds, expected_player_funds);
    assert_eq!(board.bank, expected_bank_funds);
}

#[test]
fn cannot_buy_production_card_if_there_is_no_pieces() {
    let board = get_default_board();
    let player_one = board.players.get(0).unwrap();
    assert_eq!(player_one.production_cards.len(), 0);

    let action = &Action::BuyCard(CardId::new(1));

    let result = Board::do_action(board, action).unwrap_err();
    let expected_funds = Funds::new(1, 1, 0, 0, 0, 0);
    assert_eq!(
        result,
        ActionFail::InvalidBuyOperation(BuyOperationFail::NotEnoughFunds(expected_funds))
    );
}

#[test]
fn can_buy_card_using_golden_and_cards_production() {
    let funds = Funds::new(1, 1, 0, 0, 0, 2);
    let red_production =
        ProductionCard::new(get_default_production_card_cost(), Piece::Red, Some(1));
    let red_card = Identifiable::new(red_production, CardId::new(100));
    let p1 = Player::new(PlayerId::new(1), funds, vec![red_card], vec![]);
    let p2 = get_initial_player(PlayerId::new(2));
    let p3 = get_initial_player(PlayerId::new(3));
    let bank_funds = get_initial_bank();

    let blue_production =
        ProductionCard::new(Funds::new(3, 1, 0, 0, 0, 0), Piece::Blue, Some(1));
    let card_to_buy = Identifiable::new(blue_production, CardId::new(101));

    let deck_one = vec![
        get_production_card(CardId::new(5)),
        get_production_card(CardId::new(4)),
        get_production_card(CardId::new(3)),
        get_production_card(CardId::new(2)),
        get_production_card(CardId::new(1)),
        card_to_buy,
    ];

    let board = Board::new(vec![p1, p2, p3], bank_funds, deck_one, vec![], vec![], vec![]);

    let player_one = board.players.get(0).unwrap();
    assert_eq!(player_one.production_cards.len(), 1);

    let action = &Action::BuyCard(CardId::new(101));
    let board = Board::do_action(board, action).unwrap();

    let player_one = board.players.get(0).unwrap();
    let player_expected_funds = Funds::new(0, 0, 0, 0, 0, 1);
    assert_eq!(player_one.production_cards.len(), 2);
    assert_eq!(player_one.funds, player_expected_funds);
}

#[test]
fn can_select_a_noble_only_after_buying() {
    let board = get_default_board();

    let noble_to_select = Noble {
        id: NobleId::new(1),
        cost: Funds::new(1, 0, 0, 0, 0, 0),
    };

    let second_noble = Noble {
        id: NobleId::new(2),
        cost: Funds::new(1, 0, 0, 0, 0, 0),
    };

    let board = Board {
        nobles: vec![noble_to_select.clone(), second_noble.clone()],
        ..board
    };

    // Make sure you can't select noble at any time
    let action = &Action::SelectNoble(NobleId::new(1));
    let action_fail = Board::do_action(board.clone(), action).unwrap_err();
    assert_eq!(action_fail, ActionFail::YouCannotSelectNobleNow);

    let action = &Action::CollectPieces(vec![Piece::Red, Piece::Green, Piece::Blue], vec![]);
    let action_pass = &Action::PassTheTurn;

    let board = Board::do_action(board, action).unwrap();
    let board = Board::do_action(board, action_pass).unwrap();
    let board = Board::do_action(board, action_pass).unwrap();

    let player_one = board.players.get(0).unwrap();
    assert_eq!(player_one.production_cards.len(), 0);
    assert_eq!(board.deck_one.len(), 1);
    assert_eq!(board.sale_one.len(), 4);

    let action = &Action::BuyCard(CardId::new(1));

    assert_eq!(board.action_needed, ActionType::Normal);
    let board = Board::do_action(board, action).unwrap();
    // Assert that the player is still playing
    assert_eq!(board.player_turn, 0);
    // Assert that the action needed is special: To select a noble
    assert_eq!(board.action_needed, ActionType::SelectNoble);

    // And that we can't do other actions
    let action = &Action::CollectPieces(vec![Piece::Red, Piece::Green, Piece::Blue], vec![]);
    let action_fail = Board::do_action(board.clone(), action).unwrap_err();

    assert_eq!(action_fail, ActionFail::YouNeedToSelectNoble);

    // Make sure we still dont have any nobles
    let player_one = board.players.get(0).unwrap();
    assert_eq!(player_one.nobles.len(), 0);

    // Make sure we can't select inexistent noble
    let action = &Action::SelectNoble(NobleId::new(255));
    let select_err = Board::do_action(board.clone(), action).unwrap_err();
    assert_eq!(select_err, ActionFail::NobleNotFound);

    // Assert that we can select noble
    let action = &Action::SelectNoble(NobleId::new(1));
    let board = Board::do_action(board, action).unwrap();

    let player_one = board.players.get(0).unwrap();
    assert_eq!(player_one.nobles.len(), 1);
    assert_eq!(player_one.nobles.get(0).unwrap(), &noble_to_select);

    // Assert that we cannot select noble again (even if the board would normally allow)
    assert_eq!(board.action_needed, ActionType::Normal);
    assert_eq!(board.player_turn, 1);
}

#[test]
fn end_round_triggered_after_hitting_15_points() {
    let player_one = get_initial_player(PlayerId::new(1));
    let player_one = Player {
        funds: Funds::new(3, 3, 2, 2, 0, 0),
        production_cards: vec![
            get_production_card(CardId::new(100)),
            get_production_card(CardId::new(101)),
            get_production_card(CardId::new(102)),
            get_production_card(CardId::new(103)),
            get_production_card(CardId::new(104)),
            get_production_card(CardId::new(105)),
            get_production_card(CardId::new(106)),
            get_production_card(CardId::new(107)),
            get_production_card(CardId::new(108)),
            get_production_card(CardId::new(109)),
            get_production_card(CardId::new(110)),
            get_production_card(CardId::new(111)),
        ],
        ..player_one
    };
    let cost = Funds::new(1, 1, 1, 0, 0, 0);
    let card_to_buy = ProductionCard::new(cost, Piece::Blue, Some(3));
    let card_to_buy = Identifiable::new(card_to_buy, CardId::new(112));

    let board = get_default_board();
    let board = Board {
        players: vec![player_one, get_initial_player(PlayerId::new(2))],
        sale_one: vec![card_to_buy],
        sale_two: vec![],
        sale_three: vec![],
        ..board
    };

    // assert that the end of the game was not triggered yet
    assert_eq!(board.round_type, RoundType::Normal);

    // Buy production card 112
    let action = Action::BuyCard(CardId::new(112));
    let board = Board::do_action(board, &action).unwrap();

    // assert that the last round was triggered
    assert_eq!(board.round_type, RoundType::LastRound);
    assert_eq!(board.winner, None);

    // Pass the 2nd player turn, ending the game
    let action = Action::PassTheTurn;
    let board = Board::do_action(board, &action).unwrap();
    assert_eq!(board.winner.unwrap(), Winner::Winner(PlayerId::new(1)));
}

#[test]
fn correctly_get_winner() {
    let board = get_default_board();
    let player_one = get_player_with_winning_points(PlayerId::new(1), CardId::new(100), 16);
    let player_two = get_player_with_winning_points(PlayerId::new(2), CardId::new(101), 10);
    let player_three = get_player_with_winning_points(PlayerId::new(3), CardId::new(102), 17);
    let board = Board {
        players: vec![player_one, player_two, player_three.clone()],
        round_type: RoundType::LastRound,
        ..board
    };
    let action_pass = &Action::PassTheTurn;

    let board = Board::do_action(board, action_pass).unwrap();
    let board = Board::do_action(board, action_pass).unwrap();
    let board = Board::do_action(board, action_pass).unwrap();

    assert_eq!(board.winner.unwrap(), Winner::Winner(player_three.id));
}

#[test]
fn correctly_get_winner_on_draw_in_points() {
    let board = get_default_board();

    let player_one = get_player_with_winning_points(PlayerId::new(2), CardId::new(101), 16);
    let player_two = get_player_with_winning_points(PlayerId::new(1), CardId::new(100), 15);
    let mut player_two_cards = player_two.production_cards.clone();
    player_two_cards.push(get_production_card(CardId::new(103)));

    // Player two now has 16, making it a draw with player one, but also has 2 production cards
    let player_two = Player {
        production_cards: player_two_cards,
        ..player_two
    };
    let player_three = get_player_with_winning_points(PlayerId::new(3), CardId::new(102), 15);
    let board = Board {
        players: vec![player_one.clone(), player_two, player_three],
        round_type: RoundType::LastRound,
        ..board
    };
    let action_pass = &Action::PassTheTurn;

    let board = Board::do_action(board, action_pass).unwrap();
    let board = Board::do_action(board, action_pass).unwrap();
    let board = Board::do_action(board, action_pass).unwrap();

    // player one wins because he has the least amount of cards (game rule)
    assert_eq!(board.winner.unwrap(), Winner::Winner(player_one.id));
}

#[test]
fn correctly_get_winners_on_draw() {
    // What if there is a draw in points and in the amount of cards?
    // The tied players are listed together, in board order.

    let board = get_default_board();
    let player_one = get_player_with_winning_points(PlayerId::new(1), CardId::new(100), 16);
    let player_two = get_player_with_winning_points(PlayerId::new(2), CardId::new(101), 17);
    let player_three = get_player_with_winning_points(PlayerId::new(3), CardId::new(102), 17);
    let board = Board {
        players: vec![player_one, player_two.clone(), player_three.clone()],
        round_type: RoundType::LastRound,
        ..board
    };
    let action_pass = &Action::PassTheTurn;

    let board = Board::do_action(board, action_pass).unwrap();
    let board = Board::do_action(board, action_pass).unwrap();
    let board = Board::do_action(board, action_pass).unwrap();

    assert_eq!(
        board.winner.unwrap(),
        Winner::Draw(vec![player_two.id, player_three.id])
    );
}
