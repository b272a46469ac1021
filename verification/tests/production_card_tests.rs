use splendor::bank::Funds;
use splendor::board::BuyOperationFail;
use splendor::piece::Piece;
use splendor::player::{Player, PlayerId};
use splendor::production_card::{CardId, Identifiable, ProductionCard, TaggedCard};

fn get_default_production() -> Vec<TaggedCard> {
    vec![
        Identifiable::new(
            ProductionCard::new(get_default_cost(), Piece::Green, None),
            CardId::new(10),
        ),
        Identifiable::new(
            ProductionCard::new(get_default_cost(), Piece::Blue, None),
            CardId::new(20),
        ),
    ]
}

fn get_default_cost() -> Funds {
    Funds::new(0, 1, 2, 1, 1, 0)
}

#[test]
fn can_buy_card() {
    let prod_card = ProductionCard::new(get_default_cost(), Piece::Red, None);

    let player_funds = Funds::new(3, 2, 3, 1, 1, 1);
    let player = Player::new(PlayerId::new(1), player_funds, [].to_vec(), [].to_vec());

    let result = ProductionCard::buy(player, prod_card);

    let should_remain_funds = Funds::new(3, 1, 1, 0, 0, 1);

    assert!(result.is_ok());

    assert_eq!(result.unwrap(), should_remain_funds);
}

#[test]
fn cannot_buy_if_there_is_not_enough_funds() {
    let prod_card = ProductionCard::new(get_default_cost(), Piece::Red, None);

    let player_funds = Funds::new(0, 0, 2, 1, 1, 0);
    let player = Player::new(PlayerId::new(1), player_funds, [].to_vec(), [].to_vec());

    let result = ProductionCard::buy(player, prod_card);

    assert!(result.is_err());

    assert_eq!(
        result.unwrap_err(),
        BuyOperationFail::NotEnoughFunds(Funds::new_from_list(vec![Piece::Green]))
    );
}

#[test]
fn can_buy_using_golden_piece_when_needed() {
    let prod_card = ProductionCard::new(get_default_cost(), Piece::Red, None);

    let player_funds = Funds::new(0, 0, 1, 2, 1, 2);
    let player = Player::new(PlayerId::new(1), player_funds, [].to_vec(), [].to_vec());

    let result = ProductionCard::buy(player, prod_card);

    let should_remain_funds = Funds::new(0, 0, 0, 1, 0, 0);

    assert_eq!(result.unwrap(), should_remain_funds);
}

#[test]
fn prioritize_production_card_over_pieces() {
    let prod_card = ProductionCard::new(get_default_cost(), Piece::Red, None);

    let player_produces = get_default_production();
    let player_funds = Funds::new(0, 1, 2, 2, 1, 0);
    let player = Player::new(PlayerId::new(1), player_funds, player_produces, [].to_vec());

    let result = ProductionCard::buy(player, prod_card);

    let should_remain_funds = Funds::new(0, 1, 1, 1, 0, 0);

    assert_eq!(result.unwrap(), should_remain_funds);
}

#[test]
fn use_production_card_with_pieces_and_golden_pieces() {
    let prod_card = ProductionCard::new(Funds::new(0, 1, 2, 1, 1, 0), Piece::Red, None);

    let player_produces = get_default_production();
    let player_funds = Funds::new(0, 1, 0, 2, 1, 1);
    let player = Player::new(
        PlayerId::new(1),
        player_funds,
        player_produces.clone(),
        [].to_vec(),
    );

    let result = ProductionCard::buy(player, prod_card);

    let should_remain_funds = Funds::new(0, 1, 0, 1, 0, 0);

    assert_eq!(result.unwrap(), should_remain_funds);

    let prod_card = ProductionCard::new(Funds::new(0, 2, 2, 1, 1, 0), Piece::Red, None);

    let player_funds = Funds::new(0, 0, 0, 2, 1, 1);
    let player = Player::new(PlayerId::new(1), player_funds, player_produces, [].to_vec());

    let result = ProductionCard::buy(player, prod_card);

    assert!(result.is_err());
}
