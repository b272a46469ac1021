use splendor::bank::{CollectError, CollectRequest, Funds};
use splendor::piece::Piece;

fn get_default_funds() -> Funds {
    Funds::new(8, 8, 8, 8, 8, 8)
}

#[test]
fn can_collect_3_pieces() {
    let collect_request = CollectRequest::new(
        get_default_funds(),
        Funds::new(0, 0, 0, 0, 0, 0),
        vec![Piece::Blue, Piece::Red, Piece::White],
        vec![],
    );
    let response = Funds::collect(collect_request).unwrap();

    let expected_bank_funds = Funds::new(7, 8, 7, 8, 7, 8);
    assert_eq!(response.bank_funds, expected_bank_funds);

    let expected_player_funds = Funds::new(1, 0, 1, 0, 1, 0);
    assert_eq!(response.player_funds, expected_player_funds);
}

#[test]
fn cannot_collect_golden() {
    let collect_request = CollectRequest::new(
        get_default_funds(),
        Funds::new(0, 0, 0, 0, 0, 0),
        vec![Piece::Blue, Piece::Red, Piece::Golden],
        vec![],
    );
    let response = Funds::collect(collect_request);
    assert_eq!(response, Err(CollectError::CollectedGolden))
}

#[test]
fn cannot_store_more_than_10_pieces() {
    let collect_request = CollectRequest::new(
        get_default_funds(),
        Funds::new(2, 2, 2, 2, 0, 0),
        vec![Piece::Red, Piece::Green, Piece::Blue],
        vec![],
    );
    let response = Funds::collect(collect_request);
    assert_eq!(response, Err(CollectError::CannotStoreMoreThan10))
}

#[test]
fn cannot_collect_2_of_the_same_with_another_one() {
    let collect_request = CollectRequest::new(
        get_default_funds(),
        Funds::new(0, 0, 0, 0, 0, 0),
        vec![Piece::Blue, Piece::Blue, Piece::Red],
        vec![],
    );
    let response = Funds::collect(collect_request);
    assert_eq!(response, Err(CollectError::Collected2OfTheSameWithAnother));

    let collect_request = CollectRequest::new(
        get_default_funds(),
        Funds::new(0, 0, 0, 0, 0, 0),
        vec![Piece::Blue, Piece::Blue, Piece::Blue],
        vec![],
    );
    let response = Funds::collect(collect_request);
    assert_eq!(response, Err(CollectError::Collected2OfTheSameWithAnother));
}

#[test]
fn cannot_collect_more_than_three() {
    let collect_request = CollectRequest::new(
        get_default_funds(),
        Funds::new(0, 0, 0, 0, 0, 0),
        vec![Piece::Red, Piece::Green, Piece::Blue, Piece::White],
        vec![],
    );
    let response = Funds::collect(collect_request);
    assert_eq!(response, Err(CollectError::CannotCollectMoreThanThree));
}

#[test]
fn can_collect_only_2_of_the_same() {
    let collect_request = CollectRequest::new(
        get_default_funds(),
        Funds::new(1, 1, 1, 1, 1, 1),
        vec![Piece::Blue, Piece::Blue],
        vec![],
    );
    let response = Funds::collect(collect_request).unwrap();
    let expected_player_funds = Funds::new(1, 1, 3, 1, 1, 1);
    assert_eq!(response.player_funds, expected_player_funds);
}

#[test]
fn cannot_collect_when_there_is_not_enough_at_the_bank() {
    let collect_request = CollectRequest::new(
        Funds::new(1, 1, 0, 1, 1, 1),
        Funds::new(0, 0, 0, 0, 0, 0),
        vec![Piece::Blue, Piece::Red],
        vec![],
    );
    let response = Funds::collect(collect_request);
    assert_eq!(response, Err(CollectError::NotEnoughAtTheBank(Piece::Blue)));
}

#[test]
fn cannot_collect_2_of_the_same_when_the_stack_is_almost_empty() {
    let collect_request = CollectRequest::new(
        Funds::new(1, 1, 3, 1, 1, 1),
        Funds::new(0, 0, 0, 0, 0, 0),
        vec![Piece::Blue, Piece::Blue],
        vec![],
    );
    let response = Funds::collect(collect_request);
    assert_eq!(
        response,
        Err(CollectError::CannotCollect2WhenResourceIsAlmostEmpty)
    );

    let collect_request = CollectRequest::new(
        Funds::new(1, 1, 4, 1, 1, 1),
        Funds::new(0, 0, 0, 0, 0, 0),
        vec![Piece::Blue, Piece::Blue],
        vec![],
    );
    let response = Funds::collect(collect_request).unwrap();
    let expected_player_funds = Funds::new(0, 0, 2, 0, 0, 0);
    assert_eq!(response.player_funds, expected_player_funds);

    let expected_bank_funds = Funds::new(1, 1, 2, 1, 1, 1);
    assert_eq!(response.bank_funds, expected_bank_funds);
}

#[test]
fn can_discard_to_collect_new_pieces() {
    let collect_request = CollectRequest::new(
        Funds::new(1, 1, 1, 1, 1, 1),
        Funds::new(2, 2, 2, 2, 2, 0),
        vec![Piece::Blue, Piece::Red, Piece::White],
        vec![Piece::Brown, Piece::Green, Piece::Green],
    );
    let response = Funds::collect(collect_request).unwrap();

    let expected_bank_funds = Funds::new(0, 3, 0, 2, 0, 1);
    assert_eq!(response.bank_funds, expected_bank_funds);

    let expected_player_funds = Funds::new(3, 0, 3, 1, 3, 0);
    assert_eq!(response.player_funds, expected_player_funds);
}

#[test]
fn cannot_discard_if_the_player_do_not_have_the_pieces() {
    let collect_request = CollectRequest::new(
        Funds::new(1, 1, 1, 1, 1, 1),
        Funds::new(1, 0, 0, 0, 0, 0),
        vec![Piece::Blue, Piece::Brown, Piece::White],
        vec![Piece::Red, Piece::Green],
    );
    let response = Funds::collect(collect_request).unwrap_err();
    assert_eq!(response, CollectError::NotEnoughPiecesToDiscard);
}

#[test]
fn cannot_discard_more_than_three() {
    let collect_request = CollectRequest::new(
        Funds::new(1, 1, 1, 1, 1, 1),
        Funds::new(1, 1, 1, 1, 1, 1),
        vec![Piece::Blue, Piece::Brown, Piece::White],
        vec![Piece::Red, Piece::Green, Piece::White, Piece::Brown],
    );
    let response = Funds::collect(collect_request).unwrap_err();
    assert_eq!(response, CollectError::CannotDiscardMoreThanThree);
}

#[test]
fn correctly_convert_from_funds_to_vec_of_pieces() {
    let funds = Funds::new(1, 2, 3, 4, 5, 6);
    let pieces = funds.to_piece_list();

    assert_eq!(pieces.iter().filter(|p| *p == &Piece::Red).count(), 1);
    assert_eq!(pieces.iter().filter(|p| *p == &Piece::Green).count(), 2);
    assert_eq!(pieces.iter().filter(|p| *p == &Piece::Blue).count(), 3);
    assert_eq!(pieces.iter().filter(|p| *p == &Piece::Brown).count(), 4);
    assert_eq!(pieces.iter().filter(|p| *p == &Piece::White).count(), 5);
    assert_eq!(pieces.iter().filter(|p| *p == &Piece::Golden).count(), 6);

    let new_funds = Funds::new_from_list(pieces);
    assert_eq!(funds, new_funds);
}
