use splendor::bank::{CollectError, CollectRequest, Funds};
use splendor::board::{Action, ActionFail};
use splendor::piece::Piece;
use splendor::session::{handle_server_event, PeerId, ServerEvent, ServerResponse, ServerState};

fn peer(n: u128) -> PeerId {
    PeerId { hi: n, lo: n + 1 }
}

#[test]
fn actions_are_refused_before_the_game_starts() {
    let state = ServerState::new();
    let (state, response) = handle_server_event(
        state,
        &ServerEvent::Action {
            from: peer(1),
            action: Action::PassTheTurn,
        },
    );
    assert_eq!(response, ServerResponse::GameNotStarted);
    assert!(!state.is_game_running);
}

#[test]
fn the_table_seats_at_most_four() {
    let mut state = ServerState::new();
    for n in 0..4u128 {
        let (next, response) =
            handle_server_event(state, &ServerEvent::JoinTable { from: peer(n) });
        assert_eq!(response, ServerResponse::NoReply);
        state = next;
    }
    assert_eq!(state.seats.len(), 4);
    let (state, response) = handle_server_event(state, &ServerEvent::JoinTable { from: peer(9) });
    assert_eq!(response, ServerResponse::TableFull);
    assert_eq!(state.seats.len(), 4);
}

#[test]
fn starting_needs_two_players_and_happens_once() {
    let state = ServerState::new();
    let (state, response) = handle_server_event(state, &ServerEvent::StartGame);
    assert_eq!(response, ServerResponse::NotEnoughPlayers(0));

    let (state, _) = handle_server_event(state, &ServerEvent::JoinTable { from: peer(1) });
    let (state, _) = handle_server_event(state, &ServerEvent::JoinTable { from: peer(2) });

    let (state, response) = handle_server_event(state, &ServerEvent::StartGame);
    assert_eq!(response, ServerResponse::GameStarted { first: peer(1) });
    assert!(state.is_game_running);
    assert_eq!(state.board.players.len(), 2);

    let (_, response) = handle_server_event(state, &ServerEvent::StartGame);
    assert_eq!(response, ServerResponse::GameAlreadyRunning);
}

#[test]
fn only_the_current_seat_may_act() {
    let state = ServerState::new();
    let (state, _) = handle_server_event(state, &ServerEvent::JoinTable { from: peer(1) });
    let (state, _) = handle_server_event(state, &ServerEvent::JoinTable { from: peer(2) });
    let (state, _) = handle_server_event(state, &ServerEvent::StartGame);

    // the second seat tries to act first
    let (state, response) = handle_server_event(
        state,
        &ServerEvent::Action {
            from: peer(2),
            action: Action::PassTheTurn,
        },
    );
    assert_eq!(response, ServerResponse::NotYourTurn(peer(1)));
    assert_eq!(state.board.player_turn, 0);

    // the first seat passes; the turn moves to the second seat
    let (state, response) = handle_server_event(
        state,
        &ServerEvent::Action {
            from: peer(1),
            action: Action::PassTheTurn,
        },
    );
    assert_eq!(response, ServerResponse::BoardUpdated);
    assert_eq!(state.board.player_turn, 1);

    // an illegal action is rejected and the board stands
    let (state, response) = handle_server_event(
        state,
        &ServerEvent::Action {
            from: peer(2),
            action: Action::CollectPieces(vec![Piece::Golden], vec![]),
        },
    );
    assert_eq!(
        response,
        ServerResponse::ActionRejected(ActionFail::InvalidCollect(CollectError::CollectedGolden))
    );
    assert_eq!(state.board.player_turn, 1);
}

// A discard that lands the hand exactly on the 10-token cap is accepted;
// one token more is refused.
#[test]
fn discard_to_exactly_the_hand_cap() {
    let at_cap = CollectRequest::new(
        Funds::new(5, 5, 5, 5, 5, 5),
        Funds::new(4, 4, 0, 0, 0, 0),
        vec![Piece::Blue, Piece::Brown, Piece::White],
        vec![Piece::Red],
    );
    let response = Funds::collect(at_cap).unwrap();
    assert_eq!(response.player_funds, Funds::new(3, 4, 1, 1, 1, 0));
    assert_eq!(response.player_funds.total(), 10);

    let over_cap = CollectRequest::new(
        Funds::new(5, 5, 5, 5, 5, 5),
        Funds::new(4, 4, 0, 0, 0, 0),
        vec![Piece::Blue, Piece::Brown, Piece::White],
        vec![],
    );
    let response = Funds::collect(over_cap);
    assert_eq!(response, Err(CollectError::CannotStoreMoreThan10));
}
