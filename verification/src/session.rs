//! The table-hosting protocol: the decisions a game host makes for each
//! incoming message — seating players, starting the game, and applying
//! the current seat's action. The host's transport delivers events and
//! carries the replies; every decision here is a pure step from state
//! and event to the next state and a reply.

use vstd::prelude::*;

use crate::board::{spec_do_action, Action, ActionFail, ActionView, Board};
use crate::original_game::get_original_game_board;
use crate::player::PlayerId;

verus! {

/// A remote participant's identity: a 256-bit public key, as two halves.
#[derive(Clone, Copy, PartialEq, Eq, Structural, Debug)]
pub struct PeerId {
    pub hi: u128,
    pub lo: u128,
}

/// One message delivered to the host.
#[derive(PartialEq, Eq, Debug)]
pub enum ServerEvent {
    Action { from: PeerId, action: Action },
    JoinTable { from: PeerId },
    StartGame,
    Announcement,
    BoardStateUpdated,
}

/// The mathematical model of a `ServerEvent`.
#[verifier::ext_equal]
pub enum ServerEventView {
    Action { from: PeerId, action: ActionView },
    JoinTable { from: PeerId },
    StartGame,
    Announcement,
    BoardStateUpdated,
}

impl View for ServerEvent {
    type V = ServerEventView;

    open spec fn view(&self) -> ServerEventView {
        match self {
            ServerEvent::Action { from, action } => ServerEventView::Action {
                from: *from,
                action: action@,
            },
            ServerEvent::JoinTable { from } => ServerEventView::JoinTable { from: *from },
            ServerEvent::StartGame => ServerEventView::StartGame,
            ServerEvent::Announcement => ServerEventView::Announcement,
            ServerEvent::BoardStateUpdated => ServerEventView::BoardStateUpdated,
        }
    }
}

/// The host's reply to one event, for the transport to render and send.
#[derive(PartialEq, Eq, Debug)]
pub enum ServerResponse {
    /// Nothing to send.
    NoReply,
    /// An action arrived before the game started.
    GameNotStarted,
    /// An action arrived from a seat that is not the current one; the
    /// current seat is named.
    NotYourTurn(PeerId),
    /// The action was applied; the new board should be broadcast.
    BoardUpdated,
    /// The action was refused by the rules.
    ActionRejected(ActionFail),
    /// A fifth player tried to join.
    TableFull,
    /// The game was asked to start with too few players seated.
    NotEnoughPlayers(u8),
    /// The game was asked to start twice.
    GameAlreadyRunning,
    /// The game started; the first seat to play is named.
    GameStarted { first: PeerId },
}

/// The host's state: who sits where, whether the game is running, and
/// the current board snapshot.
#[derive(Debug)]
pub struct ServerState {
    pub seats: Vec<PeerId>,
    pub is_game_running: bool,
    pub board: Board,
}

impl ServerState {
    /// The host's invariant: at most four seats, the turn index always
    /// indexes the players, and while the game runs, every player has a
    /// seat and seat `i` plays the player with id `i + 1`.
    pub open spec fn wf(self) -> bool {
        &&& self.seats@.len() <= 4
        &&& 0 <= self.board@.player_turn < self.board@.players.len()
        &&& self.is_game_running ==> self.board@.players.len() <= self.seats@.len()
        &&& self.is_game_running ==> forall|i: int|
            0 <= i < self.board@.players.len() ==> #[trigger] self.board@.players[i].id == (
            PlayerId { id: (i + 1) as u8 })
    }

    /// A fresh table: no seats taken, game not running, a placeholder
    /// board until the game starts.
    pub fn new() -> (s: ServerState)
        ensures
            s.wf(),
            !s.is_game_running,
            s.seats@.len() == 0,
    {
        ServerState {
            seats: Vec::new(),
            is_game_running: false,
            board: get_original_game_board(2),
        }
    }
}

/// Both states hold the same seats, running flag and board.
pub open spec fn same_session(a: ServerState, b: ServerState) -> bool {
    a.seats@ == b.seats@ && a.is_game_running == b.is_game_running && a.board@ == b.board@
}

/// Handle one event at the hosted table:
/// - an `Action` is refused before the game starts and when it comes
///   from a seat other than the current player's; otherwise it is
///   dispatched to the board, and the reply says whether the board
///   changed or why the rules refused the action;
/// - `JoinTable` seats the sender if fewer than four sit, else reports
///   the table full;
/// - `StartGame` needs at least two seats and a game not yet running,
///   and then deals a fresh board for exactly the seated players;
/// - announcements and board broadcasts are not the host's to answer.
pub fn handle_server_event(state: ServerState, event: &ServerEvent) -> (r: (
    ServerState,
    ServerResponse,
))
    requires
        state.wf(),
    ensures
        r.0.wf(),
        match event@ {
            ServerEventView::Action { from, action } => {
                if !state.is_game_running {
                    same_session(r.0, state) && r.1 == ServerResponse::GameNotStarted
                } else if state.seats@[state.board@.player_turn] != from {
                    same_session(r.0, state) && r.1 == ServerResponse::NotYourTurn(
                        state.seats@[state.board@.player_turn],
                    )
                } else {
                    match spec_do_action(state.board@, action) {
                        Ok(nb) => r.0.board@ == nb && r.0.seats@ == state.seats@
                            && r.0.is_game_running == state.is_game_running && r.1
                            == ServerResponse::BoardUpdated,
                        Err(e) => same_session(r.0, state) && r.1
                            == ServerResponse::ActionRejected(e),
                    }
                }
            },
            ServerEventView::JoinTable { from } => {
                if state.seats@.len() < 4 {
                    r.0.seats@ == state.seats@.push(from) && r.0.is_game_running
                        == state.is_game_running && r.0.board@ == state.board@ && r.1
                        == ServerResponse::NoReply
                } else {
                    same_session(r.0, state) && r.1 == ServerResponse::TableFull
                }
            },
            ServerEventView::StartGame => {
                if state.seats@.len() < 2 {
                    same_session(r.0, state) && r.1 == ServerResponse::NotEnoughPlayers(
                        state.seats@.len() as u8,
                    )
                } else if state.is_game_running {
                    same_session(r.0, state) && r.1 == ServerResponse::GameAlreadyRunning
                } else {
                    &&& r.0.seats@ == state.seats@
                    &&& r.0.is_game_running
                    &&& r.0.board@.players.len() == state.seats@.len()
                    &&& r.0.board@.player_turn == 0
                    &&& r.1 == (ServerResponse::GameStarted { first: state.seats@[0] })
                }
            },
            ServerEventView::Announcement => same_session(r.0, state) && r.1
                == ServerResponse::NoReply,
            ServerEventView::BoardStateUpdated => same_session(r.0, state) && r.1
                == ServerResponse::NoReply,
        },
{
    let mut state = state;
    match event {
        ServerEvent::Action { from, action } => {
            if !state.is_game_running {
                return (state, ServerResponse::GameNotStarted);
            }
            let current_seat = state.seats[state.board.player_turn];
            if !(current_seat == *from) {
                return (state, ServerResponse::NotYourTurn(current_seat));
            }
            let ghost pre = state.board@;
            match Board::do_action(state.board.clone(), action) {
                Ok(new_board_state) => {
                    proof {
                        crate::board::lemma_do_action_preserves_roster(pre, action@);
                    }
                    state.board = new_board_state;
                    proof {
                        assert forall|i: int|
                            0 <= i < state.board@.players.len() implies #[trigger] state.board@
                            .players[i].id == (PlayerId { id: (i + 1) as u8 }) by {
                            assert(state.board@.players[i].id == pre.players[i].id);
                        }
                        assert(state.wf());
                    }
                    (state, ServerResponse::BoardUpdated)
                },
                Err(action_fail) => (state, ServerResponse::ActionRejected(action_fail)),
            }
        },
        ServerEvent::JoinTable { from } => {
            if state.seats.len() < 4 {
                state.seats.push(*from);
                (state, ServerResponse::NoReply)
            } else {
                (state, ServerResponse::TableFull)
            }
        },
        ServerEvent::StartGame => {
            if state.seats.len() < 2 {
                let n = state.seats.len() as u8;
                return (state, ServerResponse::NotEnoughPlayers(n));
            }
            if state.is_game_running {
                return (state, ServerResponse::GameAlreadyRunning);
            }
            let number_of_players = state.seats.len() as u8;
            let first = state.seats[0];
            state.is_game_running = true;
            state.board = get_original_game_board(number_of_players);
            proof {
                assert forall|i: int|
                    0 <= i < state.board@.players.len() implies #[trigger] state.board@.players[
                    i
                ].id == (PlayerId { id: (i + 1) as u8 }) by {
                    assert(state.board@.players[i] == crate::original_game::initial_player(i + 1));
                }
                assert(state.wf());
            }
            (state, ServerResponse::GameStarted { first })
        },
        ServerEvent::Announcement => (state, ServerResponse::NoReply),
        ServerEvent::BoardStateUpdated => (state, ServerResponse::NoReply),
    }
}

} // verus!
