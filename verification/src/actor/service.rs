//! The service actor: it turns the game events of the clients into messages for
//! the controller, and the controller's messages into game events for the clients.
use vstd::prelude::*;

use crate::myconnect4::{Empty, Event, GameEvent, GameOver, Kind, Move, MoveValid, NewGame, Winner};

verus! {

/// The capacity of the channel to each client.
pub const CLIENT_BUFFER_MAX: usize = 100;

/// A message from the controller to the user `user`.
#[derive(Debug, PartialEq, Eq)]
pub struct MessageIn {
    pub user: String,
    pub inner: MessageInInner,
}

/// What the controller tells a user.
#[derive(Debug, PartialEq, Eq)]
pub enum MessageInInner {
    NewGame { game_id: u64, rival: String, first_turn: bool },
    MoveValid { valid: bool },
    RivalMove { col: u8 },
    GameOver { won: Option<bool> },
    RivalLeft,
}

/// What the controller tells a user, as a model.
pub enum InnerModel {
    NewGame { game_id: u64, rival: Seq<char>, first_turn: bool },
    MoveValid { valid: bool },
    RivalMove { col: u8 },
    GameOver { won: Option<bool> },
    RivalLeft,
}

impl View for MessageInInner {
    type V = InnerModel;

    open spec fn view(&self) -> InnerModel {
        match self {
            MessageInInner::NewGame { game_id, rival, first_turn } => InnerModel::NewGame {
                game_id: *game_id,
                rival: rival@,
                first_turn: *first_turn,
            },
            MessageInInner::MoveValid { valid } => InnerModel::MoveValid { valid: *valid },
            MessageInInner::RivalMove { col } => InnerModel::RivalMove { col: *col },
            MessageInInner::GameOver { won } => InnerModel::GameOver { won: *won },
            MessageInInner::RivalLeft => InnerModel::RivalLeft,
        }
    }
}

impl View for MessageIn {
    type V = (Seq<char>, InnerModel);

    open spec fn view(&self) -> (Seq<char>, InnerModel) {
        (self.user@, self.inner@)
    }
}

impl Clone for MessageInInner {
    fn clone(&self) -> (r: Self)
        ensures
            r@ == self@,
    {
        match self {
            MessageInInner::NewGame { game_id, rival, first_turn } => MessageInInner::NewGame {
                game_id: *game_id,
                rival: rival.clone(),
                first_turn: *first_turn,
            },
            MessageInInner::MoveValid { valid } => MessageInInner::MoveValid { valid: *valid },
            MessageInInner::RivalMove { col } => MessageInInner::RivalMove { col: *col },
            MessageInInner::GameOver { won } => MessageInInner::GameOver { won: *won },
            MessageInInner::RivalLeft => MessageInInner::RivalLeft,
        }
    }
}

impl Clone for MessageIn {
    fn clone(&self) -> (r: Self)
        ensures
            r@ == self@,
    {
        MessageIn { user: self.user.clone(), inner: self.inner.clone() }
    }
}

/// A message from the user `user` (or from the service itself, with user `*`) to the controller.
#[derive(Debug)]
pub struct MessageOut {
    pub user: String,
    pub inner: MessageOutInner,
}

/// What a user (or the service) asks of the controller.
#[derive(Debug)]
pub enum MessageOutInner {
    SearchGame,
    Move { col: u8 },
    UserLeft,
    /// Report the state of the matchmaking and game actors.
    QueryGetState,
    SpawnSeveralBots { number: usize },
    HeartBeat,
}

/// The game event that tells a client what the controller told it: the same
/// content, a column widened to `u32`, and the end of a game as a winner kind
/// (whether the client won) or a draw.
pub fn handle_msg_in_inner(msg: MessageInInner) -> (r: GameEvent)
    ensures
        match msg@ {
            InnerModel::NewGame { game_id, rival, first_turn } => r.event matches Some(
                Event::NewGame(ng),
            ) && ng.game_id == game_id && ng.rival@ == rival && ng.first_turn == first_turn,
            InnerModel::MoveValid { valid } => r.event == Some(Event::MoveValid(MoveValid { valid })),
            InnerModel::RivalMove { col } => r.event == Some(Event::Move(Move { col: col as u32 })),
            InnerModel::GameOver { won } => r.event == Some(
                Event::GameOver(
                    GameOver {
                        kind: Some(
                            match won {
                                Some(user_won) => Kind::Winner(Winner { user_won }),
                                None => Kind::Draw(Empty {  }),
                            },
                        ),
                    },
                ),
            ),
            InnerModel::RivalLeft => r.event == Some(Event::RivalLeft(Empty {  })),
        },
{
    match msg {
        MessageInInner::NewGame { game_id, rival, first_turn } => GameEvent {
            event: Some(Event::NewGame(NewGame { game_id, rival, first_turn })),
        },
        MessageInInner::MoveValid { valid } => GameEvent {
            event: Some(Event::MoveValid(MoveValid { valid })),
        },
        MessageInInner::RivalMove { col } => GameEvent {
            event: Some(Event::Move(Move { col: col as u32 })),
        },
        MessageInInner::GameOver { won } => {
            let gameover = match won {
                Some(user_won) => Event::GameOver(GameOver { kind: Some(Kind::Winner(Winner { user_won })) }),
                None => Event::GameOver(GameOver { kind: Some(Kind::Draw(Empty {  })) }),
            };
            GameEvent { event: Some(gameover) }
        },
        MessageInInner::RivalLeft => GameEvent { event: Some(Event::RivalLeft(Empty {  })) },
    }
}

/// The message to the controller for a game event sent by the client `user`: a
/// move (its column cut to a `u8`) or a search; `None` for the events that only
/// the service sends, which are ignored.
pub fn handle_game_evt(user: &str, event: Event) -> (r: Option<MessageOut>)
    ensures
        match event {
            Event::Move(m) => {
                &&& r matches Some(out)
                &&& r->0.user@ == user@
                &&& r->0.inner == MessageOutInner::Move { col: m.col as u8 }
            },
            Event::SearchGame(_) => {
                &&& r matches Some(out)
                &&& r->0.user@ == user@
                &&& r->0.inner == MessageOutInner::SearchGame
            },
            _ => r is None,
        },
{
    match event {
        Event::Move(Move { col }) => {
            let col = col as u8;
            Some(MessageOut { user: user.to_owned(), inner: MessageOutInner::Move { col } })
        },
        Event::SearchGame(_) => Some(MessageOut { user: user.to_owned(), inner: MessageOutInner::SearchGame }),
        Event::GameOver(_) | Event::NewGame(_) | Event::MoveValid(_) | Event::RivalLeft(_) => None,
    }
}

} // verus!
