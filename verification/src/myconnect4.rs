//! The messages of the connect-four service protocol, as plain values.
use vstd::prelude::*;

verus! {

/// A message with no content.
#[derive(Debug, PartialEq)]
pub struct Empty {}

/// A game starts against `rival`; `first_turn` tells whether the receiver moves first.
#[derive(Debug, PartialEq)]
pub struct NewGame {
    pub game_id: u64,
    pub rival: String,
    pub first_turn: bool,
}

/// Whether the receiver's last move was valid.
#[derive(Debug, PartialEq)]
pub struct MoveValid {
    pub valid: bool,
}

/// A move into column `col`.
#[derive(Debug, PartialEq)]
pub struct Move {
    pub col: u32,
}

/// Whether the receiver won.
#[derive(Debug, PartialEq)]
pub struct Winner {
    pub user_won: bool,
}

/// How a game ended.
#[derive(Debug, PartialEq)]
pub enum Kind {
    Winner(Winner),
    Draw(Empty),
}

/// The end of a game.
#[derive(Debug, PartialEq)]
pub struct GameOver {
    pub kind: Option<Kind>,
}

/// An event between a client and the service.
#[derive(Debug, PartialEq)]
pub enum Event {
    NewGame(NewGame),
    MoveValid(MoveValid),
    Move(Move),
    GameOver(GameOver),
    RivalLeft(Empty),
    SearchGame(Empty),
}

/// An event on the stream between a client and the service.
#[derive(Debug, PartialEq)]
pub struct GameEvent {
    pub event: Option<Event>,
}

} // verus!
