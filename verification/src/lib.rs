//! Connect four: the game rules, the minimax opponent, the game repository
//! and the decisions of the actors that run matchmaking and games.
pub mod game;
pub mod minimax;
pub mod myconnect4;
pub mod random;
pub mod user_games;
pub mod repo;
pub mod actor;
pub mod client;
