//! The decisions of the actors that run the server: each actor's reaction to a
//! message, as a function from its state and the message to its new state and
//! the messages it sends.
use vstd::prelude::*;

pub mod bot;
pub mod botmanager;
pub mod controller;
pub mod game;
pub mod main_controller;
pub mod match_making;
pub mod matchmaking;
pub mod service;

verus! {

/// The capacity of the channels between actors.
pub const BUFFER_MAX: usize = 100000;

/// How often actors send a heartbeat, in milliseconds.
pub const HB_SEND_DUR_MS: u64 = 5000;

/// How long the controller waits for a heartbeat before it warns, in milliseconds.
pub const HB_RECV_WAIT_LIMIT_MS: u64 = 10000;

/// The names held by a vector of strings.
pub open spec fn names(v: Vec<String>) -> Seq<Seq<char>> {
    Seq::new(v@.len(), |i: int| v@[i]@)
}

} // verus!
