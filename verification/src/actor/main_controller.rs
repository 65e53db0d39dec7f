//! Messages of an earlier design of the controller.
use vstd::prelude::*;

verus! {

/// A message from the queueing side to the controller.
pub enum MessageFromQueueing {
    GameSearch { user: String },
    GameMove { user: String, col: u8 },
}

} // verus!
