//! The bot manager: it starts bots and gives idle ones to users who wait too long.
use vstd::prelude::*;

use super::bot;

verus! {

/// What the bot manager is asked to do.
#[derive(Debug)]
pub enum MessageIn {
    /// Answer that the bot manager is alive.
    HeartBeat,
    /// Make one bot search for a game: an idle one, or a new one.
    QueueOne,
    /// Start `number` bots that search for games again and again.
    SpawnSeveral { number: usize },
}

/// What the bot manager tells the controller.
#[derive(Debug, PartialEq, Eq)]
pub enum MessageOut {
    HeartBeat,
}

/// Which bot is to search for a game.
pub enum QueueOneAction {
    /// The bot whose answer came at this position.
    SearchWith(usize),
    /// A new bot.
    SpawnNew,
}

/// The bot that `QueueOne` sends searching, from the bots' answers to
/// `QueryIdle` in the order they came: the first idle one, or a new bot when
/// none is idle.
pub fn queue_one(idle_answers: &Vec<bool>) -> (r: QueueOneAction)
    ensures
        match r {
            QueueOneAction::SearchWith(i) => i < idle_answers@.len() && idle_answers@[i as int]
                && forall|j: int| 0 <= j < i ==> !#[trigger] idle_answers@[j],
            QueueOneAction::SpawnNew => forall|j: int| 0 <= j < idle_answers@.len() ==> !#[trigger] idle_answers@[j],
        },
{
    let mut i: usize = 0;
    while i < idle_answers.len()
        invariant
            i <= idle_answers@.len(),
            forall|j: int| 0 <= j < i ==> !#[trigger] idle_answers@[j],
        decreases idle_answers@.len() - i,
    {
        if idle_answers[i] {
            return QueueOneAction::SearchWith(i);
        }
        i = i + 1;
    }
    QueueOneAction::SpawnNew
}

/// The messages a new bot gets: `PermaPlay(true)` first when it is to play
/// again and again, then `SearchForGame`.
pub fn spawn_messages(perma_play: bool) -> (r: Vec<bot::MessageIn>)
    ensures
        perma_play ==> r@.len() == 2 && r@[0] == bot::MessageIn::PermaPlay(true) && r@[1] == bot::MessageIn::SearchForGame,
        !perma_play ==> r@.len() == 1 && r@[0] == bot::MessageIn::SearchForGame,
{
    let mut r: Vec<bot::MessageIn> = Vec::new();
    if perma_play {
        r.push(bot::MessageIn::PermaPlay(true));
    }
    r.push(bot::MessageIn::SearchForGame);
    r
}

} // verus!
