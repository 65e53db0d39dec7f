//! The controller: it routes the messages between the actors and watches their heartbeats.
use vstd::prelude::*;

use super::botmanager as bm;
use super::game as g;
use super::matchmaking as mm;
use super::service as s;

verus! {

/// The actors whose heartbeats the controller watches.
#[derive(Debug, PartialEq, Eq, Structural, Clone, Copy)]
pub enum ActorType {
    MatchMaking,
    Game,
    Service,
    BotManager,
}

/// Where the controller sends a message.
pub enum Route {
    ToMatchMaking(mm::MessageIn),
    ToGame(g::MessageIn),
    /// To the service actor, for a user connected to the service.
    ToService(s::MessageIn),
    /// To the bot manager, for a bot.
    ToBotManagerService(s::MessageIn),
    ToBotManager(bm::MessageIn),
    /// Record a heartbeat of an actor.
    Heartbeat(ActorType),
    /// Ask the matchmaking and game actors for their state, and answer the service with both.
    QueryState,
}

/// Whether `r[at]` and `r[at + 1]` send `m` to the service and to the bot manager.
pub open spec fn to_both(r: Seq<Route>, at: int, m: (Seq<char>, s::InnerModel)) -> bool {
    &&& r[at] matches Route::ToService(a)
    &&& a@ == m
    &&& r[at + 1] matches Route::ToBotManagerService(b)
    &&& b@ == m
}

/// A message for a user goes to the service and to the bot manager, which
/// each pass it on to the user if it is theirs.
pub fn send_to_service(msg: s::MessageIn) -> (r: Vec<Route>)
    ensures
        r@.len() == 2,
        to_both(r@, 0, msg@),
{
    let mut r: Vec<Route> = Vec::new();
    r.push(Route::ToService(msg.clone()));
    r.push(Route::ToBotManagerService(msg));
    r
}

/// Where a message from a user (or from the service) goes.
///
/// - `SearchGame`: the user searches, at the matchmaking actor.
/// - `Move`: the move goes to the game actor.
/// - `UserLeft`: the game actor and the matchmaking actor hear of it.
/// - `QueryGetState`: the state query.
/// - `SpawnSeveralBots`: the bot manager starts bots.
/// - `HeartBeat`: the service's heartbeat.
pub fn handle_msg_s_out(msg: s::MessageOut) -> (r: Vec<Route>)
    ensures
        match msg.inner {
            s::MessageOutInner::SearchGame => {
                &&& r@.len() == 1
                &&& r@[0] matches Route::ToMatchMaking(mm::MessageIn::Search { user })
                &&& user@ == msg.user@
            },
            s::MessageOutInner::Move { col } => {
                &&& r@.len() == 1
                &&& r@[0] matches Route::ToGame(g::MessageIn::Move { user, col: c })
                &&& user@ == msg.user@
                &&& c == col
            },
            s::MessageOutInner::UserLeft => {
                &&& r@.len() == 2
                &&& r@[0] matches Route::ToGame(g::MessageIn::UserLeft { user: u0 }) && u0@ == msg.user@
                &&& r@[1] matches Route::ToMatchMaking(mm::MessageIn::CancelSearch { user: u1 }) && u1@ == msg.user@
            },
            s::MessageOutInner::QueryGetState => r@.len() == 1 && r@[0] matches Route::QueryState,
            s::MessageOutInner::SpawnSeveralBots { number } => {
                &&& r@.len() == 1
                &&& r@[0] matches Route::ToBotManager(bm::MessageIn::SpawnSeveral { number: n })
                &&& n == number
            },
            s::MessageOutInner::HeartBeat => r@.len() == 1 && r@[0] matches Route::Heartbeat(
                ActorType::Service,
            ),
        },
{
    let s::MessageOut { user, inner: msg } = msg;
    let mut r: Vec<Route> = Vec::new();
    match msg {
        s::MessageOutInner::SearchGame => {
            r.push(Route::ToMatchMaking(mm::MessageIn::Search { user }));
        },
        s::MessageOutInner::Move { col } => {
            r.push(Route::ToGame(g::MessageIn::Move { user, col }));
        },
        s::MessageOutInner::UserLeft => {
            r.push(Route::ToGame(g::MessageIn::UserLeft { user: user.clone() }));
            r.push(Route::ToMatchMaking(mm::MessageIn::CancelSearch { user }));
        },
        s::MessageOutInner::QueryGetState => {
            r.push(Route::QueryState);
        },
        s::MessageOutInner::SpawnSeveralBots { number } => {
            r.push(Route::ToBotManager(bm::MessageIn::SpawnSeveral { number }));
        },
        s::MessageOutInner::HeartBeat => {
            r.push(Route::Heartbeat(ActorType::Service));
        },
    }
    r
}

/// Where a message from the matchmaking actor goes: a pair of users starts a
/// game; a user who waits too long gets a bot; a heartbeat is recorded.
pub fn handle_msg_mm_out(msg: mm::MessageOut) -> (r: Vec<Route>)
    ensures
        match msg {
            mm::MessageOut::UsersFound { users } => {
                &&& r@.len() == 1
                &&& r@[0] matches Route::ToGame(g::MessageIn::NewGame { users: us })
                &&& us.0@ == users.0@
                &&& us.1@ == users.1@
            },
            mm::MessageOut::LongWait { .. } => r@.len() == 1 && r@[0] matches Route::ToBotManager(
                bm::MessageIn::QueueOne,
            ),
            mm::MessageOut::HeartBeat => r@.len() == 1 && r@[0] matches Route::Heartbeat(
                ActorType::MatchMaking,
            ),
        },
{
    let mut r: Vec<Route> = Vec::new();
    match msg {
        mm::MessageOut::UsersFound { users } => {
            r.push(Route::ToGame(g::MessageIn::NewGame { users }));
        },
        mm::MessageOut::LongWait { user: _ } => {
            r.push(Route::ToBotManager(bm::MessageIn::QueueOne));
        },
        mm::MessageOut::HeartBeat => {
            r.push(Route::Heartbeat(ActorType::MatchMaking));
        },
    }
    r
}

/// Where a message from the bot manager goes: its heartbeat is recorded.
pub fn handle_msg_bm_out(msg: bm::MessageOut) -> (r: Vec<Route>)
    ensures
        r@.len() == 1,
        r@[0] matches Route::Heartbeat(ActorType::BotManager),
{
    let mut r: Vec<Route> = Vec::new();
    match msg {
        bm::MessageOut::HeartBeat => {
            r.push(Route::Heartbeat(ActorType::BotManager));
        },
    }
    r
}

/// Where a message from the game actor goes.
///
/// - `NewGame`: each of the two users hears of the game, its rival, and whether it moves first.
/// - `UserAlreadyInGame`: the users to rematch search again (the rejected ones are dropped).
/// - `UserNotInGame`: nowhere.
/// - `MoveValid`: the player hears whether its move was valid and, when it was,
///   the rival hears of the move.
/// - `GameOverWinner`, `GameOverDraw`: both users hear how the game ended for them.
/// - `AbortGame`: the user hears that its rival left.
/// - `HeartBeat`: the game actor's heartbeat.
///
/// Every message for a user goes both to the service and to the bot manager.
pub fn handle_msg_g_out(msg: g::MessageOut) -> (r: Vec<Route>)
    ensures
        match msg {
            g::MessageOut::NewGame { game_id, users, first_turn } => {
                &&& r@.len() == 4
                &&& to_both(r@, 0, (users.0@, s::InnerModel::NewGame { game_id, rival: users.1@, first_turn: first_turn@ == users.0@ }))
                &&& to_both(r@, 2, (users.1@, s::InnerModel::NewGame { game_id, rival: users.0@, first_turn: first_turn@ == users.1@ }))
            },
            g::MessageOut::UserAlreadyInGame { reject_users: _, rematchmake_users } => {
                &&& r@.len() == rematchmake_users@.len()
                &&& forall|i: int| 0 <= i < r@.len() ==> (#[trigger] r@[i] matches Route::ToMatchMaking(
                    mm::MessageIn::Search { user },
                ) && user@ == rematchmake_users@[i]@)
            },
            g::MessageOut::UserNotInGame { .. } => r@.len() == 0,
            g::MessageOut::MoveValid { player, rival, valid, col } => if valid {
                &&& r@.len() == 4
                &&& to_both(r@, 0, (player@, s::InnerModel::MoveValid { valid: true }))
                &&& to_both(r@, 2, (rival@, s::InnerModel::RivalMove { col }))
            } else {
                r@.len() == 2 && to_both(r@, 0, (player@, s::InnerModel::MoveValid { valid: false }))
            },
            g::MessageOut::GameOverWinner { winner, loser } => {
                &&& r@.len() == 4
                &&& to_both(r@, 0, (winner@, s::InnerModel::GameOver { won: Some(true) }))
                &&& to_both(r@, 2, (loser@, s::InnerModel::GameOver { won: Some(false) }))
            },
            g::MessageOut::GameOverDraw { users } => {
                &&& r@.len() == 4
                &&& to_both(r@, 0, (users.0@, s::InnerModel::GameOver { won: None }))
                &&& to_both(r@, 2, (users.1@, s::InnerModel::GameOver { won: None }))
            },
            g::MessageOut::AbortGame { user } => r@.len() == 2 && to_both(r@, 0, (user@, s::InnerModel::RivalLeft)),
            g::MessageOut::HeartBeat => r@.len() == 1 && r@[0] matches Route::Heartbeat(ActorType::Game),
        },
{
    let mut r: Vec<Route> = Vec::new();
    match msg {
        g::MessageOut::NewGame { game_id, users, first_turn } => {
            let (user0, user1) = users;
            let first0 = user0 == first_turn;
            let first1 = user1 == first_turn;
            let mut a = send_to_service(
                s::MessageIn {
                    user: user0.clone(),
                    inner: s::MessageInInner::NewGame { game_id, rival: user1.clone(), first_turn: first0 },
                },
            );
            let mut b = send_to_service(
                s::MessageIn {
                    user: user1,
                    inner: s::MessageInInner::NewGame { game_id, rival: user0, first_turn: first1 },
                },
            );
            r.append(&mut a);
            r.append(&mut b);
        },
        g::MessageOut::UserAlreadyInGame { reject_users: _, rematchmake_users } => {
            let mut i: usize = 0;
            while i < rematchmake_users.len()
                invariant
                    i <= rematchmake_users@.len(),
                    r@.len() == i,
                    forall|k: int| 0 <= k < i ==> (#[trigger] r@[k] matches Route::ToMatchMaking(
                        mm::MessageIn::Search { user },
                    ) && user@ == rematchmake_users@[k]@),
                decreases rematchmake_users@.len() - i,
            {
                r.push(Route::ToMatchMaking(mm::MessageIn::Search { user: rematchmake_users[i].clone() }));
                i = i + 1;
            }
        },
        g::MessageOut::UserNotInGame { user: _ } => {},
        g::MessageOut::MoveValid { player, rival, valid, col } => {
            if valid {
                let mut a = send_to_service(s::MessageIn { user: player, inner: s::MessageInInner::MoveValid { valid: true } });
                let mut b = send_to_service(s::MessageIn { user: rival, inner: s::MessageInInner::RivalMove { col } });
                r.append(&mut a);
                r.append(&mut b);
            } else {
                let mut a = send_to_service(s::MessageIn { user: player, inner: s::MessageInInner::MoveValid { valid: false } });
                r.append(&mut a);
            }
        },
        g::MessageOut::GameOverWinner { winner, loser } => {
            let mut a = send_to_service(s::MessageIn { user: winner, inner: s::MessageInInner::GameOver { won: Some(true) } });
            let mut b = send_to_service(s::MessageIn { user: loser, inner: s::MessageInInner::GameOver { won: Some(false) } });
            r.append(&mut a);
            r.append(&mut b);
        },
        g::MessageOut::GameOverDraw { users } => {
            let mut a = send_to_service(s::MessageIn { user: users.0, inner: s::MessageInInner::GameOver { won: None } });
            let mut b = send_to_service(s::MessageIn { user: users.1, inner: s::MessageInInner::GameOver { won: None } });
            r.append(&mut a);
            r.append(&mut b);
        },
        g::MessageOut::AbortGame { user } => {
            let mut a = send_to_service(s::MessageIn { user, inner: s::MessageInInner::RivalLeft });
            r.append(&mut a);
        },
        g::MessageOut::HeartBeat => {
            r.push(Route::Heartbeat(ActorType::Game));
        },
    }
    r
}

/// The actors in the order of `ActorType`.
pub open spec fn actor_order() -> Seq<ActorType> {
    seq![ActorType::MatchMaking, ActorType::Game, ActorType::Service, ActorType::BotManager]
}

/// The time of the last heartbeat of each actor, in milliseconds.
pub struct HeartbeatTable {
    match_making: Option<u64>,
    game: Option<u64>,
    service: Option<u64>,
    bot_manager: Option<u64>,
}

impl HeartbeatTable {
    /// The time of `actor`'s last heartbeat, if any.
    pub closed spec fn last(&self, actor: ActorType) -> Option<u64> {
        match actor {
            ActorType::MatchMaking => self.match_making,
            ActorType::Game => self.game,
            ActorType::Service => self.service,
            ActorType::BotManager => self.bot_manager,
        }
    }

    /// A table in which every actor had a heartbeat at `now_ms`.
    pub fn new(now_ms: u64) -> (r: Self)
        ensures
            forall|a: ActorType| #[trigger] r.last(a) == Some(now_ms),
    {
        HeartbeatTable { match_making: Some(now_ms), game: Some(now_ms), service: Some(now_ms), bot_manager: Some(now_ms) }
    }

    /// The stale actors among the first `k` in the order of `ActorType`, with how
    /// long ago their last heartbeat was: those whose last heartbeat is more than
    /// `limit_ms` before `now_ms`.
    pub open spec fn stale_list(&self, now_ms: u64, limit_ms: u64, k: nat) -> Seq<(ActorType, u64)>
        decreases k,
    {
        if k == 0 {
            Seq::empty()
        } else {
            let prev = self.stale_list(now_ms, limit_ms, (k - 1) as nat);
            let a = actor_order()[k - 1];
            match self.last(a) {
                Some(t) => if now_ms - t > limit_ms {
                    prev.push((a, (now_ms - t) as u64))
                } else {
                    prev
                },
                None => prev,
            }
        }
    }

    /// A table with no heartbeat.
    pub fn empty() -> (r: Self)
        ensures
            forall|a: ActorType| #[trigger] r.last(a) is None,
    {
        HeartbeatTable { match_making: None, game: None, service: None, bot_manager: None }
    }

    /// Records a heartbeat of `actor` at `now_ms`.
    pub fn record(&mut self, actor: ActorType, now_ms: u64)
        ensures
            final(self).last(actor) == Some(now_ms),
            forall|a: ActorType| a != actor ==> #[trigger] final(self).last(a) == old(self).last(a),
    {
        match actor {
            ActorType::MatchMaking => self.match_making = Some(now_ms),
            ActorType::Game => self.game = Some(now_ms),
            ActorType::Service => self.service = Some(now_ms),
            ActorType::BotManager => self.bot_manager = Some(now_ms),
        }
    }

    /// The actors whose last heartbeat is more than `limit_ms` before `now_ms`,
    /// with how long ago it was, in the order of `ActorType`.
    pub fn stale(&self, now_ms: u64, limit_ms: u64) -> (r: Vec<(ActorType, u64)>)
        ensures
            r@ == self.stale_list(now_ms, limit_ms, 4),
            forall|i: int| 0 <= i < r@.len() ==> {
                let (a, elapsed) = #[trigger] r@[i];
                &&& self.last(a) matches Some(t)
                &&& elapsed == now_ms - t
                &&& now_ms - t > limit_ms
            },
            forall|a: ActorType| (#[trigger] self.last(a)) matches Some(t) && now_ms - t > limit_ms ==> exists|i: int| 0 <= i < r@.len() && r@[i].0 == a,
    {
        let mut r: Vec<(ActorType, u64)> = Vec::new();
        let actors = [ActorType::MatchMaking, ActorType::Game, ActorType::Service, ActorType::BotManager];
        let mut k: usize = 0;
        while k < 4
            invariant
                k <= 4,
                actors@ == actor_order(),
                r@ == self.stale_list(now_ms, limit_ms, k as nat),
                forall|i: int| 0 <= i < r@.len() ==> {
                    let (a, elapsed) = #[trigger] r@[i];
                    &&& self.last(a) matches Some(t)
                    &&& elapsed == now_ms - t
                    &&& now_ms - t > limit_ms
                },
                forall|j: int| 0 <= j < k ==> (self.last(#[trigger] actors@[j]) matches Some(t) && now_ms - t > limit_ms ==> exists|i: int| 0 <= i < r@.len() && r@[i].0 == actors@[j]),
            decreases 4 - k,
        {
            let a = actors[k];
            let last = match a {
                ActorType::MatchMaking => self.match_making,
                ActorType::Game => self.game,
                ActorType::Service => self.service,
                ActorType::BotManager => self.bot_manager,
            };
            let ghost before = r@;
            if let Some(t) = last {
                if now_ms >= t && now_ms - t > limit_ms {
                    r.push((a, now_ms - t));
                }
            }
            proof {
                assert(last == self.last(a));
                assert forall|j: int|
                    0 <= j < k + 1 && self.last(#[trigger] actors@[j]) is Some && now_ms - self.last(actors@[j])->0
                        > limit_ms implies exists|i: int| 0 <= i < r@.len() && r@[i].0 == actors@[j] by {
                    if j < k {
                        let i = choose|i: int| 0 <= i < before.len() && before[i].0 == actors@[j];
                        assert(r@[i] == before[i]);
                    } else {
                        assert(r@[r@.len() - 1].0 == a);
                    }
                }
            }
            k = k + 1;
        }
        proof {
            assert forall|a: ActorType| (#[trigger] self.last(a)) matches Some(t) && now_ms - t > limit_ms implies exists|i: int| 0 <= i < r@.len() && r@[i].0 == a by {
                match a {
                    ActorType::MatchMaking => assert(actors@[0] == a),
                    ActorType::Game => assert(actors@[1] == a),
                    ActorType::Service => assert(actors@[2] == a),
                    ActorType::BotManager => assert(actors@[3] == a),
                }
            }
        }
        r
    }
}

} // verus!
