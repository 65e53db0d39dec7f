//! The matchmaking actor: users who search for a game wait in a queue until
//! another user can be paired with them.
use vstd::prelude::*;

use super::names;
use crate::game::same_name;

verus! {

/// How long a user may wait in the queue before the bots are asked for a rival,
/// in milliseconds.
pub const DEFAULT_WAIT_LIMIT_MS: u64 = 10000;

/// What the matchmaking actor is asked to do.
#[derive(Debug)]
pub enum MessageIn {
    /// `user` no longer searches.
    CancelSearch { user: String },
    /// Pair the two users who came last, if there are two.
    Poll,
    /// `user` searches for a game.
    Search { user: String },
    /// Report the queue.
    QueryGetState,
}

/// What the matchmaking actor tells the controller.
#[derive(Debug, PartialEq, Eq)]
pub enum MessageOut {
    HeartBeat,
    UsersFound { users: (String, String) },
    LongWait { user: String },
}

/// The users in the queue, from the first to come.
#[derive(Debug)]
pub struct StatePayload {
    pub queue: Vec<String>,
}

/// What the matchmaking actor does in answer to a message.
pub enum Response {
    Send(MessageOut),
    Reply(StatePayload),
}

/// A user waiting in the queue, and since when (in milliseconds).
pub struct UserRecord {
    pub created_at: u64,
    pub user: String,
}

/// The queue of users who search for a game, in the order they came.
pub struct MatchQueue {
    queue: Vec<UserRecord>,
}

/// A waiting user as a model: when it came, and its name.
pub open spec fn record_model(r: UserRecord) -> (u64, Seq<char>) {
    (r.created_at, r.user@)
}

impl View for MatchQueue {
    type V = Seq<(u64, Seq<char>)>;

    closed spec fn view(&self) -> Seq<(u64, Seq<char>)> {
        Seq::new(self.queue@.len(), |i: int| record_model(self.queue@[i]))
    }
}

/// The names of the waiting users, in order.
pub open spec fn queue_users(q: Seq<(u64, Seq<char>)>) -> Seq<Seq<char>> {
    Seq::new(q.len(), |i: int| q[i].1)
}

/// Whether `user` waits in the queue.
pub open spec fn is_waiting(q: Seq<(u64, Seq<char>)>, user: Seq<char>) -> bool {
    exists|i: int| 0 <= i < q.len() && #[trigger] q[i].1 == user
}

/// The queue after pairing: the two users who came last leave it, when there are two.
pub open spec fn polled(q: Seq<(u64, Seq<char>)>) -> Seq<(u64, Seq<char>)> {
    if q.len() < 2 {
        q
    } else {
        q.subrange(0, q.len() - 2)
    }
}

/// The pair that leaves the queue: the second to last and the last to come.
pub open spec fn pair_of(q: Seq<(u64, Seq<char>)>) -> Option<(Seq<char>, Seq<char>)> {
    if q.len() < 2 {
        None
    } else {
        Some((q[q.len() - 2].1, q[q.len() - 1].1))
    }
}

/// The queue without `user`.
pub open spec fn without(q: Seq<(u64, Seq<char>)>, user: Seq<char>) -> Seq<(u64, Seq<char>)> {
    q.filter(|r: (u64, Seq<char>)| r.1 != user)
}

/// Whether a user who came at `r.0` has waited longer than `limit` at time `now`.
pub open spec fn over_limit(now: u64, limit: u64) -> spec_fn((u64, Seq<char>)) -> bool {
    |r: (u64, Seq<char>)| now - r.0 > limit
}

/// The users who have waited longer than `limit` at time `now`, in order.
pub open spec fn delayed(q: Seq<(u64, Seq<char>)>, now: u64, limit: u64) -> Seq<Seq<char>> {
    queue_users(q.filter(over_limit(now, limit)))
}

/// Whether `r` sends the pair found in `q` (nothing when there is none).
pub open spec fn sends_pair(q: Seq<(u64, Seq<char>)>, r: Seq<Response>) -> bool {
    match pair_of(q) {
        None => r.len() == 0,
        Some(p) => {
            &&& r.len() == 1
            &&& r[0] matches Response::Send(MessageOut::UsersFound { users })
            &&& users.0@ == p.0
            &&& users.1@ == p.1
        },
    }
}

impl MatchQueue {
    /// No user waits twice.
    pub open spec fn wf(&self) -> bool {
        queue_users(self@).no_duplicates()
    }

    /// An empty queue.
    pub fn new() -> (r: Self)
        ensures
            r.wf(),
            r@ == Seq::<(u64, Seq<char>)>::empty(),
    {
        let r = MatchQueue { queue: Vec::new() };
        assert(r@ =~= Seq::<(u64, Seq<char>)>::empty());
        r
    }

    /// Whether `user` waits in the queue.
    fn contains(&self, user: &str) -> (r: bool)
        ensures
            r == is_waiting(self@, user@),
    {
        let mut i: usize = 0;
        while i < self.queue.len()
            invariant
                i <= self.queue@.len(),
                forall|j: int| 0 <= j < i ==> #[trigger] self@[j].1 != user@,
            decreases self.queue@.len() - i,
        {
            if same_name(&self.queue[i].user, user) {
                assert(self@[i as int].1 == user@);
                return true;
            }
            i = i + 1;
        }
        false
    }

    /// Takes the two users who came last out of the queue, when there are two:
    /// the second to last first.
    pub fn poll_for_users(&mut self) -> (r: Option<(String, String)>)
        requires
            old(self).wf(),
        ensures
            final(self).wf(),
            final(self)@ == polled(old(self)@),
            match pair_of(old(self)@) {
                None => r is None,
                Some(p) => r matches Some(users) && users.0@ == p.0 && users.1@ == p.1,
            },
    {
        if self.queue.len() < 2 {
            return None;
        }
        let user1 = self.queue.pop().unwrap();
        let user2 = self.queue.pop().unwrap();
        proof {
            assert(self@ =~= polled(old(self)@));
            assert(queue_users(self@) =~= queue_users(old(self)@).subrange(0, old(self)@.len() - 2));
        }
        Some((user2.user, user1.user))
    }

    /// The users who have waited longer than `wait_limit_ms` at time `now_ms`, in order.
    pub fn delayed_users(&self, now_ms: u64, wait_limit_ms: u64) -> (r: Vec<String>)
        ensures
            names(r) == delayed(self@, now_ms, wait_limit_ms),
    {
        let mut r: Vec<String> = Vec::new();
        let mut i: usize = 0;
        while i < self.queue.len()
            invariant
                i <= self.queue@.len(),
                names(r) == delayed(self@.take(i as int), now_ms, wait_limit_ms),
                self@.len() == self.queue@.len(),
            decreases self.queue@.len() - i,
        {
            let record = &self.queue[i];
            let elapsed = if now_ms > record.created_at {
                now_ms - record.created_at
            } else {
                0
            };
            proof {
                assert(self@.take(i + 1) =~= self@.take(i as int).push(self@[i as int]));
                self@.take(i as int).lemma_filter_push(self@[i as int], over_limit(now_ms, wait_limit_ms));
            }
            let ghost before = names(r);
            if elapsed > wait_limit_ms {
                r.push(record.user.clone());
                assert(names(r) =~= before.push(self@[i as int].1));
            }
            i = i + 1;
            assert(names(r) =~= delayed(self@.take(i as int), now_ms, wait_limit_ms));
        }
        assert(self@.take(self@.len() as int) =~= self@);
        r
    }

    /// The matchmaking actor's reaction to `msg` at time `now_ms`; the queue is
    /// changed in place and the messages to send are given.
    ///
    /// - `Search { user }`: ignored when `user` already waits; otherwise `user`
    ///   joins the end of the queue, and the two users who came last are paired.
    /// - `Poll`: the two users who came last are paired, when there are two.
    /// - `CancelSearch { user }`: `user` leaves the queue.
    /// - `QueryGetState`: the waiting users.
    ///
    /// A pair is sent as `UsersFound`.
    pub fn handle_msg_in(&mut self, msg: MessageIn, now_ms: u64) -> (r: Vec<Response>)
        requires
            old(self).wf(),
        ensures
            final(self).wf(),
            match msg {
                MessageIn::Search { user } => if is_waiting(old(self)@, user@) {
                    final(self)@ == old(self)@ && r@.len() == 0
                } else {
                    let q = old(self)@.push((now_ms, user@));
                    final(self)@ == polled(q) && sends_pair(q, r@)
                },
                MessageIn::Poll => final(self)@ == polled(old(self)@) && sends_pair(old(self)@, r@),
                MessageIn::CancelSearch { user } => final(self)@ == (if is_waiting(old(self)@, user@) {
                    without(old(self)@, user@)
                } else {
                    old(self)@
                }) && r@.len() == 0,
                MessageIn::QueryGetState => {
                    &&& final(self)@ == old(self)@
                    &&& r@.len() == 1
                    &&& r@[0] matches Response::Reply(p)
                    &&& names(p.queue) == queue_users(old(self)@)
                },
            },
    {
        let mut out: Vec<Response> = Vec::new();
        match msg {
            MessageIn::Search { user } => {
                if self.contains(user.as_str()) {
                    return out;
                }
                let ghost u = user@;
                self.queue.push(UserRecord { created_at: now_ms, user });
                proof {
                    let q = old(self)@.push((now_ms, u));
                    assert(self@ =~= q);
                    assert(queue_users(self@) =~= queue_users(old(self)@).push(u));
                    assert forall|i: int, j: int|
                        0 <= i < j < queue_users(self@).len() implies queue_users(self@)[i] != queue_users(self@)[j] by {
                        if j == queue_users(self@).len() - 1 {
                            assert(old(self)@[i].1 != u);
                        }
                    }
                }
                if let Some(users) = self.poll_for_users() {
                    out.push(Response::Send(MessageOut::UsersFound { users }));
                }
            },
            MessageIn::Poll => {
                if let Some(users) = self.poll_for_users() {
                    out.push(Response::Send(MessageOut::UsersFound { users }));
                }
            },
            MessageIn::CancelSearch { user } => {
                if self.contains(user.as_str()) {
                    let ghost q = self@;
                    let ghost f = |r: (u64, Seq<char>)| r.1 != user@;
                    let mut kept: Vec<UserRecord> = Vec::new();
                    let mut i: usize = 0;
                    while i < self.queue.len()
                        invariant
                            q == old(self)@,
                            self@ == q,
                            queue_users(q).no_duplicates(),
                            f == (|r: (u64, Seq<char>)| r.1 != user@),
                            i <= q.len(),
                            Seq::new(kept@.len(), |k: int| record_model(kept@[k])) == q.take(i as int).filter(f),
                            forall|k: int| #![trigger kept@[k]] 0 <= k < kept@.len() ==> exists|j: int| 0 <= j < i && #[trigger] q[j].1 == kept@[k].user@,
                            queue_users(Seq::new(kept@.len(), |k: int| record_model(kept@[k]))).no_duplicates(),
                        decreases q.len() - i,
                    {
                        let ghost before = Seq::new(kept@.len(), |k: int| record_model(kept@[k]));
                        proof {
                            assert(q.take(i + 1) =~= q.take(i as int).push(q[i as int]));
                            q.take(i as int).lemma_filter_push(q[i as int], f);
                        }
                        let record = &self.queue[i];
                        if !same_name(&record.user, user.as_str()) {
                            kept.push(UserRecord { created_at: record.created_at, user: record.user.clone() });
                            proof {
                                assert(Seq::new(kept@.len(), |k: int| record_model(kept@[k])) =~= before.push(q[i as int]));
                                let ghost after = queue_users(Seq::new(kept@.len(), |k: int| record_model(kept@[k])));
                                assert forall|a: int, b: int|
                                    0 <= a < b < kept@.len() implies #[trigger] after[a] != #[trigger] after[b] by {
                                    if b == kept@.len() - 1 {
                                        let j = choose|j: int| 0 <= j < i && #[trigger] q[j].1 == kept@[a].user@;
                                        assert(queue_users(q)[j] != queue_users(q)[i as int]);
                                    } else {
                                        assert(queue_users(before)[a] != queue_users(before)[b]);
                                    }
                                }
                                assert forall|k: int| #![trigger kept@[k]] 0 <= k < kept@.len() implies exists|j: int| 0 <= j < i + 1 && #[trigger] q[j].1 == kept@[k].user@ by {
                                    if k == kept@.len() - 1 {
                                        assert(q[i as int].1 == kept@[k].user@);
                                    } else {
                                        let j = choose|j: int| 0 <= j < i && #[trigger] q[j].1 == kept@[k].user@;
                                    }
                                }
                            }
                        }
                        i = i + 1;
                    }
                    self.queue = kept;
                    proof {
                        assert(q.take(q.len() as int) =~= q);
                        assert(self@ =~= without(q, user@));
                    }
                }
            },
            MessageIn::QueryGetState => {
                let mut queue: Vec<String> = Vec::new();
                let mut i: usize = 0;
                while i < self.queue.len()
                    invariant
                        self@ == old(self)@,
                        i <= self.queue@.len(),
                        queue@.len() == i,
                        forall|k: int| 0 <= k < i ==> #[trigger] queue@[k]@ == self.queue@[k].user@,
                    decreases self.queue@.len() - i,
                {
                    queue.push(self.queue[i].user.clone());
                    i = i + 1;
                }
                assert(names(queue) =~= queue_users(self@));
                out.push(Response::Reply(StatePayload { queue }));
            },
        }
        out
    }
}

} // verus!
