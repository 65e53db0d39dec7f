//! A simpler matchmaking actor: a queue of user names and the requests it answers.
use vstd::prelude::*;

use super::names;
use crate::game::same_name;

verus! {

/// The capacity of this actor's channel.
pub const BUFFER_MAX: usize = 100;

/// What the matchmaking actor is asked to do.
pub enum MessageRequest {
    Search { user: String },
    CancelSearch { user: String },
    Poll,
    DebugGetQueue,
}

/// What the matchmaking actor answers.
#[derive(Debug, PartialEq, Eq)]
pub enum MessageResponse {
    UsersFound { users: (String, String) },
    LongWait { user: String },
    DebugGetQueueResponse { queue: Vec<String> },
}

/// The queue of users who search for a game, in the order they came.
pub struct MatchMakingActor {
    queue: Vec<String>,
}

/// Whether `r` answers with the pair of the two users who came last in `q`
/// (no answer when there are fewer than two).
pub open spec fn answers_pair(q: Seq<Seq<char>>, r: Option<MessageResponse>) -> bool {
    if q.len() < 2 {
        r is None
    } else {
        &&& r matches Some(MessageResponse::UsersFound { users })
        &&& users.0@ == q[q.len() - 2]
        &&& users.1@ == q[q.len() - 1]
    }
}

/// The queue after pairing: the two users who came last leave, when there are two.
pub open spec fn after_poll(q: Seq<Seq<char>>) -> Seq<Seq<char>> {
    if q.len() < 2 {
        q
    } else {
        q.subrange(0, q.len() - 2)
    }
}

impl View for MatchMakingActor {
    type V = Seq<Seq<char>>;

    closed spec fn view(&self) -> Seq<Seq<char>> {
        names(self.queue)
    }
}

impl MatchMakingActor {
    /// No user waits twice.
    pub open spec fn wf(&self) -> bool {
        self@.no_duplicates()
    }

    /// An empty queue.
    pub fn new() -> (r: Self)
        ensures
            r.wf(),
            r@ == Seq::<Seq<char>>::empty(),
    {
        let r = MatchMakingActor { queue: Vec::new() };
        assert(r@ =~= Seq::<Seq<char>>::empty());
        r
    }

    fn contains(&self, user: &str) -> (r: bool)
        ensures
            r == self@.contains(user@),
    {
        let mut i: usize = 0;
        while i < self.queue.len()
            invariant
                i <= self.queue@.len(),
                forall|j: int| 0 <= j < i ==> #[trigger] self@[j] != user@,
            decreases self.queue@.len() - i,
        {
            if same_name(&self.queue[i], user) {
                assert(self@[i as int] == user@);
                return true;
            }
            i = i + 1;
        }
        false
    }

    /// Takes the two users who came last out of the queue, when there are two:
    /// the second to last first.
    pub fn poll_for_users(&mut self) -> (r: Option<(String, String)>)
        requires
            old(self).wf(),
        ensures
            final(self).wf(),
            final(self)@ == after_poll(old(self)@),
            old(self)@.len() < 2 ==> r is None,
            old(self)@.len() >= 2 ==> (r matches Some(users) && users.0@ == old(self)@[old(self)@.len() - 2]
                && users.1@ == old(self)@[old(self)@.len() - 1]),
    {
        if self.queue.len() < 2 {
            return None;
        }
        let user1 = self.queue.pop().unwrap();
        let user2 = self.queue.pop().unwrap();
        assert(self@ =~= after_poll(old(self)@));
        Some((user2, user1))
    }

    /// The actor's answer to `req`; the queue is changed in place.
    ///
    /// - `Search { user }`: ignored when `user` already waits; otherwise `user`
    ///   joins the end of the queue and the two users who came last are paired.
    /// - `Poll`: the two users who came last are paired, when there are two.
    /// - `CancelSearch { user }`: `user` leaves the queue.
    /// - `DebugGetQueue`: the queue.
    pub fn handle_request(&mut self, req: MessageRequest) -> (r: Option<MessageResponse>)
        requires
            old(self).wf(),
        ensures
            final(self).wf(),
            match req {
                MessageRequest::Search { user } => if old(self)@.contains(user@) {
                    final(self)@ == old(self)@ && r is None
                } else {
                    let q = old(self)@.push(user@);
                    final(self)@ == after_poll(q) && answers_pair(q, r)
                },
                MessageRequest::Poll => final(self)@ == after_poll(old(self)@) && answers_pair(old(self)@, r),
                MessageRequest::CancelSearch { user } => {
                    &&& r is None
                    &&& final(self)@ == old(self)@.filter(|u: Seq<char>| u != user@)
                },
                MessageRequest::DebugGetQueue => {
                    &&& final(self)@ == old(self)@
                    &&& r matches Some(MessageResponse::DebugGetQueueResponse { queue })
                    &&& names(queue) == old(self)@
                },
            },
    {
        match req {
            MessageRequest::Search { user } => {
                if self.contains(user.as_str()) {
                    return None;
                }
                let ghost u = user@;
                self.queue.push(user);
                proof {
                    assert(self@ =~= old(self)@.push(u));
                    assert forall|i: int, j: int|
                        0 <= i < j < self@.len() implies #[trigger] self@[i] != #[trigger] self@[j] by {
                        if j == self@.len() - 1 {
                            assert(old(self)@[i] != u);
                        }
                    }
                }
                match self.poll_for_users() {
                    Some(users) => Some(MessageResponse::UsersFound { users }),
                    None => None,
                }
            },
            MessageRequest::Poll => match self.poll_for_users() {
                Some(users) => Some(MessageResponse::UsersFound { users }),
                None => None,
            },
            MessageRequest::CancelSearch { user } => {
                let ghost q = self@;
                let ghost f = |u: Seq<char>| u != user@;
                let mut kept: Vec<String> = Vec::new();
                let mut i: usize = 0;
                while i < self.queue.len()
                    invariant
                        q == old(self)@,
                        self@ == q,
                        q.no_duplicates(),
                        f == (|u: Seq<char>| u != user@),
                        i <= q.len(),
                        names(kept) == q.take(i as int).filter(f),
                        forall|k: int| #![trigger names(kept)[k]] 0 <= k < kept@.len() ==> exists|j: int| 0 <= j < i && #[trigger] q[j] == names(kept)[k],
                        names(kept).no_duplicates(),
                    decreases q.len() - i,
                {
                    let ghost before = names(kept);
                    proof {
                        assert(q.take(i + 1) =~= q.take(i as int).push(q[i as int]));
                        q.take(i as int).lemma_filter_push(q[i as int], f);
                    }
                    if !same_name(&self.queue[i], user.as_str()) {
                        kept.push(self.queue[i].clone());
                        proof {
                            assert(names(kept) =~= before.push(q[i as int]));
                            assert forall|a: int, b: int|
                                0 <= a < b < kept@.len() implies #[trigger] names(kept)[a] != #[trigger] names(kept)[b] by {
                                if b == kept@.len() - 1 {
                                    let j = choose|j: int| 0 <= j < i && #[trigger] q[j] == before[a];
                                    assert(q[j] != q[i as int]);
                                } else {
                                    assert(before[a] != before[b]);
                                }
                            }
                            assert forall|k: int| #![trigger names(kept)[k]] 0 <= k < kept@.len() implies exists|j: int| 0 <= j < i + 1 && #[trigger] q[j] == names(kept)[k] by {
                                if k == kept@.len() - 1 {
                                    assert(q[i as int] == names(kept)[k]);
                                } else {
                                    assert(names(kept)[k] == before[k]);
                                    let j = choose|j: int| 0 <= j < i && #[trigger] q[j] == before[k];
                                }
                            }
                        }
                    }
                    i = i + 1;
                }
                self.queue = kept;
                proof {
                    assert(q.take(q.len() as int) =~= q);
                }
                None
            },
            MessageRequest::DebugGetQueue => {
                let mut queue: Vec<String> = Vec::new();
                let mut i: usize = 0;
                while i < self.queue.len()
                    invariant
                        self@ == old(self)@,
                        i <= self.queue@.len(),
                        queue@.len() == i,
                        forall|k: int| 0 <= k < i ==> #[trigger] queue@[k]@ == self.queue@[k]@,
                    decreases self.queue@.len() - i,
                {
                    queue.push(self.queue[i].clone());
                    i = i + 1;
                }
                assert(names(queue) =~= self@);
                Some(MessageResponse::DebugGetQueueResponse { queue })
            },
        }
    }
}

} // verus!
