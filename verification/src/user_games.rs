//! Which game each user is in.
use vstd::prelude::*;

use crate::game::same_name;

verus! {

/// A map from user names to game ids, kept as a list of entries in which no
/// user occurs twice.
pub struct UserGames {
    entries: Vec<(String, u64)>,
    map: Ghost<Map<Seq<char>, u64>>,
}

impl View for UserGames {
    type V = Map<Seq<char>, u64>;

    closed spec fn view(&self) -> Map<Seq<char>, u64> {
        self.map@
    }
}

impl UserGames {
    /// The users, in the order of the entries.
    pub closed spec fn users(&self) -> Seq<Seq<char>> {
        Seq::new(self.entries@.len(), |i: int| self.entries@[i].0@)
    }

    /// The entries hold exactly the map, each user once.
    pub closed spec fn wf(&self) -> bool {
        &&& self.users().no_duplicates()
        &&& self.users().to_set() == self.map@.dom()
        &&& forall|i: int| 0 <= i < self.entries@.len() ==> self.map@[#[trigger] self.entries@[i].0@] == self.entries@[i].1
    }

    /// An empty map.
    pub fn new() -> (r: Self)
        ensures
            r.wf(),
            r@ == Map::<Seq<char>, u64>::empty(),
    {
        let r = UserGames { entries: Vec::new(), map: Ghost(Map::empty()) };
        assert(r.users().to_set() =~= Set::empty());
        r
    }

    /// The position of `user`'s entry, if any.
    fn find(&self, user: &str) -> (r: Option<usize>)
        requires
            self.wf(),
        ensures
            match r {
                Some(i) => i < self.entries@.len() && self.entries@[i as int].0@ == user@,
                None => !self@.contains_key(user@),
            },
    {
        let mut i: usize = 0;
        while i < self.entries.len()
            invariant
                self.wf(),
                i <= self.entries@.len(),
                forall|j: int| 0 <= j < i ==> self.entries@[j].0@ != user@,
            decreases self.entries@.len() - i,
        {
            if same_name(&self.entries[i].0, user) {
                return Some(i);
            }
            i = i + 1;
        }
        proof {
            if self@.contains_key(user@) {
                assert(self.users().to_set().contains(user@));
                let j = choose|j: int| 0 <= j < self.users().len() && self.users()[j] == user@;
                assert(self.entries@[j].0@ == user@);
            }
        }
        None
    }

    /// The game id of `user`, if it has one.
    pub fn get(&self, user: &str) -> (r: Option<u64>)
        requires
            self.wf(),
        ensures
            r == (if self@.contains_key(user@) {
                Some(self@[user@])
            } else {
                None
            }),
    {
        match self.find(user) {
            Some(i) => {
                proof {
                    assert(self.users()[i as int] == user@);
                    assert(self.users().to_set().contains(user@));
                }
                Some(self.entries[i].1)
            },
            None => None,
        }
    }

    /// Maps `user` to `id`, in place of what it was mapped to.
    pub fn insert(&mut self, user: String, id: u64)
        requires
            old(self).wf(),
        ensures
            final(self).wf(),
            final(self)@ == old(self)@.insert(user@, id),
    {
        let ghost old_users = self.users();
        match self.find(user.as_str()) {
            Some(i) => {
                let name = self.entries[i].0.clone();
                self.entries.set(i, (name, id));
                self.map = Ghost(self.map@.insert(user@, id));
                proof {
                    assert(self.users() =~= old_users);
                    assert(old_users[i as int] == user@);
                    assert(self.users().to_set() =~= self.map@.dom());
                    assert forall|j: int| 0 <= j < self.entries@.len() implies self.map@[#[trigger] self.entries@[j].0@] == self.entries@[j].1 by {
                        if j != i {
                            assert(old_users[j] != old_users[i as int]);
                        }
                    }
                }
            },
            None => {
                let ghost u = user@;
                self.entries.push((user, id));
                self.map = Ghost(self.map@.insert(u, id));
                proof {
                    assert(self.users() =~= old_users.push(u));
                    assert(!old_users.contains(u)) by {
                        if old_users.contains(u) {
                            let j = choose|j: int| 0 <= j < old_users.len() && old_users[j] == u;
                            assert(old_users.to_set().contains(u));
                        }
                    }
                    assert(self.users().to_set() =~= self.map@.dom()) by {
                        assert forall|x: Seq<char>| self.users().to_set().contains(x) <==> self.map@.dom().contains(x) by {
                            if x == u {
                                assert(self.users()[old_users.len() as int] == u);
                            } else if old_users.to_set().contains(x) {
                                let j = choose|j: int| 0 <= j < old_users.len() && old_users[j] == x;
                                assert(self.users()[j] == x);
                            } else if self.users().to_set().contains(x) {
                                let j = choose|j: int| 0 <= j < self.users().len() && self.users()[j] == x;
                                assert(old_users[j] == x);
                            }
                        }
                    }
                    assert forall|j: int| 0 <= j < self.entries@.len() implies self.map@[#[trigger] self.entries@[j].0@] == self.entries@[j].1 by {
                        if j < old_users.len() {
                            assert(old_users[j] != u);
                        }
                    }
                }
            },
        }
    }

    /// Removes `user`'s entry; gives the game id it had.
    pub fn remove(&mut self, user: &str) -> (r: Option<u64>)
        requires
            old(self).wf(),
        ensures
            final(self).wf(),
            final(self)@ == old(self)@.remove(user@),
            r == (if old(self)@.contains_key(user@) {
                Some(old(self)@[user@])
            } else {
                None
            }),
    {
        let ghost old_users = self.users();
        match self.find(user) {
            Some(i) => {
                let (_, id) = self.entries.remove(i);
                self.map = Ghost(self.map@.remove(user@));
                proof {
                    assert(old_users[i as int] == user@);
                    assert(old_users.to_set().contains(user@));
                    assert(self.users() =~= old_users.remove(i as int));
                    assert(self.users().no_duplicates()) by {
                        assert forall|a: int, b: int| 0 <= a < b < self.users().len() implies self.users()[a] != self.users()[b] by {
                            let a2 = if a < i { a } else { a + 1 };
                            let b2 = if b < i { b } else { b + 1 };
                            assert(self.users()[a] == old_users[a2]);
                            assert(self.users()[b] == old_users[b2]);
                        }
                    }
                    assert(self.users().to_set() =~= self.map@.dom()) by {
                        assert forall|x: Seq<char>| self.users().to_set().contains(x) <==> self.map@.dom().contains(x) by {
                            if self.users().to_set().contains(x) {
                                let j = choose|j: int| 0 <= j < self.users().len() && self.users()[j] == x;
                                let j2 = if j < i { j } else { j + 1 };
                                assert(old_users[j2] == x);
                                assert(old_users.to_set().contains(x));
                                assert(x != user@);
                            }
                            if self.map@.dom().contains(x) {
                                assert(old_users.to_set().contains(x));
                                let j = choose|j: int| 0 <= j < old_users.len() && old_users[j] == x;
                                assert(j != i);
                                let j2 = if j < i { j } else { j - 1 };
                                assert(self.users()[j2] == x);
                            }
                        }
                    }
                    assert forall|j: int| 0 <= j < self.entries@.len() implies self.map@[#[trigger] self.entries@[j].0@] == self.entries@[j].1 by {
                        let j2 = if j < i { j } else { j + 1 };
                        assert(self.entries@[j] == old(self).entries@[j2]);
                        assert(old_users[j2] != old_users[i as int]);
                    }
                }
                Some(id)
            },
            None => {
                assert(self.map@ =~= self.map@.remove(user@));
                None
            },
        }
    }

    /// The users, each once, in the order of the entries.
    pub fn users_list(&self) -> (r: Vec<String>)
        requires
            self.wf(),
        ensures
            Seq::new(r@.len(), |i: int| r@[i]@).no_duplicates(),
            Seq::new(r@.len(), |i: int| r@[i]@).to_set() == self@.dom(),
    {
        let mut r: Vec<String> = Vec::new();
        let mut i: usize = 0;
        while i < self.entries.len()
            invariant
                self.wf(),
                i <= self.entries@.len(),
                r@.len() == i,
                forall|j: int| 0 <= j < i ==> #[trigger] r@[j]@ == self.users()[j],
            decreases self.entries@.len() - i,
        {
            r.push(self.entries[i].0.clone());
            i = i + 1;
        }
        assert(Seq::new(r@.len(), |i: int| r@[i]@) =~= self.users());
        r
    }
}

} // verus!
