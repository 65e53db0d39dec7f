//! The games in progress, who plays in them, and the games played before.
use std::collections::HashMap;
use std::collections::VecDeque;

use chrono::Utc;
use vstd::prelude::*;

use crate::game::victory::{GameOver, Outcome};
use crate::game::{same_name, Connect4Game, GameModel};
use crate::user_games::UserGames;

verus! {

broadcast use vstd::std_specs::hash::group_hash_axioms;

/// How many finished games are kept: the list of past games never reaches this length.
pub const PAST_GAMES_LIMIT: usize = 100;

/// A finished game, how it ended, and when it was removed (in milliseconds
/// since the UNIX epoch, UTC).
pub type PastGameInfo = (Connect4Game, Option<GameOver>, i64);

/// Calls `chrono::Utc::now()` and gives it as `timestamp_millis()`: the current
/// time in milliseconds since the UNIX epoch. Nothing is promised of its value.
/// (chrono panics there when the system clock is set before 1970.)
#[verifier::external_body]
fn now_millis() -> i64 {
    Utc::now().timestamp_millis()
}

/// Calls `HashMap::get_mut` on the map from game ids to games: the game stored
/// under `k`, if any, by a mutable reference; what is written through it is what
/// the map holds under `k` afterwards.
#[verifier::external_body]
fn game_get_mut(m: &mut HashMap<u64, Connect4Game>, k: u64) -> (r: Option<&mut Connect4Game>)
    ensures
        match r {
            Some(g) => {
                &&& old(m)@.contains_key(k)
                &&& *g == old(m)@[k]
                &&& final(m)@ == old(m)@.insert(k, *final(g))
            },
            None => {
                &&& !old(m)@.contains_key(k)
                &&& final(m)@ == old(m)@
            },
        },
{
    m.get_mut(&k)
}

/// How a game ended, as a model.
pub open spec fn outcome_model(o: Option<GameOver>) -> Option<Outcome> {
    match o {
        Some(g) => Some(g@),
        None => None,
    }
}

/// The abstract state of the repository.
#[verifier::ext_equal]
pub struct RepoModel {
    /// The game each user is in.
    pub user_games: Map<Seq<char>, u64>,
    /// The two users of each game in progress.
    pub game_users: Map<u64, (Seq<char>, Seq<char>)>,
    /// The games in progress.
    pub games: Map<u64, GameModel>,
    /// The finished games, the most recent first.
    pub past: Seq<(GameModel, Option<Outcome>, i64)>,
    pub total_games_played: u128,
}

impl RepoModel {
    /// In a consistent state every user can be removed.
    pub proof fn lemma_consistent_can_delete(self, user: Seq<char>)
        requires
            self.consistent(),
        ensures
            self.can_delete_user(user),
    {
        if self.user_games.contains_key(user) {
        }
    }

    /// Every user is recorded in a game in progress, as one of its two users.
    pub open spec fn consistent(self) -> bool {
        forall|u: Seq<char>|
            #[trigger] self.user_games.contains_key(u) ==> {
                let g = self.user_games[u];
                &&& self.game_users.contains_key(g)
                &&& (u == self.game_users[g].0 || u == self.game_users[g].1)
            }
    }

    /// `delete_user` can remove `user`: when it is recorded in a game, that game's users are recorded too.
    pub open spec fn can_delete_user(self, user: Seq<char>) -> bool {
        self.user_games.contains_key(user) ==> self.game_users.contains_key(self.user_games[user])
    }

    /// `next` is this state after a game was created under `id` between `users`.
    pub open spec fn game_created(self, next: RepoModel, id: u64, users: (Seq<char>, Seq<char>)) -> bool {
        &&& next.games.contains_key(id)
        &&& next.games == self.games.insert(id, next.games[id])
        &&& next.games[id].wf()
        &&& next.games[id].board == Seq::new(42, |i: int| None::<bool>)
        &&& next.games[id].first == users.0
        &&& next.games[id].second == users.1
        &&& (next.games[id].user_first == users.0 || next.games[id].user_first == users.1)
        &&& next.games[id].turn == (next.games[id].user_first == users.0)
        &&& next.games[id].game_id == id
        &&& next.games[id].history == Seq::<u8>::empty()
        &&& next.game_users == self.game_users.insert(id, users)
        &&& next.user_games == self.user_games.insert(users.0, id).insert(users.1, id)
        &&& next.past == self.past
        &&& next.total_games_played == self.total_games_played
    }

    /// `next` is this state after the game `game_id` was removed: it leads the
    /// past games (with how it ended), the oldest past game is dropped when
    /// `PAST_GAMES_LIMIT` would be reached, and when its users are recorded they
    /// and their entries are removed and the counter goes up.
    pub open spec fn game_removed(self, next: RepoModel, game_id: u64) -> bool {
        &&& next.games == self.games.remove(game_id)
        &&& next.past.len() > 0
        &&& next.past[0].0 == self.games[game_id]
        &&& next.past[0].1 == self.games[game_id].outcome()
        &&& next.past.drop_first() == (if self.past.len() + 1 >= PAST_GAMES_LIMIT {
            self.past.drop_last()
        } else {
            self.past
        })
        &&& self.game_users.contains_key(game_id) ==> {
            let users = self.game_users[game_id];
            &&& next.game_users == self.game_users.remove(game_id)
            &&& next.user_games == self.user_games.remove(users.0).remove(users.1)
            &&& next.total_games_played == self.next_total()
        }
        &&& !self.game_users.contains_key(game_id) ==> {
            &&& next.game_users == self.game_users
            &&& next.user_games == self.user_games
            &&& next.total_games_played == self.total_games_played
        }
    }

    /// `next` is this state after the game of `user`, whose rival is `rival`, was
    /// removed with its users' entries.
    pub open spec fn user_removed(self, next: RepoModel, user: Seq<char>, rival: Seq<char>) -> bool {
        let g = self.user_games[user];
        let users = self.game_users[g];
        &&& rival == (if user == users.0 { users.1 } else { users.0 })
        &&& next.user_games == self.user_games.remove(user).remove(rival)
        &&& next.games == self.games.remove(g)
        &&& next.game_users == self.game_users.remove(g)
        &&& next.past == self.past
        &&& next.total_games_played == self.total_games_played
    }

    /// The counter of finished games after one more: back to 0 when it reaches `u128::MAX`.
    pub open spec fn next_total(self) -> u128 {
        if self.total_games_played + 1 == u128::MAX {
            0
        } else {
            (self.total_games_played + 1) as u128
        }
    }
}

/// The games in progress, who plays in them, and the games played before.
pub struct Connect4Repo {
    map_user_to_game_id: UserGames,
    map_game_id_to_users: HashMap<u64, (String, String)>,
    map_game_id_to_game: HashMap<u64, Connect4Game>,
    past_games: VecDeque<PastGameInfo>,
    pub total_games_played: u128,
}

impl View for Connect4Repo {
    type V = RepoModel;

    closed spec fn view(&self) -> RepoModel {
        RepoModel {
            user_games: self.map_user_to_game_id@,
            game_users: self.map_game_id_to_users@.map_values(|p: (String, String)| (p.0@, p.1@)),
            games: self.map_game_id_to_game@.map_values(|g: Connect4Game| g@),
            past: Seq::new(
                self.past_games@.len(),
                |i: int|
                    (
                        self.past_games@[i].0@,
                        outcome_model(self.past_games@[i].1),
                        self.past_games@[i].2,
                    ),
            ),
            total_games_played: self.total_games_played,
        }
    }
}

impl Default for Connect4Repo {
    fn default() -> (r: Self)
        ensures
            r.wf(),
            r@.user_games == Map::<Seq<char>, u64>::empty(),
            r@.game_users == Map::<u64, (Seq<char>, Seq<char>)>::empty(),
            r@.games == Map::<u64, GameModel>::empty(),
            r@.past == Seq::<(GameModel, Option<Outcome>, i64)>::empty(),
            r@.total_games_played == 0,
    {
        let r = Connect4Repo {
            map_user_to_game_id: UserGames::new(),
            map_game_id_to_users: HashMap::new(),
            map_game_id_to_game: HashMap::new(),
            past_games: VecDeque::new(),
            total_games_played: 0,
        };
        assert(r@.game_users =~= Map::<u64, (Seq<char>, Seq<char>)>::empty());
        assert(r@.games =~= Map::<u64, GameModel>::empty());
        assert(r@.past =~= Seq::<(GameModel, Option<Outcome>, i64)>::empty());
        r
    }
}

impl Connect4Repo {
    /// The repository's own invariant: the user index is well formed, every game
    /// is well formed, fewer than `PAST_GAMES_LIMIT` past games are kept, and the
    /// counter is below `u128::MAX`.
    pub closed spec fn wf(&self) -> bool {
        &&& self.map_user_to_game_id.wf()
        &&& forall|id: u64| #[trigger] self.map_game_id_to_game@.contains_key(id) ==> self.map_game_id_to_game@[id]@.wf()
        &&& self.past_games@.len() < PAST_GAMES_LIMIT
        &&& self.total_games_played < u128::MAX
    }

    /// The well-formed repository has well-formed games.
    pub proof fn lemma_wf_games(&self)
        requires
            self.wf(),
        ensures
            forall|id: u64| #[trigger] self@.games.contains_key(id) ==> self@.games[id].wf(),
            self@.past.len() < PAST_GAMES_LIMIT,
            self@.total_games_played < u128::MAX,
    {
    }

    /// Creates a game between `users` under an id drawn at random, records it for
    /// both users and gives the id. A game already stored under that id is replaced.
    pub fn create_new_game(&mut self, users: (String, String)) -> (id: u64)
        requires
            old(self).wf(),
        ensures
            final(self).wf(),
            old(self)@.game_created(final(self)@, id, (users.0@, users.1@)),
            old(self)@.consistent() && !old(self)@.game_users.contains_key(id) ==> final(self)@.consistent(),
    {
        let game_id = crate::random::random_u64();
        let game = Connect4Game::new(game_id, (users.0.clone(), users.1.clone()));
        let ghost gm = game@;
        self.map_game_id_to_game.insert(game_id, game);
        self.map_game_id_to_users.insert(game_id, (users.0.clone(), users.1.clone()));
        self.map_user_to_game_id.insert(users.0.clone(), game_id);
        self.map_user_to_game_id.insert(users.1.clone(), game_id);
        proof {
            assert(self@.games =~= old(self)@.games.insert(game_id, gm));
            assert(self@.game_users =~= old(self)@.game_users.insert(game_id, (users.0@, users.1@)));
            if old(self)@.consistent() && !old(self)@.game_users.contains_key(game_id) {
                assert forall|u: Seq<char>| #[trigger] self@.user_games.contains_key(u) implies {
                    let g = self@.user_games[u];
                    &&& self@.game_users.contains_key(g)
                    &&& (u == self@.game_users[g].0 || u == self@.game_users[g].1)
                } by {
                    if u != users.0@ && u != users.1@ {
                        assert(old(self)@.user_games.contains_key(u));
                    }
                }
            }
        }
        game_id
    }

    /// The game stored under `game_id`, if any, to be changed in place.
    pub fn get_game(&mut self, game_id: u64) -> (r: Option<&mut Connect4Game>)
        requires
            old(self).wf(),
        ensures
            match r {
                Some(g) => {
                    &&& old(self)@.games.contains_key(game_id)
                    &&& g@ == old(self)@.games[game_id]
                    &&& final(g)@.wf() ==> final(self).wf()
                    &&& final(self)@ =~= (RepoModel {
                        games: old(self)@.games.insert(game_id, final(g)@),
                        ..old(self)@
                    })
                },
                None => {
                    &&& !old(self)@.games.contains_key(game_id)
                    &&& final(self)@ == old(self)@
                    &&& final(self).wf()
                },
            },
    {
        game_get_mut(&mut self.map_game_id_to_game, game_id)
    }

    /// The counter of finished games.
    pub fn get_total_games_played(&self) -> (r: u128)
        ensures
            r == self@.total_games_played,
    {
        self.total_games_played
    }

    /// The game `user` is recorded in, if any.
    pub fn get_game_id(&self, user: &str) -> (r: Option<u64>)
        requires
            self.wf(),
        ensures
            r == (if self@.user_games.contains_key(user@) {
                Some(self@.user_games[user@])
            } else {
                None
            }),
    {
        self.map_user_to_game_id.get(user)
    }

    /// The ids of the games in progress, each once, in no particular order.
    pub fn get_game_ids(&self) -> (r: Vec<u64>)
        requires
            self.wf(),
        ensures
            r@.no_duplicates(),
            r@.to_set() == self@.games.dom(),
    {
        let mut r: Vec<u64> = Vec::new();
        let keys = self.map_game_id_to_game.keys();
        let ghost ks = vstd::std_specs::iter::IteratorSpec::remaining(&keys);
        for id in it: keys
            invariant
                it.seq() == ks,
                r@ == ks.take(it.index()).map_values(|k: &u64| *k),
        {
            r.push(*id);
            assert(r@ =~= ks.take(it.index() + 1).map_values(|k: &u64| *k));
        }
        proof {
            assert(ks.take(ks.len() as int) =~= ks);
            assert(r@ =~= ks.unref());
        }
        r
    }

    /// The users recorded in games, each once, in no particular order.
    pub fn get_users(&self) -> (r: Vec<String>)
        requires
            self.wf(),
        ensures
            Seq::new(r@.len(), |i: int| r@[i]@).no_duplicates(),
            Seq::new(r@.len(), |i: int| r@[i]@).to_set() == self@.user_games.dom(),
    {
        self.map_user_to_game_id.users_list()
    }

    /// Copies of the `num` oldest finished games kept (all of them when there are
    /// fewer), the oldest first.
    pub fn get_past_games(&self, num: usize) -> (r: Vec<PastGameInfo>)
        requires
            self.wf(),
        ensures
            r@.len() == (if num < self@.past.len() { num as int } else { self@.past.len() as int }),
            forall|k: int|
                0 <= k < r@.len() ==> ((#[trigger] r@[k]).0@, outcome_model(r@[k].1), r@[k].2)
                    == self@.past[self@.past.len() - 1 - k],
    {
        let len = self.past_games.len();
        let n = if num < len {
            num
        } else {
            len
        };
        let mut r: Vec<PastGameInfo> = Vec::new();
        for k in 0..n
            invariant
                len == self.past_games@.len(),
                n <= len,
                r@.len() == k,
                forall|q: int|
                    0 <= q < k ==> ((#[trigger] r@[q]).0@, outcome_model(r@[q].1), r@[q].2)
                        == self@.past[self@.past.len() - 1 - q],
        {
            let entry = &self.past_games[len - 1 - k];
            let outcome = match &entry.1 {
                Some(g) => Some(g.clone()),
                None => None,
            };
            r.push((entry.0.clone(), outcome, entry.2));
        }
        r
    }

    /// Removes the finished game `game_id` and keeps it, with how it ended and
    /// the current time, at the front of the past games (the oldest one is
    /// dropped when `PAST_GAMES_LIMIT` would be reached). When the game's users
    /// are recorded, they and their entries are removed and the counter of
    /// finished games goes up by one (back to 0 when it reaches `u128::MAX`).
    pub fn delete_game(&mut self, game_id: u64)
        requires
            old(self).wf(),
            old(self)@.games.contains_key(game_id),
        ensures
            final(self).wf(),
            old(self)@.game_removed(final(self)@, game_id),
            old(self)@.consistent() ==> final(self)@.consistent(),
    {
        let ghost old_past = self@.past;
        let game = self.map_game_id_to_game.remove(&game_id).unwrap();
        let gameover = game.is_gameover();
        let now = now_millis();
        self.past_games.push_front((game, gameover, now));
        if self.past_games.len() >= PAST_GAMES_LIMIT {
            self.past_games.pop_back();
        }
        proof {
            assert(self@.games =~= old(self)@.games.remove(game_id));
            assert(self@.past.drop_first() =~= (if old_past.len() + 1 >= PAST_GAMES_LIMIT {
                old_past.drop_last()
            } else {
                old_past
            }));
        }
        if let Some(users) = self.map_game_id_to_users.remove(&game_id) {
            self.map_user_to_game_id.remove(users.0.as_str());
            self.map_user_to_game_id.remove(users.1.as_str());
            self.total_games_played = self.total_games_played + 1;
            if self.total_games_played == u128::MAX {
                self.total_games_played = 0;
            }
            proof {
                assert(self@.game_users =~= old(self)@.game_users.remove(game_id));
            }
        } else {
            proof {
                assert(self@.game_users =~= old(self)@.game_users);
            }
        }
        proof {
            if old(self)@.consistent() {
                assert forall|u: Seq<char>| #[trigger] self@.user_games.contains_key(u) implies {
                    let g = self@.user_games[u];
                    &&& self@.game_users.contains_key(g)
                    &&& (u == self@.game_users[g].0 || u == self@.game_users[g].1)
                } by {
                    assert(old(self)@.user_games.contains_key(u));
                }
            }
        }
    }

    /// Whether `delete_user` can remove `user`: it is in no game, or the users of
    /// its game are recorded.
    pub fn can_delete_user(&self, user: &str) -> (r: bool)
        requires
            self.wf(),
        ensures
            r == self@.can_delete_user(user@),
    {
        match self.map_user_to_game_id.get(user) {
            Some(game_id) => self.map_game_id_to_users.contains_key(&game_id),
            None => true,
        }
    }

    /// Removes `user`'s game: the game, its users and the entries of `user` and
    /// of its rival. Gives the rival, or `None` (and nothing changes) when `user`
    /// is in no game.
    pub fn delete_user(&mut self, user: &str) -> (r: Option<String>)
        requires
            old(self).wf(),
            old(self)@.can_delete_user(user@),
        ensures
            final(self).wf(),
            r is Some <==> old(self)@.user_games.contains_key(user@),
            r is None ==> final(self)@ == old(self)@,
            r matches Some(rival) ==> old(self)@.user_removed(final(self)@, user@, rival@),
            old(self)@.consistent() ==> final(self)@.consistent(),
    {
        if let Some(game_id) = self.map_user_to_game_id.remove(user) {
            self.map_game_id_to_game.remove(&game_id);
            let users = self.map_game_id_to_users.remove(&game_id).unwrap();
            let rival = if same_name(&users.0, user) {
                users.1.clone()
            } else {
                users.0.clone()
            };
            self.map_user_to_game_id.remove(rival.as_str());
            proof {
                assert(self@.games =~= old(self)@.games.remove(game_id));
                assert(self@.game_users =~= old(self)@.game_users.remove(game_id));
            }
            return Some(rival);
        }
        None
    }
}

} // verus!
