//! The game actor: it creates games, checks moves and ends games.
use vstd::prelude::*;

use super::names;
use crate::game::victory::{GameOver, Outcome};
use crate::repo::{Connect4Repo, RepoModel};

verus! {

/// What the game actor is asked to do.
#[derive(Debug)]
pub enum MessageIn {
    /// Start a game between two users.
    NewGame { users: (String, String) },
    /// `user` drops a piece into column `col`.
    Move { user: String, col: u8 },
    /// `user` left.
    UserLeft { user: String },
    /// Report the games and users in progress.
    QueryGetState,
}

/// What the game actor tells the controller.
#[derive(Debug, PartialEq, Eq)]
pub enum MessageOut {
    HeartBeat,
    NewGame { game_id: u64, users: (String, String), first_turn: String },
    UserAlreadyInGame { reject_users: Vec<String>, rematchmake_users: Vec<String> },
    UserNotInGame { user: String },
    MoveValid { player: String, rival: String, valid: bool, col: u8 },
    GameOverWinner { winner: String, loser: String },
    GameOverDraw { users: (String, String) },
    AbortGame { user: String },
}

/// The users and games in progress (each list left empty when it would hold
/// more than 100 entries), their numbers, and the number of finished games.
#[derive(Debug)]
pub struct StatePayload {
    pub _users_playing: Vec<String>,
    pub _games: Vec<u64>,
    pub _num_users_playing: usize,
    pub _num_games: usize,
    pub _total_games_played: u128,
}

/// What the game actor does in answer to a message: send a message to the
/// controller, or answer a state query.
pub enum Response {
    Send(MessageOut),
    Reply(StatePayload),
}

/// Whether the game actor can handle `msg` with `repo`: a user who leaves can be removed.
pub open spec fn can_handle(repo: RepoModel, msg: MessageIn) -> bool {
    match msg {
        MessageIn::UserLeft { user } => repo.can_delete_user(user@),
        _ => true,
    }
}

/// The answer to `NewGame { users }` when one of them is already in a game:
/// those in a game are rejected, the other one searches again.
pub open spec fn already_in_game(old: RepoModel, users: (Seq<char>, Seq<char>), r: Seq<Response>) -> bool {
    let in0 = old.user_games.contains_key(users.0);
    let in1 = old.user_games.contains_key(users.1);
    &&& r.len() == 1
    &&& r[0] matches Response::Send(MessageOut::UserAlreadyInGame { reject_users, rematchmake_users })
    &&& names(reject_users) == (if in0 && in1 {
        seq![users.0, users.1]
    } else if in0 {
        seq![users.0]
    } else {
        seq![users.1]
    })
    &&& names(rematchmake_users) == (if in0 && in1 {
        Seq::<Seq<char>>::empty()
    } else if in0 {
        seq![users.1]
    } else {
        seq![users.0]
    })
}

/// The answer to a move of `user` into `col` in game `id`, whose state was `g`:
/// whether the move was valid, then, when the game is over, its winner and
/// loser or the two users of a draw, and the game removed.
pub open spec fn move_handled(old: RepoModel, new: RepoModel, id: u64, user: Seq<char>, col: u8, r: Seq<Response>) -> bool {
    let g = old.games[id];
    let valid = g.can_play(user, col as int);
    let g2 = if valid { g.played(user, col as int) } else { g };
    let mid = RepoModel { games: old.games.insert(id, g2), ..old };
    &&& r.len() >= 1
    &&& r[0] matches Response::Send(MessageOut::MoveValid { player, rival, valid: v, col: c })
    &&& player@ == user
    &&& rival@ == g.rival(user)
    &&& v == valid
    &&& c == col
    &&& match g2.outcome() {
        None => r.len() == 1 && new == mid,
        Some(Outcome::Winner(w)) => {
            &&& r.len() == 2
            &&& mid.game_removed(new, id)
            &&& r[1] matches Response::Send(MessageOut::GameOverWinner { winner, loser })
            &&& winner@ == w
            &&& loser@ == g2.rival(w)
        },
        Some(Outcome::Draw) => {
            &&& r.len() == 2
            &&& mid.game_removed(new, id)
            &&& r[1] matches Response::Send(MessageOut::GameOverDraw { users })
            &&& users.0@ == user
            &&& users.1@ == g.rival(user)
        },
    }
}

/// The game actor's reaction to `msg`: the repository is changed in place and
/// the messages to send are given, in order.
///
/// - `NewGame { users }`: when one of them is in a game, `UserAlreadyInGame`;
///   otherwise a game is created and `NewGame` names it, its users and who moves first.
/// - `Move { user, col }`: `UserNotInGame` when `user` is in no game; nothing when
///   its game is not stored; otherwise the move is played and `MoveValid` tells
///   whether it was valid, followed, when the game is over, by `GameOverWinner`
///   or `GameOverDraw`, and the game is removed.
/// - `UserLeft { user }`: when `user` was in a game, it is removed and its rival
///   is told with `AbortGame`.
/// - `QueryGetState`: the users and games in progress.
pub fn handle_msg_in(repo: &mut Connect4Repo, msg: MessageIn) -> (r: Vec<Response>)
    requires
        old(repo).wf(),
        can_handle(old(repo)@, msg),
    ensures
        final(repo).wf(),
        match msg {
            MessageIn::NewGame { users } => {
                let u = (users.0@, users.1@);
                if old(repo)@.user_games.contains_key(u.0) || old(repo)@.user_games.contains_key(u.1) {
                    final(repo)@ == old(repo)@ && already_in_game(old(repo)@, u, r@)
                } else {
                    &&& r@.len() == 1
                    &&& r@[0] matches Response::Send(MessageOut::NewGame { game_id, users: us, first_turn })
                    &&& old(repo)@.game_created(final(repo)@, game_id, u)
                    &&& us.0@ == u.0
                    &&& us.1@ == u.1
                    &&& first_turn@ == final(repo)@.games[game_id].user_first
                }
            },
            MessageIn::Move { user, col } => {
                if !old(repo)@.user_games.contains_key(user@) {
                    &&& final(repo)@ == old(repo)@
                    &&& r@.len() == 1
                    &&& r@[0] matches Response::Send(MessageOut::UserNotInGame { user: u })
                    &&& u@ == user@
                } else if !old(repo)@.games.contains_key(old(repo)@.user_games[user@]) {
                    final(repo)@ == old(repo)@ && r@.len() == 0
                } else {
                    move_handled(old(repo)@, final(repo)@, old(repo)@.user_games[user@], user@, col, r@)
                }
            },
            MessageIn::UserLeft { user } => {
                if old(repo)@.user_games.contains_key(user@) {
                    &&& r@.len() == 1
                    &&& r@[0] matches Response::Send(MessageOut::AbortGame { user: rival })
                    &&& old(repo)@.user_removed(final(repo)@, user@, rival@)
                } else {
                    final(repo)@ == old(repo)@ && r@.len() == 0
                }
            },
            MessageIn::QueryGetState => {
                &&& final(repo)@ == old(repo)@
                &&& r@.len() == 1
                &&& r@[0] matches Response::Reply(p)
                &&& p._num_users_playing == old(repo)@.user_games.dom().len()
                &&& p._num_games == old(repo)@.games.dom().len()
                &&& p._total_games_played == old(repo)@.total_games_played
                &&& (if p._num_users_playing > 100 {
                    names(p._users_playing).len() == 0
                } else {
                    names(p._users_playing).no_duplicates()
                        && names(p._users_playing).to_set() == old(repo)@.user_games.dom()
                })
                &&& (if p._num_games > 100 {
                    p._games@.len() == 0
                } else {
                    p._games@.no_duplicates() && p._games@.to_set() == old(repo)@.games.dom()
                })
            },
        },
{
    proof {
        repo.lemma_wf_games();
    }
    let mut out: Vec<Response> = Vec::new();
    match msg {
        MessageIn::NewGame { users } => {
            let game0 = repo.get_game_id(users.0.as_str());
            let game1 = repo.get_game_id(users.1.as_str());
            if game0.is_some() || game1.is_some() {
                let ghost u0 = users.0@;
                let ghost u1 = users.1@;
                let (reject_users, rematchmake_users) = match (game0, game1) {
                    (Some(_), Some(_)) => (vec![users.0, users.1], vec![]),
                    (Some(_), None) => (vec![users.0], vec![users.1]),
                    (_, _) => (vec![users.1], vec![users.0]),
                };
                proof {
                    let in0 = game0.is_some();
                    let in1 = game1.is_some();
                    assert(names(reject_users) =~= (if in0 && in1 {
                        seq![u0, u1]
                    } else if in0 {
                        seq![u0]
                    } else {
                        seq![u1]
                    }));
                    assert(names(rematchmake_users) =~= (if in0 && in1 {
                        Seq::<Seq<char>>::empty()
                    } else if in0 {
                        seq![u1]
                    } else {
                        seq![u0]
                    }));
                }
                let resp = MessageOut::UserAlreadyInGame { reject_users, rematchmake_users };
                out.push(Response::Send(resp));
                return out;
            }
            let game_id = repo.create_new_game((users.0.clone(), users.1.clone()));
            let ghost created = repo@;
            let game = repo.get_game(game_id).unwrap();
            let game_users = game.get_users();
            let resp = MessageOut::NewGame {
                game_id,
                users: (game_users.0.clone(), game_users.1.clone()),
                first_turn: game.get_user_first().clone(),
            };
            out.push(Response::Send(resp));
            proof {
                assert(created.games.insert(game_id, created.games[game_id]) =~= created.games);
            }
        },
        MessageIn::Move { user, col } => {
            let game_id = match repo.get_game_id(user.as_str()) {
                Some(id) => id,
                None => {
                    out.push(Response::Send(MessageOut::UserNotInGame { user }));
                    return out;
                },
            };
            let game = match repo.get_game(game_id) {
                Some(g) => g,
                None => {
                    return out;
                },
            };
            let ghost g = game@;
            let valid = game.play(user.as_str(), col);
            proof {
                if valid {
                    crate::game::lemma_undo_after_play(g, user@, col as int);
                }
            }
            let rival = game.get_rival(user.as_str());
            out.push(
                Response::Send(
                    MessageOut::MoveValid { player: user.clone(), rival: rival.clone(), valid, col },
                ),
            );
            if let Some(gameover) = game.is_gameover() {
                let resp = match gameover {
                    GameOver::Winner(winner) => {
                        let loser = game.get_rival(winner.as_str());
                        MessageOut::GameOverWinner { winner, loser }
                    },
                    GameOver::Draw => MessageOut::GameOverDraw { users: (user, rival) },
                };
                repo.delete_game(game_id);
                out.push(Response::Send(resp));
            }
        },
        MessageIn::UserLeft { user } => {
            if let Some(rival) = repo.delete_user(user.as_str()) {
                out.push(Response::Send(MessageOut::AbortGame { user: rival }));
            }
        },
        MessageIn::QueryGetState => {
            let mut users = repo.get_users();
            let n_users = users.len();
            let mut games = repo.get_game_ids();
            let n_games = games.len();
            let total_games_played = repo.get_total_games_played();
            proof {
                names(users).unique_seq_to_set();
                games@.unique_seq_to_set();
            }
            if n_users > 100 {
                users = vec![];
            }
            if n_games > 100 {
                games = vec![];
            }
            out.push(
                Response::Reply(
                    StatePayload {
                        _users_playing: users,
                        _games: games,
                        _num_users_playing: n_users,
                        _num_games: n_games,
                        _total_games_played: total_games_played,
                    },
                ),
            );
        },
    }
    out
}

} // verus!
