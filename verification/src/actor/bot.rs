//! A bot: a player run by the server, which searches for games and plays random moves.
use vstd::prelude::*;

use super::service;
use crate::game::{Connect4Game, GameModel, COLS};

verus! {

/// How long a bot waits before it moves, in milliseconds.
pub const BOT_MOVE_DELAY_MS: u64 = 300;

/// How many random columns a bot tries before it gives up moving.
pub const BOT_MOVE_TRIES: usize = 100;

/// What a bot is asked to do.
#[derive(Debug)]
pub enum MessageIn {
    /// Search for a game, if idle.
    SearchForGame,
    /// Whether to search for a new game whenever a game ends.
    PermaPlay(bool),
    /// Tell whether the bot is idle.
    QueryIdle,
}

/// What a bot tells the bot manager.
#[derive(Debug, PartialEq, Eq)]
pub enum MessageOut {
    Nothing,
}

/// What a bot is doing.
pub enum BotState {
    Idle,
    Searching,
    Playing { game: Connect4Game },
}

/// What a bot is doing, as a model.
pub enum BotStateModel {
    Idle,
    Searching,
    Playing(GameModel),
}

impl View for BotState {
    type V = BotStateModel;

    open spec fn view(&self) -> BotStateModel {
        match self {
            BotState::Idle => BotStateModel::Idle,
            BotState::Searching => BotStateModel::Searching,
            BotState::Playing { game } => BotStateModel::Playing(game@),
        }
    }
}

/// What a bot does in answer to a message.
pub enum BotAction {
    /// Wait before the next action.
    Sleep { millis: u64 },
    /// Send a message to the controller, as a user.
    ToService(service::MessageOut),
    /// Send a message to itself.
    ToSelf(MessageIn),
    /// Answer a `QueryIdle`.
    ReplyIdle(bool),
}

/// The decimal digit `d`.
pub open spec fn digit_char(d: nat) -> char {
    (48 + d) as char
}

/// The decimal representation of `n`.
pub open spec fn decimal(n: nat) -> Seq<char>
    decreases n,
{
    if n < 10 {
        seq![digit_char(n)]
    } else {
        decimal(n / 10).push(digit_char(n % 10))
    }
}

/// Appends `n` in decimal to `s`.
fn append_decimal(s: &mut String, n: u64)
    ensures
        final(s)@ == old(s)@ + decimal(n as nat),
    decreases n,
{
    if n >= 10 {
        append_decimal(s, n / 10);
    }
    let d = (n % 10) as usize;
    let digits = "0123456789";
    proof {
        reveal_strlit("0123456789");
        assert(digits@[d as int] == digit_char(d as nat));
    }
    let ch = digits.substring_char(d, d + 1);
    let ghost before = s@;
    s.append(ch);
    proof {
        assert(ch@ =~= seq![digit_char(d as nat)]);
        assert(s@ =~= before + seq![digit_char((n % 10) as nat)]);
        if n >= 10 {
            assert(decimal(n as nat) == decimal((n / 10) as nat).push(digit_char((n % 10) as nat)));
            assert(s@ =~= old(s)@ + decimal(n as nat));
        } else {
            assert(s@ =~= old(s)@ + decimal(n as nat));
        }
    }
}

/// The name of the bot with number `id`: `bot-` followed by `id` in decimal.
fn bot_name(id: u64) -> (r: String)
    ensures
        r@ == seq!['b', 'o', 't', '-'] + decimal(id as nat),
{
    let mut s = String::new();
    proof {
        reveal_strlit("bot-");
    }
    s.append("bot-");
    append_decimal(&mut s, id);
    proof {
        assert(s@ =~= seq!['b', 'o', 't', '-'] + decimal(id as nat));
    }
    s
}

/// Whether every column is open to the player to move.
pub open spec fn all_open(g: GameModel) -> bool {
    forall|c: int| 0 <= c < 7 ==> #[trigger] g.play_no_user(c) is Some
}

/// Whether `r` is the outcome of a bot's turn in `old`, leading to `new`: a
/// pause, then, when a legal move was found, the move sent as `bot_id`. When
/// every column is open, a move is always found.
pub open spec fn bot_turn(bot_id: Seq<char>, old: GameModel, new: GameModel, r: Seq<BotAction>) -> bool {
    &&& r.len() == 1 || r.len() == 2
    &&& r[0] matches BotAction::Sleep { millis } && millis == BOT_MOVE_DELAY_MS
    &&& r.len() == 1 ==> new == old
    &&& r.len() == 2 ==> {
        &&& r[1] matches BotAction::ToService(out)
        &&& out.user@ == bot_id
        &&& out.inner matches service::MessageOutInner::Move { col }
        &&& col < 7
        &&& old.play_no_user(col as int) is Some
        &&& new == old.play_no_user(col as int).unwrap()
    }
    &&& all_open(old) ==> r.len() == 2
}

/// The column named by the first of `draws`, from position `i` on, that is
/// legal for the player to move once taken modulo 7; `None` when there is none.
pub open spec fn first_legal_from(g: GameModel, draws: Seq<u8>, i: int) -> Option<u8>
    decreases draws.len() - i,
{
    if i < 0 || i >= draws.len() {
        None
    } else if g.play_no_user((draws[i] % 7) as int) is Some {
        Some((draws[i] % 7) as u8)
    } else {
        first_legal_from(g, draws, i + 1)
    }
}

proof fn lemma_first_legal_from(g: GameModel, draws: Seq<u8>, i: int)
    requires
        0 <= i,
    ensures
        first_legal_from(g, draws, i) matches Some(c) ==> c < 7 && g.play_no_user(c as int) is Some,
    decreases draws.len() - i,
{
    if i < draws.len() && g.play_no_user((draws[i] % 7) as int) is None {
        lemma_first_legal_from(g, draws, i + 1);
    }
}

/// A fresh board of a game that `new_custom` starts leaves every column open.
proof fn lemma_fresh_all_open(g: GameModel)
    requires
        g.board == Seq::new(42, |i: int| None::<bool>),
        g.turn,
    ensures
        all_open(g),
{
    assert forall|c: int| 0 <= c < 7 implies #[trigger] g.play_no_user(c) is Some by {
        crate::game::lemma_height_below_is(g.board, c, 6, 0);
    }
}

/// The column named by the first of `draws` that is legal for the player to
/// move once taken modulo 7 (see `first_legal_from`).
pub fn first_legal(game: &Connect4Game, draws: &Vec<u8>) -> (r: Option<u8>)
    requires
        game@.wf(),
    ensures
        r == first_legal_from(game@, draws@, 0),
{
    let mut g = game.clone();
    let mut i: usize = 0;
    while i < draws.len()
        invariant
            g@ == game@,
            game@.wf(),
            i <= draws@.len(),
            first_legal_from(game@, draws@, 0) == first_legal_from(game@, draws@, i as int),
        decreases draws@.len() - i,
    {
        let col = draws[i] % (COLS as u8);
        if g.play_no_user(col) {
            return Some(col);
        }
        i = i + 1;
    }
    None
}

/// Whether `r` is the outcome of a bot's turn in `old`, leading to `new`, for
/// the drawn columns `draws`: a pause, then the move into the first drawn
/// column (modulo 7) that is legal, sent as `bot_id`; nothing more, and the
/// game unchanged, when no drawn column is legal.
pub open spec fn move_from_draws(
    bot_id: Seq<char>,
    old: GameModel,
    new: GameModel,
    draws: Seq<u8>,
    r: Seq<BotAction>,
) -> bool {
    &&& r.len() >= 1
    &&& r[0] matches BotAction::Sleep { millis } && millis == BOT_MOVE_DELAY_MS
    &&& match first_legal_from(old, draws, 0) {
        Some(c) => {
            &&& r.len() == 2
            &&& r[1] matches BotAction::ToService(out)
            &&& out.user@ == bot_id
            &&& out.inner == service::MessageOutInner::Move { col: c }
            &&& new == old.play_no_user(c as int).unwrap()
        },
        None => r.len() == 1 && new == old,
    }
}

/// A bot's turn for some drawn columns is a bot's turn.
proof fn lemma_move_from_draws_is_turn(
    bot_id: Seq<char>,
    old: GameModel,
    new: GameModel,
    draws: Seq<u8>,
    r: Seq<BotAction>,
)
    requires
        draws.len() > 0,
        move_from_draws(bot_id, old, new, draws, r),
    ensures
        bot_turn(bot_id, old, new, r),
{
    lemma_first_legal_from(old, draws, 0);
    if all_open(old) {
        assert(old.play_no_user((draws[0] % 7) as int) is Some);
    }
}

/// `BOT_MOVE_TRIES` columns drawn at random.
fn draw_columns() -> (r: Vec<u8>)
    ensures
        r@.len() == BOT_MOVE_TRIES,
{
    let mut draws: Vec<u8> = Vec::new();
    while draws.len() < BOT_MOVE_TRIES
        invariant
            draws@.len() <= BOT_MOVE_TRIES,
        decreases BOT_MOVE_TRIES - draws@.len(),
    {
        draws.push(crate::random::random_u8());
    }
    draws
}

/// A bot's turn: it pauses, draws `BOT_MOVE_TRIES` columns at random and plays
/// the first legal one (see `play_with`), which it sends as `bot_id`.
pub fn play(bot_id: &String, game: &mut Connect4Game) -> (r: Vec<BotAction>)
    requires
        old(game)@.wf(),
    ensures
        final(game)@.wf(),
        bot_turn(bot_id@, old(game)@, final(game)@, r@),
{
    let draws = draw_columns();
    let r = play_with(bot_id, game, &draws);
    proof {
        lemma_move_from_draws_is_turn(bot_id@, old(game)@, game@, draws@, r@);
    }
    r
}

/// A bot's turn for the drawn columns `draws`: it pauses, then plays the first
/// drawn column (modulo 7) that is legal (see `first_legal`) and sends it as
/// `bot_id`; when none is legal, the game stays as it was.
pub fn play_with(bot_id: &String, game: &mut Connect4Game, draws: &Vec<u8>) -> (r: Vec<BotAction>)
    requires
        old(game)@.wf(),
    ensures
        final(game)@.wf(),
        move_from_draws(bot_id@, old(game)@, final(game)@, draws@, r@),
{
    let mut r: Vec<BotAction> = Vec::new();
    r.push(BotAction::Sleep { millis: BOT_MOVE_DELAY_MS });
    let ghost g = game@;
    proof {
        lemma_first_legal_from(g, draws@, 0);
    }
    if let Some(col) = first_legal(game, draws) {
        game.play_no_user(col);
        proof {
            crate::game::lemma_undo_after_play(g, g.current_user(), col as int);
        }
        r.push(
            BotAction::ToService(
                service::MessageOut { user: bot_id.clone(), inner: service::MessageOutInner::Move { col } },
            ),
        );
    }
    r
}

/// A bot's state: its name, what it does, and whether it searches for a new
/// game whenever a game ends.
pub struct BotActor {
    bot_id: String,
    bot_state: BotState,
    perma_play: bool,
}

/// A bot as a model.
pub struct BotModel {
    pub bot_id: Seq<char>,
    pub state: BotStateModel,
    pub perma_play: bool,
}

impl View for BotActor {
    type V = BotModel;

    closed spec fn view(&self) -> BotModel {
        BotModel { bot_id: self.bot_id@, state: self.bot_state@, perma_play: self.perma_play }
    }
}

impl BotModel {
    /// A bot in a game plays a well-formed game.
    pub open spec fn wf(self) -> bool {
        self.state matches BotStateModel::Playing(g) ==> g.wf()
    }
}

/// Whether `r` asks the bot to search again when `perma_play` is on, and holds nothing else.
pub open spec fn search_again(perma_play: bool, r: Seq<BotAction>) -> bool {
    if perma_play {
        r.len() == 1 && r[0] matches BotAction::ToSelf(MessageIn::SearchForGame)
    } else {
        r.len() == 0
    }
}

/// The game a bot starts when it gets `NewGame`: an empty board, the bot and
/// its rival ordered by who moves first.
pub open spec fn fresh_game(bot_id: Seq<char>, rival: Seq<char>, game_id: u64, first_turn: bool) -> GameModel {
    GameModel {
        board: Seq::new(42, |i: int| None::<bool>),
        first: if first_turn { bot_id } else { rival },
        second: if first_turn { rival } else { bot_id },
        user_first: if first_turn { bot_id } else { rival },
        turn: true,
        game_id,
        history: Seq::empty(),
    }
}

/// Whether a bot goes from `old` to `new` and does `r` on the message `msg`
/// from the controller, where `turn(g, g2, r)` says what the bot's own move
/// in the game `g` does.
pub open spec fn service_reaction(
    old: BotModel,
    new: BotModel,
    msg: service::InnerModel,
    r: Seq<BotAction>,
    turn: spec_fn(GameModel, GameModel, Seq<BotAction>) -> bool,
) -> bool {
    match msg {
        service::InnerModel::NewGame { game_id, rival, first_turn } => if old.state is Searching {
            let g0 = fresh_game(old.bot_id, rival, game_id, first_turn);
            &&& new.state matches BotStateModel::Playing(g)
            &&& if first_turn {
                turn(g0, g, r)
            } else {
                g == g0 && r.len() == 0
            }
        } else {
            new == old && r.len() == 0
        },
        service::InnerModel::MoveValid { .. } => new == old && r.len() == 0,
        service::InnerModel::RivalMove { col } => match old.state {
            BotStateModel::Playing(g) => match g.play_no_user(col as int) {
                Some(g1) => if g1.outcome() is Some {
                    new.state == BotStateModel::Playing(g1) && r.len() == 0
                } else {
                    new.state matches BotStateModel::Playing(g2) && turn(g1, g2, r)
                },
                None => new == old && r.len() == 0,
            },
            _ => new == old && r.len() == 0,
        },
        service::InnerModel::GameOver { .. } => {
            &&& new.state == BotStateModel::Idle
            &&& search_again(old.perma_play, r)
        },
        service::InnerModel::RivalLeft => if old.state is Playing {
            &&& new.state == BotStateModel::Idle
            &&& search_again(old.perma_play, r)
        } else {
            new == old && r.len() == 0
        },
    }
}

impl BotActor {
    /// An idle bot named `bot-` and a number drawn at random, which does not search again by itself.
    pub fn new() -> (r: Self)
        ensures
            r@.wf(),
            exists|id: u64| r@.bot_id == seq!['b', 'o', 't', '-'] + decimal(id as nat),
            r@.state == BotStateModel::Idle,
            !r@.perma_play,
    {
        let id = crate::random::random_u64();
        BotActor { bot_id: bot_name(id), bot_state: BotState::Idle, perma_play: false }
    }

    /// The bot's name.
    pub fn get_id(&self) -> (r: String)
        ensures
            r@ == self@.bot_id,
    {
        self.bot_id.clone()
    }

    /// The bot's reaction to a message from the bot manager (or from itself).
    ///
    /// - `SearchForGame`: an idle bot starts searching and asks the controller for a game.
    /// - `QueryIdle`: answers whether the bot is idle.
    /// - `PermaPlay(mode)`: sets whether to search again when a game ends.
    pub fn handle_msg_in(&mut self, msg: MessageIn) -> (r: Vec<BotAction>)
        requires
            old(self)@.wf(),
        ensures
            final(self)@.wf(),
            final(self)@.bot_id == old(self)@.bot_id,
            match msg {
                MessageIn::SearchForGame => if old(self)@.state is Idle {
                    &&& final(self)@ == BotModel { state: BotStateModel::Searching, ..old(self)@ }
                    &&& r@.len() == 1
                    &&& r@[0] matches BotAction::ToService(out)
                    &&& out.user@ == old(self)@.bot_id
                    &&& out.inner == service::MessageOutInner::SearchGame
                } else {
                    final(self)@ == old(self)@ && r@.len() == 0
                },
                MessageIn::QueryIdle => {
                    &&& final(self)@ == old(self)@
                    &&& r@.len() == 1
                    &&& r@[0] matches BotAction::ReplyIdle(idle)
                    &&& idle == old(self)@.state is Idle
                },
                MessageIn::PermaPlay(mode) => final(self)@ == BotModel { perma_play: mode, ..old(self)@ } && r@.len() == 0,
            },
    {
        let mut r: Vec<BotAction> = Vec::new();
        match msg {
            MessageIn::SearchForGame => {
                if !matches!(self.bot_state, BotState::Idle) {
                    return r;
                }
                self.bot_state = BotState::Searching;
                r.push(
                    BotAction::ToService(
                        service::MessageOut { user: self.bot_id.clone(), inner: service::MessageOutInner::SearchGame },
                    ),
                );
            },
            MessageIn::QueryIdle => {
                let idle = matches!(self.bot_state, BotState::Idle);
                r.push(BotAction::ReplyIdle(idle));
            },
            MessageIn::PermaPlay(mode) => {
                self.perma_play = mode;
            },
        }
        r
    }

    /// The bot's reaction to a message from the controller (see `service_reaction`),
    /// with its moves chosen from `BOT_MOVE_TRIES` columns drawn at random (see
    /// `handle_service_msg_in_with`). A searching bot that moves first in a new
    /// game always moves, as every column of the fresh board is open.
    pub fn handle_service_msg_in(&mut self, msg: service::MessageInInner) -> (r: Vec<BotAction>)
        requires
            old(self)@.wf(),
        ensures
            final(self)@.wf(),
            final(self)@.bot_id == old(self)@.bot_id,
            final(self)@.perma_play == old(self)@.perma_play,
            service_reaction(
                old(self)@,
                final(self)@,
                msg@,
                r@,
                |a: GameModel, b: GameModel, t: Seq<BotAction>| bot_turn(old(self)@.bot_id, a, b, t),
            ),
            old(self)@.state is Searching && (msg@ matches service::InnerModel::NewGame { first_turn, .. } && first_turn) ==> r@.len() == 2,
    {
        let ghost m = msg@;
        let ghost id = self@.bot_id;
        let draws = draw_columns();
        let r = self.handle_service_msg_in_with(msg, &draws);
        proof {
            match m {
                service::InnerModel::NewGame { game_id, rival, first_turn } => {
                    if old(self)@.state is Searching && first_turn {
                        let g0 = fresh_game(id, rival, game_id, first_turn);
                        lemma_fresh_all_open(g0);
                        assert(g0.play_no_user((draws@[0] % 7) as int) is Some);
                        lemma_move_from_draws_is_turn(id, g0, self@.state->0, draws@, r@);
                    }
                },
                service::InnerModel::RivalMove { col } => {
                    if let BotStateModel::Playing(g) = old(self)@.state {
                        if let Some(g1) = g.play_no_user(col as int) {
                            if g1.outcome() is None {
                                lemma_move_from_draws_is_turn(id, g1, self@.state->0, draws@, r@);
                            }
                        }
                    }
                },
                _ => {},
            }
        }
        r
    }

    /// The bot's reaction to a message from the controller, with its moves
    /// chosen from the drawn columns `draws` (see `play_with`).
    ///
    /// - `NewGame`: a searching bot starts playing the new game, and moves at once
    ///   when it moves first; otherwise nothing happens.
    /// - `MoveValid`: nothing happens.
    /// - `RivalMove { col }`: a playing bot plays the rival's move and, when the
    ///   game goes on, takes its turn; nothing happens when it is not playing or
    ///   the rival's move is refused.
    /// - `GameOver`: the bot becomes idle, and searches again when `perma_play` is on.
    /// - `RivalLeft`: a playing bot becomes idle, and searches again when `perma_play` is on.
    pub fn handle_service_msg_in_with(&mut self, msg: service::MessageInInner, draws: &Vec<u8>) -> (r: Vec<BotAction>)
        requires
            old(self)@.wf(),
        ensures
            final(self)@.wf(),
            final(self)@.bot_id == old(self)@.bot_id,
            final(self)@.perma_play == old(self)@.perma_play,
            service_reaction(
                old(self)@,
                final(self)@,
                msg@,
                r@,
                |a: GameModel, b: GameModel, t: Seq<BotAction>| move_from_draws(old(self)@.bot_id, a, b, draws@, t),
            ),
    {
        let mut r: Vec<BotAction> = Vec::new();
        match msg {
            service::MessageInInner::NewGame { game_id, rival, first_turn } => {
                if !matches!(self.bot_state, BotState::Searching) {
                    return r;
                }
                let mut game = Connect4Game::new_custom(game_id, self.bot_id.clone(), rival, first_turn);
                if first_turn {
                    r = play_with(&self.bot_id, &mut game, draws);
                }
                self.bot_state = BotState::Playing { game };
            },
            service::MessageInInner::MoveValid { valid: _ } => {},
            service::MessageInInner::RivalMove { col } => {
                let mut state = BotState::Idle;
                std::mem::swap(&mut state, &mut self.bot_state);
                match state {
                    BotState::Playing { mut game } => {
                        if game.play_no_user(col) {
                            proof {
                                crate::game::lemma_undo_after_play(old(self)@.state->0, old(self)@.state->0.current_user(), col as int);
                            }
                            if game.is_gameover().is_none() {
                                r = play_with(&self.bot_id, &mut game, draws);
                            }
                        }
                        self.bot_state = BotState::Playing { game };
                    },
                    other => {
                        self.bot_state = other;
                    },
                }
            },
            service::MessageInInner::GameOver { won: _ } => {
                self.bot_state = BotState::Idle;
                if self.perma_play {
                    r.push(BotAction::ToSelf(MessageIn::SearchForGame));
                }
            },
            service::MessageInInner::RivalLeft => {
                if !matches!(self.bot_state, BotState::Playing { .. }) {
                    return r;
                }
                self.bot_state = BotState::Idle;
                if self.perma_play {
                    r.push(BotAction::ToSelf(MessageIn::SearchForGame));
                }
            },
        }
        r
    }
}

} // verus!
