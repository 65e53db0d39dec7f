//! The connect-four board and its rules.
use vstd::prelude::*;

pub mod text;
pub mod victory;

verus! {

/// Number of rows of the board.
pub const ROWS: usize = 6;

/// Number of columns of the board.
pub const COLS: usize = 7;

/// Index of the cell at row `r` (counted from the bottom) and column `c`
/// in the row-major sequence of cells.
pub open spec fn idx(r: int, c: int) -> int {
    r * 7 + c
}

/// One above the highest occupied cell of column `col` among the rows below `r`,
/// or 0 where they are all empty.
pub open spec fn height_below(b: Seq<Option<bool>>, col: int, r: int) -> int
    decreases r,
{
    if r <= 0 {
        0
    } else if b[idx(r - 1, col)] is Some {
        r
    } else {
        height_below(b, col, r - 1)
    }
}

/// The row at which the next piece dropped into column `col` lands:
/// one above the highest occupied cell of the column (6 when it is full).
pub open spec fn height(b: Seq<Option<bool>>, col: int) -> int {
    height_below(b, col, 6)
}

/// The abstract state of a game.
pub struct GameModel {
    /// The 42 cells, row by row from the bottom; `Some(true)` is a piece of the
    /// first user, `Some(false)` one of the second.
    pub board: Seq<Option<bool>>,
    pub first: Seq<char>,
    pub second: Seq<char>,
    pub user_first: Seq<char>,
    /// `true` when it is the first user's move.
    pub turn: bool,
    pub game_id: u64,
    /// The columns played so far.
    pub history: Seq<u8>,
}

impl GameModel {
    pub open spec fn wf(self) -> bool {
        self.board.len() == 42
    }

    /// Whether `user` may drop a piece into column `col`: the column exists,
    /// it is `user`'s turn, and the column is not full.
    pub open spec fn can_play(self, user: Seq<char>, col: int) -> bool {
        &&& 0 <= col < 7
        &&& self.turn == (self.first == user)
        &&& height(self.board, col) < 6
    }

    /// The state after `user` dropped a piece into column `col`.
    pub open spec fn played(self, user: Seq<char>, col: int) -> GameModel {
        GameModel {
            board: self.board.update(idx(height(self.board, col), col), Some(self.first == user)),
            turn: !self.turn,
            history: self.history.push(col as u8),
            ..self
        }
    }

    /// The result of `play`: the new state, or `None` when the move is refused.
    pub open spec fn play(self, user: Seq<char>, col: int) -> Option<GameModel> {
        if self.can_play(user, col) {
            Some(self.played(user, col))
        } else {
            None
        }
    }

    /// The user whose turn it is.
    pub open spec fn current_user(self) -> Seq<char> {
        if self.turn {
            self.first
        } else {
            self.second
        }
    }

    /// The result of `play_no_user`: a move for the user whose turn it is.
    pub open spec fn play_no_user(self, col: int) -> Option<GameModel> {
        self.play(self.current_user(), col)
    }

    /// Whether the top piece of column `col` can be taken back.
    pub open spec fn can_undo(self, col: int) -> bool {
        0 <= col < 7 && height(self.board, col) > 0
    }

    /// The state after the top piece of column `col` was taken back.
    pub open spec fn undone(self, col: int) -> GameModel {
        GameModel {
            board: self.board.update(idx(height(self.board, col) - 1, col), None),
            turn: !self.turn,
            history: if self.history.len() > 0 {
                self.history.drop_last()
            } else {
                self.history
            },
            ..self
        }
    }

    /// The result of `undo_play`.
    pub open spec fn undo(self, col: int) -> Option<GameModel> {
        if self.can_undo(col) {
            Some(self.undone(col))
        } else {
            None
        }
    }

    /// The rival of `user`: the second user when `user` is the first one,
    /// the first user otherwise.
    pub open spec fn rival(self, user: Seq<char>) -> Seq<char> {
        if user == self.first {
            self.second
        } else {
            self.first
        }
    }

    /// Whether every cell of the top row is occupied.
    pub open spec fn is_draw(self) -> bool {
        forall|c: int| 0 <= c < 7 ==> #[trigger] self.board[idx(5, c)] is Some
    }
}

/// The cells above the height of a column are empty, and the cell just below it is occupied.
pub proof fn lemma_height_below(b: Seq<Option<bool>>, col: int, r: int)
    requires
        0 <= col < 7,
        0 <= r <= 6,
        b.len() == 42,
    ensures
        0 <= height_below(b, col, r) <= r,
        forall|k: int| height_below(b, col, r) <= k < r ==> #[trigger] b[idx(k, col)] is None,
        height_below(b, col, r) > 0 ==> b[idx(height_below(b, col, r) - 1, col)] is Some,
    decreases r,
{
    if r > 0 {
        lemma_height_below(b, col, r - 1);
    }
}

/// A column whose cell `h - 1` is occupied (or `h == 0`) and whose cells from `h`
/// up to row `r` are empty has height `h` below `r`.
pub proof fn lemma_height_below_is(b: Seq<Option<bool>>, col: int, r: int, h: int)
    requires
        0 <= col < 7,
        0 <= h <= r <= 6,
        b.len() == 42,
        h > 0 ==> b[idx(h - 1, col)] is Some,
        forall|k: int| h <= k < r ==> #[trigger] b[idx(k, col)] is None,
    ensures
        height_below(b, col, r) == h,
    decreases r,
{
    if r > h {
        assert(b[idx(r - 1, col)] is None);
        lemma_height_below_is(b, col, r - 1, h);
    }
}

/// The height of a column after a piece was dropped into it is one more.
pub proof fn lemma_height_after_drop(b: Seq<Option<bool>>, col: int, p: bool)
    requires
        0 <= col < 7,
        b.len() == 42,
        height(b, col) < 6,
    ensures
        height(b.update(idx(height(b, col), col), Some(p)), col) == height(b, col) + 1,
        b[idx(height(b, col), col)] is None,
{
    let h = height(b, col);
    let b2 = b.update(idx(h, col), Some(p));
    lemma_height_below(b, col, 6);
    assert forall|k: int| h + 1 <= k < 6 implies #[trigger] b2[idx(k, col)] is None by {
        assert(b[idx(k, col)] is None);
    }
    lemma_height_below_is(b2, col, 6, h + 1);
}

/// Taking back the top piece of a column after it was dropped there gives back
/// the state before the drop: `undo_play` undoes `play`.
pub proof fn lemma_undo_after_play(g: GameModel, user: Seq<char>, col: int)
    requires
        g.wf(),
        g.can_play(user, col),
    ensures
        g.played(user, col).wf(),
        g.played(user, col).undo(col) == Some(g),
{
    let h = height(g.board, col);
    let p = g.first == user;
    lemma_height_below(g.board, col, 6);
    lemma_height_after_drop(g.board, col, p);
    let g2 = g.played(user, col);
    assert(g2.board == g.board.update(idx(h, col), Some(p)));
    assert(height(g2.board, col) == h + 1);
    assert(g2.can_undo(col));
    assert(g2.undone(col).board =~= g.board);
    assert(g2.undone(col).history =~= g.history);
}

/// The number of cells among the first `n` of `b` that hold a piece `p`.
pub open spec fn count_pieces(b: Seq<Option<bool>>, p: bool, n: nat) -> nat
    decreases n,
{
    if n == 0 {
        0
    } else {
        count_pieces(b, p, (n - 1) as nat) + if b[n - 1] == Some(p) {
            1nat
        } else {
            0nat
        }
    }
}

/// Whether a game is in a position that play reaches from an empty board on
/// which the first user moves first: no piece floats above an empty cell, the
/// first user has as many pieces as the second when it is to move and one more
/// otherwise, and every piece is recorded in the history.
pub open spec fn is_sound_position(g: GameModel) -> bool {
    let nt = count_pieces(g.board, true, 42);
    let nf = count_pieces(g.board, false, 42);
    &&& g.wf()
    &&& forall|r: int, c: int|
        0 < r < 6 && 0 <= c < 7 && (#[trigger] g.board[idx(r, c)]) is Some ==> g.board[idx(r - 1, c)] is Some
    &&& (g.turn && nt == nf) || (!g.turn && nt == nf + 1)
    &&& g.history.len() == nt + nf
    &&& nt + nf <= 42
}

proof fn lemma_count_bound(b: Seq<Option<bool>>, n: nat)
    ensures
        count_pieces(b, true, n) + count_pieces(b, false, n) <= n,
    decreases n,
{
    if n > 0 {
        lemma_count_bound(b, (n - 1) as nat);
    }
}

proof fn lemma_count_empty(b: Seq<Option<bool>>, p: bool, n: nat)
    requires
        n <= b.len(),
        forall|i: int| 0 <= i < n ==> #[trigger] b[i] is None,
    ensures
        count_pieces(b, p, n) == 0,
    decreases n,
{
    if n > 0 {
        lemma_count_empty(b, p, (n - 1) as nat);
    }
}

proof fn lemma_count_set(b: Seq<Option<bool>>, i: int, q: bool, n: nat)
    requires
        0 <= i < b.len(),
        n <= b.len(),
        b[i] is None,
    ensures
        count_pieces(b.update(i, Some(q)), q, n) == count_pieces(b, q, n) + if i < n {
            1nat
        } else {
            0nat
        },
        count_pieces(b.update(i, Some(q)), !q, n) == count_pieces(b, !q, n),
    decreases n,
{
    if n > 0 {
        lemma_count_set(b, i, q, (n - 1) as nat);
    }
}

/// A game that `new_custom` starts is in a sound position.
pub proof fn lemma_fresh_is_sound(g: GameModel)
    requires
        g.board == Seq::new(42, |i: int| None::<bool>),
        g.turn,
        g.history.len() == 0,
    ensures
        is_sound_position(g),
{
    lemma_count_empty(g.board, true, 42);
    lemma_count_empty(g.board, false, 42);
}

/// A legal move keeps a position sound: no piece floats, the piece counts
/// follow the turn, and the history counts the pieces. Taking the move back
/// gives the position before it (`lemma_undo_after_play`), so every sequence of
/// moves, each possibly taken back, from a game that `new_custom` starts stays
/// in sound positions.
pub proof fn lemma_play_keeps_sound(g: GameModel, user: Seq<char>, col: int)
    requires
        is_sound_position(g),
        g.can_play(user, col),
    ensures
        is_sound_position(g.played(user, col)),
{
    let b = g.board;
    let h = height(b, col);
    let p = g.first == user;
    let i = idx(h, col);
    let g2 = g.played(user, col);
    lemma_height_below(b, col, 6);
    lemma_height_after_drop(b, col, p);
    assert(g2.board == b.update(i, Some(p)));
    lemma_count_set(b, i, p, 42);
    lemma_count_bound(g2.board, 42);
    assert forall|r: int, c: int|
        0 < r < 6 && 0 <= c < 7 && (#[trigger] g2.board[idx(r, c)]) is Some implies g2.board[idx(r - 1, c)] is Some by {
        if idx(r, c) == i {
            assert(r == h && c == col);
            assert(b[idx(h - 1, col)] is Some);
        } else if idx(r - 1, c) != i {
            assert(b[idx(r, c)] is Some);
        }
    }
}

/// A game is drawn exactly when every column is full, so that nobody can drop
/// a piece anywhere; a game in which some column still takes a piece is not drawn.
pub proof fn lemma_draw_iff_board_full(g: GameModel)
    requires
        g.wf(),
    ensures
        g.is_draw() <==> forall|c: int| 0 <= c < 7 ==> #[trigger] height(g.board, c) == 6,
        g.is_draw() ==> forall|user: Seq<char>, c: int| !#[trigger] g.can_play(user, c),
        !g.is_draw() ==> exists|c: int| 0 <= c < 7 && #[trigger] height(g.board, c) < 6,
{
    assert forall|c: int| 0 <= c < 7 implies (#[trigger] height(g.board, c) == 6 <==> g.board[idx(5, c)] is Some) by {
        lemma_height_below(g.board, c, 5);
    }
    if !g.is_draw() {
        let c = choose|c: int| 0 <= c < 7 && !(#[trigger] g.board[idx(5, c)] is Some);
        lemma_height_below(g.board, c, 6);
        assert(height(g.board, c) < 6);
    }
}

/// A game of connect four between two users.
#[derive(Debug)]
pub struct Connect4Game {
    board: Vec<Option<bool>>,
    pub users: (String, String),
    pub user_first: String,
    turn: bool,
    pub game_id: u64,
    history: Vec<u8>,
}

impl View for Connect4Game {
    type V = GameModel;

    closed spec fn view(&self) -> GameModel {
        GameModel {
            board: self.board@,
            first: self.users.0@,
            second: self.users.1@,
            user_first: self.user_first@,
            turn: self.turn,
            game_id: self.game_id,
            history: self.history@,
        }
    }
}

/// Whether two names are the same.
pub(crate) fn same_name(a: &String, b: &str) -> (r: bool)
    ensures
        r == (a@ == b@),
{
    let owned = b.to_owned();
    *a == owned
}

/// A copy of a vector of copyable items.
fn copy_vec<T: Copy>(v: &Vec<T>) -> (r: Vec<T>)
    ensures
        r@ == v@,
{
    let mut r: Vec<T> = Vec::new();
    let mut i: usize = 0;
    while i < v.len()
        invariant
            i <= v.len(),
            r@ == v@.take(i as int),
        decreases v.len() - i,
    {
        r.push(v[i]);
        i = i + 1;
        assert(r@ =~= v@.take(i as int));
    }
    assert(v@.take(v.len() as int) =~= v@);
    r
}

/// An empty board.
fn empty_board() -> (r: Vec<Option<bool>>)
    ensures
        r@ == Seq::new(42, |i: int| None::<bool>),
{
    let mut r: Vec<Option<bool>> = Vec::new();
    let mut i: usize = 0;
    while i < ROWS * COLS
        invariant
            i <= 42,
            r@ == Seq::new(i as nat, |k: int| None::<bool>),
        decreases 42 - i,
    {
        r.push(None);
        i = i + 1;
        assert(r@ =~= Seq::new(i as nat, |k: int| None::<bool>));
    }
    r
}

impl Clone for Connect4Game {
    fn clone(&self) -> (r: Self)
        ensures
            r@ == self@,
    {
        Connect4Game {
            board: copy_vec(&self.board),
            users: (self.users.0.clone(), self.users.1.clone()),
            user_first: self.user_first.clone(),
            turn: self.turn,
            game_id: self.game_id,
            history: copy_vec(&self.history),
        }
    }
}

impl Default for Connect4Game {
    fn default() -> (r: Self)
        ensures
            r@.board == Seq::new(42, |i: int| None::<bool>),
            r@.first == Seq::<char>::empty(),
            r@.second == Seq::<char>::empty(),
            r@.user_first == Seq::<char>::empty(),
            r@.turn == false,
            r@.game_id == 0,
            r@.history == Seq::<u8>::empty(),
    {
        Connect4Game {
            board: empty_board(),
            users: (String::new(), String::new()),
            user_first: String::new(),
            turn: false,
            game_id: 0,
            history: Vec::new(),
        }
    }
}

impl Connect4Game {
    /// A new game between `users`; which of them moves first is drawn at random
    /// (see `new_with_first`).
    pub fn new(game_id: u64, users: (String, String)) -> (r: Self)
        ensures
            r@.wf(),
            r@.board == Seq::new(42, |i: int| None::<bool>),
            r@.first == users.0@,
            r@.second == users.1@,
            r@.user_first == users.0@ || r@.user_first == users.1@,
            r@.turn == (r@.user_first == users.0@),
            r@.game_id == game_id,
            r@.history == Seq::<u8>::empty(),
    {
        let first0 = crate::random::random_bool();
        Self::new_with_first(game_id, users, first0)
    }

    /// A new game between `users` in which the first of them moves first when
    /// `first0`, the second otherwise. The pieces of the first of `users` are
    /// marked `true`, and it is their move when the user who moves first bears
    /// their name.
    pub fn new_with_first(game_id: u64, users: (String, String), first0: bool) -> (r: Self)
        ensures
            r@.wf(),
            r@.board == Seq::new(42, |i: int| None::<bool>),
            r@.first == users.0@,
            r@.second == users.1@,
            r@.user_first == (if first0 { users.0@ } else { users.1@ }),
            r@.turn == (r@.user_first == users.0@),
            r@.game_id == game_id,
            r@.history == Seq::<u8>::empty(),
    {
        let user_first = if first0 {
            users.0.clone()
        } else {
            users.1.clone()
        };
        let turn = user_first == users.0;
        Connect4Game {
            board: empty_board(),
            users: (users.0.clone(), users.1.clone()),
            user_first: user_first.clone(),
            turn,
            game_id,
            history: Vec::new(),
        }
    }

    /// A game in which `player` moves first when `is_first`, `rival` otherwise;
    /// the user who moves first is the first of `users`.
    pub fn new_custom(game_id: u64, player: String, rival: String, is_first: bool) -> (r: Self)
        ensures
            r@.wf(),
            r@.board == Seq::new(42, |i: int| None::<bool>),
            r@.first == (if is_first { player@ } else { rival@ }),
            r@.second == (if is_first { rival@ } else { player@ }),
            r@.user_first == r@.first,
            r@.turn,
            r@.game_id == game_id,
            r@.history == Seq::<u8>::empty(),
    {
        let (first, second) = if is_first {
            (player, rival)
        } else {
            (rival, player)
        };
        Connect4Game {
            board: empty_board(),
            users: (first.clone(), second),
            user_first: first,
            turn: true,
            game_id,
            history: Vec::new(),
        }
    }

    /// The two users; the first of them plays the pieces marked `true`.
    pub fn get_users(&self) -> (r: &(String, String))
        ensures
            r.0@ == self@.first,
            r.1@ == self@.second,
    {
        &self.users
    }

    /// The user who moved first.
    pub fn get_user_first(&self) -> (r: &String)
        ensures
            r@ == self@.user_first,
    {
        &self.user_first
    }

    /// The game's id.
    pub fn get_game_id(&self) -> (r: u64)
        ensures
            r == self@.game_id,
    {
        self.game_id
    }

    /// The other user of the game: the second user when `user` is the first one,
    /// the first user otherwise.
    pub fn get_rival(&self, user: &str) -> (r: String)
        ensures
            r@ == self@.rival(user@),
    {
        if same_name(&self.users.0, user) {
            self.users.1.clone()
        } else {
            self.users.0.clone()
        }
    }

    /// Drops a piece of `user` into column `col`. Refused (`false`, nothing
    /// changes) when the column does not exist, it is not `user`'s turn, or the
    /// column is full; otherwise the piece lands on top of the column, the column
    /// is recorded and the turn passes.
    pub fn play(&mut self, user: &str, col: u8) -> (ok: bool)
        requires
            old(self)@.wf(),
        ensures
            ok == old(self)@.can_play(user@, col as int),
            final(self)@ == (if ok { old(self)@.played(user@, col as int) } else { old(self)@ }),
    {
        let col = col as usize;
        if col >= COLS {
            return false;
        }
        let player = same_name(&self.users.0, user);
        if self.turn != player {
            return false;
        }
        let mut row: usize = ROWS - 1;
        while self.board[row * COLS + col].is_none() && row > 0
            invariant
                self@.wf(),
                col < 7,
                row < 6,
                height(self.board@, col as int) == height_below(self.board@, col as int, row + 1),
            decreases row,
        {
            row = row - 1;
        }
        proof {
            assert(height_below(self.board@, col as int, 0) == 0);
        }
        if self.board[row * COLS + col].is_some() {
            row = row + 1;
        }
        assert(row == height(self.board@, col as int));
        if row >= ROWS {
            return false;
        }
        self.board.set(row * COLS + col, Some(player));
        self.history.push(col as u8);
        self.turn = !self.turn;
        true
    }

    /// Plays `col` for the user whose turn it is.
    pub fn play_no_user(&mut self, col: u8) -> (ok: bool)
        requires
            old(self)@.wf(),
        ensures
            ok == old(self)@.play_no_user(col as int) is Some,
            final(self)@ == (if ok { old(self)@.play_no_user(col as int).unwrap() } else { old(self)@ }),
    {
        let user = if self.turn {
            self.users.0.clone()
        } else {
            self.users.1.clone()
        };
        self.play(user.as_str(), col)
    }

    /// Takes back the top piece of column `col`. Refused (`false`, nothing
    /// changes) when the column does not exist or is empty; otherwise the last
    /// recorded column is dropped and the turn passes back.
    pub fn undo_play(&mut self, col: u8) -> (ok: bool)
        requires
            old(self)@.wf(),
        ensures
            ok == old(self)@.can_undo(col as int),
            final(self)@ == (if ok { old(self)@.undone(col as int) } else { old(self)@ }),
    {
        let col = col as usize;
        if col >= COLS {
            return false;
        }
        let mut found = false;
        let mut row: usize = ROWS;
        while row > 0
            invariant_except_break
                self@ == old(self)@,
                row <= 6,
                height(self.board@, col as int) == height_below(self.board@, col as int, row as int),
                !found,
            invariant
                old(self)@.wf(),
                col < 7,
            ensures
                found ==> self@ == (GameModel {
                    board: old(self)@.undone(col as int).board,
                    ..old(self)@
                }) && height(old(self)@.board, col as int) > 0,
                !found ==> self@ == old(self)@ && height(old(self)@.board, col as int) == 0,
            decreases row,
        {
            row = row - 1;
            if self.board[row * COLS + col].is_some() {
                self.board.set(row * COLS + col, None);
                found = true;
                break;
            }
        }
        if !found {
            return false;
        }
        self.history.pop();
        self.turn = !self.turn;
        proof {
            assert(self.history@ =~= old(self)@.undone(col as int).history);
        }
        true
    }

    /// Whether every cell of the top row is occupied.
    pub fn check_draw(&self) -> (r: bool)
        requires
            self@.wf(),
        ensures
            r == self@.is_draw(),
            r <==> forall|c: int| 0 <= c < 7 ==> #[trigger] self@.board[idx(5, c)] is Some,
            r ==> forall|user: Seq<char>, c: int| !#[trigger] self@.can_play(user, c),
    {
        let mut c: usize = 0;
        while c < COLS
            invariant
                self@.wf(),
                c <= 7,
                forall|k: int| 0 <= k < c ==> #[trigger] self.board@[idx(5, k)] is Some,
            decreases 7 - c,
        {
            if self.board[(ROWS - 1) * COLS + c].is_none() {
                assert(self.board@[idx(5, c as int)] is None);
                return false;
            }
            c = c + 1;
        }
        proof {
            lemma_draw_iff_board_full(self@);
        }
        true
    }
}

} // verus!
