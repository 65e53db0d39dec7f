//! Four in a row, and the end of a game.
use vstd::prelude::*;

use super::{idx, Connect4Game, GameModel, COLS, ROWS};

verus! {

/// The `k`-th line of four cells in the order in which they are examined, as
/// `(row, column, row step, column step)` of its first cell: the 24 horizontal
/// lines row by row, then the 21 vertical ones, then the 12 diagonals going up
/// to the right, then the 12 diagonals going down to the right.
pub open spec fn line_start(k: int) -> (int, int, int, int) {
    if k < 24 {
        (k / 4, k % 4, 0, 1)
    } else if k < 45 {
        ((k - 24) / 7, (k - 24) % 7, 1, 0)
    } else if k < 57 {
        ((k - 45) / 4, (k - 45) % 4, 1, 1)
    } else {
        (3 + (k - 57) / 4, (k - 57) % 4, -1, 1)
    }
}

/// The number of lines of four cells on the board.
pub open spec fn num_lines() -> int {
    69
}

/// The owner of the four cells from `(r, c)` in steps of `(dr, dc)`, when they
/// all hold pieces of one player.
pub open spec fn line_owner(b: Seq<Option<bool>>, r: int, c: int, dr: int, dc: int) -> Option<bool> {
    let x = b[idx(r, c)];
    if x is Some && b[idx(r + dr, c + dc)] == x && b[idx(r + 2 * dr, c + 2 * dc)] == x && b[idx(
        r + 3 * dr,
        c + 3 * dc,
    )] == x {
        x
    } else {
        None
    }
}

/// The owner of the `k`-th line.
pub open spec fn owner_of_line(b: Seq<Option<bool>>, k: int) -> Option<bool> {
    let (r, c, dr, dc) = line_start(k);
    line_owner(b, r, c, dr, dc)
}

/// The owner of the first line from the `k`-th on that one player holds whole.
pub open spec fn first_winner(b: Seq<Option<bool>>, k: int) -> Option<bool>
    decreases num_lines() - k,
{
    if k >= num_lines() || k < 0 {
        None
    } else if owner_of_line(b, k) is Some {
        owner_of_line(b, k)
    } else {
        first_winner(b, k + 1)
    }
}

/// The winner of a board: the owner of the first line of four, in the order of
/// `line_start`, that one player holds whole.
pub open spec fn victory(b: Seq<Option<bool>>) -> Option<bool> {
    first_winner(b, 0)
}

/// Whether `p` holds four cells in a row, horizontally, vertically or
/// diagonally, anywhere on the board.
pub open spec fn has_four(b: Seq<Option<bool>>, p: bool) -> bool {
    exists|r: int, c: int, dr: int, dc: int|
        #![trigger line_owner(b, r, c, dr, dc)]
        is_line(r, c, dr, dc) && line_owner(b, r, c, dr, dc) == Some(p)
}

/// Four cells from `(r, c)` in steps of `(dr, dc)` lie on the board, in one of
/// the four directions.
pub open spec fn is_line(r: int, c: int, dr: int, dc: int) -> bool {
    ||| dr == 0 && dc == 1 && 0 <= r < 6 && 0 <= c < 4
    ||| dr == 1 && dc == 0 && 0 <= r < 3 && 0 <= c < 7
    ||| dr == 1 && dc == 1 && 0 <= r < 3 && 0 <= c < 4
    ||| dr == -1 && dc == 1 && 3 <= r < 6 && 0 <= c < 4
}

proof fn lemma_line_start_is_line(k: int)
    requires
        0 <= k < 69,
    ensures
        is_line(line_start(k).0, line_start(k).1, line_start(k).2, line_start(k).3),
{
}

proof fn lemma_line_index(r: int, c: int, dr: int, dc: int) -> (k: int)
    requires
        is_line(r, c, dr, dc),
    ensures
        0 <= k < 69,
        line_start(k) == (r, c, dr, dc),
{
    if dr == 0 {
        4 * r + c
    } else if dc == 0 {
        24 + 7 * r + c
    } else if dr == 1 {
        45 + 4 * r + c
    } else {
        57 + 4 * (r - 3) + c
    }
}

proof fn lemma_first_winner(b: Seq<Option<bool>>, k: int)
    requires
        0 <= k <= 69,
    ensures
        first_winner(b, k) is None <==> forall|j: int| k <= j < 69 ==> #[trigger] owner_of_line(b, j) is None,
        first_winner(b, k) is Some ==> exists|j: int| k <= j < 69 && #[trigger] owner_of_line(b, j) == first_winner(b, k),
    decreases 69 - k,
{
    if k < 69 {
        lemma_first_winner(b, k + 1);
        if owner_of_line(b, k) is None {
            assert forall|j: int| k <= j < 69 && (forall|i: int| k + 1 <= i < 69 ==> #[trigger] owner_of_line(b, i) is None) implies #[trigger] owner_of_line(b, j) is None by {
                if j > k {
                    assert(owner_of_line(b, j) is None);
                }
            }
        }
    }
}

/// The board has a winner exactly when a player holds four in a row, and the
/// winner holds four in a row.
pub proof fn lemma_victory_is_four_in_a_row(b: Seq<Option<bool>>)
    ensures
        victory(b) is None <==> (!has_four(b, true) && !has_four(b, false)),
        victory(b) matches Some(p) ==> has_four(b, p),
{
    lemma_first_winner(b, 0);
    if victory(b) is None {
        assert forall|p: bool| !has_four(b, p) by {
            if has_four(b, p) {
                let (r, c, dr, dc) = choose|r: int, c: int, dr: int, dc: int|
                    is_line(r, c, dr, dc) && line_owner(b, r, c, dr, dc) == Some(p);
                let k = lemma_line_index(r, c, dr, dc);
                assert(owner_of_line(b, k) is None);
            }
        }
    } else {
        let p = victory(b).unwrap();
        let j = choose|j: int| 0 <= j < 69 && #[trigger] owner_of_line(b, j) == victory(b);
        lemma_line_start_is_line(j);
        let (r, c, dr, dc) = line_start(j);
        assert(line_owner(b, r, c, dr, dc) == Some(p));
        assert(has_four(b, p));
    }
}

/// Whether two cells hold the same thing.
fn same_cell(x: Option<bool>, y: Option<bool>) -> (r: bool)
    ensures
        r == (x == y),
{
    match (x, y) {
        (None, None) => true,
        (Some(a), Some(b)) => a == b,
        _ => false,
    }
}

/// The owner of four cells when they all hold pieces of one player.
fn four_owner(a: Option<bool>, b: Option<bool>, c: Option<bool>, d: Option<bool>) -> (r: Option<bool>)
    ensures
        r == (if a is Some && b == a && c == a && d == a {
            a
        } else {
            None
        }),
{
    let mut acc = a;
    if !same_cell(acc, b) {
        acc = None;
    }
    if !same_cell(acc, c) {
        acc = None;
    }
    if !same_cell(acc, d) {
        acc = None;
    }
    acc
}

/// How a game ended: the name of its winner, or a draw.
#[derive(Debug)]
pub enum GameOver {
    Winner(String),
    Draw,
}

/// How a game ended, with the winner's name as a sequence of characters.
pub enum Outcome {
    Winner(Seq<char>),
    Draw,
}

impl View for GameOver {
    type V = Outcome;

    open spec fn view(&self) -> Outcome {
        match self {
            GameOver::Winner(name) => Outcome::Winner(name@),
            GameOver::Draw => Outcome::Draw,
        }
    }
}

impl Clone for GameOver {
    fn clone(&self) -> (r: Self)
        ensures
            r@ == self@,
    {
        match self {
            GameOver::Winner(name) => GameOver::Winner(name.clone()),
            GameOver::Draw => GameOver::Draw,
        }
    }
}

impl GameModel {
    /// How the game has ended, if it has: a winner when a player holds four in
    /// a row (the first user for `true`), else a draw when the top row is full.
    pub open spec fn outcome(self) -> Option<Outcome> {
        match victory(self.board) {
            Some(p) => Some(Outcome::Winner(if p { self.first } else { self.second })),
            None => if self.is_draw() {
                Some(Outcome::Draw)
            } else {
                None
            },
        }
    }
}

/// A player who holds four in a row has won, whatever the top row holds: the
/// winner is the only player with four in a row when just one has it, and a
/// game ends in a draw only when nobody holds four in a row and every top
/// cell is occupied. A game goes on exactly when nobody holds four in a row
/// and some top cell is empty.
pub proof fn lemma_four_in_a_row_wins(g: GameModel)
    ensures
        (has_four(g.board, true) || has_four(g.board, false)) ==> (g.outcome() matches Some(Outcome::Winner(w)) && (w == g.first || w == g.second)),
        has_four(g.board, true) && !has_four(g.board, false) ==> g.outcome() == Some(Outcome::Winner(g.first)),
        has_four(g.board, false) && !has_four(g.board, true) ==> g.outcome() == Some(Outcome::Winner(g.second)),
        g.outcome() == Some(Outcome::Draw) ==> !has_four(g.board, true) && !has_four(g.board, false) && forall|c: int|
            0 <= c < 7 ==> #[trigger] g.board[idx(5, c)] is Some,
        g.outcome() is None <==> !has_four(g.board, true) && !has_four(g.board, false) && exists|c: int|
            0 <= c < 7 && #[trigger] g.board[idx(5, c)] is None,
{
    lemma_victory_is_four_in_a_row(g.board);
    if g.outcome() is None {
        let c = choose|c: int| 0 <= c < 7 && !(#[trigger] g.board[idx(5, c)] is Some);
        assert(g.board[idx(5, c)] is None);
    }
}

impl Connect4Game {
    /// How the game has ended, if it has: the winner's name when a player holds
    /// four in a row, else a draw when the top row is full.
    pub fn is_gameover(&self) -> (r: Option<GameOver>)
        requires
            self@.wf(),
        ensures
            r matches Some(g) ==> self@.outcome() == Some(g@),
            r is None ==> self@.outcome() is None,
            (has_four(self@.board, true) || has_four(self@.board, false)) ==> (r matches Some(GameOver::Winner(w)) && (w@ == self@.first || w@ == self@.second)),
            r matches Some(GameOver::Draw) ==> !has_four(self@.board, true) && !has_four(self@.board, false) && forall|c: int|
                0 <= c < 7 ==> #[trigger] self@.board[idx(5, c)] is Some,
            r is None ==> !has_four(self@.board, true) && !has_four(self@.board, false) && exists|c: int|
                0 <= c < 7 && #[trigger] self@.board[idx(5, c)] is None,
    {
        proof {
            lemma_four_in_a_row_wins(self@);
        }
        if let Some(user0_wins) = self.check_victory() {
            return Some(GameOver::Winner(if user0_wins {
                self.users.0.clone()
            } else {
                self.users.1.clone()
            }));
        }
        if self.check_draw() {
            return Some(GameOver::Draw);
        }
        None
    }

    /// The winner of the board (`Some(true)` for the first user, `Some(false)`
    /// for the second), found by examining the lines of four in the order of
    /// `line_start`; `None` when no player holds four in a row.
    pub fn check_victory(&self) -> (r: Option<bool>)
        requires
            self@.wf(),
        ensures
            r == victory(self@.board),
    {
        let ghost b = self@.board;
        let mut i: usize = 0;
        while i < ROWS
            invariant
                b == self@.board,
                b.len() == 42,
                i <= 6,
                first_winner(b, 0) == first_winner(b, 4 * i),
            decreases 6 - i,
        {
            let mut j: usize = 0;
            while j <= COLS - 4
                invariant
                    b == self@.board,
                    b.len() == 42,
                    i < 6,
                    j <= 4,
                    first_winner(b, 0) == first_winner(b, 4 * i + j),
                decreases 4 - j,
            {
                let w = four_owner(
                    self.board[i * COLS + j],
                    self.board[i * COLS + j + 1],
                    self.board[i * COLS + j + 2],
                    self.board[i * COLS + j + 3],
                );
                assert(line_start(4 * i + j) == (i as int, j as int, 0int, 1int));
                if w.is_some() {
                    return w;
                }
                j = j + 1;
            }
            i = i + 1;
        }
        let mut i: usize = 0;
        while i <= ROWS - 4
            invariant
                b == self@.board,
                b.len() == 42,
                i <= 3,
                first_winner(b, 0) == first_winner(b, 24 + 7 * i),
            decreases 3 - i,
        {
            let mut j: usize = 0;
            while j < COLS
                invariant
                    b == self@.board,
                    b.len() == 42,
                    i < 3,
                    j <= 7,
                    first_winner(b, 0) == first_winner(b, 24 + 7 * i + j),
                decreases 7 - j,
            {
                let w = four_owner(
                    self.board[i * COLS + j],
                    self.board[(i + 1) * COLS + j],
                    self.board[(i + 2) * COLS + j],
                    self.board[(i + 3) * COLS + j],
                );
                assert(line_start(24 + 7 * i + j) == (i as int, j as int, 1int, 0int));
                if w.is_some() {
                    return w;
                }
                j = j + 1;
            }
            i = i + 1;
        }
        let mut i: usize = 0;
        while i <= ROWS - 4
            invariant
                b == self@.board,
                b.len() == 42,
                i <= 3,
                first_winner(b, 0) == first_winner(b, 45 + 4 * i),
            decreases 3 - i,
        {
            let mut j: usize = 0;
            while j <= COLS - 4
                invariant
                    b == self@.board,
                    b.len() == 42,
                    i < 3,
                    j <= 4,
                    first_winner(b, 0) == first_winner(b, 45 + 4 * i + j),
                decreases 4 - j,
            {
                let w = four_owner(
                    self.board[i * COLS + j],
                    self.board[(i + 1) * COLS + j + 1],
                    self.board[(i + 2) * COLS + j + 2],
                    self.board[(i + 3) * COLS + j + 3],
                );
                assert(line_start(45 + 4 * i + j) == (i as int, j as int, 1int, 1int));
                if w.is_some() {
                    return w;
                }
                j = j + 1;
            }
            i = i + 1;
        }
        let mut i: usize = 3;
        while i < ROWS
            invariant
                b == self@.board,
                b.len() == 42,
                3 <= i <= 6,
                first_winner(b, 0) == first_winner(b, 57 + 4 * (i - 3)),
            decreases 6 - i,
        {
            let mut j: usize = 0;
            while j <= COLS - 4
                invariant
                    b == self@.board,
                    b.len() == 42,
                    3 <= i < 6,
                    j <= 4,
                    first_winner(b, 0) == first_winner(b, 57 + 4 * (i - 3) + j),
                decreases 4 - j,
            {
                let w = four_owner(
                    self.board[i * COLS + j],
                    self.board[(i - 1) * COLS + j + 1],
                    self.board[(i - 2) * COLS + j + 2],
                    self.board[(i - 3) * COLS + j + 3],
                );
                assert(line_start(57 + 4 * (i - 3) + j) == (i as int, j as int, -1int, 1int));
                if w.is_some() {
                    return w;
                }
                j = j + 1;
            }
            i = i + 1;
        }
        None
    }
}

} // verus!
