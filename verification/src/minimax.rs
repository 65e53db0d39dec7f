//! The computer opponent: a minimax search over the moves of a game.
use vstd::prelude::*;

use rayon::iter::IndexedParallelIterator;
use rayon::iter::IntoParallelIterator;
use rayon::iter::ParallelIterator;

use crate::game::victory::Outcome;
use crate::game::{idx, lemma_height_below, Connect4Game, GameModel, COLS};

verus! {

/// How many moves ahead the search looks.
pub const SEARCH_TREE_MAX_DEPTH: usize = 6;

/// The value of a position for the player who just moved, when the rival is to
/// move next and picks the move that is worst for that player, looking `depth`
/// moves ahead: a win found now is worth `1 + depth` (earlier wins are worth
/// more), a draw or the end of the search 0.
pub open spec fn min_score(g: GameModel, depth: nat) -> int
    decreases depth, 8nat,
{
    match g.outcome() {
        Some(Outcome::Winner(_)) => 1 + depth as int,
        Some(Outcome::Draw) => 0,
        None => if depth == 0 {
            0
        } else {
            min_over(g, depth, 7)
        },
    }
}

/// The smallest `max_score` over the legal moves among the first `n` columns,
/// or `i64::MAX` when there is none.
pub open spec fn min_over(g: GameModel, depth: nat, n: nat) -> int
    decreases depth, n,
{
    if depth == 0 || n == 0 {
        i64::MAX as int
    } else {
        let prev = min_over(g, depth, (n - 1) as nat);
        match g.play_no_user(n - 1) {
            Some(g2) => {
                let s = max_score(g2, (depth - 1) as nat);
                if s < prev {
                    s
                } else {
                    prev
                }
            },
            None => prev,
        }
    }
}

/// The value of a position for the player to move, looking `depth` moves ahead:
/// a win just reached by the rival is worth `-(1 + depth)`, a draw or the end of
/// the search 0; otherwise the best `min_score` over the legal moves.
pub open spec fn max_score(g: GameModel, depth: nat) -> int
    decreases depth, 8nat,
{
    match g.outcome() {
        Some(Outcome::Winner(_)) => -1 * (1 + depth as int),
        Some(Outcome::Draw) => 0,
        None => if depth == 0 {
            0
        } else {
            max_over(g, depth, 7)
        },
    }
}

/// The largest `min_score` over the legal moves among the first `n` columns,
/// or `i64::MIN` when there is none.
pub open spec fn max_over(g: GameModel, depth: nat, n: nat) -> int
    decreases depth, n,
{
    if depth == 0 || n == 0 {
        i64::MIN as int
    } else {
        let prev = max_over(g, depth, (n - 1) as nat);
        match g.play_no_user(n - 1) {
            Some(g2) => {
                let s = min_score(g2, (depth - 1) as nat);
                if s > prev {
                    s
                } else {
                    prev
                }
            },
            None => prev,
        }
    }
}

/// The score of dropping a piece into column `c` for the player to move, or
/// `None` when that move is refused.
pub open spec fn column_score(g: GameModel, c: int) -> Option<int> {
    match g.play_no_user(c) {
        Some(g2) => Some(min_score(g2, SEARCH_TREE_MAX_DEPTH as nat)),
        None => None,
    }
}

/// The best score over the legal moves among the first `n` columns, or
/// `i64::MIN` when there is none.
pub open spec fn best_score(g: GameModel, n: nat) -> int
    decreases n,
{
    if n == 0 {
        i64::MIN as int
    } else {
        let prev = best_score(g, (n - 1) as nat);
        match column_score(g, n - 1) {
            Some(s) => if s > prev {
                s
            } else {
                prev
            },
            None => prev,
        }
    }
}

/// Whether `c` is one of the moves with the best score.
pub open spec fn is_best_move(g: GameModel, c: int) -> bool {
    0 <= c < 7 && column_score(g, c) == Some(best_score(g, 7))
}

/// Whether the player to move has a legal move.
pub open spec fn has_move(g: GameModel) -> bool {
    exists|c: int| 0 <= c < 7 && #[trigger] g.play_no_user(c) is Some
}

/// Whether `x` is what `score_column` gives for column `c`.
pub open spec fn scored(g: GameModel, c: int, x: Option<(i64, u8)>) -> bool {
    match x {
        Some((s, cc)) => cc == c && column_score(g, c) == Some(s as int),
        None => column_score(g, c) is None,
    }
}

/// The columns among the first `n` whose move scores `m`, in increasing order.
pub open spec fn columns_scoring(g: GameModel, n: nat, m: int) -> Seq<u8>
    decreases n,
{
    if n == 0 {
        Seq::empty()
    } else {
        let prev = columns_scoring(g, (n - 1) as nat, m);
        if column_score(g, n - 1) == Some(m) {
            prev.push((n - 1) as u8)
        } else {
            prev
        }
    }
}

/// The moves with the best score, in increasing column order.
pub open spec fn best_columns(g: GameModel) -> Seq<u8> {
    columns_scoring(g, 7, best_score(g, 7))
}

proof fn lemma_columns_scoring(g: GameModel, n: nat, m: int)
    requires
        n <= 7,
    ensures
        forall|j: int|
            0 <= j < columns_scoring(g, n, m).len() ==> (#[trigger] columns_scoring(g, n, m)[j]) < n
                && column_score(g, columns_scoring(g, n, m)[j] as int) == Some(m),
        forall|c: int| 0 <= c < n && column_score(g, c) == Some(m) ==> columns_scoring(g, n, m).len() > 0,
    decreases n,
{
    if n > 0 {
        lemma_columns_scoring(g, (n - 1) as nat, m);
        let prev = columns_scoring(g, (n - 1) as nat, m);
        let cur = columns_scoring(g, n, m);
        assert forall|j: int| 0 <= j < cur.len() implies (#[trigger] cur[j]) < n && column_score(g, cur[j] as int) == Some(m) by {
            if j < prev.len() {
                assert(cur[j] == prev[j]);
            }
        }
    }
}

proof fn lemma_best_score_bounds(g: GameModel, n: nat)
    requires
        n <= 7,
    ensures
        forall|c: int| 0 <= c < n && #[trigger] column_score(g, c) is Some ==> column_score(g, c)->0 <= best_score(g, n),
    decreases n,
{
    if n > 0 {
        lemma_best_score_bounds(g, (n - 1) as nat);
    }
}

proof fn lemma_columns_scoring_contains(g: GameModel, n: nat, m: int, c: int)
    requires
        n <= 7,
        0 <= c < 7,
    ensures
        columns_scoring(g, n, m).contains(c as u8) <==> (c < n && column_score(g, c) == Some(m)),
    decreases n,
{
    if n > 0 {
        lemma_columns_scoring_contains(g, (n - 1) as nat, m, c);
        lemma_columns_scoring(g, (n - 1) as nat, m);
        let prev = columns_scoring(g, (n - 1) as nat, m);
        let cur = columns_scoring(g, n, m);
        if column_score(g, n - 1) == Some(m) {
            assert(cur == prev.push((n - 1) as u8));
            if c == n - 1 {
                assert(cur[prev.len() as int] == c as u8);
            } else if cur.contains(c as u8) {
                let j = choose|j: int| 0 <= j < cur.len() && cur[j] == c as u8;
                assert(j < prev.len());
                assert(prev[j] == c as u8);
            } else if prev.contains(c as u8) {
                let j = choose|j: int| 0 <= j < prev.len() && prev[j] == c as u8;
                assert(cur[j] == c as u8);
            }
        } else {
            assert(cur == prev);
        }
    } else {
        assert(columns_scoring(g, 0, m) =~= Seq::<u8>::empty());
    }
}

/// The moves with the best score are exactly the legal moves that no legal
/// move outscores: a move that scores more than every other, such as the only
/// immediate win, is always among them.
pub proof fn lemma_best_columns_are_top_scorers(g: GameModel, c: int)
    requires
        0 <= c < 7,
    ensures
        best_columns(g).contains(c as u8) <==> (column_score(g, c) is Some && forall|c2: int|
            0 <= c2 < 7 && #[trigger] column_score(g, c2) is Some ==> column_score(g, c2)->0 <= column_score(g, c)->0),
{
    lemma_columns_scoring_contains(g, 7, best_score(g, 7), c);
    lemma_best_score_bounds(g, 7);
    if column_score(g, c) is Some && forall|c2: int|
        0 <= c2 < 7 && #[trigger] column_score(g, c2) is Some ==> column_score(g, c2)->0 <= column_score(g, c)->0 {
        lemma_best_score_achieved(g, 7);
        let c2 = choose|c2: int| 0 <= c2 < 7 && #[trigger] column_score(g, c2) == Some(best_score(g, 7));
        assert(column_score(g, c2) is Some);
    }
}

/// A best move scores at least as much as every legal move.
pub proof fn lemma_best_move_dominates(g: GameModel, col: int, c: int)
    requires
        is_best_move(g, col),
        0 <= c < 7,
        column_score(g, c) is Some,
    ensures
        column_score(g, c)->0 <= column_score(g, col)->0,
{
    lemma_best_score_bounds(g, 7);
}

proof fn lemma_min_score_range(g: GameModel, depth: nat)
    ensures
        i64::MIN <= min_score(g, depth) <= i64::MAX || depth >= i64::MAX,
        i64::MIN <= max_score(g, depth) <= i64::MAX || depth >= i64::MAX,
    decreases depth,
{
    if depth > 0 {
        lemma_over_range(g, depth, 7);
    }
}

proof fn lemma_over_range(g: GameModel, depth: nat, n: nat)
    requires
        depth > 0,
    ensures
        i64::MIN <= min_over(g, depth, n) <= i64::MAX || depth >= i64::MAX,
        i64::MIN <= max_over(g, depth, n) <= i64::MAX || depth >= i64::MAX,
    decreases depth, n,
{
    if n > 0 {
        lemma_over_range(g, depth, (n - 1) as nat);
        if let Some(g2) = g.play_no_user(n - 1) {
            lemma_min_score_range(g2, (depth - 1) as nat);
        }
    }
}

proof fn lemma_best_score_none(g: GameModel, n: nat)
    requires
        forall|c: int| 0 <= c < n ==> #[trigger] column_score(g, c) is None,
    ensures
        best_score(g, n) == i64::MIN,
    decreases n,
{
    if n > 0 {
        lemma_best_score_none(g, (n - 1) as nat);
    }
}

proof fn lemma_best_score_achieved(g: GameModel, n: nat)
    requires
        exists|c: int| 0 <= c < n && #[trigger] column_score(g, c) is Some,
    ensures
        exists|c: int| 0 <= c < n && #[trigger] column_score(g, c) == Some(best_score(g, n)),
    decreases n,
{
    let prev = best_score(g, (n - 1) as nat);
    if exists|c: int| 0 <= c < n - 1 && #[trigger] column_score(g, c) is Some {
        lemma_best_score_achieved(g, (n - 1) as nat);
        let c = choose|c: int| 0 <= c < n - 1 && #[trigger] column_score(g, c) == Some(prev);
        if best_score(g, n) == prev {
            assert(column_score(g, c) == Some(best_score(g, n)));
        } else {
            assert(column_score(g, n - 1) == Some(best_score(g, n)));
        }
    } else {
        lemma_best_score_none(g, (n - 1) as nat);
        lemma_min_score_range(g.play_no_user(n - 1).unwrap(), SEARCH_TREE_MAX_DEPTH as nat);
        assert(column_score(g, n - 1) == Some(best_score(g, n)));
    }
}

/// With two users of different names, dropping a piece into a column is legal
/// for the player to move exactly when the column's top cell is empty.
pub proof fn lemma_legal_iff_top_empty(g: GameModel, c: int)
    requires
        g.wf(),
        g.first != g.second,
        0 <= c < 7,
    ensures
        g.play_no_user(c) is Some <==> g.board[idx(5, c)] is None,
{
    lemma_height_below(g.board, c, 5);
}

/// Between two users of different names, a game is drawn (its top row full)
/// exactly when the player to move has no legal move.
pub proof fn lemma_draw_iff_no_move(g: GameModel)
    requires
        g.wf(),
        g.first != g.second,
    ensures
        g.is_draw() <==> !has_move(g),
{
    assert forall|c: int| 0 <= c < 7 implies (#[trigger] g.play_no_user(c) is Some <==> g.board[idx(5, c)] is None) by {
        lemma_legal_iff_top_empty(g, c);
    }
    if !g.is_draw() {
        let c = choose|c: int| 0 <= c < 7 && !(#[trigger] g.board[idx(5, c)] is Some);
        assert(g.play_no_user(c) is Some);
    }
    if has_move(g) {
        let c = choose|c: int| 0 <= c < 7 && #[trigger] g.play_no_user(c) is Some;
        assert(g.board[idx(5, c)] is None);
    }
}

/// A game that is not over, between two users of different names, has a legal move.
proof fn lemma_not_over_has_move(g: GameModel)
    requires
        g.wf(),
        g.first != g.second,
        g.outcome() is None,
    ensures
        exists|c: int| 0 <= c < 7 && #[trigger] g.play_no_user(c) is Some,
{
    let c = choose|c: int| 0 <= c < 7 && !(#[trigger] g.board[idx(5, c)] is Some);
    lemma_legal_iff_top_empty(g, c);
}

proof fn lemma_over_neg(g: GameModel, d: nat, n: nat)
    requires
        0 < d <= i64::MAX,
        n <= 7,
        g.wf(),
        g.first != g.second,
    ensures
        (exists|c: int| 0 <= c < n && #[trigger] g.play_no_user(c) is Some) ==> min_over(g, d, n) == -max_over(g, d, n),
        (forall|c: int| 0 <= c < n ==> #[trigger] g.play_no_user(c) is None) ==> min_over(g, d, n) == i64::MAX
            && max_over(g, d, n) == i64::MIN,
    decreases d, n,
{
    if n > 0 {
        lemma_over_neg(g, d, (n - 1) as nat);
        if let Some(g2) = g.play_no_user(n - 1) {
            crate::game::lemma_undo_after_play(g, g.current_user(), n - 1);
            lemma_min_score_neg_max_score(g2, (d - 1) as nat);
            lemma_min_score_range(g2, (d - 1) as nat);
        }
        if exists|c: int| 0 <= c < n && #[trigger] g.play_no_user(c) is Some {
            if g.play_no_user(n - 1) is None {
                let c = choose|c: int| 0 <= c < n && #[trigger] g.play_no_user(c) is Some;
                assert(c < n - 1);
            }
        }
    }
}

/// The value of a position for the player who just moved is the opposite of
/// its value for the player to move: `minscore` is `-maxscore` (between two
/// users of different names).
pub proof fn lemma_min_score_neg_max_score(g: GameModel, d: nat)
    requires
        g.wf(),
        g.first != g.second,
        d <= i64::MAX,
        d < i64::MAX || g.outcome() is None,
    ensures
        min_score(g, d) == -max_score(g, d),
    decreases d, 8nat,
{
    if g.outcome() is None && d > 0 {
        lemma_not_over_has_move(g);
        lemma_over_neg(g, d, 7);
    }
}

proof fn lemma_over_bounds(g: GameModel, d: nat, n: nat)
    requires
        0 < d <= i64::MAX,
        n <= 7,
    ensures
        forall|c: int|
            0 <= c < n && #[trigger] g.play_no_user(c) is Some ==> min_over(g, d, n) <= max_score(
                g.play_no_user(c).unwrap(),
                (d - 1) as nat,
            ) && max_over(g, d, n) >= min_score(g.play_no_user(c).unwrap(), (d - 1) as nat),
        (exists|c: int| 0 <= c < n && #[trigger] g.play_no_user(c) is Some) ==> {
            &&& exists|c: int|
                0 <= c < n && #[trigger] g.play_no_user(c) is Some && min_over(g, d, n) == max_score(
                    g.play_no_user(c).unwrap(),
                    (d - 1) as nat,
                )
            &&& exists|c: int|
                0 <= c < n && #[trigger] g.play_no_user(c) is Some && max_over(g, d, n) == min_score(
                    g.play_no_user(c).unwrap(),
                    (d - 1) as nat,
                )
        },
    decreases n,
{
    if n > 0 {
        lemma_over_bounds(g, d, (n - 1) as nat);
        if exists|c: int| 0 <= c < n && #[trigger] g.play_no_user(c) is Some {
            if exists|c: int| 0 <= c < n - 1 && #[trigger] g.play_no_user(c) is Some {
                let c1 = choose|c: int|
                    0 <= c < n - 1 && #[trigger] g.play_no_user(c) is Some && min_over(g, d, (n - 1) as nat)
                        == max_score(g.play_no_user(c).unwrap(), (d - 1) as nat);
                let c2 = choose|c: int|
                    0 <= c < n - 1 && #[trigger] g.play_no_user(c) is Some && max_over(g, d, (n - 1) as nat)
                        == min_score(g.play_no_user(c).unwrap(), (d - 1) as nat);
                if min_over(g, d, n) == min_over(g, d, (n - 1) as nat) {
                    assert(g.play_no_user(c1) is Some);
                } else {
                    assert(g.play_no_user(n - 1) is Some);
                }
                if max_over(g, d, n) == max_over(g, d, (n - 1) as nat) {
                    assert(g.play_no_user(c2) is Some);
                } else {
                    assert(g.play_no_user(n - 1) is Some);
                }
            } else {
                assert(g.play_no_user(n - 1) is Some);
                lemma_over_none(g, d, (n - 1) as nat);
                lemma_min_score_range(g.play_no_user(n - 1).unwrap(), (d - 1) as nat);
                assert(min_over(g, d, n) == max_score(g.play_no_user(n - 1).unwrap(), (d - 1) as nat));
                assert(max_over(g, d, n) == min_score(g.play_no_user(n - 1).unwrap(), (d - 1) as nat));
            }
        }
    }
}

proof fn lemma_over_none(g: GameModel, d: nat, n: nat)
    requires
        d > 0,
        forall|c: int| 0 <= c < n ==> #[trigger] g.play_no_user(c) is None,
    ensures
        min_over(g, d, n) == i64::MAX,
        max_over(g, d, n) == i64::MIN,
    decreases n,
{
    if n > 0 {
        lemma_over_none(g, d, (n - 1) as nat);
    }
}

/// In a game between two users of different names that is not over, the value
/// for the player who just moved, `d > 0` moves ahead, is the smallest value
/// for the rival over the columns whose top cell is empty, and the value for the
/// player to move is the largest value for the other over those columns.
pub proof fn lemma_scores_over_open_columns(g: GameModel, d: nat)
    requires
        g.wf(),
        g.first != g.second,
        g.outcome() is None,
        0 < d <= i64::MAX,
    ensures
        forall|c: int|
            0 <= c < 7 && #[trigger] g.board[idx(5, c)] is None ==> min_score(g, d) <= max_score(
                g.play_no_user(c).unwrap(),
                (d - 1) as nat,
            ) && max_score(g, d) >= min_score(g.play_no_user(c).unwrap(), (d - 1) as nat),
        exists|c: int|
            0 <= c < 7 && #[trigger] g.board[idx(5, c)] is None && min_score(g, d) == max_score(
                g.play_no_user(c).unwrap(),
                (d - 1) as nat,
            ),
        exists|c: int|
            0 <= c < 7 && #[trigger] g.board[idx(5, c)] is None && max_score(g, d) == min_score(
                g.play_no_user(c).unwrap(),
                (d - 1) as nat,
            ),
{
    lemma_not_over_has_move(g);
    lemma_over_bounds(g, d, 7);
    assert forall|c: int| 0 <= c < 7 implies (#[trigger] g.board[idx(5, c)] is None <==> g.play_no_user(c) is Some) by {
        lemma_legal_iff_top_empty(g, c);
    }
    let c1 = choose|c: int|
        0 <= c < 7 && #[trigger] g.play_no_user(c) is Some && min_over(g, d, 7) == max_score(
            g.play_no_user(c).unwrap(),
            (d - 1) as nat,
        );
    let c2 = choose|c: int|
        0 <= c < 7 && #[trigger] g.play_no_user(c) is Some && max_over(g, d, 7) == min_score(
            g.play_no_user(c).unwrap(),
            (d - 1) as nat,
        );
    assert(g.board[idx(5, c1)] is None);
    assert(g.board[idx(5, c2)] is None);
}

/// The score of dropping a piece into column `col` for the player to move, with
/// the column, or `None` when that move is refused.
pub fn score_column(game: &Connect4Game, col: usize) -> (r: Option<(i64, u8)>)
    requires
        game@.wf(),
        col < COLS,
    ensures
        scored(game@, col as int, r),
{
    let col = col as u8;
    let ghost old_g = game@;
    let mut game = game.clone();
    if !game.play_no_user(col) {
        return None;
    }
    proof {
        crate::game::lemma_undo_after_play(old_g, old_g.current_user(), col as int);
    }
    let score = minscore(&mut game, SEARCH_TREE_MAX_DEPTH);
    Some((score, col))
}

/// Calls rayon's `into_par_iter` on the columns `0..COLS`, then `map` with
/// `score_column`, then `collect_into_vec`: the results of `score_column` for
/// every column, computed in parallel and collected in column order (as rayon
/// documents for `collect_into_vec` on an indexed iterator).
#[verifier::external_body]
fn column_scores(game: &Connect4Game) -> (r: Vec<Option<(i64, u8)>>)
    requires
        game@.wf(),
    ensures
        r@.len() == 7,
        forall|c: int| 0 <= c < 7 ==> scored(game@, c, #[trigger] r@[c]),
{
    let mut scores = Vec::new();
    (0..COLS).into_par_iter().map(|col| score_column(game, col)).collect_into_vec(&mut scores);
    scores
}

/// Picks the computer's move and plays it: `None` (and nothing changes) when the
/// game is over; otherwise one of the moves with the best score, drawn at
/// random among them (see `best_move_with`), which is then played.
pub fn best_move(game: &mut Connect4Game) -> (r: Option<u8>)
    requires
        old(game)@.wf(),
        old(game)@.outcome() is Some || has_move(old(game)@),
    ensures
        r is None <==> old(game)@.outcome() is Some,
        r is None ==> final(game)@ == old(game)@,
        r matches Some(col) ==> is_best_move(old(game)@, col as int) && final(game)@
            == old(game)@.play_no_user(col as int).unwrap(),
        r matches Some(col) ==> forall|c: int|
            0 <= c < 7 && #[trigger] column_score(old(game)@, c) is Some ==> column_score(old(game)@, c)->0
                <= column_score(old(game)@, col as int)->0,
{
    if game.is_gameover().is_some() {
        return None;
    }
    let draw = crate::random::random_usize();
    best_move_with(game, draw)
}

/// Picks the computer's move for the number `draw` and plays it: `None` (and
/// nothing changes) when the game is over; otherwise, of the moves with the best
/// score in increasing column order, the one at position `draw` modulo their
/// number, which is then played.
pub fn best_move_with(game: &mut Connect4Game, draw: usize) -> (r: Option<u8>)
    requires
        old(game)@.wf(),
        old(game)@.outcome() is Some || has_move(old(game)@),
    ensures
        r is None <==> old(game)@.outcome() is Some,
        r is None ==> final(game)@ == old(game)@,
        r matches Some(col) ==> {
            let best = best_columns(old(game)@);
            &&& best.len() > 0
            &&& col == best[draw as int % best.len() as int]
            &&& is_best_move(old(game)@, col as int)
            &&& final(game)@ == old(game)@.play_no_user(col as int).unwrap()
            &&& forall|c: int|
                0 <= c < 7 && #[trigger] column_score(old(game)@, c) is Some ==> column_score(old(game)@, c)->0
                    <= column_score(old(game)@, col as int)->0
        },
{
    if game.is_gameover().is_some() {
        return None;
    }
    let ghost g = game@;
    let results = column_scores(game);
    let mut max_score = i64::MIN;
    for i in 0..COLS
        invariant
            g == game@,
            results@.len() == 7,
            forall|c: int| 0 <= c < 7 ==> scored(g, c, #[trigger] results@[c]),
            max_score == best_score(g, i as nat),
    {
        if let Some((s, _)) = results[i] {
            assert(scored(g, i as int, results@[i as int]));
            if s > max_score {
                max_score = s;
            }
        }
    }
    let mut possible_moves: Vec<u8> = Vec::new();
    for i in 0..COLS
        invariant
            g == game@,
            results@.len() == 7,
            forall|c: int| 0 <= c < 7 ==> scored(g, c, #[trigger] results@[c]),
            max_score == best_score(g, 7),
            possible_moves@ == columns_scoring(g, i as nat, max_score as int),
    {
        if let Some((s, c)) = results[i] {
            assert(scored(g, i as int, results@[i as int]));
            if s == max_score {
                possible_moves.push(c);
            }
        }
    }
    proof {
        let c = choose|c: int| 0 <= c < 7 && #[trigger] g.play_no_user(c) is Some;
        assert(column_score(g, c) is Some);
        lemma_best_score_achieved(g, 7);
        lemma_columns_scoring(g, 7, best_score(g, 7));
    }
    let i = draw % possible_moves.len();
    let col = possible_moves[i];
    proof {
        assert(possible_moves@[i as int] == col);
    }
    game.play_no_user(col);
    proof {
        lemma_best_score_bounds(g, 7);
    }
    Some(col)
}

/// The value of a position for the player who just moved (see `min_score`).
/// The game is left as it was.
pub fn minscore(game: &mut Connect4Game, depth: usize) -> (r: i64)
    requires
        old(game)@.wf(),
        depth <= i64::MAX,
        depth < i64::MAX || old(game)@.outcome() is None,
    ensures
        r == min_score(old(game)@, depth as nat),
        final(game)@ == old(game)@,
    decreases depth,
{
    if let Some(game_over) = game.is_gameover() {
        assert(depth < i64::MAX);
        return match game_over {
            crate::game::victory::GameOver::Winner(_) => 1 + depth as i64,
            crate::game::victory::GameOver::Draw => 0,
        };
    }
    if depth == 0 {
        return 0;
    }
    let ghost g0 = game@;
    let mut best_score = i64::MAX;
    for col in 0..COLS
        invariant
            game@ == g0,
            g0.wf(),
            g0.outcome() is None,
            0 < depth <= i64::MAX,
            best_score == min_over(g0, depth as nat, col as nat),
    {
        let col = col as u8;
        if game.play_no_user(col) {
            proof {
                crate::game::lemma_undo_after_play(g0, g0.current_user(), col as int);
            }
            let score = maxscore(game, depth - 1);
            if score < best_score {
                best_score = score;
            }
            game.undo_play(col);
        }
    }
    best_score
}

/// The value of a position for the player to move (see `max_score`).
/// The game is left as it was.
pub fn maxscore(game: &mut Connect4Game, depth: usize) -> (r: i64)
    requires
        old(game)@.wf(),
        depth <= i64::MAX,
        depth < i64::MAX || old(game)@.outcome() is None,
    ensures
        r == max_score(old(game)@, depth as nat),
        final(game)@ == old(game)@,
    decreases depth,
{
    if let Some(game_over) = game.is_gameover() {
        assert(depth < i64::MAX);
        return match game_over {
            crate::game::victory::GameOver::Winner(_) => -(1 + depth as i64),
            crate::game::victory::GameOver::Draw => 0,
        };
    }
    if depth == 0 {
        return 0;
    }
    let ghost g0 = game@;
    let mut best_score = i64::MIN;
    for col in 0..COLS
        invariant
            game@ == g0,
            g0.wf(),
            g0.outcome() is None,
            0 < depth <= i64::MAX,
            best_score == max_over(g0, depth as nat, col as nat),
    {
        let col = col as u8;
        if game.play_no_user(col) {
            proof {
                crate::game::lemma_undo_after_play(g0, g0.current_user(), col as int);
            }
            let score = minscore(game, depth - 1);
            if score > best_score {
                best_score = score;
            }
            game.undo_play(col);
        }
    }
    best_score
}

} // verus!
