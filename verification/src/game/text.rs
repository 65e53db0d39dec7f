//! The text form of a board: one line per row, from the top row down, with
//! `.` for an empty cell, `T` for a piece of the first user and `F` for one of
//! the second.
use vstd::prelude::*;

use vstd::string::StrSliceExecFns;

use super::{idx, Connect4Game, GameModel, COLS, ROWS};

verus! {

/// The character that shows a cell.
pub open spec fn cell_char(x: Option<bool>) -> char {
    match x {
        None => '.',
        Some(false) => 'F',
        Some(true) => 'T',
    }
}

/// The cell that a character of the text form stands for.
pub open spec fn char_cell(ch: char) -> Option<bool> {
    if ch == 'T' {
        Some(true)
    } else if ch == 'F' {
        Some(false)
    } else {
        None
    }
}

/// Whether a character may stand in a row of the text form.
pub open spec fn is_cell_char(ch: char) -> bool {
    ch == '.' || ch == 'T' || ch == 'F'
}

/// Row `r` of the board as a line of text, with its line feed.
pub open spec fn row_text(b: Seq<Option<bool>>, r: int) -> Seq<char> {
    Seq::new(7, |c: int| cell_char(b[idx(r, c)])).push('\n')
}

/// The top `n` rows of the board as text, from the top row down.
pub open spec fn rows_text(b: Seq<Option<bool>>, n: nat) -> Seq<char>
    decreases n,
{
    if n == 0 {
        Seq::empty()
    } else {
        rows_text(b, (n - 1) as nat) + row_text(b, 6 - n)
    }
}

/// The whole board as text.
pub open spec fn board_text(b: Seq<Option<bool>>) -> Seq<char> {
    rows_text(b, 6)
}

/// The index of the first line feed of `s` from index `i` on, or the length of `s`.
pub open spec fn next_newline(s: Seq<char>, i: int) -> int
    decreases s.len() - i,
{
    if i >= s.len() {
        s.len() as int
    } else if s[i] == '\n' {
        i
    } else {
        next_newline(s, i + 1)
    }
}

pub proof fn lemma_next_newline(s: Seq<char>, i: int)
    requires
        0 <= i,
    ensures
        i <= next_newline(s, i) || i > s.len(),
        next_newline(s, i) <= s.len(),
        next_newline(s, i) < s.len() ==> s[next_newline(s, i)] == '\n',
        forall|j: int| i <= j < next_newline(s, i) ==> s[j] != '\n',
    decreases s.len() - i,
{
    if i < s.len() && s[i] != '\n' {
        lemma_next_newline(s, i + 1);
    }
}

proof fn lemma_next_newline_is(s: Seq<char>, i: int, e: int)
    requires
        0 <= i <= e < s.len(),
        s[e] == '\n',
        forall|j: int| i <= j < e ==> s[j] != '\n',
    ensures
        next_newline(s, i) == e,
    decreases e - i,
{
    if i < e {
        lemma_next_newline_is(s, i + 1, e);
    }
}

/// The line that starts at index `i` of `s`, without its line ending (a line
/// feed, or a carriage return and a line feed), as `str::lines` gives it.
pub open spec fn line_at(s: Seq<char>, i: int) -> Seq<char> {
    let e = next_newline(s, i);
    if e < s.len() && e > i && s[e - 1] == '\r' {
        s.subrange(i, e - 1)
    } else {
        s.subrange(i, e)
    }
}

/// The lines of `s` from index `i` on, as `str::lines` splits them: at each line
/// feed, with a carriage return just before it taken off, and no empty line
/// after a final line feed.
pub open spec fn lines_from(s: Seq<char>, i: int) -> Seq<Seq<char>>
    decreases s.len() - i,
{
    if i >= s.len() || i < 0 {
        Seq::empty()
    } else {
        proof {
            lemma_next_newline(s, i);
        }
        let e = next_newline(s, i);
        if e < s.len() {
            seq![line_at(s, i)] + lines_from(s, e + 1)
        } else {
            seq![line_at(s, i)]
        }
    }
}

/// The lines of `s`.
pub open spec fn lines(s: Seq<char>) -> Seq<Seq<char>> {
    lines_from(s, 0)
}

/// Whether `s` can be read as a board: every character of every line stands
/// for a cell, there are at least 6 lines, and each of the last 6 has at least
/// 7 characters.
pub open spec fn is_board_text(s: Seq<char>) -> bool {
    let ls = lines(s);
    &&& forall|i: int, j: int| 0 <= i < ls.len() && 0 <= j < ls[i].len() ==> is_cell_char(#[trigger] ls[i][j])
    &&& ls.len() >= 6
    &&& forall|r: int| 0 <= r < 6 ==> #[trigger] ls[ls.len() - 1 - r].len() >= 7
}

/// The board that a text stands for: the last line is the bottom row, the one
/// above it the next row, and so on; the first 7 characters of each line count.
pub open spec fn text_board(s: Seq<char>) -> Seq<Option<bool>> {
    let ls = lines(s);
    Seq::new(42, |k: int| char_cell(ls[ls.len() - 1 - k / 7][k % 7]))
}

proof fn lemma_rows_text(b: Seq<Option<bool>>, n: nat)
    requires
        n <= 6,
    ensures
        rows_text(b, n).len() == 8 * n,
        forall|k: int, c: int|
            0 <= k < n && 0 <= c < 7 ==> #[trigger] rows_text(b, n)[8 * k + c] == cell_char(
                b[idx(5 - k, c)],
            ),
        forall|k: int| 0 <= k < n ==> #[trigger] rows_text(b, n)[8 * k + 7] == '\n',
    decreases n,
{
    if n > 0 {
        lemma_rows_text(b, (n - 1) as nat);
        let prev = rows_text(b, (n - 1) as nat);
        let row = row_text(b, 6 - n);
        assert forall|k: int, c: int| 0 <= k < n && 0 <= c < 7 implies #[trigger] rows_text(b, n)[8 * k
            + c] == cell_char(b[idx(5 - k, c)]) by {
            if k < n - 1 {
                assert(rows_text(b, n)[8 * k + c] == prev[8 * k + c]);
            } else {
                assert(rows_text(b, n)[8 * k + c] == row[c]);
            }
        }
        assert forall|k: int| 0 <= k < n implies #[trigger] rows_text(b, n)[8 * k + 7] == '\n' by {
            if k < n - 1 {
                assert(rows_text(b, n)[8 * k + 7] == prev[8 * k + 7]);
            } else {
                assert(rows_text(b, n)[8 * k + 7] == row[7]);
            }
        }
    }
}

/// The row of the board whose line starts the `k`-th from the top.
spec fn row_line(b: Seq<Option<bool>>, r: int) -> Seq<char> {
    Seq::new(7, |c: int| cell_char(b[idx(r, c)]))
}

proof fn lemma_text_lines(b: Seq<Option<bool>>, k: int)
    requires
        0 <= k <= 6,
    ensures
        lines_from(board_text(b), 8 * k) == Seq::new((6 - k) as nat, |j: int| row_line(b, 5 - k - j)),
    decreases 6 - k,
{
    let t = board_text(b);
    lemma_rows_text(b, 6);
    if k < 6 {
        lemma_text_lines(b, k + 1);
        assert forall|j: int| 8 * k <= j < 8 * k + 7 implies t[j] != '\n' by {
            assert(t[8 * k + (j - 8 * k)] == cell_char(b[idx(5 - k, j - 8 * k)]));
        }
        assert(t[8 * k + 7] == '\n');
        lemma_next_newline_is(t, 8 * k, 8 * k + 7);
        assert(t[8 * k + 6] == cell_char(b[idx(5 - k, 6)]));
        assert forall|c: int| 0 <= c < 7 implies #[trigger] t.subrange(8 * k, 8 * k + 7)[c] == row_line(b, 5 - k)[c] by {
            assert(t[8 * k + c] == cell_char(b[idx(5 - k, c)]));
        }
        assert(t.subrange(8 * k, 8 * k + 7) =~= row_line(b, 5 - k));
        assert(line_at(t, 8 * k) == row_line(b, 5 - k));
        assert(lines_from(t, 8 * k) == seq![row_line(b, 5 - k)] + lines_from(t, 8 * (k + 1)));
        assert(lines_from(t, 8 * k) =~= Seq::new((6 - k) as nat, |j: int| row_line(b, 5 - k - j)));
    } else {
        assert(lines_from(t, 48) =~= Seq::<Seq<char>>::empty());
        assert(Seq::new((6 - k) as nat, |j: int| row_line(b, 5 - k - j)) =~= Seq::<Seq<char>>::empty());
    }
}

/// Reading back the text form of a board gives the board: `board_from_str`
/// undoes `board_to_str`.
pub proof fn lemma_board_text_roundtrip(b: Seq<Option<bool>>)
    requires
        b.len() == 42,
    ensures
        is_board_text(board_text(b)),
        text_board(board_text(b)) == b,
{
    lemma_text_lines(b, 0);
    let ls = lines(board_text(b));
    assert(ls == Seq::new(6, |j: int| row_line(b, 5 - j)));
    assert forall|i: int, j: int| 0 <= i < ls.len() && 0 <= j < ls[i].len() implies is_cell_char(
        #[trigger] ls[i][j],
    ) by {
        assert(ls[i] == row_line(b, 5 - i));
    }
    assert forall|q: int| 0 <= q < 42 implies #[trigger] text_board(board_text(b))[q] == b[q] by {
        let r = q / 7;
        let c = q % 7;
        assert(idx(r, c) == q);
        assert(ls[ls.len() - 1 - r] == row_line(b, r));
    }
    assert(text_board(board_text(b)) =~= b);
}

/// Whether `s` is exactly the text form of some board: 6 lines of 7 cell
/// characters, each ending in a line feed.
pub open spec fn is_exact_board_text(s: Seq<char>) -> bool {
    &&& s.len() == 48
    &&& forall|k: int, c: int| 0 <= k < 6 && 0 <= c < 7 ==> is_cell_char(#[trigger] s[8 * k + c])
    &&& forall|k: int| 0 <= k < 6 ==> #[trigger] s[8 * k + 7] == '\n'
}

/// Writing out the board read from an exact text form gives back the text:
/// `board_to_str` undoes `board_from_str` on 6 lines of 7 cell characters.
pub proof fn lemma_text_board_roundtrip(s: Seq<char>)
    requires
        is_exact_board_text(s),
    ensures
        is_board_text(s),
        board_text(text_board(s)) == s,
{
    let b = Seq::new(42, |q: int| char_cell(s[8 * (5 - q / 7) + q % 7]));
    lemma_rows_text(b, 6);
    let t = board_text(b);
    assert forall|i: int| 0 <= i < 48 implies #[trigger] t[i] == s[i] by {
        let k = i / 8;
        let c = i % 8;
        assert(i == 8 * k + c);
        if c < 7 {
            let q = idx(5 - k, c);
            assert(q / 7 == 5 - k && q % 7 == c);
            assert(t[8 * k + c] == cell_char(b[q]));
            assert(is_cell_char(s[8 * k + c]));
        } else {
            assert(t[8 * k + 7] == '\n');
        }
    }
    assert(t =~= s);
    lemma_board_text_roundtrip(b);
}

/// The characters of a string.
fn chars_of(s: &str) -> (r: Vec<char>)
    ensures
        r@ == s@,
{
    let len = s.unicode_len();
    let mut r: Vec<char> = Vec::new();
    let mut i: usize = 0;
    while i < len
        invariant
            len == s@.len(),
            i <= len,
            r@ == s@.take(i as int),
        decreases len - i,
    {
        r.push(s.get_char(i));
        i = i + 1;
        assert(r@ =~= s@.take(i as int));
    }
    assert(r@ =~= s@);
    r
}

impl Connect4Game {
    /// Sets the board from its text form (see `text_board`); the rest of the
    /// game is left as it is.
    pub fn board_from_str(&mut self, board: &str)
        requires
            old(self)@.wf(),
            is_board_text(board@),
        ensures
            final(self)@ == (GameModel { board: text_board(board@), ..old(self)@ }),
    {
        let s = chars_of(board);
        let ghost all = lines(s@);
        let mut rows: Vec<Vec<char>> = Vec::new();
        let mut i: usize = 0;
        while i < s.len()
            invariant
                all == lines(s@),
                i <= s.len(),
                all == Seq::new(rows@.len(), |k: int| rows@[k]@) + lines_from(s@, i as int),
            decreases s.len() - i,
        {
            proof {
                lemma_next_newline(s@, i as int);
            }
            let mut e: usize = i;
            while e < s.len() && s[e] != '\n'
                invariant
                    i <= e <= s.len(),
                    next_newline(s@, i as int) == next_newline(s@, e as int),
                decreases s.len() - e,
            {
                e = e + 1;
            }
            let end = if e < s.len() && e > i && s[e - 1] == '\r' {
                e - 1
            } else {
                e
            };
            let mut line: Vec<char> = Vec::new();
            let mut j: usize = i;
            while j < end
                invariant
                    i <= j <= end <= s.len(),
                    line@ == s@.subrange(i as int, j as int),
                decreases end - j,
            {
                line.push(s[j]);
                j = j + 1;
                assert(line@ =~= s@.subrange(i as int, j as int));
            }
            let ghost before = Seq::new(rows@.len(), |k: int| rows@[k]@);
            rows.push(line);
            assert(Seq::new(rows@.len(), |k: int| rows@[k]@) =~= before.push(line_at(s@, i as int)));
            i = if e < s.len() {
                e + 1
            } else {
                e
            };
            assert(all =~= Seq::new(rows@.len(), |k: int| rows@[k]@) + lines_from(s@, i as int));
        }
        assert(all =~= Seq::new(rows@.len(), |k: int| rows@[k]@));
        let n = rows.len();
        let ghost target = text_board(board@);
        let mut k: usize = 0;
        while k < ROWS * COLS
            invariant
                n == rows@.len() == all.len(),
                all == lines(board@),
                forall|q: int| 0 <= q < n ==> #[trigger] rows@[q]@ == all[q],
                is_board_text(board@),
                target == text_board(board@),
                k <= 42,
                self@ == (GameModel { board: self@.board, ..old(self)@ }),
                self@.board.len() == 42,
                forall|q: int| 0 <= q < k ==> self@.board[q] == #[trigger] target[q],
                forall|q: int| k <= q < 42 ==> self@.board[q] == #[trigger] old(self)@.board[q],
            decreases 42 - k,
        {
            let r = k / COLS;
            let c = k % COLS;
            assert(all[n - 1 - r].len() >= 7);
            let ch = rows[n - 1 - r][c];
            let cell = if ch == 'T' {
                Some(true)
            } else if ch == 'F' {
                Some(false)
            } else {
                None
            };
            self.board.set(k, cell);
            k = k + 1;
        }
        assert(self@.board =~= target);
    }

    /// The board in its text form (see `board_text`).
    pub fn board_to_str(&self) -> (r: String)
        requires
            self@.wf(),
        ensures
            r@ == board_text(self@.board),
    {
        let mut result = String::new();
        let mut n: usize = 0;
        while n < ROWS
            invariant
                self@.wf(),
                n <= 6,
                result@ == rows_text(self@.board, n as nat),
            decreases 6 - n,
        {
            let row = ROWS - 1 - n;
            let ghost before = result@;
            let mut c: usize = 0;
            while c < COLS
                invariant
                    self@.wf(),
                    row < 6,
                    c <= 7,
                    result@ == before + Seq::new(c as nat, |q: int| cell_char(self@.board[idx(row as int, q)])),
                decreases 7 - c,
            {
                let tile = self.board[row * COLS + c];
                match tile {
                    None => {
                        proof {
                            reveal_strlit(".");
                        }
                        result.append(".");
                    },
                    Some(false) => {
                        proof {
                            reveal_strlit("F");
                        }
                        result.append("F");
                    },
                    Some(true) => {
                        proof {
                            reveal_strlit("T");
                        }
                        result.append("T");
                    },
                }
                c = c + 1;
                assert(result@ =~= before + Seq::new(c as nat, |q: int| cell_char(self@.board[idx(row as int, q)])));
            }
            proof {
                reveal_strlit("\n");
            }
            result.append("\n");
            n = n + 1;
            assert(result@ =~= rows_text(self@.board, n as nat));
        }
        result
    }
}

} // verus!
