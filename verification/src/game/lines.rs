//! The lines of a board and the classification of a position.
//!
//! A board of size `n` is a sequence of `n * n` cells in row-major order: the
//! cell in row `r` and column `c` has index `r * n + c`. Its lines are the `n`
//! rows, the `n` columns and the two diagonals, each a sequence of `n` indexes.

use vstd::prelude::*;
use crate::game::marks::cell_has;

verus! {

/// What a position amounts to for the player who moved last.
pub enum Outcome {
    /// The mover holds the line with these indexes.
    Win(Seq<int>),
    /// No line is held and no cell is left.
    Draw,
    /// No line is held and a cell is left.
    Continue,
}

/// The indexes of row `i`, from left to right.
pub open spec fn row(n: nat, i: int) -> Seq<int> {
    Seq::new(n, |j: int| i * n + j)
}

/// The indexes of column `i`, from top to bottom.
pub open spec fn column(n: nat, i: int) -> Seq<int> {
    Seq::new(n, |j: int| j * n + i)
}

/// The indexes of the diagonal from the top left corner to the bottom right.
pub open spec fn main_diagonal(n: nat) -> Seq<int> {
    Seq::new(n, |j: int| j * n + j)
}

/// The indexes of the diagonal from the top right corner to the bottom left.
pub open spec fn anti_diagonal(n: nat) -> Seq<int> {
    Seq::new(n, |j: int| (n - 1) + j * (n - 1))
}

/// The number of lines of a board of size `n`. A board without cells has none.
pub open spec fn line_count(n: nat) -> nat {
    if n == 0 {
        0
    } else {
        2 * n + 2
    }
}

/// The `k`-th line in the order in which lines are examined: row 0, column 0,
/// row 1, column 1 and so on, then the main diagonal, then the anti-diagonal.
pub open spec fn line_at(n: nat, k: int) -> Seq<int> {
    if k < 2 * n {
        if k % 2 == 0 {
            row(n, k / 2)
        } else {
            column(n, k / 2)
        }
    } else if k == 2 * n {
        main_diagonal(n)
    } else {
        anti_diagonal(n)
    }
}

/// Whether every index of `line` is a cell of the board that carries `mark`.
pub open spec fn holds_line(cells: Seq<Option<char>>, line: Seq<int>, mark: char) -> bool {
    forall|j: int|
        0 <= j < line.len() ==> 0 <= #[trigger] line[j] < cells.len() && cell_has(
            cells[line[j]],
            mark,
        )
}

/// Whether `mark` holds the `k`-th line of the board.
pub open spec fn holds_line_at(n: nat, cells: Seq<Option<char>>, mark: char, k: int) -> bool {
    0 <= k < line_count(n) && holds_line(cells, line_at(n, k), mark)
}

/// Whether `k` is the first line, in the order of examination, that `mark` holds.
pub open spec fn first_held(n: nat, cells: Seq<Option<char>>, mark: char, k: int) -> bool {
    &&& holds_line_at(n, cells, mark, k)
    &&& forall|e: int| 0 <= e < k ==> !holds_line_at(n, cells, mark, e)
}

/// Whether no cell of the board is empty.
pub open spec fn is_full(cells: Seq<Option<char>>) -> bool {
    forall|i: int| 0 <= i < cells.len() ==> (#[trigger] cells[i]) is Some
}

/// The classification of a board of size `n` for the mover `mark`: a win with
/// the first line that the mover holds; failing that, a draw when the board is
/// full; otherwise play continues.
pub open spec fn classify(n: nat, cells: Seq<Option<char>>, mark: char) -> Outcome {
    if exists|k: int| first_held(n, cells, mark, k) {
        Outcome::Win(line_at(n, choose|k: int| first_held(n, cells, mark, k)))
    } else if is_full(cells) {
        Outcome::Draw
    } else {
        Outcome::Continue
    }
}

/// Every index of a line is a cell of the board.
pub proof fn lemma_line_in_bounds(n: nat, k: int, j: int)
    requires
        0 <= k < line_count(n),
        0 <= j < n,
    ensures
        line_at(n, k).len() == n,
        0 <= line_at(n, k)[j] < n * n,
{
    let i = k / 2;
    if k < 2 * n {
        assert(0 <= i * n + j < n * n && 0 <= j * n + i < n * n) by (nonlinear_arith)
            requires
                0 <= i < n,
                0 <= j < n,
        ;
    } else {
        assert(0 <= j * n + j < n * n && 0 <= (n - 1) + j * (n - 1) < n * n) by (nonlinear_arith)
            requires
                0 <= j < n,
        ;
    }
}

/// At most one line is the first that a mover holds.
pub proof fn lemma_first_held_unique(n: nat, cells: Seq<Option<char>>, mark: char, a: int, b: int)
    requires
        first_held(n, cells, mark, a),
        first_held(n, cells, mark, b),
    ensures
        a == b,
{
}

/// A position in which `k` is the first held line is a win with that line.
pub proof fn lemma_classify_win(n: nat, cells: Seq<Option<char>>, mark: char, k: int)
    requires
        first_held(n, cells, mark, k),
    ensures
        classify(n, cells, mark) == Outcome::Win(line_at(n, k)),
{
    let c = choose|c: int| first_held(n, cells, mark, c);
    lemma_first_held_unique(n, cells, mark, c, k);
}

/// A position in which no line is held is a draw or goes on, as the board is
/// full or not.
pub proof fn lemma_classify_open(n: nat, cells: Seq<Option<char>>, mark: char)
    requires
        forall|k: int| 0 <= k < line_count(n) ==> !holds_line_at(n, cells, mark, k),
    ensures
        classify(n, cells, mark) == if is_full(cells) {
            Outcome::Draw
        } else {
            Outcome::Continue
        },
{
}

} // verus!
