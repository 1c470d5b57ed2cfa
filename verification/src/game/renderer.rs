//! The board as text: one line of text for each row, three characters for
//! each cell. A cell of the winning line stands between exclamation marks,
//! a cell of a drawn game between square brackets, any other between bars.

use vstd::prelude::*;
use vstd::string::StringExecFns;
use crate::game::lines::Outcome;
use crate::game::{as_line, GameView, State, TikTakToe};

verus! {

/// `String::push` of the standard library: the character is appended to the
/// end of the string, and the characters before it stay as they are.
pub assume_specification[ String::push ](text: &mut String, ch: char)
    ensures
        final(text)@ == old(text)@.push(ch),
;

/// The two characters between which a cell is shown.
pub open spec fn delimiters(outcome: Outcome, index: int) -> (char, char) {
    match outcome {
        Outcome::Win(line) => if line.contains(index) {
            ('!', '!')
        } else {
            ('|', '|')
        },
        Outcome::Draw => ('[', ']'),
        Outcome::Continue => ('|', '|'),
    }
}

/// The character that shows what a cell holds: its mark, or a blank.
pub open spec fn content(cell: Option<char>) -> char {
    match cell {
        Some(mark) => mark,
        None => ' ',
    }
}

/// The text of the cell `index`.
pub open spec fn cell_text(game: GameView, index: int) -> Seq<char> {
    let (open, close) = delimiters(game.outcome, index);
    seq![open, content(game.cells[index]), close]
}

/// The text of the first `count` cells of a row.
pub open spec fn cells_text(game: GameView, row: int, count: nat) -> Seq<char> {
    Seq::new(count, |col: int| cell_text(game, row * game.size + col)).flatten()
}

/// The text of a row: its cells from left to right.
pub open spec fn row_text(game: GameView, row: int) -> Seq<char> {
    cells_text(game, row, game.size)
}

/// The text of the first `count` rows, each closed by a line feed.
pub open spec fn rows_text(game: GameView, count: nat) -> Seq<char> {
    Seq::new(count, |row: int| row_text(game, row).push('\n')).flatten()
}

/// The text of the whole board.
pub open spec fn board_text(game: GameView) -> Seq<char> {
    rows_text(game, game.size)
}

/// Whether `index` occurs among `indexes`.
fn line_contains(indexes: &Vec<usize>, index: usize) -> (found: bool)
    ensures
        found == as_line(indexes@).contains(index as int),
{
    let ghost line = as_line(indexes@);
    let mut j: usize = 0;
    while j < indexes.len()
        invariant
            j <= indexes@.len(),
            line == as_line(indexes@),
            forall|e: int| 0 <= e < j ==> line[e] != index,
        decreases indexes@.len() - j,
    {
        if indexes[j] == index {
            assert(line[j as int] == index);
            return true;
        }
        j += 1;
    }
    false
}

/// The decoration of the cell `index` in the given state of play.
fn decorate(state: &State, index: usize) -> (pair: (char, char))
    ensures
        pair == delimiters(state@, index as int),
{
    match state {
        State::Win(data) => {
            if line_contains(&data.board_indexes, index) {
                ('!', '!')
            } else {
                ('|', '|')
            }
        },
        State::Draw => ('[', ']'),
        State::Continue => ('|', '|'),
    }
}

/// Appends the text of the cell `index` to `display`.
fn push_cell(display: &mut String, game: &TikTakToe, index: usize)
    requires
        index < game@.cells.len(),
    ensures
        final(display)@ == old(display)@ + cell_text(game@, index as int),
{
    let board = game.get_board();
    let value = match board[index] {
        Some(mark) => mark,
        None => ' ',
    };
    let (open, close) = decorate(game.get_state(), index);
    display.push(open);
    display.push(value);
    display.push(close);
}

/// The text of the row `row`, or `None` when the board has no such row.
pub fn display_row(game: &TikTakToe, row: usize) -> (text: Option<String>)
    ensures
        text is Some <==> row < game@.size,
        text matches Some(t) ==> t@ == row_text(game@, row as int),
{
    let size = game.size();
    if row >= size {
        return None;
    }
    let mut text = String::new();
    let mut col: usize = 0;
    while col < size
        invariant
            col <= size,
            row < size,
            size == game@.size,
            size * size == game@.cells.len() <= usize::MAX,
            text@ == cells_text(game@, row as int, col as nat),
        decreases size - col,
    {
        assert(row * size + col < size * size) by (nonlinear_arith)
            requires
                row < size,
                col < size,
        ;
        let ghost cells = Seq::new(
            col as nat,
            |c: int| cell_text(game@, row * game@.size + c),
        );
        push_cell(&mut text, game, row * size + col);
        proof {
            let next = Seq::new((col + 1) as nat, |c: int| cell_text(game@, row * game@.size + c));
            assert(next =~= cells.push(cell_text(game@, row * size + col)));
            cells.lemma_flatten_push(cell_text(game@, row * size + col));
        }
        col += 1;
    }
    Some(text)
}

/// The text of the board: the rows from top to bottom, each closed by a line
/// feed.
pub fn make_display(game: &TikTakToe) -> (display: String)
    ensures
        display@ == board_text(game@),
{
    let size = game.size();
    let mut display = String::new();
    let mut row: usize = 0;
    while row < size
        invariant
            row <= size,
            size == game@.size,
            display@ == rows_text(game@, row as nat),
        decreases size - row,
    {
        let ghost rows = Seq::new(row as nat, |r: int| row_text(game@, r).push('\n'));
        match display_row(game, row) {
            Some(text) => {
                display.append(text.as_str());
                display.push('\n');
            },
            None => {},
        }
        proof {
            let next = Seq::new((row + 1) as nat, |r: int| row_text(game@, r).push('\n'));
            assert(next =~= rows.push(row_text(game@, row as int).push('\n')));
            rows.lemma_flatten_push(row_text(game@, row as int).push('\n'));
        }
        row += 1;
    }
    display
}

} // verus!
