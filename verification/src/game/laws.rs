//! What holds of every game, stated over the game as a mathematical value.

use vstd::prelude::*;
use crate::game::lines::{
    classify, first_held, holds_line_at, is_full, lemma_classify_win, lemma_line_in_bounds,
    line_at, line_count, Outcome,
};
use crate::game::marks::same_mark;
use crate::game::GameView;

verus! {

/// A cell is given away once. A request for an empty cell of a game that is
/// not over occupies that cell and no other; the same request made again
/// changes nothing.
pub proof fn law_cell_is_taken_once(game: GameView, mark: char, index: int)
    requires
        game.accepts(index),
    ensures
        game.played(mark, index).cells == game.cells.update(index, Some(mark)),
        game.played(mark, index).cells != game.cells,
        game.played(mark, index).played(mark, index) == game.played(mark, index),
{
}

/// Whatever became of a request for a cell, a second request for the same
/// cell changes nothing, whoever makes it.
pub proof fn law_second_request_changes_nothing(
    game: GameView,
    first: char,
    second: char,
    index: int,
)
    ensures
        game.played(first, index).played(second, index) == game.played(first, index),
{
    if game.accepts(index) {
    }
}

/// A game that is won or drawn is frozen: no request changes its board or its
/// state.
pub proof fn law_finished_game_is_frozen(game: GameView, mark: char, index: int)
    requires
        game.outcome is Win || game.outcome is Draw,
    ensures
        game.played(mark, index) == game,
{
}

/// A request for an index that is no cell of the board changes nothing.
pub proof fn law_index_outside_board_changes_nothing(game: GameView, mark: char, index: int)
    requires
        index < 0 || index >= game.cells.len(),
    ensures
        game.played(mark, index) == game,
{
}

/// A request for an occupied cell changes nothing.
pub proof fn law_occupied_cell_is_kept(game: GameView, mark: char, index: int)
    requires
        0 <= index < game.cells.len(),
        game.cells[index] is Some,
    ensures
        game.played(mark, index) == game,
{
}

/// No request empties a cell or changes the mark in it, and none changes the
/// size of the board.
pub proof fn law_occupied_cells_stay(game: GameView, mark: char, index: int, cell: int)
    requires
        0 <= cell < game.cells.len(),
        game.cells[cell] is Some,
    ensures
        game.played(mark, index).cells.len() == game.cells.len(),
        game.played(mark, index).size == game.size,
        game.played(mark, index).cells[cell] == game.cells[cell],
{
}

/// A well-formed game stays well formed under every request.
pub proof fn law_played_game_is_well_formed(game: GameView, mark: char, index: int)
    requires
        game.wf(),
    ensures
        game.played(mark, index).wf(),
{
}

/// The line of a won game is one of the lines of the board: it has as many
/// indexes as the board has rows, each of them a cell of the board, and every
/// one of these cells is occupied.
pub proof fn law_winning_line_is_held(game: GameView, line: Seq<int>)
    requires
        game.wf(),
        game.outcome == Outcome::Win(line),
    ensures
        exists|k: int| 0 <= k < line_count(game.size) && line == line_at(game.size, k),
        line.len() == game.size,
        forall|j: int|
            0 <= j < line.len() ==> 0 <= #[trigger] line[j] < game.cells.len()
                && game.cells[line[j]] is Some,
{
    let mark = choose|mark: char| #[trigger]
        classify(game.size, game.cells, mark) == game.outcome;
    let k = choose|k: int| first_held(game.size, game.cells, mark, k);
    assert forall|j: int| 0 <= j < line.len() implies 0 <= #[trigger] line[j] < game.cells.len()
        && game.cells[line[j]] is Some by {
        lemma_line_in_bounds(game.size, k, j);
    }
    lemma_line_in_bounds(game.size, k, 0);
}

/// The classification does not tell apart two marks that differ only in the
/// case of an ASCII letter.
pub proof fn law_classification_ignores_case(
    n: nat,
    cells: Seq<Option<char>>,
    left: char,
    right: char,
)
    requires
        same_mark(left, right),
    ensures
        classify(n, cells, left) == classify(n, cells, right),
{
    assert forall|k: int|
        holds_line_at(n, cells, left, k) == holds_line_at(n, cells, right, k) by {}
    if exists|k: int| first_held(n, cells, left, k) {
        let k = choose|k: int| first_held(n, cells, left, k);
        assert(first_held(n, cells, right, k));
        lemma_classify_win(n, cells, left, k);
        lemma_classify_win(n, cells, right, k);
    } else if exists|k: int| first_held(n, cells, right, k) {
        let k = choose|k: int| first_held(n, cells, right, k);
        assert(first_held(n, cells, left, k));
    }
}

/// The board of a drawn game is full.
pub proof fn law_drawn_board_is_full(game: GameView)
    requires
        game.wf(),
        game.outcome is Draw,
    ensures
        is_full(game.cells),
{
}

/// A game on a board without cells is drawn, and stays so.
pub proof fn law_empty_board_is_drawn(game: GameView, mark: char, index: int)
    requires
        game.wf(),
        game.size == 0,
    ensures
        game.outcome == Outcome::Draw,
        game.played(mark, index) == game,
{
}

} // verus!
