//! The engine: players, the board, and the state of play.

use vstd::prelude::*;

pub mod laws;
pub mod lines;
pub mod marks;
pub mod renderer;

use crate::game::lines::{
    anti_diagonal, classify, column, first_held, holds_line, holds_line_at, is_full,
    lemma_classify_open, lemma_classify_win, line_at, main_diagonal, row, Outcome,
};
use crate::game::marks::{cell_has, check_eq_from_option_char};

verus! {

/// A player, identified by the mark that the player's cells carry.
#[derive(Clone, Copy, Debug, PartialEq, Eq, Structural)]
pub struct Player {
    pub value: char,
}

/// The line that won a game: the indexes of its cells, in the order of the line.
#[derive(Debug, PartialEq)]
pub struct WinData {
    pub board_indexes: Vec<usize>,
}

/// The state of play.
#[derive(Debug, PartialEq)]
pub enum State {
    /// The player who moved last holds a line.
    Win(WinData),
    /// No cell is left, and the last move won no line.
    Draw,
    /// The game goes on.
    Continue,
}

/// Why a move was not accepted.
#[derive(Clone, Copy, Debug, PartialEq, Eq, Structural)]
pub enum MoveRejected {
    /// The game is won or drawn.
    GameOver,
    /// The index is no cell of the board.
    OutOfBounds,
    /// The cell carries a mark already.
    CellOccupied,
}

/// The indexes of a line as mathematical integers.
pub open spec fn as_line(indexes: Seq<usize>) -> Seq<int> {
    indexes.map_values(|index: usize| index as int)
}

impl View for WinData {
    type V = Seq<int>;

    open spec fn view(&self) -> Seq<int> {
        as_line(self.board_indexes@)
    }
}

impl View for State {
    type V = Outcome;

    open spec fn view(&self) -> Outcome {
        match *self {
            State::Win(data) => Outcome::Win(data@),
            State::Draw => Outcome::Draw,
            State::Continue => Outcome::Continue,
        }
    }
}

/// A game as a mathematical value: the size of the board, its cells in
/// row-major order, and the state of play.
pub struct GameView {
    pub size: nat,
    pub cells: Seq<Option<char>>,
    pub outcome: Outcome,
}

impl GameView {
    /// The state in which a game on a board of size `size` starts. A board
    /// without cells leaves nothing to play: its game is drawn from the start.
    pub open spec fn opening(size: nat) -> Outcome {
        if size == 0 {
            Outcome::Draw
        } else {
            Outcome::Continue
        }
    }

    /// A game is well formed when the board has `size * size` cells and a
    /// state that ends the game is the classification of the board for some
    /// mover.
    pub open spec fn wf(self) -> bool {
        &&& self.cells.len() == self.size * self.size
        &&& self.size == 0 ==> self.outcome is Draw
        &&& !(self.outcome is Continue) ==> exists|mark: char|
            #[trigger] classify(self.size, self.cells, mark) == self.outcome
    }

    /// Why a move to `index` is not accepted, if it is not. The game must not
    /// be over, the index must be a cell of the board, and the cell must be
    /// empty; the first of these that fails is the reason.
    pub open spec fn rejection(self, index: int) -> Option<MoveRejected> {
        if !(self.outcome is Continue) {
            Some(MoveRejected::GameOver)
        } else if !(0 <= index < self.cells.len()) {
            Some(MoveRejected::OutOfBounds)
        } else if self.cells[index] is Some {
            Some(MoveRejected::CellOccupied)
        } else {
            None
        }
    }

    /// Whether a move to `index` is accepted.
    pub open spec fn accepts(self, index: int) -> bool {
        self.rejection(index) is None
    }

    /// The game after `mark` asked for the cell `index`. An accepted move
    /// occupies the cell and classifies the board for the mover; any other
    /// leaves the game as it is.
    pub open spec fn played(self, mark: char, index: int) -> GameView {
        if self.accepts(index) {
            let cells = self.cells.update(index, Some(mark));
            GameView { size: self.size, cells, outcome: classify(self.size, cells, mark) }
        } else {
            self
        }
    }
}

/// A game of tic-tac-toe on a square board.
#[derive(Debug)]
pub struct TikTakToe {
    square: usize,
    board: Vec<Option<char>>,
    state: State,
}

impl View for TikTakToe {
    type V = GameView;

    closed spec fn view(&self) -> GameView {
        GameView { size: self.square as nat, cells: self.board@, outcome: self.state@ }
    }
}

/// The indexes of row `i` of a board of size `square`.
fn row_indexes(square: usize, i: usize) -> (indexes: Vec<usize>)
    requires
        i < square,
        square * square <= usize::MAX,
    ensures
        as_line(indexes@) == row(square as nat, i as int),
        forall|j: int| 0 <= j < indexes@.len() ==> indexes@[j] < square * square,
{
    let mut indexes: Vec<usize> = Vec::new();
    let mut j: usize = 0;
    while j < square
        invariant
            j <= square,
            i < square,
            square * square <= usize::MAX,
            indexes@.len() == j,
            forall|e: int| 0 <= e < j ==> indexes@[e] == i * square + e,
            forall|e: int| 0 <= e < j ==> indexes@[e] < square * square,
        decreases square - j,
    {
        assert(i * square + j < square * square) by (nonlinear_arith)
            requires
                i < square,
                j < square,
        ;
        indexes.push(i * square + j);
        j += 1;
    }
    indexes
}

/// The indexes of column `i` of a board of size `square`.
fn column_indexes(square: usize, i: usize) -> (indexes: Vec<usize>)
    requires
        i < square,
        square * square <= usize::MAX,
    ensures
        as_line(indexes@) == column(square as nat, i as int),
        forall|j: int| 0 <= j < indexes@.len() ==> indexes@[j] < square * square,
{
    let mut indexes: Vec<usize> = Vec::new();
    let mut j: usize = 0;
    while j < square
        invariant
            j <= square,
            i < square,
            square * square <= usize::MAX,
            indexes@.len() == j,
            forall|e: int| 0 <= e < j ==> indexes@[e] == e * square + i,
            forall|e: int| 0 <= e < j ==> indexes@[e] < square * square,
        decreases square - j,
    {
        assert(j * square + i < square * square) by (nonlinear_arith)
            requires
                i < square,
                j < square,
        ;
        indexes.push(j * square + i);
        j += 1;
    }
    indexes
}

impl TikTakToe {
    #[verifier::type_invariant]
    spec fn inv(&self) -> bool {
        self@.wf()
    }

    /// A game on an empty board of `square` rows and columns.
    pub fn new(square: usize) -> (game: Self)
        requires
            square * square <= usize::MAX,
        ensures
            game@.wf(),
            game@.size == square,
            game@.cells == Seq::new((square * square) as nat, |i: int| None::<char>),
            game@.outcome == GameView::opening(square as nat),
    {
        let cells: usize = square * square;
        let board: Vec<Option<char>> = vec![None; cells];
        let state = if square == 0 {
            State::Draw
        } else {
            State::Continue
        };
        proof {
            if square == 0 {
                lemma_classify_open(0, board@, ' ');
            }
        }
        TikTakToe { square, board, state }
    }

    /// The cells of the board, in row-major order.
    pub fn get_board(&self) -> (board: &Vec<Option<char>>)
        ensures
            board@ == self@.cells,
            self@.wf(),
    {
        proof {
            use_type_invariant(self);
        }
        &self.board
    }

    /// The number of rows, which is the number of columns.
    pub fn size(&self) -> (size: usize)
        ensures
            size == self@.size,
            size * size == self@.cells.len() <= usize::MAX,
            self@.wf(),
    {
        proof {
            use_type_invariant(self);
            assert(self.board@.len() == self.board.len());
        }
        self.square
    }

    /// The state of play.
    pub fn get_state(&self) -> (state: &State)
        ensures
            state@ == self@.outcome,
            self@.wf(),
    {
        proof {
            use_type_invariant(self);
        }
        &self.state
    }

    /// A game that takes up the given position, or `None` when `board` is not
    /// a board of `square` rows and columns.
    pub fn from_board(square: usize, board: Vec<Option<char>>) -> (game: Option<Self>)
        ensures
            game is Some <==> board@.len() == square * square,
            game matches Some(g) ==> g@.wf() && g@ == (GameView {
                size: square as nat,
                cells: board@,
                outcome: GameView::opening(square as nat),
            }),
    {
        assert(board@.len() == board.len());
        match square.checked_mul(square) {
            Some(cells) if board.len() == cells => {
                let state = if square == 0 {
                    State::Draw
                } else {
                    State::Continue
                };
                proof {
                    if square == 0 {
                        lemma_classify_open(0, board@, ' ');
                    }
                }
                Some(TikTakToe { square, board, state })
            },
            _ => None,
        }
    }

    /// Asks for the cell `index` in the name of `player`. The move is accepted
    /// when the game is not over and the cell exists and is empty; any other
    /// move changes nothing.
    pub fn play_action(&mut self, player: &Player, index: usize)
        ensures
            final(self)@.wf(),
            final(self)@ == old(self)@.played(player.value, index as int),
            !(old(self)@.outcome is Continue) ==> final(self)@ == old(self)@,
            index >= old(self)@.cells.len() ==> final(self)@ == old(self)@,
            final(self)@.size == old(self)@.size,
            final(self)@.cells.len() == old(self)@.cells.len(),
            forall|i: int|
                0 <= i < old(self)@.cells.len() && old(self)@.cells[i] is Some
                    ==> final(self)@.cells[i] == old(self)@.cells[i],
    {
        let _ = self.try_play_action(player, index);
    }

    /// Asks for the cell `index` in the name of `player`, and says why when
    /// the move is not accepted. An accepted move occupies the cell and
    /// classifies the board for the mover; a rejected one changes nothing.
    pub fn try_play_action(&mut self, player: &Player, index: usize) -> (result: Result<
        (),
        MoveRejected,
    >)
        ensures
            final(self)@.wf(),
            final(self)@ == old(self)@.played(player.value, index as int),
            result is Ok <==> old(self)@.accepts(index as int),
            result matches Err(reason) ==> old(self)@.rejection(index as int) == Some(reason),
            result is Err ==> final(self)@ == old(self)@,
    {
        proof {
            use_type_invariant(&*self);
        }
        match self.state {
            State::Continue => {},
            _ => {
                return Err(MoveRejected::GameOver);
            },
        }
        if index >= self.board.len() {
            return Err(MoveRejected::OutOfBounds);
        }
        if self.board[index].is_some() {
            return Err(MoveRejected::CellOccupied);
        }
        self.board[index] = Some(player.value);
        let state = self.calculate_state(player);
        self.state = state;
        Ok(())
    }

    /// The classification of the board for the mover `player`.
    pub fn calculate_state(&self, player: &Player) -> (state: State)
        ensures
            state@ == classify(self@.size, self@.cells, player.value),
    {
        proof {
            use_type_invariant(self);
        }
        let square = self.square;
        if square == 0 {
            proof {
                lemma_classify_open(0, self.board@, player.value);
            }
            return State::Draw;
        }
        let ghost n = square as nat;
        let ghost cells = self.board@;
        let ghost mark = player.value;
        assert(cells.len() == self.board.len());
        let mut indexes_main_diagonal: Vec<usize> = Vec::new();
        let mut indexes_secondary_diagonal: Vec<usize> = Vec::new();
        let mut i: usize = 0;
        while i < square
            invariant
                0 < square,
                i <= square,
                n == square,
                square == self.square,
                cells == self.board@,
                mark == player.value,
                cells.len() == square * square,
                square * square <= usize::MAX,
                forall|k: int| 0 <= k < 2 * i ==> !holds_line_at(n, cells, mark, k),
                indexes_main_diagonal@.len() == i,
                indexes_secondary_diagonal@.len() == i,
                forall|e: int| 0 <= e < i ==> indexes_main_diagonal@[e] == e * square + e,
                forall|e: int|
                    0 <= e < i ==> indexes_secondary_diagonal@[e] == (square - 1) + e * (square
                        - 1),
                forall|e: int| 0 <= e < i ==> indexes_main_diagonal@[e] < square * square,
                forall|e: int| 0 <= e < i ==> indexes_secondary_diagonal@[e] < square * square,
            decreases square - i,
        {
            let horizontal_indexes = row_indexes(square, i);
            if let Some(value) = self.has_winner(horizontal_indexes, player) {
                proof {
                    lemma_classify_win(n, cells, mark, 2 * i);
                }
                return State::Win(value);
            }
            let vertical_indexes = column_indexes(square, i);
            if let Some(value) = self.has_winner(vertical_indexes, player) {
                proof {
                    lemma_classify_win(n, cells, mark, 2 * i + 1);
                }
                return State::Win(value);
            }
            proof {
                assert(i * square + i < square * square && (square - 1) + i * (square - 1)
                    < square * square && 0 <= i * (square - 1)) by (nonlinear_arith)
                    requires
                        i < square,
                ;
            }
            indexes_main_diagonal.push(i * square + i);
            indexes_secondary_diagonal.push((square - 1) + i * (square - 1));
            i += 1;
        }
        proof {
            assert(as_line(indexes_main_diagonal@) =~= main_diagonal(n));
            assert(as_line(indexes_secondary_diagonal@) =~= anti_diagonal(n));
        }
        if let Some(value) = self.has_winner(indexes_main_diagonal, player) {
            proof {
                lemma_classify_win(n, cells, mark, 2 * square);
            }
            return State::Win(value);
        }
        if let Some(value) = self.has_winner(indexes_secondary_diagonal, player) {
            proof {
                lemma_classify_win(n, cells, mark, 2 * square + 1);
            }
            return State::Win(value);
        }
        proof {
            lemma_classify_open(n, cells, mark);
        }
        if self.is_full() {
            return State::Draw;
        }
        State::Continue
    }

    /// Whether no cell of the board is empty.
    pub fn is_full(&self) -> (full: bool)
        ensures
            full == is_full(self@.cells),
    {
        let mut i: usize = 0;
        while i < self.board.len()
            invariant
                i <= self.board@.len(),
                forall|e: int| 0 <= e < i ==> (#[trigger] self.board@[e]) is Some,
            decreases self.board@.len() - i,
        {
            if self.board[i].is_none() {
                return false;
            }
            i += 1;
        }
        true
    }

    /// The line `indexes` as a win, when every one of its cells carries the
    /// mark of `player`.
    pub fn has_winner(&self, indexes: Vec<usize>, player: &Player) -> (won: Option<WinData>)
        requires
            forall|j: int| 0 <= j < indexes@.len() ==> indexes@[j] < self@.cells.len(),
        ensures
            won is Some <==> holds_line(self@.cells, as_line(indexes@), player.value),
            won matches Some(data) ==> data.board_indexes@ == indexes@,
    {
        let ghost line = as_line(indexes@);
        let mut j: usize = 0;
        while j < indexes.len()
            invariant
                j <= indexes@.len(),
                line == as_line(indexes@),
                forall|e: int| 0 <= e < indexes@.len() ==> indexes@[e] < self.board@.len(),
                forall|e: int|
                    0 <= e < j ==> cell_has(self.board@[#[trigger] line[e]], player.value),
            decreases indexes@.len() - j,
        {
            if !check_eq_from_option_char(&self.board[indexes[j]], &player.value) {
                assert(!cell_has(self.board@[line[j as int]], player.value));
                return None;
            }
            j += 1;
        }
        Some(WinData { board_indexes: indexes })
    }
}

} // verus!
