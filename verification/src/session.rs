//! A sitting of two players at one board: what a line of input asks for, and
//! whose turn it is.
//!
//! A line is read without the white space around it. The word `exit` ends the
//! sitting. A number from 1 to the number of cells, written in decimal with an
//! optional `+` before it, asks for the cell with that number, the cells being
//! counted from 1 in row-major order. Any other line is refused.

use vstd::prelude::*;
use crate::game::{GameView, Player, TikTakToe};

verus! {

/// What a line of input asks for.
#[derive(Clone, Copy, Debug, PartialEq, Eq, Structural)]
pub enum Command {
    /// End the sitting.
    Exit,
    /// Take the cell with this index, counted from 0.
    Play(usize),
    /// Nothing that can be done: the line is neither `exit` nor the number of
    /// a cell.
    Invalid,
}

/// Whether a character is white space: one of the code points with the
/// Unicode property `White_Space`.
pub open spec fn is_white_space(c: char) -> bool {
    let code = c as u32;
    ||| 0x09 <= code <= 0x0D
    ||| code == 0x20
    ||| code == 0x85
    ||| code == 0xA0
    ||| code == 0x1680
    ||| 0x2000 <= code <= 0x200A
    ||| code == 0x2028
    ||| code == 0x2029
    ||| code == 0x202F
    ||| code == 0x205F
    ||| code == 0x3000
}

/// The text without the white space at its start.
pub open spec fn trim_start(text: Seq<char>) -> Seq<char>
    decreases text.len(),
{
    if text.len() > 0 && is_white_space(text.first()) {
        trim_start(text.drop_first())
    } else {
        text
    }
}

/// The text without the white space at its end.
pub open spec fn trim_end(text: Seq<char>) -> Seq<char>
    decreases text.len(),
{
    if text.len() > 0 && is_white_space(text.last()) {
        trim_end(text.drop_last())
    } else {
        text
    }
}

/// The text without the white space around it.
pub open spec fn trim(text: Seq<char>) -> Seq<char> {
    trim_end(trim_start(text))
}

/// The word that ends the sitting.
pub open spec fn exit_word() -> Seq<char> {
    seq!['e', 'x', 'i', 't']
}

/// Whether a character is one of the digits `0` to `9`.
pub open spec fn is_digit(c: char) -> bool {
    '0' <= c <= '9'
}

/// Whether a text is one digit or more, and nothing else.
pub open spec fn is_digits(text: Seq<char>) -> bool {
    text.len() > 0 && forall|i: int| 0 <= i < text.len() ==> is_digit(#[trigger] text[i])
}

/// The number that a text of digits writes in decimal.
pub open spec fn decimal(text: Seq<char>) -> nat
    decreases text.len(),
{
    if text.len() == 0 {
        0
    } else {
        (10 * decimal(text.drop_last()) + (text.last() as u32 - '0' as u32)) as nat
    }
}

/// The word without the `+` that may stand before its digits.
pub open spec fn unsigned(word: Seq<char>) -> Seq<char> {
    if word.len() > 0 && word.first() == '+' {
        word.drop_first()
    } else {
        word
    }
}

/// The number that a word writes: digits, with an optional `+` before them.
pub open spec fn number(word: Seq<char>) -> Option<nat> {
    let digits = unsigned(word);
    if is_digits(digits) {
        Some(decimal(digits))
    } else {
        None
    }
}

/// What a word asks for when it is read as the number of a cell, on a board
/// of `cells` cells.
pub open spec fn request_of(word: Seq<char>, cells: nat) -> Command {
    match number(word) {
        Some(value) => if 1 <= value <= cells {
            Command::Play((value - 1) as usize)
        } else {
            Command::Invalid
        },
        None => Command::Invalid,
    }
}

/// What a line asks for on a board of `cells` cells.
pub open spec fn command_of(line: Seq<char>, cells: nat) -> Command {
    let word = trim(line);
    if word == exit_word() {
        Command::Exit
    } else {
        request_of(word, cells)
    }
}

/// A longer text of digits writes a number that is no smaller.
pub proof fn lemma_decimal_grows(text: Seq<char>, count: int)
    requires
        0 <= count <= text.len(),
        forall|i: int| 0 <= i < text.len() ==> is_digit(#[trigger] text[i]),
    ensures
        decimal(text.take(count)) <= decimal(text),
    decreases text.len(),
{
    if count == text.len() {
        assert(text.take(count) =~= text);
    } else {
        assert(text.drop_last().take(count) =~= text.take(count));
        lemma_decimal_grows(text.drop_last(), count);
    }
}

fn white_space(c: char) -> (white: bool)
    ensures
        white == is_white_space(c),
{
    let code: u32 = c as u32;
    (0x09 <= code && code <= 0x0D) || code == 0x20 || code == 0x85 || code == 0xA0 || code
        == 0x1680 || (0x2000 <= code && code <= 0x200A) || code == 0x2028 || code == 0x2029
        || code == 0x202F || code == 0x205F || code == 0x3000
}

/// The characters of a text, in order.
fn characters(text: &str) -> (chars: Vec<char>)
    ensures
        chars@ == text@,
{
    let mut chars: Vec<char> = Vec::new();
    for c in it: text.chars()
        invariant
            it.seq() == text@,
            chars@ == it.seq().take(it.index() as int),
    {
        chars.push(c);
    }
    chars
}

/// The bounds of the text without the white space around it.
fn trim_bounds(chars: &Vec<char>) -> (bounds: (usize, usize))
    ensures
        bounds.0 <= bounds.1 <= chars@.len(),
        chars@.subrange(bounds.0 as int, bounds.1 as int) == trim(chars@),
{
    let mut start: usize = 0;
    assert(chars@.skip(0) =~= chars@);
    while start < chars.len() && white_space(chars[start])
        invariant
            start <= chars@.len(),
            trim_start(chars@) == trim_start(chars@.skip(start as int)),
        decreases chars@.len() - start,
    {
        assert(chars@.skip(start as int).drop_first() =~= chars@.skip(start + 1));
        start += 1;
    }
    let mut end: usize = chars.len();
    while start < end && white_space(chars[end - 1])
        invariant
            start <= end <= chars@.len(),
            trim(chars@) == trim_end(chars@.subrange(start as int, end as int)),
        decreases end - start,
    {
        assert(chars@.subrange(start as int, end as int).drop_last() =~= chars@.subrange(
            start as int,
            end - 1,
        ));
        end -= 1;
    }
    (start, end)
}

/// Whether the characters from `start` to `end` are the word `exit`.
fn is_exit(chars: &Vec<char>, start: usize, end: usize) -> (exit: bool)
    requires
        start <= end <= chars@.len(),
    ensures
        exit == (chars@.subrange(start as int, end as int) == exit_word()),
{
    let ghost word = chars@.subrange(start as int, end as int);
    if end - start != 4 {
        assert(word.len() != exit_word().len());
        return false;
    }
    let exit = chars[start] == 'e' && chars[start + 1] == 'x' && chars[start + 2] == 'i'
        && chars[start + 3] == 't';
    proof {
        assert(word[0] == chars@[start as int] && word[1] == chars@[start + 1] && word[2]
            == chars@[start + 2] && word[3] == chars@[start + 3]);
        if exit {
            assert(word =~= exit_word());
        }
    }
    exit
}

/// What the characters from `start` to `end` ask for when read as a number.
fn read_number(chars: &Vec<char>, start: usize, end: usize, cells: usize) -> (command: Command)
    requires
        start <= end <= chars@.len(),
    ensures
        command == request_of(chars@.subrange(start as int, end as int), cells as nat),
{
    let ghost word = chars@.subrange(start as int, end as int);
    let first: usize = if start < end && chars[start] == '+' {
        start + 1
    } else {
        start
    };
    let ghost digits = chars@.subrange(first as int, end as int);
    assert(digits =~= unsigned(word));
    let mut value: usize = 0;
    let mut at: usize = first;
    while at < end
        invariant
            first <= at <= end <= chars@.len(),
            word == chars@.subrange(start as int, end as int),
            digits == chars@.subrange(first as int, end as int),
            digits == unsigned(word),
            forall|i: int| 0 <= i < at - first ==> is_digit(#[trigger] digits[i]),
            value == decimal(digits.take(at - first)),
            value <= cells,
        decreases end - at,
    {
        let c: char = chars[at];
        assert(digits[at - first] == c);
        if !('0' <= c && c <= '9') {
            return Command::Invalid;
        }
        let digit: usize = (c as u32 - '0' as u32) as usize;
        proof {
            assert(digits.take(at - first + 1).drop_last() =~= digits.take(at - first));
            if is_digits(digits) {
                lemma_decimal_grows(digits, at - first + 1);
            }
        }
        let next: Option<usize> = match value.checked_mul(10) {
            Some(tens) => tens.checked_add(digit),
            None => None,
        };
        match next {
            Some(sum) if sum <= cells => {
                value = sum;
            },
            _ => {
                return Command::Invalid;
            },
        }
        at += 1;
    }
    proof {
        assert(digits.take(at - first) =~= digits);
    }
    if first == end || value == 0 {
        Command::Invalid
    } else {
        Command::Play(value - 1)
    }
}

/// What a line of input asks for on a board of `cells` cells.
pub fn read_command(line: &str, cells: usize) -> (command: Command)
    ensures
        command == command_of(line@, cells as nat),
{
    let chars = characters(line);
    let (start, end) = trim_bounds(&chars);
    if is_exit(&chars, start, end) {
        Command::Exit
    } else {
        read_number(&chars, start, end, cells)
    }
}

/// What the sitting does in answer to a line of input.
#[derive(Clone, Copy, Debug, PartialEq, Eq, Structural)]
pub enum Reply {
    /// The sitting is over.
    Quit,
    /// The mover asked for a cell, and the turn has passed to the other player.
    Played,
    /// The line asked for nothing that can be done; the same player is to
    /// move again.
    Refused,
}

/// A sitting as a mathematical value: the game, the marks of the two
/// players, and whether the first of them is to move.
pub struct SessionView {
    pub game: GameView,
    pub player_one: char,
    pub player_two: char,
    pub first_to_move: bool,
}

impl SessionView {
    /// The mark of the player who is to move.
    pub open spec fn mover(self) -> char {
        if self.first_to_move {
            self.player_one
        } else {
            self.player_two
        }
    }

    /// What the line asks for on the board of this sitting.
    pub open spec fn command(self, line: Seq<char>) -> Command {
        command_of(line, self.game.cells.len())
    }

    /// The answer to a line of input.
    pub open spec fn reply(self, line: Seq<char>) -> Reply {
        match self.command(line) {
            Command::Exit => Reply::Quit,
            Command::Play(_) => Reply::Played,
            Command::Invalid => Reply::Refused,
        }
    }

    /// The sitting after a line of input. A line that asks for a cell hands
    /// the request to the game in the mover's name and passes the turn,
    /// whether or not the game accepted the move. Any other line changes
    /// nothing.
    pub open spec fn after(self, line: Seq<char>) -> SessionView {
        match self.command(line) {
            Command::Play(index) => SessionView {
                game: self.game.played(self.mover(), index as int),
                first_to_move: !self.first_to_move,
                ..self
            },
            _ => self,
        }
    }
}

/// Two players at one board.
#[derive(Debug)]
pub struct Session {
    game: TikTakToe,
    player_one: Player,
    player_two: Player,
    first_to_move: bool,
}

impl View for Session {
    type V = SessionView;

    closed spec fn view(&self) -> SessionView {
        SessionView {
            game: self.game@,
            player_one: self.player_one.value,
            player_two: self.player_two.value,
            first_to_move: self.first_to_move,
        }
    }
}

impl Session {
    /// A sitting at an empty board of `square` rows and columns, with
    /// `player_one` to move.
    pub fn new(square: usize, player_one: Player, player_two: Player) -> (session: Self)
        requires
            square * square <= usize::MAX,
        ensures
            session@.game.wf(),
            session@.game.size == square,
            session@.game.cells == Seq::new((square * square) as nat, |i: int| None::<char>),
            session@.game.outcome == GameView::opening(square as nat),
            session@.player_one == player_one.value,
            session@.player_two == player_two.value,
            session@.first_to_move,
    {
        Session { game: TikTakToe::new(square), player_one, player_two, first_to_move: true }
    }

    /// The game of this sitting.
    pub fn game(&self) -> (game: &TikTakToe)
        ensures
            game@ == self@.game,
    {
        &self.game
    }

    /// The number of cells of the board.
    pub fn cells(&self) -> (cells: usize)
        ensures
            cells == self@.game.cells.len(),
            self@.game.wf(),
    {
        self.game.get_board().len()
    }

    /// The player who is to move.
    pub fn current_player(&self) -> (player: Player)
        ensures
            player.value == self@.mover(),
    {
        if self.first_to_move {
            self.player_one
        } else {
            self.player_two
        }
    }

    /// Answers a line of input.
    pub fn submit(&mut self, line: &str) -> (reply: Reply)
        ensures
            reply == old(self)@.reply(line@),
            final(self)@ == old(self)@.after(line@),
            final(self)@.game.wf(),
            reply is Played ==> final(self)@.first_to_move != old(self)@.first_to_move,
            !(reply is Played) ==> final(self)@ == old(self)@,
    {
        let cells = self.cells();
        match read_command(line, cells) {
            Command::Exit => Reply::Quit,
            Command::Invalid => Reply::Refused,
            Command::Play(index) => {
                let player = self.current_player();
                self.game.play_action(&player, index);
                self.first_to_move = !self.first_to_move;
                Reply::Played
            },
        }
    }
}

} // verus!
