use tiktaktoe::game::marks::{check_eq_from_option_char, marks_match};
use tiktaktoe::game::{MoveRejected, Player, State, TikTakToe, WinData};

fn position(square: usize, board: Vec<Option<char>>) -> TikTakToe {
    TikTakToe::from_board(square, board).expect("a board of square * square cells")
}

fn win(indexes: Vec<usize>) -> State {
    State::Win(WinData { board_indexes: indexes })
}

#[test]
fn user_play_action() {
    let mut game = TikTakToe::new(3);
    let player = Player { value: 'O' };
    assert_eq!(game.get_board().iter().all(|&item| item.is_none()), true);
    game.play_action(&player, 3);
    assert_eq!(game.get_board().get(3), Some(&Some('O')));
}

#[test]
fn only_act_if_game_state_is_continue() {
    let player = Player { value: 'X' };
    let mut game = position(
        3,
        vec![
            Some('X'),
            Some('O'),
            Some('O'),
            None,
            Some('X'),
            Some('O'),
            None,
            None,
            None,
        ],
    );
    game.play_action(&player, 8);
    assert_eq!(
        *game.get_state(),
        State::Win(WinData {
            board_indexes: vec![0, 4, 8]
        })
    );
    let player = Player { value: 'O' };
    game.play_action(&player, 3);
    assert_eq!(game.get_board().get(3), Some(&None));
}

#[test]
fn horizontal_win() {
    let game = position(
        3,
        vec![
            Some('X'),
            Some('X'),
            Some('O'),
            Some('O'),
            Some('X'),
            Some('O'),
            Some('O'),
            Some('O'),
            Some('O'),
        ],
    );
    let player = Player { value: 'O' };
    assert_eq!(
        game.calculate_state(&player),
        State::Win(WinData {
            board_indexes: vec![6, 7, 8]
        })
    );
}

#[test]
fn vertical_win() {
    let game = position(
        3,
        vec![
            Some('O'),
            Some('X'),
            Some('O'),
            Some('O'),
            Some('X'),
            Some('O'),
            Some('O'),
            Some('O'),
            Some('X'),
        ],
    );
    let player = Player { value: 'O' };
    assert_eq!(
        game.calculate_state(&player),
        State::Win(WinData {
            board_indexes: vec![0, 3, 6]
        })
    );
}

#[test]
fn main_diagonal_win() {
    let game = position(
        3,
        vec![
            Some('O'),
            Some('X'),
            Some('O'),
            Some('O'),
            Some('O'),
            Some('X'),
            Some('X'),
            Some('O'),
            Some('O'),
        ],
    );
    let player = Player { value: 'O' };
    assert_eq!(
        game.calculate_state(&player),
        State::Win(WinData {
            board_indexes: vec![0, 4, 8]
        })
    );
}

#[test]
fn secondary_diagonal_win() {
    let game = position(
        3,
        vec![
            Some('O'),
            Some('X'),
            Some('O'),
            Some('X'),
            Some('O'),
            Some('X'),
            Some('O'),
            Some('X'),
            Some('X'),
        ],
    );
    let player = Player { value: 'O' };
    assert_eq!(
        game.calculate_state(&player),
        State::Win(WinData {
            board_indexes: vec![2, 4, 6]
        })
    );
}

#[test]
fn draw() {
    let game = position(
        3,
        vec![
            Some('O'),
            Some('O'),
            Some('X'),
            Some('X'),
            Some('X'),
            Some('O'),
            Some('O'),
            Some('X'),
            Some('O'),
        ],
    );
    let player = Player { value: 'O' };
    assert_eq!(game.calculate_state(&player), State::Draw);
}

#[test]
fn continue_game() {
    let game = position(
        3,
        vec![Some('O'), None, None, None, None, None, None, None, None],
    );
    let player = Player { value: 'O' };
    assert_eq!(game.calculate_state(&player), State::Continue);
}

#[test]
fn new_board_is_empty_and_open() {
    for square in 1..=6usize {
        let game = TikTakToe::new(square);
        assert_eq!(game.size(), square);
        assert_eq!(game.get_board().len(), square * square);
        assert!(game.get_board().iter().all(|cell| cell.is_none()));
        assert_eq!(*game.get_state(), State::Continue);
    }
}

#[test]
fn board_without_cells_is_drawn() {
    let mut game = TikTakToe::new(0);
    assert_eq!(game.size(), 0);
    assert!(game.get_board().is_empty());
    assert_eq!(*game.get_state(), State::Draw);
    let player = Player { value: 'X' };
    assert_eq!(game.calculate_state(&player), State::Draw);
    game.play_action(&player, 0);
    assert!(game.get_board().is_empty());
    assert_eq!(*game.get_state(), State::Draw);
    let taken_up = position(0, Vec::new());
    assert_eq!(*taken_up.get_state(), State::Draw);
}

#[test]
fn play_then_classify() {
    let mut game = TikTakToe::new(3);
    game.play_action(&Player { value: 'X' }, 3);
    let mut expected = vec![None; 9];
    expected[3] = Some('X');
    assert_eq!(*game.get_board(), expected);
    assert_eq!(*game.get_state(), State::Continue);
}

#[test]
fn second_request_for_a_cell_changes_nothing() {
    let mut game = TikTakToe::new(3);
    let player = Player { value: 'X' };
    game.play_action(&player, 4);
    let mut expected = vec![None; 9];
    expected[4] = Some('X');
    assert_eq!(*game.get_board(), expected);
    game.play_action(&player, 4);
    assert_eq!(*game.get_board(), expected);
    assert_eq!(*game.get_state(), State::Continue);
    game.play_action(&Player { value: 'O' }, 4);
    assert_eq!(*game.get_board(), expected);
    assert_eq!(*game.get_state(), State::Continue);
}

#[test]
fn won_game_is_frozen() {
    let mut game = TikTakToe::new(2);
    let x = Player { value: 'X' };
    let o = Player { value: 'O' };
    game.play_action(&x, 0);
    game.play_action(&o, 2);
    game.play_action(&x, 1);
    assert_eq!(*game.get_state(), win(vec![0, 1]));
    let board = game.get_board().clone();
    for index in 0..6 {
        game.play_action(&o, index);
        game.play_action(&x, index);
        assert_eq!(*game.get_board(), board);
        assert_eq!(*game.get_state(), win(vec![0, 1]));
    }
}

#[test]
fn drawn_game_is_frozen() {
    let mut game = position(
        3,
        vec![
            Some('O'),
            Some('O'),
            Some('X'),
            Some('X'),
            Some('X'),
            Some('O'),
            Some('O'),
            None,
            Some('O'),
        ],
    );
    game.play_action(&Player { value: 'X' }, 7);
    assert_eq!(*game.get_state(), State::Draw);
    let board = game.get_board().clone();
    for index in 0..12 {
        game.play_action(&Player { value: 'O' }, index);
        assert_eq!(*game.get_board(), board);
        assert_eq!(*game.get_state(), State::Draw);
    }
}

#[test]
fn index_outside_board_changes_nothing() {
    for square in 0..=5usize {
        let mut game = TikTakToe::new(square);
        let state = if square == 0 { State::Draw } else { State::Continue };
        for index in [square * square, square * square + 1, 1000, usize::MAX] {
            game.play_action(&Player { value: 'X' }, index);
            assert_eq!(*game.get_board(), vec![None; square * square]);
            assert_eq!(*game.get_state(), state);
        }
    }
}

#[test]
fn occupied_cell_is_not_overwritten() {
    let mut game = TikTakToe::new(3);
    game.play_action(&Player { value: 'X' }, 0);
    game.play_action(&Player { value: 'O' }, 0);
    assert_eq!(game.get_board()[0], Some('X'));
}

#[test]
fn column_is_examined_before_a_later_row() {
    let game = position(2, vec![Some('X'), None, Some('X'), Some('X')]);
    assert_eq!(game.calculate_state(&Player { value: 'X' }), win(vec![0, 2]));
}

#[test]
fn row_is_examined_before_its_column() {
    let game = position(2, vec![Some('X'), Some('X'), Some('X'), None]);
    assert_eq!(game.calculate_state(&Player { value: 'X' }), win(vec![0, 1]));
}

#[test]
fn lines_come_before_diagonals() {
    let game = position(2, vec![Some('X'), None, Some('X'), Some('X')]);
    assert_eq!(game.calculate_state(&Player { value: 'X' }), win(vec![0, 2]));
    let game = position(2, vec![Some('X'), None, None, Some('X')]);
    assert_eq!(game.calculate_state(&Player { value: 'X' }), win(vec![0, 3]));
    let game = position(2, vec![None, Some('X'), Some('X'), None]);
    assert_eq!(game.calculate_state(&Player { value: 'X' }), win(vec![1, 2]));
    let game = position(
        3,
        vec![
            Some('X'),
            None,
            Some('X'),
            None,
            Some('X'),
            None,
            Some('X'),
            None,
            Some('X'),
        ],
    );
    assert_eq!(game.calculate_state(&Player { value: 'X' }), win(vec![0, 4, 8]));
}

#[test]
fn single_cell_board_is_won_by_the_first_move() {
    let mut game = TikTakToe::new(1);
    game.play_action(&Player { value: 'O' }, 0);
    assert_eq!(*game.get_board(), vec![Some('O')]);
    assert_eq!(*game.get_state(), win(vec![0]));
}

#[test]
fn only_the_mover_is_classified() {
    let game = position(
        3,
        vec![
            Some('X'),
            Some('X'),
            Some('X'),
            Some('O'),
            Some('O'),
            None,
            None,
            None,
            None,
        ],
    );
    assert_eq!(game.calculate_state(&Player { value: 'O' }), State::Continue);
    assert_eq!(game.calculate_state(&Player { value: 'X' }), win(vec![0, 1, 2]));
}

#[test]
fn full_board_held_by_the_other_player_is_a_draw_for_the_mover() {
    let game = position(2, vec![Some('X'), Some('X'), Some('O'), Some('X')]);
    assert_eq!(game.calculate_state(&Player { value: 'O' }), State::Draw);
}

#[test]
fn marks_are_compared_without_case() {
    let game = position(
        3,
        vec![
            Some('x'),
            Some('X'),
            Some('x'),
            None,
            None,
            None,
            None,
            None,
            None,
        ],
    );
    assert_eq!(game.calculate_state(&Player { value: 'X' }), win(vec![0, 1, 2]));
    assert_eq!(game.calculate_state(&Player { value: 'x' }), win(vec![0, 1, 2]));
    assert!(marks_match('a', 'A'));
    assert!(marks_match('Z', 'z'));
    assert!(marks_match('q', 'q'));
    assert!(marks_match('7', '7'));
    assert!(!marks_match('a', 'b'));
    assert!(!marks_match('@', '`'));
    assert!(!marks_match('[', '{'));
    assert!(!marks_match('é', 'É'));
    assert!(!marks_match('k', '\u{212a}'));
}

#[test]
fn marks_match_as_the_standard_comparison_does() {
    let samples = [
        '\0', '\t', ' ', '0', '9', '@', 'A', 'M', 'Z', '[', '`', 'a', 'm', 'z', '{', '\u{7f}',
        '\u{80}', 'À', 'à', 'É', 'é', '\u{212a}', '\u{d7ff}', '\u{e000}', '\u{10ffff}',
    ];
    for left in samples {
        for right in samples {
            assert_eq!(marks_match(left, right), left.eq_ignore_ascii_case(&right));
        }
    }
}

#[test]
fn empty_cell_matches_no_mark() {
    assert!(!check_eq_from_option_char(&None, &'X'));
    assert!(!check_eq_from_option_char(&None, &' '));
    assert!(check_eq_from_option_char(&Some('X'), &'X'));
    assert!(check_eq_from_option_char(&Some('x'), &'X'));
    assert!(!check_eq_from_option_char(&Some('O'), &'X'));
}

#[test]
fn has_winner_gives_the_line_back() {
    let game = position(2, vec![Some('X'), Some('o'), None, Some('O')]);
    let o = Player { value: 'O' };
    assert_eq!(
        game.has_winner(vec![1, 3], &o),
        Some(WinData { board_indexes: vec![1, 3] })
    );
    assert_eq!(game.has_winner(vec![3, 1, 1], &o), Some(WinData { board_indexes: vec![3, 1, 1] }));
    assert_eq!(game.has_winner(vec![0, 1], &o), None);
    assert_eq!(game.has_winner(vec![2, 3], &o), None);
    assert_eq!(game.has_winner(Vec::new(), &o), Some(WinData { board_indexes: Vec::new() }));
}

#[test]
fn is_full_tells_whether_a_cell_is_left() {
    assert!(position(2, vec![Some('X'), Some('O'), Some('O'), Some('X')]).is_full());
    assert!(!position(2, vec![Some('X'), Some('O'), None, Some('X')]).is_full());
    assert!(!TikTakToe::new(1).is_full());
    assert!(TikTakToe::new(0).is_full());
}

#[test]
fn position_needs_a_square_board() {
    assert!(TikTakToe::from_board(3, vec![None; 8]).is_none());
    assert!(TikTakToe::from_board(3, vec![None; 10]).is_none());
    assert!(TikTakToe::from_board(0, vec![None; 1]).is_none());
    assert!(TikTakToe::from_board(usize::MAX, vec![None; 1]).is_none());
    let game = position(2, vec![None, Some('X'), None, None]);
    assert_eq!(game.size(), 2);
    assert_eq!(*game.get_board(), vec![None, Some('X'), None, None]);
    assert_eq!(*game.get_state(), State::Continue);
}

#[test]
fn full_game_on_a_large_board() {
    let mut game = TikTakToe::new(4);
    let x = Player { value: 'X' };
    let o = Player { value: 'O' };
    for (index, player) in [(3, &x), (0, &o), (6, &x), (1, &o), (9, &x), (2, &o)] {
        game.play_action(player, index);
        assert_eq!(*game.get_state(), State::Continue);
    }
    game.play_action(&x, 12);
    assert_eq!(*game.get_state(), win(vec![3, 6, 9, 12]));
}

#[test]
fn every_mark_matches_as_the_standard_comparison_does() {
    let others = ['A', 'a', 'K', 'k', 'Z', 'z', '@', '[', '`', '{', '5', 'é', '\u{212a}'];
    for code in 0..=0x10ffffu32 {
        if let Some(mark) = char::from_u32(code) {
            assert!(marks_match(mark, mark));
            for other in others {
                assert_eq!(marks_match(mark, other), mark.eq_ignore_ascii_case(&other));
                assert_eq!(marks_match(other, mark), other.eq_ignore_ascii_case(&mark));
            }
        }
    }
}

#[test]
fn accepted_move_is_reported() {
    let mut game = TikTakToe::new(3);
    assert_eq!(game.try_play_action(&Player { value: 'X' }, 3), Ok(()));
    let mut expected = vec![None; 9];
    expected[3] = Some('X');
    assert_eq!(*game.get_board(), expected);
    assert_eq!(*game.get_state(), State::Continue);
}

#[test]
fn rejected_move_says_why() {
    let x = Player { value: 'X' };
    let o = Player { value: 'O' };
    let mut game = TikTakToe::new(2);
    assert_eq!(game.try_play_action(&x, 4), Err(MoveRejected::OutOfBounds));
    assert_eq!(game.try_play_action(&x, usize::MAX), Err(MoveRejected::OutOfBounds));
    assert_eq!(game.try_play_action(&x, 0), Ok(()));
    assert_eq!(game.try_play_action(&o, 0), Err(MoveRejected::CellOccupied));
    assert_eq!(game.try_play_action(&x, 0), Err(MoveRejected::CellOccupied));
    assert_eq!(*game.get_board(), vec![Some('X'), None, None, None]);
    assert_eq!(game.try_play_action(&o, 2), Ok(()));
    assert_eq!(game.try_play_action(&x, 1), Ok(()));
    assert_eq!(*game.get_state(), win(vec![0, 1]));
    assert_eq!(game.try_play_action(&o, 3), Err(MoveRejected::GameOver));
    assert_eq!(game.try_play_action(&o, 0), Err(MoveRejected::GameOver));
    assert_eq!(game.try_play_action(&o, 9), Err(MoveRejected::GameOver));
    assert_eq!(*game.get_board(), vec![Some('X'), Some('X'), Some('O'), None]);
    let mut empty = TikTakToe::new(0);
    assert_eq!(empty.try_play_action(&x, 0), Err(MoveRejected::GameOver));
}

#[test]
fn last_cell_without_a_line_draws_the_game() {
    let x = Player { value: 'X' };
    let o = Player { value: 'O' };
    let mut game = TikTakToe::new(3);
    for (index, player) in [
        (0, &x),
        (1, &o),
        (2, &x),
        (4, &o),
        (3, &x),
        (5, &o),
        (7, &x),
        (6, &o),
    ] {
        assert_eq!(game.try_play_action(player, index), Ok(()));
        assert_eq!(*game.get_state(), State::Continue);
    }
    assert_eq!(game.try_play_action(&x, 8), Ok(()));
    assert_eq!(*game.get_state(), State::Draw);
}
