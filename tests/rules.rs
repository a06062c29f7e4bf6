use banqi::board::{Board, Cell};
use banqi::command::{parse_input, parse_usize, parse_words, ParseError};
use banqi::engine::{
    check_game_over, flip_all_pieces, flip_piece, move_piece, undo_last_move, ActionType, GameError,
    GameMove,
};
use banqi::piece::{can_capture, piece_symbols, piece_symbols_eng, rank, Piece, PieceType, Player};
use banqi::rules::{is_valid_cannon_capture, is_valid_chariot_move_or_capture, valid_move_for_piece};
use banqi::setup::{init_board, init_board_testing, new_game, standard_pieces, COLS, ROWS};

const KINDS: [PieceType; 7] = [
    PieceType::General,
    PieceType::Advisor,
    PieceType::Elephant,
    PieceType::Chariot,
    PieceType::Horse,
    PieceType::Cannon,
    PieceType::Soldier,
];

fn red(t: PieceType) -> Piece {
    Piece { piece_type: t, player: Player::Red }
}

fn black(t: PieceType) -> Piece {
    Piece { piece_type: t, player: Player::Black }
}

/// A 4 x 8 board, empty but for the given squares, each `(x, y, cell)`.
fn board_with(cells: &[(usize, usize, Cell)]) -> Board {
    let mut rows = vec![vec![Cell::Empty; 8]; 4];
    for &(x, y, c) in cells {
        rows[y][x] = c;
    }
    Board::from_rows(rows).unwrap()
}

fn snapshot(b: &Board) -> Vec<Vec<Cell>> {
    (0..b.rows()).map(|y| (0..b.cols()).map(|x| b.get(x, y).unwrap()).collect()).collect()
}

#[test]
fn soldier_takes_general_but_not_the_reverse() {
    assert!(can_capture(red(PieceType::Soldier), black(PieceType::General)));
    assert!(!can_capture(red(PieceType::General), black(PieceType::Soldier)));
}

#[test]
fn same_kind_may_always_capture() {
    for &k in KINDS.iter() {
        assert!(can_capture(red(k), black(k)), "{:?}", k);
    }
}

#[test]
fn capture_follows_rank_order() {
    assert!(can_capture(red(PieceType::General), black(PieceType::Advisor)));
    assert!(!can_capture(red(PieceType::Advisor), black(PieceType::General)));
    assert!(can_capture(red(PieceType::Chariot), black(PieceType::Horse)));
    assert!(!can_capture(red(PieceType::Horse), black(PieceType::Chariot)));
    assert!(can_capture(red(PieceType::Cannon), black(PieceType::Soldier)));
    assert!(!can_capture(red(PieceType::Soldier), black(PieceType::Cannon)));
    assert_eq!(rank(PieceType::General), 7);
    assert_eq!(rank(PieceType::Elephant), 5);
    assert_eq!(rank(PieceType::Soldier), 1);
}

#[test]
fn chariot_captures_along_clear_row() {
    let mut b = board_with(&[
        (0, 0, Cell::Revealed(red(PieceType::Chariot))),
        (3, 0, Cell::Revealed(black(PieceType::Soldier))),
    ]);
    let m = move_piece(&mut b, 0, 0, 3, 0).unwrap();
    assert_eq!(
        m,
        GameMove {
            action_type: ActionType::Move { from_x: 0, from_y: 0, to_x: 3, to_y: 0 },
            piece: red(PieceType::Chariot),
            captured_piece: Some(black(PieceType::Soldier)),
        }
    );
    assert_eq!(b.get(3, 0), Some(Cell::Revealed(red(PieceType::Chariot))));
    assert_eq!(b.get(0, 0), Some(Cell::Empty));
}

#[test]
fn cannon_capture_needs_exactly_one_screen() {
    let mut b = board_with(&[
        (0, 0, Cell::Revealed(red(PieceType::Cannon))),
        (1, 0, Cell::Revealed(red(PieceType::Horse))),
        (2, 0, Cell::Revealed(black(PieceType::Soldier))),
    ]);
    let before = snapshot(&b);
    let m = move_piece(&mut b, 0, 0, 2, 0).unwrap();
    assert_eq!(m.captured_piece, Some(black(PieceType::Soldier)));
    assert_eq!(b.get(2, 0), Some(Cell::Revealed(red(PieceType::Cannon))));
    let mut history = vec![m];
    undo_last_move(&mut b, &mut history).unwrap();
    assert_eq!(snapshot(&b), before);
    // The screen steps aside (down one row); the same capture now has no screen.
    let step = move_piece(&mut b, 1, 0, 1, 1).unwrap();
    history.push(step);
    let snap = snapshot(&b);
    assert_eq!(move_piece(&mut b, 0, 0, 2, 0), Err(GameError::IllegalCapture));
    assert_eq!(snapshot(&b), snap);
}

#[test]
fn cannon_jump_takes_a_general() {
    let mut b = board_with(&[
        (2, 1, Cell::Revealed(red(PieceType::Cannon))),
        (2, 2, Cell::Hidden(red(PieceType::Soldier))),
        (2, 3, Cell::Revealed(black(PieceType::General))),
    ]);
    assert!(is_valid_cannon_capture(&b, 2, 1, 2, 3));
    let m = move_piece(&mut b, 2, 1, 2, 3).unwrap();
    assert_eq!(m.captured_piece, Some(black(PieceType::General)));
}

#[test]
fn cannon_jump_over_none_or_two_fails() {
    let b = board_with(&[
        (0, 0, Cell::Revealed(red(PieceType::Cannon))),
        (1, 0, Cell::Revealed(red(PieceType::Horse))),
        (2, 0, Cell::Hidden(black(PieceType::Horse))),
        (3, 0, Cell::Revealed(black(PieceType::General))),
        (0, 1, Cell::Revealed(black(PieceType::General))),
    ]);
    assert!(!is_valid_cannon_capture(&b, 0, 0, 3, 0));
    assert!(!is_valid_cannon_capture(&b, 0, 0, 0, 1));
    let mut b2 = b;
    assert_eq!(move_piece(&mut b2, 0, 0, 3, 0), Err(GameError::IllegalCapture));
    assert_eq!(move_piece(&mut b2, 0, 0, 0, 1), Err(GameError::IllegalCapture));
}

#[test]
fn cannon_jump_must_be_straight_and_onto_a_face_up_piece() {
    let b = board_with(&[
        (0, 0, Cell::Revealed(red(PieceType::Cannon))),
        (1, 0, Cell::Revealed(red(PieceType::Horse))),
        (2, 0, Cell::Hidden(black(PieceType::Horse))),
        (2, 2, Cell::Revealed(black(PieceType::Horse))),
    ]);
    assert!(!is_valid_cannon_capture(&b, 0, 0, 2, 0));
    assert!(!is_valid_cannon_capture(&b, 0, 0, 2, 2));
}

#[test]
fn chariot_line_is_blocked_by_any_piece() {
    let b = board_with(&[
        (0, 0, Cell::Revealed(red(PieceType::Chariot))),
        (2, 0, Cell::Hidden(black(PieceType::Soldier))),
        (0, 2, Cell::Revealed(red(PieceType::Soldier))),
        (5, 0, Cell::Revealed(black(PieceType::Soldier))),
    ]);
    assert!(!is_valid_chariot_move_or_capture(&b, 0, 0, 4, 0));
    assert!(!is_valid_chariot_move_or_capture(&b, 0, 0, 5, 0));
    assert!(!is_valid_chariot_move_or_capture(&b, 0, 0, 0, 3));
    assert!(is_valid_chariot_move_or_capture(&b, 0, 0, 1, 0));
    assert!(is_valid_chariot_move_or_capture(&b, 0, 0, 0, 1));
    assert!(!is_valid_chariot_move_or_capture(&b, 0, 0, 0, 0));
    assert!(!is_valid_chariot_move_or_capture(&b, 0, 0, 1, 1));
    // a face-down target is not a destination
    assert!(!is_valid_chariot_move_or_capture(&b, 0, 0, 2, 0));
    let mut b2 = b;
    assert_eq!(move_piece(&mut b2, 0, 0, 4, 0), Err(GameError::IllegalMove));
    assert_eq!(move_piece(&mut b2, 0, 0, 5, 0), Err(GameError::IllegalMove));
}

#[test]
fn chariot_with_clear_line_reaches_empty_and_enemy_squares() {
    let b = board_with(&[
        (7, 3, Cell::Revealed(black(PieceType::Chariot))),
        (7, 0, Cell::Revealed(red(PieceType::Horse))),
        (0, 3, Cell::Revealed(red(PieceType::Advisor))),
    ]);
    assert!(is_valid_chariot_move_or_capture(&b, 7, 3, 7, 0));
    assert!(is_valid_chariot_move_or_capture(&b, 7, 3, 3, 3));
    assert!(is_valid_chariot_move_or_capture(&b, 7, 3, 0, 3));
    let mut b1 = b;
    assert!(move_piece(&mut b1, 7, 3, 7, 0).is_ok());
    let mut b2 = board_with(&[
        (7, 3, Cell::Revealed(black(PieceType::Chariot))),
        (0, 3, Cell::Revealed(red(PieceType::Advisor))),
    ]);
    // the line is clear, but a Chariot may not take an Advisor
    assert_eq!(move_piece(&mut b2, 7, 3, 0, 3), Err(GameError::IllegalCapture));
    assert!(move_piece(&mut b2, 7, 3, 1, 3).is_ok());
}

#[test]
fn ordinary_pieces_step_one_square() {
    let b = board_with(&[(3, 1, Cell::Revealed(red(PieceType::Horse)))]);
    let horse = red(PieceType::Horse);
    assert!(valid_move_for_piece(horse, 3, 1, 3, 0, &b));
    assert!(valid_move_for_piece(horse, 3, 1, 3, 2, &b));
    assert!(valid_move_for_piece(horse, 3, 1, 2, 1, &b));
    assert!(valid_move_for_piece(horse, 3, 1, 4, 1, &b));
    assert!(!valid_move_for_piece(horse, 3, 1, 4, 2, &b));
    assert!(!valid_move_for_piece(horse, 3, 1, 5, 1, &b));
    assert!(!valid_move_for_piece(horse, 3, 1, 3, 1, &b));
    assert!(valid_move_for_piece(red(PieceType::Cannon), 3, 1, 7, 1, &b));
    let mut b2 = b;
    assert_eq!(move_piece(&mut b2, 3, 1, 5, 1), Err(GameError::IllegalMove));
    assert!(move_piece(&mut b2, 3, 1, 4, 1).is_ok());
}

#[test]
fn capture_needs_reach_and_rank() {
    let mut b = board_with(&[
        (0, 0, Cell::Revealed(red(PieceType::General))),
        (2, 0, Cell::Revealed(black(PieceType::Soldier))),
        (0, 1, Cell::Revealed(black(PieceType::Soldier))),
        (1, 0, Cell::Revealed(black(PieceType::Advisor))),
    ]);
    assert_eq!(move_piece(&mut b, 0, 0, 2, 0), Err(GameError::IllegalCapture));
    assert_eq!(move_piece(&mut b, 0, 0, 0, 1), Err(GameError::IllegalCapture));
    let m = move_piece(&mut b, 0, 0, 1, 0).unwrap();
    assert_eq!(m.captured_piece, Some(black(PieceType::Advisor)));
}

#[test]
fn soldier_captures_adjacent_general_on_board() {
    let mut b = board_with(&[
        (4, 2, Cell::Revealed(black(PieceType::Soldier))),
        (4, 1, Cell::Revealed(red(PieceType::General))),
    ]);
    assert_eq!(move_piece(&mut b, 4, 1, 4, 2), Err(GameError::IllegalCapture));
    assert!(move_piece(&mut b, 4, 2, 4, 1).is_ok());
    assert_eq!(b.get(4, 1), Some(Cell::Revealed(black(PieceType::Soldier))));
}

#[test]
fn move_errors() {
    let mut b = board_with(&[
        (0, 0, Cell::Revealed(red(PieceType::Horse))),
        (1, 0, Cell::Revealed(red(PieceType::Soldier))),
        (0, 1, Cell::Hidden(black(PieceType::Soldier))),
    ]);
    let before = snapshot(&b);
    assert_eq!(move_piece(&mut b, 0, 0, 8, 0), Err(GameError::OutOfBounds));
    assert_eq!(move_piece(&mut b, 0, 4, 0, 0), Err(GameError::OutOfBounds));
    assert_eq!(move_piece(&mut b, 5, 2, 5, 3), Err(GameError::NoPieceAtSource));
    assert_eq!(move_piece(&mut b, 0, 1, 0, 2), Err(GameError::NoPieceAtSource));
    assert_eq!(move_piece(&mut b, 0, 0, 1, 0), Err(GameError::IllegalCapture));
    assert_eq!(move_piece(&mut b, 0, 0, 0, 0), Err(GameError::IllegalCapture));
    assert_eq!(move_piece(&mut b, 0, 0, 0, 1), Err(GameError::IllegalMove));
    assert_eq!(snapshot(&b), before);
}

#[test]
fn flip_reveals_and_rejects() {
    let mut b = board_with(&[
        (2, 2, Cell::Hidden(black(PieceType::Elephant))),
        (3, 2, Cell::Revealed(red(PieceType::Elephant))),
    ]);
    let m = flip_piece(&mut b, 2, 2).unwrap();
    assert_eq!(
        m,
        GameMove {
            action_type: ActionType::Flip { x: 2, y: 2 },
            piece: black(PieceType::Elephant),
            captured_piece: None,
        }
    );
    assert_eq!(b.get(2, 2), Some(Cell::Revealed(black(PieceType::Elephant))));
    let before = snapshot(&b);
    assert_eq!(flip_piece(&mut b, 3, 2), Err(GameError::InvalidAction));
    assert_eq!(flip_piece(&mut b, 2, 2), Err(GameError::InvalidAction));
    assert_eq!(flip_piece(&mut b, 0, 0), Err(GameError::InvalidAction));
    assert_eq!(flip_piece(&mut b, 8, 0), Err(GameError::OutOfBounds));
    assert_eq!(flip_piece(&mut b, 0, 4), Err(GameError::OutOfBounds));
    assert_eq!(flip_piece(&mut b, usize::MAX, usize::MAX), Err(GameError::OutOfBounds));
    assert_eq!(snapshot(&b), before);
}

#[test]
fn undo_unwinds_history_to_the_start() {
    let mut b = board_with(&[
        (0, 0, Cell::Hidden(red(PieceType::Horse))),
        (1, 0, Cell::Hidden(black(PieceType::Soldier))),
        (3, 0, Cell::Hidden(black(PieceType::Soldier))),
    ]);
    let start = snapshot(&b);
    let mut history: Vec<GameMove> = Vec::new();
    // states[i] is the board while the history holds i entries
    let mut states = vec![snapshot(&b)];
    history.push(flip_piece(&mut b, 0, 0).unwrap());
    states.push(snapshot(&b));
    history.push(flip_piece(&mut b, 1, 0).unwrap());
    states.push(snapshot(&b));
    let capture = move_piece(&mut b, 0, 0, 1, 0).unwrap();
    assert_eq!(capture.captured_piece, Some(black(PieceType::Soldier)));
    history.push(capture);
    states.push(snapshot(&b));
    history.push(move_piece(&mut b, 1, 0, 1, 1).unwrap());
    while !history.is_empty() {
        undo_last_move(&mut b, &mut history).unwrap();
        assert_eq!(snapshot(&b), states[history.len()]);
    }
    assert_eq!(snapshot(&b), start);
    assert_eq!(b.get(1, 0), Some(Cell::Hidden(black(PieceType::Soldier))));
    assert_eq!(undo_last_move(&mut b, &mut history), Err(GameError::NothingToUndo));
    assert_eq!(snapshot(&b), start);
}

#[test]
fn game_over_waits_for_hidden_pieces() {
    let b = board_with(&[
        (0, 0, Cell::Hidden(red(PieceType::Horse))),
        (5, 3, Cell::Revealed(black(PieceType::Soldier))),
    ]);
    assert!(!check_game_over(&b));
    let b = board_with(&[(0, 0, Cell::Hidden(red(PieceType::Horse)))]);
    assert!(!check_game_over(&b));
}

#[test]
fn game_over_when_a_side_is_gone() {
    let b = board_with(&[(5, 3, Cell::Revealed(black(PieceType::Soldier)))]);
    assert!(check_game_over(&b));
    let b = board_with(&[(5, 3, Cell::Revealed(red(PieceType::Soldier)))]);
    assert!(check_game_over(&b));
    let b = board_with(&[]);
    assert!(check_game_over(&b));
    let b = board_with(&[
        (5, 3, Cell::Revealed(red(PieceType::Soldier))),
        (7, 0, Cell::Revealed(black(PieceType::Soldier))),
    ]);
    assert!(!check_game_over(&b));
}

#[test]
fn flip_all_reveals_every_hidden_piece() {
    let mut b = board_with(&[
        (0, 0, Cell::Hidden(red(PieceType::Horse))),
        (7, 3, Cell::Hidden(black(PieceType::Cannon))),
        (4, 2, Cell::Revealed(black(PieceType::Advisor))),
    ]);
    flip_all_pieces(&mut b);
    assert_eq!(b.get(0, 0), Some(Cell::Revealed(red(PieceType::Horse))));
    assert_eq!(b.get(7, 3), Some(Cell::Revealed(black(PieceType::Cannon))));
    assert_eq!(b.get(4, 2), Some(Cell::Revealed(black(PieceType::Advisor))));
    assert_eq!(b.get(1, 1), Some(Cell::Empty));
}

#[test]
fn practice_layout() {
    let b = init_board_testing();
    assert_eq!((b.rows(), b.cols()), (4, 8));
    assert_eq!(b.get(1, 3), Some(Cell::Revealed(red(PieceType::Cannon))));
    assert_eq!(b.get(1, 0), Some(Cell::Revealed(black(PieceType::Cannon))));
    assert_eq!(b.get(0, 3), Some(Cell::Revealed(red(PieceType::Chariot))));
    assert_eq!(b.get(0, 0), Some(Cell::Revealed(black(PieceType::Chariot))));
    assert_eq!(b.get(1, 2), Some(Cell::Revealed(black(PieceType::Soldier))));
    assert_eq!(b.get(0, 1), Some(Cell::Revealed(red(PieceType::Soldier))));
    let occupied = snapshot(&b).iter().flatten().filter(|c| **c != Cell::Empty).count();
    assert_eq!(occupied, 6);
    // the Red Cannon jumps the Black Soldier onto the Black Cannon
    let mut b = b;
    let m = move_piece(&mut b, 1, 3, 1, 0);
    assert_eq!(m.map(|m| m.captured_piece), Ok(Some(black(PieceType::Cannon))));
    assert!(move_piece(&mut b, 0, 3, 0, 2).is_ok());
    assert_eq!(move_piece(&mut b, 0, 2, 0, 1), Err(GameError::IllegalCapture));
}

fn count_kind(pieces: &[Piece], p: Piece) -> usize {
    pieces.iter().filter(|q| **q == p).count()
}

#[test]
fn standard_set_has_sixteen_pieces_a_side() {
    let pieces = standard_pieces();
    assert_eq!(pieces.len(), 32);
    let expected = [1, 2, 2, 2, 2, 2, 5];
    for (k, n) in KINDS.iter().zip(expected.iter()) {
        assert_eq!(count_kind(&pieces, red(*k)), *n);
        assert_eq!(count_kind(&pieces, black(*k)), *n);
    }
    assert_eq!(pieces[0], red(PieceType::General));
    assert_eq!(pieces[16], black(PieceType::General));
}

#[test]
fn new_game_deals_in_reading_order() {
    let pieces = vec![
        red(PieceType::General),
        red(PieceType::Soldier),
        black(PieceType::Horse),
        black(PieceType::Cannon),
        red(PieceType::Advisor),
        black(PieceType::Elephant),
    ];
    let b = new_game(2, 3, &pieces);
    assert_eq!((b.rows(), b.cols()), (2, 3));
    assert_eq!(b.get(0, 0), Some(Cell::Hidden(red(PieceType::General))));
    assert_eq!(b.get(2, 0), Some(Cell::Hidden(black(PieceType::Horse))));
    assert_eq!(b.get(0, 1), Some(Cell::Hidden(black(PieceType::Cannon))));
    assert_eq!(b.get(2, 1), Some(Cell::Hidden(black(PieceType::Elephant))));
    assert_eq!(b.get(3, 0), None);
}

#[test]
fn shuffled_board_holds_the_full_set_face_down() {
    let b = init_board();
    assert_eq!((b.rows(), b.cols()), (ROWS, COLS));
    let mut dealt = Vec::new();
    for row in snapshot(&b) {
        for c in row {
            match c {
                Cell::Hidden(p) => dealt.push(p),
                other => panic!("not face down: {:?}", other),
            }
        }
    }
    let set = standard_pieces();
    for p in set.iter() {
        assert_eq!(count_kind(&dealt, *p), count_kind(&set, *p));
    }
    assert!(!check_game_over(&b));
}

#[test]
fn rows_must_agree_in_length() {
    assert!(Board::from_rows(vec![vec![Cell::Empty; 3], vec![Cell::Empty; 2]]).is_none());
    let b = Board::from_rows(vec![vec![Cell::Empty; 3], vec![Cell::Empty; 3]]).unwrap();
    assert_eq!((b.rows(), b.cols()), (2, 3));
    assert_eq!(b.get(3, 0), None);
    assert_eq!(b.get(0, 2), None);
    assert!(b.contains(2, 1));
    let empty = Board::empty(0, 0);
    assert_eq!((empty.rows(), empty.cols()), (0, 0));
    assert!(!check_game_over(&Board::from_rows(vec![vec![Cell::Hidden(red(PieceType::Horse))]]).unwrap()));
}

#[test]
fn symbol_tables() {
    assert_eq!(piece_symbols(Player::Red, PieceType::General), "帥");
    assert_eq!(piece_symbols(Player::Black, PieceType::General), "將");
    assert_eq!(piece_symbols(Player::Black, PieceType::Soldier), "卒");
    assert_eq!(piece_symbols(Player::Red, PieceType::Cannon), "炮");
    assert_eq!(piece_symbols_eng(Player::Red, PieceType::Horse), "RH");
    assert_eq!(piece_symbols_eng(Player::Black, PieceType::Cannon), "BC");
    assert_eq!(piece_symbols_eng(Player::Black, PieceType::Chariot), "BC");
}

#[test]
fn error_messages() {
    assert_eq!(GameError::OutOfBounds.message(), "Coordinates out of bounds.");
    assert_eq!(GameError::NothingToUndo.message(), "No moves to undo.");
    assert_eq!(ParseError::MissingCommand.message(), "Missing command");
}

#[test]
fn parse_command_lines() {
    assert_eq!(parse_input("  move 1 2\t3  4 \n"), Ok(("move".to_string(), vec![1, 2, 3, 4])));
    assert_eq!(parse_input("flip +7 0"), Ok(("flip".to_string(), vec![7, 0])));
    assert_eq!(parse_input("undo"), Ok(("undo".to_string(), vec![])));
    assert_eq!(parse_input("   "), Err(ParseError::MissingCommand));
    assert_eq!(parse_input(""), Err(ParseError::MissingCommand));
    assert_eq!(parse_input("flip a 1"), Err(ParseError::InvalidCoordinates));
    assert_eq!(parse_input("flip -1 1"), Err(ParseError::InvalidCoordinates));
    assert_eq!(parse_input("flip + 1"), Err(ParseError::InvalidCoordinates));
    assert_eq!(parse_input("flip 99999999999999999999999 1"), Err(ParseError::InvalidCoordinates));
}

#[test]
fn parse_word_lists() {
    let words = vec!["move".to_string(), "12".to_string(), "0".to_string()];
    assert_eq!(parse_words(words), Ok(("move".to_string(), vec![12, 0])));
    assert_eq!(parse_words(vec![]), Err(ParseError::MissingCommand));
    assert_eq!(
        parse_words(vec!["flip".to_string(), "1x".to_string()]),
        Err(ParseError::InvalidCoordinates)
    );
}

#[test]
fn capture_table_is_consulted_before_reach() {
    let mut b = board_with(&[
        (0, 0, Cell::Revealed(red(PieceType::Soldier))),
        (2, 0, Cell::Revealed(black(PieceType::Advisor))),
        (0, 2, Cell::Revealed(red(PieceType::Advisor))),
        (2, 2, Cell::Revealed(black(PieceType::Soldier))),
    ]);
    let before = snapshot(&b);
    // forbidden by rank and out of reach: the rank decides
    assert_eq!(move_piece(&mut b, 0, 0, 2, 0), Err(GameError::IllegalCapture));
    // allowed by rank but out of reach
    assert_eq!(move_piece(&mut b, 0, 2, 2, 2), Err(GameError::IllegalMove));
    assert_eq!(snapshot(&b), before);
}

#[test]
fn decimal_numbers() {
    assert_eq!(parse_usize("0"), Some(0));
    assert_eq!(parse_usize("007"), Some(7));
    assert_eq!(parse_usize("+42"), Some(42));
    assert_eq!(parse_usize("18446744073709551615"), "18446744073709551615".parse::<usize>().ok());
    assert_eq!(parse_usize("99999999999999999999999"), None);
    assert_eq!(parse_usize(""), None);
    assert_eq!(parse_usize("+"), None);
    assert_eq!(parse_usize("++1"), None);
    assert_eq!(parse_usize("-1"), None);
    assert_eq!(parse_usize("1 "), None);
    assert_eq!(parse_usize("١٢"), None);
    assert_eq!(parse_usize("12a"), None);
    assert_eq!(parse_usize("4294967296"), "4294967296".parse::<usize>().ok());
}
