use tictactoe::{new, ActiveGame, FinalGame, Game, Player, Square, State};

fn active(g: Game) -> ActiveGame {
    match g {
        Game::Active(a) => a,
        Game::Final(_) => panic!("expected an active game"),
    }
}

fn finished(g: Game) -> FinalGame {
    match g {
        Game::Final(f) => f,
        Game::Active(_) => panic!("expected a finished game"),
    }
}

fn play(moves: &[Square]) -> Game {
    let mut g = Game::new();
    for sq in moves {
        let a = active(g);
        g = a.take_turn(*sq).expect("square unexpectedly occupied");
    }
    g
}

fn all_squares() -> [Square; 9] {
    [
        Square::I1,
        Square::I2,
        Square::I3,
        Square::I4,
        Square::I5,
        Square::I6,
        Square::I7,
        Square::I8,
        Square::I9,
    ]
}

#[test]
fn new_game_is_active_with_empty_board() {
    let a = active(Game::new());
    for sq in all_squares() {
        assert_eq!(a.board.get(sq), None);
    }
    assert_eq!(a.board.piece_count(Player::X), 0);
    assert_eq!(a.board.piece_count(Player::O), 0);
    assert_eq!(a.active_player(), Player::X);
}

#[test]
fn board_place_records_one_piece() {
    let b = new();
    let b2 = b.place(Square::I5, Player::X).expect("empty square");
    assert_eq!(b2.get(Square::I5), Some(Player::X));
    assert_eq!(b2.piece_count(Player::X), 1);
    assert_eq!(b2.piece_count(Player::O), 0);
    // the board placed on is untouched
    assert_eq!(b.get(Square::I5), None);
    assert_eq!(b.piece_count(Player::X), 0);
}

#[test]
fn board_place_on_occupied_square_fails() {
    let b = new();
    let b2 = b.place(Square::I5, Player::X).expect("empty square");
    let e = b2.place(Square::I5, Player::O).expect_err("occupied square");
    assert_eq!(e.sq, Square::I5);
    // the failed placement changed nothing
    assert_eq!(b2.get(Square::I5), Some(Player::X));
    assert_eq!(b2.piece_count(Player::X), 1);
    assert_eq!(b2.piece_count(Player::O), 0);
}

#[test]
fn second_move_on_same_square_fails_and_board_keeps_one_piece() {
    let a = active(Game::new());
    let a2 = active(a.take_turn(Square::I1).expect("empty board"));
    let e = a2.take_turn(Square::I1).expect_err("occupied square");
    assert_eq!(e.sq, Square::I1);
    // the caller keeps its active game, which still shows exactly one piece
    assert_eq!(a2.board.get(Square::I1), Some(Player::X));
    assert_eq!(a2.board.piece_count(Player::X), 1);
    assert_eq!(a2.board.piece_count(Player::O), 0);
    // and the turn order did not advance: it is still O's move
    assert_eq!(a2.active_player(), Player::O);
}

#[test]
fn turn_order_alternates_from_x() {
    let moves = [
        Square::I1,
        Square::I3,
        Square::I2,
        Square::I4,
        Square::I6,
        Square::I5,
        Square::I7,
        Square::I9,
    ];
    let mut g = Game::new();
    let mut expected = Player::X;
    for sq in moves {
        let a = active(g);
        assert_eq!(a.active_player(), expected);
        let xs = a.board.piece_count(Player::X);
        let os = a.board.piece_count(Player::O);
        if expected == Player::X {
            assert_eq!(xs, os);
        } else {
            assert_ne!(xs, os);
        }
        g = a.take_turn(sq).expect("square unexpectedly occupied");
        expected = if expected == Player::X { Player::O } else { Player::X };
    }
}

#[test]
fn left_column_win_after_fifth_move() {
    // X plays 1, 4, 7 (the left column) while O plays 2, 5
    let before = play(&[Square::I1, Square::I2, Square::I4, Square::I5]);
    let a = active(before);
    let f = finished(a.take_turn(Square::I7).expect("empty square"));
    assert_eq!(f.state, State::Win(Player::X));
    assert_eq!(f.board.get(Square::I1), Some(Player::X));
    assert_eq!(f.board.get(Square::I4), Some(Player::X));
    assert_eq!(f.board.get(Square::I7), Some(Player::X));
    assert_eq!(f.board.get(Square::I2), Some(Player::O));
    assert_eq!(f.board.get(Square::I5), Some(Player::O));
    assert_eq!(f.board.piece_count(Player::X), 3);
    assert_eq!(f.board.piece_count(Player::O), 2);
}

#[test]
fn every_line_wins_the_moment_its_third_cell_is_placed() {
    let lines = [
        [Square::I1, Square::I2, Square::I3],
        [Square::I4, Square::I5, Square::I6],
        [Square::I7, Square::I8, Square::I9],
        [Square::I1, Square::I4, Square::I7],
        [Square::I2, Square::I5, Square::I8],
        [Square::I3, Square::I6, Square::I9],
        [Square::I1, Square::I5, Square::I9],
        [Square::I7, Square::I5, Square::I3],
    ];
    for line in lines {
        // O answers on the first two squares outside the line
        let squares = all_squares();
        let mut others = squares
            .iter()
            .filter(|sq| !line.contains(sq))
            .copied();
        let o1 = others.next().unwrap();
        let o2 = others.next().unwrap();
        let before = play(&[line[0], o1, line[1], o2]);
        // not won yet: the line's third cell is still empty
        let a = active(before);
        let f = finished(a.take_turn(line[2]).expect("empty square"));
        assert_eq!(f.state, State::Win(Player::X));
    }
}

#[test]
fn counting_up_the_squares_wins_on_the_seventh_move() {
    // playing 1, 2, 3, ... in order gives X the odd squares; 3, 5, 7 is a
    // diagonal, so X wins the moment 7 is placed
    let before = play(&[
        Square::I1,
        Square::I2,
        Square::I3,
        Square::I4,
        Square::I5,
        Square::I6,
    ]);
    let a = active(before);
    let f = finished(a.take_turn(Square::I7).expect("empty square"));
    assert_eq!(f.state, State::Win(Player::X));
    assert_eq!(f.board.piece_count(Player::X), 4);
    assert_eq!(f.board.piece_count(Player::O), 3);
}

#[test]
fn full_board_with_no_line_is_a_tie() {
    // X takes 1, 2, 6, 7, 8 and O takes 3, 4, 5, 9: no line for either
    let g = play(&[
        Square::I1,
        Square::I3,
        Square::I2,
        Square::I4,
        Square::I6,
        Square::I5,
        Square::I7,
        Square::I9,
        Square::I8,
    ]);
    let f = finished(g);
    assert_eq!(f.state, State::Tie);
    assert_eq!(f.board.piece_count(Player::X), 5);
    assert_eq!(f.board.piece_count(Player::O), 4);
    for sq in all_squares() {
        assert_ne!(f.board.get(sq), None);
    }
}

#[test]
fn ninth_move_that_completes_a_line_is_a_win_not_a_tie() {
    // the final move at 8 both fills the board and completes the middle
    // column 2, 5, 8 for X
    let g = play(&[
        Square::I1,
        Square::I3,
        Square::I2,
        Square::I4,
        Square::I5,
        Square::I7,
        Square::I6,
        Square::I9,
        Square::I8,
    ]);
    let f = finished(g);
    assert_eq!(f.state, State::Win(Player::X));
    assert_eq!(f.board.piece_count(Player::X), 5);
    assert_eq!(f.board.piece_count(Player::O), 4);
}

#[test]
fn nine_distinct_moves_leave_five_x_and_four_o() {
    // any game that runs all nine moves ends with X on 5 pieces and O on 4,
    // whether the last move wins or ties
    let tie = finished(play(&[
        Square::I1,
        Square::I3,
        Square::I2,
        Square::I4,
        Square::I6,
        Square::I5,
        Square::I7,
        Square::I9,
        Square::I8,
    ]));
    assert_eq!(tie.board.piece_count(Player::X), 5);
    assert_eq!(tie.board.piece_count(Player::O), 4);
    let win = finished(play(&[
        Square::I1,
        Square::I3,
        Square::I2,
        Square::I4,
        Square::I5,
        Square::I7,
        Square::I6,
        Square::I9,
        Square::I8,
    ]));
    assert_eq!(win.board.piece_count(Player::X), 5);
    assert_eq!(win.board.piece_count(Player::O), 4);
}
