use tictactoe::{
    ActiveGame, Game, Player, Square, SquareOccupied, State, StdInFailure, StringIsNotASquare,
    TicTacToeError,
};

fn active(g: Game) -> ActiveGame {
    match g {
        Game::Active(a) => a,
        Game::Final(_) => panic!("expected an active game"),
    }
}

#[test]
fn parse_accepts_the_nine_square_names() {
    let cases = [
        ("1", Square::I1),
        ("2", Square::I2),
        ("3", Square::I3),
        ("4", Square::I4),
        ("5", Square::I5),
        ("6", Square::I6),
        ("7", Square::I7),
        ("8", Square::I8),
        ("9", Square::I9),
    ];
    for (text, sq) in cases {
        assert_eq!(Square::parse(text.to_string()), Ok(sq));
    }
}

#[test]
fn parse_rejects_other_text_and_keeps_it() {
    let bad = ["0", "10", "", " 1", "1 ", "x", "!", "99", "one"];
    for text in bad {
        let e = Square::parse(text.to_string()).expect_err("not a square name");
        assert_eq!(e.string, text.to_string());
    }
}

#[test]
fn parse_round_trips_every_square() {
    let squares = [
        Square::I1,
        Square::I2,
        Square::I3,
        Square::I4,
        Square::I5,
        Square::I6,
        Square::I7,
        Square::I8,
        Square::I9,
    ];
    for sq in squares {
        assert_eq!(Square::parse(sq.to_text()), Ok(sq));
    }
}

#[test]
fn square_and_player_labels() {
    assert_eq!(Square::I1.to_text(), "1");
    assert_eq!(Square::I5.to_text(), "5");
    assert_eq!(Square::I9.to_text(), "9");
    assert_eq!(Player::X.to_text(), "X");
    assert_eq!(Player::O.to_text(), "O");
}

#[test]
fn error_messages_name_what_went_wrong() {
    let occupied = SquareOccupied { sq: Square::I1 };
    assert_eq!(occupied.message(), "Location 1 is already taken.");
    let not_a_square = StringIsNotASquare { string: "zap".to_string() };
    assert_eq!(not_a_square.message(), "Squares are numbered 1-9. zap is invalid.");
    let input = StdInFailure {};
    assert_eq!(input.message(), "System error reading input");
    assert_eq!(
        TicTacToeError::SquareOccupied(occupied).message(),
        "Location 1 is already taken."
    );
    assert_eq!(
        TicTacToeError::StringIsNotASquare(not_a_square).message(),
        "Squares are numbered 1-9. zap is invalid."
    );
    assert_eq!(
        TicTacToeError::StdInFailure(input).message(),
        "System error reading input"
    );
}

#[test]
fn errors_wrap_into_the_shared_error_type() {
    let occupied = SquareOccupied { sq: Square::I2 };
    assert_eq!(
        TicTacToeError::from(occupied),
        TicTacToeError::SquareOccupied(occupied)
    );
    let not_a_square = StringIsNotASquare { string: "q".to_string() };
    assert_eq!(
        TicTacToeError::from(not_a_square.clone()),
        TicTacToeError::StringIsNotASquare(not_a_square)
    );
    assert_eq!(
        TicTacToeError::from(StdInFailure {}),
        TicTacToeError::StdInFailure(StdInFailure {})
    );
}

#[test]
fn new_game_renders_whose_turn_and_the_numbered_grid() {
    let g = Game::new();
    assert_eq!(
        g.render(),
        "::    X's Turn    ::\n  <1> | <2> | <3>\n  <4> | <5> | <6>\n  <7> | <8> | <9>"
    );
}

#[test]
fn turn_header_follows_the_active_player() {
    let a = active(Game::new());
    let g = a.take_turn(Square::I1).expect("empty board");
    assert_eq!(
        g.render(),
        "::    O's Turn    ::\n   X  | <2> | <3>\n  <4> | <5> | <6>\n  <7> | <8> | <9>"
    );
}

#[test]
fn won_game_renders_the_winner_and_the_final_grid() {
    // X wins the left column 1, 4, 7
    let mut g = Game::new();
    for sq in [Square::I1, Square::I2, Square::I4, Square::I5, Square::I7] {
        g = active(g).take_turn(sq).expect("square unexpectedly occupied");
    }
    match &g {
        Game::Final(f) => assert_eq!(f.state, State::Win(Player::X)),
        Game::Active(_) => panic!("expected a finished game"),
    }
    assert_eq!(
        g.render(),
        ":: Player X Wins! ::\n   X  |  O  | <3>\n   X  |  O  | <6>\n   X  | <8> | <9>"
    );
}

#[test]
fn tied_game_renders_the_tie_header() {
    let mut g = Game::new();
    for sq in [
        Square::I1,
        Square::I3,
        Square::I2,
        Square::I4,
        Square::I6,
        Square::I5,
        Square::I7,
        Square::I9,
        Square::I8,
    ] {
        g = active(g).take_turn(sq).expect("square unexpectedly occupied");
    }
    assert_eq!(
        g.render(),
        "::    Tie Game!   ::\n   X  |  X  |  O \n   O  |  O  |  X \n   X  |  X  |  O "
    );
}
