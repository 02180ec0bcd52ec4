use chess_engine::{Color, Kind, Move, Position};

fn at(file: u8, rank: u8) -> Position {
    Position { file, rank }
}

fn parse(s: &str) -> Result<Move, String> {
    Move::parse(s.to_string())
}

#[test]
fn parses_resign() {
    assert_eq!(parse("resign"), Ok(Move::Resign));
    assert_eq!(parse("resigns"), Ok(Move::Resign));
    assert_eq!(parse("  resign \n"), Ok(Move::Resign));
}

#[test]
fn parses_castling_forms() {
    for s in ["O-O-O", "0-0-0", "o-o-o", "castle queenside", "queenside castle"] {
        assert_eq!(parse(s), Ok(Move::QueenSideCastle));
    }
    for s in ["O-O", "0-0", "o-o", "castle kingside", "kingside castle"] {
        assert_eq!(parse(s), Ok(Move::KingSideCastle));
    }
    assert!(parse("castle  kingside").is_err());
}

#[test]
fn parses_square_pairs() {
    let e2e4 = Move::Piece(at(4, 1), at(4, 3));
    assert_eq!(parse("e2e4"), Ok(e2e4));
    assert_eq!(parse("e2 e4"), Ok(e2e4));
    assert_eq!(parse("e2 to e4"), Ok(e2e4));
    assert_eq!(parse("  e2   to\te4 "), Ok(e2e4));
    assert_eq!(parse("E2 E4"), Ok(e2e4));
    assert_eq!(parse("a1 h8"), Ok(Move::Piece(at(0, 0), at(7, 7))));
}

#[test]
fn parses_promotion() {
    assert_eq!(
        parse("e7 to e8 queen"),
        Ok(Move::Promotion(at(4, 6), at(4, 7), Kind::Queen))
    );
    assert_eq!(
        parse("b2 to b1 knight"),
        Ok(Move::Promotion(at(1, 1), at(1, 0), Kind::Knight))
    );
    assert!(parse("e7 to e8 king").is_err());
    assert!(parse("e7 to e8 pawn").is_err());
    assert!(parse("e7 to e8 dragon").is_err());
}

#[test]
fn rejects_malformed_text() {
    for s in ["", "Qxe4", "e2", "e2 e9", "i2 i4", "e2 from e4", "e2e4e6", "e2 to e4 queen now", "knight to e4"] {
        assert!(parse(s).is_err(), "{}", s);
    }
}

#[test]
fn square_names() {
    assert_eq!(Position::pgn("e4"), Ok(at(4, 3)));
    assert_eq!(Position::pgn("h8"), Ok(at(7, 7)));
    assert!(Position::pgn("e0").is_err());
    assert!(Position::pgn("e44").is_err());
    assert_eq!(Position::new(4, 3), Some(at(4, 3)));
    assert_eq!(Position::new(8, 0), None);
    assert_eq!(at(4, 3).offset(1, -1), Some(at(5, 2)));
    assert_eq!(at(0, 0).offset(-1, 0), None);
}

#[test]
fn color_names_and_negation() {
    assert_eq!(Color::White.name(), "White");
    assert_eq!(Color::Black.name(), "Black");
    assert_eq!(!Color::White, Color::Black);
    assert_eq!(Color::Black.other(), Color::White);
}

#[test]
fn writes_moves_out() {
    assert_eq!(Move::Piece(at(4, 1), at(4, 3)).text(), "e2 to e4");
    assert_eq!(
        Move::Promotion(at(0, 6), at(0, 7), Kind::Queen).text(),
        "a7 to a8 queen"
    );
    assert_eq!(Move::KingSideCastle.text(), "O-O");
    assert_eq!(Move::QueenSideCastle.text(), "O-O-O");
    assert_eq!(Move::Resign.text(), "Resign");
    assert_eq!(at(7, 7).text(), "h8");
    assert_eq!(at(0, 0).text(), "a1");
}

#[test]
fn written_moves_read_back() {
    for m in [
        Move::Piece(at(6, 0), at(5, 2)),
        Move::Promotion(at(1, 1), at(1, 0), Kind::Rook),
        Move::KingSideCastle,
        Move::QueenSideCastle,
    ] {
        assert_eq!(parse(&m.text()), Ok(m));
    }
}

fn err(s: &str) -> Result<Move, String> {
    Err(s.to_string())
}

#[test]
fn bad_shapes_name_the_trimmed_text() {
    assert_eq!(parse("e2 at e4"), err("invalid move format `e2 at e4`"));
    assert_eq!(parse("  e2 at e4 "), err("invalid move format `e2 at e4`"));
    assert_eq!(parse("Resign"), err("invalid move format `Resign`"));
    assert_eq!(parse(""), err("invalid move format ``"));
    assert_eq!(parse("   "), err("invalid move format ``"));
    assert_eq!(parse("knight to e4"), err("invalid square `knight`"));
}

#[test]
fn bad_squares_give_the_square_error() {
    assert_eq!(parse("e2 to e9"), err("invalid square `e9`"));
    assert_eq!(parse("x2 e9"), err("invalid square `x2`"));
    assert_eq!(parse("e2e9"), err("invalid square `e9`"));
    assert_eq!(parse("Qxe4"), err("invalid square `Qx`"));
    assert_eq!(Position::pgn("e9"), Err("invalid square `e9`".to_string()));
}

#[test]
fn promotion_errors_in_order() {
    assert_eq!(parse("e7 to e8 king"), err("invalid promotion"));
    assert_eq!(parse("z7 to z8 pawn"), err("invalid promotion"));
    assert_eq!(parse("e7 to x8 dragon"), err("invalid piece `dragon`"));
    assert_eq!(parse("z7 to e8 queen"), err("invalid square `z7`"));
    assert_eq!(parse("e7 to e9 queen"), err("invalid square `e9`"));
}

#[test]
fn unicode_white_space_is_white_space() {
    assert_eq!(parse("\u{3000}resign"), Ok(Move::Resign));
    assert_eq!(parse("resign\u{85}"), Ok(Move::Resign));
    assert_eq!(parse("e2\u{a0}e4"), Ok(Move::Piece(at(4, 1), at(4, 3))));
    assert_eq!(parse("e2\u{2003}to\u{202f}e4"), Ok(Move::Piece(at(4, 1), at(4, 3))));
}

#[test]
fn try_from_reads_like_parse() {
    assert_eq!(Move::try_from("e2e4".to_string()), Ok(Move::Piece(at(4, 1), at(4, 3))));
    assert_eq!(Move::try_from("e2 at e4".to_string()), err("invalid move format `e2 at e4`"));
}

#[test]
fn far_offsets_leave_the_board() {
    assert_eq!(at(4, 3).offset(i32::MAX, 0), None);
    assert_eq!(at(4, 3).offset(0, i32::MIN), None);
    assert_eq!(at(7, 7).offset(-7, -7), Some(at(0, 0)));
}
