use chess_engine::{Board, Color, Game, GameResult, Kind, Move, Piece, Position, Square};

fn at(name: &str) -> Position {
    Position::pgn(name).unwrap()
}

fn play(game: &mut Game, text: &str) -> GameResult {
    game.apply(Move::parse(text.to_string()).unwrap())
}

fn piece(color: Color, kind: Kind) -> Square {
    Square::Occupied(Piece { color, kind })
}

fn board_with(pieces: &[(&str, Color, Kind)]) -> Board {
    let mut b = Board::empty();
    for (name, color, kind) in pieces {
        b.set_square(at(name), piece(*color, *kind));
    }
    b
}

#[test]
fn pawn_double_step_from_start() {
    let mut g = Game::new();
    match play(&mut g, "e2 e4") {
        GameResult::Continuing(b) => {
            assert_eq!(b.square(at("e4")), piece(Color::White, Kind::Pawn));
            assert_eq!(b.square(at("e2")), Square::Empty);
            assert_eq!(b.en_passant, Some(at("e3")));
        }
        other => panic!("unexpected {:?}", other),
    }
    assert_eq!(g.turn, Color::Black);
}

#[test]
fn single_step_sets_no_target() {
    let mut g = Game::new();
    match play(&mut g, "e2 e3") {
        GameResult::Continuing(b) => assert_eq!(b.en_passant, None),
        other => panic!("unexpected {:?}", other),
    }
}

#[test]
fn no_en_passant_from_fourth_rank() {
    let mut g = Game::new();
    play(&mut g, "e2 e4");
    match play(&mut g, "d7 d5") {
        GameResult::Continuing(b) => assert_eq!(b.en_passant, Some(at("d6"))),
        other => panic!("unexpected {:?}", other),
    }
    let m = Move::Piece(at("e4"), at("d6"));
    assert_eq!(g.apply(m), GameResult::IllegalMove(m));
    assert_eq!(g.turn, Color::White);
}

#[test]
fn en_passant_right_after_double_step() {
    let mut g = Game::new();
    for m in ["e2 e4", "a7 a6", "e4 e5", "d7 d5"] {
        assert!(matches!(play(&mut g, m), GameResult::Continuing(_)));
    }
    match play(&mut g, "e5 d6") {
        GameResult::Continuing(b) => {
            assert_eq!(b.square(at("d6")), piece(Color::White, Kind::Pawn));
            assert_eq!(b.square(at("d5")), Square::Empty);
            assert_eq!(b.square(at("e5")), Square::Empty);
        }
        other => panic!("unexpected {:?}", other),
    }
}

#[test]
fn en_passant_expires_after_one_ply() {
    let mut g = Game::new();
    for m in ["e2 e4", "a7 a6", "e4 e5", "d7 d5", "h2 h3", "h7 h6"] {
        assert!(matches!(play(&mut g, m), GameResult::Continuing(_)));
    }
    let m = Move::Piece(at("e5"), at("d6"));
    assert_eq!(g.apply(m), GameResult::IllegalMove(m));
}

#[test]
fn fools_mate() {
    let mut g = Game::new();
    for m in ["f2 f3", "e7 e5", "g2 g4"] {
        assert!(matches!(play(&mut g, m), GameResult::Continuing(_)));
    }
    assert_eq!(play(&mut g, "d8 h4"), GameResult::Victory(Color::Black));
    // the game is over: any further move reports the same result
    assert_eq!(play(&mut g, "e2 e4"), GameResult::Victory(Color::Black));
    assert_eq!(g.turn, Color::Black);
}

#[test]
fn stalemate_is_not_victory() {
    let b = board_with(&[
        ("a8", Color::Black, Kind::King),
        ("b6", Color::White, Kind::King),
        ("d7", Color::White, Kind::Queen),
    ]);
    let mut g = Game::from_board(b, Color::White);
    assert_eq!(play(&mut g, "d7 c7"), GameResult::Stalemate);
    assert!(g.board.legal_moves(Color::Black).is_empty());
    assert!(!g.board.king_in_check(Color::Black));
}

#[test]
fn knight_to_e4_does_not_parse() {
    assert!(Move::parse("knight to e4".to_string()).is_err());
}

#[test]
fn pawn_cannot_jump_three() {
    let m = Move::parse("e2e5".to_string()).unwrap();
    assert_eq!(m, Move::Piece(at("e2"), at("e5")));
    let mut g = Game::new();
    assert_eq!(g.apply(m), GameResult::IllegalMove(m));
    assert_eq!(g.turn, Color::White);
    assert_eq!(g.board, Board::start());
}

#[test]
fn resign_on_first_move() {
    let mut g = Game::new();
    assert_eq!(g.apply(Move::Resign), GameResult::Victory(Color::Black));
    let mut g = Game::new();
    play(&mut g, "e2 e4");
    assert_eq!(play(&mut g, "resign"), GameResult::Victory(Color::White));
}

#[test]
fn pinned_rook_cannot_leave_file() {
    let b = board_with(&[
        ("e1", Color::White, Kind::King),
        ("e2", Color::White, Kind::Rook),
        ("e8", Color::Black, Kind::Rook),
        ("a8", Color::Black, Kind::King),
    ]);
    let m = Move::Piece(at("e2"), at("d2"));
    assert!(b.is_pseudo_legal(m, Color::White));
    assert!(!b.is_legal(m, Color::White));
    assert!(b.is_legal(Move::Piece(at("e2"), at("e5")), Color::White));
}

#[test]
fn insufficient_material_cases() {
    let kk = board_with(&[("e1", Color::White, Kind::King), ("e8", Color::Black, Kind::King)]);
    assert!(kk.insufficient_material());
    let knk = board_with(&[
        ("e1", Color::White, Kind::King),
        ("g1", Color::White, Kind::Knight),
        ("e8", Color::Black, Kind::King),
    ]);
    assert!(knk.insufficient_material());
    let kbkb = board_with(&[
        ("e1", Color::White, Kind::King),
        ("c1", Color::White, Kind::Bishop),
        ("e8", Color::Black, Kind::King),
        ("f8", Color::Black, Kind::Bishop),
    ]);
    assert!(kbkb.insufficient_material());
    let krk = board_with(&[
        ("e1", Color::White, Kind::King),
        ("a1", Color::White, Kind::Rook),
        ("e8", Color::Black, Kind::King),
    ]);
    assert!(!krk.insufficient_material());
    let kbnk = board_with(&[
        ("e1", Color::White, Kind::King),
        ("c1", Color::White, Kind::Bishop),
        ("g1", Color::White, Kind::Knight),
        ("e8", Color::Black, Kind::King),
    ]);
    assert!(!kbnk.insufficient_material());
    assert!(!Board::start().insufficient_material());
}

#[test]
fn capture_to_bare_kings_is_drawn() {
    let b = board_with(&[
        ("e1", Color::White, Kind::King),
        ("c3", Color::White, Kind::Knight),
        ("e8", Color::Black, Kind::King),
        ("d5", Color::Black, Kind::Queen),
    ]);
    let mut g = Game::from_board(b, Color::White);
    assert_eq!(play(&mut g, "c3 d5"), GameResult::Stalemate);
}

fn castling_board() -> Board {
    let mut b = board_with(&[
        ("e1", Color::White, Kind::King),
        ("a1", Color::White, Kind::Rook),
        ("h1", Color::White, Kind::Rook),
        ("e8", Color::Black, Kind::King),
        ("a7", Color::Black, Kind::Pawn),
    ]);
    b.rights.white_king_side = true;
    b.rights.white_queen_side = true;
    b
}

#[test]
fn castling_both_sides() {
    let b = castling_board();
    let mut g = Game::from_board(b.clone(), Color::White);
    match play(&mut g, "O-O") {
        GameResult::Continuing(n) => {
            assert_eq!(n.square(at("g1")), piece(Color::White, Kind::King));
            assert_eq!(n.square(at("f1")), piece(Color::White, Kind::Rook));
            assert_eq!(n.square(at("e1")), Square::Empty);
            assert_eq!(n.square(at("h1")), Square::Empty);
            assert!(!n.rights.white_king_side && !n.rights.white_queen_side);
        }
        other => panic!("unexpected {:?}", other),
    }
    let mut g = Game::from_board(b, Color::White);
    match play(&mut g, "castle queenside") {
        GameResult::Continuing(n) => {
            assert_eq!(n.square(at("c1")), piece(Color::White, Kind::King));
            assert_eq!(n.square(at("d1")), piece(Color::White, Kind::Rook));
        }
        other => panic!("unexpected {:?}", other),
    }
}

#[test]
fn castling_through_attacked_square_is_illegal() {
    let mut b = castling_board();
    b.set_square(at("f8"), piece(Color::Black, Kind::Rook));
    assert!(!b.is_legal(Move::KingSideCastle, Color::White));
    assert!(b.is_legal(Move::QueenSideCastle, Color::White));
}

#[test]
fn castling_needs_empty_squares_and_right() {
    let mut b = castling_board();
    b.set_square(at("b1"), piece(Color::White, Kind::Knight));
    assert!(!b.is_legal(Move::QueenSideCastle, Color::White));
    let mut c = castling_board();
    c.rights.white_king_side = false;
    assert!(!c.is_legal(Move::KingSideCastle, Color::White));
    assert!(!Board::start().is_legal(Move::KingSideCastle, Color::White));
}

#[test]
fn castling_out_of_check_is_illegal() {
    let mut b = castling_board();
    b.set_square(at("e5"), piece(Color::Black, Kind::Rook));
    assert!(!b.is_legal(Move::KingSideCastle, Color::White));
    assert!(!b.is_legal(Move::QueenSideCastle, Color::White));
}

#[test]
fn king_step_and_back_loses_castling() {
    let mut g = Game::from_board(castling_board(), Color::White);
    for m in ["e1 f1", "a7 a6", "f1 e1", "a6 a5"] {
        assert!(matches!(play(&mut g, m), GameResult::Continuing(_)));
    }
    assert!(!g.board.rights.white_king_side);
    assert!(!g.board.rights.white_queen_side);
    assert!(matches!(play(&mut g, "O-O"), GameResult::IllegalMove(Move::KingSideCastle)));
}

#[test]
fn rook_move_loses_one_side() {
    let mut g = Game::from_board(castling_board(), Color::White);
    play(&mut g, "h1 h2");
    assert!(!g.board.rights.white_king_side);
    assert!(g.board.rights.white_queen_side);
}

#[test]
fn promotion_moves() {
    let b = board_with(&[
        ("a7", Color::White, Kind::Pawn),
        ("e1", Color::White, Kind::King),
        ("h5", Color::Black, Kind::King),
        ("h7", Color::Black, Kind::Pawn),
    ]);
    let mut g = Game::from_board(b.clone(), Color::White);
    match play(&mut g, "a7 to a8 knight") {
        GameResult::Continuing(n) => {
            assert_eq!(n.square(at("a8")), piece(Color::White, Kind::Knight))
        }
        other => panic!("unexpected {:?}", other),
    }
    let mut g = Game::from_board(b.clone(), Color::White);
    match play(&mut g, "a7a8") {
        GameResult::Continuing(n) => {
            assert_eq!(n.square(at("a8")), piece(Color::White, Kind::Queen))
        }
        other => panic!("unexpected {:?}", other),
    }
    let mut g = Game::from_board(b, Color::White);
    let m = Move::Promotion(at("a7"), at("a8"), Kind::King);
    assert_eq!(g.apply(m), GameResult::IllegalMove(m));
}

#[test]
fn king_cannot_walk_into_check() {
    let b = board_with(&[
        ("e1", Color::White, Kind::King),
        ("d8", Color::Black, Kind::Rook),
        ("h8", Color::Black, Kind::King),
    ]);
    assert!(!b.is_legal(Move::Piece(at("e1"), at("d1")), Color::White));
    assert!(b.is_legal(Move::Piece(at("e1"), at("f1")), Color::White));
    assert!(b.is_attacked(at("d2"), Color::Black));
    assert!(!b.is_attacked(at("e2"), Color::Black));
}

#[test]
fn start_position_has_twenty_moves() {
    let b = Board::start();
    let mut n = 0;
    for f1 in 0..8u8 {
        for r1 in 0..8u8 {
            for f2 in 0..8u8 {
                for r2 in 0..8u8 {
                    let m = Move::Piece(Position { file: f1, rank: r1 }, Position { file: f2, rank: r2 });
                    if b.is_legal(m, Color::White) {
                        n += 1;
                    }
                }
            }
        }
    }
    assert_eq!(n, 20);
    let moves = b.legal_moves(Color::White);
    assert_eq!(moves.len(), 20);
    assert!(moves.contains(&Move::Piece(at("g1"), at("f3"))));
    assert!(moves.contains(&Move::Piece(at("e2"), at("e4"))));
    assert!(!moves.contains(&Move::Piece(at("e2"), at("e5"))));
    assert!(b.has_any_legal_move(Color::Black));
    assert!(b.first_legal_move(Color::White).is_some());
    assert!(!b.king_in_check(Color::White));
}

#[test]
fn blocked_slider_cannot_pass() {
    let b = Board::start();
    assert!(!b.is_legal(Move::Piece(at("a1"), at("a3")), Color::White));
    assert!(!b.is_legal(Move::Piece(at("f1"), at("c4")), Color::White));
    assert!(b.is_legal(Move::Piece(at("g1"), at("f3")), Color::White));
    assert!(!b.is_legal(Move::Piece(at("e7"), at("e5")), Color::White));
}

#[test]
fn start_has_one_king_each() {
    let b = Board::start();
    assert_eq!(b.count_of(piece(Color::White, Kind::King)), 1);
    assert_eq!(b.count_of(piece(Color::Black, Kind::King)), 1);
    assert_eq!(b.count_of(piece(Color::White, Kind::Pawn)), 8);
    assert_eq!(b.count_of(Square::Empty), 32);
}
