//! A deterministic chess rules engine: board legality, move application and
//! the turn-by-turn game state machine, with every rule stated as a contract.

mod color;
mod position;
mod piece;
mod moves;
pub mod rules;
mod board;
mod game;
mod notation;
mod laws;

pub use color::{opponent, Color, BLACK, WHITE};
pub use position::Position;
pub use piece::{Kind, Piece, Square, EMPTY_SQUARE};
pub use moves::{move_on_board, Move};
pub use rules::{BoardState, Rights};
pub use board::{start_state, Board};
pub use notation::{
    move_parsed, move_text, plain_parsed, quoted, square_named, square_parsed, square_text, trim,
    words,
};
pub use laws::{
    castling_legal_iff, castling_legal_iff_conditions, castling_rights_never_return,
    diagonal_to_empty, double_step,
    en_passant_expires, en_passant_needs_target, en_passant_target_only_after_double_step,
    home_square_move_revokes, king_home, king_step_and_back_revokes,
    legal_move_keeps_invariant, legal_move_keeps_one_king_each, legal_move_takes_no_king,
    lemma_count_one_unique,
    lemma_count_positive, lemma_count_update, one_king_each, rook_home,
    self_check_is_illegal,
};
pub use game::{result_of, verdict, Game, GameOver, GameResult};
