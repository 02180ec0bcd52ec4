//! The turn-by-turn game state machine.
use vstd::prelude::*;
use crate::color::{opponent, Color};
use crate::moves::Move;
use crate::board::{start_state, Board};
use crate::rules::{apply_move, has_legal_move, in_check, insufficient, legal, BoardState};

verus! {

/// The outcome of the move just played.
#[derive(Clone, Debug, PartialEq, Eq)]
pub enum GameResult {
    /// The game goes on; this is the board after the move.
    Continuing(Board),
    /// The game is over and this color won, by checkmate or resignation.
    Victory(Color),
    /// The game is drawn: the player to move has no move and is not in check,
    /// or neither side has material enough to force checkmate.
    Stalemate,
    /// The move breaks the rules; nothing changed and the same player moves.
    IllegalMove(Move),
}

/// How a finished game ended.
#[derive(Clone, Copy, Debug, PartialEq, Eq, Structural, PartialOrd, Ord, Hash)]
pub enum GameOver {
    Victory(Color),
    Stalemate,
}

/// The result that reports a finished game.
pub open spec fn result_of(o: GameOver) -> GameResult {
    match o {
        GameOver::Victory(c) => GameResult::Victory(c),
        GameOver::Stalemate => GameResult::Stalemate,
    }
}

/// How the game stands once `mover` has produced board `v`: the opponent is
/// checkmated, stalemated, short of material on both sides, or plays on.
pub open spec fn verdict(v: BoardState, mover: Color) -> Option<GameOver> {
    let e = opponent(mover);
    if !has_legal_move(v, e) {
        if in_check(v, e) {
            Some(GameOver::Victory(mover))
        } else {
            Some(GameOver::Stalemate)
        }
    } else if insufficient(v) {
        Some(GameOver::Stalemate)
    } else {
        None
    }
}

/// A game: the board, the color to move, and how it ended once it has.
#[derive(Clone, Debug, PartialEq, Eq)]
pub struct Game {
    pub board: Board,
    pub turn: Color,
    pub over: Option<GameOver>,
}

fn report(o: GameOver) -> (r: GameResult)
    ensures
        r == result_of(o),
{
    match o {
        GameOver::Victory(c) => GameResult::Victory(c),
        GameOver::Stalemate => GameResult::Stalemate,
    }
}

impl Game {
    pub open spec fn wf(&self) -> bool {
        self.board.wf()
    }

    /// A new game from the standard position, White to move.
    pub fn new() -> (g: Game)
        ensures
            g.wf(),
            g.board@ == start_state(),
            g.turn == Color::White,
            g.over is None,
    {
        Game { board: Board::start(), turn: Color::White, over: None }
    }

    /// A game that goes on from `board` with `turn` to move.
    pub fn from_board(board: Board, turn: Color) -> (g: Game)
        requires
            board.wf(),
        ensures
            g.wf(),
            g.board == board,
            g.turn == turn,
            g.over is None,
    {
        Game { board, turn, over: None }
    }

    /// Plays `m` for the color to move.
    ///
    /// Once the game is over every move is answered with the result that
    /// ended it, and nothing changes.
    pub fn apply(&mut self, m: Move) -> (r: GameResult)
        requires
            old(self).wf(),
        ensures
            final(self).wf(),
            old(self).over is Some ==> *final(self) == *old(self) && r == result_of(
                old(self).over->Some_0,
            ),
            old(self).over is None && m is Resign ==> {
                &&& final(self).over == Some(GameOver::Victory(opponent(old(self).turn)))
                &&& r == GameResult::Victory(opponent(old(self).turn))
                &&& final(self).board == old(self).board
                &&& final(self).turn == old(self).turn
            },
            old(self).over is None && !(m is Resign) && !legal(old(self).board@, m, old(self).turn)
                ==> *final(self) == *old(self) && r == GameResult::IllegalMove(m),
            old(self).over is None && legal(old(self).board@, m, old(self).turn) ==> {
                let v = apply_move(old(self).board@, m, old(self).turn);
                &&& final(self).board@ == v
                &&& final(self).over == verdict(v, old(self).turn)
                &&& verdict(v, old(self).turn) is Some ==> r == result_of(
                    verdict(v, old(self).turn)->Some_0,
                ) && final(self).turn == old(self).turn
                &&& verdict(v, old(self).turn) is None ==> final(self).turn == opponent(
                    old(self).turn,
                ) && r is Continuing && r->Continuing_0@ == v
            },
    {
        match self.over {
            Some(o) => {
                return report(o);
            },
            None => {},
        }
        let mover = self.turn;
        if let Move::Resign = m {
            let winner = mover.other();
            self.over = Some(GameOver::Victory(winner));
            return GameResult::Victory(winner);
        }
        if !self.board.is_legal(m, mover) {
            return GameResult::IllegalMove(m);
        }
        self.board.apply_raw(m, mover);
        let e = mover.other();
        let v = if !self.board.has_any_legal_move(e) {
            if self.board.king_in_check(e) {
                Some(GameOver::Victory(mover))
            } else {
                Some(GameOver::Stalemate)
            }
        } else if self.board.insufficient_material() {
            Some(GameOver::Stalemate)
        } else {
            None
        };
        self.over = v;
        match v {
            Some(o) => report(o),
            None => {
                self.turn = e;
                GameResult::Continuing(self.board.copy())
            },
        }
    }
}

} // verus!
