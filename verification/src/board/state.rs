//! Sides, states of a game, and the record of a turn.
use crate::piece::position::Position;
use crate::piece::Type;
use crate::result::OkMovement;
use vstd::prelude::*;

verus! {

/// The two sides of a game.
#[derive(Copy, Clone, PartialEq, Eq, PartialOrd, Ord, Debug, Structural)]
pub enum Color {
    White,
    Black,
}

impl Color {
    /// The opposing side.
    pub open spec fn opponent(self) -> Color {
        match self {
            Color::White => Color::Black,
            Color::Black => Color::White,
        }
    }

    /// Rank direction in which this side's pawns advance.
    pub open spec fn forward(self) -> int {
        match self {
            Color::White => 1,
            Color::Black => -1,
        }
    }

    /// Rank on which this side's pawns start.
    pub open spec fn pawn_rank(self) -> int {
        match self {
            Color::White => 1,
            Color::Black => 6,
        }
    }

    /// Rank on which this side's pawns promote.
    pub open spec fn promotion_rank(self) -> int {
        match self {
            Color::White => 7,
            Color::Black => 0,
        }
    }

    /// The opposing side.
    pub fn other(&self) -> (r: Color)
        ensures
            r == self.opponent(),
    {
        match self {
            Color::White => Color::Black,
            Color::Black => Color::White,
        }
    }

    /// English name of the side.
    pub fn name(&self) -> (r: &'static str)
        ensures
            *self == Color::White ==> r@ == "White"@,
            *self == Color::Black ==> r@ == "Black"@,
    {
        match self {
            Color::White => "White",
            Color::Black => "Black",
        }
    }
}

/// Top-level state of a game.
#[derive(Copy, Clone, PartialEq, Eq, Debug, Structural)]
pub enum GameState {
    /// A pawn of the given side stands on its last rank, on the given
    /// square, and the side has yet to choose what it becomes.
    WaitingPromotion(Color, Position),
    InProgress,
    Winner(Color),
    Draw,
}

/// What a side did on its turn.
#[derive(Copy, Clone, PartialEq, Eq, Debug, Structural)]
pub enum TurnMovement {
    Move(OkMovement),
    Promotion(Position, Type),
}

/// One entry of a board's history: what was done, by whom, and the
/// state the board was left in.
#[derive(Copy, Clone, PartialEq, Eq, Debug, Structural)]
pub struct Turn {
    pub color: Color,
    pub number: usize,
    pub movement: TurnMovement,
    pub state: GameState,
    pub check: Option<Color>,
    pub white_king_position: Option<Position>,
    pub black_king_position: Option<Position>,
}

} // verus!
