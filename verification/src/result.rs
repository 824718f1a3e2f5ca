//! Accepted moves and the reasons for refusing one.
use crate::piece::position::Position;
use crate::piece::{ChessPiece, Type};
use vstd::prelude::*;

verus! {

/// Why a promotion was refused.
#[derive(Debug, Clone, Copy, Eq, PartialEq, Structural)]
pub enum PromotionError {
    /// A pawn cannot become a piece of this type.
    InvalidPromotion(Type),
    /// No promotion is pending for the side that asked.
    NoPromotion,
}

impl PromotionError {
    /// Human-readable description: for a refused kind, the words
    /// `Invalid promotion to: ` and the figurine of the kind.
    pub fn message(&self) -> (r: String)
        ensures
            r@ == match *self {
                PromotionError::InvalidPromotion(t) => "Invalid promotion to: "@ + t.figurine(),
                PromotionError::NoPromotion => "No promotion"@,
            },
    {
        match self {
            PromotionError::InvalidPromotion(piece) => {
                let mut out = String::from_str("Invalid promotion to: ");
                out.append(piece.glyph());
                out
            },
            PromotionError::NoPromotion => String::from_str("No promotion"),
        }
    }
}

/// Why a move was refused.
#[derive(Debug, Clone, Copy, Eq, PartialEq, Structural)]
pub enum MovementError {
    InvalidMovement,
    InvalidPiece,
    CheckNotResolved,
    CreatesOwnCheck,
    SamePosition,
    PromotionNotSpecified,
    GameIsOver,
}

impl MovementError {
    /// Human-readable description.
    pub fn message(&self) -> (r: &'static str)
        ensures
            *self == MovementError::InvalidMovement ==> r@ == "Invalid movement"@,
            *self == MovementError::InvalidPiece ==> r@ == "Invalid piece"@,
            *self == MovementError::CheckNotResolved ==> r@ == "Check not resolved"@,
            *self == MovementError::CreatesOwnCheck ==> r@ == "Creates own check"@,
            *self == MovementError::SamePosition ==> r@ == "Same position"@,
            *self == MovementError::PromotionNotSpecified ==> r@ == "Promotion not specified"@,
            *self == MovementError::GameIsOver ==> r@ == "Game is over"@,
    {
        match self {
            MovementError::InvalidMovement => "Invalid movement",
            MovementError::InvalidPiece => "Invalid piece",
            MovementError::CheckNotResolved => "Check not resolved",
            MovementError::CreatesOwnCheck => "Creates own check",
            MovementError::SamePosition => "Same position",
            MovementError::PromotionNotSpecified => "Promotion not specified",
            MovementError::GameIsOver => "Game is over",
        }
    }
}

/// How a legal move changes the board, beyond taking the mover from
/// one square to another.
#[derive(Debug, Clone, Copy, Eq, PartialEq, Structural)]
pub enum MovementType {
    /// The destination was empty.
    Valid,
    /// The destination held this enemy piece.
    Capture(ChessPiece),
    /// A pawn takes this enemy pawn, which stands beside it.
    EnPassant(ChessPiece),
    /// The king castles; the rook goes from the first square to the
    /// second.
    Castling(Position, Position),
    /// A pawn advances two squares from its starting rank.
    InitialDoubleAdvance,
}

/// A move that the rules accept, classified.
#[derive(Debug, Clone, Copy, Eq, PartialEq, Structural)]
pub struct OkMovement {
    /// The piece as it stood before the move.
    pub mover: ChessPiece,
    pub movement_type: MovementType,
    pub from: Position,
    pub to: Position,
}

impl OkMovement {
    /// Whether the move takes a king.
    pub open spec fn takes_king(self) -> bool {
        match self.movement_type {
            MovementType::Capture(c) => c.piece_type == Type::King,
            _ => false,
        }
    }
}

} // verus!
