//! A player that moves at random.
use crate::board::{legal_moves_spec, Board};
use crate::laws::lemma_legal_moves_exact;
use crate::piece::position::Position;
use crate::piece::{ChessPiece, Type};
use crate::rules::legal;
use vstd::prelude::*;

verus! {

/// Draws a number with `rand::random`, from the generator that `rand`
/// keeps for the thread. Nothing is claimed of the number: each call
/// may give any value. Where the system has no entropy to seed the
/// generator with, `rand` stops the thread.
#[verifier::external_body]
fn random_number() -> (r: usize) {
    rand::random::<usize>()
}

/// The move that a drawn number selects among the given moves: the one
/// at the index that is the number modulo the count of moves.
pub fn pick_move(moves: &Vec<(Position, Position)>, drawn: usize) -> (m: (Position, Position))
    requires
        moves@.len() > 0,
    ensures
        m == moves@[(drawn as int) % (moves@.len() as int)],
        moves@.contains(m),
{
    moves[drawn % moves.len()]
}

/// A move for the side to move, drawn at random among those open to
/// it. The side must have a move.
pub fn make_move(board: &Board) -> (m: (Position, Position))
    requires
        legal_moves_spec(board@).len() > 0,
    ensures
        legal_moves_spec(board@).contains(m),
        legal(board@.placement(), board@.turn, m.0, m.1),
{
    let valid_moves = board.legal_moves();
    let rand_value = random_number();
    proof {
        lemma_legal_moves_exact(board@);
    }
    pick_move(&valid_moves, rand_value)
}

/// The piece that the side to move promotes to: always a queen.
pub fn make_promotion(board: &Board) -> (r: ChessPiece)
    ensures
        r == (ChessPiece { piece_type: Type::Queen, color: board@.turn, moved: false }),
{
    return ChessPiece::create_queen(board.get_turn());
}

} // verus!
