//! Pieces and the moves that each kind may make.
use crate::bit_magic::{has_bit, lemma_bit_join};
use crate::board::Board;
use crate::piece::position::square;
use crate::result::{MovementError, MovementType, OkMovement};
use crate::rules::{
    abs, all_squares, can_move_spec, king_move, lemma_filter_step, may_castle, occupancy,
    officer_move, pawn_advance, pawn_move, plain_move, sudo_legal,
};
use vstd::prelude::*;

pub mod order;
pub mod position;

pub use crate::board::state::Color;

use self::position::Position;

verus! {

/// The six kinds of chess piece.
#[derive(Copy, Clone, PartialEq, Eq, PartialOrd, Ord, Debug, Structural)]
pub enum Type {
    Pawn,
    Knight,
    Bishop,
    Rook,
    Queen,
    King,
}

impl Type {
    /// The figurine that stands for this kind of piece, as text.
    pub open spec fn figurine(self) -> Seq<char> {
        match self {
            Type::Pawn => "♙"@,
            Type::Knight => "♘"@,
            Type::Bishop => "♗"@,
            Type::Rook => "♖"@,
            Type::Queen => "♕"@,
            Type::King => "♔"@,
        }
    }

    /// The figurine that stands for this kind of piece.
    pub fn glyph(&self) -> (r: &'static str)
        ensures
            r@ == self.figurine(),
    {
        match self {
            Type::Pawn => "♙",
            Type::Knight => "♘",
            Type::Bishop => "♗",
            Type::Rook => "♖",
            Type::Queen => "♕",
            Type::King => "♔",
        }
    }
}

/// A piece: its kind, its side, and whether it has moved yet.
#[derive(Copy, Clone, PartialEq, Eq, PartialOrd, Ord, Debug, Structural)]
pub struct ChessPiece {
    pub piece_type: Type,
    pub color: Color,
    pub moved: bool,
}

impl ChessPiece {
    /// The same piece, marked as having moved.
    pub open spec fn touched(self) -> ChessPiece {
        ChessPiece { moved: true, ..self }
    }

    /// A piece of the given kind and side that has not moved.
    pub fn new(piece_type: Type, color: Color) -> (r: ChessPiece)
        ensures
            r == (ChessPiece { piece_type, color, moved: false }),
    {
        ChessPiece { piece_type, color, moved: false }
    }

    /// A king that has not moved.
    pub fn create_king(color: Color) -> (r: ChessPiece)
        ensures
            r == (ChessPiece { piece_type: Type::King, color, moved: false }),
    {
        ChessPiece::new(Type::King, color)
    }

    /// A queen that has not moved.
    pub fn create_queen(color: Color) -> (r: ChessPiece)
        ensures
            r == (ChessPiece { piece_type: Type::Queen, color, moved: false }),
    {
        ChessPiece::new(Type::Queen, color)
    }

    /// A bishop that has not moved.
    pub fn create_bishop(color: Color) -> (r: ChessPiece)
        ensures
            r == (ChessPiece { piece_type: Type::Bishop, color, moved: false }),
    {
        ChessPiece::new(Type::Bishop, color)
    }

    /// A knight that has not moved.
    pub fn create_knight(color: Color) -> (r: ChessPiece)
        ensures
            r == (ChessPiece { piece_type: Type::Knight, color, moved: false }),
    {
        ChessPiece::new(Type::Knight, color)
    }

    /// A rook that has not moved.
    pub fn create_rook(color: Color) -> (r: ChessPiece)
        ensures
            r == (ChessPiece { piece_type: Type::Rook, color, moved: false }),
    {
        ChessPiece::new(Type::Rook, color)
    }

    /// A pawn that has not moved.
    pub fn create_pawn(color: Color) -> (r: ChessPiece)
        ensures
            r == (ChessPiece { piece_type: Type::Pawn, color, moved: false }),
    {
        ChessPiece::new(Type::Pawn, color)
    }

    /// Side of the piece.
    pub fn get_color(&self) -> (r: Color)
        ensures
            r == self.color,
    {
        self.color
    }

    /// Kind of the piece.
    pub fn get_type(&self) -> (r: Type)
        ensures
            r == self.piece_type,
    {
        self.piece_type
    }

    /// Says whether this piece, standing on `from`, may go to `to`, and
    /// classifies the move. A move that the rules of its kind allow is
    /// refused where it would leave the mover's king in check.
    pub fn can_move(&self, from: Position, to: Position, board: &Board) -> (r: Result<
        OkMovement,
        MovementError,
    >)
        ensures
            r == can_move_spec(board@.placement(), *self, from, to),
    {
        let movement = match self.sudo_legal_move(from, to, board) {
            Ok(m) => m,
            Err(e) => {
                return Err(e);
            },
        };
        if board.creates_check(movement) {
            return Err(MovementError::CreatesOwnCheck);
        }
        Ok(movement)
    }

    /// The squares to which this piece, standing on `from`, may go, in
    /// the order of their indices.
    pub fn legal_moves(&self, from: Position, board: &Board) -> (r: Vec<Position>)
        ensures
            r@ == all_squares().filter(
                |to: Position| can_move_spec(board@.placement(), *self, from, to) is Ok,
            ),
    {
        let ghost pred = |to: Position| can_move_spec(board@.placement(), *self, from, to) is Ok;
        let mut out: Vec<Position> = Vec::new();
        let mut i: usize = 0;
        assert(all_squares().take(0).filter(pred) =~= Seq::<Position>::empty()) by {
            reveal(Seq::filter);
        }
        while i < 64
            invariant
                i <= 64,
                pred == |to: Position| can_move_spec(board@.placement(), *self, from, to) is Ok,
                out@ == all_squares().take(i as int).filter(pred),
            decreases 64 - i,
        {
            let to = Position::from_index(i);
            proof {
                lemma_filter_step(all_squares(), pred, i as int);
            }
            if self.can_move(from, to, board).is_ok() {
                out.push(to);
            }
            i = i + 1;
        }
        assert(all_squares().take(64) =~= all_squares());
        out
    }

    /// The squares to which this piece, standing on `from`, may go by
    /// the rules of its kind, castling left aside and whether or not
    /// its king is then in check, as a bitboard.
    pub fn attack_board(&self, from: Position, board: &Board) -> (r: u64)
        ensures
            forall|k: u64|
                k < 64 ==> (has_bit(r, k) <==> plain_move(
                    board@.squares,
                    board@.last_movement(),
                    *self,
                    from,
                    square(k as int),
                ) is Ok),
    {
        let mut attack_board: u64 = 0;
        let mut x: u64 = 0;
        proof {
            assert forall|j: u64| j < 64 implies !has_bit(0, j) by {
                lemma_bit_join(0, 0, j);
            }
        }
        while x < 64
            invariant
                x <= 64,
                forall|j: u64|
                    j < 64 ==> (has_bit(attack_board, j) <==> j < x && plain_move(
                        board@.squares,
                        board@.last_movement(),
                        *self,
                        from,
                        square(j as int),
                    ) is Ok),
            decreases 64 - x,
        {
            let ghost before = attack_board;
            let to = Position::from_index(x as usize);
            if self.plain_legal_move(from, to, board).is_ok() {
                attack_board = attack_board | (1u64 << x);
            }
            proof {
                assert forall|j: u64| j < 64 implies (has_bit(attack_board, j) <==> j < x + 1
                    && plain_move(
                    board@.squares,
                    board@.last_movement(),
                    *self,
                    from,
                    square(j as int),
                ) is Ok) by {
                    lemma_bit_join(before, x, j);
                }
            }
            x = x + 1;
        }
        attack_board
    }

    fn sudo_legal_move(&self, from: Position, to: Position, board: &Board) -> (r: Result<
        OkMovement,
        MovementError,
    >)
        ensures
            r == sudo_legal(board@.placement(), *self, from, to),
    {
        match self.piece_type {
            Type::King => {
                if from == to {
                    return Err(MovementError::SamePosition);
                }
                if !from.is_valid() || !to.is_valid() {
                    return Err(MovementError::InvalidMovement);
                }
                self.can_move_king(from, to, board)
            },
            _ => self.plain_legal_move(from, to, board),
        }
    }

    /// What the rules of its kind say of the move, castling left
    /// aside.
    fn plain_legal_move(&self, from: Position, to: Position, board: &Board) -> (r: Result<
        OkMovement,
        MovementError,
    >)
        ensures
            r == plain_move(board@.squares, board@.last_movement(), *self, from, to),
    {
        if from == to {
            return Err(MovementError::SamePosition);
        }
        if !from.is_valid() || !to.is_valid() {
            return Err(MovementError::InvalidMovement);
        }
        match self.piece_type {
            Type::Pawn => self.can_move_pawn(from, to, board),
            Type::Bishop => self.can_move_bishop(from, to, board),
            Type::Rook => self.can_move_rock(from, to, board),
            Type::King => self.can_step_king(from, to, board),
            Type::Knight => self.can_move_knight(from, to, board),
            Type::Queen => self.can_move_queen(from, to, board),
        }
    }

    /// A king's step of one square in any direction.
    fn can_step_king(&self, from: Position, to: Position, board: &Board) -> (r: Result<
        OkMovement,
        MovementError,
    >)
        requires
            from.valid(),
            to.valid(),
            from != to,
            self.piece_type == Type::King,
        ensures
            r == officer_move(board@.squares, *self, from, to),
    {
        let dx: i32 = to.x - from.x;
        let dy: i32 = to.y - from.y;
        if -1 <= dx && dx <= 1 && -1 <= dy && dy <= 1 {
            self.settle(from, to, board)
        } else {
            Err(MovementError::InvalidMovement)
        }
    }

    fn can_move_pawn(&self, from: Position, to: Position, board: &Board) -> (r: Result<
        OkMovement,
        MovementError,
    >)
        requires
            from.valid(),
            to.valid(),
            from != to,
        ensures
            r == pawn_move(board@.squares, board@.last_movement(), *self, from, to),
    {
        if to.x == from.x {
            return self.forward_pawn_movement(from, to, board);
        }
        let dx: i32 = to.x - from.x;
        let dy: i32 = to.y - from.y;
        let ahead: i32 = match self.color {
            Color::White => 1,
            Color::Black => -1,
        };
        if (dx != 1 && dx != -1) || dy != ahead {
            return Err(MovementError::InvalidMovement);
        }
        match board.get_piece_at(to) {
            Some(other_piece) => {
                if self.color != other_piece.color {
                    Ok(self.capture(from, to, other_piece))
                } else {
                    Err(MovementError::InvalidMovement)
                }
            },
            None => {
                let passed = match board.en_passant() {
                    Some(p) => p,
                    None => {
                        return Err(MovementError::InvalidMovement);
                    },
                };
                if passed.y != from.y || passed.x != to.x {
                    return Err(MovementError::InvalidMovement);
                }
                match board.get_piece_at(passed) {
                    Some(victim) => {
                        if victim.piece_type == Type::Pawn && victim.color != self.color {
                            Ok(self.en_passant(from, to, victim))
                        } else {
                            Err(MovementError::InvalidMovement)
                        }
                    },
                    None => Err(MovementError::InvalidMovement),
                }
            },
        }
    }

    fn can_move_bishop(&self, from: Position, to: Position, board: &Board) -> (r: Result<
        OkMovement,
        MovementError,
    >)
        requires
            from.valid(),
            to.valid(),
            from != to,
            self.piece_type == Type::Bishop,
        ensures
            r == officer_move(board@.squares, *self, from, to),
    {
        if !same_diagonal(from, to) {
            return Err(MovementError::InvalidMovement);
        }
        if !board.is_diagonal_path_clean(from, to) {
            return Err(MovementError::InvalidMovement);
        }
        self.settle(from, to, board)
    }

    fn can_move_rock(&self, from: Position, to: Position, board: &Board) -> (r: Result<
        OkMovement,
        MovementError,
    >)
        requires
            from.valid(),
            to.valid(),
            from != to,
            self.piece_type == Type::Rook,
        ensures
            r == officer_move(board@.squares, *self, from, to),
    {
        let is_path_clear = if same_file(from, to) {
            board.is_vertical_path_clean(from, to)
        } else if same_rank(from, to) {
            board.is_horizontal_path_clean(from, to)
        } else {
            false
        };
        if !is_path_clear {
            return Err(MovementError::InvalidMovement);
        }
        self.settle(from, to, board)
    }

    fn can_move_king(&self, from: Position, to: Position, board: &Board) -> (r: Result<
        OkMovement,
        MovementError,
    >)
        requires
            from.valid(),
            to.valid(),
            from != to,
        ensures
            r == king_move(board@.squares, board@.last_movement(), *self, from, to),
    {
        let dx: i32 = to.x - from.x;
        let dy: i32 = to.y - from.y;
        if -1 <= dx && dx <= 1 && -1 <= dy && dy <= 1 {
            return self.settle(from, to, board);
        }
        if dy == 0 && (dx == 2 || dx == -2) {
            return self.can_perform_castling(from, to, board);
        }
        Err(MovementError::InvalidMovement)
    }

    fn can_move_knight(&self, from: Position, to: Position, board: &Board) -> (r: Result<
        OkMovement,
        MovementError,
    >)
        requires
            from.valid(),
            to.valid(),
            from != to,
            self.piece_type == Type::Knight,
        ensures
            r == officer_move(board@.squares, *self, from, to),
    {
        if !knight_leap(from, to) {
            return Err(MovementError::InvalidMovement);
        }
        self.settle(from, to, board)
    }

    fn can_move_queen(&self, from: Position, to: Position, board: &Board) -> (r: Result<
        OkMovement,
        MovementError,
    >)
        requires
            from.valid(),
            to.valid(),
            from != to,
            self.piece_type == Type::Queen,
        ensures
            r == officer_move(board@.squares, *self, from, to),
    {
        let is_path_clear = if same_file(from, to) {
            board.is_vertical_path_clean(from, to)
        } else if same_rank(from, to) {
            board.is_horizontal_path_clean(from, to)
        } else if same_diagonal(from, to) {
            board.is_diagonal_path_clean(from, to)
        } else {
            false
        };
        if !is_path_clear {
            return Err(MovementError::InvalidMovement);
        }
        self.settle(from, to, board)
    }

    /// The king castles from `from` to `to`, two files away on its
    /// rank, where it may.
    fn can_perform_castling(&self, from: Position, to: Position, board: &Board) -> (r: Result<
        OkMovement,
        MovementError,
    >)
        requires
            from.valid(),
            to.valid(),
            to.y == from.y,
            abs(to.x - from.x) == 2,
        ensures
            r == if may_castle(board@.squares, board@.last_movement(), *self, from, to) {
                king_move(board@.squares, board@.last_movement(), *self, from, to)
            } else {
                Err(MovementError::InvalidMovement)
            },
            r is Ok <==> may_castle(board@.squares, board@.last_movement(), *self, from, to),
    {
        let kingside = to.x > from.x;
        let rock_from = Position { x: if kingside {
            7
        } else {
            0
        }, y: from.y };
        let rock_to = Position { x: if kingside {
            from.x + 1
        } else {
            from.x - 1
        }, y: from.y };
        if self.moved {
            return Err(MovementError::InvalidMovement);
        }
        match board.get_piece_at(rock_from) {
            Some(rock) => {
                if rock.piece_type != Type::Rook || rock.color != self.color || rock.moved {
                    return Err(MovementError::InvalidMovement);
                }
            },
            None => {
                return Err(MovementError::InvalidMovement);
            },
        }
        if !board.is_horizontal_path_clean(from, rock_from) {
            return Err(MovementError::InvalidMovement);
        }
        if board.get_piece_at(to).is_some() {
            return Err(MovementError::InvalidMovement);
        }
        if board.would_be_in_check_on(*self, from, from) || board.would_be_in_check_on(
            *self,
            from,
            rock_to,
        ) || board.would_be_in_check_on(*self, from, to) {
            return Err(MovementError::InvalidMovement);
        }
        Ok(self.castling(from, to, rock_from, rock_to))
    }

    fn forward_pawn_movement(&self, from: Position, to: Position, board: &Board) -> (r: Result<
        OkMovement,
        MovementError,
    >)
        requires
            from.valid(),
            to.valid(),
        ensures
            r == pawn_advance(board@.squares, *self, from, to),
    {
        if to.x != from.x || board.get_piece_at(to).is_some() {
            return Err(MovementError::InvalidMovement);
        }
        let dy: i32 = to.y - from.y;
        let (ahead, start): (i32, i32) = match self.color {
            Color::White => (1, 1),
            Color::Black => (-1, 6),
        };
        if dy == ahead {
            Ok(self.valid(from, to))
        } else if dy == 2 * ahead && !self.moved && from.y == start && board.is_vertical_path_clean(
            from,
            to,
        ) {
            Ok(self.initial_double_advance(from, to))
        } else {
            Err(MovementError::InvalidMovement)
        }
    }

    /// The move onto `to` as the occupant of `to` decides it.
    fn settle(&self, from: Position, to: Position, board: &Board) -> (r: Result<
        OkMovement,
        MovementError,
    >)
        ensures
            r == occupancy(board@.squares, *self, from, to),
    {
        match board.get_piece_at(to) {
            None => Ok(self.valid(from, to)),
            Some(other_piece) => {
                if self.color != other_piece.color {
                    Ok(self.capture(from, to, other_piece))
                } else {
                    Err(MovementError::InvalidMovement)
                }
            },
        }
    }

    fn valid(&self, from: Position, to: Position) -> (r: OkMovement)
        ensures
            r == (OkMovement { mover: *self, movement_type: MovementType::Valid, from, to }),
    {
        OkMovement { from, to, movement_type: MovementType::Valid, mover: *self }
    }

    fn capture(&self, from: Position, to: Position, captured_piece: ChessPiece) -> (r: OkMovement)
        ensures
            r == (OkMovement {
                mover: *self,
                movement_type: MovementType::Capture(captured_piece),
                from,
                to,
            }),
    {
        OkMovement { from, to, movement_type: MovementType::Capture(captured_piece), mover: *self }
    }

    fn en_passant(&self, from: Position, to: Position, captured_piece: ChessPiece) -> (r:
        OkMovement)
        ensures
            r == (OkMovement {
                mover: *self,
                movement_type: MovementType::EnPassant(captured_piece),
                from,
                to,
            }),
    {
        OkMovement {
            from,
            to,
            movement_type: MovementType::EnPassant(captured_piece),
            mover: *self,
        }
    }

    fn initial_double_advance(&self, from: Position, to: Position) -> (r: OkMovement)
        ensures
            r == (OkMovement {
                mover: *self,
                movement_type: MovementType::InitialDoubleAdvance,
                from,
                to,
            }),
    {
        OkMovement { from, to, movement_type: MovementType::InitialDoubleAdvance, mover: *self }
    }

    fn castling(&self, from: Position, to: Position, rock_from: Position, rock_to: Position) -> (r:
        OkMovement)
        ensures
            r == (OkMovement {
                mover: *self,
                movement_type: MovementType::Castling(rock_from, rock_to),
                from,
                to,
            }),
    {
        OkMovement {
            from,
            to,
            movement_type: MovementType::Castling(rock_from, rock_to),
            mover: *self,
        }
    }
}

/// Whether two squares of the board differ and lie on one file.
fn same_file(from: Position, to: Position) -> (r: bool)
    requires
        from.valid(),
        to.valid(),
    ensures
        r == (from.x == to.x && from.y != to.y),
{
    from.x == to.x && from.y != to.y
}

/// Whether two squares of the board differ and lie on one rank.
fn same_rank(from: Position, to: Position) -> (r: bool)
    requires
        from.valid(),
        to.valid(),
    ensures
        r == (from.y == to.y && from.x != to.x),
{
    from.y == to.y && from.x != to.x
}

/// Whether two squares of the board differ and lie on one diagonal.
fn same_diagonal(from: Position, to: Position) -> (r: bool)
    requires
        from.valid(),
        to.valid(),
    ensures
        r == (from != to && abs(to.x - from.x) == abs(to.y - from.y)),
{
    let dx: i32 = to.x - from.x;
    let dy: i32 = to.y - from.y;
    dx != 0 && (dx == dy || dx == -dy)
}

/// Whether two squares of the board are a knight's leap apart.
fn knight_leap(from: Position, to: Position) -> (r: bool)
    requires
        from.valid(),
        to.valid(),
    ensures
        r == ((abs(to.x - from.x) == 1 && abs(to.y - from.y) == 2) || (abs(to.x - from.x) == 2
            && abs(to.y - from.y) == 1)),
{
    let dx: i32 = to.x - from.x;
    let dy: i32 = to.y - from.y;
    ((dx == 1 || dx == -1) && (dy == 2 || dy == -2)) || ((dx == 2 || dx == -2) && (dy == 1 || dy
        == -1))
}

} // verus!
