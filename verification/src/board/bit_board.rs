//! The pieces of a board as sets of squares.
use crate::bit_magic::{bit, has_bit, lemma_bit_join};
use crate::board::state::Color;
use crate::piece::position::Position;
use crate::piece::{ChessPiece, Type};
use vstd::prelude::*;

verus! {

/// The pieces of a board as twelve sets of squares, one for each kind
/// of piece of each side. The square of index `k` is bit `k` of a set.
///
/// ```text
/// 8| 56  57  58  59  60  61  62  63
/// 7| 48  49  50  51  52  53  54  55
/// 6| 40  41  42  43  44  45  46  47
/// 5| 32  33  34  35  36  37  38  39
/// 4| 24  25  26  27  28  29  30  31
/// 3| 16  17  18  19  20  21  22  23
/// 2| 8   9   10  11  12  13  14  15
/// 1| 0   1   2   3   4   5   6   7
///  ------------------------------
///    a   b   c   d   e   f   g   h
/// ```
#[derive(PartialEq, Eq, Clone, Copy, Debug, Structural)]
pub struct BitBoard {
    pub white_pawns: u64,
    pub white_knights: u64,
    pub white_bishops: u64,
    pub white_rooks: u64,
    pub white_queens: u64,
    pub white_king: u64,
    pub black_pawns: u64,
    pub black_knights: u64,
    pub black_bishops: u64,
    pub black_rooks: u64,
    pub black_queens: u64,
    pub black_king: u64,
}

/// A piece of the given kind and side that has not moved.
pub open spec fn fresh(piece_type: Type, color: Color) -> ChessPiece {
    ChessPiece { piece_type, color, moved: false }
}

/// What an array of ranks, rank 1 first, holds on the square of index
/// `k`.
pub open spec fn array_at(arr: [[Option<ChessPiece>; 8]; 8], k: u64) -> Option<ChessPiece> {
    arr[k as int / 8][k as int % 8]
}

impl BitBoard {
    /// The squares that hold pieces of the given kind and side.
    pub open spec fn field(self, piece_type: Type, color: Color) -> u64 {
        match color {
            Color::White => match piece_type {
                Type::Pawn => self.white_pawns,
                Type::Knight => self.white_knights,
                Type::Bishop => self.white_bishops,
                Type::Rook => self.white_rooks,
                Type::Queen => self.white_queens,
                Type::King => self.white_king,
            },
            Color::Black => match piece_type {
                Type::Pawn => self.black_pawns,
                Type::Knight => self.black_knights,
                Type::Bishop => self.black_bishops,
                Type::Rook => self.black_rooks,
                Type::Queen => self.black_queens,
                Type::King => self.black_king,
            },
        }
    }

    /// The squares that hold a white piece.
    pub open spec fn white(self) -> u64 {
        self.white_pawns | self.white_knights | self.white_bishops | self.white_rooks
            | self.white_queens | self.white_king
    }

    /// The squares that hold a black piece.
    pub open spec fn black(self) -> u64 {
        self.black_pawns | self.black_knights | self.black_bishops | self.black_rooks
            | self.black_queens | self.black_king
    }

    /// The squares that hold a piece.
    pub open spec fn full(self) -> u64 {
        self.white_pawns | self.white_knights | self.white_bishops | self.white_rooks
            | self.white_queens | self.white_king | self.black_pawns | self.black_knights
            | self.black_bishops | self.black_rooks | self.black_queens | self.black_king
    }

    /// The piece found on the squares `b`: the first kind, from the
    /// white pawns to the black king, that has a piece on one of them.
    pub open spec fn piece_in(self, b: u64) -> Option<ChessPiece> {
        if self.white_pawns & b != 0 {
            Some(fresh(Type::Pawn, Color::White))
        } else if self.white_knights & b != 0 {
            Some(fresh(Type::Knight, Color::White))
        } else if self.white_bishops & b != 0 {
            Some(fresh(Type::Bishop, Color::White))
        } else if self.white_rooks & b != 0 {
            Some(fresh(Type::Rook, Color::White))
        } else if self.white_queens & b != 0 {
            Some(fresh(Type::Queen, Color::White))
        } else if self.white_king & b != 0 {
            Some(fresh(Type::King, Color::White))
        } else if self.black_pawns & b != 0 {
            Some(fresh(Type::Pawn, Color::Black))
        } else if self.black_knights & b != 0 {
            Some(fresh(Type::Knight, Color::Black))
        } else if self.black_bishops & b != 0 {
            Some(fresh(Type::Bishop, Color::Black))
        } else if self.black_rooks & b != 0 {
            Some(fresh(Type::Rook, Color::Black))
        } else if self.black_queens & b != 0 {
            Some(fresh(Type::Queen, Color::Black))
        } else if self.black_king & b != 0 {
            Some(fresh(Type::King, Color::Black))
        } else {
            None
        }
    }

    /// The board without the squares `b`.
    pub open spec fn without(self, b: u64) -> BitBoard {
        BitBoard {
            white_pawns: self.white_pawns & !b,
            white_knights: self.white_knights & !b,
            white_bishops: self.white_bishops & !b,
            white_rooks: self.white_rooks & !b,
            white_queens: self.white_queens & !b,
            white_king: self.white_king & !b,
            black_pawns: self.black_pawns & !b,
            black_knights: self.black_knights & !b,
            black_bishops: self.black_bishops & !b,
            black_rooks: self.black_rooks & !b,
            black_queens: self.black_queens & !b,
            black_king: self.black_king & !b,
        }
    }

    /// The board with the squares `b` added to the pieces of the given
    /// kind and side.
    pub open spec fn with(self, piece_type: Type, color: Color, b: u64) -> BitBoard {
        match color {
            Color::White => match piece_type {
                Type::Pawn => BitBoard { white_pawns: self.white_pawns | b, ..self },
                Type::Knight => BitBoard { white_knights: self.white_knights | b, ..self },
                Type::Bishop => BitBoard { white_bishops: self.white_bishops | b, ..self },
                Type::Rook => BitBoard { white_rooks: self.white_rooks | b, ..self },
                Type::Queen => BitBoard { white_queens: self.white_queens | b, ..self },
                Type::King => BitBoard { white_king: self.white_king | b, ..self },
            },
            Color::Black => match piece_type {
                Type::Pawn => BitBoard { black_pawns: self.black_pawns | b, ..self },
                Type::Knight => BitBoard { black_knights: self.black_knights | b, ..self },
                Type::Bishop => BitBoard { black_bishops: self.black_bishops | b, ..self },
                Type::Rook => BitBoard { black_rooks: self.black_rooks | b, ..self },
                Type::Queen => BitBoard { black_queens: self.black_queens | b, ..self },
                Type::King => BitBoard { black_king: self.black_king | b, ..self },
            },
        }
    }

    /// The pieces as a game starts.
    pub fn new() -> (r: Self)
        ensures
            r == (BitBoard {
                white_pawns: 0xFF00,
                white_knights: 0x42,
                white_bishops: 0x24,
                white_rooks: 0x81,
                white_queens: 0x08,
                white_king: 0x10,
                black_pawns: 0x00FF_0000_0000_0000,
                black_knights: 0x4200_0000_0000_0000,
                black_bishops: 0x2400_0000_0000_0000,
                black_rooks: 0x8100_0000_0000_0000,
                black_queens: 0x0800_0000_0000_0000,
                black_king: 0x1000_0000_0000_0000,
            }),
    {
        let white_rooks: u64 = 0b1000_0001;
        let white_knights: u64 = 0b0100_0010;
        let white_bishops: u64 = 0b0010_0100;
        let white_queens: u64 = 0b0000_1000;
        let white_king: u64 = 0b0001_0000;
        let white_pawns: u64 = 0b1111_1111_0000_0000;
        let black_rooks: u64 = 0b1000_0001u64 << 56;
        let black_knights: u64 = 0b0100_0010u64 << 56;
        let black_bishops: u64 = 0b0010_0100u64 << 56;
        let black_queens: u64 = 0b0000_1000u64 << 56;
        let black_king: u64 = 0b0001_0000u64 << 56;
        let black_pawns: u64 = 0b1111_1111_0000_0000u64 << 40;
        assert(0b1000_0001u64 << 56 == 0x8100_0000_0000_0000) by (bit_vector);
        assert(0b0100_0010u64 << 56 == 0x4200_0000_0000_0000) by (bit_vector);
        assert(0b0010_0100u64 << 56 == 0x2400_0000_0000_0000) by (bit_vector);
        assert(0b0000_1000u64 << 56 == 0x0800_0000_0000_0000) by (bit_vector);
        assert(0b0001_0000u64 << 56 == 0x1000_0000_0000_0000) by (bit_vector);
        assert(0b1111_1111_0000_0000u64 << 40 == 0x00FF_0000_0000_0000) by (bit_vector);
        BitBoard {
            white_pawns,
            white_knights,
            white_bishops,
            white_rooks,
            white_queens,
            white_king,
            black_pawns,
            black_knights,
            black_bishops,
            black_rooks,
            black_queens,
            black_king,
        }
    }

    /// No pieces at all.
    pub fn empty() -> (r: Self)
        ensures
            r == (BitBoard {
                white_pawns: 0,
                white_knights: 0,
                white_bishops: 0,
                white_rooks: 0,
                white_queens: 0,
                white_king: 0,
                black_pawns: 0,
                black_knights: 0,
                black_bishops: 0,
                black_rooks: 0,
                black_queens: 0,
                black_king: 0,
            }),
    {
        BitBoard {
            white_pawns: 0,
            white_knights: 0,
            white_bishops: 0,
            white_rooks: 0,
            white_queens: 0,
            white_king: 0,
            black_pawns: 0,
            black_knights: 0,
            black_bishops: 0,
            black_rooks: 0,
            black_queens: 0,
            black_king: 0,
        }
    }

    /// The pieces of an array of ranks, rank 1 first: a square belongs
    /// to a kind and side exactly where the array holds such a piece
    /// on it.
    pub fn from_array(arr: [[Option<ChessPiece>; 8]; 8]) -> (r: Self)
        ensures
            forall|t: Type, c: Color, k: u64|
                k < 64 ==> (#[trigger] has_bit(r.field(t, c), k) <==> holds(array_at(arr, k), t, c)),
    {
        let mut bit_board = BitBoard::empty();
        proof {
            assert forall|t: Type, c: Color, k: u64| k < 64 implies !#[trigger] has_bit(
                bit_board.field(t, c),
                k,
            ) by {
                lemma_bit_join(0, 0, k);
            }
        }
        let mut n: usize = 0;
        while n < 64
            invariant
                n <= 64,
                forall|t: Type, c: Color, k: u64|
                    k < 64 ==> (#[trigger] has_bit(bit_board.field(t, c), k) <==> k < n && holds(
                        array_at(arr, k),
                        t,
                        c,
                    )),
            decreases 64 - n,
        {
            let i: usize = n / 8;
            let j: usize = n % 8;
            match arr[i][j] {
                Some(piece) => {
                    let position = Position { x: j as i32, y: i as i32 };
                    let ghost before = bit_board;
                    bit_board.add_piece_at_position(piece, position);
                    proof {
                        assert forall|t: Type, c: Color, k: u64| k < 64 implies (#[trigger] has_bit(
                            bit_board.field(t, c),
                            k,
                        ) <==> k < n + 1 && holds(array_at(arr, k), t, c)) by {
                            lemma_bit_join(before.field(t, c), n as u64, k);
                        }
                    }
                },
                None => {},
            }
            n = n + 1;
        }
        bit_board
    }

    /// The piece found on the squares of a bitboard: of the first kind,
    /// from the white pawns to the black king, that has a piece on one
    /// of them.
    pub fn piece_at_bit_board(&self, bit_board: u64) -> (r: Option<ChessPiece>)
        ensures
            r == self.piece_in(bit_board),
    {
        if self.white_pawns & bit_board != 0 {
            return Some(ChessPiece::create_pawn(Color::White));
        } else if self.white_knights & bit_board != 0 {
            return Some(ChessPiece::create_knight(Color::White));
        } else if self.white_bishops & bit_board != 0 {
            return Some(ChessPiece::create_bishop(Color::White));
        } else if self.white_rooks & bit_board != 0 {
            return Some(ChessPiece::create_rook(Color::White));
        } else if self.white_queens & bit_board != 0 {
            return Some(ChessPiece::create_queen(Color::White));
        } else if self.white_king & bit_board != 0 {
            return Some(ChessPiece::create_king(Color::White));
        } else if self.black_pawns & bit_board != 0 {
            return Some(ChessPiece::create_pawn(Color::Black));
        } else if self.black_knights & bit_board != 0 {
            return Some(ChessPiece::create_knight(Color::Black));
        } else if self.black_bishops & bit_board != 0 {
            return Some(ChessPiece::create_bishop(Color::Black));
        } else if self.black_rooks & bit_board != 0 {
            return Some(ChessPiece::create_rook(Color::Black));
        } else if self.black_queens & bit_board != 0 {
            return Some(ChessPiece::create_queen(Color::Black));
        } else if self.black_king & bit_board != 0 {
            return Some(ChessPiece::create_king(Color::Black));
        }
        return None;
    }

    /// The piece on a square of the board.
    pub fn piece_at_position(&self, position: Position) -> (r: Option<ChessPiece>)
        requires
            position.valid(),
        ensures
            r == self.piece_in(bit(position.index() as u64)),
    {
        let position_bit_board = position.to_bit_board();
        self.piece_at_bit_board(position_bit_board)
    }

    /// Whether a square of the board is empty.
    pub fn is_position_clean(&self, position: Position) -> (r: bool)
        requires
            position.valid(),
        ensures
            r == (self.full() & bit(position.index() as u64) == 0),
    {
        let position_bit_board = position.to_bit_board();
        let all_pieces = self.full_board();
        all_pieces & position_bit_board == 0
    }

    /// The squares that hold a piece.
    pub fn full_board(&self) -> (r: u64)
        ensures
            r == self.full(),
    {
        self.white_pawns | self.white_knights | self.white_bishops | self.white_rooks
            | self.white_queens | self.white_king | self.black_pawns | self.black_knights
            | self.black_bishops | self.black_rooks | self.black_queens | self.black_king
    }

    /// The squares that hold a white piece.
    pub fn white_pieces(&self) -> (r: u64)
        ensures
            r == self.white(),
    {
        self.white_pawns | self.white_knights | self.white_bishops | self.white_rooks
            | self.white_queens | self.white_king
    }

    /// The squares that hold a black piece.
    pub fn black_pieces(&self) -> (r: u64)
        ensures
            r == self.black(),
    {
        self.black_pawns | self.black_knights | self.black_bishops | self.black_rooks
            | self.black_queens | self.black_king
    }

    /// The pieces as an array of ranks, rank 1 first.
    pub fn to_array(&self) -> (r: [[Option<ChessPiece>; 8]; 8])
        ensures
            forall|k: u64| k < 64 ==> #[trigger] array_at(r, k) == self.piece_in(bit(k)),
    {
        let mut array: [[Option<ChessPiece>; 8]; 8] = [[None; 8]; 8];
        let mut y: usize = 0;
        while y < 8
            invariant
                y <= 8,
                forall|k: u64| k < 8 * y ==> #[trigger] array_at(array, k) == self.piece_in(bit(k)),
            decreases 8 - y,
        {
            let mut row: [Option<ChessPiece>; 8] = [None; 8];
            let mut x: usize = 0;
            while x < 8
                invariant
                    x <= 8,
                    y < 8,
                    forall|j: int|
                        0 <= j < x ==> #[trigger] row[j] == self.piece_in(bit((8 * y + j) as u64)),
                decreases 8 - x,
            {
                let position = Position { x: x as i32, y: y as i32 };
                row[x] = self.piece_at_position(position);
                x = x + 1;
            }
            let ghost before = array;
            array[y] = row;
            proof {
                assert forall|k: u64| k < 8 * (y + 1) implies #[trigger] array_at(array, k)
                    == self.piece_in(bit(k)) by {
                    if k < 8 * y {
                        assert(array_at(before, k) == self.piece_in(bit(k)));
                    } else {
                        assert(array_at(array, k) == row[k as int % 8]);
                    }
                }
            }
            y = y + 1;
        }
        array
    }

    /// Empties a square of the board.
    pub fn remove_piece_at_position(&mut self, target: Position)
        requires
            target.valid(),
        ensures
            *final(self) == old(self).without(bit(target.index() as u64)),
    {
        let target_bit_board = target.to_bit_board();
        self.white_pawns = self.white_pawns & !target_bit_board;
        self.white_knights = self.white_knights & !target_bit_board;
        self.white_bishops = self.white_bishops & !target_bit_board;
        self.white_rooks = self.white_rooks & !target_bit_board;
        self.white_queens = self.white_queens & !target_bit_board;
        self.white_king = self.white_king & !target_bit_board;
        self.black_pawns = self.black_pawns & !target_bit_board;
        self.black_knights = self.black_knights & !target_bit_board;
        self.black_bishops = self.black_bishops & !target_bit_board;
        self.black_rooks = self.black_rooks & !target_bit_board;
        self.black_queens = self.black_queens & !target_bit_board;
        self.black_king = self.black_king & !target_bit_board;
    }

    /// Adds a square of the board to the pieces of the kind and side
    /// of `piece`; what else stands on the square stays.
    pub fn add_piece_at_position(&mut self, piece: ChessPiece, target: Position)
        requires
            target.valid(),
        ensures
            *final(self) == old(self).with(
                piece.piece_type,
                piece.color,
                bit(target.index() as u64),
            ),
    {
        let target_bit_board = target.to_bit_board();
        match piece.get_color() {
            Color::White => match piece.get_type() {
                Type::Pawn => self.white_pawns = self.white_pawns | target_bit_board,
                Type::Knight => self.white_knights = self.white_knights | target_bit_board,
                Type::Bishop => self.white_bishops = self.white_bishops | target_bit_board,
                Type::Rook => self.white_rooks = self.white_rooks | target_bit_board,
                Type::Queen => self.white_queens = self.white_queens | target_bit_board,
                Type::King => self.white_king = self.white_king | target_bit_board,
            },
            Color::Black => match piece.get_type() {
                Type::Pawn => self.black_pawns = self.black_pawns | target_bit_board,
                Type::Knight => self.black_knights = self.black_knights | target_bit_board,
                Type::Bishop => self.black_bishops = self.black_bishops | target_bit_board,
                Type::Rook => self.black_rooks = self.black_rooks | target_bit_board,
                Type::Queen => self.black_queens = self.black_queens | target_bit_board,
                Type::King => self.black_king = self.black_king | target_bit_board,
            },
        }
    }

    /// Takes a piece from one square of the board to another, which is
    /// emptied first.
    pub fn move_piece(&mut self, attacker_piece: ChessPiece, from: Position, to: Position)
        requires
            from.valid(),
            to.valid(),
        ensures
            *final(self) == old(self).without(bit(to.index() as u64)).without(
                bit(from.index() as u64),
            ).with(attacker_piece.piece_type, attacker_piece.color, bit(to.index() as u64)),
    {
        self.remove_piece_at_position(to);
        self.remove_piece_at_position(from);
        self.add_piece_at_position(attacker_piece, to);
    }
}

/// A piece of kind `t` and side `c` stands there.
pub open spec fn holds(v: Option<ChessPiece>, t: Type, c: Color) -> bool {
    match v {
        Some(p) => p.piece_type == t && p.color == c,
        None => false,
    }
}

} // verus!
