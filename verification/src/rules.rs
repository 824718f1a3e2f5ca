//! The rules of movement, stated over the 64 squares of a board, and the
//! functions that read and change the squares.
use crate::board::state::Color;
use crate::piece::position::{square, Position};
use crate::piece::{ChessPiece, Type};
use crate::result::{MovementError, MovementType, OkMovement};
use vstd::prelude::*;

verus! {

/// The 64 squares of a board, a1 first, along the ranks.
pub type Squares = [Option<ChessPiece>; 64];

/// Size of a number without its sign.
pub open spec fn abs(a: int) -> int {
    if a < 0 {
        -a
    } else {
        a
    }
}

/// Direction of a number: 1, -1 or 0.
pub open spec fn sign(a: int) -> int {
    if a > 0 {
        1
    } else if a < 0 {
        -1
    } else {
        0
    }
}

/// The lesser of two numbers.
pub open spec fn min(a: int, b: int) -> int {
    if a < b {
        a
    } else {
        b
    }
}

/// What stands at file `x`, rank `y`; nothing stands off the board.
pub open spec fn at_xy(g: Seq<Option<ChessPiece>>, x: int, y: int) -> Option<ChessPiece> {
    if 0 <= x < 8 && 0 <= y < 8 {
        g[y * 8 + x]
    } else {
        None
    }
}

/// What stands on a square; nothing stands off the board.
pub open spec fn at(g: Seq<Option<ChessPiece>>, p: Position) -> Option<ChessPiece> {
    at_xy(g, p.x as int, p.y as int)
}

/// The squares with one square replaced; a square off the board
/// changes nothing.
pub open spec fn put(g: Seq<Option<ChessPiece>>, p: Position, v: Option<ChessPiece>) -> Seq<
    Option<ChessPiece>,
> {
    if p.valid() {
        g.update(p.index(), v)
    } else {
        g
    }
}

/// Coordinate reached from `a` after `k` steps in direction `s`.
pub open spec fn along(a: int, s: int, k: int) -> int {
    if s > 0 {
        a + k
    } else if s < 0 {
        a - k
    } else {
        a
    }
}

/// Nothing stands on the first `n - 1` squares of the line that leaves
/// `(x, y)` in direction `(sx, sy)`.
pub open spec fn line_clear(
    g: Seq<Option<ChessPiece>>,
    x: int,
    y: int,
    sx: int,
    sy: int,
    n: int,
) -> bool {
    forall|k: int| 0 < k < n ==> (#[trigger] at_xy(g, along(x, sx, k), along(y, sy, k))) is None
}

/// Both squares lie on the board, and nothing stands strictly between
/// `from` and the square of its file on the rank of `to`.
pub open spec fn vertical_clear(g: Seq<Option<ChessPiece>>, from: Position, to: Position) -> bool {
    from.valid() && to.valid() && line_clear(
        g,
        from.x as int,
        from.y as int,
        0,
        sign(to.y - from.y),
        abs(to.y - from.y),
    )
}

/// Both squares lie on the board, and nothing stands strictly between
/// `from` and the square of its rank on the file of `to`.
pub open spec fn horizontal_clear(g: Seq<Option<ChessPiece>>, from: Position, to: Position) -> bool {
    from.valid() && to.valid() && line_clear(
        g,
        from.x as int,
        from.y as int,
        sign(to.x - from.x),
        0,
        abs(to.x - from.x),
    )
}

/// Both squares lie on the board, and nothing stands on the diagonal
/// that leaves `from` towards `to`, before the file or the rank of `to`
/// is reached.
pub open spec fn diagonal_clear(g: Seq<Option<ChessPiece>>, from: Position, to: Position) -> bool {
    from.valid() && to.valid() && line_clear(
        g,
        from.x as int,
        from.y as int,
        sign(to.x - from.x),
        sign(to.y - from.y),
        min(abs(to.x - from.x), abs(to.y - from.y)),
    )
}

/// A piece of kind `t` and side `c` on `from` has `to` within reach
/// by the shape of its move and a clear path, whatever stands on `to`.
/// For a pawn these are the two squares diagonally ahead of it, on
/// which it takes.
pub open spec fn reaches(
    g: Seq<Option<ChessPiece>>,
    t: Type,
    c: Color,
    from: Position,
    to: Position,
) -> bool {
    let dx = to.x - from.x;
    let dy = to.y - from.y;
    from.valid() && to.valid() && from != to && match t {
        Type::Pawn => abs(dx) == 1 && dy == c.forward(),
        Type::Knight => (abs(dx) == 1 && abs(dy) == 2) || (abs(dx) == 2 && abs(dy) == 1),
        Type::Bishop => abs(dx) == abs(dy) && diagonal_clear(g, from, to),
        Type::Rook => (dx == 0 && vertical_clear(g, from, to)) || (dy == 0 && horizontal_clear(
            g,
            from,
            to,
        )),
        Type::Queen => (abs(dx) == abs(dy) && diagonal_clear(g, from, to)) || (dx == 0
            && vertical_clear(g, from, to)) || (dy == 0 && horizontal_clear(g, from, to)),
        Type::King => abs(dx) <= 1 && abs(dy) <= 1,
    }
}

/// The squares after a move: the mover leaves `from` and stands on
/// `to`, marked as moved. Taking en passant also empties the square
/// beside `from` on the file of `to`; castling also carries the rook
/// over, marked as moved.
pub open spec fn squares_after(g: Seq<Option<ChessPiece>>, m: OkMovement) -> Seq<
    Option<ChessPiece>,
> {
    let base = put(put(g, m.from, None), m.to, Some(m.mover.touched()));
    match m.movement_type {
        MovementType::EnPassant(_) => put(base, Position { x: m.to.x, y: m.from.y }, None),
        MovementType::Castling(rook_from, rook_to) => put(
            put(base, rook_from, None),
            rook_to,
            touched(at(g, rook_from)),
        ),
        _ => base,
    }
}

/// The squares before a move, given the squares after it: the mover
/// stands on `from` again as it was, and what it took stands where it
/// was taken. After castling the rook stands in its corner again,
/// unmoved.
pub open spec fn squares_before(g: Seq<Option<ChessPiece>>, m: OkMovement) -> Seq<
    Option<ChessPiece>,
> {
    let taken = match m.movement_type {
        MovementType::Capture(c) => Some(c),
        _ => None,
    };
    let base = put(put(g, m.to, taken), m.from, Some(m.mover));
    match m.movement_type {
        MovementType::EnPassant(v) => put(base, Position { x: m.to.x, y: m.from.y }, Some(v)),
        MovementType::Castling(rook_from, rook_to) => put(
            put(base, rook_to, None),
            rook_from,
            Some(ChessPiece { piece_type: Type::Rook, color: m.mover.color, moved: false }),
        ),
        _ => base,
    }
}

/// The same content, with the piece, if any, marked as moved.
pub open spec fn touched(v: Option<ChessPiece>) -> Option<ChessPiece> {
    match v {
        Some(p) => Some(p.touched()),
        None => None,
    }
}

/// The 64 squares of the board, in the order of their indices.
pub open spec fn all_squares() -> Seq<Position> {
    Seq::new(64, |i: int| square(i))
}

/// Filtering one element more keeps what was kept and adds the
/// element where it passes.
pub proof fn lemma_filter_step<A>(s: Seq<A>, pred: spec_fn(A) -> bool, n: int)
    requires
        0 <= n < s.len(),
    ensures
        s.take(n + 1).filter(pred) == if pred(s[n]) {
            s.take(n).filter(pred).push(s[n])
        } else {
            s.take(n).filter(pred)
        },
{
    reveal(Seq::filter);
    assert(s.take(n + 1).drop_last() =~= s.take(n));
}

/// Elements that all fail the test add nothing to what is kept.
pub proof fn lemma_filter_skip<A>(s: Seq<A>, pred: spec_fn(A) -> bool, lo: int, hi: int)
    requires
        0 <= lo <= hi <= s.len(),
        forall|k: int| lo <= k < hi ==> !pred(#[trigger] s[k]),
    ensures
        s.take(hi).filter(pred) == s.take(lo).filter(pred),
    decreases hi - lo,
{
    if lo < hi {
        lemma_filter_skip(s, pred, lo, hi - 1);
        lemma_filter_step(s, pred, hi - 1);
    }
}

/// What the rules of movement read of a board: the squares, the move
/// made just before, if the last turn was a move, and the square on
/// which each side's king is tracked.
pub struct Placement {
    pub squares: Seq<Option<ChessPiece>>,
    pub last: Option<OkMovement>,
    pub white_king: Option<Position>,
    pub black_king: Option<Position>,
}

impl Placement {
    /// Square on which the king of a side is tracked.
    pub open spec fn king(self, c: Color) -> Option<Position> {
        match c {
            Color::White => self.white_king,
            Color::Black => self.black_king,
        }
    }

    /// The tracked king of side `c` stands on a square that the other
    /// side attacks.
    pub open spec fn in_check(self, c: Color) -> bool {
        match self.king(c) {
            Some(k) => attacked(self.squares, self.last, k, c.opponent()),
            None => false,
        }
    }
}

/// A move onto `to` by occupancy alone: onto an empty square it is
/// plain, onto an enemy piece it takes that piece, onto a piece of the
/// mover's side it is refused.
pub open spec fn occupancy(
    g: Seq<Option<ChessPiece>>,
    piece: ChessPiece,
    from: Position,
    to: Position,
) -> Result<OkMovement, MovementError> {
    match at(g, to) {
        None => Ok(OkMovement { mover: piece, movement_type: MovementType::Valid, from, to }),
        Some(other) => if other.color != piece.color {
            Ok(OkMovement { mover: piece, movement_type: MovementType::Capture(other), from, to })
        } else {
            Err(MovementError::InvalidMovement)
        },
    }
}

/// A move of a knight, bishop, rook or queen, or a king's step of one
/// square: the destination must be within the piece's reach, and what
/// stands there decides.
pub open spec fn officer_move(
    g: Seq<Option<ChessPiece>>,
    piece: ChessPiece,
    from: Position,
    to: Position,
) -> Result<OkMovement, MovementError> {
    if reaches(g, piece.piece_type, piece.color, from, to) {
        occupancy(g, piece, from, to)
    } else {
        Err(MovementError::InvalidMovement)
    }
}

/// A pawn's move straight ahead: one square onto an empty square, or
/// two squares onto an empty square over an empty square, by a pawn
/// that has not moved and stands on its starting rank.
pub open spec fn pawn_advance(
    g: Seq<Option<ChessPiece>>,
    piece: ChessPiece,
    from: Position,
    to: Position,
) -> Result<OkMovement, MovementError> {
    let dy = to.y - from.y;
    let ahead = piece.color.forward();
    if to.x == from.x && at(g, to) is None && dy == ahead {
        Ok(OkMovement { mover: piece, movement_type: MovementType::Valid, from, to })
    } else if to.x == from.x && at(g, to) is None && dy == 2 * ahead && !piece.moved && from.y
        == piece.color.pawn_rank() && vertical_clear(g, from, to) {
        Ok(
            OkMovement {
                mover: piece,
                movement_type: MovementType::InitialDoubleAdvance,
                from,
                to,
            },
        )
    } else {
        Err(MovementError::InvalidMovement)
    }
}

/// The pawn that a pawn of side `c` takes en passant by going from
/// `from` to `to`: the move just before was a double advance that
/// ended beside `from`, on the file of `to`, and an enemy pawn stands
/// there.
pub open spec fn en_passant_victim(
    g: Seq<Option<ChessPiece>>,
    last: Option<OkMovement>,
    c: Color,
    from: Position,
    to: Position,
) -> Option<ChessPiece> {
    match last {
        Some(m) => if m.movement_type == MovementType::InitialDoubleAdvance && m.to.y == from.y
            && m.to.x == to.x {
            match at(g, m.to) {
                Some(v) => if v.piece_type == Type::Pawn && v.color != c {
                    Some(v)
                } else {
                    None
                },
                None => None,
            }
        } else {
            None
        },
        None => None,
    }
}

/// A pawn's move: straight ahead, or one square diagonally ahead onto
/// an enemy piece, or one square diagonally ahead onto an empty square
/// en passant.
pub open spec fn pawn_move(
    g: Seq<Option<ChessPiece>>,
    last: Option<OkMovement>,
    piece: ChessPiece,
    from: Position,
    to: Position,
) -> Result<OkMovement, MovementError> {
    if to.x == from.x {
        pawn_advance(g, piece, from, to)
    } else if reaches(g, Type::Pawn, piece.color, from, to) {
        match at(g, to) {
            Some(_) => occupancy(g, piece, from, to),
            None => match en_passant_victim(g, last, piece.color, from, to) {
                Some(v) => Ok(
                    OkMovement {
                        mover: piece,
                        movement_type: MovementType::EnPassant(v),
                        from,
                        to,
                    },
                ),
                None => Err(MovementError::InvalidMovement),
            },
        }
    } else {
        Err(MovementError::InvalidMovement)
    }
}

/// What the rules of its kind say of taking `piece` from `from` to
/// `to`, castling left aside and whether or not the move leaves the
/// mover's king in check: the shape of the move, a clear path, and
/// what stands on the destination.
pub open spec fn plain_move(
    g: Seq<Option<ChessPiece>>,
    last: Option<OkMovement>,
    piece: ChessPiece,
    from: Position,
    to: Position,
) -> Result<OkMovement, MovementError> {
    if from == to {
        Err(MovementError::SamePosition)
    } else if !from.valid() || !to.valid() {
        Err(MovementError::InvalidMovement)
    } else {
        match piece.piece_type {
            Type::Pawn => pawn_move(g, last, piece, from, to),
            _ => officer_move(g, piece, from, to),
        }
    }
}

/// A piece of side `by` stands on the square of index `i`, and the
/// rules of its kind, castling left aside, let it go to `target`.
pub open spec fn attacks_from(
    g: Seq<Option<ChessPiece>>,
    last: Option<OkMovement>,
    i: int,
    target: Position,
    by: Color,
) -> bool {
    match g[i] {
        Some(p) => p.color == by && plain_move(g, last, p, square(i), target) is Ok,
        None => false,
    }
}

/// Side `by` attacks `target`: one of its pieces may go there by the
/// rules of its kind, castling left aside and whether or not the move
/// would leave its own king in check.
pub open spec fn attacked(
    g: Seq<Option<ChessPiece>>,
    last: Option<OkMovement>,
    target: Position,
    by: Color,
) -> bool {
    exists|i: int| 0 <= i < 64 && #[trigger] attacks_from(g, last, i, target, by)
}

/// The king `piece`, were it standing on `square` in place of `from`,
/// would be in check.
pub open spec fn checked_on(
    g: Seq<Option<ChessPiece>>,
    last: Option<OkMovement>,
    piece: ChessPiece,
    from: Position,
    square: Position,
) -> bool {
    attacked(put(put(g, from, None), square, Some(piece)), last, square, piece.color.opponent())
}

/// Corner from which the rook comes when a king castles from `from`
/// to `to`.
pub open spec fn castling_rook_from(from: Position, to: Position) -> Position {
    Position { x: if to.x > from.x {
        7
    } else {
        0
    }, y: from.y }
}

/// Square that the king crosses when it castles from `from` to `to`,
/// on which the rook ends.
pub open spec fn castling_rook_to(from: Position, to: Position) -> Position {
    Position { x: if to.x > from.x {
        (from.x + 1) as i32
    } else {
        (from.x - 1) as i32
    }, y: from.y }
}

/// A king may castle from `from` to `to`, two files away: neither it
/// nor the rook in the corner on that side has moved, nothing stands
/// between them nor on the destination, and the king would be in check
/// on none of its own square, the square it crosses and its
/// destination.
pub open spec fn may_castle(
    g: Seq<Option<ChessPiece>>,
    last: Option<OkMovement>,
    piece: ChessPiece,
    from: Position,
    to: Position,
) -> bool {
    let rook_from = castling_rook_from(from, to);
    &&& !piece.moved
    &&& at(g, rook_from) == Some(
        ChessPiece { piece_type: Type::Rook, color: piece.color, moved: false },
    )
    &&& horizontal_clear(g, from, rook_from)
    &&& at(g, to) is None
    &&& !checked_on(g, last, piece, from, from)
    &&& !checked_on(g, last, piece, from, castling_rook_to(from, to))
    &&& !checked_on(g, last, piece, from, to)
}

/// A king's move: one square in any direction, or two files along its
/// rank to castle.
pub open spec fn king_move(
    g: Seq<Option<ChessPiece>>,
    last: Option<OkMovement>,
    piece: ChessPiece,
    from: Position,
    to: Position,
) -> Result<OkMovement, MovementError> {
    if reaches(g, Type::King, piece.color, from, to) {
        occupancy(g, piece, from, to)
    } else if from.valid() && to.valid() && to.y == from.y && abs(to.x - from.x) == 2 && may_castle(
        g,
        last,
        piece,
        from,
        to,
    ) {
        Ok(
            OkMovement {
                mover: piece,
                movement_type: MovementType::Castling(
                    castling_rook_from(from, to),
                    castling_rook_to(from, to),
                ),
                from,
                to,
            },
        )
    } else {
        Err(MovementError::InvalidMovement)
    }
}

/// What the rules of its kind say of taking `piece` from `from` to
/// `to`, castling included, whether or not the move leaves the mover's
/// king in check.
pub open spec fn sudo_legal(pl: Placement, piece: ChessPiece, from: Position, to: Position) -> Result<
    OkMovement,
    MovementError,
> {
    if from == to {
        Err(MovementError::SamePosition)
    } else if !from.valid() || !to.valid() {
        Err(MovementError::InvalidMovement)
    } else {
        match piece.piece_type {
            Type::King => king_move(pl.squares, pl.last, piece, from, to),
            _ => plain_move(pl.squares, pl.last, piece, from, to),
        }
    }
}

/// Square on which the king of side `c` is tracked after a move: the
/// destination if that king moved, none if the mover landed on it,
/// else the square it was tracked on.
pub open spec fn king_after(pl: Placement, m: OkMovement, c: Color) -> Option<Position> {
    if m.mover.piece_type == Type::King && m.mover.color == c {
        Some(m.to)
    } else if pl.king(c) == Some(m.to) {
        None
    } else {
        pl.king(c)
    }
}

/// What the rules read of the board after a move.
pub open spec fn placement_after(pl: Placement, m: OkMovement) -> Placement {
    Placement {
        squares: squares_after(pl.squares, m),
        last: Some(m),
        white_king: king_after(pl, m, Color::White),
        black_king: king_after(pl, m, Color::Black),
    }
}

/// The move does not take a king, and after it the mover's own king
/// is in check.
pub open spec fn exposes_king(pl: Placement, m: OkMovement) -> bool {
    !m.takes_king() && placement_after(pl, m).in_check(m.mover.color)
}

/// What the rules say of taking `piece` from `from` to `to`: the
/// classified move, or why it is refused. A move that its kind allows
/// is refused where it leaves the mover's king in check.
pub open spec fn can_move_spec(pl: Placement, piece: ChessPiece, from: Position, to: Position) -> Result<
    OkMovement,
    MovementError,
> {
    match sudo_legal(pl, piece, from, to) {
        Ok(m) => if exposes_king(pl, m) {
            Err(MovementError::CreatesOwnCheck)
        } else {
            Ok(m)
        },
        Err(e) => Err(e),
    }
}

/// Side `c` has a piece on `from` that may go to `to`.
pub open spec fn legal(pl: Placement, c: Color, from: Position, to: Position) -> bool {
    match at(pl.squares, from) {
        Some(p) => p.color == c && can_move_spec(pl, p, from, to) is Ok,
        None => false,
    }
}

/// Side `c` has at least one move.
pub open spec fn has_legal_move(pl: Placement, c: Color) -> bool {
    exists|i: int, j: int|
        0 <= i < 64 && 0 <= j < 64 && #[trigger] legal(pl, c, square(i), square(j))
}

/// What stands at file `x`, rank `y`; nothing stands off the board.
pub fn get_xy(g: &Squares, x: i32, y: i32) -> (r: Option<ChessPiece>)
    ensures
        r == at_xy(g@, x as int, y as int),
{
    if 0 <= x && x < 8 && 0 <= y && y < 8 {
        g[(y * 8 + x) as usize]
    } else {
        None
    }
}

/// What stands on a square; nothing stands off the board.
pub fn get_at(g: &Squares, p: Position) -> (r: Option<ChessPiece>)
    ensures
        r == at(g@, p),
{
    get_xy(g, p.x, p.y)
}

/// Replaces what stands on a square; a square off the board changes
/// nothing.
pub fn set_at(g: &mut Squares, p: Position, v: Option<ChessPiece>)
    ensures
        final(g)@ == put(old(g)@, p, v),
{
    if p.is_valid() {
        g[p.to_index()] = v;
    }
}

/// Walks the line that leaves `(x, y)` in direction `(sx, sy)` and
/// tells whether its first `n - 1` squares are empty.
fn line_is_clear(g: &Squares, x: i32, y: i32, sx: i32, sy: i32, n: i32) -> (r: bool)
    requires
        0 <= x < 8,
        0 <= y < 8,
        -1 <= sx <= 1,
        -1 <= sy <= 1,
        0 <= n <= 8,
    ensures
        r == line_clear(g@, x as int, y as int, sx as int, sy as int, n as int),
{
    let mut k: i32 = 1;
    while k < n
        invariant
            1 <= k,
            0 <= n <= 8,
            0 <= x < 8,
            0 <= y < 8,
            -1 <= sx <= 1,
            -1 <= sy <= 1,
            forall|j: int|
                0 < j < k ==> (#[trigger] at_xy(
                    g@,
                    along(x as int, sx as int, j),
                    along(y as int, sy as int, j),
                )) is None,
        decreases n - k,
    {
        let px: i32 = step(x, sx, k);
        let py: i32 = step(y, sy, k);
        if get_xy(g, px, py).is_some() {
            return false;
        }
        k = k + 1;
    }
    true
}

fn step(a: i32, s: i32, k: i32) -> (r: i32)
    requires
        0 <= a < 8,
        0 <= k <= 8,
    ensures
        r == along(a as int, s as int, k as int),
{
    if s > 0 {
        a + k
    } else if s < 0 {
        a - k
    } else {
        a
    }
}

fn sign_of(a: i32) -> (r: i32)
    ensures
        r == sign(a as int),
{
    if a > 0 {
        1
    } else if a < 0 {
        -1
    } else {
        0
    }
}

fn abs_of(a: i32) -> (r: i32)
    requires
        -8 < a < 8,
    ensures
        r == abs(a as int),
{
    if a < 0 {
        -a
    } else {
        a
    }
}

/// Whether both squares lie on the board and nothing stands strictly
/// between `from` and the rank of `to`, along the file of `from`.
pub fn vertical_path_clear(g: &Squares, from: Position, to: Position) -> (r: bool)
    ensures
        r == vertical_clear(g@, from, to),
{
    if !from.is_valid() || !to.is_valid() {
        return false;
    }
    let dy: i32 = to.y - from.y;
    line_is_clear(g, from.x, from.y, 0, sign_of(dy), abs_of(dy))
}

/// Whether both squares lie on the board and nothing stands strictly
/// between `from` and the file of `to`, along the rank of `from`.
pub fn horizontal_path_clear(g: &Squares, from: Position, to: Position) -> (r: bool)
    ensures
        r == horizontal_clear(g@, from, to),
{
    if !from.is_valid() || !to.is_valid() {
        return false;
    }
    let dx: i32 = to.x - from.x;
    line_is_clear(g, from.x, from.y, sign_of(dx), 0, abs_of(dx))
}

/// Whether both squares lie on the board and nothing stands on the
/// diagonal that leaves `from` towards `to`, before the file or the rank
/// of `to` is reached.
pub fn diagonal_path_clear(g: &Squares, from: Position, to: Position) -> (r: bool)
    ensures
        r == diagonal_clear(g@, from, to),
{
    if !from.is_valid() || !to.is_valid() {
        return false;
    }
    let dx: i32 = to.x - from.x;
    let dy: i32 = to.y - from.y;
    let ax: i32 = abs_of(dx);
    let ay: i32 = abs_of(dy);
    let n: i32 = if ax < ay {
        ax
    } else {
        ay
    };
    line_is_clear(g, from.x, from.y, sign_of(dx), sign_of(dy), n)
}

/// Whether a piece of kind `t` and side `c` on `from` has `to` within
/// reach, whatever stands on `to`.
pub fn piece_reaches(g: &Squares, t: Type, c: Color, from: Position, to: Position) -> (r: bool)
    ensures
        r == reaches(g@, t, c, from, to),
{
    if !from.is_valid() || !to.is_valid() || from == to {
        return false;
    }
    let dx: i32 = to.x - from.x;
    let dy: i32 = to.y - from.y;
    let ax: i32 = abs_of(dx);
    let ay: i32 = abs_of(dy);
    match t {
        Type::Pawn => {
            let ahead: i32 = match c {
                Color::White => 1,
                Color::Black => -1,
            };
            ax == 1 && dy == ahead
        },
        Type::Knight => (ax == 1 && ay == 2) || (ax == 2 && ay == 1),
        Type::Bishop => ax == ay && diagonal_path_clear(g, from, to),
        Type::Rook => {
            if dx == 0 {
                vertical_path_clear(g, from, to)
            } else if dy == 0 {
                horizontal_path_clear(g, from, to)
            } else {
                false
            }
        },
        Type::Queen => {
            if dx == 0 {
                vertical_path_clear(g, from, to)
            } else if dy == 0 {
                horizontal_path_clear(g, from, to)
            } else if ax == ay {
                diagonal_path_clear(g, from, to)
            } else {
                false
            }
        },
        Type::King => ax <= 1 && ay <= 1,
    }
}

/// Whether the rules of its kind, castling left aside, let `piece` go
/// from `from` to `to`, whether or not its king is then in check.
pub fn plain_move_ok(
    g: &Squares,
    last: Option<OkMovement>,
    piece: ChessPiece,
    from: Position,
    to: Position,
) -> (r: bool)
    ensures
        r == (plain_move(g@, last, piece, from, to) is Ok),
{
    if from == to || !from.is_valid() || !to.is_valid() {
        return false;
    }
    match piece.piece_type {
        Type::Pawn => {
            let dx: i32 = to.x - from.x;
            let dy: i32 = to.y - from.y;
            let (ahead, start): (i32, i32) = match piece.color {
                Color::White => (1, 1),
                Color::Black => (-1, 6),
            };
            let target = get_at(g, to);
            if dx == 0 {
                target.is_none() && (dy == ahead || (dy == 2 * ahead && !piece.moved && from.y
                    == start && vertical_path_clear(g, from, to)))
            } else if (dx == 1 || dx == -1) && dy == ahead {
                match target {
                    Some(other) => other.color != piece.color,
                    None => match last {
                        Some(m) => match m.movement_type {
                            MovementType::InitialDoubleAdvance => {
                                m.to.y == from.y && m.to.x == to.x && match get_at(g, m.to) {
                                    Some(v) => v.piece_type == Type::Pawn && v.color
                                        != piece.color,
                                    None => false,
                                }
                            },
                            _ => false,
                        },
                        None => false,
                    },
                }
            } else {
                false
            }
        },
        _ => {
            piece_reaches(g, piece.piece_type, piece.color, from, to) && match get_at(g, to) {
                Some(other) => other.color != piece.color,
                None => true,
            }
        },
    }
}

/// Whether side `by` attacks `target`.
pub fn square_attacked(g: &Squares, last: Option<OkMovement>, target: Position, by: Color) -> (r:
    bool)
    ensures
        r == attacked(g@, last, target, by),
{
    let mut i: usize = 0;
    while i < 64
        invariant
            i <= 64,
            forall|j: int| 0 <= j < i ==> !#[trigger] attacks_from(g@, last, j, target, by),
        decreases 64 - i,
    {
        match g[i] {
            Some(p) => {
                if p.color == by && plain_move_ok(g, last, p, Position::from_index(i), target) {
                    assert(attacks_from(g@, last, i as int, target, by));
                    return true;
                }
            },
            None => {},
        }
        i = i + 1;
    }
    false
}

/// Whether the king `piece`, were it standing on `square` in place of
/// `from`, would be in check.
pub fn king_checked_on(
    g: &Squares,
    last: Option<OkMovement>,
    piece: ChessPiece,
    from: Position,
    square: Position,
) -> (r: bool)
    ensures
        r == checked_on(g@, last, piece, from, square),
{
    let mut scratch: Squares = *g;
    set_at(&mut scratch, from, None);
    set_at(&mut scratch, square, Some(piece));
    square_attacked(&scratch, last, square, piece.color.other())
}

/// Carries out a move on the squares.
pub fn apply_movement(g: &mut Squares, m: OkMovement)
    ensures
        final(g)@ == squares_after(old(g)@, m),
{
    let rook = match m.movement_type {
        MovementType::Castling(rook_from, _) => get_at(g, rook_from),
        _ => None,
    };
    set_at(g, m.from, None);
    let mover = ChessPiece { piece_type: m.mover.piece_type, color: m.mover.color, moved: true };
    set_at(g, m.to, Some(mover));
    match m.movement_type {
        MovementType::EnPassant(_) => {
            set_at(g, Position { x: m.to.x, y: m.from.y }, None);
        },
        MovementType::Castling(rook_from, rook_to) => {
            set_at(g, rook_from, None);
            let carried = match rook {
                Some(r) => Some(ChessPiece { piece_type: r.piece_type, color: r.color, moved: true }),
                None => None,
            };
            set_at(g, rook_to, carried);
        },
        _ => {},
    }
}

/// Takes a move back on the squares.
pub fn revert_movement(g: &mut Squares, m: OkMovement)
    ensures
        final(g)@ == squares_before(old(g)@, m),
{
    let taken = match m.movement_type {
        MovementType::Capture(c) => Some(c),
        _ => None,
    };
    set_at(g, m.to, taken);
    set_at(g, m.from, Some(m.mover));
    match m.movement_type {
        MovementType::EnPassant(v) => {
            set_at(g, Position { x: m.to.x, y: m.from.y }, Some(v));
        },
        MovementType::Castling(rook_from, rook_to) => {
            set_at(g, rook_to, None);
            set_at(
                g,
                rook_from,
                Some(ChessPiece { piece_type: Type::Rook, color: m.mover.color, moved: false }),
            );
        },
        _ => {},
    }
}

} // verus!
