//! What holds of the rules and of the board, proved from their
//! definitions.
use crate::board::state::{Color, GameState};
use crate::board::{
    after_move, after_promotion, all_pairs, castling_open, holds_king, in_sync, initial_view,
    legal_moves_spec, move_outcome, promote_outcome, promotion_square, undone, waiting_pawn,
    BoardView,
};
use crate::piece::position::square;
use crate::piece::position::Position;
use crate::piece::{ChessPiece, Type};
use crate::result::{MovementError, MovementType, OkMovement, PromotionError};
use crate::rules::{
    abs, along, at, at_xy, attacked, attacks_from, can_move_spec, castling_rook_from,
    castling_rook_to, checked_on, exposes_king, has_legal_move, horizontal_clear, legal,
    lemma_filter_step, may_castle, placement_after, plain_move, put, reaches, sign, squares_after,
    squares_before, sudo_legal, Placement,
};
use vstd::prelude::*;

verus! {

/// A king's move of two files along its rank is accepted exactly where
/// the king may castle, and then it counts as castling with the rook
/// of that side: neither piece has moved, nothing stands between them,
/// and the king would be in check on none of its own square, the
/// square it crosses and its destination.
pub proof fn lemma_castling_preconditions(
    pl: Placement,
    piece: ChessPiece,
    from: Position,
    to: Position,
)
    requires
        piece.piece_type == Type::King,
        from.valid(),
        to.valid(),
        to.y == from.y,
        abs(to.x - from.x) == 2,
    ensures
        sudo_legal(pl, piece, from, to) is Ok <==> may_castle(
            pl.squares,
            pl.last,
            piece,
            from,
            to,
        ),
        sudo_legal(pl, piece, from, to) matches Ok(m) ==> {
            &&& m.movement_type == MovementType::Castling(
                castling_rook_from(from, to),
                castling_rook_to(from, to),
            )
            &&& !piece.moved
            &&& at(pl.squares, castling_rook_from(from, to)) == Some(
                ChessPiece { piece_type: Type::Rook, color: piece.color, moved: false },
            )
            &&& horizontal_clear(pl.squares, from, castling_rook_from(from, to))
            &&& !checked_on(pl.squares, pl.last, piece, from, from)
            &&& !checked_on(pl.squares, pl.last, piece, from, castling_rook_to(from, to))
            &&& !checked_on(pl.squares, pl.last, piece, from, to)
        },
{
}

/// Only a king's move counts as castling, and only one of two files
/// along its rank.
pub proof fn lemma_castling_shape(pl: Placement, piece: ChessPiece, from: Position, to: Position)
    requires
        sudo_legal(pl, piece, from, to) is Ok,
        sudo_legal(pl, piece, from, to).unwrap().movement_type is Castling,
    ensures
        piece.piece_type == Type::King,
        from.valid(),
        to.valid(),
        to.y == from.y,
        abs(to.x - from.x) == 2,
        may_castle(pl.squares, pl.last, piece, from, to),
{
}

/// A piece that has not moved after a move stood on the same square,
/// unmoved, before it: no move makes a piece unmoved again.
pub proof fn lemma_unmoved_stays(g: Seq<Option<ChessPiece>>, m: OkMovement, p: Position)
    requires
        g.len() == 64,
        at(squares_after(g, m), p) is Some,
        !at(squares_after(g, m), p).unwrap().moved,
    ensures
        at(g, p) == at(squares_after(g, m), p),
{
}

/// A side that may not castle any more may not castle after a further
/// move either, whatever the move: taking the king or the rook away
/// and back does not bring the right back.
pub proof fn lemma_castling_never_reopens(v: BoardView, m: OkMovement, c: Color)
    requires
        v.wf(),
        !castling_open(v, c),
    ensures
        !castling_open(after_move(v, m), c),
{
    let w = after_move(v, m);
    if castling_open(w, c) {
        let k = w.placement().king(c).unwrap();
        lemma_unmoved_stays(v.squares, m, k);
        lemma_unmoved_stays(v.squares, m, Position { x: 0, y: k.y });
        lemma_unmoved_stays(v.squares, m, Position { x: 7, y: k.y });
    }
}

/// A promotion does not bring the right to castle back either.
pub proof fn lemma_castling_never_reopens_by_promotion(
    v: BoardView,
    c: Color,
    p: Position,
    t: Type,
    side: Color,
)
    requires
        v.wf(),
        !castling_open(v, side),
    ensures
        !castling_open(after_promotion(v, c, p, t), side),
{
    let w = after_promotion(v, c, p, t);
    if castling_open(w, side) {
        let k = w.placement().king(side).unwrap();
        let piece = Some(ChessPiece { piece_type: t, color: c, moved: true });
        lemma_put_at(v.squares, p, piece, k);
        lemma_put_at(v.squares, p, piece, Position { x: 0, y: k.y });
        lemma_put_at(v.squares, p, piece, Position { x: 7, y: k.y });
    }
}

/// The board accepts castling by the king it follows only while that
/// king's side may still castle.
pub proof fn lemma_castling_needs_open_right(v: BoardView, from: Position, to: Position)
    requires
        v.wf(),
        move_outcome(v, from, to) is Ok,
        move_outcome(v, from, to).unwrap().movement_type is Castling,
        v.placement().king(v.turn) == Some(from),
    ensures
        castling_open(v, v.turn),
{
    let piece = at(v.squares, from).unwrap();
    lemma_accepted_move_facts(v.placement(), piece, from, to);
}

/// A move that the rules of its kind allow, and that would leave the
/// mover's king in check, is refused as creating check, whether or not
/// the mover is in check before it.
pub proof fn lemma_own_check_rejected(pl: Placement, piece: ChessPiece, from: Position, to: Position)
    requires
        sudo_legal(pl, piece, from, to) is Ok,
        exposes_king(pl, sudo_legal(pl, piece, from, to).unwrap()),
    ensures
        can_move_spec(pl, piece, from, to) == Err::<OkMovement, MovementError>(
            MovementError::CreatesOwnCheck,
        ),
{
}

/// On a board in progress, the side to move is refused, as creating
/// check, each move of one of its pieces that its kind allows and that
/// would leave its king in check.
pub proof fn lemma_own_check_rejected_on_board(v: BoardView, from: Position, to: Position)
    requires
        v.state == GameState::InProgress,
        at(v.squares, from) is Some,
        at(v.squares, from).unwrap().color == v.turn,
        sudo_legal(v.placement(), at(v.squares, from).unwrap(), from, to) is Ok,
        exposes_king(
            v.placement(),
            sudo_legal(v.placement(), at(v.squares, from).unwrap(), from, to).unwrap(),
        ),
    ensures
        move_outcome(v, from, to) == Err::<OkMovement, MovementError>(
            MovementError::CreatesOwnCheck,
        ),
{
}

/// A move that is accepted leaves the mover's king out of check,
/// unless it takes a king.
pub proof fn lemma_accepted_move_is_safe(pl: Placement, piece: ChessPiece, from: Position, to: Position)
    requires
        can_move_spec(pl, piece, from, to) is Ok,
    ensures
        can_move_spec(pl, piece, from, to) == sudo_legal(pl, piece, from, to),
        can_move_spec(pl, piece, from, to).unwrap().takes_king() || !placement_after(
            pl,
            can_move_spec(pl, piece, from, to).unwrap(),
        ).in_check(piece.color),
{
}

/// While a promotion is pending, every move is refused for want of
/// the promotion, whichever squares it names.
pub proof fn lemma_promotion_blocks_moves(v: BoardView, from: Position, to: Position)
    requires
        v.state is WaitingPromotion,
    ensures
        move_outcome(v, from, to) == Err::<OkMovement, MovementError>(
            MovementError::PromotionNotSpecified,
        ),
{
}

/// A pawn becomes neither a pawn nor a king, whatever the state of the
/// board.
pub proof fn lemma_promotion_rejects_pawn_and_king(v: BoardView, piece: ChessPiece)
    requires
        piece.piece_type == Type::Pawn || piece.piece_type == Type::King,
    ensures
        promote_outcome(v, piece) == Err::<(Position, Type), PromotionError>(
            PromotionError::InvalidPromotion(piece.piece_type),
        ),
{
}

/// A pawn's move to its last rank leaves the board waiting for the
/// promotion, with the same side to move, unless the move ends the
/// game by taking a king or by mate.
pub proof fn lemma_promotion_pending(v: BoardView, m: OkMovement)
    requires
        promotion_square(m) is Some,
        !m.takes_king(),
        after_move(v, m).state != GameState::Winner(m.mover.color),
    ensures
        after_move(v, m).state == GameState::WaitingPromotion(m.mover.color, m.to),
        after_move(v, m).turn == v.turn,
{
}

/// No move is refused for leaving a check unresolved: a move that
/// leaves the mover in check is refused as creating check.
pub proof fn lemma_one_reason_for_check(v: BoardView, from: Position, to: Position)
    ensures
        move_outcome(v, from, to) != Err::<OkMovement, MovementError>(
            MovementError::CheckNotResolved,
        ),
{
}

/// Once the game is over, every move is refused for that reason.
pub proof fn lemma_game_over_blocks_moves(v: BoardView, from: Position, to: Position)
    requires
        v.state is Winner || v.state is Draw,
    ensures
        move_outcome(v, from, to) == Err::<OkMovement, MovementError>(MovementError::GameIsOver),
{
}

/// A pawn takes en passant only right after an enemy pawn's double
/// advance that ended beside it, on the file it moves to; the pawn it
/// takes is that pawn.
pub proof fn lemma_en_passant_window(pl: Placement, piece: ChessPiece, from: Position, to: Position)
    requires
        sudo_legal(pl, piece, from, to) is Ok,
        sudo_legal(pl, piece, from, to).unwrap().movement_type is EnPassant,
    ensures
        piece.piece_type == Type::Pawn,
        at(pl.squares, to) is None,
        pl.last is Some,
        pl.last.unwrap().movement_type == MovementType::InitialDoubleAdvance,
        pl.last.unwrap().to == (Position { x: to.x, y: from.y }),
        at(pl.squares, pl.last.unwrap().to) is Some,
        sudo_legal(pl, piece, from, to).unwrap().movement_type == MovementType::EnPassant(
            at(pl.squares, pl.last.unwrap().to).unwrap(),
        ),
        at(pl.squares, pl.last.unwrap().to).unwrap().piece_type == Type::Pawn,
        at(pl.squares, pl.last.unwrap().to).unwrap().color != piece.color,
{
}

/// Where the last turn was not a double advance, no move takes en
/// passant.
pub proof fn lemma_en_passant_closed(pl: Placement, piece: ChessPiece, from: Position, to: Position)
    requires
        pl.last matches Some(m) ==> m.movement_type != MovementType::InitialDoubleAdvance,
    ensures
        sudo_legal(pl, piece, from, to) matches Ok(m) ==> !(m.movement_type is EnPassant),
{
}

/// Onto a square that holds an enemy piece, the rules of its kind let
/// a piece go exactly where the square is within its reach, and the
/// move then takes that piece.
pub proof fn lemma_attack_is_capture(pl: Placement, piece: ChessPiece, from: Position, to: Position)
    requires
        pl.squares.len() == 64,
        at(pl.squares, to) is Some,
        at(pl.squares, to).unwrap().color != piece.color,
    ensures
        reaches(pl.squares, piece.piece_type, piece.color, from, to) <==> plain_move(
            pl.squares,
            pl.last,
            piece,
            from,
            to,
        ) is Ok,
        plain_move(pl.squares, pl.last, piece, from, to) == sudo_legal(pl, piece, from, to),
        sudo_legal(pl, piece, from, to) matches Ok(m) ==> m.movement_type == MovementType::Capture(
            at(pl.squares, to).unwrap(),
        ),
{
}

/// A square that holds a piece of the other side is attacked exactly
/// where it is within the reach of a piece of the attacking side; so
/// a king is in check exactly where an enemy piece could take it.
pub proof fn lemma_attack_on_piece(
    g: Seq<Option<ChessPiece>>,
    last: Option<OkMovement>,
    target: Position,
    by: Color,
)
    requires
        g.len() == 64,
        at(g, target) is Some,
        at(g, target).unwrap().color != by,
    ensures
        attacked(g, last, target, by) <==> exists|i: int|
            0 <= i < 64 && #[trigger] g[i] is Some && g[i].unwrap().color == by && reaches(
                g,
                g[i].unwrap().piece_type,
                by,
                square(i),
                target,
            ),
{
    let pl = Placement { squares: g, last, white_king: None, black_king: None };
    if attacked(g, last, target, by) {
        let i = choose|i: int| 0 <= i < 64 && #[trigger] attacks_from(g, last, i, target, by);
        lemma_attack_is_capture(pl, g[i].unwrap(), square(i), target);
        assert(g[i] is Some && g[i].unwrap().color == by && reaches(
            g,
            g[i].unwrap().piece_type,
            by,
            square(i),
            target,
        ));
    }
    if exists|i: int|
        0 <= i < 64 && #[trigger] g[i] is Some && g[i].unwrap().color == by && reaches(
            g,
            g[i].unwrap().piece_type,
            by,
            square(i),
            target,
        ) {
        let i = choose|i: int|
            0 <= i < 64 && #[trigger] g[i] is Some && g[i].unwrap().color == by && reaches(
                g,
                g[i].unwrap().piece_type,
                by,
                square(i),
                target,
            );
        lemma_attack_is_capture(pl, g[i].unwrap(), square(i), target);
        assert(attacks_from(g, last, i, target, by));
    }
}

/// A move made by the rules of its kind, castling left aside, never
/// ends on a piece of the mover's side nor on the mover's own square:
/// no side attacks a square that holds one of its own pieces.
pub proof fn lemma_no_attack_on_own_piece(
    g: Seq<Option<ChessPiece>>,
    last: Option<OkMovement>,
    target: Position,
    by: Color,
)
    requires
        g.len() == 64,
        at(g, target) is Some,
        at(g, target).unwrap().color == by,
    ensures
        !attacked(g, last, target, by),
{
    assert forall|i: int| 0 <= i < 64 implies !#[trigger] attacks_from(g, last, i, target, by) by {}
}

/// After an accepted move that takes no king, the board names as in
/// check exactly the side whose king is in check.
pub proof fn lemma_check_is_accurate(v: BoardView, from: Position, to: Position, c: Color)
    requires
        move_outcome(v, from, to) is Ok,
        !move_outcome(v, from, to).unwrap().takes_king(),
    ensures
        after_move(v, move_outcome(v, from, to).unwrap()).check == Some(c) <==> after_move(
            v,
            move_outcome(v, from, to).unwrap(),
        ).placement().in_check(c),
{
    let m = move_outcome(v, from, to).unwrap();
    let w = after_move(v, m);
    assert(w.placement() == placement_after(v.placement(), m));
}

/// What a side attacks while no move was made just before, it also
/// attacks on squares that are occupied alike by pieces of the same
/// sides and hold the same pieces of the attacking side, whatever
/// move was made just before.
pub proof fn lemma_attacked_by_occupancy(
    g: Seq<Option<ChessPiece>>,
    last: Option<OkMovement>,
    h: Seq<Option<ChessPiece>>,
    target: Position,
    by: Color,
)
    requires
        g.len() == 64,
        h.len() == 64,
        forall|i: int| 0 <= i < 64 ==> (g[i] is None <==> h[i] is None),
        forall|i: int| 0 <= i < 64 && g[i] is Some ==> g[i].unwrap().color == h[i].unwrap().color,
        forall|i: int| 0 <= i < 64 && g[i] is Some && g[i].unwrap().color == by ==> g[i] == h[i],
        attacked(h, None, target, by),
    ensures
        attacked(g, last, target, by),
{
    assert forall|x: int, y: int| at_xy(g, x, y) is None <==> at_xy(h, x, y) is None by {
        if 0 <= x < 8 && 0 <= y < 8 {
            assert(g[y * 8 + x] is None <==> h[y * 8 + x] is None);
        }
    }
    let i = choose|i: int| 0 <= i < 64 && #[trigger] attacks_from(h, None, i, target, by);
    assert(g[i] is None <==> h[i] is None);
    assert(g[i] == h[i]);
    if target.valid() {
        assert(g[target.index()] is None <==> h[target.index()] is None);
    }
    assert(attacks_from(g, last, i, target, by));
}

/// After an accepted promotion by a side that was not in check, the
/// board names as in check exactly the side whose king is in check.
pub proof fn lemma_check_is_accurate_after_promotion(v: BoardView, piece: ChessPiece, c: Color)
    requires
        v.wf(),
        waiting_pawn(v),
        promote_outcome(v, piece) is Ok,
        !v.placement().in_check(v.turn),
    ensures
        ({
            let done = promote_outcome(v, piece).unwrap();
            let w = after_promotion(v, piece.color, done.0, done.1);
            w.check == Some(c) <==> w.placement().in_check(c)
        }),
{
    let done = promote_outcome(v, piece).unwrap();
    let w = after_promotion(v, piece.color, done.0, done.1);
    let mover = piece.color;
    let pl = Placement {
        squares: w.squares,
        last: None,
        white_king: v.white_king,
        black_king: v.black_king,
    };
    assert(w.placement() == pl);
    if c == mover {
        if v.placement().king(c) is Some {
            let k = v.placement().king(c).unwrap();
            if w.placement().in_check(c) {
                lemma_attacked_by_occupancy(
                    v.squares,
                    v.placement().last,
                    w.squares,
                    k,
                    c.opponent(),
                );
            }
        }
    }
}

/// After an accepted move that takes no king, the game is won by the
/// mover exactly where the other side is in check and has no move; it
/// is drawn exactly where the other side has no move, is not in check,
/// and no promotion is pending.
pub proof fn lemma_game_end(v: BoardView, from: Position, to: Position)
    requires
        move_outcome(v, from, to) is Ok,
        !move_outcome(v, from, to).unwrap().takes_king(),
    ensures
        ({
            let m = move_outcome(v, from, to).unwrap();
            let w = after_move(v, m);
            let other = v.turn.opponent();
            &&& m.mover.color == v.turn
            &&& w.state == GameState::Winner(v.turn) <==> w.placement().in_check(other)
                && !has_legal_move(w.placement(), other)
            &&& w.state == GameState::Draw <==> !w.placement().in_check(other) && !has_legal_move(
                w.placement(),
                other,
            ) && promotion_square(m) is None
            &&& !(w.state is Winner) || w.state == GameState::Winner(v.turn)
        }),
{
    let m = move_outcome(v, from, to).unwrap();
    let w = after_move(v, m);
    assert(w.placement() == placement_after(v.placement(), m));
}

/// Reading a square after one square was replaced: the new content
/// on that square, the old content elsewhere.
pub proof fn lemma_put_at(g: Seq<Option<ChessPiece>>, p: Position, v: Option<ChessPiece>, q: Position)
    requires
        g.len() == 64,
    ensures
        at(put(g, p, v), q) == if q == p && p.valid() {
            v
        } else {
            at(g, q)
        },
        put(g, p, v).len() == 64,
{
}

/// What stands on each square after an accepted move.
pub proof fn lemma_squares_after(pl: Placement, piece: ChessPiece, from: Position, to: Position, q: Position)
    requires
        pl.squares.len() == 64,
        sudo_legal(pl, piece, from, to) is Ok,
    ensures
        squares_after(pl.squares, sudo_legal(pl, piece, from, to).unwrap()).len() == 64,
        at(squares_after(pl.squares, sudo_legal(pl, piece, from, to).unwrap()), q) == ({
            let m = sudo_legal(pl, piece, from, to).unwrap();
            if q == to {
                Some(piece.touched())
            } else if q == from {
                None
            } else {
                match m.movement_type {
                    MovementType::EnPassant(_) => if q == (Position { x: to.x, y: from.y }) {
                        None
                    } else {
                        at(pl.squares, q)
                    },
                    MovementType::Castling(rook_from, rook_to) => if q == rook_from {
                        None
                    } else if q == rook_to {
                        Some(
                            ChessPiece {
                                piece_type: Type::Rook,
                                color: piece.color,
                                moved: true,
                            },
                        )
                    } else {
                        at(pl.squares, q)
                    },
                    _ => at(pl.squares, q),
                }
            }
        }),
{
    let m = sudo_legal(pl, piece, from, to).unwrap();
    let g = pl.squares;
    lemma_accepted_move_facts(pl, piece, from, to);
    let g1 = put(g, from, None);
    let g2 = put(g1, to, Some(piece.touched()));
    lemma_put_at(g, from, None, q);
    lemma_put_at(g1, to, Some(piece.touched()), q);
    match m.movement_type {
        MovementType::EnPassant(_) => {
            lemma_put_at(g2, Position { x: to.x, y: from.y }, None, q);
        },
        MovementType::Castling(rook_from, rook_to) => {
            let g3 = put(g2, rook_from, None);
            lemma_put_at(g2, rook_from, None, q);
            lemma_put_at(g3, rook_to, crate::rules::touched(at(g, rook_from)), q);
        },
        _ => {},
    }
}

/// The king of a side is still where it is looked for after a move
/// that the rules of its kind allow to the piece on `from`.
pub proof fn lemma_king_followed(pl: Placement, from: Position, to: Position, c: Color)
    requires
        pl.squares.len() == 64,
        at(pl.squares, from) is Some,
        sudo_legal(pl, at(pl.squares, from).unwrap(), from, to) is Ok,
        pl.king(c) is Some ==> holds_king(pl.squares, pl.king(c).unwrap(), c),
    ensures
        ({
            let m = sudo_legal(pl, at(pl.squares, from).unwrap(), from, to).unwrap();
            let after = placement_after(pl, m);
            after.king(c) is Some ==> holds_king(after.squares, after.king(c).unwrap(), c)
        }),
{
    let piece = at(pl.squares, from).unwrap();
    let m = sudo_legal(pl, piece, from, to).unwrap();
    let after = placement_after(pl, m);
    lemma_accepted_move_facts(pl, piece, from, to);
    if after.king(c) is Some {
        let k = after.king(c).unwrap();
        lemma_squares_after(pl, piece, from, to, k);
        if !(piece.piece_type == Type::King && piece.color == c) {
            assert(pl.king(c) == Some(k));
            assert(holds_king(pl.squares, k, c));
            assert(k != to);
            assert(k != from);
        }
    }
}

/// Each king is still where it is looked for after an accepted move.
pub proof fn lemma_kings_followed(v: BoardView, from: Position, to: Position)
    requires
        v.wf(),
        v.kings_tracked(),
        move_outcome(v, from, to) is Ok,
    ensures
        after_move(v, move_outcome(v, from, to).unwrap()).kings_tracked(),
        after_move(v, move_outcome(v, from, to).unwrap()).wf(),
{
    let m = move_outcome(v, from, to).unwrap();
    let pl = v.placement();
    let piece = at(v.squares, from).unwrap();
    assert(m == sudo_legal(pl, piece, from, to).unwrap());
    lemma_king_followed(pl, from, to, Color::White);
    lemma_king_followed(pl, from, to, Color::Black);
    lemma_squares_after(pl, piece, from, to, from);
    let w = after_move(v, m);
    assert(w.squares == placement_after(pl, m).squares);
    assert(w.white_king == placement_after(pl, m).king(Color::White));
    assert(w.black_king == placement_after(pl, m).king(Color::Black));
}

/// What an accepted move says of the squares it was made on: the mover
/// is the piece named, both squares lie on the board, and the kind of
/// move tells what stood on the squares it touches.
pub proof fn lemma_accepted_move_facts(pl: Placement, piece: ChessPiece, from: Position, to: Position)
    requires
        sudo_legal(pl, piece, from, to) is Ok,
    ensures
        ({
            let m = sudo_legal(pl, piece, from, to).unwrap();
            let g = pl.squares;
            &&& m.mover == piece
            &&& m.from == from
            &&& m.to == to
            &&& from.valid()
            &&& to.valid()
            &&& from != to
            &&& match m.movement_type {
                MovementType::Valid => at(g, to) is None,
                MovementType::InitialDoubleAdvance => at(g, to) is None && piece.piece_type
                    == Type::Pawn,
                MovementType::Capture(c) => at(g, to) == Some(c) && c.color != piece.color,
                MovementType::EnPassant(c) => {
                    &&& at(g, to) is None
                    &&& piece.piece_type == Type::Pawn
                    &&& to.x != from.x
                    &&& at(g, Position { x: to.x, y: from.y }) == Some(c)
                    &&& c.piece_type == Type::Pawn
                    &&& c.color != piece.color
                },
                MovementType::Castling(rook_from, rook_to) => {
                    &&& at(g, to) is None
                    &&& piece.piece_type == Type::King
                    &&& !piece.moved
                    &&& rook_from == castling_rook_from(from, to)
                    &&& rook_to == castling_rook_to(from, to)
                    &&& rook_from.valid()
                    &&& rook_to.valid()
                    &&& rook_from != to
                    &&& rook_from != from
                    &&& rook_to != to
                    &&& rook_to != from
                    &&& at(g, rook_from) == Some(
                        ChessPiece { piece_type: Type::Rook, color: piece.color, moved: false },
                    )
                    &&& rook_to != rook_from
                    &&& at(g, rook_to) is None
                },
            }
        }),
{
    let m = sudo_legal(pl, piece, from, to).unwrap();
    let g = pl.squares;
    match m.movement_type {
        MovementType::Castling(rook_from, rook_to) => {
            let sx = sign(rook_from.x - from.x);
            assert(at_xy(g, along(from.x as int, sx, 1), along(from.y as int, 0, 1)) is None);
        },
        _ => {},
    }
}

/// After an accepted move, a pending promotion is for the side to
/// move, whose pawn stands on the square named, on its last rank; and
/// the last turn of the history left the board as it is.
pub proof fn lemma_move_leaves_order(v: BoardView, from: Position, to: Position)
    requires
        v.wf(),
        move_outcome(v, from, to) is Ok,
    ensures
        waiting_pawn(after_move(v, move_outcome(v, from, to).unwrap())),
        in_sync(after_move(v, move_outcome(v, from, to).unwrap())),
{
    lemma_accepted_move_facts(v.placement(), at(v.squares, from).unwrap(), from, to);
}

/// An accepted promotion leaves no promotion pending, each king where
/// it is looked for, and a history whose last turn left the board as
/// it is.
pub proof fn lemma_promotion_leaves_order(v: BoardView, piece: ChessPiece)
    requires
        v.wf(),
        v.kings_tracked(),
        waiting_pawn(v),
        promote_outcome(v, piece) is Ok,
    ensures
        ({
            let done = promote_outcome(v, piece).unwrap();
            let w = after_promotion(v, piece.color, done.0, done.1);
            &&& !(w.state is WaitingPromotion)
            &&& w.kings_tracked()
            &&& w.wf()
            &&& in_sync(w)
            &&& w.turn == v.turn.opponent()
        }),
{
}

/// Taking back an accepted move gives the board as it was before the
/// move, where the board had a history whose last turn had left it as
/// it was.
pub proof fn lemma_undo_move(v: BoardView, from: Position, to: Position)
    requires
        v.wf(),
        v.history.len() > 0,
        in_sync(v),
        move_outcome(v, from, to) is Ok,
    ensures
        undone(after_move(v, move_outcome(v, from, to).unwrap())) == v,
{
    let m = move_outcome(v, from, to).unwrap();
    let w = after_move(v, m);
    lemma_accepted_move_facts(v.placement(), at(v.squares, from).unwrap(), from, to);
    assert(w.history.drop_last() =~= v.history);
    assert(squares_before(squares_after(v.squares, m), m) =~= v.squares);
}

/// Taking back the first move of a game gives the board on which the
/// game started.
pub proof fn lemma_undo_first_move(from: Position, to: Position)
    requires
        move_outcome(initial_view(), from, to) is Ok,
    ensures
        undone(after_move(initial_view(), move_outcome(initial_view(), from, to).unwrap()))
            == initial_view(),
{
}

/// Taking back an accepted promotion gives the board as it was before
/// the promotion, where a pawn was waiting and the last turn of the
/// history had left the board as it was.
pub proof fn lemma_undo_promotion(v: BoardView, piece: ChessPiece)
    requires
        v.wf(),
        v.history.len() > 0,
        in_sync(v),
        waiting_pawn(v),
        promote_outcome(v, piece) is Ok,
    ensures
        undone(
            after_promotion(
                v,
                piece.color,
                promote_outcome(v, piece).unwrap().0,
                promote_outcome(v, piece).unwrap().1,
            ),
        ) == v,
{
    let done = promote_outcome(v, piece).unwrap();
    let w = after_promotion(v, piece.color, done.0, done.1);
    assert(w.history.drop_last() =~= v.history);
    assert(undone(w).squares =~= v.squares);
}

/// `x` is one of the first `n` elements of `s`.
pub open spec fn among<A>(s: Seq<A>, n: int, x: A) -> bool {
    exists|i: int| 0 <= i < n && #[trigger] s[i] == x
}

/// Filtering the first `n` elements of a sequence without duplicates
/// keeps those of the `n` that pass, each once.
pub proof fn lemma_filter_distinct<A>(s: Seq<A>, pred: spec_fn(A) -> bool, n: int)
    requires
        s.no_duplicates(),
        0 <= n <= s.len(),
    ensures
        s.take(n).filter(pred).no_duplicates(),
        forall|x: A| #[trigger] s.take(n).filter(pred).contains(x) <==> among(s, n, x) && pred(x),
    decreases n,
{
    let f = s.take(n).filter(pred);
    if n == 0 {
        reveal(Seq::filter);
        assert(s.take(0) =~= Seq::<A>::empty());
        assert(f =~= Seq::<A>::empty());
    } else {
        lemma_filter_distinct(s, pred, n - 1);
        lemma_filter_step(s, pred, n - 1);
        let g = s.take(n - 1).filter(pred);
        let y = s[n - 1];
        assert forall|x: A| among(s, n, x) <==> among(s, n - 1, x) || x == y by {
            if among(s, n, x) {
                let i = choose|i: int| 0 <= i < n && #[trigger] s[i] == x;
                if i < n - 1 {
                    assert(among(s, n - 1, x));
                }
            }
            if among(s, n - 1, x) {
                let i = choose|i: int| 0 <= i < n - 1 && #[trigger] s[i] == x;
                assert(0 <= i < n && s[i] == x);
            }
            if x == y {
                assert(s[n - 1] == x);
            }
        }
        assert(!among(s, n - 1, y)) by {
            if among(s, n - 1, y) {
                let i = choose|i: int| 0 <= i < n - 1 && #[trigger] s[i] == y;
                assert(s[i] == s[n - 1]);
            }
        }
        if pred(y) {
            assert(f == g.push(y));
            assert(!g.contains(y));
            assert forall|x: A| #[trigger] f.contains(x) <==> among(s, n, x) && pred(x) by {
                if f.contains(x) {
                    let j = choose|j: int| 0 <= j < f.len() && f[j] == x;
                    if j < g.len() {
                        assert(g[j] == x);
                        assert(g.contains(x));
                    }
                }
                if g.contains(x) {
                    let j = choose|j: int| 0 <= j < g.len() && g[j] == x;
                    assert(f[j] == x);
                }
                if x == y {
                    assert(f[g.len() as int] == x);
                }
            }
        } else {
            assert(f == g);
        }
    }
}

/// No pair of squares occurs twice among all pairs.
pub proof fn lemma_all_pairs_distinct()
    ensures
        all_pairs().no_duplicates(),
{
    assert forall|a: int, b: int|
        0 <= a < all_pairs().len() && 0 <= b < all_pairs().len() && a != b implies all_pairs()[a]
        != all_pairs()[b] by {
        if a / 64 == b / 64 {
            assert(a % 64 != b % 64);
        }
    }
}

/// The list of legal moves names each move open to the side to move,
/// once, and nothing else; it is empty exactly where that side has no
/// move.
pub proof fn lemma_legal_moves_exact(v: BoardView)
    requires
        v.state == GameState::InProgress,
    ensures
        legal_moves_spec(v).no_duplicates(),
        forall|from: Position, to: Position|
            legal_moves_spec(v).contains((from, to)) <==> legal(v.placement(), v.turn, from, to),
        legal_moves_spec(v).len() == 0 <==> !has_legal_move(v.placement(), v.turn),
{
    let pl = v.placement();
    let turn = v.turn;
    let pred = |m: (Position, Position)| legal(pl, turn, m.0, m.1);
    let all = all_pairs();
    let f = legal_moves_spec(v);
    lemma_all_pairs_distinct();
    lemma_filter_distinct(all, pred, 4096);
    assert(all.take(4096) =~= all);
    assert forall|from: Position, to: Position| f.contains((from, to)) <==> legal(
        pl,
        turn,
        from,
        to,
    ) by {
        if legal(pl, turn, from, to) {
            let p = at(pl.squares, from).unwrap();
            lemma_accepted_move_facts(pl, p, from, to);
            let i = from.index() * 64 + to.index();
            assert(all[i] == (from, to));
            assert(among(all, 4096, (from, to)));
        }
        assert(f.contains((from, to)) <==> among(all, 4096, (from, to)) && pred((from, to)));
    }
    if f.len() == 0 {
        if has_legal_move(pl, turn) {
            let (i, j) = choose|i: int, j: int|
                0 <= i < 64 && 0 <= j < 64 && #[trigger] legal(pl, turn, square(i), square(j));
            assert(f.contains((square(i), square(j))));
        }
    } else {
        let m = f[0];
        assert(f.contains(m));
        assert(legal(pl, turn, m.0, m.1));
        let p = at(pl.squares, m.0).unwrap();
        lemma_accepted_move_facts(pl, p, m.0, m.1);
        assert(m.0 == square(m.0.index()));
        assert(m.1 == square(m.1.index()));
        assert(legal(pl, turn, square(m.0.index()), square(m.1.index())));
    }
}

/// The list of legal moves is decided by the board alone: asked of
/// two boards that look the same, or twice of one board that has not
/// changed, it is the same list.
pub proof fn lemma_legal_moves_repeatable(a: BoardView, b: BoardView)
    requires
        a == b,
    ensures
        legal_moves_spec(a) == legal_moves_spec(b),
{
}

} // verus!
