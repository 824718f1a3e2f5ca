//! The board and the game played on it.
use crate::bit_magic::{has_bit, lemma_bit_join};
use crate::laws::{lemma_kings_followed, lemma_move_leaves_order, lemma_promotion_leaves_order};
use crate::piece::position::{square, Position};
use crate::piece::{ChessPiece, Type};
use crate::result::{MovementError, MovementType, OkMovement, PromotionError};
use crate::rules::{
    apply_movement, at, attacked, can_move_spec, checked_on, diagonal_clear,
    diagonal_path_clear, exposes_king, get_at, has_legal_move, horizontal_clear,
    horizontal_path_clear, king_after, king_checked_on, legal, lemma_filter_skip,
    lemma_filter_step, placement_after, put, revert_movement, set_at, square_attacked,
    squares_before, vertical_clear, vertical_path_clear, Placement, Squares,
};
use vstd::prelude::*;

pub mod bit_board;
pub mod state;

use self::bit_board::{array_at, holds, BitBoard};
use self::state::{Color, GameState, Turn, TurnMovement};

verus! {

/// A board as the contracts see it.
pub struct BoardView {
    /// Side that is to act next.
    pub turn: Color,
    pub state: GameState,
    /// Side whose king is in check, if any.
    pub check: Option<Color>,
    /// The 64 squares, a1 first, along the ranks.
    pub squares: Seq<Option<ChessPiece>>,
    /// Every turn taken so far, oldest first.
    pub history: Seq<Turn>,
    pub white_king: Option<Position>,
    pub black_king: Option<Position>,
}

impl BoardView {
    /// The view has 64 squares.
    pub open spec fn wf(self) -> bool {
        self.squares.len() == 64
    }

    /// The move made on the last turn, if the last turn was a move.
    pub open spec fn last_movement(self) -> Option<OkMovement> {
        if self.history.len() > 0 {
            match self.history.last().movement {
                TurnMovement::Move(m) => Some(m),
                TurnMovement::Promotion(_, _) => None,
            }
        } else {
            None
        }
    }

    /// What the rules of movement read of this board.
    pub open spec fn placement(self) -> Placement {
        Placement {
            squares: self.squares,
            last: self.last_movement(),
            white_king: self.white_king,
            black_king: self.black_king,
        }
    }

    /// Each tracked king square holds a king of its side.
    pub open spec fn kings_tracked(self) -> bool {
        &&& self.white_king matches Some(k) ==> holds_king(self.squares, k, Color::White)
        &&& self.black_king matches Some(k) ==> holds_king(self.squares, k, Color::Black)
    }
}

/// A king of side `c` stands on square `k`.
pub open spec fn holds_king(g: Seq<Option<ChessPiece>>, k: Position, c: Color) -> bool {
    match at(g, k) {
        Some(p) => p.piece_type == Type::King && p.color == c,
        None => false,
    }
}

/// The last turn of the history, if there is one, left the board in
/// the state, the check and with the kings that it has now.
pub open spec fn in_sync(v: BoardView) -> bool {
    v.history.len() > 0 ==> {
        let top = v.history.last();
        &&& top.state == v.state
        &&& top.check == v.check
        &&& top.white_king_position == v.white_king
        &&& top.black_king_position == v.black_king
    }
}

/// Where a promotion is pending, it is for the side to move, and a
/// pawn of that side, which has moved, stands on the square named, on
/// the last rank of its side.
pub open spec fn waiting_pawn(v: BoardView) -> bool {
    match v.state {
        GameState::WaitingPromotion(c, p) => {
            &&& c == v.turn
            &&& p.valid()
            &&& p.y == c.promotion_rank()
            &&& at(v.squares, p) == Some(
                ChessPiece { piece_type: Type::Pawn, color: c, moved: true },
            )
        },
        _ => true,
    }
}

/// Kind of the piece that starts on file `x` of a side's first rank.
pub open spec fn back_rank(x: int) -> Type {
    if x == 0 || x == 7 {
        Type::Rook
    } else if x == 1 || x == 6 {
        Type::Knight
    } else if x == 2 || x == 5 {
        Type::Bishop
    } else if x == 3 {
        Type::Queen
    } else {
        Type::King
    }
}

/// What stands on the square of index `i` when a game starts.
pub open spec fn initial_piece(i: int) -> Option<ChessPiece> {
    let x = i % 8;
    let y = i / 8;
    if y == 0 {
        Some(ChessPiece { piece_type: back_rank(x), color: Color::White, moved: false })
    } else if y == 1 {
        Some(ChessPiece { piece_type: Type::Pawn, color: Color::White, moved: false })
    } else if y == 6 {
        Some(ChessPiece { piece_type: Type::Pawn, color: Color::Black, moved: false })
    } else if y == 7 {
        Some(ChessPiece { piece_type: back_rank(x), color: Color::Black, moved: false })
    } else {
        None
    }
}

/// The board on which a game starts: White to move, no history.
pub open spec fn initial_view() -> BoardView {
    BoardView {
        turn: Color::White,
        state: GameState::InProgress,
        check: None,
        squares: Seq::new(64, |i: int| initial_piece(i)),
        history: Seq::empty(),
        white_king: Some(Position { x: 4, y: 0 }),
        black_king: Some(Position { x: 4, y: 7 }),
    }
}

/// The first square from index `i` on that holds a king of side `c`.
pub open spec fn king_from(g: Seq<Option<ChessPiece>>, c: Color, i: int) -> Option<Position>
    decreases 64 - i,
{
    if i < 0 || i >= 64 {
        None
    } else if g[i] matches Some(p) && p.piece_type == Type::King && p.color == c {
        Some(square(i))
    } else {
        king_from(g, c, i + 1)
    }
}

/// The squares that an array of ranks holds, rank 1 first.
pub open spec fn flatten(arr: [[Option<ChessPiece>; 8]; 8]) -> Seq<Option<ChessPiece>> {
    Seq::new(64, |i: int| arr[i / 8][i % 8])
}

/// Number of the turn that follows `n` turns.
pub open spec fn next_number(n: nat) -> usize {
    if n < usize::MAX {
        (n + 1) as usize
    } else {
        usize::MAX
    }
}

/// Square on which the move takes a pawn to its last rank, if it does.
pub open spec fn promotion_square(m: OkMovement) -> Option<Position> {
    if m.mover.piece_type == Type::Pawn && m.to.y == m.mover.color.promotion_rank() {
        Some(m.to)
    } else {
        None
    }
}

/// Side in check once `mover` has acted: the other side, if its king
/// is in check.
pub open spec fn settled_check(pl: Placement, mover: Color) -> Option<Color> {
    if pl.in_check(mover.opponent()) {
        Some(mover.opponent())
    } else {
        None
    }
}

/// State of the game once `mover` has acted. The other side, left
/// without a move, has lost if it is in check; otherwise a pending
/// promotion comes first, and a side left without a move has drawn.
pub open spec fn settled_state(pl: Placement, mover: Color, promotion: Option<Position>) -> GameState {
    let stuck = !has_legal_move(pl, mover.opponent());
    if stuck && pl.in_check(mover.opponent()) {
        GameState::Winner(mover)
    } else if promotion is Some {
        GameState::WaitingPromotion(mover, promotion.unwrap())
    } else if stuck {
        GameState::Draw
    } else {
        GameState::InProgress
    }
}

/// What `move_piece` answers: every refusal with its reason, in the
/// order in which the reasons are looked for.
pub open spec fn move_outcome(v: BoardView, from: Position, to: Position) -> Result<
    OkMovement,
    MovementError,
> {
    match v.state {
        GameState::WaitingPromotion(_, _) => Err(MovementError::PromotionNotSpecified),
        GameState::Winner(_) => Err(MovementError::GameIsOver),
        GameState::Draw => Err(MovementError::GameIsOver),
        GameState::InProgress => if from == to {
            Err(MovementError::SamePosition)
        } else {
            match at(v.squares, from) {
                None => Err(MovementError::InvalidPiece),
                Some(p) => if p.color != v.turn {
                    Err(MovementError::InvalidPiece)
                } else {
                    can_move_spec(v.placement(), p, from, to)
                },
            }
        },
    }
}

/// The board after the side to move has made the move `m`. Taking a
/// king wins at once and leaves turn and check as they were. Otherwise
/// check and state are settled for the other side, and the turn passes
/// unless a promotion is pending. The move joins the history with the
/// state that it led to.
pub open spec fn after_move(v: BoardView, m: OkMovement) -> BoardView {
    let mover = m.mover.color;
    let pl = placement_after(v.placement(), m);
    let state = if m.takes_king() {
        GameState::Winner(mover)
    } else {
        settled_state(pl, mover, promotion_square(m))
    };
    let check = if m.takes_king() {
        v.check
    } else {
        settled_check(pl, mover)
    };
    let turn = if m.takes_king() || state is WaitingPromotion {
        v.turn
    } else {
        mover.opponent()
    };
    BoardView {
        turn,
        state,
        check,
        squares: pl.squares,
        history: v.history.push(
            Turn {
                color: mover,
                number: next_number(v.history.len()),
                movement: TurnMovement::Move(m),
                state,
                check,
                white_king_position: pl.white_king,
                black_king_position: pl.black_king,
            },
        ),
        white_king: pl.white_king,
        black_king: pl.black_king,
    }
}

/// What `promote` answers: the square and the new kind, or why the
/// promotion is refused.
pub open spec fn promote_outcome(v: BoardView, piece: ChessPiece) -> Result<
    (Position, Type),
    PromotionError,
> {
    if piece.piece_type == Type::Pawn || piece.piece_type == Type::King {
        Err(PromotionError::InvalidPromotion(piece.piece_type))
    } else {
        match v.state {
            GameState::WaitingPromotion(c, p) => if c == v.turn && piece.color == c {
                Ok((p, piece.piece_type))
            } else {
                Err(PromotionError::NoPromotion)
            },
            _ => Err(PromotionError::NoPromotion),
        }
    }
}

/// The board after the pawn of side `c` on `p` has become a piece of
/// kind `t`: the new piece counts as moved, check and state are
/// settled for the other side, the turn passes, and the promotion
/// joins the history.
pub open spec fn after_promotion(v: BoardView, c: Color, p: Position, t: Type) -> BoardView {
    let pl = Placement {
        squares: put(v.squares, p, Some(ChessPiece { piece_type: t, color: c, moved: true })),
        last: None,
        white_king: v.white_king,
        black_king: v.black_king,
    };
    let state = settled_state(pl, c, None);
    let check = settled_check(pl, c);
    BoardView {
        turn: c.opponent(),
        state,
        check,
        squares: pl.squares,
        history: v.history.push(
            Turn {
                color: c,
                number: next_number(v.history.len()),
                movement: TurnMovement::Promotion(p, t),
                state,
                check,
                white_king_position: v.white_king,
                black_king_position: v.black_king,
            },
        ),
        white_king: v.white_king,
        black_king: v.black_king,
    }
}

/// The squares before a turn, given the squares after it. A promotion
/// is taken back by a pawn of the side, which has moved.
pub open spec fn squares_before_turn(g: Seq<Option<ChessPiece>>, t: Turn) -> Seq<
    Option<ChessPiece>,
> {
    match t.movement {
        TurnMovement::Move(m) => squares_before(g, m),
        TurnMovement::Promotion(p, _) => put(
            g,
            p,
            Some(ChessPiece { piece_type: Type::Pawn, color: t.color, moved: true }),
        ),
    }
}

/// The board with its last turn taken back. With no turn left in the
/// history the board is set up anew. Otherwise the squares go back to
/// what they held, the side that took the turn is to move again, and
/// state, check and kings are those that the turn before left.
pub open spec fn undone(v: BoardView) -> BoardView {
    if v.history.len() == 0 {
        v
    } else if v.history.len() == 1 {
        initial_view()
    } else {
        let last = v.history.last();
        let rest = v.history.drop_last();
        let top = rest.last();
        BoardView {
            turn: last.color,
            state: top.state,
            check: top.check,
            squares: squares_before_turn(v.squares, last),
            history: rest,
            white_king: top.white_king_position,
            black_king: top.black_king_position,
        }
    }
}

/// A side may still castle: its king is where it is looked for and
/// has not moved, and a rook of the side that has not moved stands in
/// a corner of the king's rank.
pub open spec fn castling_open(v: BoardView, c: Color) -> bool {
    match v.placement().king(c) {
        Some(k) => {
            let rook = Some(ChessPiece { piece_type: Type::Rook, color: c, moved: false });
            at(v.squares, k) == Some(ChessPiece { piece_type: Type::King, color: c, moved: false })
                && (at(v.squares, Position { x: 0, y: k.y }) == rook || at(
                v.squares,
                Position { x: 7, y: k.y },
            ) == rook)
        },
        None => false,
    }
}

/// Every pair of squares, ordered by the index of the first and then
/// of the second.
pub open spec fn all_pairs() -> Seq<(Position, Position)> {
    Seq::new(4096, |k: int| (square(k / 64), square(k % 64)))
}

/// The moves open to the side to move, as pairs of origin and
/// destination in the order of `all_pairs`; none unless the game is
/// in progress.
pub open spec fn legal_moves_spec(v: BoardView) -> Seq<(Position, Position)> {
    if v.state == GameState::InProgress {
        all_pairs().filter(|m: (Position, Position)| legal(v.placement(), v.turn, m.0, m.1))
    } else {
        Seq::empty()
    }
}

/// A chess board with its game: the pieces, the side to move, the state
/// of the game and the turns taken so far.
pub struct Board {
    turn: Color,
    state: GameState,
    check: Option<Color>,
    pieces: Squares,
    turns: Vec<Turn>,
    white_king_position: Option<Position>,
    black_king_position: Option<Position>,
}

impl View for Board {
    type V = BoardView;

    closed spec fn view(&self) -> BoardView {
        BoardView {
            turn: self.turn,
            state: self.state,
            check: self.check,
            squares: self.pieces@,
            history: self.turns@,
            white_king: self.white_king_position,
            black_king: self.black_king_position,
        }
    }
}

impl Clone for Board {
    fn clone(&self) -> (r: Self)
        ensures
            r@ == self@,
    {
        let mut turns: Vec<Turn> = Vec::new();
        let mut i: usize = 0;
        while i < self.turns.len()
            invariant
                i <= self.turns.len(),
                turns@ == self.turns@.take(i as int),
            decreases self.turns.len() - i,
        {
            turns.push(self.turns[i]);
            assert(self.turns@.take(i + 1) =~= self.turns@.take(i as int).push(self.turns@[i as int]));
            i = i + 1;
        }
        assert(self.turns@.take(i as int) =~= self.turns@);
        Board {
            turn: self.turn,
            state: self.state,
            check: self.check,
            pieces: self.pieces,
            turns,
            white_king_position: self.white_king_position,
            black_king_position: self.black_king_position,
        }
    }
}

fn back_rank_piece(x: usize, color: Color) -> (r: ChessPiece)
    requires
        x < 8,
    ensures
        r == (ChessPiece { piece_type: back_rank(x as int), color, moved: false }),
{
    if x == 0 || x == 7 {
        ChessPiece::create_rook(color)
    } else if x == 1 || x == 6 {
        ChessPiece::create_knight(color)
    } else if x == 2 || x == 5 {
        ChessPiece::create_bishop(color)
    } else if x == 3 {
        ChessPiece::create_queen(color)
    } else {
        ChessPiece::create_king(color)
    }
}

/// Finds the first king of a side, by index.
fn locate_king(g: &Squares, c: Color) -> (r: Option<Position>)
    ensures
        r == king_from(g@, c, 0),
        r matches Some(k) ==> holds_king(g@, k, c),
{
    let mut i: usize = 0;
    while i < 64
        invariant
            i <= 64,
            king_from(g@, c, 0) == king_from(g@, c, i as int),
        decreases 64 - i,
    {
        match g[i] {
            Some(p) => {
                if p.piece_type == Type::King && p.color == c {
                    return Some(Position::from_index(i));
                }
            },
            None => {},
        }
        i = i + 1;
    }
    None
}

impl Board {
    /// The tracked king squares hold kings of their sides.
    pub open spec fn kings_tracked(&self) -> bool {
        self@.kings_tracked()
    }

    /// The view of every board has 64 squares.
    pub proof fn lemma_view_wf(&self)
        ensures
            self@.wf(),
    {
    }

    /// A board set up for a new game.
    pub fn new() -> (r: Board)
        ensures
            r@ == initial_view(),
            r.kings_tracked(),
    {
        let mut pieces: Squares = [None; 64];
        let mut x: usize = 0;
        while x < 8
            invariant
                x <= 8,
                forall|i: int|
                    0 <= i < 64 ==> #[trigger] pieces@[i] == if i % 8 < x {
                        initial_piece(i)
                    } else {
                        None
                    },
            decreases 8 - x,
        {
            pieces[x] = Some(back_rank_piece(x, Color::White));
            pieces[8 + x] = Some(ChessPiece::create_pawn(Color::White));
            pieces[48 + x] = Some(ChessPiece::create_pawn(Color::Black));
            pieces[56 + x] = Some(back_rank_piece(x, Color::Black));
            x = x + 1;
        }
        assert(pieces@ =~= initial_view().squares);
        assert(pieces@[4] == initial_piece(4) && pieces@[60] == initial_piece(60));
        Board {
            turn: Color::White,
            state: GameState::InProgress,
            check: None,
            pieces,
            turns: Vec::new(),
            white_king_position: Some(Position { x: 4, y: 0 }),
            black_king_position: Some(Position { x: 4, y: 7 }),
        }
    }

    /// A board with the given pieces, rank 1 first, and the given side
    /// to move. Each side's king is tracked on the first square, by
    /// index, that holds one. With a last move, the history holds one
    /// turn, by the other side, that made it.
    pub fn mock(
        arr: [[Option<ChessPiece>; 8]; 8],
        turn: Color,
        check: Option<Color>,
        last_move: Option<OkMovement>,
    ) -> (r: Board)
        ensures
            r@.turn == turn,
            r@.state == GameState::InProgress,
            r@.check == check,
            r@.squares == flatten(arr),
            r@.white_king == king_from(flatten(arr), Color::White, 0),
            r@.black_king == king_from(flatten(arr), Color::Black, 0),
            r@.last_movement() == last_move,
            in_sync(r@),
            r@.history.len() == if last_move is Some {
                1nat
            } else {
                0nat
            },
            last_move matches Some(m) ==> r@.history[0] == (Turn {
                color: turn.opponent(),
                number: 1,
                movement: TurnMovement::Move(m),
                state: GameState::InProgress,
                check,
                white_king_position: r@.white_king,
                black_king_position: r@.black_king,
            }),
            r.kings_tracked(),
    {
        let mut pieces: Squares = [None; 64];
        let mut i: usize = 0;
        while i < 64
            invariant
                i <= 64,
                forall|j: int| 0 <= j < i ==> #[trigger] pieces@[j] == arr[j / 8][j % 8],
            decreases 64 - i,
        {
            pieces[i] = arr[i / 8][i % 8];
            i = i + 1;
        }
        assert(pieces@ =~= flatten(arr));
        let white_king_position = locate_king(&pieces, Color::White);
        let black_king_position = locate_king(&pieces, Color::Black);
        let mut turns: Vec<Turn> = Vec::new();
        match last_move {
            Some(m) => {
                turns.push(
                    Turn {
                        color: turn.other(),
                        number: 1,
                        movement: TurnMovement::Move(m),
                        state: GameState::InProgress,
                        check,
                        white_king_position,
                        black_king_position,
                    },
                );
            },
            None => {},
        }
        Board {
            turn,
            state: GameState::InProgress,
            check,
            pieces,
            turns,
            white_king_position,
            black_king_position,
        }
    }

    /// Sets the board up for a new game.
    pub fn reset(&mut self)
        ensures
            final(self)@ == initial_view(),
    {
        *self = Board::new();
    }

    /// State of the game.
    pub fn get_state(&self) -> (r: GameState)
        ensures
            r == self@.state,
    {
        self.state
    }

    /// Side that is to act next.
    pub fn get_turn(&self) -> (r: Color)
        ensures
            r == self@.turn,
    {
        self.turn
    }

    /// Side whose king is in check, if any.
    pub fn get_check(&self) -> (r: Option<Color>)
        ensures
            r == self@.check,
    {
        self.check
    }

    /// The side that has won, once one has.
    pub fn get_winner(&self) -> (r: Option<Color>)
        ensures
            r == match self@.state {
                GameState::Winner(c) => Some(c),
                _ => None,
            },
    {
        match self.state {
            GameState::Winner(c) => Some(c),
            _ => None,
        }
    }

    /// Whether a side may still castle, now or later.
    pub fn can_castle(&self, color: Color) -> (r: bool)
        ensures
            r == castling_open(self@, color),
    {
        let king = match self.find_king_position(color) {
            Some(k) => k,
            None => {
                return false;
            },
        };
        match self.get_piece_at(king) {
            Some(p) => {
                if p.piece_type != Type::King || p.color != color || p.moved {
                    return false;
                }
            },
            None => {
                return false;
            },
        }
        self.has_fresh_rook(Position { x: 0, y: king.y }, color) || self.has_fresh_rook(
            Position { x: 7, y: king.y },
            color,
        )
    }

    fn has_fresh_rook(&self, corner: Position, color: Color) -> (r: bool)
        ensures
            r == (at(self@.squares, corner) == Some(
                ChessPiece { piece_type: Type::Rook, color, moved: false },
            )),
    {
        match self.get_piece_at(corner) {
            Some(p) => p.piece_type == Type::Rook && p.color == color && !p.moved,
            None => false,
        }
    }

    /// The side that has a promotion to choose, if any.
    pub fn get_promotion_color(&self) -> (r: Option<Color>)
        ensures
            r == match self@.state {
                GameState::WaitingPromotion(c, _) => Some(c),
                _ => None,
            },
    {
        match self.state {
            GameState::WaitingPromotion(color, _) => Some(color),
            _ => None,
        }
    }

    /// The move made on the last turn, if the last turn was a move.
    pub fn get_last_move(&self) -> (r: Option<OkMovement>)
        ensures
            r == self@.last_movement(),
    {
        let n = self.turns.len();
        if n == 0 {
            None
        } else {
            match self.turns[n - 1].movement {
                TurnMovement::Move(m) => Some(m),
                TurnMovement::Promotion(_, _) => None,
            }
        }
    }

    /// The turns taken so far, oldest first.
    pub fn get_turns(&self) -> (r: &Vec<Turn>)
        ensures
            r@ == self@.history,
    {
        &self.turns
    }

    /// Square of the pawn that advanced two squares on the last turn,
    /// if one did.
    pub fn en_passant(&self) -> (r: Option<Position>)
        ensures
            r == match self@.last_movement() {
                Some(m) => if m.movement_type == MovementType::InitialDoubleAdvance {
                    Some(m.to)
                } else {
                    None
                },
                None => None,
            },
    {
        match self.get_last_move() {
            Some(m) => match m.movement_type {
                MovementType::InitialDoubleAdvance => Some(m.to),
                _ => None,
            },
            None => None,
        }
    }

    /// The pieces, rank 1 first.
    pub fn get_pieces(&self) -> (r: [[Option<ChessPiece>; 8]; 8])
        ensures
            flatten(r) == self@.squares,
    {
        let mut out: [[Option<ChessPiece>; 8]; 8] = [[None; 8]; 8];
        let mut y: usize = 0;
        while y < 8
            invariant
                y <= 8,
                forall|j: int|
                    0 <= j < 8 * y ==> (#[trigger] out[j / 8])[j % 8] == self.pieces@[j],
            decreases 8 - y,
        {
            let mut row: [Option<ChessPiece>; 8] = [None; 8];
            let mut x: usize = 0;
            while x < 8
                invariant
                    x <= 8,
                    y < 8,
                    forall|k: int| 0 <= k < x ==> #[trigger] row[k] == self.pieces@[8 * y + k],
                decreases 8 - x,
            {
                row[x] = self.pieces[8 * y + x];
                x = x + 1;
            }
            out[y] = row;
            y = y + 1;
        }
        assert(flatten(out) =~= self.pieces@);
        out
    }

    /// The pieces as sets of squares, one for each kind of each side.
    /// Whether a piece has moved is not kept.
    pub fn to_bit_board(&self) -> (r: BitBoard)
        ensures
            forall|t: Type, c: Color, k: u64|
                k < 64 ==> (#[trigger] has_bit(r.field(t, c), k) <==> holds(
                    self@.squares[k as int],
                    t,
                    c,
                )),
    {
        let arr = self.get_pieces();
        assert forall|k: u64| k < 64 implies array_at(arr, k)
            == self@.squares[k as int] by {
            assert(flatten(arr)[k as int] == self@.squares[k as int]);
        }
        BitBoard::from_array(arr)
    }

    /// Gives the game to the side that is not to move, and says which
    /// side that is.
    pub fn resign(&mut self) -> (winner: Color)
        ensures
            winner == old(self)@.turn.opponent(),
            final(self)@ == (BoardView { state: GameState::Winner(winner), ..old(self)@ }),
    {
        let winner = self.next_turn();
        self.state = GameState::Winner(winner);
        winner
    }

    /// What stands on a square; nothing stands off the board.
    pub fn get_piece_at(&self, position: Position) -> (r: Option<ChessPiece>)
        ensures
            r == at(self@.squares, position),
    {
        get_at(&self.pieces, position)
    }

    /// Whether both squares lie on the board and nothing stands
    /// strictly between `from` and the rank of `to`, along the file of
    /// `from`.
    pub fn is_vertical_path_clean(&self, from: Position, to: Position) -> (r: bool)
        ensures
            r == vertical_clear(self@.squares, from, to),
    {
        vertical_path_clear(&self.pieces, from, to)
    }

    /// Whether both squares lie on the board and nothing stands
    /// strictly between `from` and the file of `to`, along the rank of
    /// `from`.
    pub fn is_horizontal_path_clean(&self, from: Position, to: Position) -> (r: bool)
        ensures
            r == horizontal_clear(self@.squares, from, to),
    {
        horizontal_path_clear(&self.pieces, from, to)
    }

    /// Whether both squares lie on the board and nothing stands on the
    /// diagonal that leaves `from` towards `to`, before the file or the
    /// rank of `to` is reached.
    pub fn is_diagonal_path_clean(&self, from: Position, to: Position) -> (r: bool)
        ensures
            r == diagonal_clear(self@.squares, from, to),
    {
        diagonal_path_clear(&self.pieces, from, to)
    }

    /// Whether the side opposing `defender` attacks `target`: one of
    /// its pieces may go there by the rules of its kind, castling left
    /// aside and whether or not its own king is then in check.
    pub fn is_position_been_attacked(&self, target: Position, defender: Color) -> (r: bool)
        ensures
            r == attacked(self@.squares, self@.last_movement(), target, defender.opponent()),
    {
        square_attacked(&self.pieces, self.get_last_move(), target, defender.other())
    }

    /// Whether the king `piece`, were it standing on `square` in place
    /// of `from`, would be in check.
    pub fn would_be_in_check_on(&self, piece: ChessPiece, from: Position, square: Position) -> (r:
        bool)
        ensures
            r == checked_on(self@.squares, self@.last_movement(), piece, from, square),
    {
        king_checked_on(&self.pieces, self.get_last_move(), piece, from, square)
    }

    /// The squares that a side attacks, as a bitboard.
    pub fn color_attack_board(&self, color: Color) -> (r: u64)
        ensures
            forall|k: u64|
                k < 64 ==> (has_bit(r, k) <==> attacked(
                    self@.squares,
                    self@.last_movement(),
                    square(k as int),
                    color,
                )),
    {
        let last = self.get_last_move();
        let mut attack_board: u64 = 0;
        let mut k: u64 = 0;
        proof {
            assert forall|j: u64| j < 64 implies !has_bit(0, j) by {
                lemma_bit_join(0, 0, j);
            }
        }
        while k < 64
            invariant
                k <= 64,
                last == self@.last_movement(),
                forall|j: u64|
                    j < 64 ==> (has_bit(attack_board, j) <==> j < k && attacked(
                        self@.squares,
                        last,
                        square(j as int),
                        color,
                    )),
            decreases 64 - k,
        {
            let ghost before = attack_board;
            if square_attacked(&self.pieces, last, Position::from_index(k as usize), color) {
                attack_board = attack_board | (1u64 << k);
            }
            proof {
                assert forall|j: u64| j < 64 implies (has_bit(attack_board, j) <==> j < k + 1
                    && attacked(self@.squares, last, square(j as int), color)) by {
                    lemma_bit_join(before, k, j);
                }
            }
            k = k + 1;
        }
        attack_board
    }

    /// Whether the move, which does not take a king, would leave the
    /// mover's own king in check. The board is left as it is.
    pub fn creates_check(&self, movement: OkMovement) -> (r: bool)
        ensures
            r == exposes_king(self@.placement(), movement),
    {
        match movement.movement_type {
            MovementType::Capture(captured) => {
                if captured.piece_type == Type::King {
                    return false;
                }
            },
            _ => {},
        }
        let mut scratch: Squares = self.pieces;
        apply_movement(&mut scratch, movement);
        let color = movement.mover.color;
        let king = if movement.mover.piece_type == Type::King {
            Some(movement.to)
        } else {
            let known = self.find_king_position(color);
            match known {
                Some(k) => if k == movement.to {
                    None
                } else {
                    known
                },
                None => None,
            }
        };
        match king {
            Some(k) => square_attacked(&scratch, Some(movement), k, color.other()),
            None => false,
        }
    }

    /// Square on which the king of a side is tracked.
    pub fn find_king_position(&self, color: Color) -> (r: Option<Position>)
        ensures
            r == self@.placement().king(color),
    {
        match color {
            Color::White => self.white_king_position,
            Color::Black => self.black_king_position,
        }
    }

    /// Whether the tracked king of a side stands on a square that the
    /// other side attacks.
    pub fn is_king_in_check(&self, king_color: Color) -> (r: bool)
        ensures
            r == self@.placement().in_check(king_color),
    {
        match self.find_king_position(king_color) {
            Some(k) => self.is_position_been_attacked(k, king_color),
            None => false,
        }
    }

    /// Whether `piece`, arriving on `target`, is a pawn on its last
    /// rank.
    fn check_promotion(&self, piece: ChessPiece, target: Position) -> (r: bool)
        ensures
            r == (piece.piece_type == Type::Pawn && target.y == piece.color.promotion_rank()),
    {
        match piece.piece_type {
            Type::Pawn => match piece.color {
                Color::White => target.y == 7,
                Color::Black => target.y == 0,
            },
            _ => false,
        }
    }

    /// Whether the piece on `from` may go to one of its eight near
    /// squares: a leap away for a knight, next to it for another piece.
    fn has_near_move(&self, from: Position, piece: ChessPiece) -> (r: bool)
        requires
            from.valid(),
            at(self@.squares, from) == Some(piece),
        ensures
            r == has_near_legal(self@.placement(), piece, from),
            r ==> exists|j: int|
                0 <= j < 64 && #[trigger] legal(
                    self@.placement(),
                    piece.color,
                    from,
                    square(j),
                ),
    {
        let leaps = match piece.piece_type {
            Type::Knight => true,
            _ => false,
        };
        let mut n: usize = 0;
        while n < 8
            invariant
                n <= 8,
                from.valid(),
                at(self@.squares, from) == Some(piece),
                leaps == (piece.piece_type == Type::Knight),
                forall|k: int|
                    0 <= k < n ==> !#[trigger] near_legal(self@.placement(), piece, from, k),
            decreases 8 - n,
        {
            let (dx, dy) = near_offset(leaps, n);
            let to = Position { x: from.x + dx, y: from.y + dy };
            assert(to == near_square(from, piece.piece_type, n as int));
            if to.is_valid() && piece.can_move(from, to, self).is_ok() {
                assert(near_legal(self@.placement(), piece, from, n as int));
                assert(to == square(to.index()));
                assert(legal(self@.placement(), piece.color, from, square(to.index())));
                return true;
            }
            n = n + 1;
        }
        false
    }

    /// Whether a side has at least one move.
    pub fn has_any_move(&self, player_color: Color) -> (r: bool)
        ensures
            r == has_legal_move(self@.placement(), player_color),
    {
        let ghost pl = self@.placement();
        let mut i: usize = 0;
        while i < 64
            invariant
                i <= 64,
                pl == self@.placement(),
            decreases 64 - i,
        {
            let from = Position::from_index(i);
            match self.get_piece_at(from) {
                Some(piece) => {
                    if piece.color == player_color && self.has_near_move(from, piece) {
                        let ghost j = choose|j: int|
                            0 <= j < 64 && #[trigger] legal(pl, player_color, from, square(j));
                        assert(legal(pl, player_color, square(i as int), square(j)));
                        return true;
                    }
                },
                None => {},
            }
            i = i + 1;
        }
        let mut i: usize = 0;
        while i < 64
            invariant
                i <= 64,
                pl == self@.placement(),
                forall|a: int, b: int|
                    0 <= a < i && 0 <= b < 64 ==> !#[trigger] legal(
                        pl,
                        player_color,
                        square(a),
                        square(b),
                    ),
            decreases 64 - i,
        {
            let from = Position::from_index(i);
            match self.get_piece_at(from) {
                Some(piece) => {
                    if piece.color == player_color {
                        let mut j: usize = 0;
                        while j < 64
                            invariant
                                j <= 64,
                                i < 64,
                                from == square(i as int),
                                pl == self@.placement(),
                                at(pl.squares, from) == Some(piece),
                                piece.color == player_color,
                                forall|b: int|
                                    0 <= b < j ==> !#[trigger] legal(
                                        pl,
                                        player_color,
                                        square(i as int),
                                        square(b),
                                    ),
                            decreases 64 - j,
                        {
                            let to = Position::from_index(j);
                            if piece.can_move(from, to, self).is_ok() {
                                assert(legal(pl, player_color, square(i as int), square(j as int)));
                                return true;
                            }
                            j = j + 1;
                        }
                    }
                },
                None => {},
            }
            i = i + 1;
        }
        false
    }

    /// Whether a side is in check and has no move.
    pub fn is_checkmate(&self, player_color: Color) -> (r: bool)
        ensures
            r == (self@.placement().in_check(player_color) && !has_legal_move(
                self@.placement(),
                player_color,
            )),
    {
        self.is_king_in_check(player_color) && !self.has_any_move(player_color)
    }

    /// The moves open to the side to move, as pairs of origin and
    /// destination, ordered by the index of the origin and then of the
    /// destination. There are none unless the game is in progress.
    pub fn legal_moves(&self) -> (r: Vec<(Position, Position)>)
        ensures
            r@ == legal_moves_spec(self@),
    {
        let mut moves: Vec<(Position, Position)> = Vec::new();
        match self.state {
            GameState::InProgress => {},
            _ => {
                return moves;
            },
        }
        let ghost pl = self@.placement();
        let ghost turn = self.turn;
        let ghost pred = |m: (Position, Position)| legal(pl, turn, m.0, m.1);
        assert(all_pairs().take(0).filter(pred) =~= Seq::<(Position, Position)>::empty()) by {
            reveal(Seq::filter);
        }
        let mut i: usize = 0;
        while i < 64
            invariant
                i <= 64,
                pl == self@.placement(),
                turn == self.turn,
                pred == |m: (Position, Position)| legal(pl, turn, m.0, m.1),
                moves@ == all_pairs().take(64 * i).filter(pred),
            decreases 64 - i,
        {
            let from = Position::from_index(i);
            let own = match self.get_piece_at(from) {
                Some(piece) => if piece.color == self.turn {
                    Some(piece)
                } else {
                    None
                },
                None => None,
            };
            match own {
                Some(piece) => {
                    let mut j: usize = 0;
                    while j < 64
                        invariant
                            j <= 64,
                            i < 64,
                            from == square(i as int),
                            pl == self@.placement(),
                            turn == self.turn,
                            at(pl.squares, from) == Some(piece),
                            piece.color == turn,
                            pred == |m: (Position, Position)| legal(pl, turn, m.0, m.1),
                            moves@ == all_pairs().take(64 * i + j).filter(pred),
                        decreases 64 - j,
                    {
                        let to = Position::from_index(j);
                        proof {
                            lemma_filter_step(all_pairs(), pred, 64 * i + j);
                            assert(all_pairs()[64 * i + j] == (from, to));
                        }
                        if piece.can_move(from, to, self).is_ok() {
                            moves.push((from, to));
                        }
                        j = j + 1;
                    }
                },
                None => {
                    proof {
                        assert forall|k: int| 64 * i <= k < 64 * i + 64 implies !pred(
                            #[trigger] all_pairs()[k],
                        ) by {
                            assert(all_pairs()[k].0 == from);
                        }
                        lemma_filter_skip(all_pairs(), pred, 64 * i, 64 * i + 64);
                    }
                },
            }
            i = i + 1;
        }
        assert(all_pairs().take(4096) =~= all_pairs());
        moves
    }

    /// Carries a move out on the squares, follows the kings, and
    /// records the move as the last turn. Taking a king wins the game.
    /// Gives back the piece that moved.
    fn make_movement(&mut self, movement: OkMovement) -> (piece: ChessPiece)
        ensures
            piece == movement.mover,
            final(self)@.placement() == placement_after(old(self)@.placement(), movement),
            final(self)@.turn == old(self)@.turn,
            final(self)@.check == old(self)@.check,
            final(self)@.state == if movement.takes_king() {
                GameState::Winner(movement.mover.color)
            } else {
                old(self)@.state
            },
            final(self)@.history == old(self)@.history.push(
                Turn {
                    color: movement.mover.color,
                    number: next_number(old(self)@.history.len()),
                    movement: TurnMovement::Move(movement),
                    state: final(self)@.state,
                    check: old(self)@.check,
                    white_king_position: final(self)@.white_king,
                    black_king_position: final(self)@.black_king,
                },
            ),
    {
        let piece = movement.mover;
        let white = self.king_after(movement, Color::White);
        let black = self.king_after(movement, Color::Black);
        apply_movement(&mut self.pieces, movement);
        self.white_king_position = white;
        self.black_king_position = black;
        match movement.movement_type {
            MovementType::Capture(captured_piece) => {
                if captured_piece.piece_type == Type::King {
                    self.state = GameState::Winner(piece.color);
                }
            },
            _ => {},
        }
        let n = self.turns.len();
        let number: usize = if n < usize::MAX {
            n + 1
        } else {
            n
        };
        self.turns.push(
            Turn {
                color: piece.color,
                number,
                movement: TurnMovement::Move(movement),
                state: self.state,
                check: self.check,
                white_king_position: white,
                black_king_position: black,
            },
        );
        piece
    }

    /// Square on which the king of a side is to be looked for after a
    /// move.
    fn king_after(&self, movement: OkMovement, color: Color) -> (r: Option<Position>)
        ensures
            r == king_after(self@.placement(), movement, color),
    {
        if movement.mover.piece_type == Type::King && movement.mover.color == color {
            Some(movement.to)
        } else {
            let known = self.find_king_position(color);
            match known {
                Some(k) => if k == movement.to {
                    None
                } else {
                    known
                },
                None => None,
            }
        }
    }

    /// Settles check and state for the side that follows `mover`, and
    /// writes both into the last turn of the history.
    fn settle(&mut self, mover: Color, promotion: Option<Position>)
        requires
            old(self)@.history.len() > 0,
            old(self)@.turn == mover,
        ensures
            final(self)@.check == settled_check(old(self)@.placement(), mover),
            final(self)@.state == settled_state(old(self)@.placement(), mover, promotion),
            final(self)@.turn == if final(self)@.state is WaitingPromotion {
                mover
            } else {
                mover.opponent()
            },
            final(self)@.squares == old(self)@.squares,
            final(self)@.white_king == old(self)@.white_king,
            final(self)@.black_king == old(self)@.black_king,
            final(self)@.history == old(self)@.history.drop_last().push(
                Turn {
                    state: final(self)@.state,
                    check: final(self)@.check,
                    ..old(self)@.history.last()
                },
            ),
    {
        let enemy_color = mover.other();
        let in_check = self.is_king_in_check(enemy_color);
        let stuck = !self.has_any_move(enemy_color);
        self.check = if in_check {
            Some(enemy_color)
        } else {
            None
        };
        self.state = if stuck && in_check {
            GameState::Winner(mover)
        } else {
            match promotion {
                Some(p) => GameState::WaitingPromotion(mover, p),
                None => if stuck {
                    GameState::Draw
                } else {
                    GameState::InProgress
                },
            }
        };
        match self.state {
            GameState::WaitingPromotion(_, _) => {},
            _ => {
                self.change_turn();
            },
        }
        let last = self.turns.pop();
        match last {
            Some(turn) => {
                self.turns.push(
                    Turn {
                        color: turn.color,
                        number: turn.number,
                        movement: turn.movement,
                        state: self.state,
                        check: self.check,
                        white_king_position: turn.white_king_position,
                        black_king_position: turn.black_king_position,
                    },
                );
            },
            None => {},
        }
    }

    /// Makes the move of the piece on `from` to `to` for the side to
    /// move, where the rules allow it, and says how the move counts. A
    /// refused move leaves the board as it was.
    pub fn move_piece(&mut self, from: Position, to: Position) -> (r: Result<
        OkMovement,
        MovementError,
    >)
        ensures
            r == move_outcome(old(self)@, from, to),
            r is Err ==> final(self)@ == old(self)@,
            r matches Ok(m) ==> final(self)@ == after_move(old(self)@, m),
            r is Ok ==> waiting_pawn(final(self)@) && in_sync(final(self)@),
            r is Ok && old(self).kings_tracked() ==> final(self).kings_tracked(),
    {
        proof {
            if move_outcome(old(self)@, from, to) is Ok {
                lemma_move_leaves_order(old(self)@, from, to);
                if old(self).kings_tracked() {
                    lemma_kings_followed(old(self)@, from, to);
                }
            }
        }
        match self.state {
            GameState::WaitingPromotion(_, _) => {
                return Err(MovementError::PromotionNotSpecified);
            },
            GameState::Winner(_) => {
                return Err(MovementError::GameIsOver);
            },
            GameState::Draw => {
                return Err(MovementError::GameIsOver);
            },
            GameState::InProgress => {},
        }
        if from == to {
            return Err(MovementError::SamePosition);
        }
        let piece = match self.get_piece_at(from) {
            Some(piece) => piece,
            None => {
                return Err(MovementError::InvalidPiece);
            },
        };
        if piece.color != self.turn {
            return Err(MovementError::InvalidPiece);
        }
        let movement = match piece.can_move(from, to, self) {
            Ok(movement) => movement,
            Err(e) => {
                return Err(e);
            },
        };
        self.make_movement(movement);
        match self.state {
            GameState::Winner(_) => {
                return Ok(movement);
            },
            _ => {},
        }
        let promotion = if self.check_promotion(piece, to) {
            Some(to)
        } else {
            None
        };
        self.settle(piece.color, promotion);
        proof {
            let v = old(self)@;
            assert(final(self)@.history =~= after_move(v, movement).history) by {
                assert(self@.history =~= after_move(v, movement).history);
            }
        }
        Ok(movement)
    }

    /// Turns the pawn that waits on its last rank into a piece of the
    /// kind and side of `piece`, which counts as moved. A refused
    /// promotion leaves the board as it was.
    pub fn promote(&mut self, piece: ChessPiece) -> (r: Result<(Position, Type), PromotionError>)
        ensures
            r == promote_outcome(old(self)@, piece),
            r is Err ==> final(self)@ == old(self)@,
            r matches Ok(done) ==> final(self)@ == after_promotion(
                old(self)@,
                piece.color,
                done.0,
                done.1,
            ),
            r is Ok && old(self).kings_tracked() && waiting_pawn(old(self)@) ==> in_sync(final(self)@)
                && final(self).kings_tracked(),
    {
        proof {
            if promote_outcome(old(self)@, piece) is Ok && old(self).kings_tracked()
                && waiting_pawn(old(self)@) {
                lemma_promotion_leaves_order(old(self)@, piece);
            }
        }
        let piece_type = piece.get_type();
        if piece_type == Type::Pawn || piece_type == Type::King {
            return Err(PromotionError::InvalidPromotion(piece_type));
        }
        let position = match self.state {
            GameState::WaitingPromotion(color, position) => {
                if color != self.turn || piece.color != color {
                    return Err(PromotionError::NoPromotion);
                }
                position
            },
            GameState::Winner(_) => {
                return Err(PromotionError::NoPromotion);
            },
            GameState::Draw => {
                return Err(PromotionError::NoPromotion);
            },
            GameState::InProgress => {
                return Err(PromotionError::NoPromotion);
            },
        };
        let color = piece.color;
        set_at(
            &mut self.pieces,
            position,
            Some(ChessPiece { piece_type, color, moved: true }),
        );
        let n = self.turns.len();
        let number: usize = if n < usize::MAX {
            n + 1
        } else {
            n
        };
        self.turns.push(
            Turn {
                color,
                number,
                movement: TurnMovement::Promotion(position, piece_type),
                state: self.state,
                check: self.check,
                white_king_position: self.white_king_position,
                black_king_position: self.black_king_position,
            },
        );
        self.settle(color, None);
        proof {
            let v = old(self)@;
            assert(self@.history =~= after_promotion(v, color, position, piece_type).history);
        }
        Ok((position, piece_type))
    }

    /// Takes the last turn back, and says whether there was one. With
    /// no turn left the board is set up anew.
    pub fn undo(&mut self) -> (r: bool)
        ensures
            r == (old(self)@.history.len() > 0),
            final(self)@ == undone(old(self)@),
            r ==> in_sync(final(self)@),
    {
        let last = match self.turns.pop() {
            Some(turn) => turn,
            None => {
                return false;
            },
        };
        let n = self.turns.len();
        if n == 0 {
            self.reset();
            return true;
        }
        let top = self.turns[n - 1];
        match last.movement {
            TurnMovement::Move(m) => {
                revert_movement(&mut self.pieces, m);
            },
            TurnMovement::Promotion(p, _) => {
                set_at(
                    &mut self.pieces,
                    p,
                    Some(ChessPiece { piece_type: Type::Pawn, color: last.color, moved: true }),
                );
            },
        }
        self.turn = last.color;
        self.state = top.state;
        self.check = top.check;
        self.white_king_position = top.white_king_position;
        self.black_king_position = top.black_king_position;
        true
    }

    fn change_turn(&mut self)
        ensures
            final(self)@ == (BoardView { turn: old(self)@.turn.opponent(), ..old(self)@ }),
    {
        self.turn = self.next_turn();
    }

    fn next_turn(&self) -> (r: Color)
        ensures
            r == self@.turn.opponent(),
    {
        self.turn.other()
    }
}

/// File and rank steps to the `n`-th of the eight squares a knight's
/// leap away, or, for other pieces, of the eight squares next to a
/// square: straight ahead and back first, then sideways, then the
/// diagonals.
pub open spec fn near_step(leaps: bool, n: int) -> (int, int) {
    if leaps {
        if n == 0 {
            (1, 2)
        } else if n == 1 {
            (2, 1)
        } else if n == 2 {
            (2, -1)
        } else if n == 3 {
            (1, -2)
        } else if n == 4 {
            (-1, -2)
        } else if n == 5 {
            (-2, -1)
        } else if n == 6 {
            (-2, 1)
        } else {
            (-1, 2)
        }
    } else {
        if n == 0 {
            (0, 1)
        } else if n == 1 {
            (0, -1)
        } else if n == 2 {
            (1, 0)
        } else if n == 3 {
            (-1, 0)
        } else if n == 4 {
            (1, 1)
        } else if n == 5 {
            (-1, 1)
        } else if n == 6 {
            (1, -1)
        } else {
            (-1, -1)
        }
    }
}

/// The `n`-th of the eight squares that are tried first for a piece of
/// kind `t` on `from`; it may lie off the board.
pub open spec fn near_square(from: Position, t: Type, n: int) -> Position {
    let step = near_step(t == Type::Knight, n);
    Position { x: (from.x + step.0) as i32, y: (from.y + step.1) as i32 }
}

/// The `n`-th near square of `piece` on `from` lies on the board, and
/// the piece may go there.
pub open spec fn near_legal(pl: Placement, piece: ChessPiece, from: Position, n: int) -> bool {
    near_square(from, piece.piece_type, n).valid() && legal(
        pl,
        piece.color,
        from,
        near_square(from, piece.piece_type, n),
    )
}

/// `piece` on `from` may go to one of its eight near squares.
pub open spec fn has_near_legal(pl: Placement, piece: ChessPiece, from: Position) -> bool {
    exists|n: int| 0 <= n < 8 && #[trigger] near_legal(pl, piece, from, n)
}

/// File and rank steps to the `n`-th near square.
fn near_offset(leaps: bool, n: usize) -> (r: (i32, i32))
    requires
        n < 8,
    ensures
        r.0 == near_step(leaps, n as int).0,
        r.1 == near_step(leaps, n as int).1,
        -2 <= r.0 <= 2,
        -2 <= r.1 <= 2,
{
    if leaps {
        if n == 0 {
            (1, 2)
        } else if n == 1 {
            (2, 1)
        } else if n == 2 {
            (2, -1)
        } else if n == 3 {
            (1, -2)
        } else if n == 4 {
            (-1, -2)
        } else if n == 5 {
            (-2, -1)
        } else if n == 6 {
            (-2, 1)
        } else {
            (-1, 2)
        }
    } else {
        if n == 0 {
            (0, 1)
        } else if n == 1 {
            (0, -1)
        } else if n == 2 {
            (1, 0)
        } else if n == 3 {
            (-1, 0)
        } else if n == 4 {
            (1, 1)
        } else if n == 5 {
            (-1, 1)
        } else if n == 6 {
            (1, -1)
        } else {
            (-1, -1)
        }
    }
}

} // verus!
