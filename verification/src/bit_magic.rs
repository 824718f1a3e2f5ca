//! Squares as bits of a 64-bit number: the square of index `k`, counted
//! along the ranks from a1, is bit `k`. Geometry of two such squares, and
//! the squares between them.
use crate::board::state::Color;
use vstd::prelude::*;

verus! {

/// The bitboard that holds only the square of index `k`.
pub open spec fn bit(k: u64) -> u64 {
    1u64 << k
}

/// Whether a bitboard holds the square of index `k`.
pub open spec fn has_bit(b: u64, k: u64) -> bool {
    (b >> k) & 1 == 1
}

/// Whether a bitboard holds exactly one square.
pub open spec fn is_square(b: u64) -> bool {
    exists|k: u64| k < 64 && b == bit(k)
}

/// Index of the square that a one-square bitboard holds.
pub open spec fn square_index(b: u64) -> u64 {
    choose|k: u64| k < 64 && b == bit(k)
}

/// Number of squares among the first `n` that a bitboard holds.
pub open spec fn bit_count(b: u64, n: nat) -> nat
    decreases n,
{
    if n == 0 {
        0
    } else {
        bit_count(b, (n - 1) as nat) + if has_bit(b, (n - 1) as u64) {
            1nat
        } else {
            0nat
        }
    }
}

/// File of the square of index `k`.
pub open spec fn file(k: u64) -> int {
    k as int % 8
}

/// Rank of the square of index `k`.
pub open spec fn rank(k: u64) -> int {
    k as int / 8
}

/// How far two numbers are apart.
pub open spec fn distance(a: int, b: int) -> int {
    if a < b {
        b - a
    } else {
        a - b
    }
}

/// Ranks 2 and 7 as bitboards: where the pawns of each side start.
pub open spec fn pawn_rank_mask(color: Color) -> u64 {
    match color {
        Color::White => 0xFF00u64,
        Color::Black => 0x00FF_0000_0000_0000u64,
    }
}

/// A one-square bitboard holds the square of its index and no other.
pub proof fn lemma_square_index(b: u64)
    requires
        is_square(b),
    ensures
        square_index(b) < 64,
        b == bit(square_index(b)),
        forall|k: u64| k < 64 ==> (has_bit(b, k) <==> k == square_index(b)),
{
    let i = square_index(b);
    assert forall|k: u64| k < 64 implies (has_bit(b, k) <==> k == i) by {
        lemma_bit_holds(i, k);
    }
}

/// The index of the bitboard of square `k` is `k`.
pub proof fn lemma_index_of_bit(k: u64)
    requires
        k < 64,
    ensures
        is_square(bit(k)),
        square_index(bit(k)) == k,
{
    let i = square_index(bit(k));
    lemma_bit_holds(k, k);
    lemma_bit_holds(i, k);
}

proof fn lemma_bit_holds(i: u64, k: u64)
    requires
        i < 64,
        k < 64,
    ensures
        has_bit(bit(i), k) <==> k == i,
{
    assert(((1u64 << i) >> k) & 1 == 1 <==> k == i) by (bit_vector)
        requires
            i < 64,
            k < 64,
    ;
}

proof fn lemma_bit_order(i: u64, j: u64)
    requires
        i < 64,
        j < 64,
    ensures
        bit(i) < bit(j) <==> i < j,
        bit(i) == bit(j) <==> i == j,
        bit(i) != 0,
{
    assert(((1u64 << i) < (1u64 << j) <==> i < j) && ((1u64 << i) == (1u64 << j) <==> i == j) && (1u64
        << i) != 0) by (bit_vector)
        requires
            i < 64,
            j < 64,
    ;
}

proof fn lemma_bit_shift(i: u64, s: u64)
    requires
        i < 64,
        s < 64,
        i + s < 64,
    ensures
        bit(i) << s == bit((i + s) as u64),
        bit((i + s) as u64) >> s == bit(i),
{
    assert((1u64 << i) << s == 1u64 << ((i + s) as u64) && (1u64 << ((i + s) as u64)) >> s == 1u64
        << i) by (bit_vector)
        requires
            i < 64,
            s < 64,
            i + s < 64,
    ;
}

/// Adding square `i` to a bitboard adds that square and no other; the
/// empty bitboard holds no square.
pub proof fn lemma_bit_join(b: u64, i: u64, k: u64)
    requires
        i < 64,
        k < 64,
    ensures
        has_bit(b | bit(i), k) <==> has_bit(b, k) || k == i,
        !has_bit(0, k),
{
    assert((((b | (1u64 << i)) >> k) & 1 == 1 <==> ((b >> k) & 1 == 1 || k == i)) && !((0u64 >> k)
        & 1 == 1)) by (bit_vector)
        requires
            i < 64,
            k < 64,
    ;
}

/// The squares that a walk from square `lo` up to square `hi` passes,
/// `step` indices at a time, both ends left out.
fn walk_bb(lo: u64, hi: u64, step: u32, Ghost(i): Ghost<u64>, Ghost(j): Ghost<u64>) -> (r: u64)
    requires
        i <= j < 64,
        lo == bit(i),
        hi == bit(j),
        step == 1 || step == 7 || step == 8 || step == 9,
        (j - i) % (step as int) == 0,
    ensures
        forall|k: u64|
            k < 64 ==> (has_bit(r, k) <==> i < k < j && (k - i) % (step as int) == 0),
{
    let mut cur: u64 = lo;
    let mut result: u64 = 0;
    let ghost mut c: u64 = i;
    proof {
        assert forall|k: u64| k < 64 implies !has_bit(0, k) by {
            lemma_bit_join(0, 0, k);
        }
    }
    while cur != hi
        invariant
            i <= c <= j < 64,
            cur == bit(c),
            hi == bit(j),
            step == 1 || step == 7 || step == 8 || step == 9,
            (j - i) % (step as int) == 0,
            (c - i) % (step as int) == 0,
            forall|k: u64|
                k < 64 ==> (has_bit(result, k) <==> i < k <= c && k != j && (k - i) % (step as int)
                    == 0),
        decreases j - c,
    {
        proof {
            lemma_bit_order(c, j);
            assert(c + step <= j) by {
                if step == 1 {
                } else if step == 7 {
                } else if step == 8 {
                } else {
                }
            }
            lemma_bit_shift(c, step as u64);
            lemma_bit_order((c + step) as u64, j);
        }
        cur = cur << step;
        let ghost prev = result;
        if cur != hi {
            result = result | cur;
        }
        proof {
            let n = (c + step) as u64;
            assert forall|k: u64| k < 64 implies (has_bit(result, k) <==> i < k <= n && k != j && (k
                - i) % (step as int) == 0) by {
                lemma_bit_join(prev, n, k);
                if step == 1 {
                } else if step == 7 {
                } else if step == 8 {
                } else {
                }
            }
            c = n;
        }
    }
    proof {
        lemma_bit_order(c, j);
    }
    result
}

/// The squares strictly between two squares of one file.
pub fn vertical_move_bb(from: u64, to: u64) -> (r: u64)
    requires
        is_square(from),
        is_square(to),
        file(square_index(from)) == file(square_index(to)),
    ensures
        forall|k: u64|
            k < 64 ==> (has_bit(r, k) <==> file(k) == file(square_index(from)) && (rank(
                square_index(from),
            ) < rank(k) < rank(square_index(to)) || rank(square_index(to)) < rank(k) < rank(
                square_index(from),
            ))),
{
    proof {
        lemma_square_index(from);
        lemma_square_index(to);
        lemma_bit_order(square_index(from), square_index(to));
    }
    if from < to {
        walk_bb(from, to, 8, Ghost(square_index(from)), Ghost(square_index(to)))
    } else {
        walk_bb(to, from, 8, Ghost(square_index(to)), Ghost(square_index(from)))
    }
}

/// The squares whose index lies strictly between those of two squares:
/// for two squares of one rank, the squares between them.
pub fn horizontal_move_bb(from: u64, to: u64) -> (r: u64)
    requires
        is_square(from),
        is_square(to),
    ensures
        forall|k: u64|
            k < 64 ==> (has_bit(r, k) <==> square_index(from) < k < square_index(to)
                || square_index(to) < k < square_index(from)),
{
    proof {
        lemma_square_index(from);
        lemma_square_index(to);
        lemma_bit_order(square_index(from), square_index(to));
    }
    if from < to {
        walk_bb(from, to, 1, Ghost(square_index(from)), Ghost(square_index(to)))
    } else {
        walk_bb(to, from, 1, Ghost(square_index(to)), Ghost(square_index(from)))
    }
}

/// The squares that a walk between two squares passes, nine indices at
/// a time where their indices differ by a multiple of nine, else seven
/// at a time: for two squares of one diagonal, the squares between
/// them.
pub fn diagonal_move_bb(from: u64, to: u64) -> (r: u64)
    requires
        is_square(from),
        is_square(to),
        distance(square_index(from) as int, square_index(to) as int) % 9 == 0 || distance(
            square_index(from) as int,
            square_index(to) as int,
        ) % 7 == 0,
    ensures
        forall|k: u64|
            k < 64 ==> (has_bit(r, k) <==> {
                let i = square_index(from) as int;
                let j = square_index(to) as int;
                let step: int = if distance(i, j) % 9 == 0 {
                    9
                } else {
                    7
                };
                (i < k < j || j < k < i) && distance(i, k as int) % step == 0
            }),
{
    proof {
        lemma_square_index(from);
        lemma_square_index(to);
        lemma_bit_order(square_index(from), square_index(to));
    }
    let d = bit_distance(from, to);
    let step: u32 = if d % 9 == 0 {
        9
    } else {
        7
    };
    if from < to {
        walk_bb(from, to, step, Ghost(square_index(from)), Ghost(square_index(to)))
    } else {
        let r = walk_bb(to, from, step, Ghost(square_index(to)), Ghost(square_index(from)));
        proof {
            let i = square_index(from) as int;
            let j = square_index(to) as int;
            assert forall|k: u64| k < 64 implies (has_bit(r, k) <==> (i < k < j || j < k < i)
                && distance(i, k as int) % (step as int) == 0) by {
                if step == 9 {
                } else {
                }
            }
        }
        r
    }
}

/// Whether the indices of two squares differ by a multiple of eight:
/// for two squares, whether they differ and lie on one file.
pub fn is_moving_vertically(from: u64, to: u64) -> (r: bool)
    ensures
        r == (from != to && bit_count(
            if from > to {
                (from - to) as u64
            } else {
                (to - from) as u64
            },
            64,
        ) % 8 == 0),
        is_square(from) && is_square(to) ==> r == (from != to && file(square_index(from)) == file(
            square_index(to),
        )),
{
    if from == to {
        return false;
    }
    let bit_distance = bit_distance(from, to);
    bit_distance % 8 == 0
}

/// Whether the lowest squares of two different bitboards lie on one
/// rank.
pub fn is_moving_horizontally(from: u64, to: u64) -> (r: bool)
    ensures
        r == (from != to && row_of(from) == row_of(to)),
        is_square(from) && is_square(to) ==> r == (from != to && rank(square_index(from)) == rank(
            square_index(to),
        )),
{
    if from == to {
        return false;
    }
    let from_row = bit_row(from);
    let to_row = bit_row(to);
    from_row == to_row
}

/// Whether two squares differ and lie on one diagonal. Bitboards that
/// are not squares do not.
pub fn is_moving_diagonally(from: u64, to: u64) -> (r: bool)
    ensures
        r == (is_square(from) && is_square(to) && from != to && distance(
            file(square_index(from)),
            file(square_index(to)),
        ) == distance(rank(square_index(from)), rank(square_index(to)))),
{
    let (a, b) = match (index_of(from), index_of(to)) {
        (Some(a), Some(b)) => (a, b),
        _ => {
            return false;
        },
    };
    proof {
        lemma_bit_order(a as u64, b as u64);
    }
    if a == b {
        return false;
    }
    let dx: u32 = if a % 8 < b % 8 {
        b % 8 - a % 8
    } else {
        a % 8 - b % 8
    };
    let dy: u32 = if a / 8 < b / 8 {
        b / 8 - a / 8
    } else {
        a / 8 - b / 8
    };
    dx == dy
}

/// Whether two squares are a knight's leap apart. Bitboards that are
/// not squares are not.
pub fn is_l_shaped(from: u64, to: u64) -> (r: bool)
    ensures
        r == (is_square(from) && is_square(to) && {
            let dx = distance(file(square_index(from)), file(square_index(to)));
            let dy = distance(rank(square_index(from)), rank(square_index(to)));
            (dx == 1 && dy == 2) || (dx == 2 && dy == 1)
        }),
{
    let (a, b) = match (index_of(from), index_of(to)) {
        (Some(a), Some(b)) => (a, b),
        _ => {
            return false;
        },
    };
    let dx: u32 = if a % 8 < b % 8 {
        b % 8 - a % 8
    } else {
        a % 8 - b % 8
    };
    let dy: u32 = if a / 8 < b / 8 {
        b / 8 - a / 8
    } else {
        a / 8 - b / 8
    };
    (dx == 1 && dy == 2) || (dx == 2 && dy == 1)
}

/// Whether a bitboard, joined to the starting rank of a side's pawns
/// with exclusive or, falls below it: for a square, whether it lies on
/// that rank.
pub fn is_pawn_at_initial_position(pawn: u64, color: Color) -> (r: bool)
    ensures
        r == ((pawn ^ pawn_rank_mask(color)) < pawn_rank_mask(color)),
        is_square(pawn) ==> r == (rank(square_index(pawn)) == color.pawn_rank()),
{
    let white_mask: u64 = 0xFF00;
    let black_mask: u64 = 0x00FF_0000_0000_0000;
    proof {
        if is_square(pawn) {
            lemma_square_index(pawn);
            let i = square_index(pawn);
            assert((((1u64 << i) ^ 0xFF00u64) < 0xFF00u64 <==> 8 <= i < 16) && (((1u64 << i)
                ^ 0x00FF_0000_0000_0000u64) < 0x00FF_0000_0000_0000u64 <==> 48 <= i < 56))
                by (bit_vector)
                requires
                    i < 64,
            ;
        }
    }
    match color {
        Color::White => pawn ^ white_mask < white_mask,
        Color::Black => pawn ^ black_mask < black_mask,
    }
}

/// The eight squares of rank `j`, counted from 0, as the low bits of
/// a number.
pub open spec fn byte_at(number: u64, j: u8) -> u64 {
    (number >> ((j * 8) as u64)) & 0xFF
}

/// The first of the eight ranks, from rank 1 up, on which a bitboard
/// holds a square; 0 for the empty bitboard.
pub open spec fn row_of(number: u64) -> u8 {
    if byte_at(number, 0) != 0 {
        0
    } else if byte_at(number, 1) != 0 {
        1
    } else if byte_at(number, 2) != 0 {
        2
    } else if byte_at(number, 3) != 0 {
        3
    } else if byte_at(number, 4) != 0 {
        4
    } else if byte_at(number, 5) != 0 {
        5
    } else if byte_at(number, 6) != 0 {
        6
    } else if byte_at(number, 7) != 0 {
        7
    } else {
        0
    }
}

/// The first rank, counted from 0, on which a bitboard holds a square;
/// 0 for the empty bitboard. For a square, its rank.
pub fn bit_row(number: u64) -> (r: u8)
    ensures
        r == row_of(number),
        is_square(number) ==> r == rank(square_index(number)),
{
    proof {
        if is_square(number) {
            lemma_square_index(number);
            lemma_row_of_bit(square_index(number));
        }
    }
    let mut i: u8 = 0;
    while i < 8
        invariant
            i <= 8,
            is_square(number) ==> row_of(number) == rank(square_index(number)),
            forall|j: u8| j < i ==> #[trigger] byte_at(number, j) == 0,
        decreases 8 - i,
    {
        assert((number >> ((i * 8) as u64)) & 0xFF < 256) by (bit_vector);
        let result = ((number >> (i * 8)) & 0xFF) as u8;
        if result != 0 {
            assert(byte_at(number, i) != 0);
            return i;
        }
        i = i + 1;
    }
    0
}

proof fn lemma_row_of_bit(i: u64)
    requires
        i < 64,
    ensures
        row_of(bit(i)) == rank(i),
{
    let b = 1u64 << i;
    assert(((b >> 0) & 0xFF != 0 <==> i < 8) && ((b >> 8) & 0xFF != 0 <==> 8 <= i < 16) && ((b
        >> 16) & 0xFF != 0 <==> 16 <= i < 24) && ((b >> 24) & 0xFF != 0 <==> 24 <= i < 32) && ((b
        >> 32) & 0xFF != 0 <==> 32 <= i < 40) && ((b >> 40) & 0xFF != 0 <==> 40 <= i < 48) && ((b
        >> 48) & 0xFF != 0 <==> 48 <= i < 56) && ((b >> 56) & 0xFF != 0 <==> 56 <= i < 64))
        by (bit_vector)
        requires
            i < 64,
            b == 1u64 << i,
    ;
}

/// Number of squares that the difference of two bitboards holds: for
/// two squares, the distance between their indices.
pub fn bit_distance(from: u64, to: u64) -> (r: u32)
    ensures
        r == bit_count(
            if from > to {
                (from - to) as u64
            } else {
                (to - from) as u64
            },
            64,
        ),
        r <= 64,
        is_square(from) && is_square(to) ==> r == distance(
            square_index(from) as int,
            square_index(to) as int,
        ),
{
    let greater;
    let leaser;
    if from > to {
        greater = from;
        leaser = to;
    } else {
        greater = to;
        leaser = from;
    }
    let difference: u64 = greater - leaser;
    proof {
        if is_square(from) && is_square(to) {
            lemma_square_index(from);
            lemma_square_index(to);
            let i = square_index(leaser);
            let j = square_index(greater);
            lemma_bit_order(i, j);
            lemma_bit_order(j, i);
            assert forall|k: u64| k < 64 implies (has_bit(difference, k) <==> i <= k < j) by {
                assert((((1u64 << j) - (1u64 << i)) as u64 >> k) & 1 == 1 <==> i <= k < j)
                    by (bit_vector)
                    requires
                        i <= j < 64,
                        k < 64,
                ;
            }
            lemma_count_interval(difference, i, j, 64);
        }
    }
    count_ones(difference)
}

/// Counting the squares of a bitboard that holds exactly those from
/// index `i` up to, not including, index `j`.
proof fn lemma_count_interval(b: u64, i: u64, j: u64, n: nat)
    requires
        i <= j <= 64,
        n <= 64,
        forall|k: u64| k < 64 ==> (has_bit(b, k) <==> i <= k < j),
    ensures
        bit_count(b, n) == if n <= i {
            0
        } else if n <= j {
            n - i
        } else {
            j - i
        },
    decreases n,
{
    if n > 0 {
        lemma_count_interval(b, i, j, (n - 1) as nat);
    }
}

/// Counts the squares that a bitboard holds.
fn count_ones(b: u64) -> (r: u32)
    ensures
        r == bit_count(b, 64),
        r <= 64,
{
    let mut n: u32 = 0;
    let mut i: u32 = 0;
    while i < 64
        invariant
            i <= 64,
            n <= i,
            n == bit_count(b, i as nat),
        decreases 64 - i,
    {
        if (b >> i) & 1 == 1 {
            n = n + 1;
        }
        i = i + 1;
    }
    n
}

/// Index of the square that a bitboard holds, where it holds exactly
/// one.
pub fn index_of(b: u64) -> (r: Option<u32>)
    ensures
        r is Some <==> is_square(b),
        r matches Some(k) ==> k == square_index(b) && k < 64,
{
    let mut i: u32 = 0;
    while i < 64
        invariant
            i <= 64,
            forall|k: u64| k < i ==> b != bit(k),
        decreases 64 - i,
    {
        if b == 1u64 << i {
            proof {
                lemma_index_of_bit(i as u64);
            }
            return Some(i);
        }
        i = i + 1;
    }
    None
}

} // verus!
