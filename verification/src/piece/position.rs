//! Squares of the board and their names.
use crate::bit_magic::{bit, has_bit};
use vstd::prelude::*;

verus! {

/// A square, by file (`x`) and rank (`y`). Squares of the board have
/// both coordinates between 0 and 7.
#[derive(Copy, Clone, PartialEq, Eq, Ord, Hash, Debug, Structural)]
pub struct Position {
    pub x: i32,
    pub y: i32,
}

/// The square with the given index, counted along the ranks from a1.
pub open spec fn square(i: int) -> Position {
    Position { x: (i % 8) as i32, y: (i / 8) as i32 }
}

/// Letter of a file.
pub open spec fn file_char(x: int) -> char {
    if x == 0 {
        'a'
    } else if x == 1 {
        'b'
    } else if x == 2 {
        'c'
    } else if x == 3 {
        'd'
    } else if x == 4 {
        'e'
    } else if x == 5 {
        'f'
    } else if x == 6 {
        'g'
    } else {
        'h'
    }
}

/// Digit of a rank.
pub open spec fn rank_char(y: int) -> char {
    if y == 0 {
        '1'
    } else if y == 1 {
        '2'
    } else if y == 2 {
        '3'
    } else if y == 3 {
        '4'
    } else if y == 4 {
        '5'
    } else if y == 5 {
        '6'
    } else if y == 6 {
        '7'
    } else {
        '8'
    }
}

/// File that a letter names, if any.
pub open spec fn file_of(c: char) -> Option<int> {
    if c == 'a' {
        Some(0)
    } else if c == 'b' {
        Some(1)
    } else if c == 'c' {
        Some(2)
    } else if c == 'd' {
        Some(3)
    } else if c == 'e' {
        Some(4)
    } else if c == 'f' {
        Some(5)
    } else if c == 'g' {
        Some(6)
    } else if c == 'h' {
        Some(7)
    } else {
        None
    }
}

/// Rank that a digit names, if any.
pub open spec fn rank_of(c: char) -> Option<int> {
    if c == '1' {
        Some(0)
    } else if c == '2' {
        Some(1)
    } else if c == '3' {
        Some(2)
    } else if c == '4' {
        Some(3)
    } else if c == '5' {
        Some(4)
    } else if c == '6' {
        Some(5)
    } else if c == '7' {
        Some(6)
    } else if c == '8' {
        Some(7)
    } else {
        None
    }
}

/// The square that a text names in algebraic coordinates: a file letter
/// `a` to `h` followed by a rank digit `1` to `8`, and nothing else.
pub open spec fn parse(s: Seq<char>) -> Option<Position> {
    if s.len() != 2 {
        None
    } else {
        match (file_of(s[0]), rank_of(s[1])) {
            (Some(x), Some(y)) => Some(Position { x: x as i32, y: y as i32 }),
            _ => None,
        }
    }
}

impl Position {
    /// Whether the square lies on the board.
    pub open spec fn valid(self) -> bool {
        0 <= self.x < 8 && 0 <= self.y < 8
    }

    /// Index of the square, counted along the ranks from a1.
    pub open spec fn index(self) -> int {
        self.y * 8 + self.x
    }

    /// Algebraic coordinates of a square of the board.
    pub open spec fn text(self) -> Seq<char> {
        seq![file_char(self.x as int), rank_char(self.y as int)]
    }

    /// The square with the given file and rank, on the board or off it.
    pub fn new(x: i32, y: i32) -> (r: Position)
        ensures
            r == (Position { x, y }),
    {
        Position { x, y }
    }

    /// Whether the square lies on the board.
    pub fn is_valid(&self) -> (r: bool)
        ensures
            r == self.valid(),
    {
        0 <= self.x && self.x < 8 && 0 <= self.y && self.y < 8
    }

    /// Index of a square of the board.
    pub fn to_index(&self) -> (r: usize)
        requires
            self.valid(),
        ensures
            r == self.index(),
            r < 64,
    {
        (self.y * 8 + self.x) as usize
    }

    /// The square of the board with the given index.
    pub fn from_index(i: usize) -> (r: Position)
        requires
            i < 64,
        ensures
            r == square(i as int),
            r.valid(),
            r.index() == i,
    {
        Position { x: (i % 8) as i32, y: (i / 8) as i32 }
    }

    /// The bitboard that holds only this square of the board.
    pub fn to_bit_board(&self) -> (r: u64)
        requires
            self.valid(),
        ensures
            r == bit(self.index() as u64),
    {
        1u64 << ((self.x + self.y * 8) as u64)
    }

    /// The lowest square that a bitboard holds; for a one-square
    /// bitboard, its square.
    pub fn from_bit_board(bit_board: u64) -> (r: Position)
        requires
            bit_board != 0,
        ensures
            r.valid(),
            has_bit(bit_board, r.index() as u64),
            forall|k: u64| k < r.index() ==> !has_bit(bit_board, k),
    {
        let mut rest: u64 = bit_board;
        let mut n: u64 = 0;
        assert(bit_board >> 0 == bit_board) by (bit_vector);
        while rest & 1 == 0
            invariant
                n < 64,
                rest != 0,
                rest == bit_board >> n,
                forall|k: u64| k < n ==> !has_bit(bit_board, k),
            decreases 64 - n,
        {
            assert(n + 1 < 64 && (bit_board >> n) >> 1 == bit_board >> ((n + 1) as u64) && (
            bit_board >> n) >> 1 != 0) by (bit_vector)
                requires
                    n < 64,
                    bit_board >> n != 0,
                    (bit_board >> n) & 1 == 0,
            ;
            rest = rest >> 1;
            n = n + 1;
        }
        assert(rest & 1 == 1) by (bit_vector)
            requires
                rest & 1 != 0,
        ;
        Position { x: (n % 8) as i32, y: (n / 8) as i32 }
    }

    /// Reads algebraic coordinates.
    pub fn from_text(s: &str) -> (r: Option<Position>)
        ensures
            r == parse(s@),
    {
        if s.unicode_len() != 2 {
            return None;
        }
        let f = s.get_char(0);
        let d = s.get_char(1);
        let x: i32 = if f == 'a' {
            0
        } else if f == 'b' {
            1
        } else if f == 'c' {
            2
        } else if f == 'd' {
            3
        } else if f == 'e' {
            4
        } else if f == 'f' {
            5
        } else if f == 'g' {
            6
        } else if f == 'h' {
            7
        } else {
            return None;
        };
        let y: i32 = if d == '1' {
            0
        } else if d == '2' {
            1
        } else if d == '3' {
            2
        } else if d == '4' {
            3
        } else if d == '5' {
            4
        } else if d == '6' {
            5
        } else if d == '7' {
            6
        } else if d == '8' {
            7
        } else {
            return None;
        };
        Some(Position { x, y })
    }

    /// Writes a square of the board in algebraic coordinates.
    pub fn to_text(&self) -> (r: String)
        requires
            self.valid(),
        ensures
            r@ == self.text(),
    {
        let file: &str = if self.x == 0 {
            "a"
        } else if self.x == 1 {
            "b"
        } else if self.x == 2 {
            "c"
        } else if self.x == 3 {
            "d"
        } else if self.x == 4 {
            "e"
        } else if self.x == 5 {
            "f"
        } else if self.x == 6 {
            "g"
        } else {
            "h"
        };
        let rank: &str = if self.y == 0 {
            "1"
        } else if self.y == 1 {
            "2"
        } else if self.y == 2 {
            "3"
        } else if self.y == 3 {
            "4"
        } else if self.y == 4 {
            "5"
        } else if self.y == 5 {
            "6"
        } else if self.y == 6 {
            "7"
        } else {
            "8"
        };
        proof {
            reveal_strlit("a");
            reveal_strlit("b");
            reveal_strlit("c");
            reveal_strlit("d");
            reveal_strlit("e");
            reveal_strlit("f");
            reveal_strlit("g");
            reveal_strlit("h");
            reveal_strlit("1");
            reveal_strlit("2");
            reveal_strlit("3");
            reveal_strlit("4");
            reveal_strlit("5");
            reveal_strlit("6");
            reveal_strlit("7");
            reveal_strlit("8");
        }
        assert(file@ =~= seq![file_char(self.x as int)]);
        assert(rank@ =~= seq![rank_char(self.y as int)]);
        let mut out = String::from_str(file);
        out.append(rank);
        assert(out@ =~= self.text());
        out
    }
}

impl std::str::FromStr for Position {
    type Err = ();

    fn from_str(s: &str) -> (r: Result<Self, Self::Err>)
        ensures
            r == match parse(s@) {
                Some(p) => Ok::<Position, ()>(p),
                None => Err::<Position, ()>(()),
            },
    {
        match Position::from_text(s) {
            Some(p) => Ok(p),
            None => Err(()),
        }
    }
}

/// Writing a square of the board and reading the text back gives the
/// same square.
pub proof fn lemma_text_round_trip(p: Position)
    requires
        p.valid(),
    ensures
        parse(p.text()) == Some(p),
{
}

/// A text that names a square is the text of that square, and the
/// square lies on the board.
pub proof fn lemma_parse_is_text(s: Seq<char>)
    requires
        parse(s) is Some,
    ensures
        parse(s).unwrap().valid(),
        parse(s).unwrap().text() == s,
{
    let p = parse(s).unwrap();
    assert(p.text() =~= s);
}

} // verus!
