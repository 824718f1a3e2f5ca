//! Reading moves and promotion choices from words.
use crate::board::state::Color;
use crate::piece::position::{parse, Position};
use crate::piece::{ChessPiece, Type};
use vstd::prelude::*;

verus! {

/// The two squares that the first two words name, where both name a
/// square.
pub open spec fn moves_of(first: Seq<char>, second: Seq<char>) -> Option<(Position, Position)> {
    match (parse(first), parse(second)) {
        (Some(from), Some(to)) => Some((from, to)),
        _ => None,
    }
}

/// Kind of piece that a letter of the promotion menu stands for: `Q`
/// a queen, `R` a rook, `B` a bishop and `K` a knight.
pub open spec fn promotion_kind(word: Seq<char>) -> Option<Type> {
    if word.len() != 1 {
        None
    } else if word[0] == 'Q' {
        Some(Type::Queen)
    } else if word[0] == 'R' {
        Some(Type::Rook)
    } else if word[0] == 'B' {
        Some(Type::Bishop)
    } else if word[0] == 'K' {
        Some(Type::Knight)
    } else {
        None
    }
}

/// Reads a move from words: the first names the square to leave, the
/// second the square to go to. Further words are not read.
pub fn input_to_moves(input: Vec<&str>) -> (r: Option<(Position, Position)>)
    requires
        input@.len() >= 2,
    ensures
        r == moves_of(input@[0]@, input@[1]@),
{
    let from = Position::from_text(input[0]);
    let to = Position::from_text(input[1]);
    match (from, to) {
        (Some(from), Some(to)) => Some((from, to)),
        _ => None,
    }
}

/// The piece that a letter of the promotion menu asks for, for the
/// given side.
pub fn promotion_choice(word: &str, turn: Color) -> (r: Option<ChessPiece>)
    ensures
        r == match promotion_kind(word@) {
            Some(t) => Some(ChessPiece { piece_type: t, color: turn, moved: false }),
            None => None,
        },
{
    if word.unicode_len() != 1 {
        return None;
    }
    let letter = word.get_char(0);
    if letter == 'Q' {
        Some(ChessPiece::create_queen(turn))
    } else if letter == 'R' {
        Some(ChessPiece::create_rook(turn))
    } else if letter == 'B' {
        Some(ChessPiece::create_bishop(turn))
    } else if letter == 'K' {
        Some(ChessPiece::create_knight(turn))
    } else {
        None
    }
}

} // verus!
