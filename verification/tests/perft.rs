use std::str::FromStr;

use engine::board::state::GameState;
use engine::board::Board;
use engine::piece::position::Position;
use engine::piece::{ChessPiece, Color, Type};
use engine::result::{MovementError, MovementType};

fn move_generation(target: u8, board: &mut Board) -> u64 {
    let num_positions = move_generation_helper(0, target, board);
    return num_positions;
}

fn move_generation_helper(depth: u8, target: u8, board: &mut Board) -> u64 {
    if depth == target {
        return 1;
    }

    let legal_moves = board.legal_moves();

    let mut num_positions = 0;

    for (from, to) in legal_moves {
        let mut board = board.clone();
        let result = board.move_piece(from, to);

        assert!(result.is_ok());

        let poss = move_generation_helper(depth + 1, target, &mut board);

        num_positions += poss;
    }

    return num_positions;
}

#[test]
fn visualize() {
    let mut board = Board::new();
    let from = Position::from_str("c2").unwrap();
    let to = Position::from_str("c4").unwrap();
    board.move_piece(from, to).unwrap();
    let num_positions = move_generation(4, &mut board);
    assert_eq!(num_positions, 240082);
}

#[test]
fn one_depth() {
    let mut board = Board::new();
    let num_positions = move_generation(1, &mut board);
    assert_eq!(num_positions, 20);
}

#[test]
fn two_depth() {
    let mut board = Board::new();
    let num_positions = move_generation(2, &mut board);
    assert_eq!(num_positions, 400);
}

#[test]
fn three_depth() {
    let mut board = Board::new();
    let num_positions = move_generation(3, &mut board);
    assert_eq!(num_positions, 8902);
}

#[test]
fn four_depth() {
    let mut board = Board::new();
    let num_positions = move_generation(4, &mut board);
    assert_eq!(num_positions, 197281);
}

#[test]
fn five_depth() {
    let mut board = Board::new();
    let num_positions = move_generation(5, &mut board);
    assert_eq!(num_positions, 4865609);
}

#[test]
fn six_depth() {
    let mut _board = Board::new();
}

/// Sets up a board from ranks written from rank 8 down to rank 1, with
/// upper-case letters for White, lower-case letters for Black and dots
/// for empty squares. Pieces away from the squares on which they start
/// a game count as moved.
fn board_from(ranks: [&str; 8], turn: Color) -> Board {
    let home = Board::new().get_pieces();
    let mut arr = [[None; 8]; 8];
    for (row, text) in ranks.iter().enumerate() {
        let y = 7 - row;
        for (x, letter) in text.chars().enumerate() {
            let color = if letter.is_ascii_uppercase() { Color::White } else { Color::Black };
            let kind = match letter.to_ascii_lowercase() {
                'p' => Type::Pawn,
                'n' => Type::Knight,
                'b' => Type::Bishop,
                'r' => Type::Rook,
                'q' => Type::Queen,
                'k' => Type::King,
                _ => continue,
            };
            let mut piece = ChessPiece::new(kind, color);
            piece.moved = home[y][x] != Some(piece);
            arr[y][x] = Some(piece);
        }
    }
    Board::mock(arr, turn, None, None)
}

fn middle_game() -> Board {
    board_from(
        [
            "r...k..r",
            "p.ppqpb.",
            "bn..pnp.",
            "...PN...",
            ".p..P...",
            "..N..Q.p",
            "PPPBBPPP",
            "R...K..R",
        ],
        Color::White,
    )
}

fn rook_ending() -> Board {
    board_from(
        [
            "........",
            "..p.....",
            "...p....",
            "KP.....r",
            ".R...p.k",
            "........",
            "....P.P.",
            "........",
        ],
        Color::White,
    )
}

#[test]
fn middle_game_one_depth() {
    let mut board = middle_game();
    assert_eq!(move_generation(1, &mut board), 48);
}

#[test]
fn middle_game_two_depth() {
    let mut board = middle_game();
    assert_eq!(move_generation(2, &mut board), 2039);
}

#[test]
fn middle_game_three_depth() {
    let mut board = middle_game();
    assert_eq!(move_generation(3, &mut board), 97862);
}

#[test]
fn middle_game_castles_both_ways() {
    let board = middle_game();
    let king = Position::from_str("e1").unwrap();
    let moves = board.legal_moves();
    assert!(moves.contains(&(king, Position::from_str("g1").unwrap())));
    assert!(moves.contains(&(king, Position::from_str("c1").unwrap())));
    let mut castles = 0;
    for (from, to) in moves {
        let mut next = board.clone();
        if let MovementType::Castling(_, _) = next.move_piece(from, to).unwrap().movement_type {
            castles += 1;
        }
    }
    assert_eq!(castles, 2);
}

#[test]
fn rook_ending_depths() {
    let mut board = rook_ending();
    assert_eq!(move_generation(1, &mut board), 14);
    assert_eq!(move_generation(2, &mut board), 191);
    assert_eq!(move_generation(3, &mut board), 2812);
    assert_eq!(move_generation(4, &mut board), 43238);
}

#[test]
fn en_passant_may_not_uncover_the_king() {
    let mut board = board_from(
        [
            "....k...",
            "..p.....",
            "........",
            "KP.....r",
            "........",
            "........",
            "........",
            "........",
        ],
        Color::Black,
    );
    let c7 = Position::from_str("c7").unwrap();
    let c5 = Position::from_str("c5").unwrap();
    let b5 = Position::from_str("b5").unwrap();
    let c6 = Position::from_str("c6").unwrap();
    let advance = board.move_piece(c7, c5).unwrap();
    assert_eq!(advance.movement_type, MovementType::InitialDoubleAdvance);
    assert_eq!(board.get_check(), None);
    assert_eq!(board.move_piece(b5, c6), Err(MovementError::CreatesOwnCheck));
    assert_eq!(board.get_state(), GameState::InProgress);
    assert!(!board.legal_moves().contains(&(b5, c6)));
    assert!(board.move_piece(b5, Position::from_str("b6").unwrap()).is_ok());
}
