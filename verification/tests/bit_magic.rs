use engine::bit_magic;
use engine::piece::Color;


#[test]
fn test_moving_forward() {
    let a2 = 0b0000_0000_0000_0001_0000_0000;
    let a3 = 0b0000_0001_0000_0000_0000_0000;
    let a4 = 0b0000_0001_0000_0000_0000_0000_0000_0000;

    assert!(bit_magic::is_moving_vertically(a2, a3));
    assert!(bit_magic::is_moving_vertically(a3, a2));
    assert!(bit_magic::is_moving_vertically(a3, a4));
    assert!(bit_magic::is_moving_vertically(a4, a3));
    assert!(bit_magic::is_moving_vertically(a2, a4));

    let b2 = 0b0000_0000_0000_0010_0000_0000;
    let b3 = 0b0000_0010_0000_0000_0000_0000;

    assert!(bit_magic::is_moving_vertically(b2, b3));
    assert!(bit_magic::is_moving_vertically(b3, b2));

    assert!(!bit_magic::is_moving_vertically(a2, b2));
}


#[test]
fn test_pawn_initial_position() {
    let white_pawn = 0b0000_0000_0000_0001_0000_0000;
    let black_pawn = 1 << 52;

    assert!(bit_magic::is_pawn_at_initial_position(
        white_pawn,
        Color::White
    ));
    assert!(!bit_magic::is_pawn_at_initial_position(
        black_pawn,
        Color::White
    ));

    assert!(!bit_magic::is_pawn_at_initial_position(
        white_pawn,
        Color::Black
    ));
    assert!(bit_magic::is_pawn_at_initial_position(
        black_pawn,
        Color::Black
    ));
}

#[test]
fn test_vertical_bb() {
    let a2 = 0b0000_0000_0000_0001_0000_0000;
    let a6 = a2 << 32;
    let expect = 0b00000000000000000000000000000100000001000000010000000000000000;

    let bb = bit_magic::vertical_move_bb(a2, a6);

    assert_eq!(bb, expect);

    let bb = bit_magic::vertical_move_bb(a6, a2);

    assert_eq!(bb, expect);
}

#[test]
fn test_horizontal_bb() {
    let a1 = 0b0000_0000_0000_0001;
    let h1 = 0b0000_0000_1000_0000;
    let expect = 0b000000_0111_1110;

    let bb = bit_magic::horizontal_move_bb(a1, h1);

    assert_eq!(bb, expect);

    let bb = bit_magic::horizontal_move_bb(h1, a1);

    assert_eq!(bb, expect);
}

#[test]
fn test_diagonal_bb() {
    let a1 = 0b0000_0000_0000_0001;
    let g1 = 0b0000_0000_0100_0000;
    let h8 = 0b1000_0000 << (8 * 7);
    let g7 = g1 << (8 * 6);

    let expect = 0x201008040200;
    let bb = bit_magic::diagonal_move_bb(a1, g7);

    assert_eq!(bb, expect);

    let bb = bit_magic::diagonal_move_bb(g7, a1);

    assert_eq!(bb, expect);

    let expect = 0b000000001000000001000000001000000001000000001000000001000000000;

    let bb = bit_magic::diagonal_move_bb(a1, h8);

    assert_eq!(bb, expect);

    let bb = bit_magic::diagonal_move_bb(h8, a1);

    assert_eq!(bb, expect);
}

#[test]
fn test_bit_distance() {
    let e1: u64 = 0b0001_0000;
    let d1: u64 = 0b0000_1000;
    let f1: u64 = 0b0010_0000;
    let e5 = e1 << (8 * 5);
    let d6 = d1 << (8 * 6);
    let f6 = f1 << (8 * 6);

    let distance = bit_magic::bit_distance(e5, d6);
    assert_eq!(distance, 7);

    let distance = bit_magic::bit_distance(d6, e5);
    assert_eq!(distance, 7);

    let distance = bit_magic::bit_distance(e5, f6);
    assert_eq!(distance, 9);

    let distance = bit_magic::bit_distance(f6, e5);
    assert_eq!(distance, 9);
}

#[test]
fn test_bit_row() {
    let a1 = 0b0000_0000_0000_0001;
    let b1 = 0b0000_0000_0000_0010;

    let row = bit_magic::bit_row(a1);
    assert_eq!(row, 0);
    let row = bit_magic::bit_row(b1);
    assert_eq!(row, 0);

    let a2 = a1 << 8;
    let b2 = b1 << 8;
    let row = bit_magic::bit_row(a2);
    assert_eq!(row, 1);
    let row = bit_magic::bit_row(b2);
    assert_eq!(row, 1);
}

#[test]
fn test_is_moving_horizontally() {
    let a1 = 0b0000_0000_0000_0001;
    let b1 = 0b0000_0000_0000_0010;
    let a2 = a1 << 8;
    let b2 = b1 << 8;

    assert!(bit_magic::is_moving_horizontally(a1, b1));
    assert!(bit_magic::is_moving_horizontally(b1, a1));
    assert!(bit_magic::is_moving_horizontally(a2, b2));
    assert!(bit_magic::is_moving_horizontally(b2, a2));

    assert!(!bit_magic::is_moving_horizontally(a1, b2));
    assert!(!bit_magic::is_moving_horizontally(b2, a1));

    assert!(!bit_magic::is_moving_horizontally(a1, a2));
    assert!(!bit_magic::is_moving_horizontally(a2, a1));
    assert!(!bit_magic::is_moving_horizontally(b1, b2));
    assert!(!bit_magic::is_moving_horizontally(b2, b1));
}

#[test]
fn test_is_moving_diagonally() {
    let a1 = 0b0000_0000_0000_0001;
    let b1 = 0b0000_0000_0000_0010;
    let g1 = 0b0100_0000;
    let h1 = 0b1000_0000;

    let a2 = a1 << 8;
    let b2 = b1 << 8;
    let h2 = h1 << 8;

    let h8 = h1 << (8 * 7);

    assert!(bit_magic::is_moving_diagonally(a1, b2));
    assert!(bit_magic::is_moving_diagonally(b2, a1));

    assert!(!bit_magic::is_moving_diagonally(b1, h1));
    assert!(!bit_magic::is_moving_diagonally(h1, b1));
    assert!(!bit_magic::is_moving_diagonally(a1, h1));
    assert!(!bit_magic::is_moving_diagonally(h1, a1));

    assert!(!bit_magic::is_moving_diagonally(a1, h2));
    assert!(!bit_magic::is_moving_diagonally(h2, a1));

    assert!(bit_magic::is_moving_diagonally(h2, g1));
    assert!(bit_magic::is_moving_diagonally(g1, h2));

    assert!(bit_magic::is_moving_diagonally(a2, b1));
    assert!(bit_magic::is_moving_diagonally(b1, a2));

    assert!(bit_magic::is_moving_diagonally(a1, h8));
    assert!(bit_magic::is_moving_diagonally(h8, a1));
}

#[test]
fn test_l_shaped() {
    let a1 = 0b0000_0001;
    let b1 = 0b0000_0010;
    let c1 = 0b0000_0100;
    let d1 = 0b0000_1000;

    let a3 = a1 << (8 * 2);
    let c3 = c1 << (8 * 2);
    let d2 = d1 << (8 * 1);

    assert!(bit_magic::is_l_shaped(b1, c3));
}

#[test]
fn test_l_shaped2() {
    let b1 = 0b0000_0010;
    let c1 = 0b0000_0100;
    let d1 = 0b0000_1000;
    let e1 = 0b0001_0000;
    let f1 = 0b0010_0000;

    let d5 = d1 << (8 * 4);

    let b4 = b1 << (8 * 3);
    let b7 = b1 << (8 * 6);

    let c3 = c1 << (8 * 2);
    let c7 = c1 << (8 * 6);

    let e3 = e1 << (8 * 2);
    let e7 = e1 << (8 * 6);

    let f4 = f1 << (8 * 3);
    let f7 = f1 << (8 * 6);

    let bit_distance = bit_magic::bit_distance(d5, b4);
    println!("d5 -> b4: {}", bit_distance);

    let bit_distance = bit_magic::bit_distance(d5, b7);
    println!("d5 -> b7: {}", bit_distance);

    let bit_distance = bit_magic::bit_distance(d5, c3);
    println!("d5 -> c3: {}", bit_distance);

    let bit_distance = bit_magic::bit_distance(d5, c7);
    println!("d5 -> c7: {}", bit_distance);

    let bit_distance = bit_magic::bit_distance(d5, e3);
    println!("d5 -> e3: {}", bit_distance);

    let bit_distance = bit_magic::bit_distance(d5, e7);
    println!("d5 -> e7: {}", bit_distance);

    let bit_distance = bit_magic::bit_distance(d5, f4);
    println!("d5 -> f4: {}", bit_distance);

    let bit_distance = bit_magic::bit_distance(d5, f7);
    println!("d5 -> f7: {}", bit_distance);
}
