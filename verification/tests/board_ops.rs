use sandfall::board::{Board, BoardError};
use sandfall::material::{Color, MaterialId};
use sandfall::particle::Velocity;

const REST: Velocity = Velocity { x: 0, y: 0 };

#[test]
fn zero_width_is_refused() {
    assert!(matches!(Board::create_board(0, 5), Err(BoardError::InvalidDimensions)));
}

#[test]
fn zero_height_is_refused() {
    assert!(matches!(Board::create_board(5, 0), Err(BoardError::InvalidDimensions)));
}

#[test]
fn zero_by_zero_is_refused() {
    assert!(matches!(Board::create_board(0, 0), Err(BoardError::InvalidDimensions)));
}

#[test]
fn new_board_is_blank() {
    let board = Board::create_board(4, 3).unwrap();
    assert_eq!(board.get_width(), 4);
    assert_eq!(board.get_height(), 3);
    assert_eq!(board.cells().len(), 12);
    for p in board.cells() {
        assert_eq!(p.material, MaterialId::Void);
        assert_eq!(p.velocity, REST);
        assert!(!p.settled);
        assert!(p.entropy < 1000);
    }
}

#[test]
fn one_by_one_board_has_one_slot() {
    let board = Board::create_board(1, 1).unwrap();
    assert_eq!(board.cells().len(), 1);
    assert_eq!(board.get(0, 0).unwrap().material, MaterialId::Void);
    assert_eq!(board.get(0, 1).unwrap_err(), BoardError::Bounds);
    assert_eq!(board.get(1, 0).unwrap_err(), BoardError::Bounds);
}

#[test]
fn entropy_varies_over_the_board() {
    let board = Board::create_board(16, 16).unwrap();
    let first = board.cells()[0].entropy;
    assert!(board.cells().iter().any(|p| p.entropy != first));
    assert!(board.cells().iter().any(|p| p.entropy > 0));
    assert!(board.cells().iter().any(|p| p.entropy < 999));
    assert!(board.cells().iter().all(|p| p.entropy < 1000));
}

#[test]
fn slots_lie_row_by_row() {
    let board = Board::create_board(4, 3).unwrap();
    assert_eq!(board.index_of(0, 0), Ok(0));
    assert_eq!(board.index_of(0, 3), Ok(3));
    assert_eq!(board.index_of(1, 0), Ok(4));
    assert_eq!(board.index_of(2, 3), Ok(11));
    assert_eq!(board.index_of(3, 0), Err(BoardError::Bounds));
    assert_eq!(board.index_of(0, 4), Err(BoardError::Bounds));
}

#[test]
fn get_outside_is_a_bounds_error() {
    let board = Board::create_board(4, 3).unwrap();
    assert!(board.get(2, 3).is_ok());
    assert_eq!(board.get(3, 0).unwrap_err(), BoardError::Bounds);
    assert_eq!(board.get(0, 4).unwrap_err(), BoardError::Bounds);
    assert_eq!(board.get(usize::MAX, usize::MAX).unwrap_err(), BoardError::Bounds);
}

#[test]
fn get_reads_the_row_major_slot() {
    let mut board = Board::create_board(4, 3).unwrap();
    board.set(1, 2, MaterialId::Wood, REST).unwrap();
    assert_eq!(board.get(1, 2).unwrap().material, MaterialId::Wood);
    assert_eq!(board.cells()[6].material, MaterialId::Wood);
    assert_eq!(board.get(2, 1).unwrap().material, MaterialId::Void);
}

#[test]
fn set_keeps_entropy_and_clears_the_mark() {
    let mut board = Board::create_board(3, 3).unwrap();
    let entropy = board.get(1, 1).unwrap().entropy;
    board.set(1, 1, MaterialId::Water, Velocity { x: 0, y: 0 }).unwrap();
    board.solve_with(1, 1, 0, sandfall::rules::Draw::calm()).unwrap();
    let at = (0..3usize)
        .flat_map(|r| (0..3usize).map(move |c| (r, c)))
        .find(|&(r, c)| board.get(r, c).unwrap().material == MaterialId::Water)
        .unwrap();
    assert!(board.get(at.0, at.1).unwrap().settled);
    let before = board.get(at.0, at.1).unwrap().entropy;
    board.set(at.0, at.1, MaterialId::Sand, Velocity { x: -7, y: 12 }).unwrap();
    let p = board.get(at.0, at.1).unwrap();
    assert_eq!(p.material, MaterialId::Sand);
    assert_eq!(p.velocity, Velocity { x: -7, y: 12 });
    assert!(!p.settled);
    assert_eq!(p.entropy, before);
    assert_eq!(board.get(1, 1).unwrap().entropy, entropy);
}

#[test]
fn set_outside_changes_nothing() {
    let mut board = Board::create_board(3, 2).unwrap();
    let before = board.cells().clone();
    assert_eq!(board.set(2, 0, MaterialId::Sand, REST), Err(BoardError::Bounds));
    assert_eq!(board.set(0, 3, MaterialId::Sand, REST), Err(BoardError::Bounds));
    assert_eq!(board.cells(), &before);
}

#[test]
fn swap_trades_contents_but_not_entropy() {
    let mut board = Board::create_board(3, 3).unwrap();
    board.set(0, 0, MaterialId::Sand, Velocity { x: 1, y: 2 }).unwrap();
    board.set(2, 1, MaterialId::Water, Velocity { x: 3, y: 4 }).unwrap();
    let first = board.get(0, 0).unwrap();
    let second = board.get(2, 1).unwrap();
    board.swap((0, 0), (2, 1)).unwrap();
    let a = board.get(0, 0).unwrap();
    let b = board.get(2, 1).unwrap();
    assert_eq!(a.material, MaterialId::Water);
    assert_eq!(a.velocity, Velocity { x: 3, y: 4 });
    assert_eq!(a.entropy, first.entropy);
    assert_eq!(b.material, MaterialId::Sand);
    assert_eq!(b.velocity, Velocity { x: 1, y: 2 });
    assert_eq!(b.entropy, second.entropy);
}

#[test]
fn swap_with_itself_changes_nothing() {
    let mut board = Board::create_board(2, 2).unwrap();
    board.set(1, 1, MaterialId::Methane, Velocity { x: 5, y: 6 }).unwrap();
    let before = board.cells().clone();
    board.swap((1, 1), (1, 1)).unwrap();
    assert_eq!(board.cells(), &before);
}

#[test]
fn swap_outside_changes_nothing() {
    let mut board = Board::create_board(2, 2).unwrap();
    board.set(0, 0, MaterialId::Sand, REST).unwrap();
    let before = board.cells().clone();
    assert_eq!(board.swap((0, 0), (2, 0)), Err(BoardError::Bounds));
    assert_eq!(board.swap((0, 2), (0, 0)), Err(BoardError::Bounds));
    assert_eq!(board.cells(), &before);
}

#[test]
fn reset_empties_the_board() {
    let mut board = Board::create_board(4, 4).unwrap();
    board.place(0, 0, MaterialId::Sand);
    board.place(3, 3, MaterialId::Wood);
    board.reset();
    assert_eq!(board.get_width(), 4);
    assert_eq!(board.get_height(), 4);
    assert_eq!(board.cells().len(), 16);
    for p in board.cells() {
        assert_eq!(p.material, MaterialId::Void);
        assert_eq!(p.velocity, REST);
        assert!(!p.settled);
        assert!(p.entropy < 1000);
    }
}

#[test]
fn reset_draws_entropy_afresh() {
    let mut board = Board::create_board(16, 16).unwrap();
    let before: Vec<u32> = board.cells().iter().map(|p| p.entropy).collect();
    board.reset();
    let after: Vec<u32> = board.cells().iter().map(|p| p.entropy).collect();
    assert_ne!(before, after);
}

#[test]
fn colors_follow_the_materials() {
    let mut board = Board::create_board(2, 2).unwrap();
    board.place(0, 1, MaterialId::Sand);
    board.place(1, 0, MaterialId::Wood);
    assert_eq!(
        board.colors(),
        vec![
            Color { r: 0, g: 0, b: 0, a: 100 },
            Color { r: 203, g: 189, b: 147, a: 255 },
            Color { r: 127, g: 107, b: 79, a: 255 },
            Color { r: 0, g: 0, b: 0, a: 100 },
        ]
    );
}
