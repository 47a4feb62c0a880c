use sandfall::board::Board;
use sandfall::driver::{tick, tick_with};
use sandfall::material::MaterialId;
use sandfall::placement::Placement;
use sandfall::rules::Draw;

fn count(board: &Board, material: MaterialId) -> usize {
    board.cells().iter().filter(|p| p.material == material).count()
}

fn find(board: &Board, material: MaterialId) -> Vec<(usize, usize)> {
    let width = board.get_width() as usize;
    board
        .cells()
        .iter()
        .enumerate()
        .filter(|(_, p)| p.material == material)
        .map(|(i, _)| (i / width, i % width))
        .collect()
}

#[test]
fn sand_reaches_the_bottom_row() {
    let mut board = Board::create_board(5, 5).unwrap();
    board.place(0, 2, MaterialId::Sand);
    let none: Vec<Placement> = Vec::new();
    for _ in 0..20 {
        tick(&mut board, 16, false, &none);
    }
    let sand = find(&board, MaterialId::Sand);
    assert_eq!(sand.len(), 1);
    assert_eq!(sand[0].0, 4);
    assert_eq!(count(&board, MaterialId::Void), 24);
}

#[test]
fn sand_reaches_the_bottom_row_by_a_calm_plan() {
    let mut board = Board::create_board(5, 5).unwrap();
    board.place(0, 2, MaterialId::Sand);
    let none: Vec<Placement> = Vec::new();
    let plan: Vec<Draw> = Vec::new();
    for _ in 0..20 {
        tick_with(&mut board, 16, false, &none, &plan);
    }
    let sand = find(&board, MaterialId::Sand);
    assert_eq!(sand.len(), 1);
    assert_eq!(sand[0].0, 4);
    assert_eq!(board.get(sand[0].0, sand[0].1).unwrap().velocity.y, 0);
    assert_eq!(count(&board, MaterialId::Void), 24);
}

#[test]
fn water_does_not_enter_wood() {
    let mut board = Board::create_board(3, 3).unwrap();
    board.place(1, 1, MaterialId::Wood);
    board.place(0, 1, MaterialId::Water);
    let none: Vec<Placement> = Vec::new();
    tick(&mut board, 16, false, &none);
    assert_eq!(board.get(1, 1).unwrap().material, MaterialId::Wood);
    let water = find(&board, MaterialId::Water);
    assert_eq!(water.len(), 1);
    assert_eq!(water[0].0, 0);
    assert_eq!(board.get(water[0].0, water[0].1).unwrap().velocity.y, 0);
}

#[test]
fn two_sand_cells_keep_apart() {
    let mut board = Board::create_board(3, 2).unwrap();
    board.place(0, 1, MaterialId::Sand);
    board.place(0, 2, MaterialId::Sand);
    let none: Vec<Placement> = Vec::new();
    tick(&mut board, 16, false, &none);
    let sand = find(&board, MaterialId::Sand);
    assert_eq!(sand.len(), 2);
    assert_ne!(sand[0], sand[1]);
    assert_eq!(count(&board, MaterialId::Void), 4);
}
