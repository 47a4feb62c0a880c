use sandfall::board::{Board, BoardError};
use sandfall::driver::tick_with;
use sandfall::material::MaterialId;
use sandfall::particle::Velocity;
use sandfall::placement::Placement;
use sandfall::rules::{Axis, Draw, Side};

#[test]
fn a_huge_time_step_drops_sand_to_the_floor() {
    let mut board = Board::create_board(1, 5).unwrap();
    board.place(0, 0, MaterialId::Sand);
    assert_eq!(board.solve_with(0, 0, u32::MAX, Draw::calm()), Ok((4, 0)));
    assert_eq!(board.get(4, 0).unwrap().velocity.y, 4000);
}

#[test]
fn the_largest_velocity_is_clamped_by_the_floor() {
    let mut board = Board::create_board(2, 4).unwrap();
    board.set(1, 1, MaterialId::Water, Velocity { x: i64::MAX, y: i64::MAX }).unwrap();
    assert_eq!(board.solve_with(1, 1, u32::MAX, Draw::calm()), Ok((3, 1)));
    assert_eq!(board.get(3, 1).unwrap().velocity, Velocity { x: 0, y: 2000 });
}

#[test]
fn the_smallest_velocity_only_gains() {
    let mut board = Board::create_board(2, 4).unwrap();
    board.set(1, 1, MaterialId::Sand, Velocity { x: i64::MIN, y: i64::MIN }).unwrap();
    assert_eq!(board.solve_with(1, 1, 1000, Draw { side: Side::Right, ..Draw::calm() }), Ok((1, 1)));
    assert_eq!(
        board.get(1, 1).unwrap().velocity,
        Velocity { x: i64::MIN, y: i64::MIN + 9810 }
    );
}

#[test]
fn the_widest_spread_ends_at_the_edge() {
    let mut board = Board::create_board(6, 1).unwrap();
    board.place(0, 3, MaterialId::Water);
    assert_eq!(
        board.solve_with(0, 3, 16, Draw { spread: i32::MIN, ..Draw::calm() }),
        Ok((0, 0))
    );
    assert_eq!(board.get(0, 0).unwrap().velocity.x, -2_147_483_648_000);
    board.place(0, 3, MaterialId::Water);
    assert_eq!(
        board.solve_with(0, 3, 16, Draw { spread: i32::MAX, ..Draw::calm() }),
        Ok((0, 5))
    );
    assert_eq!(board.get(0, 5).unwrap().velocity.x, 2_147_483_647_000);
}

#[test]
fn the_farthest_diffusion_ends_at_the_edge() {
    let mut board = Board::create_board(3, 6).unwrap();
    board.place(3, 1, MaterialId::Methane);
    let up = Draw { axis: Axis::Vertical, rise: i32::MIN, drift: i32::MAX, ..Draw::calm() };
    assert_eq!(board.solve_with(3, 1, 16, up), Ok((0, 1)));
    assert_eq!(
        board.get(0, 1).unwrap().velocity,
        Velocity { x: 2_147_483_647_000, y: -2_147_483_648_000 }
    );
    board.place(3, 1, MaterialId::Methane);
    let right = Draw { axis: Axis::Horizontal, rise: i32::MIN, drift: i32::MAX, ..Draw::calm() };
    assert_eq!(board.solve_with(3, 1, 16, right), Ok((3, 2)));
}

#[test]
fn a_board_can_be_as_wide_as_sixteen_bits_allow() {
    let mut board = Board::create_board(65535, 1).unwrap();
    assert_eq!(board.get_width(), 65535);
    assert_eq!(board.cells().len(), 65535);
    assert_eq!(board.index_of(0, 65534), Ok(65534));
    assert_eq!(board.index_of(0, 65535), Err(BoardError::Bounds));
    board.place(0, 65534, MaterialId::Water);
    assert_eq!(
        board.solve_with(0, 65534, 16, Draw { spread: -70000, ..Draw::calm() }),
        Ok((0, 0))
    );
    assert_eq!(board.get(0, 0).unwrap().material, MaterialId::Water);
}

#[test]
fn a_board_can_be_as_tall_as_sixteen_bits_allow() {
    let mut board = Board::create_board(1, 65535).unwrap();
    assert_eq!(board.get_height(), 65535);
    assert_eq!(board.index_of(65534, 0), Ok(65534));
    assert_eq!(board.index_of(65535, 0), Err(BoardError::Bounds));
    board.place(0, 0, MaterialId::Sand);
    assert_eq!(board.solve_with(0, 0, u32::MAX, Draw::calm()), Ok((65534, 0)));
    assert_eq!(board.get(65534, 0).unwrap().velocity.y, 65_534_000);
    board.place(65534, 0, MaterialId::Methane);
    let up = Draw { axis: Axis::Vertical, rise: -65534, ..Draw::calm() };
    assert_eq!(board.solve_with(65534, 0, 16, up), Ok((0, 0)));
}

#[test]
fn a_tick_takes_any_plan_and_any_requests() {
    let mut board = Board::create_board(3, 3).unwrap();
    board.place(0, 1, MaterialId::Methane);
    let wild = Draw {
        side: Side::Right,
        spread: i32::MAX,
        axis: Axis::Horizontal,
        rise: i32::MIN,
        drift: i32::MIN,
    };
    let requests = vec![
        Placement { row: i32::MIN, col: 0, material: MaterialId::Wood },
        Placement { row: 0, col: i32::MAX, material: MaterialId::Wood },
        Placement { row: 2, col: 2, material: MaterialId::Wood },
    ];
    tick_with(&mut board, u32::MAX, false, &requests, &vec![wild; 50]);
    assert_eq!(board.get(0, 0).unwrap().material, MaterialId::Methane);
    assert_eq!(board.get(2, 2).unwrap().material, MaterialId::Wood);
    assert_eq!(board.cells().iter().filter(|p| p.material == MaterialId::Void).count(), 7);
}
