use sandfall::board::Board;
use sandfall::driver::{tick, tick_with};
use sandfall::material::MaterialId;
use sandfall::particle::{Particle, Velocity};
use sandfall::placement::Placement;
use sandfall::rules::{Axis, Draw, Side};

const REST: Velocity = Velocity { x: 0, y: 0 };

fn put(board: &mut Board, row: usize, col: usize, material: MaterialId) {
    board.set(row, col, material, REST).unwrap();
}

fn material_at(board: &Board, row: usize, col: usize) -> MaterialId {
    board.get(row, col).unwrap().material
}

fn census(board: &Board) -> [usize; 5] {
    let mut found = [0usize; 5];
    for p in board.cells() {
        let i = match p.material {
            MaterialId::Void => 0,
            MaterialId::Sand => 1,
            MaterialId::Water => 2,
            MaterialId::Wood => 3,
            MaterialId::Methane => 4,
        };
        found[i] += 1;
    }
    found
}

fn solids(board: &Board) -> Vec<(usize, Particle)> {
    board
        .cells()
        .iter()
        .enumerate()
        .filter(|(_, p)| p.material == MaterialId::Wood)
        .map(|(i, p)| (i, Particle { settled: false, ..*p }))
        .collect()
}

fn crowded() -> Board {
    let mut board = Board::create_board(12, 10).unwrap();
    for col in 0..12 {
        board.place(0, col, if col % 2 == 0 { MaterialId::Sand } else { MaterialId::Water });
        board.place(9, col, MaterialId::Methane);
    }
    for col in 2..9 {
        board.place(5, col, MaterialId::Wood);
    }
    board.place(3, 3, MaterialId::Wood);
    board.place(7, 10, MaterialId::Wood);
    board.place(2, 6, MaterialId::Sand);
    board.place(4, 6, MaterialId::Water);
    board
}

#[test]
fn a_pass_moves_each_cell_once() {
    let mut board = Board::create_board(1, 10).unwrap();
    board.place(0, 0, MaterialId::Sand);
    board.sweep_with(16, &Vec::new());
    assert_eq!(material_at(&board, 2, 0), MaterialId::Sand);
    assert_eq!(census(&board), [9, 1, 0, 0, 0]);
    let sand = board.get(2, 0).unwrap();
    assert!(sand.settled);
    assert_eq!(sand.velocity.y, 1156);
}

#[test]
fn a_pass_takes_the_old_marks_off() {
    let mut board = Board::create_board(1, 10).unwrap();
    board.place(0, 0, MaterialId::Sand);
    board.sweep_with(16, &Vec::new());
    board.sweep_with(16, &Vec::new());
    assert_eq!(material_at(&board, 4, 0), MaterialId::Sand);
    assert_eq!(board.get(4, 0).unwrap().velocity.y, 1312);
    assert_eq!(board.cells().iter().filter(|p| p.settled).count(), 1);
}

#[test]
fn a_pass_goes_from_the_top_row_down() {
    let mut board = Board::create_board(1, 6).unwrap();
    board.place(0, 0, MaterialId::Sand);
    board.place(1, 0, MaterialId::Sand);
    board.sweep_with(16, &Vec::new());
    assert_eq!(material_at(&board, 0, 0), MaterialId::Sand);
    assert_eq!(material_at(&board, 3, 0), MaterialId::Sand);
    assert_eq!(board.get(0, 0).unwrap().velocity.y, 0);
    assert_eq!(board.get(3, 0).unwrap().velocity.y, 1156);
    assert_eq!(census(&board), [4, 2, 0, 0, 0]);
}

#[test]
fn a_pass_goes_along_each_row_from_the_left() {
    let mut board = Board::create_board(4, 1).unwrap();
    put(&mut board, 0, 0, MaterialId::Water);
    put(&mut board, 0, 1, MaterialId::Water);
    let go_right = Draw { spread: 1, ..Draw::calm() };
    board.sweep_with(16, &vec![go_right, go_right, go_right, go_right]);
    assert_eq!(material_at(&board, 0, 0), MaterialId::Water);
    assert_eq!(material_at(&board, 0, 1), MaterialId::Void);
    assert_eq!(material_at(&board, 0, 2), MaterialId::Water);
    assert_eq!(material_at(&board, 0, 3), MaterialId::Void);
}

#[test]
fn a_slot_consumes_the_draw_of_its_index() {
    let mut board = Board::create_board(3, 2).unwrap();
    put(&mut board, 1, 1, MaterialId::Water);
    let mut plan = vec![Draw { spread: 1, ..Draw::calm() }; 6];
    plan[4] = Draw { spread: -1, ..Draw::calm() };
    board.sweep_with(16, &plan);
    assert_eq!(material_at(&board, 1, 0), MaterialId::Water);
    assert_eq!(board.get(1, 0).unwrap().velocity.x, -1000);
}

#[test]
fn a_short_plan_is_filled_up_with_calm_draws() {
    let mut board = Board::create_board(3, 2).unwrap();
    put(&mut board, 0, 0, MaterialId::Methane);
    put(&mut board, 1, 0, MaterialId::Water);
    let wild = Draw { side: Side::Right, spread: 2, axis: Axis::Horizontal, rise: 1, drift: 2 };
    board.sweep_with(16, &vec![wild]);
    assert_eq!(material_at(&board, 0, 2), MaterialId::Methane);
    assert_eq!(material_at(&board, 1, 0), MaterialId::Water);
    assert_eq!(board.get(1, 0).unwrap().velocity.x, 0);
}

#[test]
fn drawn_passes_conserve_every_material() {
    let mut board = crowded();
    let before = census(&board);
    assert_eq!(before.iter().sum::<usize>(), 120);
    for _ in 0..200 {
        board.sweep(16);
        assert_eq!(census(&board), before);
    }
}

#[test]
fn drawn_ticks_conserve_every_material() {
    let mut board = crowded();
    let before = census(&board);
    let none: Vec<Placement> = Vec::new();
    for round in 0..200 {
        tick(&mut board, round % 40, false, &none);
        assert_eq!(census(&board), before);
        assert_eq!(board.cells().len(), 120);
    }
}

#[test]
fn solids_stay_where_they_are() {
    let mut board = crowded();
    let before = solids(&board);
    assert_eq!(before.len(), 9);
    let none: Vec<Placement> = Vec::new();
    for _ in 0..200 {
        tick(&mut board, 16, false, &none);
        assert_eq!(solids(&board), before);
    }
}

#[test]
fn entropy_stays_with_the_slots() {
    let mut board = crowded();
    let before: Vec<u32> = board.cells().iter().map(|p| p.entropy).collect();
    let none: Vec<Placement> = Vec::new();
    for _ in 0..50 {
        tick(&mut board, 16, false, &none);
    }
    let after: Vec<u32> = board.cells().iter().map(|p| p.entropy).collect();
    assert_eq!(before, after);
}

#[test]
fn only_cells_with_a_motion_rule_are_settled_by_a_pass() {
    let mut board = crowded();
    board.sweep(16);
    for p in board.cells() {
        let moves = matches!(
            p.material,
            MaterialId::Sand | MaterialId::Water | MaterialId::Methane
        );
        assert!(moves || !p.settled);
    }
    assert!(board.cells().iter().filter(|p| p.settled).count() >= 12);
}

#[test]
fn sand_comes_to_rest_on_the_floor() {
    let mut board = Board::create_board(9, 9).unwrap();
    for col in 0..9 {
        board.place(0, col, MaterialId::Sand);
    }
    let none: Vec<Placement> = Vec::new();
    let calm: Vec<Draw> = Vec::new();
    for _ in 0..4 {
        tick_with(&mut board, 16, false, &none, &calm);
    }
    for col in 0..9 {
        let sand = board.get(8, col).unwrap();
        assert_eq!(sand.material, MaterialId::Sand);
        assert_eq!(sand.velocity.y, 1624);
    }
    for _ in 0..3 {
        tick_with(&mut board, 16, false, &none, &calm);
        for col in 0..9 {
            let sand = board.get(8, col).unwrap();
            assert_eq!(sand.material, MaterialId::Sand);
            assert_eq!(sand.velocity.y, 0);
        }
    }
    assert_eq!(board.cells().iter().filter(|p| p.material == MaterialId::Sand).count(), 9);
}

#[test]
fn drawn_ticks_leave_sand_at_rest_on_sand_or_floor() {
    let mut board = Board::create_board(9, 9).unwrap();
    for col in 0..9 {
        board.place(0, col, MaterialId::Sand);
        board.place(1, col, MaterialId::Sand);
    }
    let none: Vec<Placement> = Vec::new();
    for _ in 0..60 {
        tick(&mut board, 16, false, &none);
    }
    for (i, p) in board.cells().iter().enumerate() {
        if p.material == MaterialId::Sand {
            let row = i / 9;
            assert!(row == 8 || board.cells()[i + 9].material == MaterialId::Sand);
            assert_eq!(p.velocity.y, 0);
        }
    }
    assert_eq!(board.cells().iter().filter(|p| p.material == MaterialId::Sand).count(), 18);
}

#[test]
fn a_paused_tick_changes_nothing() {
    let mut board = crowded();
    let none: Vec<Placement> = Vec::new();
    tick(&mut board, 16, false, &none);
    let before = board.cells().clone();
    for _ in 0..10 {
        tick(&mut board, 16, true, &none);
        assert_eq!(board.cells(), &before);
    }
    tick_with(&mut board, 16, true, &none, &vec![Draw { spread: 3, ..Draw::calm() }; 120]);
    assert_eq!(board.cells(), &before);
}

#[test]
fn a_paused_tick_still_places() {
    let mut board = Board::create_board(3, 3).unwrap();
    board.place(0, 0, MaterialId::Sand);
    let requests = vec![Placement { row: 2, col: 2, material: MaterialId::Water }];
    tick(&mut board, 16, true, &requests);
    assert_eq!(material_at(&board, 0, 0), MaterialId::Sand);
    assert_eq!(material_at(&board, 2, 2), MaterialId::Water);
    assert_eq!(board.cells().iter().filter(|p| p.material == MaterialId::Void).count(), 7);
}

#[test]
fn placements_come_after_the_pass() {
    let mut board = Board::create_board(1, 5).unwrap();
    let requests = vec![Placement { row: 0, col: 0, material: MaterialId::Sand }];
    tick_with(&mut board, 16, false, &requests, &Vec::new());
    let sand = board.get(0, 0).unwrap();
    assert_eq!(sand.material, MaterialId::Sand);
    assert_eq!(sand.velocity, Velocity { x: 0, y: 1000 });
    assert!(!sand.settled);
    tick_with(&mut board, 16, false, &Vec::new(), &Vec::new());
    assert_eq!(material_at(&board, 2, 0), MaterialId::Sand);
}

#[test]
fn place_starts_a_cell_with_the_fall_seed() {
    let mut board = Board::create_board(2, 2).unwrap();
    let entropy = board.get(1, 0).unwrap().entropy;
    board.set(1, 0, MaterialId::Wood, Velocity { x: 5, y: 6 }).unwrap();
    board.place(1, 0, MaterialId::Water);
    assert_eq!(
        board.get(1, 0).unwrap(),
        Particle {
            material: MaterialId::Water,
            velocity: Velocity { x: 0, y: 1000 },
            settled: false,
            entropy,
        }
    );
}

#[test]
fn place_can_erase_with_void() {
    let mut board = Board::create_board(2, 2).unwrap();
    board.place(0, 1, MaterialId::Wood);
    board.place(0, 1, MaterialId::Void);
    assert_eq!(material_at(&board, 0, 1), MaterialId::Void);
}

#[test]
fn place_outside_the_board_is_ignored() {
    let mut board = Board::create_board(3, 2).unwrap();
    let before = board.cells().clone();
    board.place(-1, 0, MaterialId::Sand);
    board.place(0, -1, MaterialId::Sand);
    board.place(2, 0, MaterialId::Sand);
    board.place(0, 3, MaterialId::Sand);
    board.place(i32::MIN, i32::MAX, MaterialId::Sand);
    board.place(i32::MAX, i32::MIN, MaterialId::Sand);
    assert_eq!(board.cells(), &before);
    board.place(1, 2, MaterialId::Sand);
    assert_eq!(material_at(&board, 1, 2), MaterialId::Sand);
}

#[test]
fn requests_are_placed_in_their_order() {
    let mut board = Board::create_board(2, 2).unwrap();
    board.place_all(&vec![
        Placement { row: 0, col: 0, material: MaterialId::Sand },
        Placement { row: 5, col: 5, material: MaterialId::Wood },
        Placement { row: 1, col: 1, material: MaterialId::Methane },
        Placement { row: 0, col: 0, material: MaterialId::Water },
    ]);
    assert_eq!(material_at(&board, 0, 0), MaterialId::Water);
    assert_eq!(material_at(&board, 0, 1), MaterialId::Void);
    assert_eq!(material_at(&board, 1, 0), MaterialId::Void);
    assert_eq!(material_at(&board, 1, 1), MaterialId::Methane);
}

#[test]
fn a_tick_by_a_plan_is_repeatable() {
    let plan: Vec<Draw> = (0..120)
        .map(|i| Draw {
            side: if i % 2 == 0 { Side::Left } else { Side::Right },
            spread: (i % 7) - 3,
            axis: if i % 3 == 0 { Axis::Vertical } else { Axis::Horizontal },
            rise: (i % 5) - 2,
            drift: (i % 9) - 4,
        })
        .collect();
    let mut first = Board::create_board(12, 10).unwrap();
    let mut second = Board::create_board(12, 10).unwrap();
    for board in [&mut first, &mut second] {
        for col in 0..12 {
            board.place(0, col, if col % 2 == 0 { MaterialId::Sand } else { MaterialId::Water });
            board.place(9, col, MaterialId::Methane);
        }
        for _ in 0..30 {
            tick_with(board, 16, false, &Vec::new(), &plan);
        }
    }
    let shape = |b: &Board| -> Vec<(MaterialId, Velocity, bool)> {
        b.cells().iter().map(|p| (p.material, p.velocity, p.settled)).collect()
    };
    assert_eq!(shape(&first), shape(&second));
}

#[test]
fn a_cell_that_was_lifted_can_be_pushed_aside_in_the_same_pass() {
    let mut board = Board::create_board(2, 3).unwrap();
    board.set(0, 0, MaterialId::Sand, Velocity { x: 0, y: 2000 }).unwrap();
    board.set(1, 0, MaterialId::Water, Velocity { x: 11, y: 0 }).unwrap();
    board.set(2, 0, MaterialId::Water, Velocity { x: 22, y: 0 }).unwrap();
    put(&mut board, 0, 1, MaterialId::Sand);
    put(&mut board, 1, 1, MaterialId::Wood);
    board.sweep_with(0, &Vec::new());
    let lifted = board.get(0, 1).unwrap();
    assert_eq!(lifted.material, MaterialId::Water);
    assert_eq!(lifted.velocity, Velocity { x: 11, y: 0 });
    assert!(!lifted.settled);
    assert_eq!(material_at(&board, 0, 0), MaterialId::Sand);
    assert_eq!(material_at(&board, 1, 0), MaterialId::Water);
    assert_eq!(material_at(&board, 2, 0), MaterialId::Sand);
    assert_eq!(census(&board), [1, 2, 2, 1, 0]);
}
