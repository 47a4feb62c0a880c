//! The motion rules, as mathematics on the model of the board.
//!
//! A rule never looks a position up twice: it follows the moving cell from
//! slot to slot. A cell that has been placed for the running tick carries the
//! settled mark, and nothing trades places with a settled cell.

use vstd::prelude::*;
use crate::board::Grid;
use crate::material::{Phase, UNIT};
use crate::particle::{Particle, Velocity};

verus! {

/// What a cell gains in fall velocity over one second, in thousandths of a
/// cell per tick.
pub const GRAVITY: u32 = 9810;

/// The side that a powder may slide to.
#[derive(Clone, Copy, Debug, PartialEq, Eq, Structural)]
pub enum Side {
    Left,
    Right,
}

/// The axis that a gas diffuses along.
#[derive(Clone, Copy, Debug, PartialEq, Eq, Structural)]
pub enum Axis {
    Vertical,
    Horizontal,
}

/// The chance that one cell consumes in one tick. A powder reads `side`, a
/// liquid `spread`, a gas `axis`, `rise` and `drift`; the signs of the three
/// distances give the direction, towards larger rows and columns when positive.
#[derive(Clone, Copy, Debug, PartialEq, Eq, Structural)]
pub struct Draw {
    pub side: Side,
    pub spread: i32,
    pub axis: Axis,
    pub rise: i32,
    pub drift: i32,
}

impl Draw {
    /// The draw of a cell that chance leaves alone: it slides to the left
    /// where it can and covers no distance.
    pub open spec fn spec_calm() -> Draw {
        Draw { side: Side::Left, spread: 0, axis: Axis::Vertical, rise: 0, drift: 0 }
    }

    /// Makes the draw of a cell that chance leaves alone.
    pub fn calm() -> (d: Draw)
        ensures
            d == Self::spec_calm(),
    {
        Draw { side: Side::Left, spread: 0, axis: Axis::Vertical, rise: 0, drift: 0 }
    }

    /// The draw that the cell `p` takes from three raw draws. A powder takes
    /// its side from the first; a liquid takes the first as its spread; a gas
    /// takes its axis from the first, the second as its rise and the third as
    /// its drift. Whatever the phase does not read is calm, and so is the
    /// whole draw of a settled cell and of a cell without a motion rule.
    pub open spec fn spec_for_cell(p: Particle, first: i32, second: i32, third: i32) -> Draw {
        if p.settled {
            Self::spec_calm()
        } else {
            match p.phase() {
                Phase::Powder { .. } => Draw { side: spec_side_of(first), ..Self::spec_calm() },
                Phase::Liquid { .. } => Draw { spread: first, ..Self::spec_calm() },
                Phase::Gas { .. } => Draw {
                    axis: spec_axis_of(first),
                    rise: second,
                    drift: third,
                    ..Self::spec_calm()
                },
                _ => Self::spec_calm(),
            }
        }
    }

    /// Makes the draw that the cell `p` takes from three raw draws.
    pub fn for_cell(p: Particle, first: i32, second: i32, third: i32) -> (d: Draw)
        ensures
            d == Self::spec_for_cell(p, first, second, third),
    {
        let calm = Draw::calm();
        if p.settled {
            return calm;
        }
        match p.material.material().phase {
            Phase::Powder { .. } => Draw { side: side_of(first), ..calm },
            Phase::Liquid { .. } => Draw { spread: first, ..calm },
            Phase::Gas { .. } => Draw { axis: axis_of(first), rise: second, drift: third, ..calm },
            _ => calm,
        }
    }
}

/// Whether the three raw draws are what the engine asks of chance for the
/// cell `p` on grid `g`. For a powder the first lies between 0 and 2; for a
/// liquid the first lies between 2.3 widths to the left and one width to the
/// right; for a gas the first lies between 0 and 2, the second within one
/// height and the third within one width either way. What is not drawn is
/// zero: all three for a settled cell and for a cell without a motion rule.
pub open spec fn asked(g: Grid, p: Particle, first: i32, second: i32, third: i32) -> bool {
    if p.settled {
        first == 0 && second == 0 && third == 0
    } else {
        match p.phase() {
            Phase::Powder { .. } => 0 <= first <= 2 && second == 0 && third == 0,
            Phase::Liquid { .. } => {
                &&& -(23 * g.width / 10) <= first <= g.width
                &&& second == 0
                &&& third == 0
            },
            Phase::Gas { .. } => {
                &&& 0 <= first <= 2
                &&& -g.height <= second <= g.height
                &&& -g.width <= third <= g.width
            },
            _ => first == 0 && second == 0 && third == 0,
        }
    }
}

/// Whether `draw` is one that the engine makes on grid `g`: the spread
/// reaches at most 2.3 widths to the left and one width to the right, the rise
/// at most one height and the drift at most one width either way.
pub open spec fn in_range(g: Grid, draw: Draw) -> bool {
    &&& -(23 * g.width / 10) <= draw.spread <= g.width
    &&& -g.height <= draw.rise <= g.height
    &&& -g.width <= draw.drift <= g.width
}

/// Whether every draw of `plan` is one that the engine makes on grid `g`.
pub open spec fn all_in_range(g: Grid, plan: Seq<Draw>) -> bool {
    forall|i: int| 0 <= i < plan.len() ==> in_range(g, #[trigger] plan[i])
}

/// The draw that slot `i` consumes under `plan`: entry `i`, and the calm draw
/// where the plan has no such entry.
pub open spec fn draw_at(plan: Seq<Draw>, i: int) -> Draw {
    if 0 <= i < plan.len() {
        plan[i]
    } else {
        Draw::spec_calm()
    }
}

/// The side that a raw draw stands for: left for zero, right for all else.
pub open spec fn spec_side_of(n: i32) -> Side {
    if n == 0 {
        Side::Left
    } else {
        Side::Right
    }
}

/// The axis that a raw draw stands for: vertical for zero, horizontal for all else.
pub open spec fn spec_axis_of(n: i32) -> Axis {
    if n == 0 {
        Axis::Vertical
    } else {
        Axis::Horizontal
    }
}

/// Turns a raw draw into a side.
pub fn side_of(n: i32) -> (side: Side)
    ensures
        side == spec_side_of(n),
{
    if n == 0 {
        Side::Left
    } else {
        Side::Right
    }
}

/// Turns a raw draw into an axis.
pub fn axis_of(n: i32) -> (axis: Axis)
    ensures
        axis == spec_axis_of(n),
{
    if n == 0 {
        Axis::Vertical
    } else {
        Axis::Horizontal
    }
}

/// A direction on the board. Rows grow downwards and columns to the right.
#[derive(Clone, Copy, Debug, PartialEq, Eq, Structural)]
pub enum Heading {
    Down,
    Up,
    Left,
    Right,
}

/// The three ways to travel: the fall of powders and liquids, the sideways
/// seeping of a liquid, and the diffusion of a gas.
#[derive(Clone, Copy, Debug, PartialEq, Eq, Structural)]
pub enum Motion {
    Fall,
    Seep,
    Diffuse,
}

/// What a moving cell does about the cell it probes: trade places with it,
/// pass over it, or end the journey.
#[derive(Clone, Copy, Debug, PartialEq, Eq, Structural)]
pub enum Verdict {
    Swap,
    Pass,
    Halt,
}

/// Where a journey ended: the grid after it, the slot that the traveller is
/// in, and whether something stopped it before its reach was used up.
pub struct Trip {
    pub grid: Grid,
    pub row: int,
    pub col: int,
    pub halted: bool,
}

impl Heading {
    /// The slot `step` steps from `(row, col)` in this direction.
    pub open spec fn ahead(self, row: int, col: int, step: int) -> (int, int) {
        match self {
            Heading::Down => (row + step, col),
            Heading::Up => (row - step, col),
            Heading::Left => (row, col - step),
            Heading::Right => (row, col + step),
        }
    }

    /// How far `(row, col)` lies from `(from_row, from_col)` in this
    /// direction, if it lies on the line through that slot at all.
    pub open spec fn covered(self, from_row: int, from_col: int, row: int, col: int) -> Option<int> {
        match self {
            Heading::Down => if col == from_col {
                Some(row - from_row)
            } else {
                None
            },
            Heading::Up => if col == from_col {
                Some(from_row - row)
            } else {
                None
            },
            Heading::Left => if row == from_row {
                Some(from_col - col)
            } else {
                None
            },
            Heading::Right => if row == from_row {
                Some(col - from_col)
            } else {
                None
            },
        }
    }

    /// The direction along the rows or the columns that the sign of
    /// `distance` points in.
    pub open spec fn along(axis: Axis, distance: int) -> Heading {
        match axis {
            Axis::Vertical => if distance < 0 {
                Heading::Up
            } else {
                Heading::Down
            },
            Axis::Horizontal => if distance < 0 {
                Heading::Left
            } else {
                Heading::Right
            },
        }
    }
}

/// An empty, unsettled cell that is no denser than `mover`: the only kind
/// that a liquid or a gas moves into.
pub open spec fn opens(mover: Particle, target: Particle) -> bool {
    &&& target.phase() is Void
    &&& target.mass() <= mover.mass()
    &&& !target.settled
}

/// The verdict of `mover` on `target` under `motion`.
///
/// A solid always ends the journey. A falling cell sinks through any lighter
/// unsettled cell and is stopped by everything else. A liquid is stopped by a
/// powder that is at least as dense as itself; a gas by such a powder or
/// liquid. What neither opens nor stops is passed over.
pub open spec fn verdict(motion: Motion, mover: Particle, target: Particle) -> Verdict {
    if target.phase() is Solid {
        Verdict::Halt
    } else {
        match motion {
            Motion::Fall => if target.mass() < mover.mass() && !target.settled {
                Verdict::Swap
            } else {
                Verdict::Halt
            },
            Motion::Seep => if opens(mover, target) {
                Verdict::Swap
            } else if target.phase() is Powder && target.mass() >= mover.mass() {
                Verdict::Halt
            } else {
                Verdict::Pass
            },
            Motion::Diffuse => if opens(mover, target) {
                Verdict::Swap
            } else if (target.phase() is Powder || target.phase() is Liquid) && target.mass()
                >= mover.mass() {
                Verdict::Halt
            } else {
                Verdict::Pass
            },
        }
    }
}

/// The journey of the cell in `(row, col)`, which set out from
/// `(from_row, from_col)`, from its probe number `step` to its last, number
/// `reach`. Probe `k` looks at the slot `k` steps from where the cell set out.
/// The edge of the board ends the journey.
pub open spec fn roam(
    g: Grid,
    row: int,
    col: int,
    from_row: int,
    from_col: int,
    heading: Heading,
    motion: Motion,
    step: int,
    reach: int,
) -> Trip
    decreases reach - step + 1,
{
    if step > reach {
        Trip { grid: g, row, col, halted: false }
    } else {
        let (r, c) = heading.ahead(from_row, from_col, step);
        if !g.holds(r, c) {
            Trip { grid: g, row, col, halted: true }
        } else {
            match verdict(motion, g.cell(row, col), g.cell(r, c)) {
                Verdict::Swap => roam(
                    g.traded(g.at(row, col), g.at(r, c)),
                    r,
                    c,
                    from_row,
                    from_col,
                    heading,
                    motion,
                    step + 1,
                    reach,
                ),
                Verdict::Pass => roam(
                    g,
                    row,
                    col,
                    from_row,
                    from_col,
                    heading,
                    motion,
                    step + 1,
                    reach,
                ),
                Verdict::Halt => Trip { grid: g, row, col, halted: true },
            }
        }
    }
}

/// The journey of the cell in `(row, col)` over `reach` probes.
pub open spec fn journey(g: Grid, row: int, col: int, heading: Heading, motion: Motion, reach: int) -> Trip {
    roam(g, row, col, row, col, heading, motion, 1, reach)
}

/// The fall velocity gained over `dt` milliseconds, rounded down.
pub open spec fn gain(dt: u32) -> int {
    GRAVITY * dt / (UNIT as int)
}

/// The number of rows that a cell with fall velocity `speed` may drop in one
/// tick: one more than the whole cells in `speed`, and none while `speed` points up.
pub open spec fn fall_reach(speed: int) -> int {
    if speed < 0 {
        0
    } else {
        speed / (UNIT as int) + 1
    }
}

/// The fall velocity that the cell from row `row` has after the fall `trip`
/// which it began at `speed`: the rows it dropped, if it was stopped, and
/// `speed` itself, if it was not.
pub open spec fn landing_speed(trip: Trip, row: int, speed: int) -> int {
    if trip.halted {
        (trip.row - row) * UNIT
    } else {
        speed
    }
}

/// The fall of the cell in `(row, col)` over `dt` milliseconds.
///
/// The cell gains velocity, then drops row by row through lighter unsettled
/// cells, each of which rises one row. Where the floor or a cell that does not
/// yield stops it, its fall velocity becomes the distance it dropped in this
/// tick, and a solid that stopped it is left unsettled.
pub open spec fn fallen(g: Grid, row: int, col: int, dt: u32) -> Trip {
    let speed = g.cell(row, col).velocity.y + gain(dt);
    let trip = journey(g, row, col, Heading::Down, Motion::Fall, fall_reach(speed));
    let landed = trip.grid.cell(trip.row, trip.col);
    let y = landing_speed(trip, row, speed);
    let slowed = trip.grid.filled(
        trip.grid.at(trip.row, trip.col),
        Particle { velocity: Velocity { x: landed.velocity.x, y: y as i64 }, ..landed },
    );
    let below = slowed.cell(trip.row + 1, trip.col);
    let grid = if trip.halted && slowed.holds(trip.row + 1, trip.col) && below.phase() is Solid {
        slowed.filled(slowed.at(trip.row + 1, trip.col), Particle { settled: false, ..below })
    } else {
        slowed
    };
    Trip { grid, ..trip }
}

/// Whether the cell in `(row, col)` rests: the floor or a cell that does not
/// yield to it lies right under it.
pub open spec fn rests(g: Grid, row: int, col: int) -> bool {
    !g.holds(row + 1, col) || verdict(Motion::Fall, g.cell(row, col), g.cell(row + 1, col))
        is Halt
}

/// The column next to `col` on `side`.
pub open spec fn beside(col: int, side: Side) -> int {
    match side {
        Side::Left => col - 1,
        Side::Right => col + 1,
    }
}

/// Whether `target` makes way for the sliding powder `mover`: it is lighter
/// and not a solid.
pub open spec fn gives_way(mover: Particle, target: Particle) -> bool {
    target.mass() < mover.mass() && !(target.phase() is Solid)
}

/// Whether the powder in `(row, col)` slides one column to `side`.
///
/// Four times its coarseness must reach the entropy of its slot. The
/// neighbouring slot and the slot beneath the neighbour must both be on the
/// board and give way, so that the next fall takes the powder diagonally
/// down, and the neighbour must not be settled.
pub open spec fn slides(g: Grid, row: int, col: int, side: Side) -> bool {
    let mover = g.cell(row, col);
    let to = beside(col, side);
    &&& 4 * mover.phase().coarseness() >= mover.entropy
    &&& g.holds(row + 1, to)
    &&& gives_way(mover, g.cell(row, to))
    &&& !g.cell(row, to).settled
    &&& gives_way(mover, g.cell(row + 1, to))
}

/// The grid with the cell in `(row, col)` marked as settled.
pub open spec fn settle(g: Grid, row: int, col: int) -> Grid {
    g.filled(g.at(row, col), Particle { settled: true, ..g.cell(row, col) })
}

/// One tick of the powder in `(row, col)`: it falls, slides to `side` if it
/// can, and is settled where it ends. The trip names that slot, and says
/// whether the fall was stopped.
pub open spec fn powder_step(g: Grid, row: int, col: int, dt: u32, side: Side) -> Trip {
    let trip = fallen(g, row, col, dt);
    if slides(trip.grid, trip.row, trip.col, side) {
        let to = beside(trip.col, side);
        let slid = trip.grid.traded(trip.grid.at(trip.row, trip.col), trip.grid.at(trip.row, to));
        Trip { grid: settle(slid, trip.row, to), col: to, ..trip }
    } else {
        Trip { grid: settle(trip.grid, trip.row, trip.col), ..trip }
    }
}

/// The distance that a draw of `draw` cells becomes at `viscosity`, in
/// thousandths of a cell: the draw divided by the viscosity, without its sign.
pub open spec fn stride(draw: i32, viscosity: u32) -> int {
    let cells = if draw < 0 {
        -draw
    } else {
        draw as int
    };
    cells * UNIT * UNIT / (viscosity as int)
}

/// `stride` with the sign of `draw`.
pub open spec fn signed_stride(draw: i32, viscosity: u32) -> int {
    if draw < 0 {
        -stride(draw, viscosity)
    } else {
        stride(draw, viscosity)
    }
}

/// One tick of the liquid in `(row, col)`: it falls, then seeps along its row
/// as many whole cells as `spread` gives at its viscosity, and is settled
/// where it ends. Its sideways velocity records the signed distance. The trip
/// names the slot it ends in, and says whether the seeping was stopped.
pub open spec fn liquid_step(g: Grid, row: int, col: int, dt: u32, spread: i32) -> Trip {
    let trip = fallen(g, row, col, dt);
    let mover = trip.grid.cell(trip.row, trip.col);
    let viscosity = mover.phase().viscosity();
    let pushed = trip.grid.filled(
        trip.grid.at(trip.row, trip.col),
        Particle {
            velocity: Velocity { x: signed_stride(spread, viscosity) as i64, y: mover.velocity.y },
            ..mover
        },
    );
    let walk = journey(
        pushed,
        trip.row,
        trip.col,
        Heading::along(Axis::Horizontal, spread as int),
        Motion::Seep,
        stride(spread, viscosity) / (UNIT as int),
    );
    Trip { grid: settle(walk.grid, walk.row, walk.col), ..walk }
}

/// One tick of the gas in `(row, col)`: it takes both distances as its
/// velocity, diffuses along `axis` only, as many whole cells as the distance
/// on that axis gives, and is settled where it ends. The trip names that
/// slot, and says whether the diffusion was stopped.
pub open spec fn gas_step(g: Grid, row: int, col: int, axis: Axis, rise: i32, drift: i32) -> Trip {
    let mover = g.cell(row, col);
    let viscosity = mover.phase().viscosity();
    let pushed = g.filled(
        g.at(row, col),
        Particle {
            velocity: Velocity {
                x: signed_stride(drift, viscosity) as i64,
                y: signed_stride(rise, viscosity) as i64,
            },
            ..mover
        },
    );
    let distance = match axis {
        Axis::Vertical => rise,
        Axis::Horizontal => drift,
    };
    let walk = journey(
        pushed,
        row,
        col,
        Heading::along(axis, distance as int),
        Motion::Diffuse,
        stride(distance, viscosity) / (UNIT as int),
    );
    Trip { grid: settle(walk.grid, walk.row, walk.col), ..walk }
}

/// Whether the cell `p` moves when its turn comes: it is not settled, it has
/// mass, and its phase has a motion rule.
pub open spec fn mobile(p: Particle) -> bool {
    &&& !p.settled
    &&& p.mass() != 0
    &&& (p.phase() is Powder || p.phase() is Liquid || p.phase() is Gas)
}

/// One tick of the cell in `(row, col)`, with the slot it ends in. A settled
/// cell and a cell without mass are skipped; void, solid and plasma have no
/// motion. What does not move stays unmarked where it is.
pub open spec fn advance(g: Grid, row: int, col: int, dt: u32, draw: Draw) -> Trip {
    let p = g.cell(row, col);
    if !mobile(p) {
        Trip { grid: g, row, col, halted: false }
    } else {
        match p.phase() {
            Phase::Powder { .. } => powder_step(g, row, col, dt, draw.side),
            Phase::Liquid { .. } => liquid_step(g, row, col, dt, draw.spread),
            _ => gas_step(g, row, col, draw.axis, draw.rise, draw.drift),
        }
    }
}

/// The grid after one tick of the cell in `(row, col)`.
pub open spec fn solve(g: Grid, row: int, col: int, dt: u32, draw: Draw) -> Grid {
    advance(g, row, col, dt, draw).grid
}

/// The grid with no cell settled, as it is when a tick begins.
pub open spec fn unsettled(g: Grid) -> Grid {
    g.with_cells(Seq::new(g.cells.len(), |i: int| Particle { settled: false, ..g.cells[i] }))
}

/// The grid after a pass has begun and dealt with the first `count` slots,
/// top row first and each row from the left; slot `i` consumes
/// `draw_at(plan, i)`.
pub open spec fn swept(g: Grid, dt: u32, plan: Seq<Draw>, count: nat) -> Grid
    decreases count,
{
    if count == 0 {
        unsettled(g)
    } else {
        let i = count - 1;
        solve(
            swept(g, dt, plan, i as nat),
            i / (g.width as int),
            i % (g.width as int),
            dt,
            draw_at(plan, i),
        )
    }
}

/// One pass of the engine over the whole board.
pub open spec fn sweep(g: Grid, dt: u32, plan: Seq<Draw>) -> Grid {
    swept(g, dt, plan, g.cells.len())
}

} // verus!
