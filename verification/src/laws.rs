//! The laws of the simulation, stated on the model and proved from the rules.

use vstd::prelude::*;
use crate::board::Grid;
use crate::driver::{ticked, ticked_on, Frame};
use crate::journeys::{lemma_fallen_kept, lemma_rest_stops, lemma_roam_kept, lemma_roam_on_line};
use crate::kept::{
    conserved, kept, lemma_conserved_trans, lemma_filled_kept, lemma_kept_trans,
    lemma_settle_kept, lemma_traded_frame, lemma_traded_kept, lemma_unsettled_conserved, loose,
    same_frame,
};
use crate::material::UNIT;
use crate::particle::{Particle, Velocity};
use crate::placement::{placed_all, Placement};
use crate::rules::{
    advance, beside, draw_at, fallen, gain, gas_step, journey, liquid_step, mobile, powder_step,
    rests, settle, signed_stride, slides, solve, stride, sweep, swept, unsettled, Axis, Draw,
    Heading, Motion, Side,
};

verus! {

/// The step of a powder keeps the grid and leaves the powder settled in the
/// slot that the trip names.
pub proof fn lemma_powder_kept(g: Grid, row: int, col: int, dt: u32, side: Side)
    requires
        g.wf(),
        g.holds(row, col),
        loose(g.cell(row, col)),
    ensures
        ({
            let trip = powder_step(g, row, col, dt, side);
            &&& kept(g, trip.grid)
            &&& trip.grid.wf()
            &&& trip.grid.holds(trip.row, trip.col)
            &&& trip.grid.cell(trip.row, trip.col).settled
            &&& trip.grid.cell(trip.row, trip.col).material == g.cell(row, col).material
        }),
{
    let trip = fallen(g, row, col, dt);
    lemma_fallen_kept(g, row, col, dt);
    if slides(trip.grid, trip.row, trip.col, side) {
        let to = beside(trip.col, side);
        trip.grid.lemma_at_in_range(trip.row, trip.col);
        trip.grid.lemma_at_in_range(trip.row, to);
        let a = trip.grid.at(trip.row, trip.col);
        let b = trip.grid.at(trip.row, to);
        let slid = trip.grid.traded(a, b);
        lemma_traded_kept(trip.grid, a, b);
        lemma_traded_frame(trip.grid, a, b);
        lemma_settle_kept(slid, trip.row, to);
        lemma_kept_trans(g, trip.grid, slid);
        lemma_kept_trans(g, slid, settle(slid, trip.row, to));
    } else {
        lemma_settle_kept(trip.grid, trip.row, trip.col);
        lemma_kept_trans(g, trip.grid, settle(trip.grid, trip.row, trip.col));
    }
}

/// The step of a liquid keeps the grid and leaves the liquid settled in the
/// slot that the trip names.
pub proof fn lemma_liquid_kept(g: Grid, row: int, col: int, dt: u32, spread: i32)
    requires
        g.wf(),
        g.holds(row, col),
        loose(g.cell(row, col)),
    ensures
        ({
            let trip = liquid_step(g, row, col, dt, spread);
            &&& kept(g, trip.grid)
            &&& trip.grid.wf()
            &&& trip.grid.holds(trip.row, trip.col)
            &&& trip.grid.cell(trip.row, trip.col).settled
            &&& trip.grid.cell(trip.row, trip.col).material == g.cell(row, col).material
        }),
{
    let trip = fallen(g, row, col, dt);
    lemma_fallen_kept(g, row, col, dt);
    trip.grid.lemma_at_in_range(trip.row, trip.col);
    let at = trip.grid.at(trip.row, trip.col);
    let mover = trip.grid.cell(trip.row, trip.col);
    let viscosity = mover.phase().viscosity();
    let moving = Particle {
        velocity: Velocity { x: signed_stride(spread, viscosity) as i64, y: mover.velocity.y },
        ..mover
    };
    let pushed = trip.grid.filled(at, moving);
    lemma_filled_kept(trip.grid, at, moving);
    lemma_kept_trans(g, trip.grid, pushed);
    let heading = Heading::along(Axis::Horizontal, spread as int);
    let reach = stride(spread, viscosity) / (UNIT as int);
    let walk = journey(pushed, trip.row, trip.col, heading, Motion::Seep, reach);
    lemma_roam_kept(pushed, trip.row, trip.col, trip.row, trip.col, heading, Motion::Seep, 1, reach);
    lemma_kept_trans(g, pushed, walk.grid);
    lemma_settle_kept(walk.grid, walk.row, walk.col);
    lemma_kept_trans(g, walk.grid, settle(walk.grid, walk.row, walk.col));
}

/// The step of a gas keeps the grid and leaves the gas settled in the slot
/// that the trip names.
pub proof fn lemma_gas_kept(g: Grid, row: int, col: int, axis: Axis, rise: i32, drift: i32)
    requires
        g.wf(),
        g.holds(row, col),
        loose(g.cell(row, col)),
    ensures
        ({
            let trip = gas_step(g, row, col, axis, rise, drift);
            &&& kept(g, trip.grid)
            &&& trip.grid.wf()
            &&& trip.grid.holds(trip.row, trip.col)
            &&& trip.grid.cell(trip.row, trip.col).settled
            &&& trip.grid.cell(trip.row, trip.col).material == g.cell(row, col).material
        }),
{
    g.lemma_at_in_range(row, col);
    let at = g.at(row, col);
    let mover = g.cell(row, col);
    let viscosity = mover.phase().viscosity();
    let moving = Particle {
        velocity: Velocity {
            x: signed_stride(drift, viscosity) as i64,
            y: signed_stride(rise, viscosity) as i64,
        },
        ..mover
    };
    let pushed = g.filled(at, moving);
    lemma_filled_kept(g, at, moving);
    let distance = match axis {
        Axis::Vertical => rise,
        Axis::Horizontal => drift,
    };
    let heading = Heading::along(axis, distance as int);
    let reach = stride(distance, viscosity) / (UNIT as int);
    let walk = journey(pushed, row, col, heading, Motion::Diffuse, reach);
    lemma_roam_kept(pushed, row, col, row, col, heading, Motion::Diffuse, 1, reach);
    lemma_kept_trans(g, pushed, walk.grid);
    lemma_settle_kept(walk.grid, walk.row, walk.col);
    lemma_kept_trans(g, walk.grid, settle(walk.grid, walk.row, walk.col));
}

/// The turn of one cell keeps the grid: the frame, the solids, the count of
/// each material, and whatever was settled before. A cell that moves by a
/// rule ends settled, with its material, in the slot that the trip names; no
/// other cell gains the mark.
pub proof fn lemma_advance_kept(g: Grid, row: int, col: int, dt: u32, draw: Draw)
    requires
        g.wf(),
        g.holds(row, col),
    ensures
        ({
            let trip = advance(g, row, col, dt, draw);
            &&& kept(g, trip.grid)
            &&& trip.grid.wf()
            &&& trip.grid.holds(trip.row, trip.col)
            &&& trip.grid.cell(trip.row, trip.col).material == g.cell(row, col).material
            &&& mobile(g.cell(row, col)) ==> trip.grid.cell(trip.row, trip.col).settled
        }),
{
    let p = g.cell(row, col);
    if mobile(p) {
        if p.phase() is Powder {
            lemma_powder_kept(g, row, col, dt, draw.side);
        } else if p.phase() is Liquid {
            lemma_liquid_kept(g, row, col, dt, draw.spread);
        } else {
            lemma_gas_kept(g, row, col, draw.axis, draw.rise, draw.drift);
        }
    }
}

/// Floor containment. A powder or a liquid that has its turn ends on the
/// board, in a row no higher than before, and its fall velocity does not
/// point up unless it did before. If the floor or a cell that does not yield
/// lies right under it when its turn comes, and its fall velocity does not
/// point up after the gain of the tick, it stays in its row and ends with no
/// fall velocity at all.
pub proof fn lemma_floor_contains(g: Grid, row: int, col: int, dt: u32, draw: Draw)
    requires
        g.wf(),
        g.holds(row, col),
        mobile(g.cell(row, col)),
        g.cell(row, col).phase() is Powder || g.cell(row, col).phase() is Liquid,
    ensures
        ({
            let trip = advance(g, row, col, dt, draw);
            &&& row <= trip.row < g.height
            &&& 0 <= trip.col < g.width
            &&& g.cell(row, col).velocity.y >= 0 ==> trip.grid.cell(trip.row, trip.col).velocity.y
                >= 0
            &&& rests(g, row, col) && g.cell(row, col).velocity.y + gain(dt) >= 0 ==> {
                &&& trip.row == row
                &&& trip.grid.cell(trip.row, trip.col).velocity.y == 0
            }
        }),
{
    let fall = fallen(g, row, col, dt);
    lemma_fallen_kept(g, row, col, dt);
    let resting = rests(g, row, col) && g.cell(row, col).velocity.y + gain(dt) >= 0;
    if resting {
        lemma_rest_stops(g, row, col, dt);
    }
    fall.grid.lemma_at_in_range(fall.row, fall.col);
    if g.cell(row, col).phase() is Powder {
        if slides(fall.grid, fall.row, fall.col, draw.side) {
            let to = beside(fall.col, draw.side);
            fall.grid.lemma_at_in_range(fall.row, to);
            let a = fall.grid.at(fall.row, fall.col);
            let b = fall.grid.at(fall.row, to);
            lemma_traded_frame(fall.grid, a, b);
            lemma_settle_kept(fall.grid.traded(a, b), fall.row, to);
        } else {
            lemma_settle_kept(fall.grid, fall.row, fall.col);
        }
    } else {
        let at = fall.grid.at(fall.row, fall.col);
        let mover = fall.grid.cell(fall.row, fall.col);
        let viscosity = mover.phase().viscosity();
        let moving = Particle {
            velocity: Velocity { x: signed_stride(draw.spread, viscosity) as i64, y: mover.velocity.y },
            ..mover
        };
        let pushed = fall.grid.filled(at, moving);
        lemma_filled_kept(fall.grid, at, moving);
        let heading = Heading::along(Axis::Horizontal, draw.spread as int);
        let reach = stride(draw.spread, viscosity) / (UNIT as int);
        let walk = journey(pushed, fall.row, fall.col, heading, Motion::Seep, reach);
        lemma_roam_kept(pushed, fall.row, fall.col, fall.row, fall.col, heading, Motion::Seep, 1, reach);
        lemma_roam_on_line(pushed, fall.row, fall.col, fall.row, fall.col, heading, Motion::Seep, 1, reach);
        lemma_settle_kept(walk.grid, walk.row, walk.col);
    }
}

/// A pass over the first `count` slots reads no more of the plan than what
/// those slots consume.
pub proof fn lemma_swept_prefix(g: Grid, dt: u32, first: Seq<Draw>, second: Seq<Draw>, count: nat)
    requires
        forall|i: int| 0 <= i < count ==> draw_at(first, i) == draw_at(second, i),
    ensures
        swept(g, dt, first, count) == swept(g, dt, second, count),
    decreases count,
{
    if count > 0 {
        lemma_swept_prefix(g, dt, first, second, (count - 1) as nat);
    }
}

/// Between two stages of one pass the grid is kept: whatever is settled at
/// the earlier stage lies untouched at the later one. At no stage is a solid
/// settled.
pub proof fn lemma_swept_kept(g: Grid, dt: u32, plan: Seq<Draw>, earlier: nat, later: nat)
    requires
        g.wf(),
        earlier <= later <= g.cells.len(),
    ensures
        kept(swept(g, dt, plan, earlier), swept(g, dt, plan, later)),
        swept(g, dt, plan, later).wf(),
        same_frame(g, swept(g, dt, plan, later)),
        forall|i: int|
            0 <= i < g.cells.len() && (#[trigger] swept(g, dt, plan, later).cells[i]).settled ==> !(
            swept(g, dt, plan, later).cells[i].phase() is Solid),
    decreases later,
{
    if later == 0 {
        lemma_unsettled_conserved(g);
    } else {
        let i = (later - 1) as nat;
        let before = swept(g, dt, plan, i);
        let after = swept(g, dt, plan, later);
        if earlier == later {
            lemma_swept_kept(g, dt, plan, i, i);
        } else {
            lemma_swept_kept(g, dt, plan, earlier, i);
        }
        assert(before.width == g.width);
        before.lemma_slot_of_index(i as int);
        let row = i as int / (g.width as int);
        let col = i as int % (g.width as int);
        lemma_advance_kept(before, row, col, dt, draw_at(plan, i as int));
        assert(after == solve(before, row, col, dt, draw_at(plan, i as int)));
        assert forall|j: int|
            0 <= j < g.cells.len() && (#[trigger] after.cells[j]).settled implies !(
        after.cells[j].phase() is Solid) by {
            if after.cells[j].phase() is Solid {
                assert(before.cells[j].settled);
            }
        }
        assert forall|j: int| 0 <= j < g.cells.len() implies (#[trigger] after.cells[j]).entropy
            == g.cells[j].entropy by {
            assert(before.cells[j].entropy == g.cells[j].entropy);
        }
        if earlier < later {
            lemma_kept_trans(swept(g, dt, plan, earlier), before, after);
        }
    }
}

/// Within one pass, a slot whose content is settled at one stage holds the
/// same content, untouched, at every later stage.
pub proof fn lemma_settled_stays(g: Grid, dt: u32, plan: Seq<Draw>, earlier: nat, later: nat, slot: int)
    requires
        g.wf(),
        earlier <= later <= g.cells.len(),
        0 <= slot < g.cells.len(),
        swept(g, dt, plan, earlier).cells[slot].settled,
    ensures
        swept(g, dt, plan, later).cells[slot] == swept(g, dt, plan, earlier).cells[slot],
{
    lemma_swept_kept(g, dt, plan, earlier, earlier);
    lemma_swept_kept(g, dt, plan, earlier, later);
}

/// No double move. In one pass the turn of slot `turn` moves nothing unless
/// the cell there is mobile. A mobile cell is taken to the slot that its trip
/// names and settled there, and lies there untouched at every later stage of
/// the pass: when the turn of that slot comes, the cell is settled and does
/// not move again.
pub proof fn lemma_one_move_per_pass(g: Grid, dt: u32, plan: Seq<Draw>, turn: nat, later: nat)
    requires
        g.wf(),
        turn < later <= g.cells.len(),
    ensures
        ({
            let before = swept(g, dt, plan, turn);
            let after = swept(g, dt, plan, (turn + 1) as nat);
            let row = turn as int / (g.width as int);
            let col = turn as int % (g.width as int);
            let trip = advance(before, row, col, dt, draw_at(plan, turn as int));
            &&& before.cell(row, col) == before.cells[turn as int]
            &&& after == trip.grid
            &&& !mobile(before.cells[turn as int]) ==> after == before
            &&& mobile(before.cells[turn as int]) ==> {
                &&& after.holds(trip.row, trip.col)
                &&& after.cell(trip.row, trip.col).settled
                &&& after.cell(trip.row, trip.col).material == before.cells[turn as int].material
                &&& swept(g, dt, plan, later).cell(trip.row, trip.col) == after.cell(
                    trip.row,
                    trip.col,
                )
            }
        }),
{
    let before = swept(g, dt, plan, turn);
    let after = swept(g, dt, plan, (turn + 1) as nat);
    let row = turn as int / (g.width as int);
    let col = turn as int % (g.width as int);
    lemma_swept_kept(g, dt, plan, turn, turn);
    before.lemma_slot_of_index(turn as int);
    lemma_advance_kept(before, row, col, dt, draw_at(plan, turn as int));
    let trip = advance(before, row, col, dt, draw_at(plan, turn as int));
    if mobile(before.cells[turn as int]) {
        after.lemma_at_in_range(trip.row, trip.col);
        lemma_settled_stays(g, dt, plan, (turn + 1) as nat, later, after.at(trip.row, trip.col));
        lemma_swept_kept(g, dt, plan, 0, later);
    }
}

/// One pass conserves the grid: the frame is the same, the solids are where
/// they were, and each material occurs as often as before.
pub proof fn lemma_sweep_conserved(g: Grid, dt: u32, plan: Seq<Draw>)
    requires
        g.wf(),
    ensures
        conserved(g, sweep(g, dt, plan)),
        sweep(g, dt, plan).wf(),
{
    lemma_unsettled_conserved(g);
    lemma_swept_kept(g, dt, plan, 0, g.cells.len());
    lemma_conserved_trans(g, unsettled(g), sweep(g, dt, plan));
}

/// A tick without placements conserves the grid, paused or not.
pub proof fn lemma_tick_conserves(g: Grid, dt: u32, paused: bool, plan: Seq<Draw>, requests: Seq<Placement>)
    requires
        g.wf(),
        requests.len() == 0,
    ensures
        conserved(g, ticked(g, dt, paused, plan, requests)),
        ticked(g, dt, paused, plan, requests).wf(),
{
    if !paused {
        lemma_sweep_conserved(g, dt, plan);
    }
}

/// Conservation and solid immobility. Any number of ticks without placements
/// conserve the grid: the frame is the same, every slot that held a solid
/// holds the same material with the same velocity, and each material occurs
/// as often as at the start.
pub proof fn lemma_ticks_conserve(g: Grid, frames: Seq<Frame>, count: nat)
    requires
        g.wf(),
    ensures
        conserved(g, ticked_on(g, frames, count)),
        ticked_on(g, frames, count).wf(),
    decreases count,
{
    if count > 0 {
        let before = ticked_on(g, frames, (count - 1) as nat);
        let frame = frames[count - 1];
        lemma_ticks_conserve(g, frames, (count - 1) as nat);
        lemma_tick_conserves(before, frame.dt, frame.paused, frame.plan, Seq::empty());
        lemma_conserved_trans(g, before, ticked_on(g, frames, count));
    }
}

/// A paused tick does nothing but place what is asked for.
pub proof fn lemma_paused_tick_only_places(g: Grid, dt: u32, plan: Seq<Draw>, requests: Seq<Placement>)
    ensures
        ticked(g, dt, true, plan, requests) == placed_all(g, requests),
        requests.len() == 0 ==> ticked(g, dt, true, plan, requests) == g,
{
}

/// Idle pause. Any number of paused ticks without placements leave the grid
/// exactly as it was.
pub proof fn lemma_paused_ticks_are_idle(g: Grid, frames: Seq<Frame>, count: nat)
    requires
        forall|i: int| 0 <= i < count ==> (#[trigger] frames[i]).paused,
    ensures
        ticked_on(g, frames, count) == g,
    decreases count,
{
    if count > 0 {
        lemma_paused_ticks_are_idle(g, frames, (count - 1) as nat);
        let frame = frames[count - 1];
        lemma_paused_tick_only_places(g, frame.dt, frame.plan, Seq::empty());
    }
}

} // verus!
