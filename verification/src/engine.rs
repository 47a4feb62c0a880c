//! The engine: the motion rules carried out on the board.

use vstd::prelude::*;
use crate::board::{Board, BoardError};
use crate::chance::draw_between;
use crate::material::{Material, Phase};
use crate::particle::{Particle, Velocity};
use crate::journeys::{lemma_fall_rows, lemma_fallen_kept, lemma_landing_speed_fits};
use crate::kept::{conserved, kept};
use crate::laws::{lemma_advance_kept, lemma_sweep_conserved, lemma_swept_prefix};
use crate::rules;
use crate::rules::{Axis, Draw, Heading, Motion, Side, Verdict, GRAVITY};

verus! {

/// Decides what `mover` does about `target` under `motion`.
pub fn judge(motion: Motion, mover: Particle, target: Particle) -> (v: Verdict)
    ensures
        v == rules::verdict(motion, mover, target),
{
    let own = mover.material.material();
    let other = target.material.material();
    if let Phase::Solid { .. } = other.phase {
        return Verdict::Halt;
    }
    let opens = match other.phase {
        Phase::Void => other.mass <= own.mass && !target.settled,
        _ => false,
    };
    match motion {
        Motion::Fall => {
            if other.mass < own.mass && !target.settled {
                Verdict::Swap
            } else {
                Verdict::Halt
            }
        },
        Motion::Seep => {
            if opens {
                Verdict::Swap
            } else {
                match other.phase {
                    Phase::Powder { .. } => if other.mass >= own.mass {
                        Verdict::Halt
                    } else {
                        Verdict::Pass
                    },
                    _ => Verdict::Pass,
                }
            }
        },
        Motion::Diffuse => {
            if opens {
                Verdict::Swap
            } else {
                match other.phase {
                    Phase::Powder { .. } | Phase::Liquid { .. } => if other.mass >= own.mass {
                        Verdict::Halt
                    } else {
                        Verdict::Pass
                    },
                    _ => Verdict::Pass,
                }
            }
        },
    }
}

/// The slot `step` steps from `(row, col)` in direction `heading`, if the
/// board of `width` by `height` has it.
fn ahead(heading: Heading, row: usize, col: usize, step: u64, width: usize, height: usize) -> (found:
    Option<(usize, usize)>)
    requires
        row < height <= u16::MAX,
        col < width <= u16::MAX,
    ensures
        ({
            let (r, c) = heading.ahead(row as int, col as int, step as int);
            &&& found is Some <==> 0 <= r < height && 0 <= c < width
            &&& found matches Some(at) ==> at.0 == r && at.1 == c
        }),
{
    match heading {
        Heading::Down => if step < (height - row) as u64 {
            Some((row + step as usize, col))
        } else {
            None
        },
        Heading::Up => if step <= row as u64 {
            Some((row - step as usize, col))
        } else {
            None
        },
        Heading::Left => if step <= col as u64 {
            Some((row, col - step as usize))
        } else {
            None
        },
        Heading::Right => if step < (width - col) as u64 {
            Some((row, col + step as usize))
        } else {
            None
        },
    }
}

/// The distance that a draw of `draw` cells becomes at `viscosity`, in
/// thousandths of a cell and without its sign.
fn stride(draw: i32, viscosity: u32) -> (m: u64)
    requires
        viscosity > 0,
    ensures
        m == rules::stride(draw, viscosity),
        m <= 0x8000_0000 * 1_000_000,
{
    let cells: u64 = if draw < 0 {
        (-(draw as i64)) as u64
    } else {
        draw as u64
    };
    assert(cells * 1000 * 1000 == cells * 1_000_000);
    cells * 1_000_000 / (viscosity as u64)
}

/// `stride` with the sign of `draw`.
fn signed_stride(draw: i32, viscosity: u32) -> (v: i64)
    requires
        viscosity > 0,
    ensures
        v == rules::signed_stride(draw, viscosity),
{
    let m = stride(draw, viscosity);
    if draw < 0 {
        -(m as i64)
    } else {
        m as i64
    }
}

/// The direction along `axis` that the sign of `distance` points in.
fn along(axis: Axis, distance: i32) -> (heading: Heading)
    ensures
        heading == Heading::along(axis, distance as int),
{
    match axis {
        Axis::Vertical => if distance < 0 {
            Heading::Up
        } else {
            Heading::Down
        },
        Axis::Horizontal => if distance < 0 {
            Heading::Left
        } else {
            Heading::Right
        },
    }
}

/// Whether `target` makes way for a sliding powder of material `own`.
fn gives_way(own: &Material, target: Particle) -> (yes: bool)
    ensures
        yes == (target.mass() < own.mass && !(target.phase() is Solid)),
{
    let other = target.material.material();
    match other.phase {
        Phase::Solid { .. } => false,
        _ => other.mass < own.mass,
    }
}

impl Board {
    /// Sends the cell in `(row, col)` on a journey of at most `reach` probes
    /// and returns the slot it ends in and whether it was stopped.
    fn journey(&mut self, row: usize, col: usize, heading: Heading, motion: Motion, reach: u64) -> (end:
        (usize, usize, bool))
        requires
            old(self).wf(),
            old(self)@.holds(row as int, col as int),
        ensures
            final(self).wf(),
            final(self)@.holds(end.0 as int, end.1 as int),
            final(self)@.width == old(self)@.width,
            final(self)@.height == old(self)@.height,
            ({
                let trip = rules::journey(old(self)@, row as int, col as int, heading, motion, reach as int);
                &&& final(self)@ == trip.grid
                &&& end.0 == trip.row
                &&& end.1 == trip.col
                &&& end.2 == trip.halted
            }),
    {
        let width = self.get_width() as usize;
        let height = self.get_height() as usize;
        let mut at_row = row;
        let mut at_col = col;
        let mut step: u64 = 1;
        let mut halted = false;
        while step <= reach && !halted
            invariant
                self.wf(),
                self@.width == width == old(self)@.width,
                self@.height == height == old(self)@.height,
                self@.holds(at_row as int, at_col as int),
                old(self)@.holds(row as int, col as int),
                1 <= step <= 0x10000,
                !halted ==> rules::roam(
                    self@,
                    at_row as int,
                    at_col as int,
                    row as int,
                    col as int,
                    heading,
                    motion,
                    step as int,
                    reach as int,
                ) == rules::journey(old(self)@, row as int, col as int, heading, motion, reach as int),
                halted ==> rules::journey(old(self)@, row as int, col as int, heading, motion, reach as int)
                    == (rules::Trip { grid: self@, row: at_row as int, col: at_col as int, halted: true }),
            decreases
                    (if halted {
                        0
                    } else {
                        reach - step + 1
                    }),
        {
            match ahead(heading, row, col, step, width, height) {
                None => {
                    halted = true;
                },
                Some((r, c)) => {
                    let from = self.slot(at_row, at_col);
                    let to = self.slot(r, c);
                    match judge(motion, self.peek(from), self.peek(to)) {
                        Verdict::Swap => {
                            self.trade(from, to);
                            at_row = r;
                            at_col = c;
                            step = step + 1;
                        },
                        Verdict::Pass => {
                            step = step + 1;
                        },
                        Verdict::Halt => {
                            halted = true;
                        },
                    }
                },
            }
        }
        (at_row, at_col, halted)
    }

    /// Marks the content of `(row, col)` as settled.
    fn settle(&mut self, row: usize, col: usize)
        requires
            old(self).wf(),
            old(self)@.holds(row as int, col as int),
        ensures
            final(self).wf(),
            final(self)@ == rules::settle(old(self)@, row as int, col as int),
    {
        let i = self.slot(row, col);
        let p = self.peek(i);
        self.put(i, Particle { settled: true, ..p });
    }

    /// Lets the cell in `(row, col)` fall for `dt` milliseconds and returns
    /// the slot it lands in and whether it was stopped.
    fn fall(&mut self, row: usize, col: usize, dt: u32) -> (end: (usize, usize, bool))
        requires
            old(self).wf(),
            old(self)@.holds(row as int, col as int),
        ensures
            final(self).wf(),
            final(self)@.holds(end.0 as int, end.1 as int),
            final(self)@.width == old(self)@.width,
            final(self)@.height == old(self)@.height,
            ({
                let trip = rules::fallen(old(self)@, row as int, col as int, dt);
                &&& final(self)@ == trip.grid
                &&& end.0 == trip.row
                &&& end.1 == trip.col
                &&& end.2 == trip.halted
            }),
    {
        let height = self.get_height() as usize;
        let start = self.slot(row, col);
        let gain: u64 = (GRAVITY as u64) * (dt as u64) / 1000;
        let speed: i128 = self.peek(start).velocity.y as i128 + gain as i128;
        let reach: u64 = if speed < 0 {
            0
        } else {
            (speed / 1000 + 1) as u64
        };
        proof {
            lemma_fall_rows(old(self)@, row as int, col as int, row as int, 1, reach as int);
            lemma_landing_speed_fits(old(self)@, row as int, col as int, dt);
        }
        let (at_row, at_col, halted) = self.journey(row, col, Heading::Down, Motion::Fall, reach);
        let y: i64 = if halted {
            ((at_row - row) as i64) * 1000
        } else {
            speed as i64
        };
        let landing = self.slot(at_row, at_col);
        let landed = self.peek(landing);
        self.put(landing, Particle { velocity: Velocity { x: landed.velocity.x, y }, ..landed });
        if halted && at_row + 1 < height {
            let under = self.slot(at_row + 1, at_col);
            let below = self.peek(under);
            if let Phase::Solid { .. } = below.material.material().phase {
                self.put(under, Particle { settled: false, ..below });
            }
        }
        (at_row, at_col, halted)
    }

    /// One tick of the powder in `(row, col)`; returns the slot it ends in.
    fn powder(&mut self, row: usize, col: usize, dt: u32, side: Side) -> (end: (usize, usize))
        requires
            old(self).wf(),
            old(self)@.holds(row as int, col as int),
        ensures
            final(self).wf(),
            ({
                let trip = rules::powder_step(old(self)@, row as int, col as int, dt, side);
                &&& final(self)@ == trip.grid
                &&& end.0 == trip.row
                &&& end.1 == trip.col
            }),
    {
        let (at_row, at_col, _) = self.fall(row, col, dt);
        let width = self.get_width() as usize;
        let height = self.get_height() as usize;
        let here = self.slot(at_row, at_col);
        let mover = self.peek(here);
        let own = mover.material.material();
        let to: Option<usize> = match side {
            Side::Left => if at_col >= 1 {
                Some((at_col - 1) as usize)
            } else {
                None
            },
            Side::Right => if at_col + 1 < width {
                Some(at_col + 1)
            } else {
                None
            },
        };
        if let Some(to_col) = to {
            if 4 * (own.phase.get_coarseness() as u64) >= mover.entropy as u64 && at_row + 1 < height {
                let there = self.slot(at_row, to_col);
                let beside = self.peek(there);
                let beneath = self.peek(self.slot(at_row + 1, to_col));
                if gives_way(&own, beside) && !beside.settled && gives_way(&own, beneath) {
                    self.trade(here, there);
                    self.settle(at_row, to_col);
                    return (at_row, to_col);
                }
            }
        }
        self.settle(at_row, at_col);
        (at_row, at_col)
    }

    /// One tick of the liquid in `(row, col)`; returns the slot it ends in.
    fn liquid(&mut self, row: usize, col: usize, dt: u32, spread: i32) -> (end: (usize, usize))
        requires
            old(self).wf(),
            old(self)@.holds(row as int, col as int),
            rules::mobile(old(self)@.cell(row as int, col as int)),
            old(self)@.cell(row as int, col as int).phase() is Liquid,
        ensures
            final(self).wf(),
            ({
                let trip = rules::liquid_step(old(self)@, row as int, col as int, dt, spread);
                &&& final(self)@ == trip.grid
                &&& end.0 == trip.row
                &&& end.1 == trip.col
            }),
    {
        proof {
            lemma_fallen_kept(old(self)@, row as int, col as int, dt);
        }
        let (at_row, at_col, _) = self.fall(row, col, dt);
        let here = self.slot(at_row, at_col);
        let mover = self.peek(here);
        let viscosity = mover.material.material().phase.get_viscosity();
        let x = signed_stride(spread, viscosity);
        self.put(here, Particle { velocity: Velocity { x, y: mover.velocity.y }, ..mover });
        let reach = stride(spread, viscosity) / 1000;
        let (to_row, to_col, _) = self.journey(
            at_row,
            at_col,
            along(Axis::Horizontal, spread),
            Motion::Seep,
            reach,
        );
        self.settle(to_row, to_col);
        (to_row, to_col)
    }

    /// One tick of the gas in `(row, col)`; returns the slot it ends in.
    fn gas(&mut self, row: usize, col: usize, axis: Axis, rise: i32, drift: i32) -> (end: (usize, usize))
        requires
            old(self).wf(),
            old(self)@.holds(row as int, col as int),
            old(self)@.cell(row as int, col as int).phase() is Gas,
        ensures
            final(self).wf(),
            ({
                let trip = rules::gas_step(old(self)@, row as int, col as int, axis, rise, drift);
                &&& final(self)@ == trip.grid
                &&& end.0 == trip.row
                &&& end.1 == trip.col
            }),
    {
        let here = self.slot(row, col);
        let mover = self.peek(here);
        let viscosity = mover.material.material().phase.get_viscosity();
        let x = signed_stride(drift, viscosity);
        let y = signed_stride(rise, viscosity);
        self.put(here, Particle { velocity: Velocity { x, y }, ..mover });
        let distance = match axis {
            Axis::Vertical => rise,
            Axis::Horizontal => drift,
        };
        let reach = stride(distance, viscosity) / 1000;
        let (to_row, to_col, _) = self.journey(row, col, along(axis, distance), Motion::Diffuse, reach);
        self.settle(to_row, to_col);
        (to_row, to_col)
    }

    /// Gives the cell in `(row, col)` its turn in the running tick, with
    /// `draw` for its chance, and returns the slot that the cell ends in.
    ///
    /// A settled cell, a cell without mass, and a void, solid or plasma cell
    /// stay as they are. Any other cell moves by the rule of its phase and is
    /// settled where it ends. Outside the board nothing changes.
    pub fn solve_with(&mut self, row: usize, col: usize, dt: u32, draw: Draw) -> (end: Result<
        (usize, usize),
        BoardError,
    >)
        requires
            old(self).wf(),
        ensures
            final(self).wf(),
            end is Ok <==> old(self)@.holds(row as int, col as int),
            end matches Ok(at) ==> {
                let trip = rules::advance(old(self)@, row as int, col as int, dt, draw);
                &&& final(self)@ == trip.grid
                &&& at.0 == trip.row
                &&& at.1 == trip.col
            },
            end matches Err(e) ==> e == BoardError::Bounds && final(self)@ == old(self)@,
            kept(old(self)@, final(self)@),
    {
        let i = match self.index_of(row, col) {
            Ok(i) => i,
            Err(e) => {
                return Err(e);
            },
        };
        proof {
            lemma_advance_kept(old(self)@, row as int, col as int, dt, draw);
        }
        let p = self.peek(i);
        let own = p.material.material();
        if p.settled || own.mass == 0 {
            return Ok((row, col));
        }
        match own.phase {
            Phase::Powder { .. } => Ok(self.powder(row, col, dt, draw.side)),
            Phase::Liquid { .. } => Ok(self.liquid(row, col, dt, draw.spread)),
            Phase::Gas { .. } => Ok(self.gas(row, col, draw.axis, draw.rise, draw.drift)),
            _ => Ok((row, col)),
        }
    }

    /// Gives the cell in `(row, col)` its turn in the running tick and returns
    /// the slot that the cell ends in. The chance that the cell consumes is
    /// drawn here: the outcome is that of `solve_with` for some draw.
    pub fn solve_particle(&mut self, row: usize, col: usize, dt: u32) -> (end: Result<
        (usize, usize),
        BoardError,
    >)
        requires
            old(self).wf(),
        ensures
            final(self).wf(),
            end is Ok <==> old(self)@.holds(row as int, col as int),
            end matches Ok(at) ==> exists|draw: Draw|
                {
                    let trip = #[trigger] rules::advance(old(self)@, row as int, col as int, dt, draw);
                    &&& rules::in_range(old(self)@, draw)
                    &&& final(self)@ == trip.grid
                    &&& at.0 == trip.row
                    &&& at.1 == trip.col
                },
            end matches Err(e) ==> e == BoardError::Bounds && final(self)@ == old(self)@,
            kept(old(self)@, final(self)@),
    {
        let i = match self.index_of(row, col) {
            Ok(i) => i,
            Err(e) => {
                return Err(e);
            },
        };
        let draw = self.draw_for(i);
        self.solve_with(row, col, dt, draw)
    }

    /// Draws the chance that the cell in slot `i` consumes in one tick: it asks
    /// for the raw draws that the phase of the cell reads, and for none where
    /// the cell is settled, and makes of them the draw of that cell. The
    /// outcome is that of `Draw::for_cell` for some raw draws within the
    /// bounds that were handed to the generator.
    fn draw_for(&self, i: usize) -> (draw: Draw)
        requires
            self.wf(),
            i < self@.cells.len(),
        ensures
            rules::in_range(self@, draw),
            exists|first: i32, second: i32, third: i32|
                rules::asked(self@, self@.cells[i as int], first, second, third) && draw
                    == #[trigger] Draw::spec_for_cell(self@.cells[i as int], first, second, third),
    {
        let width = self.get_width() as i32;
        let height = self.get_height() as i32;
        let p = self.peek(i);
        let (first, second, third): (i32, i32, i32) = if p.settled {
            (0, 0, 0)
        } else {
            match p.material.material().phase {
                Phase::Powder { .. } => (draw_between(0, 2), 0, 0),
                Phase::Liquid { .. } => (draw_between(-(23 * width / 10), width), 0, 0),
                Phase::Gas { .. } => (
                    draw_between(0, 2),
                    draw_between(-height, height),
                    draw_between(-width, width),
                ),
                _ => (0, 0, 0),
            }
        };
        proof {
            assert(rules::asked(self@, p, first, second, third));
        }
        Draw::for_cell(p, first, second, third)
    }

    /// Takes the settled mark off every cell.
    fn unsettle(&mut self)
        requires
            old(self).wf(),
        ensures
            final(self).wf(),
            final(self)@ == rules::unsettled(old(self)@),
    {
        let count = self.slot_count();
        let mut i: usize = 0;
        while i < count
            invariant
                self.wf(),
                i <= count == self@.cells.len() == old(self)@.cells.len(),
                self@.width == old(self)@.width,
                self@.height == old(self)@.height,
                forall|j: int|
                    0 <= j < i ==> #[trigger] self@.cells[j] == (Particle {
                        settled: false,
                        ..old(self)@.cells[j]
                    }),
                forall|j: int| i <= j < count ==> #[trigger] self@.cells[j] == old(self)@.cells[j],
            decreases count - i,
        {
            let p = self.peek(i);
            self.put(i, Particle { settled: false, ..p });
            i = i + 1;
        }
        assert(self@.cells =~= rules::unsettled(old(self)@).cells);
    }

    /// One pass of the engine. Slot `i` consumes entry `i` of `plan`, or the
    /// calm draw past its end; without a plan each draw is made on the spot.
    /// Returns the plan that the pass went by.
    fn pass(&mut self, dt: u32, plan: Option<&Vec<Draw>>) -> (used: Ghost<Seq<Draw>>)
        requires
            old(self).wf(),
        ensures
            final(self).wf(),
            final(self)@ == rules::sweep(old(self)@, dt, used@),
            plan matches Some(given) ==> used@ == given@,
            plan is None ==> rules::all_in_range(old(self)@, used@),
    {
        let ghost before = self@;
        let width = self.get_width() as usize;
        let count = self.slot_count();
        self.unsettle();
        let ghost mut used: Seq<Draw> = match plan {
            Some(given) => given@,
            None => Seq::empty(),
        };
        let mut i: usize = 0;
        while i < count
            invariant
                self.wf(),
                before.wf(),
                i <= count == before.cells.len() == self@.cells.len(),
                width == before.width == self@.width,
                self@.height == before.height,
                self@ == rules::swept(before, dt, used, i as nat),
                plan matches Some(given) ==> used == given@,
                plan is None ==> used.len() == i && rules::all_in_range(before, used),
            decreases count - i,
        {
            proof {
                self@.lemma_slot_of_index(i as int);
            }
            let draw = match plan {
                Some(given) => if i < given.len() {
                    given[i]
                } else {
                    Draw::calm()
                },
                None => self.draw_for(i),
            };
            proof {
                if plan is None {
                    lemma_swept_prefix(before, dt, used, used.push(draw), i as nat);
                    used = used.push(draw);
                }
            }
            let _ = self.solve_with(i / width, i % width, dt, draw);
            i = i + 1;
        }
        Ghost(used)
    }

    /// One pass of the engine over the whole board by a given plan: every
    /// settled mark is taken off, then each slot has its turn, top row first
    /// and each row from the left. Slot `i` consumes entry `i` of `plan`, and
    /// the calm draw where the plan is too short.
    pub fn sweep_with(&mut self, dt: u32, plan: &Vec<Draw>)
        requires
            old(self).wf(),
        ensures
            final(self).wf(),
            final(self)@ == rules::sweep(old(self)@, dt, plan@),
            conserved(old(self)@, final(self)@),
    {
        let _ = self.pass(dt, Some(plan));
        proof {
            lemma_sweep_conserved(old(self)@, dt, plan@);
        }
    }

    /// One pass of the engine over the whole board, each draw made when the
    /// slot's turn comes: the outcome is that of `sweep_with` for some plan.
    pub fn sweep(&mut self, dt: u32)
        requires
            old(self).wf(),
        ensures
            final(self).wf(),
            exists|plan: Seq<Draw>|
                rules::all_in_range(old(self)@, plan) && final(self)@ == #[trigger] rules::sweep(
                    old(self)@,
                    dt,
                    plan,
                ),
            conserved(old(self)@, final(self)@),
    {
        let used = self.pass(dt, None);
        proof {
            lemma_sweep_conserved(old(self)@, dt, used@);
        }
    }
}

} // verus!
