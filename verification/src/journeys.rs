//! What holds of a journey and of a fall.

use vstd::prelude::*;
use crate::board::Grid;
use crate::kept::{
    kept, lemma_filled_kept, lemma_kept_trans, lemma_released_kept, lemma_traded_cells,
    lemma_traded_frame, lemma_traded_kept, loose, same_frame,
};
use crate::material::UNIT;
use crate::particle::{Particle, Velocity};
use crate::rules::{
    fall_reach, fallen, gain, journey, landing_speed, rests, roam, verdict, Heading, Motion, Trip,
    Verdict,
};

verus! {

/// The verdict reads the content of the mover, not its slot.
pub proof fn lemma_verdict_of_content(motion: Motion, first: Particle, second: Particle, target: Particle)
    requires
        first.alike(second),
    ensures
        verdict(motion, first, target) == verdict(motion, second, target),
{
}

/// A journey leaves the frame as it was and ends on the board.
pub proof fn lemma_roam_frame(
    g: Grid,
    row: int,
    col: int,
    from_row: int,
    from_col: int,
    heading: Heading,
    motion: Motion,
    step: int,
    reach: int,
)
    requires
        g.wf(),
        g.holds(row, col),
    ensures
        ({
            let trip = roam(g, row, col, from_row, from_col, heading, motion, step, reach);
            &&& same_frame(g, trip.grid)
            &&& trip.grid.wf()
            &&& trip.grid.holds(trip.row, trip.col)
        }),
    decreases reach - step + 1,
{
    if step <= reach {
        let (r, c) = heading.ahead(from_row, from_col, step);
        if g.holds(r, c) {
            g.lemma_at_in_range(row, col);
            g.lemma_at_in_range(r, c);
            match verdict(motion, g.cell(row, col), g.cell(r, c)) {
                Verdict::Swap => {
                    let next = g.traded(g.at(row, col), g.at(r, c));
                    lemma_traded_frame(g, g.at(row, col), g.at(r, c));
                    lemma_roam_frame(next, r, c, from_row, from_col, heading, motion, step + 1, reach);
                    let trip = roam(next, r, c, from_row, from_col, heading, motion, step + 1, reach);
                    assert forall|i: int| 0 <= i < g.cells.len() implies (
                    #[trigger] trip.grid.cells[i]).entropy == g.cells[i].entropy by {
                        assert(next.cells[i].entropy == g.cells[i].entropy);
                    }
                },
                Verdict::Pass => {
                    lemma_roam_frame(g, row, col, from_row, from_col, heading, motion, step + 1, reach);
                },
                Verdict::Halt => {},
            }
        }
    }
}

/// A journey keeps the grid and carries the traveller's content to the slot
/// that the trip names.
pub proof fn lemma_roam_kept(
    g: Grid,
    row: int,
    col: int,
    from_row: int,
    from_col: int,
    heading: Heading,
    motion: Motion,
    step: int,
    reach: int,
)
    requires
        g.wf(),
        g.holds(row, col),
        loose(g.cell(row, col)),
    ensures
        ({
            let trip = roam(g, row, col, from_row, from_col, heading, motion, step, reach);
            &&& kept(g, trip.grid)
            &&& trip.grid.wf()
            &&& trip.grid.holds(trip.row, trip.col)
            &&& trip.grid.cell(trip.row, trip.col).alike(g.cell(row, col))
        }),
    decreases reach - step + 1,
{
    if step <= reach {
        let (r, c) = heading.ahead(from_row, from_col, step);
        if g.holds(r, c) {
            g.lemma_at_in_range(row, col);
            g.lemma_at_in_range(r, c);
            let a = g.at(row, col);
            let b = g.at(r, c);
            match verdict(motion, g.cell(row, col), g.cell(r, c)) {
                Verdict::Swap => {
                    let next = g.traded(a, b);
                    lemma_traded_kept(g, a, b);
                    lemma_traded_frame(g, a, b);
                    lemma_roam_kept(next, r, c, from_row, from_col, heading, motion, step + 1, reach);
                    let trip = roam(next, r, c, from_row, from_col, heading, motion, step + 1, reach);
                    lemma_kept_trans(g, next, trip.grid);
                },
                Verdict::Pass => {
                    lemma_roam_kept(g, row, col, from_row, from_col, heading, motion, step + 1, reach);
                },
                Verdict::Halt => {},
            }
        }
    }
}

/// A journey stays on its line. The traveller ends in the direction of its
/// heading from where it set out, no farther off than its reach, and no
/// nearer than it was.
pub proof fn lemma_roam_on_line(
    g: Grid,
    row: int,
    col: int,
    from_row: int,
    from_col: int,
    heading: Heading,
    motion: Motion,
    step: int,
    reach: int,
)
    requires
        g.wf(),
        g.holds(row, col),
        step >= 1,
        heading.covered(from_row, from_col, row, col) matches Some(d) && 0 <= d < step,
    ensures
        ({
            let trip = roam(g, row, col, from_row, from_col, heading, motion, step, reach);
            let start = heading.covered(from_row, from_col, row, col)->0;
            &&& heading.covered(from_row, from_col, trip.row, trip.col) matches Some(d)
            &&& start <= d
            &&& d <= reach || d == start
        }),
    decreases reach - step + 1,
{
    if step <= reach {
        let (r, c) = heading.ahead(from_row, from_col, step);
        if g.holds(r, c) {
            g.lemma_at_in_range(row, col);
            g.lemma_at_in_range(r, c);
            match verdict(motion, g.cell(row, col), g.cell(r, c)) {
                Verdict::Swap => {
                    let next = g.traded(g.at(row, col), g.at(r, c));
                    lemma_traded_frame(g, g.at(row, col), g.at(r, c));
                    lemma_roam_on_line(next, r, c, from_row, from_col, heading, motion, step + 1, reach);
                },
                Verdict::Pass => {
                    lemma_roam_on_line(g, row, col, from_row, from_col, heading, motion, step + 1, reach);
                },
                Verdict::Halt => {},
            }
        }
    }
}

/// A journey changes no slot off its path. The slot `(r, c)` holds after the
/// journey what it held before, unless it lies on the line of the heading
/// between the slot that the traveller was in and the slot that it ends in.
pub proof fn lemma_roam_off_path(
    g: Grid,
    row: int,
    col: int,
    from_row: int,
    from_col: int,
    heading: Heading,
    motion: Motion,
    step: int,
    reach: int,
    r: int,
    c: int,
)
    requires
        g.wf(),
        g.holds(row, col),
        g.holds(r, c),
        step >= 1,
        heading.covered(from_row, from_col, row, col) matches Some(d) && 0 <= d < step,
    ensures
        ({
            let trip = roam(g, row, col, from_row, from_col, heading, motion, step, reach);
            let start = heading.covered(from_row, from_col, row, col)->0;
            let end = heading.covered(from_row, from_col, trip.row, trip.col)->0;
            let off = match heading.covered(from_row, from_col, r, c) {
                Some(d) => d < start || d > end,
                None => true,
            };
            off ==> trip.grid.cell(r, c) == g.cell(r, c)
        }),
    decreases reach - step + 1,
{
    if step <= reach {
        let (tr, tc) = heading.ahead(from_row, from_col, step);
        if g.holds(tr, tc) {
            match verdict(motion, g.cell(row, col), g.cell(tr, tc)) {
                Verdict::Swap => {
                    let next = g.traded(g.at(row, col), g.at(tr, tc));
                    lemma_traded_cells(g, row, col, tr, tc, r, c);
                    lemma_roam_on_line(next, tr, tc, from_row, from_col, heading, motion, step + 1, reach);
                    lemma_roam_off_path(
                        next,
                        tr,
                        tc,
                        from_row,
                        from_col,
                        heading,
                        motion,
                        step + 1,
                        reach,
                        r,
                        c,
                    );
                },
                Verdict::Pass => {
                    lemma_roam_off_path(g, row, col, from_row, from_col, heading, motion, step + 1, reach, r, c);
                },
                Verdict::Halt => {},
            }
        }
    }
}

/// A liquid that seeps and a gas that diffuses displace nothing but void.
/// After such a journey the slot `(r, c)`, unless the traveller ends in it,
/// holds what it held before or an unsettled cell of void; the slot that the
/// traveller left holds void.
pub proof fn lemma_walk_displaces_void(
    g: Grid,
    row: int,
    col: int,
    from_row: int,
    from_col: int,
    heading: Heading,
    motion: Motion,
    step: int,
    reach: int,
    r: int,
    c: int,
)
    requires
        g.wf(),
        g.holds(row, col),
        g.holds(r, c),
        motion is Seep || motion is Diffuse,
    ensures
        ({
            let trip = roam(g, row, col, from_row, from_col, heading, motion, step, reach);
            let left = trip.grid.cell(r, c);
            let void = left.phase() is Void && !left.settled;
            r != trip.row || c != trip.col ==> if r == row && c == col {
                void
            } else {
                void || left == g.cell(r, c)
            }
        }),
    decreases reach - step + 1,
{
    if step <= reach {
        let (tr, tc) = heading.ahead(from_row, from_col, step);
        if g.holds(tr, tc) {
            match verdict(motion, g.cell(row, col), g.cell(tr, tc)) {
                Verdict::Swap => {
                    let next = g.traded(g.at(row, col), g.at(tr, tc));
                    lemma_traded_cells(g, row, col, tr, tc, r, c);
                    lemma_walk_displaces_void(
                        next,
                        tr,
                        tc,
                        from_row,
                        from_col,
                        heading,
                        motion,
                        step + 1,
                        reach,
                        r,
                        c,
                    );
                },
                Verdict::Pass => {
                    lemma_walk_displaces_void(
                        g,
                        row,
                        col,
                        from_row,
                        from_col,
                        heading,
                        motion,
                        step + 1,
                        reach,
                        r,
                        c,
                    );
                },
                Verdict::Halt => {},
            }
        }
    }
}

/// A fall stays in its column and drops one row for each probe until it is
/// stopped: it uses its reach up unless the floor or a cell that does not
/// yield lies right under the slot it ends in.
pub proof fn lemma_fall_rows(g: Grid, row: int, col: int, from_row: int, step: int, reach: int)
    requires
        g.wf(),
        g.holds(row, col),
        step >= 1,
        row == from_row + step - 1,
    ensures
        ({
            let trip = roam(g, row, col, from_row, col, Heading::Down, Motion::Fall, step, reach);
            &&& trip.col == col
            &&& row <= trip.row < g.height
            &&& !trip.halted ==> trip.row == from_row + (if reach >= step {
                reach
            } else {
                step - 1
            })
            &&& trip.halted ==> trip.row - from_row < reach
            &&& trip.halted ==> !trip.grid.holds(trip.row + 1, col) || verdict(
                Motion::Fall,
                trip.grid.cell(trip.row, col),
                trip.grid.cell(trip.row + 1, col),
            ) is Halt
        }),
    decreases reach - step + 1,
{
    if step <= reach {
        let (r, c) = Heading::Down.ahead(from_row, col, step);
        assert(r == row + 1 && c == col);
        if g.holds(r, c) {
            g.lemma_at_in_range(row, col);
            g.lemma_at_in_range(r, c);
            match verdict(Motion::Fall, g.cell(row, col), g.cell(r, c)) {
                Verdict::Swap => {
                    let next = g.traded(g.at(row, col), g.at(r, c));
                    lemma_traded_frame(g, g.at(row, col), g.at(r, c));
                    lemma_fall_rows(next, r, c, from_row, step + 1, reach);
                },
                Verdict::Pass => {},
                Verdict::Halt => {},
            }
        }
    }
}

/// A fall, from any of its probes on, is a lift, seen from the slot `(r, c)`:
/// a slot that the falling cell passes held a cell that yields, and that cell
/// rises one row; the falling cell takes the lowest slot; a slot off the path
/// holds what it held.
pub proof fn lemma_fall_lifts(
    g: Grid,
    row: int,
    col: int,
    from_row: int,
    step: int,
    reach: int,
    r: int,
    c: int,
)
    requires
        g.wf(),
        g.holds(row, col),
        g.holds(r, c),
        step >= 1,
        row == from_row + step - 1,
    ensures
        ({
            let trip = roam(g, row, col, from_row, col, Heading::Down, Motion::Fall, step, reach);
            &&& c == col && row < r <= trip.row ==> {
                &&& verdict(Motion::Fall, g.cell(row, col), g.cell(r, col)) is Swap
                &&& trip.grid.cell(r - 1, col).alike(g.cell(r, col))
            }
            &&& trip.grid.cell(trip.row, col).alike(g.cell(row, col))
            &&& c != col || r < row || r > trip.row ==> trip.grid.cell(r, c) == g.cell(r, c)
        }),
    decreases reach - step + 1,
{
    let trip = roam(g, row, col, from_row, col, Heading::Down, Motion::Fall, step, reach);
    if step <= reach && g.holds(row + 1, col) && verdict(
        Motion::Fall,
        g.cell(row, col),
        g.cell(row + 1, col),
    ) is Swap {
        let next = g.traded(g.at(row, col), g.at(row + 1, col));
        assert(trip == roam(next, row + 1, col, from_row, col, Heading::Down, Motion::Fall, step + 1, reach));
        lemma_traded_cells(g, row, col, row + 1, col, r, c);
        lemma_traded_cells(g, row, col, row + 1, col, row, col);
        lemma_fall_rows(next, row + 1, col, from_row, step + 1, reach);
        lemma_fall_lifts(next, row + 1, col, from_row, step + 1, reach, r, c);
        lemma_fall_lifts(next, row + 1, col, from_row, step + 1, reach, row, col);
        lemma_verdict_of_content(
            Motion::Fall,
            next.cell(row + 1, col),
            g.cell(row, col),
            g.cell(r, c),
        );
    }
}

/// The shape of a fall. A cell with a reach of `reach` rows drops `d` rows,
/// where `d` is the number of cells right under it, one below the other, that
/// yield to it, and at most `reach`. Each of those cells rises one row, the
/// cell itself takes the lowest of their slots, and nothing else changes. The
/// fall counts as stopped exactly when the reach was not used up; then the
/// floor, or a cell that does not yield, lies under the slot it ends in.
pub proof fn lemma_fall_shape(g: Grid, row: int, col: int, reach: int)
    requires
        g.wf(),
        g.holds(row, col),
    ensures
        ({
            let trip = journey(g, row, col, Heading::Down, Motion::Fall, reach);
            let d = trip.row - row;
            &&& trip.col == col
            &&& 0 <= d
            &&& row + d < g.height
            &&& trip.halted <==> d < reach
            &&& !trip.halted ==> d == (if reach > 0 {
                reach
            } else {
                0
            })
            &&& forall|k: int|
                1 <= k <= d ==> {
                    &&& verdict(Motion::Fall, g.cell(row, col), #[trigger] g.cell(row + k, col))
                        is Swap
                    &&& trip.grid.cell(row + k - 1, col).alike(g.cell(row + k, col))
                }
            &&& trip.halted ==> !g.holds(row + d + 1, col) || verdict(
                Motion::Fall,
                g.cell(row, col),
                g.cell(row + d + 1, col),
            ) is Halt
            &&& trip.grid.cell(row + d, col).alike(g.cell(row, col))
            &&& forall|r: int, c: int|
                g.holds(r, c) && (c != col || r < row || r > row + d) ==> #[trigger] trip.grid.cell(
                    r,
                    c,
                ) == g.cell(r, c)
            &&& same_frame(g, trip.grid)
        }),
{
    let trip = journey(g, row, col, Heading::Down, Motion::Fall, reach);
    let d = trip.row - row;
    lemma_fall_rows(g, row, col, row, 1, reach);
    lemma_fall_lifts(g, row, col, row, 1, reach, row, col);
    lemma_roam_frame(g, row, col, row, col, Heading::Down, Motion::Fall, 1, reach);
    assert forall|k: int| 1 <= k <= d implies {
        &&& verdict(Motion::Fall, g.cell(row, col), #[trigger] g.cell(row + k, col)) is Swap
        &&& trip.grid.cell(row + k - 1, col).alike(g.cell(row + k, col))
    } by {
        lemma_fall_lifts(g, row, col, row, 1, reach, row + k, col);
    }
    assert forall|r: int, c: int|
        g.holds(r, c) && (c != col || r < row || r > row + d) implies #[trigger] trip.grid.cell(r, c)
        == g.cell(r, c) by {
        lemma_fall_lifts(g, row, col, row, 1, reach, r, c);
    }
    if trip.halted && g.holds(row + d + 1, col) {
        lemma_fall_lifts(g, row, col, row, 1, reach, row + d + 1, col);
        lemma_verdict_of_content(
            Motion::Fall,
            trip.grid.cell(trip.row, col),
            g.cell(row, col),
            g.cell(row + d + 1, col),
        );
    }
}

/// The velocity with which a fall ends fits the field that holds it, and it
/// does not point up unless the velocity at the start did.
pub proof fn lemma_landing_speed_fits(g: Grid, row: int, col: int, dt: u32)
    requires
        g.wf(),
        g.holds(row, col),
    ensures
        ({
            let speed = g.cell(row, col).velocity.y + gain(dt);
            let trip = journey(g, row, col, Heading::Down, Motion::Fall, fall_reach(speed));
            &&& i64::MIN <= landing_speed(trip, row, speed) <= i64::MAX
            &&& g.cell(row, col).velocity.y >= 0 ==> landing_speed(trip, row, speed) >= 0
        }),
{
    let speed = g.cell(row, col).velocity.y + gain(dt);
    lemma_fall_rows(g, row, col, row, 1, fall_reach(speed));
}

/// A fall keeps the grid. The cell that fell lies, still unsettled and of the
/// same material, in the slot that the trip names, in the column it set out in
/// and no higher than before.
pub proof fn lemma_fallen_kept(g: Grid, row: int, col: int, dt: u32)
    requires
        g.wf(),
        g.holds(row, col),
        loose(g.cell(row, col)),
    ensures
        ({
            let trip = fallen(g, row, col, dt);
            let landed = trip.grid.cell(trip.row, trip.col);
            &&& kept(g, trip.grid)
            &&& trip.grid.wf()
            &&& trip.col == col
            &&& row <= trip.row < g.height
            &&& landed.material == g.cell(row, col).material
            &&& landed.velocity.x == g.cell(row, col).velocity.x
            &&& g.cell(row, col).velocity.y >= 0 ==> landed.velocity.y >= 0
            &&& !landed.settled
        }),
{
    lemma_landing_speed_fits(g, row, col, dt);
    let speed = g.cell(row, col).velocity.y + gain(dt);
    let trip = journey(g, row, col, Heading::Down, Motion::Fall, fall_reach(speed));
    lemma_roam_kept(g, row, col, row, col, Heading::Down, Motion::Fall, 1, fall_reach(speed));
    lemma_fall_rows(g, row, col, row, 1, fall_reach(speed));
    trip.grid.lemma_at_in_range(trip.row, trip.col);
    let at = trip.grid.at(trip.row, trip.col);
    let landed = trip.grid.cell(trip.row, trip.col);
    let y = landing_speed(trip, row, speed);
    let moving = Particle { velocity: Velocity { x: landed.velocity.x, y: y as i64 }, ..landed };
    let slowed = trip.grid.filled(at, moving);
    lemma_filled_kept(trip.grid, at, moving);
    lemma_kept_trans(g, trip.grid, slowed);
    if trip.halted && slowed.holds(trip.row + 1, trip.col) && slowed.cell(
        trip.row + 1,
        trip.col,
    ).phase() is Solid {
        slowed.lemma_at_in_range(trip.row + 1, trip.col);
        let under = slowed.at(trip.row + 1, trip.col);
        lemma_released_kept(slowed, under);
        lemma_kept_trans(g, slowed, fallen(g, row, col, dt).grid);
        assert(under == at + g.width) by (nonlinear_arith)
            requires
                under == (trip.row + 1) * g.width + trip.col,
                at == trip.row * g.width + trip.col,
        ;
    }
}

/// A resting cell whose fall velocity does not point up after the gain of the
/// tick stays where it is, and its fall velocity becomes zero.
pub proof fn lemma_rest_stops(g: Grid, row: int, col: int, dt: u32)
    requires
        g.wf(),
        g.holds(row, col),
        rests(g, row, col),
        g.cell(row, col).velocity.y + gain(dt) >= 0,
    ensures
        ({
            let trip = fallen(g, row, col, dt);
            &&& trip.row == row
            &&& trip.col == col
            &&& trip.halted
            &&& trip.grid.cell(row, col).velocity.y == 0
            &&& trip.grid.cell(row, col).material == g.cell(row, col).material
            &&& trip.grid.cell(row, col).settled == g.cell(row, col).settled
        }),
{
    let speed = g.cell(row, col).velocity.y + gain(dt);
    let reach = fall_reach(speed);
    assert(reach >= 1) by (nonlinear_arith)
        requires
            speed >= 0,
            reach == speed / 1000 + 1,
    ;
    let trip = journey(g, row, col, Heading::Down, Motion::Fall, reach);
    assert(trip == Trip { grid: g, row, col, halted: true });
    g.lemma_at_in_range(row, col);
    if g.holds(row + 1, col) {
        g.lemma_at_in_range(row + 1, col);
        assert(g.at(row + 1, col) == g.at(row, col) + g.width) by (nonlinear_arith)
            requires
                g.at(row + 1, col) == (row + 1) * g.width + col,
                g.at(row, col) == row * g.width + col,
        ;
    }
}

} // verus!
