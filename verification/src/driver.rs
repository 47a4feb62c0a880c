//! The frame driver: one tick of the simulation.

use vstd::prelude::*;
use crate::board::{Board, Grid};
use crate::kept::conserved;
use crate::laws::lemma_tick_conserves;
use crate::placement::{placed_all, Placement};
use crate::rules::{all_in_range, sweep, Draw};

verus! {

/// The grid after one tick: one pass of the engine by `plan` unless the
/// simulation is paused, then the placements of the frame.
pub open spec fn ticked(g: Grid, dt: u32, paused: bool, plan: Seq<Draw>, requests: Seq<Placement>) -> Grid {
    placed_all(
        if paused {
            g
        } else {
            sweep(g, dt, plan)
        },
        requests,
    )
}

/// One frame of a run in which nothing is placed: the time since the frame
/// before, whether the simulation is paused, and the plan of the pass.
pub struct Frame {
    pub dt: u32,
    pub paused: bool,
    pub plan: Seq<Draw>,
}

/// The grid after the first `count` of `frames`, with nothing placed.
pub open spec fn ticked_on(g: Grid, frames: Seq<Frame>, count: nat) -> Grid
    decreases count,
{
    if count == 0 {
        g
    } else {
        let frame = frames[count - 1];
        ticked(
            ticked_on(g, frames, (count - 1) as nat),
            frame.dt,
            frame.paused,
            frame.plan,
            Seq::empty(),
        )
    }
}

/// One tick by a given plan: unless `paused`, the engine passes once over the
/// board, `dt` milliseconds after the tick before; then `requests` are placed.
pub fn tick_with(board: &mut Board, dt: u32, paused: bool, requests: &Vec<Placement>, plan: &Vec<Draw>)
    requires
        old(board).wf(),
    ensures
        final(board).wf(),
        final(board)@ == ticked(old(board)@, dt, paused, plan@, requests@),
        paused ==> final(board)@ == placed_all(old(board)@, requests@),
        requests@.len() == 0 ==> conserved(old(board)@, final(board)@),
{
    if !paused {
        board.sweep_with(dt, plan);
    }
    board.place_all(requests);
    proof {
        if requests@.len() == 0 {
            lemma_tick_conserves(old(board)@, dt, paused, plan@, requests@);
        }
    }
}

/// One tick: unless `paused`, the engine passes once over the board, `dt`
/// milliseconds after the tick before, drawing its chance as it goes; then
/// `requests` are placed. The outcome is that of `tick_with` for some plan.
///
/// While paused only the placements change the board. Without placements a
/// tick conserves the board: the frame is the same, the solids are where they
/// were, and each material occurs as often as before.
pub fn tick(board: &mut Board, dt: u32, paused: bool, requests: &Vec<Placement>)
    requires
        old(board).wf(),
    ensures
        final(board).wf(),
        exists|plan: Seq<Draw>|
            all_in_range(old(board)@, plan) && final(board)@ == #[trigger] ticked(
                old(board)@,
                dt,
                paused,
                plan,
                requests@,
            ),
        paused ==> final(board)@ == placed_all(old(board)@, requests@),
        requests@.len() == 0 ==> conserved(old(board)@, final(board)@),
{
    if !paused {
        board.sweep(dt);
    }
    let ghost plan: Seq<Draw> = if paused {
        Seq::empty()
    } else {
        choose|plan: Seq<Draw>|
            all_in_range(old(board)@, plan) && board@ == #[trigger] sweep(old(board)@, dt, plan)
    };
    board.place_all(requests);
    proof {
        assert(final(board)@ == ticked(old(board)@, dt, paused, plan, requests@));
        if requests@.len() == 0 {
            lemma_tick_conserves(old(board)@, dt, paused, plan, requests@);
        }
    }
}

} // verus!
