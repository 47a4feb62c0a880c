//! Placing material on the board at the host's request.

use vstd::prelude::*;
use crate::board::{Board, Grid};
use crate::material::MaterialId;
use crate::particle::{Particle, Velocity, FALL_SEED};

verus! {

/// A request to put `material` into slot `(row, col)`. The coordinates come
/// from outside and may name no slot at all.
#[derive(Clone, Copy, Debug, PartialEq, Eq, Structural)]
pub struct Placement {
    pub row: i32,
    pub col: i32,
    pub material: MaterialId,
}

/// What a placed cell starts as: unsettled, without sideways velocity, with
/// the fall seed downwards.
pub open spec fn fresh(material: MaterialId) -> Particle {
    Particle { material, velocity: Velocity { x: 0, y: FALL_SEED }, settled: false, entropy: 0 }
}

/// The grid after `material` is placed at `(row, col)`: the slot takes a
/// fresh cell of it and keeps its entropy; a request that names no slot
/// changes nothing.
pub open spec fn placed(g: Grid, row: int, col: int, material: MaterialId) -> Grid {
    if g.holds(row, col) {
        g.filled(g.at(row, col), fresh(material))
    } else {
        g
    }
}

/// The grid after the first `count` of `requests` are placed, in their order.
pub open spec fn placed_upto(g: Grid, requests: Seq<Placement>, count: nat) -> Grid
    decreases count,
{
    if count == 0 {
        g
    } else {
        let last = requests[count - 1];
        placed(placed_upto(g, requests, (count - 1) as nat), last.row as int, last.col as int, last.material)
    }
}

/// The grid after all of `requests` are placed, in their order.
pub open spec fn placed_all(g: Grid, requests: Seq<Placement>) -> Grid {
    placed_upto(g, requests, requests.len())
}

impl Board {
    /// Places `material` at `(row, col)`. A request that names no slot of the
    /// board is ignored.
    pub fn place(&mut self, row: i32, col: i32, material: MaterialId)
        requires
            old(self).wf(),
        ensures
            final(self).wf(),
            final(self)@ == placed(old(self)@, row as int, col as int, material),
    {
        if row < 0 || col < 0 {
            return ;
        }
        match self.index_of(row as usize, col as usize) {
            Ok(i) => {
                self.put(
                    i,
                    Particle {
                        material,
                        velocity: Velocity { x: 0, y: FALL_SEED },
                        settled: false,
                        entropy: 0,
                    },
                );
            },
            Err(_) => {},
        }
    }

    /// Places every request of `requests`, in their order.
    pub fn place_all(&mut self, requests: &Vec<Placement>)
        requires
            old(self).wf(),
        ensures
            final(self).wf(),
            final(self)@ == placed_all(old(self)@, requests@),
    {
        let mut done: usize = 0;
        while done < requests.len()
            invariant
                self.wf(),
                done <= requests@.len(),
                self@ == placed_upto(old(self)@, requests@, done as nat),
            decreases requests@.len() - done,
        {
            let request = requests[done];
            self.place(request.row, request.col, request.material);
            done = done + 1;
        }
    }
}

} // verus!
