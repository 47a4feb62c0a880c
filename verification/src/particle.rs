//! One cell of the board.

use vstd::prelude::*;
use crate::material::{MaterialId, Phase, UNIT};

verus! {

/// The velocity that a placed particle starts with: one cell per tick, downwards.
pub const FALL_SEED: i64 = 1000;

/// A velocity in thousandths of a cell per tick. Rows grow downwards, so a
/// positive `y` points at the floor.
#[derive(Clone, Copy, Debug, PartialEq, Eq, Structural)]
pub struct Velocity {
    pub x: i64,
    pub y: i64,
}

/// What one slot of the board holds.
///
/// `settled` says that the content has been placed for the running tick and
/// must not move again before the tick ends. `entropy` belongs to the slot, not
/// to the material in it: it is drawn when the board is made, lies below
/// `UNIT`, and stays where it is when contents move.
#[derive(Clone, Copy, Debug, PartialEq, Eq, Structural)]
pub struct Particle {
    pub material: MaterialId,
    pub velocity: Velocity,
    pub settled: bool,
    pub entropy: u32,
}

impl Particle {
    /// The mass of the particle's material.
    pub open spec fn mass(self) -> u32 {
        self.material.mass()
    }

    /// The phase of the particle's material.
    pub open spec fn phase(self) -> Phase {
        self.material.phase()
    }

    /// Whether two slots hold the same content: material, velocity and mark.
    pub open spec fn alike(self, other: Particle) -> bool {
        &&& self.material == other.material
        &&& self.velocity == other.velocity
        &&& self.settled == other.settled
    }

    /// The content of `self` in a slot whose entropy is `entropy`.
    pub open spec fn housed(self, entropy: u32) -> Particle {
        Particle { entropy, ..self }
    }

    /// The entropy that a raw draw stands for: the draw itself where it lies in
    /// range, and the nearest value in range otherwise.
    pub open spec fn entropy_of(draw: i32) -> u32 {
        if draw < 0 {
            0
        } else if draw >= UNIT {
            (UNIT - 1) as u32
        } else {
            draw as u32
        }
    }

    /// An empty slot at rest: void, without velocity, not settled, with an
    /// entropy in range.
    pub open spec fn is_vacant(self) -> bool {
        &&& self.material == MaterialId::Void
        &&& self.velocity == Velocity { x: 0, y: 0 }
        &&& !self.settled
        &&& self.entropy < UNIT
    }

    /// An empty slot whose entropy comes from `draw`.
    pub open spec fn spec_vacant(draw: i32) -> Particle {
        Particle {
            material: MaterialId::Void,
            velocity: Velocity { x: 0, y: 0 },
            settled: false,
            entropy: Self::entropy_of(draw),
        }
    }

    /// Makes an empty slot at rest whose entropy comes from `draw`.
    pub fn vacant(draw: i32) -> (p: Particle)
        ensures
            p == Self::spec_vacant(draw),
            p.is_vacant(),
    {
        let entropy: u32 = if draw < 0 {
            0
        } else if draw >= 1000 {
            999
        } else {
            draw as u32
        };
        Particle {
            material: MaterialId::Void,
            velocity: Velocity { x: 0, y: 0 },
            settled: false,
            entropy,
        }
    }
}

} // verus!
