//! The phases of matter, the materials and the catalog that names them.

use vstd::prelude::*;

verus! {

/// The number of thousandths in one whole unit.
pub const UNIT: u32 = 1000;

/// The durability of what cannot be broken up.
pub const UNBREAKABLE: i32 = -1;

/// The coarse physical category of a material. It selects the motion rule.
#[derive(Clone, Copy, Debug, PartialEq, Eq, Structural)]
pub enum Phase {
    /// Empty space: nothing to simulate.
    Void,
    /// Immovable; blocks every other phase.
    Solid { hardness: u32 },
    /// Falls, then slides sideways; `coarseness` lies between 0 and `UNIT`.
    Powder { coarseness: u32 },
    /// Falls, then spreads along its row; a larger `viscosity` spreads less far.
    Liquid { viscosity: u32 },
    /// Diffuses along one axis; a larger `viscosity` diffuses less far.
    Gas { viscosity: u32 },
    /// Reserved: it has no motion rule and stays where it is.
    Plasma { viscosity: u32 },
}

impl Phase {
    /// The scalars are in range: a coarseness of at most one unit, and a
    /// viscosity above zero for the phases that divide by it.
    pub open spec fn well_formed(self) -> bool {
        match self {
            Phase::Powder { coarseness } => coarseness <= UNIT,
            Phase::Liquid { viscosity } => viscosity > 0,
            Phase::Gas { viscosity } => viscosity > 0,
            _ => true,
        }
    }

    /// The coarseness of a powder, and zero for every other phase.
    pub open spec fn coarseness(self) -> u32 {
        match self {
            Phase::Powder { coarseness } => coarseness,
            _ => 0,
        }
    }

    /// The viscosity of a liquid, gas or plasma, and zero for every other phase.
    pub open spec fn viscosity(self) -> u32 {
        match self {
            Phase::Liquid { viscosity } => viscosity,
            Phase::Gas { viscosity } => viscosity,
            Phase::Plasma { viscosity } => viscosity,
            _ => 0,
        }
    }

    /// The coarseness of a powder, and zero for every other phase.
    pub fn get_coarseness(&self) -> (c: u32)
        ensures
            c == self.coarseness(),
    {
        match self {
            Phase::Powder { coarseness } => *coarseness,
            _ => 0,
        }
    }

    /// The viscosity of a liquid, gas or plasma, and zero for every other phase.
    pub fn get_viscosity(&self) -> (v: u32)
        ensures
            v == self.viscosity(),
    {
        match self {
            Phase::Liquid { viscosity } => *viscosity,
            Phase::Gas { viscosity } => *viscosity,
            Phase::Plasma { viscosity } => *viscosity,
            _ => 0,
        }
    }
}

/// A display colour, one byte per channel.
#[derive(Clone, Copy, Debug, PartialEq, Eq, Structural)]
pub struct Color {
    pub r: u8,
    pub g: u8,
    pub b: u8,
    pub a: u8,
}

/// What every cell of one material has in common.
#[derive(Clone, Copy, Debug, PartialEq, Eq)]
pub struct Material {
    pub name: &'static str,
    /// Mass of one cell of the material; it serves as its density.
    pub mass: u32,
    pub phase: Phase,
    /// The force needed to break the material up; `UNBREAKABLE` marks what cannot.
    pub durability: i32,
    pub flammability: u32,
    pub color: Color,
}

impl Material {
    /// The phase's scalars are in range, and exactly the void weighs nothing.
    pub open spec fn well_formed(self) -> bool {
        &&& self.phase.well_formed()
        &&& (self.phase is Void <==> self.mass == 0)
    }
}

/// A handle on one entry of the catalog. Cells hold the handle, never the entry.
#[derive(Clone, Copy, Debug, PartialEq, Eq, Hash, Structural)]
pub enum MaterialId {
    Void,
    Sand,
    Water,
    Wood,
    Methane,
}

impl MaterialId {
    /// The catalog: the entry that each handle stands for.
    pub open spec fn entry(self) -> Material {
        match self {
            MaterialId::Void => Material {
                name: "Void",
                mass: 0,
                phase: Phase::Void,
                durability: UNBREAKABLE,
                flammability: 0,
                color: Color { r: 0, g: 0, b: 0, a: 100 },
            },
            MaterialId::Sand => Material {
                name: "Sand",
                mass: 1682,
                phase: Phase::Powder { coarseness: 300 },
                durability: 50,
                flammability: 0,
                color: Color { r: 203, g: 189, b: 147, a: 255 },
            },
            MaterialId::Water => Material {
                name: "Water",
                mass: 1000,
                phase: Phase::Liquid { viscosity: 1000 },
                durability: 50,
                flammability: 0,
                color: Color { r: 0, g: 119, b: 242, a: 255 },
            },
            MaterialId::Wood => Material {
                name: "Wood",
                mass: 2000,
                phase: Phase::Solid { hardness: 40 },
                durability: 40,
                flammability: 10000,
                color: Color { r: 127, g: 107, b: 79, a: 255 },
            },
            MaterialId::Methane => Material {
                name: "Methane",
                mass: 657,
                phase: Phase::Gas { viscosity: 1000 },
                durability: 50,
                flammability: 10000,
                color: Color { r: 252, g: 249, b: 0, a: 255 },
            },
        }
    }

    /// The mass of the material behind the handle.
    pub open spec fn mass(self) -> u32 {
        self.entry().mass
    }

    /// The phase of the material behind the handle.
    pub open spec fn phase(self) -> Phase {
        self.entry().phase
    }

    /// Looks the handle up in the catalog. The lookup cannot fail.
    pub fn material(self) -> (m: Material)
        ensures
            m == self.entry(),
            m.well_formed(),
    {
        match self {
            MaterialId::Void => Material {
                name: "Void",
                mass: 0,
                phase: Phase::Void,
                durability: UNBREAKABLE,
                flammability: 0,
                color: Color { r: 0, g: 0, b: 0, a: 100 },
            },
            MaterialId::Sand => Material {
                name: "Sand",
                mass: 1682,
                phase: Phase::Powder { coarseness: 300 },
                durability: 50,
                flammability: 0,
                color: Color { r: 203, g: 189, b: 147, a: 255 },
            },
            MaterialId::Water => Material {
                name: "Water",
                mass: 1000,
                phase: Phase::Liquid { viscosity: 1000 },
                durability: 50,
                flammability: 0,
                color: Color { r: 0, g: 119, b: 242, a: 255 },
            },
            MaterialId::Wood => Material {
                name: "Wood",
                mass: 2000,
                phase: Phase::Solid { hardness: 40 },
                durability: 40,
                flammability: 10000,
                color: Color { r: 127, g: 107, b: 79, a: 255 },
            },
            MaterialId::Methane => Material {
                name: "Methane",
                mass: 657,
                phase: Phase::Gas { viscosity: 1000 },
                durability: 50,
                flammability: 10000,
                color: Color { r: 252, g: 249, b: 0, a: 255 },
            },
        }
    }

    /// The materials that a host offers for placing, in the order of their
    /// buttons: every entry of the catalog but the void.
    pub fn palette() -> (offered: Vec<MaterialId>)
        ensures
            offered@ == seq![
                MaterialId::Sand,
                MaterialId::Water,
                MaterialId::Wood,
                MaterialId::Methane,
            ],
    {
        let mut offered: Vec<MaterialId> = Vec::new();
        offered.push(MaterialId::Sand);
        offered.push(MaterialId::Water);
        offered.push(MaterialId::Wood);
        offered.push(MaterialId::Methane);
        assert(offered@ =~= seq![
            MaterialId::Sand,
            MaterialId::Water,
            MaterialId::Wood,
            MaterialId::Methane,
        ]);
        offered
    }

    /// Every entry of the catalog is well formed.
    pub proof fn lemma_catalog_well_formed(self)
        ensures
            self.entry().well_formed(),
    {
    }
}

} // verus!
