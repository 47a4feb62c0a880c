//! A falling-sand simulator on a rectangular board of cells.
//!
//! Each slot of the [`board::Board`] holds a particle of one material from the
//! catalog in [`material`]. Once per frame [`driver::tick`] lets the engine pass
//! over the board: every cell has one turn, in which it moves by the rule of
//! its phase. Powders and liquids fall, powders then slide, liquids seep along
//! their row, gases diffuse, and solids stay where they are. After the pass
//! the host's placements are written to the board.
//!
//! The rules are written down twice. [`rules`] states them as mathematics on
//! the model of the board, and [`engine`] carries them out; every function of
//! the engine is proved to do what its rule says. [`laws`] proves what follows
//! from the rules: no tick makes or destroys material, solids never move, no
//! cell leaves the board, and no cell moves twice by its own rule in one tick.
//!
//! Every scalar is an integer count of thousandths: a mass of `1682` is 1.682,
//! a velocity of `1000` is one cell per tick, and a time step of `16` is
//! sixteen milliseconds.

pub mod board;
mod chance;
pub mod driver;
pub mod engine;
pub mod journeys;
pub mod kept;
pub mod laws;
pub mod material;
pub mod particle;
pub mod placement;
pub mod rules;
