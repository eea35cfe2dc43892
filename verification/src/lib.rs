//! A falling-sand simulation on a discrete grid.
//!
//! Particles carry positions in whole world units and colours in thousandths
//! of full intensity. A spawner creates them near the pointer while it is
//! pressed. Once per tick the engine rebuilds a snapshot of the occupied grid
//! cells, lets every moving particle either fall or settle, and pushes down
//! the particles that top a tall column with no neighbour on either side.
//!
//! - [`grid`]: world positions and the grid cells that hold them.
//! - [`particle`]: the particle record.
//! - [`occupancy`]: the snapshot of occupied cells that lives for one tick.
//! - [`model`]: the rules of a tick, stated on sequences and maps.
//! - [`physics`]: the engine that carries the rules out.
//! - [`spawner`]: the creation of particles.
//! - [`laws`]: what follows from the rules, with proof.

pub mod grid;
pub mod laws;
pub mod model;
pub mod occupancy;
pub mod particle;
pub mod physics;
pub mod spawner;
