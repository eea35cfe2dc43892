//! The particle record: the only entity that persists from tick to tick.

use vstd::prelude::*;
use crate::grid::{cell_at, grid_cell, Cell};

verus! {

/// Whether the physics step evaluates a particle.
#[derive(Clone, Copy, Debug, PartialEq, Eq, Structural)]
pub enum Activity {
    /// Inert: the fall rule passes the particle over.
    Settled,
    /// Evaluated by the fall rule on every tick.
    Moving,
}

/// A colour in thousandths of full intensity per channel. It is fixed when a
/// particle is created and plays no part in the physics.
#[derive(Clone, Copy, Debug, PartialEq, Eq, Structural)]
pub struct Color {
    pub red: u16,
    pub green: u16,
    pub blue: u16,
}

/// One grain of sand. The position is authoritative; the grid cell is always
/// derived from it.
#[derive(Clone, Copy, Debug, PartialEq, Eq, Structural)]
pub struct Particle {
    pub x: i32,
    pub y: i32,
    pub color: Color,
    pub activity: Activity,
}

impl Particle {
    /// The grid cell that holds the particle.
    pub open spec fn cell(self) -> (int, int) {
        cell_at(self.x as int, self.y as int)
    }

    /// Whether the physics step evaluates the particle.
    pub open spec fn moving(self) -> bool {
        self.activity == Activity::Moving
    }

    /// A new particle at `(x, y)`. Particles start out moving.
    pub fn new(x: i32, y: i32, color: Color) -> (particle: Particle)
        ensures
            particle == (Particle { x, y, color, activity: Activity::Moving }),
    {
        Particle { x, y, color, activity: Activity::Moving }
    }

    /// The grid cell that holds the particle.
    pub fn grid_cell(&self) -> (cell: Cell)
        ensures
            cell@ == self.cell(),
    {
        grid_cell(self.x, self.y)
    }

    /// Whether the physics step evaluates the particle.
    pub fn is_moving(&self) -> (moving: bool)
        ensures
            moving == self.moving(),
    {
        self.activity == Activity::Moving
    }
}

} // verus!
