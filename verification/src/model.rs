//! The rules of one tick, as functions on sequences of particles and on maps
//! from cells to particle indices. The engine is specified against these.

use vstd::prelude::*;
use crate::particle::{Activity, Particle};

verus! {

/// The floor of the world: a particle at or below it never falls.
pub const GROUND_LEVEL: i32 = -300;

/// How far a falling particle descends in one tick.
pub const FALL_STEP: i32 = 6;

/// How far a particle on top of a collapsing column is pushed down.
pub const DROP_STEP: i32 = 2;

/// The column height from which a column without lateral support collapses.
pub const COLLAPSE_THRESHOLD: u64 = 10;

/// The cell `depth` rows beneath `cell`.
pub open spec fn beneath(cell: (int, int), depth: int) -> (int, int) {
    (cell.0, cell.1 - depth)
}

/// The neighbour of `cell` in the column to its left.
pub open spec fn left_of(cell: (int, int)) -> (int, int) {
    (cell.0 - 1, cell.1)
}

/// The neighbour of `cell` in the column to its right.
pub open spec fn right_of(cell: (int, int)) -> (int, int) {
    (cell.0 + 1, cell.1)
}

/// The settle condition: the particle rests on the ground, or on a particle
/// that the snapshot already holds in the cell directly below.
pub open spec fn settles(particle: Particle, occupied: Map<(int, int), int>) -> bool {
    particle.y <= GROUND_LEVEL || occupied.contains_key(beneath(particle.cell(), 1))
}

/// The snapshot as it stands once the first `count` particles have been
/// evaluated, in order: each moving particle that settles takes its cell, in
/// place of any particle that took it earlier.
pub open spec fn snapshot_of(particles: Seq<Particle>, count: int) -> Map<(int, int), int>
    decreases count,
{
    if count <= 0 {
        Map::empty()
    } else {
        let earlier = snapshot_of(particles, count - 1);
        let particle = particles[count - 1];
        if particle.moving() && settles(particle, earlier) {
            earlier.insert(particle.cell(), count - 1)
        } else {
            earlier
        }
    }
}

/// The completed snapshot of one tick.
pub open spec fn snapshot(particles: Seq<Particle>) -> Map<(int, int), int> {
    snapshot_of(particles, particles.len() as int)
}

/// Whether particle `index` falls this tick: it is moving and, when its turn
/// comes, the settle condition does not hold.
pub open spec fn falls(particles: Seq<Particle>, index: int) -> bool {
    particles[index].moving() && !settles(particles[index], snapshot_of(particles, index))
}

/// The particle one fall step further down.
pub open spec fn fallen(particle: Particle) -> Particle {
    Particle { y: (particle.y - FALL_STEP) as i32, ..particle }
}

/// The particles after the fall rule has been applied to each.
pub open spec fn after_fall(particles: Seq<Particle>) -> Seq<Particle> {
    Seq::new(
        particles.len(),
        |index: int| if falls(particles, index) { fallen(particles[index]) } else { particles[index] },
    )
}

/// The length of the unbroken run of occupied cells in `column` that starts
/// at `row` and leads downwards. No cell lies below the lowest row that a
/// `Cell` can name.
pub open spec fn run_down(occupied: Map<(int, int), int>, column: int, row: int) -> nat
    decreases row - i32::MIN + 1,
{
    if row >= i32::MIN && occupied.contains_key((column, row)) {
        1 + run_down(occupied, column, row - 1)
    } else {
        0
    }
}

/// The height of the column that `cell` tops: one for the cell itself, and
/// one for each cell of the unbroken run of occupied cells directly beneath
/// it.
pub open spec fn height_of_column(occupied: Map<(int, int), int>, cell: (int, int)) -> nat {
    1 + run_down(occupied, cell.0, cell.1 - 1)
}

/// The collapse condition: the column that `cell` tops is at least
/// `COLLAPSE_THRESHOLD` high, and neither lateral neighbour of `cell` is
/// occupied.
pub open spec fn collapses(occupied: Map<(int, int), int>, cell: (int, int)) -> bool {
    &&& height_of_column(occupied, cell) >= COLLAPSE_THRESHOLD
    &&& !occupied.contains_key(left_of(cell))
    &&& !occupied.contains_key(right_of(cell))
}

/// Whether particle `index` is to collapse: the snapshot holds it as the
/// occupant of its cell, and the collapse condition holds of that cell.
pub open spec fn is_candidate(
    particles: Seq<Particle>,
    occupied: Map<(int, int), int>,
    index: int,
) -> bool {
    &&& 0 <= index < particles.len()
    &&& occupied.contains_pair(particles[index].cell(), index)
    &&& collapses(occupied, particles[index].cell())
}

/// How many times `pending` names particle `index`.
pub open spec fn occurrences(pending: Seq<usize>, index: int) -> nat
    decreases pending.len(),
{
    if pending.len() == 0 {
        0
    } else {
        occurrences(pending.drop_last(), index) + if pending.last() == index {
            1nat
        } else {
            0nat
        }
    }
}

/// The particle after `times` collapses: one drop step further down for each,
/// and moving after the first.
pub open spec fn collapsed(particle: Particle, times: nat) -> Particle {
    if times == 0 {
        particle
    } else {
        Particle { y: (particle.y - DROP_STEP * times) as i32, activity: Activity::Moving, ..particle }
    }
}

/// The particles after every entry of `pending` has been applied. An entry
/// that names no particle changes nothing.
pub open spec fn after_collapse(particles: Seq<Particle>, pending: Seq<usize>) -> Seq<Particle> {
    Seq::new(particles.len(), |index: int| collapsed(particles[index], occurrences(pending, index)))
}

/// Whether the collapse pass picks particle `index` in the tick that starts
/// from `particles`.
pub open spec fn picked(particles: Seq<Particle>, index: int) -> bool {
    is_candidate(particles, snapshot(particles), index)
}

/// The state of particle `index` after one tick: a step further down if it
/// fell; pushed down by a drop step and set moving if the collapse pass
/// picked it; as it was otherwise.
pub open spec fn next_state(particles: Seq<Particle>, index: int) -> Particle {
    if falls(particles, index) {
        fallen(particles[index])
    } else if picked(particles, index) {
        collapsed(particles[index], 1)
    } else {
        particles[index]
    }
}

/// The particles after one tick.
pub open spec fn after_tick(particles: Seq<Particle>) -> Seq<Particle> {
    Seq::new(particles.len(), |index: int| next_state(particles, index))
}

/// The particles after `ticks` ticks.
pub open spec fn after_ticks(particles: Seq<Particle>, ticks: nat) -> Seq<Particle>
    decreases ticks,
{
    if ticks == 0 {
        particles
    } else {
        after_tick(after_ticks(particles, (ticks - 1) as nat))
    }
}

} // verus!
