//! What holds of the rules on every input, proved from their definitions.

use vstd::prelude::*;
use crate::grid::{lemma_cell_coord_bounds, lemma_cell_coord_nearest};
use crate::model::{
    after_fall, after_tick, after_ticks, beneath, collapsed, collapses, falls, height_of_column,
    is_candidate, left_of, occurrences, picked, right_of, run_down, snapshot, snapshot_of,
    COLLAPSE_THRESHOLD, DROP_STEP, FALL_STEP, GROUND_LEVEL,
};
use crate::occupancy::representable;
use crate::particle::Particle;

verus! {

/// Every entry of the snapshot is a moving particle that settled in the cell
/// under which it is filed.
pub proof fn lemma_snapshot_entries(particles: Seq<Particle>, count: int, cell: (int, int))
    requires
        0 <= count <= particles.len(),
        snapshot_of(particles, count).contains_key(cell),
    ensures
        0 <= snapshot_of(particles, count)[cell] < count,
        particles[snapshot_of(particles, count)[cell]].cell() == cell,
        particles[snapshot_of(particles, count)[cell]].moving(),
        !falls(particles, snapshot_of(particles, count)[cell]),
    decreases count,
{
    if count > 0 {
        let particle = particles[count - 1];
        if !(particle.moving() && !falls(particles, count - 1) && particle.cell() == cell) {
            lemma_snapshot_entries(particles, count - 1, cell);
        }
    }
}

/// The snapshot holds at most one particle per cell: two particles that it
/// holds as occupants of the same cell are one particle, and that particle
/// lies in the cell.
pub proof fn lemma_occupancy_exclusive(particles: Seq<Particle>, cell: (int, int), first: int, second: int)
    requires
        snapshot(particles).contains_pair(cell, first),
        snapshot(particles).contains_pair(cell, second),
    ensures
        first == second,
        0 <= first < particles.len(),
        particles[first].cell() == cell,
{
    lemma_snapshot_entries(particles, particles.len() as int, cell);
}

/// Where several particles settle in one cell, the snapshot holds the one
/// evaluated last: the cell of a moving particle that does not fall is
/// occupied, by that particle or by one evaluated after it.
pub proof fn lemma_last_settler_holds_cell(particles: Seq<Particle>, index: int)
    requires
        0 <= index < particles.len(),
        particles[index].moving(),
        !falls(particles, index),
    ensures
        snapshot(particles).contains_key(particles[index].cell()),
        index <= snapshot(particles)[particles[index].cell()] < particles.len(),
{
    lemma_settler_holds_cell_from(particles, index, particles.len() as int);
}

proof fn lemma_settler_holds_cell_from(particles: Seq<Particle>, index: int, count: int)
    requires
        0 <= index < count <= particles.len(),
        particles[index].moving(),
        !falls(particles, index),
    ensures
        snapshot_of(particles, count).contains_key(particles[index].cell()),
        index <= snapshot_of(particles, count)[particles[index].cell()] < count,
    decreases count,
{
    if count > index + 1 {
        lemma_settler_holds_cell_from(particles, index, count - 1);
    }
}

/// The scan for collapsing columns, which goes by the particles, misses no
/// pair of the snapshot: the occupant of every occupied cell is a particle
/// that the fall rule left in that cell, and the scan picks it exactly when
/// the collapse condition holds of the cell.
pub proof fn lemma_scan_covers_snapshot(particles: Seq<Particle>, cell: (int, int))
    requires
        snapshot(particles).contains_key(cell),
    ensures
        0 <= snapshot(particles)[cell] < particles.len(),
        after_fall(particles)[snapshot(particles)[cell]] == particles[snapshot(particles)[cell]],
        particles[snapshot(particles)[cell]].cell() == cell,
        is_candidate(after_fall(particles), snapshot(particles), snapshot(particles)[cell]) <==> collapses(
            snapshot(particles),
            cell,
        ),
        picked(particles, snapshot(particles)[cell]) <==> collapses(snapshot(particles), cell),
{
    lemma_snapshot_entries(particles, particles.len() as int, cell);
}

/// The cells of a run are occupied, from its start down to its length.
pub proof fn lemma_run_down_occupied(occupied: Map<(int, int), int>, column: int, row: int, depth: int)
    requires
        0 <= depth < run_down(occupied, column, row),
    ensures
        occupied.contains_key((column, row - depth)),
        row - depth >= i32::MIN,
    decreases depth,
{
    if depth > 0 {
        lemma_run_down_occupied(occupied, column, row - 1, depth - 1);
    }
}

proof fn lemma_run_down_ends(occupied: Map<(int, int), int>, column: int, row: int)
    requires
        forall|other: (int, int)| occupied.contains_key(other) ==> representable(other),
    ensures
        !occupied.contains_key((column, row - run_down(occupied, column, row))),
    decreases row - i32::MIN + 1,
{
    if row >= i32::MIN && occupied.contains_key((column, row)) {
        lemma_run_down_ends(occupied, column, row - 1);
        assert((column, row - 1 - run_down(occupied, column, row - 1)) == (
            column,
            row - run_down(occupied, column, row),
        ));
    } else if occupied.contains_key((column, row)) {
        assert(representable((column, row)));
    }
}

/// Whether `height` cells make up the column that `cell` tops: the cell
/// itself, every cell less than `height` rows beneath it, and not the one
/// `height` rows beneath it.
pub open spec fn is_column_height(occupied: Map<(int, int), int>, cell: (int, int), height: int) -> bool {
    &&& height >= 1
    &&& forall|depth: int| 1 <= depth < height ==> occupied.contains_key(#[trigger] beneath(cell, depth))
    &&& !occupied.contains_key(beneath(cell, height))
}

/// The height of a column is the number of contiguous occupied cells from its
/// top downwards, the top included, and no other number is.
pub proof fn lemma_column_height_counts_the_run(
    occupied: Map<(int, int), int>,
    cell: (int, int),
    height: int,
)
    requires
        forall|other: (int, int)| occupied.contains_key(other) ==> representable(other),
    ensures
        is_column_height(occupied, cell, height) <==> height == height_of_column(occupied, cell),
{
    let run = height_of_column(occupied, cell) as int;
    assert forall|depth: int| 1 <= depth < run implies occupied.contains_key(
        #[trigger] beneath(cell, depth),
    ) by {
        lemma_run_down_occupied(occupied, cell.0, cell.1 - 1, depth - 1);
    }
    lemma_run_down_ends(occupied, cell.0, cell.1 - 1);
    assert(beneath(cell, run) == (cell.0, cell.1 - 1 - run_down(occupied, cell.0, cell.1 - 1)));
    if is_column_height(occupied, cell, height) {
        if height < run {
            assert(occupied.contains_key(beneath(cell, height)));
        }
        if run < height {
            assert(occupied.contains_key(beneath(cell, run)));
        }
    }
}

/// The collapse threshold is sharp. A cell on top of a column one short of
/// the threshold never collapses. At the threshold it collapses whenever
/// neither lateral neighbour is occupied.
pub proof fn lemma_collapse_threshold_boundary(occupied: Map<(int, int), int>, cell: (int, int))
    ensures
        height_of_column(occupied, cell) == COLLAPSE_THRESHOLD - 1 ==> !collapses(occupied, cell),
        height_of_column(occupied, cell) == COLLAPSE_THRESHOLD && !occupied.contains_key(left_of(cell))
            && !occupied.contains_key(right_of(cell)) ==> collapses(occupied, cell),
{
}

/// A cell with an occupied neighbour to its left or to its right never
/// collapses, however high its column.
pub proof fn lemma_lateral_support_prevents_collapse(occupied: Map<(int, int), int>, cell: (int, int))
    requires
        occupied.contains_key(left_of(cell)) || occupied.contains_key(right_of(cell)),
    ensures
        !collapses(occupied, cell),
{
}

/// A particle that the collapse pass picks has nine occupied cells beneath
/// it, so it lies high enough above the lowest row to be pushed down.
pub proof fn lemma_candidate_can_drop(particles: Seq<Particle>, index: int)
    requires
        picked(particles, index),
    ensures
        particles[index].y - DROP_STEP >= i32::MIN,
{
    let occupied = snapshot(particles);
    let cell = particles[index].cell();
    let support = beneath(cell, COLLAPSE_THRESHOLD - 1);
    lemma_run_down_occupied(occupied, cell.0, cell.1 - 1, COLLAPSE_THRESHOLD - 2);
    lemma_snapshot_entries(particles, particles.len() as int, support);
    lemma_cell_coord_bounds(particles[occupied[support]].y as int);
    lemma_cell_coord_nearest(particles[index].y as int, cell.1);
}

/// What one tick does to the particle on top of a column. If the snapshot
/// holds particle `index` in its cell, the tick pushes it down by one drop
/// step and sets it moving when its column has reached the threshold and has
/// no lateral support, and leaves it as it is in every other case.
pub proof fn lemma_tick_collapses_top_of_tall_column(particles: Seq<Particle>, index: int)
    requires
        0 <= index < particles.len(),
        snapshot(particles).contains_pair(particles[index].cell(), index),
    ensures
        after_tick(particles)[index] == if height_of_column(snapshot(particles), particles[index].cell())
            >= COLLAPSE_THRESHOLD && !snapshot(particles).contains_key(left_of(particles[index].cell()))
            && !snapshot(particles).contains_key(right_of(particles[index].cell())) {
            collapsed(particles[index], 1)
        } else {
            particles[index]
        },
        after_tick(particles)[index].y == particles[index].y || (after_tick(particles)[index].y
            == particles[index].y - DROP_STEP && after_tick(particles)[index].moving()),
{
    lemma_snapshot_entries(particles, particles.len() as int, particles[index].cell());
    if picked(particles, index) {
        lemma_candidate_can_drop(particles, index);
    }
}

/// In a list that names no particle twice, a particle occurs once if the
/// list names it and never otherwise.
pub proof fn lemma_occurrences_of_distinct(pending: Seq<usize>, index: int)
    requires
        forall|a: int, b: int| 0 <= a < b < pending.len() ==> pending[a] < pending[b],
    ensures
        occurrences(pending, index) == if 0 <= index <= usize::MAX && pending.contains(index as usize) {
            1nat
        } else {
            0nat
        },
    decreases pending.len(),
{
    if pending.len() > 0 {
        let shorter = pending.drop_last();
        lemma_occurrences_of_distinct(shorter, index);
        if pending.last() == index {
            assert(pending[pending.len() - 1] == index as usize);
            if shorter.contains(index as usize) {
                let k = choose|k: int| 0 <= k < shorter.len() && shorter[k] == index as usize;
                assert(pending[k] < pending[pending.len() - 1]);
            }
        } else if 0 <= index <= usize::MAX {
            if shorter.contains(index as usize) {
                let k = choose|k: int| 0 <= k < shorter.len() && shorter[k] == index as usize;
                assert(pending[k] == index as usize);
            }
            if pending.contains(index as usize) {
                let k = choose|k: int| 0 <= k < pending.len() && pending[k] == index as usize;
                assert(shorter[k] == index as usize);
            }
        }
    }
}

/// A tick destroys no particle and creates none, moves none sideways and
/// none upwards, recolours none, and settles none. A particle stays where it
/// is, or descends by a fall step, or by a drop step.
pub proof fn lemma_tick_keeps_particles(particles: Seq<Particle>, index: int)
    requires
        0 <= index < particles.len(),
    ensures
        after_tick(particles).len() == particles.len(),
        after_tick(particles)[index].x == particles[index].x,
        after_tick(particles)[index].color == particles[index].color,
        particles[index].moving() ==> after_tick(particles)[index].moving(),
        after_tick(particles)[index].y == particles[index].y || after_tick(particles)[index].y
            == particles[index].y - FALL_STEP || after_tick(particles)[index].y == particles[index].y
            - DROP_STEP,
{
    if picked(particles, index) {
        lemma_candidate_can_drop(particles, index);
    }
}

/// A particle that is not moving is inert: a tick leaves it exactly as it
/// is, and the snapshot does not hold it.
pub proof fn lemma_settled_particle_is_inert(particles: Seq<Particle>, index: int)
    requires
        0 <= index < particles.len(),
        !particles[index].moving(),
    ensures
        after_tick(particles)[index] == particles[index],
        forall|cell: (int, int)| !snapshot(particles).contains_pair(cell, index),
{
    assert forall|cell: (int, int)| !snapshot(particles).contains_pair(cell, index) by {
        if snapshot(particles).contains_key(cell) {
            lemma_snapshot_entries(particles, particles.len() as int, cell);
        }
    }
}

/// A particle at or below the ground does not fall. Within one tick it stays
/// exactly as it is, unless the collapse pass picks it; then it is pushed
/// down by one drop step and set moving.
pub proof fn lemma_grounded_particle_rests(particles: Seq<Particle>, index: int)
    requires
        0 <= index < particles.len(),
        particles[index].y <= GROUND_LEVEL,
    ensures
        !falls(particles, index),
        !picked(particles, index) ==> after_tick(particles)[index] == particles[index],
        picked(particles, index) ==> after_tick(particles)[index] == collapsed(particles[index], 1),
        after_tick(particles)[index].y == particles[index].y || after_tick(particles)[index].y
            == particles[index].y - DROP_STEP,
{
    if picked(particles, index) {
        lemma_candidate_can_drop(particles, index);
    }
}

/// Settling is for good. Over any number of ticks a particle at or below the
/// ground never falls again and never rises, and as long as the collapse pass
/// does not pick it, it does not change at all.
pub proof fn lemma_settle_is_monotonic(particles: Seq<Particle>, index: int, ticks: nat)
    requires
        0 <= index < particles.len(),
        particles[index].y <= GROUND_LEVEL,
    ensures
        after_ticks(particles, ticks).len() == particles.len(),
        after_ticks(particles, ticks)[index].y <= particles[index].y,
        !falls(after_ticks(particles, ticks), index),
        (forall|earlier: nat| earlier < ticks ==> !#[trigger] picked(after_ticks(particles, earlier), index))
            ==> after_ticks(particles, ticks)[index] == particles[index],
    decreases ticks,
{
    if ticks > 0 {
        let last = (ticks - 1) as nat;
        lemma_settle_is_monotonic(particles, index, last);
        lemma_grounded_particle_rests(after_ticks(particles, last), index);
        if forall|earlier: nat| earlier < ticks ==> !#[trigger] picked(after_ticks(particles, earlier), index) {
            assert(!picked(after_ticks(particles, last), index));
            assert forall|earlier: nat| earlier < last implies !#[trigger] picked(
                after_ticks(particles, earlier),
                index,
            ) by {
                assert(earlier < ticks);
            }
        }
    }
}

} // verus!
