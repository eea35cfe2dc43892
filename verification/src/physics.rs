//! The per-tick engine: fall or settle, find the columns that collapse, drop
//! the particles on top of them.

use vstd::prelude::*;
use crate::grid::Cell;
use crate::laws::{
    lemma_candidate_can_drop, lemma_occurrences_of_distinct, lemma_snapshot_entries,
};
use crate::model::{
    after_collapse, after_fall, after_tick, collapsed, collapses, falls, height_of_column,
    is_candidate, occurrences, run_down, snapshot, snapshot_of, COLLAPSE_THRESHOLD, DROP_STEP,
    FALL_STEP, GROUND_LEVEL,
};
use crate::occupancy::Occupancy;
use crate::particle::{Activity, Particle};

verus! {

/// Evaluates every moving particle once, in order. A particle that meets the
/// settle condition is registered in the snapshot and stays where it is; any
/// other moving particle descends by one fall step. Returns the completed
/// snapshot.
pub fn fall_or_settle(particles: &mut Vec<Particle>) -> (occupied: Occupancy)
    ensures
        final(particles)@ == after_fall(old(particles)@),
        occupied@ == snapshot(old(particles)@),
{
    let ghost before = particles@;
    let mut occupied = Occupancy::new();
    let mut index: usize = 0;
    while index < particles.len()
        invariant
            index <= particles.len(),
            particles.len() == before.len(),
            occupied@ == snapshot_of(before, index as int),
            forall|j: int| 0 <= j < index ==> particles@[j] == after_fall(before)[j],
            forall|j: int| index <= j < before.len() ==> particles@[j] == before[j],
        decreases particles.len() - index,
    {
        let particle = particles[index];
        if particle.is_moving() {
            let cell = particle.grid_cell();
            if particle.y <= GROUND_LEVEL || occupied.occupied_at(cell.x as i64, cell.y as i64 - 1) {
                occupied.insert(cell, index);
            } else {
                particles.set(index, Particle { y: particle.y - FALL_STEP, ..particle });
            }
        }
        index += 1;
    }
    assert(particles@ =~= after_fall(before));
    occupied
}

/// Counts the column that `cell` tops: one for the cell itself, and one for
/// each occupied cell on the way down until the first free one.
pub fn column_height(occupied: &Occupancy, cell: Cell) -> (height: u64)
    ensures
        height == height_of_column(occupied@, cell@),
{
    let mut height: u64 = 1;
    let mut row: i64 = cell.y as i64 - 1;
    while occupied.occupied_at(cell.x as i64, row)
        invariant
            1 <= height,
            row == cell.y - height,
            i32::MIN - 1 <= row,
            height_of_column(occupied@, cell@) == height + run_down(occupied@, cell.x as int, row as int),
        decreases row - i32::MIN + 1,
    {
        proof {
            occupied.lemma_entries_representable();
        }
        height += 1;
        row -= 1;
    }
    height
}

/// Whether the particle in `cell` is to collapse.
pub fn should_collapse(occupied: &Occupancy, cell: Cell) -> (collapse: bool)
    ensures
        collapse == collapses(occupied@, cell@),
{
    let height = column_height(occupied, cell);
    let has_left_support = occupied.occupied_at(cell.x as i64 - 1, cell.y as i64);
    let has_right_support = occupied.occupied_at(cell.x as i64 + 1, cell.y as i64);
    height >= COLLAPSE_THRESHOLD && !has_left_support && !has_right_support
}

/// Scans the completed snapshot for particles that must collapse: every
/// particle that the snapshot holds as the occupant of its cell, where the
/// collapse condition holds of that cell. Returns their indices in increasing
/// order, each once; no particle is touched.
pub fn collapse_candidates(particles: &Vec<Particle>, occupied: &Occupancy) -> (pending: Vec<usize>)
    ensures
        forall|a: int, b: int| 0 <= a < b < pending.len() ==> pending[a] < pending[b],
        forall|k: int|
            0 <= k < pending.len() ==> is_candidate(particles@, occupied@, #[trigger] pending[k] as int),
        forall|index: int| #[trigger]
            is_candidate(particles@, occupied@, index) ==> pending@.contains(index as usize),
{
    let mut pending: Vec<usize> = Vec::new();
    let mut index: usize = 0;
    while index < particles.len()
        invariant
            index <= particles.len(),
            forall|a: int, b: int| 0 <= a < b < pending.len() ==> pending[a] < pending[b],
            forall|k: int| 0 <= k < pending.len() ==> #[trigger] pending[k] < index,
            forall|k: int|
                0 <= k < pending.len() ==> is_candidate(
                    particles@,
                    occupied@,
                    #[trigger] pending[k] as int,
                ),
            forall|j: int|
                0 <= j < index && #[trigger] is_candidate(particles@, occupied@, j)
                    ==> pending@.contains(j as usize),
        decreases particles.len() - index,
    {
        let cell = particles[index].grid_cell();
        let registered = match occupied.occupant(cell) {
            Some(occupant) => occupant == index,
            None => false,
        };
        if registered && should_collapse(occupied, cell) {
            let ghost earlier = pending@;
            pending.push(index);
            proof {
                assert(pending@[earlier.len() as int] == index);
                assert forall|j: int|
                    0 <= j < index + 1 && #[trigger] is_candidate(
                        particles@,
                        occupied@,
                        j,
                    ) implies pending@.contains(j as usize) by {
                    if j < index {
                        let k = choose|k: int| 0 <= k < earlier.len() && earlier[k] == j as usize;
                        assert(pending@[k] == j as usize);
                    }
                }
            }
        }
        index += 1;
    }
    pending
}

proof fn lemma_occurrences_step(pending: Seq<usize>, count: int, index: int)
    requires
        0 <= count < pending.len(),
    ensures
        occurrences(pending.take(count + 1), index) == occurrences(pending.take(count), index)
            + if pending[count] == index {
            1nat
        } else {
            0nat
        },
{
    assert(pending.take(count + 1).drop_last() =~= pending.take(count));
}

proof fn lemma_occurrences_grow(pending: Seq<usize>, count: int, index: int)
    requires
        0 <= count <= pending.len(),
    ensures
        occurrences(pending.take(count), index) <= occurrences(pending, index),
    decreases pending.len() - count,
{
    if count == pending.len() {
        assert(pending.take(count) =~= pending);
    } else {
        lemma_occurrences_step(pending, count, index);
        lemma_occurrences_grow(pending, count + 1, index);
    }
}

/// Applies the pending collapses in order: each named particle is pushed down
/// by one drop step and set moving. An entry that names no particle is
/// skipped. No particle may be pushed below the lowest position of the world.
pub fn apply_collapse(particles: &mut Vec<Particle>, pending: &Vec<usize>)
    requires
        forall|index: int|
            0 <= index < old(particles).len() ==> old(particles)[index].y - DROP_STEP * occurrences(
                pending@,
                index,
            ) >= i32::MIN,
    ensures
        final(particles)@ == after_collapse(old(particles)@, pending@),
{
    let ghost before = particles@;
    let mut count: usize = 0;
    while count < pending.len()
        invariant
            count <= pending.len(),
            particles.len() == before.len(),
            forall|index: int|
                0 <= index < before.len() ==> before[index].y - DROP_STEP * occurrences(pending@, index)
                    >= i32::MIN,
            forall|index: int|
                0 <= index < before.len() ==> particles@[index] == collapsed(
                    before[index],
                    occurrences(pending@.take(count as int), index),
                ),
        decreases pending.len() - count,
    {
        let target = pending[count];
        proof {
            assert forall|index: int| 0 <= index < before.len() implies occurrences(
                pending@.take(count + 1),
                index,
            ) == occurrences(pending@.take(count as int), index) + if target == index {
                1nat
            } else {
                0nat
            } by {
                lemma_occurrences_step(pending@, count as int, index);
            }
        }
        if target < particles.len() {
            proof {
                lemma_occurrences_grow(pending@, count + 1, target as int);
                assert(DROP_STEP * occurrences(pending@.take(count + 1), target as int) <= DROP_STEP
                    * occurrences(pending@, target as int)) by (nonlinear_arith)
                    requires
                        occurrences(pending@.take(count + 1), target as int) <= occurrences(
                            pending@,
                            target as int,
                        ),
                ;
            }
            let particle = particles[target];
            particles.set(
                target,
                Particle { y: particle.y - DROP_STEP, activity: Activity::Moving, ..particle },
            );
        }
        count += 1;
    }
    proof {
        assert(pending@.take(pending.len() as int) =~= pending@);
        assert(particles@ =~= after_collapse(before, pending@));
    }
}

/// Advances the simulation by one tick: the fall rule on every moving
/// particle, then the scan for collapsing columns over the completed
/// snapshot, then the drop of the particles that the scan picked.
pub fn tick(particles: &mut Vec<Particle>)
    ensures
        final(particles)@ == after_tick(old(particles)@),
{
    let ghost before = particles@;
    let occupied = fall_or_settle(particles);
    let pending = collapse_candidates(particles, &occupied);
    proof {
        let settled = particles@;
        assert(settled.len() == particles.len());
        assert forall|index: int| 0 <= index < settled.len() implies #[trigger] occurrences(
            pending@,
            index,
        ) == if is_candidate(before, occupied@, index) {
            1nat
        } else {
            0nat
        } && !(falls(before, index) && is_candidate(before, occupied@, index)) && settled[index].y
            - DROP_STEP * occurrences(pending@, index) >= i32::MIN by {
            if occupied@.contains_key(settled[index].cell()) {
                lemma_snapshot_entries(before, before.len() as int, settled[index].cell());
            }
            if occupied@.contains_key(before[index].cell()) {
                lemma_snapshot_entries(before, before.len() as int, before[index].cell());
            }
            assert(is_candidate(settled, occupied@, index) <==> is_candidate(
                before,
                occupied@,
                index,
            ));
            lemma_occurrences_of_distinct(pending@, index);
            if pending@.contains(index as usize) {
                let k = choose|k: int| 0 <= k < pending.len() && pending[k] == index as usize;
                assert(is_candidate(settled, occupied@, pending[k] as int));
            }
            if is_candidate(before, occupied@, index) {
                lemma_candidate_can_drop(before, index);
            }
        }
    }
    apply_collapse(particles, &pending);
    assert(particles@ =~= after_tick(before));
}

} // verus!
