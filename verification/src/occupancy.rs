//! The occupancy snapshot: which particle holds which grid cell during one
//! tick.

use std::collections::HashMap;
use vstd::prelude::*;
use crate::grid::Cell;

verus! {

/// A mapping from grid cells to the index of the particle that occupies each.
/// It is built afresh on every tick and dropped at the end of it. A cell holds
/// at most one particle: registering a second one replaces the first.
pub struct Occupancy {
    slots: HashMap<i64, usize>,
}

/// Whether both coordinates of `cell` are coordinates of a `Cell`.
pub open spec fn representable(cell: (int, int)) -> bool {
    &&& i32::MIN <= cell.0 <= i32::MAX
    &&& i32::MIN <= cell.1 <= i32::MAX
}

/// The key under which a cell is filed: the column in the upper half of the
/// word, the row, counted from the lowest one, in the lower half.
spec fn slot_key(cell: (int, int)) -> int {
    cell.0 * 0x1_0000_0000 + (cell.1 + 0x8000_0000)
}

proof fn lemma_slot_key_injective(a: (int, int), b: (int, int))
    requires
        representable(a),
        representable(b),
        slot_key(a) == slot_key(b),
    ensures
        a == b,
{
}

proof fn lemma_slot_key_fits(cell: (int, int))
    requires
        representable(cell),
    ensures
        i64::MIN <= slot_key(cell) <= i64::MAX,
{
}

fn key_of(cell: Cell) -> (key: i64)
    ensures
        key == slot_key(cell@),
{
    (cell.x as i64) * 0x1_0000_0000 + (cell.y as i64 + 0x8000_0000)
}

impl View for Occupancy {
    type V = Map<(int, int), int>;

    closed spec fn view(&self) -> Map<(int, int), int> {
        Map::new(
            |cell: (int, int)| representable(cell) && self.slots@.contains_key(slot_key(cell) as i64),
            |cell: (int, int)| self.slots@[slot_key(cell) as i64] as int,
        )
    }
}

impl Occupancy {
    /// Every occupied cell is a cell that a `Cell` can name, and every
    /// occupant is an index.
    pub proof fn lemma_entries_representable(&self)
        ensures
            forall|cell: (int, int)| #[trigger]
                self@.contains_key(cell) ==> representable(cell) && 0 <= self@[cell] <= usize::MAX,
    {
    }

    /// A snapshot with no cell occupied.
    pub fn new() -> (occupied: Occupancy)
        ensures
            occupied@ == Map::<(int, int), int>::empty(),
    {
        let occupied = Occupancy { slots: HashMap::new() };
        assert(occupied@ =~= Map::<(int, int), int>::empty());
        occupied
    }

    /// Whether some particle occupies `cell`.
    pub fn contains(&self, cell: Cell) -> (occupied: bool)
        ensures
            occupied == self@.contains_key(cell@),
    {
        let key = key_of(cell);
        self.slots.contains_key(&key)
    }

    /// Whether some particle occupies column `x`, row `y`. Coordinates that no
    /// `Cell` can name are never occupied.
    pub fn occupied_at(&self, x: i64, y: i64) -> (occupied: bool)
        ensures
            occupied == self@.contains_key((x as int, y as int)),
    {
        if x < -0x8000_0000 || x > 0x7fff_ffff || y < -0x8000_0000 || y > 0x7fff_ffff {
            false
        } else {
            self.contains(Cell { x: x as i32, y: y as i32 })
        }
    }

    /// The particle that occupies `cell`, if any does.
    pub fn occupant(&self, cell: Cell) -> (occupant: Option<usize>)
        ensures
            match occupant {
                Some(particle) => self@.contains_pair(cell@, particle as int),
                None => !self@.contains_key(cell@),
            },
    {
        let key = key_of(cell);
        match self.slots.get(&key) {
            Some(particle) => Some(*particle),
            None => None,
        }
    }

    /// Registers `particle` as the occupant of `cell`, in place of any
    /// particle registered there before.
    pub fn insert(&mut self, cell: Cell, particle: usize)
        ensures
            final(self)@ == old(self)@.insert(cell@, particle as int),
    {
        let key = key_of(cell);
        self.slots.insert(key, particle);
        proof {
            assert forall|other: (int, int)| representable(other) && other != cell@ implies slot_key(
                other,
            ) as i64 != key by {
                lemma_slot_key_fits(other);
                if slot_key(other) == slot_key(cell@) {
                    lemma_slot_key_injective(other, cell@);
                }
            }
            assert(self@ =~= old(self)@.insert(cell@, particle as int));
        }
    }
}

} // verus!
