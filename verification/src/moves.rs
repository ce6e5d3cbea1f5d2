//! The turn's output: one optional direction per board cell, built
//! incrementally as moves are committed.

use vstd::prelude::*;

use crate::grid::Direction;
use crate::grid::GameMap;
use crate::grid::Location;

verus! {

/// The move assignment for one turn: for each cell, either the direction
/// decided for it or nothing yet. Cells left unassigned default to `Still`
/// when the turn is finalized.
pub struct MoveAssignment {
    pub width: u16,
    pub height: u16,
    pub dirs: Vec<Option<Direction>>,
}

impl MoveAssignment {
    pub open spec fn dims_match(self, map: GameMap) -> bool {
        &&& self.width == map.width
        &&& self.height == map.height
        &&& self.dirs@.len() == map.sites@.len()
    }

    /// The direction assigned to `loc`, if any.
    pub open spec fn entry(self, map: GameMap, loc: Location) -> Option<Direction> {
        self.dirs@[map.index_of(loc)]
    }

    /// Every assigned cell is owned by the acting player: no stale or
    /// foreign entry is ever emitted.
    pub open spec fn owned_only(self, map: GameMap, my_id: u8) -> bool {
        forall|loc: Location|
            map.in_bounds(loc) && #[trigger] self.entry(map, loc) is Some ==> map.is_friendly(
                my_id,
                loc,
            )
    }

    /// An empty assignment for one turn.
    pub fn new(map: &GameMap) -> (m: MoveAssignment)
        requires
            map.valid(),
        ensures
            m.dims_match(*map),
            forall|i: int| 0 <= i < m.dirs@.len() ==> m.dirs@[i] is None,
            forall|id: u8| m.owned_only(*map, id),
    {
        let n = map.sites.len();
        let mut dirs: Vec<Option<Direction>> = Vec::new();
        let mut j: usize = 0;
        while j < n
            invariant
                j <= n,
                dirs@.len() == j,
                forall|k: int| 0 <= k < j ==> dirs@[k] is None,
            decreases n - j,
        {
            dirs.push(None);
            j += 1;
        }
        proof {
            assert forall|l: Location| map.in_bounds(l) implies 0 <= map.index_of(l)
                < map.sites@.len() by {
                map.lemma_index_in_range(l);
            }
        }
        MoveAssignment { width: map.width, height: map.height, dirs }
    }

    /// The direction assigned to `loc` so far, if any.
    pub fn get(&self, map: &GameMap, loc: Location) -> (r: Option<Direction>)
        requires
            map.valid(),
            self.dims_match(*map),
            map.in_bounds(loc),
        ensures
            r == self.entry(*map, loc),
    {
        let i = map.site_index(loc);
        self.dirs[i]
    }

    /// Records (or overwrites) a move for one of the player's own cells,
    /// keeping the owned-only invariant.
    pub fn set_owned(&mut self, map: &GameMap, my_id: u8, loc: Location, d: Direction)
        requires
            map.valid(),
            old(self).dims_match(*map),
            map.in_bounds(loc),
            map.is_friendly(my_id, loc),
            old(self).owned_only(*map, my_id),
        ensures
            final(self).dims_match(*map),
            final(self).dirs@ == old(self).dirs@.update(map.index_of(loc), Some(d)),
            final(self).owned_only(*map, my_id),
    {
        self.set(map, loc, d);
        proof {
            assert forall|loc2: Location|
                map.in_bounds(loc2) && #[trigger] self.entry(*map, loc2) is Some implies map
                .is_friendly(my_id, loc2) by {
                if map.index_of(loc2) == map.index_of(loc) {
                    map.lemma_index_injective(loc2, loc);
                }
            }
        }
    }

    /// Records (or overwrites) the direction assigned to `loc`.
    pub fn set(&mut self, map: &GameMap, loc: Location, d: Direction)
        requires
            map.valid(),
            old(self).dims_match(*map),
            map.in_bounds(loc),
        ensures
            final(self).dims_match(*map),
            final(self).dirs@ == old(self).dirs@.update(map.index_of(loc), Some(d)),
            final(self).entry(*map, loc) == Some(d),
            forall|loc2: Location|
                map.in_bounds(loc2) && map.index_of(loc2) != map.index_of(loc)
                    ==> #[trigger] final(self).entry(*map, loc2) == old(self).entry(*map, loc2),
    {
        let i = map.site_index(loc);
        self.dirs[i] = Some(d);
        proof {
            assert forall|l: Location| map.in_bounds(l) implies 0 <= map.index_of(l)
                < map.sites@.len() by {
                map.lemma_index_in_range(l);
            }
        }
    }
}

} // verus!
