//! The strength budget tracker: a per-turn ledger of strength already
//! committed to flow into (positive) or out of (negative) each cell, gating
//! every move so friendly forces never combine beyond the cap.

use vstd::prelude::*;

use crate::grid::Direction;
use crate::grid::GameMap;
use crate::grid::Location;
use crate::CAP_LIMIT;

verus! {

/// Bound on the number of commits one turn may perform; far beyond what any
/// board can produce, it only keeps the ledger's entries within range.
pub const COMMIT_LIMIT: u64 = 0x10_0000_0000;

/// The per-turn ledger. Entry `i` is the net strength committed to flow
/// into (positive) or out of (negative) the cell at row-major index `i`
/// this turn. Discarded at the end of the turn.
pub struct StrengthBudget {
    pub width: u16,
    pub height: u16,
    pub ledger: Vec<i64>,
    pub commits: u64,
}

impl StrengthBudget {
    pub open spec fn dims_match(self, map: GameMap) -> bool {
        &&& self.width == map.width
        &&& self.height == map.height
        &&& self.ledger@.len() == map.sites@.len()
    }

    /// Net strength already committed onto (or off) the cell at `loc`.
    pub open spec fn entry(self, map: GameMap, loc: Location) -> int {
        self.ledger@[map.index_of(loc)] as int
    }

    /// Well-formedness: the ledger never lets a friendly cell's resident
    /// strength plus its committed net inflow exceed the enforced cap, and
    /// no cell's committed inflow alone exceeds the cap either.
    pub open spec fn wf(self, map: GameMap, my_id: u8) -> bool {
        &&& map.valid()
        &&& self.dims_match(map)
        &&& self.commits <= COMMIT_LIMIT
        &&& forall|i: int|
            0 <= i < self.ledger@.len() ==> -255 * (self.commits as int) <= (
            #[trigger] self.ledger@[i]) as int <= CAP_LIMIT as int
        &&& forall|loc: Location|
            map.in_bounds(loc) && map.is_friendly(my_id, loc) ==> map.site(loc).strength as int
                + #[trigger] self.entry(map, loc) <= CAP_LIMIT as int
    }

    /// A fresh ledger for one turn, with nothing committed yet.
    pub fn new(map: &GameMap) -> (b: StrengthBudget)
        requires
            map.valid(),
        ensures
            b.dims_match(*map),
            b.commits == 0,
            forall|i: int| 0 <= i < b.ledger@.len() ==> b.ledger@[i] == 0,
            forall|id: u8| b.wf(*map, id),
    {
        let n = map.sites.len();
        let mut ledger: Vec<i64> = Vec::new();
        let mut j: usize = 0;
        while j < n
            invariant
                j <= n,
                ledger@.len() == j,
                forall|k: int| 0 <= k < j ==> ledger@[k] == 0,
            decreases n - j,
        {
            ledger.push(0);
            j += 1;
        }
        proof {
            assert forall|l: Location| map.in_bounds(l) implies 0 <= map.index_of(l)
                < map.sites@.len() by {
                map.lemma_index_in_range(l);
            }
        }
        StrengthBudget { width: map.width, height: map.height, ledger, commits: 0 }
    }
}

/// The net strength the ledger view holds for the cell at `loc`.
pub open spec fn ledger_at(map: GameMap, ledger: Seq<i64>, loc: Location) -> int {
    ledger[map.index_of(loc)] as int
}

/// Whether the budget accepts a move from `loc` one step along the cardinal
/// direction `d`: a friendly destination must keep resident strength plus
/// net committed inflow plus the moving strength within the cap, no
/// destination may be promised more inflow than the cap on top of what is
/// already committed, and the ledger must not be full.
pub open spec fn commit_accepted(
    map: GameMap,
    my_id: u8,
    ledger: Seq<i64>,
    commits: int,
    loc: Location,
    d: Direction,
) -> bool {
    let dest = map.spec_step(loc, d);
    let s = map.site(loc).strength as int;
    let resident = map.site(dest).strength as int;
    &&& (map.is_friendly(my_id, dest) ==> resident + ledger_at(map, ledger, dest) + s <= CAP_LIMIT
        as int)
    &&& ledger_at(map, ledger, dest) + s <= CAP_LIMIT as int
    &&& commits < COMMIT_LIMIT as int
}

/// The direction actually recorded for a proposed move: the proposal
/// itself when the budget accepts it, `Still` when it is downgraded.
pub open spec fn commit_dir(
    map: GameMap,
    my_id: u8,
    ledger: Seq<i64>,
    commits: int,
    loc: Location,
    d: Direction,
) -> Direction {
    if d is Still {
        Direction::Still
    } else if commit_accepted(map, my_id, ledger, commits, loc, d) {
        d
    } else {
        Direction::Still
    }
}

/// The ledger after a proposed move: unchanged when the move is `Still` or
/// rejected; otherwise the destination is credited and the source debited
/// by the moving strength.
pub open spec fn commit_ledger(
    map: GameMap,
    my_id: u8,
    ledger: Seq<i64>,
    commits: int,
    loc: Location,
    d: Direction,
) -> Seq<i64> {
    if d is Still || !commit_accepted(map, my_id, ledger, commits, loc, d) {
        ledger
    } else {
        let di = map.index_of(map.spec_step(loc, d));
        let si = map.index_of(loc);
        let s = map.site(loc).strength as int;
        let mid = ledger.update(di, (ledger[di] + s) as i64);
        mid.update(si, (mid[si] - s) as i64)
    }
}

/// The commit counter after a proposed move.
pub open spec fn commit_count(
    map: GameMap,
    my_id: u8,
    ledger: Seq<i64>,
    commits: int,
    loc: Location,
    d: Direction,
) -> int {
    if d is Still || !commit_accepted(map, my_id, ledger, commits, loc, d) {
        commits
    } else {
        commits + 1
    }
}

impl StrengthBudget {
    /// Reads the net strength already committed onto the cell at `loc`.
    pub fn get_entry(&self, map: &GameMap, loc: Location) -> (r: i64)
        requires
            map.valid(),
            self.dims_match(*map),
            map.in_bounds(loc),
        ensures
            r as int == self.entry(*map, loc),
    {
        let i = map.site_index(loc);
        self.ledger[i]
    }

    /// Gates one proposed move. Returns the direction to record: the
    /// proposal when accepted (and then debits the source and credits the
    /// destination), `Still` when the cap would be breached (and then the
    /// ledger is left unchanged).
    pub fn commit(&mut self, map: &GameMap, my_id: u8, loc: Location, d: Direction) -> (r:
        Direction)
        requires
            old(self).wf(*map, my_id),
            map.in_bounds(loc),
        ensures
            final(self).wf(*map, my_id),
            final(self).width == old(self).width,
            final(self).height == old(self).height,
            r == commit_dir(*map, my_id, old(self).ledger@, old(self).commits as int, loc, d),
            final(self).ledger@ == commit_ledger(
                *map,
                my_id,
                old(self).ledger@,
                old(self).commits as int,
                loc,
                d,
            ),
            final(self).commits as int == commit_count(
                *map,
                my_id,
                old(self).ledger@,
                old(self).commits as int,
                loc,
                d,
            ),
            r is Still && !(d is Still) ==> final(self).ledger@ == old(self).ledger@,
    {
        if let Direction::Still = d {
            return Direction::Still;
        }
        proof {
            assert forall|l: Location| map.in_bounds(l) implies 0 <= map.index_of(l)
                < map.sites@.len() by {
                map.lemma_index_in_range(l);
            }
        }
        let dest = map.get_location(loc, d);
        let di = map.site_index(dest);
        let si = map.site_index(loc);
        let s = map.get_site(loc, Direction::Still).strength as i64;
        let dest_cell = map.get_site(dest, Direction::Still);
        let resident = dest_cell.strength as i64;
        let assigned = self.ledger[di];
        let cap = CAP_LIMIT as i64;
        let ok = (dest_cell.owner != my_id || resident + assigned + s <= cap) && (assigned + s
            <= cap) && self.commits < COMMIT_LIMIT;
        if ok {
            self.ledger[di] = assigned + s;
            let v = self.ledger[si];
            self.ledger[si] = v - s;
            self.commits = self.commits + 1;
            proof {
                assert forall|loc2: Location|
                    map.in_bounds(loc2) && map.is_friendly(my_id, loc2) implies map.site(
                    loc2,
                ).strength as int + #[trigger] self.entry(*map, loc2) <= CAP_LIMIT as int by {
                    if map.index_of(loc2) != di && map.index_of(loc2) != si {
                        assert(self.entry(*map, loc2) == old(self).entry(*map, loc2));
                    }
                }
            }
            d
        } else {
            Direction::Still
        }
    }
}

} // verus!
