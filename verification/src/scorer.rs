//! The local-best move scorer and its per-cell measures: distance to the
//! nearest non-owned border, total adjacent friendly strength, and points
//! of interest.

use vstd::prelude::*;

use crate::budget::ledger_at;
use crate::budget::StrengthBudget;
use crate::grid::cardinal;
use crate::grid::loc_of_index;
use crate::grid::cardinal_at;
use crate::grid::reverse_cardinal;
use crate::grid::spec_reverse;
use crate::grid::Cell;
use crate::grid::Direction;
use crate::grid::GameMap;
use crate::grid::Location;
use crate::CAP_LIMIT;
use crate::WEAK_UNIT_FACTOR;
use crate::POI_PRODUCTION_FACTOR;

verus! {

/// The features of one candidate move, computed on demand for a cell and a
/// direction and never persisted across turns.
#[derive(Clone, Copy, PartialEq, Eq, Structural, Debug)]
pub struct MoveFeatures {
    pub loc: Location,
    pub d: Direction,
    pub owner_them: u8,
    pub distance: u16,
    pub friendly: bool,
    pub strength_us: u16,
    pub strength_them: u16,
    pub adjacent_strength_us: u16,
    pub assigned_strength: i64,
    pub production_us: u16,
    pub production_them: u16,
}

/// Sum of the strengths of the friendly cells among the four cardinal
/// neighbors of `loc`.
pub open spec fn spec_adjacent_strength(map: GameMap, my_id: u8, loc: Location) -> int {
    let n = map.spec_step(loc, Direction::North);
    let e = map.spec_step(loc, Direction::East);
    let s = map.spec_step(loc, Direction::South);
    let w = map.spec_step(loc, Direction::West);
    (if map.is_friendly(my_id, n) { map.site(n).strength as int } else { 0 })
        + (if map.is_friendly(my_id, e) { map.site(e).strength as int } else { 0 })
        + (if map.is_friendly(my_id, s) { map.site(s).strength as int } else { 0 })
        + (if map.is_friendly(my_id, w) { map.site(w).strength as int } else { 0 })
}

/// Total strength of the friendly cells among the four cardinal neighbors
/// of `loc`, used to judge whether several cells together can capture.
pub fn get_total_adjacent_strength(loc: Location, map: &GameMap, my_id: u8) -> (r: u16)
    requires
        map.valid(),
        map.in_bounds(loc),
    ensures
        r as int == spec_adjacent_strength(*map, my_id, loc),
{
    let cn = map.get_site(loc, Direction::North);
    let ce = map.get_site(loc, Direction::East);
    let cs = map.get_site(loc, Direction::South);
    let cw = map.get_site(loc, Direction::West);
    let mut total: u16 = 0;
    if cn.owner == my_id {
        total += cn.strength as u16;
    }
    if ce.owner == my_id {
        total += ce.strength as u16;
    }
    if cs.owner == my_id {
        total += cs.strength as u16;
    }
    if cw.owner == my_id {
        total += cw.strength as u16;
    }
    total
}

/// How many cells a ray can cross before it has gone once around the
/// board: the board height for vertical rays, else the width.
pub open spec fn axis_len(map: GameMap, d: Direction) -> int {
    match d {
        Direction::North => map.height as int,
        Direction::South => map.height as int,
        _ => map.width as int,
    }
}

/// The location `n` steps from `loc` in direction `d`.
pub open spec fn step_n(map: GameMap, loc: Location, d: Direction, n: nat) -> Location
    decreases n,
{
    if n == 0 {
        loc
    } else {
        map.spec_step(step_n(map, loc, d, (n - 1) as nat), d)
    }
}

/// Walks the ray from step `i` outward: the first step whose cell is not
/// owned by the player ends the walk, and a full wrap without finding one
/// yields the board's width.
pub open spec fn bd_from(map: GameMap, loc: Location, d: Direction, my_id: u8, i: int) -> int
    decreases axis_len(map, d) - i,
{
    if i < 1 || i >= axis_len(map, d) {
        map.width as int
    } else if !map.is_friendly(my_id, step_n(map, loc, d, i as nat)) {
        i - 1
    } else {
        bd_from(map, loc, d, my_id, i + 1)
    }
}

/// The number of owned cells on the ray from `loc` along `d`, up to the
/// first non-owned cell; the board's width if the player owns the whole
/// ray.
pub open spec fn spec_border_distance(map: GameMap, loc: Location, d: Direction, my_id: u8) -> int {
    bd_from(map, loc, d, my_id, 1)
}

proof fn lemma_bd_from_all_owned(map: GameMap, loc: Location, d: Direction, my_id: u8, i: int)
    requires
        1 <= i <= axis_len(map, d),
        forall|k: int|
            1 <= k < axis_len(map, d) ==> map.is_friendly(
                my_id,
                #[trigger] step_n(map, loc, d, k as nat),
            ),
    ensures
        bd_from(map, loc, d, my_id, i) == map.width,
    decreases axis_len(map, d) - i,
{
    if i < axis_len(map, d) {
        lemma_bd_from_all_owned(map, loc, d, my_id, i + 1);
    }
}

/// The distance to the border is the full board width exactly when the
/// acting player owns every cell along the directed ray.
pub proof fn lemma_border_distance_full_wrap(
    map: GameMap,
    loc: Location,
    d: Direction,
    my_id: u8,
)
    requires
        map.valid(),
        !(d is Still),
        forall|k: int|
            1 <= k < axis_len(map, d) ==> map.is_friendly(
                my_id,
                #[trigger] step_n(map, loc, d, k as nat),
            ),
    ensures
        spec_border_distance(map, loc, d, my_id) == map.width,
{
    lemma_bd_from_all_owned(map, loc, d, my_id, 1);
}

/// Walks outward from `loc` along `dir` counting owned cells until a
/// non-owned cell is found; a full wrap without finding one returns the
/// board's width, the signal that the player owns the entire ray.
pub fn distance_to_border(loc: Location, dir: Direction, map: &GameMap, my_id: u8) -> (r: u16)
    requires
        map.valid(),
        map.in_bounds(loc),
        !(dir is Still),
    ensures
        r as int == spec_border_distance(*map, loc, dir, my_id),
        (forall|k: int|
            1 <= k < axis_len(*map, dir) ==> map.is_friendly(
                my_id,
                #[trigger] step_n(*map, loc, dir, k as nat),
            )) ==> r == map.width,
{
    let axis: u16 = match dir {
        Direction::North => map.height,
        Direction::South => map.height,
        _ => map.width,
    };
    let mut l = map.get_location(loc, dir);
    let mut i: u16 = 1;
    proof {
        assert(step_n(*map, loc, dir, 1) == map.spec_step(step_n(*map, loc, dir, 0), dir));
        assert(step_n(*map, loc, dir, 0) == loc);
    }
    while i < axis
        invariant
            map.valid(),
            map.in_bounds(loc),
            map.in_bounds(l),
            !(dir is Still),
            1 <= i <= axis,
            axis as int == axis_len(*map, dir),
            l == step_n(*map, loc, dir, i as nat),
            spec_border_distance(*map, loc, dir, my_id) == bd_from(*map, loc, dir, my_id, i as int),
        decreases axis - i,
    {
        let c = map.get_site(l, Direction::Still);
        if c.owner != my_id {
            return i - 1;
        }
        l = map.get_location(l, dir);
        i += 1;
    }
    proof {
        if (forall|k: int|
            1 <= k < axis_len(*map, dir) ==> map.is_friendly(
                my_id,
                #[trigger] step_n(*map, loc, dir, k as nat),
            )) {
            lemma_bd_from_all_owned(*map, loc, dir, my_id, 1);
        }
    }
    map.width
}

/// Total production of the first `n` stored cells.
pub open spec fn sum_production(s: Seq<Cell>) -> int
    decreases s.len(),
{
    if s.len() == 0 {
        0
    } else {
        sum_production(s.drop_last()) + s.last().production as int
    }
}

/// The board's mean production per cell, rounded down.
pub open spec fn spec_avg_production(map: GameMap) -> int {
    sum_production(map.sites@) / (map.sites@.len() as int)
}

/// A point of interest: a non-owned cell whose production reaches the
/// configured multiple of the board's mean production.
pub open spec fn is_poi(map: GameMap, my_id: u8, loc: Location) -> bool {
    &&& map.site(loc).production as int >= POI_PRODUCTION_FACTOR as int * spec_avg_production(map)
    &&& !map.is_friendly(my_id, loc)
}

/// The points of interest among the first `n` cells, in row-major order.
pub open spec fn poi_list(map: GameMap, my_id: u8, n: int) -> Seq<Location>
    decreases n,
{
    if n <= 0 {
        Seq::empty()
    } else {
        let prev = poi_list(map, my_id, n - 1);
        let loc = loc_of_index(map, n - 1);
        if is_poi(map, my_id, loc) {
            prev.push(loc)
        } else {
            prev
        }
    }
}

/// Scans the whole board for points of interest, in row-major order.
pub fn find_poi(map: &GameMap, my_id: u8) -> (r: Vec<Location>)
    requires
        map.valid(),
    ensures
        r@ == poi_list(*map, my_id, map.sites@.len() as int),
        forall|k: int| 0 <= k < r@.len() ==> map.in_bounds(#[trigger] r@[k]),
{
    let n = map.sites.len();
    proof {
        map.lemma_area_bound();
    }
    let mut total: u64 = 0;
    let mut i: usize = 0;
    while i < n
        invariant
            map.valid(),
            n == map.sites@.len(),
            n <= 0x1_0000_0000,
            i <= n,
            total as int == sum_production(map.sites@.take(i as int)),
            total as int <= 255 * (i as int),
        decreases n - i,
    {
        let c = map.sites[i];
        proof {
            assert(map.sites@.take(i as int + 1).drop_last() =~= map.sites@.take(i as int));
            assert(map.sites@.take(i as int + 1).last() == map.sites@[i as int]);
        }
        total = total + c.production as u64;
        i += 1;
    }
    proof {
        assert(map.sites@.take(n as int) =~= map.sites@);
        map.lemma_index_in_range(Location { x: 0, y: 0 });
    }
    let avg = total / (n as u64);
    proof {
        assert(avg as int == spec_avg_production(*map));
        assert(avg <= 255) by (nonlinear_arith)
            requires
                avg as int == total as int / (n as int),
                total as int <= 255 * (n as int),
                1 <= n,
        ;
    }
    let threshold = (POI_PRODUCTION_FACTOR as u64) * avg;
    let mut result: Vec<Location> = Vec::new();
    let mut idx: usize = 0;
    while idx < n
        invariant
            map.valid(),
            n == map.sites@.len(),
            idx <= n,
            threshold as int == POI_PRODUCTION_FACTOR as int * spec_avg_production(*map),
            result@ == poi_list(*map, my_id, idx as int),
            forall|k: int| 0 <= k < result@.len() ==> map.in_bounds(#[trigger] result@[k]),
        decreases n - idx,
    {
        let w = map.width as usize;
        let xu = idx % w;
        let yu = idx / w;
        proof {
            assert(xu < w && (yu as int) < (map.height as int) && (yu as int * (w as int)
                + xu as int) == idx as int) by (nonlinear_arith)
                requires
                    w == map.width,
                    1 <= w,
                    idx < n,
                    n as int == map.width as int * map.height as int,
                    xu as int == idx as int % (w as int),
                    yu as int == idx as int / (w as int),
            ;
        }
        let x = xu as u16;
        let y = yu as u16;
        let loc = Location { x, y };
        proof {
            assert(map.index_of(loc) == idx as int);
            assert(loc == loc_of_index(*map, idx as int));
        }
        let c = map.sites[idx];
        proof {
            assert(c == map.site(loc));
        }
        if c.production as u64 >= threshold && c.owner != my_id {
            result.push(loc);
        }
        idx += 1;
    }
    result
}

/// Walks `i` upward keeping the first candidate of minimal distance seen
/// so far.
pub open spec fn best_poi_from(
    map: GameMap,
    l: Location,
    poi: Seq<Location>,
    i: int,
    cur: Location,
) -> Location
    decreases poi.len() - i,
{
    if i < 0 || i >= poi.len() {
        cur
    } else {
        let cand = poi[i];
        let next = if map.spec_distance(l, cand) < map.spec_distance(l, cur) {
            cand
        } else {
            cur
        };
        best_poi_from(map, l, poi, i + 1, next)
    }
}

/// The first point of interest of minimal toroidal distance to `l`, or the
/// default location (0, 0) when there is none.
pub open spec fn spec_closest_poi(map: GameMap, l: Location, poi: Seq<Location>) -> Location {
    if poi.len() == 0 {
        Location { x: 0, y: 0 }
    } else {
        best_poi_from(map, l, poi, 1, poi[0])
    }
}

/// Picks the closest point of interest to `l`, the earliest on ties;
/// a board with no point of interest yields the default location (0, 0).
pub fn find_closest_poi(l: Location, map: &GameMap, poi: &Vec<Location>) -> (r: Location)
    requires
        map.valid(),
        map.in_bounds(l),
        forall|k: int| 0 <= k < poi@.len() ==> map.in_bounds(#[trigger] poi@[k]),
    ensures
        r == spec_closest_poi(*map, l, poi@),
        poi@.len() > 0 ==> map.in_bounds(r),
{
    if poi.len() == 0 {
        return Location { x: 0, y: 0 };
    }
    let mut best = poi[0];
    let mut bd = map.get_distance(l, best);
    let mut i: usize = 1;
    while i < poi.len()
        invariant
            map.valid(),
            map.in_bounds(l),
            forall|k: int| 0 <= k < poi@.len() ==> map.in_bounds(#[trigger] poi@[k]),
            1 <= i <= poi@.len(),
            map.in_bounds(best),
            bd as int == map.spec_distance(l, best),
            spec_closest_poi(*map, l, poi@) == best_poi_from(*map, l, poi@, i as int, best),
        decreases poi@.len() - i,
    {
        let cand = poi[i];
        let cd = map.get_distance(l, cand);
        if cd < bd {
            best = cand;
            bd = cd;
        }
        i += 1;
    }
    best
}

/// The least of the four border distances around `loc`.
pub open spec fn min_scan_distance(map: GameMap, my_id: u8, loc: Location) -> int {
    let a = spec_border_distance(map, loc, Direction::North, my_id);
    let b = spec_border_distance(map, loc, Direction::East, my_id);
    let c = spec_border_distance(map, loc, Direction::South, my_id);
    let d = spec_border_distance(map, loc, Direction::West, my_id);
    let m1 = if b < a {
        b
    } else {
        a
    };
    let m2 = if c < m1 {
        c
    } else {
        m1
    };
    if d < m2 {
        d
    } else {
        m2
    }
}

/// The strength of the cell one step from `loc` along the `i`-th cardinal.
pub open spec fn cand_strength(map: GameMap, loc: Location, i: int) -> int {
    map.site(map.spec_step(loc, cardinal(i))).strength as int
}

/// The production of the cell one step from `loc` along the `i`-th
/// cardinal.
pub open spec fn cand_production(map: GameMap, loc: Location, i: int) -> int {
    map.site(map.spec_step(loc, cardinal(i))).production as int
}

/// Whether the `i`-th cardinal survives the scorer's filters from `loc`:
/// the cell is strong enough to move, the direction is tied for the
/// shortest border distance, a friendly destination stays within the cap
/// counting committed strength, and an attack must be backed by more
/// adjacent friendly strength than the destination's strength plus its
/// production.
pub open spec fn scorer_qualifies(
    map: GameMap,
    ledger: Seq<i64>,
    my_id: u8,
    loc: Location,
    i: int,
) -> bool {
    let d = cardinal(i);
    let dest = map.spec_step(loc, d);
    let me = map.site(loc);
    let them = map.site(dest);
    &&& me.strength as int >= WEAK_UNIT_FACTOR as int * me.production as int
    &&& spec_border_distance(map, loc, d, my_id) == min_scan_distance(map, my_id, loc)
    &&& (map.is_friendly(my_id, dest) ==> them.strength as int + ledger_at(map, ledger, dest)
        + me.strength as int <= CAP_LIMIT as int)
    &&& (!map.is_friendly(my_id, dest) ==> spec_adjacent_strength(map, my_id, dest)
        > them.strength as int + them.production as int)
}

/// The scorer's order: candidate `i` beats candidate `j` when its
/// destination has strictly lower strength, or equal strength and strictly
/// higher production.
pub open spec fn scorer_prefers(map: GameMap, loc: Location, i: int, j: int) -> bool {
    ||| cand_strength(map, loc, i) < cand_strength(map, loc, j)
    ||| (cand_strength(map, loc, i) == cand_strength(map, loc, j) && cand_production(map, loc, i)
        > cand_production(map, loc, j))
}

/// The best qualifying cardinal among the first `n`, scanned in order; on
/// a full tie the later one wins.
pub open spec fn scorer_best_upto(
    map: GameMap,
    ledger: Seq<i64>,
    my_id: u8,
    loc: Location,
    n: int,
) -> Option<int>
    decreases n,
{
    if n <= 0 {
        None
    } else {
        let prev = scorer_best_upto(map, ledger, my_id, loc, n - 1);
        if !scorer_qualifies(map, ledger, my_id, loc, n - 1) {
            prev
        } else {
            match prev {
                None => Some(n - 1),
                Some(p) => if scorer_prefers(map, loc, p, n - 1) {
                    prev
                } else {
                    Some(n - 1)
                },
            }
        }
    }
}

/// The rally proposals around `dest`: each friendly cardinal neighbor is
/// told to move toward `dest` by reversing the direction it lies in.
pub open spec fn rally_targets(map: GameMap, my_id: u8, dest: Location, n: int) -> Seq<
    (Location, Direction),
>
    decreases n,
{
    if n <= 0 {
        Seq::empty()
    } else {
        let prev = rally_targets(map, my_id, dest, n - 1);
        let nb = map.spec_step(dest, cardinal(n - 1));
        if map.is_friendly(my_id, nb) {
            prev.push((nb, spec_reverse(cardinal(n - 1))))
        } else {
            prev
        }
    }
}

/// What the scorer proposes for `loc`: stay when no direction survives the
/// filters; otherwise the best surviving direction, except that a capture
/// that would fail alone (the destination is at least as strong as the
/// cell) is turned into rally moves that gather the destination's friendly
/// neighbors onto it.
pub open spec fn spec_best_move(map: GameMap, ledger: Seq<i64>, my_id: u8, loc: Location) -> Seq<
    (Location, Direction),
> {
    match scorer_best_upto(map, ledger, my_id, loc, 4) {
        None => seq![(loc, Direction::Still)],
        Some(i) => {
            let d = cardinal(i);
            let dest = map.spec_step(loc, d);
            if !map.is_friendly(my_id, dest) && map.site(dest).strength >= map.site(loc).strength {
                rally_targets(map, my_id, dest, 4)
            } else {
                seq![(loc, d)]
            }
        },
    }
}

/// Executable test of the scorer's filters for the `i`-th cardinal.
fn scorer_qualifies_at(
    loc: Location,
    map: &GameMap,
    my_id: u8,
    budget: &StrengthBudget,
    i: usize,
    dist: u16,
    shortest: u16,
) -> (q: bool)
    requires
        map.valid(),
        map.in_bounds(loc),
        budget.wf(*map, my_id),
        i < 4,
        dist as int == spec_border_distance(*map, loc, cardinal(i as int), my_id),
        shortest as int == min_scan_distance(*map, my_id, loc),
    ensures
        q == scorer_qualifies(*map, budget.ledger@, my_id, loc, i as int),
{
    let d = cardinal_at(i);
    let me = map.get_site(loc, Direction::Still);
    let them = map.get_site(loc, d);
    let dest = map.get_location(loc, d);
    let adj = get_total_adjacent_strength(dest, map, my_id);
    let assigned = budget.get_entry(map, dest);
    let weak_ok = me.strength as u16 >= WEAK_UNIT_FACTOR * (me.production as u16);
    let dist_ok = dist == shortest;
    let friendly = them.owner == my_id;
    let cap_ok = !friendly || (them.strength as i64 + assigned + me.strength as i64 <= CAP_LIMIT
        as i64);
    let attack_ok = friendly || (adj as i64 > them.strength as i64 + them.production as i64);
    weak_ok && dist_ok && cap_ok && attack_ok
}

/// Scores the four cardinal moves from the owned cell at `loc` and
/// proposes what to do: the single best move, a stay, or a set of rally
/// moves onto a destination the cell cannot capture alone.
pub fn get_best_move_simple(
    loc: Location,
    map: &GameMap,
    my_id: u8,
    budget: &StrengthBudget,
) -> (r: Vec<(Location, Direction)>)
    requires
        map.valid(),
        map.in_bounds(loc),
        map.is_friendly(my_id, loc),
        budget.wf(*map, my_id),
    ensures
        r@ == spec_best_move(*map, budget.ledger@, my_id, loc),
        forall|k: int|
            0 <= k < r@.len() ==> map.in_bounds(#[trigger] r@[k].0) && map.is_friendly(
                my_id,
                r@[k].0,
            ),
{
    let dn = distance_to_border(loc, Direction::North, map, my_id);
    let de = distance_to_border(loc, Direction::East, map, my_id);
    let ds = distance_to_border(loc, Direction::South, map, my_id);
    let dw = distance_to_border(loc, Direction::West, map, my_id);
    let mut dists: Vec<u16> = Vec::new();
    dists.push(dn);
    dists.push(de);
    dists.push(ds);
    dists.push(dw);
    let mut shortest = dn;
    if de < shortest {
        shortest = de;
    }
    if ds < shortest {
        shortest = ds;
    }
    if dw < shortest {
        shortest = dw;
    }
    proof {
        assert(shortest as int == min_scan_distance(*map, my_id, loc));
        assert(dists@ =~= seq![dn, de, ds, dw]);
    }
    let mut best: Option<(Direction, u16, u16)> = None;
    let ghost mut gbest: Option<int> = None;
    let mut i: usize = 0;
    while i < 4
        invariant
            map.valid(),
            map.in_bounds(loc),
            map.is_friendly(my_id, loc),
            budget.wf(*map, my_id),
            i <= 4,
            dists@.len() == 4,
            forall|k: int|
                0 <= k < 4 ==> (#[trigger] dists@[k]) as int == spec_border_distance(
                    *map,
                    loc,
                    cardinal(k),
                    my_id,
                ),
            shortest as int == min_scan_distance(*map, my_id, loc),
            gbest == scorer_best_upto(*map, budget.ledger@, my_id, loc, i as int),
            (match (best, gbest) {
                (Option::None, Option::None) => true,
                (Option::Some((d, s, p)), Option::Some(bi)) => 0 <= bi < i && d == cardinal(bi)
                    && s as int == cand_strength(*map, loc, bi) && p as int == cand_production(
                    *map,
                    loc,
                    bi,
                ) && !(d is Still),
                _ => false,
            }),
        decreases 4 - i,
    {
        let dist = dists[i];
        let q = scorer_qualifies_at(loc, map, my_id, budget, i, dist, shortest);
        if q {
            let d = cardinal_at(i);
            let them = map.get_site(loc, d);
            let s = them.strength as u16;
            let p = them.production as u16;
            let take = match &best {
                Option::None => true,
                Option::Some((_, bs, bp)) => !(*bs < s || (*bs == s && *bp > p)),
            };
            if take {
                best = Some((d, s, p));
                proof {
                    gbest = Some(i as int);
                }
            }
        }
        i += 1;
    }
    match best {
        Option::None => {
            let mut r: Vec<(Location, Direction)> = Vec::new();
            r.push((loc, Direction::Still));
            proof {
                assert(r@ =~= seq![(loc, Direction::Still)]);
            }
            r
        },
        Option::Some((d, _s, _p)) => {
            let me = map.get_site(loc, Direction::Still);
            let destc = map.get_site(loc, d);
            let dest = map.get_location(loc, d);
            if destc.owner != my_id && destc.strength >= me.strength {
                let mut r: Vec<(Location, Direction)> = Vec::new();
                proof {
                    assert(r@ =~= rally_targets(*map, my_id, dest, 0));
                }
                let mut k: usize = 0;
                while k < 4
                    invariant
                        map.valid(),
                        map.in_bounds(dest),
                        k <= 4,
                        r@ == rally_targets(*map, my_id, dest, k as int),
                        forall|j: int|
                            0 <= j < r@.len() ==> map.in_bounds(#[trigger] r@[j].0)
                                && map.is_friendly(my_id, r@[j].0),
                    decreases 4 - k,
                {
                    let dd = cardinal_at(k);
                    let nb = map.get_location(dest, dd);
                    let nbc = map.get_site(nb, Direction::Still);
                    if nbc.owner == my_id {
                        r.push((nb, reverse_cardinal(dd)));
                    }
                    k += 1;
                }
                r
            } else {
                let mut r: Vec<(Location, Direction)> = Vec::new();
                r.push((loc, d));
                proof {
                    assert(r@ =~= seq![(loc, d)]);
                }
                r
            }
        },
    }
}

} // verus!
