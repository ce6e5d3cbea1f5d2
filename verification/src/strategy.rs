//! The two whole-turn strategies: the role-based pipeline over classified
//! troops, the greedy capture resolver used while the unit count is small,
//! and the selector that picks between them.

use vstd::prelude::*;

use crate::budget::commit_count;
use crate::budget::commit_dir;
use crate::budget::commit_ledger;
use crate::budget::StrengthBudget;
use crate::classify::classify;
use crate::classify::spec_classify_all;
use crate::classify::spec_classify_seq;
use crate::classify::member_set;
use crate::classify::spec_classify;
use crate::classify::Troop;
use crate::grid::cardinal;
use crate::grid::cardinal_at;
use crate::grid::loc_of_index;
use crate::grid::reverse_cardinal;
use crate::grid::spec_reverse;
use crate::grid::Direction;
use crate::grid::GameMap;
use crate::grid::Location;
use crate::moves::MoveAssignment;
use crate::scorer::find_closest_poi;
use crate::scorer::find_poi;
use crate::scorer::get_best_move_simple;
use crate::scorer::get_total_adjacent_strength;
use crate::scorer::poi_list;
use crate::scorer::spec_adjacent_strength;
use crate::scorer::spec_best_move;
use crate::scorer::spec_closest_poi;
use crate::scorer::MoveFeatures;
use crate::CAP_LIMIT;
use crate::CAPTURE_WEAK_FACTOR;
use crate::GREEDY_UNIT_THRESHOLD;
use crate::WEAK_UNIT_FACTOR;

verus! {

/// The player's cells among the first `n` stored cells, in row-major
/// order.
pub open spec fn owned_list(map: GameMap, id: u8, n: int) -> Seq<Location>
    decreases n,
{
    if n <= 0 {
        Seq::empty()
    } else {
        let prev = owned_list(map, id, n - 1);
        let loc = loc_of_index(map, n - 1);
        if map.site(loc).owner == id {
            prev.push(loc)
        } else {
            prev
        }
    }
}

proof fn lemma_owned_list_complete(map: GameMap, id: u8, n: int, l: Location)
    requires
        map.valid(),
        map.in_bounds(l),
        map.site(l).owner == id,
        map.index_of(l) < n <= map.sites@.len(),
    ensures
        owned_list(map, id, n).contains(l),
    decreases n,
{
    if map.index_of(l) == n - 1 {
        map.lemma_loc_index_inverse(l);
        assert(owned_list(map, id, n).last() == l);
    } else {
        lemma_owned_list_complete(map, id, n - 1, l);
        let prev = owned_list(map, id, n - 1);
        let k = choose|k: int| 0 <= k < prev.len() && prev[k] == l;
        assert(owned_list(map, id, n)[k] == l);
    }
}

/// Scans the whole board and lists the cells the player owns, in
/// row-major order.
pub fn get_units_of_player(id: u8, map: &GameMap) -> (r: Vec<Location>)
    requires
        map.valid(),
    ensures
        r@ == owned_list(*map, id, map.sites@.len() as int),
        forall|k: int|
            0 <= k < r@.len() ==> map.in_bounds(#[trigger] r@[k]) && map.site(r@[k]).owner == id,
        r@.len() <= map.sites@.len(),
{
    let n = map.sites.len();
    let mut result: Vec<Location> = Vec::new();
    let mut idx: usize = 0;
    while idx < n
        invariant
            map.valid(),
            n == map.sites@.len(),
            idx <= n,
            result@ == owned_list(*map, id, idx as int),
            forall|k: int|
                0 <= k < result@.len() ==> map.in_bounds(#[trigger] result@[k]) && map.site(
                    result@[k],
                ).owner == id,
            result@.len() <= idx,
        decreases n - idx,
    {
        let w = map.width as usize;
        let xu = idx % w;
        let yu = idx / w;
        proof {
            assert(xu < w && (yu as int) < (map.height as int) && (yu as int * (w as int)
                + xu as int) == idx as int) by (nonlinear_arith)
                requires
                    w == map.width,
                    1 <= w,
                    idx < n,
                    n as int == map.width as int * map.height as int,
                    xu as int == idx as int % (w as int),
                    yu as int == idx as int / (w as int),
            ;
        }
        let loc = Location { x: xu as u16, y: yu as u16 };
        proof {
            assert(map.index_of(loc) == idx as int);
            assert(loc == loc_of_index(*map, idx as int));
        }
        let c = map.sites[idx];
        proof {
            assert(c == map.site(loc));
        }
        if c.owner == id {
            result.push(loc);
        }
        idx += 1;
    }
    result
}

/// The locations a role touches are on the board, and the cells it moves
/// are the player's own.
pub open spec fn troop_wf(map: GameMap, my_id: u8, t: Troop) -> bool {
    match t {
        Troop::Weak(l) => map.in_bounds(l) && map.is_friendly(my_id, l),
        Troop::Interior(l) => map.in_bounds(l) && map.is_friendly(my_id, l),
        Troop::VerticalWall(l) => map.in_bounds(l) && map.is_friendly(my_id, l),
        Troop::HorizontalWall(l) => map.in_bounds(l) && map.is_friendly(my_id, l),
        Troop::Pincer(l1, l2, e) => map.in_bounds(l1) && map.in_bounds(l2) && map.in_bounds(e)
            && map.is_friendly(my_id, l1) && map.is_friendly(my_id, l2),
        Troop::Pincer3(l1, l2, l3, e) => map.in_bounds(l1) && map.in_bounds(l2) && map.in_bounds(
            l3,
        ) && map.in_bounds(e) && map.is_friendly(my_id, l1) && map.is_friendly(my_id, l2)
            && map.is_friendly(my_id, l3),
        Troop::Lance(l) => map.in_bounds(l) && map.is_friendly(my_id, l),
        Troop::Island(l) => map.in_bounds(l) && map.is_friendly(my_id, l),
        Troop::Reinforcement(l) => map.in_bounds(l) && map.is_friendly(my_id, l),
        Troop::Unknown(l) => map.in_bounds(l) && map.is_friendly(my_id, l),
    }
}

proof fn lemma_spec_classify_wf(map: GameMap, my_id: u8, l: Location)
    requires
        map.valid(),
        map.in_bounds(l),
        map.is_friendly(my_id, l),
    ensures
        troop_wf(map, my_id, spec_classify(map, my_id, l)),
{
}

proof fn lemma_classify_seq_wf(
    map: GameMap,
    my_id: u8,
    locs: Seq<Location>,
    done: Set<Location>,
    acc: Seq<Troop>,
)
    requires
        map.valid(),
        forall|k: int|
            0 <= k < locs.len() ==> map.in_bounds(#[trigger] locs[k]) && map.is_friendly(
                my_id,
                locs[k],
            ),
        forall|k: int| 0 <= k < acc.len() ==> troop_wf(map, my_id, #[trigger] acc[k]),
    ensures
        forall|k: int|
            0 <= k < spec_classify_seq(map, my_id, locs, done, acc).len() ==> troop_wf(
                map,
                my_id,
                #[trigger] spec_classify_seq(map, my_id, locs, done, acc)[k],
            ),
    decreases locs.len(),
{
    if locs.len() == 0 {
        let r = spec_classify_seq(map, my_id, locs, done, acc);
        assert(r == acc);
        assert forall|k: int| 0 <= k < r.len() implies troop_wf(map, my_id, #[trigger] r[k]) by {
            assert(troop_wf(map, my_id, acc[k]));
        }
    } else {
        let l = locs[0];
        assert(forall|k: int|
            0 <= k < locs.drop_first().len() ==> map.in_bounds(#[trigger] locs.drop_first()[k])
                && map.is_friendly(my_id, locs.drop_first()[k]));
        if done.contains(l) {
            lemma_classify_seq_wf(map, my_id, locs.drop_first(), done, acc);
            assert(spec_classify_seq(map, my_id, locs, done, acc) == spec_classify_seq(
                map,
                my_id,
                locs.drop_first(),
                done,
                acc,
            ));
        } else {
            lemma_spec_classify_wf(map, my_id, l);
            let t0 = spec_classify(map, my_id, l);
            let t = if crate::classify::has_consumed_member(t0, done) {
                Troop::Unknown(l)
            } else {
                t0
            };
            let acc2 = acc.push(t);
            assert(forall|k: int| 0 <= k < acc2.len() ==> troop_wf(map, my_id, #[trigger] acc2[k]));
            lemma_classify_seq_wf(
                map,
                my_id,
                locs.drop_first(),
                done.union(member_set(t)),
                acc2,
            );
            assert(spec_classify_seq(map, my_id, locs, done, acc) == spec_classify_seq(
                map,
                my_id,
                locs.drop_first(),
                done.union(member_set(t)),
                acc2,
            ));
        }
    }
}

/// Every role of a classification pass over the player's own cells is
/// well-formed: on the board, moving only the player's cells.
pub proof fn lemma_classify_all_wf(map: GameMap, my_id: u8, locs: Seq<Location>)
    requires
        map.valid(),
        forall|k: int|
            0 <= k < locs.len() ==> map.in_bounds(#[trigger] locs[k]) && map.is_friendly(
                my_id,
                locs[k],
            ),
    ensures
        forall|k: int|
            0 <= k < spec_classify_all(map, my_id, locs).len() ==> troop_wf(
                map,
                my_id,
                #[trigger] spec_classify_all(map, my_id, locs)[k],
            ),
{
    lemma_classify_seq_wf(map, my_id, locs, Set::empty(), Seq::empty());
}

/// The first cardinal direction, in scan order, whose neighbor the cell at
/// `l` can beat: strictly weaker than `l`, and, when `only_unfriendly` is
/// set, not the player's own.
pub open spec fn first_attack_from(
    map: GameMap,
    my_id: u8,
    l: Location,
    i: int,
    only_unfriendly: bool,
) -> Option<Direction>
    decreases 4 - i,
{
    if i < 0 || i >= 4 {
        None
    } else {
        let d = cardinal(i);
        let dest = map.spec_step(l, d);
        if (!only_unfriendly || !map.is_friendly(my_id, dest)) && map.site(l).strength > map.site(
            dest,
        ).strength {
            Some(d)
        } else {
            first_attack_from(map, my_id, l, i + 1, only_unfriendly)
        }
    }
}

fn first_attack(l: Location, map: &GameMap, my_id: u8, only_unfriendly: bool) -> (r: Option<
    Direction,
>)
    requires
        map.valid(),
        map.in_bounds(l),
    ensures
        r == first_attack_from(*map, my_id, l, 0, only_unfriendly),
{
    let me = map.get_site(l, Direction::Still);
    let mut i: usize = 0;
    while i < 4
        invariant
            map.valid(),
            map.in_bounds(l),
            i <= 4,
            me == map.site(l),
            first_attack_from(*map, my_id, l, 0, only_unfriendly) == first_attack_from(
                *map,
                my_id,
                l,
                i as int,
                only_unfriendly,
            ),
        decreases 4 - i,
    {
        let d = cardinal_at(i);
        let dest = map.get_site(l, d);
        if (!only_unfriendly || dest.owner != my_id) && me.strength > dest.strength {
            return Some(d);
        }
        i += 1;
    }
    None
}

/// The proposals of the role-based move selector for one role, before the
/// budget gate: which member cells move, and where.
pub open spec fn spec_select_moves(
    map: GameMap,
    my_id: u8,
    poi: Seq<Location>,
    ledger: Seq<i64>,
    t: Troop,
) -> Seq<(Location, Direction)> {
    match t {
        Troop::Weak(l) => Seq::empty(),
        Troop::Interior(l) => {
            let me = map.site(l);
            if (me.strength as int) < WEAK_UNIT_FACTOR as int * me.production as int {
                seq![(l, Direction::Still)]
            } else {
                let d = map.spec_direction(l, spec_closest_poi(map, l, poi));
                if me.strength as int + map.site(map.spec_step(l, d)).strength as int > CAP_LIMIT
                    as int {
                    seq![(l, Direction::Still)]
                } else {
                    seq![(l, d)]
                }
            }
        },
        Troop::VerticalWall(l) => {
            let me = map.site(l);
            let west = map.spec_step(l, Direction::West);
            let east = map.spec_step(l, Direction::East);
            if !map.is_friendly(my_id, west) && me.strength > map.site(west).strength {
                seq![(l, Direction::West)]
            } else if !map.is_friendly(my_id, east) && me.strength > map.site(east).strength {
                seq![(l, Direction::East)]
            } else if (me.strength as int) < WEAK_UNIT_FACTOR as int * me.production as int {
                seq![(l, Direction::Still)]
            } else {
                let up = map.site(map.spec_step(l, Direction::North));
                let down = map.site(map.spec_step(l, Direction::South));
                if up.strength > me.strength {
                    seq![(l, Direction::North)]
                } else if down.strength > me.strength {
                    seq![(l, Direction::South)]
                } else {
                    seq![(l, Direction::Still)]
                }
            }
        },
        Troop::HorizontalWall(l) => {
            let me = map.site(l);
            let north = map.spec_step(l, Direction::North);
            let south = map.spec_step(l, Direction::South);
            if !map.is_friendly(my_id, north) && me.strength > map.site(north).strength {
                seq![(l, Direction::North)]
            } else if !map.is_friendly(my_id, south) && me.strength > map.site(south).strength {
                seq![(l, Direction::South)]
            } else if (me.strength as int) < WEAK_UNIT_FACTOR as int * me.production as int {
                seq![(l, Direction::Still)]
            } else {
                let west = map.site(map.spec_step(l, Direction::West));
                let east = map.site(map.spec_step(l, Direction::East));
                if west.strength > me.strength {
                    seq![(l, Direction::West)]
                } else if east.strength > me.strength {
                    seq![(l, Direction::East)]
                } else {
                    seq![(l, Direction::Still)]
                }
            }
        },
        Troop::Pincer(l1, l2, e) => {
            let s1 = map.site(l1).strength as int;
            let s2 = map.site(l2).strength as int;
            let se = map.site(e).strength as int;
            if s1 + s2 > se {
                seq![(l1, map.spec_direction(l1, e)), (l2, map.spec_direction(l2, e))]
            } else {
                seq![(l1, Direction::Still), (l2, Direction::Still)]
            }
        },
        Troop::Pincer3(l1, l2, l3, e) => {
            let s1 = map.site(l1).strength as int;
            let s2 = map.site(l2).strength as int;
            let s3 = map.site(l3).strength as int;
            let se = map.site(e).strength as int;
            if s1 + s2 > se {
                seq![(l1, map.spec_direction(l1, e)), (l2, map.spec_direction(l2, e))]
            } else if s3 + s2 > se {
                seq![(l3, map.spec_direction(l3, e)), (l2, map.spec_direction(l2, e))]
            } else if s3 + s2 + s1 > se {
                seq![
                    (l1, map.spec_direction(l1, e)),
                    (l2, map.spec_direction(l2, e)),
                    (l3, map.spec_direction(l3, e)),
                ]
            } else {
                seq![(l1, Direction::Still), (l2, Direction::Still), (l3, Direction::Still)]
            }
        },
        Troop::Lance(l) => {
            match first_attack_from(map, my_id, l, 0, true) {
                Some(d) => seq![(l, d)],
                None => Seq::empty(),
            }
        },
        Troop::Island(l) => {
            match first_attack_from(map, my_id, l, 0, false) {
                Some(d) => seq![(l, d)],
                None => Seq::empty(),
            }
        },
        Troop::Reinforcement(l) => spec_best_move(map, ledger, my_id, l),
        Troop::Unknown(l) => spec_best_move(map, ledger, my_id, l),
    }
}

/// Computes the move proposals of one classified role, per the role rules:
/// interiors march toward the closest point of interest, walls attack
/// across or reinforce along their line, pincers strike only with a
/// winning subset (a three-cell pincer tries each flanker paired with the
/// center before sending all three), lances and islands take the first
/// beatable neighbor, and the rest fall back to the local-best scorer.
pub fn select_moves(
    t: Troop,
    map: &GameMap,
    my_id: u8,
    poi: &Vec<Location>,
    budget: &StrengthBudget,
) -> (r: Vec<(Location, Direction)>)
    requires
        map.valid(),
        troop_wf(*map, my_id, t),
        budget.wf(*map, my_id),
        forall|k: int| 0 <= k < poi@.len() ==> map.in_bounds(#[trigger] poi@[k]),
    ensures
        r@ == spec_select_moves(*map, my_id, poi@, budget.ledger@, t),
        forall|k: int|
            0 <= k < r@.len() ==> map.in_bounds(#[trigger] r@[k].0) && map.is_friendly(
                my_id,
                r@[k].0,
            ),
{
    let mut r: Vec<(Location, Direction)> = Vec::new();
    match t {
        Troop::Weak(_l) => {},
        Troop::Interior(l) => {
            let me = map.get_site(l, Direction::Still);
            if (me.strength as u16) < WEAK_UNIT_FACTOR * (me.production as u16) {
                r.push((l, Direction::Still));
            } else {
                let closest = find_closest_poi(l, map, poi);
                let d = map.get_direction(l, closest);
                let destc = map.get_site(l, d);
                if me.strength as u16 + destc.strength as u16 > CAP_LIMIT {
                    r.push((l, Direction::Still));
                } else {
                    r.push((l, d));
                }
            }
        },
        Troop::VerticalWall(l) => {
            let me = map.get_site(l, Direction::Still);
            let left = map.get_site(l, Direction::West);
            let right = map.get_site(l, Direction::East);
            if left.owner != my_id && me.strength > left.strength {
                r.push((l, Direction::West));
            } else if right.owner != my_id && me.strength > right.strength {
                r.push((l, Direction::East));
            } else if (me.strength as u16) < WEAK_UNIT_FACTOR * (me.production as u16) {
                r.push((l, Direction::Still));
            } else {
                let up = map.get_site(l, Direction::North);
                let down = map.get_site(l, Direction::South);
                if up.strength > me.strength {
                    r.push((l, Direction::North));
                } else if down.strength > me.strength {
                    r.push((l, Direction::South));
                } else {
                    r.push((l, Direction::Still));
                }
            }
        },
        Troop::HorizontalWall(l) => {
            let me = map.get_site(l, Direction::Still);
            let up = map.get_site(l, Direction::North);
            let down = map.get_site(l, Direction::South);
            if up.owner != my_id && me.strength > up.strength {
                r.push((l, Direction::North));
            } else if down.owner != my_id && me.strength > down.strength {
                r.push((l, Direction::South));
            } else if (me.strength as u16) < WEAK_UNIT_FACTOR * (me.production as u16) {
                r.push((l, Direction::Still));
            } else {
                let left = map.get_site(l, Direction::West);
                let right = map.get_site(l, Direction::East);
                if left.strength > me.strength {
                    r.push((l, Direction::West));
                } else if right.strength > me.strength {
                    r.push((l, Direction::East));
                } else {
                    r.push((l, Direction::Still));
                }
            }
        },
        Troop::Pincer(l1, l2, e) => {
            let s1 = map.get_site(l1, Direction::Still).strength as u16;
            let s2 = map.get_site(l2, Direction::Still).strength as u16;
            let se = map.get_site(e, Direction::Still).strength as u16;
            if s1 + s2 > se {
                r.push((l1, map.get_direction(l1, e)));
                r.push((l2, map.get_direction(l2, e)));
            } else {
                r.push((l1, Direction::Still));
                r.push((l2, Direction::Still));
            }
        },
        Troop::Pincer3(l1, l2, l3, e) => {
            let s1 = map.get_site(l1, Direction::Still).strength as u16;
            let s2 = map.get_site(l2, Direction::Still).strength as u16;
            let s3 = map.get_site(l3, Direction::Still).strength as u16;
            let se = map.get_site(e, Direction::Still).strength as u16;
            if s1 + s2 > se {
                r.push((l1, map.get_direction(l1, e)));
                r.push((l2, map.get_direction(l2, e)));
            } else if s3 + s2 > se {
                r.push((l3, map.get_direction(l3, e)));
                r.push((l2, map.get_direction(l2, e)));
            } else if s3 + s2 + s1 > se {
                r.push((l1, map.get_direction(l1, e)));
                r.push((l2, map.get_direction(l2, e)));
                r.push((l3, map.get_direction(l3, e)));
            } else {
                r.push((l1, Direction::Still));
                r.push((l2, Direction::Still));
                r.push((l3, Direction::Still));
            }
        },
        Troop::Lance(l) => {
            if let Some(d) = first_attack(l, map, my_id, true) {
                r.push((l, d));
            }
        },
        Troop::Island(l) => {
            if let Some(d) = first_attack(l, map, my_id, false) {
                r.push((l, d));
            }
        },
        Troop::Reinforcement(l) => {
            r = get_best_move_simple(l, map, my_id, budget);
        },
        Troop::Unknown(l) => {
            r = get_best_move_simple(l, map, my_id, budget);
        },
    }
    proof {
        assert(r@ =~= spec_select_moves(*map, my_id, poi@, budget.ledger@, t));
    }
    r
}

/// Applies a proposal list in order through the budget. A cell that
/// already has a move keeps it (first come, first served); for any other
/// cell the budget decides whether its proposal stands or becomes `Still`.
pub open spec fn apply_props(
    map: GameMap,
    my_id: u8,
    props: Seq<(Location, Direction)>,
    ledger: Seq<i64>,
    commits: int,
    dirs: Seq<Option<Direction>>,
) -> (Seq<i64>, int, Seq<Option<Direction>>)
    decreases props.len(),
{
    if props.len() == 0 {
        (ledger, commits, dirs)
    } else {
        let l = props[0].0;
        let d = props[0].1;
        if dirs[map.index_of(l)] is Some {
            apply_props(map, my_id, props.drop_first(), ledger, commits, dirs)
        } else {
            let dd = commit_dir(map, my_id, ledger, commits, l, d);
            let ledger2 = commit_ledger(map, my_id, ledger, commits, l, d);
            let commits2 = commit_count(map, my_id, ledger, commits, l, d);
            let dirs2 = dirs.update(map.index_of(l), Some(dd));
            apply_props(map, my_id, props.drop_first(), ledger2, commits2, dirs2)
        }
    }
}

/// The whole role pipeline: each classified role is selected and its
/// proposals committed, in classifier order, so that earlier cells get
/// first claim on a destination's remaining capacity.
pub open spec fn run_troops(
    map: GameMap,
    my_id: u8,
    poi: Seq<Location>,
    troops: Seq<Troop>,
    ledger: Seq<i64>,
    commits: int,
    dirs: Seq<Option<Direction>>,
) -> (Seq<i64>, int, Seq<Option<Direction>>)
    decreases troops.len(),
{
    if troops.len() == 0 {
        (ledger, commits, dirs)
    } else {
        let props = spec_select_moves(map, my_id, poi, ledger, troops[0]);
        let st = apply_props(map, my_id, props, ledger, commits, dirs);
        run_troops(map, my_id, poi, troops.drop_first(), st.0, st.1, st.2)
    }
}

/// The move assignment the role pipeline produces for the whole board.
pub open spec fn spec_troop_strategy(map: GameMap, my_id: u8) -> Seq<Option<Direction>> {
    let n = map.sites@.len();
    let units = owned_list(map, my_id, n as int);
    let troops = spec_classify_all(map, my_id, units);
    let poi = poi_list(map, my_id, n as int);
    run_troops(
        map,
        my_id,
        poi,
        troops,
        Seq::new(n, |i: int| 0i64),
        0,
        Seq::new(n, |i: int| Option::<Direction>::None),
    ).2
}

/// The role-based strategy for one turn: classify every owned cell, select
/// each role's moves, and commit them through a fresh strength budget.
/// Cells no role moved are left unassigned.
pub fn troop_strategy(map: &GameMap, my_id: u8) -> (moves: MoveAssignment)
    requires
        map.valid(),
    ensures
        moves.dims_match(*map),
        moves.owned_only(*map, my_id),
        moves.dirs@ == spec_troop_strategy(*map, my_id),
{
    let units = get_units_of_player(my_id, map);
    let troops = classify(units, map, my_id);
    let poi = find_poi(map, my_id);
    let mut budget = StrengthBudget::new(map);
    let mut moves = MoveAssignment::new(map);
    let ghost init_ledger: Seq<i64> = budget.ledger@;
    let ghost init_dirs: Seq<Option<Direction>> = moves.dirs@;
    proof {
        assert(init_ledger =~= Seq::new(map.sites@.len(), |i: int| 0i64));
        assert(init_dirs =~= Seq::new(map.sites@.len(), |i: int| Option::<Direction>::None));
        lemma_classify_all_wf(*map, my_id, units@);
        assert(troops@.skip(0) =~= troops@);
    }
    let mut i: usize = 0;
    while i < troops.len()
        invariant
            map.valid(),
            budget.wf(*map, my_id),
            moves.dims_match(*map),
            moves.owned_only(*map, my_id),
            forall|k: int| 0 <= k < poi@.len() ==> map.in_bounds(#[trigger] poi@[k]),
            forall|k: int| 0 <= k < troops@.len() ==> troop_wf(*map, my_id, #[trigger] troops@[k]),
            i <= troops@.len(),
            run_troops(*map, my_id, poi@, troops@, init_ledger, 0, init_dirs) == run_troops(
                *map,
                my_id,
                poi@,
                troops@.skip(i as int),
                budget.ledger@,
                budget.commits as int,
                moves.dirs@,
            ),
        decreases troops@.len() - i,
    {
        let t = troops[i];
        let props = select_moves(t, map, my_id, &poi, &budget);
        let ghost ledger0: Seq<i64> = budget.ledger@;
        let ghost commits0: int = budget.commits as int;
        let ghost dirs0: Seq<Option<Direction>> = moves.dirs@;
        proof {
            assert(troops@.skip(i as int)[0] == troops@[i as int]);
            assert(troops@.skip(i as int).drop_first() =~= troops@.skip(i as int + 1));
            assert(props@.skip(0) =~= props@);
        }
        let mut j: usize = 0;
        while j < props.len()
            invariant
                map.valid(),
                budget.wf(*map, my_id),
                moves.dims_match(*map),
                moves.owned_only(*map, my_id),
                j <= props@.len(),
                forall|k: int|
                    0 <= k < props@.len() ==> map.in_bounds(#[trigger] props@[k].0)
                        && map.is_friendly(my_id, props@[k].0),
                apply_props(*map, my_id, props@, ledger0, commits0, dirs0) == apply_props(
                    *map,
                    my_id,
                    props@.skip(j as int),
                    budget.ledger@,
                    budget.commits as int,
                    moves.dirs@,
                ),
            decreases props@.len() - j,
        {
            let p = props[j];
            let l = p.0;
            let d = p.1;
            proof {
                assert(props@.skip(j as int)[0] == props@[j as int]);
                assert(props@.skip(j as int).drop_first() =~= props@.skip(j as int + 1));
                map.lemma_index_in_range(l);
            }
            let cur = moves.get(map, l);
            if cur.is_none() {
                let dd = budget.commit(map, my_id, l, d);
                moves.set_owned(map, my_id, l, dd);
            }
            j += 1;
        }
        proof {
            assert(props@.skip(props@.len() as int) =~= Seq::<(Location, Direction)>::empty());
            let st = apply_props(*map, my_id, props@, ledger0, commits0, dirs0);
            assert(st == (budget.ledger@, budget.commits as int, moves.dirs@));
        }
        i += 1;
    }
    proof {
        assert(troops@.skip(troops@.len() as int) =~= Seq::<Troop>::empty());
    }
    moves
}

/// Whether moving from `l` along the `i`-th cardinal is a capture
/// opportunity: the cell is strong enough, the destination is not the
/// player's, and adjacent friendly strength plus the cell's own strength
/// beats the destination.
pub open spec fn capture_candidate_ok(map: GameMap, my_id: u8, l: Location, i: int) -> bool {
    let dest = map.spec_step(l, cardinal(i));
    let me = map.site(l);
    let them = map.site(dest);
    &&& me.strength as int > CAPTURE_WEAK_FACTOR as int * me.production as int
    &&& !map.is_friendly(my_id, dest)
    &&& spec_adjacent_strength(map, my_id, l) + me.strength as int > them.strength as int
}

/// The features recorded for a capture candidate.
pub open spec fn capture_features(map: GameMap, my_id: u8, l: Location, i: int) -> MoveFeatures {
    let d = cardinal(i);
    let dest = map.spec_step(l, d);
    let me = map.site(l);
    let them = map.site(dest);
    MoveFeatures {
        loc: l,
        d,
        owner_them: them.owner,
        distance: 1,
        friendly: map.is_friendly(my_id, dest),
        strength_us: me.strength as u16,
        strength_them: them.strength as u16,
        adjacent_strength_us: spec_adjacent_strength(map, my_id, l) as u16,
        assigned_strength: 0,
        production_us: me.production as u16,
        production_them: them.production as u16,
    }
}

/// The capture candidates of one cell, from the `i`-th cardinal on, in
/// scan order.
pub open spec fn cands_for_cell(map: GameMap, my_id: u8, l: Location, i: int) -> Seq<MoveFeatures>
    decreases 4 - i,
{
    if i < 0 || i >= 4 {
        Seq::empty()
    } else {
        let rest = cands_for_cell(map, my_id, l, i + 1);
        if capture_candidate_ok(map, my_id, l, i) {
            seq![capture_features(map, my_id, l, i)] + rest
        } else {
            rest
        }
    }
}

/// All capture candidates of the units from index `k` on, each unit
/// contributing its four cardinals in scan order.
pub open spec fn capture_cands(map: GameMap, my_id: u8, units: Seq<Location>, k: int) -> Seq<
    MoveFeatures,
>
    decreases units.len() - k,
{
    if k < 0 || k >= units.len() {
        Seq::empty()
    } else {
        cands_for_cell(map, my_id, units[k], 0) + capture_cands(map, my_id, units, k + 1)
    }
}

/// The resolver's priority: richer destination production first, then
/// higher own strength, then higher destination strength.
pub open spec fn better_key(a: MoveFeatures, b: MoveFeatures) -> bool {
    ||| a.production_them > b.production_them
    ||| (a.production_them == b.production_them && a.strength_us > b.strength_us)
    ||| (a.production_them == b.production_them && a.strength_us == b.strength_us
        && a.strength_them > b.strength_them)
}

/// Index of the highest-priority candidate, scanning from `i` with `cur`
/// best so far; the later candidate wins a full tie.
pub open spec fn pick_from(cands: Seq<MoveFeatures>, i: int, cur: int) -> int
    decreases cands.len() - i,
{
    if i < 0 || i >= cands.len() {
        cur
    } else {
        let next = if better_key(cands[cur], cands[i]) {
            cur
        } else {
            i
        };
        pick_from(cands, i + 1, next)
    }
}

/// Index of the highest-priority remaining candidate.
pub open spec fn pick_best(cands: Seq<MoveFeatures>) -> int {
    pick_from(cands, 1, 0)
}

proof fn lemma_pick_from_in_range(cands: Seq<MoveFeatures>, i: int, cur: int)
    requires
        0 <= cur < cands.len(),
    ensures
        0 <= pick_from(cands, i, cur) < cands.len(),
    decreases cands.len() - i,
{
    if 0 <= i < cands.len() {
        let next = if better_key(cands[cur], cands[i]) {
            cur
        } else {
            i
        };
        lemma_pick_from_in_range(cands, i + 1, next);
    }
}

/// Tells every owned, still-unassigned cardinal neighbor of `target` to
/// move onto it, reversing the direction each neighbor lies in.
pub open spec fn rally_around(
    map: GameMap,
    my_id: u8,
    target: Location,
    dirs: Seq<Option<Direction>>,
    k: int,
) -> Seq<Option<Direction>>
    decreases 4 - k,
{
    if k < 0 || k >= 4 {
        dirs
    } else {
        let nb = map.spec_step(target, cardinal(k));
        let dirs2 = if map.is_friendly(my_id, nb) && dirs[map.index_of(nb)] is None {
            dirs.update(map.index_of(nb), Some(spec_reverse(cardinal(k))))
        } else {
            dirs
        };
        rally_around(map, my_id, target, dirs2, k + 1)
    }
}

/// Resolves one candidate: a cell already assigned is skipped; a cell
/// strong enough alone captures directly; otherwise the target's friendly
/// neighbors are rallied onto it and the origin stays still.
pub open spec fn apply_capture(
    map: GameMap,
    my_id: u8,
    dirs: Seq<Option<Direction>>,
    m: MoveFeatures,
) -> Seq<Option<Direction>> {
    if dirs[map.index_of(m.loc)] is Some {
        dirs
    } else if m.strength_us > m.strength_them {
        dirs.update(map.index_of(m.loc), Some(m.d))
    } else {
        let target = map.spec_step(m.loc, m.d);
        let dirs2 = rally_around(map, my_id, target, dirs, 0);
        dirs2.update(map.index_of(m.loc), Some(Direction::Still))
    }
}

/// Resolves all candidates, repeatedly taking the highest-priority one
/// left.
pub open spec fn greedy_resolve(
    map: GameMap,
    my_id: u8,
    cands: Seq<MoveFeatures>,
    dirs: Seq<Option<Direction>>,
) -> Seq<Option<Direction>>
    decreases cands.len(),
{
    if cands.len() == 0 {
        dirs
    } else {
        let mi = pick_best(cands);
        if 0 <= mi < cands.len() {
            greedy_resolve(map, my_id, cands.remove(mi), apply_capture(map, my_id, dirs, cands[mi]))
        } else {
            dirs
        }
    }
}

/// Assigns `Still` to every unit from index `k` on that has no move yet.
pub open spec fn fill_still(
    map: GameMap,
    units: Seq<Location>,
    dirs: Seq<Option<Direction>>,
    k: int,
) -> Seq<Option<Direction>>
    decreases units.len() - k,
{
    if k < 0 || k >= units.len() {
        dirs
    } else {
        let l = units[k];
        let dirs2 = if dirs[map.index_of(l)] is None {
            dirs.update(map.index_of(l), Some(Direction::Still))
        } else {
            dirs
        };
        fill_still(map, units, dirs2, k + 1)
    }
}

/// The move assignment the greedy capture resolver produces.
pub open spec fn spec_max_capture(map: GameMap, my_id: u8) -> Seq<Option<Direction>> {
    let n = map.sites@.len();
    let units = owned_list(map, my_id, n as int);
    let cands = capture_cands(map, my_id, units, 0);
    let dirs0 = Seq::new(n, |i: int| Option::<Direction>::None);
    fill_still(map, units, greedy_resolve(map, my_id, cands, dirs0), 0)
}

/// A candidate only ever moves one of the player's own board cells.
pub open spec fn cand_wf(map: GameMap, my_id: u8, m: MoveFeatures) -> bool {
    map.in_bounds(m.loc) && map.is_friendly(my_id, m.loc)
}

/// The greedy capture resolver: ranks every winnable (cell, direction)
/// capture opportunity and resolves them greedily, richest first; a cell
/// that cannot capture alone stays still and rallies the target's
/// neighbors instead; every remaining unit defaults to `Still`, so each
/// owned cell ends the turn with exactly one direction.
pub fn max_capture_strategy(game_map: &GameMap, my_id: u8) -> (moves: MoveAssignment)
    requires
        game_map.valid(),
    ensures
        moves.dims_match(*game_map),
        moves.owned_only(*game_map, my_id),
        moves.dirs@ == spec_max_capture(*game_map, my_id),
        forall|l: Location|
            game_map.in_bounds(l) && game_map.is_friendly(my_id, l) ==> #[trigger] moves.entry(
                *game_map,
                l,
            ) is Some,
{
    let my_units = get_units_of_player(my_id, game_map);
    let mut cands: Vec<MoveFeatures> = Vec::new();
    proof {
        assert(capture_cands(*game_map, my_id, my_units@, 0) =~= cands@ + capture_cands(
            *game_map,
            my_id,
            my_units@,
            0,
        ));
    }
    let mut k: usize = 0;
    while k < my_units.len()
        invariant
            game_map.valid(),
            forall|j: int|
                0 <= j < my_units@.len() ==> game_map.in_bounds(#[trigger] my_units@[j])
                    && game_map.site(my_units@[j]).owner == my_id,
            k <= my_units@.len(),
            capture_cands(*game_map, my_id, my_units@, 0) == cands@ + capture_cands(
                *game_map,
                my_id,
                my_units@,
                k as int,
            ),
            forall|j: int|
                0 <= j < cands@.len() ==> cand_wf(*game_map, my_id, #[trigger] cands@[j]),
        decreases my_units@.len() - k,
    {
        let l = my_units[k];
        let me = game_map.get_site(l, Direction::Still);
        let adj = get_total_adjacent_strength(l, game_map, my_id);
        let mut i: usize = 0;
        proof {
            assert(capture_cands(*game_map, my_id, my_units@, k as int) == cands_for_cell(
                *game_map,
                my_id,
                l,
                0,
            ) + capture_cands(*game_map, my_id, my_units@, k as int + 1));
        }
        while i < 4
            invariant
                game_map.valid(),
                i <= 4,
                k < my_units@.len(),
                l == my_units@[k as int],
                game_map.in_bounds(l),
                game_map.site(l).owner == my_id,
                me == game_map.site(l),
                adj as int == spec_adjacent_strength(*game_map, my_id, l),
                capture_cands(*game_map, my_id, my_units@, 0) == cands@ + cands_for_cell(
                    *game_map,
                    my_id,
                    l,
                    i as int,
                ) + capture_cands(*game_map, my_id, my_units@, k as int + 1),
                forall|j: int|
                    0 <= j < cands@.len() ==> cand_wf(*game_map, my_id, #[trigger] cands@[j]),
            decreases 4 - i,
        {
            let d = cardinal_at(i);
            let them = game_map.get_site(l, d);
            let ok = me.strength as u16 > CAPTURE_WEAK_FACTOR * (me.production as u16)
                && them.owner != my_id && adj + (me.strength as u16) > (them.strength as u16);
            if ok {
                let ghost cands_old = cands@;
                let f = MoveFeatures {
                    loc: l,
                    d,
                    owner_them: them.owner,
                    distance: 1,
                    friendly: them.owner == my_id,
                    strength_us: me.strength as u16,
                    strength_them: them.strength as u16,
                    adjacent_strength_us: adj,
                    assigned_strength: 0,
                    production_us: me.production as u16,
                    production_them: them.production as u16,
                };
                cands.push(f);
                proof {
                    assert(f == capture_features(*game_map, my_id, l, i as int));
                    assert(cands_old + (seq![f] + cands_for_cell(*game_map, my_id, l, i as int + 1))
                        + capture_cands(*game_map, my_id, my_units@, k as int + 1) =~= cands@
                        + cands_for_cell(*game_map, my_id, l, i as int + 1) + capture_cands(
                        *game_map,
                        my_id,
                        my_units@,
                        k as int + 1,
                    ));
                }
            }
            i += 1;
        }
        proof {
            assert(cands_for_cell(*game_map, my_id, l, 4) =~= Seq::<MoveFeatures>::empty());
            assert(cands@ + Seq::<MoveFeatures>::empty() + capture_cands(
                *game_map,
                my_id,
                my_units@,
                k as int + 1,
            ) =~= cands@ + capture_cands(*game_map, my_id, my_units@, k as int + 1));
        }
        k += 1;
    }
    proof {
        assert(capture_cands(*game_map, my_id, my_units@, my_units@.len() as int) =~= Seq::<
            MoveFeatures,
        >::empty());
        assert(cands@ + Seq::<MoveFeatures>::empty() =~= cands@);
    }
    let mut moves = MoveAssignment::new(game_map);
    let ghost cands0: Seq<MoveFeatures> = cands@;
    let ghost dirs0: Seq<Option<Direction>> = moves.dirs@;
    while cands.len() > 0
        invariant
            game_map.valid(),
            moves.dims_match(*game_map),
            moves.owned_only(*game_map, my_id),
            forall|j: int|
                0 <= j < cands@.len() ==> cand_wf(*game_map, my_id, #[trigger] cands@[j]),
            greedy_resolve(*game_map, my_id, cands0, dirs0) == greedy_resolve(
                *game_map,
                my_id,
                cands@,
                moves.dirs@,
            ),
        decreases cands@.len(),
    {
        let ghost cands_pre = cands@;
        let ghost dirs_pre = moves.dirs@;
        let mut bi: usize = 0;
        let mut kk: usize = 1;
        while kk < cands.len()
            invariant
                1 <= kk <= cands@.len(),
                bi < kk,
                cands@.len() > 0,
                pick_best(cands@) == pick_from(cands@, kk as int, bi as int),
            decreases cands@.len() - kk,
        {
            let a = cands[bi];
            let c = cands[kk];
            let better = a.production_them > c.production_them || (a.production_them
                == c.production_them && a.strength_us > c.strength_us) || (a.production_them
                == c.production_them && a.strength_us == c.strength_us && a.strength_them
                > c.strength_them);
            if !better {
                bi = kk;
            }
            kk += 1;
        }
        let m = cands.remove(bi);
        proof {
            cands_pre.remove_ensures(bi as int);
            assert forall|j: int| 0 <= j < cands@.len() implies cand_wf(
                *game_map,
                my_id,
                #[trigger] cands@[j],
            ) by {
                if j < bi {
                    assert(cands@[j] == cands_pre[j]);
                } else {
                    assert(cands@[j] == cands_pre[j + 1]);
                }
            }
        }
        let assigned = moves.get(game_map, m.loc);
        if assigned.is_none() {
            if m.strength_us > m.strength_them {
                moves.set_owned(game_map, my_id, m.loc, m.d);
            } else {
                let target = game_map.get_location(m.loc, m.d);
                let ghost dirs_r = moves.dirs@;
                let mut k2: usize = 0;
                while k2 < 4
                    invariant
                        game_map.valid(),
                        moves.dims_match(*game_map),
                        moves.owned_only(*game_map, my_id),
                        game_map.in_bounds(target),
                        k2 <= 4,
                        rally_around(*game_map, my_id, target, dirs_r, 0) == rally_around(
                            *game_map,
                            my_id,
                            target,
                            moves.dirs@,
                            k2 as int,
                        ),
                    decreases 4 - k2,
                {
                    let dd = cardinal_at(k2);
                    let nb = game_map.get_location(target, dd);
                    let nbc = game_map.get_site(nb, Direction::Still);
                    if nbc.owner == my_id {
                        if moves.get(game_map, nb).is_none() {
                            moves.set_owned(game_map, my_id, nb, reverse_cardinal(dd));
                        }
                    }
                    k2 += 1;
                }
                moves.set_owned(game_map, my_id, m.loc, Direction::Still);
            }
        }
        proof {
            assert(moves.dirs@ == apply_capture(*game_map, my_id, dirs_pre, m));
            assert(greedy_resolve(*game_map, my_id, cands_pre, dirs_pre) == greedy_resolve(
                *game_map,
                my_id,
                cands@,
                moves.dirs@,
            )) by {
                lemma_pick_from_in_range(cands_pre, 1, 0);
                assert(bi as int == pick_best(cands_pre));
                assert(cands@ == cands_pre.remove(bi as int));
            }
        }
    }
    proof {
        assert(greedy_resolve(*game_map, my_id, cands@, moves.dirs@) == moves.dirs@);
        assert(dirs0 =~= Seq::new(game_map.sites@.len(), |i: int| Option::<Direction>::None));
    }
    finalize_defaults(&mut moves, game_map, my_id, &my_units);
    moves
}

/// Defaults every still-unassigned owned cell to `Still`, so that the
/// finished turn holds exactly one direction for every owned cell and
/// none for any other.
pub fn finalize_defaults(
    moves: &mut MoveAssignment,
    map: &GameMap,
    my_id: u8,
    units: &Vec<Location>,
)
    requires
        map.valid(),
        old(moves).dims_match(*map),
        old(moves).owned_only(*map, my_id),
        units@ == owned_list(*map, my_id, map.sites@.len() as int),
        forall|j: int|
            0 <= j < units@.len() ==> map.in_bounds(#[trigger] units@[j]) && map.site(
                units@[j],
            ).owner == my_id,
    ensures
        final(moves).dims_match(*map),
        final(moves).owned_only(*map, my_id),
        final(moves).dirs@ == fill_still(*map, units@, old(moves).dirs@, 0),
        forall|l: Location|
            map.in_bounds(l) && map.is_friendly(my_id, l) ==> #[trigger] final(moves).entry(
                *map,
                l,
            ) is Some,
{
    let ghost dirs_g: Seq<Option<Direction>> = moves.dirs@;
    proof {
        assert forall|l2: Location| map.in_bounds(l2) implies 0 <= map.index_of(l2)
            < map.sites@.len() by {
            map.lemma_index_in_range(l2);
        }
    }
    let mut k3: usize = 0;
    while k3 < units.len()
        invariant
            map.valid(),
            moves.dims_match(*map),
            moves.owned_only(*map, my_id),
            forall|j: int|
                0 <= j < units@.len() ==> map.in_bounds(#[trigger] units@[j]) && map.site(
                    units@[j],
                ).owner == my_id,
            forall|l2: Location|
                map.in_bounds(l2) ==> 0 <= map.index_of(l2) < map.sites@.len(),
            k3 <= units@.len(),
            fill_still(*map, units@, dirs_g, 0) == fill_still(
                *map,
                units@,
                moves.dirs@,
                k3 as int,
            ),
            forall|j: int|
                0 <= j < k3 ==> moves.dirs@[#[trigger] map.index_of(units@[j])] is Some,
        decreases units@.len() - k3,
    {
        let l = units[k3];
        let ghost dirs_before = moves.dirs@;
        if moves.get(map, l).is_none() {
            moves.set_owned(map, my_id, l, Direction::Still);
        }
        proof {
            assert(moves.dirs@[map.index_of(l)] is Some);
            assert forall|j: int| 0 <= j < k3 as int implies moves.dirs@[#[trigger] map.index_of(
                units@[j],
            )] is Some by {
                let jj = map.index_of(units@[j]);
                assert(moves.dirs@[jj] == dirs_before[jj] || moves.dirs@[jj] == Some(
                    Direction::Still,
                ));
            }
        }
        k3 += 1;
    }
    proof {
        assert(fill_still(*map, units@, moves.dirs@, units@.len() as int) == moves.dirs@);
        assert forall|l2: Location|
            map.in_bounds(l2) && map.is_friendly(my_id, l2) implies #[trigger] moves.entry(
            *map,
            l2,
        ) is Some by {
            lemma_owned_list_complete(*map, my_id, map.sites@.len() as int, l2);
            let j = choose|j: int| 0 <= j < units@.len() && units@[j] == l2;
            assert(moves.dirs@[map.index_of(units@[j])] is Some);
        }
    }
}

/// What one whole turn decides: the greedy capture resolver while the
/// player's unit count is below the threshold, else the role pipeline;
/// either way, every owned cell is assigned exactly one direction.
pub open spec fn spec_compute_moves(map: GameMap, my_id: u8) -> Seq<Option<Direction>> {
    let units = owned_list(map, my_id, map.sites@.len() as int);
    if units.len() < GREEDY_UNIT_THRESHOLD as int {
        spec_max_capture(map, my_id)
    } else {
        fill_still(map, units, spec_troop_strategy(map, my_id), 0)
    }
}

/// Resolves one whole turn for the acting player.
pub fn compute_moves(map: &GameMap, my_id: u8) -> (moves: MoveAssignment)
    requires
        map.valid(),
    ensures
        moves.dims_match(*map),
        moves.owned_only(*map, my_id),
        moves.dirs@ == spec_compute_moves(*map, my_id),
        forall|l: Location|
            map.in_bounds(l) && map.is_friendly(my_id, l) ==> #[trigger] moves.entry(
                *map,
                l,
            ) is Some,
{
    let units = get_units_of_player(my_id, map);
    if units.len() < GREEDY_UNIT_THRESHOLD {
        max_capture_strategy(map, my_id)
    } else {
        let mut moves = troop_strategy(map, my_id);
        finalize_defaults(&mut moves, map, my_id, &units);
        moves
    }
}

} // verus!
