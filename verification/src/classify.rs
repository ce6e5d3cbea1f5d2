//! Neighborhood classification: each owned cell is given one tactical role
//! from the priority-ordered pattern table over its 8-connected neighborhood.

use vstd::prelude::*;

use crate::grid::Direction;
use crate::grid::GameMap;
use crate::grid::Location;

verus! {

/// The tactical role of an owned cell, decided by the pattern of friendly
/// cells around it. Multi-cell roles bundle the partner cells they consume
/// and the targeted enemy cell.
#[derive(Clone, Copy, PartialEq, Eq, Structural, Debug)]
pub enum Troop {
    /// Still building up strength; immobile for the turn. The classifier
    /// itself never emits this role: the weak test is folded into the
    /// selectors' weak-unit filters instead.
    Weak(Location),
    /// All eight neighbors friendly.
    Interior(Location),
    /// North and south friendly, at most one of west and east friendly.
    VerticalWall(Location),
    /// West and east friendly, at most one of north and south friendly.
    HorizontalWall(Location),
    /// Two cells cornering one enemy cell: the two participants, then the
    /// target.
    Pincer(Location, Location, Location),
    /// Three cells almost surrounding one enemy cell: the three
    /// participants, then the target.
    Pincer3(Location, Location, Location, Location),
    /// Exactly one orthogonal neighbor friendly.
    Lance(Location),
    /// No orthogonal neighbor friendly.
    Island(Location),
    /// All four orthogonal neighbors friendly but exactly one diagonal not.
    Reinforcement(Location),
    /// No pattern matched.
    Unknown(Location),
}

/// The north neighbor of `loc`.
pub open spec fn loc_nn(map: GameMap, loc: Location) -> Location {
    map.spec_step(loc, Direction::North)
}

/// The south neighbor of `loc`.
pub open spec fn loc_ss(map: GameMap, loc: Location) -> Location {
    map.spec_step(loc, Direction::South)
}

/// The west neighbor of `loc`.
pub open spec fn loc_ww(map: GameMap, loc: Location) -> Location {
    map.spec_step(loc, Direction::West)
}

/// The east neighbor of `loc`.
pub open spec fn loc_ee(map: GameMap, loc: Location) -> Location {
    map.spec_step(loc, Direction::East)
}

/// The northwest neighbor: one step west, then one step north.
pub open spec fn loc_nw(map: GameMap, loc: Location) -> Location {
    map.spec_step(map.spec_step(loc, Direction::West), Direction::North)
}

/// The northeast neighbor: one step east, then one step north.
pub open spec fn loc_ne(map: GameMap, loc: Location) -> Location {
    map.spec_step(map.spec_step(loc, Direction::East), Direction::North)
}

/// The southwest neighbor: one step west, then one step south.
pub open spec fn loc_sw(map: GameMap, loc: Location) -> Location {
    map.spec_step(map.spec_step(loc, Direction::West), Direction::South)
}

/// The southeast neighbor: one step east, then one step south.
pub open spec fn loc_se(map: GameMap, loc: Location) -> Location {
    map.spec_step(map.spec_step(loc, Direction::East), Direction::South)
}

/// All eight neighbors of `loc` are friendly.
pub open spec fn all_neighbors_friendly(map: GameMap, my_id: u8, loc: Location) -> bool {
    &&& map.is_friendly(my_id, loc_nw(map, loc))
    &&& map.is_friendly(my_id, loc_nn(map, loc))
    &&& map.is_friendly(my_id, loc_ne(map, loc))
    &&& map.is_friendly(my_id, loc_ww(map, loc))
    &&& map.is_friendly(my_id, loc_ee(map, loc))
    &&& map.is_friendly(my_id, loc_sw(map, loc))
    &&& map.is_friendly(my_id, loc_ss(map, loc))
    &&& map.is_friendly(my_id, loc_se(map, loc))
}

/// None of the four orthogonal neighbors of `loc` is friendly.
pub open spec fn orthogonals_all_unfriendly(map: GameMap, my_id: u8, loc: Location) -> bool {
    &&& !map.is_friendly(my_id, loc_nn(map, loc))
    &&& !map.is_friendly(my_id, loc_ww(map, loc))
    &&& !map.is_friendly(my_id, loc_ee(map, loc))
    &&& !map.is_friendly(my_id, loc_ss(map, loc))
}

/// The role of one owned cell: the first matching pattern of the
/// priority-ordered table governs, so the order of the tests below is
/// load-bearing.
pub open spec fn spec_classify(map: GameMap, my_id: u8, loc: Location) -> Troop {
    let nw = loc_nw(map, loc);
    let nn = loc_nn(map, loc);
    let ne = loc_ne(map, loc);
    let ww = loc_ww(map, loc);
    let ee = loc_ee(map, loc);
    let sw = loc_sw(map, loc);
    let ss = loc_ss(map, loc);
    let se = loc_se(map, loc);
    let fnw = map.is_friendly(my_id, nw);
    let fnn = map.is_friendly(my_id, nn);
    let fne = map.is_friendly(my_id, ne);
    let fww = map.is_friendly(my_id, ww);
    let fee = map.is_friendly(my_id, ee);
    let fsw = map.is_friendly(my_id, sw);
    let fss = map.is_friendly(my_id, ss);
    let fse = map.is_friendly(my_id, se);
    let orth_count = (if fnn { 1int } else { 0 }) + (if fww { 1int } else { 0 }) + (if fee {
        1int
    } else {
        0
    }) + (if fss { 1int } else { 0 });
    let diag_count = (if fnw { 1int } else { 0 }) + (if fne { 1int } else { 0 }) + (if fsw {
        1int
    } else {
        0
    }) + (if fse { 1int } else { 0 });
    if fnw && fnn && fne && fww && fee && fsw && fss && fse {
        Troop::Interior(loc)
    } else if fnn && fww && fee && fss && diag_count == 3 {
        Troop::Reinforcement(loc)
    } else if !fnn && !fww && !fee && !fss {
        Troop::Island(loc)
    } else if orth_count == 1 {
        Troop::Lance(loc)
    } else if fnn && fss && !(fww && fee) {
        Troop::VerticalWall(loc)
    } else if fww && fee && !(fnn && fss) {
        Troop::HorizontalWall(loc)
    } else if fnw && !fnn && fne {
        Troop::Pincer3(nw, loc, ne, nn)
    } else if fnw && !fww && fsw {
        Troop::Pincer3(nw, loc, sw, ww)
    } else if fne && !fee && fse {
        Troop::Pincer3(ne, loc, se, ee)
    } else if fsw && !fss && fse {
        Troop::Pincer3(sw, loc, se, ss)
    } else if fnw && !fnn {
        Troop::Pincer(nw, loc, nn)
    } else if !fww && fsw {
        Troop::Pincer(loc, sw, ww)
    } else if fne && !fee {
        Troop::Pincer(ne, loc, ee)
    } else if fsw && !fss {
        Troop::Pincer(sw, loc, ss)
    } else if !fnn && fne {
        Troop::Pincer(loc, ne, nn)
    } else if fnw && !fww {
        Troop::Pincer(nw, loc, ww)
    } else if !fee && fse {
        Troop::Pincer(loc, se, ee)
    } else if !fss && fse {
        Troop::Pincer(loc, se, ss)
    } else {
        Troop::Unknown(loc)
    }
}

/// The cells a role consumes: the classified cell itself, plus the partner
/// cells of a multi-cell role. The target of a pincer is not consumed.
pub open spec fn member_set(t: Troop) -> Set<Location> {
    match t {
        Troop::Weak(l) => set![l],
        Troop::Interior(l) => set![l],
        Troop::VerticalWall(l) => set![l],
        Troop::HorizontalWall(l) => set![l],
        Troop::Pincer(l1, l2, e) => set![l1, l2],
        Troop::Pincer3(l1, l2, l3, e) => set![l1, l2, l3],
        Troop::Lance(l) => set![l],
        Troop::Island(l) => set![l],
        Troop::Reinforcement(l) => set![l],
        Troop::Unknown(l) => set![l],
    }
}

/// Whether some cell consumed by `t` is already in the consumed set.
pub open spec fn has_consumed_member(t: Troop, done: Set<Location>) -> bool {
    exists|m: Location| member_set(t).contains(m) && done.contains(m)
}

/// One classification pass over `locs` in order, skipping cells already
/// consumed. A multi-cell role one of whose members was already consumed is
/// downgraded to `Unknown`, so that no cell is ever classified twice; the
/// members of the emitted role are then consumed themselves.
pub open spec fn spec_classify_seq(
    map: GameMap,
    my_id: u8,
    locs: Seq<Location>,
    done: Set<Location>,
    acc: Seq<Troop>,
) -> Seq<Troop>
    decreases locs.len(),
{
    if locs.len() == 0 {
        acc
    } else {
        let l = locs[0];
        if done.contains(l) {
            spec_classify_seq(map, my_id, locs.drop_first(), done, acc)
        } else {
            let t0 = spec_classify(map, my_id, l);
            let t = if has_consumed_member(t0, done) {
                Troop::Unknown(l)
            } else {
                t0
            };
            spec_classify_seq(
                map,
                my_id,
                locs.drop_first(),
                done.union(member_set(t)),
                acc.push(t),
            )
        }
    }
}

/// A full classification pass, starting with nothing consumed.
pub open spec fn spec_classify_all(map: GameMap, my_id: u8, locs: Seq<Location>) -> Seq<Troop> {
    spec_classify_seq(map, my_id, locs, Set::empty(), Seq::empty())
}

proof fn lemma_classify_seq_disjoint_rec(
    map: GameMap,
    my_id: u8,
    locs: Seq<Location>,
    done: Set<Location>,
    acc: Seq<Troop>,
)
    requires
        forall|i: int, j: int|
            0 <= i < j < acc.len() ==> member_set(acc[i]).disjoint(member_set(acc[j])),
        forall|i: int| 0 <= i < acc.len() ==> member_set(#[trigger] acc[i]).subset_of(done),
    ensures
        ({
            let r = spec_classify_seq(map, my_id, locs, done, acc);
            forall|i: int, j: int|
                0 <= i < j < r.len() ==> member_set(r[i]).disjoint(member_set(r[j]))
        }),
    decreases locs.len(),
{
    if locs.len() == 0 {
        let r = spec_classify_seq(map, my_id, locs, done, acc);
        assert(r == acc);
        assert forall|i: int, j: int| 0 <= i < j < r.len() implies member_set(r[i]).disjoint(
            member_set(r[j]),
        ) by {
            assert(member_set(acc[i]).disjoint(member_set(acc[j])));
        }
    } else {
        let l = locs[0];
        if done.contains(l) {
            lemma_classify_seq_disjoint_rec(map, my_id, locs.drop_first(), done, acc);
            assert(spec_classify_seq(map, my_id, locs, done, acc) == spec_classify_seq(
                map,
                my_id,
                locs.drop_first(),
                done,
                acc,
            ));
        } else {
            let t0 = spec_classify(map, my_id, l);
            let t = if has_consumed_member(t0, done) {
                Troop::Unknown(l)
            } else {
                t0
            };
            assert(member_set(t).disjoint(done)) by {
                if has_consumed_member(t0, done) {
                    assert(member_set(t) =~= set![l]);
                }
            }
            let acc2 = acc.push(t);
            let done2 = done.union(member_set(t));
            assert forall|i: int, j: int|
                0 <= i < j < acc2.len() implies member_set(acc2[i]).disjoint(
                member_set(acc2[j]),
            ) by {
                if j < acc.len() {
                    assert(member_set(acc[i]).disjoint(member_set(acc[j])));
                } else {
                    assert(member_set(acc[i]).subset_of(done));
                }
            }
            assert forall|i: int| 0 <= i < acc2.len() implies member_set(
                #[trigger] acc2[i],
            ).subset_of(done2) by {
                if i < acc.len() {
                    assert(member_set(acc[i]).subset_of(done));
                }
            }
            lemma_classify_seq_disjoint_rec(map, my_id, locs.drop_first(), done2, acc2);
            assert(spec_classify_seq(map, my_id, locs, done, acc) == spec_classify_seq(
                map,
                my_id,
                locs.drop_first(),
                done2,
                acc2,
            ));
        }
    }
}

/// No cell is classified twice in one pass: the sets of cells consumed by
/// the roles that a classification pass returns are pairwise disjoint.
pub proof fn lemma_classify_consumes_once(map: GameMap, my_id: u8, locs: Seq<Location>)
    ensures
        ({
            let r = spec_classify_all(map, my_id, locs);
            forall|i: int, j: int|
                0 <= i < j < r.len() ==> member_set(r[i]).disjoint(member_set(r[j]))
        }),
{
    lemma_classify_seq_disjoint_rec(map, my_id, locs, Set::empty(), Seq::empty());
}

/// Classifies one owned cell against the priority-ordered pattern table.
pub fn classify_loc(loc: Location, map: &GameMap, my_id: u8) -> (t: Troop)
    requires
        map.valid(),
        map.in_bounds(loc),
    ensures
        t == spec_classify(*map, my_id, loc),
        all_neighbors_friendly(*map, my_id, loc) ==> t == Troop::Interior(loc),
        orthogonals_all_unfriendly(*map, my_id, loc) ==> t == Troop::Island(loc),
{
    let nw = map.get_location(map.get_location(loc, Direction::West), Direction::North);
    let nn = map.get_location(loc, Direction::North);
    let ne = map.get_location(map.get_location(loc, Direction::East), Direction::North);
    let ww = map.get_location(loc, Direction::West);
    let ee = map.get_location(loc, Direction::East);
    let sw = map.get_location(map.get_location(loc, Direction::West), Direction::South);
    let ss = map.get_location(loc, Direction::South);
    let se = map.get_location(map.get_location(loc, Direction::East), Direction::South);
    let fnw = map.get_site(nw, Direction::Still).owner == my_id;
    let fnn = map.get_site(nn, Direction::Still).owner == my_id;
    let fne = map.get_site(ne, Direction::Still).owner == my_id;
    let fww = map.get_site(ww, Direction::Still).owner == my_id;
    let fee = map.get_site(ee, Direction::Still).owner == my_id;
    let fsw = map.get_site(sw, Direction::Still).owner == my_id;
    let fss = map.get_site(ss, Direction::Still).owner == my_id;
    let fse = map.get_site(se, Direction::Still).owner == my_id;
    let orth_count: u8 = (if fnn { 1u8 } else { 0 }) + (if fww { 1u8 } else { 0 }) + (if fee {
        1u8
    } else {
        0
    }) + (if fss { 1u8 } else { 0 });
    let diag_count: u8 = (if fnw { 1u8 } else { 0 }) + (if fne { 1u8 } else { 0 }) + (if fsw {
        1u8
    } else {
        0
    }) + (if fse { 1u8 } else { 0 });
    if fnw && fnn && fne && fww && fee && fsw && fss && fse {
        Troop::Interior(loc)
    } else if fnn && fww && fee && fss && diag_count == 3 {
        Troop::Reinforcement(loc)
    } else if !fnn && !fww && !fee && !fss {
        Troop::Island(loc)
    } else if orth_count == 1 {
        Troop::Lance(loc)
    } else if fnn && fss && !(fww && fee) {
        Troop::VerticalWall(loc)
    } else if fww && fee && !(fnn && fss) {
        Troop::HorizontalWall(loc)
    } else if fnw && !fnn && fne {
        Troop::Pincer3(nw, loc, ne, nn)
    } else if fnw && !fww && fsw {
        Troop::Pincer3(nw, loc, sw, ww)
    } else if fne && !fee && fse {
        Troop::Pincer3(ne, loc, se, ee)
    } else if fsw && !fss && fse {
        Troop::Pincer3(sw, loc, se, ss)
    } else if fnw && !fnn {
        Troop::Pincer(nw, loc, nn)
    } else if !fww && fsw {
        Troop::Pincer(loc, sw, ww)
    } else if fne && !fee {
        Troop::Pincer(ne, loc, ee)
    } else if fsw && !fss {
        Troop::Pincer(sw, loc, ss)
    } else if !fnn && fne {
        Troop::Pincer(loc, ne, nn)
    } else if fnw && !fww {
        Troop::Pincer(nw, loc, ww)
    } else if !fee && fse {
        Troop::Pincer(loc, se, ee)
    } else if !fss && fse {
        Troop::Pincer(loc, se, ss)
    } else {
        Troop::Unknown(loc)
    }
}

proof fn lemma_members_in_bounds(map: GameMap, my_id: u8, l: Location)
    requires
        map.valid(),
        map.in_bounds(l),
    ensures
        forall|m: Location|
            member_set(spec_classify(map, my_id, l)).contains(m) ==> map.in_bounds(m),
{
}

/// Sets the consumed flag of `m` and returns the consumed set grown by `m`.
fn mark_consumed(
    flags: &mut Vec<bool>,
    map: &GameMap,
    m: Location,
    Ghost(done): Ghost<Set<Location>>,
) -> (r: Ghost<Set<Location>>)
    requires
        map.valid(),
        map.in_bounds(m),
        old(flags)@.len() == map.sites@.len(),
        forall|l: Location|
            map.in_bounds(l) ==> old(flags)@[map.index_of(l)] == done.contains(l),
        forall|l: Location| done.contains(l) ==> map.in_bounds(l),
    ensures
        r@ == done.insert(m),
        final(flags)@.len() == map.sites@.len(),
        forall|l: Location| map.in_bounds(l) ==> final(flags)@[map.index_of(l)] == r@.contains(l),
        forall|l: Location| r@.contains(l) ==> map.in_bounds(l),
{
    proof {
        assert forall|l: Location| map.in_bounds(l) implies 0 <= map.index_of(l)
            < map.sites@.len() by {
            map.lemma_index_in_range(l);
        }
    }
    let j = map.site_index(m);
    flags[j] = true;
    proof {
        assert forall|l: Location|
            map.in_bounds(l) implies flags@[map.index_of(l)] == done.insert(m).contains(l) by {
            if map.index_of(l) == map.index_of(m) {
                map.lemma_index_injective(l, m);
            }
        }
    }
    Ghost(done.insert(m))
}

/// Classifies every cell of `locs` in order, consuming the members of each
/// multi-cell role so that no cell is classified twice in the same pass.
pub fn classify(locs: Vec<Location>, map: &GameMap, my_id: u8) -> (r: Vec<Troop>)
    requires
        map.valid(),
        forall|i: int| 0 <= i < locs@.len() ==> map.in_bounds(#[trigger] locs@[i]),
    ensures
        r@ == spec_classify_all(*map, my_id, locs@),
{
    let n = map.sites.len();
    let mut flags: Vec<bool> = Vec::new();
    let mut j: usize = 0;
    while j < n
        invariant
            j <= n,
            flags@.len() == j,
            forall|k: int| 0 <= k < j ==> flags@[k] == false,
        decreases n - j,
    {
        flags.push(false);
        j += 1;
    }
    let ghost mut done: Set<Location> = Set::empty();
    let mut result: Vec<Troop> = Vec::new();
    let mut i: usize = 0;
    proof {
        assert forall|l: Location| map.in_bounds(l) implies 0 <= map.index_of(l)
            < map.sites@.len() by {
            map.lemma_index_in_range(l);
        }
        assert(locs@.skip(0) =~= locs@);
        assert(result@ =~= Seq::<Troop>::empty());
    }
    while i < locs.len()
        invariant
            map.valid(),
            forall|k: int| 0 <= k < locs@.len() ==> map.in_bounds(#[trigger] locs@[k]),
            i <= locs@.len(),
            flags@.len() == map.sites@.len(),
            forall|l: Location| map.in_bounds(l) ==> 0 <= map.index_of(l) < flags@.len(),
            forall|l: Location| map.in_bounds(l) ==> flags@[map.index_of(l)] == done.contains(l),
            forall|l: Location| done.contains(l) ==> map.in_bounds(l),
            spec_classify_seq(*map, my_id, locs@, Set::empty(), Seq::empty())
                == spec_classify_seq(*map, my_id, locs@.skip(i as int), done, result@),
        decreases locs@.len() - i,
    {
        let l = locs[i];
        let li = map.site_index(l);
        proof {
            assert(locs@.skip(i as int)[0] == locs@[i as int]);
            assert(locs@.skip(i as int).drop_first() =~= locs@.skip(i as int + 1));
        }
        if flags[li] {
            // already consumed by an earlier multi-cell role
        } else {
            let t0 = classify_loc(l, map, my_id);
            proof {
                lemma_members_in_bounds(*map, my_id, l);
            }
            let conflict: bool = match t0 {
                Troop::Pincer(l1, l2, _) => {
                    proof {
                        assert(member_set(t0).contains(l1));
                        assert(member_set(t0).contains(l2));
                    }
                    let c1 = flags[map.site_index(l1)];
                    let c2 = flags[map.site_index(l2)];
                    proof {
                        assert(c1 == done.contains(l1));
                        assert(c2 == done.contains(l2));
                        assert((c1 || c2) == has_consumed_member(t0, done)) by {
                            if has_consumed_member(t0, done) {
                                let m = choose|m: Location|
                                    member_set(t0).contains(m) && done.contains(m);
                                assert(m == l1 || m == l2);
                            }
                        }
                    }
                    c1 || c2
                },
                Troop::Pincer3(l1, l2, l3, _) => {
                    proof {
                        assert(member_set(t0).contains(l1));
                        assert(member_set(t0).contains(l2));
                        assert(member_set(t0).contains(l3));
                    }
                    let c1 = flags[map.site_index(l1)];
                    let c2 = flags[map.site_index(l2)];
                    let c3 = flags[map.site_index(l3)];
                    proof {
                        assert(c1 == done.contains(l1));
                        assert(c2 == done.contains(l2));
                        assert(c3 == done.contains(l3));
                        assert((c1 || c2 || c3) == has_consumed_member(t0, done)) by {
                            if has_consumed_member(t0, done) {
                                let m = choose|m: Location|
                                    member_set(t0).contains(m) && done.contains(m);
                                assert(m == l1 || m == l2 || m == l3);
                            }
                        }
                    }
                    c1 || c2 || c3
                },
                _ => {
                    proof {
                        assert(!has_consumed_member(t0, done)) by {
                            if has_consumed_member(t0, done) {
                                let m = choose|m: Location|
                                    member_set(t0).contains(m) && done.contains(m);
                                assert(m == l);
                            }
                        }
                    }
                    false
                },
            };
            proof {
                assert(conflict == has_consumed_member(t0, done));
            }
            let t = if conflict {
                Troop::Unknown(l)
            } else {
                t0
            };
            result.push(t);
            let ghost done_before: Set<Location> = done;
            match t {
                Troop::Weak(l1) => {
                    let g = mark_consumed(&mut flags, map, l1, Ghost(done));
                    proof {
                        done = g@;
                    }
                },
                Troop::Interior(l1) => {
                    let g = mark_consumed(&mut flags, map, l1, Ghost(done));
                    proof {
                        done = g@;
                    }
                },
                Troop::VerticalWall(l1) => {
                    let g = mark_consumed(&mut flags, map, l1, Ghost(done));
                    proof {
                        done = g@;
                    }
                },
                Troop::HorizontalWall(l1) => {
                    let g = mark_consumed(&mut flags, map, l1, Ghost(done));
                    proof {
                        done = g@;
                    }
                },
                Troop::Pincer(l1, l2, _) => {
                    let g = mark_consumed(&mut flags, map, l1, Ghost(done));
                    proof {
                        done = g@;
                    }
                    let g = mark_consumed(&mut flags, map, l2, Ghost(done));
                    proof {
                        done = g@;
                    }
                },
                Troop::Pincer3(l1, l2, l3, _) => {
                    let g = mark_consumed(&mut flags, map, l1, Ghost(done));
                    proof {
                        done = g@;
                    }
                    let g = mark_consumed(&mut flags, map, l2, Ghost(done));
                    proof {
                        done = g@;
                    }
                    let g = mark_consumed(&mut flags, map, l3, Ghost(done));
                    proof {
                        done = g@;
                    }
                },
                Troop::Lance(l1) => {
                    let g = mark_consumed(&mut flags, map, l1, Ghost(done));
                    proof {
                        done = g@;
                    }
                },
                Troop::Island(l1) => {
                    let g = mark_consumed(&mut flags, map, l1, Ghost(done));
                    proof {
                        done = g@;
                    }
                },
                Troop::Reinforcement(l1) => {
                    let g = mark_consumed(&mut flags, map, l1, Ghost(done));
                    proof {
                        done = g@;
                    }
                },
                Troop::Unknown(l1) => {
                    let g = mark_consumed(&mut flags, map, l1, Ghost(done));
                    proof {
                        done = g@;
                    }
                },
            }
            proof {
                assert(done =~= done_before.union(member_set(t)));
            }
        }
        i += 1;
    }
    proof {
        assert(locs@.skip(locs@.len() as int) =~= Seq::<Location>::empty());
    }
    result
}

} // verus!
