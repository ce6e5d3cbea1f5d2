use troop_engine::budget::StrengthBudget;
use troop_engine::grid::{Cell, Direction, GameMap, Location};
use troop_engine::scorer::{
    distance_to_border, find_closest_poi, find_poi, get_best_move_simple,
    get_total_adjacent_strength,
};

const ME: u8 = 1;
const FOE: u8 = 2;

fn loc(x: u16, y: u16) -> Location {
    Location { x, y }
}

fn filled(width: u16, height: u16, cell: Cell) -> GameMap {
    let n = (width as usize) * (height as usize);
    GameMap { width, height, sites: vec![cell; n] }
}

fn put(map: &mut GameMap, x: u16, y: u16, cell: Cell) {
    let i = (y as usize) * (map.width as usize) + x as usize;
    map.sites[i] = cell;
}

fn cell(owner: u8, strength: u8, production: u8) -> Cell {
    Cell { owner, strength, production }
}

#[test]
fn adjacent_strength_sums_only_friendly_neighbors() {
    let mut map = filled(5, 5, cell(0, 99, 0));
    put(&mut map, 2, 1, cell(ME, 10, 0)); // north
    put(&mut map, 3, 2, cell(ME, 20, 0)); // east
    put(&mut map, 2, 3, cell(FOE, 40, 0)); // south, not ours
    put(&mut map, 1, 2, cell(ME, 5, 0)); // west
    assert_eq!(get_total_adjacent_strength(loc(2, 2), &map, ME), 35);
}

#[test]
fn border_distance_counts_owned_cells_on_the_ray() {
    let mut map = filled(5, 1, cell(0, 0, 0));
    put(&mut map, 0, 0, cell(ME, 10, 0));
    put(&mut map, 1, 0, cell(ME, 10, 0));
    put(&mut map, 2, 0, cell(ME, 10, 0));
    put(&mut map, 4, 0, cell(ME, 10, 0));
    // east from (0,0): two owned cells before the gap at x = 3
    assert_eq!(distance_to_border(loc(0, 0), Direction::East, &map, ME), 2);
    // west from (0,0): one owned cell at x = 4, then the gap at x = 3
    assert_eq!(distance_to_border(loc(0, 0), Direction::West, &map, ME), 1);
    // an immediately non-owned neighbor means distance zero
    assert_eq!(distance_to_border(loc(4, 0), Direction::West, &map, ME), 0);
}

/// Owning every cell along the ray yields the board's width, for
/// horizontal and vertical rays alike.
#[test]
fn full_wrap_returns_the_board_width() {
    let map = filled(5, 3, cell(ME, 10, 0));
    assert_eq!(distance_to_border(loc(2, 1), Direction::East, &map, ME), 5);
    assert_eq!(distance_to_border(loc(2, 1), Direction::North, &map, ME), 5);
    let mut one_gap = filled(5, 3, cell(ME, 10, 0));
    put(&mut one_gap, 4, 1, cell(0, 0, 0));
    assert_eq!(distance_to_border(loc(0, 1), Direction::East, &one_gap, ME), 3);
}

/// One owned cell of strength 50 and production 5; the east neighbor is a
/// weak safe capture, every other neighbor an unsafe one: the scorer must
/// pick east.
#[test]
fn scorer_picks_the_safe_capture() {
    let mut map = filled(3, 3, cell(0, 100, 1));
    put(&mut map, 1, 1, cell(ME, 50, 5));
    put(&mut map, 2, 1, cell(FOE, 10, 1));
    let budget = StrengthBudget::new(&map);
    let proposals = get_best_move_simple(loc(1, 1), &map, ME, &budget);
    assert_eq!(proposals, vec![(loc(1, 1), Direction::East)]);
}

/// A best capture the cell cannot win alone becomes rally moves: every
/// owned neighbor of the destination is sent toward it.
#[test]
fn scorer_rallies_when_the_capture_needs_help() {
    let mut map = filled(3, 3, cell(0, 100, 1));
    put(&mut map, 1, 1, cell(ME, 50, 5));
    put(&mut map, 2, 1, cell(FOE, 60, 1));
    put(&mut map, 2, 0, cell(ME, 100, 1));
    let budget = StrengthBudget::new(&map);
    let proposals = get_best_move_simple(loc(1, 1), &map, ME, &budget);
    assert_eq!(
        proposals,
        vec![(loc(2, 0), Direction::South), (loc(1, 1), Direction::East)]
    );
}

/// A cell too weak to move proposes only to stay.
#[test]
fn scorer_keeps_weak_cells_still() {
    let mut map = filled(3, 3, cell(0, 10, 1));
    put(&mut map, 1, 1, cell(ME, 20, 5)); // 20 < 5 * 5
    let budget = StrengthBudget::new(&map);
    let proposals = get_best_move_simple(loc(1, 1), &map, ME, &budget);
    assert_eq!(proposals, vec![(loc(1, 1), Direction::Still)]);
}

/// The scorer counts strength already committed onto a friendly
/// destination: a destination that would pass the cap is avoided.
#[test]
fn scorer_avoids_friendly_destination_with_committed_inflow() {
    let mut map = filled(3, 3, cell(ME, 150, 1));
    put(&mut map, 1, 1, cell(ME, 100, 1));
    put(&mut map, 2, 1, cell(ME, 10, 1));
    put(&mut map, 2, 0, cell(ME, 160, 1));
    put(&mut map, 0, 0, cell(FOE, 150, 1));
    put(&mut map, 0, 2, cell(FOE, 150, 1));
    put(&mut map, 2, 2, cell(FOE, 150, 1));
    // with nothing committed, the weakest friendly destination wins
    let fresh = StrengthBudget::new(&map);
    let before = get_best_move_simple(loc(1, 1), &map, ME, &fresh);
    assert_eq!(before, vec![(loc(1, 1), Direction::East)]);
    // 160 committed onto it: 10 + 160 + 100 would pass 260, so it is
    // filtered and a full tie among the rest falls to the last scanned
    let mut busy = StrengthBudget::new(&map);
    assert_eq!(busy.commit(&map, ME, loc(2, 0), Direction::South), Direction::South);
    let after = get_best_move_simple(loc(1, 1), &map, ME, &busy);
    assert_eq!(after, vec![(loc(1, 1), Direction::West)]);
}

#[test]
fn poi_needs_twice_the_mean_production_and_foreign_ownership() {
    let mut map = filled(2, 2, cell(0, 0, 0));
    put(&mut map, 1, 1, cell(0, 0, 8));
    // total 8 over 4 cells: mean 2, threshold 4
    let poi = find_poi(&map, ME);
    assert_eq!(poi, vec![loc(1, 1)]);
    // the same cell owned by the player is no point of interest
    put(&mut map, 1, 1, cell(ME, 0, 8));
    let poi2 = find_poi(&map, ME);
    assert!(poi2.is_empty());
}

#[test]
fn closest_poi_prefers_the_earliest_minimum() {
    let map = filled(6, 1, cell(0, 0, 0));
    let poi = vec![loc(0, 0), loc(3, 0), loc(1, 0)];
    // distances from (2,0): 2, 1, 1 -- the first of the two at distance 1
    assert_eq!(find_closest_poi(loc(2, 0), &map, &poi), loc(3, 0));
    let nothing: Vec<Location> = Vec::new();
    assert_eq!(find_closest_poi(loc(2, 0), &map, &nothing), loc(0, 0));
}
