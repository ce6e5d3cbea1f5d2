use troop_engine::budget::StrengthBudget;
use troop_engine::classify::Troop;
use troop_engine::grid::{Cell, Direction, GameMap, Location};
use troop_engine::moves::MoveAssignment;
use troop_engine::strategy::{
    compute_moves, get_units_of_player, max_capture_strategy, select_moves, troop_strategy,
};

const ME: u8 = 1;
const FOE: u8 = 2;

fn loc(x: u16, y: u16) -> Location {
    Location { x, y }
}

fn filled(width: u16, height: u16, cell: Cell) -> GameMap {
    let n = (width as usize) * (height as usize);
    GameMap { width, height, sites: vec![cell; n] }
}

fn put(map: &mut GameMap, x: u16, y: u16, cell: Cell) {
    let i = (y as usize) * (map.width as usize) + x as usize;
    map.sites[i] = cell;
}

fn cell(owner: u8, strength: u8, production: u8) -> Cell {
    Cell { owner, strength, production }
}

fn assert_every_owned_cell_assigned(map: &GameMap, moves: &MoveAssignment, my_id: u8) {
    for y in 0..map.height {
        for x in 0..map.width {
            let l = loc(x, y);
            let owned = map.get_site(l, Direction::Still).owner == my_id;
            let assigned = moves.get(map, l);
            if owned {
                assert!(assigned.is_some(), "owned cell left unassigned");
            } else {
                assert!(assigned.is_none(), "foreign cell was assigned a move");
            }
        }
    }
}

#[test]
fn units_are_listed_in_row_major_order() {
    let mut map = filled(3, 2, cell(0, 0, 0));
    put(&mut map, 2, 0, cell(ME, 1, 0));
    put(&mut map, 0, 1, cell(ME, 1, 0));
    put(&mut map, 1, 1, cell(FOE, 1, 0));
    let units = get_units_of_player(ME, &map);
    assert_eq!(units, vec![loc(2, 0), loc(0, 1)]);
}

/// Five owned cells and two enemy targets: the greedy resolver leaves
/// every owned cell with exactly one direction and touches no other cell.
#[test]
fn greedy_resolver_assigns_every_owned_cell() {
    let mut map = filled(7, 3, cell(0, 200, 0));
    put(&mut map, 1, 1, cell(ME, 100, 1));
    put(&mut map, 2, 1, cell(ME, 20, 1));
    put(&mut map, 3, 1, cell(ME, 15, 1));
    put(&mut map, 4, 1, cell(ME, 30, 1));
    put(&mut map, 5, 1, cell(ME, 30, 1));
    put(&mut map, 1, 0, cell(FOE, 50, 2));
    put(&mut map, 5, 0, cell(FOE, 50, 3));
    let moves = max_capture_strategy(&map, ME);
    assert_every_owned_cell_assigned(&map, &moves, ME);
}

#[test]
fn greedy_resolver_takes_a_winnable_capture_directly() {
    let mut map = filled(3, 3, cell(0, 200, 0));
    put(&mut map, 0, 0, cell(ME, 100, 1));
    put(&mut map, 1, 0, cell(FOE, 10, 2));
    let moves = max_capture_strategy(&map, ME);
    assert_eq!(moves.get(&map, loc(0, 0)), Some(Direction::East));
}

/// A target nobody can take alone: the strongest candidate stays still
/// and the target's owned neighbors are rallied onto it; an already
/// assigned cell is skipped when its own candidate comes up.
#[test]
fn greedy_resolver_rallies_and_skips_assigned_cells() {
    let mut map = filled(5, 5, cell(0, 200, 0));
    put(&mut map, 1, 1, cell(ME, 30, 1));
    put(&mut map, 2, 0, cell(ME, 40, 1));
    put(&mut map, 1, 0, cell(ME, 40, 1));
    put(&mut map, 2, 1, cell(FOE, 50, 2));
    let moves = max_capture_strategy(&map, ME);
    assert_eq!(moves.get(&map, loc(1, 1)), Some(Direction::East));
    assert_eq!(moves.get(&map, loc(2, 0)), Some(Direction::Still));
    assert_eq!(moves.get(&map, loc(1, 0)), Some(Direction::Still));
    assert_every_owned_cell_assigned(&map, &moves, ME);
}

#[test]
fn interior_cells_below_threshold_stay_still() {
    let map = filled(4, 4, cell(ME, 10, 5));
    let moves = troop_strategy(&map, ME);
    for y in 0..4 {
        for x in 0..4 {
            assert_eq!(moves.get(&map, loc(x, y)), Some(Direction::Still));
        }
    }
}

/// An interior cell above the strength threshold marches toward the
/// closest point of interest.
#[test]
fn interior_cell_marches_toward_a_point_of_interest() {
    let mut map = filled(5, 5, cell(0, 0, 0));
    for y in 1..4 {
        for x in 1..4 {
            put(&mut map, x, y, cell(ME, 100, 1));
        }
    }
    // mean production is below one, so every non-owned cell is a point of
    // interest; the closest to the center is (2, 0), straight north
    let moves = troop_strategy(&map, ME);
    assert_eq!(moves.get(&map, loc(2, 2)), Some(Direction::North));
}

/// With no point of interest on the board, an interior cell falls back to
/// marching toward the default location (0, 0).
#[test]
fn interior_with_no_poi_heads_for_the_default_location() {
    let map = filled(3, 3, cell(ME, 100, 1));
    let poi: Vec<Location> = Vec::new();
    let budget = StrengthBudget::new(&map);
    let props = select_moves(Troop::Interior(loc(2, 2)), &map, ME, &poi, &budget);
    // one wrapped step east and one south both reach (0, 0); the
    // horizontal axis is preferred on the tie
    assert_eq!(props, vec![(loc(2, 2), Direction::East)]);
}

#[test]
fn vertical_wall_attacks_the_weaker_perpendicular_enemy() {
    let mut map = filled(5, 5, cell(0, 200, 0));
    put(&mut map, 2, 1, cell(ME, 10, 1));
    put(&mut map, 2, 2, cell(ME, 50, 1));
    put(&mut map, 2, 3, cell(ME, 10, 1));
    put(&mut map, 1, 2, cell(FOE, 30, 1));
    let poi: Vec<Location> = Vec::new();
    let budget = StrengthBudget::new(&map);
    let props = select_moves(Troop::VerticalWall(loc(2, 2)), &map, ME, &poi, &budget);
    assert_eq!(props, vec![(loc(2, 2), Direction::West)]);
}

#[test]
fn lance_takes_the_first_beatable_unfriendly_neighbor() {
    let mut map = filled(5, 5, cell(0, 60, 0));
    put(&mut map, 2, 2, cell(ME, 50, 1));
    put(&mut map, 3, 2, cell(FOE, 20, 1)); // east, first beatable in scan order
    put(&mut map, 2, 3, cell(FOE, 10, 1)); // south would also win, but east is scanned first
    let poi: Vec<Location> = Vec::new();
    let budget = StrengthBudget::new(&map);
    let props = select_moves(Troop::Lance(loc(2, 2)), &map, ME, &poi, &budget);
    assert_eq!(props, vec![(loc(2, 2), Direction::East)]);
}

#[test]
fn outmatched_pincer_stays_still() {
    let mut map = filled(5, 5, cell(0, 0, 0));
    put(&mut map, 1, 1, cell(ME, 20, 1));
    put(&mut map, 2, 2, cell(ME, 20, 1));
    put(&mut map, 2, 1, cell(FOE, 90, 1));
    let poi: Vec<Location> = Vec::new();
    let budget = StrengthBudget::new(&map);
    let props = select_moves(
        Troop::Pincer(loc(1, 1), loc(2, 2), loc(2, 1)),
        &map,
        ME,
        &poi,
        &budget,
    );
    assert_eq!(
        props,
        vec![(loc(1, 1), Direction::Still), (loc(2, 2), Direction::Still)]
    );
}

#[test]
fn weak_role_proposes_nothing() {
    let map = filled(3, 3, cell(ME, 1, 5));
    let poi: Vec<Location> = Vec::new();
    let budget = StrengthBudget::new(&map);
    let props = select_moves(Troop::Weak(loc(1, 1)), &map, ME, &poi, &budget);
    assert!(props.is_empty());
}

/// Below the unit threshold the greedy resolver runs; at or above it the
/// role pipeline does. Either way every owned cell gets one direction.
#[test]
fn strategy_selector_switches_on_unit_count() {
    // 16 owned cells: greedy path
    let small = filled(4, 4, cell(ME, 10, 5));
    let moves_small = compute_moves(&small, ME);
    assert_every_owned_cell_assigned(&small, &moves_small, ME);
    // 25 owned cells: role pipeline
    let large = filled(5, 5, cell(ME, 10, 5));
    let moves_large = compute_moves(&large, ME);
    assert_every_owned_cell_assigned(&large, &moves_large, ME);
    for y in 0..5 {
        for x in 0..5 {
            assert_eq!(moves_large.get(&large, loc(x, y)), Some(Direction::Still));
        }
    }
}
