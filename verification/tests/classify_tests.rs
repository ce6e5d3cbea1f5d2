use troop_engine::classify::{classify, classify_loc, Troop};
use troop_engine::grid::{Cell, GameMap, Location};

const ME: u8 = 1;
const FOE: u8 = 2;

fn loc(x: u16, y: u16) -> Location {
    Location { x, y }
}

fn board(width: u16, height: u16) -> GameMap {
    let n = (width as usize) * (height as usize);
    GameMap {
        width,
        height,
        sites: vec![Cell { owner: 0, strength: 0, production: 0 }; n],
    }
}

fn own(map: &mut GameMap, x: u16, y: u16, owner: u8, strength: u8) {
    let i = (y as usize) * (map.width as usize) + x as usize;
    map.sites[i] = Cell { owner, strength, production: 0 };
}

/// All eight neighbors friendly: the cell is interior.
#[test]
fn fully_friendly_neighborhood_is_interior() {
    let mut map = board(5, 5);
    for y in 1..4 {
        for x in 1..4 {
            own(&mut map, x, y, ME, 10);
        }
    }
    assert_eq!(classify_loc(loc(2, 2), &map, ME), Troop::Interior(loc(2, 2)));
}

/// No orthogonal neighbor friendly: the cell is an island, whatever the
/// diagonals hold.
#[test]
fn unfriendly_orthogonals_make_an_island() {
    let mut map = board(5, 5);
    own(&mut map, 2, 2, ME, 10);
    // diagonals friendly, orthogonals not: still an island
    own(&mut map, 1, 1, ME, 10);
    own(&mut map, 3, 1, ME, 10);
    own(&mut map, 1, 3, ME, 10);
    own(&mut map, 3, 3, ME, 10);
    assert_eq!(classify_loc(loc(2, 2), &map, ME), Troop::Island(loc(2, 2)));
}

/// Four friendly orthogonals with exactly one unfriendly diagonal.
#[test]
fn one_missing_diagonal_is_reinforcement() {
    let mut map = board(5, 5);
    for y in 1..4 {
        for x in 1..4 {
            own(&mut map, x, y, ME, 10);
        }
    }
    own(&mut map, 1, 1, FOE, 10); // northwest diagonal lost
    assert_eq!(classify_loc(loc(2, 2), &map, ME), Troop::Reinforcement(loc(2, 2)));
}

/// Four friendly orthogonals with two unfriendly diagonals match no
/// pattern of the table.
#[test]
fn two_missing_diagonals_fall_through_to_unknown() {
    let mut map = board(5, 5);
    for y in 1..4 {
        for x in 1..4 {
            own(&mut map, x, y, ME, 10);
        }
    }
    own(&mut map, 1, 1, FOE, 10);
    own(&mut map, 3, 1, FOE, 10);
    assert_eq!(classify_loc(loc(2, 2), &map, ME), Troop::Unknown(loc(2, 2)));
}

#[test]
fn single_friendly_orthogonal_is_a_lance() {
    let mut map = board(5, 5);
    own(&mut map, 2, 2, ME, 10);
    own(&mut map, 3, 2, ME, 10); // east only
    assert_eq!(classify_loc(loc(2, 2), &map, ME), Troop::Lance(loc(2, 2)));
}

#[test]
fn north_and_south_friendly_is_a_vertical_wall() {
    let mut map = board(5, 5);
    own(&mut map, 2, 2, ME, 10);
    own(&mut map, 2, 1, ME, 10);
    own(&mut map, 2, 3, ME, 10);
    assert_eq!(classify_loc(loc(2, 2), &map, ME), Troop::VerticalWall(loc(2, 2)));
}

#[test]
fn west_and_east_friendly_is_a_horizontal_wall() {
    let mut map = board(5, 5);
    own(&mut map, 2, 2, ME, 10);
    own(&mut map, 1, 2, ME, 10);
    own(&mut map, 3, 2, ME, 10);
    assert_eq!(classify_loc(loc(2, 2), &map, ME), Troop::HorizontalWall(loc(2, 2)));
}

/// Both upper diagonals friendly around an unfriendly north neighbor.
#[test]
fn flanked_enemy_gives_pincer3() {
    let mut map = board(5, 5);
    own(&mut map, 2, 2, ME, 40);
    own(&mut map, 1, 1, ME, 40); // northwest
    own(&mut map, 3, 1, ME, 40); // northeast
    own(&mut map, 2, 1, FOE, 70); // north target
    // west and south friendly so no earlier pattern matches
    own(&mut map, 1, 2, ME, 10);
    own(&mut map, 2, 3, ME, 10);
    assert_eq!(
        classify_loc(loc(2, 2), &map, ME),
        Troop::Pincer3(loc(1, 1), loc(2, 2), loc(3, 1), loc(2, 1))
    );
}

#[test]
fn northwest_corner_gives_pincer() {
    let mut map = board(5, 5);
    own(&mut map, 2, 2, ME, 40);
    own(&mut map, 1, 1, ME, 40); // northwest friendly
    own(&mut map, 2, 1, FOE, 70); // north unfriendly
    // two friendly orthogonals so lance and island are ruled out
    own(&mut map, 1, 2, ME, 10);
    own(&mut map, 2, 3, ME, 10);
    assert_eq!(
        classify_loc(loc(2, 2), &map, ME),
        Troop::Pincer(loc(1, 1), loc(2, 2), loc(2, 1))
    );
}

/// The scenario of two cells of strength 40 flanking one enemy of
/// strength 70: one pincer role bundles both flankers and the target, no
/// cell is classified twice, and the selector issues the coordinated
/// attack because 40 + 40 > 70.
#[test]
fn flanking_cells_are_consumed_exactly_once() {
    let mut map = board(5, 5);
    let center = loc(2, 1);
    let target = loc(2, 2);
    let flank_a = loc(1, 2);
    let flank_b = loc(3, 2);
    own(&mut map, 2, 1, ME, 40); // center
    own(&mut map, 2, 2, FOE, 70); // target to its south
    own(&mut map, 1, 2, ME, 40); // southwest flanker
    own(&mut map, 3, 2, ME, 40); // southeast flanker
    // extra friendly orthogonals so no earlier pattern catches the center
    own(&mut map, 2, 0, ME, 10);
    own(&mut map, 1, 1, ME, 10);
    let units = troop_engine::strategy::get_units_of_player(ME, &map);
    let troops = classify(units, &map, ME);
    let expected = Troop::Pincer3(flank_a, center, flank_b, target);
    assert!(troops.contains(&expected));
    // (1,1) matched a pincer whose partner was already consumed, so its
    // role was downgraded rather than classifying that partner twice
    assert!(troops.contains(&Troop::Unknown(loc(1, 1))));
    // the selector attacks with the first winning pair
    let poi: Vec<Location> = Vec::new();
    let budget = troop_engine::budget::StrengthBudget::new(&map);
    let props = troop_engine::strategy::select_moves(expected, &map, ME, &poi, &budget);
    assert_eq!(
        props,
        vec![
            (flank_a, troop_engine::grid::Direction::East),
            (center, troop_engine::grid::Direction::South),
        ]
    );
    let mut flank_a_count = 0;
    let mut flank_b_count = 0;
    let mut center_count = 0;
    let mut pincer3_count = 0;
    for t in &troops {
        let members: Vec<Location> = match *t {
            Troop::Pincer(a, b, _) => vec![a, b],
            Troop::Pincer3(a, b, c, _) => vec![a, b, c],
            Troop::Weak(a)
            | Troop::Interior(a)
            | Troop::VerticalWall(a)
            | Troop::HorizontalWall(a)
            | Troop::Lance(a)
            | Troop::Island(a)
            | Troop::Reinforcement(a)
            | Troop::Unknown(a) => vec![a],
        };
        for m in members {
            if m == flank_a {
                flank_a_count += 1;
            }
            if m == flank_b {
                flank_b_count += 1;
            }
            if m == center {
                center_count += 1;
            }
        }
        if matches!(*t, Troop::Pincer3(_, _, _, _)) {
            pincer3_count += 1;
        }
    }
    assert_eq!(pincer3_count, 1);
    assert_eq!(flank_a_count, 1);
    assert_eq!(flank_b_count, 1);
    assert_eq!(center_count, 1);
}
