use troop_engine::grid::{Cell, Direction, GameMap, Location};

fn uniform(width: u16, height: u16, owner: u8, strength: u8, production: u8) -> GameMap {
    let n = (width as usize) * (height as usize);
    GameMap { width, height, sites: vec![Cell { owner, strength, production }; n] }
}

fn loc(x: u16, y: u16) -> Location {
    Location { x, y }
}

#[test]
fn stepping_wraps_toroidally() {
    let map = uniform(4, 3, 0, 0, 0);
    assert_eq!(map.get_location(loc(0, 0), Direction::North), loc(0, 2));
    assert_eq!(map.get_location(loc(0, 0), Direction::West), loc(3, 0));
    assert_eq!(map.get_location(loc(3, 2), Direction::South), loc(3, 0));
    assert_eq!(map.get_location(loc(3, 2), Direction::East), loc(0, 2));
    assert_eq!(map.get_location(loc(1, 1), Direction::North), loc(1, 0));
    assert_eq!(map.get_location(loc(1, 1), Direction::Still), loc(1, 1));
}

#[test]
fn get_site_reads_the_stepped_cell() {
    let mut map = uniform(3, 3, 0, 0, 0);
    map.sites[1 * 3 + 2] = Cell { owner: 7, strength: 42, production: 3 };
    let c = map.get_site(loc(1, 1), Direction::East);
    assert_eq!(c.owner, 7);
    assert_eq!(c.strength, 42);
    let c2 = map.get_site(loc(2, 1), Direction::Still);
    assert_eq!(c2.strength, 42);
}

#[test]
fn distance_takes_the_shorter_way_around() {
    let map = uniform(10, 8, 0, 0, 0);
    assert_eq!(map.get_distance(loc(0, 0), loc(0, 0)), 0);
    assert_eq!(map.get_distance(loc(1, 1), loc(4, 1)), 3);
    // nine steps east equals one step west on a width-10 board
    assert_eq!(map.get_distance(loc(0, 0), loc(9, 0)), 1);
    // both axes combined
    assert_eq!(map.get_distance(loc(0, 0), loc(9, 7)), 2);
    assert_eq!(map.get_distance(loc(2, 2), loc(5, 5)), 6);
}

#[test]
fn direction_toward_an_adjacent_cell() {
    let map = uniform(5, 5, 0, 0, 0);
    assert_eq!(map.get_direction(loc(2, 2), loc(3, 2)), Direction::East);
    assert_eq!(map.get_direction(loc(2, 2), loc(1, 2)), Direction::West);
    assert_eq!(map.get_direction(loc(2, 2), loc(2, 1)), Direction::North);
    assert_eq!(map.get_direction(loc(2, 2), loc(2, 3)), Direction::South);
    assert_eq!(map.get_direction(loc(2, 2), loc(2, 2)), Direction::Still);
}

#[test]
fn direction_wraps_and_takes_the_longer_axis_first() {
    let map = uniform(10, 10, 0, 0, 0);
    // one step west around the seam, not nine east
    assert_eq!(map.get_direction(loc(0, 5), loc(9, 5)), Direction::West);
    // x offset 3, y offset 1: the horizontal axis is farther, so it goes first
    assert_eq!(map.get_direction(loc(0, 0), loc(3, 1)), Direction::East);
    // y offset 4, x offset 1: the vertical axis is farther
    assert_eq!(map.get_direction(loc(0, 0), loc(1, 4)), Direction::South);
}
