use troop_engine::budget::StrengthBudget;
use troop_engine::grid::{Cell, Direction, GameMap, Location};
use troop_engine::{CAP_LIMIT, STRENGTH_CAP};

const ME: u8 = 1;

fn loc(x: u16, y: u16) -> Location {
    Location { x, y }
}

fn board(width: u16, height: u16) -> GameMap {
    let n = (width as usize) * (height as usize);
    GameMap {
        width,
        height,
        sites: vec![Cell { owner: 0, strength: 0, production: 0 }; n],
    }
}

fn own(map: &mut GameMap, x: u16, y: u16, owner: u8, strength: u8) {
    let i = (y as usize) * (map.width as usize) + x as usize;
    map.sites[i] = Cell { owner, strength, production: 0 };
}

#[test]
fn cap_constants_hold_the_documented_margin() {
    assert_eq!(STRENGTH_CAP, 255);
    assert_eq!(CAP_LIMIT, 260);
}

#[test]
fn accepted_move_credits_destination_and_debits_source() {
    let mut map = board(4, 1);
    own(&mut map, 0, 0, ME, 50);
    own(&mut map, 1, 0, ME, 100);
    let mut budget = StrengthBudget::new(&map);
    let d = budget.commit(&map, ME, loc(0, 0), Direction::East);
    assert_eq!(d, Direction::East);
    assert_eq!(budget.get_entry(&map, loc(1, 0)), 50);
    assert_eq!(budget.get_entry(&map, loc(0, 0)), -50);
}

#[test]
fn move_breaching_resident_cap_is_downgraded_and_ledger_unchanged() {
    let mut map = board(4, 1);
    own(&mut map, 0, 0, ME, 100);
    own(&mut map, 1, 0, ME, 200);
    let mut budget = StrengthBudget::new(&map);
    // 100 + 200 = 300 > 260: downgraded to Still, nothing recorded
    let d = budget.commit(&map, ME, loc(0, 0), Direction::East);
    assert_eq!(d, Direction::Still);
    assert_eq!(budget.get_entry(&map, loc(1, 0)), 0);
    assert_eq!(budget.get_entry(&map, loc(0, 0)), 0);
}

#[test]
fn second_commit_over_the_cap_is_rejected_and_state_kept() {
    let mut map = board(4, 1);
    own(&mut map, 0, 0, ME, 150);
    own(&mut map, 1, 0, ME, 100);
    own(&mut map, 2, 0, ME, 150);
    let mut budget = StrengthBudget::new(&map);
    // 100 + 150 = 250 <= 260: accepted
    assert_eq!(budget.commit(&map, ME, loc(0, 0), Direction::East), Direction::East);
    assert_eq!(budget.get_entry(&map, loc(1, 0)), 150);
    // resident 100 + committed 150 + 150 more would be 400 > 260: rejected
    assert_eq!(budget.commit(&map, ME, loc(2, 0), Direction::West), Direction::Still);
    assert_eq!(budget.get_entry(&map, loc(1, 0)), 150);
    assert_eq!(budget.get_entry(&map, loc(2, 0)), 0);
}

#[test]
fn inflow_onto_any_destination_is_capped() {
    let mut map = board(5, 1);
    own(&mut map, 0, 0, ME, 200);
    own(&mut map, 2, 0, ME, 200);
    own(&mut map, 1, 0, 2, 10); // enemy destination between them
    let mut budget = StrengthBudget::new(&map);
    assert_eq!(budget.commit(&map, ME, loc(0, 0), Direction::East), Direction::East);
    // 200 already promised onto the enemy cell; 200 more would pass 260
    assert_eq!(budget.commit(&map, ME, loc(2, 0), Direction::West), Direction::Still);
    assert_eq!(budget.get_entry(&map, loc(1, 0)), 200);
}

/// The ledger tracks net flow: a cell that has committed to move away
/// frees its capacity for inbound strength.
#[test]
fn vacated_cell_can_be_refilled() {
    let mut map = board(4, 1);
    own(&mut map, 0, 0, ME, 100);
    own(&mut map, 1, 0, ME, 200);
    own(&mut map, 2, 0, ME, 10);
    let mut budget = StrengthBudget::new(&map);
    // the 200 leaves first, debiting its cell
    assert_eq!(budget.commit(&map, ME, loc(1, 0), Direction::East), Direction::East);
    assert_eq!(budget.get_entry(&map, loc(1, 0)), -200);
    // 200 resident - 200 outbound + 100 inbound stays within the cap
    assert_eq!(budget.commit(&map, ME, loc(0, 0), Direction::East), Direction::East);
    assert_eq!(budget.get_entry(&map, loc(1, 0)), -100);
}

#[test]
fn still_commit_changes_nothing() {
    let mut map = board(3, 1);
    own(&mut map, 0, 0, ME, 50);
    let mut budget = StrengthBudget::new(&map);
    assert_eq!(budget.commit(&map, ME, loc(0, 0), Direction::Still), Direction::Still);
    assert_eq!(budget.get_entry(&map, loc(0, 0)), 0);
}
