use troop_engine::grid::{reverse, reverse_cardinal, Direction};

#[test]
fn reverse_of_each_cardinal() {
    assert_eq!(reverse(Direction::North), Ok(Direction::South));
    assert_eq!(reverse(Direction::South), Ok(Direction::North));
    assert_eq!(reverse(Direction::East), Ok(Direction::West));
    assert_eq!(reverse(Direction::West), Ok(Direction::East));
}

#[test]
fn reverse_twice_is_identity_on_cardinals() {
    let cardinals = [Direction::North, Direction::East, Direction::South, Direction::West];
    for d in cardinals {
        let once = reverse(d).unwrap();
        let twice = reverse(once).unwrap();
        assert_eq!(twice, d);
    }
}

#[test]
fn reverse_of_still_is_an_error() {
    assert!(reverse(Direction::Still).is_err());
}

#[test]
fn reverse_cardinal_matches_reverse() {
    let cardinals = [Direction::North, Direction::East, Direction::South, Direction::West];
    for d in cardinals {
        assert_eq!(reverse_cardinal(d), reverse(d).unwrap());
    }
}
