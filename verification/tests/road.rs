use transport_io::map::tile::Road;
use transport_io::map::{Direction, Position};
use transport_io::tile::road::Road as OldRoad;

#[test]
fn road_test_new() {
    let road = Road::new();
    assert_eq!(road.connection_count(), 0, "Connections: {:?}", road);

    let road = OldRoad::new();
    assert_eq!(road.connection_count(), 0);
}

#[test]
fn road_test_connect() {
    let mut road = Road::new();
    assert!(!road.is_connected(Direction::right()));
    road.connect(Direction::right());
    assert!(road.is_connected(Direction::right()));
    assert_eq!(road.connection_count(), 1);

    road.connect(Direction::right());
    road.connect(Direction::right());
    assert_eq!(road.connection_count(), 1);

    road.disconnect(Direction::right());
    assert_eq!(road.connection_count(), 0);
    assert!(!road.is_connected(Direction::right()));

    let mut road = OldRoad::new();
    assert!(!road.is_connected(Direction::right()));
    road.connect(Direction::right());
    assert!(road.is_connected(Direction::right()));
    assert_eq!(road.connection_count(), 1);

    road.connect(Direction::right());
    road.connect(Direction::right());
    assert_eq!(road.connection_count(), 1);

    road.disconnect(Direction::right());
    assert_eq!(road.connection_count(), 0);
    assert!(!road.is_connected(Direction::right()));
}

#[test]
fn road_test_iter() {
    let mut road = OldRoad::new();
    road.connect(Direction::right());
    road.connect(Direction::left());
    assert_eq!(road.iter_connections(), vec![Direction::right(), Direction::left()]);

    let mut road = Road::new();
    road.connect(Direction::right());
    road.connect(Direction::left());
    assert_eq!(
        road.iter_connections(&Position::new(0, 0)),
        vec![Direction::right(), Direction::left()].as_slice()
    );
}

#[test]
fn old_road_from_char() {
    let road = OldRoad::new_from_char('l').unwrap();
    assert_eq!(road.iter_connections(), vec![Direction::left(), Direction::down()]);
    assert!(OldRoad::new_from_char('y').unwrap().should_yield);
    assert_eq!(
        OldRoad::new_from_char('u').unwrap().iter_connections(),
        vec![Direction::right() + Direction::layer_up()]
    );
    assert!(OldRoad::new_from_char('x').is_none());
}

#[test]
fn road_dead_end_leaves_by_default_connection() {
    let road = Road::new();
    assert_eq!(road.iter_connections(&Position::new(0, 0)), vec![Direction::down()]);
}

#[test]
fn connection_count_is_distinct_directions() {
    let mut road = Road::new();
    road.connect(Direction::right());
    road.connect(Direction::down());
    road.connect(Direction::right());
    road.connect(Direction::none());
    assert_eq!(road.connection_count(), 2);
    assert!(road.check_wf());
    road.disconnect(Direction::right());
    assert_eq!(road.connection_count(), 1);
    assert!(road.is_connected(Direction::down()));
    assert!(!road.is_connected(Direction::right()));
}
