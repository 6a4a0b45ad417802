use transport_io::grid::ReservationError;
use transport_io::map::{Direction, Position};
use transport_io::tile::{Building, Ramp, Tile, YieldType, DEFAULT_COST};

#[test]
fn old_tiles_from_chars() {
    assert!(matches!(Tile::new_from_char('h'), Tile::Building(_)));
    assert!(matches!(Tile::new_from_char('_'), Tile::Empty));
    assert!(matches!(Tile::new_from_char('z'), Tile::Empty));
    assert!(Tile::new_from_char('>').is_road());
    assert!(matches!(Tile::new(), Tile::Empty));
    assert_eq!(Building::new().vehicle_on_the_way, None);
}

#[test]
fn old_tile_yield_and_cost() {
    assert_eq!(Tile::new_from_char('>').should_yield(), YieldType::IfAtIntersection);
    assert_eq!(Tile::new_from_char('l').should_yield(), YieldType::Never);
    assert_eq!(Tile::new_from_char('h').should_yield(), YieldType::Always);
    assert_eq!(Tile::new_from_char('h').cost(), DEFAULT_COST * 2);
    assert_eq!(Tile::new_from_char('_').cost(), DEFAULT_COST * 3);
    assert_eq!(Tile::new_from_char('>').cost(), DEFAULT_COST);
    let ramp = Tile::Ramp(Ramp::new(Direction::right()));
    assert_eq!(ramp.road_successor(&Position::new(1, 1)), (Position::new(2, 1), DEFAULT_COST * 3));
    assert_eq!(Tile::new_from_char('h').iter_connections().len(), 4);
}

#[test]
fn old_tile_reserve() {
    let mut road = Tile::new_from_char('>');
    let held = road.reserve(5, Position::new(0, 0)).unwrap();
    assert_eq!(*held._strong_id, 5);
    assert!(matches!(road.reserve(6, Position::new(0, 0)), Err(ReservationError::TileReserved)));
    assert!(road.should_be_yielded_to(YieldType::Always, Direction::left()));
    drop(held);
    assert!(road.reserve(6, Position::new(0, 0)).is_ok());
    let mut empty = Tile::new();
    assert!(matches!(empty.reserve(1, Position::new(0, 0)), Err(ReservationError::TileInvalid)));
}
