use transport_io::grid::Direction as GridDirection;
use transport_io::map::Direction;

#[test]
fn test_inverse() {
    assert_eq!(Direction::right().inverse(), Direction::left());
    assert_eq!(Direction::left().inverse(), Direction::right());
    assert_eq!(Direction::up().inverse(), Direction::down());
    assert_eq!(Direction::down().inverse(), Direction::up());
}

#[test]
fn test_rotate() {
    assert_eq!(Direction::right().rotate_left(), Direction::up());
    assert_eq!(Direction::down().rotate_left(), Direction::right());
    assert_eq!(Direction::left().rotate_left(), Direction::down());
    assert_eq!(Direction::up().rotate_left(), Direction::left());
}

#[test]
fn rotate_right_undoes_rotate_left() {
    for d in [Direction::right(), Direction::down(), Direction::left(), Direction::up()] {
        assert_eq!(d.rotate_left().rotate_right(), d);
        assert_eq!(d.inverse().inverse(), d);
    }
}

#[test]
fn grid_direction_turns() {
    assert_eq!(GridDirection::Up.inverse(), GridDirection::Down);
    assert_eq!(GridDirection::Left.inverse(), GridDirection::Right);
    assert!(GridDirection::Left.is_horizontal());
    assert!(!GridDirection::Up.is_horizontal());
    assert_eq!(GridDirection::Up.rotate_left(), GridDirection::Left);
    assert_eq!(GridDirection::Up._rotate(), GridDirection::Right);
    for d in [GridDirection::Up, GridDirection::Down, GridDirection::Left, GridDirection::Right] {
        assert_eq!(d.rotate_left()._rotate(), d);
        assert_eq!(d._rotate()._rotate(), d.inverse());
    }
}
