use transport_io::map::{Direction, Position};

fn pos(x: i16, y: i16) -> Position {
    Position::new(x, y)
}

#[test]
fn position_test_init() {
    assert_eq!(pos(0, 0), Position { x: 0, y: 0, z: 0 });
}

#[test]
fn position_test_round() {
    assert_eq!(pos(3, 3).round_to(2), Position { x: 2, y: 2, z: 0 });
    assert_eq!(pos(2, 2).round_to(2), Position { x: 2, y: 2, z: 0 });
}

#[test]
fn position_test_from_position() {
    assert_eq!(pos(0, 0).direction_to(pos(3, 0)), Direction::right());
    assert_eq!(pos(0, 3).direction_to(pos(0, 0)), Direction::up());
    assert_eq!(pos(3, 0).direction_to(pos(0, 0)), Direction::left());
    assert_eq!(pos(0, 0).direction_to(pos(0, 3)), Direction::down());
}

#[test]
fn position_test_from_position_diagonal() {
    assert_eq!(pos(0, 0).direction_to(pos(3, 1)), Direction::right());
    assert_eq!(pos(1, 3).direction_to(pos(0, 0)), Direction::up());
    assert_eq!(pos(3, 1).direction_to(pos(0, 0)), Direction::left());
    assert_eq!(pos(0, 0).direction_to(pos(1, 3)), Direction::down());

    assert_eq!(pos(3, 3).direction_to(pos(0, 0)), Direction::left());
    assert_eq!(pos(0, 0).direction_to(pos(3, 3)), Direction::right());
}

#[test]
fn position_test_iter_line_to() {
    let start_pos: Position = pos(0, 0);
    let end_pos: Position = pos(3, 0);
    let (iter, direction) = start_pos.iter_line_to(end_pos);
    assert_eq!(direction, Direction::right());

    let line: Vec<Position> = iter.collect_vec();
    assert_eq!(line, vec![pos(0, 0), pos(1, 0), pos(2, 0), pos(3, 0)]);
}

#[test]
fn test_iter_area() {
    let start_pos: Position = pos(2, 2);
    assert_eq!(start_pos.iter_area((1, 1).into()).collect_vec(), vec![pos(2, 2)]);

    assert_eq!(
        start_pos.iter_area((2, 2).into()).collect_vec(),
        vec![pos(2, 2), pos(3, 2), pos(2, 3), pos(3, 3)]
    );

    assert_eq!(
        Position::new(0, 0).iter_area((2, 2).into()).collect_vec(),
        vec![pos(0, 0), pos(1, 0), pos(0, 1), pos(1, 1)]
    );
}

#[test]
fn test_round_dir() {
    assert_eq!(pos(0, 0).default_connections()[0], Direction::down())
}

#[test]
fn round_to_twice_is_round_to_once() {
    for (x, y) in [(3, 3), (-3, 5), (0, -1), (7, 8)] {
        let once = pos(x, y).round_to(2);
        assert_eq!(once.round_to(2), once);
    }
    assert_eq!(pos(-3, -3).round_to(2), pos(-2, -2));
}

#[test]
fn position_arithmetic() {
    assert_eq!(pos(1, 2) + Direction::right(), pos(2, 2));
    assert_eq!(pos(5, 1) - pos(2, 3), Direction::from((3, -2)));
    assert_eq!(pos(7, 9) / 2, pos(3, 4));
    assert_eq!(pos(0, 0).distance(&pos(3, -4)), 7);
    assert_eq!(pos(2, 2).corner_pos(Direction::left()), pos(3, 3));
    assert_eq!(pos(2, 2).corner_pos(Direction::right()), pos(2, 2));
}
