use transport_io::grid::{ConnectionLayer, Connections, ConnectionsIterator, Direction as GridDirection};
use transport_io::map::Direction;
use transport_io::tile::connections::Connections as TileConnections;

#[test]
fn connections_test_new() {
    assert!(Connections::new(ConnectionLayer::Road, GridDirection::Right).count() == 1);

    let connections = TileConnections::new();
    assert_eq!(connections.count(), 0, "Connections: {:?}", connections);
}

#[test]
fn connections_test_iter() {
    let mut connection = Connections::new(ConnectionLayer::Road, GridDirection::Right);
    connection.add(ConnectionLayer::Road, GridDirection::Left);
    assert!(connection.iter().collect_vec() == vec![GridDirection::Right, GridDirection::Left]);

    let mut connection = TileConnections::new();
    connection.add(Direction::right());
    connection.add(Direction::left());
    assert_eq!(connection.iter(), vec![Direction::right(), Direction::left()]);
}

#[test]
fn connections_test_layer() {
    let mut connection = Connections::new(ConnectionLayer::Driveway, GridDirection::Right);
    connection.add(ConnectionLayer::Road, GridDirection::Left);
    assert!(connection.iter().collect_vec() == vec![GridDirection::Left, GridDirection::Right]);
    assert!(connection.iter_layer(ConnectionLayer::Driveway).collect_vec() == vec![GridDirection::Right]);

    assert!(connection.count() == 1);
}

#[test]
fn connections_remove_and_has() {
    let mut connection = Connections::new(ConnectionLayer::Road, GridDirection::Up);
    connection.add(ConnectionLayer::Road, GridDirection::Down);
    assert!(connection.has(GridDirection::Up));
    connection.remove(GridDirection::Up);
    assert!(!connection.has(GridDirection::Up));
    assert!(connection.has(GridDirection::Down));
    assert_eq!(connection.count(), 1);
    assert_eq!(
        connection.iter_inverse(ConnectionLayer::Road).collect_vec(),
        vec![GridDirection::Up, GridDirection::Right, GridDirection::Left]
    );
}

#[test]
fn connections_iterator_all_and_none() {
    assert_eq!(
        ConnectionsIterator::all_directions().collect_vec(),
        vec![GridDirection::Up, GridDirection::Down, GridDirection::Right, GridDirection::Left]
    );
    assert_eq!(ConnectionsIterator::no_directions().collect_vec(), vec![]);
    let mut it = ConnectionsIterator::no_directions();
    assert_eq!(it.next(), None);
}

#[test]
fn tile_connections_add_twice_then_remove() {
    let mut connection = TileConnections::new();
    connection.add(Direction::up());
    connection.add(Direction::up());
    connection.add(Direction::down());
    assert_eq!(connection.count(), 2);
    assert!(connection.has(Direction::up()));
    connection.remove(Direction::up());
    assert!(!connection.has(Direction::up()));
    assert_eq!(connection.iter(), vec![Direction::down()]);
}
