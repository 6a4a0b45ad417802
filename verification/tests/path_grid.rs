use transport_io::grid::{Direction, GridPosition};
use transport_io::path::{PathGrid, PathTile, DEFAULT_COST, OCCUPIED_COST};

#[test]
fn path_grid_connections_and_costs() {
    let mut grid = PathGrid::new();
    let p = GridPosition::new(3, 3);
    assert!(!grid.is_allowed(p));
    grid.add_allowed(p, Direction::Right);
    grid.add_allowed(p, Direction::Up);
    assert!(grid.is_allowed(p));
    assert_eq!(grid.connection_count(p), 2);
    grid.add_occupied(GridPosition::new(4, 3));
    assert!(grid.is_occupied(GridPosition::new(4, 3)));
    assert_eq!(
        grid.successors(p),
        vec![(GridPosition::new(3, 2), DEFAULT_COST), (GridPosition::new(4, 3), OCCUPIED_COST)]
    );
    assert_eq!(
        grid.get_dirs(p).collect_vec(),
        vec![GridPosition::new(3, 2), GridPosition::new(4, 3)]
    );
    grid.remove_occupied(GridPosition::new(4, 3));
    assert!(!grid.is_occupied(GridPosition::new(4, 3)));
    grid.remove_allowed(p);
    assert!(!grid.is_allowed(p));
    assert_eq!(grid.connection_count(p), 0);
}

#[test]
fn path_tile_flags() {
    let mut tile = PathTile::new();
    tile.connect(Direction::Left);
    tile.connect(Direction::Down);
    assert!(tile.is_connected(Direction::Left));
    assert!(!tile.is_connected(Direction::Up));
    assert_eq!(tile.connections_count(), 2);
    assert_eq!(
        tile.connections_as_iter(GridPosition::new(1, 1)).collect_vec(),
        vec![GridPosition::new(1, 2), GridPosition::new(0, 1)]
    );
}

#[test]
fn manhattan_distance() {
    assert_eq!(GridPosition::new(1, 1).distance(&GridPosition::new(4, 5)), 7);
    assert_eq!(GridPosition::new(4, 5).distance(&GridPosition::new(1, 1)), 7);
}
