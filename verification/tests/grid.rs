use transport_io::map::grid::Grid;
use transport_io::map::tile::{Road, Tile};
use transport_io::map::{Direction, Position};

fn debug_string(grid: &Grid) -> String {
    grid.debug_chars().into_iter().collect()
}

#[test]
fn grid_test_new() {
    let grid = Grid::new((3, 1));
    assert_eq!(*grid.get_tile(&grid.pos(0, 0)).unwrap(), Tile::Empty);

    assert_eq!(grid.size(), (3, 1));

    assert!(grid.get_tile(&(3, 0).into()).is_none());
    assert!(grid.get_tile(&(0, 1).into()).is_none());
}

#[test]
fn test_new_from_string() {
    let grid = Grid::new_from_string(
        "<<<
         >>>",
    );

    assert_eq!(debug_string(&grid), "\n<<<\n>>>\n");

    assert_eq!(
        *grid.get_tile(&grid.pos(1, 1)).unwrap(),
        Tile::Road(Road::new_connected(Direction::right(), None))
    );
}

#[test]
fn grid_stations_become_spawners() {
    let grid = Grid::new_from_string("11<<22\n11>>22");
    assert_eq!(grid.buildings.hash_map.len(), 2);
    assert!(grid.get_tile(&Position::new(0, 0)).unwrap().is_road());
}

#[test]
fn grid_layers() {
    let grid = Grid::new_from_string_layers("}ee*", "e>]e");
    assert!(grid.get_tile(&Position::_new_z(1, 0, 1)).unwrap().is_road());
    assert!(grid.get_tile(&Position::_new_z(0, 0, 2)).is_none());
}
