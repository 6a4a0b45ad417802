use transport_io::map::grid::Grid;
use transport_io::map::Direction;

#[test]
fn path_test_successors() {
    let grid = Grid::new_from_string(
        ">L>
         _._",
    );
    assert_eq!(grid.road_successors(&(0, 0).into()), vec![((1, 0).into(), 1)]);
    assert_eq!(
        grid.road_successors(&(1, 0).into()),
        vec![((2, 0).into(), 1), ((1, 1).into(), 1)]
    );
    assert_eq!(grid.road_successors(&(0, 1).into()), vec![]);
    assert_eq!(grid.road_successors(&(3, 3).into()), vec![]);
}

#[test]
fn path_test_path() {
    let grid = Grid::new_from_string(">>1");

    let path = grid.find_path((grid.pos(0, 0), Direction::right()), &1).unwrap();
    assert_eq!(path, (vec![grid.pos(1, 0), grid.pos(2, 0)], 1));
}

#[test]
fn path_test_path_fail() {
    let grid = Grid::new_from_string("<<1");

    assert!(grid.find_path((grid.pos(0, 0), Direction::right()), &1).is_none());
}

#[test]
fn path_test_path_house() {
    let grid = Grid::new_from_string(
        "__<<h_
         _h>>__",
    );

    assert_eq!(
        grid.find_path((grid.pos(1, 1), Direction::right()), &1).unwrap(),
        ((2..5).map(|i| grid.pos(i, 1)).collect(), 2)
    );
}

#[test]
fn path_test_path_dead_end() {
    let grid = Grid::new_from_string(
        "h_*<
         __>*",
    );

    assert_eq!(
        grid.find_path((grid.pos(1, 1), Direction::right()), &1).unwrap(),
        (
            vec![grid.pos(2, 1), grid.pos(3, 1), grid.pos(3, 0), grid.pos(2, 0), grid.pos(1, 0)],
            4
        )
    );
}

#[test]
fn test_path_station() {
    let grid = Grid::new_from_string(
        "11<<22
         11>>22",
    );

    assert_eq!(
        grid.find_path((grid.pos(1, 1), Direction::right()), &2).unwrap(),
        ((2..5).map(|i| grid.pos(i, 1)).collect(), 2)
    );
}

#[test]
fn reachable_roads() {
    let grid = Grid::new_from_string(">>>_");
    let reach = grid.iter_reachable(grid.pos(0, 0));
    assert!(reach.contains(&grid.pos(0, 0)));
    assert!(reach.contains(&grid.pos(1, 0)));
    assert!(reach.contains(&grid.pos(2, 0)));
}
