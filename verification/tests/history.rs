use transport_io::map::build::{BuildAction, BuildActionClearTile, BuildRoad};
use transport_io::map::grid::Grid;
use transport_io::map::{Direction, GameMap};
use transport_io::ui::build_history::BuildHistory;

#[test]
fn test_undo() {
    let mut map = GameMap::new_blank((4, 1));
    let mut build_history = BuildHistory::new();

    build_history
        .do_action(&mut map, BuildAction::Road(BuildRoad::new((0, 0).into(), Direction::right())))
        .unwrap();

    build_history
        .do_action(&mut map, BuildAction::Road(BuildRoad::new((1, 0).into(), Direction::right())))
        .unwrap();

    build_history
        .do_action(&mut map, BuildAction::Road(BuildRoad::new((2, 0).into(), Direction::right())))
        .unwrap();

    assert_eq!(map.grid, Grid::new_from_string(">>>e"));
    build_history.undo_action(&mut map).unwrap();
    assert_eq!(map.grid, Grid::new_from_string(">>ee"));
    build_history.undo_action(&mut map).unwrap();
    assert_eq!(map.grid, Grid::new_from_string(">eee"));
    build_history.undo_action(&mut map).unwrap();
    assert_eq!(map.grid, Grid::new_from_string("eeee"));
    build_history.undo_action(&mut map).unwrap();

    build_history.redo_action(&mut map).unwrap();
    assert_eq!(map.grid, Grid::new_from_string(">eee"));
    build_history.redo_action(&mut map).unwrap();
    assert_eq!(map.grid, Grid::new_from_string(">>ee"));
    build_history.redo_action(&mut map).unwrap();
    assert_eq!(map.grid, Grid::new_from_string(">>>e"));

    build_history.undo_action(&mut map).unwrap();
    assert_eq!(map.grid, Grid::new_from_string(">>ee"));
    build_history
        .do_action(&mut map, BuildAction::Road(BuildRoad::new((0, 0).into(), Direction::right())))
        .unwrap();
    assert_eq!(map.grid, Grid::new_from_string(">>ee"));
    build_history.redo_action(&mut map).unwrap();
    assert_eq!(map.grid, Grid::new_from_string(">>ee"));
}

#[test]
fn undo_after_clear_restores_road() {
    let mut map = GameMap::new_from_string(">>");
    let mut history = BuildHistory::new();
    history
        .do_action(&mut map, BuildAction::ClearTile(BuildActionClearTile::new((1, 0).into())))
        .unwrap();
    assert_eq!(map.grid, Grid::new_from_string(">e"));
    history.undo_action(&mut map).unwrap();
    assert_eq!(map.grid, Grid::new_from_string(">>"));
}

#[test]
fn failed_action_is_not_kept() {
    let mut map = GameMap::new_blank((2, 1));
    let mut history = BuildHistory::new();
    assert!(history
        .do_action(&mut map, BuildAction::Road(BuildRoad::new((5, 0).into(), Direction::right())))
        .is_err());
    assert_eq!(history.queue.len(), 0);
}
