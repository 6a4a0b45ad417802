use transport_io::map::build::{
    action_build_road, action_one_way_road, action_two_way_road, one_way_road_lanes, two_way_road_lanes,
    BuildActionBuilding, BuildActionClearArea, BuildActionClearTile, BuildError, BuildRoad, BuildRoadHeight,
    RoadBuildOption,
};
use transport_io::map::building::Building;
use transport_io::map::grid::Grid;
use transport_io::map::tile::Tile;
use transport_io::map::{Direction, GameMap, Position};

#[test]
fn build_test_build() {
    let map = &mut GameMap::new_blank((2, 2));

    let pos = map.grid.pos(0, 0);

    let mut action = BuildRoad::new(pos, Direction::right());

    action.execute(map).unwrap();
    assert_eq!(map.grid.get_tile(&pos).unwrap(), &Tile::new_from_char('>'));
    action.undo(map).unwrap();
    assert_eq!(map.grid.get_tile(&pos).unwrap(), &Tile::new_from_char('e'));

    action.execute(map).unwrap();
    assert_eq!(map.grid.get_tile(&pos).unwrap(), &Tile::new_from_char('>'));

    let mut clear_action = BuildActionClearTile::new(pos);
    clear_action.execute(map).unwrap();
    assert_eq!(map.grid.get_tile(&pos).unwrap(), &Tile::new_from_char('e'));

    action.execute(map).unwrap();
    assert_eq!(map.grid.get_tile(&pos).unwrap(), &Tile::new_from_char('>'));

    clear_action.execute(map).unwrap();
    assert_eq!(map.grid.get_tile(&pos).unwrap(), &Tile::new_from_char('e'));
}

#[test]
fn test_clear_area() {
    let map = &mut GameMap::new_from_string(">>\n>>");

    let mut clear_action = BuildActionClearArea::new((0, 0).into());

    clear_action.execute(map).unwrap();
    assert_eq!(map.grid, Grid::new_from_string("ee\nee"));

    clear_action.undo(map).unwrap();
    assert_eq!(map.grid, Grid::new_from_string(">>\n>>"));

    clear_action.execute(map).unwrap();
    assert_eq!(map.grid, Grid::new_from_string("ee\nee"));

    clear_action.execute(map).unwrap();
    assert_eq!(map.grid, Grid::new_from_string("ee\nee"));
}

#[test]
fn build_test_build_two_way_road() {
    let map = &mut GameMap::new_blank((4, 4));

    let mut action_same_place = action_two_way_road((0, 0).into(), (0, 0).into());
    action_same_place.execute(map).unwrap();
    assert_eq!(map.grid, Grid::new_from_string("**__\n**__\n____\n____"));
    action_same_place.undo(map).unwrap();
    assert_eq!(map.grid, Grid::new_from_string("____\n____\n____\n____"));

    let mut action_right = action_two_way_road((0, 0).into(), (2, 0).into());
    action_right.execute(map).unwrap();
    assert_eq!(map.grid, Grid::new_from_string("*<<<\n>>>*\n____\n____"));
    action_right.undo(map).unwrap();
    assert_eq!(map.grid, Grid::new_from_string("____\n____\n____\n____"));

    action_right.execute(map).unwrap();
    action_right.execute(map).unwrap();
    action_right.undo(map).unwrap();
    assert_eq!(map.grid, Grid::new_from_string("*<<<\n>>>*\n____\n____"));
}

#[test]
fn test_build_two_way_road_again() {
    let map = &mut GameMap::new_blank((4, 4));

    let mut action_right = action_two_way_road((0, 0).into(), (2, 0).into());
    let mut action_down = action_two_way_road((0, 0).into(), (0, 2).into());
    action_down.execute(map).unwrap();
    assert_eq!(map.grid, Grid::new_from_string(".*__\n.^__\n.^__\n*^__"));
    action_down.undo(map).unwrap();
    assert_eq!(map.grid, Grid::new_from_string("____\n____\n____\n____"));

    action_right.execute(map).unwrap();
    action_down.execute(map).unwrap();
    assert_eq!(map.grid, Grid::new_from_string(".<<<\nLR>*\n.^__\n*^__"));
    action_down.undo(map).unwrap();
    action_right.undo(map).unwrap();
    assert_eq!(map.grid, Grid::new_from_string("____\n____\n____\n____"));

    let mut action_fail_invalid_tile = action_two_way_road((0, 0).into(), (4, 0).into());
    assert_eq!(action_fail_invalid_tile.execute(map).unwrap_err(), BuildError::InvalidTile);
}

#[test]
fn test_build_one_way_road() {
    let mut map = GameMap::new_blank((4, 4));
    let mut action_right = action_one_way_road((0, 0).into(), (2, 0).into());
    action_right.execute(&mut map).unwrap();
    assert_eq!(map.grid, Grid::new_from_string(">>>*\n>>>*\n____\n____"));
    action_right.undo(&mut map).unwrap();
    assert_eq!(map.grid, Grid::new_from_string("____\n____\n____\n____"));

    let mut action_down = action_one_way_road((0, 0).into(), (0, 2).into());
    action_down.execute(&mut map).unwrap();
    assert_eq!(map.grid, Grid::new_from_string("..__\n..__\n..__\n**__"));
    action_down.undo(&mut map).unwrap();
    assert_eq!(map.grid, Grid::new_from_string("____\n____\n____\n____"));
}

#[test]
fn build_test_build_bridge() {
    let mut map = GameMap::new_blank((4, 4));
    let mut action = action_build_road(
        (0, 0).into(),
        (2, 0).into(),
        RoadBuildOption { height: BuildRoadHeight::Bridge, lanes: one_way_road_lanes() },
    );
    action.execute(&mut map).unwrap();
    assert_eq!(
        map.grid,
        Grid::new_from_string_layers("}ee*\n}ee*\n____\n____", "e>]e\ne>]e\n____\n____")
    );

    action.undo(&mut map).unwrap();
    assert_eq!(map.grid, Grid::new_from_string("____\n____\n____\n____"));

    let mut action = action_build_road(
        (0, 0).into(),
        (2, 0).into(),
        RoadBuildOption { height: BuildRoadHeight::Bridge, lanes: two_way_road_lanes() },
    );

    action.execute(&mut map).unwrap();
    assert_eq!(
        map.grid,
        Grid::new_from_string_layers("*ee{\n}ee*\n____\n____", "e[<e\ne>]e\n____\n____")
    );
}

#[test]
fn test_build_building() {
    let mut map = GameMap::new_blank((4, 4));
    let pos: Position = (0, 0).into();
    let city_id = map.new_city(pos, "test".into());
    let building: Building = Building::new_house(pos, city_id);
    let mut action_house = BuildActionBuilding::new(building);

    action_house.execute(&mut map).unwrap();

    assert_eq!(
        map.cities.hash_map.get(&city_id).unwrap().houses[0],
        action_house.building_id.unwrap()
    );

    for dir in Direction::square() {
        assert_eq!(map.grid.get_tile(&(pos + dir)).unwrap(), &Tile::Building(1));
    }

    action_house.undo(&mut map).unwrap();

    assert_eq!(map.grid, Grid::new_from_string("____\n____\n____\n____"));
    assert!(&action_house.building_id.is_none());

    action_house.execute(&mut map).unwrap();
    for dir in Direction::square() {
        assert_eq!(map.grid.get_tile(&(pos + dir)).unwrap(), &Tile::Building(2));
    }

    let mut clear_action = BuildActionClearArea::new((0, 0).into());

    clear_action.execute(&mut map).unwrap();

    assert_eq!(map.grid, Grid::new_from_string("____\n____\n____\n____"));
    assert!(map.get_building(&action_house.building_id.unwrap()).is_none());

    clear_action.undo(&mut map).unwrap();
    for dir in Direction::square() {
        assert_eq!(map.grid.get_tile(&(pos + dir)).unwrap(), &Tile::Building(2));
    }
}

#[test]
fn road_list_undo_restores_grid() {
    let map = &mut GameMap::new_from_string("ee>e\neeee");
    let mut list = transport_io::map::build::BuildActionList::new();
    list.append(BuildRoad::new(map.grid.pos(0, 0), Direction::right()));
    list.append(BuildRoad::new(map.grid.pos(1, 0), Direction::right()));
    list.append(BuildRoad::new(map.grid.pos(2, 0), Direction::down()));
    list.execute(map).unwrap();
    assert_eq!(map.grid.get_tile(&map.grid.pos(0, 0)).unwrap(), &Tile::new_from_char('>'));
    assert_ne!(map.grid, Grid::new_from_string("ee>e\neeee"));
    list.undo(map).unwrap();
    assert_eq!(map.grid, Grid::new_from_string("ee>e\neeee"));
}
