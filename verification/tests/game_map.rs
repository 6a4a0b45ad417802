use transport_io::consts::SpawnerColors;
use transport_io::map::building::Building;
use transport_io::map::grid::Grid;
use transport_io::map::levels::{fits_map_string, level, new_level, LEVEL_COUNT};
use transport_io::map::tile::Tile;
use transport_io::map::vehicle::Vehicle;
use transport_io::map::{Direction, GameMap, MapMetadata, Position, Unlocked, DEFAULT_CITY_ID};

fn never_late(_vehicle: &Vehicle) -> bool {
    false
}

#[test]
fn test_new_without_panic() {
    for i in 0..LEVEL_COUNT {
        assert!(fits_map_string(level(i).grid));
        new_level(i);
    }
}

#[test]
fn test_map_rating() {
    GameMap::new_from_string(">>>>");
}

#[test]
fn levels_are_set_up() {
    let map = new_level(2);
    assert!(map.metadata.is_level);
    assert!(!map.metadata.grow_cities);
    assert_eq!(map.metadata.level_number, 2);
    assert_eq!(map.metadata.unlocks, Unlocked::Bridges);
    assert_eq!(
        map.metadata.level_hint.as_deref(),
        Some("Bridges can be build over Rivers or roads")
    );
    assert_eq!(map.cities.hash_map.get(&DEFAULT_CITY_ID).unwrap().name, "Bridges");
    assert_eq!(map.grid.buildings.hash_map.len(), 2);
    assert!(!fits_map_string("ab\nc"));
    assert!(!fits_map_string("   "));
}

#[test]
fn map_from_string_has_default_city() {
    let map = GameMap::new_from_string("h_h_\n____");
    let city = map.cities.hash_map.get(&DEFAULT_CITY_ID).unwrap();
    assert_eq!(city.name, "default city");
    assert_eq!(city.pos, Position::new(2, 1));
    assert_eq!(city.houses.len(), map.grid.buildings.hash_map.len());
    assert_eq!(map.metadata, MapMetadata::new());
    assert_eq!(map.tick, 0);
}

#[test]
fn new_generate_builds_four_houses() {
    let map = GameMap::new_generate((8, 8));
    let city = map.cities.hash_map.get(&1).unwrap();
    assert_eq!(city.name, "CityVille");
    assert_eq!(city.houses, vec![1, 2, 3, 4]);
    assert_eq!(map.grid.get_tile(&Position::new(6, 6)).unwrap(), &Tile::Building(1));
    assert_eq!(map.grid.get_tile(&Position::new(7, 3)).unwrap(), &Tile::Building(2));
    assert_eq!(map.grid.get_tile(&Position::new(2, 6)).unwrap(), &Tile::Building(3));
    assert_eq!(map.grid.get_tile(&Position::new(3, 3)).unwrap(), &Tile::Building(4));
    assert_eq!(map.grid.get_tile(&Position::new(4, 4)).unwrap(), &Tile::Empty);
    assert_eq!(map.grid.buildings.hash_map.get(&1).unwrap().pos, Position::new(6, 6));
}

#[test]
fn rename_and_remove() {
    let mut map = GameMap::new_from_string("h_\n__");
    assert!(map.rename_city(DEFAULT_CITY_ID, "Town".to_string()));
    assert!(!map.rename_city(77, "Nowhere".to_string()));
    assert_eq!(map.get_city(DEFAULT_CITY_ID).unwrap().name, "Town");
    let id = *map.grid.buildings.hash_map.keys().next().unwrap();
    let removed = map.remove_building(&id).unwrap();
    assert_eq!(removed.pos, Position::new(0, 0));
    assert!(map.get_building(&id).is_none());
    assert!(map.get_city(DEFAULT_CITY_ID).unwrap().houses.is_empty());
    assert!(map.remove_building(&id).is_none());
}

#[test]
fn add_vehicle_holds_start_tile() {
    let mut map = GameMap::new_from_string(">>>1");
    let first = map.add_vehicle(Some((Position::new(0, 0), Direction::right())), 1, SpawnerColors::Red);
    assert_eq!(first, Some(1));
    let second = map.add_vehicle(Some((Position::new(0, 0), Direction::right())), 1, SpawnerColors::Red);
    assert_eq!(second, None);
    assert_eq!(map.add_vehicle(None, 1, SpawnerColors::Red), None);
    assert_eq!(map.vehicles.hash_map.get(&1).unwrap().color, SpawnerColors::Red);
}

#[test]
fn spawn_vehicle_between_stations() {
    let mut map = GameMap::new_from_string("11>>>>22\n11<<<<22");
    assert_eq!(map.spawn_vehicle(1, 1), None);
    assert_eq!(map.spawn_vehicle(1, 9), None);
    let r = map.spawn_vehicle(1, 2);
    assert!(r.is_some());
    assert_eq!(map.vehicles.hash_map.len(), 1);
}

#[test]
fn update_counts_ticks_and_moves_vehicles() {
    let mut map = GameMap::new_from_string("11>>>>22\n11<<<<22");
    let id = map.add_vehicle(Some((Position::new(2, 0), Direction::right())), 2, SpawnerColors::Red).unwrap();
    let start = map.vehicles.hash_map.get(&id).unwrap().pos;
    for _ in 0..20 {
        assert!(map.is_update_ready());
        assert!(!map.update(never_late));
    }
    assert_eq!(map.tick, 20);
    if let Some(v) = map.vehicles.hash_map.get(&id) {
        assert_ne!(v.pos, start);
    }
}

#[test]
fn level_update_never_grows_cities() {
    let mut map = new_level(0);
    let before = map.grid.buildings.hash_map.len();
    for _ in 0..200 {
        if !map.is_update_ready() {
            break;
        }
        map.update(never_late);
    }
    assert_eq!(map.grid.buildings.hash_map.len(), before);
}

#[test]
fn insert_building_lists_house() {
    let mut map = GameMap::new_from_string("____\n____\n____");
    let house = Building::new_house(Position::new(0, 0), DEFAULT_CITY_ID);
    let id = map.add_building(house);
    assert_eq!(map.get_building(&id).unwrap().pos, Position::new(0, 0));
    assert_eq!(map.get_city(DEFAULT_CITY_ID).unwrap().houses, vec![id]);
    let _ = Grid::new((1, 1));
}

#[test]
fn city_with_room_all_around_always_grows() {
    let map = GameMap::new_generate((32, 32));
    let city = map.cities.hash_map.get(&1).unwrap();
    for _ in 0..16 {
        let house = city.grow_building(&map.grid).expect("a house has room along every direction");
        assert_eq!(house.city_id, 1);
        assert!(map.grid.is_area_clear(&house.pos, (2, 2)).is_ok());
    }
}

#[test]
fn parsed_maps_are_ready_to_tick() {
    let mut map = GameMap::new_from_string(">>1\nh__");
    assert!(map.check_wf());
    assert!(map.check_update_ready());
    let tick = map.tick;
    map.update(never_late);
    assert_eq!(map.tick, tick + 1);
    assert!(map.check_wf());
    map.tick = u32::MAX;
    assert!(!map.check_update_ready());
}
