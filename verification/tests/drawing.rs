use transport_io::map::build::is_buildable;
use transport_io::map::grid::Grid;
use transport_io::map::levels::fits_map_string;
use transport_io::map::road_look::road_sprites;
use transport_io::map::tile::Tile;
use transport_io::map::{Direction, Position};
use transport_io::tileset::Sprite;

#[test]
fn straight_road_sprites() {
    let grid = Grid::new_from_string(">>");
    let road = match grid.get_tile(&Position::new(0, 0)).unwrap() {
        Tile::Road(road) => road,
        _ => panic!("a road was expected"),
    };
    let layers = road_sprites(road, Position::new(0, 0), &grid);
    let right = Direction::right();
    assert_eq!(layers.len(), 4);
    assert_eq!((layers[0].sprite, layers[0].dir, layers[0].flip), (Sprite::new(3, 0), right, false));
    // Nothing behind: a plain back edge, turned left of the way the road runs.
    assert_eq!((layers[1].sprite, layers[1].dir), (Sprite::new(3, 6), Direction::up()));
    assert_eq!((layers[2].sprite, layers[2].flip), (Sprite::new(3, 6), false));
    assert_eq!((layers[3].sprite, layers[3].flip), (Sprite::new(3, 6), true));
    // The second tile has a road leading to it from behind.
    let road2 = match grid.get_tile(&Position::new(1, 0)).unwrap() {
        Tile::Road(road) => road,
        _ => panic!("a road was expected"),
    };
    let layers2 = road_sprites(road2, Position::new(1, 0), &grid);
    assert_eq!(layers2[1].sprite, Sprite::new(3, 3));
}

#[test]
fn sizes_and_bounds() {
    assert_eq!(Grid::new((0, 0)).size(), (0, 0));
    assert_eq!(Grid::new((3, 2)).size(), (3, 2));
    assert!(is_buildable(Position::new(0x3000, -0x3000)));
    assert!(!is_buildable(Position::new(0x3001, 0)));
}

#[test]
fn rows_longer_than_the_first_are_read() {
    assert!(fits_map_string(">>\n>>>"));
    assert!(!fits_map_string(">>>\n>>"));
    let grid = Grid::new_from_string(">>\n>>>");
    assert_eq!(grid.tiles[1].len(), 3);
    assert_eq!(grid.size(), (2, 2));
}
