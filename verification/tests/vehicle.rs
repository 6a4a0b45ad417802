use transport_io::map::grid::Grid;
use transport_io::map::tile::{Reservation, ReservationError, Reserved, ReservedList, Tick, Tile};
use transport_io::map::vehicle::{Status, Vehicle, SPEED_PIXELS, SPEED_TICKS};
use transport_io::map::{Direction, Position};

const HOPELESSLY_LATE_PERCENT: f32 = 0.5;
const GRID_CELL_SIZE: (f32, f32) = (32., 32.);

fn trip_completed_percent(vehicle: &Vehicle) -> f32 {
    if let Some(path) = &vehicle.grid_path {
        vehicle.path_index.max(0) as f32 / (path.0.len()).max(1) as f32
    } else {
        1.
    }
}

fn trip_late(vehicle: &Vehicle) -> f32 {
    if let Some(path) = &vehicle.grid_path {
        let tiles_elapsed = (vehicle.elapsed_ticks.saturating_sub(1) / SPEED_TICKS) + 1;
        let tiles_expected = path.1 + 1;

        let elapsed_percent = tiles_elapsed as f32 / tiles_expected as f32;

        let completed_percent = trip_completed_percent(vehicle);

        if completed_percent > 0. {
            1. - (elapsed_percent - completed_percent)
        } else {
            1.
        }
    } else {
        1.
    }
}

fn hopelessly_late(vehicle: &Vehicle) -> bool {
    trip_late(vehicle) < HOPELESSLY_LATE_PERCENT
}

fn update(vehicle: &mut Vehicle, grid: &mut Grid, tick: Tick) -> Status {
    vehicle.update(grid, tick, hopelessly_late)
}

fn reserve(grid: &mut Grid, pos: Position, tick: Tick, start: Tick, end: Tick) -> Result<Reservation, ReservationError> {
    grid.get_tile_mut(&pos).unwrap().reserve(1234, pos, tick, start, end)
}

fn unreserve(grid: &mut Grid, res: Reservation) {
    grid.get_tile_mut(&res.pos).unwrap().unreserve(1234);
}

fn get_reserved(grid: &mut Grid, pos: Position) -> Result<ReservedList, ReservationError> {
    if let Some(Tile::Road(road)) = grid.get_tile(&pos) {
        Ok(road.reserved.clone())
    } else {
        Err(ReservationError::TileInvalid)
    }
}

#[test]
fn vehicle_test_init() {
    let mut grid = Grid::new_from_string(">>>1");
    let start_pos = grid.pos(0, 0);
    let vehicle = Vehicle::new(1, (start_pos, Direction::right()), 1, &mut grid, 0).unwrap();

    assert!(Vehicle::new(2, (start_pos, Direction::right()), 1, &mut grid, 0).is_err());

    assert_eq!(vehicle.reserved, [Reservation::new((0, 0).into(), 0, Tick::MAX)]);

    assert_eq!(
        get_reserved(&mut grid, start_pos).unwrap(),
        ReservedList::from_slice(&[Reserved::new(vehicle.id, 0, Tick::MAX)])
    );

    assert_eq!(vehicle.lead_pos(0), 0);
}

#[test]
fn test_lead_pos() {
    let mut grid = Grid::new_from_string(">>>>1");
    let mut vehicle = Vehicle::new(1, ((0, 0).into(), Direction::right()), 1, &mut grid, 0).unwrap();

    for tick in 0..16 {
        assert_eq!(update(&mut vehicle, &mut grid, tick), Status::EnRoute);
        assert_eq!(vehicle.path_index as Tick, (tick) / SPEED_TICKS + 1, "i: {tick}");
        assert_eq!(vehicle.pos, (tick as i16 / SPEED_TICKS as i16, 0).into(), "i: {tick}");
        assert_eq!(vehicle.pos, vehicle.reserved.back().unwrap().pos, "i: {tick}");
        assert_eq!(
            vehicle.lead_pos(tick),
            (tick as i32 * SPEED_PIXELS) % GRID_CELL_SIZE.0 as i32,
            "i: {tick}"
        );
    }
}

#[test]
fn test_straight() {
    let mut grid = Grid::new_from_string(">>>>1");
    let mut vehicle = Vehicle::new(42, ((0, 0).into(), Direction::right()), 1, &mut grid, 0).unwrap();

    update(&mut vehicle, &mut grid, 0);

    assert_eq!(
        vehicle.reserved,
        [Reservation::new((1, 0).into(), 8, Tick::MAX), Reservation::new((0, 0).into(), 0, 8)]
    );

    update(&mut vehicle, &mut grid, 8);

    assert_eq!(
        vehicle.reserved,
        [Reservation::new((2, 0).into(), 16, Tick::MAX), Reservation::new((1, 0).into(), 8, 16)]
    );

    update(&mut vehicle, &mut grid, 16);

    assert_eq!(
        vehicle.reserved,
        [Reservation::new((3, 0).into(), 24, Tick::MAX), Reservation::new((2, 0).into(), 16, 24)]
    );
}

#[test]
fn vehicle_test_late() {
    let mut grid = Grid::new_from_string(">>>1");
    let mut vehicle = Vehicle::new(1, (grid.pos(0, 0), Direction::right()), 1, &mut grid, 0).unwrap();

    update(&mut vehicle, &mut grid, 0);

    vehicle.elapsed_ticks = SPEED_TICKS + 1;
    assert_eq!(trip_late(&vehicle), 0.6666666);

    vehicle.elapsed_ticks = (SPEED_TICKS * 2) + 1;
    assert_eq!(trip_late(&vehicle), 0.33333337);
}

#[test]
fn vehicle_test_trip() {
    let mut grid = Grid::new_from_string(">>>1");
    let mut vehicle = Vehicle::new(1, (grid.pos(0, 0), Direction::right()), 1, &mut grid, 0).unwrap();

    let trip_length: u32 = 3;
    let trip_time = SPEED_TICKS * trip_length;

    assert_eq!(vehicle.path_time_ticks, trip_time);
    assert_eq!(trip_completed_percent(&vehicle), 0.);
    assert_eq!(trip_late(&vehicle), 1.0);

    for i in 0..(trip_length * SPEED_TICKS) {
        assert_eq!(update(&mut vehicle, &mut grid, i), Status::EnRoute, "Failed on tick {i}");
        assert_eq!(vehicle.path_index, 1 + (i / SPEED_TICKS) as usize, "Failed on tick {i}");
        assert_eq!(vehicle.elapsed_ticks, i + 1);
        assert_eq!(
            trip_completed_percent(&vehicle),
            ((i + SPEED_TICKS) / SPEED_TICKS) as f32 / trip_length as f32,
            "Failed on tick {i}"
        );
        assert_eq!(
            trip_late(&vehicle),
            1.0,
            "Failed on tick {i} %{}",
            trip_completed_percent(&vehicle)
        );
    }
}

#[test]
fn instersection_do_not_block() {
    let mut grid = Grid::new_from_string(
        "LR>>1
         _^___",
    );

    let start: (Position, Direction) = ((1, 1).into(), Direction::up());

    let mut vehicle = Vehicle::new(1, start, 1, &mut grid, 0).unwrap();

    assert_eq!(vehicle.reserved[0], Reservation::new(start.0, 0, Tick::MAX));

    let reservation = reserve(&mut grid, (2, 0).into(), 0, 0, 16).unwrap();

    update(&mut vehicle, &mut grid, 0);

    assert_eq!(vehicle.path_index, 0);
    assert_eq!(vehicle.pos, start.0);

    unreserve(&mut grid, reservation);

    let mut tick = 0;

    update(&mut vehicle, &mut grid, tick);

    assert_eq!(
        vehicle.reserved,
        [
            Reservation::new((2, 0).into(), 16, Tick::MAX),
            Reservation::new((1, 0).into(), 8, 16),
            Reservation::new((1, 1).into(), 0, 8),
        ]
    );

    for _ in 0..SPEED_TICKS {
        tick += 1;
        update(&mut vehicle, &mut grid, tick);
    }

    assert_eq!(tick, 8);
    assert_eq!(vehicle.path_index, 2);

    for _ in 0..SPEED_TICKS {
        tick += 1;
        update(&mut vehicle, &mut grid, tick);
    }

    assert_eq!(tick, 16);

    assert_eq!(
        vehicle.reserved,
        [Reservation::new((3, 0).into(), 24, Tick::MAX), Reservation::new((2, 0).into(), 16, 24)]
    );
    assert_eq!(
        get_reserved(&mut grid, (3, 0).into()).unwrap(),
        ReservedList::from_slice(&[Reserved::new(1, 24, Tick::MAX)])
    );

    for _ in 0..SPEED_TICKS {
        tick += 1;
        update(&mut vehicle, &mut grid, tick);
    }

    assert_eq!(
        vehicle.reserved,
        [Reservation::new((4, 0).into(), 32, Tick::MAX), Reservation::new((3, 0).into(), 24, 32)]
    );
}

#[test]
fn intersection_overlap_traffic() {
    let mut grid = Grid::new_from_string(
        "LR>>1
         _^___",
    );

    let start: (Position, Direction) = ((1, 1).into(), Direction::up());

    let mut vehicle = Vehicle::new(1, start, 1, &mut grid, 0).unwrap();

    assert_eq!(vehicle.reserved, [Reservation::new(start.0, 0, Tick::MAX)]);

    let _reservation = reserve(&mut grid, (1, 0).into(), 0, 0, 8).unwrap();

    update(&mut vehicle, &mut grid, 0);

    assert_eq!(vehicle.reserved, [Reservation::new(start.0, 0, Tick::MAX)]);

    update(&mut vehicle, &mut grid, 4);

    assert_eq!(
        vehicle.reserved,
        [
            Reservation::new((2, 0).into(), 20, Tick::MAX),
            Reservation::new((1, 0).into(), 12, 20),
            Reservation::new((1, 1).into(), 0, 12),
        ]
    );
}

#[test]
fn yield_roundabout_traffic() {
    let mut grid = Grid::new_from_string(
        "\
        __.3__
        __.^__
        4<lr<<
        >>LR>2
        __.^__
        __1^__
        ",
    );

    let tick = 0;

    let start_top: (Position, Direction) = ((2, 1).into(), Direction::down());
    let mut vehicle_top = Vehicle::new(1, start_top, 1, &mut grid, tick).unwrap();

    let start_left: (Position, Direction) = ((1, 3).into(), Direction::right());
    let mut vehicle_left = Vehicle::new(2, start_left, 2, &mut grid, tick).unwrap();

    let start_bottom: (Position, Direction) = ((3, 4).into(), Direction::up());
    let mut vehicle_bottom = Vehicle::new(3, start_bottom, 3, &mut grid, tick).unwrap();

    let start_right: (Position, Direction) = ((4, 2).into(), Direction::left());
    let mut vehicle_right = Vehicle::new(4, start_right, 4, &mut grid, tick).unwrap();

    update(&mut vehicle_top, &mut grid, 0);
    assert_eq!(vehicle_top.path_index, 3);
    update(&mut vehicle_right, &mut grid, 1);
    assert_eq!(vehicle_right.path_index, 3);
    update(&mut vehicle_bottom, &mut grid, 2);
    assert_eq!(vehicle_bottom.path_index, 3);

    update(&mut vehicle_left, &mut grid, 1);
    assert_eq!(vehicle_left.path_index, 0);

    for tick in 0..SPEED_TICKS * 5 {
        update(&mut vehicle_top, &mut grid, tick);
        update(&mut vehicle_right, &mut grid, tick);
        update(&mut vehicle_bottom, &mut grid, tick);
        update(&mut vehicle_left, &mut grid, tick);
    }

    assert_eq!(update(&mut vehicle_top, &mut grid, 0), Status::ReachedDestination);
    assert_eq!(update(&mut vehicle_right, &mut grid, 0), Status::ReachedDestination);
    assert_eq!(update(&mut vehicle_bottom, &mut grid, 0), Status::ReachedDestination);

    assert_eq!(vehicle_top.reserved.len(), 1);
    assert_eq!(vehicle_top.reserved.front().unwrap().pos, vehicle_top.pos);
}

#[test]
fn house_yield() {
    let mut grid = Grid::new_from_string(
        ">>>2
         _h__",
    );

    let mut vehicle_priority = Vehicle::new(42, ((0, 0).into(), Direction::right()), 2, &mut grid, 0).unwrap();

    update(&mut vehicle_priority, &mut grid, 0);

    assert_eq!(
        vehicle_priority.reserved,
        [Reservation::new((1, 0).into(), 8, Tick::MAX), Reservation::new((0, 0).into(), 0, 8)]
    );

    let mut vehicle_yield = Vehicle::new(2, ((1, 1).into(), Direction::up()), 2, &mut grid, 0).unwrap();

    update(&mut vehicle_yield, &mut grid, 0);

    assert_eq!(vehicle_yield.path_index, 0);
    assert_eq!(vehicle_yield.blocking_tile, Some((1, 0).into()));
}

#[test]
fn vehicle_cleanup_frees_tiles() {
    let mut grid = Grid::new_from_string(">>>1");
    let vehicle = Vehicle::new(7, (grid.pos(0, 0), Direction::right()), 1, &mut grid, 0).unwrap();
    assert!(Vehicle::new(8, (grid.pos(0, 0), Direction::right()), 1, &mut grid, 1).is_err());
    vehicle.cleanup(&mut grid);
    // The freed slot is kept as an empty hold over tick 0, so the tile is free from tick 1 on.
    assert!(Vehicle::new(8, (grid.pos(0, 0), Direction::right()), 1, &mut grid, 1).is_ok());
}
