use transport_io::map::tile::Tick;

#[test]
fn test_tick_duration() {
    let tick_max = Tick::MAX;

    let tick_secs = tick_max / 60;
    let tick_mins = tick_secs / 60;
    let tick_hours = tick_mins / 60;

    let tick_days = tick_hours / 24;
    let tick_years = tick_days / 365;

    assert_eq!(tick_years, 2);
}

#[test]
fn test_map_generate() {}

#[test]
fn test_blocking_tile() {}
