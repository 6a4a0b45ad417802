# transport_io

The rules of a small transportation game, proved with Verus: a tile grid of
roads, bridges, ramps and buildings; building and undoing road networks;
vehicles that plan routes and reserve the tiles ahead of them; cities that
grow houses; and the level maps and menus around them.

Layout:

- `src/map/` — the game map: positions and directions, tiles and roads,
  tile reservations, the grid and its parser, route search, vehicles,
  buildings, cities, which pictures make up a road tile (`road_look.rs`),
  the build actions with their undo (`build/`), and the
  laws that relate building and undoing (`build/laws.rs`).
- `src/ui/` — the build history (undo/redo), the build tools, the toolbars,
  menus and pop-ups, and the mouse state.
- `src/grid/`, `src/tile/`, `src/path.rs`, `src/snake.rs` — the earlier grid
  model with bit-set connections, its reservation tiles, the path grid and
  the snake game.
- `src/rng.rs` — the random numbers the map draws, from macroquad.
- `app/` — the window, drawing, input, saving and loading: everything that
  needs the screen, the clock, the disk or floating point.
- `tests/` — the test suite, run against the compiled library.
