use tilecast::geom::Vec2i;
use tilecast::grid::{
    color_from_ordinal, Grid, GridConfig, GridTileColor, Index, DEFAULT_MOVES_LIMIT, PALETTE_SIZE,
};
use tilecast::touch::TouchState;

fn config() -> GridConfig {
    GridConfig {
        dimensions: (5, 3),
        tile_size: Vec2i { x: 96, y: 96 },
        movement_speed: 128,
    }
}

fn untouched(n: usize) -> Vec<TouchState> {
    vec![TouchState::Untouched; n]
}

/// A touch vector with exactly one entry in the given state.
fn touch_one(n: usize, at: usize, state: TouchState) -> Vec<TouchState> {
    let mut v = untouched(n);
    v[at] = state;
    v
}

fn tile_id_at(grid: &Grid, x: usize, y: usize) -> usize {
    grid.tile_by_index.0[y * grid.config.dimensions.0 + x]
}

/// Swap atomicity, observed at run time: the slot table and the per-tile
/// indices agree in both directions.
fn check_table_consistency(grid: &Grid) {
    let (w, h) = grid.config.dimensions;
    assert_eq!(grid.tiles.len(), w * h);
    assert_eq!(grid.tile_by_index.0.len(), w * h);
    for s in 0..w * h {
        let t = grid.tile_by_index.0[s];
        let index = grid.tiles[t].index;
        assert_eq!(index.y * w + index.x, s);
    }
    for (t, tile) in grid.tiles.iter().enumerate() {
        assert_eq!(tile_id_at(grid, tile.index.x, tile.index.y), t);
    }
}

#[test]
fn new_grid_covers_every_slot() {
    let grid = Grid::new(config());
    check_table_consistency(&grid);
    assert_eq!(grid.data.moves_made.len(), 0);
    assert_eq!(grid.data.moves_limit, DEFAULT_MOVES_LIMIT);
    assert!(grid.picked.is_none());
    for tile in &grid.tiles {
        let target = grid.config.xy_position(&tile.index);
        assert_eq!(tile.position, target);
    }
}

#[test]
fn xy_position_centres_the_grid() {
    let c = config();
    assert_eq!(c.xy_position(&Index::new(0, 0)), Vec2i { x: -192, y: -96 });
    assert_eq!(c.xy_position(&Index::new(2, 1)), Vec2i { x: 0, y: 0 });
    assert_eq!(c.xy_position(&Index::new(4, 2)), Vec2i { x: 192, y: 96 });
}

#[test]
fn grid_extent_from_config() {
    let c = config();
    assert_eq!(c.grid_width(), 480);
    assert_eq!(c.grid_height(), 288);
}

#[test]
fn wildcard_matches_any_colour() {
    assert!(GridTileColor::Blue.is_matching(&GridTileColor::Blue));
    assert!(!GridTileColor::Blue.is_matching(&GridTileColor::Red));
    assert!(GridTileColor::Multicolor.is_matching(&GridTileColor::Red));
    assert!(GridTileColor::Green.is_matching(&GridTileColor::Multicolor));
}

#[test]
fn colour_names_and_palette() {
    assert_eq!(GridTileColor::Green.sprite_name(), "green_tile.png");
    assert_eq!(GridTileColor::Multicolor.tooltip_text(), "Multicolor Tile");
    assert_eq!(GridTileColor::Blue.highlight_tile_empty(), "blue_expect_empty_na.png");
    assert_eq!(GridTileColor::Green.highlight_tile_filled(), "green_expect_filled_na.png");
    assert_eq!(color_from_ordinal(0), GridTileColor::Green);
    assert_eq!(color_from_ordinal(1), GridTileColor::Red);
    assert_eq!(color_from_ordinal(2), GridTileColor::Blue);
    assert_eq!(color_from_ordinal(3), GridTileColor::Brown);
    assert_eq!(color_from_ordinal(4), GridTileColor::Multicolor);
    assert_eq!(PALETTE_SIZE, 5);
}

#[test]
fn index_new_and_assign() {
    let mut a = Index::new(1, 2);
    assert_eq!((a.x, a.y), (1, 2));
    let b = Index::new(4, 0);
    a.assign(&b);
    assert_eq!((a.x, a.y), (4, 0));
}

#[test]
fn pick_takes_first_touching_tile() {
    let mut grid = Grid::new(config());
    let n = grid.tiles.len();
    grid.handle_pick(&untouched(n));
    assert!(grid.picked.is_none());
    grid.handle_pick(&touch_one(n, 7, TouchState::Touching { duration: 5 }));
    assert_eq!(grid.picked, Some(7));
    // with no tile touching, an existing pick is kept
    grid.handle_pick(&untouched(n));
    assert_eq!(grid.picked, Some(7));
}

#[test]
fn drag_pins_picked_tile_and_release_clears() {
    let mut grid = Grid::new(config());
    let n = grid.tiles.len();
    grid.handle_pick(&touch_one(n, 3, TouchState::JustTouched));
    assert_eq!(grid.picked, Some(3));
    grid.handle_drag(Vec2i { x: 1234, y: -77 });
    assert_eq!(grid.tiles[3].position, Vec2i { x: 1234, y: -77 });
    grid.handle_release();
    assert!(grid.picked.is_none());
    // without a pick, dragging moves nothing
    let before: Vec<Vec2i> = grid.tiles.iter().map(|t| t.position).collect();
    grid.handle_drag(Vec2i { x: 0, y: 0 });
    let after: Vec<Vec2i> = grid.tiles.iter().map(|t| t.position).collect();
    assert_eq!(before, after);
}

#[test]
fn swap_exchanges_indices_and_updates_table() {
    let mut grid = Grid::new(config());
    let n = grid.tiles.len();
    let a = tile_id_at(&grid, 0, 0);
    let b = tile_id_at(&grid, 1, 0);
    let color_a = grid.tiles[a].color;
    let color_b = grid.tiles[b].color;
    grid.picked = Some(a);
    let changed = grid.swap(&touch_one(n, b, TouchState::JustTouched));
    assert!(changed);
    assert_eq!(grid.tiles[a].index, Index::new(1, 0));
    assert_eq!(grid.tiles[b].index, Index::new(0, 0));
    assert_eq!(tile_id_at(&grid, 1, 0), a);
    assert_eq!(tile_id_at(&grid, 0, 0), b);
    // colours travel with their tiles
    assert_eq!(grid.tiles[a].color, color_a);
    assert_eq!(grid.tiles[b].color, color_b);
    // the swap was recorded with the pre-swap indices and colours
    assert_eq!(grid.data.moves_made.len(), 1);
    let recorded = &grid.data.moves_made[0];
    assert_eq!(recorded.tile_a, (Index::new(1, 0), color_b));
    assert_eq!(recorded.tile_b, (Index::new(0, 0), color_a));
    // the pick is consumed
    assert!(grid.picked.is_none());
    check_table_consistency(&grid);
}

#[test]
fn swap_without_pick_or_target_is_a_no_op() {
    let mut grid = Grid::new(config());
    let n = grid.tiles.len();
    assert!(!grid.swap(&touch_one(n, 2, TouchState::JustTouched)));
    assert_eq!(grid.data.moves_made.len(), 0);
    grid.picked = Some(2);
    // the picked tile itself reporting a fresh touch is not a target
    assert!(!grid.swap(&touch_one(n, 2, TouchState::JustTouched)));
    assert_eq!(grid.data.moves_made.len(), 0);
    assert_eq!(grid.picked, Some(2));
}

#[test]
fn fourth_swap_attempt_is_rejected() {
    let mut grid = Grid::new(config());
    let n = grid.tiles.len();
    assert_eq!(grid.data.moves_limit, 3);
    for step in 0..3 {
        let a = tile_id_at(&grid, step, 0);
        let b = tile_id_at(&grid, step + 1, 0);
        grid.picked = Some(a);
        assert!(grid.swap(&touch_one(n, b, TouchState::JustTouched)));
    }
    assert_eq!(grid.data.moves_made.len(), 3);
    let indices_before: Vec<Index> = grid.tiles.iter().map(|t| t.index).collect();
    let a = tile_id_at(&grid, 0, 1);
    let b = tile_id_at(&grid, 1, 1);
    grid.picked = Some(a);
    let changed = grid.swap(&touch_one(n, b, TouchState::JustTouched));
    // the fourth attempt in the round moves nothing
    assert!(!changed);
    let indices_after: Vec<Index> = grid.tiles.iter().map(|t| t.index).collect();
    assert_eq!(indices_before, indices_after);
    assert_eq!(grid.data.moves_made.len(), 3);
    // the pick is kept so the player can release or retry
    assert_eq!(grid.picked, Some(a));
    check_table_consistency(&grid);
}

#[test]
fn refresh_resets_counters_and_keeps_layout() {
    let mut grid = Grid::new(config());
    let n = grid.tiles.len();
    let a = tile_id_at(&grid, 0, 0);
    let b = tile_id_at(&grid, 1, 0);
    grid.picked = Some(a);
    assert!(grid.swap(&touch_one(n, b, TouchState::JustTouched)));
    grid.data.moves_limit = 2;
    let indices_before: Vec<Index> = grid.tiles.iter().map(|t| t.index).collect();
    let positions_before: Vec<Vec2i> = grid.tiles.iter().map(|t| t.position).collect();
    grid.refresh();
    assert_eq!(grid.data.moves_made.len(), 0);
    assert_eq!(grid.data.moves_limit, DEFAULT_MOVES_LIMIT);
    let indices_after: Vec<Index> = grid.tiles.iter().map(|t| t.index).collect();
    let positions_after: Vec<Vec2i> = grid.tiles.iter().map(|t| t.position).collect();
    assert_eq!(indices_before, indices_after);
    assert_eq!(positions_before, positions_after);
    check_table_consistency(&grid);
}

#[test]
fn settle_reaches_target_in_exactly_the_expected_steps() {
    let mut grid = Grid::new(GridConfig {
        dimensions: (5, 3),
        tile_size: Vec2i { x: 96, y: 96 },
        movement_speed: 4,
    });
    let n = grid.tiles.len();
    // drag a tile 1000 units off its slot centre, then let go
    let t = tile_id_at(&grid, 2, 1);
    let target = grid.config.xy_position(&grid.tiles[t].index);
    grid.handle_pick(&touch_one(n, t, TouchState::Touching { duration: 1 }));
    grid.handle_drag(Vec2i { x: target.x + 1000, y: target.y });
    grid.handle_release();
    // speed 4 per tick, 25 ticks per frame: 100 units per frame, 10 frames
    for _ in 0..9 {
        grid.update_positions(25);
        assert_ne!(grid.tiles[t].position, target);
    }
    grid.update_positions(25);
    assert_eq!(grid.tiles[t].position, target);
    // and it stays put: no oscillation or drift
    grid.update_positions(25);
    assert_eq!(grid.tiles[t].position, target);
}

#[test]
fn picked_tile_does_not_settle() {
    let mut grid = Grid::new(config());
    let n = grid.tiles.len();
    let t = tile_id_at(&grid, 0, 0);
    grid.handle_pick(&touch_one(n, t, TouchState::JustTouched));
    let parked = Vec2i { x: 5000, y: 5000 };
    grid.handle_drag(parked);
    grid.update_positions(16);
    assert_eq!(grid.tiles[t].position, parked);
}

#[test]
fn set_tile_color_changes_one_tile() {
    let mut grid = Grid::new(config());
    grid.set_tile_color(&Index::new(2, 2), GridTileColor::Red);
    assert_eq!(grid.color_at(&Index::new(2, 2)), Some(GridTileColor::Red));
    grid.set_tile_color(&Index::new(2, 2), GridTileColor::Blue);
    assert_eq!(grid.color_at(&Index::new(2, 2)), Some(GridTileColor::Blue));
    // an index off the grid is a miss, not an error
    assert_eq!(grid.color_at(&Index::new(9, 9)), None);
}
