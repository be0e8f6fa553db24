//! The tile grid: tile state, drag pick/drop, index swapping, move-limit
//! bookkeeping, colour regeneration on refresh, and settle animation.
//!
//! Tiles are addressed by an integer `Index`; a side table `GridTileByIndex`
//! maps every slot back to the tile occupying it. The central invariant,
//! part of `Grid::wf`, is that the side table and the per-tile indices stay
//! consistent at every step: `tile_by_index[slot]` names exactly the tile
//! whose own index flattens to `slot`.

use vstd::prelude::*;

use crate::geom::{axis_step, in_world, step_toward, Vec2i};
use crate::rng::random_below;
use crate::touch::TouchState;

verus! {

/// Signal asking for a grid refresh: new colours, counters reset.
#[derive(Clone, Copy, PartialEq, Eq, Structural, Debug)]
pub struct GridRefreshRequest;

/// Swaps allowed per round before a refresh, by default.
pub const DEFAULT_MOVES_LIMIT: usize = 3;

/// Number of colours a regenerated tile can take.
pub const PALETTE_SIZE: usize = 5;

/// Logical slot of a tile on the grid.
#[derive(Clone, Copy, PartialEq, Eq, Structural, Debug, Hash)]
pub struct Index {
    pub x: usize,
    pub y: usize,
}

impl Index {
    /// Make an index from its two coordinates.
    pub fn new(x: usize, y: usize) -> (r: Self)
        ensures
            r == (Index { x, y }),
    {
        Index { x, y }
    }

    /// Overwrite this index with another one.
    pub fn assign(&mut self, other: &Self)
        ensures
            *final(self) == *other,
    {
        self.x = other.x;
        self.y = other.y;
    }
}

/// Colour of a tile. `Multicolor` is the wildcard: it matches every colour.
#[derive(Clone, Copy, PartialEq, Eq, Structural, Debug)]
pub enum GridTileColor {
    Green,
    Red,
    Blue,
    Brown,
    Multicolor,
}

/// Matching rule for requirements: equal colours match, and the wildcard
/// matches anything on either side.
pub open spec fn spec_is_matching(a: GridTileColor, b: GridTileColor) -> bool {
    a == b || a is Multicolor || b is Multicolor
}

impl GridTileColor {
    /// Whether this colour satisfies `other` under the wildcard rule.
    pub fn is_matching(&self, other: &Self) -> (r: bool)
        ensures
            r == spec_is_matching(*self, *other),
    {
        *self == *other || matches!(*self, GridTileColor::Multicolor) || matches!(
            *other,
            GridTileColor::Multicolor,
        )
    }

    /// Sprite asset drawn for a tile of this colour.
    pub fn sprite_name(&self) -> (r: &'static str)
        ensures
            *self is Green ==> r@ == "green_tile.png"@,
            *self is Red ==> r@ == "red_tile.png"@,
            *self is Blue ==> r@ == "blue_tile.png"@,
            *self is Brown ==> r@ == "brown_tile.png"@,
            *self is Multicolor ==> r@ == "multicolor_tile.png"@,
    {
        match *self {
            GridTileColor::Green => "green_tile.png",
            GridTileColor::Red => "red_tile.png",
            GridTileColor::Blue => "blue_tile.png",
            GridTileColor::Brown => "brown_tile.png",
            GridTileColor::Multicolor => "multicolor_tile.png",
        }
    }

    /// Highlight sprite for an unsatisfied requirement of this colour.
    /// Only the colours that have highlight art may ask for it.
    pub fn highlight_tile_empty(&self) -> (r: &'static str)
        requires
            *self is Blue || *self is Green,
        ensures
            *self is Blue ==> r@ == "blue_expect_empty_na.png"@,
            *self is Green ==> r@ == "green_expect_empty_na.png"@,
    {
        match *self {
            GridTileColor::Blue => "blue_expect_empty_na.png",
            _ => "green_expect_empty_na.png",
        }
    }

    /// Highlight sprite for a satisfied requirement of this colour.
    /// Only the colours that have highlight art may ask for it.
    pub fn highlight_tile_filled(&self) -> (r: &'static str)
        requires
            *self is Blue || *self is Green,
        ensures
            *self is Blue ==> r@ == "blue_expect_filled_na.png"@,
            *self is Green ==> r@ == "green_expect_filled_na.png"@,
    {
        match *self {
            GridTileColor::Blue => "blue_expect_filled_na.png",
            _ => "green_expect_filled_na.png",
        }
    }

    /// Tooltip shown when the pointer rests on a tile of this colour.
    pub fn tooltip_text(&self) -> (r: &'static str)
        ensures
            *self is Green ==> r@ == "Green Tile"@,
            *self is Red ==> r@ == "Red Tile"@,
            *self is Blue ==> r@ == "Blue Tile"@,
            *self is Brown ==> r@ == "Brown Tile"@,
            *self is Multicolor ==> r@ == "Multicolor Tile"@,
    {
        match *self {
            GridTileColor::Green => "Green Tile",
            GridTileColor::Red => "Red Tile",
            GridTileColor::Blue => "Blue Tile",
            GridTileColor::Brown => "Brown Tile",
            GridTileColor::Multicolor => "Multicolor Tile",
        }
    }
}

/// The palette in the order colours are drawn from it.
pub open spec fn spec_color_from_ordinal(k: int) -> GridTileColor {
    if k == 0 {
        GridTileColor::Green
    } else if k == 1 {
        GridTileColor::Red
    } else if k == 2 {
        GridTileColor::Blue
    } else if k == 3 {
        GridTileColor::Brown
    } else {
        GridTileColor::Multicolor
    }
}

/// Map a palette ordinal to its colour.
pub fn color_from_ordinal(k: usize) -> (c: GridTileColor)
    ensures
        c == spec_color_from_ordinal(k as int),
{
    match k {
        0 => GridTileColor::Green,
        1 => GridTileColor::Red,
        2 => GridTileColor::Blue,
        3 => GridTileColor::Brown,
        _ => GridTileColor::Multicolor,
    }
}

/// Draw a colour uniformly from the palette.
pub fn random_color() -> GridTileColor {
    color_from_ordinal(random_below(PALETTE_SIZE))
}

/// Load-time grid configuration: columns and rows, tile extent and the
/// settle speed in world units per tick.
#[derive(Clone, Copy, PartialEq, Debug)]
pub struct GridConfig {
    pub dimensions: (usize, usize),
    pub tile_size: Vec2i,
    pub movement_speed: i64,
}

impl GridConfig {
    /// A usable configuration: non-degenerate bounded dimensions, an even
    /// positive tile extent (so slot centres are whole world units), and a
    /// bounded non-negative settle speed.
    pub open spec fn wf(self) -> bool {
        &&& 1 <= self.dimensions.0 <= 0x1000
        &&& 1 <= self.dimensions.1 <= 0x1000
        &&& 0 < self.tile_size.x <= 0x100000
        &&& 0 < self.tile_size.y <= 0x100000
        &&& self.tile_size.x % 2 == 0
        &&& self.tile_size.y % 2 == 0
        &&& 0 <= self.movement_speed <= 0x100000
    }

    /// Total width of the grid in world units.
    pub fn grid_width(&self) -> (r: i64)
        requires
            self.wf(),
        ensures
            r == self.tile_size.x * self.dimensions.0,
    {
        proof {
            assert(self.tile_size.x * self.dimensions.0 <= 0x100000 * 0x1000) by (nonlinear_arith)
                requires
                    0 < self.tile_size.x <= 0x100000,
                    0 < self.dimensions.0 <= 0x1000,
            ;
        }
        self.tile_size.x * (self.dimensions.0 as i64)
    }

    /// Total height of the grid in world units.
    pub fn grid_height(&self) -> (r: i64)
        requires
            self.wf(),
        ensures
            r == self.tile_size.y * self.dimensions.1,
    {
        proof {
            assert(self.tile_size.y * self.dimensions.1 <= 0x100000 * 0x1000) by (nonlinear_arith)
                requires
                    0 < self.tile_size.y <= 0x100000,
                    0 < self.dimensions.1 <= 0x1000,
            ;
        }
        self.tile_size.y * (self.dimensions.1 as i64)
    }

    /// Horizontal world coordinate of the slot centre at column `x`:
    /// the grid is centred on the origin.
    pub open spec fn spec_xy_x(self, x: int) -> int {
        (2 * x - (self.dimensions.0 - 1)) * (self.tile_size.x / 2)
    }

    /// Vertical world coordinate of the slot centre at row `y`.
    pub open spec fn spec_xy_y(self, y: int) -> int {
        (2 * y - (self.dimensions.1 - 1)) * (self.tile_size.y / 2)
    }

    /// World position of a slot: the grid is centred at the origin, each
    /// step between neighbouring slots is one tile extent.
    pub fn xy_position(&self, index: &Index) -> (r: Vec2i)
        requires
            self.wf(),
            index.x < self.dimensions.0,
            index.y < self.dimensions.1,
        ensures
            r.x == self.spec_xy_x(index.x as int),
            r.y == self.spec_xy_y(index.y as int),
            in_world(r),
    {
        let hx: i64 = self.tile_size.x / 2;
        let hy: i64 = self.tile_size.y / 2;
        let fx: i64 = 2 * (index.x as i64) - (self.dimensions.0 as i64 - 1);
        let fy: i64 = 2 * (index.y as i64) - (self.dimensions.1 as i64 - 1);
        proof {
            assert(-0x100000000 <= fx * hx <= 0x100000000) by (nonlinear_arith)
                requires
                    -0x2000 <= fx <= 0x2000,
                    0 <= hx <= 0x80000,
            ;
            assert(-0x100000000 <= fy * hy <= 0x100000000) by (nonlinear_arith)
                requires
                    -0x2000 <= fy <= 0x2000,
                    0 <= hy <= 0x80000,
            ;
        }
        let x: i64 = fx * hx;
        let y: i64 = fy * hy;
        Vec2i { x, y }
    }
}

/// One tile: the slot it occupies, its colour, and where it is drawn
/// right now (the settle animation moves this toward the slot centre).
#[derive(Clone, Copy, PartialEq, Eq, Structural, Debug)]
pub struct GridTile {
    pub index: Index,
    pub color: GridTileColor,
    pub position: Vec2i,
}

/// Record of one committed swap: the two (slot, colour) pairs involved.
#[derive(Clone, Copy, PartialEq, Debug)]
pub struct GridMove {
    pub tile_a: (Index, GridTileColor),
    pub tile_b: (Index, GridTileColor),
}

/// Per-round bookkeeping: the swaps committed so far and the cap on them.
#[derive(Debug)]
pub struct GridData {
    pub moves_made: Vec<GridMove>,
    pub moves_limit: usize,
}

/// Side table from flattened slot to the id of the tile occupying it.
#[derive(Debug)]
pub struct GridTileByIndex(pub Vec<usize>);

/// Flattened slot of an index, row-major.
pub open spec fn spec_slot(config: GridConfig, index: Index) -> int {
    index.y * config.dimensions.0 + index.x
}

/// A flattened slot always lands inside the table, and the table itself
/// is small enough for slot arithmetic to stay inside `usize`.
pub proof fn lemma_slot_in_range(d0: int, d1: int, x: int, y: int)
    requires
        0 <= x < d0 <= 0x1000,
        0 <= y < d1 <= 0x1000,
    ensures
        0 <= y * d0 + x < d0 * d1,
        d0 * d1 <= 0x1000000,
{
    assert(y * d0 + x < d0 * d1 && d0 * d1 <= 0x1000000) by (nonlinear_arith)
        requires
            0 <= x < d0 <= 0x1000,
            0 <= y < d1 <= 0x1000,
    ;
    assert(0 <= y * d0 + x) by (nonlinear_arith)
        requires
            0 <= x,
            0 <= y,
            0 < d0,
    ;
}

/// The slot count of a well-formed configuration fits comfortably in
/// `usize`.
pub proof fn lemma_slot_count_small(d0: int, d1: int)
    requires
        1 <= d0 <= 0x1000,
        1 <= d1 <= 0x1000,
    ensures
        0 < d0 * d1 <= 0x1000000,
{
    assert(0 < d0 * d1 <= 0x1000000) by (nonlinear_arith)
        requires
            1 <= d0 <= 0x1000,
            1 <= d1 <= 0x1000,
    ;
}

/// Splitting a slot back into coordinates inverts the flattening.
pub proof fn lemma_slot_split(s: int, d0: int, d1: int)
    requires
        0 <= s < d0 * d1,
        1 <= d0,
    ensures
        0 <= s % d0 < d0,
        0 <= s / d0 < d1,
        (s / d0) * d0 + s % d0 == s,
{
    vstd::arithmetic::div_mod::lemma_fundamental_div_mod(s, d0);
    vstd::arithmetic::div_mod::lemma_mod_bound(s, d0);
    assert((s / d0) * d0 == d0 * (s / d0)) by (nonlinear_arith);
    assert(0 <= s / d0 && s / d0 < d1) by (nonlinear_arith)
        requires
            0 <= s < d0 * d1,
            1 <= d0,
            s == d0 * (s / d0) + s % d0,
            0 <= s % d0 < d0,
    ;
}

/// The whole grid: its configuration, the tiles, the slot table, the
/// per-round move bookkeeping, and the tile currently dragged, if any.
#[derive(Debug)]
pub struct Grid {
    pub config: GridConfig,
    pub tiles: Vec<GridTile>,
    pub tile_by_index: GridTileByIndex,
    pub data: GridData,
    pub picked: Option<usize>,
}

impl Grid {
    /// The index names a slot the grid actually has.
    pub open spec fn index_in_bounds(self, index: Index) -> bool {
        index.x < self.config.dimensions.0 && index.y < self.config.dimensions.1
    }

    /// Consistency of one tile with the slot table: the tile sits on a
    /// real slot, is drawn inside the world, and the table points back
    /// at it.
    pub open spec fn tile_ok(self, t: int) -> bool {
        &&& self.index_in_bounds(self.tiles@[t].index)
        &&& in_world(self.tiles@[t].position)
        &&& self.tile_by_index.0@[spec_slot(self.config, self.tiles@[t].index)] == t
    }

    /// Consistency of one slot with the tiles: the table entry names a
    /// real tile whose own index flattens back to this slot.
    pub open spec fn slot_ok(self, s: int) -> bool {
        &&& (self.tile_by_index.0@[s] as int) < self.tiles@.len()
        &&& spec_slot(self.config, self.tiles@[self.tile_by_index.0@[s] as int].index) == s
    }

    /// Well-formedness of the grid, including the swap-atomicity
    /// invariant: the slot table and the per-tile indices always agree,
    /// in both directions.
    pub open spec fn wf(self) -> bool {
        &&& self.config.wf()
        &&& self.tiles@.len() == self.config.dimensions.0 * self.config.dimensions.1
        &&& self.tile_by_index.0@.len() == self.tiles@.len()
        &&& forall|t: int| 0 <= t < self.tiles@.len() ==> #[trigger] self.tile_ok(t)
        &&& forall|s: int| 0 <= s < self.tiles@.len() ==> #[trigger] self.slot_ok(s)
        &&& self.data.moves_made@.len() <= self.data.moves_limit
        &&& (self.picked matches Some(t) ==> (t as int) < self.tiles@.len())
    }

    /// Colour of the tile occupying `index`, looked up through the table.
    pub open spec fn spec_color_at(self, index: Index) -> GridTileColor {
        self.tiles@[self.tile_by_index.0@[spec_slot(self.config, index)] as int].color
    }

    /// Build a grid: one tile per slot, sitting at its slot centre, with
    /// a colour drawn at random from the palette, no moves made and no
    /// tile picked.
    pub fn new(config: GridConfig) -> (g: Grid)
        requires
            config.wf(),
        ensures
            g.wf(),
            g.config == config,
            g.data.moves_made@.len() == 0,
            g.data.moves_limit == DEFAULT_MOVES_LIMIT,
            g.picked is None,
            forall|t: int|
                0 <= t < g.tiles@.len() ==> (#[trigger] g.tiles@[t]).position.x == config.spec_xy_x(
                    g.tiles@[t].index.x as int,
                ) && g.tiles@[t].position.y == config.spec_xy_y(g.tiles@[t].index.y as int),
    {
        let d0: usize = config.dimensions.0;
        let d1: usize = config.dimensions.1;
        proof {
            lemma_slot_count_small(d0 as int, d1 as int);
        }
        let n: usize = d0 * d1;
        let mut tiles: Vec<GridTile> = Vec::new();
        let mut table: Vec<usize> = Vec::new();
        let mut s: usize = 0;
        while s < n
            invariant
                config.wf(),
                d0 == config.dimensions.0,
                d1 == config.dimensions.1,
                n == d0 * d1,
                s <= n,
                tiles@.len() == s,
                table@.len() == s,
                forall|k: int|
                    0 <= k < s ==> (#[trigger] tiles@[k]).index.x == k % (d0 as int)
                        && tiles@[k].index.y == k / (d0 as int),
                forall|k: int|
                    0 <= k < s ==> (#[trigger] tiles@[k]).position.x == config.spec_xy_x(
                        tiles@[k].index.x as int,
                    ) && tiles@[k].position.y == config.spec_xy_y(tiles@[k].index.y as int)
                        && in_world(tiles@[k].position),
                forall|k: int| 0 <= k < s ==> #[trigger] table@[k] == k,
            decreases n - s,
        {
            proof {
                lemma_slot_split(s as int, d0 as int, d1 as int);
            }
            let x: usize = s % d0;
            let y: usize = s / d0;
            let index = Index { x, y };
            let position = config.xy_position(&index);
            let color = random_color();
            tiles.push(GridTile { index, color, position });
            table.push(s);
            s = s + 1;
        }
        let g = Grid {
            config,
            tiles,
            tile_by_index: GridTileByIndex(table),
            data: GridData { moves_made: Vec::new(), moves_limit: DEFAULT_MOVES_LIMIT },
            picked: None,
        };
        proof {
            assert forall|t: int| 0 <= t < g.tiles@.len() implies #[trigger] g.tile_ok(t) by {
                lemma_slot_split(t, d0 as int, d1 as int);
            }
            assert forall|s2: int| 0 <= s2 < g.tiles@.len() implies #[trigger] g.slot_ok(s2) by {
                lemma_slot_split(s2, d0 as int, d1 as int);
            }
        }
        g
    }

    /// Colour of the tile at `index`, or nothing when the index lies
    /// outside the grid (a legitimate miss, not an error).
    pub fn color_at(&self, index: &Index) -> (c: Option<GridTileColor>)
        requires
            self.wf(),
        ensures
            c == if self.index_in_bounds(*index) {
                Some(self.spec_color_at(*index))
            } else {
                None::<GridTileColor>
            },
    {
        if index.x < self.config.dimensions.0 && index.y < self.config.dimensions.1 {
            proof {
                lemma_slot_in_range(
                    self.config.dimensions.0 as int,
                    self.config.dimensions.1 as int,
                    index.x as int,
                    index.y as int,
                );
            }
            let slot: usize = index.y * self.config.dimensions.0 + index.x;
            let t: usize = self.tile_by_index.0[slot];
            assert(self.slot_ok(slot as int));
            Some(self.tiles[t].color)
        } else {
            None
        }
    }
}

/// First tile, in iteration order, that the pointer is touching.
pub open spec fn spec_first_touching(touch: Seq<TouchState>, i: int) -> Option<int>
    decreases touch.len() - i,
{
    if i < 0 || i >= touch.len() {
        None
    } else if touch[i] is JustTouched || touch[i] is Touching {
        Some(i)
    } else {
        spec_first_touching(touch, i + 1)
    }
}

/// First tile, in iteration order, that was just touched this frame and
/// is not the tile currently picked: the candidate swap partner.
pub open spec fn spec_swap_target(touch: Seq<TouchState>, picked: int, i: int) -> Option<int>
    decreases touch.len() - i,
{
    if i < 0 || i >= touch.len() {
        None
    } else if touch[i] is JustTouched && i != picked {
        Some(i)
    } else {
        spec_swap_target(touch, picked, i + 1)
    }
}

/// What a committed swap of picked tile `p` with target tile `t` does:
/// the two tiles exchange their indices, both slot-table entries are
/// rewritten in the same step, the swap is recorded, and the pick is
/// cleared. Colours and drawn positions stay with their tiles.
pub open spec fn spec_swapped(pre: Grid, post: Grid, p: int, t: int) -> bool {
    &&& post.config == pre.config
    &&& post.picked is None
    &&& post.tiles@.len() == pre.tiles@.len()
    &&& post.tiles@[p] == (GridTile { index: pre.tiles@[t].index, ..pre.tiles@[p] })
    &&& post.tiles@[t] == (GridTile { index: pre.tiles@[p].index, ..pre.tiles@[t] })
    &&& forall|k: int|
        0 <= k < pre.tiles@.len() && k != p && k != t ==> #[trigger] post.tiles@[k]
            == pre.tiles@[k]
    &&& post.tile_by_index.0@ == pre.tile_by_index.0@.update(
        spec_slot(pre.config, pre.tiles@[t].index),
        p as usize,
    ).update(spec_slot(pre.config, pre.tiles@[p].index), t as usize)
    &&& post.data.moves_limit == pre.data.moves_limit
    &&& post.data.moves_made@ == pre.data.moves_made@.push(
        GridMove {
            tile_a: (pre.tiles@[t].index, pre.tiles@[t].color),
            tile_b: (pre.tiles@[p].index, pre.tiles@[p].color),
        },
    )
}

/// Full outcome of one swap attempt: without a picked tile or a swap
/// target nothing changes; with the move limit reached nothing changes
/// and the pick is kept, so the player can retry or release; otherwise
/// the swap commits atomically.
pub open spec fn spec_swap_result(pre: Grid, touch: Seq<TouchState>, post: Grid, changed: bool) -> bool {
    match pre.picked {
        None => post == pre && !changed,
        Some(p) => match spec_swap_target(touch, p as int, 0) {
            None => post == pre && !changed,
            Some(t) => if pre.data.moves_made@.len() >= pre.data.moves_limit {
                post == pre && !changed
            } else {
                changed && spec_swapped(pre, post, p as int, t)
            },
        },
    }
}

/// Changing only which tile is picked keeps a grid well formed, as long
/// as the new pick names a real tile.
pub proof fn lemma_wf_picked_only(pre: Grid, post: Grid)
    requires
        pre.wf(),
        post.config == pre.config,
        post.tiles@ == pre.tiles@,
        post.tile_by_index.0@ == pre.tile_by_index.0@,
        post.data.moves_made@ == pre.data.moves_made@,
        post.data.moves_limit == pre.data.moves_limit,
        (post.picked matches Some(t) ==> (t as int) < post.tiles@.len()),
    ensures
        post.wf(),
{
    assert forall|t: int| 0 <= t < post.tiles@.len() implies #[trigger] post.tile_ok(t) by {
        assert(pre.tile_ok(t));
    }
    assert forall|s: int| 0 <= s < post.tiles@.len() implies #[trigger] post.slot_ok(s) by {
        assert(pre.slot_ok(s));
    }
}

impl Grid {
    /// Pick the first tile the pointer is touching, if any; otherwise the
    /// current pick is kept. Runs on the frame the primary button goes
    /// down.
    pub fn handle_pick(&mut self, touch: &Vec<TouchState>)
        requires
            old(self).wf(),
            touch@.len() == old(self).tiles@.len(),
        ensures
            final(self).wf(),
            final(self).config == old(self).config,
            final(self).tiles@ == old(self).tiles@,
            final(self).tile_by_index.0@ == old(self).tile_by_index.0@,
            final(self).data.moves_made@ == old(self).data.moves_made@,
            final(self).data.moves_limit == old(self).data.moves_limit,
            final(self).picked == (match spec_first_touching(touch@, 0) {
                Some(t) => Some(t as usize),
                None => old(self).picked,
            }),
    {
        let n: usize = self.tiles.len();
        let mut i: usize = 0;
        while i < n
            invariant
                i <= n,
                n == touch@.len(),
                n == old(self).tiles@.len(),
                old(self).wf(),
                *self == *old(self),
                spec_first_touching(touch@, 0) == spec_first_touching(touch@, i as int),
            decreases n - i,
        {
            if touch[i].is_touching() {
                self.picked = Some(i);
                proof {
                    lemma_wf_picked_only(*old(self), *self);
                }
                return ;
            }
            i = i + 1;
        }
    }

    /// Drop the current pick; the picked tile will settle back toward its
    /// slot centre. Runs on the frame the primary button is released.
    pub fn handle_release(&mut self)
        requires
            old(self).wf(),
        ensures
            final(self).wf(),
            *final(self) == (Grid { picked: None, ..*old(self) }),
    {
        self.picked = None;
        proof {
            lemma_wf_picked_only(*old(self), *self);
        }
    }

    /// While a tile is picked and the button held, pin the picked tile to
    /// the pointer (in grid-local coordinates), bypassing the settle path.
    pub fn handle_drag(&mut self, pointer_local: Vec2i)
        requires
            old(self).wf(),
            in_world(pointer_local),
        ensures
            final(self).wf(),
            final(self).config == old(self).config,
            final(self).picked == old(self).picked,
            final(self).tile_by_index.0@ == old(self).tile_by_index.0@,
            final(self).data.moves_made@ == old(self).data.moves_made@,
            final(self).data.moves_limit == old(self).data.moves_limit,
            final(self).tiles@.len() == old(self).tiles@.len(),
            (match old(self).picked {
                Some(p) => final(self).tiles@ == old(self).tiles@.update(
                    p as int,
                    (GridTile { position: pointer_local, ..old(self).tiles@[p as int] }),
                ),
                None => final(self).tiles@ == old(self).tiles@,
            }),
    {
        let p: usize = match self.picked {
            Some(p) => p,
            None => {
                return ;
            },
        };
        let tile = self.tiles[p];
        self.tiles.set(
            p,
            GridTile { index: tile.index, color: tile.color, position: pointer_local },
        );
        proof {
            assert forall|t: int| 0 <= t < self.tiles@.len() implies #[trigger] self.tile_ok(t) by {
                assert(old(self).tile_ok(t));
            }
            assert forall|s: int| 0 <= s < self.tiles@.len() implies #[trigger] self.slot_ok(s) by {
                assert(old(self).slot_ok(s));
            }
        }
    }

    /// The tile a settle step moves: position stepped toward the slot
    /// centre on each axis, everything else kept.
    pub open spec fn spec_settled_tile(self, t: int, step: int) -> GridTile {
        let tile = self.tiles@[t];
        GridTile {
            index: tile.index,
            color: tile.color,
            position: Vec2i {
                x: axis_step(
                    tile.position.x as int,
                    self.config.spec_xy_x(tile.index.x as int),
                    step,
                ) as i64,
                y: axis_step(
                    tile.position.y as int,
                    self.config.spec_xy_y(tile.index.y as int),
                    step,
                ) as i64,
            },
        }
    }

    /// Settle animation: every tile that is not being dragged moves toward
    /// its slot centre by at most `movement_speed * dt` per axis, landing
    /// exactly on the centre when it is within reach.
    pub fn update_positions(&mut self, dt: u64)
        requires
            old(self).wf(),
            dt <= 0x100000,
        ensures
            final(self).wf(),
            final(self).config == old(self).config,
            final(self).picked == old(self).picked,
            final(self).tile_by_index.0@ == old(self).tile_by_index.0@,
            final(self).data.moves_made@ == old(self).data.moves_made@,
            final(self).data.moves_limit == old(self).data.moves_limit,
            final(self).tiles@.len() == old(self).tiles@.len(),
            forall|t: int|
                0 <= t < old(self).tiles@.len() ==> #[trigger] final(self).tiles@[t] == (
                if old(self).picked matches Some(p) && p as int == t {
                    old(self).tiles@[t]
                } else {
                    old(self).spec_settled_tile(t, old(self).config.movement_speed * dt)
                }),
    {
        proof {
            assert(self.config.movement_speed * dt <= 0x10000000000) by (nonlinear_arith)
                requires
                    0 <= self.config.movement_speed <= 0x100000,
                    0 <= dt <= 0x100000,
            ;
        }
        let step: i64 = self.config.movement_speed * (dt as i64);
        let n: usize = self.tiles.len();
        let mut t: usize = 0;
        while t < n
            invariant
                t <= n,
                n == old(self).tiles@.len(),
                self.config == old(self).config,
                self.picked == old(self).picked,
                self.tile_by_index.0@ == old(self).tile_by_index.0@,
                self.data.moves_made@ == old(self).data.moves_made@,
                self.data.moves_limit == old(self).data.moves_limit,
                self.tiles@.len() == n,
                old(self).wf(),
                0 <= step <= 0x10000000000,
                step == old(self).config.movement_speed * dt,
                forall|k: int| t <= k < n ==> #[trigger] self.tiles@[k] == old(self).tiles@[k],
                forall|k: int|
                    0 <= k < t ==> #[trigger] self.tiles@[k] == (
                    if old(self).picked matches Some(p) && p as int == k {
                        old(self).tiles@[k]
                    } else {
                        old(self).spec_settled_tile(k, step as int)
                    }),
                forall|k: int| 0 <= k < t ==> in_world((#[trigger] self.tiles@[k]).position),
            decreases n - t,
        {
            let is_picked: bool = match self.picked {
                Some(p) => p == t,
                None => false,
            };
            proof {
                assert(old(self).tile_ok(t as int));
            }
            if !is_picked {
                let tile = self.tiles[t];
                proof {
                    assert(old(self).tile_ok(t as int));
                }
                let target = self.config.xy_position(&tile.index);
                let nx: i64 = step_toward(tile.position.x, target.x, step);
                let ny: i64 = step_toward(tile.position.y, target.y, step);
                self.tiles.set(
                    t,
                    GridTile { index: tile.index, color: tile.color, position: Vec2i { x: nx, y: ny } },
                );
            }
            t = t + 1;
        }
        proof {
            assert forall|k: int| 0 <= k < self.tiles@.len() implies #[trigger] self.tile_ok(k) by {
                assert(old(self).tile_ok(k));
                assert(self.tiles@[k].index == old(self).tiles@[k].index);
                assert(in_world(self.tiles@[k].position));
            }
            assert forall|s2: int| 0 <= s2 < self.tiles@.len() implies #[trigger] self.slot_ok(s2) by {
                assert(old(self).slot_ok(s2));
                assert(old(self).tile_ok(old(self).tile_by_index.0@[s2] as int));
            }
        }
    }

    /// One swap attempt, run on frames where a tile is picked and some
    /// tile was just touched: swap the picked tile with the first freshly
    /// touched other tile, unless the move limit has been reached.
    pub fn swap(&mut self, touch: &Vec<TouchState>) -> (changed: bool)
        requires
            old(self).wf(),
            touch@.len() == old(self).tiles@.len(),
        ensures
            final(self).wf(),
            spec_swap_result(*old(self), touch@, *final(self), changed),
    {
        let p: usize = match self.picked {
            Some(p) => p,
            None => {
                return false;
            },
        };
        let n: usize = self.tiles.len();
        let mut i: usize = 0;
        let mut target_found: bool = false;
        let mut target_id: usize = 0;
        while i < n
            invariant
                i <= n,
                n == touch@.len(),
                *self == *old(self),
                self.picked == Some(p),
                !target_found ==> spec_swap_target(touch@, p as int, 0) == spec_swap_target(
                    touch@,
                    p as int,
                    i as int,
                ),
                target_found ==> spec_swap_target(touch@, p as int, 0) == Some(target_id as int)
                    && target_id < n && target_id != p,
            decreases n - i,
        {
            if !target_found {
                if touch[i].is_just_touched() && i != p {
                    target_found = true;
                    target_id = i;
                }
            }
            i = i + 1;
        }
        if !target_found {
            return false;
        }
        if self.data.moves_made.len() >= self.data.moves_limit {
            return false;
        }
        let t: usize = target_id;
        let ghost pre: Grid = *self;
        let tile_p = self.tiles[p];
        let tile_t = self.tiles[t];
        proof {
            assert(pre.tile_ok(p as int));
            assert(pre.tile_ok(t as int));
            lemma_slot_in_range(
                self.config.dimensions.0 as int,
                self.config.dimensions.1 as int,
                tile_p.index.x as int,
                tile_p.index.y as int,
            );
            lemma_slot_in_range(
                self.config.dimensions.0 as int,
                self.config.dimensions.1 as int,
                tile_t.index.x as int,
                tile_t.index.y as int,
            );
        }
        let slot_p: usize = tile_p.index.y * self.config.dimensions.0 + tile_p.index.x;
        let slot_t: usize = tile_t.index.y * self.config.dimensions.0 + tile_t.index.x;
        assert(slot_p != slot_t);
        self.tiles.set(
            p,
            GridTile { index: tile_t.index, color: tile_p.color, position: tile_p.position },
        );
        self.tiles.set(
            t,
            GridTile { index: tile_p.index, color: tile_t.color, position: tile_t.position },
        );
        self.tile_by_index.0.set(slot_t, p);
        self.tile_by_index.0.set(slot_p, t);
        self.data.moves_made.push(
            GridMove { tile_a: (tile_t.index, tile_t.color), tile_b: (tile_p.index, tile_p.color) },
        );
        self.picked = None;
        proof {
            let post = *self;
            assert(spec_swapped(pre, post, p as int, t as int));
            let sp = spec_slot(pre.config, pre.tiles@[p as int].index);
            let st = spec_slot(pre.config, pre.tiles@[t as int].index);
            assert(pre.tile_ok(p as int));
            assert(pre.tile_ok(t as int));
            assert(sp != st);
            assert forall|k: int| 0 <= k < post.tiles@.len() implies #[trigger] post.tile_ok(k) by {
                assert(pre.tile_ok(k));
                if k == p as int {
                    assert(post.tiles@[k].index == pre.tiles@[t as int].index);
                    assert(post.tile_by_index.0@[st] == p);
                } else if k == t as int {
                    assert(post.tiles@[k].index == pre.tiles@[p as int].index);
                    assert(post.tile_by_index.0@[sp] == t);
                } else {
                    let sk = spec_slot(pre.config, pre.tiles@[k].index);
                    lemma_slot_in_range(
                        pre.config.dimensions.0 as int,
                        pre.config.dimensions.1 as int,
                        pre.tiles@[k].index.x as int,
                        pre.tiles@[k].index.y as int,
                    );
                    assert(pre.tile_by_index.0@[sk] == k);
                    assert(sk != sp && sk != st);
                    assert(post.tile_by_index.0@[sk] == k);
                }
            }
            assert forall|s2: int| 0 <= s2 < post.tiles@.len() implies #[trigger] post.slot_ok(
                s2,
            ) by {
                assert(pre.slot_ok(s2));
                let k = pre.tile_by_index.0@[s2] as int;
                assert(pre.tile_ok(k));
                if s2 == st {
                    assert(post.tile_by_index.0@[s2] == p);
                    assert(spec_slot(post.config, post.tiles@[p as int].index) == st);
                } else if s2 == sp {
                    assert(post.tile_by_index.0@[s2] == t);
                    assert(spec_slot(post.config, post.tiles@[t as int].index) == sp);
                } else {
                    assert(k != p && k != t);
                    assert(post.tiles@[k] == pre.tiles@[k]);
                }
            }
        }
        true
    }

    /// Refresh the grid for a new round: every tile gets a fresh colour
    /// drawn uniformly from the palette, the move list is cleared and the
    /// move limit returns to its default. Indices and positions are
    /// untouched.
    pub fn refresh(&mut self)
        requires
            old(self).wf(),
        ensures
            final(self).wf(),
            final(self).config == old(self).config,
            final(self).picked == old(self).picked,
            final(self).tile_by_index.0@ == old(self).tile_by_index.0@,
            final(self).data.moves_made@.len() == 0,
            final(self).data.moves_limit == DEFAULT_MOVES_LIMIT,
            final(self).tiles@.len() == old(self).tiles@.len(),
            forall|k: int|
                0 <= k < old(self).tiles@.len() ==> (#[trigger] final(self).tiles@[k]).index
                    == old(self).tiles@[k].index && final(self).tiles@[k].position == old(
                    self,
                ).tiles@[k].position,
    {
        let n: usize = self.tiles.len();
        let mut t: usize = 0;
        while t < n
            invariant
                t <= n,
                n == old(self).tiles@.len(),
                self.config == old(self).config,
                self.picked == old(self).picked,
                self.tile_by_index.0@ == old(self).tile_by_index.0@,
                self.data.moves_made@ == old(self).data.moves_made@,
                self.data.moves_limit == old(self).data.moves_limit,
                self.tiles@.len() == n,
                old(self).wf(),
                forall|k: int| t <= k < n ==> #[trigger] self.tiles@[k] == old(self).tiles@[k],
                forall|k: int|
                    0 <= k < t ==> (#[trigger] self.tiles@[k]).index == old(self).tiles@[k].index
                        && self.tiles@[k].position == old(self).tiles@[k].position,
            decreases n - t,
        {
            let tile = self.tiles[t];
            let color = random_color();
            self.tiles.set(
                t,
                GridTile { index: tile.index, color, position: tile.position },
            );
            t = t + 1;
        }
        self.data.moves_made.clear();
        self.data.moves_limit = DEFAULT_MOVES_LIMIT;
        proof {
            assert forall|k: int| 0 <= k < self.tiles@.len() implies #[trigger] self.tile_ok(k) by {
                assert(old(self).tile_ok(k));
            }
            assert forall|s2: int| 0 <= s2 < self.tiles@.len() implies #[trigger] self.slot_ok(s2) by {
                assert(old(self).slot_ok(s2));
                assert(old(self).tile_ok(old(self).tile_by_index.0@[s2] as int));
            }
        }
    }

    /// Paint the tile occupying `index`. Everything else — indices, the
    /// slot table, positions, the move bookkeeping — stays as it is.
    pub fn set_tile_color(&mut self, index: &Index, color: GridTileColor)
        requires
            old(self).wf(),
            old(self).index_in_bounds(*index),
        ensures
            final(self).wf(),
            final(self).config == old(self).config,
            final(self).picked == old(self).picked,
            final(self).tile_by_index.0@ == old(self).tile_by_index.0@,
            final(self).data.moves_made@ == old(self).data.moves_made@,
            final(self).data.moves_limit == old(self).data.moves_limit,
            final(self).tiles@.len() == old(self).tiles@.len(),
            final(self).spec_color_at(*index) == color,
            forall|k: int|
                0 <= k < old(self).tiles@.len() ==> (#[trigger] final(self).tiles@[k]).index
                    == old(self).tiles@[k].index && final(self).tiles@[k].position == old(
                    self,
                ).tiles@[k].position,
            forall|k: int|
                0 <= k < old(self).tiles@.len() && k != old(self).tile_by_index.0@[spec_slot(
                    old(self).config,
                    *index,
                )] ==> #[trigger] final(self).tiles@[k] == old(self).tiles@[k],
    {
        proof {
            lemma_slot_in_range(
                self.config.dimensions.0 as int,
                self.config.dimensions.1 as int,
                index.x as int,
                index.y as int,
            );
            assert(old(self).slot_ok(spec_slot(old(self).config, *index)));
        }
        let slot: usize = index.y * self.config.dimensions.0 + index.x;
        let t: usize = self.tile_by_index.0[slot];
        let tile = self.tiles[t];
        self.tiles.set(t, GridTile { index: tile.index, color, position: tile.position });
        proof {
            assert forall|k: int| 0 <= k < self.tiles@.len() implies #[trigger] self.tile_ok(k) by {
                assert(old(self).tile_ok(k));
            }
            assert forall|s2: int| 0 <= s2 < self.tiles@.len() implies #[trigger] self.slot_ok(
                s2,
            ) by {
                assert(old(self).slot_ok(s2));
                assert(old(self).tile_ok(old(self).tile_by_index.0@[s2] as int));
            }
        }
    }
}

/// Swap atomicity, as the slot table sees it: in a well-formed grid —
/// and every grid operation here returns one — `tile_by_index[s]` names
/// exactly the tile whose own index flattens to `s`, and every tile is
/// found under its own slot. No caller can observe a half-updated pair.
pub proof fn lemma_tile_by_index_consistent(g: Grid)
    requires
        g.wf(),
    ensures
        forall|s: int|
            0 <= s < g.tile_by_index.0@.len() ==> (#[trigger] g.tile_by_index.0@[s] as int)
                < g.tiles@.len() && spec_slot(g.config, g.tiles@[g.tile_by_index.0@[s] as int].index)
                == s,
        forall|t: int|
            0 <= t < g.tiles@.len() ==> g.tile_by_index.0@[spec_slot(
                g.config,
                (#[trigger] g.tiles@[t]).index,
            )] == t,
{
    assert forall|s: int|
        0 <= s < g.tile_by_index.0@.len() implies (#[trigger] g.tile_by_index.0@[s] as int)
        < g.tiles@.len() && spec_slot(g.config, g.tiles@[g.tile_by_index.0@[s] as int].index)
        == s by {
        assert(g.slot_ok(s));
    }
    assert forall|t: int|
        0 <= t < g.tiles@.len() implies g.tile_by_index.0@[spec_slot(
        g.config,
        (#[trigger] g.tiles@[t]).index,
    )] == t by {
        assert(g.tile_ok(t));
    }
}

} // verus!
