//! Visual highlights: which grid tiles to flag for the active cards.
//!
//! Each active card claims one side of the grid, keyed by its hand
//! position; the aggregator keeps the latest requirement per side and,
//! on request, merges them into the full list of tiles to flag, marking
//! each as satisfied or not by the tile's current colour.

use vstd::prelude::*;

use crate::card::{clone_requirement, Card, CardRequirement};
use crate::grid::{spec_is_matching, Grid, GridTileColor, Index};

verus! {

/// Signal asking for the highlights to be recomputed and redrawn.
#[derive(Clone, Copy, PartialEq, Eq, Structural, Debug)]
pub struct GridHighlightRequest;

/// The side of the grid a highlight is drawn from.
#[derive(Clone, Copy, PartialEq, Eq, Structural, Debug, Hash)]
pub enum GridTileHighlightSide {
    Left,
    Bottom,
    Right,
}

/// Side assigned to a hand position: the first card highlights from the
/// left, the second from the bottom, the rest from the right.
pub open spec fn spec_side_for_card_index(i: int) -> GridTileHighlightSide {
    if i == 0 {
        GridTileHighlightSide::Left
    } else if i == 1 {
        GridTileHighlightSide::Bottom
    } else {
        GridTileHighlightSide::Right
    }
}

/// Which side a card at hand position `i` highlights from.
pub fn side_for_card_index(i: usize) -> (r: GridTileHighlightSide)
    ensures
        r == spec_side_for_card_index(i as int),
{
    match i {
        0 => GridTileHighlightSide::Left,
        1 => GridTileHighlightSide::Bottom,
        _ => GridTileHighlightSide::Right,
    }
}

/// The latest requirement claimed for each side, if any.
#[derive(Debug)]
pub struct GridHighlightsState {
    pub left: Option<CardRequirement>,
    pub bottom: Option<CardRequirement>,
    pub right: Option<CardRequirement>,
}

/// The slot-to-colour entries a side currently holds, if any.
pub open spec fn spec_side_tiles(state: GridHighlightsState, side: GridTileHighlightSide) -> Option<
    Seq<(Index, GridTileColor)>,
> {
    match side {
        GridTileHighlightSide::Left => match state.left {
            Some(r) => Some(r.tiles@),
            None => None,
        },
        GridTileHighlightSide::Bottom => match state.bottom {
            Some(r) => Some(r.tiles@),
            None => None,
        },
        GridTileHighlightSide::Right => match state.right {
            Some(r) => Some(r.tiles@),
            None => None,
        },
    }
}

impl GridHighlightsState {
    /// A state with no side claimed.
    pub fn new() -> (r: Self)
        ensures
            r.left is None,
            r.bottom is None,
            r.right is None,
    {
        GridHighlightsState { left: None, bottom: None, right: None }
    }

    /// Claim one side with a requirement, leaving the other sides alone.
    pub fn set_side(&mut self, side: GridTileHighlightSide, requirement: CardRequirement)
        ensures
            spec_side_tiles(*final(self), side) == Some(requirement.tiles@),
            forall|other: GridTileHighlightSide|
                other != side ==> #[trigger] spec_side_tiles(*final(self), other) == spec_side_tiles(
                    *old(self),
                    other,
                ),
    {
        match side {
            GridTileHighlightSide::Left => {
                self.left = Some(requirement);
            },
            GridTileHighlightSide::Bottom => {
                self.bottom = Some(requirement);
            },
            GridTileHighlightSide::Right => {
                self.right = Some(requirement);
            },
        }
    }
}

/// The requirement of the last card in the hand that highlights from
/// `side`, if the hand has one.
pub open spec fn spec_last_for_side(cards: Seq<Card>, side: GridTileHighlightSide) -> Option<
    Seq<(Index, GridTileColor)>,
>
    decreases cards.len(),
{
    if cards.len() == 0 {
        None
    } else if spec_side_for_card_index(cards.last().index as int) == side {
        Some(cards.last().requirement.tiles@)
    } else {
        spec_last_for_side(cards.drop_last(), side)
    }
}

/// Register the requirements of freshly dealt cards with the aggregator:
/// each card claims its side, later cards in the hand winning. Reports
/// whether anything was registered, so the caller knows to ask for a
/// highlight redraw.
pub fn card_highlight(state: &mut GridHighlightsState, cards: &Vec<Card>) -> (changed: bool)
    ensures
        changed == (cards@.len() > 0),
        forall|side: GridTileHighlightSide|
            #[trigger] spec_side_tiles(*final(state), side) == (match spec_last_for_side(
                cards@,
                side,
            ) {
                Some(tiles) => Some(tiles),
                None => spec_side_tiles(*old(state), side),
            }),
{
    let n: usize = cards.len();
    let mut c: usize = 0;
    while c < n
        invariant
            c <= n,
            n == cards@.len(),
            forall|side: GridTileHighlightSide|
                #[trigger] spec_side_tiles(*state, side) == (match spec_last_for_side(
                    cards@.take(c as int),
                    side,
                ) {
                    Some(tiles) => Some(tiles),
                    None => spec_side_tiles(*old(state), side),
                }),
        decreases n - c,
    {
        let side = side_for_card_index(cards[c].index);
        let requirement = clone_requirement(&cards[c].requirement);
        state.set_side(side, requirement);
        proof {
            assert forall|s: GridTileHighlightSide|
                #[trigger] spec_side_tiles(*state, s) == (match spec_last_for_side(
                    cards@.take(c + 1),
                    s,
                ) {
                    Some(tiles) => Some(tiles),
                    None => spec_side_tiles(*old(state), s),
                }) by {
                assert(cards@.take(c + 1).drop_last() =~= cards@.take(c as int));
                assert(cards@.take(c + 1).last() == cards@[c as int]);
            }
        }
        c = c + 1;
    }
    proof {
        assert(cards@.take(n as int) =~= cards@);
    }
    n > 0
}

/// One tile to flag: from which side, at which slot, which colour the
/// card expects there, and whether the tile currently satisfies it.
#[derive(Clone, Copy, PartialEq, Eq, Structural, Debug)]
pub struct GridTileHighlight {
    pub side: GridTileHighlightSide,
    pub index: Index,
    pub expected: GridTileColor,
    pub filled: bool,
}

/// Highlights one side's entries produce, from entry `i` on: entries
/// whose slot lies off the grid are skipped, the rest are flagged as
/// satisfied exactly when the tile's colour matches the expectation.
pub open spec fn spec_side_highlights_from(
    tiles: Seq<(Index, GridTileColor)>,
    side: GridTileHighlightSide,
    grid: Grid,
    i: int,
) -> Seq<GridTileHighlight>
    decreases tiles.len() - i,
{
    if i < 0 || i >= tiles.len() {
        Seq::empty()
    } else {
        let rest = spec_side_highlights_from(tiles, side, grid, i + 1);
        if grid.index_in_bounds(tiles[i].0) {
            seq![
                (GridTileHighlight {
                    side,
                    index: tiles[i].0,
                    expected: tiles[i].1,
                    filled: spec_is_matching(tiles[i].1, grid.spec_color_at(tiles[i].0)),
                }),
            ] + rest
        } else {
            rest
        }
    }
}

/// Highlights a side produces: nothing when the side is unclaimed.
pub open spec fn spec_opt_side_highlights(
    tiles: Option<Seq<(Index, GridTileColor)>>,
    side: GridTileHighlightSide,
    grid: Grid,
) -> Seq<GridTileHighlight> {
    match tiles {
        Some(t) => spec_side_highlights_from(t, side, grid, 0),
        None => Seq::empty(),
    }
}

/// The full highlight list: all claimed sides merged, left then bottom
/// then right, each side's entries in requirement order.
pub open spec fn spec_highlights(state: GridHighlightsState, grid: Grid) -> Seq<GridTileHighlight> {
    spec_opt_side_highlights(spec_side_tiles(state, GridTileHighlightSide::Left), GridTileHighlightSide::Left, grid)
        + spec_opt_side_highlights(
        spec_side_tiles(state, GridTileHighlightSide::Bottom),
        GridTileHighlightSide::Bottom,
        grid,
    ) + spec_opt_side_highlights(
        spec_side_tiles(state, GridTileHighlightSide::Right),
        GridTileHighlightSide::Right,
        grid,
    )
}

/// Append the highlights of one claimed side to the output.
fn push_side_highlights(
    out: &mut Vec<GridTileHighlight>,
    requirement: &Option<CardRequirement>,
    side: GridTileHighlightSide,
    grid: &Grid,
)
    requires
        grid.wf(),
    ensures
        final(out)@ == old(out)@ + spec_opt_side_highlights(
            (match *requirement {
                Some(r) => Some(r.tiles@),
                None => None::<Seq<(Index, GridTileColor)>>,
            }),
            side,
            *grid,
        ),
{
    let req = match requirement {
        Some(r) => r,
        None => {
            proof {
                assert(final(out)@ =~= old(out)@ + Seq::<GridTileHighlight>::empty());
            }
            return ;
        },
    };
    let n: usize = req.tiles.len();
    let mut i: usize = 0;
    while i < n
        invariant
            i <= n,
            n == req.tiles@.len(),
            grid.wf(),
            out@ + spec_side_highlights_from(req.tiles@, side, *grid, i as int) == old(out)@
                + spec_side_highlights_from(req.tiles@, side, *grid, 0),
        decreases n - i,
    {
        let (index, expected) = req.tiles[i];
        let ghost pre_out = out@;
        match grid.color_at(&index) {
            Some(color) => {
                let filled = expected.is_matching(&color);
                out.push(GridTileHighlight { side, index, expected, filled });
                proof {
                    assert(out@ + spec_side_highlights_from(req.tiles@, side, *grid, i + 1)
                        =~= pre_out + spec_side_highlights_from(req.tiles@, side, *grid, i as int));
                }
            },
            None => {},
        }
        i = i + 1;
    }
    proof {
        assert(out@ + spec_side_highlights_from(req.tiles@, side, *grid, n as int) =~= out@);
    }
}

/// Recompute the full set of tiles to flag: every entry of every claimed
/// side whose slot lies on the grid, marked satisfied exactly when the
/// tile's current colour matches the expectation. Read-only with respect
/// to the grid.
pub fn highlight_grid(state: &GridHighlightsState, grid: &Grid) -> (r: Vec<GridTileHighlight>)
    requires
        grid.wf(),
    ensures
        r@ == spec_highlights(*state, *grid),
{
    let mut out: Vec<GridTileHighlight> = Vec::new();
    push_side_highlights(&mut out, &state.left, GridTileHighlightSide::Left, grid);
    push_side_highlights(&mut out, &state.bottom, GridTileHighlightSide::Bottom, grid);
    push_side_highlights(&mut out, &state.right, GridTileHighlightSide::Right, grid);
    proof {
        assert(out@ =~= spec_highlights(*state, *grid));
    }
    out
}

} // verus!
