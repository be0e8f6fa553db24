//! Cards and their requirements.
//!
//! A card carries a requirement: a mapping from grid slots to expected
//! colours, fixed per card kind or drawn at random when the card is dealt.
//! Evaluating a requirement against the live grid counts the entries whose
//! slot exists and whose tile colour matches under the wildcard rule; the
//! count parameterises the card's effect.

use vstd::prelude::*;

use crate::grid::{spec_is_matching, Grid, GridConfig, GridTileColor, Index};
use crate::rng::random_below;

verus! {

/// Signal asking the presentation layer to deal and draw a fresh hand.
#[derive(Clone, Copy, PartialEq, Eq, Structural, Debug)]
pub struct CardRedrawRequest;

/// Cards dealt per hand.
pub const CARDS_PER_HAND: usize = 3;

/// A card's requirement: the colour each named slot is expected to show.
/// Immutable once attached to a card; slots are named at most once.
#[derive(Debug)]
pub struct CardRequirement {
    pub tiles: Vec<(Index, GridTileColor)>,
}

impl CardRequirement {
    /// Each slot appears at most once in the requirement.
    pub open spec fn wf(self) -> bool {
        forall|i: int, j: int|
            0 <= i < j < self.tiles@.len() ==> (#[trigger] self.tiles@[i]).0 != (
            #[trigger] self.tiles@[j]).0
    }
}

/// Copy a requirement entry for entry.
pub fn clone_requirement(requirement: &CardRequirement) -> (r: CardRequirement)
    ensures
        r.tiles@ == requirement.tiles@,
{
    let n: usize = requirement.tiles.len();
    let mut tiles: Vec<(Index, GridTileColor)> = Vec::new();
    let mut i: usize = 0;
    while i < n
        invariant
            i <= n,
            n == requirement.tiles@.len(),
            tiles@ == requirement.tiles@.take(i as int),
        decreases n - i,
    {
        tiles.push(requirement.tiles[i]);
        proof {
            assert(tiles@ =~= requirement.tiles@.take(i + 1));
        }
        i = i + 1;
    }
    proof {
        assert(tiles@ =~= requirement.tiles@);
    }
    CardRequirement { tiles }
}

/// Matched entries of `req` on `grid`, counted from entry `i` onward: an
/// entry counts when its slot lies on the grid and the tile there matches
/// the expected colour under the wildcard rule. An absent slot is skipped,
/// not an error.
pub open spec fn spec_match_count_from(
    req: Seq<(Index, GridTileColor)>,
    grid: Grid,
    i: int,
) -> nat
    decreases req.len() - i,
{
    if i < 0 || i >= req.len() {
        0
    } else {
        (if grid.index_in_bounds(req[i].0) && spec_is_matching(
            grid.spec_color_at(req[i].0),
            req[i].1,
        ) {
            1nat
        } else {
            0nat
        }) + spec_match_count_from(req, grid, i + 1)
    }
}

/// Matched entries of `req` on `grid`.
pub open spec fn spec_match_count(req: Seq<(Index, GridTileColor)>, grid: Grid) -> nat {
    spec_match_count_from(req, grid, 0)
}

/// Evaluate a requirement against the grid: count the entries whose slot
/// exists and whose tile colour matches the expectation, wildcard on
/// either side. Read-only with respect to the grid.
pub fn evaluate(requirement: &CardRequirement, grid: &Grid) -> (count: u64)
    requires
        grid.wf(),
    ensures
        count == spec_match_count(requirement.tiles@, *grid),
{
    let n: usize = requirement.tiles.len();
    let mut count: u64 = 0;
    let mut i: usize = 0;
    while i < n
        invariant
            i <= n,
            n == requirement.tiles@.len(),
            grid.wf(),
            count <= i,
            count + spec_match_count_from(requirement.tiles@, *grid, i as int)
                == spec_match_count(requirement.tiles@, *grid),
        decreases n - i,
    {
        let (index, expected) = requirement.tiles[i];
        match grid.color_at(&index) {
            Some(color) => {
                if color.is_matching(&expected) {
                    count = count + 1;
                }
            },
            None => {},
        }
        i = i + 1;
    }
    count
}

/// The kinds of card, each with its own requirement pattern. All of them
/// combine their matched tiles into one damage effect.
#[derive(Clone, Copy, PartialEq, Eq, Structural, Debug)]
pub enum CardKind {
    Crocodile,
    River,
    Diamond,
}

impl CardKind {
    /// Display name of the card.
    pub fn card_name(&self) -> (r: &'static str)
        ensures
            *self is Crocodile ==> r@ == "Card Crocodile"@,
            *self is River ==> r@ == "Card River"@,
            *self is Diamond ==> r@ == "Diamond"@,
    {
        match *self {
            CardKind::Crocodile => "Card Crocodile",
            CardKind::River => "Card River",
            CardKind::Diamond => "Diamond",
        }
    }

    /// Foreground sprite of the card.
    pub fn sprite_name(&self) -> (r: &'static str)
        ensures
            *self is Crocodile ==> r@ == "crocodile.png"@,
            *self is River ==> r@ == "river.png"@,
            *self is Diamond ==> r@ == "diamond.png"@,
    {
        match *self {
            CardKind::Crocodile => "crocodile.png",
            CardKind::River => "river.png",
            CardKind::Diamond => "diamond.png",
        }
    }

    /// Background sprite of the card.
    pub fn background_sprite_name(&self) -> (r: &'static str)
        ensures
            *self is Crocodile ==> r@ == "green_card.png"@,
            *self is River ==> r@ == "blue_card.png"@,
            *self is Diamond ==> r@ == "blue_card.png"@,
    {
        match *self {
            CardKind::Crocodile => "green_card.png",
            CardKind::River | CardKind::Diamond => "blue_card.png",
        }
    }
}

/// The crocodile card wants two green tiles in the middle column.
pub open spec fn spec_crocodile_tiles() -> Seq<(Index, GridTileColor)> {
    seq![
        ((Index { x: 1, y: 1 }), GridTileColor::Green),
        ((Index { x: 1, y: 2 }), GridTileColor::Green),
    ]
}

/// The river card wants a full blue bottom row of five tiles.
pub open spec fn spec_river_tiles() -> Seq<(Index, GridTileColor)> {
    seq![
        ((Index { x: 0, y: 0 }), GridTileColor::Blue),
        ((Index { x: 1, y: 0 }), GridTileColor::Blue),
        ((Index { x: 2, y: 0 }), GridTileColor::Blue),
        ((Index { x: 3, y: 0 }), GridTileColor::Blue),
        ((Index { x: 4, y: 0 }), GridTileColor::Blue),
    ]
}

/// What the requirement of each kind looks like. The diamond's slot is
/// drawn at random when the card is dealt, so only its shape is fixed:
/// one blue expectation somewhere on the grid.
pub open spec fn spec_requirement_matches_kind(
    kind: CardKind,
    tiles: Seq<(Index, GridTileColor)>,
    config: GridConfig,
) -> bool {
    match kind {
        CardKind::Crocodile => tiles == spec_crocodile_tiles(),
        CardKind::River => tiles == spec_river_tiles(),
        CardKind::Diamond => {
            &&& tiles.len() == 1
            &&& tiles[0].1 == GridTileColor::Blue
            &&& tiles[0].0.x < config.dimensions.0
            &&& tiles[0].0.y < config.dimensions.1
        },
    }
}

/// Build the requirement a freshly dealt card of `kind` carries.
pub fn requirements_for(kind: CardKind, config: &GridConfig) -> (r: CardRequirement)
    requires
        config.wf(),
    ensures
        r.wf(),
        spec_requirement_matches_kind(kind, r.tiles@, *config),
{
    match kind {
        CardKind::Crocodile => {
            let mut tiles: Vec<(Index, GridTileColor)> = Vec::new();
            tiles.push((Index { x: 1, y: 1 }, GridTileColor::Green));
            tiles.push((Index { x: 1, y: 2 }, GridTileColor::Green));
            proof {
                assert(tiles@ =~= spec_crocodile_tiles());
            }
            CardRequirement { tiles }
        },
        CardKind::River => {
            let mut tiles: Vec<(Index, GridTileColor)> = Vec::new();
            tiles.push((Index { x: 0, y: 0 }, GridTileColor::Blue));
            tiles.push((Index { x: 1, y: 0 }, GridTileColor::Blue));
            tiles.push((Index { x: 2, y: 0 }, GridTileColor::Blue));
            tiles.push((Index { x: 3, y: 0 }, GridTileColor::Blue));
            tiles.push((Index { x: 4, y: 0 }, GridTileColor::Blue));
            proof {
                assert(tiles@ =~= spec_river_tiles());
            }
            CardRequirement { tiles }
        },
        CardKind::Diamond => {
            let x: usize = random_below(config.dimensions.0);
            let y: usize = random_below(config.dimensions.1);
            let mut tiles: Vec<(Index, GridTileColor)> = Vec::new();
            tiles.push((Index { x, y }, GridTileColor::Blue));
            CardRequirement { tiles }
        },
    }
}

/// One dealt card: its kind, its position in the hand, and the
/// requirement it was dealt with.
#[derive(Debug)]
pub struct Card {
    pub kind: CardKind,
    pub index: usize,
    pub requirement: CardRequirement,
}

/// The set of card kinds a hand can be dealt from.
#[derive(Debug)]
pub struct CardCollection {
    pub kinds: Vec<CardKind>,
}

impl CardCollection {
    /// Register one more kind.
    pub fn add(&mut self, kind: CardKind)
        ensures
            final(self).kinds@ == old(self).kinds@.push(kind),
    {
        self.kinds.push(kind);
    }
}

/// The collection every hand is dealt from: crocodile and river.
pub fn setup_all_cards_collection() -> (c: CardCollection)
    ensures
        c.kinds@ == seq![CardKind::Crocodile, CardKind::River],
{
    let mut c = CardCollection { kinds: Vec::new() };
    c.add(CardKind::Crocodile);
    c.add(CardKind::River);
    proof {
        assert(c.kinds@ =~= seq![CardKind::Crocodile, CardKind::River]);
    }
    c
}

/// Deal one kind, chosen uniformly from the collection.
pub fn card_random(collection: &CardCollection) -> (kind: CardKind)
    requires
        collection.kinds@.len() >= 1,
    ensures
        exists|i: int| 0 <= i < collection.kinds@.len() && kind == collection.kinds@[i],
{
    let i: usize = random_below(collection.kinds.len());
    collection.kinds[i]
}

/// A dealt card is well formed for a collection and configuration: its
/// kind comes from the collection and it carries a requirement of its
/// kind's pattern.
pub open spec fn spec_card_dealt_from(card: Card, kinds: Seq<CardKind>, config: GridConfig) -> bool {
    &&& (exists|i: int| 0 <= i < kinds.len() && card.kind == kinds[i])
    &&& card.requirement.wf()
    &&& spec_requirement_matches_kind(card.kind, card.requirement.tiles@, config)
}

/// Deal a fresh hand: one card per hand position, each of a kind chosen
/// at random from the collection, each carrying its kind's requirement.
pub fn redraw_cards(collection: &CardCollection, config: &GridConfig) -> (cards: Vec<Card>)
    requires
        collection.kinds@.len() >= 1,
        config.wf(),
    ensures
        cards@.len() == CARDS_PER_HAND,
        forall|c: int|
            0 <= c < cards@.len() ==> (#[trigger] cards@[c]).index == c && spec_card_dealt_from(
                cards@[c],
                collection.kinds@,
                *config,
            ),
{
    let mut cards: Vec<Card> = Vec::new();
    let mut c: usize = 0;
    while c < CARDS_PER_HAND
        invariant
            c <= CARDS_PER_HAND,
            cards@.len() == c,
            collection.kinds@.len() >= 1,
            config.wf(),
            forall|k: int|
                0 <= k < c ==> (#[trigger] cards@[k]).index == k && spec_card_dealt_from(
                    cards@[k],
                    collection.kinds@,
                    *config,
                ),
        decreases CARDS_PER_HAND - c,
    {
        let kind = card_random(collection);
        let requirement = requirements_for(kind, config);
        cards.push(Card { kind, index: c, requirement });
        c = c + 1;
    }
    cards
}

} // verus!
