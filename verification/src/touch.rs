//! Per-frame hit testing of the pointer against touchable entities.
//!
//! Every frame the touch detector recomputes, for each touchable entity,
//! whether the pointer overlaps its hit box, and advances the entity's
//! `TouchState` by the transition table below. A frame without overlap
//! always forces the state back to `Untouched`.

use vstd::prelude::*;

use crate::geom::{in_world, point_in_box, spec_point_in_box, spec_saturating_add, valid_extent, Vec2i};

verus! {

/// Rectangular hit box of a touchable entity, given as a full extent;
/// the box spans half of it on each side of the entity's position.
#[derive(Clone, Copy, PartialEq, Eq, Structural, Debug)]
pub struct TouchArea {
    pub area: Vec2i,
}

impl Default for TouchArea {
    /// A fresh touchable starts with an empty hit box.
    fn default() -> (r: Self)
        ensures
            r.area == (Vec2i { x: 0, y: 0 }),
    {
        TouchArea { area: Vec2i { x: 0, y: 0 } }
    }
}

/// Touch state of one entity. `duration` counts the ticks spent touching
/// after the initial `JustTouched` frame.
#[derive(Clone, Copy, PartialEq, Eq, Structural, Debug)]
pub enum TouchState {
    Untouched,
    JustTouched,
    Touching { duration: u64 },
}

impl TouchState {
    /// The pointer entered the hit box this very frame.
    pub fn is_just_touched(&self) -> (r: bool)
        ensures
            r == (*self is JustTouched),
    {
        matches!(*self, TouchState::JustTouched)
    }

    /// The pointer is inside the hit box, whether it just arrived or stayed.
    pub fn is_touching(&self) -> (r: bool)
        ensures
            r == (*self is JustTouched || *self is Touching),
    {
        match *self {
            TouchState::JustTouched | TouchState::Touching { .. } => true,
            _ => false,
        }
    }
}

/// Transition table of the touch detector: no overlap clears the state;
/// overlap promotes `Untouched` to `JustTouched`, then accumulates duration.
pub open spec fn spec_touch_next(overlap: bool, prev: TouchState, dt: u64) -> TouchState {
    if !overlap {
        TouchState::Untouched
    } else {
        match prev {
            TouchState::Untouched => TouchState::JustTouched,
            TouchState::JustTouched => TouchState::Touching { duration: dt },
            TouchState::Touching { duration } => TouchState::Touching {
                duration: spec_saturating_add(duration, dt),
            },
        }
    }
}

/// Touch state invariant: whenever the pointer is outside an entity's box
/// this frame, that entity's state is `Untouched` for the next frame, no matter
/// what it was before.
pub proof fn lemma_no_overlap_clears_touch(prev: TouchState, dt: u64)
    ensures
        spec_touch_next(false, prev, dt) == TouchState::Untouched,
{
}

/// Advance one entity's touch state for one frame.
pub fn touch_next(overlap: bool, prev: &TouchState, dt: u64) -> (next: TouchState)
    ensures
        next == spec_touch_next(overlap, *prev, dt),
{
    if !overlap {
        TouchState::Untouched
    } else {
        match *prev {
            TouchState::Untouched => TouchState::JustTouched,
            TouchState::JustTouched => TouchState::Touching { duration: dt },
            TouchState::Touching { duration } => TouchState::Touching {
                duration: duration.saturating_add(dt),
            },
        }
    }
}

/// One touchable entity as the detector sees it: its world position, its
/// hit box, and its current touch state.
#[derive(Clone, Copy, PartialEq, Eq, Structural, Debug)]
pub struct Touchable {
    pub position: Vec2i,
    pub area: TouchArea,
    pub state: TouchState,
}

/// A touchable entity with coordinates the detector can do arithmetic on.
pub open spec fn spec_touchable_valid(t: Touchable) -> bool {
    in_world(t.position) && valid_extent(t.area.area)
}

/// Whether the pointer overlaps the entity's hit box this frame.
pub open spec fn spec_overlaps(t: Touchable, pointer: Vec2i) -> bool {
    spec_point_in_box(t.position, t.area.area, pointer)
}

/// Recompute every entity's touch state from the current pointer
/// position; this runs once per frame over all touchable entities. The
/// result flags the entities whose state actually changed — a write of
/// an unchanged state is suppressed, so dependents are only notified of
/// real transitions — and press detection reevaluates exactly those.
pub fn detect_touch(entities: &mut Vec<Touchable>, pointer: Vec2i, dt: u64) -> (changed: Vec<
    bool,
>)
    requires
        in_world(pointer),
        forall|i: int|
            0 <= i < old(entities)@.len() ==> spec_touchable_valid(#[trigger] old(entities)@[i]),
    ensures
        final(entities)@.len() == old(entities)@.len(),
        changed@.len() == old(entities)@.len(),
        forall|i: int|
            0 <= i < old(entities)@.len() ==> #[trigger] final(entities)@[i] == (Touchable {
                state: spec_touch_next(
                    spec_overlaps(old(entities)@[i], pointer),
                    old(entities)@[i].state,
                    dt,
                ),
                ..old(entities)@[i]
            }),
        forall|i: int|
            0 <= i < old(entities)@.len() ==> #[trigger] changed@[i] == (spec_touch_next(
                spec_overlaps(old(entities)@[i], pointer),
                old(entities)@[i].state,
                dt,
            ) != old(entities)@[i].state),
{
    let n: usize = entities.len();
    let mut changed: Vec<bool> = Vec::new();
    let mut i: usize = 0;
    while i < n
        invariant
            n == old(entities)@.len(),
            i <= n,
            in_world(pointer),
            entities@.len() == n,
            changed@.len() == i,
            forall|k: int| 0 <= k < n ==> spec_touchable_valid(#[trigger] old(entities)@[k]),
            forall|k: int| i <= k < n ==> #[trigger] entities@[k] == old(entities)@[k],
            forall|k: int|
                0 <= k < i ==> #[trigger] entities@[k] == (Touchable {
                    state: spec_touch_next(
                        spec_overlaps(old(entities)@[k], pointer),
                        old(entities)@[k].state,
                        dt,
                    ),
                    ..old(entities)@[k]
                }),
            forall|k: int|
                0 <= k < i ==> #[trigger] changed@[k] == (spec_touch_next(
                    spec_overlaps(old(entities)@[k], pointer),
                    old(entities)@[k].state,
                    dt,
                ) != old(entities)@[k].state),
        decreases n - i,
    {
        let entity = entities[i];
        let overlap = point_in_box(entity.position, entity.area.area, pointer);
        let next = touch_next(overlap, &entity.state, dt);
        if next == entity.state {
            changed.push(false);
        } else {
            entities.set(
                i,
                Touchable {
                    position: entity.position,
                    area: entity.area,
                    state: next,
                },
            );
            changed.push(true);
        }
        i = i + 1;
    }
    changed
}

/// Whether any entity in the slice has just been touched this frame.
pub fn just_touched(states: &Vec<TouchState>) -> (r: bool)
    ensures
        r == exists|i: int| 0 <= i < states@.len() && states@[i] is JustTouched,
{
    let n: usize = states.len();
    let mut i: usize = 0;
    while i < n
        invariant
            i <= n,
            n == states@.len(),
            forall|k: int| 0 <= k < i ==> !(#[trigger] states@[k] is JustTouched),
        decreases n - i,
    {
        if states[i].is_just_touched() {
            return true;
        }
        i = i + 1;
    }
    false
}

/// Scale factor an entity should take on this frame, in thousandths: the
/// configured factor when the pointer just arrived, the neutral factor
/// when it left, nothing otherwise.
#[derive(Clone, Copy, PartialEq, Eq, Structural, Debug)]
pub struct ScaleOnTouch(pub u32);

impl Default for ScaleOnTouch {
    /// By default an entity does not scale at all on touch.
    fn default() -> (r: Self)
        ensures
            r.0 == 0,
    {
        ScaleOnTouch(0)
    }
}

/// Neutral scale, in thousandths.
pub const SCALE_NEUTRAL: u32 = 1000;

/// Decide the new scale of an entity from its touch state, if it changes.
pub fn scale_on_touch(scale: &ScaleOnTouch, state: &TouchState) -> (r: Option<u32>)
    ensures
        r == (match *state {
            TouchState::JustTouched => Some(scale.0),
            TouchState::Untouched => Some(SCALE_NEUTRAL),
            TouchState::Touching { .. } => None::<u32>,
        }),
{
    match *state {
        TouchState::JustTouched => Some(scale.0),
        TouchState::Untouched => Some(SCALE_NEUTRAL),
        TouchState::Touching { .. } => None,
    }
}

} // verus!
