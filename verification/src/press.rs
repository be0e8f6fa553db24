//! Press semantics derived from touch state and the primary button.
//!
//! A press is a touch with the primary pointer button held: press states
//! follow click-like edges (`JustPressed`, held `Pressed`, `JustReleased`),
//! and leaving the hit box mid-press cancels the press instead of
//! completing it, so a drag-off-and-release never reads as a click.

use vstd::prelude::*;

use crate::geom::spec_saturating_add;
use crate::touch::TouchState;

verus! {

/// Marker for entities that take part in press detection.
#[derive(Clone, Copy, PartialEq, Eq, Structural, Debug)]
pub struct PressArea;

/// Press state of one entity. `duration` counts the ticks the press has
/// been held after the initial `JustPressed` frame.
#[derive(Clone, Copy, PartialEq, Eq, Structural, Debug)]
pub enum PressState {
    Unpressed,
    JustPressed,
    Pressed { duration: u64 },
    JustReleased,
}

impl PressState {
    /// The press started this very frame.
    pub fn is_just_pressed(&self) -> (r: bool)
        ensures
            r == (*self is JustPressed),
    {
        matches!(*self, PressState::JustPressed)
    }

    /// The press is active, whether it just started or is being held.
    pub fn is_pressed(&self) -> (r: bool)
        ensures
            r == (*self is JustPressed || *self is Pressed),
    {
        match *self {
            PressState::JustPressed | PressState::Pressed { .. } => true,
            _ => false,
        }
    }
}

/// Transition table of the press detector, keyed by whether the entity is
/// touched, the previous press state, and whether the primary button is
/// down. Leaving the hit box cancels any press in progress.
pub open spec fn spec_press_next(
    touching: bool,
    prev: PressState,
    button_down: bool,
    dt: u64,
) -> PressState {
    if !touching {
        PressState::Unpressed
    } else {
        match prev {
            PressState::Unpressed => if button_down {
                PressState::JustPressed
            } else {
                PressState::Unpressed
            },
            PressState::JustPressed => if button_down {
                PressState::Pressed { duration: dt }
            } else {
                PressState::JustReleased
            },
            PressState::Pressed { duration } => if button_down {
                PressState::Pressed { duration: spec_saturating_add(duration, dt) }
            } else {
                PressState::JustReleased
            },
            PressState::JustReleased => if button_down {
                PressState::JustPressed
            } else {
                PressState::Unpressed
            },
        }
    }
}

/// Advance one entity's press state for one frame.
pub fn press_next(touching: bool, prev: &PressState, button_down: bool, dt: u64) -> (next:
    PressState)
    ensures
        next == spec_press_next(touching, *prev, button_down, dt),
{
    if !touching {
        PressState::Unpressed
    } else {
        match *prev {
            PressState::Unpressed => if button_down {
                PressState::JustPressed
            } else {
                PressState::Unpressed
            },
            PressState::JustPressed => if button_down {
                PressState::Pressed { duration: dt }
            } else {
                PressState::JustReleased
            },
            PressState::Pressed { duration } => if button_down {
                PressState::Pressed { duration: duration.saturating_add(dt) }
            } else {
                PressState::JustReleased
            },
            PressState::JustReleased => if button_down {
                PressState::JustPressed
            } else {
                PressState::Unpressed
            },
        }
    }
}

/// Recompute press states for the entities whose touch state changed this
/// frame. Press state is a pure function of touch state and the button, so
/// entities with an unchanged touch state keep their press state.
pub fn detect_press(
    states: &mut Vec<PressState>,
    touch: &Vec<TouchState>,
    touch_changed: &Vec<bool>,
    button_down: bool,
    dt: u64,
)
    requires
        old(states)@.len() == touch@.len(),
        old(states)@.len() == touch_changed@.len(),
    ensures
        final(states)@.len() == old(states)@.len(),
        forall|i: int|
            0 <= i < old(states)@.len() ==> #[trigger] final(states)@[i] == if touch_changed@[i] {
                spec_press_next(
                    touch@[i] is JustTouched || touch@[i] is Touching,
                    old(states)@[i],
                    button_down,
                    dt,
                )
            } else {
                old(states)@[i]
            },
{
    let n: usize = states.len();
    let mut i: usize = 0;
    while i < n
        invariant
            i <= n,
            n == old(states)@.len(),
            states@.len() == n,
            touch@.len() == n,
            touch_changed@.len() == n,
            forall|k: int| i <= k < n ==> #[trigger] states@[k] == old(states)@[k],
            forall|k: int|
                0 <= k < i ==> #[trigger] states@[k] == if touch_changed@[k] {
                    spec_press_next(
                        touch@[k] is JustTouched || touch@[k] is Touching,
                        old(states)@[k],
                        button_down,
                        dt,
                    )
                } else {
                    old(states)@[k]
                },
        decreases n - i,
    {
        if touch_changed[i] {
            let touching = touch[i].is_touching();
            let next = press_next(touching, &states[i], button_down, dt);
            states.set(i, next);
        }
        i = i + 1;
    }
}

} // verus!
