//! Pointer position and idle tracking.
//!
//! The mouse is `Moving` on any frame that saw a cursor-move event and
//! otherwise `Idle`, accumulating how long it has sat still. Tooltips use
//! the idle duration to decide when to appear.

use vstd::prelude::*;

use crate::geom::{spec_saturating_add, Vec2i};

verus! {

/// Current pointer position in world units.
#[derive(Clone, Copy, PartialEq, Eq, Structural, Debug)]
pub struct MousePosition(pub Vec2i);

/// Whether the mouse moved this frame, and for how many ticks it has been
/// still otherwise.
#[derive(Clone, Copy, PartialEq, Eq, Structural, Debug)]
pub enum MouseState {
    Moving,
    Idle { duration: u64 },
}

impl MouseState {
    /// The mouse has sat still for at least `time` ticks.
    pub fn is_idle_at_least(&self, time: u64) -> (r: bool)
        ensures
            r == (*self matches MouseState::Idle { duration } && duration >= time),
    {
        match *self {
            MouseState::Idle { duration } => duration >= time,
            MouseState::Moving => false,
        }
    }

    /// How long the mouse has sat still, if it is idle.
    pub fn idle_duration(&self) -> (r: Option<u64>)
        ensures
            r == (match *self {
                MouseState::Idle { duration } => Some(duration),
                MouseState::Moving => None::<u64>,
            }),
    {
        match *self {
            MouseState::Idle { duration } => Some(duration),
            MouseState::Moving => None,
        }
    }
}

/// Transition of the idle tracker: a frame with a cursor move makes the
/// mouse `Moving`; a quiet frame starts or extends the idle period.
pub open spec fn spec_mouse_next(prev: MouseState, moved: bool, dt: u64) -> MouseState {
    if moved {
        MouseState::Moving
    } else {
        match prev {
            MouseState::Moving => MouseState::Idle { duration: dt },
            MouseState::Idle { duration } => MouseState::Idle {
                duration: spec_saturating_add(duration, dt),
            },
        }
    }
}

/// Advance the idle tracker by one frame.
pub fn on_mouse_move(state: &mut MouseState, moved: bool, dt: u64)
    ensures
        *final(state) == spec_mouse_next(*old(state), moved, dt),
{
    if moved {
        *state = MouseState::Moving;
    } else {
        match *state {
            MouseState::Moving => {
                *state = MouseState::Idle { duration: dt };
            },
            MouseState::Idle { duration } => {
                *state = MouseState::Idle { duration: duration.saturating_add(dt) };
            },
        }
    }
}

} // verus!
