//! Tooltips: when to show, grow and hide the tooltip of a touched entity.
//!
//! A tooltip appears once the pointer has both rested on its owner and
//! sat still long enough; while it stays, the view grows toward its full
//! extent; any frame that breaks either condition hides it again. The
//! spawning and drawing of views belongs to the presentation layer: the
//! state machine here only decides, and hands out commands.

use vstd::prelude::*;

use crate::geom::{valid_extent, Vec2i};
use crate::mouse::MouseState;
use crate::touch::TouchState;

verus! {

/// Ticks the pointer must rest on an entity, with the mouse still,
/// before its tooltip appears.
pub const TOOLTIP_APPEAR_AFTER: u64 = 500;

/// Ticks the view takes to grow from nothing to its full extent once it
/// has appeared.
pub const TOOLTIP_GROW_TICKS: u64 = 1000;

/// A tooltip an entity offers: its text and the view's full extent.
#[derive(Debug)]
pub struct Tooltip {
    pub text: String,
    pub area: Vec2i,
}

impl Tooltip {
    /// A tooltip with the given text and the default extent.
    pub fn with_text(text: &str) -> (r: Tooltip)
        ensures
            r.text@ == text@,
            r.area == (Vec2i { x: 128, y: 64 }),
    {
        Tooltip { text: text.to_owned(), area: Vec2i { x: 128, y: 64 } }
    }
}

/// Whether an entity's tooltip is on screen, and under which view id.
#[derive(Clone, Copy, PartialEq, Eq, Structural, Debug)]
pub enum TooltipState {
    Hidden,
    Visible(u64),
}

/// What the presentation layer should do for one tooltip this frame.
#[derive(Clone, Copy, PartialEq, Eq, Structural, Debug)]
pub enum TooltipCommand {
    Keep,
    Spawn(u64),
    Despawn(u64),
    Resize(u64, Vec2i),
}

/// Size of the growing view after resting `time` ticks: nothing until
/// the appearance threshold, the full extent once the growth time has
/// also passed, linear in between.
pub open spec fn spec_growth_size(area: Vec2i, time: u64) -> Vec2i {
    let p = if time <= TOOLTIP_APPEAR_AFTER {
        0int
    } else if time - TOOLTIP_APPEAR_AFTER >= TOOLTIP_GROW_TICKS {
        TOOLTIP_GROW_TICKS as int
    } else {
        time - TOOLTIP_APPEAR_AFTER
    };
    Vec2i {
        x: (area.x * p / (TOOLTIP_GROW_TICKS as int)) as i64,
        y: (area.y * p / (TOOLTIP_GROW_TICKS as int)) as i64,
    }
}

/// The smaller of the mouse's idle time and the touch duration: the view
/// grows only while both keep holding.
pub open spec fn spec_rest_time(duration: u64, idle: u64) -> u64 {
    if idle <= duration {
        idle
    } else {
        duration
    }
}

/// Transition of one entity's tooltip, given its touch state, the mouse
/// idle tracker and a fresh view id for the case a view must be spawned.
pub open spec fn spec_tooltip_step(
    touch: TouchState,
    prev: TooltipState,
    mouse: MouseState,
    area: Vec2i,
    fresh_id: u64,
) -> (TooltipState, TooltipCommand) {
    let idle_long_enough = (mouse matches MouseState::Idle { duration } && duration
        >= TOOLTIP_APPEAR_AFTER);
    match prev {
        TooltipState::Visible(v) => {
            if touch is Untouched || !idle_long_enough {
                (TooltipState::Hidden, TooltipCommand::Despawn(v))
            } else if touch is Touching {
                let duration = touch->Touching_duration;
                let idle = mouse->Idle_duration;
                (
                    prev,
                    TooltipCommand::Resize(v, spec_growth_size(area, spec_rest_time(duration, idle))),
                )
            } else {
                (prev, TooltipCommand::Keep)
            }
        },
        TooltipState::Hidden => {
            if (touch matches TouchState::Touching { duration } && duration >= TOOLTIP_APPEAR_AFTER)
                && idle_long_enough {
                (TooltipState::Visible(fresh_id), TooltipCommand::Spawn(fresh_id))
            } else {
                (prev, TooltipCommand::Keep)
            }
        },
    }
}

/// Advance one entity's tooltip for one frame, returning the command the
/// presentation layer should carry out. `fresh_id` is the view id to use
/// if a view must be spawned.
pub fn process_touch(
    touch: &TouchState,
    state: &mut TooltipState,
    mouse: &MouseState,
    area: Vec2i,
    fresh_id: u64,
) -> (command: TooltipCommand)
    requires
        valid_extent(area),
    ensures
        (*final(state), command) == spec_tooltip_step(*touch, *old(state), *mouse, area, fresh_id),
{
    let idle_long_enough: bool = mouse.is_idle_at_least(TOOLTIP_APPEAR_AFTER);
    match *state {
        TooltipState::Visible(v) => {
            let untouched: bool = matches!(*touch, TouchState::Untouched);
            if untouched || !idle_long_enough {
                *state = TooltipState::Hidden;
                TooltipCommand::Despawn(v)
            } else {
                match *touch {
                    TouchState::Touching { duration } => {
                        let idle: u64 = match mouse.idle_duration() {
                            Some(idle) => idle,
                            None => 0,
                        };
                        let time: u64 = if idle <= duration {
                            idle
                        } else {
                            duration
                        };
                        let p: i64 = if time <= TOOLTIP_APPEAR_AFTER {
                            0
                        } else if time - TOOLTIP_APPEAR_AFTER >= TOOLTIP_GROW_TICKS {
                            TOOLTIP_GROW_TICKS as i64
                        } else {
                            (time - TOOLTIP_APPEAR_AFTER) as i64
                        };
                        proof {
                            assert(0 <= area.x * p <= 0x4000000000000 * 1000) by (nonlinear_arith)
                                requires
                                    0 <= area.x <= 0x4000000000000,
                                    0 <= p <= 1000,
                            ;
                            assert(0 <= area.y * p <= 0x4000000000000 * 1000) by (nonlinear_arith)
                                requires
                                    0 <= area.y <= 0x4000000000000,
                                    0 <= p <= 1000,
                            ;
                        }
                        let size = Vec2i {
                            x: area.x * p / (TOOLTIP_GROW_TICKS as i64),
                            y: area.y * p / (TOOLTIP_GROW_TICKS as i64),
                        };
                        TooltipCommand::Resize(v, size)
                    },
                    _ => TooltipCommand::Keep,
                }
            }
        },
        TooltipState::Hidden => {
            let appear: bool = match *touch {
                TouchState::Touching { duration } => duration >= TOOLTIP_APPEAR_AFTER,
                _ => false,
            };
            if appear && idle_long_enough {
                *state = TooltipState::Visible(fresh_id);
                TooltipCommand::Spawn(fresh_id)
            } else {
                TooltipCommand::Keep
            }
        },
    }
}

/// The tooltip texts currently claimed, one per touched entity, in the
/// order they were claimed.
#[derive(Debug)]
pub struct Tooltips {
    pub text_by_entity: Vec<(u64, String)>,
}

impl Tooltips {
    /// Each entity claims at most one entry.
    pub open spec fn wf(self) -> bool {
        forall|i: int, j: int|
            0 <= i < j < self.text_by_entity@.len() ==> (#[trigger] self.text_by_entity@[i]).0 != (
            #[trigger] self.text_by_entity@[j]).0
    }

    /// An empty registry.
    pub fn new() -> (r: Self)
        ensures
            r.wf(),
            r.text_by_entity@.len() == 0,
    {
        Tooltips { text_by_entity: Vec::new() }
    }

    /// Claim or update the tooltip text of one entity.
    pub fn insert_tooltip(&mut self, entity: u64, tooltip: String)
        requires
            old(self).wf(),
        ensures
            final(self).wf(),
            (exists|j: int|
                0 <= j < old(self).text_by_entity@.len() && (#[trigger] old(
                    self,
                ).text_by_entity@[j]).0 == entity) ==> (exists|j: int|
                {
                    &&& 0 <= j < old(self).text_by_entity@.len()
                    &&& (#[trigger] old(self).text_by_entity@[j]).0 == entity
                    &&& final(self).text_by_entity@ == old(self).text_by_entity@.update(
                        j,
                        (entity, tooltip),
                    )
                }),
            !(exists|j: int|
                0 <= j < old(self).text_by_entity@.len() && (#[trigger] old(
                    self,
                ).text_by_entity@[j]).0 == entity) ==> final(self).text_by_entity@ == old(
                self,
            ).text_by_entity@.push((entity, tooltip)),
    {
        let n: usize = self.text_by_entity.len();
        let mut i: usize = 0;
        while i < n
            invariant
                i <= n,
                n == self.text_by_entity@.len(),
                old(self).wf(),
                *self == *old(self),
                forall|k: int| 0 <= k < i ==> (#[trigger] self.text_by_entity@[k]).0 != entity,
            decreases n - i,
        {
            if self.text_by_entity[i].0 == entity {
                self.text_by_entity.set(i, (entity, tooltip));
                proof {
                    let pre = old(self).text_by_entity@;
                    assert forall|a: int, b: int|
                        0 <= a < b < self.text_by_entity@.len() implies (
                    #[trigger] self.text_by_entity@[a]).0 != (
                    #[trigger] self.text_by_entity@[b]).0 by {
                        assert(pre[a].0 != pre[b].0);
                        assert(self.text_by_entity@[a].0 == pre[a].0);
                        assert(self.text_by_entity@[b].0 == pre[b].0);
                    }
                }
                return ;
            }
            i = i + 1;
        }
        self.text_by_entity.push((entity, tooltip));
    }

    /// Drop the tooltip text of one entity, if it had claimed one.
    pub fn remove_tooltip(&mut self, entity: u64)
        requires
            old(self).wf(),
        ensures
            final(self).wf(),
            (exists|j: int|
                0 <= j < old(self).text_by_entity@.len() && (#[trigger] old(
                    self,
                ).text_by_entity@[j]).0 == entity) ==> (exists|j: int|
                {
                    &&& 0 <= j < old(self).text_by_entity@.len()
                    &&& (#[trigger] old(self).text_by_entity@[j]).0 == entity
                    &&& final(self).text_by_entity@ == old(self).text_by_entity@.remove(j)
                }),
            !(exists|j: int|
                0 <= j < old(self).text_by_entity@.len() && (#[trigger] old(
                    self,
                ).text_by_entity@[j]).0 == entity) ==> final(self).text_by_entity@ == old(
                self,
            ).text_by_entity@,
    {
        let n: usize = self.text_by_entity.len();
        let mut i: usize = 0;
        while i < n
            invariant
                i <= n,
                n == self.text_by_entity@.len(),
                old(self).wf(),
                *self == *old(self),
                forall|k: int| 0 <= k < i ==> (#[trigger] self.text_by_entity@[k]).0 != entity,
            decreases n - i,
        {
            if self.text_by_entity[i].0 == entity {
                self.text_by_entity.remove(i);
                proof {
                    assert forall|a: int, b: int|
                        0 <= a < b < self.text_by_entity@.len() implies (
                    #[trigger] self.text_by_entity@[a]).0 != (
                    #[trigger] self.text_by_entity@[b]).0 by {
                        let pre = old(self).text_by_entity@;
                        if a < i {
                            assert(self.text_by_entity@[a] == pre[a]);
                        } else {
                            assert(self.text_by_entity@[a] == pre[a + 1]);
                        }
                        if b < i {
                            assert(self.text_by_entity@[b] == pre[b]);
                        } else {
                            assert(self.text_by_entity@[b] == pre[b + 1]);
                        }
                    }
                }
                return ;
            }
            i = i + 1;
        }
    }

    /// Some claimed text, if any entity has claimed one: the earliest
    /// claim wins.
    pub fn any(&self) -> (r: Option<&String>)
        ensures
            (match r {
                Some(s) => self.text_by_entity@.len() > 0 && s@ == self.text_by_entity@[0].1@,
                None => self.text_by_entity@.len() == 0,
            }),
    {
        if self.text_by_entity.len() > 0 {
            Some(&self.text_by_entity[0].1)
        } else {
            None
        }
    }
}

/// Keep the registry in step with one entity's touch state: a fresh
/// touch claims the entity's text, the pointer leaving drops it, and
/// anything else leaves the registry alone. Reports whether the view
/// needs a refresh.
pub fn tooltip_on_touch(
    tooltips: &mut Tooltips,
    entity: u64,
    text: String,
    touch: &TouchState,
) -> (needs_refresh: bool)
    requires
        old(tooltips).wf(),
    ensures
        final(tooltips).wf(),
        needs_refresh == (*touch is JustTouched || *touch is Untouched),
        *touch is JustTouched || *touch is Untouched || *final(tooltips) == *old(tooltips),
{
    match *touch {
        TouchState::JustTouched => {
            tooltips.insert_tooltip(entity, text);
            true
        },
        TouchState::Untouched => {
            tooltips.remove_tooltip(entity);
            true
        },
        TouchState::Touching { .. } => false,
    }
}

/// The text the tooltip view should show: the earliest claimed text, or
/// nothing when no entity is touched.
pub fn display_tooltip(tooltips: &Tooltips) -> (r: &str)
    ensures
        tooltips.text_by_entity@.len() > 0 ==> r@ == tooltips.text_by_entity@[0].1@,
        tooltips.text_by_entity@.len() == 0 ==> r@ == ""@,
{
    match tooltips.any() {
        Some(s) => s.as_str(),
        None => "",
    }
}

} // verus!
