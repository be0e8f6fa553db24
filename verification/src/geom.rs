//! Points, hit boxes and axis-wise motion in fixed-point world units.
//!
//! Positions and extents are integers; one unit is a fixed sub-pixel
//! fraction chosen by the presentation layer. Durations elsewhere in the
//! crate are integer ticks.

use vstd::prelude::*;

verus! {

/// Largest coordinate magnitude the world uses. Keeping every position,
/// extent and pointer coordinate inside this range keeps all geometric
/// arithmetic far away from `i64` overflow.
pub const WORLD_MAX: i64 = 0x4000_0000_0000;

/// A 2D point or extent in world units.
#[derive(Clone, Copy, PartialEq, Eq, Structural, Debug)]
pub struct Vec2i {
    pub x: i64,
    pub y: i64,
}

/// The point lies inside the coordinate range of the world.
pub open spec fn in_world(p: Vec2i) -> bool {
    &&& -WORLD_MAX <= p.x <= WORLD_MAX
    &&& -WORLD_MAX <= p.y <= WORLD_MAX
}

/// An extent is valid when both measures are non-negative and in range.
pub open spec fn valid_extent(a: Vec2i) -> bool {
    &&& 0 <= a.x <= WORLD_MAX
    &&& 0 <= a.y <= WORLD_MAX
}

/// Axis-aligned box test: the point overlaps a box of extent `area`
/// centred at `center`. Each half-extent is `area / 2`, rounded down.
pub open spec fn spec_point_in_box(center: Vec2i, area: Vec2i, point: Vec2i) -> bool {
    &&& center.x - area.x / 2 <= point.x <= center.x + area.x / 2
    &&& center.y - area.y / 2 <= point.y <= center.y + area.y / 2
}

/// Whether `point` overlaps the box of extent `area` centred at `center`.
pub fn point_in_box(center: Vec2i, area: Vec2i, point: Vec2i) -> (r: bool)
    requires
        in_world(center),
        valid_extent(area),
        in_world(point),
    ensures
        r == spec_point_in_box(center, area, point),
{
    let hx: i64 = area.x / 2;
    let hy: i64 = area.y / 2;
    center.x - hx <= point.x && point.x <= center.x + hx && center.y - hy <= point.y && point.y
        <= center.y + hy
}

/// Tick counts accumulate and stop at the largest representable value
/// instead of wrapping.
pub open spec fn spec_saturating_add(a: u64, b: u64) -> u64 {
    if a + b > u64::MAX {
        u64::MAX
    } else {
        (a + b) as u64
    }
}

/// Distance between two coordinates on one axis.
pub open spec fn dist(a: int, b: int) -> int {
    if a >= b {
        a - b
    } else {
        b - a
    }
}

/// One settle step along one axis: move `pos` toward `target` by at most
/// `step`, landing exactly on `target` when it is within reach.
pub open spec fn axis_step(pos: int, target: int, step: int) -> int {
    if target >= pos {
        if target - pos <= step {
            target
        } else {
            pos + step
        }
    } else {
        if pos - target <= step {
            target
        } else {
            pos - step
        }
    }
}

/// `n` settle steps along one axis.
pub open spec fn axis_step_n(pos: int, target: int, step: int, n: nat) -> int
    decreases n,
{
    if n == 0 {
        pos
    } else {
        axis_step_n(axis_step(pos, target, step), target, step, (n - 1) as nat)
    }
}

/// Executable settle step along one axis; never overshoots the target.
pub fn step_toward(pos: i64, target: i64, step: i64) -> (r: i64)
    requires
        0 <= step,
        -WORLD_MAX <= pos <= WORLD_MAX,
        -WORLD_MAX <= target <= WORLD_MAX,
    ensures
        r == axis_step(pos as int, target as int, step as int),
        -WORLD_MAX <= r <= WORLD_MAX,
{
    if target >= pos {
        let d: i64 = target - pos;
        if d <= step {
            target
        } else {
            pos + step
        }
    } else {
        let d: i64 = pos - target;
        if d <= step {
            target
        } else {
            pos - step
        }
    }
}

/// Each settle step shortens the remaining distance by exactly `step`,
/// until the target is reached; it never overshoots and never drifts.
pub proof fn lemma_axis_step_progress(pos: int, target: int, step: int)
    requires
        0 <= step,
    ensures
        dist(axis_step(pos, target, step), target) == if dist(pos, target) <= step {
            0int
        } else {
            dist(pos, target) - step
        },
{
}

/// Settle convergence: starting `dist(pos, target)` away from the target
/// with a positive per-step speed, after any `n` steps with
/// `n * step >= dist(pos, target)` the position equals the target exactly.
pub proof fn lemma_settle_converges(pos: int, target: int, step: int, n: nat)
    requires
        1 <= step,
        dist(pos, target) <= n * step,
    ensures
        axis_step_n(pos, target, step, n) == target,
    decreases n,
{
    if n == 0 {
        assert(n * step == 0) by (nonlinear_arith)
            requires
                n == 0,
        ;
    } else {
        let next = axis_step(pos, target, step);
        lemma_axis_step_progress(pos, target, step);
        assert((n - 1) * step == n * step - step) by (nonlinear_arith);
        lemma_settle_converges(next, target, step, (n - 1) as nat);
    }
}

/// One settle step in the plane: each axis moves toward its target
/// coordinate independently.
pub open spec fn settle_step_xy(px: int, py: int, tx: int, ty: int, step: int) -> (int, int) {
    (axis_step(px, tx, step), axis_step(py, ty, step))
}

/// `n` settle steps in the plane.
pub open spec fn settle_step_xy_n(px: int, py: int, tx: int, ty: int, step: int, n: nat) -> (
    int,
    int,
)
    decreases n,
{
    if n == 0 {
        (px, py)
    } else {
        let s = settle_step_xy(px, py, tx, ty, step);
        settle_step_xy_n(s.0, s.1, tx, ty, step, (n - 1) as nat)
    }
}

/// Settle convergence in the plane: once `n * step` covers the distance
/// on each axis, `n` steps land exactly on the target — no overshoot and
/// no residual drift on either axis.
pub proof fn lemma_settle_converges_xy(px: int, py: int, tx: int, ty: int, step: int, n: nat)
    requires
        1 <= step,
        dist(px, tx) <= n * step,
        dist(py, ty) <= n * step,
    ensures
        settle_step_xy_n(px, py, tx, ty, step, n) == (tx, ty),
    decreases n,
{
    if n == 0 {
        assert(n * step == 0) by (nonlinear_arith)
            requires
                n == 0,
        ;
    } else {
        lemma_axis_step_progress(px, tx, step);
        lemma_axis_step_progress(py, ty, step);
        assert((n - 1) * step == n * step - step) by (nonlinear_arith);
        lemma_settle_converges_xy(
            axis_step(px, tx, step),
            axis_step(py, ty, step),
            tx,
            ty,
            step,
            (n - 1) as nat,
        );
    }
}

} // verus!
