//! Enemy health.
//!
//! Health is a plain counter; damage stops at zero rather than wrapping
//! below it. Drawing the bar belongs to the presentation layer.

use vstd::prelude::*;

verus! {

/// Current health of a damageable entity.
#[derive(Clone, Copy, PartialEq, Eq, Structural, Debug)]
pub struct Health(pub u64);

/// Health the entity spawned with.
#[derive(Clone, Copy, PartialEq, Eq, Structural, Debug)]
pub struct MaxHealth(pub u64);

/// Damage lands in full until health is exhausted, then stops at zero.
pub open spec fn spec_apply_damage(health: u64, damage: u64) -> u64 {
    if damage <= health {
        (health - damage) as u64
    } else {
        0
    }
}

impl Health {
    /// Subtract `damage`, stopping at zero.
    pub fn apply_damage(&mut self, damage: u64)
        ensures
            final(self).0 == spec_apply_damage(old(self).0, damage),
    {
        if damage <= self.0 {
            self.0 = self.0 - damage;
        } else {
            self.0 = 0;
        }
    }
}

} // verus!
