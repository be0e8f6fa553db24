//! Core of a small grid-and-cards puzzle game, with its behaviour stated
//! in contracts and proved.
//!
//! The player drags tiles of a coloured grid to swap them, within a
//! per-round move limit, and casts cards whose requirements — expected
//! colours at grid slots — are evaluated against the live grid; matched
//! tiles become staggered damage effects against an enemy. The crate
//! holds the interaction and game-state core: the touch and press
//! detectors, the grid engine with its slot-table invariant, requirement
//! evaluation, the cast sequencer with its delayed message pool, and the
//! highlight and tooltip state. Positions are fixed-point world units and
//! durations integer ticks; rendering, windowing and assets belong to a
//! presentation layer that consumes the requests these types emit.

pub mod card;
pub mod cast;
pub mod geom;
pub mod grid;
pub mod grid_highlight;
pub mod healthbar;
pub mod mouse;
pub mod press;
mod rng;
pub mod score;
pub mod tooltip;
pub mod touch;
