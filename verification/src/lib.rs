//! Per-turn move resolution for a bot on a toroidal grid board.
//!
//! Each cell of the board has an owner, a strength and a production value.
//! Once per turn the engine classifies every owned cell by the pattern of
//! friendly cells in its 8-neighborhood, selects a move for each tactical
//! role, and gates every move through a strength budget so that friendly
//! forces never combine beyond the strength cap.  A greedy capture resolver
//! replaces the role pipeline while the owned-unit count is small.

pub mod budget;
pub mod classify;
pub mod grid;
pub mod moves;
pub mod scorer;
pub mod strategy;

use vstd::prelude::*;

verus! {

/// The game engine discards any strength above this cap when forces combine.
pub const STRENGTH_CAP: u16 = 255;

/// Soft tolerance above the cap that the budget gate accepts, so that
/// full-strength cells are not frozen by their own production.
pub const CAP_SOFT_MARGIN: u16 = 5;

/// The value the budget gate actually enforces: cap plus soft margin.
pub const CAP_LIMIT: u16 = STRENGTH_CAP + CAP_SOFT_MARGIN;

/// A cell whose strength is below this multiple of its own production is
/// too weak to move under the role pipeline and the local scorer.
pub const WEAK_UNIT_FACTOR: u16 = 5;

/// A cell whose strength is at or below this multiple of its own
/// production is too weak to join the greedy capture resolver.
pub const CAPTURE_WEAK_FACTOR: u16 = 3;

/// A cell is a point of interest when it is not owned and its production
/// reaches this multiple of the board's mean production.
pub const POI_PRODUCTION_FACTOR: u16 = 2;

/// Below this many owned cells the greedy capture resolver replaces the
/// role-based pipeline for the turn.
pub const GREEDY_UNIT_THRESHOLD: usize = 20;

} // verus!
