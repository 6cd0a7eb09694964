//! The artifact intents.

use vstd::prelude::*;

verus! {

/// Operator and engineer mission report.
pub const REPORT: &'static str = "artifact.report";

/// Stakeholder slide deck.
pub const DECK: &'static str = "artifact.deck";

/// Self-contained replayable mini-map demo.
pub const DEMO: &'static str = "artifact.demo";

/// Inter-run comparison (settings deltas against outcome deltas).
pub const COMPARE: &'static str = "artifact.compare";

} // verus!
