//! Native renderer ids that the render contract dispatches through. A
//! renderer id never names an application.

use vstd::prelude::*;

verus! {

/// Renders the report lens.
pub const REPORT: &'static str = "artifact.render.report";

/// Renders the deck lens.
pub const DECK: &'static str = "artifact.render.deck";

/// Renders the demo lens.
pub const DEMO: &'static str = "artifact.render.demo";

/// Renders the comparison lens.
pub const COMPARE: &'static str = "artifact.render.compare";

} // verus!
