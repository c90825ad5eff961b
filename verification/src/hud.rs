//! Placement options for the heads-up display.

use vstd::prelude::*;

verus! {

/// Toolbar position options.
#[derive(Clone, Copy, Debug, PartialEq, Eq, Structural)]
pub enum ToolbarPosition {
    Top,
    Bottom,
    Left,
    Right,
}

} // verus!
