//! Interaction states of the developer toolbar.

use vstd::prelude::*;

verus! {

/// Button interaction states.
#[derive(Clone, Copy, Debug, PartialEq, Eq, Structural)]
pub enum ButtonState {
    Normal,
    Hovered,
    Active,
    Disabled,
}

/// Toolbar position and layout.
#[derive(Clone, Copy, Debug, PartialEq, Eq, Structural)]
pub enum ToolbarPosition {
    Top,
    Bottom,
    Left,
    Right,
}

/// Types of interaction feedback for buttons.
#[derive(Clone, Copy, Debug, PartialEq, Eq, Structural)]
pub enum InteractionFeedback {
    Success,
    Error,
    Warning,
}

} // verus!
