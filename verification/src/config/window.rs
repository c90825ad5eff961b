//! Window configuration.

use vstd::prelude::*;

verus! {

/// Default window width in pixels.
pub const DEFAULT_WIDTH: u32 = 800;

/// Default window height in pixels.
pub const DEFAULT_HEIGHT: u32 = 600;

/// Window title.
pub const TITLE: &'static str = "Vulkan App - ECS";

/// Minimum window width.
pub const MIN_WIDTH: u32 = 400;

/// Minimum window height.
pub const MIN_HEIGHT: u32 = 300;

} // verus!
