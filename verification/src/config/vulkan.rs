//! Graphics API configuration.

use vstd::prelude::*;

verus! {

/// Maximum number of frames that can be in flight.
pub const MAX_FRAMES_IN_FLIGHT: usize = 2;

/// Application name reported to the graphics driver.
pub const APP_NAME: &'static str = "Vulkan App";

/// Engine name reported to the graphics driver.
pub const ENGINE_NAME: &'static str = "No Engine";

/// Application version, packed as variant/major/minor/patch (1.0.0).
pub const APP_VERSION: u32 = 1u32 << 22;

/// Engine version, packed as variant/major/minor/patch (1.0.0).
pub const ENGINE_VERSION: u32 = 1u32 << 22;

/// API version, packed as variant/major/minor/patch (1.0.0).
pub const API_VERSION: u32 = 1u32 << 22;

/// Enable validation layers.
pub const ENABLE_VALIDATION_LAYERS: bool = true;

/// Validation layers to enable.
pub const VALIDATION_LAYERS: [&'static str; 1] = ["VK_LAYER_KHRONOS_validation"];

/// Device extensions required.
pub const DEVICE_EXTENSIONS: [&'static str; 1] = ["VK_KHR_swapchain"];

} // verus!
