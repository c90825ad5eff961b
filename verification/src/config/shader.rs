//! Shader configuration.

use vstd::prelude::*;

verus! {

/// Shader entry point name, NUL-terminated for the graphics driver.
pub const ENTRY_POINT: [u8; 5] = [109, 97, 105, 110, 0];

/// Entry point function name as passed to the shader compiler.
pub const ENTRY_POINT_NAME: &'static str = "main";

} // verus!
