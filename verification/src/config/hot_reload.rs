//! Shader hot-reload configuration.

use vstd::prelude::*;

verus! {

/// Enable hot reload by default.
pub const ENABLED: bool = true;

/// Shader directory watched for changes.
pub const SHADER_DIR: &'static str = "shaders/";

/// Debounce interval for file change events, in milliseconds.
pub const DEBOUNCE_MS: u64 = 100;

/// File extensions watched for shader changes.
pub const WATCH_EXTENSIONS: [&'static str; 6] = ["vert", "frag", "geom", "comp", "tesc", "tese"];

/// Maximum number of reload requests held pending; older ones are dropped.
pub const MAX_PENDING_RELOADS: usize = 10;

/// Reload vertex shaders on change.
pub const RELOAD_VERTEX_SHADERS: bool = true;

/// Reload fragment shaders on change.
pub const RELOAD_FRAGMENT_SHADERS: bool = true;

/// Reload geometry shaders on change.
pub const RELOAD_GEOMETRY_SHADERS: bool = true;

/// Reload compute shaders on change.
pub const RELOAD_COMPUTE_SHADERS: bool = true;

/// Reload tessellation shaders on change.
pub const RELOAD_TESSELLATION_SHADERS: bool = true;

} // verus!
