//! Entity-component-system configuration.

use vstd::prelude::*;

verus! {

/// Maximum number of entities that can be created.
pub const MAX_ENTITIES: usize = 1000;

/// Enable entity tracking for debugging.
pub const ENABLE_ENTITY_TRACKING: bool = false;

/// Enable system performance profiling.
pub const ENABLE_SYSTEM_PROFILING: bool = false;

} // verus!
