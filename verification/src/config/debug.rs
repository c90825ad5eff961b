//! Debug and logging configuration.

use vstd::prelude::*;

verus! {

/// Log severity levels recognised by the application's logging setup.
#[derive(Clone, Copy, Debug, PartialEq, Eq, Structural)]
pub enum LogLevel {
    Off,
    Error,
    Warn,
    Info,
    Debug,
    Trace,
}

/// Enable debug logging.
pub const ENABLE_LOGGING: bool = true;

/// Minimum log level to display.
pub const LOG_LEVEL: LogLevel = LogLevel::Debug;

/// Enable verbose graphics-API debug messages.
pub const ENABLE_VERBOSE_VULKAN_DEBUG: bool = true;

/// Enable performance monitoring.
pub const ENABLE_PERFORMANCE_MONITORING: bool = false;

/// Enable frame time tracking.
pub const ENABLE_FRAME_TIME_TRACKING: bool = true;

} // verus!
