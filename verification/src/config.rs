//! Configuration constants for the application, grouped by subsystem.

pub mod debug;
pub mod ecs;
pub mod hot_reload;
pub mod memory;
pub mod shader;
pub mod vulkan;
pub mod window;
