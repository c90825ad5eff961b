//! Shader hot-reload and pipeline lifecycle core.
//!
//! The library watches shader source files for changes, debounces and
//! classifies the change events, queues the resulting reload requests,
//! compiles shader sources with a content-addressed cache, and replaces
//! the live pipeline state atomically at frame-safe points. File and
//! directory access, the subscription to the operating system's change
//! notifications, and the GLSL backend invocation are the embedding
//! application's part; the library holds the state and the rules.

pub mod components;
pub mod config;
pub mod debug;
pub mod device;
pub mod error;
pub mod hot_reload;
pub mod hud;
pub mod pipeline;
pub mod shader_compiler;
pub mod shader_watcher;
pub mod stage;
pub mod toolbar;
