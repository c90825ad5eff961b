//! Error types for the application's subsystems.
//!
//! Each enum carries a message describing the failure; `message` renders
//! the same text the error would display, so callers can report it.

use vstd::prelude::*;
use vstd::string::StrSliceExecFns;
use vstd::string::StringExecFns;

verus! {

/// Relies on `std::io::Error` only as an opaque payload carried inside
/// `AppError::IO`; nothing is assumed about its contents.
#[verifier::external_type_specification]
#[verifier::external_body]
pub struct ExIoError(std::io::Error);

/// Graphics-API-specific errors.
#[derive(Debug)]
pub enum VulkanError {
    /// Instance creation failed.
    InstanceCreation(String),
    /// Device creation failed.
    DeviceCreation(String),
    /// Surface creation failed.
    SurfaceCreation(String),
    /// Swapchain creation failed.
    SwapchainCreation(String),
    /// Pipeline creation failed.
    PipelineCreation(String),
    /// Buffer creation failed.
    BufferCreation(String),
    /// Memory allocation failed.
    MemoryAllocation(String),
    /// Shader compilation failed.
    ShaderCompilation(String),
    /// Command buffer recording failed.
    CommandBuffer(String),
    /// Rendering failed.
    Rendering(String),
    /// Validation layer error.
    Validation(String),
}

/// Window-related errors.
#[derive(Debug)]
pub enum WindowError {
    /// Window creation failed.
    Creation(String),
    /// Event loop error.
    EventLoop(String),
    /// Surface handle error.
    SurfaceHandle(String),
}

/// Entity-component-system errors.
#[derive(Debug)]
pub enum EcsError {
    /// World initialization failed.
    WorldInitialization(String),
    /// System execution failed.
    SystemExecution(String),
    /// Resource access failed.
    ResourceAccess(String),
    /// Entity creation failed.
    EntityCreation(String),
}

/// Top-level error type for the application.
#[derive(Debug)]
pub enum AppError {
    /// Graphics-API-related errors.
    Vulkan(VulkanError),
    /// Window-related errors.
    Window(WindowError),
    /// Entity-component-system errors.
    ECS(EcsError),
    /// IO-related errors.
    IO(std::io::Error),
    /// Generic errors with custom messages.
    Generic(String),
}

/// Result type for the application's operations.
pub type AppResult<T> = Result<T, AppError>;

pub(crate) fn concat2(prefix: &str, rest: &str) -> (r: String)
    ensures
        r@ == prefix@ + rest@,
{
    let mut s = String::from_str(prefix);
    s.append(rest);
    s
}

impl VulkanError {
    /// The text this error displays.
    pub open spec fn spec_message(&self) -> Seq<char> {
        match self {
            VulkanError::InstanceCreation(m) => "Instance creation failed: "@ + m@,
            VulkanError::DeviceCreation(m) => "Device creation failed: "@ + m@,
            VulkanError::SurfaceCreation(m) => "Surface creation failed: "@ + m@,
            VulkanError::SwapchainCreation(m) => "Swapchain creation failed: "@ + m@,
            VulkanError::PipelineCreation(m) => "Pipeline creation failed: "@ + m@,
            VulkanError::BufferCreation(m) => "Buffer creation failed: "@ + m@,
            VulkanError::MemoryAllocation(m) => "Memory allocation failed: "@ + m@,
            VulkanError::ShaderCompilation(m) => "Shader compilation failed: "@ + m@,
            VulkanError::CommandBuffer(m) => "Command buffer error: "@ + m@,
            VulkanError::Rendering(m) => "Rendering error: "@ + m@,
            VulkanError::Validation(m) => "Validation layer error: "@ + m@,
        }
    }

    /// Render the error as display text.
    pub fn message(&self) -> (r: String)
        ensures
            r@ == self.spec_message(),
    {
        match self {
            VulkanError::InstanceCreation(m) => concat2("Instance creation failed: ", m.as_str()),
            VulkanError::DeviceCreation(m) => concat2("Device creation failed: ", m.as_str()),
            VulkanError::SurfaceCreation(m) => concat2("Surface creation failed: ", m.as_str()),
            VulkanError::SwapchainCreation(m) => concat2("Swapchain creation failed: ", m.as_str()),
            VulkanError::PipelineCreation(m) => concat2("Pipeline creation failed: ", m.as_str()),
            VulkanError::BufferCreation(m) => concat2("Buffer creation failed: ", m.as_str()),
            VulkanError::MemoryAllocation(m) => concat2("Memory allocation failed: ", m.as_str()),
            VulkanError::ShaderCompilation(m) => concat2("Shader compilation failed: ", m.as_str()),
            VulkanError::CommandBuffer(m) => concat2("Command buffer error: ", m.as_str()),
            VulkanError::Rendering(m) => concat2("Rendering error: ", m.as_str()),
            VulkanError::Validation(m) => concat2("Validation layer error: ", m.as_str()),
        }
    }
}

impl WindowError {
    /// The text this error displays.
    pub open spec fn spec_message(&self) -> Seq<char> {
        match self {
            WindowError::Creation(m) => "Window creation failed: "@ + m@,
            WindowError::EventLoop(m) => "Event loop error: "@ + m@,
            WindowError::SurfaceHandle(m) => "Surface handle error: "@ + m@,
        }
    }

    /// Render the error as display text.
    pub fn message(&self) -> (r: String)
        ensures
            r@ == self.spec_message(),
    {
        match self {
            WindowError::Creation(m) => concat2("Window creation failed: ", m.as_str()),
            WindowError::EventLoop(m) => concat2("Event loop error: ", m.as_str()),
            WindowError::SurfaceHandle(m) => concat2("Surface handle error: ", m.as_str()),
        }
    }
}

impl EcsError {
    /// The text this error displays.
    pub open spec fn spec_message(&self) -> Seq<char> {
        match self {
            EcsError::WorldInitialization(m) => "World initialization failed: "@ + m@,
            EcsError::SystemExecution(m) => "System execution failed: "@ + m@,
            EcsError::ResourceAccess(m) => "Resource access failed: "@ + m@,
            EcsError::EntityCreation(m) => "Entity creation failed: "@ + m@,
        }
    }

    /// Render the error as display text.
    pub fn message(&self) -> (r: String)
        ensures
            r@ == self.spec_message(),
    {
        match self {
            EcsError::WorldInitialization(m) => concat2("World initialization failed: ", m.as_str()),
            EcsError::SystemExecution(m) => concat2("System execution failed: ", m.as_str()),
            EcsError::ResourceAccess(m) => concat2("Resource access failed: ", m.as_str()),
            EcsError::EntityCreation(m) => concat2("Entity creation failed: ", m.as_str()),
        }
    }
}

/// Relies on `std::io::Error`'s display implementation for the text of
/// an IO failure; nothing is assumed about the resulting string.
#[verifier::external_body]
fn io_error_text(e: &std::io::Error) -> String {
    format!("{}", e)
}

impl AppError {
    /// Whether the full display text of this error is pinned down by
    /// `spec_message`; only the IO variant's text depends on the
    /// carried IO error.
    pub open spec fn has_exact_message(&self) -> bool {
        !(self is IO)
    }

    /// The text this error displays, for all variants but `IO`.
    pub open spec fn spec_message(&self) -> Seq<char> {
        match self {
            AppError::Vulkan(e) => "Vulkan error: "@ + e.spec_message(),
            AppError::Window(e) => "Window error: "@ + e.spec_message(),
            AppError::ECS(e) => "ECS error: "@ + e.spec_message(),
            AppError::IO(_) => "IO error: "@,
            AppError::Generic(m) => "Error: "@ + m@,
        }
    }

    /// Render the error as display text. An `IO` error's text starts
    /// with the `IO error: ` prefix and continues with the underlying
    /// error's own text.
    pub fn message(&self) -> (r: String)
        ensures
            self.has_exact_message() ==> r@ == self.spec_message(),
            self is IO ==> r@.len() >= self.spec_message().len() && r@.subrange(
                0,
                self.spec_message().len() as int,
            ) == self.spec_message(),
    {
        match self {
            AppError::Vulkan(e) => concat2("Vulkan error: ", e.message().as_str()),
            AppError::Window(e) => concat2("Window error: ", e.message().as_str()),
            AppError::ECS(e) => concat2("ECS error: ", e.message().as_str()),
            AppError::IO(e) => {
                let r = concat2("IO error: ", io_error_text(e).as_str());
                proof {
                    assert(r@.subrange(0, "IO error: "@.len() as int) =~= "IO error: "@);
                }
                r
            },
            AppError::Generic(m) => concat2("Error: ", m.as_str()),
        }
    }
}

impl From<VulkanError> for AppError {
    /// Wrap a graphics error.
    fn from(err: VulkanError) -> (r: AppError) {
        AppError::Vulkan(err)
    }
}

impl vstd::std_specs::convert::FromSpecImpl<VulkanError> for AppError {
    open spec fn obeys_from_spec() -> bool {
        true
    }

    open spec fn from_spec(err: VulkanError) -> AppError {
        AppError::Vulkan(err)
    }
}

impl From<WindowError> for AppError {
    /// Wrap a window error.
    fn from(err: WindowError) -> (r: AppError) {
        AppError::Window(err)
    }
}

impl vstd::std_specs::convert::FromSpecImpl<WindowError> for AppError {
    open spec fn obeys_from_spec() -> bool {
        true
    }

    open spec fn from_spec(err: WindowError) -> AppError {
        AppError::Window(err)
    }
}

impl From<EcsError> for AppError {
    /// Wrap an entity-component-system error.
    fn from(err: EcsError) -> (r: AppError) {
        AppError::ECS(err)
    }
}

impl vstd::std_specs::convert::FromSpecImpl<EcsError> for AppError {
    open spec fn obeys_from_spec() -> bool {
        true
    }

    open spec fn from_spec(err: EcsError) -> AppError {
        AppError::ECS(err)
    }
}

impl From<std::io::Error> for AppError {
    /// Wrap an IO error.
    fn from(err: std::io::Error) -> (r: AppError) {
        AppError::IO(err)
    }
}

impl vstd::std_specs::convert::FromSpecImpl<std::io::Error> for AppError {
    open spec fn obeys_from_spec() -> bool {
        true
    }

    open spec fn from_spec(err: std::io::Error) -> AppError {
        AppError::IO(err)
    }
}

} // verus!
