use shader_reload::config::debug;
use shader_reload::config::debug::LogLevel;
use shader_reload::config::ecs;
use shader_reload::config::hot_reload;
use shader_reload::config::memory;
use shader_reload::config::shader;
use shader_reload::config::vulkan;
use shader_reload::config::window;

#[test]
fn test_window_config_constants() {
    assert_eq!(window::TITLE, "Vulkan App - ECS");
    assert_eq!(window::DEFAULT_WIDTH, 800);
    assert_eq!(window::DEFAULT_HEIGHT, 600);
    assert_eq!(window::MIN_WIDTH, 400);
    assert_eq!(window::MIN_HEIGHT, 300);
}

#[test]
fn test_vulkan_config_constants() {
    assert_eq!(vulkan::APP_NAME, "Vulkan App");
    assert_eq!(vulkan::ENGINE_NAME, "No Engine");
    assert_eq!(vulkan::MAX_FRAMES_IN_FLIGHT, 2);
    assert!(!vulkan::VALIDATION_LAYERS.is_empty());
    assert!(!vulkan::DEVICE_EXTENSIONS.is_empty());
}

#[test]
fn test_debug_config_constants() {
    assert!(debug::ENABLE_LOGGING);
    assert!(debug::ENABLE_VERBOSE_VULKAN_DEBUG);
    assert!(!debug::ENABLE_PERFORMANCE_MONITORING);
    assert!(debug::ENABLE_FRAME_TIME_TRACKING);
    assert_eq!(debug::LOG_LEVEL, LogLevel::Debug);
}

#[test]
fn test_ecs_config_constants() {
    assert_eq!(ecs::MAX_ENTITIES, 1000);
    assert!(!ecs::ENABLE_ENTITY_TRACKING);
    assert!(!ecs::ENABLE_SYSTEM_PROFILING);
}

#[test]
fn test_shader_config_constants() {
    assert_eq!(shader::ENTRY_POINT, *b"main\0");
}

#[test]
fn test_memory_config_constants() {
    assert_eq!(memory::BUFFER_ALIGNMENT, 256);
    assert_eq!(memory::ALLOCATION_CHUNK_SIZE, 64 * 1024 * 1024);
    assert!(!memory::ENABLE_MEMORY_DEBUGGING);
}

#[test]
fn test_vulkan_api_version() {
    let expected_version = ash::vk::make_api_version(0, 1, 0, 0);
    assert_eq!(vulkan::API_VERSION, expected_version);
    assert_eq!(vulkan::APP_VERSION, expected_version);
    assert_eq!(vulkan::ENGINE_VERSION, expected_version);
}

#[test]
fn test_validation_layers_config() {
    assert_eq!(vulkan::VALIDATION_LAYERS, ["VK_LAYER_KHRONOS_validation"]);
    assert_eq!(vulkan::DEVICE_EXTENSIONS, ["VK_KHR_swapchain"]);
}

#[test]
fn test_hot_reload_config_constants() {
    assert!(hot_reload::ENABLED);
    assert_eq!(hot_reload::SHADER_DIR, "shaders/");
    assert_eq!(hot_reload::MAX_PENDING_RELOADS, 10);
    assert_eq!(
        hot_reload::WATCH_EXTENSIONS,
        ["vert", "frag", "geom", "comp", "tesc", "tese"]
    );
}
