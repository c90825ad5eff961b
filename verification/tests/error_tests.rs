use shader_reload::error::AppError;
use shader_reload::error::AppResult;
use shader_reload::error::EcsError;
use shader_reload::error::VulkanError;
use shader_reload::error::WindowError;

#[test]
fn test_app_error_display() {
    let vulkan_err = VulkanError::InstanceCreation("Failed to create instance".to_string());
    let app_err = AppError::Vulkan(vulkan_err);

    let display_str = app_err.message();
    assert_eq!(
        display_str,
        "Vulkan error: Instance creation failed: Failed to create instance"
    );
}

#[test]
fn test_app_error_from_io_error() {
    let io_err = std::io::Error::new(std::io::ErrorKind::NotFound, "File not found");
    let app_err: AppError = io_err.into();

    match app_err {
        AppError::IO(_) => {} // Expected
        _ => panic!("Expected IO error"),
    }
}

#[test]
fn test_app_error_from_vulkan_error() {
    let vulkan_err = VulkanError::DeviceCreation("Device creation failed".to_string());
    let app_err: AppError = vulkan_err.into();

    match app_err {
        AppError::Vulkan(VulkanError::DeviceCreation(msg)) => {
            assert_eq!(msg, "Device creation failed");
        }
        _ => panic!("Expected Vulkan error with DeviceCreation variant"),
    }
}

#[test]
fn test_app_error_from_ecs_error() {
    let ecs_err = EcsError::EntityCreation("Failed to create entity".to_string());
    let app_err: AppError = ecs_err.into();

    match app_err {
        AppError::ECS(EcsError::EntityCreation(msg)) => {
            assert_eq!(msg, "Failed to create entity");
        }
        _ => panic!("Expected ECS error"),
    }
}

#[test]
fn test_app_error_from_window_error() {
    let window_err = WindowError::Creation("Window creation failed".to_string());
    let app_err: AppError = window_err.into();

    match app_err {
        AppError::Window(WindowError::Creation(msg)) => {
            assert_eq!(msg, "Window creation failed");
        }
        _ => panic!("Expected Window error"),
    }
}

#[test]
fn test_result_type_alias() {
    let ok_result: AppResult<String> = Ok("success".to_string());
    assert!(ok_result.is_ok());

    let err_result: AppResult<String> = Err(AppError::Generic("error".to_string()));
    assert!(err_result.is_err());
}

#[test]
fn test_io_error_message_prefix() {
    let io_err = std::io::Error::new(std::io::ErrorKind::NotFound, "File not found");
    let app_err: AppError = io_err.into();
    assert!(app_err.message().starts_with("IO error: "));
}

#[test]
fn test_error_messages_by_variant() {
    let e = AppError::Window(WindowError::EventLoop("boom".to_string()));
    assert_eq!(e.message(), "Window error: Event loop error: boom");
    let e = AppError::ECS(EcsError::ResourceAccess("no such resource".to_string()));
    assert_eq!(e.message(), "ECS error: Resource access failed: no such resource");
    let e = AppError::Generic("odd".to_string());
    assert_eq!(e.message(), "Error: odd");
    let e = VulkanError::PipelineCreation("driver refused".to_string());
    assert_eq!(e.message(), "Pipeline creation failed: driver refused");
}
