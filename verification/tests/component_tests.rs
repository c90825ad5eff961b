use shader_reload::components::Renderable;
use shader_reload::components::SDFShapeType;
use shader_reload::components::Triangle;
use shader_reload::debug::Profiler;
use shader_reload::debug::ScopedProfiler;
use shader_reload::device::QueueFamilyIndices;
use shader_reload::hud;
use shader_reload::toolbar::ButtonState;
use shader_reload::toolbar::InteractionFeedback;
use shader_reload::toolbar::ToolbarPosition;

#[test]
fn test_renderable_new() {
    let renderable = Renderable { vertex_count: 3, index_count: 3 };
    assert_eq!(renderable.vertex_count, 3);
    assert_eq!(renderable.index_count, 3);
}

#[test]
fn test_marker_components() {
    assert_eq!(Triangle, Triangle);
    assert_eq!(SDFShapeType::Sphere, SDFShapeType::Sphere);
    assert_ne!(SDFShapeType::Sphere, SDFShapeType::Box);
}

#[test]
fn test_toolbar_enums() {
    assert_eq!(ButtonState::Normal, ButtonState::Normal);
    assert_ne!(ButtonState::Hovered, ButtonState::Disabled);
    assert_eq!(ToolbarPosition::Top, ToolbarPosition::Top);
    assert_ne!(InteractionFeedback::Success, InteractionFeedback::Error);
    assert_eq!(hud::ToolbarPosition::Top, hud::ToolbarPosition::Top);
}

#[test]
fn test_queue_family_indices() {
    let mut indices = QueueFamilyIndices::default();
    assert!(!indices.is_complete());
    indices.graphics_family = Some(0);
    assert!(!indices.is_complete());
    indices.present_family = Some(1);
    assert!(indices.is_complete());
}

#[test]
fn test_profiler_with_monitoring_off() {
    let mut profiler = Profiler::new();
    assert!(profiler.get_average_time("frame").is_none());

    // Performance monitoring is off in the debug configuration, so
    // sections record nothing and the summary stays empty.
    profiler.start_section("frame");
    profiler.end_section("frame");
    assert!(profiler.get_average_time("frame").is_none());
    assert!(profiler.print_summary().is_empty());

    let scope = ScopedProfiler::new(&mut profiler, "frame");
    scope.finish(&mut profiler);
    assert!(profiler.get_average_time("frame").is_none());
}
