use shader_reload::error::AppError;
use shader_reload::error::VulkanError;
use shader_reload::hot_reload::HotReloadManager;
use shader_reload::hot_reload::ReloadOutcome;
use shader_reload::hot_reload::ReloadQueue;
use shader_reload::hot_reload::ShaderReloadRequest;
use shader_reload::pipeline::PipelineState;
use shader_reload::shader_watcher::FileObservation;
use shader_reload::shader_watcher::HotReloadConfig;
use shader_reload::stage::ShaderStage;

fn request(path: &str, kind: ShaderStage) -> ShaderReloadRequest {
    ShaderReloadRequest {
        shader_path: path.to_string(),
        shader_kind: kind,
    }
}

fn config(enabled: bool) -> HotReloadConfig {
    let mut config = HotReloadConfig::default();
    config.enabled = enabled;
    config
}

#[test]
fn test_queue_backpressure() {
    let mut queue = ReloadQueue::new(10);
    // Push capacity + 5 distinct requests.
    for i in 0..15u32 {
        let path = format!("shaders/s{}.frag", i);
        queue.push(request(&path, ShaderStage::Fragment));
    }
    assert_eq!(queue.len(), 10);
    let drained = queue.drain();
    assert_eq!(drained.len(), 10);
    // Exactly the most recent ten remain, oldest dropped first.
    for (k, req) in drained.iter().enumerate() {
        let expected = format!("shaders/s{}.frag", k + 5);
        assert_eq!(req.shader_path, expected);
    }
    assert_eq!(queue.len(), 0);
}

#[test]
fn test_queue_push_reports_eviction() {
    let mut queue = ReloadQueue::new(2);
    assert!(!queue.push(request("a.frag", ShaderStage::Fragment)));
    assert!(!queue.push(request("b.frag", ShaderStage::Fragment)));
    assert!(queue.push(request("c.frag", ShaderStage::Fragment)));
    let drained = queue.drain();
    assert_eq!(drained[0].shader_path, "b.frag");
    assert_eq!(drained[1].shader_path, "c.frag");
}

#[test]
fn test_failure_isolation() {
    let mut manager = HotReloadManager::new(config(false));
    let mut pipeline = PipelineState::new();
    pipeline.set_stage(ShaderStage::Vertex, vec![1]);
    pipeline.set_stage(ShaderStage::Fragment, vec![2]);
    pipeline.set_stage(ShaderStage::Geometry, vec![3]);
    manager.initialize(pipeline).unwrap();

    // A batch of three: the middle request's source failed to compile.
    let outcomes = vec![
        ReloadOutcome {
            shader_path: "shaders/a.vert".to_string(),
            shader_kind: ShaderStage::Vertex,
            compiled: Some(vec![10, 11]),
        },
        ReloadOutcome {
            shader_path: "shaders/b.frag".to_string(),
            shader_kind: ShaderStage::Fragment,
            compiled: None,
        },
        ReloadOutcome {
            shader_path: "shaders/c.geom".to_string(),
            shader_kind: ShaderStage::Geometry,
            compiled: Some(vec![30, 31]),
        },
    ];
    let swapped = manager.process_pending_reloads(&outcomes).unwrap();
    assert!(swapped);

    let current = manager.current_pipeline().unwrap();
    // Requests 1 and 3 are incorporated despite request 2's failure.
    assert_eq!(current.stage_words(ShaderStage::Vertex).unwrap(), &vec![10, 11]);
    assert_eq!(current.stage_words(ShaderStage::Geometry).unwrap(), &vec![30, 31]);
    // The failed stage keeps its previous, still-working binary.
    assert_eq!(current.stage_words(ShaderStage::Fragment).unwrap(), &vec![2]);
    assert_eq!(current.generation, 1);
}

#[test]
fn test_pipeline_swap_atomicity() {
    let mut manager = HotReloadManager::new(config(false));
    let mut pipeline = PipelineState::new();
    pipeline.set_stage(ShaderStage::Fragment, vec![2]);
    manager.initialize(pipeline).unwrap();

    // A read between operations always sees a complete state: the old
    // one before the swap, the new one after, never a partial one.
    let before = manager.current_pipeline().unwrap();
    let generation_before = before.generation;
    assert_eq!(before.stage_words(ShaderStage::Fragment).unwrap(), &vec![2]);

    // A batch with no successful compile swaps nothing.
    let failed = vec![ReloadOutcome {
        shader_path: "shaders/b.frag".to_string(),
        shader_kind: ShaderStage::Fragment,
        compiled: None,
    }];
    assert!(!manager.process_pending_reloads(&failed).unwrap());
    let unchanged = manager.current_pipeline().unwrap();
    assert_eq!(unchanged.generation, generation_before);
    assert_eq!(unchanged.stage_words(ShaderStage::Fragment).unwrap(), &vec![2]);

    // A successful batch swaps to the complete new state.
    let ok = vec![ReloadOutcome {
        shader_path: "shaders/b.frag".to_string(),
        shader_kind: ShaderStage::Fragment,
        compiled: Some(vec![20]),
    }];
    assert!(manager.process_pending_reloads(&ok).unwrap());
    let after = manager.current_pipeline().unwrap();
    assert_eq!(after.generation, generation_before + 1);
    assert_eq!(after.stage_words(ShaderStage::Fragment).unwrap(), &vec![20]);
}

#[test]
fn test_clean_reload() {
    let mut manager = HotReloadManager::new(config(true));
    // The watch directory holds a.frag, compiled from content X.
    let binary_from_x = vec![100, 101];
    let mut pipeline = PipelineState::new();
    pipeline.set_stage(ShaderStage::Fragment, binary_from_x.clone());
    manager.initialize(pipeline).unwrap();

    manager.reload_shader("shaders/a.frag").unwrap();
    assert_eq!(manager.pending_reload_count(), 1);

    let batch = manager.drain_pending_reloads();
    assert_eq!(batch.len(), 1);
    assert_eq!(batch[0].shader_path, "shaders/a.frag");
    assert!(matches!(batch[0].shader_kind, ShaderStage::Fragment));

    // The file now holds new content; its fresh compile differs.
    let outcomes = vec![ReloadOutcome {
        shader_path: "shaders/a.frag".to_string(),
        shader_kind: ShaderStage::Fragment,
        compiled: Some(vec![200, 201]),
    }];
    let swapped = manager.process_pending_reloads(&outcomes).unwrap();
    assert!(swapped);
    assert!(manager.check_and_clear_reloads_occurred());
    assert!(!manager.check_and_clear_reloads_occurred());

    let current = manager.current_pipeline().unwrap();
    let fragment = current.stage_words(ShaderStage::Fragment).unwrap();
    assert_ne!(fragment, &binary_from_x);
    assert_eq!(fragment, &vec![200, 201]);
}

#[test]
fn test_stage_extension_mapping() {
    let mut manager = HotReloadManager::new(config(true));
    manager.initialize(PipelineState::new()).unwrap();

    let cases = [
        ("x.vert", ShaderStage::Vertex),
        ("x.frag", ShaderStage::Fragment),
        ("x.comp", ShaderStage::Compute),
        ("x.geom", ShaderStage::Geometry),
        ("x.tesc", ShaderStage::TessControl),
        ("x.tese", ShaderStage::TessEvaluation),
    ];
    for (path, expected) in cases.iter() {
        manager.reload_shader(path).unwrap();
        let batch = manager.drain_pending_reloads();
        assert_eq!(batch.len(), 1, "{} should queue one request", path);
        assert_eq!(batch[0].shader_kind, *expected);
    }

    // An unrecognised extension is an unsupported stage and produces
    // no queue entry.
    match manager.reload_shader("x.glsl") {
        Err(AppError::Vulkan(VulkanError::ShaderCompilation(m))) => {
            assert_eq!(m, "Unsupported shader extension: glsl");
        }
        _ => panic!("Expected an unsupported-stage error"),
    }
    assert_eq!(manager.pending_reload_count(), 0);
}

#[test]
fn test_disabled_hot_reload() {
    // Constructed with hot reload disabled: no watcher exists, so no
    // filesystem event produces a queue entry.
    let mut manager = HotReloadManager::new(config(false));
    manager.initialize(PipelineState::new()).unwrap();
    assert!(!manager.is_enabled());

    let change = vec![FileObservation {
        path: "shaders/a.frag".to_string(),
        mtime_ms: Some(1000),
    }];
    manager.handle_file_event(&change);
    assert_eq!(manager.pending_reload_count(), 0);
    assert_eq!(manager.get_stats(), (0, false));

    // Manual reload still works: it bypasses the watcher.
    manager.reload_shader("shaders/a.frag").unwrap();
    assert_eq!(manager.pending_reload_count(), 1);
}

#[test]
fn test_watcher_events_flow_into_queue() {
    let mut manager = HotReloadManager::new(config(true));
    manager.initialize(PipelineState::new()).unwrap();
    assert!(manager.is_enabled());

    let change = vec![FileObservation {
        path: "shaders/a.frag".to_string(),
        mtime_ms: Some(1000),
    }];
    manager.handle_file_event(&change);
    assert_eq!(manager.pending_reload_count(), 1);

    // Disabling stops new detections but leaves queued requests alone.
    manager.set_enabled(false).unwrap();
    manager.handle_file_event(&vec![FileObservation {
        path: "shaders/b.frag".to_string(),
        mtime_ms: Some(5000),
    }]);
    assert_eq!(manager.pending_reload_count(), 1);
}

#[test]
fn test_empty_batch_does_nothing() {
    let mut manager = HotReloadManager::new(config(false));
    manager.initialize(PipelineState::new()).unwrap();
    let swapped = manager.process_pending_reloads(&vec![]).unwrap();
    assert!(!swapped);
    assert!(!manager.check_and_clear_reloads_occurred());
}
