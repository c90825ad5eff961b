use shader_reload::shader_watcher::FileObservation;
use shader_reload::shader_watcher::HotReloadConfig;
use shader_reload::shader_watcher::ShaderWatcher;
use shader_reload::stage::ShaderStage;

fn observation(path: &str, mtime_ms: u64) -> FileObservation {
    FileObservation {
        path: path.to_string(),
        mtime_ms: Some(mtime_ms),
    }
}

fn test_config(enabled: bool, debounce_ms: u64) -> HotReloadConfig {
    let mut config = HotReloadConfig::default();
    config.enabled = enabled;
    config.debounce_ms = debounce_ms;
    config
}

#[test]
fn test_debounce_rapid_events() {
    let mut watcher = ShaderWatcher::new(test_config(true, 100));

    // A burst of rapid writes to one path, all within the debounce
    // interval: the first is accepted, the rest are dropped.
    let burst = vec![
        observation("shaders/a.frag", 1000),
        observation("shaders/a.frag", 1010),
        observation("shaders/a.frag", 1050),
        observation("shaders/a.frag", 1099),
    ];
    let requests = watcher.handle_file_event(&burst);
    assert_eq!(requests.len(), 1);
    assert_eq!(requests[0].shader_path, "shaders/a.frag");

    // Still inside the interval of the accepted event: dropped.
    let requests = watcher.handle_file_event(&vec![observation("shaders/a.frag", 1099)]);
    assert_eq!(requests.len(), 0);

    // A full interval later: accepted again.
    let requests = watcher.handle_file_event(&vec![observation("shaders/a.frag", 1100)]);
    assert_eq!(requests.len(), 1);
}

#[test]
fn test_seeded_files_are_debounced() {
    let mut watcher = ShaderWatcher::new(test_config(true, 100));
    // The initial scan seeds the table, so a pre-existing file is not
    // reported as changed by an event within the debounce interval.
    watcher.refresh_file_times(&vec![observation("shaders/a.frag", 1000)]);
    let requests = watcher.handle_file_event(&vec![observation("shaders/a.frag", 1050)]);
    assert_eq!(requests.len(), 0);
    let requests = watcher.handle_file_event(&vec![observation("shaders/a.frag", 1100)]);
    assert_eq!(requests.len(), 1);
}

#[test]
fn test_unwatched_extension_is_skipped() {
    let mut watcher = ShaderWatcher::new(test_config(true, 100));
    let requests = watcher.handle_file_event(&vec![
        observation("shaders/readme.txt", 1000),
        observation("shaders/a.glsl", 1000),
        observation("shaders/a.frag", 1000),
    ]);
    assert_eq!(requests.len(), 1);
    assert!(matches!(requests[0].shader_kind, ShaderStage::Fragment));
    let (file_count, enabled) = watcher.get_stats();
    assert_eq!(file_count, 1);
    assert!(enabled);
}

#[test]
fn test_unreadable_file_is_skipped() {
    let mut watcher = ShaderWatcher::new(test_config(true, 100));
    let vanished = FileObservation {
        path: "shaders/a.frag".to_string(),
        mtime_ms: None,
    };
    let requests = watcher.handle_file_event(&vec![vanished]);
    assert_eq!(requests.len(), 0);
    let (file_count, _) = watcher.get_stats();
    assert_eq!(file_count, 0);
}

#[test]
fn test_disabled_watcher_produces_nothing() {
    let mut watcher = ShaderWatcher::new(test_config(false, 100));
    let requests = watcher.handle_file_event(&vec![observation("shaders/a.frag", 1000)]);
    assert_eq!(requests.len(), 0);
    let (file_count, enabled) = watcher.get_stats();
    assert_eq!(file_count, 0);
    assert!(!enabled);

    // Manual reload classification still works while disabled.
    let manual = watcher.reload_shader("shaders/a.frag").unwrap();
    let request = manual.expect("manual reload bypasses the watcher");
    assert_eq!(request.shader_path, "shaders/a.frag");
    assert!(matches!(request.shader_kind, ShaderStage::Fragment));
}

#[test]
fn test_reenabling_watcher() {
    let mut watcher = ShaderWatcher::new(test_config(true, 100));
    watcher.set_enabled(false);
    assert!(!watcher.is_enabled());
    let requests = watcher.handle_file_event(&vec![observation("shaders/a.frag", 1000)]);
    assert_eq!(requests.len(), 0);
    watcher.set_enabled(true);
    assert!(watcher.is_enabled());
    let requests = watcher.handle_file_event(&vec![observation("shaders/a.frag", 2000)]);
    assert_eq!(requests.len(), 1);
}

#[test]
fn test_watcher_manual_reload_errors() {
    let watcher = ShaderWatcher::new(test_config(true, 100));
    assert!(watcher.reload_shader("no_extension").is_err());
    // A recognised path with an extension naming no stage queues nothing.
    let manual = watcher.reload_shader("shaders/a.glsl").unwrap();
    assert!(manual.is_none());
}

#[test]
fn test_default_config_values() {
    let config = HotReloadConfig::default();
    assert!(config.enabled);
    assert_eq!(config.shader_dir, "shaders/");
    assert_eq!(config.debounce_ms, 100);
    assert_eq!(
        config.watch_extensions,
        vec!["vert", "frag", "geom", "comp", "tesc", "tese"]
    );
    let copy = config.duplicate();
    assert_eq!(copy.shader_dir, config.shader_dir);
    assert_eq!(copy.watch_extensions, config.watch_extensions);
}
