use shader_reload::error::AppError;
use shader_reload::error::VulkanError;
use shader_reload::shader_compiler::CompilePlan;
use shader_reload::shader_compiler::OptimizationLevel;
use shader_reload::shader_compiler::ShaderCompiler;
use shader_reload::stage::ShaderStage;

#[test]
fn test_shader_compiler_creation() {
    let compiler = ShaderCompiler::new();
    assert!(compiler.is_ok());
}

#[test]
fn test_shader_kind_determination() {
    let compiler = ShaderCompiler::new().unwrap();

    assert!(matches!(
        compiler.determine_shader_kind("test.vert").unwrap(),
        ShaderStage::Vertex
    ));
    assert!(matches!(
        compiler.determine_shader_kind("test.frag").unwrap(),
        ShaderStage::Fragment
    ));

    assert!(compiler.determine_shader_kind("test.unknown").is_err());
}

#[test]
fn test_cache_operations() {
    let mut compiler = ShaderCompiler::new().unwrap();

    // Initially empty cache
    let (count, size) = compiler.get_cache_stats();
    assert_eq!(count, 0);
    assert_eq!(size, 0);

    // Clear cache should not fail
    compiler.clear_cache();

    let (count, size) = compiler.get_cache_stats();
    assert_eq!(count, 0);
    assert_eq!(size, 0);
}

#[test]
fn test_source_hashing() {
    let compiler = ShaderCompiler::new().unwrap();

    let source1 = "void main() {}";
    let source2 = "void main() {}";
    let source3 = "void main() { int x; }";

    let hash1 = compiler.hash_source(source1);
    let hash2 = compiler.hash_source(source2);
    let hash3 = compiler.hash_source(source3);

    // Same content should produce same hash
    assert_eq!(hash1, hash2);

    // Different content should produce different hash
    assert_ne!(hash1, hash3);
}

#[test]
fn test_source_hash_values() {
    let compiler = ShaderCompiler::new().unwrap();
    assert_eq!(compiler.hash_source(""), 0xcbf29ce484222325);
    assert_eq!(compiler.hash_source("a"), 0xaf63dc4c8601ec8c);
    assert_eq!(compiler.hash_source("void main() {}"), 0x387047402e231c81);
}

#[test]
fn test_recompile_unmodified_source_hits_cache() {
    let mut compiler = ShaderCompiler::new().unwrap();
    let source = "void main() {}";

    let job = match compiler.begin_compile(source, "a.frag", "main", ShaderStage::Fragment) {
        CompilePlan::RunBackend(job) => job,
        CompilePlan::UseCached(_) => panic!("empty cache cannot hit"),
    };
    assert_eq!(job.file_name, "a.frag");
    assert_eq!(job.entry_point, "main");
    assert!(matches!(job.stage, ShaderStage::Fragment));
    assert_eq!(compiler.backend_runs(), 1);

    let words = compiler
        .finish_compile(source, "a.frag", Ok(vec![3, 1, 4, 1]))
        .unwrap();
    assert_eq!(words, vec![3, 1, 4, 1]);

    // Second compile of identical content: served from cache, no
    // second backend invocation.
    match compiler.begin_compile(source, "a.frag", "main", ShaderStage::Fragment) {
        CompilePlan::UseCached(cached) => assert_eq!(cached, vec![3, 1, 4, 1]),
        CompilePlan::RunBackend(_) => panic!("unmodified source must hit the cache"),
    }
    assert_eq!(compiler.backend_runs(), 1);

    let (count, size) = compiler.get_cache_stats();
    assert_eq!(count, 1);
    assert_eq!(size, 16);
}

#[test]
fn test_modified_source_forces_recompilation() {
    let mut compiler = ShaderCompiler::new().unwrap();
    match compiler.begin_compile("void main() {}", "a.frag", "main", ShaderStage::Fragment) {
        CompilePlan::RunBackend(_) => {}
        CompilePlan::UseCached(_) => panic!("empty cache cannot hit"),
    }
    compiler
        .finish_compile("void main() {}", "a.frag", Ok(vec![7]))
        .unwrap();

    // Changed content under the same file name: the stored hash no
    // longer matches, so the lookup is a miss.
    match compiler.begin_compile(
        "void main() { int x; }",
        "a.frag",
        "main",
        ShaderStage::Fragment,
    ) {
        CompilePlan::RunBackend(_) => {}
        CompilePlan::UseCached(_) => panic!("modified source must miss the cache"),
    }
    assert_eq!(compiler.backend_runs(), 2);
}

#[test]
fn test_compile_failure_reports_diagnostic() {
    let mut compiler = ShaderCompiler::new().unwrap();
    let r = compiler.finish_compile(
        "void main( {}",
        "bad.frag",
        Err("expected ')'".to_string()),
    );
    match r {
        Err(AppError::Vulkan(VulkanError::ShaderCompilation(m))) => {
            assert_eq!(m, "Failed to compile shader 'bad.frag': expected ')'");
        }
        _ => panic!("Expected ShaderCompilation error"),
    }
    let (count, _) = compiler.get_cache_stats();
    assert_eq!(count, 0);
}

#[test]
fn test_empty_output_is_an_error() {
    let mut compiler = ShaderCompiler::new().unwrap();
    let r = compiler.finish_compile("void main() {}", "a.frag", Ok(vec![]));
    match r {
        Err(AppError::Vulkan(VulkanError::ShaderCompilation(m))) => {
            assert_eq!(m, "Compilation produced empty SPIR-V for shader 'a.frag'");
        }
        _ => panic!("Expected ShaderCompilation error"),
    }
}

#[test]
fn test_cache_disabled_always_runs_backend() {
    let mut compiler = ShaderCompiler::new().unwrap();
    compiler.configure(false, false, OptimizationLevel::Performance);
    let source = "void main() {}";
    match compiler.begin_compile(source, "a.frag", "main", ShaderStage::Fragment) {
        CompilePlan::RunBackend(job) => {
            assert!(!job.debug_info);
            assert!(matches!(job.optimization_level, OptimizationLevel::Performance));
        }
        CompilePlan::UseCached(_) => panic!("cache is disabled"),
    }
    compiler.finish_compile(source, "a.frag", Ok(vec![9])).unwrap();
    match compiler.begin_compile(source, "a.frag", "main", ShaderStage::Fragment) {
        CompilePlan::RunBackend(_) => {}
        CompilePlan::UseCached(_) => panic!("cache is disabled"),
    }
    assert_eq!(compiler.backend_runs(), 2);
}

#[test]
fn test_kind_determination_edge_cases() {
    let compiler = ShaderCompiler::new().unwrap();
    // Case-insensitive extension match.
    assert!(matches!(
        compiler.determine_shader_kind("shaders/light.VERT").unwrap(),
        ShaderStage::Vertex
    ));
    assert!(matches!(
        compiler.determine_shader_kind("shaders/sdf.tesc").unwrap(),
        ShaderStage::TessControl
    ));
    assert!(matches!(
        compiler.determine_shader_kind("shaders/sdf.tese").unwrap(),
        ShaderStage::TessEvaluation
    ));
    // A leading dot alone names no extension.
    match compiler.determine_shader_kind(".frag") {
        Err(AppError::Vulkan(VulkanError::ShaderCompilation(m))) => {
            assert_eq!(m, "No file extension found for shader: .frag");
        }
        _ => panic!("Expected a missing-extension error"),
    }
    // A dot in a directory name is not an extension of the file.
    assert!(compiler.determine_shader_kind("dir.d/file").is_err());
}
