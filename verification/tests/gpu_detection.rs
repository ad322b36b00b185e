use homewiseai::gpu::{
    accept_probe_outcome, backend_priority, detect_gpu, detect_gpu_step, get_test_gpu_type,
    is_error_simulation, is_test_mode, no_accelerator_info, set_test_gpu_type, set_test_mode,
    simulate_error, DetectStep, GpuInfo, GpuState, GpuType, ProbeError, ProbeOutcome,
};

fn success_record(gpu_type: GpuType, total: u32) -> ProbeOutcome {
    ProbeOutcome::Success(GpuInfo {
        gpu_type,
        cuda_version: None,
        driver_version: None,
        compute_capability: None,
        temperature_deci_c: None,
        power_usage_deci_w: None,
        utilization_deci_pct: None,
        memory_total_mb: total,
        memory_used_mb: None,
        memory_free_mb: None,
    })
}

#[test]
fn mod_test_test_mode() {
    let mut state = GpuState::new();
    set_test_mode(&mut state, false);
    simulate_error(&mut state, false);
    assert!(!is_test_mode(&state), "Test mode should be off by default");

    set_test_mode(&mut state, true);
    assert!(is_test_mode(&state), "Test mode should be enabled");

    set_test_mode(&mut state, false);
    assert!(!is_test_mode(&state), "Test mode should be disabled");
}

#[test]
fn tests_test_test_mode() {
    let mut state = GpuState::new();
    // Enable test mode
    set_test_mode(&mut state, true);
    assert!(is_test_mode(&state), "Test mode should be enabled");

    // Disable test mode
    set_test_mode(&mut state, false);
    assert!(!is_test_mode(&state), "Test mode should be disabled");
}

#[test]
fn mod_test_error_simulation() {
    // Reset state
    let mut state = GpuState::new();
    set_test_mode(&mut state, true);
    simulate_error(&mut state, false);

    // Test error simulation enabled
    simulate_error(&mut state, true);
    let result = detect_gpu(&mut state, Vec::new());
    assert!(result.is_err(), "Should return error when simulation is enabled");

    // Test error simulation disabled
    simulate_error(&mut state, false);
    let result = detect_gpu(&mut state, Vec::new());
    assert!(result.is_ok(), "Should succeed when simulation is disabled");

    // Reset state
    set_test_mode(&mut state, false);
    simulate_error(&mut state, false);
}

#[test]
fn test_gpu_detection() {
    let mut state = GpuState::new();
    set_test_mode(&mut state, true);
    set_test_gpu_type(&mut state, GpuType::Apple);
    simulate_error(&mut state, false);

    let info = detect_gpu(&mut state, Vec::new()).expect("GPU detection should succeed");

    // Test basic info
    assert!(info.memory_total_mb > 0, "Should have valid memory size");
    assert!(
        matches!(info.gpu_type, GpuType::Apple | GpuType::NoGpu),
        "Should detect Apple GPU or None"
    );

    set_test_mode(&mut state, false);
    simulate_error(&mut state, false);
}

#[test]
fn mod_test_gpu_metrics() {
    let mut state = GpuState::new();
    set_test_mode(&mut state, true);
    set_test_gpu_type(&mut state, GpuType::Apple);
    simulate_error(&mut state, false);

    let info = detect_gpu(&mut state, Vec::new()).expect("GPU detection should succeed");

    if let GpuType::Apple = info.gpu_type {
        // Test memory metrics
        assert!(info.memory_total_mb > 1024, "Total memory should be > 1GB");
        if let Some(used) = info.memory_used_mb {
            assert!(used <= info.memory_total_mb, "Used memory should not exceed total");
        }

        // Test temperature and power if available
        if let Some(temp_deci) = info.temperature_deci_c {
            let temp = temp_deci as f32 / 10.0;
            assert!((0.0..120.0).contains(&temp), "Temperature should be in valid range");
        }
        if let Some(power_deci) = info.power_usage_deci_w {
            let power = power_deci as f32 / 10.0;
            assert!((0.0..200.0).contains(&power), "Power usage should be in valid range");
        }
    }

    set_test_mode(&mut state, false);
    simulate_error(&mut state, false);
}

#[test]
fn test_error_handling() {
    let mut state = GpuState::new();
    set_test_gpu_type(&mut state, GpuType::Nvidia);
    set_test_mode(&mut state, true);
    simulate_error(&mut state, true);
    let result = detect_gpu(&mut state, Vec::new());
    assert!(result.is_err(), "Should return error when simulation is enabled");
    assert_eq!(
        result.unwrap_err().message(),
        "Simulated GPU error",
        "Error message should match"
    );

    // Real mode with no backend found: a successful "no accelerator" result.
    let mut state = GpuState::new();
    let result = detect_gpu(
        &mut state,
        vec![
            ProbeOutcome::Failure(ProbeError::ToolUnavailable),
            ProbeOutcome::Failure(ProbeError::ToolUnavailable),
        ],
    );
    let info = result.expect("A full miss should still succeed");
    assert_eq!(info.gpu_type, GpuType::NoGpu);
}

#[test]
fn test_nvidia_gpu_detection() {
    let mut state = GpuState::new();
    set_test_gpu_type(&mut state, GpuType::Nvidia);
    set_test_mode(&mut state, true);
    simulate_error(&mut state, false);

    let info = detect_gpu(&mut state, Vec::new()).expect("GPU detection should succeed");
    assert_eq!(info.gpu_type, GpuType::Nvidia);
    assert!(info.memory_total_mb > 0);
}

#[test]
fn test_nvidia_metrics() {
    let mut state = GpuState::new();
    set_test_gpu_type(&mut state, GpuType::Nvidia);
    set_test_mode(&mut state, true);
    simulate_error(&mut state, false);

    let info = detect_gpu(&mut state, Vec::new()).expect("GPU detection should succeed");

    // Basic metric validation
    assert!(info.temperature_deci_c.is_some());
    assert!(info.power_usage_deci_w.is_some());
    assert!(info.utilization_deci_pct.is_some());
    assert!(info.memory_used_mb.is_some());
    assert!(info.memory_free_mb.is_some());

    // Value range validation
    if let Some(temp_deci) = info.temperature_deci_c {
        let temp = temp_deci as f32 / 10.0;
        assert!((0.0..=110.0).contains(&temp), "Temperature should be between 0°C and 110°C");
    }
    if let Some(power_deci) = info.power_usage_deci_w {
        let power = power_deci as f32 / 10.0;
        assert!((0.0..=500.0).contains(&power), "Power usage should be between 0W and 500W");
    }
    if let Some(util_deci) = info.utilization_deci_pct {
        let util = util_deci as f32 / 10.0;
        assert!((0.0..=100.0).contains(&util), "Utilization should be between 0% and 100%");
    }
}

#[test]
fn test_cuda_capabilities() {
    let mut state = GpuState::new();
    set_test_gpu_type(&mut state, GpuType::Nvidia);
    set_test_mode(&mut state, true);
    simulate_error(&mut state, false);

    let info = detect_gpu(&mut state, Vec::new()).expect("GPU detection should succeed");

    // Basic CUDA information
    assert!(info.cuda_version.is_some(), "CUDA version should be available in test mode");
    assert!(
        info.compute_capability.is_some(),
        "Compute capability should be available in test mode"
    );

    if let Some(cc) = info.compute_capability {
        let parts: Vec<&str> = cc.split('.').collect();
        assert_eq!(parts.len(), 2, "Compute capability should be in format 'major.minor'");
        assert!(parts[0].parse::<u32>().is_ok(), "Major version should be a number");
        assert!(parts[1].parse::<u32>().is_ok(), "Minor version should be a number");
    }
}

#[test]
fn test_cuda_device_properties() {
    let props = homewiseai::gpu::nvidia::cuda_device_properties_fixture();
    assert!(props.compute_capability_major > 0);
    assert!(props.total_memory_bytes > 0);
    assert!(props.max_threads_per_block > 0);
    assert!(props.max_shared_memory_per_block > 0);
    assert!(props.warp_size > 0);
}

#[test]
fn test_memory_consistency() {
    let mut state = GpuState::new();
    set_test_gpu_type(&mut state, GpuType::Nvidia);
    set_test_mode(&mut state, true);
    simulate_error(&mut state, false);

    let info = detect_gpu(&mut state, Vec::new()).expect("GPU detection should succeed");

    // Verify memory values
    assert!(info.memory_total_mb > 0, "Total memory should be greater than 0");

    if let (Some(used), Some(free)) = (info.memory_used_mb, info.memory_free_mb) {
        assert!(used <= info.memory_total_mb, "Used memory should not exceed total memory");
        assert_eq!(
            used + free,
            info.memory_total_mb,
            "Used memory + free memory should equal total memory"
        );
    }
}

#[test]
fn test_performance() {
    let mut state = GpuState::new();
    set_test_gpu_type(&mut state, GpuType::Nvidia);
    set_test_mode(&mut state, true);
    simulate_error(&mut state, false);

    let info = detect_gpu(&mut state, Vec::new()).expect("GPU detection should succeed");
    let cached_info = detect_gpu(&mut state, Vec::new()).expect(
        "Cached GPU detection should succeed",
    );

    // Verify cache consistency
    assert_eq!(
        format!("{:?}", info),
        format!("{:?}", cached_info),
        "Cached info should match original info"
    );
}

#[test]
fn test_driver_version() {
    let mut state = GpuState::new();
    set_test_gpu_type(&mut state, GpuType::Nvidia);
    set_test_mode(&mut state, true);
    simulate_error(&mut state, false);

    let info = detect_gpu(&mut state, Vec::new()).expect("GPU detection should succeed");
    assert!(info.driver_version.is_some(), "Driver version should be available in test mode");

    if let Some(version) = info.driver_version {
        // Verify version format (e.g., "515.65.01")
        let parts: Vec<&str> = version.split('.').collect();
        assert!(parts.len() >= 2, "Driver version should have at least major.minor format");
        assert!(parts[0].parse::<u32>().is_ok(), "Major version should be a number");
        assert!(parts[1].parse::<u32>().is_ok(), "Minor version should be a number");
    }
}

#[test]
fn fixture_scenario_apple() {
    // Enable test mode and select the first backend: expect exactly its
    // fixture record.
    let mut state = GpuState::new();
    set_test_mode(&mut state, true);
    set_test_gpu_type(&mut state, GpuType::Apple);
    assert_eq!(get_test_gpu_type(&state), GpuType::Apple);

    let info = detect_gpu(&mut state, Vec::new()).expect("Fixture detection should succeed");
    assert_eq!(info.gpu_type, GpuType::Apple);
    assert_eq!(info.memory_total_mb, 8192);
    assert_eq!(info.temperature_deci_c, Some(450), "45.0 degrees, in tenths");
    assert_eq!(info.power_usage_deci_w, Some(150), "15.0 watts, in tenths");
    assert_eq!(info.utilization_deci_pct, Some(300), "30.0 percent, in tenths");
}

#[test]
fn fallback_scenario_second_backend() {
    // Real mode; the first backend's utility is absent and the second
    // succeeds: expect the second backend's record, with the first
    // attempted first.
    let mut state = GpuState::new();
    set_test_mode(&mut state, false);
    simulate_error(&mut state, false);

    assert!(matches!(detect_gpu_step(&state), DetectStep::Probe));
    let order = backend_priority();
    assert_eq!(order, vec![GpuType::Nvidia, GpuType::Apple]);

    let mut attempted: Vec<GpuType> = Vec::new();
    let mut found: Option<GpuInfo> = None;
    for backend in order {
        attempted.push(backend);
        let outcome = match backend {
            GpuType::Nvidia => ProbeOutcome::Failure(ProbeError::ToolUnavailable),
            GpuType::Apple => success_record(GpuType::Apple, 4096),
            GpuType::NoGpu => unreachable!(),
        };
        if let Some(info) = accept_probe_outcome(&mut state, outcome) {
            found = Some(info);
            break;
        }
    }
    let info = found.expect("The second backend should have been found");
    assert_eq!(info.gpu_type, GpuType::Apple);
    assert_eq!(info.memory_total_mb, 4096);
    assert_eq!(
        attempted,
        vec![GpuType::Nvidia, GpuType::Apple],
        "The first backend must be attempted before the second"
    );
}

#[test]
fn full_miss_scenario_not_cached() {
    // Real mode, both backends fail: a successful "no accelerator" record,
    // and it is not cached, so a later successful probe is returned.
    let mut state = GpuState::new();
    let info = detect_gpu(
        &mut state,
        vec![
            ProbeOutcome::Failure(ProbeError::UnsupportedHardware),
            ProbeOutcome::TimedOut,
        ],
    )
    .expect("A full miss should still succeed");
    assert_eq!(info.gpu_type, GpuType::NoGpu);
    assert_eq!(info.memory_total_mb, 0);
    assert!(info.cuda_version.is_none());
    assert!(info.driver_version.is_none());
    assert!(info.compute_capability.is_none());
    assert!(info.temperature_deci_c.is_none());
    assert!(info.power_usage_deci_w.is_none());
    assert!(info.utilization_deci_pct.is_none());
    assert!(info.memory_used_mb.is_none());
    assert!(info.memory_free_mb.is_none());

    // Hardware becomes available: the next call must see it, not a stale
    // "no accelerator" record.
    let later = detect_gpu(
        &mut state,
        vec![
            ProbeOutcome::Failure(ProbeError::ToolUnavailable),
            success_record(GpuType::Apple, 2048),
        ],
    )
    .expect("A later probe success must be returned");
    assert_eq!(later.gpu_type, GpuType::Apple);
    assert_eq!(later.memory_total_mb, 2048);
}

#[test]
fn cache_hit_scenario() {
    // After one real-mode success, a second call returns the same record
    // without consulting any probe outcome.
    let mut state = GpuState::new();
    let first = detect_gpu(
        &mut state,
        vec![
            ProbeOutcome::Failure(ProbeError::ToolUnavailable),
            success_record(GpuType::Apple, 4096),
        ],
    )
    .expect("Detection should succeed");
    assert_eq!(first.gpu_type, GpuType::Apple);

    // The cache now answers; even all-failing outcomes change nothing.
    let second = detect_gpu(
        &mut state,
        vec![
            ProbeOutcome::Failure(ProbeError::ToolUnavailable),
            ProbeOutcome::Failure(ProbeError::ToolUnavailable),
        ],
    )
    .expect("Cached detection should succeed");
    assert_eq!(second.gpu_type, first.gpu_type);
    assert_eq!(second.memory_total_mb, first.memory_total_mb);

    // The stepwise interface reports the cache hit before any probe.
    match detect_gpu_step(&state) {
        DetectStep::Ready(info) => {
            assert_eq!(info.gpu_type, GpuType::Apple);
            assert_eq!(info.memory_total_mb, 4096);
        },
        other => panic!("Expected a cache hit, got {:?}", other),
    }
}

#[test]
fn error_simulation_beats_everything() {
    // Error simulation wins over test mode and over a filled cache.
    let mut state = GpuState::new();
    let _ = detect_gpu(&mut state, vec![success_record(GpuType::Nvidia, 4096)]).unwrap();
    set_test_mode(&mut state, true);
    simulate_error(&mut state, true);
    assert!(is_error_simulation(&state));
    let result = detect_gpu(&mut state, vec![success_record(GpuType::Nvidia, 4096)]);
    assert!(result.is_err(), "Error simulation must win over everything");

    // Disabling it restores the prior behaviour (here: the test fixture).
    simulate_error(&mut state, false);
    set_test_gpu_type(&mut state, GpuType::Apple);
    let info = detect_gpu(&mut state, Vec::new()).unwrap();
    assert_eq!(info.gpu_type, GpuType::Apple);
}

#[test]
fn no_accelerator_record_shape() {
    let info = no_accelerator_info();
    assert_eq!(info.gpu_type, GpuType::NoGpu);
    assert_eq!(info.memory_total_mb, 0);
    assert!(info.cuda_version.is_none());
    assert!(info.memory_used_mb.is_none());
    assert!(info.memory_free_mb.is_none());
}

#[test]
fn apple_compat_switches_are_inert() {
    // The per-backend switch entry points are kept as no-ops; the switches
    // themselves live on the shared state.
    let mut state = GpuState::new();
    homewiseai::gpu::apple::set_test_mode(true);
    homewiseai::gpu::apple::simulate_error(true);
    assert!(!is_test_mode(&state), "The backend no-op must not flip the shared switch");
    assert!(!is_error_simulation(&state), "The backend no-op must not flip the shared switch");
    set_test_mode(&mut state, true);
    assert!(is_test_mode(&state));
}
