use homewiseai::hardware::{
    build_hardware_info, check_system_compatibility, get_hardware_info, HardwareError,
    HardwareInfo, SystemRequirements,
};
use homewiseai::hardware_service::{build_service_info, HardwareService};

// The platform name for the host these tests run on, as the application
// would read it from the operating system constant.
const PLATFORM: &str = "linux";

#[test]
fn test_system_compatibility() {
    let result = check_system_compatibility(PLATFORM);
    assert!(result.is_ok(), "System should meet minimum requirements");
}

#[test]
fn test_hardware_info_validation() {
    // Test invalid CPU count
    let invalid_cpu = HardwareInfo {
        cpu_count: 0,
        cpu_brand: "Test CPU".to_string(),
        memory_total: 1024,
        memory_used: 512,
        platform: "windows".to_string(),
    };
    assert!(invalid_cpu.validate().is_err(), "Should fail with zero CPU count");

    // Test invalid CPU brand
    let invalid_brand = HardwareInfo {
        cpu_count: 1,
        cpu_brand: "".to_string(),
        memory_total: 1024,
        memory_used: 512,
        platform: "windows".to_string(),
    };
    assert!(invalid_brand.validate().is_err(), "Should fail with empty CPU brand");

    // Test invalid memory total
    let invalid_memory = HardwareInfo {
        cpu_count: 1,
        cpu_brand: "Test CPU".to_string(),
        memory_total: 0,
        memory_used: 0,
        platform: "windows".to_string(),
    };
    assert!(invalid_memory.validate().is_err(), "Should fail with zero total memory");

    // Test invalid memory usage
    let invalid_usage = HardwareInfo {
        cpu_count: 1,
        cpu_brand: "Test CPU".to_string(),
        memory_total: 1024,
        memory_used: 2048,
        platform: "windows".to_string(),
    };
    assert!(invalid_usage.validate().is_err(), "Should fail when used memory exceeds total");
}

#[test]
fn test_hardware_info_basic() {
    let info = get_hardware_info(PLATFORM).expect("Should get hardware info");
    assert!(info.cpu_count > 0, "System should have at least one CPU core");
    assert!(!info.cpu_brand.is_empty(), "CPU brand should not be empty");
    assert!(info.memory_total > 0, "Total memory should be greater than 0");
    assert!(info.memory_used <= info.memory_total, "Used memory should not exceed total memory");
}

#[test]
fn test_custom_requirements() {
    let info = get_hardware_info(PLATFORM).expect("Should get hardware info");
    let reqs = SystemRequirements {
        min_cpu_cores: info.cpu_count + 1, // Impossible requirement
        min_memory_kb: 1024,
        supported_platforms: vec!["windows".to_string(), "macos".to_string()],
    };
    let result = info.meets_requirements(&reqs);
    assert!(result.is_err(), "Should fail with impossible CPU requirement");
}

#[test]
fn test_hardware_info_memory_consistency() {
    let info1 = get_hardware_info(PLATFORM).expect("Should get first hardware info");
    let info2 = get_hardware_info(PLATFORM).expect("Should get second hardware info");

    assert_eq!(info1.memory_total, info2.memory_total, "Total memory should remain constant");
    assert!(info1.cpu_count == info2.cpu_count, "CPU count should remain constant");
}

#[test]
fn test_memory_values_sanity() {
    let info = get_hardware_info(PLATFORM).expect("Should get hardware info");
    assert!(info.memory_total >= 1024 * 1024, "Total memory should be at least 1GB");
    assert!(info.memory_used > 0, "Used memory should be greater than 0");
    assert!(info.memory_used <= info.memory_total, "Used memory should not exceed total memory");
}

#[test]
fn test_hardware_service() {
    let service = HardwareService::new();
    let info = service.get_hardware_info(PLATFORM);

    // Basic validation
    assert!(info.cpu_count > 0);
    assert!(!info.cpu_brand.is_empty());
    assert!(info.memory_used <= info.memory_total);
    assert!(!info.platform.is_empty());

    // Test multiple readings
    let info1 = service.get_hardware_info(PLATFORM);
    let info2 = service.get_hardware_info(PLATFORM);

    // Values should be consistent
    assert_eq!(info1.cpu_count, info2.cpu_count);
    assert_eq!(info1.cpu_brand, info2.cpu_brand);
    assert_eq!(info1.platform, info2.platform);
}

#[test]
fn validation_error_messages() {
    let zero_cpus = HardwareInfo {
        cpu_count: 0,
        cpu_brand: "Test CPU".to_string(),
        memory_total: 1024,
        memory_used: 512,
        platform: "windows".to_string(),
    };
    match zero_cpus.validate().unwrap_err() {
        HardwareError::CpuError(m) => assert_eq!(m, "Invalid CPU count"),
        other => panic!("Expected a CPU error, got {:?}", other),
    }

    let blank_brand = HardwareInfo {
        cpu_count: 1,
        cpu_brand: " \t ".to_string(),
        memory_total: 1024,
        memory_used: 512,
        platform: "windows".to_string(),
    };
    match blank_brand.validate().unwrap_err() {
        HardwareError::CpuError(m) => assert_eq!(m, "Invalid CPU brand information"),
        other => panic!("Expected a CPU error, got {:?}", other),
    }

    let no_memory = HardwareInfo {
        cpu_count: 1,
        cpu_brand: "Test CPU".to_string(),
        memory_total: 0,
        memory_used: 0,
        platform: "windows".to_string(),
    };
    match no_memory.validate().unwrap_err() {
        HardwareError::MemoryError(m) => assert_eq!(m, "Invalid total memory value"),
        other => panic!("Expected a memory error, got {:?}", other),
    }

    let overdrawn = HardwareInfo {
        cpu_count: 1,
        cpu_brand: "Test CPU".to_string(),
        memory_total: 1024,
        memory_used: 2048,
        platform: "windows".to_string(),
    };
    match overdrawn.validate().unwrap_err() {
        HardwareError::MemoryError(m) => assert_eq!(m, "Used memory exceeds total memory"),
        other => panic!("Expected a memory error, got {:?}", other),
    }

    let valid = HardwareInfo {
        cpu_count: 1,
        cpu_brand: "Test CPU".to_string(),
        memory_total: 1024,
        memory_used: 512,
        platform: "windows".to_string(),
    };
    assert!(valid.validate().is_ok());
}

#[test]
fn requirement_error_messages() {
    let info = HardwareInfo {
        cpu_count: 4,
        cpu_brand: "Test CPU".to_string(),
        memory_total: 8 * 1024 * 1024,
        memory_used: 1024,
        platform: "darwin".to_string(),
    };

    // The Darwin platform name counts as macOS.
    let default_reqs = SystemRequirements::default();
    assert!(info.meets_requirements(&default_reqs).is_ok());

    let too_many_cores = SystemRequirements {
        min_cpu_cores: 64,
        min_memory_kb: 1024,
        supported_platforms: vec!["macos".to_string()],
    };
    match info.meets_requirements(&too_many_cores).unwrap_err() {
        HardwareError::CompatibilityError(m) => assert_eq!(m, "Insufficient CPU cores"),
        other => panic!("Expected a compatibility error, got {:?}", other),
    }

    let too_much_memory = SystemRequirements {
        min_cpu_cores: 1,
        min_memory_kb: u64::MAX,
        supported_platforms: vec!["macos".to_string()],
    };
    match info.meets_requirements(&too_much_memory).unwrap_err() {
        HardwareError::CompatibilityError(m) => assert_eq!(m, "Insufficient memory"),
        other => panic!("Expected a compatibility error, got {:?}", other),
    }

    let other_platforms = SystemRequirements {
        min_cpu_cores: 1,
        min_memory_kb: 1024,
        supported_platforms: vec!["windows".to_string(), "linux".to_string()],
    };
    match info.meets_requirements(&other_platforms).unwrap_err() {
        HardwareError::CompatibilityError(m) => assert_eq!(m, "Unsupported platform"),
        other => panic!("Expected a compatibility error, got {:?}", other),
    }
}

#[test]
fn build_hardware_info_from_readings() {
    // Usable readings: the record carries exactly them, the brand trimmed.
    let info = build_hardware_info(4, Some("  Test CPU ".to_string()), 2048, 1024, "linux")
        .expect("Usable readings should build a record");
    assert_eq!(info.cpu_count, 4);
    assert_eq!(info.cpu_brand, "Test CPU");
    assert_eq!(info.memory_total, 2048);
    assert_eq!(info.memory_used, 1024);
    assert_eq!(info.platform, "linux");

    // Each unusable reading gives its own error, first check first.
    match build_hardware_info(0, Some("Test CPU".to_string()), 2048, 1024, "linux").unwrap_err() {
        HardwareError::CpuError(m) => assert_eq!(m, "No CPU cores detected"),
        other => panic!("Expected a CPU error, got {:?}", other),
    }
    match build_hardware_info(4, None, 2048, 1024, "linux").unwrap_err() {
        HardwareError::CpuError(m) => assert_eq!(m, "Failed to retrieve CPU information"),
        other => panic!("Expected a CPU error, got {:?}", other),
    }
    match build_hardware_info(4, Some(" \t".to_string()), 2048, 1024, "linux").unwrap_err() {
        HardwareError::CpuError(m) => assert_eq!(m, "Failed to retrieve CPU information"),
        other => panic!("Expected a CPU error, got {:?}", other),
    }
    match build_hardware_info(4, Some("Test CPU".to_string()), 0, 0, "linux").unwrap_err() {
        HardwareError::MemoryError(m) => assert_eq!(m, "Failed to detect system memory"),
        other => panic!("Expected a memory error, got {:?}", other),
    }
    match build_hardware_info(4, Some("Test CPU".to_string()), 1024, 2048, "linux").unwrap_err() {
        HardwareError::MemoryError(m) => assert_eq!(m, "Used memory exceeds total memory"),
        other => panic!("Expected a memory error, got {:?}", other),
    }
}

#[test]
fn build_service_info_from_readings() {
    // The readings carry through; a missing brand reads as the empty one.
    let info = build_service_info(4, Some("Test CPU".to_string()), 2048, 1024, "linux");
    assert_eq!(info.cpu_count, 4);
    assert_eq!(info.cpu_brand, "Test CPU");
    assert_eq!(info.memory_total, 2048);
    assert_eq!(info.memory_used, 1024);
    assert_eq!(info.platform, "linux");

    let info = build_service_info(0, None, 0, 0, "linux");
    assert_eq!(info.cpu_count, 0);
    assert_eq!(info.cpu_brand, "");

    // A count beyond the signed range clamps to its largest value.
    let info = build_service_info(usize::MAX, None, 0, 0, "linux");
    assert_eq!(info.cpu_count, i32::MAX);
}

#[test]
fn hardware_error_message_format() {
    let e = HardwareError::CpuError("Invalid CPU count".to_string());
    assert_eq!(e.message(), "CPU Error: Invalid CPU count");
    let e = HardwareError::MemoryError("Invalid total memory value".to_string());
    assert_eq!(e.message(), "Memory Error: Invalid total memory value");
    let e = HardwareError::CompatibilityError("Unsupported platform".to_string());
    assert_eq!(e.message(), "Compatibility Error: Unsupported platform");
    let e = HardwareError::SystemError("anything".to_string());
    assert_eq!(e.message(), "System Error: anything");
}
