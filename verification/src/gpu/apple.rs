//! The Apple Silicon backend: the deterministic test fixture and the parsers
//! for the two external utilities the probe reads (`ioreg` for the device
//! record, `powermetrics` for the live metrics). The application spawns the
//! utilities and hands their text here.

use crate::gpu::{GpuInfo, GpuType, ProbeError};
use crate::text::{
    contains_sub, find_line_with, parse_deci, parse_u32, second_field, spec_contains_sub,
    spec_first_line_with, spec_parse_deci, spec_parse_u32, spec_split, spec_strip_trailing,
    spec_trim, split_char, strip_trailing, trim,
};
use vstd::prelude::*;
use vstd::string::*;

verus! {

/// What the Apple fixture record looks like: 45.0 degrees C, 15.0 W, 30.0
/// percent utilization, 8192 MB total of which 2048 MB used and 6144 MB
/// free, and a placeholder driver version.
pub open spec fn is_apple_fixture(r: GpuInfo) -> bool {
    &&& r.gpu_type == GpuType::Apple
    &&& r.cuda_version is None
    &&& (r.driver_version matches Some(d) && d@ == "Test Driver"@)
    &&& r.compute_capability is None
    &&& r.temperature_deci_c == Some(450u32)
    &&& r.power_usage_deci_w == Some(150u32)
    &&& r.utilization_deci_pct == Some(300u32)
    &&& r.memory_total_mb == 8192u32
    &&& r.memory_used_mb == Some(2048u32)
    &&& r.memory_free_mb == Some(6144u32)
}

/// The fixed record served for this backend in test mode.
pub fn test_fixture() -> (r: GpuInfo)
    ensures
        is_apple_fixture(r),
        r.wf(),
{
    GpuInfo {
        gpu_type: GpuType::Apple,
        cuda_version: None,
        driver_version: Some(String::from_str("Test Driver")),
        compute_capability: None,
        temperature_deci_c: Some(450),
        power_usage_deci_w: Some(150),
        utilization_deci_pct: Some(300),
        memory_total_mb: 8192,
        memory_used_mb: Some(2048),
        memory_free_mb: Some(6144),
    }
}

/// Whether the device listing names a supported Apple Silicon model.
pub open spec fn spec_apple_model_found(out: Seq<char>) -> bool {
    spec_contains_sub(out, "M1"@) || spec_contains_sub(out, "M2"@)
}

/// The total GPU memory the device listing reports: on the first line that
/// carries the memory key, the field after the first equals sign, trimmed
/// and read as a number; 8192 wherever that fails.
pub open spec fn spec_apple_memory(out: Seq<char>) -> u32 {
    match spec_first_line_with(spec_split(out, '\n'), "gpu-memory-total-size"@) {
        Some(line) => {
            let parts = spec_split(line, '=');
            if parts.len() >= 2 {
                match spec_parse_u32(spec_trim(parts[1])) {
                    Some(v) => v,
                    None => 8192,
                }
            } else {
                8192
            }
        },
        None => 8192,
    }
}

/// Parses the device listing (`ioreg` output) into a capability record: a
/// record for a supported Apple Silicon model with the reported total
/// memory, or `UnsupportedHardware` when no such model is named. Metrics
/// and versions are left absent; [`parse_gpu_metrics`] fills the former.
pub fn parse_gpu_info(output: &str) -> (r: Result<GpuInfo, ProbeError>)
    ensures
        spec_apple_model_found(output@) ==> r == Ok::<GpuInfo, ProbeError>(
            GpuInfo {
                gpu_type: GpuType::Apple,
                cuda_version: None,
                driver_version: None,
                compute_capability: None,
                temperature_deci_c: None,
                power_usage_deci_w: None,
                utilization_deci_pct: None,
                memory_total_mb: spec_apple_memory(output@),
                memory_used_mb: None,
                memory_free_mb: None,
            },
        ),
        !spec_apple_model_found(output@) ==> r == Err::<GpuInfo, ProbeError>(
            ProbeError::UnsupportedHardware,
        ),
        r matches Ok(info) ==> info.wf(),
{
    let lines = split_char(output, '\n');
    let memory_mb: u32 = match find_line_with(&lines, "gpu-memory-total-size") {
        Some(line) => match second_field(line.as_str(), '=') {
            Some(field) => {
                let t = trim(field.as_str());
                match parse_u32(t.as_str()) {
                    Some(v) => v,
                    None => 8192,
                }
            },
            None => 8192,
        },
        None => 8192,
    };
    if !(contains_sub(output, "M1") || contains_sub(output, "M2")) {
        return Err(ProbeError::UnsupportedHardware);
    }
    Ok(
        GpuInfo {
            gpu_type: GpuType::Apple,
            cuda_version: None,
            driver_version: None,
            compute_capability: None,
            temperature_deci_c: None,
            power_usage_deci_w: None,
            utilization_deci_pct: None,
            memory_total_mb: memory_mb,
            memory_used_mb: None,
            memory_free_mb: None,
        },
    )
}

/// One metric from the metrics listing: on the first line that carries the
/// key, the field after the first colon, trimmed, stripped of its trailing
/// unit letter and read in tenths; absent wherever that fails.
pub open spec fn spec_metric_deci(out: Seq<char>, key: Seq<char>, unit: char) -> Option<u32> {
    match spec_first_line_with(spec_split(out, '\n'), key) {
        Some(line) => {
            let parts = spec_split(line, ':');
            if parts.len() >= 2 {
                spec_parse_deci(spec_strip_trailing(spec_trim(parts[1]), unit))
            } else {
                None
            }
        },
        None => None,
    }
}

fn metric_from_lines(lines: &Vec<String>, key: &str, unit: char) -> (r: Option<u32>)
    ensures
        r == (match spec_first_line_with(lines.deep_view(), key@) {
            Some(line) => {
                let parts = spec_split(line, ':');
                if parts.len() >= 2 {
                    spec_parse_deci(spec_strip_trailing(spec_trim(parts[1]), unit))
                } else {
                    None
                }
            },
            None => None,
        }),
{
    match find_line_with(lines, key) {
        Some(line) => match second_field(line.as_str(), ':') {
            Some(field) => {
                let t = trim(field.as_str());
                let stripped = strip_trailing(t.as_str(), unit);
                parse_deci(stripped.as_str())
            },
            None => None,
        },
        None => None,
    }
}

/// Parses the metrics listing (`powermetrics` output) into the best-effort
/// utilization, power draw and temperature, each in tenths of its unit and
/// absent when its line or value is missing or malformed.
pub fn parse_gpu_metrics(output: &str) -> (r: (Option<u32>, Option<u32>, Option<u32>))
    ensures
        r.0 == spec_metric_deci(output@, "GPU Active"@, '%'),
        r.1 == spec_metric_deci(output@, "GPU Power"@, 'W'),
        r.2 == spec_metric_deci(output@, "GPU die temperature"@, 'C'),
{
    let lines = split_char(output, '\n');
    let utilization = metric_from_lines(&lines, "GPU Active", '%');
    let power = metric_from_lines(&lines, "GPU Power", 'W');
    let temperature = metric_from_lines(&lines, "GPU die temperature", 'C');
    (utilization, power, temperature)
}

/// Compatibility no-op kept from the module's early interface: the test-mode
/// switch itself lives on the shared [`crate::gpu::GpuState`].
pub fn set_test_mode(enabled: bool) {
    let _ = enabled;
}

/// Compatibility no-op kept from the module's early interface: the
/// error-simulation switch itself lives on the shared [`crate::gpu::GpuState`].
pub fn simulate_error(enabled: bool) {
    let _ = enabled;
}

} // verus!
