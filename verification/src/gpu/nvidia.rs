//! The NVIDIA backend: the deterministic test fixtures and the parsers for
//! the external utilities the probe reads (`nvidia-smi` for memory, metrics
//! and the driver version, `nvcc` and `ldconfig` for the CUDA toolkit). The
//! application spawns the utilities and hands their text here.

use crate::gpu::{GpuInfo, GpuType, ProbeError};
use crate::text::{
    csv_fields, find_line_with, find_sub, first_token, last_token, parse_deci, parse_u32,
    parse_u64, spec_csv_fields, spec_find_sub, spec_first_line_with, spec_first_token,
    spec_last_token, spec_parse_deci, spec_parse_u32, spec_parse_u64, spec_split, split_char,
};
use vstd::prelude::*;
use vstd::string::*;

verus! {

/// Properties of the CUDA device as the device-query utility reports them.
#[derive(Debug)]
pub struct CudaDeviceProperties {
    pub compute_capability_major: u32,
    pub compute_capability_minor: u32,
    pub total_memory_bytes: u64,
    pub max_threads_per_block: u32,
    pub max_shared_memory_per_block: u32,
    pub warp_size: u32,
}

/// The fixed device properties served in test mode: compute capability 8.6,
/// 8 GB of memory, 1024 threads and 49152 bytes of shared memory per block,
/// warp size 32.
pub open spec fn spec_cuda_device_properties_fixture() -> CudaDeviceProperties {
    CudaDeviceProperties {
        compute_capability_major: 8,
        compute_capability_minor: 6,
        total_memory_bytes: 8589934592,
        max_threads_per_block: 1024,
        max_shared_memory_per_block: 49152,
        warp_size: 32,
    }
}

/// The fixed device properties served for this backend in test mode.
pub fn cuda_device_properties_fixture() -> (r: CudaDeviceProperties)
    ensures
        r == spec_cuda_device_properties_fixture(),
{
    CudaDeviceProperties {
        compute_capability_major: 8,
        compute_capability_minor: 6,
        total_memory_bytes: 8589934592,
        max_threads_per_block: 1024,
        max_shared_memory_per_block: 49152,
        warp_size: 32,
    }
}

/// How the device-query line (`nvidia-smi` with a six-field query: compute
/// capability major and minor, total memory in MB, threads per block,
/// shared memory per block, warp size) reads as device properties. The
/// memory conversion to bytes is rejected when it would not fit.
pub open spec fn spec_cuda_device_properties(out: Seq<char>) -> Option<CudaDeviceProperties> {
    let fs = spec_csv_fields(out, ',');
    if fs.len() >= 6 {
        match (
            spec_parse_u32(fs[0]),
            spec_parse_u32(fs[1]),
            spec_parse_u64(fs[2]),
            spec_parse_u32(fs[3]),
            spec_parse_u32(fs[4]),
            spec_parse_u32(fs[5]),
        ) {
            (Some(major), Some(minor), Some(mem_mb), Some(threads), Some(shared), Some(warp)) => if
            mem_mb <= u64::MAX / 1048576 {
                Some(
                    CudaDeviceProperties {
                        compute_capability_major: major,
                        compute_capability_minor: minor,
                        total_memory_bytes: (mem_mb * 1048576) as u64,
                        max_threads_per_block: threads,
                        max_shared_memory_per_block: shared,
                        warp_size: warp,
                    },
                )
            } else {
                None
            },
            _ => None,
        }
    } else {
        None
    }
}

/// Parses the device-query line into the CUDA device properties, converting
/// the reported memory from megabytes to bytes.
pub fn parse_cuda_device_properties(output: &str) -> (r: Option<CudaDeviceProperties>)
    ensures
        r == spec_cuda_device_properties(output@),
{
    let fields = csv_fields(output, ',');
    if fields.len() < 6 {
        return None;
    }
    proof {
        assert(fields.deep_view()[0] == fields@[0]@);
        assert(fields.deep_view()[1] == fields@[1]@);
        assert(fields.deep_view()[2] == fields@[2]@);
        assert(fields.deep_view()[3] == fields@[3]@);
        assert(fields.deep_view()[4] == fields@[4]@);
        assert(fields.deep_view()[5] == fields@[5]@);
    }
    let major = parse_u32(fields[0].as_str());
    let minor = parse_u32(fields[1].as_str());
    let mem_mb = parse_u64(fields[2].as_str());
    let threads = parse_u32(fields[3].as_str());
    let shared = parse_u32(fields[4].as_str());
    let warp = parse_u32(fields[5].as_str());
    match (major, minor, mem_mb, threads, shared, warp) {
        (Some(major), Some(minor), Some(mem_mb), Some(threads), Some(shared), Some(warp)) => {
            if mem_mb <= u64::MAX / 1048576 {
                proof {
                    assert(mem_mb * 1048576 <= (u64::MAX / 1048576) * 1048576 <= u64::MAX)
                        by (nonlinear_arith)
                        requires
                            mem_mb <= u64::MAX / 1048576,
                    ;
                }
                Some(
                    CudaDeviceProperties {
                        compute_capability_major: major,
                        compute_capability_minor: minor,
                        total_memory_bytes: mem_mb * 1048576,
                        max_threads_per_block: threads,
                        max_shared_memory_per_block: shared,
                        warp_size: warp,
                    },
                )
            } else {
                None
            }
        },
        _ => None,
    }
}

/// The CUDA toolkit version the compiler's banner names: the last
/// whitespace-separated token of the first line that mentions a release.
pub open spec fn spec_cuda_version(out: Seq<char>) -> Option<Seq<char>> {
    match spec_first_line_with(spec_split(out, '\n'), "release"@) {
        Some(line) => spec_last_token(line),
        None => None,
    }
}

/// Parses the CUDA compiler's version banner (`nvcc --version` output).
pub fn parse_cuda_version(output: &str) -> (r: Option<String>)
    ensures
        match r {
            Some(v) => spec_cuda_version(output@) == Some(v@),
            None => spec_cuda_version(output@) is None,
        },
{
    let lines = split_char(output, '\n');
    match find_line_with(&lines, "release") {
        Some(line) => last_token(line.as_str()),
        None => None,
    }
}

/// The cuDNN version a library listing names: the token right after the
/// first mention of the versioned library file name.
pub open spec fn spec_cudnn_version(out: Seq<char>) -> Option<Seq<char>> {
    match spec_find_sub(out, "libcudnn.so."@) {
        Some(i) => spec_first_token(out.skip(i + "libcudnn.so."@.len())),
        None => None,
    }
}

/// Parses a dynamic-library listing (`ldconfig -p` output) for the cuDNN
/// version.
pub fn parse_cudnn_version(output: &str) -> (r: Option<String>)
    ensures
        match r {
            Some(v) => spec_cudnn_version(output@) == Some(v@),
            None => spec_cudnn_version(output@) is None,
        },
{
    proof {
        reveal_strlit("libcudnn.so.");
    }
    match find_sub(output, "libcudnn.so.") {
        Some(i) => {
            let n = output.unicode_len();
            let rest = output.substring_char(i + 12, n);
            proof {
                assert(rest@ =~= output@.skip(i + "libcudnn.so."@.len()));
            }
            first_token(rest)
        },
        None => None,
    }
}

/// How the memory-and-metrics query line (`nvidia-smi` with a six-field
/// query: total, used and free memory in MB, temperature, power draw,
/// utilization) reads as a capability record, related to the parse result:
/// too few fields or an unreadable total are schema failures; used and free
/// memory are kept only when they add up to the total; the three metrics
/// are best-effort.
pub open spec fn nvidia_smi_post(out: Seq<char>, r: Result<GpuInfo, ProbeError>) -> bool {
    let fs = spec_csv_fields(out, ',');
    if fs.len() < 6 {
        r matches Err(ProbeError::ParseFailure(m)) && m@ == "Invalid nvidia-smi output format"@
    } else {
        match spec_parse_u32(fs[0]) {
            None => r matches Err(ProbeError::ParseFailure(m)) && m@
                == "Failed to parse total memory"@,
            Some(total) => r == Ok::<GpuInfo, ProbeError>(
                GpuInfo {
                    gpu_type: GpuType::Nvidia,
                    cuda_version: None,
                    driver_version: None,
                    compute_capability: None,
                    temperature_deci_c: spec_parse_deci(fs[3]),
                    power_usage_deci_w: spec_parse_deci(fs[4]),
                    utilization_deci_pct: spec_parse_deci(fs[5]),
                    memory_total_mb: total,
                    memory_used_mb: spec_mem_part(fs, total, 1),
                    memory_free_mb: spec_mem_part(fs, total, 2),
                },
            ),
        }
    }
}

/// The used (field 1) or free (field 2) memory, kept only when both parse
/// and they add up to the total.
pub open spec fn spec_mem_part(fs: Seq<Seq<char>>, total: u32, which: int) -> Option<u32> {
    match (spec_parse_u32(fs[1]), spec_parse_u32(fs[2])) {
        (Some(u), Some(f)) => if u + f == total {
            Some(
                if which == 1 {
                    u
                } else {
                    f
                },
            )
        } else {
            None
        },
        _ => None,
    }
}

/// Parses the memory-and-metrics query line into a capability record with
/// this backend's identity. Versions are left absent; the callers fill
/// them from [`parse_cuda_version`], [`parse_cudnn_version`] and the driver
/// query.
pub fn parse_nvidia_smi_output(output: &str) -> (r: Result<GpuInfo, ProbeError>)
    ensures
        nvidia_smi_post(output@, r),
        r matches Ok(info) ==> info.wf(),
{
    let fields = csv_fields(output, ',');
    if fields.len() < 6 {
        return Err(ProbeError::ParseFailure(String::from_str("Invalid nvidia-smi output format")));
    }
    proof {
        assert(fields.deep_view()[0] == fields@[0]@);
        assert(fields.deep_view()[1] == fields@[1]@);
        assert(fields.deep_view()[2] == fields@[2]@);
        assert(fields.deep_view()[3] == fields@[3]@);
        assert(fields.deep_view()[4] == fields@[4]@);
        assert(fields.deep_view()[5] == fields@[5]@);
    }
    let total: u32 = match parse_u32(fields[0].as_str()) {
        Some(v) => v,
        None => {
            return Err(ProbeError::ParseFailure(String::from_str("Failed to parse total memory")));
        },
    };
    let used = parse_u32(fields[1].as_str());
    let free = parse_u32(fields[2].as_str());
    let (memory_used_mb, memory_free_mb): (Option<u32>, Option<u32>) = match (used, free) {
        (Some(u), Some(f)) => {
            if (u as u64) + (f as u64) == (total as u64) {
                (Some(u), Some(f))
            } else {
                (None, None)
            }
        },
        _ => (None, None),
    };
    Ok(
        GpuInfo {
            gpu_type: GpuType::Nvidia,
            cuda_version: None,
            driver_version: None,
            compute_capability: None,
            temperature_deci_c: parse_deci(fields[3].as_str()),
            power_usage_deci_w: parse_deci(fields[4].as_str()),
            utilization_deci_pct: parse_deci(fields[5].as_str()),
            memory_total_mb: total,
            memory_used_mb,
            memory_free_mb,
        },
    )
}

/// What the NVIDIA fixture record looks like: CUDA 11.7, driver 515.65.01,
/// compute capability 8.6, 65.0 degrees C, 150.0 W, 80.0 percent
/// utilization, 8192 MB total split evenly between used and free.
pub open spec fn is_nvidia_fixture(r: GpuInfo) -> bool {
    &&& r.gpu_type == GpuType::Nvidia
    &&& (r.cuda_version matches Some(c) && c@ == "11.7"@)
    &&& (r.driver_version matches Some(d) && d@ == "515.65.01"@)
    &&& (r.compute_capability matches Some(cc) && cc@ == "8.6"@)
    &&& r.temperature_deci_c == Some(650u32)
    &&& r.power_usage_deci_w == Some(1500u32)
    &&& r.utilization_deci_pct == Some(800u32)
    &&& r.memory_total_mb == 8192u32
    &&& r.memory_used_mb == Some(4096u32)
    &&& r.memory_free_mb == Some(4096u32)
}

/// The fixed record served for this backend in test mode.
pub fn test_fixture() -> (r: GpuInfo)
    ensures
        is_nvidia_fixture(r),
        r.wf(),
{
    GpuInfo {
        gpu_type: GpuType::Nvidia,
        cuda_version: Some(String::from_str("11.7")),
        driver_version: Some(String::from_str("515.65.01")),
        compute_capability: Some(String::from_str("8.6")),
        temperature_deci_c: Some(650),
        power_usage_deci_w: Some(1500),
        utilization_deci_pct: Some(800),
        memory_total_mb: 8192,
        memory_used_mb: Some(4096),
        memory_free_mb: Some(4096),
    }
}

} // verus!
