//! A small service-style wrapper around the host hardware facts, kept
//! beside the retry-based collector in [`crate::hardware`]: it holds one
//! snapshot from construction and reads a fresh one on every query.

use crate::hardware::{
    new_system, refresh_system, system_cpu_count, system_first_cpu_brand, system_total_memory,
    system_used_memory,
};
use std::sync::Arc;
use vstd::prelude::*;
use vstd::string::*;

verus! {

/// The system hardware information, with the core count as a signed number.
#[derive(Debug)]
pub struct HardwareInfo {
    pub cpu_count: i32,
    pub cpu_brand: String,
    pub memory_total: u64,
    pub memory_used: u64,
    pub platform: String,
}

/// Builds the service record from one snapshot's readings: the core count
/// clamped into the signed range, a missing brand read as the empty one,
/// the memory values and the platform carried through unchanged.
pub fn build_service_info(
    cpu_count: usize,
    cpu_brand: Option<String>,
    memory_total: u64,
    memory_used: u64,
    platform: &str,
) -> (r: HardwareInfo)
    ensures
        cpu_count <= i32::MAX ==> r.cpu_count == cpu_count as i32,
        cpu_count > i32::MAX ==> r.cpu_count == i32::MAX,
        (match cpu_brand {
            Some(b) => r.cpu_brand@ == b@,
            None => r.cpu_brand@ == Seq::<char>::empty(),
        }),
        r.memory_total == memory_total,
        r.memory_used == memory_used,
        r.platform@ == platform@,
{
    HardwareInfo {
        cpu_count: if cpu_count > i32::MAX as usize {
            i32::MAX
        } else {
            cpu_count as i32
        },
        cpu_brand: match cpu_brand {
            Some(b) => b,
            None => String::new(),
        },
        memory_total,
        memory_used,
        platform: platform.to_owned(),
    }
}

/// The hardware query service.
pub struct HardwareService {
    sys: Arc<sysinfo::System>,
}

impl HardwareService {
    /// Builds the service around one refreshed snapshot of the host.
    pub fn new() -> HardwareService {
        let mut sys = new_system();
        refresh_system(&mut sys);
        HardwareService { sys: Arc::new(sys) }
    }

    /// Reads a fresh snapshot, converts the memory readings from bytes to
    /// kilobyte units, and builds the record through [`build_service_info`],
    /// carrying the given platform name (the operating system constant)
    /// through unchanged.
    pub fn get_hardware_info(&self, platform: &str) -> (r: HardwareInfo)
        ensures
            r.platform@ == platform@,
    {
        let mut sys = new_system();
        refresh_system(&mut sys);
        let cpu_count = system_cpu_count(&sys);
        let cpu_brand = system_first_cpu_brand(&sys);
        let memory_total = system_total_memory(&sys) / 1024;
        let memory_used = system_used_memory(&sys) / 1024;
        build_service_info(cpu_count, cpu_brand, memory_total, memory_used, platform)
    }
}

} // verus!
