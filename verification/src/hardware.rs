//! The host hardware collector: reads CPU and memory facts from the host
//! through the `sysinfo` crate, validates them, and checks them against
//! system requirements.
//!
//! The host facts are ambient, so nothing can be promised about their
//! values; what is verified is everything done with them: the record is
//! only ever returned valid, and the requirement checks are exact.

use crate::text::{spec_trim, str_eq, trim};
use vstd::prelude::*;
use vstd::string::*;

verus! {

/// Errors of hardware retrieval, validation and compatibility checking.
#[derive(Debug)]
pub enum HardwareError {
    /// CPU-related errors.
    CpuError(String),
    /// Memory-related errors.
    MemoryError(String),
    /// System compatibility errors.
    CompatibilityError(String),
    /// General system errors.
    SystemError(String),
}

impl HardwareError {
    /// The short human-readable message: the category, then the detail.
    pub fn message(&self) -> (r: String)
        ensures
            match *self {
                HardwareError::CpuError(m) => r@ == "CPU Error: "@ + m@,
                HardwareError::MemoryError(m) => r@ == "Memory Error: "@ + m@,
                HardwareError::CompatibilityError(m) => r@ == "Compatibility Error: "@ + m@,
                HardwareError::SystemError(m) => r@ == "System Error: "@ + m@,
            },
    {
        match self {
            HardwareError::CpuError(m) => {
                let mut s = String::from_str("CPU Error: ");
                s.append(m.as_str());
                s
            },
            HardwareError::MemoryError(m) => {
                let mut s = String::from_str("Memory Error: ");
                s.append(m.as_str());
                s
            },
            HardwareError::CompatibilityError(m) => {
                let mut s = String::from_str("Compatibility Error: ");
                s.append(m.as_str());
                s
            },
            HardwareError::SystemError(m) => {
                let mut s = String::from_str("System Error: ");
                s.append(m.as_str());
                s
            },
        }
    }
}

/// System compatibility requirements.
#[derive(Debug)]
pub struct SystemRequirements {
    pub min_cpu_cores: usize,
    pub min_memory_kb: u64,
    pub supported_platforms: Vec<String>,
}

impl Default for SystemRequirements {
    /// The default requirements: two cores, four binary-million kilobytes of
    /// memory, and the three mainstream platforms.
    fn default() -> (r: Self)
        ensures
            r.min_cpu_cores == 2,
            r.min_memory_kb == 4 * 1024 * 1024,
            r.supported_platforms.deep_view() == seq!["windows"@, "macos"@, "linux"@],
    {
        let mut supported_platforms: Vec<String> = Vec::new();
        supported_platforms.push(String::from_str("windows"));
        supported_platforms.push(String::from_str("macos"));
        supported_platforms.push(String::from_str("linux"));
        proof {
            assert(supported_platforms.deep_view() =~= seq!["windows"@, "macos"@, "linux"@]);
        }
        SystemRequirements { min_cpu_cores: 2, min_memory_kb: 4 * 1024 * 1024, supported_platforms }
    }
}

/// The system hardware information.
#[derive(Debug, PartialEq)]
pub struct HardwareInfo {
    pub cpu_count: usize,
    pub cpu_brand: String,
    pub memory_total: u64,
    pub memory_used: u64,
    pub platform: String,
}

/// The platform name as the compatibility check reads it: an older Darwin
/// name counts as macOS.
pub open spec fn spec_platform_key(platform: Seq<char>) -> Seq<char> {
    if platform == "darwin"@ {
        "macos"@
    } else {
        platform
    }
}

/// Whether the platform is one of the supported ones.
pub open spec fn spec_platform_supported(platform: Seq<char>, supported: Seq<Seq<char>>) -> bool {
    exists|i: int| 0 <= i < supported.len() && #[trigger] supported[i] == spec_platform_key(platform)
}

impl HardwareInfo {
    /// A valid record: at least one core, a non-blank brand, some memory,
    /// and no more memory used than there is.
    pub open spec fn spec_valid(self) -> bool {
        &&& self.cpu_count > 0
        &&& spec_trim(self.cpu_brand@).len() > 0
        &&& self.memory_total > 0
        &&& self.memory_used <= self.memory_total
    }

    /// Whether this record meets the given requirements.
    pub open spec fn spec_meets(self, reqs: SystemRequirements) -> bool {
        &&& self.cpu_count >= reqs.min_cpu_cores
        &&& self.memory_total >= reqs.min_memory_kb
        &&& spec_platform_supported(self.platform@, reqs.supported_platforms.deep_view())
    }

    /// Validates the record: `Ok` exactly on valid records, and otherwise
    /// the first failing check, in the order core count, brand, total
    /// memory, used memory, decides the error and its message.
    pub fn validate(&self) -> (r: Result<(), HardwareError>)
        ensures
            r is Ok <==> self.spec_valid(),
            self.cpu_count == 0 ==> (r matches Err(HardwareError::CpuError(m)) && m@
                == "Invalid CPU count"@),
            self.cpu_count > 0 && spec_trim(self.cpu_brand@).len() == 0 ==> (r matches Err(
                HardwareError::CpuError(m),
            ) && m@ == "Invalid CPU brand information"@),
            self.cpu_count > 0 && spec_trim(self.cpu_brand@).len() > 0 && self.memory_total == 0
                ==> (r matches Err(HardwareError::MemoryError(m)) && m@
                == "Invalid total memory value"@),
            self.cpu_count > 0 && spec_trim(self.cpu_brand@).len() > 0 && self.memory_total > 0
                && self.memory_used > self.memory_total ==> (r matches Err(
                HardwareError::MemoryError(m),
            ) && m@ == "Used memory exceeds total memory"@),
    {
        if self.cpu_count == 0 {
            return Err(HardwareError::CpuError(String::from_str("Invalid CPU count")));
        }
        let brand = trim(self.cpu_brand.as_str());
        if brand.as_str().is_empty() {
            return Err(HardwareError::CpuError(String::from_str("Invalid CPU brand information")));
        }
        if self.memory_total == 0 {
            return Err(HardwareError::MemoryError(String::from_str("Invalid total memory value")));
        }
        if self.memory_used > self.memory_total {
            return Err(
                HardwareError::MemoryError(String::from_str("Used memory exceeds total memory")),
            );
        }
        Ok(())
    }

    /// Checks the record against the requirements: `Ok` exactly when it
    /// meets them, and otherwise the first failing check, in the order
    /// cores, memory, platform, decides the message.
    pub fn meets_requirements(&self, reqs: &SystemRequirements) -> (r: Result<(), HardwareError>)
        ensures
            r is Ok <==> self.spec_meets(*reqs),
            self.cpu_count < reqs.min_cpu_cores ==> (r matches Err(
                HardwareError::CompatibilityError(m),
            ) && m@ == "Insufficient CPU cores"@),
            self.cpu_count >= reqs.min_cpu_cores && self.memory_total < reqs.min_memory_kb ==> (
            r matches Err(HardwareError::CompatibilityError(m)) && m@ == "Insufficient memory"@),
            self.cpu_count >= reqs.min_cpu_cores && self.memory_total >= reqs.min_memory_kb
                && !spec_platform_supported(
                self.platform@,
                reqs.supported_platforms.deep_view(),
            ) ==> (r matches Err(HardwareError::CompatibilityError(m)) && m@
                == "Unsupported platform"@),
    {
        if self.cpu_count < reqs.min_cpu_cores {
            return Err(
                HardwareError::CompatibilityError(String::from_str("Insufficient CPU cores")),
            );
        }
        if self.memory_total < reqs.min_memory_kb {
            return Err(HardwareError::CompatibilityError(String::from_str("Insufficient memory")));
        }
        let key: &str = if str_eq(self.platform.as_str(), "darwin") {
            "macos"
        } else {
            self.platform.as_str()
        };
        proof {
            assert(key@ == spec_platform_key(self.platform@));
        }
        let ghost dv = reqs.supported_platforms.deep_view();
        let n = reqs.supported_platforms.len();
        let mut i: usize = 0;
        let mut found: bool = false;
        while i < n
            invariant
                n == reqs.supported_platforms.len(),
                dv == reqs.supported_platforms.deep_view(),
                key@ == spec_platform_key(self.platform@),
                0 <= i <= n,
                found <==> exists|j: int| 0 <= j < i && #[trigger] dv[j] == key@,
            decreases n - i,
        {
            if str_eq(reqs.supported_platforms[i].as_str(), key) {
                found = true;
                proof {
                    assert(dv[i as int] == reqs.supported_platforms@[i as int]@);
                }
            }
            i = i + 1;
        }
        if found {
            Ok(())
        } else {
            proof {
                assert forall|j: int| 0 <= j < dv.len() implies #[trigger] dv[j] != key@ by {
                    assert(!(exists|k: int| 0 <= k < i && #[trigger] dv[k] == key@));
                }
            }
            Err(HardwareError::CompatibilityError(String::from_str("Unsupported platform")))
        }
    }
}

// What follows reaches the `sysinfo` crate. Each trusted item below names
// the one function it relies on; nothing is promised of the ambient host
// facts, and every verified caller states what holds of every outcome.
#[verifier::external_type_specification]
#[verifier::external_body]
pub struct ExSystem(sysinfo::System);

/// Relies on `sysinfo::System::new_all`: a new snapshot of the host with
/// everything collected.
#[verifier::external_body]
pub(crate) fn new_system() -> sysinfo::System {
    sysinfo::System::new_all()
}

/// Relies on `sysinfo::System::refresh_all`: refreshes every collected
/// fact of the snapshot.
#[verifier::external_body]
pub(crate) fn refresh_system(sys: &mut sysinfo::System) {
    sys.refresh_all();
}

/// Relies on `sysinfo::System::cpus`: the snapshot's CPU list, whose
/// length is the logical CPU count.
#[verifier::external_body]
pub(crate) fn system_cpu_count(sys: &sysinfo::System) -> usize {
    sys.cpus().len()
}

/// Relies on `sysinfo::System::cpus` and `sysinfo::Cpu::brand`: the brand
/// string of the snapshot's first CPU, when it has one.
#[verifier::external_body]
pub(crate) fn system_first_cpu_brand(sys: &sysinfo::System) -> Option<String> {
    sys.cpus().first().map(|cpu| cpu.brand().to_string())
}

/// Relies on `sysinfo::System::total_memory`: the RAM size in bytes.
#[verifier::external_body]
pub(crate) fn system_total_memory(sys: &sysinfo::System) -> u64 {
    sys.total_memory()
}

/// Relies on `sysinfo::System::used_memory`: the used RAM in bytes.
#[verifier::external_body]
pub(crate) fn system_used_memory(sys: &sysinfo::System) -> u64 {
    sys.used_memory()
}

/// Whether a brand reading is usable: present and not blank.
pub open spec fn spec_brand_present(brand: Option<String>) -> bool {
    match brand {
        Some(b) => spec_trim(b@).len() > 0,
        None => false,
    }
}

/// Builds the record from one snapshot's readings, rejecting unusable
/// ones: the first failing check, in the order core count, brand, total
/// memory, used memory, decides the error and its message. On `Ok` the
/// record carries exactly the given values, the brand trimmed.
pub fn build_hardware_info(
    cpu_count: usize,
    cpu_brand: Option<String>,
    memory_total: u64,
    memory_used: u64,
    platform: &str,
) -> (r: Result<HardwareInfo, HardwareError>)
    ensures
        r is Ok <==> cpu_count > 0 && spec_brand_present(cpu_brand) && memory_total > 0
            && memory_used <= memory_total,
        r matches Ok(info) ==> {
            &&& info.cpu_count == cpu_count
            &&& (cpu_brand matches Some(b) && info.cpu_brand@ == spec_trim(b@))
            &&& info.memory_total == memory_total
            &&& info.memory_used == memory_used
            &&& info.platform@ == platform@
            &&& info.spec_valid()
        },
        cpu_count == 0 ==> (r matches Err(HardwareError::CpuError(m)) && m@
            == "No CPU cores detected"@),
        cpu_count > 0 && !spec_brand_present(cpu_brand) ==> (r matches Err(HardwareError::CpuError(
            m,
        )) && m@ == "Failed to retrieve CPU information"@),
        cpu_count > 0 && spec_brand_present(cpu_brand) && memory_total == 0 ==> (r matches Err(
            HardwareError::MemoryError(m),
        ) && m@ == "Failed to detect system memory"@),
        cpu_count > 0 && spec_brand_present(cpu_brand) && memory_total > 0 && memory_used
            > memory_total ==> (r matches Err(HardwareError::MemoryError(m)) && m@
            == "Used memory exceeds total memory"@),
        r matches Err(e) ==> (e is CpuError || e is MemoryError),
{
    if cpu_count == 0 {
        return Err(HardwareError::CpuError(String::from_str("No CPU cores detected")));
    }
    let brand_raw = match cpu_brand {
        Some(b) => b,
        None => {
            return Err(
                HardwareError::CpuError(String::from_str("Failed to retrieve CPU information")),
            );
        },
    };
    let brand = trim(brand_raw.as_str());
    if brand.as_str().is_empty() {
        return Err(
            HardwareError::CpuError(String::from_str("Failed to retrieve CPU information")),
        );
    }
    if memory_total == 0 {
        return Err(HardwareError::MemoryError(String::from_str("Failed to detect system memory")));
    }
    if memory_used > memory_total {
        return Err(
            HardwareError::MemoryError(String::from_str("Used memory exceeds total memory")),
        );
    }
    proof {
        crate::text::lemma_trim_idempotent(brand_raw@);
    }
    Ok(
        HardwareInfo {
            cpu_count,
            cpu_brand: brand,
            memory_total,
            memory_used,
            platform: platform.to_owned(),
        },
    )
}

/// One retrieval attempt: reads a fresh snapshot, converts the memory
/// readings from bytes to the kilobyte units the requirements use, and
/// builds the validated record. The caller supplies the platform name (the
/// operating system constant), which the record carries through unchanged.
fn try_get_hardware_info(platform: &str) -> (r: Result<HardwareInfo, HardwareError>)
    ensures
        r matches Ok(info) ==> info.spec_valid() && info.platform@ == platform@,
        r matches Err(e) ==> (e is CpuError || e is MemoryError),
{
    let mut sys = new_system();
    refresh_system(&mut sys);
    let cpu_count = system_cpu_count(&sys);
    let cpu_brand = system_first_cpu_brand(&sys);
    let memory_total = system_total_memory(&sys) / 1024;
    let memory_used = system_used_memory(&sys) / 1024;
    build_hardware_info(cpu_count, cpu_brand, memory_total, memory_used, platform)
}

/// How many attempts hardware retrieval makes before giving up.
const MAX_RETRIES: u32 = 3;

/// Retrieves the current hardware information, attempting up to three
/// times; whatever it returns with `Ok` is a valid record carrying the
/// given platform name. Pacing between attempts is the caller's concern.
pub fn get_hardware_info(platform: &str) -> (r: Result<HardwareInfo, HardwareError>)
    ensures
        r matches Ok(info) ==> info.spec_valid() && info.platform@ == platform@,
        r matches Err(e) ==> (e is CpuError || e is MemoryError),
{
    let mut attempt: u32 = 1;
    loop
        invariant
            1 <= attempt <= MAX_RETRIES,
        decreases MAX_RETRIES - attempt,
    {
        match try_get_hardware_info(platform) {
            Ok(info) => {
                return Ok(info);
            },
            Err(e) => {
                if attempt == MAX_RETRIES {
                    return Err(e);
                }
                attempt = attempt + 1;
            },
        }
    }
}

/// Whether the record meets the default requirements, spelled out: two
/// cores, four binary-million kilobytes of memory, one of the three
/// mainstream platforms.
pub open spec fn spec_meets_default(info: HardwareInfo) -> bool {
    &&& info.cpu_count >= 2
    &&& info.memory_total >= 4 * 1024 * 1024
    &&& spec_platform_supported(info.platform@, seq!["windows"@, "macos"@, "linux"@])
}

/// Whether this host meets the default system requirements. The caller
/// supplies the platform name (the operating system constant). On `Ok`,
/// some valid record of this platform met the default requirements; a
/// compatibility error carries one of the three exact messages and means a
/// valid record of this platform was retrieved and failed the check; any
/// other error is the retrieval's own.
pub fn check_system_compatibility(platform: &str) -> (r: Result<(), HardwareError>)
    ensures
        r is Ok ==> exists|info: HardwareInfo|
            #[trigger] info.spec_valid() && info.platform@ == platform@ && spec_meets_default(info),
        r matches Err(e) ==> !(e is SystemError),
        r matches Err(HardwareError::CompatibilityError(m)) ==> (m@ == "Insufficient CPU cores"@
            || m@ == "Insufficient memory"@ || m@ == "Unsupported platform"@) && (exists|
            info: HardwareInfo,
        |
            #[trigger] info.spec_valid() && info.platform@ == platform@ && !spec_meets_default(
                info,
            )),
{
    let info = match get_hardware_info(platform) {
        Ok(i) => i,
        Err(e) => {
            return Err(e);
        },
    };
    let reqs = SystemRequirements::default();
    let r = info.meets_requirements(&reqs);
    proof {
        if r is Ok {
            assert(info.spec_valid() && info.platform@ == platform@ && spec_meets_default(info));
        } else {
            assert(!spec_meets_default(info));
            assert(info.spec_valid() && info.platform@ == platform@ && !spec_meets_default(info));
        }
    }
    r
}

} // verus!
