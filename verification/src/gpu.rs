//! GPU detection: normalized capability records, the process-wide mode and
//! cache state, and the detection orchestrator.
//!
//! The orchestrator itself is a pure decision procedure: the surrounding
//! application runs the external vendor utilities under its own timeouts and
//! hands the per-backend outcomes to [`detect_gpu`] (or drives the stepwise
//! interface [`detect_gpu_step`] / [`accept_probe_outcome`], which lets it
//! skip the remaining backends after the first success).

pub mod apple;
pub mod nvidia;

use vstd::prelude::*;

verus! {

/// The closed set of accelerator vendors a detection can report.
#[derive(Clone, Copy, Debug, PartialEq, Eq, Structural)]
pub enum GpuType {
    Apple,
    Nvidia,
    NoGpu,
}

/// The normalized detection result.
///
/// Temperature, power draw and utilization are carried as fixed-point values
/// in tenths of a unit (tenths of a degree Celsius, tenths of a watt, tenths
/// of a percent), so that the record holds plain integers end to end.
#[derive(Debug, PartialEq)]
pub struct GpuInfo {
    pub gpu_type: GpuType,
    pub cuda_version: Option<String>,
    pub driver_version: Option<String>,
    pub compute_capability: Option<String>,
    /// Temperature in tenths of a degree Celsius.
    pub temperature_deci_c: Option<u32>,
    /// Power draw in tenths of a watt.
    pub power_usage_deci_w: Option<u32>,
    /// Utilization in tenths of a percent.
    pub utilization_deci_pct: Option<u32>,
    pub memory_total_mb: u32,
    pub memory_used_mb: Option<u32>,
    pub memory_free_mb: Option<u32>,
}

impl GpuInfo {
    /// The record invariant: a "no accelerator" record carries nothing, and
    /// whenever both the used and the free memory are reported, they add up
    /// to the total.
    pub open spec fn wf(self) -> bool {
        &&& (self.gpu_type == GpuType::NoGpu ==> self == spec_no_accelerator())
        &&& match (self.memory_used_mb, self.memory_free_mb) {
            (Some(u), Some(f)) => u + f == self.memory_total_mb,
            _ => true,
        }
    }
}

impl Clone for GpuInfo {
    fn clone(&self) -> (r: Self)
        ensures
            r == *self,
    {
        GpuInfo {
            gpu_type: self.gpu_type,
            cuda_version: clone_opt_string(&self.cuda_version),
            driver_version: clone_opt_string(&self.driver_version),
            compute_capability: clone_opt_string(&self.compute_capability),
            temperature_deci_c: self.temperature_deci_c,
            power_usage_deci_w: self.power_usage_deci_w,
            utilization_deci_pct: self.utilization_deci_pct,
            memory_total_mb: self.memory_total_mb,
            memory_used_mb: self.memory_used_mb,
            memory_free_mb: self.memory_free_mb,
        }
    }
}

fn clone_opt_string(s: &Option<String>) -> (r: Option<String>)
    ensures
        r == *s,
{
    match s {
        Some(x) => Some(x.clone()),
        None => None,
    }
}

/// The synthetic record returned when no accelerator is present.
pub open spec fn spec_no_accelerator() -> GpuInfo {
    GpuInfo {
        gpu_type: GpuType::NoGpu,
        cuda_version: None,
        driver_version: None,
        compute_capability: None,
        temperature_deci_c: None,
        power_usage_deci_w: None,
        utilization_deci_pct: None,
        memory_total_mb: 0,
        memory_used_mb: None,
        memory_free_mb: None,
    }
}

/// Builds the "no accelerator" record: no vendor, zero total memory,
/// every optional field absent. Returning it counts as a successful
/// detection, not as an error.
pub fn no_accelerator_info() -> (r: GpuInfo)
    ensures
        r == spec_no_accelerator(),
{
    GpuInfo {
        gpu_type: GpuType::NoGpu,
        cuda_version: None,
        driver_version: None,
        compute_capability: None,
        temperature_deci_c: None,
        power_usage_deci_w: None,
        utilization_deci_pct: None,
        memory_total_mb: 0,
        memory_used_mb: None,
        memory_free_mb: None,
    }
}

/// Why a single backend probe found nothing usable. Every variant is
/// non-fatal to the overall detection: the orchestrator moves on to the
/// next backend.
#[derive(Debug)]
pub enum ProbeError {
    /// The external utility could not be located or executed.
    ToolUnavailable,
    /// The utility ran but reports no matching accelerator.
    UnsupportedHardware,
    /// The utility's output did not match the expected schema.
    ParseFailure(String),
}

/// What one timed backend probe came to.
#[derive(Debug)]
pub enum ProbeOutcome {
    Success(GpuInfo),
    Failure(ProbeError),
    TimedOut,
}

/// The one error a detection call can surface to its caller.
#[derive(Clone, Copy, Debug, PartialEq, Eq, Structural)]
pub enum DetectError {
    /// Error simulation was switched on.
    SimulatedFailure,
}

impl DetectError {
    /// The short human-readable message for this error.
    pub fn message(&self) -> (r: String)
        ensures
            r@ == "Simulated GPU error"@,
    {
        String::from_str("Simulated GPU error")
    }
}

/// The process-wide detection state: the three mode switches and the result
/// cache. A caller holds one instance (typically behind a lock) and passes
/// it to every operation; mutate it only through those operations.
pub struct GpuState {
    pub test_mode: bool,
    pub error_simulation: bool,
    pub test_gpu_type: GpuType,
    pub cached_gpu_info: Option<GpuInfo>,
}

impl GpuState {
    /// The state invariant: whatever sits in the cache is a well-formed
    /// record of an actual detection success.
    pub open spec fn wf(self) -> bool {
        self.cached_gpu_info matches Some(i) ==> i.wf()
    }

    /// The state at process start: test mode off, error simulation off,
    /// no simulated backend selected, cache empty.
    pub fn new() -> (r: GpuState)
        ensures
            r.test_mode == false,
            r.error_simulation == false,
            r.test_gpu_type == GpuType::NoGpu,
            r.cached_gpu_info is None,
            r.wf(),
    {
        GpuState {
            test_mode: false,
            error_simulation: false,
            test_gpu_type: GpuType::NoGpu,
            cached_gpu_info: None,
        }
    }
}

/// Switches test mode on or off; nothing else changes.
pub fn set_test_mode(state: &mut GpuState, enabled: bool)
    ensures
        *final(state) == (GpuState { test_mode: enabled, ..*old(state) }),
{
    state.test_mode = enabled;
}

/// Selects which backend's fixture test mode serves; nothing else changes.
pub fn set_test_gpu_type(state: &mut GpuState, gpu_type: GpuType)
    ensures
        *final(state) == (GpuState { test_gpu_type: gpu_type, ..*old(state) }),
{
    state.test_gpu_type = gpu_type;
}

/// Reads the selected backend under test.
pub fn get_test_gpu_type(state: &GpuState) -> (r: GpuType)
    ensures
        r == state.test_gpu_type,
{
    state.test_gpu_type
}

/// Switches error simulation on or off; nothing else changes.
pub fn simulate_error(state: &mut GpuState, enabled: bool)
    ensures
        *final(state) == (GpuState { error_simulation: enabled, ..*old(state) }),
{
    state.error_simulation = enabled;
}

/// Reads the test-mode switch.
pub fn is_test_mode(state: &GpuState) -> (r: bool)
    ensures
        r == state.test_mode,
{
    state.test_mode
}

/// Reads the error-simulation switch.
pub fn is_error_simulation(state: &GpuState) -> (r: bool)
    ensures
        r == state.error_simulation,
{
    state.error_simulation
}

/// What test mode serves for a given backend selector: the backend's
/// fixture, or the synthetic "no accelerator" record when the selector is
/// `NoGpu`.
pub open spec fn is_fixture_for(t: GpuType, r: GpuInfo) -> bool {
    match t {
        GpuType::Apple => apple::is_apple_fixture(r),
        GpuType::Nvidia => nvidia::is_nvidia_fixture(r),
        GpuType::NoGpu => r == spec_no_accelerator(),
    }
}

/// Builds the record test mode serves for the given backend selector.
pub fn fixture_for(t: GpuType) -> (r: GpuInfo)
    ensures
        is_fixture_for(t, r),
        r.wf(),
{
    match t {
        GpuType::Apple => apple::test_fixture(),
        GpuType::Nvidia => nvidia::test_fixture(),
        GpuType::NoGpu => no_accelerator_info(),
    }
}

/// The record of the first successful probe outcome, if any.
pub open spec fn spec_first_success(outcomes: Seq<ProbeOutcome>) -> Option<GpuInfo>
    decreases outcomes.len(),
{
    if outcomes.len() == 0 {
        None
    } else {
        match outcomes[0] {
            ProbeOutcome::Success(info) => Some(info),
            _ => spec_first_success(outcomes.drop_first()),
        }
    }
}

/// Every successful outcome carries a well-formed record.
pub open spec fn outcomes_wf(outcomes: Seq<ProbeOutcome>) -> bool {
    forall|i: int|
        0 <= i < outcomes.len() ==> ((#[trigger] outcomes[i]) matches ProbeOutcome::Success(info)
            ==> info.wf())
}

proof fn lemma_first_success_wf(outcomes: Seq<ProbeOutcome>)
    requires
        outcomes_wf(outcomes),
    ensures
        spec_first_success(outcomes) matches Some(info) ==> info.wf(),
    decreases outcomes.len(),
{
    if outcomes.len() > 0 {
        assert(outcomes[0] matches ProbeOutcome::Success(info) ==> info.wf());
        assert forall|i: int| 0 <= i < outcomes.drop_first().len() implies ((
        #[trigger] outcomes.drop_first()[i]) matches ProbeOutcome::Success(info)
            ==> info.wf()) by {
            assert(outcomes.drop_first()[i] == outcomes[i + 1]);
        }
        lemma_first_success_wf(outcomes.drop_first());
    }
}

proof fn lemma_fixture_wf(t: GpuType, r: GpuInfo)
    requires
        is_fixture_for(t, r),
    ensures
        r.wf(),
{
}

/// The full behaviour of one detection call: how the result and the state
/// after the call relate to the state before it and to the probe outcomes.
pub open spec fn detect_post(
    s0: GpuState,
    s1: GpuState,
    outcomes: Seq<ProbeOutcome>,
    r: Result<GpuInfo, DetectError>,
) -> bool {
    if s0.error_simulation {
        &&& r == Err::<GpuInfo, DetectError>(DetectError::SimulatedFailure)
        &&& s1 == s0
    } else if s0.test_mode {
        &&& (r matches Ok(info) && is_fixture_for(s0.test_gpu_type, info))
        &&& s1 == s0
    } else if s0.cached_gpu_info is Some {
        &&& r == Ok::<GpuInfo, DetectError>(s0.cached_gpu_info.unwrap())
        &&& s1 == s0
    } else {
        match spec_first_success(outcomes) {
            Some(info) => {
                &&& r == Ok::<GpuInfo, DetectError>(info)
                &&& s1 == (GpuState { cached_gpu_info: Some(info), ..s0 })
            },
            None => {
                &&& r == Ok::<GpuInfo, DetectError>(spec_no_accelerator())
                &&& s1 == s0
            },
        }
    }
}

/// What the orchestrator decides before any probe runs.
#[derive(Debug)]
pub enum DetectStep {
    /// Fail at once (error simulation is on); no probe may run.
    Fail(DetectError),
    /// The record to return (a fixture or a cache hit); no probe may run.
    Ready(GpuInfo),
    /// Run the backend probes in priority order and fold their outcomes
    /// through [`accept_probe_outcome`].
    Probe,
}

/// The first decision of a detection call: error simulation wins over
/// everything, then test mode serves its fixture, then a filled cache is
/// returned as is; only a real-mode call with an empty cache probes.
pub fn detect_gpu_step(state: &GpuState) -> (r: DetectStep)
    requires
        state.wf(),
    ensures
        state.error_simulation ==> (r matches DetectStep::Fail(e) && e
            == DetectError::SimulatedFailure),
        !state.error_simulation && state.test_mode ==> (r matches DetectStep::Ready(info)
            && is_fixture_for(state.test_gpu_type, info) && info.wf()),
        !state.error_simulation && !state.test_mode && state.cached_gpu_info is Some ==> r
            == DetectStep::Ready(state.cached_gpu_info.unwrap()),
        !state.error_simulation && !state.test_mode && state.cached_gpu_info is None ==> r
            is Probe,
{
    if state.error_simulation {
        return DetectStep::Fail(DetectError::SimulatedFailure);
    }
    if state.test_mode {
        return DetectStep::Ready(fixture_for(state.test_gpu_type));
    }
    match &state.cached_gpu_info {
        Some(info) => DetectStep::Ready(info.clone()),
        None => DetectStep::Probe,
    }
}

/// The fixed backend priority order: NVIDIA first, Apple second.
pub open spec fn spec_backend_priority() -> Seq<GpuType> {
    seq![GpuType::Nvidia, GpuType::Apple]
}

/// The fixed, total backend priority order the application probes in. The
/// order expresses a vendor preference; it never changes between calls.
pub fn backend_priority() -> (r: Vec<GpuType>)
    ensures
        r@ == spec_backend_priority(),
{
    let mut v: Vec<GpuType> = Vec::new();
    v.push(GpuType::Nvidia);
    v.push(GpuType::Apple);
    proof {
        assert(v@ =~= spec_backend_priority());
    }
    v
}

/// Folds one probe outcome into the state: a success is cached and returned
/// (the caller then skips every remaining backend); anything else changes
/// nothing and the caller moves on to the next backend.
pub fn accept_probe_outcome(state: &mut GpuState, outcome: ProbeOutcome) -> (r: Option<GpuInfo>)
    requires
        old(state).wf(),
        (outcome matches ProbeOutcome::Success(info) ==> info.wf()),
    ensures
        final(state).wf(),
        (match outcome {
            ProbeOutcome::Success(info) => r == Some(info) && *final(state) == (GpuState {
                cached_gpu_info: Some(info),
                ..*old(state)
            }),
            _ => r is None && *final(state) == *old(state),
        }),
{
    match outcome {
        ProbeOutcome::Success(info) => {
            let out = info.clone();
            state.cached_gpu_info = Some(info);
            Some(out)
        },
        _ => None,
    }
}

/// One whole detection call over the given probe outcomes, listed in
/// backend priority order (see [`backend_priority`]).
///
/// Error simulation fails the call at once; test mode serves the selected
/// fixture; a filled cache is served as is; otherwise the first successful
/// outcome is cached and returned, and if none is, the synthetic "no
/// accelerator" record is returned without being cached.
pub fn detect_gpu(state: &mut GpuState, outcomes: Vec<ProbeOutcome>) -> (r: Result<
    GpuInfo,
    DetectError,
>)
    requires
        old(state).wf(),
        outcomes_wf(outcomes@),
    ensures
        detect_post(*old(state), *final(state), outcomes@, r),
        final(state).wf(),
        r matches Ok(info) ==> info.wf(),
{
    let ghost all = outcomes@;
    match detect_gpu_step(state) {
        DetectStep::Fail(e) => Err(e),
        DetectStep::Ready(info) => {
            proof {
                if !state.error_simulation && state.test_mode {
                    lemma_fixture_wf(state.test_gpu_type, info);
                }
            }
            Ok(info)
        },
        DetectStep::Probe => {
            let mut rest = outcomes;
            loop
                invariant
                    all == outcomes@,
                    *state == *old(state),
                    state.wf(),
                    !state.error_simulation,
                    !state.test_mode,
                    state.cached_gpu_info is None,
                    outcomes_wf(rest@),
                    spec_first_success(rest@) == spec_first_success(all),
                decreases rest.len(),
            {
                if rest.len() == 0 {
                    return Ok(no_accelerator_info());
                }
                let ghost before = rest@;
                let o = rest.remove(0);
                proof {
                    assert(before.remove(0) =~= before.drop_first());
                    assert(o == before[0]);
                    assert forall|i: int| 0 <= i < rest@.len() implies ((#[trigger] rest@[i]) matches
                        ProbeOutcome::Success(info) ==> info.wf()) by {
                        assert(rest@[i] == before[i + 1]);
                    }
                }
                match accept_probe_outcome(state, o) {
                    Some(info) => {
                        return Ok(info);
                    },
                    None => {},
                }
            }
        },
    }
}

/// In test mode without error simulation, detection serves exactly the
/// selected backend's fixture: the result does not depend on any probe
/// outcome (no probe is consulted), two calls agree in every observable
/// field, and the state — the cache included — is left unchanged.
pub proof fn lemma_test_mode_fixture(
    s: GpuState,
    s1: GpuState,
    s2: GpuState,
    o1: Seq<ProbeOutcome>,
    o2: Seq<ProbeOutcome>,
    r1: Result<GpuInfo, DetectError>,
    r2: Result<GpuInfo, DetectError>,
)
    requires
        s.test_mode,
        !s.error_simulation,
        detect_post(s, s1, o1, r1),
        detect_post(s, s2, o2, r2),
    ensures
        r1 matches Ok(info) && is_fixture_for(s.test_gpu_type, info),
        s1 == s,
        s2 == s,
        (r1 matches Ok(i1) && r2 matches Ok(i2) && gpu_info_like(i1, i2)),
{
}

/// Field-for-field agreement of two records, strings compared by content.
pub open spec fn gpu_info_like(a: GpuInfo, b: GpuInfo) -> bool {
    &&& a.gpu_type == b.gpu_type
    &&& opt_string_like(a.cuda_version, b.cuda_version)
    &&& opt_string_like(a.driver_version, b.driver_version)
    &&& opt_string_like(a.compute_capability, b.compute_capability)
    &&& a.temperature_deci_c == b.temperature_deci_c
    &&& a.power_usage_deci_w == b.power_usage_deci_w
    &&& a.utilization_deci_pct == b.utilization_deci_pct
    &&& a.memory_total_mb == b.memory_total_mb
    &&& a.memory_used_mb == b.memory_used_mb
    &&& a.memory_free_mb == b.memory_free_mb
}

/// Agreement of two optional strings, compared by content.
pub open spec fn opt_string_like(a: Option<String>, b: Option<String>) -> bool {
    match (a, b) {
        (Some(x), Some(y)) => x@ == y@,
        (None, None) => true,
        _ => false,
    }
}

/// Error simulation wins over everything: a detection fails exactly when
/// the switch is on, the failure is the simulated one, and the state is
/// left unchanged — so switching the simulation off afterwards restores
/// the state, and with it the behaviour, from before it was switched on.
pub proof fn lemma_error_simulation(
    s: GpuState,
    s1: GpuState,
    o: Seq<ProbeOutcome>,
    r: Result<GpuInfo, DetectError>,
)
    requires
        detect_post(s, s1, o, r),
    ensures
        r is Err <==> s.error_simulation,
        s.error_simulation ==> r == Err::<GpuInfo, DetectError>(DetectError::SimulatedFailure) && s1
            == s,
        !s.error_simulation ==> (GpuState {
            error_simulation: false,
            ..(GpuState { error_simulation: true, ..s })
        }) == s,
{
}

/// Cache idempotence: after a real-mode detection that produced a
/// cacheable success (or with the cache already filled), a second
/// real-mode detection is a pure cache hit: it returns the very record of
/// the first call, whatever its own probe outcomes are — so no probe needs
/// to run — and changes nothing.
pub proof fn lemma_cache_idempotent(
    s: GpuState,
    s1: GpuState,
    s2: GpuState,
    o1: Seq<ProbeOutcome>,
    o2: Seq<ProbeOutcome>,
    r1: Result<GpuInfo, DetectError>,
    r2: Result<GpuInfo, DetectError>,
)
    requires
        !s.test_mode,
        !s.error_simulation,
        s.cached_gpu_info is Some || spec_first_success(o1) is Some,
        detect_post(s, s1, o1, r1),
        detect_post(s1, s2, o2, r2),
    ensures
        r1 matches Ok(info) && r2 == Ok::<GpuInfo, DetectError>(info),
        s2 == s1,
{
}

/// Full miss: when every backend probe fails or times out, a real-mode
/// detection still succeeds, with the synthetic "no accelerator" record,
/// and that record is not cached, so a later call probes afresh and can
/// discover hardware that has become available.
pub proof fn lemma_full_miss(
    s: GpuState,
    s1: GpuState,
    o: Seq<ProbeOutcome>,
    r: Result<GpuInfo, DetectError>,
)
    requires
        !s.test_mode,
        !s.error_simulation,
        s.cached_gpu_info is None,
        spec_first_success(o) is None,
        detect_post(s, s1, o, r),
    ensures
        r == Ok::<GpuInfo, DetectError>(spec_no_accelerator()),
        s1 == s,
        s1.cached_gpu_info is None,
{
}

/// Memory invariant: every record a detection returns is well-formed; in
/// particular, whenever both the used and the free memory are present,
/// their sum equals the total memory. The state invariant is preserved.
pub proof fn lemma_memory_invariant(
    s: GpuState,
    s1: GpuState,
    o: Seq<ProbeOutcome>,
    r: Result<GpuInfo, DetectError>,
)
    requires
        s.wf(),
        outcomes_wf(o),
        detect_post(s, s1, o, r),
    ensures
        r matches Ok(info) ==> info.wf() && match (info.memory_used_mb, info.memory_free_mb) {
            (Some(u), Some(f)) => u + f == info.memory_total_mb,
            _ => true,
        },
        s1.wf(),
{
    if s.error_simulation {
    } else if s.test_mode {
        let info = r.unwrap();
        lemma_fixture_wf(s.test_gpu_type, info);
    } else if s.cached_gpu_info is Some {
        assert(s.cached_gpu_info.unwrap().wf());
    } else {
        match spec_first_success(o) {
            Some(info) => {
                lemma_first_success_wf(o);
                assert(info.wf());
            },
            None => {
                assert(spec_no_accelerator().wf());
            },
        }
    }
}

} // verus!
