//! The host-side policy of the Vulkan offload backend: which submissions are
//! admitted to the GPU, timeout bounds, handle allocation, scrubbing of
//! host buffers, and the portable pixel refinement.
use vstd::prelude::*;

verus! {

pub const DEFAULT_PACKET_MIN_BATCH_BYTES: usize = 32768;
pub const DEFAULT_TIMEOUT_MS: u64 = 250;
pub const MAX_TIMEOUT_MS: u64 = 5000;
pub const MAX_PENDING_GPU_SUBMISSIONS: usize = 64;
pub const MAX_TERMINAL_RESULTS: usize = 128;
pub const MAX_GPU_PAYLOAD_BYTES: usize = 67108864;
pub const MAX_SURFACE_WORDS: usize = 1048576;
pub const MAX_TOTAL_GPU_ALLOCATION_BYTES: u64 = 268435456;

#[derive(Debug, Clone, Copy, PartialEq, Eq, Hash, Structural)]
pub enum VulkanBackendState {
    Uninitialized,
    Ready,
    Disabled,
    Faulted,
}

#[derive(Debug, Clone, Copy, PartialEq, Eq, Hash, Structural)]
pub enum VulkanExecutionPath {
    Vulkan,
    CpuFallback,
}

#[derive(Debug, Clone, Copy, PartialEq, Eq, Hash, Structural)]
pub enum VulkanWorkloadClass {
    MaintenanceHashing,
    AuditScan,
    PacketPreclassification,
    BulkPrefilter,
    ScreenshotRefine,
    SceneComposition,
}

#[derive(Debug, Clone, Copy, PartialEq, Eq, Structural)]
pub enum VulkanPollStatus {
    Pending,
    Completed,
    TimedOut,
    Missing,
}

#[derive(Debug, Clone, Copy, PartialEq, Eq, Hash, Structural)]
pub enum VulkanFallbackReason {
    NotInitialized,
    DisabledByPolicy,
    CapabilityUnavailable,
    BelowBatchThreshold,
    Timeout,
    SubmissionRejected,
    DriverUnavailable,
    ProbeStageStop,
}

/// The timeout a submission runs under, in nanoseconds: the configured
/// timeout (250 ms when zero, at most 5 s), lowered to the requested one
/// when a non-zero one is asked for.
pub open spec fn spec_effective_timeout(requested: int, configured: int) -> int {
    let hard_max = MAX_TIMEOUT_MS * 1_000_000;
    let configured = if configured == 0 {
        DEFAULT_TIMEOUT_MS * 1_000_000
    } else if configured <= hard_max {
        configured
    } else {
        hard_max
    };
    if requested == 0 { configured } else if requested <= configured { requested } else { configured }
}

pub fn effective_timeout_nanos(requested: u128, configured: u128) -> (r: u128)
    ensures
        r == spec_effective_timeout(requested as int, configured as int),
        0 < r <= 5_000_000_000,
{
    let hard_max: u128 = 5_000_000_000;
    let configured = if configured == 0 {
        250_000_000
    } else if configured <= hard_max {
        configured
    } else {
        hard_max
    };
    if requested == 0 { configured } else if requested <= configured { requested } else { configured }
}

/// The total nanoseconds of a `Duration`, as `Duration::as_nanos` returns
/// them.
pub uninterp spec fn duration_nanos(d: std::time::Duration) -> u128;

/// `Duration::as_nanos`: the total number of nanoseconds the duration holds.
#[verifier::external_body]
fn duration_as_nanos(d: std::time::Duration) -> (r: u128)
    ensures
        r == duration_nanos(d),
{
    d.as_nanos()
}

/// `Duration::from_nanos`: a duration of exactly `nanos` nanoseconds, so
/// `as_nanos` gives `nanos` back.
#[verifier::external_body]
fn duration_from_nanos(nanos: u64) -> (r: std::time::Duration)
    ensures
        duration_nanos(r) == nanos,
{
    std::time::Duration::from_nanos(nanos)
}

/// The bounded timeout of a submission as a `Duration`: the requested
/// timeout, or the configured one when none is requested or the request is
/// longer, the configured one being 250 ms when unset and at most 5 s.
pub fn effective_timeout(requested: std::time::Duration, configured: std::time::Duration) -> (r: std::time::Duration)
    ensures
        duration_nanos(r) == spec_effective_timeout(duration_nanos(requested) as int, duration_nanos(configured) as int),
{
    let r = effective_timeout_nanos(duration_as_nanos(requested), duration_as_nanos(configured));
    duration_from_nanos(r as u64)
}

/// `Zeroize::zeroize` on a vector of words (zeroize crate): every element and
/// the spare capacity are overwritten with zeros, then the vector is
/// cleared, so it is left empty.
#[verifier::external_body]
fn zeroize_words(words: &mut Vec<u32>)
    ensures
        final(words)@.len() == 0,
{
    zeroize::Zeroize::zeroize(words)
}

/// Scrubs the host copy of a submission's surface words; a submission
/// without words is left as it is.
pub fn zeroize_surface_words(words: &mut Option<Vec<u32>>)
    ensures
        match *old(words) {
            Some(_) => *final(words) matches Some(w) && w@.len() == 0,
            None => *final(words) is None,
        },
{
    match words {
        Some(w) => zeroize_words(w),
        None => {},
    }
}

/// A pixel with its red and blue bytes swapped.
pub open spec fn swap_red_blue(p: u32) -> u32 {
    (p & 0xFF00_FF00) | ((p & 0xFF) << 16) | ((p >> 16) & 0xFF)
}

/// Swaps the red and blue channel of every pixel (BGRA <-> RGBA).
pub fn refine_pixels_portable(pixels: &mut Vec<u32>)
    ensures
        final(pixels)@.len() == old(pixels)@.len(),
        forall|i: int| 0 <= i < old(pixels)@.len() ==> #[trigger] final(pixels)@[i] == swap_red_blue(old(pixels)@[i]),
{
    let ghost orig = pixels@;
    let mut i: usize = 0;
    while i < pixels.len()
        invariant
            i <= pixels@.len() == orig.len(),
            forall|k: int| 0 <= k < i ==> #[trigger] pixels@[k] == swap_red_blue(orig[k]),
            forall|k: int| i <= k < orig.len() ==> #[trigger] pixels@[k] == orig[k],
        decreases orig.len() - i,
    {
        let p = pixels[i];
        let high = (p >> 16) & 0xFF;
        let low = p & 0xFF;
        pixels.set(i, (p & 0xFF00_FF00) | (low << 16) | high);
        i += 1;
    }
}

/// A batch offered to the backend.
#[derive(Debug)]
pub struct VulkanBatchSubmission {
    pub workload: VulkanWorkloadClass,
    pub payload_len: usize,
    pub surface_words: Option<Vec<u32>>,
    pub timeout: std::time::Duration,
    pub requires_zeroize: bool,
    pub allows_gpu: bool,
}

/// What the backend knows when it admits a batch.
#[derive(Debug, Clone, Copy, PartialEq, Eq, Structural)]
pub struct AdmissionContext {
    pub state: VulkanBackendState,
    pub packet_min_batch_bytes: usize,
    pub active_gpu_resources: usize,
    pub compute_available: bool,
    pub device_present: bool,
}

/// Why a batch stays on the CPU, in the order the checks run: a malformed
/// payload or word list, a packet batch below the threshold, a caller that
/// forbids the GPU, a backend that is not ready, too many GPU submissions
/// in flight, no compute device, or no surface words for the shader.
pub open spec fn spec_admission(ctx: AdmissionContext, s: VulkanBatchSubmission) -> Option<VulkanFallbackReason> {
    if s.payload_len == 0 || s.payload_len > MAX_GPU_PAYLOAD_BYTES {
        Some(VulkanFallbackReason::SubmissionRejected)
    } else if s.surface_words matches Some(w) && (w@.len() * 4 > usize::MAX || w@.len() == 0
        || w@.len() > MAX_SURFACE_WORDS || w@.len() * 4 != s.payload_len) {
        Some(VulkanFallbackReason::SubmissionRejected)
    } else if s.workload == VulkanWorkloadClass::PacketPreclassification && s.payload_len < ctx.packet_min_batch_bytes {
        Some(VulkanFallbackReason::BelowBatchThreshold)
    } else if !s.allows_gpu {
        Some(VulkanFallbackReason::DisabledByPolicy)
    } else if ctx.state == VulkanBackendState::Uninitialized {
        Some(VulkanFallbackReason::NotInitialized)
    } else if ctx.state == VulkanBackendState::Disabled {
        Some(VulkanFallbackReason::DisabledByPolicy)
    } else if ctx.state == VulkanBackendState::Faulted {
        Some(VulkanFallbackReason::DriverUnavailable)
    } else if ctx.active_gpu_resources >= MAX_PENDING_GPU_SUBMISSIONS {
        Some(VulkanFallbackReason::SubmissionRejected)
    } else if !ctx.compute_available || !ctx.device_present {
        Some(VulkanFallbackReason::CapabilityUnavailable)
    } else if s.surface_words is None {
        Some(VulkanFallbackReason::CapabilityUnavailable)
    } else {
        None
    }
}

/// A batch reaches the GPU only when everything allows it: a payload of
/// 1 byte to 64 MiB, surface words present, non-empty, at most 1 Mi words
/// and matching the payload, a packet batch at or above the threshold, a
/// caller that allows the GPU, a ready backend with fewer than the maximum
/// GPU submissions in flight, and an available compute device. A caller
/// that forbids the GPU always gets the CPU, and, for a well-formed batch
/// that is not below the threshold, for that reason.
pub proof fn law_gpu_admission_requires_everything(ctx: AdmissionContext, s: VulkanBatchSubmission)
    ensures
        spec_admission(ctx, s) is None ==> {
            &&& 0 < s.payload_len <= MAX_GPU_PAYLOAD_BYTES
            &&& s.surface_words matches Some(w) && 0 < w@.len() <= MAX_SURFACE_WORDS && w@.len() * 4 == s.payload_len
            &&& (s.workload == VulkanWorkloadClass::PacketPreclassification ==> s.payload_len >= ctx.packet_min_batch_bytes)
            &&& s.allows_gpu
            &&& ctx.state == VulkanBackendState::Ready
            &&& ctx.active_gpu_resources < MAX_PENDING_GPU_SUBMISSIONS
            &&& ctx.compute_available && ctx.device_present
        },
        !s.allows_gpu ==> spec_admission(ctx, s) is Some,
        (!s.allows_gpu && 0 < s.payload_len <= MAX_GPU_PAYLOAD_BYTES
            && (s.surface_words matches Some(w) ==> (0 < w@.len() <= MAX_SURFACE_WORDS && w@.len() * 4 == s.payload_len))
            && !(s.workload == VulkanWorkloadClass::PacketPreclassification && s.payload_len < ctx.packet_min_batch_bytes))
            ==> spec_admission(ctx, s) == Some(VulkanFallbackReason::DisabledByPolicy),
        (s.allows_gpu && 0 < s.payload_len <= MAX_GPU_PAYLOAD_BYTES
            && (s.surface_words matches Some(w) ==> (0 < w@.len() <= MAX_SURFACE_WORDS && w@.len() * 4 == s.payload_len))
            && !(s.workload == VulkanWorkloadClass::PacketPreclassification && s.payload_len < ctx.packet_min_batch_bytes))
            ==> spec_admission(ctx, s) == (if ctx.state == VulkanBackendState::Uninitialized {
                Some(VulkanFallbackReason::NotInitialized)
            } else if ctx.state == VulkanBackendState::Disabled {
                Some(VulkanFallbackReason::DisabledByPolicy)
            } else if ctx.state == VulkanBackendState::Faulted {
                Some(VulkanFallbackReason::DriverUnavailable)
            } else if ctx.active_gpu_resources >= MAX_PENDING_GPU_SUBMISSIONS {
                Some(VulkanFallbackReason::SubmissionRejected)
            } else if !ctx.compute_available || !ctx.device_present || s.surface_words is None {
                Some(VulkanFallbackReason::CapabilityUnavailable)
            } else {
                None
            }),
        (s.payload_len == 0 || s.payload_len > MAX_GPU_PAYLOAD_BYTES)
            ==> spec_admission(ctx, s) == Some(VulkanFallbackReason::SubmissionRejected),
{
}

pub fn admission_fallback_reason(ctx: AdmissionContext, submission: &VulkanBatchSubmission) -> (r: Option<VulkanFallbackReason>)
    ensures
        r == spec_admission(ctx, *submission),
{
    if submission.payload_len == 0 || submission.payload_len > MAX_GPU_PAYLOAD_BYTES {
        return Some(VulkanFallbackReason::SubmissionRejected);
    }
    match &submission.surface_words {
        Some(words) => {
            let word_bytes = match words.len().checked_mul(4) {
                Some(b) => b,
                None => { return Some(VulkanFallbackReason::SubmissionRejected); }
            };
            if words.len() == 0 || words.len() > MAX_SURFACE_WORDS || word_bytes != submission.payload_len {
                return Some(VulkanFallbackReason::SubmissionRejected);
            }
        },
        None => {},
    }
    if submission.workload == VulkanWorkloadClass::PacketPreclassification && submission.payload_len < ctx.packet_min_batch_bytes {
        return Some(VulkanFallbackReason::BelowBatchThreshold);
    }
    if !submission.allows_gpu {
        return Some(VulkanFallbackReason::DisabledByPolicy);
    }
    match ctx.state {
        VulkanBackendState::Uninitialized => { return Some(VulkanFallbackReason::NotInitialized); },
        VulkanBackendState::Disabled => { return Some(VulkanFallbackReason::DisabledByPolicy); },
        VulkanBackendState::Faulted => { return Some(VulkanFallbackReason::DriverUnavailable); },
        VulkanBackendState::Ready => {},
    }
    if ctx.active_gpu_resources >= MAX_PENDING_GPU_SUBMISSIONS {
        return Some(VulkanFallbackReason::SubmissionRejected);
    }
    if !ctx.compute_available || !ctx.device_present {
        return Some(VulkanFallbackReason::CapabilityUnavailable);
    }
    if submission.surface_words.is_none() {
        return Some(VulkanFallbackReason::CapabilityUnavailable);
    }
    None
}

/// The identity of a batch.
#[derive(Debug, Clone, Copy, PartialEq, Eq, Hash, Structural)]
pub struct VulkanBatchHandle {
    pub id: u64,
    pub generation: u64,
    pub workload: VulkanWorkloadClass,
    pub path: VulkanExecutionPath,
    pub fallback_reason: Option<VulkanFallbackReason>,
}

/// Hands out batch identities: ids count up from 1 within a generation;
/// when the ids run out the generation moves on and ids restart at 1; when
/// both run out, every later batch gets the null identity (0, 0).
#[derive(Debug, Clone, Copy, PartialEq, Eq, Structural)]
pub struct HandleAllocator {
    pub next_submission_id: u64,
    pub submission_generation: u64,
    pub handle_space_exhausted: bool,
}

/// The (generation, id) pair a handle is known by.
pub open spec fn handle_key(h: VulkanBatchHandle) -> (u64, u64) {
    (h.generation, h.id)
}

/// The allocator after handing out its next identity: the next id, or at
/// the last id the first id of the next generation, or exhausted after the
/// last identity of the last generation. An exhausted allocator stays.
pub open spec fn allocator_advanced(a: HandleAllocator) -> HandleAllocator {
    if a.handle_space_exhausted {
        a
    } else if a.next_submission_id == u64::MAX {
        if a.submission_generation == u64::MAX {
            HandleAllocator { handle_space_exhausted: true, ..a }
        } else {
            HandleAllocator { next_submission_id: 1, submission_generation: (a.submission_generation + 1) as u64, ..a }
        }
    } else {
        HandleAllocator { next_submission_id: (a.next_submission_id + 1) as u64, ..a }
    }
}

/// Allocator state `a` lies strictly after identity `k`.
pub open spec fn allocator_after(a: HandleAllocator, k: (u64, u64)) -> bool {
    a.handle_space_exhausted || crate::compd::version_lt(k, (a.submission_generation, a.next_submission_id))
}

impl HandleAllocator {
    pub fn new() -> (r: Self)
        ensures
            r.next_submission_id == 1 && r.submission_generation == 1 && !r.handle_space_exhausted,
    {
        HandleAllocator { next_submission_id: 1, submission_generation: 1, handle_space_exhausted: false }
    }

    /// The next batch identity.
    pub fn allocate_handle(&mut self, workload: VulkanWorkloadClass, path: VulkanExecutionPath,
        fallback_reason: Option<VulkanFallbackReason>) -> (r: VulkanBatchHandle)
        ensures
            r.workload == workload && r.path == path && r.fallback_reason == fallback_reason,
            *final(self) == allocator_advanced(*old(self)),
            old(self).handle_space_exhausted ==> r.id == 0 && r.generation == 0 && *final(self) == *old(self),
            old(self).next_submission_id >= 1 && old(self).submission_generation >= 1 ==>
                final(self).next_submission_id >= 1 && final(self).submission_generation >= 1,
            !old(self).handle_space_exhausted ==> {
                &&& r.id == old(self).next_submission_id && r.generation == old(self).submission_generation
                &&& allocator_after(*final(self), handle_key(r))
                &&& (final(self).handle_space_exhausted <==> (old(self).next_submission_id == u64::MAX
                    && old(self).submission_generation == u64::MAX))
            },
    {
        if self.handle_space_exhausted {
            return VulkanBatchHandle { id: 0, generation: 0, workload, path, fallback_reason };
        }
        let id = self.next_submission_id;
        let generation = self.submission_generation;
        if self.next_submission_id == u64::MAX {
            if self.submission_generation == u64::MAX {
                self.handle_space_exhausted = true;
            } else {
                self.next_submission_id = 1;
                self.submission_generation = self.submission_generation + 1;
            }
        } else {
            self.next_submission_id = self.next_submission_id + 1;
        }
        VulkanBatchHandle { id, generation, workload, path, fallback_reason }
    }
}

/// Two allocations in a row never hand out the same identity: the second
/// is either the null identity of an exhausted allocator or strictly after
/// the first.
pub proof fn lemma_allocations_never_alias(a0: HandleAllocator, a1: HandleAllocator, h1: VulkanBatchHandle, h2: VulkanBatchHandle)
    requires
        !a0.handle_space_exhausted,
        handle_key(h1) == (a0.submission_generation, a0.next_submission_id),
        allocator_after(a1, handle_key(h1)),
        !a1.handle_space_exhausted ==> handle_key(h2) == (a1.submission_generation, a1.next_submission_id),
        a1.handle_space_exhausted ==> handle_key(h2) == (0u64, 0u64),
        a0.submission_generation >= 1 && a0.next_submission_id >= 1,
    ensures
        handle_key(h2) != handle_key(h1),
{
}


#[derive(Debug, Clone, Copy, PartialEq, Eq, Structural)]
pub enum VulkanQueueRoutingMode {
    ComputeOnly,
    SplitTransferCompute,
}

#[derive(Debug, Clone, Copy, PartialEq, Eq, Structural)]
pub enum VulkanMemoryPath {
    HostVisibleDirect,
    DeviceLocalStaged,
}

#[derive(Debug, Clone, Copy, PartialEq, Eq, Structural)]
pub enum VulkanQueueClass {
    Any,
    ComputeOnly,
    TransferPreferred,
}

#[derive(Debug, Clone, Copy, PartialEq, Eq, Structural)]
pub enum VulkanProbeStage {
    InitOnly,
    AfterResourceAlloc,
    AfterDescriptorUpdate,
    Full,
}

#[derive(Debug, Clone, Copy, PartialEq, Eq, Structural)]
pub enum ZeroizeScope {
    DeviceBuffers,
    HostStagingBuffers,
    AllTransientBuffers,
}

/// How the backend is configured.
#[derive(Debug)]
pub struct VulkanBackendConfig {
    pub enable_vulkan: bool,
    pub packet_preclassification_min_batch_bytes: usize,
    pub submit_timeout: std::time::Duration,
}

impl VulkanBackendConfig {
    /// The default configuration: Vulkan off (this build has no Vulkan
    /// acceleration feature), the default packet threshold and timeout.
    pub fn default_config() -> (r: Self)
        ensures
            !r.enable_vulkan,
            r.packet_preclassification_min_batch_bytes == DEFAULT_PACKET_MIN_BATCH_BYTES,
            duration_nanos(r.submit_timeout) == DEFAULT_TIMEOUT_MS as int * 1_000_000,
    {
        VulkanBackendConfig {
            enable_vulkan: false,
            packet_preclassification_min_batch_bytes: DEFAULT_PACKET_MIN_BATCH_BYTES,
            submit_timeout: millis_duration(DEFAULT_TIMEOUT_MS),
        }
    }
}

/// `Duration::from_millis`: a duration of exactly `ms` milliseconds.
#[verifier::external_body]
fn millis_duration(ms: u64) -> (r: std::time::Duration)
    ensures
        duration_nanos(r) == ms as int * 1_000_000,
{
    std::time::Duration::from_millis(ms)
}

/// What the backend found on the machine.
#[derive(Debug, PartialEq, Eq)]
pub struct VulkanBackendCapabilities {
    pub compute_available: bool,
    pub transfer_available: bool,
    pub driver_name: String,
    pub device_name: String,
}

impl VulkanBackendCapabilities {
    /// The capabilities before any device is bound: nothing available.
    pub fn unbound() -> (r: Self)
        ensures
            !r.compute_available && !r.transfer_available,
            r.driver_name@ == "cpu-fallback-contract"@,
            r.device_name@ == "unbound"@,
    {
        proof {
            reveal_strlit("cpu-fallback-contract");
            reveal_strlit("unbound");
        }
        VulkanBackendCapabilities {
            compute_available: false,
            transfer_available: false,
            driver_name: String::from_str("cpu-fallback-contract"),
            device_name: String::from_str("unbound"),
        }
    }
}

/// Counters of the backend.
#[derive(Debug, Clone, Copy, PartialEq, Eq, Structural)]
pub struct VulkanBackendMetrics {
    pub total_submissions: u64,
    pub vulkan_submissions: u64,
    pub cpu_fallback_submissions: u64,
    pub completed_vulkan_submissions: u64,
    pub timed_out_submissions: u64,
    pub driver_faults: u64,
    pub current_gpu_allocation_bytes: u64,
    pub peak_gpu_allocation_bytes: u64,
    pub zeroized_host_bytes: u64,
    pub zeroized_device_bytes: u64,
    pub pending_gpu_submissions: usize,
    pub quarantined_gpu_submissions: usize,
}

impl VulkanBackendMetrics {
    /// All counters at zero.
    pub fn zero() -> (r: Self)
        ensures
            r == (VulkanBackendMetrics {
                total_submissions: 0, vulkan_submissions: 0, cpu_fallback_submissions: 0,
                completed_vulkan_submissions: 0, timed_out_submissions: 0, driver_faults: 0,
                current_gpu_allocation_bytes: 0, peak_gpu_allocation_bytes: 0, zeroized_host_bytes: 0,
                zeroized_device_bytes: 0, pending_gpu_submissions: 0, quarantined_gpu_submissions: 0,
            }),
    {
        VulkanBackendMetrics {
            total_submissions: 0, vulkan_submissions: 0, cpu_fallback_submissions: 0,
            completed_vulkan_submissions: 0, timed_out_submissions: 0, driver_faults: 0,
            current_gpu_allocation_bytes: 0, peak_gpu_allocation_bytes: 0, zeroized_host_bytes: 0,
            zeroized_device_bytes: 0, pending_gpu_submissions: 0, quarantined_gpu_submissions: 0,
        }
    }
}

#[verifier::external_type_specification]
#[verifier::external_body]
pub struct ExInstant(std::time::Instant);

/// The outcome of a batch.
#[derive(Debug)]
pub struct VulkanBatchResult {
    pub handle: VulkanBatchHandle,
    pub path: VulkanExecutionPath,
    pub workload: VulkanWorkloadClass,
    pub fallback_reason: Option<VulkanFallbackReason>,
    pub completed_at: std::time::Instant,
}

/// The result of a batch that ran on the CPU: its own workload, and the
/// given reason or else the handle's.
pub fn fallback_result(handle: VulkanBatchHandle, reason: Option<VulkanFallbackReason>, completed_at: std::time::Instant)
    -> (r: VulkanBatchResult)
    ensures
        r.handle == handle && r.path == VulkanExecutionPath::CpuFallback && r.workload == handle.workload,
        r.fallback_reason == (if reason is Some { reason } else { handle.fallback_reason }),
        r.completed_at == completed_at,
{
    VulkanBatchResult {
        handle,
        path: VulkanExecutionPath::CpuFallback,
        workload: handle.workload,
        fallback_reason: match reason { Some(r) => Some(r), None => handle.fallback_reason },
        completed_at,
    }
}


/// A GPU allocation of `size` bytes fits the aggregate budget on top of the
/// `current` allocation bytes.
pub fn within_gpu_allocation_budget(current: u64, size: u64) -> (r: bool)
    ensures
        r == (current as int + size as int <= MAX_TOTAL_GPU_ALLOCATION_BYTES as int),
{
    current <= MAX_TOTAL_GPU_ALLOCATION_BYTES && size <= MAX_TOTAL_GPU_ALLOCATION_BYTES - current
}

/// Memory type `i` is allowed by the requirement bits and is host visible
/// and coherent.
pub open spec fn usable_memory_type(type_bits: u32, host_coherent: Seq<bool>, i: int) -> bool {
    0 <= i < host_coherent.len() && i < 32 && (type_bits >> (i as u32)) & 1 == 1 && host_coherent[i]
}

/// The first memory type that the requirement bits allow and that is host
/// visible and coherent (`host_coherent[i]` says so of type `i`), if any.
pub fn host_coherent_memory_type(type_bits: u32, host_coherent: &Vec<bool>) -> (r: Option<u32>)
    ensures
        match r {
            Some(i) => usable_memory_type(type_bits, host_coherent@, i as int)
                && forall|j: int| 0 <= j < i ==> !#[trigger] usable_memory_type(type_bits, host_coherent@, j),
            None => forall|j: int| !#[trigger] usable_memory_type(type_bits, host_coherent@, j),
        },
{
    let mut i: u32 = 0;
    while i < 32 && (i as usize) < host_coherent.len()
        invariant
            i <= 32,
            forall|j: int| 0 <= j < i ==> !#[trigger] usable_memory_type(type_bits, host_coherent@, j),
        decreases 32 - i,
    {
        if (type_bits >> i) & 1 == 1 && host_coherent[i as usize] {
            return Some(i);
        }
        i += 1;
    }
    None
}

/// The number of 64-wide workgroups that cover the payload's 32-bit
/// elements, refused when the count overflows or exceeds `u32`.
pub fn dispatch_group_count(payload_len: usize) -> (r: Result<u32, &'static str>)
    ensures
        ({
            let elements = payload_len as int / 4;
            if elements + 63 > usize::MAX {
                r == Err::<u32, &'static str>("dispatch group count overflow")
            } else if (elements + 63) / 64 > u32::MAX {
                r == Err::<u32, &'static str>("dispatch group count exceeds u32")
            } else {
                r == Ok::<u32, &'static str>(((elements + 63) / 64) as u32)
            }
        }),
{
    let elements = payload_len / 4;
    if elements > usize::MAX - 63 {
        return Err("dispatch group count overflow");
    }
    let groups = (elements + 63) / 64;
    if groups > u32::MAX as usize {
        return Err("dispatch group count exceeds u32");
    }
    Ok(groups as u32)
}

} // verus!
