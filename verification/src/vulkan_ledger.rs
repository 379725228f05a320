//! The bookkeeping of the Vulkan offload backend: batches in flight,
//! quarantined GPU resources, the bounded history of terminal results,
//! backend state and metrics. The GPU objects behind each batch are kept by
//! the caller under the same key.
use vstd::prelude::*;
use crate::vulkan::{
    admission_fallback_reason, spec_admission, AdmissionContext, HandleAllocator, VulkanBackendMetrics, VulkanBackendState,
    VulkanBatchHandle, VulkanBatchSubmission, VulkanExecutionPath, VulkanFallbackReason, VulkanPollStatus, VulkanWorkloadClass,
    MAX_TERMINAL_RESULTS,
};

verus! {

/// A batch is known by its (generation, id).
pub open spec fn key_of(h: VulkanBatchHandle) -> (u64, u64) {
    (h.generation, h.id)
}

/// A batch on the GPU.
#[derive(Debug, Clone, Copy)]
pub struct SubmissionRecord {
    pub workload: VulkanWorkloadClass,
    pub allocation_size: u64,
    pub completed_at: Option<std::time::Instant>,
    pub requires_zeroize: bool,
}

/// How a batch ended without completing normally.
#[derive(Debug, Clone, Copy)]
pub struct TerminalRecord {
    pub status: VulkanPollStatus,
    pub fallback_reason: VulkanFallbackReason,
    pub completed_at: std::time::Instant,
}

/// The keys of a keyed list.
pub open spec fn list_keys<V>(s: Seq<((u64, u64), V)>) -> Set<(u64, u64)> {
    Set::new(|k: (u64, u64)| exists|i: int| 0 <= i < s.len() && s[i].0 == k)
}

/// The keys of a keyed list are pairwise distinct.
pub open spec fn unique_keys<V>(s: Seq<((u64, u64), V)>) -> bool {
    forall|i: int, j: int| 0 <= i < j < s.len() ==> s[i].0 != s[j].0
}

/// The entry of a key, if any.
pub open spec fn entry_of<V>(s: Seq<((u64, u64), V)>, k: (u64, u64)) -> Option<V> {
    if exists|i: int| 0 <= i < s.len() && s[i].0 == k {
        Some(s[choose|i: int| 0 <= i < s.len() && s[i].0 == k].1)
    } else {
        None
    }
}

fn position<V>(list: &Vec<((u64, u64), V)>, key: (u64, u64)) -> (r: Option<usize>)
    ensures
        match r {
            Some(i) => i < list@.len() && list@[i as int].0 == key,
            None => !list_keys(list@).contains(key),
        },
{
    let mut i: usize = 0;
    while i < list.len()
        invariant
            i <= list@.len(),
            forall|j: int| 0 <= j < i ==> #[trigger] list@[j].0 != key,
        decreases list@.len() - i,
    {
        if list[i].0.0 == key.0 && list[i].0.1 == key.1 {
            return Some(i);
        }
        i += 1;
    }
    None
}

proof fn lemma_entry_at<V>(s: Seq<((u64, u64), V)>, i: int)
    requires
        unique_keys(s),
        0 <= i < s.len(),
    ensures
        entry_of(s, s[i].0) == Some(s[i].1),
        list_keys(s).contains(s[i].0),
{
    let k = s[i].0;
    let j = choose|j: int| 0 <= j < s.len() && s[j].0 == k;
    assert(j == i);
}

proof fn lemma_remove_entry<V>(s: Seq<((u64, u64), V)>, i: int)
    requires
        unique_keys(s),
        0 <= i < s.len(),
    ensures
        unique_keys(s.remove(i)),
        list_keys(s.remove(i)) == list_keys(s).remove(s[i].0),
        forall|k: (u64, u64)| k != s[i].0 ==> entry_of(s.remove(i), k) == entry_of(s, k),
{
    let r = s.remove(i);
    assert forall|a: int, b: int| 0 <= a < b < r.len() implies r[a].0 != r[b].0 by {
        let a2 = if a < i { a } else { a + 1 };
        let b2 = if b < i { b } else { b + 1 };
        assert(r[a] == s[a2] && r[b] == s[b2]);
    }
    assert forall|k: (u64, u64)| list_keys(r).contains(k) <==> list_keys(s).remove(s[i].0).contains(k) by {
        if list_keys(r).contains(k) {
            let a = choose|a: int| 0 <= a < r.len() && r[a].0 == k;
            let a2 = if a < i { a } else { a + 1 };
            assert(r[a] == s[a2]);
        }
        if list_keys(s).remove(s[i].0).contains(k) {
            let a = choose|a: int| 0 <= a < s.len() && s[a].0 == k;
            assert(a != i);
            if a < i { assert(r[a] == s[a]); } else { assert(r[a - 1] == s[a]); }
        }
    }
    assert(list_keys(r) =~= list_keys(s).remove(s[i].0));
    assert forall|k: (u64, u64)| k != s[i].0 implies entry_of(r, k) == entry_of(s, k) by {
        if list_keys(s).contains(k) {
            let a = choose|a: int| 0 <= a < s.len() && s[a].0 == k;
            lemma_entry_at(s, a);
            assert(a != i);
            let a3 = if a < i { a } else { a - 1 };
            assert(r[a3] == s[a]);
            lemma_entry_at(r, a3);
        } else {
            assert(!list_keys(r).contains(k));
        }
    }
}

proof fn lemma_push_entry<V>(s: Seq<((u64, u64), V)>, k: (u64, u64), v: V)
    requires
        unique_keys(s),
        !list_keys(s).contains(k),
    ensures
        unique_keys(s.push((k, v))),
        list_keys(s.push((k, v))) == list_keys(s).insert(k),
        entry_of(s.push((k, v)), k) == Some(v),
        forall|k2: (u64, u64)| k2 != k ==> entry_of(s.push((k, v)), k2) == entry_of(s, k2),
{
    let r = s.push((k, v));
    assert forall|a: int, b: int| 0 <= a < b < r.len() implies r[a].0 != r[b].0 by {
        if b == s.len() {
            assert(r[a] == s[a]);
            assert(list_keys(s).contains(s[a].0));
        }
    }
    assert forall|k2: (u64, u64)| list_keys(r).contains(k2) <==> list_keys(s).insert(k).contains(k2) by {
        if list_keys(s).contains(k2) {
            let a = choose|a: int| 0 <= a < s.len() && s[a].0 == k2;
            assert(r[a] == s[a]);
        }
        if list_keys(r).contains(k2) {
            let a = choose|a: int| 0 <= a < r.len() && r[a].0 == k2;
            if a < s.len() { assert(r[a] == s[a]); }
        }
        if k2 == k { assert(r[s.len() as int].0 == k); }
    }
    assert(list_keys(r) =~= list_keys(s).insert(k));
    lemma_entry_at(r, s.len() as int);
    assert forall|k2: (u64, u64)| k2 != k implies entry_of(r, k2) == entry_of(s, k2) by {
        if list_keys(s).contains(k2) {
            let a = choose|a: int| 0 <= a < s.len() && s[a].0 == k2;
            lemma_entry_at(s, a);
            assert(r[a] == s[a]);
            lemma_entry_at(r, a);
        } else {
            assert(!list_keys(r).contains(k2));
        }
    }
}

proof fn lemma_set_entry<V>(s: Seq<((u64, u64), V)>, i: int, v: V)
    requires
        unique_keys(s),
        0 <= i < s.len(),
    ensures
        unique_keys(s.update(i, (s[i].0, v))),
        list_keys(s.update(i, (s[i].0, v))) == list_keys(s),
        entry_of(s.update(i, (s[i].0, v)), s[i].0) == Some(v),
        forall|k2: (u64, u64)| k2 != s[i].0 ==> entry_of(s.update(i, (s[i].0, v)), k2) == entry_of(s, k2),
{
    let r = s.update(i, (s[i].0, v));
    assert forall|a: int, b: int| 0 <= a < b < r.len() implies r[a].0 != r[b].0 by {
        assert(r[a].0 == s[a].0 && r[b].0 == s[b].0);
    }
    assert forall|k2: (u64, u64)| list_keys(r).contains(k2) <==> list_keys(s).contains(k2) by {
        if list_keys(s).contains(k2) {
            let a = choose|a: int| 0 <= a < s.len() && s[a].0 == k2;
            assert(r[a].0 == s[a].0);
        }
        if list_keys(r).contains(k2) {
            let a = choose|a: int| 0 <= a < r.len() && r[a].0 == k2;
            assert(r[a].0 == s[a].0);
        }
    }
    assert(list_keys(r) =~= list_keys(s));
    lemma_entry_at(r, i);
    assert forall|k2: (u64, u64)| k2 != s[i].0 implies entry_of(r, k2) == entry_of(s, k2) by {
        if list_keys(s).contains(k2) {
            let a = choose|a: int| 0 <= a < s.len() && s[a].0 == k2;
            lemma_entry_at(s, a);
            assert(r[a] == s[a]);
            lemma_entry_at(r, a);
        } else {
            assert(!list_keys(r).contains(k2));
        }
    }
}

/// `x + y`, saturating at `u64::MAX`.
pub open spec fn sat_add(x: u64, y: u64) -> u64 {
    if x + y > u64::MAX { u64::MAX } else { (x + y) as u64 }
}

fn saturating_add_u64(x: u64, y: u64) -> (r: u64)
    ensures
        r == sat_add(x, y),
{
    if u64::MAX - x < y { u64::MAX } else { x + y }
}

/// What the backend keeps about its batches.
pub struct SubmissionLedger {
    pub state: VulkanBackendState,
    pub compute_available: bool,
    pub transfer_available: bool,
    pub allocator: HandleAllocator,
    pub submissions: Vec<((u64, u64), SubmissionRecord)>,
    pub quarantined: Vec<((u64, u64), SubmissionRecord)>,
    /// Terminal results, oldest first.
    pub terminal: Vec<((u64, u64), TerminalRecord)>,
    pub metrics: VulkanBackendMetrics,
}

/// How a batch's fence looked when it was probed.
#[derive(Debug, Clone, Copy, PartialEq, Eq, Structural)]
pub enum FenceProbe {
    /// There is no device to ask.
    NoDevice,
    /// The GPU finished the batch.
    Signaled,
    /// Not finished; `expired` when its deadline has passed.
    Unsignaled { expired: bool },
    /// Asking failed.
    Failed,
}

/// What to do with a batch offered to the backend.
pub enum SubmitStart {
    /// Run it on the CPU.
    Fallback(VulkanBatchHandle),
    /// Try to put it on the GPU.
    Attempt(VulkanBatchHandle),
}

impl SubmissionLedger {
    /// The ledger is consistent: no key twice in a list, and at most
    /// `MAX_TERMINAL_RESULTS` terminal results.
    pub open spec fn wf(&self) -> bool {
        &&& unique_keys(self.submissions@)
        &&& unique_keys(self.quarantined@)
        &&& unique_keys(self.terminal@)
        &&& self.terminal@.len() <= MAX_TERMINAL_RESULTS
        &&& self.allocator.next_submission_id >= 1 && self.allocator.submission_generation >= 1
    }

    /// An empty ledger for an uninitialized backend.
    pub fn new() -> (r: Self)
        ensures
            r.wf(),
            r.state == VulkanBackendState::Uninitialized,
            !r.compute_available && !r.transfer_available,
            r.allocator.next_submission_id == 1 && r.allocator.submission_generation == 1,
            !r.allocator.handle_space_exhausted,
            r.submissions@.len() == 0 && r.quarantined@.len() == 0 && r.terminal@.len() == 0,
            r.metrics == (VulkanBackendMetrics {
                total_submissions: 0, vulkan_submissions: 0, cpu_fallback_submissions: 0,
                completed_vulkan_submissions: 0, timed_out_submissions: 0, driver_faults: 0,
                current_gpu_allocation_bytes: 0, peak_gpu_allocation_bytes: 0, zeroized_host_bytes: 0,
                zeroized_device_bytes: 0, pending_gpu_submissions: 0, quarantined_gpu_submissions: 0,
            }),
    {
        SubmissionLedger {
            state: VulkanBackendState::Uninitialized,
            compute_available: false,
            transfer_available: false,
            allocator: HandleAllocator::new(),
            submissions: Vec::new(),
            quarantined: Vec::new(),
            terminal: Vec::new(),
            metrics: VulkanBackendMetrics::zero(),
        }
    }

    /// Marks the backend faulted: a first fault is counted, and compute and
    /// transfer become unavailable.
    pub fn mark_faulted(&mut self)
        ensures
            final(self).state == VulkanBackendState::Faulted,
            !final(self).compute_available && !final(self).transfer_available,
            final(self).metrics == (VulkanBackendMetrics {
                driver_faults: if old(self).state != VulkanBackendState::Faulted {
                    sat_add(old(self).metrics.driver_faults, 1)
                } else {
                    old(self).metrics.driver_faults
                },
                ..old(self).metrics
            }),
            final(self).submissions == old(self).submissions,
            final(self).quarantined == old(self).quarantined,
            final(self).terminal == old(self).terminal,
            final(self).allocator == old(self).allocator,
    {
        if self.state != VulkanBackendState::Faulted {
            self.metrics.driver_faults = saturating_add_u64(self.metrics.driver_faults, 1);
        }
        self.state = VulkanBackendState::Faulted;
        self.compute_available = false;
        self.transfer_available = false;
    }

    /// The first step of initialization: a backend that is already set up
    /// stays as it is, one disabled by the configuration becomes disabled,
    /// and otherwise the device is to be probed (the answer says so).
    pub fn begin_initialize(&mut self, enable_vulkan: bool) -> (probe: bool)
        ensures
            probe == (old(self).state == VulkanBackendState::Uninitialized && enable_vulkan),
            if old(self).state == VulkanBackendState::Uninitialized && !enable_vulkan {
                *final(self) == (SubmissionLedger { state: VulkanBackendState::Disabled, ..*old(self) })
            } else {
                *final(self) == *old(self)
            },
    {
        if self.state != VulkanBackendState::Uninitialized {
            return false;
        }
        if !enable_vulkan {
            self.state = VulkanBackendState::Disabled;
            return false;
        }
        true
    }

    /// Records the outcome of the device probe: a found device makes the
    /// backend ready; a failed probe marks it faulted (see `mark_faulted`).
    pub fn record_probe(&mut self, found_device: bool)
        ensures
            found_device ==> *final(self) == (SubmissionLedger { state: VulkanBackendState::Ready, ..*old(self) }),
            !found_device ==> {
                &&& final(self).state == VulkanBackendState::Faulted
                &&& !final(self).compute_available && !final(self).transfer_available
                &&& final(self).metrics == (VulkanBackendMetrics {
                    driver_faults: if old(self).state != VulkanBackendState::Faulted {
                        sat_add(old(self).metrics.driver_faults, 1)
                    } else {
                        old(self).metrics.driver_faults
                    },
                    ..old(self).metrics
                })
                &&& final(self).submissions == old(self).submissions && final(self).quarantined == old(self).quarantined
                &&& final(self).terminal == old(self).terminal && final(self).allocator == old(self).allocator
            },
    {
        if found_device {
            self.state = VulkanBackendState::Ready;
        } else {
            self.mark_faulted();
        }
    }

    /// The result a waiter gets for a batch: a CPU batch completes with its
    /// own fallback reason at `now`; a GPU batch takes its terminal result
    /// out of the history (its reason and completion time), or, without one,
    /// counts as a rejected submission completed at `now`.
    pub fn wait_result(&mut self, handle: VulkanBatchHandle, now: std::time::Instant) -> (r: crate::vulkan::VulkanBatchResult)
        requires
            old(self).wf(),
        ensures
            final(self).wf(),
            r.handle == handle && r.path == VulkanExecutionPath::CpuFallback && r.workload == handle.workload,
            handle.path == VulkanExecutionPath::CpuFallback ==> {
                &&& *final(self) == *old(self)
                &&& r.fallback_reason == handle.fallback_reason && r.completed_at == now
            },
            handle.path != VulkanExecutionPath::CpuFallback ==> {
                &&& list_keys(final(self).terminal@) == list_keys(old(self).terminal@).remove(key_of(handle))
                &&& final(self).state == old(self).state && final(self).metrics == old(self).metrics
                &&& final(self).submissions == old(self).submissions && final(self).quarantined == old(self).quarantined
                &&& match entry_of(old(self).terminal@, key_of(handle)) {
                    Some(t) => r.fallback_reason == Some(t.fallback_reason) && r.completed_at == t.completed_at,
                    None => r.fallback_reason == Some(VulkanFallbackReason::SubmissionRejected) && r.completed_at == now,
                }
            },
    {
        if handle.path == VulkanExecutionPath::CpuFallback {
            return crate::vulkan::fallback_result(handle, handle.fallback_reason, now);
        }
        match self.take_terminal_result((handle.generation, handle.id)) {
            Some(record) => crate::vulkan::fallback_result(handle, Some(record.fallback_reason), record.completed_at),
            None => crate::vulkan::fallback_result(handle, Some(VulkanFallbackReason::SubmissionRejected), now),
        }
    }

    /// Batches holding GPU resources: in flight and quarantined.
    pub fn active_gpu_resource_count(&self) -> (r: usize)
        ensures
            r == (if self.submissions@.len() + self.quarantined@.len() > usize::MAX { usize::MAX as int }
                else { (self.submissions@.len() + self.quarantined@.len()) as int }),
    {
        let a = self.submissions.len();
        let b = self.quarantined.len();
        if usize::MAX - a < b { usize::MAX } else { a + b }
    }

    /// The metrics with the current numbers of pending and quarantined batches.
    pub fn metrics_snapshot(&self) -> (r: VulkanBackendMetrics)
        ensures
            r == (VulkanBackendMetrics {
                pending_gpu_submissions: self.submissions@.len() as usize,
                quarantined_gpu_submissions: self.quarantined@.len() as usize,
                ..self.metrics
            }),
    {
        let mut m = self.metrics;
        m.pending_gpu_submissions = self.submissions.len();
        m.quarantined_gpu_submissions = self.quarantined.len();
        m
    }

    /// Records how a batch ended. A batch already recorded keeps its place
    /// in the history; a new one goes last, the oldest results making room
    /// so that at most `MAX_TERMINAL_RESULTS` are kept.
    pub fn insert_terminal_result(&mut self, key: (u64, u64), record: TerminalRecord)
        requires
            old(self).wf(),
        ensures
            final(self).wf(),
            list_keys(old(self).terminal@).contains(key) ==> {
                &&& list_keys(final(self).terminal@) == list_keys(old(self).terminal@)
                &&& forall|k: (u64, u64)| k != key ==> entry_of(final(self).terminal@, k) == entry_of(old(self).terminal@, k)
            },
            !list_keys(old(self).terminal@).contains(key) ==> final(self).terminal@ == (if old(self).terminal@.len() >= MAX_TERMINAL_RESULTS {
                old(self).terminal@.skip(old(self).terminal@.len() - MAX_TERMINAL_RESULTS + 1)
            } else {
                old(self).terminal@
            }).push((key, record)),
            entry_of(final(self).terminal@, key) matches Some(r) && r.status == record.status
                && r.fallback_reason == record.fallback_reason && r.completed_at == record.completed_at,
            final(self).state == old(self).state && final(self).metrics == old(self).metrics,
            final(self).submissions == old(self).submissions && final(self).quarantined == old(self).quarantined,
            final(self).allocator == old(self).allocator,
    {
        match position(&self.terminal, key) {
            Some(i) => {
                proof { lemma_set_entry(self.terminal@, i as int, record); }
                self.terminal.set(i, (key, record));
            },
            None => {
                let ghost start = self.terminal@;
                while self.terminal.len() >= MAX_TERMINAL_RESULTS
                    invariant
                        unique_keys(self.terminal@),
                        self.state == old(self).state && self.metrics == old(self).metrics,
                        self.submissions == old(self).submissions && self.quarantined == old(self).quarantined,
                        self.allocator == old(self).allocator,
                        !list_keys(self.terminal@).contains(key),
                        start.len() <= MAX_TERMINAL_RESULTS,
                        self.terminal@ == (if start.len() >= MAX_TERMINAL_RESULTS && self.terminal@.len() < start.len() {
                            start.skip(start.len() - self.terminal@.len())
                        } else {
                            start
                        }),
                        self.terminal@.len() <= start.len(),
                        self.terminal@.len() >= MAX_TERMINAL_RESULTS - 1 || self.terminal@ == start,
                    decreases self.terminal@.len(),
                {
                    proof { lemma_remove_entry(self.terminal@, 0); }
                    let ghost before = self.terminal@;
                    self.terminal.remove(0);
                    proof {
                        assert(self.terminal@ =~= start.skip(start.len() - self.terminal@.len()));
                    }
                }
                proof {
                    lemma_push_entry(self.terminal@, key, record);
                    if start.len() >= MAX_TERMINAL_RESULTS {
                        assert(self.terminal@ =~= start.skip(start.len() - MAX_TERMINAL_RESULTS + 1));
                    }
                }
                self.terminal.push((key, record));
            },
        }
    }

    /// Takes a batch's terminal result out of the history.
    pub fn take_terminal_result(&mut self, key: (u64, u64)) -> (r: Option<TerminalRecord>)
        requires
            old(self).wf(),
        ensures
            final(self).wf(),
            match entry_of(old(self).terminal@, key) {
                Some(t) => r matches Some(x) && x.status == t.status && x.fallback_reason == t.fallback_reason
                    && x.completed_at == t.completed_at,
                None => r is None,
            },
            list_keys(final(self).terminal@) == list_keys(old(self).terminal@).remove(key),
            forall|k: (u64, u64)| k != key ==> entry_of(final(self).terminal@, k) == entry_of(old(self).terminal@, k),
            final(self).state == old(self).state && final(self).metrics == old(self).metrics,
            final(self).submissions == old(self).submissions && final(self).quarantined == old(self).quarantined,
            final(self).allocator == old(self).allocator,
    {
        match position(&self.terminal, key) {
            Some(i) => {
                proof {
                    lemma_entry_at(self.terminal@, i as int);
                    lemma_remove_entry(self.terminal@, i as int);
                }
                let (_, record) = self.terminal.remove(i);
                Some(record)
            },
            None => {
                proof { assert(list_keys(self.terminal@) =~= list_keys(self.terminal@).remove(key)); }
                None
            },
        }
    }

    /// Ends a batch without a normal completion: its GPU resources move to
    /// quarantine (counted as a CPU fallback) and its terminal result is
    /// recorded.
    pub fn terminalize(&mut self, key: (u64, u64), status: VulkanPollStatus, fallback_reason: VulkanFallbackReason,
        completed_at: std::time::Instant)
        requires
            old(self).wf(),
        ensures
            final(self).wf(),
            !list_keys(final(self).submissions@).contains(key),
            list_keys(final(self).submissions@) == list_keys(old(self).submissions@).remove(key),
            list_keys(old(self).submissions@).contains(key) ==> {
                &&& list_keys(final(self).quarantined@).contains(key)
                &&& final(self).metrics.cpu_fallback_submissions == sat_add(old(self).metrics.cpu_fallback_submissions, 1)
            },
            !list_keys(old(self).submissions@).contains(key) ==> final(self).quarantined == old(self).quarantined
                && final(self).metrics == old(self).metrics,
            entry_of(final(self).terminal@, key) matches Some(r) && r.status == status && r.fallback_reason == fallback_reason,
            final(self).metrics == (VulkanBackendMetrics {
                cpu_fallback_submissions: final(self).metrics.cpu_fallback_submissions, ..old(self).metrics }),
            final(self).state == old(self).state && final(self).allocator == old(self).allocator,
    {
        match position(&self.submissions, key) {
            Some(i) => {
                proof { lemma_remove_entry(self.submissions@, i as int); }
                let (_, submission) = self.submissions.remove(i);
                self.store_quarantined(key, submission);
                self.metrics.cpu_fallback_submissions = saturating_add_u64(self.metrics.cpu_fallback_submissions, 1);
            },
            None => {
                proof { assert(list_keys(self.submissions@) =~= list_keys(self.submissions@).remove(key)); }
            },
        }
        self.insert_terminal_result(key, TerminalRecord { status, fallback_reason, completed_at });
    }

    /// Puts a batch's resources in quarantine (replacing what the key held).
    fn store_quarantined(&mut self, key: (u64, u64), record: SubmissionRecord)
        requires
            old(self).wf(),
        ensures
            final(self).wf(),
            list_keys(final(self).quarantined@) == list_keys(old(self).quarantined@).insert(key),
            final(self).submissions == old(self).submissions && final(self).terminal == old(self).terminal,
            final(self).state == old(self).state && final(self).metrics == old(self).metrics,
            final(self).allocator == old(self).allocator,
            final(self).compute_available == old(self).compute_available,
    {
        match position(&self.quarantined, key) {
            Some(i) => {
                proof {
                    lemma_set_entry(self.quarantined@, i as int, record);
                    lemma_entry_at(self.quarantined@, i as int);
                    assert(list_keys(self.quarantined@) =~= list_keys(self.quarantined@).insert(key));
                }
                self.quarantined.set(i, (key, record));
            },
            None => {
                proof { lemma_push_entry(self.quarantined@, key, record); }
                self.quarantined.push((key, record));
            },
        }
    }

    /// The start of a submission: every batch is counted; one that the
    /// admission rules keep off the GPU, or that gets the null identity of an
    /// exhausted allocator, runs on the CPU (counted as a fallback);
    /// anything else is tried on the GPU.
    pub fn begin_submission(&mut self, submission: &VulkanBatchSubmission, packet_min_batch_bytes: usize, device_present: bool)
        -> (r: SubmitStart)
        requires
            old(self).wf(),
        ensures
            final(self).wf(),
            final(self).metrics.total_submissions == sat_add(old(self).metrics.total_submissions, 1),
            final(self).submissions == old(self).submissions && final(self).quarantined == old(self).quarantined,
            final(self).terminal == old(self).terminal && final(self).state == old(self).state,
            final(self).compute_available == old(self).compute_available,
            final(self).transfer_available == old(self).transfer_available,
            final(self).allocator == crate::vulkan::allocator_advanced(old(self).allocator),
            final(self).metrics == (VulkanBackendMetrics {
                total_submissions: final(self).metrics.total_submissions,
                cpu_fallback_submissions: final(self).metrics.cpu_fallback_submissions,
                ..old(self).metrics
            }),
            ({
                let ctx = AdmissionContext {
                    state: old(self).state,
                    packet_min_batch_bytes,
                    active_gpu_resources: (if old(self).submissions@.len() + old(self).quarantined@.len() > usize::MAX {
                        usize::MAX as int } else { (old(self).submissions@.len() + old(self).quarantined@.len()) as int }) as usize,
                    compute_available: old(self).compute_available,
                    device_present,
                };
                match spec_admission(ctx, *submission) {
                    Some(reason) => r matches SubmitStart::Fallback(h) && h.path == VulkanExecutionPath::CpuFallback
                        && h.fallback_reason == Some(reason) && h.workload == submission.workload
                        && final(self).metrics.cpu_fallback_submissions == sat_add(old(self).metrics.cpu_fallback_submissions, 1),
                    None => if old(self).allocator.handle_space_exhausted {
                        r matches SubmitStart::Fallback(h) && h.id == 0 && h.generation == 0
                            && h.path == VulkanExecutionPath::CpuFallback
                            && h.fallback_reason == Some(VulkanFallbackReason::SubmissionRejected)
                            && final(self).metrics.cpu_fallback_submissions == sat_add(old(self).metrics.cpu_fallback_submissions, 1)
                    } else {
                        r matches SubmitStart::Attempt(h) && h.path == VulkanExecutionPath::Vulkan && h.fallback_reason is None
                            && h.workload == submission.workload
                            && h.id == old(self).allocator.next_submission_id
                            && h.generation == old(self).allocator.submission_generation
                            && final(self).metrics.cpu_fallback_submissions == old(self).metrics.cpu_fallback_submissions
                    },
                }
            }),
    {
        self.metrics.total_submissions = saturating_add_u64(self.metrics.total_submissions, 1);
        let ctx = AdmissionContext {
            state: self.state,
            packet_min_batch_bytes,
            active_gpu_resources: self.active_gpu_resource_count(),
            compute_available: self.compute_available,
            device_present,
        };
        match admission_fallback_reason(ctx, submission) {
            Some(reason) => {
                self.metrics.cpu_fallback_submissions = saturating_add_u64(self.metrics.cpu_fallback_submissions, 1);
                let h = self.allocator.allocate_handle(submission.workload, VulkanExecutionPath::CpuFallback, Some(reason));
                SubmitStart::Fallback(h)
            },
            None => {
                let mut h = self.allocator.allocate_handle(submission.workload, VulkanExecutionPath::Vulkan, None);
                if h.id == 0 {
                    h.path = VulkanExecutionPath::CpuFallback;
                    h.fallback_reason = Some(VulkanFallbackReason::SubmissionRejected);
                    self.metrics.cpu_fallback_submissions = saturating_add_u64(self.metrics.cpu_fallback_submissions, 1);
                    SubmitStart::Fallback(h)
                } else {
                    SubmitStart::Attempt(h)
                }
            },
        }
    }

    /// A batch the GPU accepted: it is kept under its key and its allocation
    /// is counted, raising the peak when needed.
    pub fn record_submitted(&mut self, handle: VulkanBatchHandle, record: SubmissionRecord)
        requires
            old(self).wf(),
        ensures
            final(self).wf(),
            list_keys(final(self).submissions@) == list_keys(old(self).submissions@).insert(key_of(handle)),
            entry_of(final(self).submissions@, key_of(handle)) matches Some(s) && s.allocation_size == record.allocation_size
                && s.workload == record.workload && s.requires_zeroize == record.requires_zeroize,
            final(self).metrics.vulkan_submissions == sat_add(old(self).metrics.vulkan_submissions, 1),
            final(self).metrics.current_gpu_allocation_bytes
                == sat_add(old(self).metrics.current_gpu_allocation_bytes, record.allocation_size),
            final(self).metrics.peak_gpu_allocation_bytes == (if old(self).metrics.peak_gpu_allocation_bytes
                >= final(self).metrics.current_gpu_allocation_bytes { old(self).metrics.peak_gpu_allocation_bytes }
                else { final(self).metrics.current_gpu_allocation_bytes }),
            final(self).quarantined == old(self).quarantined && final(self).terminal == old(self).terminal,
            final(self).state == old(self).state,
    {
        let key = (handle.generation, handle.id);
        match position(&self.submissions, key) {
            Some(i) => {
                proof {
                    lemma_set_entry(self.submissions@, i as int, record);
                    lemma_entry_at(self.submissions@, i as int);
                    assert(list_keys(self.submissions@) =~= list_keys(self.submissions@).insert(key));
                }
                self.submissions.set(i, (key, record));
            },
            None => {
                proof { lemma_push_entry(self.submissions@, key, record); }
                self.submissions.push((key, record));
            },
        }
        self.metrics.vulkan_submissions = saturating_add_u64(self.metrics.vulkan_submissions, 1);
        self.metrics.current_gpu_allocation_bytes = saturating_add_u64(self.metrics.current_gpu_allocation_bytes, record.allocation_size);
        if self.metrics.peak_gpu_allocation_bytes < self.metrics.current_gpu_allocation_bytes {
            self.metrics.peak_gpu_allocation_bytes = self.metrics.current_gpu_allocation_bytes;
        }
    }

    /// A batch the GPU did not take: a lost device faults the backend; the
    /// batch runs on the CPU for a lost driver or a refused submission.
    pub fn record_submit_failure(&mut self, handle: VulkanBatchHandle, device_lost: bool) -> (r: VulkanBatchHandle)
        requires
            old(self).wf(),
        ensures
            final(self).wf(),
            r == (VulkanBatchHandle {
                path: VulkanExecutionPath::CpuFallback,
                fallback_reason: Some(if device_lost { VulkanFallbackReason::DriverUnavailable }
                    else { VulkanFallbackReason::SubmissionRejected }),
                ..handle
            }),
            final(self).state == (if device_lost { VulkanBackendState::Faulted } else { old(self).state }),
            final(self).metrics.cpu_fallback_submissions == sat_add(old(self).metrics.cpu_fallback_submissions, 1),
            final(self).submissions == old(self).submissions && final(self).quarantined == old(self).quarantined,
            final(self).terminal == old(self).terminal,
    {
        if device_lost {
            self.mark_faulted();
        }
        self.metrics.cpu_fallback_submissions = saturating_add_u64(self.metrics.cpu_fallback_submissions, 1);
        VulkanBatchHandle {
            path: VulkanExecutionPath::CpuFallback,
            fallback_reason: Some(if device_lost { VulkanFallbackReason::DriverUnavailable } else { VulkanFallbackReason::SubmissionRejected }),
            ..handle
        }
    }

    /// Counts host bytes scrubbed after a submission.
    pub fn note_host_zeroized(&mut self, bytes: u64)
        ensures
            final(self).metrics.zeroized_host_bytes == sat_add(old(self).metrics.zeroized_host_bytes, bytes),
            final(self).submissions == old(self).submissions && final(self).quarantined == old(self).quarantined,
            final(self).terminal == old(self).terminal && final(self).state == old(self).state,
    {
        self.metrics.zeroized_host_bytes = saturating_add_u64(self.metrics.zeroized_host_bytes, bytes);
    }

    /// What a poll can say without asking the GPU: a CPU batch is complete;
    /// a recorded terminal result stands; a batch not in flight is missing;
    /// a batch seen complete stays complete. `None` means the fence must be
    /// probed.
    pub fn poll_known(&self, handle: VulkanBatchHandle) -> (r: Option<VulkanPollStatus>)
        requires
            self.wf(),
        ensures
            handle.path == VulkanExecutionPath::CpuFallback ==> r == Some(VulkanPollStatus::Completed),
            handle.path != VulkanExecutionPath::CpuFallback ==> match entry_of(self.terminal@, key_of(handle)) {
                Some(t) => r == Some(t.status),
                None => match entry_of(self.submissions@, key_of(handle)) {
                    None => r == Some(VulkanPollStatus::Missing),
                    Some(s) => if s.completed_at is Some { r == Some(VulkanPollStatus::Completed) } else { r is None },
                },
            },
    {
        if handle.path == VulkanExecutionPath::CpuFallback {
            return Some(VulkanPollStatus::Completed);
        }
        let key = (handle.generation, handle.id);
        match position(&self.terminal, key) {
            Some(i) => {
                proof { lemma_entry_at(self.terminal@, i as int); }
                return Some(self.terminal[i].1.status);
            },
            None => {},
        }
        match position(&self.submissions, key) {
            Some(i) => {
                proof { lemma_entry_at(self.submissions@, i as int); }
                if self.submissions[i].1.completed_at.is_some() { Some(VulkanPollStatus::Completed) } else { None }
            },
            None => Some(VulkanPollStatus::Missing),
        }
    }

    /// A poll after probing the fence of a batch in flight: a finished batch
    /// is marked complete; an expired one times out (counted) and a missing
    /// device or a failed probe leaves it missing, both terminal and faulting
    /// the backend; otherwise it is pending.
    pub fn poll_with_fence(&mut self, handle: VulkanBatchHandle, probe: FenceProbe, now: std::time::Instant) -> (r: VulkanPollStatus)
        requires
            old(self).wf(),
        ensures
            final(self).wf(),
            match probe {
                FenceProbe::Signaled => r == VulkanPollStatus::Completed && final(self).state == old(self).state
                    && list_keys(final(self).submissions@) == list_keys(old(self).submissions@)
                    && final(self).terminal == old(self).terminal,
                FenceProbe::Unsignaled { expired } => if expired {
                    &&& r == VulkanPollStatus::TimedOut
                    &&& final(self).state == VulkanBackendState::Faulted
                    &&& entry_of(final(self).terminal@, key_of(handle)) matches Some(t)
                        && t.status == VulkanPollStatus::TimedOut && t.fallback_reason == VulkanFallbackReason::Timeout
                    &&& !list_keys(final(self).submissions@).contains(key_of(handle))
                    &&& final(self).metrics.timed_out_submissions == sat_add(old(self).metrics.timed_out_submissions, 1)
                } else {
                    r == VulkanPollStatus::Pending && final(self).state == old(self).state
                        && final(self).submissions == old(self).submissions && final(self).terminal == old(self).terminal
                },
                _ => {
                    &&& r == VulkanPollStatus::Missing
                    &&& final(self).state == VulkanBackendState::Faulted
                    &&& entry_of(final(self).terminal@, key_of(handle)) matches Some(t)
                        && t.status == VulkanPollStatus::Missing && t.fallback_reason == VulkanFallbackReason::DriverUnavailable
                    &&& !list_keys(final(self).submissions@).contains(key_of(handle))
                },
            },
    {
        let key = (handle.generation, handle.id);
        match probe {
            FenceProbe::Signaled => {
                match position(&self.submissions, key) {
                    Some(i) => {
                        let (k, mut s) = self.submissions[i];
                        assert(k == self.submissions@[i as int].0);
                        s.completed_at = Some(now);
                        proof { lemma_set_entry(self.submissions@, i as int, s); }
                        self.submissions.set(i, (k, s));
                        assert(self.submissions@ == old(self).submissions@.update(i as int, (old(self).submissions@[i as int].0, s)));
                    },
                    None => {},
                }
                VulkanPollStatus::Completed
            },
            FenceProbe::Unsignaled { expired } => {
                if expired {
                    self.terminalize(key, VulkanPollStatus::TimedOut, VulkanFallbackReason::Timeout, now);
                    self.metrics.timed_out_submissions = saturating_add_u64(self.metrics.timed_out_submissions, 1);
                    self.mark_faulted();
                    VulkanPollStatus::TimedOut
                } else {
                    VulkanPollStatus::Pending
                }
            },
            _ => {
                self.terminalize(key, VulkanPollStatus::Missing, VulkanFallbackReason::DriverUnavailable, now);
                self.mark_faulted();
                VulkanPollStatus::Missing
            },
        }
    }

    /// Takes a batch out of flight, if it is in flight.
    pub fn take_submission(&mut self, key: (u64, u64)) -> (r: Option<SubmissionRecord>)
        requires
            old(self).wf(),
        ensures
            final(self).wf(),
            list_keys(final(self).submissions@) == list_keys(old(self).submissions@).remove(key),
            match entry_of(old(self).submissions@, key) {
                Some(s) => r matches Some(x) && x.allocation_size == s.allocation_size && x.workload == s.workload
                    && x.requires_zeroize == s.requires_zeroize,
                None => r is None,
            },
            final(self).quarantined == old(self).quarantined && final(self).terminal == old(self).terminal,
            final(self).state == old(self).state && final(self).metrics == old(self).metrics,
    {
        match position(&self.submissions, key) {
            Some(i) => {
                proof {
                    lemma_entry_at(self.submissions@, i as int);
                    lemma_remove_entry(self.submissions@, i as int);
                }
                let (_, s) = self.submissions.remove(i);
                Some(s)
            },
            None => {
                proof { assert(list_keys(self.submissions@) =~= list_keys(self.submissions@).remove(key)); }
                None
            },
        }
    }

    /// Takes a quarantined batch out, if it is quarantined.
    pub fn take_quarantined(&mut self, key: (u64, u64)) -> (r: Option<SubmissionRecord>)
        requires
            old(self).wf(),
        ensures
            final(self).wf(),
            list_keys(final(self).quarantined@) == list_keys(old(self).quarantined@).remove(key),
            r is Some <==> list_keys(old(self).quarantined@).contains(key),
            final(self).submissions == old(self).submissions && final(self).terminal == old(self).terminal,
            final(self).state == old(self).state && final(self).metrics == old(self).metrics,
    {
        match position(&self.quarantined, key) {
            Some(i) => {
                proof {
                    lemma_entry_at(self.quarantined@, i as int);
                    lemma_remove_entry(self.quarantined@, i as int);
                }
                let (_, s) = self.quarantined.remove(i);
                Some(s)
            },
            None => {
                proof { assert(list_keys(self.quarantined@) =~= list_keys(self.quarantined@).remove(key)); }
                None
            },
        }
    }

    /// The GPU resources of a batch taken out of flight or quarantine were
    /// either released (scrubbed first when asked for) or not: released
    /// bytes leave the current allocation and scrubbed ones are counted;
    /// unreleased ones go back to quarantine and fault the backend.
    pub fn finish_release(&mut self, key: (u64, u64), record: SubmissionRecord, released: bool)
        requires
            old(self).wf(),
        ensures
            final(self).wf(),
            released ==> {
                &&& final(self).metrics.current_gpu_allocation_bytes == (if old(self).metrics.current_gpu_allocation_bytes
                    >= record.allocation_size { (old(self).metrics.current_gpu_allocation_bytes - record.allocation_size) as u64 } else { 0 })
                &&& final(self).metrics.zeroized_device_bytes == (if record.requires_zeroize {
                    sat_add(old(self).metrics.zeroized_device_bytes, record.allocation_size) } else { old(self).metrics.zeroized_device_bytes })
                &&& final(self).quarantined == old(self).quarantined
                &&& final(self).state == old(self).state
            },
            !released ==> {
                &&& list_keys(final(self).quarantined@) == list_keys(old(self).quarantined@).insert(key)
                &&& final(self).state == VulkanBackendState::Faulted
            },
            final(self).submissions == old(self).submissions && final(self).terminal == old(self).terminal,
    {
        if released {
            self.metrics.current_gpu_allocation_bytes = if self.metrics.current_gpu_allocation_bytes >= record.allocation_size {
                self.metrics.current_gpu_allocation_bytes - record.allocation_size
            } else {
                0
            };
            if record.requires_zeroize {
                self.metrics.zeroized_device_bytes = saturating_add_u64(self.metrics.zeroized_device_bytes, record.allocation_size);
            }
        } else {
            self.store_quarantined(key, record);
            self.mark_faulted();
        }
    }

    /// Counts a batch the GPU completed.
    pub fn note_completed(&mut self)
        ensures
            final(self).metrics.completed_vulkan_submissions == sat_add(old(self).metrics.completed_vulkan_submissions, 1),
            final(self).submissions == old(self).submissions && final(self).quarantined == old(self).quarantined,
            final(self).terminal == old(self).terminal && final(self).state == old(self).state,
    {
        self.metrics.completed_vulkan_submissions = saturating_add_u64(self.metrics.completed_vulkan_submissions, 1);
    }
}

} // verus!
