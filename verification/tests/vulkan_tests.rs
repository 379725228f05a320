use std::time::{Duration, Instant};
use waybroker::vulkan::{
    admission_fallback_reason, dispatch_group_count, effective_timeout, host_coherent_memory_type,
    within_gpu_allocation_budget, effective_timeout_nanos, fallback_result,
    refine_pixels_portable, zeroize_surface_words, AdmissionContext, HandleAllocator,
    VulkanBackendConfig, VulkanBackendState, VulkanBatchSubmission, VulkanExecutionPath,
    VulkanFallbackReason, VulkanPollStatus, VulkanWorkloadClass, MAX_PENDING_GPU_SUBMISSIONS,
    MAX_TERMINAL_RESULTS, MAX_TIMEOUT_MS,
};
use waybroker::vulkan_ledger::{SubmissionLedger, SubmissionRecord, SubmitStart, TerminalRecord};

fn submission(workload: VulkanWorkloadClass, payload_len: usize, surface_words: Option<Vec<u32>>) -> VulkanBatchSubmission {
    VulkanBatchSubmission {
        workload,
        payload_len,
        surface_words,
        timeout: Duration::from_millis(250),
        requires_zeroize: false,
        allows_gpu: true,
    }
}

fn fake_record(workload: VulkanWorkloadClass) -> SubmissionRecord {
    SubmissionRecord { workload, allocation_size: 0, completed_at: None, requires_zeroize: false }
}

#[test]
fn completion_refine_screenshot_pixels_matches_portable_semantics() {
    let mut pixels = vec![0xFF33_2211u32; 101];
    refine_pixels_portable(&mut pixels);
    assert!(pixels.iter().all(|p| *p == 0xFF11_2233));
}

#[test]
fn completion_pending_gpu_resource_budget_backpressures() {
    let mut ledger = SubmissionLedger::new();
    ledger.state = VulkanBackendState::Ready;
    ledger.compute_available = true;
    for id in 1..=MAX_PENDING_GPU_SUBMISSIONS as u64 {
        ledger.submissions.push(((99, id), fake_record(VulkanWorkloadClass::SceneComposition)));
    }
    let start = ledger.begin_submission(&submission(VulkanWorkloadClass::SceneComposition, 4, Some(vec![1])), 32768, true);
    match start {
        SubmitStart::Fallback(handle) => {
            assert_eq!(handle.path, VulkanExecutionPath::CpuFallback);
            assert_eq!(handle.fallback_reason, Some(VulkanFallbackReason::SubmissionRejected));
        }
        SubmitStart::Attempt(_) => panic!("expected backpressure"),
    }
    assert_eq!(ledger.submissions.len(), MAX_PENDING_GPU_SUBMISSIONS);
}

#[test]
fn ready_backend_tries_gpu_for_well_formed_batches() {
    let mut ledger = SubmissionLedger::new();
    ledger.state = VulkanBackendState::Ready;
    ledger.compute_available = true;
    match ledger.begin_submission(&submission(VulkanWorkloadClass::SceneComposition, 8, Some(vec![1, 2])), 32768, true) {
        SubmitStart::Attempt(handle) => {
            assert_eq!(handle.path, VulkanExecutionPath::Vulkan);
            assert_eq!((handle.generation, handle.id), (1, 1));
        }
        SubmitStart::Fallback(_) => panic!("expected a GPU attempt"),
    }
    assert_eq!(ledger.metrics.total_submissions, 1);
}

#[test]
fn admission_checks_run_in_order() {
    let ctx = AdmissionContext {
        state: VulkanBackendState::Ready,
        packet_min_batch_bytes: 32768,
        active_gpu_resources: 0,
        compute_available: true,
        device_present: true,
    };
    assert_eq!(
        admission_fallback_reason(ctx, &submission(VulkanWorkloadClass::SceneComposition, 0, None)),
        Some(VulkanFallbackReason::SubmissionRejected)
    );
    assert_eq!(
        admission_fallback_reason(ctx, &submission(VulkanWorkloadClass::SceneComposition, 8, Some(vec![1]))),
        Some(VulkanFallbackReason::SubmissionRejected)
    );
    assert_eq!(
        admission_fallback_reason(ctx, &submission(VulkanWorkloadClass::PacketPreclassification, 4, Some(vec![1]))),
        Some(VulkanFallbackReason::BelowBatchThreshold)
    );
    let uninitialized = AdmissionContext { state: VulkanBackendState::Uninitialized, ..ctx };
    assert_eq!(
        admission_fallback_reason(uninitialized, &submission(VulkanWorkloadClass::SceneComposition, 4, Some(vec![1]))),
        Some(VulkanFallbackReason::NotInitialized)
    );
    assert_eq!(
        admission_fallback_reason(ctx, &submission(VulkanWorkloadClass::SceneComposition, 4, None)),
        Some(VulkanFallbackReason::CapabilityUnavailable)
    );
    assert_eq!(admission_fallback_reason(ctx, &submission(VulkanWorkloadClass::SceneComposition, 4, Some(vec![1]))), None);
}

#[test]
fn completion_handle_wrap_changes_generation_and_never_aliases() {
    let mut allocator = HandleAllocator::new();
    allocator.next_submission_id = u64::MAX;
    allocator.submission_generation = 7;
    let first = allocator.allocate_handle(VulkanWorkloadClass::AuditScan, VulkanExecutionPath::CpuFallback, None);
    let second = allocator.allocate_handle(VulkanWorkloadClass::AuditScan, VulkanExecutionPath::CpuFallback, None);
    assert_eq!(first.id, u64::MAX);
    assert_eq!(first.generation, 7);
    assert_eq!(second.id, 1);
    assert_eq!(second.generation, 8);
    assert_ne!((first.generation, first.id), (second.generation, second.id));
}

#[test]
fn completion_handle_space_exhaustion_never_reuses_last_identity() {
    let mut allocator = HandleAllocator::new();
    allocator.next_submission_id = u64::MAX;
    allocator.submission_generation = u64::MAX;
    let last = allocator.allocate_handle(VulkanWorkloadClass::AuditScan, VulkanExecutionPath::CpuFallback, None);
    let exhausted = allocator.allocate_handle(
        VulkanWorkloadClass::AuditScan,
        VulkanExecutionPath::CpuFallback,
        Some(VulkanFallbackReason::SubmissionRejected),
    );
    assert_eq!(last.id, u64::MAX);
    assert_eq!(last.generation, u64::MAX);
    assert_eq!(exhausted.id, 0);
    assert_eq!(exhausted.generation, 0);
}

fn timed_out() -> TerminalRecord {
    TerminalRecord { status: VulkanPollStatus::TimedOut, fallback_reason: VulkanFallbackReason::Timeout, completed_at: Instant::now() }
}

#[test]
fn completion_terminal_result_history_is_bounded() {
    let mut ledger = SubmissionLedger::new();
    for id in 1..=(MAX_TERMINAL_RESULTS as u64 + 17) {
        ledger.insert_terminal_result((1, id), timed_out());
    }
    assert_eq!(ledger.terminal.len(), MAX_TERMINAL_RESULTS);
    assert_eq!(ledger.terminal[0].0, (1, 18));
    assert_eq!(ledger.terminal[MAX_TERMINAL_RESULTS - 1].0, (1, MAX_TERMINAL_RESULTS as u64 + 17));
}

#[test]
fn completion_effective_timeout_is_bounded() {
    assert_eq!(effective_timeout(Duration::ZERO, Duration::from_millis(250)), Duration::from_millis(250));
    assert_eq!(
        effective_timeout(Duration::from_secs(60), Duration::from_secs(60)),
        Duration::from_millis(MAX_TIMEOUT_MS)
    );
    assert_eq!(effective_timeout(Duration::from_millis(50), Duration::from_millis(250)), Duration::from_millis(50));
    assert_eq!(effective_timeout_nanos(0, 0), 250_000_000);
}

#[test]
fn completion_requires_zeroize_clears_host_surface_words() {
    let mut words = Some(vec![0xDEAD_BEEFu32, 0xA5A5_5A5A]);
    let byte_len = words.as_ref().unwrap().len() * std::mem::size_of::<u32>();
    zeroize_surface_words(&mut words);
    assert_eq!(byte_len, 8);
    assert!(words.unwrap().iter().all(|word| *word == 0));
}

#[test]
fn completion_timeout_terminalization_quarantines_resources_without_destroying_them() {
    let mut ledger = SubmissionLedger::new();
    let handle = ledger.allocator.allocate_handle(VulkanWorkloadClass::SceneComposition, VulkanExecutionPath::Vulkan, None);
    let key = (handle.generation, handle.id);
    ledger.submissions.push((key, fake_record(VulkanWorkloadClass::SceneComposition)));
    ledger.terminalize(key, VulkanPollStatus::TimedOut, VulkanFallbackReason::Timeout, Instant::now());
    assert!(!ledger.submissions.iter().any(|(k, _)| *k == key));
    assert!(ledger.quarantined.iter().any(|(k, _)| *k == key));
    assert_eq!(
        ledger.terminal.iter().find(|(k, _)| *k == key).map(|(_, record)| record.status),
        Some(VulkanPollStatus::TimedOut)
    );
}

#[test]
fn completion_retire_of_unverifiable_gpu_submission_quarantines_it() {
    let mut ledger = SubmissionLedger::new();
    let handle = ledger.allocator.allocate_handle(VulkanWorkloadClass::BulkPrefilter, VulkanExecutionPath::Vulkan, None);
    let key = (handle.generation, handle.id);
    ledger.submissions.push((key, fake_record(handle.workload)));
    let record = ledger.take_submission(key).expect("submission in flight");
    ledger.finish_release(key, record, false);
    assert!(!ledger.submissions.iter().any(|(k, _)| *k == key));
    assert!(ledger.quarantined.iter().any(|(k, _)| *k == key));
    assert_eq!(ledger.state, VulkanBackendState::Faulted);
}

#[test]
fn completion_metrics_report_active_and_quarantined_resources_separately() {
    let mut ledger = SubmissionLedger::new();
    ledger.submissions.push(((1, 1), fake_record(VulkanWorkloadClass::SceneComposition)));
    ledger.quarantined.push(((1, 2), fake_record(VulkanWorkloadClass::BulkPrefilter)));
    let metrics = ledger.metrics_snapshot();
    assert_eq!(metrics.pending_gpu_submissions, 1);
    assert_eq!(metrics.quarantined_gpu_submissions, 1);
    assert_eq!(ledger.active_gpu_resource_count(), 2);
}

#[test]
fn completion_terminal_result_preserves_timeout_reason() {
    let mut ledger = SubmissionLedger::new();
    let handle = ledger.allocator.allocate_handle(VulkanWorkloadClass::SceneComposition, VulkanExecutionPath::Vulkan, None);
    ledger.insert_terminal_result((handle.generation, handle.id), timed_out());
    assert_eq!(ledger.poll_known(handle), Some(VulkanPollStatus::TimedOut));
}

#[test]
fn completion_missing_gpu_handle_preserves_original_workload() {
    let mut ledger = SubmissionLedger::new();
    let handle =
        ledger.allocator.allocate_handle(VulkanWorkloadClass::MaintenanceHashing, VulkanExecutionPath::Vulkan, None);
    assert_eq!(ledger.poll_known(handle), Some(VulkanPollStatus::Missing));
    let result = fallback_result(handle, Some(VulkanFallbackReason::SubmissionRejected), Instant::now());
    assert_eq!(result.path, VulkanExecutionPath::CpuFallback);
    assert_eq!(result.workload, VulkanWorkloadClass::MaintenanceHashing);
    assert_eq!(result.fallback_reason, Some(VulkanFallbackReason::SubmissionRejected));
}

#[test]
fn default_config_keeps_vulkan_off() {
    let config = VulkanBackendConfig::default_config();
    assert!(!config.enable_vulkan);
}

#[test]
fn initialization_steps_follow_configuration_and_probe() {
    let mut ledger = SubmissionLedger::new();
    assert!(!ledger.begin_initialize(false));
    assert_eq!(ledger.state, VulkanBackendState::Disabled);
    assert!(!ledger.begin_initialize(true));
    assert_eq!(ledger.state, VulkanBackendState::Disabled);

    let mut ledger = SubmissionLedger::new();
    assert!(ledger.begin_initialize(true));
    assert_eq!(ledger.state, VulkanBackendState::Uninitialized);
    ledger.record_probe(true);
    assert_eq!(ledger.state, VulkanBackendState::Ready);

    let mut ledger = SubmissionLedger::new();
    assert!(ledger.begin_initialize(true));
    ledger.record_probe(false);
    assert_eq!(ledger.state, VulkanBackendState::Faulted);
    assert_eq!(ledger.metrics.driver_faults, 1);
}

#[test]
fn waiting_on_an_unknown_gpu_batch_reports_a_rejected_submission() {
    let mut ledger = SubmissionLedger::new();
    let now = Instant::now();
    let mut allocator = HandleAllocator::new();
    let gpu = allocator.allocate_handle(VulkanWorkloadClass::AuditScan, VulkanExecutionPath::Vulkan, None);
    let result = ledger.wait_result(gpu, now);
    assert_eq!(result.path, VulkanExecutionPath::CpuFallback);
    assert_eq!(result.fallback_reason, Some(VulkanFallbackReason::SubmissionRejected));
    assert_eq!(result.completed_at, now);

    let cpu = allocator.allocate_handle(
        VulkanWorkloadClass::AuditScan,
        VulkanExecutionPath::CpuFallback,
        Some(VulkanFallbackReason::DisabledByPolicy),
    );
    let result = ledger.wait_result(cpu, now);
    assert_eq!(result.fallback_reason, Some(VulkanFallbackReason::DisabledByPolicy));
    assert_eq!(result.workload, VulkanWorkloadClass::AuditScan);
}

#[test]
fn refused_submission_leaves_allocation_metrics_alone() {
    let mut ledger = SubmissionLedger::new();
    let before = ledger.metrics;
    match ledger.begin_submission(&submission(VulkanWorkloadClass::SceneComposition, 0, None), 32768, false) {
        SubmitStart::Fallback(handle) => {
            assert_eq!(handle.path, VulkanExecutionPath::CpuFallback);
            assert_eq!(handle.fallback_reason, Some(VulkanFallbackReason::SubmissionRejected));
        }
        SubmitStart::Attempt(_) => panic!("an empty batch must not reach the GPU"),
    }
    assert_eq!(ledger.metrics.total_submissions, 1);
    assert_eq!(ledger.metrics.cpu_fallback_submissions, 1);
    assert_eq!(ledger.metrics.current_gpu_allocation_bytes, before.current_gpu_allocation_bytes);
    assert_eq!(ledger.metrics.peak_gpu_allocation_bytes, before.peak_gpu_allocation_bytes);
    assert_eq!(ledger.metrics.pending_gpu_submissions, 0);
}

#[test]
fn gpu_submission_arithmetic() {
    assert_eq!(dispatch_group_count(4), Ok(1));
    assert_eq!(dispatch_group_count(256), Ok(1));
    assert_eq!(dispatch_group_count(260), Ok(2));
    assert_eq!(dispatch_group_count(0), Ok(0));
    assert!(within_gpu_allocation_budget(0, 256 * 1024 * 1024));
    assert!(!within_gpu_allocation_budget(1, 256 * 1024 * 1024));
    assert!(!within_gpu_allocation_budget(u64::MAX, 1));
    assert_eq!(host_coherent_memory_type(0b110, &vec![true, false, true]), Some(2));
    assert_eq!(host_coherent_memory_type(0b001, &vec![false, true]), None);
}
