use pickscribe::incremental::{
    after_boundary, choose_segment_end, classify_slice, next_step, segment_scan_window,
    BoundaryStep, SchedulingConfig, SliceStep, Step, StopOutcome, WavSlice, worker_control,
    Control, WorkerSignals,
};

fn cfg() -> SchedulingConfig {
    SchedulingConfig::new(5_000, 10_000, 1_500, 2)
}

#[test]
fn stop_before_first_segment_is_complete_with_no_audio() {
    let step = next_step(0, 0, true, &cfg());
    assert_eq!(step, Step::Stop(StopOutcome { complete: true, fallback_required: false }));
}

#[test]
fn residual_tail_under_250ms_waits_when_not_final() {
    assert_eq!(next_step(5_000, 5_200, false, &cfg()), Step::Wait);
}

#[test]
fn residual_tail_fully_consumed_completes_on_final_drain() {
    let step = next_step(5_000, 5_000, true, &cfg());
    assert_eq!(step, Step::Stop(StopOutcome { complete: true, fallback_required: false }));
}

#[test]
fn residual_tail_under_250ms_still_forces_a_fallback_on_final_drain() {
    let step = next_step(5_000, 5_200, true, &cfg());
    assert_eq!(step, Step::Stop(StopOutcome { complete: false, fallback_required: true }));
}

#[test]
fn residual_tail_over_250ms_still_produces_a_final_segment() {
    let step = next_step(5_000, 5_400, true, &cfg());
    assert_eq!(step, Step::Produce { start_ms: 5_000, desired_end_ms: 5_400 });
}

#[test]
fn waits_for_a_full_target_buffer_before_producing() {
    assert_eq!(next_step(0, 4_000, false, &cfg()), Step::Wait);
    assert_eq!(
        next_step(0, 5_000, false, &cfg()),
        Step::Produce { start_ms: 0, desired_end_ms: 5_000 }
    );
}

#[test]
fn live_backlog_overflow_stops_immediately_with_fallback() {
    let step = next_step(0, 20_001, false, &cfg());
    assert_eq!(
        step,
        Step::Stop(StopOutcome { complete: false, fallback_required: true }),
        "live backlog overflow must stop scheduling immediately, not just flag fallback"
    );
}

#[test]
fn live_backlog_at_the_limit_still_schedules() {
    let step = next_step(0, 20_000, false, &cfg());
    assert!(matches!(step, Step::Produce { .. }));
}

#[test]
fn final_backlog_overflow_stops_with_fallback() {
    let step = next_step(0, 10_001, true, &cfg());
    assert_eq!(step, Step::Stop(StopOutcome { complete: false, fallback_required: true }));
}

#[test]
fn final_drain_targets_max_ms_not_target_ms() {
    let step = next_step(0, 9_000, true, &cfg());
    assert_eq!(step, Step::Produce { start_ms: 0, desired_end_ms: 9_000 });
}

#[test]
fn boundary_that_advances_proceeds() {
    assert_eq!(after_boundary(0, 5_000, 5_000, false), BoundaryStep::Proceed);
}

#[test]
fn stuck_boundary_waits_when_not_final() {
    assert_eq!(after_boundary(5_000, 5_000, 5_000, false), BoundaryStep::Wait);
}

#[test]
fn stuck_boundary_stops_on_final_drain() {
    assert_eq!(
        after_boundary(5_000, 5_000, 5_000, true),
        BoundaryStep::Stop(StopOutcome { complete: true, fallback_required: false })
    );
}

#[test]
fn scheduling_config_enforces_minimum_target_and_half_target_overlap_cap() {
    let cfg = SchedulingConfig::new(200, 500, 5_000, 2);
    assert_eq!(cfg.target_ms, 1_000);
    assert_eq!(cfg.max_ms, 1_000);
    assert_eq!(cfg.overlap_ms, 500);
}

#[test]
fn scheduling_config_computes_backlog_limit_from_max_and_queue() {
    let cfg = SchedulingConfig::new(5_000, 10_000, 1_500, 3);
    assert_eq!(cfg.backlog_limit_ms, 30_000);
    let cfg_zero_queue = SchedulingConfig::new(5_000, 10_000, 1_500, 0);
    assert_eq!(cfg_zero_queue.backlog_limit_ms, 10_000);
}

#[test]
fn normalizing_a_normalized_config_changes_nothing() {
    let c = SchedulingConfig::new(200, 500, 5_000, 2);
    let d = SchedulingConfig::new(c.target_ms, c.max_ms, c.overlap_ms, 2);
    assert_eq!(c, d);
}

fn slice(sample_count: usize) -> WavSlice {
    WavSlice { start_ms: 0, end_ms: 5_000, sample_count }
}

#[test]
fn empty_slice_waits_when_not_final() {
    assert!(matches!(classify_slice(Ok(slice(0)), false, 5_000, 0), SliceStep::Wait));
}

#[test]
fn empty_slice_stops_on_final_drain() {
    let step = classify_slice(Ok(slice(0)), true, 5_000, 5_000);
    assert!(matches!(
        step,
        SliceStep::Stop(StopOutcome { complete: true, fallback_required: false })
    ));
}

#[test]
fn failed_slice_waits_when_not_final() {
    assert!(matches!(
        classify_slice(Err("boom".to_string()), false, 5_000, 0),
        SliceStep::Wait
    ));
}

#[test]
fn failed_slice_fails_the_segment_on_final_drain() {
    let step = classify_slice(Err("boom".to_string()), true, 5_000, 0);
    assert!(matches!(step, SliceStep::Failed(msg) if msg.contains("boom")));
}

#[test]
fn nonempty_slice_is_used() {
    assert!(matches!(classify_slice(Ok(slice(10)), false, 5_000, 0), SliceStep::Use(_)));
}

#[test]
fn final_drain_takes_all_available_audio() {
    assert_eq!(choose_segment_end(None, 0, 5_000, 7_000, true), 7_000);
    assert_eq!(choose_segment_end(None, 0, 9_000, 7_000, false), 7_000);
    assert_eq!(choose_segment_end(Some(&[]), 0, 5_000, 7_000, false), 5_000);
}

#[test]
fn segment_end_snaps_to_quiet_samples_inside_the_window() {
    // Window [4_500, 5_500) ms: 16_000 samples; silence around 4_800 ms.
    let (start, end) = segment_scan_window(0, 5_000, 10_000);
    assert_eq!((start, end), (4_500, 5_500));
    let mut samples = vec![10_000i16; 16_000];
    for s in &mut samples[4_000..6_000] {
        *s = 0;
    }
    let cut = choose_segment_end(Some(&samples), 0, 5_000, 10_000, false);
    assert!((4_750..=4_875).contains(&cut), "cut={cut}");
}

fn signals() -> WorkerSignals {
    WorkerSignals {
        cancel_requested: false,
        stop_requested: false,
        stopping_requested: false,
        state_file_exists: true,
        startup_deadline_passed: false,
        recorder_alive: true,
    }
}

#[test]
fn worker_continues_while_the_recorder_lives() {
    assert_eq!(worker_control(false, signals()), (true, Control::Continue));
    let early = WorkerSignals { state_file_exists: false, ..signals() };
    assert_eq!(worker_control(false, early), (false, Control::Continue));
}

#[test]
fn worker_is_abandoned_when_the_recorder_is_gone() {
    let gone = WorkerSignals { state_file_exists: false, ..signals() };
    assert_eq!(worker_control(true, gone), (true, Control::Abandoned));
    let dead = WorkerSignals { recorder_alive: false, ..signals() };
    assert_eq!(worker_control(false, dead), (true, Control::Abandoned));
    let late = WorkerSignals { state_file_exists: false, startup_deadline_passed: true, ..signals() };
    assert_eq!(worker_control(false, late), (false, Control::Abandoned));
}

#[test]
fn worker_requests_win_over_abandonment() {
    let gone = WorkerSignals { state_file_exists: false, ..signals() };
    let stop = WorkerSignals { stop_requested: true, ..gone };
    assert_eq!(worker_control(true, stop), (true, Control::Stopping));
    let stopping = WorkerSignals { stopping_requested: true, ..gone };
    assert_eq!(worker_control(true, stopping), (true, Control::Continue));
    let cancel = WorkerSignals { cancel_requested: true, stop_requested: true, ..gone };
    assert_eq!(worker_control(true, cancel), (true, Control::Cancelled));
}
