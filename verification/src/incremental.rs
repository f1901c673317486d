//! Incremental transcription scheduling: when to cut the next segment of a
//! growing recording, when live or final backlog forces a fallback to a full
//! re-transcription, and the per-session driver state machine that the CLI
//! worker and the desktop worker both run.
use vstd::prelude::*;
use crate::audio::{
    best_cut, find_low_energy_boundary, ms_to_sample, sample_to_ms, spec_ms_to_sample,
    spec_sample_to_ms,
};
use crate::segments::{
    has_text, seg_views, sort_by_key, upserted, RecordingSession, SegmentView,
    TranscriptSegment, TranscriptSegmentStatus,
};
use crate::text::{chars_of, trim};

verus! {

pub open spec fn sat_add(a: u64, b: u64) -> u64 {
    if a + b > u64::MAX {
        u64::MAX
    } else {
        (a + b) as u64
    }
}

pub open spec fn sat_sub(a: u64, b: u64) -> u64 {
    if a >= b {
        (a - b) as u64
    } else {
        0
    }
}

pub open spec fn min_u64(a: u64, b: u64) -> u64 {
    if a <= b {
        a
    } else {
        b
    }
}

pub open spec fn max_u64(a: u64, b: u64) -> u64 {
    if a >= b {
        a
    } else {
        b
    }
}

/// Normalized incremental scheduling knobs.
#[derive(Debug, Clone, Copy, PartialEq, Eq, Structural)]
pub struct SchedulingConfig {
    pub target_ms: u64,
    pub max_ms: u64,
    pub overlap_ms: u64,
    pub backlog_limit_ms: u64,
}

/// The clamps `SchedulingConfig::new` applies.
pub open spec fn scheduling(target_ms: u64, max_ms: u64, overlap_ms: u64, max_queue: usize)
    -> SchedulingConfig {
    let target = max_u64(target_ms, 1_000);
    let max = max_u64(max_ms, target);
    SchedulingConfig {
        target_ms: target,
        max_ms: max,
        overlap_ms: min_u64(overlap_ms, (target / 2) as u64),
        backlog_limit_ms: crate::audio::sat_mul(
            max,
            if max_queue >= 1 {
                max_queue as u64
            } else {
                1
            },
        ),
    }
}

impl SchedulingConfig {
    /// Target at least one second, maximum at least the target, overlap at
    /// most half the target, and a live backlog limit of `max_queue`
    /// maximum-length segments (at least one).
    pub fn new(target_ms: u64, max_ms: u64, overlap_ms: u64, max_queue: usize) -> (cfg: Self)
        ensures
            cfg == scheduling(target_ms, max_ms, overlap_ms, max_queue),
    {
        let target_ms = if target_ms >= 1_000 {
            target_ms
        } else {
            1_000
        };
        let max_ms = if max_ms >= target_ms {
            max_ms
        } else {
            target_ms
        };
        let half = target_ms / 2;
        let overlap_ms = if overlap_ms <= half {
            overlap_ms
        } else {
            half
        };
        let queue: u64 = if max_queue >= 1 {
            max_queue as u64
        } else {
            1
        };
        let backlog_limit_ms = crate::audio::saturating_mul(max_ms, queue);
        SchedulingConfig { target_ms, max_ms, overlap_ms, backlog_limit_ms }
    }

    /// The invariant `new` establishes.
    pub open spec fn normalized(self) -> bool {
        &&& self.target_ms >= 1_000
        &&& self.max_ms >= self.target_ms
        &&& self.overlap_ms <= self.target_ms / 2
    }
}

/// Every configuration `new` builds is normalized, and normalizing the
/// normalized knobs again changes none of them.
pub proof fn lemma_scheduling_normalized(target_ms: u64, max_ms: u64, overlap_ms: u64, max_queue: usize)
    ensures
        scheduling(target_ms, max_ms, overlap_ms, max_queue).normalized(),
        ({
            let c = scheduling(target_ms, max_ms, overlap_ms, max_queue);
            let d = scheduling(c.target_ms, c.max_ms, c.overlap_ms, max_queue);
            d == c
        }),
{
}

/// Terminal decision for an incremental session.
#[derive(Debug, Clone, Copy, PartialEq, Eq, Structural)]
pub struct StopOutcome {
    pub complete: bool,
    pub fallback_required: bool,
}

/// Stuck with a final drain requested: complete only when every buffered
/// millisecond was already consumed.
pub open spec fn stuck_outcome(next_start_ms: u64, available_ms: u64) -> StopOutcome {
    StopOutcome {
        complete: !(available_ms > next_start_ms),
        fallback_required: available_ms > next_start_ms,
    }
}

pub open spec fn fallback_outcome() -> StopOutcome {
    StopOutcome { complete: false, fallback_required: true }
}

pub open spec fn finished_outcome() -> StopOutcome {
    StopOutcome { complete: true, fallback_required: false }
}

pub open spec fn cancelled_outcome() -> StopOutcome {
    StopOutcome { complete: false, fallback_required: false }
}

impl StopOutcome {
    pub fn stuck(next_start_ms: u64, available_ms: u64) -> (r: Self)
        ensures
            r == stuck_outcome(next_start_ms, available_ms),
    {
        let fallback_required = available_ms > next_start_ms;
        StopOutcome { complete: !fallback_required, fallback_required }
    }

    pub fn fallback() -> (r: Self)
        ensures
            r == fallback_outcome(),
    {
        StopOutcome { complete: false, fallback_required: true }
    }

    pub fn finished() -> (r: Self)
        ensures
            r == finished_outcome(),
    {
        StopOutcome { complete: true, fallback_required: false }
    }

    pub fn cancelled() -> (r: Self)
        ensures
            r == cancelled_outcome(),
    {
        StopOutcome { complete: false, fallback_required: false }
    }
}

/// No terminal decision is both complete and in need of a fallback.
pub proof fn lemma_stop_outcomes_exclusive(next_start_ms: u64, available_ms: u64)
    ensures
        !(stuck_outcome(next_start_ms, available_ms).complete && stuck_outcome(
            next_start_ms,
            available_ms,
        ).fallback_required),
        !(fallback_outcome().complete && fallback_outcome().fallback_required),
        !(finished_outcome().complete && finished_outcome().fallback_required),
        !(cancelled_outcome().complete && cancelled_outcome().fallback_required),
{
}

/// What the scheduler wants to do this tick.
#[derive(Debug, Clone, Copy, PartialEq, Eq, Structural)]
pub enum Step {
    /// Not enough new audio yet; sleep and re-check.
    Wait,
    /// Cut a segment starting at `start_ms`, targeting `desired_end_ms`.
    Produce { start_ms: u64, desired_end_ms: u64 },
    /// Stop the loop with this terminal outcome.
    Stop(StopOutcome),
}

pub open spec fn spec_next_step(
    next_start_ms: u64,
    available_ms: u64,
    final_requested: bool,
    cfg: SchedulingConfig,
) -> Step {
    let buffered = sat_sub(available_ms, next_start_ms);
    if available_ms <= sat_add(next_start_ms, 250) {
        if final_requested {
            Step::Stop(stuck_outcome(next_start_ms, available_ms))
        } else {
            Step::Wait
        }
    } else if !final_requested && buffered < cfg.target_ms {
        Step::Wait
    } else if !final_requested && buffered > cfg.backlog_limit_ms {
        Step::Stop(fallback_outcome())
    } else if final_requested && buffered > cfg.max_ms {
        Step::Stop(fallback_outcome())
    } else {
        Step::Produce {
            start_ms: next_start_ms,
            desired_end_ms: min_u64(
                sat_add(
                    next_start_ms,
                    if final_requested {
                        cfg.max_ms
                    } else {
                        cfg.target_ms
                    },
                ),
                available_ms,
            ),
        }
    }
}

/// The scheduling decision for one tick: wait for a 250 ms residual or a
/// full target buffer, stop with a fallback on live backlog overflow or
/// final backlog overflow, else produce the next segment.
pub fn next_step(
    next_start_ms: u64,
    available_ms: u64,
    final_requested: bool,
    cfg: &SchedulingConfig,
) -> (s: Step)
    ensures
        s == spec_next_step(next_start_ms, available_ms, final_requested, *cfg),
{
    if available_ms <= next_start_ms.saturating_add(250) {
        return if final_requested {
            Step::Stop(StopOutcome::stuck(next_start_ms, available_ms))
        } else {
            Step::Wait
        };
    }
    let buffered_ms = available_ms.saturating_sub(next_start_ms);
    if !final_requested && buffered_ms < cfg.target_ms {
        return Step::Wait;
    }
    if !final_requested && buffered_ms > cfg.backlog_limit_ms {
        return Step::Stop(StopOutcome::fallback());
    }
    if final_requested && buffered_ms > cfg.max_ms {
        return Step::Stop(StopOutcome::fallback());
    }
    let span = if final_requested {
        cfg.max_ms
    } else {
        cfg.target_ms
    };
    let end = next_start_ms.saturating_add(span);
    let desired_end_ms = if end <= available_ms {
        end
    } else {
        available_ms
    };
    Step::Produce { start_ms: next_start_ms, desired_end_ms }
}

/// Whether the refined boundary advances past `next_start_ms`.
#[derive(Debug, Clone, Copy, PartialEq, Eq, Structural)]
pub enum BoundaryStep {
    Wait,
    Stop(StopOutcome),
    Proceed,
}

pub open spec fn spec_after_boundary(
    next_start_ms: u64,
    end_ms: u64,
    available_ms: u64,
    final_requested: bool,
) -> BoundaryStep {
    if end_ms > next_start_ms {
        BoundaryStep::Proceed
    } else if final_requested {
        BoundaryStep::Stop(stuck_outcome(next_start_ms, available_ms))
    } else {
        BoundaryStep::Wait
    }
}

pub fn after_boundary(next_start_ms: u64, end_ms: u64, available_ms: u64, final_requested: bool)
    -> (s: BoundaryStep)
    ensures
        s == spec_after_boundary(next_start_ms, end_ms, available_ms, final_requested),
{
    if end_ms > next_start_ms {
        return BoundaryStep::Proceed;
    }
    if final_requested {
        BoundaryStep::Stop(StopOutcome::stuck(next_start_ms, available_ms))
    } else {
        BoundaryStep::Wait
    }
}

// ---------------------------------------------------------------------------
// Refining a segment end to a low-energy boundary
// ---------------------------------------------------------------------------

/// Start of the window scanned for a quiet cut point.
pub open spec fn scan_start(next_start_ms: u64, desired_end_ms: u64) -> u64 {
    max_u64(sat_sub(desired_end_ms, 500), next_start_ms)
}

/// End of the window scanned for a quiet cut point.
pub open spec fn scan_end(desired_end_ms: u64, available_ms: u64) -> u64 {
    min_u64(sat_add(desired_end_ms, 500), available_ms)
}

/// The end chosen from the samples of the scan window (`None` when they
/// could not be read): the quietest nearby cut, kept at least 250 ms past
/// the segment start and within the available audio.
pub open spec fn spec_end_from_samples(
    next_start_ms: u64,
    desired_end_ms: u64,
    available_ms: u64,
    samples: Option<Seq<i16>>,
) -> u64 {
    let fallback = min_u64(desired_end_ms, available_ms);
    match samples {
        None => fallback,
        Some(s) => if s.len() == 0 {
            fallback
        } else {
            let start = scan_start(next_start_ms, desired_end_ms);
            let target = spec_ms_to_sample(sat_sub(desired_end_ms, start)) as usize;
            let radius = if (8_000 as usize) <= s.len() {
                8_000usize
            } else {
                s.len() as usize
            };
            let cut = best_cut(s, target as int, radius as int);
            let ms = sat_add(start, spec_sample_to_ms(cut as u64));
            let lo = sat_add(next_start_ms, 250);
            if ms < lo {
                lo
            } else if ms > available_ms {
                available_ms
            } else {
                ms
            }
        },
    }
}

/// The window `[start, end)` whose samples `segment_end_from_samples` reads.
pub fn segment_scan_window(next_start_ms: u64, desired_end_ms: u64, available_ms: u64) -> (w: (
    u64,
    u64,
))
    ensures
        w.0 == scan_start(next_start_ms, desired_end_ms),
        w.1 == scan_end(desired_end_ms, available_ms),
{
    let lo = desired_end_ms.saturating_sub(500);
    let start = if lo >= next_start_ms {
        lo
    } else {
        next_start_ms
    };
    let hi = desired_end_ms.saturating_add(500);
    let end = if hi <= available_ms {
        hi
    } else {
        available_ms
    };
    (start, end)
}

pub open spec fn opt_samples(s: Option<&[i16]>) -> Option<Seq<i16>> {
    match s {
        Some(v) => Some(v@),
        None => None,
    }
}

/// Refines `desired_end_ms` to a low-energy boundary among the samples of
/// the scan window.
pub fn segment_end_from_samples(
    next_start_ms: u64,
    desired_end_ms: u64,
    available_ms: u64,
    samples: Option<&[i16]>,
) -> (end: u64)
    requires
        (opt_samples(samples) matches Some(v) && v.len() > 0) ==> sat_add(next_start_ms, 250)
            <= available_ms,
    ensures
        end == spec_end_from_samples(
            next_start_ms,
            desired_end_ms,
            available_ms,
            opt_samples(samples),
        ),
{
    let fallback = if desired_end_ms <= available_ms {
        desired_end_ms
    } else {
        available_ms
    };
    let samples = match samples {
        None => {
            return fallback;
        },
        Some(s) => s,
    };
    if samples.len() == 0 {
        return fallback;
    }
    let (start, _) = segment_scan_window(next_start_ms, desired_end_ms, available_ms);
    let target = ms_to_sample(desired_end_ms.saturating_sub(start)) as usize;
    let radius = if 8_000usize <= samples.len() {
        8_000usize
    } else {
        samples.len()
    };
    let cut = find_low_energy_boundary(samples, target, radius);
    let ms = start.saturating_add(sample_to_ms(cut as u64));
    let lo = next_start_ms.saturating_add(250);
    if ms < lo {
        lo
    } else if ms > available_ms {
        available_ms
    } else {
        ms
    }
}

/// The end of the next segment: all available audio on a final drain,
/// else `desired_end_ms` refined to a quiet cut among `samples`, the
/// samples of `segment_scan_window` (`None` when they could not be read).
pub fn choose_segment_end(
    samples: Option<&[i16]>,
    next_start_ms: u64,
    desired_end_ms: u64,
    available_ms: u64,
    final_requested: bool,
) -> (end: u64)
    requires
        !final_requested && (opt_samples(samples) matches Some(v) && v.len() > 0) ==> sat_add(
            next_start_ms,
            250,
        ) <= available_ms,
    ensures
        end == if final_requested {
            available_ms
        } else {
            spec_end_from_samples(next_start_ms, desired_end_ms, available_ms, opt_samples(samples))
        },
{
    if final_requested {
        return available_ms;
    }
    segment_end_from_samples(next_start_ms, desired_end_ms, available_ms, samples)
}

// ---------------------------------------------------------------------------
// Slicing
// ---------------------------------------------------------------------------

/// The span of recording a slice actually covered and its sample count.
#[derive(Debug, Clone, Copy, PartialEq, Eq, Structural)]
pub struct WavSlice {
    pub start_ms: u64,
    pub end_ms: u64,
    pub sample_count: usize,
}

/// What to do with the result of slicing a segment out of the recording.
#[derive(Debug)]
pub enum SliceStep {
    Use(WavSlice),
    Wait,
    Stop(StopOutcome),
    /// Slicing failed while a final drain was requested: record a failed
    /// segment and fall back.
    Failed(String),
}

pub fn classify_slice(
    result: Result<WavSlice, String>,
    final_requested: bool,
    available_ms: u64,
    next_start_ms: u64,
) -> (s: SliceStep)
    ensures
        result is Ok && result->Ok_0.sample_count > 0 ==> s == SliceStep::Use(result->Ok_0),
        result is Ok && result->Ok_0.sample_count == 0 && final_requested ==> s
            == SliceStep::Stop(stuck_outcome(next_start_ms, available_ms)),
        result is Ok && result->Ok_0.sample_count == 0 && !final_requested ==> s
            == SliceStep::Wait,
        result is Err && final_requested ==> (s matches SliceStep::Failed(m) && m@
            == result->Err_0@),
        result is Err && !final_requested ==> s == SliceStep::Wait,
{
    match result {
        Ok(slice) => {
            if slice.sample_count > 0 {
                SliceStep::Use(slice)
            } else if final_requested {
                SliceStep::Stop(StopOutcome::stuck(next_start_ms, available_ms))
            } else {
                SliceStep::Wait
            }
        },
        Err(err) => {
            if final_requested {
                SliceStep::Failed(err)
            } else {
                SliceStep::Wait
            }
        },
    }
}

// ---------------------------------------------------------------------------
// The session driver
// ---------------------------------------------------------------------------

/// What the scheduler should do right now, from the host's perspective.
#[derive(Debug, Clone, Copy, PartialEq, Eq, Structural)]
pub enum Control {
    Continue,
    /// A final drain was requested (recording stopped).
    Stopping,
    /// Stop now without publishing a terminal result.
    Cancelled,
    /// The owning process or session is gone: stop, clean up scratch
    /// artifacts, and publish nothing.
    Abandoned,
}

impl Control {
    pub fn default_control() -> (c: Self)
        ensures
            c == Control::Continue,
    {
        Control::Continue
    }
}

/// What the command-line worker sees of its surroundings when it polls: the
/// request files in its scratch directory, the recorder's state file, and
/// whether the recorder process lives.
#[derive(Debug, Clone, Copy, PartialEq, Eq)]
pub struct WorkerSignals {
    pub cancel_requested: bool,
    pub stop_requested: bool,
    pub stopping_requested: bool,
    pub state_file_exists: bool,
    pub startup_deadline_passed: bool,
    pub recorder_alive: bool,
}

/// Whether the worker has seen the recorder's state file once the poll is
/// taken into account, and the control it reads. A cancel request wins. The
/// worker is abandoned when neither a stop nor a final drain was asked for,
/// the recorder had time to appear (its state file was seen, or the startup
/// deadline passed), and its state file is gone or the recorder died.
pub open spec fn spec_worker_control(saw_state_file: bool, s: WorkerSignals) -> (bool, Control) {
    let saw = saw_state_file || s.state_file_exists;
    let control = if s.cancel_requested {
        Control::Cancelled
    } else if !s.stop_requested && !s.stopping_requested && (saw || s.startup_deadline_passed) && (
    !s.state_file_exists || !s.recorder_alive) {
        Control::Abandoned
    } else if s.stop_requested {
        Control::Stopping
    } else {
        Control::Continue
    };
    (saw, control)
}

pub fn worker_control(saw_state_file: bool, signals: WorkerSignals) -> (r: (bool, Control))
    ensures
        r == spec_worker_control(saw_state_file, signals),
{
    let saw = saw_state_file || signals.state_file_exists;
    let control = if signals.cancel_requested {
        Control::Cancelled
    } else if !signals.stop_requested && !signals.stopping_requested && (saw
        || signals.startup_deadline_passed) && (!signals.state_file_exists
        || !signals.recorder_alive) {
        Control::Abandoned
    } else if signals.stop_requested {
        Control::Stopping
    } else {
        Control::Continue
    };
    (saw, control)
}

/// A worker asked to stop, or to drain before stopping, is never taken
/// for abandoned, whatever became of the recorder; and one that saw the
/// recorder's state file keeps having seen it.
pub proof fn lemma_requested_stop_is_not_abandonment(saw_state_file: bool, s: WorkerSignals)
    ensures
        (s.stop_requested || s.stopping_requested) ==> spec_worker_control(saw_state_file, s).1
            != Control::Abandoned,
        saw_state_file ==> spec_worker_control(saw_state_file, s).0,
{
}

/// One segment's transcription work.
#[derive(Debug, Clone, PartialEq, Eq)]
pub struct SegmentJob {
    pub segment_id: u64,
    pub audio_path: String,
    pub start_ms: u64,
    pub end_ms: u64,
}

/// Read the recording's samples in `[scan_start_ms, scan_end_ms)` and hand
/// them (or the read failure) to `IncrementalRun::on_samples`.
#[derive(Debug, Clone, Copy, PartialEq, Eq, Structural)]
pub struct BoundaryProbe {
    pub start_ms: u64,
    pub desired_end_ms: u64,
    pub available_ms: u64,
    pub scan_start_ms: u64,
    pub scan_end_ms: u64,
}

/// Slice `[slice_start_ms, end_ms)` of the recording into the segment file
/// of `segment_id`, then call `IncrementalRun::on_sliced`.
#[derive(Debug, Clone, Copy, PartialEq, Eq, Structural)]
pub struct SliceRequest {
    pub segment_id: u64,
    pub start_ms: u64,
    pub slice_start_ms: u64,
    pub end_ms: u64,
    pub available_ms: u64,
    pub final_requested: bool,
}

/// Transcribe `job`, remove its file unless audio is kept, read the control
/// state, then call `IncrementalRun::on_transcribed`.
#[derive(Debug, Clone, PartialEq, Eq)]
pub struct TranscribeRequest {
    pub job: SegmentJob,
    pub available_ms: u64,
    pub final_requested: bool,
}

/// Offer `segment` to live cleanup, then call
/// `IncrementalRun::on_cleanup_offered` with whether it was accepted.
#[derive(Debug, Clone, PartialEq, Eq)]
pub struct CleanupOffer {
    pub segment: TranscriptSegment,
    pub available_ms: u64,
    pub final_requested: bool,
}

/// The next outside work the driver loop performs.
#[derive(Debug)]
pub enum Action {
    /// Drain cleanup results, read the control state and the available
    /// audio, then call `IncrementalRun::on_tick`.
    Poll,
    /// Wait one poll interval, then as `Poll`.
    Sleep,
    ReadSamples(BoundaryProbe),
    Slice(SliceRequest),
    Transcribe(TranscribeRequest),
    OfferCleanup(CleanupOffer),
    /// Clean up scratch artifacts and return `RunResult::Abandoned`.
    Abandon,
    /// Drain cleanup results one last time, then call
    /// `IncrementalRun::on_final_drain`.
    FinalDrain(StopOutcome),
    /// Return `RunResult::Finished` with this outcome.
    Finish(StopOutcome),
}

/// A driver decision: publish the session first when `publish` is set, then
/// perform `action`.
#[derive(Debug)]
pub struct DriverStep {
    pub publish: bool,
    pub action: Action,
}

/// The incremental worker's terminal result.
#[derive(Debug)]
pub struct Outcome {
    pub session: RecordingSession,
    pub complete: bool,
    pub fallback_required: bool,
}

#[derive(Debug)]
pub enum RunResult {
    Finished(Outcome),
    /// The host was abandoned; nothing was published.
    Abandoned,
}

/// Per-session driver state.
#[derive(Debug)]
pub struct IncrementalRun {
    pub session: RecordingSession,
    pub next_start_ms: u64,
    pub segment_id: u64,
    pub cfg: SchedulingConfig,
}

/// `segs` after upserting each drained segment in order.
pub open spec fn upsert_all(segs: Seq<SegmentView>, drained: Seq<SegmentView>) -> Seq<
    SegmentView,
>
    decreases drained.len(),
{
    if drained.len() == 0 {
        segs
    } else {
        sort_by_key(upserted(upsert_all(segs, drained.drop_last()), drained.last()))
    }
}

pub open spec fn seg_view(
    id: u64,
    start_ms: u64,
    end_ms: u64,
    status: TranscriptSegmentStatus,
    raw_text: Seq<char>,
    error: Option<Seq<char>>,
) -> SegmentView {
    SegmentView { id, start_ms, end_ms, status, raw_text, cleaned_text: None, error }
}

/// The decision once a segment end is known: the next segment id and the
/// action.
pub open spec fn boundary_decision(
    segment_id: u64,
    overlap_ms: u64,
    start_ms: u64,
    end_ms: u64,
    available_ms: u64,
    final_requested: bool,
) -> (u64, Action) {
    match spec_after_boundary(start_ms, end_ms, available_ms, final_requested) {
        BoundaryStep::Wait => (segment_id, Action::Sleep),
        BoundaryStep::Stop(o) => (segment_id, Action::FinalDrain(o)),
        BoundaryStep::Proceed => (
            sat_add(segment_id, 1),
            Action::Slice(
                SliceRequest {
                    segment_id: sat_add(segment_id, 1),
                    start_ms,
                    slice_start_ms: sat_sub(start_ms, overlap_ms),
                    end_ms,
                    available_ms,
                    final_requested,
                },
            ),
        ),
    }
}

/// The tick decision: the next segment id and the action.
pub open spec fn tick_decision(
    next_start_ms: u64,
    segment_id: u64,
    cfg: SchedulingConfig,
    control: Control,
    available_ms: u64,
) -> (u64, Action) {
    match control {
        Control::Abandoned => (segment_id, Action::Abandon),
        Control::Cancelled => (segment_id, Action::FinalDrain(cancelled_outcome())),
        _ => {
            let fin = control == Control::Stopping;
            match spec_next_step(next_start_ms, available_ms, fin, cfg) {
                Step::Wait => (segment_id, Action::Sleep),
                Step::Stop(o) => (segment_id, Action::FinalDrain(o)),
                Step::Produce { start_ms, desired_end_ms } => if fin {
                    boundary_decision(
                        segment_id,
                        cfg.overlap_ms,
                        start_ms,
                        available_ms,
                        available_ms,
                        true,
                    )
                } else {
                    (
                        segment_id,
                        Action::ReadSamples(
                            BoundaryProbe {
                                start_ms,
                                desired_end_ms,
                                available_ms,
                                scan_start_ms: scan_start(start_ms, desired_end_ms),
                                scan_end_ms: scan_end(desired_end_ms, available_ms),
                            },
                        ),
                    )
                },
            }
        },
    }
}

/// After a segment is done: finished when the final drain consumed all
/// audio, else back to polling.
pub open spec fn advance_action(end_ms: u64, available_ms: u64, final_requested: bool) -> Action {
    if final_requested && end_ms >= available_ms {
        Action::FinalDrain(finished_outcome())
    } else {
        Action::Poll
    }
}

impl IncrementalRun {
    pub open spec fn views(&self) -> Seq<SegmentView> {
        seg_views(self.session.segments@)
    }

    pub fn new(session_id: &str, cfg: SchedulingConfig) -> (r: Self)
        ensures
            r.session.id@ == session_id@,
            r.views().len() == 0,
            r.next_start_ms == 0,
            r.segment_id == 0,
            r.cfg == cfg,
    {
        IncrementalRun {
            session: RecordingSession::new(session_id),
            next_start_ms: 0,
            segment_id: 0,
            cfg,
        }
    }

    /// Applies drained cleanup results; tells whether there were any.
    pub fn apply_drained(&mut self, drained: Vec<TranscriptSegment>) -> (changed: bool)
        ensures
            changed == (drained@.len() > 0),
            final(self).views() == upsert_all(old(self).views(), seg_views(drained@)),
            final(self).session.id == old(self).session.id,
            final(self).next_start_ms == old(self).next_start_ms,
            final(self).segment_id == old(self).segment_id,
            final(self).cfg == old(self).cfg,
    {
        let ghost start = self.views();
        for i in 0..drained.len()
            invariant
                self.views() == upsert_all(start, seg_views(drained@).take(i as int)),
                self.session.id == old(self).session.id,
                self.next_start_ms == old(self).next_start_ms,
                self.segment_id == old(self).segment_id,
                self.cfg == old(self).cfg,
        {
            let seg = drained[i].duplicate();
            assert(seg_views(drained@).take(i + 1).drop_last() =~= seg_views(drained@).take(
                i as int,
            ));
            assert(seg_views(drained@).take(i + 1).last() == seg@);
            self.session.upsert_segment(seg);
        }
        assert(seg_views(drained@).take(drained@.len() as int) =~= seg_views(drained@));
        drained.len() > 0
    }

    fn boundary(
        &mut self,
        start_ms: u64,
        end_ms: u64,
        available_ms: u64,
        final_requested: bool,
    ) -> (a: Action)
        ensures
            (final(self).segment_id, a) == boundary_decision(
                old(self).segment_id,
                old(self).cfg.overlap_ms,
                start_ms,
                end_ms,
                available_ms,
                final_requested,
            ),
            final(self).session == old(self).session,
            final(self).next_start_ms == old(self).next_start_ms,
            final(self).cfg == old(self).cfg,
    {
        match after_boundary(start_ms, end_ms, available_ms, final_requested) {
            BoundaryStep::Wait => Action::Sleep,
            BoundaryStep::Stop(o) => Action::FinalDrain(o),
            BoundaryStep::Proceed => {
                self.segment_id = self.segment_id.saturating_add(1);
                Action::Slice(
                    SliceRequest {
                        segment_id: self.segment_id,
                        start_ms,
                        slice_start_ms: start_ms.saturating_sub(self.cfg.overlap_ms),
                        end_ms,
                        available_ms,
                        final_requested,
                    },
                )
            },
        }
    }

    /// A poll: apply drained cleanup results, then decide from the control
    /// state and the available audio.
    pub fn on_tick(&mut self, drained: Vec<TranscriptSegment>, control: Control, available_ms: u64)
        -> (r: DriverStep)
        ensures
            r.publish == (drained@.len() > 0),
            final(self).views() == upsert_all(old(self).views(), seg_views(drained@)),
            final(self).session.id == old(self).session.id,
            final(self).next_start_ms == old(self).next_start_ms,
            final(self).cfg == old(self).cfg,
            (final(self).segment_id, r.action) == tick_decision(
                old(self).next_start_ms,
                old(self).segment_id,
                old(self).cfg,
                control,
                available_ms,
            ),
    {
        let publish = self.apply_drained(drained);
        let action = match control {
            Control::Abandoned => Action::Abandon,
            Control::Cancelled => Action::FinalDrain(StopOutcome::cancelled()),
            Control::Continue | Control::Stopping => {
                let fin = match control {
                    Control::Stopping => true,
                    _ => false,
                };
                match next_step(self.next_start_ms, available_ms, fin, &self.cfg) {
                    Step::Wait => Action::Sleep,
                    Step::Stop(o) => Action::FinalDrain(o),
                    Step::Produce { start_ms, desired_end_ms } => {
                        if fin {
                            self.boundary(start_ms, available_ms, available_ms, true)
                        } else {
                            let (lo, hi) = segment_scan_window(
                                start_ms,
                                desired_end_ms,
                                available_ms,
                            );
                            Action::ReadSamples(
                                BoundaryProbe {
                                    start_ms,
                                    desired_end_ms,
                                    available_ms,
                                    scan_start_ms: lo,
                                    scan_end_ms: hi,
                                },
                            )
                        }
                    },
                }
            },
        };
        DriverStep { publish, action }
    }

    /// The samples of a probe's scan window (`None`: they could not be read).
    pub fn on_samples(&mut self, probe: BoundaryProbe, samples: Option<&[i16]>) -> (r: DriverStep)
        requires
            sat_add(probe.start_ms, 250) <= probe.available_ms,
        ensures
            !r.publish,
            final(self).session == old(self).session,
            final(self).next_start_ms == old(self).next_start_ms,
            final(self).cfg == old(self).cfg,
            (final(self).segment_id, r.action) == boundary_decision(
                old(self).segment_id,
                old(self).cfg.overlap_ms,
                probe.start_ms,
                spec_end_from_samples(
                    probe.start_ms,
                    probe.desired_end_ms,
                    probe.available_ms,
                    opt_samples(samples),
                ),
                probe.available_ms,
                false,
            ),
    {
        let end = segment_end_from_samples(
            probe.start_ms,
            probe.desired_end_ms,
            probe.available_ms,
            samples,
        );
        let action = self.boundary(probe.start_ms, end, probe.available_ms, false);
        DriverStep { publish: false, action }
    }

    /// The result of slicing `req`'s segment into the file `audio_path`.
    pub fn on_sliced(&mut self, req: SliceRequest, audio_path: String, result: Result<
        WavSlice,
        String,
    >) -> (r: DriverStep)
        ensures
            final(self).session.id == old(self).session.id,
            final(self).next_start_ms == old(self).next_start_ms,
            final(self).segment_id == old(self).segment_id,
            final(self).cfg == old(self).cfg,
            match result {
                Ok(slice) => if slice.sample_count > 0 {
                    &&& r.publish
                    &&& final(self).views() == sort_by_key(
                        upserted(
                            old(self).views(),
                            seg_view(
                                req.segment_id,
                                slice.start_ms,
                                slice.end_ms,
                                TranscriptSegmentStatus::Transcribing,
                                Seq::empty(),
                                None,
                            ),
                        ),
                    )
                    &&& r.action matches Action::Transcribe(t) && t.job.segment_id
                        == req.segment_id && t.job.audio_path == audio_path && t.job.start_ms
                        == slice.start_ms && t.job.end_ms == slice.end_ms && t.available_ms
                        == req.available_ms && t.final_requested == req.final_requested
                } else {
                    &&& !r.publish
                    &&& final(self).session == old(self).session
                    &&& req.final_requested ==> r.action == Action::FinalDrain(
                        stuck_outcome(req.start_ms, req.available_ms),
                    )
                    &&& !req.final_requested ==> r.action == Action::Sleep
                },
                Err(e) => if req.final_requested {
                    &&& r.publish
                    &&& final(self).views() == sort_by_key(
                        upserted(
                            old(self).views(),
                            seg_view(
                                req.segment_id,
                                req.slice_start_ms,
                                req.end_ms,
                                TranscriptSegmentStatus::Failed,
                                Seq::empty(),
                                Some(e@),
                            ),
                        ),
                    )
                    &&& r.action == Action::FinalDrain(fallback_outcome())
                } else {
                    &&& !r.publish
                    &&& final(self).session == old(self).session
                    &&& r.action == Action::Sleep
                },
            },
    {
        let ghost res = result;
        match classify_slice(result, req.final_requested, req.available_ms, req.start_ms) {
            SliceStep::Wait => DriverStep { publish: false, action: Action::Sleep },
            SliceStep::Stop(o) => DriverStep { publish: false, action: Action::FinalDrain(o) },
            SliceStep::Failed(err) => {
                self.session.upsert_segment(
                    TranscriptSegment::failed(
                        req.segment_id,
                        req.slice_start_ms,
                        req.end_ms,
                        err.as_str(),
                    ),
                );
                DriverStep { publish: true, action: Action::FinalDrain(StopOutcome::fallback()) }
            },
            SliceStep::Use(slice) => {
                self.session.upsert_segment(
                    TranscriptSegment {
                        id: req.segment_id,
                        start_ms: slice.start_ms,
                        end_ms: slice.end_ms,
                        status: TranscriptSegmentStatus::Transcribing,
                        raw_text: String::new(),
                        cleaned_text: None,
                        error: None,
                    },
                );
                let job = SegmentJob {
                    segment_id: req.segment_id,
                    audio_path,
                    start_ms: slice.start_ms,
                    end_ms: slice.end_ms,
                };
                DriverStep {
                    publish: true,
                    action: Action::Transcribe(
                        TranscribeRequest {
                            job,
                            available_ms: req.available_ms,
                            final_requested: req.final_requested,
                        },
                    ),
                }
            },
        }
    }

    fn advance(&mut self, end_ms: u64, available_ms: u64, final_requested: bool) -> (a: Action)
        ensures
            a == advance_action(end_ms, available_ms, final_requested),
            final(self).next_start_ms == end_ms,
            final(self).session == old(self).session,
            final(self).segment_id == old(self).segment_id,
            final(self).cfg == old(self).cfg,
    {
        self.next_start_ms = end_ms;
        if final_requested && end_ms >= available_ms {
            Action::FinalDrain(StopOutcome::finished())
        } else {
            Action::Poll
        }
    }

    /// The result of transcribing `req`'s job, with the control state read
    /// right after.
    pub fn on_transcribed(
        &mut self,
        req: TranscribeRequest,
        control: Control,
        result: Result<String, String>,
    ) -> (r: DriverStep)
        ensures
            final(self).session.id == old(self).session.id,
            final(self).segment_id == old(self).segment_id,
            final(self).cfg == old(self).cfg,
            control == Control::Abandoned ==> !r.publish && r.action == Action::Abandon
                && final(self).session == old(self).session && final(self).next_start_ms == old(
                self,
            ).next_start_ms,
            control == Control::Cancelled ==> !r.publish && r.action == Action::FinalDrain(
                cancelled_outcome(),
            ) && final(self).session == old(self).session && final(self).next_start_ms == old(
                self,
            ).next_start_ms,
            (control == Control::Continue || control == Control::Stopping) ==> match result {
                Ok(text) => {
                    &&& r.publish
                    &&& final(self).views() == sort_by_key(
                        upserted(
                            old(self).views(),
                            seg_view(
                                req.job.segment_id,
                                req.job.start_ms,
                                req.job.end_ms,
                                TranscriptSegmentStatus::RawReady,
                                text@,
                                None,
                            ),
                        ),
                    )
                    &&& has_text(text@) ==> final(self).next_start_ms == old(self).next_start_ms
                        && (r.action matches Action::OfferCleanup(o) && o.segment@ == seg_view(
                        req.job.segment_id,
                        req.job.start_ms,
                        req.job.end_ms,
                        TranscriptSegmentStatus::RawReady,
                        text@,
                        None,
                    ) && o.available_ms == req.available_ms && o.final_requested
                        == req.final_requested)
                    &&& !has_text(text@) ==> final(self).next_start_ms == req.job.end_ms
                        && r.action == advance_action(
                        req.job.end_ms,
                        req.available_ms,
                        req.final_requested,
                    )
                },
                Err(e) => {
                    &&& r.publish
                    &&& final(self).views() == sort_by_key(
                        upserted(
                            old(self).views(),
                            seg_view(
                                req.job.segment_id,
                                req.job.start_ms,
                                req.job.end_ms,
                                TranscriptSegmentStatus::Failed,
                                Seq::empty(),
                                Some(e@),
                            ),
                        ),
                    )
                    &&& final(self).next_start_ms == old(self).next_start_ms
                    &&& r.action == Action::FinalDrain(fallback_outcome())
                },
            },
    {
        match control {
            Control::Abandoned => {
                return DriverStep { publish: false, action: Action::Abandon };
            },
            Control::Cancelled => {
                return DriverStep {
                    publish: false,
                    action: Action::FinalDrain(StopOutcome::cancelled()),
                };
            },
            _ => {},
        }
        match result {
            Ok(text) => {
                let raw = TranscriptSegment::raw_ready(
                    req.job.segment_id,
                    req.job.start_ms,
                    req.job.end_ms,
                    text.as_str(),
                );
                self.session.upsert_segment(raw.duplicate());
                let chars = chars_of(text.as_str());
                let trimmed_text = trim(chars.as_slice());
                if trimmed_text.len() > 0 {
                    DriverStep {
                        publish: true,
                        action: Action::OfferCleanup(
                            CleanupOffer {
                                segment: raw,
                                available_ms: req.available_ms,
                                final_requested: req.final_requested,
                            },
                        ),
                    }
                } else {
                    let action = self.advance(
                        req.job.end_ms,
                        req.available_ms,
                        req.final_requested,
                    );
                    DriverStep { publish: true, action }
                }
            },
            Err(err) => {
                self.session.upsert_segment(
                    TranscriptSegment::failed(
                        req.job.segment_id,
                        req.job.start_ms,
                        req.job.end_ms,
                        err.as_str(),
                    ),
                );
                DriverStep { publish: true, action: Action::FinalDrain(StopOutcome::fallback()) }
            },
        }
    }

    /// Whether live cleanup accepted the offered segment.
    pub fn on_cleanup_offered(&mut self, offer: CleanupOffer, accepted: bool) -> (r: DriverStep)
        ensures
            r.publish == accepted,
            final(self).session.id == old(self).session.id,
            final(self).segment_id == old(self).segment_id,
            final(self).cfg == old(self).cfg,
            final(self).next_start_ms == offer.segment.end_ms,
            r.action == advance_action(
                offer.segment.end_ms,
                offer.available_ms,
                offer.final_requested,
            ),
            accepted ==> final(self).views() == sort_by_key(
                upserted(
                    old(self).views(),
                    SegmentView { status: TranscriptSegmentStatus::Cleaning, ..offer.segment@ },
                ),
            ),
            !accepted ==> final(self).session == old(self).session,
    {
        let end_ms = offer.segment.end_ms;
        if accepted {
            let seg = offer.segment;
            self.session.upsert_segment(
                TranscriptSegment { status: TranscriptSegmentStatus::Cleaning, ..seg },
            );
        }
        let action = self.advance(end_ms, offer.available_ms, offer.final_requested);
        DriverStep { publish: accepted, action }
    }

    /// The last drain of cleanup results before finishing with `stop`.
    pub fn on_final_drain(&mut self, stop: StopOutcome, drained: Vec<TranscriptSegment>) -> (r:
        DriverStep)
        ensures
            r.publish == (drained@.len() > 0),
            r.action == Action::Finish(stop),
            final(self).views() == upsert_all(old(self).views(), seg_views(drained@)),
            final(self).session.id == old(self).session.id,
            final(self).next_start_ms == old(self).next_start_ms,
            final(self).segment_id == old(self).segment_id,
            final(self).cfg == old(self).cfg,
    {
        let publish = self.apply_drained(drained);
        DriverStep { publish, action: Action::Finish(stop) }
    }

    /// The terminal outcome for `stop`.
    pub fn finish(self, stop: StopOutcome) -> (o: Outcome)
        ensures
            o.session == self.session,
            o.complete == stop.complete,
            o.fallback_required == stop.fallback_required,
    {
        Outcome {
            session: self.session,
            complete: stop.complete,
            fallback_required: stop.fallback_required,
        }
    }
}

} // verus!
