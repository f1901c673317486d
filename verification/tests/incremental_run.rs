//! The incremental driver run end to end against a simulated recording: the
//! loop below does what the worker does (read the recording, slice it,
//! transcribe, offer cleanup) with the recording held in memory.

use std::collections::{BTreeSet, VecDeque};

use pickscribe::audio::{ms_to_sample, sample_to_ms, sample_window};
use pickscribe::incremental::{
    Action, Control, DriverStep, IncrementalRun, RunResult, SchedulingConfig, SegmentJob, WavSlice,
};
use pickscribe::segments::{RecordingSession, TranscriptSegment, TranscriptSegmentStatus};

fn cfg() -> SchedulingConfig {
    SchedulingConfig::new(5_000, 10_000, 1_500, 2)
}

/// A tone loud enough that low-energy boundary selection lands near the
/// desired cut point instead of drifting to a silent tail.
fn tone_samples(count: usize) -> Vec<i16> {
    (0..count).map(|i| ((i % 200) as i32 - 100) as i16 * 300).collect()
}

fn recording(duration_ms: u64) -> Vec<i16> {
    tone_samples(ms_to_sample(duration_ms) as usize)
}

struct FakeHost {
    samples: Vec<i16>,
    /// Audio appended once the driver has polled this many times.
    grow_after_polls: Option<(usize, Vec<i16>)>,
    polls: usize,
    control: Control,
    transcripts: VecDeque<Result<String, String>>,
    cleanup_enabled: bool,
    keep_audio: bool,
    published: Vec<RecordingSession>,
    transcribed_jobs: Vec<SegmentJob>,
    segment_files: BTreeSet<String>,
    segment_files_present_after_transcribe: Vec<bool>,
    cleanup_artifacts_called: bool,
    cancel_after_n_transcriptions: Option<usize>,
    stop_after_n_transcriptions: Option<usize>,
}

impl FakeHost {
    fn new(samples: Vec<i16>) -> Self {
        FakeHost {
            samples,
            grow_after_polls: None,
            polls: 0,
            control: Control::Continue,
            transcripts: VecDeque::new(),
            cleanup_enabled: false,
            keep_audio: false,
            published: Vec::new(),
            transcribed_jobs: Vec::new(),
            segment_files: BTreeSet::new(),
            segment_files_present_after_transcribe: Vec::new(),
            cleanup_artifacts_called: false,
            cancel_after_n_transcriptions: None,
            stop_after_n_transcriptions: None,
        }
    }

    fn with_transcripts(mut self, transcripts: Vec<Result<&str, &str>>) -> Self {
        self.transcripts = transcripts
            .into_iter()
            .map(|r| r.map(str::to_string).map_err(str::to_string))
            .collect();
        self
    }

    fn with_control(mut self, control: Control) -> Self {
        self.control = control;
        self
    }

    fn segment_path(segment_id: u64) -> String {
        format!("segments/segment-{segment_id:04}.wav")
    }

    fn total_bytes(&self) -> u64 {
        self.samples.len() as u64 * 2
    }

    fn available_ms(&self) -> u64 {
        sample_to_ms(self.total_bytes() / 2)
    }

    fn window(&self, start_ms: u64, end_ms: u64) -> (Vec<i16>, u64, u64) {
        let w = sample_window(start_ms, end_ms, self.total_bytes());
        if w.end_sample <= w.start_sample {
            return (Vec::new(), w.start_ms, w.end_ms);
        }
        (self.samples[w.start_sample as usize..w.end_sample as usize].to_vec(), w.start_ms, w.end_ms)
    }

    fn transcribe(&mut self, job: &SegmentJob) -> Result<String, String> {
        self.transcribed_jobs.push(job.clone());
        self.segment_files_present_after_transcribe.push(self.segment_files.contains(&job.audio_path));
        let result = self.transcripts.pop_front().unwrap_or_else(|| Ok(String::new()));
        if let Some(threshold) = self.cancel_after_n_transcriptions {
            if self.transcribed_jobs.len() >= threshold {
                self.control = Control::Cancelled;
            }
        }
        if let Some(threshold) = self.stop_after_n_transcriptions {
            if self.transcribed_jobs.len() >= threshold && self.control == Control::Continue {
                self.control = Control::Stopping;
            }
        }
        result
    }

    fn poll(&mut self, run: &mut IncrementalRun) -> DriverStep {
        self.polls += 1;
        if let Some((after, extra)) = self.grow_after_polls.take() {
            if self.polls > after {
                self.samples.extend(extra);
            } else {
                self.grow_after_polls = Some((after, extra));
            }
        }
        let available_ms = self.available_ms();
        run.on_tick(Vec::new(), self.control, available_ms)
    }
}

fn run(host: &mut FakeHost, session_id: &str, cfg: SchedulingConfig) -> RunResult {
    let mut run = IncrementalRun::new(session_id, cfg);
    let mut step = DriverStep { publish: false, action: Action::Poll };
    let mut rounds = 0;
    loop {
        rounds += 1;
        assert!(rounds < 10_000, "the driver must terminate");
        if step.publish {
            host.published.push(run.session.clone());
        }
        step = match step.action {
            Action::Poll | Action::Sleep => host.poll(&mut run),
            Action::ReadSamples(probe) => {
                assert!(probe.start_ms.saturating_add(250) <= probe.available_ms);
                let (samples, _, _) = host.window(probe.scan_start_ms, probe.scan_end_ms);
                run.on_samples(probe, Some(&samples))
            }
            Action::Slice(request) => {
                let path = FakeHost::segment_path(request.segment_id);
                let result = if request.end_ms < request.slice_start_ms {
                    Err(format!(
                        "segment end {}ms is before start {}ms",
                        request.end_ms, request.slice_start_ms
                    ))
                } else {
                    let (samples, start_ms, end_ms) =
                        host.window(request.slice_start_ms, request.end_ms);
                    host.segment_files.insert(path.clone());
                    Ok(WavSlice { start_ms, end_ms, sample_count: samples.len() })
                };
                run.on_sliced(request, path, result)
            }
            Action::Transcribe(request) => {
                let result = host.transcribe(&request.job);
                if !host.keep_audio {
                    host.segment_files.remove(&request.job.audio_path);
                }
                let control = host.control;
                run.on_transcribed(request, control, result)
            }
            Action::OfferCleanup(offer) => {
                let accepted = host.cleanup_enabled;
                run.on_cleanup_offered(offer, accepted)
            }
            Action::Abandon => {
                host.cleanup_artifacts_called = true;
                return RunResult::Abandoned;
            }
            Action::FinalDrain(stop) => run.on_final_drain(stop, Vec::<TranscriptSegment>::new()),
            Action::Finish(stop) => return RunResult::Finished(run.finish(stop)),
        };
    }
}

#[test]
fn run_completes_after_the_final_drain_consumes_all_buffered_audio() {
    let mut host = FakeHost::new(recording(5_800))
        .with_transcripts(vec![Ok("hello world"), Ok("goodbye")])
        .with_control(Control::Continue);
    host.stop_after_n_transcriptions = Some(1);

    match run(&mut host, "session-1", cfg()) {
        RunResult::Finished(outcome) => {
            assert!(outcome.complete);
            assert!(!outcome.fallback_required);
            assert!(outcome.session.final_raw_text().starts_with("hello world"));
        }
        RunResult::Abandoned => panic!("expected Finished"),
    }
}

#[test]
fn run_completes_with_no_segments_when_stopped_before_any_audio() {
    let mut host = FakeHost::new(recording(0)).with_control(Control::Stopping);

    match run(&mut host, "session-1", cfg()) {
        RunResult::Finished(outcome) => {
            assert!(outcome.complete);
            assert!(!outcome.fallback_required);
            assert!(outcome.session.segments.is_empty());
        }
        RunResult::Abandoned => panic!("expected Finished"),
    }
}

#[test]
fn run_forces_a_fallback_when_stopped_with_only_a_sub_250ms_residual() {
    let mut host = FakeHost::new(recording(100)).with_control(Control::Stopping);

    match run(&mut host, "session-1", cfg()) {
        RunResult::Finished(outcome) => {
            assert!(!outcome.complete);
            assert!(outcome.fallback_required);
            assert!(outcome.session.segments.is_empty());
        }
        RunResult::Abandoned => panic!("expected Finished"),
    }
}

#[test]
fn run_falls_back_when_a_segment_transcription_fails() {
    let mut host = FakeHost::new(recording(5_000))
        .with_transcripts(vec![Err("stt crashed")])
        .with_control(Control::Continue);

    match run(&mut host, "session-1", cfg()) {
        RunResult::Finished(outcome) => {
            assert!(!outcome.complete);
            assert!(outcome.fallback_required);
            assert_eq!(outcome.session.segments.len(), 1);
            assert_eq!(outcome.session.segments[0].status, TranscriptSegmentStatus::Failed);
        }
        RunResult::Abandoned => panic!("expected Finished"),
    }
}

#[test]
fn run_stops_immediately_on_live_backlog_overflow_without_transcribing_more() {
    // The backlog limit for cfg() is max_ms (10 000) times max_queue (2).
    let mut host = FakeHost::new(recording(20_500))
        .with_transcripts(vec![Ok("only one")])
        .with_control(Control::Continue);

    match run(&mut host, "session-1", cfg()) {
        RunResult::Finished(outcome) => {
            assert!(!outcome.complete);
            assert!(outcome.fallback_required);
        }
        RunResult::Abandoned => panic!("expected Finished"),
    }
    assert_eq!(
        host.transcribed_jobs.len(),
        0,
        "live backlog overflow must stop before transcribing another segment"
    );
}

#[test]
fn run_cancels_mid_stt_without_processing_the_result() {
    let mut host = FakeHost::new(recording(5_000))
        .with_transcripts(vec![Ok("should be discarded")])
        .with_control(Control::Continue);
    host.cancel_after_n_transcriptions = Some(1);

    match run(&mut host, "session-1", cfg()) {
        RunResult::Finished(outcome) => {
            assert!(!outcome.complete);
            assert!(!outcome.fallback_required);
            assert!(
                outcome.session.segments.iter().all(|s| s.status != TranscriptSegmentStatus::RawReady),
                "cancelled segment result must not be applied"
            );
        }
        RunResult::Abandoned => panic!("expected Finished"),
    }
}

#[test]
fn run_returns_abandoned_and_cleans_up_without_publishing() {
    let mut host = FakeHost::new(recording(5_000)).with_control(Control::Abandoned);

    let result = run(&mut host, "session-1", cfg());

    assert!(matches!(result, RunResult::Abandoned));
    assert!(host.cleanup_artifacts_called);
    assert!(host.published.is_empty());
}

#[test]
fn run_deletes_segment_files_after_transcribe_unless_keep_audio() {
    let mut host = FakeHost::new(recording(5_000))
        .with_transcripts(vec![Ok("kept"), Ok("tail")])
        .with_control(Control::Continue);
    host.stop_after_n_transcriptions = Some(1);
    host.keep_audio = true;

    let _ = run(&mut host, "session-1", cfg());

    assert!(host.segment_files_present_after_transcribe[0]);
    assert!(
        host.segment_files.contains(&FakeHost::segment_path(1)),
        "keep_audio must retain segment WAVs"
    );
}

#[test]
fn run_removes_segment_files_after_transcribe_by_default() {
    let mut host = FakeHost::new(recording(5_000))
        .with_transcripts(vec![Ok("gone"), Ok("tail")])
        .with_control(Control::Continue);
    host.stop_after_n_transcriptions = Some(1);

    let _ = run(&mut host, "session-1", cfg());

    assert!(!host.segment_files.contains(&FakeHost::segment_path(1)));
}

#[test]
fn run_marks_finished_segments_cleaning_only_when_cleanup_accepts_them() {
    let mut host = FakeHost::new(recording(5_000))
        .with_transcripts(vec![Ok("clean me"), Ok("tail")])
        .with_control(Control::Continue);
    host.stop_after_n_transcriptions = Some(1);
    host.cleanup_enabled = true;

    let RunResult::Finished(outcome) = run(&mut host, "session-1", cfg()) else {
        panic!("expected Finished");
    };
    assert!(
        host.published
            .iter()
            .flat_map(|s| s.segments.iter())
            .any(|s| s.status == TranscriptSegmentStatus::Cleaning),
        "queued segment must be published as Cleaning before results drain"
    );
    assert!(!outcome.session.segments.is_empty());
}

#[test]
fn run_does_not_queue_cleanup_for_empty_transcripts() {
    let mut host = FakeHost::new(recording(5_000))
        .with_transcripts(vec![Ok("   "), Ok("   ")])
        .with_control(Control::Continue);
    host.stop_after_n_transcriptions = Some(1);
    host.cleanup_enabled = true;

    let _ = run(&mut host, "session-1", cfg());

    assert!(
        host.published
            .iter()
            .flat_map(|s| s.segments.iter())
            .all(|s| s.status != TranscriptSegmentStatus::Cleaning),
        "blank transcripts must not be queued for cleanup"
    );
}

#[test]
fn run_waits_for_more_audio_then_produces_once_the_target_buffer_fills() {
    let mut host = FakeHost::new(recording(4_000))
        .with_transcripts(vec![Ok("first")])
        .with_control(Control::Continue);
    host.cancel_after_n_transcriptions = Some(1);
    host.grow_after_polls = Some((2, tone_samples(ms_to_sample(2_000) as usize)));

    match run(&mut host, "session-1", cfg()) {
        RunResult::Finished(_) => assert_eq!(host.transcribed_jobs.len(), 1),
        RunResult::Abandoned => panic!("expected Finished"),
    }
    assert!(host.polls > 2, "the driver waited for the recording to grow");
}

#[test]
fn run_without_a_stop_keeps_waiting_on_a_short_recording() {
    let mut host = FakeHost::new(recording(3_000)).with_control(Control::Continue);
    let mut driver = IncrementalRun::new("session-1", cfg());
    for _ in 0..5 {
        let step = host.poll(&mut driver);
        assert!(matches!(step.action, Action::Sleep));
    }
    assert!(host.transcribed_jobs.is_empty());
}
