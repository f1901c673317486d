use pickscribe::cleanup::CleanupOutcome;
use pickscribe::history::HistoryEntry;
use pickscribe::incremental::Outcome;
use pickscribe::lifecycle::{
    delivery_outcome, failure_outcome, idle_with_error, idle_without_speech, incremental_result,
    no_speech_outcome,
    pipeline_step, session_is_current, toggle_action, IncrementalResult, PipelineAction,
    PipelineEvent, PipelineState, SessionSnapshot, StatePayload, Stage,
    ToggleAction, NO_SPEECH_MESSAGE, start_step, StartAction, StartEvent, StartPhase,
    StartSettings, tail_slice_start,
};
use pickscribe::incremental::SchedulingConfig;
use pickscribe::segments::{salvage_completed_prefix, SalvagedPrefix};
use pickscribe::segments::{RecordingSession, TranscriptSegment};

fn cleanup_outcome(cleaned: bool, error: Option<&str>) -> CleanupOutcome {
    CleanupOutcome {
        text: "transcript".into(),
        provider: "ollama".into(),
        model: "qwen2.5:14b".into(),
        cleaned,
        error: error.map(str::to_string),
    }
}

fn history_entry(id: i64) -> HistoryEntry {
    HistoryEntry {
        id,
        created_at: 0,
        duration_ms: 1_000,
        raw_text: "transcript".into(),
        cleaned_text: None,
        provider: "ollama".into(),
        model: "qwen2.5:14b".into(),
        language: "en".into(),
        source_file: None,
        segments_json: None,
        word_count: 1,
    }
}

#[test]
fn toggle_starts_only_from_idle() {
    assert_eq!(toggle_action(Stage::Idle), ToggleAction::Start);
}

#[test]
fn toggle_stops_only_from_recording_never_starting_a_duplicate() {
    assert_eq!(toggle_action(Stage::Recording), ToggleAction::Stop);
}

#[test]
fn toggle_is_ignored_while_the_pipeline_is_busy() {
    for stage in [Stage::Transcribing, Stage::Cleaning, Stage::Pasting] {
        assert_eq!(toggle_action(stage), ToggleAction::Ignore, "stage: {stage:?}");
    }
}

#[test]
fn no_active_session_is_never_current() {
    assert!(!session_is_current(None, "session-1", false));
}

#[test]
fn matching_uncancelled_session_is_current() {
    let active = SessionSnapshot { id: "session-1".into(), cancelled: false };
    assert!(session_is_current(Some(&active), "session-1", false));
}

#[test]
fn cancelled_session_record_is_never_current() {
    let active = SessionSnapshot { id: "session-1".into(), cancelled: true };
    assert!(!session_is_current(Some(&active), "session-1", false));
}

#[test]
fn cancelled_stage_token_is_never_current_even_if_session_record_is_fresh() {
    let active = SessionSnapshot { id: "session-1".into(), cancelled: false };
    assert!(!session_is_current(Some(&active), "session-1", true));
}

#[test]
fn stale_completion_from_a_superseded_session_is_never_current() {
    let active = SessionSnapshot { id: "session-2".into(), cancelled: false };
    assert!(!session_is_current(Some(&active), "session-1", false));
}

#[test]
fn every_pipeline_checkpoint_shares_the_same_current_session_decision() {
    let checkpoints = [
        "after recorder stop",
        "after transcript resolution",
        "after cleanup",
        "after delivery",
        "at terminal projection",
    ];
    let cancelled = SessionSnapshot { id: "session-1".into(), cancelled: true };
    for checkpoint in checkpoints {
        assert!(
            !session_is_current(Some(&cancelled), "session-1", false),
            "checkpoint: {checkpoint}"
        );
    }
}

#[test]
fn recorder_or_transcription_failure_surfaces_error_without_a_message() {
    let (error, message) = failure_outcome("device busy");
    assert_eq!(error.as_deref(), Some("device busy"));
    assert_eq!(message, None);
}

#[test]
fn empty_transcript_surfaces_advisory_message_without_an_error() {
    let (error, message) = no_speech_outcome();
    assert_eq!(error, None);
    assert_eq!(message.as_deref(), Some(NO_SPEECH_MESSAGE));
}

#[test]
fn successful_cleanup_reports_cleaned_message() {
    let outcome = delivery_outcome(None, &cleanup_outcome(true, None), Some(history_entry(1)));
    assert_eq!(outcome.error, None);
    assert_eq!(outcome.message, "Cleaned and pasted");
    assert_eq!(outcome.last_entry.map(|e| e.id), Some(1));
}

#[test]
fn cleanup_failure_with_raw_delivery_reports_no_error() {
    let outcome = delivery_outcome(
        None,
        &cleanup_outcome(false, Some("model unavailable")),
        Some(history_entry(1)),
    );
    assert_eq!(outcome.error, None);
    assert_eq!(outcome.message, "Pasted raw transcript; cleanup unavailable");
}

#[test]
fn cleanup_failure_and_delivery_failure_both_surface() {
    let outcome = delivery_outcome(
        Some("paste failed".into()),
        &cleanup_outcome(false, Some("model unavailable")),
        Some(history_entry(1)),
    );
    assert_eq!(outcome.error.as_deref(), Some("paste failed"));
    assert_eq!(outcome.message, "Pasted raw transcript; cleanup unavailable");
}

#[test]
fn delivery_failure_with_successful_cleanup_still_surfaces_error() {
    let outcome = delivery_outcome(
        Some("paste failed".into()),
        &cleanup_outcome(true, None),
        Some(history_entry(1)),
    );
    assert_eq!(outcome.error.as_deref(), Some("paste failed"));
    assert_eq!(outcome.message, "Cleaned and pasted");
}

#[test]
fn history_failure_clears_last_entry_without_affecting_error_or_message() {
    let with_history = delivery_outcome(None, &cleanup_outcome(true, None), Some(history_entry(1)));
    let without_history = delivery_outcome(None, &cleanup_outcome(true, None), None);

    assert_eq!(without_history.error, with_history.error);
    assert_eq!(without_history.message, with_history.message);
    assert!(without_history.last_entry.is_none());
}

#[test]
fn raw_transcript_without_cleanup_error_reports_plain_message() {
    let outcome = delivery_outcome(None, &cleanup_outcome(false, None), None);
    assert_eq!(outcome.message, "Pasted raw transcript");
}

fn worker_outcome(text: &str, complete: bool, fallback_required: bool) -> Outcome {
    let mut session = RecordingSession::new("s");
    session.upsert_segment(TranscriptSegment::raw_ready(1, 0, 1_000, text));
    Outcome { session, complete, fallback_required }
}

#[test]
fn incremental_text_is_used_only_when_complete_current_and_not_blank() {
    let done = worker_outcome("hello there", true, false);
    assert_eq!(
        incremental_result(Some(&done), None, true),
        IncrementalResult::Complete("hello there".into())
    );
    assert_eq!(incremental_result(Some(&done), None, false), IncrementalResult::Unavailable);
    assert_eq!(incremental_result(None, None, true), IncrementalResult::Unavailable);
    let blank = worker_outcome("   ", true, false);
    assert_eq!(incremental_result(Some(&blank), None, true), IncrementalResult::Unavailable);
}

#[test]
fn fallback_keeps_the_finished_start_and_transcribes_only_the_tail() {
    let partial = worker_outcome("hello there", true, true);
    let prefix = SalvagedPrefix { raw_text: "hello there".into(), resume_from_ms: 1_000 };
    assert_eq!(
        incremental_result(Some(&partial), None, true),
        IncrementalResult::Partial(prefix.clone())
    );
    let unfinished = worker_outcome("hello there", false, false);
    assert_eq!(
        incremental_result(Some(&unfinished), None, true),
        IncrementalResult::Partial(prefix.clone())
    );
    let live = vec![
        TranscriptSegment::raw_ready(2, 3_500, 8_000, "general kenobi"),
        TranscriptSegment::raw_ready(1, 0, 5_000, "hello there general"),
    ];
    assert_eq!(
        incremental_result(None, Some(&live), true),
        IncrementalResult::Partial(SalvagedPrefix {
            raw_text: "hello there general kenobi".into(),
            resume_from_ms: 8_000,
        })
    );
    assert_eq!(incremental_result(None, Some(&live), false), IncrementalResult::Unavailable);
    let blank = worker_outcome("  ", true, true);
    assert_eq!(incremental_result(Some(&blank), None, true), IncrementalResult::Unavailable);

    let (s, a) = pipeline_step(
        PipelineState::AwaitingIncremental,
        PipelineEvent::Incremental(IncrementalResult::Partial(prefix)),
        true,
        false,
    );
    assert_eq!(a, PipelineAction::TranscribeTail { resume_from_ms: 1_000 });
    let (_, a) = pipeline_step(
        s.clone(),
        PipelineEvent::TailTranscribed(Ok(Some("there general kenobi".into()))),
        true,
        false,
    );
    assert_eq!(
        a,
        PipelineAction::Clean { raw: "hello there general kenobi".into(), remove_audio: true }
    );
    let (_, a) = pipeline_step(s.clone(), PipelineEvent::TailTranscribed(Ok(None)), true, true);
    assert_eq!(a, PipelineAction::Clean { raw: "hello there".into(), remove_audio: false });
    let (_, a) = pipeline_step(s.clone(), PipelineEvent::Transcribed(Ok("whole".into())), true, false);
    assert_eq!(a, PipelineAction::Clean { raw: "whole".into(), remove_audio: true });
    let (_, a) = pipeline_step(s.clone(), PipelineEvent::TailTranscribed(Err("stt failed".into())), true, false);
    assert_eq!(a, PipelineAction::Fail { error: "stt failed".into(), remove_audio: true });
    let (_, a) = pipeline_step(s, PipelineEvent::TailTranscribed(Ok(Some("x".into()))), false, false);
    assert_eq!(a, PipelineAction::Discard { remove_audio: true });
}

#[test]
fn no_finished_start_means_the_whole_recording_is_transcribed() {
    let gap = vec![TranscriptSegment::raw_ready(2, 3_500, 8_000, "late words")];
    assert_eq!(incremental_result(None, Some(&gap), true), IncrementalResult::Unavailable);
    let failed_first = vec![
        TranscriptSegment::failed(1, 0, 5_000, "stt failed"),
        TranscriptSegment::raw_ready(2, 3_500, 8_000, "late words"),
    ];
    assert_eq!(salvage_completed_prefix(&failed_first), None);
    let with_gap = vec![
        TranscriptSegment::raw_ready(1, 0, 5_000, "first words"),
        TranscriptSegment::raw_ready(2, 6_000, 9_000, "after a gap"),
    ];
    assert_eq!(
        salvage_completed_prefix(&with_gap),
        Some(SalvagedPrefix { raw_text: "first words".into(), resume_from_ms: 5_000 })
    );
}

#[test]
fn tail_is_sliced_with_the_overlap_before_the_salvaged_end() {
    let cfg = SchedulingConfig::new(5_000, 10_000, 1_500, 2);
    assert_eq!(tail_slice_start(8_000, 8_000, &cfg), None);
    assert_eq!(tail_slice_start(8_000, 7_000, &cfg), None);
    assert_eq!(tail_slice_start(8_000, 12_000, &cfg), Some(6_500));
    assert_eq!(tail_slice_start(1_000, 12_000, &cfg), Some(0));
}

#[test]
fn refused_start_shows_idle_with_the_error() {
    let state = StatePayload {
        stage: Stage::Recording,
        recording_started_ms: Some(5),
        segments: vec![TranscriptSegment::raw_ready(1, 0, 1_000, "x")],
        message: Some("busy".into()),
        error: None,
        last_entry: None,
    };
    let s = idle_with_error(state, "dictation is not supported".into());
    assert_eq!(s.stage, Stage::Idle);
    assert_eq!(s.recording_started_ms, None);
    assert!(s.segments.is_empty());
    assert_eq!(s.message, None);
    assert_eq!(s.error.as_deref(), Some("dictation is not supported"));
}

#[test]
fn pipeline_transcribes_cleans_pastes_and_records_while_current() {
    let (s, a) = pipeline_step(PipelineState::Stopping, PipelineEvent::Stopped(Ok(2_000)), true, false);
    assert_eq!(a, PipelineAction::AwaitIncremental);
    let (s, a) = pipeline_step(s, PipelineEvent::Incremental(IncrementalResult::Unavailable), true, false);
    assert_eq!(a, PipelineAction::Transcribe);
    let (s, a) = pipeline_step(s, PipelineEvent::Transcribed(Ok("hello".into())), true, false);
    assert_eq!(a, PipelineAction::Clean { raw: "hello".into(), remove_audio: true });
    let (s, a) = pipeline_step(s, PipelineEvent::Cleaned, true, false);
    assert_eq!(a, PipelineAction::Deliver);
    let (s, a) = pipeline_step(s, PipelineEvent::Delivered, true, false);
    assert_eq!(a, PipelineAction::RecordHistory);
    let (s, a) = pipeline_step(s, PipelineEvent::Recorded, true, false);
    assert_eq!((s, a), (PipelineState::Done, PipelineAction::Finish));
}

#[test]
fn pipeline_uses_complete_incremental_text_and_stops_quietly_when_stale() {
    let (_, a) = pipeline_step(
        PipelineState::AwaitingIncremental,
        PipelineEvent::Incremental(IncrementalResult::Complete("done text".into())),
        true,
        true,
    );
    assert_eq!(a, PipelineAction::Clean { raw: "done text".into(), remove_audio: false });
    let (_, a) = pipeline_step(PipelineState::Stopping, PipelineEvent::Stopped(Ok(10)), false, false);
    assert_eq!(a, PipelineAction::Discard { remove_audio: true });
    let (_, a) = pipeline_step(PipelineState::Cleaning, PipelineEvent::Cleaned, false, false);
    assert_eq!(a, PipelineAction::Discard { remove_audio: false });
    let (_, a) = pipeline_step(PipelineState::Transcribing, PipelineEvent::Transcribed(Ok(String::new())), true, false);
    assert_eq!(a, PipelineAction::NoSpeech { remove_audio: true });
    let (_, a) = pipeline_step(PipelineState::Stopping, PipelineEvent::Stopped(Err("recorder died".into())), true, false);
    assert_eq!(a, PipelineAction::Fail { error: "recorder died".into(), remove_audio: false });
}

#[test]
fn stale_session_is_not_finished_after_history_is_written() {
    let (s, a) = pipeline_step(PipelineState::Recording, PipelineEvent::Recorded, false, false);
    assert_eq!(s, PipelineState::Done);
    assert_eq!(a, PipelineAction::Discard { remove_audio: false });
}

#[test]
fn no_speech_shows_idle_with_the_message() {
    let last = HistoryEntry {
        id: 4,
        created_at: 9,
        duration_ms: 1_000,
        raw_text: "earlier".into(),
        cleaned_text: Some("Earlier.".into()),
        provider: "ollama".into(),
        model: "m".into(),
        language: "en".into(),
        source_file: None,
        segments_json: None,
        word_count: 1,
    };
    let state = StatePayload {
        stage: Stage::Transcribing,
        recording_started_ms: Some(5),
        segments: vec![TranscriptSegment::raw_ready(1, 0, 1_000, "x")],
        message: None,
        error: Some("old".into()),
        last_entry: Some(last.clone()),
    };
    let s = idle_without_speech(state);
    assert_eq!(s.stage, Stage::Idle);
    assert_eq!(s.recording_started_ms, None);
    assert!(s.segments.is_empty());
    assert_eq!(s.error, None);
    assert_eq!(s.message.as_deref(), Some(NO_SPEECH_MESSAGE));
    assert_eq!(s.message.as_deref(), Some("No speech detected"));
    assert_eq!(s.last_entry.map(|e| e.id), Some(last.id));
}

fn shown_state(message: Option<&str>) -> StatePayload {
    StatePayload {
        stage: Stage::Idle,
        recording_started_ms: None,
        segments: vec![TranscriptSegment::raw_ready(1, 0, 1_000, "old")],
        message: message.map(|m| m.to_string()),
        error: Some("previous error".into()),
        last_entry: None,
    }
}

#[test]
fn unsupported_platform_refuses_the_start() {
    let settings = StartSettings { sounds: true, incremental: true, now_ms: 50 };
    let (p, s, a) = start_step(
        StartPhase::CheckingSupport,
        shown_state(None),
        StartEvent::Support(Some("dictation is not supported".into())),
        settings,
    );
    assert_eq!(p, StartPhase::Done);
    assert_eq!(a, StartAction::Refuse { cue: true });
    assert_eq!(s.stage, Stage::Idle);
    assert_eq!(s.error.as_deref(), Some("dictation is not supported"));
    assert_eq!(s.message, None);
    assert!(s.segments.is_empty());
}

#[test]
fn recorder_failure_refuses_the_start_without_a_cue_when_sounds_are_off() {
    let settings = StartSettings { sounds: false, incremental: false, now_ms: 50 };
    let (p, s, a) = start_step(
        StartPhase::CheckingSupport,
        shown_state(None),
        StartEvent::Support(None),
        settings,
    );
    assert_eq!((p, &a), (StartPhase::StartingRecorder, &StartAction::StartRecorder));
    let (p, s, a) = start_step(p, s, StartEvent::RecorderStarted(Err("no microphone".into())), settings);
    assert_eq!(p, StartPhase::Done);
    assert_eq!(a, StartAction::Refuse { cue: false });
    assert_eq!(s.error.as_deref(), Some("no microphone"));
}

#[test]
fn start_without_incremental_records_and_clears_the_message() {
    let settings = StartSettings { sounds: true, incremental: false, now_ms: 1_234 };
    let (p, s, a) = start_step(
        StartPhase::StartingRecorder,
        shown_state(Some("old message")),
        StartEvent::RecorderStarted(Ok(())),
        settings,
    );
    assert_eq!(p, StartPhase::Done);
    assert_eq!(a, StartAction::Begin { cue: true, spawn_worker: false });
    assert_eq!(s.stage, Stage::Recording);
    assert_eq!(s.recording_started_ms, Some(1_234));
    assert!(s.segments.is_empty());
    assert_eq!(s.error, None);
    assert_eq!(s.message, None);
}

#[test]
fn start_with_incremental_shows_the_notice_or_the_reason_it_is_unavailable() {
    let settings = StartSettings { sounds: true, incremental: true, now_ms: 7 };
    let (p, s, a) = start_step(
        StartPhase::StartingRecorder,
        shown_state(None),
        StartEvent::RecorderStarted(Ok(())),
        settings,
    );
    assert_eq!((p, &a), (StartPhase::PreparingIncremental, &StartAction::PrepareIncremental { cue: true }));
    let (p2, s2, a2) = start_step(p, s.clone(), StartEvent::IncrementalPrepared(Ok(())), settings);
    assert_eq!(p2, StartPhase::Done);
    assert_eq!(a2, StartAction::Begin { cue: false, spawn_worker: true });
    assert_eq!(s2.message.as_deref(), Some("Incremental transcription active"));
    let (_, s3, a3) = start_step(p, s, StartEvent::IncrementalPrepared(Err("disk full".into())), settings);
    assert_eq!(a3, StartAction::Begin { cue: false, spawn_worker: false });
    assert_eq!(
        s3.message.as_deref(),
        Some("Incremental transcription unavailable; using final pass: disk full")
    );
    assert_eq!(s3.stage, Stage::Recording);
}

#[test]
fn start_event_out_of_phase_is_ignored() {
    let settings = StartSettings { sounds: true, incremental: true, now_ms: 7 };
    let (p, s, a) = start_step(StartPhase::Done, shown_state(Some("kept")), StartEvent::Support(None), settings);
    assert_eq!(p, StartPhase::Done);
    assert_eq!(a, StartAction::Ignore);
    assert_eq!(s.message.as_deref(), Some("kept"));
}
