//! Policy of the desktop recording pipeline: what a toggle does, whether a
//! stage's result still belongs to the session on screen, the steps from a
//! stopped recording to a history entry, and what a finished pipeline
//! shows.
use vstd::prelude::*;
use crate::cleanup::CleanupOutcome;
use crate::history::HistoryEntry;
use crate::segments::{opt_view, TranscriptSegment};
use crate::incremental::Outcome;
use crate::segments::{
    merge_char_texts, merged_text, raw_texts, run_len_from, salvage_completed_prefix, seg_views,
    sort_by_key, SalvagedPrefix,
};
use crate::incremental::SchedulingConfig;
use crate::text::{append_str, chars_eq_str, chars_of, string_of, trim, trimmed, views};

verus! {

/// Pipeline stage shown to the desktop front end.
#[derive(Debug, Clone, Copy, PartialEq, Eq, Structural)]
pub enum Stage {
    Idle,
    Recording,
    Transcribing,
    Cleaning,
    Pasting,
}

/// What a toggle request should do given the pipeline's current stage.
#[derive(Debug, Clone, Copy, PartialEq, Eq, Structural)]
pub enum ToggleAction {
    Start,
    Stop,
    Ignore,
}

pub open spec fn spec_toggle_action(stage: Stage) -> ToggleAction {
    match stage {
        Stage::Idle => ToggleAction::Start,
        Stage::Recording => ToggleAction::Stop,
        _ => ToggleAction::Ignore,
    }
}

/// Toggling starts only from idle, stops only a running recording, and is
/// ignored while the pipeline is busy.
pub fn toggle_action(stage: Stage) -> (action: ToggleAction)
    ensures
        action == spec_toggle_action(stage),
{
    match stage {
        Stage::Idle => ToggleAction::Start,
        Stage::Recording => ToggleAction::Stop,
        Stage::Transcribing | Stage::Cleaning | Stage::Pasting => ToggleAction::Ignore,
    }
}

/// What the desktop front end is shown of the pipeline.
#[derive(Debug, Clone)]
pub struct StatePayload {
    pub stage: Stage,
    /// Unix millis when the active recording started.
    pub recording_started_ms: Option<u64>,
    pub segments: Vec<TranscriptSegment>,
    pub message: Option<String>,
    pub error: Option<String>,
    pub last_entry: Option<HistoryEntry>,
}

/// The live session record, as far as a pipeline checkpoint needs to see
/// it: which session id is current, and whether it was cancelled.
#[derive(Debug, Clone)]
pub struct SessionSnapshot {
    pub id: String,
    pub cancelled: bool,
}

/// A stage's result applies only while its session is the live one and
/// neither the session nor the stage's own token was cancelled.
pub open spec fn spec_session_is_current(
    active: Option<SessionSnapshot>,
    session_id: Seq<char>,
    token_cancelled: bool,
) -> bool {
    !token_cancelled && match active {
        Some(s) => s.id@ == session_id && !s.cancelled,
        None => false,
    }
}

pub fn session_is_current(active: Option<&SessionSnapshot>, session_id: &str, token_cancelled: bool) -> (b:
    bool)
    ensures
        b == spec_session_is_current(
            match active {
                Some(s) => Some(*s),
                None => None,
            },
            session_id@,
            token_cancelled,
        ),
{
    if token_cancelled {
        return false;
    }
    match active {
        Some(session) => {
            let id = crate::text::chars_of(session.id.as_str());
            chars_eq_str(id.as_slice(), session_id) && !session.cancelled
        },
        None => false,
    }
}

/// Fixed message paired with the "no speech detected" terminal state.
pub const NO_SPEECH_MESSAGE: &'static str = "No speech detected";

/// A recorder or transcription failure: the error surfaces and no message
/// is shown.
pub fn failure_outcome(err: &str) -> (r: (Option<String>, Option<String>))
    ensures
        opt_view(r.0) == Some(err@),
        r.1 is None,
{
    (Some(err.to_owned()), None)
}

/// An empty transcript: no error, the fixed advisory message.
pub fn no_speech_outcome() -> (r: (Option<String>, Option<String>))
    ensures
        r.0 is None,
        opt_view(r.1) == Some(NO_SPEECH_MESSAGE@),
{
    (None, Some(NO_SPEECH_MESSAGE.to_owned()))
}

/// The end of a pipeline once a transcript was cleaned (or not) and
/// delivered.
#[derive(Debug, Clone)]
pub struct DeliveryOutcome {
    pub error: Option<String>,
    pub message: String,
    pub last_entry: Option<HistoryEntry>,
}

/// The message for how cleanup went.
pub open spec fn spec_delivery_message(cleaned: bool, cleanup_failed: bool) -> Seq<char> {
    if cleaned {
        "Cleaned and pasted"@
    } else if cleanup_failed {
        "Pasted raw transcript; cleanup unavailable"@
    } else {
        "Pasted raw transcript"@
    }
}

/// The paste error surfaces as it came, whatever cleanup did; the message
/// follows cleanup alone; the history entry is kept as given.
pub fn delivery_outcome(
    paste_error: Option<String>,
    cleanup: &CleanupOutcome,
    history_entry: Option<HistoryEntry>,
) -> (o: DeliveryOutcome)
    ensures
        o.error == paste_error,
        o.message@ == spec_delivery_message(cleanup.cleaned, cleanup.error is Some),
        o.last_entry == history_entry,
{
    let message = if cleanup.cleaned {
        "Cleaned and pasted"
    } else if cleanup.error.is_some() {
        "Pasted raw transcript; cleanup unavailable"
    } else {
        "Pasted raw transcript"
    };
    DeliveryOutcome { error: paste_error, message: message.to_owned(), last_entry: history_entry }
}

/// Once either the session record or the stage's token is cancelled, and
/// whenever no session is live or another session is, no stage result is
/// current.
pub proof fn lemma_cancelled_or_stale_is_never_current(
    active: Option<SessionSnapshot>,
    session_id: Seq<char>,
    token_cancelled: bool,
)
    ensures
        token_cancelled ==> !spec_session_is_current(active, session_id, token_cancelled),
        active is None ==> !spec_session_is_current(active, session_id, token_cancelled),
        (active matches Some(s) && (s.cancelled || s.id@ != session_id)) ==> !spec_session_is_current(active, session_id, token_cancelled),
{
}

/// The pipeline shown idle with `error`: the recording start time and the
/// live segments are cleared, no message is shown, and the last entry is
/// kept. Shown when a start is refused or a stage fails.
pub fn idle_with_error(state: StatePayload, error: String) -> (s: StatePayload)
    ensures
        s.stage == Stage::Idle,
        s.recording_started_ms is None,
        s.segments@.len() == 0,
        s.error == Some(error),
        s.message is None,
        s.last_entry == state.last_entry,
{
    StatePayload {
        stage: Stage::Idle,
        recording_started_ms: None,
        segments: Vec::new(),
        message: None,
        error: Some(error),
        last_entry: state.last_entry,
    }
}

/// What the incremental worker gives the pipeline when the recording stops.
#[derive(Debug, Clone, PartialEq, Eq)]
pub enum IncrementalResult {
    /// Its text is the transcript; no full transcription is needed.
    Complete(String),
    /// The worker fell back, but the start of the recording was transcribed:
    /// only the audio after it is transcribed again.
    Partial(SalvagedPrefix),
    /// Transcribe the whole recording.
    Unavailable,
}

/// An `IncrementalResult` as text and times.
pub ghost enum IncrementalView {
    Complete(Seq<char>),
    Partial(Seq<char>, u64),
    Unavailable,
}

pub open spec fn incremental_view(r: IncrementalResult) -> IncrementalView {
    match r {
        IncrementalResult::Complete(t) => IncrementalView::Complete(t@),
        IncrementalResult::Partial(p) => IncrementalView::Partial(p.raw_text@, p.resume_from_ms),
        IncrementalResult::Unavailable => IncrementalView::Unavailable,
    }
}

/// The finished start of `segments` (see `salvage_completed_prefix`) when
/// its transcript is not blank.
pub open spec fn salvaged(segments: Seq<TranscriptSegment>) -> IncrementalView {
    let s = sort_by_key(seg_views(segments));
    let k = run_len_from(s, 0) as int;
    let text = merged_text(raw_texts(s.take(k)));
    if k > 0 && trimmed(text).len() > 0 {
        IncrementalView::Partial(text, s[k - 1].end_ms)
    } else {
        IncrementalView::Unavailable
    }
}

/// For the current session: a finished worker's complete transcript when
/// it needs no fallback and is not blank; else the finished start of its
/// segments. When the worker did not answer in time, the finished start of
/// the segments shown live. Nothing when there was no worker, it went away,
/// or the session is no longer current.
pub open spec fn spec_incremental_result(
    outcome: Option<Outcome>,
    live_segments: Option<Seq<TranscriptSegment>>,
    session_current: bool,
) -> IncrementalView {
    if !session_current {
        IncrementalView::Unavailable
    } else {
        match outcome {
            Some(o) => if o.complete && !o.fallback_required {
                let raw = merged_text(raw_texts(sort_by_key(seg_views(o.session.segments@))));
                if trimmed(raw).len() > 0 {
                    IncrementalView::Complete(raw)
                } else {
                    IncrementalView::Unavailable
                }
            } else {
                salvaged(o.session.segments@)
            },
            None => match live_segments {
                Some(segs) => salvaged(segs),
                None => IncrementalView::Unavailable,
            },
        }
    }
}

fn salvage(segments: &[TranscriptSegment]) -> (r: IncrementalResult)
    ensures
        incremental_view(r) == salvaged(segments@),
{
    match salvage_completed_prefix(segments) {
        Some(prefix) => {
            let rc = chars_of(prefix.raw_text.as_str());
            if trim(rc.as_slice()).len() == 0 {
                IncrementalResult::Unavailable
            } else {
                IncrementalResult::Partial(prefix)
            }
        },
        None => IncrementalResult::Unavailable,
    }
}

/// What the pipeline takes from the incremental worker: `outcome` is its
/// answer, `live_segments` the segments shown when it did not answer in
/// time (both none: there was no worker, or it went away).
pub fn incremental_result(
    outcome: Option<&Outcome>,
    live_segments: Option<&[TranscriptSegment]>,
    session_current: bool,
) -> (r: IncrementalResult)
    ensures
        incremental_view(r) == spec_incremental_result(
            match outcome {
                Some(o) => Some(*o),
                None => None,
            },
            match live_segments {
                Some(s) => Some(s@),
                None => None,
            },
            session_current,
        ),
{
    if !session_current {
        return IncrementalResult::Unavailable;
    }
    match outcome {
        Some(o) => {
            if o.complete && !o.fallback_required {
                let raw = o.session.final_raw_text();
                let rc = chars_of(raw.as_str());
                if trim(rc.as_slice()).len() == 0 {
                    IncrementalResult::Unavailable
                } else {
                    IncrementalResult::Complete(raw)
                }
            } else {
                salvage(o.session.segments.as_slice())
            }
        },
        None => match live_segments {
            Some(segs) => salvage(segs),
            None => IncrementalResult::Unavailable,
        },
    }
}

/// Where the audio left after a salvaged start is sliced from: nothing when
/// the recording ended inside the salvaged start, else the overlap before
/// the point it ends at, so that the seam's words are matched up again.
pub fn tail_slice_start(resume_from_ms: u64, available_ms: u64, cfg: &SchedulingConfig) -> (r: Option<
    u64,
>)
    ensures
        available_ms <= resume_from_ms ==> r is None,
        available_ms > resume_from_ms ==> r == Some(
            (if resume_from_ms >= cfg.overlap_ms {
                resume_from_ms - cfg.overlap_ms
            } else {
                0
            }) as u64,
        ),
{
    if available_ms <= resume_from_ms {
        None
    } else {
        Some(resume_from_ms.saturating_sub(cfg.overlap_ms))
    }
}

// ---------------------------------------------------------------------------
// The pipeline after a recording stops
// ---------------------------------------------------------------------------

/// Where the stop → transcribe → clean → paste → history pipeline is.
#[derive(Debug, Clone, PartialEq, Eq)]
pub enum PipelineState {
    /// The recorder was asked to stop.
    Stopping,
    /// The incremental worker's result was asked for.
    AwaitingIncremental,
    /// The whole recording is being transcribed.
    Transcribing,
    /// The audio after a salvaged start is being transcribed; `prefix` is the
    /// salvaged start's transcript.
    TranscribingTail { prefix: String },
    /// The transcript is being cleaned.
    Cleaning,
    /// The text is being delivered.
    Pasting,
    /// The history entry is being written.
    Recording,
    Done,
}

/// What the last piece of outside work gave.
#[derive(Debug)]
pub enum PipelineEvent {
    /// The recorder stopped (the recording's duration) or failed.
    Stopped(Result<u64, String>),
    Incremental(IncrementalResult),
    /// The transcription's text or error.
    Transcribed(Result<String, String>),
    /// The transcription of the audio after a salvaged start: its text,
    /// none when no audio was left after it, or its error.
    TailTranscribed(Result<Option<String>, String>),
    Cleaned,
    Delivered,
    Recorded,
}

/// The next piece of outside work, or how the pipeline ends.
#[derive(Debug, PartialEq, Eq)]
pub enum PipelineAction {
    /// The session is no longer the current one: stop without showing
    /// anything, removing the recording when asked.
    Discard { remove_audio: bool },
    /// Show the pipeline idle with `error` (see `idle_with_error`).
    Fail { error: String, remove_audio: bool },
    /// Ask the incremental worker for its result.
    AwaitIncremental,
    /// Transcribe the whole recording.
    Transcribe,
    /// Transcribe the audio from `resume_from_ms` on (see
    /// `tail_slice_start`), or the whole recording when it cannot be sliced.
    TranscribeTail { resume_from_ms: u64 },
    /// Show that no speech was detected.
    NoSpeech { remove_audio: bool },
    /// Show the cleaning stage and clean `raw`.
    Clean { raw: String, remove_audio: bool },
    /// Show the pasting stage and deliver the cleaned text.
    Deliver,
    /// Write the history entry.
    RecordHistory,
    /// Show the finished pipeline (see `delivery_outcome`), the session
    /// still being current.
    Finish,
}

/// Once a transcript or its error is known, the recording is removed unless
/// audio is kept; a stale session then stops silently, an error is shown,
/// an empty transcript is reported as no speech, and any other is cleaned.
pub open spec fn spec_after_transcript(result: Result<String, String>, current: bool, keep_audio: bool) -> (
    PipelineState,
    PipelineAction,
) {
    match result {
        Err(e) => if current {
            (PipelineState::Done, PipelineAction::Fail { error: e, remove_audio: !keep_audio })
        } else {
            (PipelineState::Done, PipelineAction::Discard { remove_audio: !keep_audio })
        },
        Ok(raw) => if !current {
            (PipelineState::Done, PipelineAction::Discard { remove_audio: !keep_audio })
        } else if raw@.len() == 0 {
            (PipelineState::Done, PipelineAction::NoSpeech { remove_audio: !keep_audio })
        } else {
            (PipelineState::Cleaning, PipelineAction::Clean { raw, remove_audio: !keep_audio })
        },
    }
}

/// One step of the pipeline: `current` tells whether the session is still
/// the live one when `event` arrives. The incremental worker's complete text
/// stands for a transcription of the whole recording; every stage after the
/// stop checks that the session is still current first. (What follows the
/// transcription of the audio after a salvaged start is stated by
/// `pipeline_stepped`.)
pub open spec fn spec_pipeline_step(
    state: PipelineState,
    event: PipelineEvent,
    current: bool,
    keep_audio: bool,
) -> (PipelineState, PipelineAction) {
    match (state, event) {
        (PipelineState::Stopping, PipelineEvent::Stopped(Err(e))) => if current {
            (PipelineState::Done, PipelineAction::Fail { error: e, remove_audio: false })
        } else {
            (PipelineState::Done, PipelineAction::Discard { remove_audio: false })
        },
        (PipelineState::Stopping, PipelineEvent::Stopped(Ok(_))) => if current {
            (PipelineState::AwaitingIncremental, PipelineAction::AwaitIncremental)
        } else {
            (PipelineState::Done, PipelineAction::Discard { remove_audio: !keep_audio })
        },
        (
            PipelineState::AwaitingIncremental,
            PipelineEvent::Incremental(IncrementalResult::Complete(t)),
        ) => spec_after_transcript(Ok(t), current, keep_audio),
        (
            PipelineState::AwaitingIncremental,
            PipelineEvent::Incremental(IncrementalResult::Unavailable),
        ) => if current {
            (PipelineState::Transcribing, PipelineAction::Transcribe)
        } else {
            (PipelineState::Done, PipelineAction::Discard { remove_audio: !keep_audio })
        },
        (
            PipelineState::AwaitingIncremental,
            PipelineEvent::Incremental(IncrementalResult::Partial(p)),
        ) => if current {
            (
                PipelineState::TranscribingTail { prefix: p.raw_text },
                PipelineAction::TranscribeTail { resume_from_ms: p.resume_from_ms },
            )
        } else {
            (PipelineState::Done, PipelineAction::Discard { remove_audio: !keep_audio })
        },
        (PipelineState::Transcribing, PipelineEvent::Transcribed(r)) => spec_after_transcript(
            r,
            current,
            keep_audio,
        ),
        (PipelineState::TranscribingTail { .. }, PipelineEvent::Transcribed(r)) => spec_after_transcript(
            r,
            current,
            keep_audio,
        ),
        (
            PipelineState::TranscribingTail { prefix },
            PipelineEvent::TailTranscribed(Ok(None)),
        ) => spec_after_transcript(Ok(prefix), current, keep_audio),
        (PipelineState::TranscribingTail { .. }, PipelineEvent::TailTranscribed(Err(e))) => spec_after_transcript(
            Err(e),
            current,
            keep_audio,
        ),
        (PipelineState::Cleaning, PipelineEvent::Cleaned) => if current {
            (PipelineState::Pasting, PipelineAction::Deliver)
        } else {
            (PipelineState::Done, PipelineAction::Discard { remove_audio: false })
        },
        (PipelineState::Pasting, PipelineEvent::Delivered) => if current {
            (PipelineState::Recording, PipelineAction::RecordHistory)
        } else {
            (PipelineState::Done, PipelineAction::Discard { remove_audio: false })
        },
        (PipelineState::Recording, PipelineEvent::Recorded) => if current {
            (PipelineState::Done, PipelineAction::Finish)
        } else {
            (PipelineState::Done, PipelineAction::Discard { remove_audio: false })
        },
        _ => (PipelineState::Done, PipelineAction::Discard { remove_audio: false }),
    }
}

/// `r` handles the transcript `raw` as `spec_after_transcript` does.
pub open spec fn transcript_handled(
    raw: Seq<char>,
    current: bool,
    keep_audio: bool,
    r: (PipelineState, PipelineAction),
) -> bool {
    if !current {
        r == (PipelineState::Done, PipelineAction::Discard { remove_audio: !keep_audio })
    } else if raw.len() == 0 {
        r == (PipelineState::Done, PipelineAction::NoSpeech { remove_audio: !keep_audio })
    } else {
        &&& r.0 == PipelineState::Cleaning
        &&& r.1 matches PipelineAction::Clean { raw: x, remove_audio: ra }
        &&& x@ == raw
        &&& ra == !keep_audio
    }
}

/// A pipeline step's result: as `spec_pipeline_step` gives it, except that
/// the transcript of a salvaged start and of the audio after it are merged,
/// overlapping words once, and the merged text handled as a transcript.
pub open spec fn pipeline_stepped(
    state: PipelineState,
    event: PipelineEvent,
    current: bool,
    keep_audio: bool,
    r: (PipelineState, PipelineAction),
) -> bool {
    match (state, event) {
        (
            PipelineState::TranscribingTail { prefix },
            PipelineEvent::TailTranscribed(Ok(Some(tail))),
        ) => transcript_handled(merged_text(seq![prefix@, tail@]), current, keep_audio, r),
        _ => r == spec_pipeline_step(state, event, current, keep_audio),
    }
}

fn after_transcript(result: Result<String, String>, current: bool, keep_audio: bool) -> (r: (
    PipelineState,
    PipelineAction,
))
    ensures
        r == spec_after_transcript(result, current, keep_audio),
{
    match result {
        Err(e) => if current {
            (PipelineState::Done, PipelineAction::Fail { error: e, remove_audio: !keep_audio })
        } else {
            (PipelineState::Done, PipelineAction::Discard { remove_audio: !keep_audio })
        },
        Ok(raw) => {
            if !current {
                return (PipelineState::Done, PipelineAction::Discard { remove_audio: !keep_audio });
            }
            let empty = chars_of(raw.as_str()).len() == 0;
            if empty {
                (PipelineState::Done, PipelineAction::NoSpeech { remove_audio: !keep_audio })
            } else {
                (PipelineState::Cleaning, PipelineAction::Clean { raw, remove_audio: !keep_audio })
            }
        },
    }
}

pub fn pipeline_step(state: PipelineState, event: PipelineEvent, current: bool, keep_audio: bool) -> (r: (
    PipelineState,
    PipelineAction,
))
    ensures
        pipeline_stepped(state, event, current, keep_audio, r),
{
    match (state, event) {
        (PipelineState::Stopping, PipelineEvent::Stopped(Err(e))) => if current {
            (PipelineState::Done, PipelineAction::Fail { error: e, remove_audio: false })
        } else {
            (PipelineState::Done, PipelineAction::Discard { remove_audio: false })
        },
        (PipelineState::Stopping, PipelineEvent::Stopped(Ok(_))) => if current {
            (PipelineState::AwaitingIncremental, PipelineAction::AwaitIncremental)
        } else {
            (PipelineState::Done, PipelineAction::Discard { remove_audio: !keep_audio })
        },
        (
            PipelineState::AwaitingIncremental,
            PipelineEvent::Incremental(IncrementalResult::Complete(t)),
        ) => after_transcript(Ok(t), current, keep_audio),
        (
            PipelineState::AwaitingIncremental,
            PipelineEvent::Incremental(IncrementalResult::Unavailable),
        ) => if current {
            (PipelineState::Transcribing, PipelineAction::Transcribe)
        } else {
            (PipelineState::Done, PipelineAction::Discard { remove_audio: !keep_audio })
        },
        (
            PipelineState::AwaitingIncremental,
            PipelineEvent::Incremental(IncrementalResult::Partial(p)),
        ) => if current {
            (
                PipelineState::TranscribingTail { prefix: p.raw_text },
                PipelineAction::TranscribeTail { resume_from_ms: p.resume_from_ms },
            )
        } else {
            (PipelineState::Done, PipelineAction::Discard { remove_audio: !keep_audio })
        },
        (PipelineState::Transcribing, PipelineEvent::Transcribed(r)) => after_transcript(
            r,
            current,
            keep_audio,
        ),
        (PipelineState::TranscribingTail { .. }, PipelineEvent::Transcribed(r)) => after_transcript(
            r,
            current,
            keep_audio,
        ),
        (
            PipelineState::TranscribingTail { prefix },
            PipelineEvent::TailTranscribed(Ok(None)),
        ) => after_transcript(Ok(prefix), current, keep_audio),
        (
            PipelineState::TranscribingTail { prefix },
            PipelineEvent::TailTranscribed(Ok(Some(tail))),
        ) => {
            let texts: Vec<Vec<char>> = vec![chars_of(prefix.as_str()), chars_of(tail.as_str())];
            assert(views(texts@) =~= seq![prefix@, tail@]);
            let merged = merge_char_texts(&texts);
            after_transcript(Ok(string_of(merged.as_slice())), current, keep_audio)
        },
        (PipelineState::TranscribingTail { .. }, PipelineEvent::TailTranscribed(Err(e))) => after_transcript(
            Err(e),
            current,
            keep_audio,
        ),
        (PipelineState::Cleaning, PipelineEvent::Cleaned) => if current {
            (PipelineState::Pasting, PipelineAction::Deliver)
        } else {
            (PipelineState::Done, PipelineAction::Discard { remove_audio: false })
        },
        (PipelineState::Pasting, PipelineEvent::Delivered) => if current {
            (PipelineState::Recording, PipelineAction::RecordHistory)
        } else {
            (PipelineState::Done, PipelineAction::Discard { remove_audio: false })
        },
        (PipelineState::Recording, PipelineEvent::Recorded) => if current {
            (PipelineState::Done, PipelineAction::Finish)
        } else {
            (PipelineState::Done, PipelineAction::Discard { remove_audio: false })
        },
        _ => (PipelineState::Done, PipelineAction::Discard { remove_audio: false }),
    }
}

/// A pipeline whose session is no longer current shows nothing more: every
/// step stops it silently.
pub proof fn lemma_stale_pipeline_stops_silently(
    state: PipelineState,
    event: PipelineEvent,
    keep_audio: bool,
    r: (PipelineState, PipelineAction),
)
    requires
        pipeline_stepped(state, event, false, keep_audio, r),
    ensures
        r.1 is Discard,
        r.0 == PipelineState::Done,
{
}

/// Stopping a session whose worker fell back keeps the finished start of
/// its segments: when that start has text, the pipeline transcribes only
/// the audio after it, and the two transcripts are merged.
pub proof fn lemma_fallback_transcribes_only_the_tail(
    o: Outcome,
    p: SalvagedPrefix,
    tail: String,
    keep_audio: bool,
)
    requires
        o.fallback_required || !o.complete,
        salvaged(o.session.segments@) == IncrementalView::Partial(p.raw_text@, p.resume_from_ms),
    ensures
        spec_incremental_result(Some(o), None, true) == IncrementalView::Partial(
            p.raw_text@,
            p.resume_from_ms,
        ),
        spec_pipeline_step(
            PipelineState::AwaitingIncremental,
            PipelineEvent::Incremental(IncrementalResult::Partial(p)),
            true,
            keep_audio,
        ) == (
            PipelineState::TranscribingTail { prefix: p.raw_text },
            PipelineAction::TranscribeTail { resume_from_ms: p.resume_from_ms },
        ),
        forall|r: (PipelineState, PipelineAction)|
            pipeline_stepped(
                PipelineState::TranscribingTail { prefix: p.raw_text },
                PipelineEvent::TailTranscribed(Ok(Some(tail))),
                true,
                keep_audio,
                r,
            ) ==> transcript_handled(merged_text(seq![p.raw_text@, tail@]), true, keep_audio, r),
{
}

/// The pipeline shown idle after no speech was detected: the recording
/// start time and the live segments are cleared, no error is shown, the
/// "No speech detected" message is, and the last entry is kept.
pub fn idle_without_speech(state: StatePayload) -> (s: StatePayload)
    ensures
        s.stage == Stage::Idle,
        s.recording_started_ms is None,
        s.segments@.len() == 0,
        s.error is None,
        opt_view(s.message) == Some(NO_SPEECH_MESSAGE@),
        s.last_entry == state.last_entry,
{
    StatePayload {
        stage: Stage::Idle,
        recording_started_ms: None,
        segments: Vec::new(),
        message: Some(NO_SPEECH_MESSAGE.to_owned()),
        error: None,
        last_entry: state.last_entry,
    }
}


// ---------------------------------------------------------------------------
// Starting a dictation
// ---------------------------------------------------------------------------

/// Shown while recording when the incremental worker runs.
pub const INCREMENTAL_ACTIVE_MESSAGE: &'static str = "Incremental transcription active";

/// Put before the reason the incremental worker could not be prepared.
pub const INCREMENTAL_UNAVAILABLE_PREFIX: &'static str =
    "Incremental transcription unavailable; using final pass: ";

/// Where starting a dictation stands.
#[derive(Debug, Clone, Copy, PartialEq, Eq, Structural)]
pub enum StartPhase {
    /// Whether this platform supports dictation is asked.
    CheckingSupport,
    /// The recorder is being started.
    StartingRecorder,
    /// The incremental worker is being prepared.
    PreparingIncremental,
    Done,
}

/// What the outside work of a start phase gave back.
#[derive(Debug)]
pub enum StartEvent {
    /// The platform's refusal, when dictation is not supported here.
    Support(Option<String>),
    /// The recorder started, or why it did not.
    RecorderStarted(Result<(), String>),
    /// The incremental worker was prepared, or why it was not.
    IncrementalPrepared(Result<(), String>),
}

/// The next piece of outside work of a start.
#[derive(Debug, PartialEq, Eq)]
pub enum StartAction {
    /// Play the error cue when `cue`, show the state, and stop.
    Refuse { cue: bool },
    StartRecorder,
    /// Play the start cue when `cue`, then prepare the incremental worker.
    PrepareIncremental { cue: bool },
    /// Play the start cue when `cue`, make the session the live one, show
    /// the state, spawn the prepared worker when `spawn_worker`, and start
    /// the recorder's warm-up check and the level meter.
    Begin { cue: bool, spawn_worker: bool },
    /// The event does not belong to this phase: nothing is done.
    Ignore,
}

/// The settings a start reads, and the time it begins at.
#[derive(Debug, Clone, Copy)]
pub struct StartSettings {
    pub sounds: bool,
    pub incremental: bool,
    pub now_ms: u64,
}

/// What a start step shows.
pub ghost enum StartShown {
    Unchanged,
    IdleWithError(Seq<char>),
    Recording { message: Option<Seq<char>> },
}

/// The message shown once recording: the incremental notice when the worker
/// is on and nothing else is shown, none when it is off, else the message
/// already shown.
pub open spec fn recording_message(message: Option<Seq<char>>, incremental: bool) -> Option<
    Seq<char>,
> {
    if incremental && message is None {
        Some(INCREMENTAL_ACTIVE_MESSAGE@)
    } else if !incremental {
        None
    } else {
        message
    }
}

pub open spec fn spec_start_step(
    phase: StartPhase,
    message: Option<Seq<char>>,
    event: StartEvent,
    settings: StartSettings,
) -> (StartPhase, StartShown, StartAction) {
    match (phase, event) {
        (StartPhase::CheckingSupport, StartEvent::Support(Some(m))) => (
            StartPhase::Done,
            StartShown::IdleWithError(m@),
            StartAction::Refuse { cue: settings.sounds },
        ),
        (StartPhase::CheckingSupport, StartEvent::Support(None)) => (
            StartPhase::StartingRecorder,
            StartShown::Unchanged,
            StartAction::StartRecorder,
        ),
        (StartPhase::StartingRecorder, StartEvent::RecorderStarted(Err(e))) => (
            StartPhase::Done,
            StartShown::IdleWithError(e@),
            StartAction::Refuse { cue: settings.sounds },
        ),
        (StartPhase::StartingRecorder, StartEvent::RecorderStarted(Ok(()))) => if settings.incremental {
            (
                StartPhase::PreparingIncremental,
                StartShown::Unchanged,
                StartAction::PrepareIncremental { cue: settings.sounds },
            )
        } else {
            (
                StartPhase::Done,
                StartShown::Recording { message: recording_message(message, false) },
                StartAction::Begin { cue: settings.sounds, spawn_worker: false },
            )
        },
        (StartPhase::PreparingIncremental, StartEvent::IncrementalPrepared(Err(e))) => (
            StartPhase::Done,
            StartShown::Recording {
                message: recording_message(Some(INCREMENTAL_UNAVAILABLE_PREFIX@ + e@), true),
            },
            StartAction::Begin { cue: false, spawn_worker: false },
        ),
        (StartPhase::PreparingIncremental, StartEvent::IncrementalPrepared(Ok(()))) => (
            StartPhase::Done,
            StartShown::Recording { message: recording_message(message, true) },
            StartAction::Begin { cue: false, spawn_worker: true },
        ),
        _ => (phase, StartShown::Unchanged, StartAction::Ignore),
    }
}

/// `new` is `old` as `shown` says: unchanged; idle with the error (see
/// `idle_with_error`); or recording since `now_ms` with no segments, no
/// error and the given message. The last entry is kept in every case.
pub open spec fn shows(old: StatePayload, new: StatePayload, shown: StartShown, now_ms: u64) -> bool {
    match shown {
        StartShown::Unchanged => new == old,
        StartShown::IdleWithError(e) => {
            &&& new.stage == Stage::Idle
            &&& new.recording_started_ms is None
            &&& new.segments@.len() == 0
            &&& opt_view(new.error) == Some(e)
            &&& new.message is None
            &&& new.last_entry == old.last_entry
        },
        StartShown::Recording { message } => {
            &&& new.stage == Stage::Recording
            &&& new.recording_started_ms == Some(now_ms)
            &&& new.segments@.len() == 0
            &&& new.error is None
            &&& opt_view(new.message) == message
            &&& new.last_entry == old.last_entry
        },
    }
}

fn recording_state(state: StatePayload, now_ms: u64, incremental: bool) -> (s: StatePayload)
    ensures
        shows(
            state,
            s,
            StartShown::Recording { message: recording_message(opt_view(state.message), incremental) },
            now_ms,
        ),
{
    let message = if incremental && state.message.is_none() {
        Some(INCREMENTAL_ACTIVE_MESSAGE.to_owned())
    } else if !incremental {
        None
    } else {
        state.message
    };
    StatePayload {
        stage: Stage::Recording,
        recording_started_ms: Some(now_ms),
        segments: Vec::new(),
        message,
        error: None,
        last_entry: state.last_entry,
    }
}

/// One step of starting a dictation: from the phase, the state shown and
/// what the phase's outside work gave back, the next phase, the state to
/// show and the next piece of outside work. A refused start shows the
/// pipeline idle with the refusal; a started one shows it recording.
pub fn start_step(phase: StartPhase, state: StatePayload, event: StartEvent, settings: StartSettings) -> (r: (
    StartPhase,
    StatePayload,
    StartAction,
))
    ensures
        ({
            let (p, shown, a) = spec_start_step(phase, opt_view(state.message), event, settings);
            r.0 == p && r.2 == a && shows(state, r.1, shown, settings.now_ms)
        }),
{
    match (phase, event) {
        (StartPhase::CheckingSupport, StartEvent::Support(Some(m))) => {
            (StartPhase::Done, idle_with_error(state, m), StartAction::Refuse { cue: settings.sounds })
        },
        (StartPhase::CheckingSupport, StartEvent::Support(None)) => {
            (StartPhase::StartingRecorder, state, StartAction::StartRecorder)
        },
        (StartPhase::StartingRecorder, StartEvent::RecorderStarted(Err(e))) => {
            (StartPhase::Done, idle_with_error(state, e), StartAction::Refuse { cue: settings.sounds })
        },
        (StartPhase::StartingRecorder, StartEvent::RecorderStarted(Ok(()))) => {
            if settings.incremental {
                (
                    StartPhase::PreparingIncremental,
                    state,
                    StartAction::PrepareIncremental { cue: settings.sounds },
                )
            } else {
                (
                    StartPhase::Done,
                    recording_state(state, settings.now_ms, false),
                    StartAction::Begin { cue: settings.sounds, spawn_worker: false },
                )
            }
        },
        (StartPhase::PreparingIncremental, StartEvent::IncrementalPrepared(Err(e))) => {
            let mut m: Vec<char> = Vec::new();
            append_str(&mut m, INCREMENTAL_UNAVAILABLE_PREFIX);
            append_str(&mut m, e.as_str());
            let mut state = state;
            state.message = Some(string_of(m.as_slice()));
            (
                StartPhase::Done,
                recording_state(state, settings.now_ms, true),
                StartAction::Begin { cue: false, spawn_worker: false },
            )
        },
        (StartPhase::PreparingIncremental, StartEvent::IncrementalPrepared(Ok(()))) => {
            (
                StartPhase::Done,
                recording_state(state, settings.now_ms, true),
                StartAction::Begin { cue: false, spawn_worker: true },
            )
        },
        _ => (phase, state, StartAction::Ignore),
    }
}

} // verus!
