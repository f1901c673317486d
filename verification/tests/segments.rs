use pickscribe::segments::{
    assemble_cleaned_text, assemble_raw_text, merge_texts, RecordingSession, TranscriptSegment,
    TranscriptSegmentStatus,
};

fn segment(id: u64, start_ms: u64, raw_text: &str) -> TranscriptSegment {
    TranscriptSegment::raw_ready(id, start_ms, start_ms + 5_000, raw_text)
}

#[test]
fn session_upserts_and_orders_segments() {
    let mut session = RecordingSession::new("session-1");
    session.upsert_segment(segment(2, 5_000, "second"));
    session.upsert_segment(segment(1, 0, "first"));
    session.upsert_segment(segment(2, 5_000, "replacement"));

    assert_eq!(
        session
            .segments
            .iter()
            .map(|segment| (segment.id, segment.raw_text.as_str()))
            .collect::<Vec<_>>(),
        vec![(1, "first"), (2, "replacement")]
    );
}

#[test]
fn raw_assembly_dedupes_normalized_overlap() {
    let segments = vec![
        segment(1, 0, "Hello, world. This is"),
        segment(2, 4_000, "world this is a test"),
        segment(3, 8_000, "a test for PickScribe"),
    ];

    assert_eq!(assemble_raw_text(&segments), "Hello, world. This is a test for PickScribe");
}

#[test]
fn raw_assembly_preserves_repeated_words_while_deduping_overlap() {
    assert_eq!(merge_texts(&["go go now", "go now please"]), "go go now please");
}

#[test]
fn raw_assembly_replaces_partial_tail_word() {
    assert_eq!(
        merge_texts(&["this is an increm-", "incremental transcript"]),
        "this is an incremental transcript"
    );
}

#[test]
fn raw_assembly_preserves_complete_prefix_words() {
    assert_eq!(
        merge_texts(&["we were there", "therefore we left"]),
        "we were there therefore we left"
    );
}

#[test]
fn raw_assembly_skips_empty_and_silent_chunks() {
    assert_eq!(
        merge_texts(&["", "   ", "hello there", "[SILENCE]", "there friend"]),
        "hello there friend"
    );
}

#[test]
fn cleaned_assembly_uses_cleaned_segments_when_available() {
    let mut first = segment(1, 0, "raw one");
    first.cleaned_text = Some("Clean one".into());
    let second = segment(2, 5_000, "one two");

    assert_eq!(assemble_cleaned_text(&[second, first]), Some("Clean one two".into()));
}

#[test]
fn cleaned_assembly_is_none_without_cleaned_text() {
    assert_eq!(assemble_cleaned_text(&[segment(1, 0, "raw")]), None);
}

#[test]
fn upsert_keeps_time_order_and_one_segment_per_id() {
    let mut session = RecordingSession::new("s");
    session.upsert_segment(segment(3, 10_000, "c"));
    session.upsert_segment(segment(1, 0, "a"));
    session.upsert_segment(segment(2, 5_000, "b"));
    session.upsert_segment(segment(1, 0, "a2"));
    let ids: Vec<u64> = session.segments.iter().map(|s| s.id).collect();
    assert_eq!(ids, vec![1, 2, 3]);
    assert_eq!(session.segments[0].raw_text, "a2");
    assert_eq!(session.final_raw_text(), "a2 b c");
    assert_eq!(session.final_cleaned_text(), None);
}

#[test]
fn failed_segment_keeps_error_and_no_text() {
    let failed = TranscriptSegment::failed(4, 100, 200, "stt crashed");
    assert_eq!(failed.status, TranscriptSegmentStatus::Failed);
    assert_eq!(failed.error.as_deref(), Some("stt crashed"));
    assert!(failed.raw_text.is_empty());
    let ready = segment(1, 0, "x");
    assert_eq!(ready.status, TranscriptSegmentStatus::RawReady);
    assert_eq!(ready.end_ms, 5_000);
}

#[test]
fn merging_skips_whole_text_markers_in_any_case() {
    assert_eq!(merge_texts(&["one", "(music)", "two"]), "one two");
}

#[test]
fn arrival_order_does_not_change_the_assembled_text() {
    let a = TranscriptSegment::raw_ready(1, 0, 5_000, "hello world");
    let b = TranscriptSegment::raw_ready(2, 4_000, 9_000, "world again");
    let c = TranscriptSegment::raw_ready(3, 9_000, 12_000, "and more");
    let forward = vec![a.clone(), b.clone(), c.clone()];
    let shuffled = vec![c, a, b];
    assert_eq!(assemble_raw_text(&forward), assemble_raw_text(&shuffled));
    assert_eq!(assemble_cleaned_text(&forward), assemble_cleaned_text(&shuffled));
}
