use pickscribe::transcript::{format_timestamp, speech_segments, to_srt, to_txt, to_vtt, FileSegment};

#[test]
fn writes_srt_and_vtt_with_hour_rollover() {
    let segments = vec![
        FileSegment { start_ms: 0, end_ms: 1_234, text: "First cue".into() },
        FileSegment { start_ms: 3_661_001, end_ms: 3_662_345, text: "Past an hour".into() },
    ];

    assert_eq!(
        to_srt(&segments),
        "1\n00:00:00,000 --> 00:00:01,234\nFirst cue\n\n2\n01:01:01,001 --> 01:01:02,345\nPast an hour\n"
    );
    assert_eq!(
        to_vtt(&segments),
        "WEBVTT\n\n00:00:00.000 --> 00:00:01.234\nFirst cue\n\n01:01:01.001 --> 01:01:02.345\nPast an hour\n"
    );
}

#[test]
fn writes_empty_exports() {
    assert_eq!(to_txt(&[]), "");
    assert_eq!(to_srt(&[]), "");
    assert_eq!(to_vtt(&[]), "WEBVTT\n\n");
}

#[test]
fn parses_whisper_json_and_drops_non_speech_markers() {
    let raw = vec![
        FileSegment { start_ms: 0, end_ms: 1420, text: "  Hello there.  ".into() },
        FileSegment { start_ms: 1420, end_ms: 2800, text: "[MUSIC]".into() },
        FileSegment { start_ms: 2800, end_ms: 4310, text: "How are you?".into() },
    ];

    let segments = speech_segments(&raw);

    assert_eq!(segments.len(), 2);
    assert_eq!(segments[0].start_ms, 0);
    assert_eq!(segments[0].end_ms, 1_420);
    assert_eq!(segments[0].text, "Hello there.");
    assert_eq!(segments[1].text, "How are you?");
    assert_eq!(to_txt(&segments), "Hello there. How are you?");
}

#[test]
fn timestamps_clamp_negative_and_grow_hours() {
    assert_eq!(format_timestamp(-5, ','), "00:00:00,000");
    assert_eq!(format_timestamp(360_000_000 + 61_001, '.'), "100:01:01.001");
    assert_eq!(format_timestamp(59_999, ','), "00:00:59,999");
}
