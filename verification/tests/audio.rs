use pickscribe::audio::{
    audio_data_bytes, check_slice_range, trailing_chunk_room, decode_samples, encode_samples, find_low_energy_boundary,
    is_known_trailing_chunk, ms_to_sample, sample_to_ms, sample_window, trailing_chunk_fits,
    validate_header, wav_data_len, wav_header, HeaderError,
};
use pickscribe::media::{wav_duration_ms, DurationError};

#[test]
fn low_energy_boundary_prefers_nearby_silence() {
    let mut samples = vec![12_000; 2_000];
    for sample in &mut samples[900..1_100] {
        *sample = 0;
    }

    let boundary = find_low_energy_boundary(&samples, 850, 300);

    assert!((900..=1_100).contains(&boundary), "boundary={boundary}");
}

#[test]
fn low_energy_boundary_keeps_ties_near_target() {
    let samples = vec![0; 2_000];

    assert_eq!(find_low_energy_boundary(&samples, 1_000, 300), 1_000);
}

#[test]
fn low_energy_boundary_of_no_samples_is_zero() {
    assert_eq!(find_low_energy_boundary(&[], 10, 5), 0);
}

#[test]
fn ms_and_samples_convert_at_16_khz() {
    assert_eq!(ms_to_sample(1_000), 16_000);
    assert_eq!(ms_to_sample(250), 4_000);
    assert_eq!(sample_to_ms(8_000), 500);
    assert_eq!(sample_to_ms(ms_to_sample(1_234)), 1_234);
    assert_eq!(ms_to_sample(u64::MAX), u64::MAX / 1_000);
}

#[test]
fn written_header_is_read_back_with_its_length() {
    let h = wav_header(32_000);
    assert_eq!(h.len(), 44);
    assert_eq!(&h[0..4], b"RIFF");
    assert_eq!(&h[8..12], b"WAVE");
    assert_eq!(&h[36..40], b"data");
    assert_eq!(u32::from_le_bytes([h[4], h[5], h[6], h[7]]), 32_036);
    assert_eq!(validate_header(&h), Ok(32_000));
}

#[test]
fn header_errors_distinguish_riff_and_format() {
    let mut h = wav_header(10);
    h[0] = b'X';
    assert_eq!(validate_header(&h), Err(HeaderError::Unsupported));
    assert_eq!(HeaderError::Unsupported.message(), "unsupported WAV header");
    let mut h = wav_header(10);
    h[24] = 0x44; // 44_100 Hz low byte
    h[25] = 0xAC;
    assert_eq!(validate_header(&h), Err(HeaderError::WrongFormat));
    assert_eq!(HeaderError::WrongFormat.message(), "expected 16 kHz mono 16-bit PCM WAV");
}

#[test]
fn samples_survive_encoding() {
    let samples = vec![0i16, 1, -1, i16::MAX, i16::MIN, 12_345, -12_345];
    let bytes = encode_samples(&samples);
    assert_eq!(bytes.len(), 14);
    assert_eq!(&bytes[2..6], &[1, 0, 255, 255]);
    assert_eq!(decode_samples(&bytes), samples);
    assert_eq!(decode_samples(&[1, 2, 3]), vec![0x0201]);
}

#[test]
fn data_length_prefers_header_only_when_it_fits() {
    assert_eq!(audio_data_bytes(0, 500, false), 500);
    assert_eq!(audio_data_bytes(600, 500, true), 500);
    assert_eq!(audio_data_bytes(400, 500, false), 500);
    assert_eq!(audio_data_bytes(400, 500, true), 400);
    assert_eq!(audio_data_bytes(500, 500, false), 500);
}

#[test]
fn trailing_chunks_are_recognised_by_id_and_size() {
    assert!(is_known_trailing_chunk(b"LIST"));
    assert!(is_known_trailing_chunk(b"ID3 "));
    assert!(!is_known_trailing_chunk(b"data"));
    let chunk = [b'L', b'I', b'S', b'T', 3, 0, 0, 0];
    assert!(trailing_chunk_fits(&chunk, 12));
    assert!(!trailing_chunk_fits(&chunk, 11));
    let other = [b'a', b'b', b'c', b'd', 0, 0, 0, 0];
    assert!(!trailing_chunk_fits(&other, 100));
}

#[test]
fn sample_window_clamps_to_available_audio() {
    let w = sample_window(250, 750, 16_000 * 2);
    assert_eq!((w.start_sample, w.end_sample, w.start_ms, w.end_ms), (4_000, 12_000, 250, 750));
    let w = sample_window(500, 5_000, 20_000);
    assert_eq!((w.start_sample, w.end_sample, w.end_ms), (8_000, 10_000, 625));
}

#[test]
fn oversized_segments_are_refused() {
    assert_eq!(wav_data_len(8_000), Ok(16_000));
    assert_eq!(wav_data_len(usize::MAX / 2).unwrap_err(), "WAV segment is too large");
}

fn wav_bytes(samples: &[i16]) -> Vec<u8> {
    let mut bytes = wav_header(samples.len() as u32 * 2);
    bytes.extend_from_slice(&encode_samples(samples));
    bytes
}

#[test]
fn wav_duration_reads_16khz_mono_pcm_data() {
    let bytes = wav_bytes(&vec![0; 16_000 * 3 / 2]);
    assert_eq!(wav_duration_ms(&bytes), Ok(1_500));
}

#[test]
fn wav_duration_skips_other_chunks_and_their_padding() {
    let mut bytes = b"RIFF\0\0\0\0WAVE".to_vec();
    // An odd-length LIST chunk, padded to an even length.
    bytes.extend_from_slice(b"LIST");
    bytes.extend_from_slice(&3u32.to_le_bytes());
    bytes.extend_from_slice(&[1, 2, 3, 0]);
    bytes.extend_from_slice(b"data");
    bytes.extend_from_slice(&64_000u32.to_le_bytes());
    bytes.extend_from_slice(&vec![0u8; 64_000]);
    bytes.extend_from_slice(b"fmt ");
    bytes.extend_from_slice(&16u32.to_le_bytes());
    bytes.extend_from_slice(&1u16.to_le_bytes());
    bytes.extend_from_slice(&1u16.to_le_bytes());
    bytes.extend_from_slice(&16_000u32.to_le_bytes());
    bytes.extend_from_slice(&32_000u32.to_le_bytes());
    bytes.extend_from_slice(&2u16.to_le_bytes());
    bytes.extend_from_slice(&16u16.to_le_bytes());
    assert_eq!(wav_duration_ms(&bytes), Ok(2_000));
}

#[test]
fn wav_duration_reports_each_failure() {
    assert_eq!(wav_duration_ms(b"RIFF"), Err(DurationError::ShortHeader));
    assert_eq!(wav_duration_ms(b"RIFX\0\0\0\0WAVE"), Err(DurationError::UnsupportedHeader));
    assert_eq!(wav_duration_ms(b"RIFF\0\0\0\0WAVE"), Err(DurationError::ChunkHeader));
    let mut short_fmt = b"RIFF\0\0\0\0WAVEfmt ".to_vec();
    short_fmt.extend_from_slice(&8u32.to_le_bytes());
    assert_eq!(wav_duration_ms(&short_fmt), Err(DurationError::UnsupportedHeader));
    let mut cut_fmt = b"RIFF\0\0\0\0WAVEfmt ".to_vec();
    cut_fmt.extend_from_slice(&16u32.to_le_bytes());
    cut_fmt.extend_from_slice(&[1, 0, 1]);
    assert_eq!(wav_duration_ms(&cut_fmt), Err(DurationError::FormatChunk));
    let mut stereo = wav_bytes(&[0; 32]);
    stereo[22] = 2;
    assert_eq!(wav_duration_ms(&stereo), Err(DurationError::WrongFormat));
    assert_eq!(DurationError::WrongFormat.message(), "expected 16 kHz mono 16-bit PCM WAV");
}

#[test]
fn written_header_reads_back_its_length_whatever_follows() {
    assert_eq!(wav_duration_ms(&wav_header(3_200)), Ok(100));
    let mut bytes = wav_header(64_000);
    bytes.extend_from_slice(b"LIST\x04\0\0\0abcd");
    assert_eq!(wav_duration_ms(&bytes), Ok(2_000));
}

#[test]
fn slice_range_refuses_an_end_before_the_start() {
    assert_eq!(check_slice_range(50, 500), Ok(()));
    assert_eq!(check_slice_range(50, 50), Ok(()));
    assert_eq!(
        check_slice_range(500, 50),
        Err("segment end 50ms is before start 500ms".to_string())
    );
    // The window of a 100 ms recording clamps the slice to its end.
    let w = sample_window(50, 500, 3_200);
    assert_eq!((w.start_ms, w.end_ms, w.end_sample - w.start_sample), (50, 100, 800));
}

#[test]
fn trailing_chunk_is_read_only_where_one_can_follow() {
    assert_eq!(trailing_chunk_room(100, 120), Some(20));
    assert_eq!(trailing_chunk_room(100, 107), None);
    assert_eq!(trailing_chunk_room(0, 120), None);
    assert_eq!(trailing_chunk_room(120, 120), None);
    assert_eq!(trailing_chunk_room(130, 120), None);
}
