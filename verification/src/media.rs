//! The duration of a converted media file, read from its WAV chunks.
use vstd::prelude::*;
use crate::audio::{
    bytes_are, le_bytes, le_u16, le_u32, lemma_le4, lemma_wav_header_round_trip, spec_wav_header,
};

verus! {

/// The fields a WAV `fmt ` chunk starts with.
#[derive(Debug, Clone, Copy, PartialEq, Eq, Structural)]
pub struct WavFormat {
    pub audio_format: u16,
    pub channels: u16,
    pub sample_rate: u32,
    pub bits_per_sample: u16,
}

/// Why a WAV file's duration could not be read.
#[derive(Debug, Clone, Copy, PartialEq, Eq, Structural)]
pub enum DurationError {
    /// Fewer than the twelve bytes of the RIFF header.
    ShortHeader,
    /// Not RIFF/WAVE, or a `fmt ` chunk shorter than its fields.
    UnsupportedHeader,
    /// The chunks end before both `fmt ` and `data` were seen.
    ChunkHeader,
    /// The file ends inside the `fmt ` chunk's fields.
    FormatChunk,
    /// Not 16 kHz mono 16-bit PCM.
    WrongFormat,
}

impl DurationError {
    pub fn message(&self) -> (s: &'static str)
        ensures
            s@ == spec_duration_message(*self),
    {
        match self {
            DurationError::ShortHeader => "reading WAV header",
            DurationError::UnsupportedHeader => "unsupported WAV header",
            DurationError::ChunkHeader => "reading WAV chunk header",
            DurationError::FormatChunk => "reading WAV format chunk",
            DurationError::WrongFormat => "expected 16 kHz mono 16-bit PCM WAV",
        }
    }
}

pub open spec fn spec_duration_message(e: DurationError) -> Seq<char> {
    match e {
        DurationError::ShortHeader => "reading WAV header"@,
        DurationError::UnsupportedHeader => "unsupported WAV header"@,
        DurationError::ChunkHeader => "reading WAV chunk header"@,
        DurationError::FormatChunk => "reading WAV format chunk"@,
        DurationError::WrongFormat => "expected 16 kHz mono 16-bit PCM WAV"@,
    }
}

/// A chunk's body is followed by a pad byte when its length is odd.
pub open spec fn padded(n: int) -> int {
    n + n % 2
}

pub open spec fn format_at(b: Seq<u8>, at: int) -> WavFormat {
    WavFormat {
        audio_format: le_u16(b[at], b[at + 1]) as u16,
        channels: le_u16(b[at + 2], b[at + 3]) as u16,
        sample_rate: le_u32(b[at + 4], b[at + 5], b[at + 6], b[at + 7]) as u32,
        bits_per_sample: le_u16(b[at + 14], b[at + 15]) as u16,
    }
}

pub open spec fn chunk_len_at(b: Seq<u8>, pos: int) -> int {
    le_u32(b[pos + 4], b[pos + 5], b[pos + 6], b[pos + 7])
}

/// Walks the chunks from `pos`, remembering the last format and data
/// length seen, until both are known.
pub open spec fn scan_chunks(b: Seq<u8>, pos: int, fmt: Option<WavFormat>, data: Option<u64>) -> Result<
    (WavFormat, u64),
    DurationError,
>
    decreases (if 0 <= pos <= b.len() {
        b.len() - pos
    } else {
        0
    }),
{
    if pos < 0 || pos + 8 > b.len() {
        Err(DurationError::ChunkHeader)
    } else {
        let len = chunk_len_at(b, pos);
        if bytes_are(b, pos, seq![102u8, 109, 116, 32]) {
            if len < 16 {
                Err(DurationError::UnsupportedHeader)
            } else if pos + 24 > b.len() {
                Err(DurationError::FormatChunk)
            } else {
                let f = format_at(b, pos + 8);
                match data {
                    Some(d) => Ok((f, d)),
                    None => scan_chunks(b, pos + 24 + padded(len - 16), Some(f), data),
                }
            }
        } else {
            let d = if bytes_are(b, pos, seq![100u8, 97, 116, 97]) {
                Some(len as u64)
            } else {
                data
            };
            match (fmt, d) {
                (Some(f), Some(n)) => Ok((f, n)),
                _ => scan_chunks(b, pos + 8 + padded(len), fmt, d),
            }
        }
    }
}

pub open spec fn is_pcm_16k_mono(f: WavFormat) -> bool {
    f.audio_format == 1 && f.channels == 1 && f.sample_rate == 16_000 && f.bits_per_sample == 16
}

/// The duration in milliseconds of a 16 kHz mono 16-bit PCM WAV file with
/// contents `b`: its data length over 32 bytes per millisecond.
pub open spec fn spec_wav_duration(b: Seq<u8>) -> Result<i64, DurationError> {
    if b.len() < 12 {
        Err(DurationError::ShortHeader)
    } else if !bytes_are(b, 0, seq![82u8, 73, 70, 70]) || !bytes_are(b, 8, seq![87u8, 65, 86, 69]) {
        Err(DurationError::UnsupportedHeader)
    } else {
        match scan_chunks(b, 12, None, None) {
            Err(e) => Err(e),
            Ok((f, d)) => if !is_pcm_16k_mono(f) {
                Err(DurationError::WrongFormat)
            } else {
                Ok((d * 1000 / 32000) as i64)
            },
        }
    }
}

fn tag_at(b: &[u8], at: usize, t0: u8, t1: u8, t2: u8, t3: u8) -> (r: bool)
    requires
        at + 4 <= b@.len(),
    ensures
        r == bytes_are(b@, at as int, seq![t0, t1, t2, t3]),
{
    let r = b[at] == t0 && b[at + 1] == t1 && b[at + 2] == t2 && b[at + 3] == t3;
    proof {
        let t = seq![t0, t1, t2, t3];
        if r {
            assert forall|k: int| 0 <= k < t.len() implies b@[at + k] == t[k] by {
                if k == 0 {
                } else if k == 1 {
                } else if k == 2 {
                } else {
                }
            }
        } else {
            if b@[at as int] != t0 {
                assert(b@[at + 0] != t[0]);
            } else if b@[at + 1] != t1 {
                assert(b@[at + 1] != t[1]);
            } else if b@[at + 2] != t2 {
                assert(b@[at + 2] != t[2]);
            } else {
                assert(b@[at + 3] != t[3]);
            }
        }
    }
    r
}

fn u16_at(b: &[u8], at: usize) -> (r: u16)
    requires
        at + 2 <= b@.len(),
    ensures
        r == le_u16(b@[at as int], b@[at + 1]),
{
    b[at] as u16 + 256 * b[at + 1] as u16
}

fn u32_at(b: &[u8], at: usize) -> (r: u32)
    requires
        at + 4 <= b@.len(),
    ensures
        r == le_u32(b@[at as int], b@[at + 1], b@[at + 2], b@[at + 3]),
{
    b[at] as u32 + 256 * b[at + 1] as u32 + 65536 * b[at + 2] as u32 + 16777216 * b[at + 3] as u32
}

fn duration_of(f: WavFormat, d: u64) -> (r: Result<i64, DurationError>)
    requires
        d <= u32::MAX,
    ensures
        r == (if !is_pcm_16k_mono(f) {
            Err(DurationError::WrongFormat)
        } else {
            Ok((d * 1000 / 32000) as i64)
        }),
{
    if !(f.audio_format == 1 && f.channels == 1 && f.sample_rate == 16_000 && f.bits_per_sample
        == 16) {
        return Err(DurationError::WrongFormat);
    }
    Ok((d * 1000 / 32000) as i64)
}

/// The duration of the WAV file whose bytes are `bytes`.
pub fn wav_duration_ms(bytes: &[u8]) -> (r: Result<i64, DurationError>)
    ensures
        r == spec_wav_duration(bytes@),
{
    let n = bytes.len();
    if n < 12 {
        return Err(DurationError::ShortHeader);
    }
    if !tag_at(bytes, 0, 82, 73, 70, 70) || !tag_at(bytes, 8, 87, 65, 86, 69) {
        return Err(DurationError::UnsupportedHeader);
    }
    let mut pos: u128 = 12;
    let mut fmt: Option<WavFormat> = None;
    let mut data: Option<u64> = None;
    loop
        invariant
            n == bytes@.len(),
            n >= 12,
            bytes_are(bytes@, 0, seq![82u8, 73, 70, 70]),
            bytes_are(bytes@, 8, seq![87u8, 65, 86, 69]),
            pos <= n + 0x1_0000_0020,
            scan_chunks(bytes@, 12, None, None) == scan_chunks(bytes@, pos as int, fmt, data),
            !(fmt is Some && data is Some),
            data matches Some(d) ==> d <= u32::MAX,
        decreases n + 0x1_0000_0020 - pos,
    {
        if pos + 8 > n as u128 {
            return Err(DurationError::ChunkHeader);
        }
        let p = pos as usize;
        let len = u32_at(bytes, p + 4) as u128;
        if tag_at(bytes, p, 102, 109, 116, 32) {
            if len < 16 {
                return Err(DurationError::UnsupportedHeader);
            }
            if pos + 24 > n as u128 {
                return Err(DurationError::FormatChunk);
            }
            let f = WavFormat {
                audio_format: u16_at(bytes, p + 8),
                channels: u16_at(bytes, p + 10),
                sample_rate: u32_at(bytes, p + 12),
                bits_per_sample: u16_at(bytes, p + 22),
            };
            assert(f == format_at(bytes@, pos + 8));
            match data {
                Some(d) => {
                    return duration_of(f, d);
                },
                None => {
                    let rest = len - 16;
                    pos = pos + 24 + rest + rest % 2;
                    fmt = Some(f);
                },
            }
        } else {
            if tag_at(bytes, p, 100, 97, 116, 97) {
                data = Some(len as u64);
            }
            match (fmt, data) {
                (Some(f), Some(d)) => {
                    return duration_of(f, d);
                },
                _ => {
                    pos = pos + 8 + len + len % 2;
                },
            }
        }
    }
}

/// A file that starts with a header this library writes for `data_len`
/// bytes of audio reads back, whatever follows the header, as lasting
/// `data_len` bytes at 32 bytes per millisecond.
pub proof fn lemma_written_wav_duration(data_len: u32, rest: Seq<u8>)
    requires
        data_len <= u32::MAX - 36,
    ensures
        spec_wav_duration(spec_wav_header(data_len) + rest) == Ok::<i64, DurationError>(
            (data_len * 1000 / 32000) as i64,
        ),
{
    let h = spec_wav_header(data_len);
    let b = h + rest;
    lemma_wav_header_round_trip(data_len);
    reveal_with_fuel(le_bytes, 5);
    lemma_le4(16);
    lemma_le4(data_len as nat);
    assert(h.len() == 44);
    assert forall|k: int| 0 <= k < 44 implies b[k] == h[k] by {}
    assert(h.subrange(16, 20) =~= le_bytes(16, 4));
    assert(h.subrange(40, 44) =~= le_bytes(data_len as nat, 4));
    assert(chunk_len_at(b, 12) == 16) by {
        assert(h[16] == le_bytes(16, 4)[0] && h[17] == le_bytes(16, 4)[1]);
        assert(h[18] == le_bytes(16, 4)[2] && h[19] == le_bytes(16, 4)[3]);
    }
    assert(chunk_len_at(b, 36) == data_len);
    assert(bytes_are(b, 0, seq![82u8, 73, 70, 70]));
    assert(bytes_are(b, 8, seq![87u8, 65, 86, 69]));
    assert(bytes_are(b, 12, seq![102u8, 109, 116, 32]));
    assert(bytes_are(b, 36, seq![100u8, 97, 116, 97]));
    assert(!bytes_are(b, 36, seq![102u8, 109, 116, 32])) by {
        assert(b[36] != seq![102u8, 109, 116, 32][0]);
    }
    let f = format_at(b, 20);
    assert(is_pcm_16k_mono(f));
    assert(scan_chunks(b, 36, Some(f), None) == Ok::<(WavFormat, u64), DurationError>(
        (f, data_len as u64),
    ));
    assert(scan_chunks(b, 12, None, None) == scan_chunks(b, 36, Some(f), None));
}

} // verus!
