//! 16 kHz mono 16-bit PCM arithmetic: millisecond/sample conversion, the
//! low-energy cut point search, and the canonical 44-byte WAV header.
use vstd::prelude::*;
use crate::text::{append_chars, append_str, chars_of, decimal, decimal_digits, string_of};

verus! {

pub const WAV_HEADER_BYTES: u64 = 44;

pub const SAMPLE_RATE_HZ: u32 = 16_000;

pub const CHANNELS: u16 = 1;

pub const BITS_PER_SAMPLE: u16 = 16;

pub const BYTES_PER_SAMPLE: u64 = 2;

/// `a * b`, or `u64::MAX` when the product does not fit.
pub open spec fn sat_mul(a: u64, b: u64) -> u64 {
    if a * b > u64::MAX {
        u64::MAX
    } else {
        (a * b) as u64
    }
}

pub fn saturating_mul(a: u64, b: u64) -> (r: u64)
    ensures
        r == sat_mul(a, b),
{
    match a.checked_mul(b) {
        Some(p) => p,
        None => u64::MAX,
    }
}

pub open spec fn spec_ms_to_sample(ms: u64) -> u64 {
    sat_mul(ms, 16_000) / 1_000
}

pub open spec fn spec_sample_to_ms(sample: u64) -> u64 {
    sat_mul(sample, 1_000) / 16_000
}

/// The sample index at `ms` milliseconds.
pub fn ms_to_sample(ms: u64) -> (r: u64)
    ensures
        r == spec_ms_to_sample(ms),
{
    saturating_mul(ms, 16_000) / 1_000
}

/// The millisecond at which sample `sample` starts.
pub fn sample_to_ms(sample: u64) -> (r: u64)
    ensures
        r == spec_sample_to_ms(sample),
{
    saturating_mul(sample, 1_000) / 16_000
}

/// Converting milliseconds to samples and back is the identity wherever the
/// multiplication does not saturate.
pub proof fn lemma_ms_sample_round_trip(ms: u64)
    requires
        ms * 16_000 <= u64::MAX,
    ensures
        spec_sample_to_ms(spec_ms_to_sample(ms)) == ms,
        spec_ms_to_sample(ms) == ms * 16,
{
    assert(spec_ms_to_sample(ms) == ms * 16);
    assert((ms * 16) * 1000 <= u64::MAX);
}

// ---------------------------------------------------------------------------
// Low-energy boundary search
// ---------------------------------------------------------------------------

pub open spec fn abs16(x: i16) -> int {
    if x < 0 {
        -(x as int)
    } else {
        x as int
    }
}

/// Sum of `|s[k]|` for `lo <= k < hi`.
pub open spec fn abs_sum(s: Seq<i16>, lo: int, hi: int) -> int
    decreases hi - lo,
{
    if hi <= lo {
        0
    } else {
        abs_sum(s, lo, hi - 1) + abs16(s[hi - 1])
    }
}

/// Half of the 20 ms (320-sample) energy window.
pub open spec fn half_window() -> int {
    160
}

pub open spec fn window_start(index: int) -> int {
    if index >= half_window() {
        index - half_window()
    } else {
        0
    }
}

pub open spec fn window_end(index: int, len: int) -> int {
    if index + half_window() <= len - 1 {
        index + half_window()
    } else {
        len - 1
    }
}

/// Sum of absolute amplitudes in the 20 ms window centred on `index`.
pub open spec fn window_energy(s: Seq<i16>, index: int) -> int {
    abs_sum(s, window_start(index), window_end(index, s.len() as int) + 1)
}

pub open spec fn dist(a: int, b: int) -> int {
    if a >= b {
        a - b
    } else {
        b - a
    }
}

/// `a` is at least as good a cut as `b`: lower window energy, then closer to
/// `target`, then earlier.
pub open spec fn cut_no_worse(s: Seq<i16>, target: int, a: int, b: int) -> bool {
    ||| window_energy(s, a) < window_energy(s, b)
    ||| (window_energy(s, a) == window_energy(s, b) && dist(a, target) < dist(b, target))
    ||| (window_energy(s, a) == window_energy(s, b) && dist(a, target) == dist(b, target) && a
        <= b)
}

pub open spec fn scan_lo(len: int, target: int, radius: int) -> int {
    let lo = if target >= radius {
        target - radius
    } else {
        0
    };
    if lo <= len - 1 {
        lo
    } else {
        len - 1
    }
}

pub open spec fn scan_hi(len: int, target: int, radius: int) -> int {
    let hi = if target + radius <= usize::MAX {
        target + radius
    } else {
        usize::MAX as int
    };
    if hi <= len - 1 {
        hi
    } else {
        len - 1
    }
}

/// `r` is the best cut in the scanned range.
pub open spec fn is_best_cut(s: Seq<i16>, target: int, radius: int, r: int) -> bool {
    let lo = scan_lo(s.len() as int, target, radius);
    let hi = scan_hi(s.len() as int, target, radius);
    &&& lo <= r <= hi
    &&& forall|i: int| lo <= i <= hi ==> #[trigger] cut_no_worse(s, target, r, i)
}

/// The cut `find_low_energy_boundary` picks: the unique best cut, or 0 for
/// no samples.
pub open spec fn best_cut(s: Seq<i16>, target: int, radius: int) -> int {
    if s.len() == 0 {
        0
    } else {
        choose|r: int| is_best_cut(s, target, radius, r)
    }
}

pub proof fn lemma_best_cut_unique(s: Seq<i16>, target: int, radius: int, a: int, b: int)
    requires
        is_best_cut(s, target, radius, a),
        is_best_cut(s, target, radius, b),
    ensures
        a == b,
{
    assert(cut_no_worse(s, target, a, b));
    assert(cut_no_worse(s, target, b, a));
}

fn abs_sample(x: i16) -> (r: u64)
    ensures
        r == abs16(x),
        r <= 32768,
{
    if x < 0 {
        (0i32 - (x as i32)) as u64
    } else {
        x as u64
    }
}

fn energy_at(samples: &[i16], index: usize) -> (e: u64)
    requires
        index < samples@.len(),
    ensures
        e == window_energy(samples@, index as int),
        e <= 321 * 32768,
{
    let len = samples.len();
    let last = len - 1;
    let ws = if index >= 160 {
        index - 160
    } else {
        0
    };
    let we = if last - index >= 160 {
        index + 160
    } else {
        last
    };
    let mut e: u64 = 0;
    let mut k = ws;
    while k <= we
        invariant
            len == samples@.len(),
            ws <= k <= we + 1,
            we < len,
            we - ws <= 320,
            e == abs_sum(samples@, ws as int, k as int),
            e <= (k - ws) * 32768,
        decreases we + 1 - k,
    {
        e = e + abs_sample(samples[k]);
        k = k + 1;
    }
    e
}

/// Index in `[target - radius, target + radius]` (clamped to the samples)
/// whose 20 ms window has the least energy; ties go to the index closest to
/// `target`, then to the earlier one. Empty input gives 0.
pub fn find_low_energy_boundary(samples: &[i16], target: usize, radius: usize) -> (r: usize)
    ensures
        r == best_cut(samples@, target as int, radius as int),
        samples@.len() == 0 ==> r == 0,
        samples@.len() > 0 ==> {
            let lo = scan_lo(samples@.len() as int, target as int, radius as int);
            let hi = scan_hi(samples@.len() as int, target as int, radius as int);
            &&& lo <= r <= hi
            &&& forall|i: int|
                lo <= i <= hi ==> #[trigger] cut_no_worse(samples@, target as int, r as int, i)
        },
{
    if samples.len() == 0 {
        return 0;
    }
    let last = samples.len() - 1;
    let lo0 = if target >= radius {
        target - radius
    } else {
        0
    };
    let start = if lo0 <= last {
        lo0
    } else {
        last
    };
    let hi0 = match target.checked_add(radius) {
        Some(h) => h,
        None => usize::MAX,
    };
    let end = if hi0 <= last {
        hi0
    } else {
        last
    };
    let ghost s = samples@;
    let ghost t = target as int;
    let mut best_index: usize = if target <= last {
        target
    } else {
        last
    };
    let mut best_energy: u64 = u64::MAX;
    let mut index = start;
    while index <= end
        invariant
            last + 1 == samples@.len(),
            last < usize::MAX,
            s == samples@,
            t == target as int,
            start <= index <= end + 1,
            end <= last,
            start == scan_lo(s.len() as int, t, radius as int),
            end == scan_hi(s.len() as int, t, radius as int),
            index > start ==> start <= best_index < index && best_energy == window_energy(
                s,
                best_index as int,
            ),
            index == start ==> best_energy == u64::MAX,
            forall|j: int|
                start <= j < index ==> #[trigger] cut_no_worse(s, t, best_index as int, j),
        decreases end + 1 - index,
    {
        let energy = energy_at(samples, index);
        let d_index = if index >= target {
            index - target
        } else {
            target - index
        };
        let d_best = if best_index >= target {
            best_index - target
        } else {
            target - best_index
        };
        let is_better_tie = energy == best_energy && d_index < d_best;
        let ghost old_best = best_index as int;
        assert(energy == window_energy(s, index as int));
        assert(d_index == dist(index as int, t));
        assert(d_best == dist(old_best, t));
        if energy < best_energy || is_better_tie {
            proof {
                assert forall|j: int| start <= j < index + 1 implies #[trigger] cut_no_worse(
                    s,
                    t,
                    index as int,
                    j,
                ) by {
                    if j < index {
                        assert(cut_no_worse(s, t, old_best, j));
                    }
                }
            }
            best_energy = energy;
            best_index = index;
        } else {
            proof {
                assert forall|j: int| start <= j < index + 1 implies #[trigger] cut_no_worse(
                    s,
                    t,
                    best_index as int,
                    j,
                ) by {
                    if j < index {
                        assert(cut_no_worse(s, t, old_best, j));
                    }
                }
            }
        }
        index = index + 1;
    }
    proof {
        assert(is_best_cut(s, t, radius as int, best_index as int));
        let c = choose|r: int| is_best_cut(s, t, radius as int, r);
        lemma_best_cut_unique(s, t, radius as int, c, best_index as int);
    }
    best_index
}

// ---------------------------------------------------------------------------
// WAV header
// ---------------------------------------------------------------------------

pub open spec fn le_u16(b0: u8, b1: u8) -> int {
    b0 as int + 256 * (b1 as int)
}

pub open spec fn le_u32(b0: u8, b1: u8, b2: u8, b3: u8) -> int {
    b0 as int + 256 * (b1 as int) + 65536 * (b2 as int) + 16777216 * (b3 as int)
}

pub open spec fn bytes_are(h: Seq<u8>, at: int, tag: Seq<u8>) -> bool {
    forall|k: int| 0 <= k < tag.len() ==> h[at + k] == tag[k]
}

/// The header describes the 16 kHz mono 16-bit PCM format this module reads.
pub open spec fn header_is_supported(h: Seq<u8>) -> bool {
    &&& h.len() == 44
    &&& bytes_are(h, 0, seq![82u8, 73, 70, 70])
    &&& bytes_are(h, 8, seq![87u8, 65, 86, 69])
    &&& bytes_are(h, 12, seq![102u8, 109, 116, 32])
    &&& le_u16(h[20], h[21]) == 1
    &&& le_u16(h[22], h[23]) == 1
    &&& le_u32(h[24], h[25], h[26], h[27]) == 16_000
    &&& le_u16(h[34], h[35]) == 16
    &&& bytes_are(h, 36, seq![100u8, 97, 116, 97])
}

pub open spec fn header_riff_ok(h: Seq<u8>) -> bool {
    &&& bytes_are(h, 0, seq![82u8, 73, 70, 70])
    &&& bytes_are(h, 8, seq![87u8, 65, 86, 69])
    &&& bytes_are(h, 12, seq![102u8, 109, 116, 32])
}

fn bytes_at(h: &[u8], at: usize, a: u8, b: u8, c: u8, d: u8) -> (r: bool)
    requires
        at + 4 <= h@.len(),
    ensures
        r == bytes_are(h@, at as int, seq![a, b, c, d]),
{
    let ok = h[at] == a && h[at + 1] == b && h[at + 2] == c && h[at + 3] == d;
    proof {
        let t = seq![a, b, c, d];
        if ok {
            assert forall|k: int| 0 <= k < t.len() implies h@[at + k] == t[k] by {
                if k == 0 {
                } else if k == 1 {
                } else if k == 2 {
                } else {
                }
            }
        } else {
            if h@[at as int] != a {
                assert(h@[at + 0] != t[0]);
            } else if h@[at + 1] != b {
                assert(h@[at + 1] != t[1]);
            } else if h@[at + 2] != c {
                assert(h@[at + 2] != t[2]);
            } else {
                assert(h@[at + 3] != t[3]);
            }
        }
    }
    ok
}

/// Errors a WAV header check reports.
#[derive(Debug, Clone, Copy, PartialEq, Eq, Structural)]
pub enum HeaderError {
    /// Not a RIFF/WAVE file with a leading `fmt ` chunk.
    Unsupported,
    /// A RIFF/WAVE file in another format than 16 kHz mono 16-bit PCM.
    WrongFormat,
}

impl HeaderError {
    pub fn message(&self) -> (s: &'static str)
        ensures
            *self == HeaderError::Unsupported ==> s@ == "unsupported WAV header"@,
            *self == HeaderError::WrongFormat ==> s@ == "expected 16 kHz mono 16-bit PCM WAV"@,
    {
        match self {
            HeaderError::Unsupported => "unsupported WAV header",
            HeaderError::WrongFormat => "expected 16 kHz mono 16-bit PCM WAV",
        }
    }
}

/// Checks a 44-byte header and returns the data length it declares.
pub fn validate_header(header: &[u8]) -> (r: Result<u64, HeaderError>)
    requires
        header@.len() == 44,
    ensures
        !header_riff_ok(header@) ==> r == Err::<u64, HeaderError>(HeaderError::Unsupported),
        header_riff_ok(header@) && !header_is_supported(header@) ==> r == Err::<u64, HeaderError>(
            HeaderError::WrongFormat,
        ),
        header_is_supported(header@) ==> r is Ok && r->Ok_0 == le_u32(
            header@[40],
            header@[41],
            header@[42],
            header@[43],
        ),
{
    if !bytes_at(header, 0, 82, 73, 70, 70) || !bytes_at(header, 8, 87, 65, 86, 69) || !bytes_at(
        header,
        12,
        102,
        109,
        116,
        32,
    ) {
        return Err(HeaderError::Unsupported);
    }
    let audio_format = header[20] as u32 + 256 * header[21] as u32;
    let channels = header[22] as u32 + 256 * header[23] as u32;
    let sample_rate = header[24] as u64 + 256 * header[25] as u64 + 65536 * header[26] as u64
        + 16777216 * header[27] as u64;
    let bits = header[34] as u32 + 256 * header[35] as u32;
    if audio_format != 1 || channels != 1 || sample_rate != 16_000 || bits != 16 || !bytes_at(
        header,
        36,
        100,
        97,
        116,
        97,
    ) {
        return Err(HeaderError::WrongFormat);
    }
    let len = header[40] as u64 + 256 * header[41] as u64 + 65536 * header[42] as u64 + 16777216
        * header[43] as u64;
    Ok(len)
}

/// Chunk ids a growing recording may carry after its audio data
/// (`LIST`, `JUNK`, `bext`, `fact`, `cue `, `smpl`, `iXML`, `ID3 `).
pub open spec fn known_trailing_chunk(id: Seq<u8>) -> bool {
    &&& id.len() == 4
    &&& {
        ||| bytes_are(id, 0, seq![76u8, 73, 83, 84])
        ||| bytes_are(id, 0, seq![74u8, 85, 78, 75])
        ||| bytes_are(id, 0, seq![98u8, 101, 120, 116])
        ||| bytes_are(id, 0, seq![102u8, 97, 99, 116])
        ||| bytes_are(id, 0, seq![99u8, 117, 101, 32])
        ||| bytes_are(id, 0, seq![115u8, 109, 112, 108])
        ||| bytes_are(id, 0, seq![105u8, 88, 77, 76])
        ||| bytes_are(id, 0, seq![73u8, 68, 51, 32])
    }
}

pub fn is_known_trailing_chunk(chunk_id: &[u8]) -> (r: bool)
    ensures
        r == known_trailing_chunk(chunk_id@),
{
    if chunk_id.len() != 4 {
        return false;
    }
    bytes_at(chunk_id, 0, 76, 73, 83, 84) || bytes_at(chunk_id, 0, 74, 85, 78, 75) || bytes_at(
        chunk_id,
        0,
        98,
        101,
        120,
        116,
    ) || bytes_at(chunk_id, 0, 102, 97, 99, 116) || bytes_at(chunk_id, 0, 99, 117, 101, 32)
        || bytes_at(chunk_id, 0, 115, 109, 112, 108) || bytes_at(chunk_id, 0, 105, 88, 77, 76)
        || bytes_at(chunk_id, 0, 73, 68, 51, 32)
}

/// `v`'s lowest `n` bytes, least significant first.
pub open spec fn le_bytes(v: nat, n: nat) -> Seq<u8>
    decreases n,
{
    if n == 0 {
        Seq::empty()
    } else {
        seq![(v % 256) as u8] + le_bytes(v / 256, (n - 1) as nat)
    }
}

fn push_le(out: &mut Vec<u8>, v: u64, n: usize)
    requires
        n <= 8,
    ensures
        final(out)@ == old(out)@ + le_bytes(v as nat, n as nat),
{
    let mut i = 0usize;
    let mut x = v;
    let ghost start = out@;
    while i < n
        invariant
            i <= n,
            out@ + le_bytes(x as nat, (n - i) as nat) == start + le_bytes(v as nat, n as nat),
        decreases n - i,
    {
        let ghost before = out@;
        let ghost rest = le_bytes((x / 256) as nat, (n - i - 1) as nat);
        assert(le_bytes(x as nat, (n - i) as nat) == seq![(x % 256) as u8] + rest);
        out.push((x % 256) as u8);
        assert(out@ + rest =~= before + (seq![(x % 256) as u8] + rest));
        x = x / 256;
        i = i + 1;
    }
    assert(out@ + le_bytes(x as nat, 0) =~= out@);
}

/// The canonical header of a 16 kHz mono 16-bit PCM WAV file whose audio
/// data is `data_len` bytes long.
pub open spec fn spec_wav_header(data_len: u32) -> Seq<u8> {
    seq![82u8, 73, 70, 70] + le_bytes((36 + data_len) as nat, 4) + seq![
        87u8,
        65,
        86,
        69,
        102,
        109,
        116,
        32,
    ] + le_bytes(16, 4) + le_bytes(1, 2) + le_bytes(1, 2) + le_bytes(16_000, 4) + le_bytes(
        32_000,
        4,
    ) + le_bytes(2, 2) + le_bytes(16, 2) + seq![100u8, 97, 116, 97] + le_bytes(data_len as nat, 4)
}

pub fn wav_header(data_len: u32) -> (h: Vec<u8>)
    requires
        data_len <= u32::MAX - 36,
    ensures
        h@ == spec_wav_header(data_len),
        h@.len() == 44,
{
    let mut h: Vec<u8> = Vec::new();
    h.push(82u8);
    h.push(73u8);
    h.push(70u8);
    h.push(70u8);
    assert(h@ =~= seq![82u8, 73, 70, 70]);
    push_le(&mut h, (36 + data_len) as u64, 4);
    let ghost a = h@;
    h.push(87u8);
    h.push(65u8);
    h.push(86u8);
    h.push(69u8);
    h.push(102u8);
    h.push(109u8);
    h.push(116u8);
    h.push(32u8);
    assert(h@ =~= a + seq![87u8, 65, 86, 69, 102, 109, 116, 32]);
    push_le(&mut h, 16, 4);
    push_le(&mut h, 1, 2);
    push_le(&mut h, 1, 2);
    push_le(&mut h, 16_000, 4);
    push_le(&mut h, 32_000, 4);
    push_le(&mut h, 2, 2);
    push_le(&mut h, 16, 2);
    let ghost b = h@;
    h.push(100u8);
    h.push(97u8);
    h.push(116u8);
    h.push(97u8);
    assert(h@ =~= b + seq![100u8, 97, 116, 97]);
    push_le(&mut h, data_len as u64, 4);
    proof {
        reveal_with_fuel(le_bytes, 5);
    }
    h
}

pub(crate) proof fn lemma_le4(v: nat)
    requires
        v < 0x1_0000_0000,
    ensures
        le_bytes(v, 4).len() == 4,
        le_u32(le_bytes(v, 4)[0], le_bytes(v, 4)[1], le_bytes(v, 4)[2], le_bytes(v, 4)[3]) == v,
{
    reveal_with_fuel(le_bytes, 5);
    let b = le_bytes(v, 4);
    assert(b[0] == (v % 256) as u8);
    assert(b[1] == ((v / 256) % 256) as u8);
    assert(b[2] == ((v / 256 / 256) % 256) as u8);
    assert(b[3] == ((v / 256 / 256 / 256) % 256) as u8);
    assert(v % 256 + 256 * ((v / 256) % 256) + 65536 * ((v / 256 / 256) % 256) + 16777216 * ((v
        / 256 / 256 / 256) % 256) == v) by (nonlinear_arith)
        requires
            v < 0x1_0000_0000,
    ;
}

/// A header written for `data_len` bytes of audio is accepted by
/// `validate_header`, which reads back the same length.
pub proof fn lemma_wav_header_round_trip(data_len: u32)
    requires
        data_len <= u32::MAX - 36,
    ensures
        header_is_supported(spec_wav_header(data_len)),
        le_u32(
            spec_wav_header(data_len)[40],
            spec_wav_header(data_len)[41],
            spec_wav_header(data_len)[42],
            spec_wav_header(data_len)[43],
        ) == data_len,
{
    reveal_with_fuel(le_bytes, 5);
    let h = spec_wav_header(data_len);
    lemma_le4(data_len as nat);
    let d = le_bytes(data_len as nat, 4);
    assert(h.len() == 44);
    assert(h[40] == d[0] && h[41] == d[1] && h[42] == d[2] && h[43] == d[3]);
    assert(bytes_are(h, 0, seq![82u8, 73, 70, 70]));
    assert(bytes_are(h, 8, seq![87u8, 65, 86, 69]));
    assert(bytes_are(h, 12, seq![102u8, 109, 116, 32]));
    assert(bytes_are(h, 36, seq![100u8, 97, 116, 97]));
    assert(le_u16(h[20], h[21]) == 1);
    assert(le_u16(h[22], h[23]) == 1);
    assert(le_u32(h[24], h[25], h[26], h[27]) == 16_000);
    assert(le_u16(h[34], h[35]) == 16);
}

// ---------------------------------------------------------------------------
// Audio data
// ---------------------------------------------------------------------------

/// The length of the audio data of a recording: the header's figure when it
/// is set, fits the file, and either fills it or is followed by a known
/// trailing chunk; else everything after the header (a recording still
/// being written).
pub open spec fn spec_audio_data_bytes(header_data_bytes: u64, file_data_bytes: u64, trailing_known: bool) -> u64 {
    if header_data_bytes == 0 || header_data_bytes > file_data_bytes {
        file_data_bytes
    } else if header_data_bytes < file_data_bytes && !trailing_known {
        file_data_bytes
    } else {
        header_data_bytes
    }
}

/// `trailing_known` is whether a known chunk follows the declared data; it
/// is read only when the file holds more than the header declares.
pub fn audio_data_bytes(header_data_bytes: u64, file_data_bytes: u64, trailing_known: bool) -> (r: u64)
    ensures
        r == spec_audio_data_bytes(header_data_bytes, file_data_bytes, trailing_known),
{
    if header_data_bytes == 0 || header_data_bytes > file_data_bytes {
        return file_data_bytes;
    }
    if header_data_bytes < file_data_bytes && !trailing_known {
        return file_data_bytes;
    }
    header_data_bytes
}

/// The 8-byte header of the chunk after the declared data names a known
/// chunk that, padded to even length, fits in the `remaining` bytes.
pub open spec fn spec_trailing_chunk_fits(chunk_header: Seq<u8>, remaining: u64) -> bool {
    let len = le_u32(chunk_header[4], chunk_header[5], chunk_header[6], chunk_header[7]);
    known_trailing_chunk(chunk_header.take(4)) && 8 + len + len % 2 <= remaining
}

pub fn trailing_chunk_fits(chunk_header: &[u8], remaining: u64) -> (b: bool)
    requires
        chunk_header@.len() == 8,
    ensures
        b == spec_trailing_chunk_fits(chunk_header@, remaining),
{
    let id = [chunk_header[0], chunk_header[1], chunk_header[2], chunk_header[3]];
    assert(id@ =~= chunk_header@.take(4));
    let len = chunk_header[4] as u64 + 256 * chunk_header[5] as u64 + 65536 * chunk_header[6] as u64
        + 16777216 * chunk_header[7] as u64;
    let padded = 8 + len + len % 2;
    is_known_trailing_chunk(&id) && padded <= remaining
}

/// The samples of a window of a recording with `total_bytes` bytes of
/// audio: both ends clamped to the audio there is, and the milliseconds
/// they fall on.
#[derive(Debug, Clone, Copy, PartialEq, Eq, Structural)]
pub struct SampleWindow {
    pub start_sample: u64,
    pub end_sample: u64,
    pub start_ms: u64,
    pub end_ms: u64,
}

pub open spec fn spec_sample_window(start_ms: u64, end_ms: u64, total_bytes: u64) -> SampleWindow {
    let available = total_bytes / 2;
    let s = if spec_ms_to_sample(start_ms) < available {
        spec_ms_to_sample(start_ms)
    } else {
        available
    };
    let e = if spec_ms_to_sample(end_ms) < available {
        spec_ms_to_sample(end_ms)
    } else {
        available
    };
    SampleWindow {
        start_sample: s,
        end_sample: e,
        start_ms: spec_sample_to_ms(s),
        end_ms: spec_sample_to_ms(e),
    }
}

pub fn sample_window(start_ms: u64, end_ms: u64, total_bytes: u64) -> (w: SampleWindow)
    ensures
        w == spec_sample_window(start_ms, end_ms, total_bytes),
{
    let available = total_bytes / 2;
    let s = ms_to_sample(start_ms);
    let s = if s < available {
        s
    } else {
        available
    };
    let e = ms_to_sample(end_ms);
    let e = if e < available {
        e
    } else {
        available
    };
    SampleWindow { start_sample: s, end_sample: e, start_ms: sample_to_ms(s), end_ms: sample_to_ms(e) }
}

/// A 16-bit little-endian two's-complement sample.
pub open spec fn le_i16(lo: u8, hi: u8) -> int {
    let v = lo as int + 256 * (hi as int);
    if v >= 32768 {
        v - 65536
    } else {
        v
    }
}

/// The samples stored in `bytes`, two bytes each; a trailing odd byte is
/// ignored.
pub open spec fn spec_decode(bytes: Seq<u8>) -> Seq<i16> {
    Seq::new(bytes.len() / 2, |i: int| le_i16(bytes[2 * i], bytes[2 * i + 1]) as i16)
}

pub fn decode_samples(bytes: &[u8]) -> (r: Vec<i16>)
    ensures
        r@ == spec_decode(bytes@),
{
    let len = bytes.len();
    let n = len / 2;
    let mut out: Vec<i16> = Vec::new();
    for i in 0..n
        invariant
            len == bytes@.len(),
            n == len / 2,
            out@.len() == i,
            forall|k: int| 0 <= k < i ==> out@[k] == le_i16(bytes@[2 * k], bytes@[2 * k + 1]) as i16,
    {
        let lo = bytes[2 * i];
        let hi = bytes[2 * i + 1];
        let v: i32 = lo as i32 + 256 * (hi as i32);
        let sample: i16 = if v >= 32768 {
            (v - 65536) as i16
        } else {
            v as i16
        };
        out.push(sample);
    }
    assert(out@ =~= spec_decode(bytes@));
    out
}

/// The two little-endian bytes of a sample.
pub open spec fn sample_lo(s: i16) -> u8 {
    ((if s < 0 {
        s + 65536
    } else {
        s as int
    }) % 256) as u8
}

pub open spec fn sample_hi(s: i16) -> u8 {
    ((if s < 0 {
        s + 65536
    } else {
        s as int
    }) / 256) as u8
}

pub open spec fn spec_encode(samples: Seq<i16>) -> Seq<u8> {
    Seq::new(
        2 * samples.len(),
        |j: int|
            if j % 2 == 0 {
                sample_lo(samples[j / 2])
            } else {
                sample_hi(samples[j / 2])
            },
    )
}

pub fn encode_samples(samples: &[i16]) -> (r: Vec<u8>)
    requires
        2 * samples@.len() <= usize::MAX,
    ensures
        r@ == spec_encode(samples@),
{
    let mut out: Vec<u8> = Vec::new();
    for i in 0..samples.len()
        invariant
            out@.len() == 2 * i,
            forall|j: int| 0 <= j < 2 * i ==> out@[j] == (if j % 2 == 0 {
                sample_lo(samples@[j / 2])
            } else {
                sample_hi(samples@[j / 2])
            }),
    {
        let s = samples[i];
        let v: u32 = if s < 0 {
            (s as i32 + 65536) as u32
        } else {
            s as u32
        };
        out.push((v % 256) as u8);
        out.push((v / 256) as u8);
    }
    assert(out@ =~= spec_encode(samples@));
    out
}

/// Samples written by `encode_samples` are read back unchanged by
/// `decode_samples`.
pub proof fn lemma_samples_round_trip(samples: Seq<i16>)
    ensures
        spec_decode(spec_encode(samples)) == samples,
{
    let b = spec_encode(samples);
    assert forall|i: int| 0 <= i < samples.len() implies #[trigger] spec_decode(b)[i] == samples[i] by {
        assert(b[2 * i] == sample_lo(samples[i]));
        assert(b[2 * i + 1] == sample_hi(samples[i]));
    }
    assert(spec_decode(b) =~= samples);
}

pub const TOO_LARGE_MESSAGE: &'static str = "WAV segment is too large";

/// The data length of a WAV file holding `n` samples, when it fits the
/// header's 32-bit field.
pub fn wav_data_len(n: usize) -> (r: Result<u32, String>)
    ensures
        2 * n <= u32::MAX ==> r is Ok && r->Ok_0 == 2 * n,
        2 * n > u32::MAX ==> r is Err && r->Err_0@ == TOO_LARGE_MESSAGE@,
{
    if n <= 2_147_483_647 {
        Ok((2 * n) as u32)
    } else {
        Err(TOO_LARGE_MESSAGE.to_owned())
    }
}

/// Where a chunk may follow the declared audio data: the bytes after it,
/// when the header declares a length that is set, shorter than the data in
/// the file, and leaves room for a chunk header of eight bytes.
pub fn trailing_chunk_room(header_data_bytes: u64, file_data_bytes: u64) -> (r: Option<u64>)
    ensures
        r == (if 0 < header_data_bytes < file_data_bytes && file_data_bytes - header_data_bytes
            >= 8 {
            Some((file_data_bytes - header_data_bytes) as u64)
        } else {
            None::<u64>
        }),
{
    if header_data_bytes > 0 && header_data_bytes < file_data_bytes {
        let remaining = file_data_bytes - header_data_bytes;
        if remaining >= 8 {
            return Some(remaining);
        }
    }
    None
}

/// A segment is sliced from `start_ms` to `end_ms`; an end before the
/// start is refused.
pub fn check_slice_range(start_ms: u64, end_ms: u64) -> (r: Result<(), String>)
    ensures
        end_ms >= start_ms <==> r is Ok,
        r matches Err(e) ==> e@ == "segment end "@ + decimal_digits(end_ms as nat)
            + "ms is before start "@ + decimal_digits(start_ms as nat) + "ms"@,
{
    if end_ms >= start_ms {
        return Ok(());
    }
    let mut m = chars_of("segment end ");
    append_chars(&mut m, decimal(end_ms).as_slice());
    append_str(&mut m, "ms is before start ");
    append_chars(&mut m, decimal(start_ms).as_slice());
    append_str(&mut m, "ms");
    Err(string_of(m.as_slice()))
}

} // verus!
