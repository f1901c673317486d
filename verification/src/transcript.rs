//! Timed transcript segments of a file transcription and their export as
//! plain text, SubRip (SRT) and WebVTT.
use vstd::prelude::*;
use crate::text::{
    append_chars, append_str, chars_of, decimal, decimal_digits, join, padded_decimal, string_of,
    trim, trimmed, zero_pad,
};

verus! {

broadcast use vstd::string::group_string_axioms;

#[derive(Clone, Debug)]
pub struct FileSegment {
    pub start_ms: i64,
    pub end_ms: i64,
    pub text: String,
}

pub struct FileSegmentView {
    pub start_ms: i64,
    pub end_ms: i64,
    pub text: Seq<char>,
}

impl View for FileSegment {
    type V = FileSegmentView;

    open spec fn view(&self) -> FileSegmentView {
        FileSegmentView { start_ms: self.start_ms, end_ms: self.end_ms, text: self.text@ }
    }
}

pub open spec fn file_views(s: Seq<FileSegment>) -> Seq<FileSegmentView> {
    s.map_values(|x: FileSegment| x@)
}

/// A bracketed or parenthesized annotation such as `[MUSIC]` or `(laughs)`.
pub open spec fn is_marker(t: Seq<char>) -> bool {
    t.len() > 0 && ((t[0] == '[' && t.last() == ']') || (t[0] == '(' && t.last() == ')'))
}

pub fn non_speech_marker(t: &[char]) -> (b: bool)
    ensures
        b == is_marker(t@),
{
    let n = t.len();
    n > 0 && ((t[0] == '[' && t[n - 1] == ']') || (t[0] == '(' && t[n - 1] == ')'))
}

/// A transcribed segment as it is kept: its text trimmed, and dropped when
/// it is empty or a non-speech marker.
pub open spec fn spec_speech_segment(x: FileSegmentView) -> Option<FileSegmentView> {
    let t = trimmed(x.text);
    if t.len() == 0 || is_marker(t) {
        None
    } else {
        Some(FileSegmentView { start_ms: x.start_ms, end_ms: x.end_ms, text: t })
    }
}

pub open spec fn spec_speech_segments(s: Seq<FileSegmentView>) -> Seq<FileSegmentView>
    decreases s.len(),
{
    if s.len() == 0 {
        Seq::empty()
    } else {
        let rest = spec_speech_segments(s.drop_last());
        match spec_speech_segment(s.last()) {
            Some(x) => rest.push(x),
            None => rest,
        }
    }
}

/// The segments whisper reported, trimmed, without empty ones and
/// non-speech markers.
pub fn speech_segments(raw: &[FileSegment]) -> (r: Vec<FileSegment>)
    ensures
        file_views(r@) == spec_speech_segments(file_views(raw@)),
{
    let mut out: Vec<FileSegment> = Vec::new();
    for i in 0..raw.len()
        invariant
            file_views(out@) == spec_speech_segments(file_views(raw@).take(i as int)),
    {
        let ghost before = file_views(out@);
        assert(file_views(raw@).take(i + 1).drop_last() =~= file_views(raw@).take(i as int));
        assert(file_views(raw@).take(i + 1).last() == raw@[i as int]@);
        let cs = chars_of(raw[i].text.as_str());
        let t = trim(cs.as_slice());
        if !(t.len() == 0 || non_speech_marker(t.as_slice())) {
            let seg = FileSegment {
                start_ms: raw[i].start_ms,
                end_ms: raw[i].end_ms,
                text: string_of(t.as_slice()),
            };
            let ghost sv = seg@;
            out.push(seg);
            assert(file_views(out@) =~= before.push(sv));
        }
    }
    assert(file_views(raw@).take(raw@.len() as int) =~= file_views(raw@));
    out
}

// ---------------------------------------------------------------------------
// Plain text
// ---------------------------------------------------------------------------

pub open spec fn txt_parts(s: Seq<FileSegmentView>) -> Seq<Seq<char>>
    decreases s.len(),
{
    if s.len() == 0 {
        Seq::empty()
    } else {
        let rest = txt_parts(s.drop_last());
        let t = trimmed(s.last().text);
        if t.len() > 0 {
            rest.push(t)
        } else {
            rest
        }
    }
}

/// The segments' trimmed, non-empty texts joined by single spaces.
pub fn to_txt(segments: &[FileSegment]) -> (r: String)
    ensures
        r@ == join(txt_parts(file_views(segments@)), " "@),
{
    let mut out: Vec<char> = Vec::new();
    let mut count: usize = 0;
    let ghost parts: Seq<Seq<char>> = Seq::empty();
    for i in 0..segments.len()
        invariant
            parts == txt_parts(file_views(segments@).take(i as int)),
            out@ == join(parts, " "@),
            count == parts.len(),
            count <= i,
    {
        assert(file_views(segments@).take(i + 1).drop_last() =~= file_views(segments@).take(
            i as int,
        ));
        assert(file_views(segments@).take(i + 1).last() == segments@[i as int]@);
        let cs = chars_of(segments[i].text.as_str());
        let t = trim(cs.as_slice());
        if t.len() > 0 {
            proof {
                let np = parts.push(t@);
                assert(np.drop_last() =~= parts);
            }
            if count > 0 {
                append_str(&mut out, " ");
            }
            append_chars(&mut out, t.as_slice());
            proof {
                parts = parts.push(t@);
            }
            count = count + 1;
        }
    }
    assert(file_views(segments@).take(segments@.len() as int) =~= file_views(segments@));
    string_of(out.as_slice())
}

// ---------------------------------------------------------------------------
// Timestamps and cues
// ---------------------------------------------------------------------------

/// `HH:MM:SS<sep>mmm` for a non-negative time, negative times shown as zero;
/// the hours grow past two digits when needed.
pub open spec fn spec_format_timestamp(ms: i64, separator: char) -> Seq<char> {
    let m: nat = if ms < 0 {
        0
    } else {
        ms as nat
    };
    zero_pad(decimal_digits(m / 3_600_000), 2) + ":"@ + zero_pad(
        decimal_digits((m % 3_600_000) / 60_000),
        2,
    ) + ":"@ + zero_pad(decimal_digits((m % 60_000) / 1_000), 2) + seq![separator] + zero_pad(
        decimal_digits(m % 1_000),
        3,
    )
}

pub fn format_timestamp(ms: i64, separator: char) -> (r: String)
    ensures
        r@ == spec_format_timestamp(ms, separator),
{
    let m: u64 = if ms < 0 {
        0
    } else {
        ms as u64
    };
    let mut out = padded_decimal(m / 3_600_000, 2);
    append_str(&mut out, ":");
    let minutes = padded_decimal((m % 3_600_000) / 60_000, 2);
    append_chars(&mut out, minutes.as_slice());
    append_str(&mut out, ":");
    let seconds = padded_decimal((m % 60_000) / 1_000, 2);
    append_chars(&mut out, seconds.as_slice());
    out.push(separator);
    let millis = padded_decimal(m % 1_000, 3);
    append_chars(&mut out, millis.as_slice());
    string_of(out.as_slice())
}

pub open spec fn srt_cue(index: nat, x: FileSegmentView) -> Seq<char> {
    decimal_digits(index + 1) + "\n"@ + spec_format_timestamp(x.start_ms, ',') + " --> "@
        + spec_format_timestamp(x.end_ms, ',') + "\n"@ + x.text
}

pub open spec fn vtt_cue(x: FileSegmentView) -> Seq<char> {
    spec_format_timestamp(x.start_ms, '.') + " --> "@ + spec_format_timestamp(x.end_ms, '.')
        + "\n"@ + x.text
}

pub open spec fn cue_of(numbered: bool, index: nat, x: FileSegmentView) -> Seq<char> {
    if numbered {
        srt_cue(index, x)
    } else {
        vtt_cue(x)
    }
}

pub open spec fn cue_list(s: Seq<FileSegmentView>, numbered: bool) -> Seq<Seq<char>> {
    Seq::new(s.len(), |i: int| cue_of(numbered, i as nat, s[i]))
}

pub open spec fn srt_cues(s: Seq<FileSegmentView>) -> Seq<Seq<char>> {
    cue_list(s, true)
}

pub open spec fn vtt_cues(s: Seq<FileSegmentView>) -> Seq<Seq<char>> {
    cue_list(s, false)
}

/// SubRip: numbered cues separated by blank lines, ending in a newline;
/// nothing at all for no segments.
pub open spec fn spec_to_srt(s: Seq<FileSegmentView>) -> Seq<char> {
    if s.len() == 0 {
        Seq::empty()
    } else {
        join(srt_cues(s), "\n\n"@) + "\n"@
    }
}

/// WebVTT: the header, then the cues separated by blank lines and ending in
/// a newline.
pub open spec fn spec_to_vtt(s: Seq<FileSegmentView>) -> Seq<char> {
    let cues = join(vtt_cues(s), "\n\n"@);
    if cues.len() == 0 {
        "WEBVTT\n\n"@
    } else {
        "WEBVTT\n\n"@ + cues + "\n"@
    }
}

fn append_cue_times(out: &mut Vec<char>, x: &FileSegment, separator: char)
    ensures
        final(out)@ == old(out)@ + spec_format_timestamp(x.start_ms, separator) + " --> "@
            + spec_format_timestamp(x.end_ms, separator) + "\n"@ + x.text@,
{
    let start = format_timestamp(x.start_ms, separator);
    append_str(out, start.as_str());
    append_str(out, " --> ");
    let end = format_timestamp(x.end_ms, separator);
    append_str(out, end.as_str());
    append_str(out, "\n");
    append_str(out, x.text.as_str());
}

fn cue(index: u64, x: &FileSegment, numbered: bool) -> (r: Vec<char>)
    requires
        index < u64::MAX,
    ensures
        r@ == cue_of(numbered, index as nat, x@),
{
    let mut out: Vec<char> = Vec::new();
    if numbered {
        out = decimal(index + 1);
        append_str(&mut out, "\n");
        append_cue_times(&mut out, x, ',');
    } else {
        append_cue_times(&mut out, x, '.');
    }
    out
}

fn joined_cues(segments: &[FileSegment], numbered: bool) -> (r: Vec<char>)
    requires
        segments@.len() < u64::MAX,
    ensures
        r@ == join(cue_list(file_views(segments@), numbered), "\n\n"@),
{
    let mut out: Vec<char> = Vec::new();
    let ghost cues = cue_list(file_views(segments@), numbered);
    let n = segments.len();
    for i in 0..n
        invariant
            n == segments@.len() < u64::MAX,
            cues == cue_list(file_views(segments@), numbered),
            out@ == join(cues.take(i as int), "\n\n"@),
    {
        let ghost prev = out@;
        let c = cue(i as u64, &segments[i], numbered);
        assert(cues[i as int] == c@);
        assert(cues.take(i + 1).drop_last() =~= cues.take(i as int));
        assert(cues.take(i + 1).last() == cues[i as int]);
        if i > 0 {
            append_str(&mut out, "\n\n");
        } else {
            assert(cues.take(1).len() == 1);
        }
        append_chars(&mut out, c.as_slice());
    }
    assert(cues.take(n as int) =~= cues);
    out
}

pub fn to_srt(segments: &[FileSegment]) -> (r: String)
    requires
        segments@.len() < u64::MAX,
    ensures
        r@ == spec_to_srt(file_views(segments@)),
{
    if segments.len() == 0 {
        return String::new();
    }
    let mut out = joined_cues(segments, true);
    append_str(&mut out, "\n");
    string_of(out.as_slice())
}

pub fn to_vtt(segments: &[FileSegment]) -> (r: String)
    requires
        segments@.len() < u64::MAX,
    ensures
        r@ == spec_to_vtt(file_views(segments@)),
{
    let cues = joined_cues(segments, false);
    let mut out = chars_of("WEBVTT\n\n");
    if cues.len() == 0 {
        return string_of(out.as_slice());
    }
    append_chars(&mut out, cues.as_slice());
    append_str(&mut out, "\n");
    string_of(out.as_slice())
}

} // verus!
