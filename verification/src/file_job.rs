//! Transcription of a media file chosen in the desktop app: its visible
//! state, and which files are accepted.
use vstd::prelude::*;
use crate::paths::{extension_of, path_extension};
use crate::cleanup::CleanupOutcome;
use crate::history::NewEntry;
use crate::segments::opt_view;
use crate::text::{append_str, chars_eq, append_chars, ascii_lowercase, ascii_lowercase_seq, chars_eq_str, chars_of, string_of};

verus! {

broadcast use vstd::string::group_string_axioms;

#[derive(Debug, Clone, Copy, PartialEq, Eq, Structural)]
pub enum FileStage {
    Converting,
    Transcribing,
    Cleaning,
    Done,
    Error,
    Cancelled,
}

#[derive(Debug, Clone)]
pub struct FileJobState {
    pub stage: FileStage,
    pub progress: u8,
    pub source_file: String,
    pub error: Option<String>,
    pub entry_id: Option<i64>,
}

/// The extensions of the media files ffmpeg is asked to convert.
pub open spec fn media_extensions() -> Seq<Seq<char>> {
    seq![
        "wav"@, "mp3"@, "m4a"@, "aac"@, "ogg"@, "opus"@, "flac"@, "wma"@, "mp4"@, "mkv"@,
        "mov"@, "webm"@, "avi"@, "m4v"@,
    ]
}

pub fn is_media_extension(extension: &[char]) -> (b: bool)
    ensures
        b == media_extensions().contains(extension@),
{
    let r = chars_eq_str(extension, "wav") || chars_eq_str(extension, "mp3") || chars_eq_str(
        extension,
        "m4a",
    ) || chars_eq_str(extension, "aac") || chars_eq_str(extension, "ogg") || chars_eq_str(
        extension,
        "opus",
    ) || chars_eq_str(extension, "flac") || chars_eq_str(extension, "wma") || chars_eq_str(
        extension,
        "mp4",
    ) || chars_eq_str(extension, "mkv") || chars_eq_str(extension, "mov") || chars_eq_str(
        extension,
        "webm",
    ) || chars_eq_str(extension, "avi") || chars_eq_str(extension, "m4v");
    proof {
        let m = media_extensions();
        if r {
            if extension@ == "wav"@ { assert(m[0] == extension@); }
            if extension@ == "mp3"@ { assert(m[1] == extension@); }
            if extension@ == "m4a"@ { assert(m[2] == extension@); }
            if extension@ == "aac"@ { assert(m[3] == extension@); }
            if extension@ == "ogg"@ { assert(m[4] == extension@); }
            if extension@ == "opus"@ { assert(m[5] == extension@); }
            if extension@ == "flac"@ { assert(m[6] == extension@); }
            if extension@ == "wma"@ { assert(m[7] == extension@); }
            if extension@ == "mp4"@ { assert(m[8] == extension@); }
            if extension@ == "mkv"@ { assert(m[9] == extension@); }
            if extension@ == "mov"@ { assert(m[10] == extension@); }
            if extension@ == "webm"@ { assert(m[11] == extension@); }
            if extension@ == "avi"@ { assert(m[12] == extension@); }
            if extension@ == "m4v"@ { assert(m[13] == extension@); }
        } else {
            assert forall|i: int| 0 <= i < m.len() implies m[i] != extension@ by {}
        }
    }
    r
}

/// A file is accepted when it exists and its extension, lowercased, is a
/// media extension.
pub open spec fn spec_validate_input(path: Seq<char>, is_file: bool) -> Result<(), Seq<char>> {
    if !is_file {
        Err("media file not found: "@ + path)
    } else {
        match path_extension(path) {
            None => Err("media file has no extension"@),
            Some(e) => if media_extensions().contains(ascii_lowercase_seq(e)) {
                Ok(())
            } else {
                Err("unsupported media file extension: ."@ + ascii_lowercase_seq(e))
            },
        }
    }
}

/// Checks a chosen media file; `is_file` tells whether it exists as a
/// regular file.
pub fn validate_input_path(path: &str, is_file: bool) -> (r: Result<(), String>)
    ensures
        match r {
            Ok(()) => spec_validate_input(path@, is_file) is Ok,
            Err(e) => spec_validate_input(path@, is_file) == Err::<(), Seq<char>>(e@),
        },
{
    if !is_file {
        let mut m = chars_of("media file not found: ");
        let p = chars_of(path);
        append_chars(&mut m, p.as_slice());
        return Err(string_of(m.as_slice()));
    }
    let ext = match extension_of(path) {
        Some(e) => e,
        None => return Err("media file has no extension".to_owned()),
    };
    let ec = chars_of(ext.as_str());
    let lower = ascii_lowercase(ec.as_slice());
    if is_media_extension(lower.as_slice()) {
        Ok(())
    } else {
        let mut m = chars_of("unsupported media file extension: .");
        append_chars(&mut m, lower.as_slice());
        Err(string_of(m.as_slice()))
    }
}

// ---------------------------------------------------------------------------
// The history entry of a transcribed file
// ---------------------------------------------------------------------------

pub const NO_SPEECH_IN_FILE_MESSAGE: &'static str = "no speech detected in the file";

/// What a finished file job stores, and the cleanup problem it reports.
#[derive(Debug, Clone)]
pub struct FileJobEntry {
    pub entry: NewEntry,
    pub cleanup_error: Option<String>,
}

fn copy_opt_string(o: &Option<String>) -> (r: Option<String>)
    ensures
        opt_view(r) == opt_view(*o),
{
    match o {
        Some(s) => Some(s.clone()),
        None => None,
    }
}

/// The history entry for a file whose transcript is `raw_text`: refused
/// when the transcript is empty. Without cleanup the provider is `none`;
/// with it, the cleaned text is kept only when it differs from the
/// transcript, and a cleanup error is reported as skipped cleanup.
pub fn file_job_entry(
    raw_text: &str,
    duration_ms: i64,
    cleanup: Option<&CleanupOutcome>,
    source_file: &str,
    language: &str,
    segments_json: Option<String>,
) -> (r: Result<FileJobEntry, String>)
    ensures
        raw_text@.len() == 0 <==> r is Err,
        r is Err ==> r->Err_0@ == NO_SPEECH_IN_FILE_MESSAGE@,
        r matches Ok(j) ==> {
            &&& j.entry.duration_ms == duration_ms
            &&& j.entry.raw_text@ == raw_text@
            &&& j.entry.language@ == language@
            &&& opt_view(j.entry.source_file) == Some(source_file@)
            &&& opt_view(j.entry.segments_json) == opt_view(segments_json)
            &&& match cleanup {
                None => {
                    &&& j.entry.cleaned_text is None
                    &&& j.entry.provider@ == "none"@
                    &&& j.entry.model@ == Seq::<char>::empty()
                    &&& j.cleanup_error is None
                },
                Some(o) => {
                    &&& opt_view(j.entry.cleaned_text) == if o.text@ != raw_text@ {
                        Some(o.text@)
                    } else {
                        None
                    }
                    &&& j.entry.provider@ == o.provider@
                    &&& j.entry.model@ == o.model@
                    &&& opt_view(j.cleanup_error) == match o.error {
                        Some(e) => Some("cleanup skipped: "@ + e@),
                        None => None,
                    }
                },
            }
        },
{
    let raw_chars = chars_of(raw_text);
    if raw_chars.len() == 0 {
        return Err(NO_SPEECH_IN_FILE_MESSAGE.to_owned());
    }
    let (cleaned_text, provider, model, cleanup_error) = match cleanup {
        None => (None, "none".to_owned(), String::new(), None),
        Some(o) => {
            let tc = chars_of(o.text.as_str());
            let cleaned = if chars_eq(tc.as_slice(), raw_chars.as_slice()) {
                None
            } else {
                Some(o.text.clone())
            };
            let error = match &o.error {
                Some(e) => {
                    let mut m = chars_of("cleanup skipped: ");
                    append_str(&mut m, e.as_str());
                    Some(string_of(m.as_slice()))
                },
                None => None,
            };
            (cleaned, o.provider.clone(), o.model.clone(), error)
        },
    };
    Ok(
        FileJobEntry {
            entry: NewEntry {
                duration_ms,
                raw_text: raw_text.to_owned(),
                cleaned_text,
                provider,
                model,
                language: language.to_owned(),
                source_file: Some(source_file.to_owned()),
                segments_json,
            },
            cleanup_error,
        },
    )
}

/// The stage a file job ends in: done when it succeeded, else cancelled
/// when cancellation was asked for, else failed.
pub fn file_job_stage(ok: bool, cancelled: bool) -> (s: FileStage)
    ensures
        s == if ok {
            FileStage::Done
        } else if cancelled {
            FileStage::Cancelled
        } else {
            FileStage::Error
        },
{
    if ok {
        FileStage::Done
    } else if cancelled {
        FileStage::Cancelled
    } else {
        FileStage::Error
    }
}

} // verus!
