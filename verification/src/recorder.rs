//! The command line of the audio recorder: pw-record by default, or ffmpeg
//! capturing from AVFoundation when the configured recorder is ffmpeg.
use vstd::prelude::*;
use crate::config::SttConfig;
use crate::paths::{file_stem_of, path_file_stem};
use crate::text::{append_str, chars_eq_str, chars_of, string_of};

verus! {

broadcast use vstd::string::group_string_axioms;

pub open spec fn string_views(v: Seq<String>) -> Seq<Seq<char>> {
    v.map_values(|s: String| s@)
}

/// The arguments for ffmpeg: capture the AVFoundation device (the
/// configured target, else the default one) as 16 kHz mono 16-bit WAV.
pub open spec fn ffmpeg_args(target: Seq<char>, audio_path: Seq<char>) -> Seq<Seq<char>> {
    seq![
        "-nostdin"@,
        "-hide_banner"@,
        "-f"@,
        "avfoundation"@,
        "-i"@,
        ":"@ + (if target.len() > 0 {
            target
        } else {
            "default"@
        }),
        "-ar"@,
        "16000"@,
        "-ac"@,
        "1"@,
        "-c:a"@,
        "pcm_s16le"@,
        "-y"@,
        audio_path,
    ]
}

/// The arguments for pw-record: a 16 kHz mono 16-bit capture stream, with
/// `--target` when a target node is configured.
pub open spec fn pw_record_args(target: Seq<char>, audio_path: Seq<char>) -> Seq<Seq<char>> {
    seq![
        "--media-category"@,
        "Capture"@,
        "--media-role"@,
        "Communication"@,
        "--rate"@,
        "16000"@,
        "--channels"@,
        "1"@,
        "--format"@,
        "s16"@,
    ] + (if target.len() > 0 {
        seq!["--target"@, target]
    } else {
        Seq::empty()
    }) + seq![audio_path]
}

/// The recorder's arguments, given the file stem of the recorder command.
pub fn recorder_args_for_stem(stem: &str, cfg: &SttConfig, audio_path: &str) -> (r: Vec<String>)
    ensures
        string_views(r@) == if stem@ == "ffmpeg"@ {
            ffmpeg_args(cfg.audio_target@, audio_path@)
        } else {
            pw_record_args(cfg.audio_target@, audio_path@)
        },
{
    let st = chars_of(stem);
    let has_target = !cfg.audio_target.as_str().is_empty();
    let mut args: Vec<String> = Vec::new();
    if chars_eq_str(st.as_slice(), "ffmpeg") {
        let mut input = chars_of(":");
        if has_target {
            append_str(&mut input, cfg.audio_target.as_str());
        } else {
            append_str(&mut input, "default");
        }
        args.push("-nostdin".to_owned());
        args.push("-hide_banner".to_owned());
        args.push("-f".to_owned());
        args.push("avfoundation".to_owned());
        args.push("-i".to_owned());
        args.push(string_of(input.as_slice()));
        args.push("-ar".to_owned());
        args.push("16000".to_owned());
        args.push("-ac".to_owned());
        args.push("1".to_owned());
        args.push("-c:a".to_owned());
        args.push("pcm_s16le".to_owned());
        args.push("-y".to_owned());
        args.push(audio_path.to_owned());
        assert(string_views(args@) =~= ffmpeg_args(cfg.audio_target@, audio_path@));
        return args;
    }
    args.push("--media-category".to_owned());
    args.push("Capture".to_owned());
    args.push("--media-role".to_owned());
    args.push("Communication".to_owned());
    args.push("--rate".to_owned());
    args.push("16000".to_owned());
    args.push("--channels".to_owned());
    args.push("1".to_owned());
    args.push("--format".to_owned());
    args.push("s16".to_owned());
    if has_target {
        args.push("--target".to_owned());
        args.push(cfg.audio_target.clone());
    }
    args.push(audio_path.to_owned());
    assert(string_views(args@) =~= pw_record_args(cfg.audio_target@, audio_path@));
    args
}

/// Build the recorder's argument vector for the given recorder command,
/// config, and output path. The ffmpeg shape is selected by the recorder
/// command's file stem alone.
pub fn recorder_args(recorder: &str, cfg: &SttConfig, audio_path: &str) -> (r: Vec<String>)
    ensures
        string_views(r@) == if (match path_file_stem(recorder@) {
            Some(s) => s,
            None => recorder@,
        }) == "ffmpeg"@ {
            ffmpeg_args(cfg.audio_target@, audio_path@)
        } else {
            pw_record_args(cfg.audio_target@, audio_path@)
        },
{
    match file_stem_of(recorder) {
        Some(stem) => recorder_args_for_stem(stem.as_str(), cfg, audio_path),
        None => recorder_args_for_stem(recorder, cfg, audio_path),
    }
}

} // verus!
