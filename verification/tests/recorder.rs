use pickscribe::config::SttConfig;
use pickscribe::recorder::recorder_args;

#[test]
fn pw_record_args_are_unchanged() {
    let cfg = SttConfig { recorder: "pw-record".into(), ..Default::default() };

    let args = recorder_args("pw-record", &cfg, "/tmp/rec.wav");

    assert_eq!(
        args,
        vec![
            "--media-category",
            "Capture",
            "--media-role",
            "Communication",
            "--rate",
            "16000",
            "--channels",
            "1",
            "--format",
            "s16",
            "/tmp/rec.wav",
        ]
    );
}

#[test]
fn pw_record_args_include_target_when_set() {
    let cfg = SttConfig {
        recorder: "pw-record".into(),
        audio_target: "alsa_input.usb-mic".into(),
        ..Default::default()
    };

    let args = recorder_args("pw-record", &cfg, "/tmp/rec.wav");

    assert!(args.contains(&"--target".to_string()));
    assert!(args.contains(&"alsa_input.usb-mic".to_string()));
    assert_eq!(args.last().unwrap(), "/tmp/rec.wav");
}

#[test]
fn ffmpeg_args_use_default_avfoundation_target_on_macos() {
    let cfg = SttConfig { recorder: "ffmpeg".into(), ..Default::default() };

    let args = recorder_args("ffmpeg", &cfg, "/tmp/rec.wav");

    assert_eq!(
        args,
        vec![
            "-nostdin",
            "-hide_banner",
            "-f",
            "avfoundation",
            "-i",
            ":default",
            "-ar",
            "16000",
            "-ac",
            "1",
            "-c:a",
            "pcm_s16le",
            "-y",
            "/tmp/rec.wav",
        ]
    );
}

#[test]
fn ffmpeg_args_use_explicit_audio_target() {
    let cfg = SttConfig { recorder: "ffmpeg".into(), audio_target: "2".into(), ..Default::default() };

    let args = recorder_args("ffmpeg", &cfg, "/tmp/rec.wav");

    assert!(args.contains(&":2".to_string()));
}

#[test]
fn ffmpeg_selection_is_driven_by_recorder_stem_not_os() {
    let cfg = SttConfig { recorder: "/opt/homebrew/bin/ffmpeg".into(), ..Default::default() };

    let args = recorder_args("/opt/homebrew/bin/ffmpeg", &cfg, "/tmp/rec.wav");

    assert!(args.contains(&"avfoundation".to_string()));
}

#[test]
fn recorder_with_extension_is_matched_by_stem() {
    let cfg = SttConfig::default();
    assert!(recorder_args("/usr/bin/ffmpeg.exe", &cfg, "/a.wav").contains(&"avfoundation".to_string()));
    assert_eq!(recorder_args("pw-record", &cfg, "/a.wav").len(), 11);
}
