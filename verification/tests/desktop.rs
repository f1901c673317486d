use pickscribe::cleanup::CleanupOutcome;
use pickscribe::file_job::{file_job_entry, file_job_stage, FileStage};
use pickscribe::desktop::{
    accessibility_trusted, basename, export_file_name, float_rule_settings, float_rule_step,
    float_size_step, group_has_key, plan_export, portal_prefers_dark, registered_rules, tray_icon,
    ExportPlan, FloatRuleStep, SizeHintStep, TrayIcon, WindowSize, FLOAT_WINDOW_HEIGHT,
    FLOAT_WINDOW_WIDTH,
};
use pickscribe::file_job::validate_input_path;
use pickscribe::history::{count_words, HistoryEntry};
use pickscribe::lifecycle::Stage;
use pickscribe::sounds::Cue;
use pickscribe::transcript::{to_srt, FileSegment};

fn history_entry() -> HistoryEntry {
    HistoryEntry {
        id: 42,
        created_at: 0,
        duration_ms: 1_000,
        raw_text: "raw transcript".into(),
        cleaned_text: Some("clean transcript".into()),
        provider: "none".into(),
        model: String::new(),
        language: "en".into(),
        source_file: Some("/home/me/meeting.mp4".into()),
        segments_json: Some(r#"[{"start_ms":0,"end_ms":1000,"text":"First sentence."}]"#.into()),
        word_count: 2,
    }
}

#[test]
fn export_content_uses_cleaned_text_and_timestamped_segments() {
    let entry = history_entry();
    match plan_export(&entry, "txt").unwrap() {
        ExportPlan::Text(t) => assert_eq!(t, "clean transcript"),
        _ => panic!("expected text"),
    }
    match plan_export(&entry, "srt").unwrap() {
        ExportPlan::Srt(j) => assert!(j.contains("First sentence.")),
        _ => panic!("expected srt"),
    }
    // The stored JSON holds this one segment; rendered as SRT:
    let segments = vec![FileSegment { start_ms: 0, end_ms: 1000, text: "First sentence.".into() }];
    assert_eq!(to_srt(&segments), "1\n00:00:00,000 --> 00:00:01,000\nFirst sentence.\n");
    assert_eq!(export_file_name(&entry, "vtt"), "meeting.vtt");
}

#[test]
fn timestamped_exports_require_segments() {
    let mut entry = history_entry();
    entry.segments_json = None;
    entry.cleaned_text = Some("  ".into());
    assert_eq!(plan_export(&entry, "vtt").unwrap_err(), "no timestamped segments for this entry");
    assert_eq!(plan_export(&entry, "pdf").unwrap_err(), "unsupported export format: pdf");
    match plan_export(&entry, "txt").unwrap() {
        ExportPlan::Text(t) => assert_eq!(t, "raw transcript"),
        _ => panic!("expected text"),
    }
    assert_eq!(
        export_file_name(&HistoryEntry { source_file: None, ..entry.clone() }, "txt"),
        "transcript-42.txt"
    );
    assert_eq!(
        export_file_name(&HistoryEntry { source_file: None, id: -7, ..entry }, "srt"),
        "transcript--7.srt"
    );
}

#[test]
fn basenames_ignore_trailing_separators() {
    assert_eq!(basename("/Users/alice/Applications/PickScribe.app/Contents/MacOS/PickScribe"), "PickScribe");
    assert_eq!(basename("C:\\Users\\alice\\pickscribe.debug"), "pickscribe.debug");
    assert_eq!(basename("dir/name//"), "name");
    assert_eq!(basename("plain"), "plain");
    assert_eq!(basename("///"), "///");
}

#[test]
fn kwin_group_keys_are_found_only_in_their_group() {
    let contents = "[General]\nrules=a\npositionrule=1\n[pickscribe-float-keep-above]\nabove=true\n  positionrule=3\n";
    assert!(group_has_key(contents, "pickscribe-float-keep-above", "positionrule"));
    assert!(group_has_key(contents, "General", "rules"));
    assert!(!group_has_key(contents, "pickscribe-float-keep-above", "rules"));
    assert!(!group_has_key("", "General", "rules"));
}

#[test]
fn tray_icon_follows_stage_and_panel() {
    assert_eq!(tray_icon(Stage::Idle, true), TrayIcon::IdleDark);
    assert_eq!(tray_icon(Stage::Idle, false), TrayIcon::IdleLight);
    assert_eq!(tray_icon(Stage::Cleaning, true), TrayIcon::RecordingDark);
    assert_eq!(tray_icon(Stage::Recording, false), TrayIcon::RecordingLight);
    assert!(accessibility_trusted());
}

#[test]
fn media_files_are_checked_by_existence_and_extension() {
    assert_eq!(validate_input_path("/tmp/song.MP3", true), Ok(()));
    assert_eq!(validate_input_path("/tmp/clip.webm", true), Ok(()));
    assert_eq!(
        validate_input_path("/tmp/song.mp3", false).unwrap_err(),
        "media file not found: /tmp/song.mp3"
    );
    assert_eq!(validate_input_path("/tmp/README", true).unwrap_err(), "media file has no extension");
    assert_eq!(
        validate_input_path("/tmp/notes.TXT", true).unwrap_err(),
        "unsupported media file extension: .txt"
    );
}

#[test]
fn words_are_counted_by_whitespace() {
    assert_eq!(count_words(""), 0);
    assert_eq!(count_words("  one two\tthree\nfour  "), 4);
}

#[test]
fn each_cue_has_its_own_file() {
    assert_eq!(Cue::Start.file_name(), "start.wav");
    assert_eq!(Cue::Stop.file_name(), "stop.wav");
    assert_eq!(Cue::Error.file_name(), "error.wav");
}

#[test]
fn settled_float_window_needs_no_hint() {
    let step = float_size_step(10, 4, FLOAT_WINDOW_WIDTH, FLOAT_WINDOW_HEIGHT);
    assert_eq!(step, SizeHintStep { compensation_w: 10, compensation_h: 4, hint: None });
}

#[test]
fn shrunken_float_window_grows_its_hints() {
    assert_eq!(FLOAT_WINDOW_WIDTH, 252);
    assert_eq!(FLOAT_WINDOW_HEIGHT, 104);
    let step = float_size_step(0, 0, 200, 52);
    assert_eq!(step.compensation_w, 52);
    assert_eq!(step.compensation_h, 52);
    assert_eq!(step.hint, Some(WindowSize { width: 304, height: 156 }));
}

#[test]
fn float_window_compensation_stays_in_range() {
    let step = float_size_step(150, 0, 0, 500);
    assert_eq!(step.compensation_w, 200);
    assert_eq!(step.compensation_h, 0);
    assert_eq!(step.hint, Some(WindowSize { width: 452, height: 104 }));
}

#[test]
fn float_rule_is_wanted_only_on_kde_wayland() {
    let install = FloatRuleStep::Install { register: true };
    assert_eq!(float_rule_step(Some("wayland"), "KDE", ""), install);
    assert_eq!(float_rule_step(Some("wayland"), "plasma:kde", ""), install);
    assert_eq!(float_rule_step(Some("x11"), "KDE", ""), FloatRuleStep::Skip);
    assert_eq!(float_rule_step(None, "KDE", ""), FloatRuleStep::Skip);
    assert_eq!(float_rule_step(Some("wayland"), "GNOME", ""), FloatRuleStep::Skip);
}

#[test]
fn float_rule_installs_under_the_xwayland_fallback_too() {
    // With PICKSCRIBE_X11=1 GTK runs on XWayland, but the session is still
    // KDE Wayland and the rule is still needed.
    assert_eq!(float_rule_step(Some("wayland"), "KDE", ""), FloatRuleStep::Install { register: true });
}

#[test]
fn current_float_rule_is_not_rewritten() {
    let current = "[General]\nrules=pickscribe-float-keep-above\n\n[pickscribe-float-keep-above]\nabove=true\npositionrule=3\n";
    assert_eq!(float_rule_step(Some("wayland"), "KDE", current), FloatRuleStep::Skip);
    let older = "[General]\nrules=pickscribe-float-keep-above\n\n[pickscribe-float-keep-above]\nabove=true\n";
    assert_eq!(
        float_rule_step(Some("wayland"), "KDE", older),
        FloatRuleStep::Install { register: false }
    );
    let elsewhere = "[pickscribe-float-keep-above]\nabove=true\n[other]\npositionrule=3\n";
    assert_eq!(
        float_rule_step(Some("wayland"), "KDE", elsewhere),
        FloatRuleStep::Install { register: false }
    );
}

#[test]
fn float_rule_matches_the_capsule_and_forces_it_above() {
    let settings = float_rule_settings();
    assert_eq!(settings.len(), 17);
    assert_eq!(settings[1], ("wmclass".to_string(), "pickscribe".to_string()));
    assert_eq!(settings[3], ("title".to_string(), "PickScribe Float".to_string()));
    assert_eq!(settings[16], ("positionrule".to_string(), "3".to_string()));
}

#[test]
fn float_rule_group_is_appended_to_the_rules_list() {
    assert_eq!(registered_rules(""), "pickscribe-float-keep-above");
    assert_eq!(registered_rules("  \n"), "pickscribe-float-keep-above");
    assert_eq!(registered_rules("other-rule\n"), "other-rule,pickscribe-float-keep-above");
}

#[test]
fn panel_is_dark_unless_the_portal_says_light() {
    assert!(portal_prefers_dark(None));
    assert!(portal_prefers_dark(Some("(<<uint32 1>>,)\n")));
    assert!(portal_prefers_dark(Some("(<<uint32 0>>,)\n")));
    assert!(!portal_prefers_dark(Some("(<<uint32 2>>,)\n")));
}

fn outcome(text: &str, error: Option<&str>) -> CleanupOutcome {
    CleanupOutcome {
        text: text.into(),
        provider: "deepseek".into(),
        model: "deepseek-v4-flash".into(),
        cleaned: error.is_none(),
        error: error.map(str::to_string),
    }
}

#[test]
fn file_job_entry_keeps_cleaned_text_only_when_it_changed() {
    let plain = file_job_entry("hello", 1_500, None, "/home/me/a.mp3", "en", None).unwrap();
    assert_eq!(plain.entry.provider, "none");
    assert_eq!(plain.entry.cleaned_text, None);
    assert_eq!(plain.entry.source_file.as_deref(), Some("/home/me/a.mp3"));
    assert_eq!(plain.cleanup_error, None);

    let same = outcome("hello", Some("timeout"));
    let kept = file_job_entry("hello", 1_500, Some(&same), "a.mp3", "en", Some("[]".into())).unwrap();
    assert_eq!(kept.entry.cleaned_text, None);
    assert_eq!(kept.cleanup_error.as_deref(), Some("cleanup skipped: timeout"));
    assert_eq!(kept.entry.segments_json.as_deref(), Some("[]"));

    let changed = outcome("Hello.", None);
    let cleaned = file_job_entry("hello", 1_500, Some(&changed), "a.mp3", "en", None).unwrap();
    assert_eq!(cleaned.entry.cleaned_text.as_deref(), Some("Hello."));
    assert_eq!(cleaned.entry.model, "deepseek-v4-flash");

    assert_eq!(
        file_job_entry("", 0, None, "a.mp3", "en", None).unwrap_err(),
        "no speech detected in the file"
    );
}

#[test]
fn file_job_ends_done_cancelled_or_failed() {
    assert_eq!(file_job_stage(true, true), FileStage::Done);
    assert_eq!(file_job_stage(false, true), FileStage::Cancelled);
    assert_eq!(file_job_stage(false, false), FileStage::Error);
}
