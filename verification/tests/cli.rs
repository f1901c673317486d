use pickscribe::cleanup_cli::{
    cleanup_policy, delivery_config, CleanupArgs, DeepseekThinking, PasteMethod, Provider,
};
use pickscribe::cleanup::{plan_cleanup, resolve_policy, CleanupKind, FailurePolicy, OllamaEnv};
use pickscribe::cli::{
    accepted_segment_cleanup, cleanup_transcript, env_flag_value, escape_env_double_quoted,
    final_cleanup_args, final_incremental_text, incremental_poll,
    incremental_segment_cleanup_enabled, parse_ls_remote_head, parse_process_start_ticks,
    segment_cleanup_args, shell_escape, whisper_update_available, worker_args, ForwardedOptions,
    IncrementalWorkerOutput, WorkerPoll,
};
use pickscribe::config::{EnvMap, DEFAULT_TEMPERATURE_BITS};
use pickscribe::desktop::parse_chord_arg;
use pickscribe::paste::{DeliveryMethod, PasteChord, TypeBackend};
use pickscribe::segments::{RecordingSession, TranscriptSegment};

#[test]
fn cleanup_transcript_strips_whisper_timestamps_and_markers() {
    let transcript = "
            [00:00:00.000 --> 00:00:01.000] hello there
            [BLANK_AUDIO]
            [00:00:01.000 --> 00:00:02.000] general kenobi
            (music)
        ";

    assert_eq!(cleanup_transcript(transcript), "hello there general kenobi");
}

#[test]
fn cleanup_transcript_trims_and_joins_plain_lines() {
    let transcript = " first line\n\nsecond line \n[inaudible]\n";

    assert_eq!(cleanup_transcript(transcript), "first line second line");
}

#[test]
fn process_start_ticks_parser_handles_spaced_command_names() {
    let fields = (3..=52)
        .map(|field| if field == 22 { "98765".to_owned() } else { "0".to_owned() })
        .collect::<Vec<_>>()
        .join(" ");
    let stat = format!("123 (pickscribe worker) {fields}");

    assert_eq!(parse_process_start_ticks(&stat), Some(98_765));
}

#[test]
fn process_start_ticks_needs_enough_fields() {
    assert_eq!(parse_process_start_ticks("123 (x) 1 2 3"), None);
    assert_eq!(parse_process_start_ticks("no parenthesis"), None);
}

#[test]
fn final_incremental_text_requires_complete_current_nonfallback_output() {
    let mut session = RecordingSession::new("session-1");
    session.upsert_segment(TranscriptSegment::raw_ready(1, 0, 5_000, "hello world"));
    session.upsert_segment(TranscriptSegment::raw_ready(2, 4_000, 9_000, "world again"));
    let output = IncrementalWorkerOutput {
        session: session.clone(),
        complete: true,
        fallback_required: false,
        error: None,
        updated_unix_secs: 1,
    };

    assert_eq!(final_incremental_text("session-1", &output).as_deref(), Some("hello world again"));

    let mut incomplete = output.clone();
    incomplete.complete = false;
    assert!(final_incremental_text("session-1", &incomplete).is_none());

    let mut fallback = output.clone();
    fallback.fallback_required = true;
    assert!(final_incremental_text("session-1", &fallback).is_none());

    let stale = IncrementalWorkerOutput { session: RecordingSession::new("session-2"), ..output };
    assert!(final_incremental_text("session-1", &stale).is_none());
}

fn args(values: &[&str]) -> Vec<String> {
    values.iter().map(|value| (*value).to_string()).collect()
}

#[test]
fn parse_chord_arg_accepts_supported_paste_chords() {
    assert_eq!(
        parse_chord_arg(&args(&["pickscribe-app", "--paste-chord=ctrl-v"])).as_deref(),
        Some("ctrl-v")
    );
    assert_eq!(
        parse_chord_arg(&args(&["pickscribe-app", "--paste-chord=ctrl-shift-v"])).as_deref(),
        Some("ctrl-shift-v")
    );
}

#[test]
fn parse_chord_arg_rejects_missing_or_unsupported_chords() {
    assert_eq!(parse_chord_arg(&args(&["pickscribe-app", "--toggle"])), None);
    assert_eq!(parse_chord_arg(&args(&["pickscribe-app", "--paste-chord=ctrl-alt-v"])), None);
}

#[test]
fn quoting_for_shells_and_env_files() {
    assert_eq!(shell_escape(""), "''");
    assert_eq!(shell_escape("plain"), "'plain'");
    assert_eq!(shell_escape("it's"), "'it'\\''s'");
    assert_eq!(escape_env_double_quoted("a\"b\\c"), "a\\\"b\\\\c");
    assert_eq!(parse_ls_remote_head("abc123\tHEAD\n").as_deref(), Some("abc123"));
    assert_eq!(parse_ls_remote_head("   "), None);
}

#[test]
fn env_flags_and_segment_cleanup_opt_in() {
    assert!(env_flag_value(Some(" TRUE ")));
    assert!(env_flag_value(Some("1")));
    assert!(env_flag_value(Some("On")));
    assert!(!env_flag_value(Some("no")));
    assert!(!env_flag_value(None));
    assert!(!incremental_segment_cleanup_enabled(false, false, false, false, false));
    assert!(!incremental_segment_cleanup_enabled(false, false, false, true, false));
    assert!(incremental_segment_cleanup_enabled(false, true, false, true, false));
    assert!(incremental_segment_cleanup_enabled(false, false, true, false, true));
    assert!(!incremental_segment_cleanup_enabled(true, true, false, true, false));
}

fn cleanup_args() -> CleanupArgs {
    CleanupArgs {
        provider: Provider::Auto,
        model: None,
        deepseek_thinking: DeepseekThinking::Disabled,
        endpoint: None,
        api_key: None,
        timeout_secs: 30,
        temperature_bits: DEFAULT_TEMPERATURE_BITS,
        no_llm: false,
        no_copy: false,
        no_paste: false,
        paste_method: PasteMethod::Auto,
        paste_chord: PasteChord::CtrlV,
        paste_delay_ms: 150,
        stdout_only: false,
        type_backend: TypeBackend::Auto,
        instructions: None,
        local_only: false,
    }
}

#[test]
fn stdout_only_disables_copy_and_insertion() {
    let args = CleanupArgs { stdout_only: true, ..cleanup_args() };
    let config = delivery_config(&args);
    assert_eq!(config.method, DeliveryMethod::Off);
    assert!(!config.copy_to_clipboard);
}

#[test]
fn no_copy_keeps_explicit_hotkey_for_shared_clipboard_policy() {
    let args = CleanupArgs { no_copy: true, paste_method: PasteMethod::Hotkey, ..cleanup_args() };
    let config = delivery_config(&args);
    assert_eq!(config.method, DeliveryMethod::Hotkey);
    assert!(!config.copy_to_clipboard);
}

#[test]
fn no_paste_still_allows_default_clipboard_copy() {
    let args = CleanupArgs { no_paste: true, ..cleanup_args() };
    let config = delivery_config(&args);
    assert_eq!(config.method, DeliveryMethod::Off);
    assert!(config.copy_to_clipboard);
}

#[test]
fn delivery_flags_map_chord_delay_and_custom_backend() {
    let args = CleanupArgs {
        paste_method: PasteMethod::Type,
        paste_chord: PasteChord::CtrlShiftV,
        paste_delay_ms: 275,
        type_backend: TypeBackend::Xdotool,
        ..cleanup_args()
    };
    let config = delivery_config(&args);
    assert_eq!(config.method, DeliveryMethod::Type);
    assert_eq!(config.chord, PasteChord::CtrlShiftV);
    assert_eq!(config.delay_ms, 275);
    assert_eq!(config.type_backend, TypeBackend::Xdotool);
}

#[test]
fn local_only_auto_provider_prefers_ollama_even_with_remote_key() {
    let args = CleanupArgs {
        local_only: true,
        api_key: Some("remote-key".into()),
        ..cleanup_args()
    };
    let policy = cleanup_policy(&args, &EnvMap::new());
    let resolved = resolve_policy(&policy, &OllamaEnv::default()).unwrap();
    assert_eq!(resolved.provider, "ollama");
}

#[test]
fn cleanup_policy_prefers_explicit_key_then_environment() {
    let mut env = EnvMap::new();
    env.insert("OPENAI_API_KEY".into(), "env-openai".into());
    env.insert("DEEPSEEK_API_KEY".into(), String::new());
    let policy = cleanup_policy(&CleanupArgs { provider: Provider::Openai, ..cleanup_args() }, &env);
    assert_eq!(policy.provider, "openai");
    assert_eq!(policy.credentials.openai.as_deref(), Some("env-openai"));
    assert_eq!(policy.credentials.deepseek, None);
    assert_eq!(policy.credentials.custom, None);
    assert_eq!(policy.thinking, "disabled");
    let explicit = cleanup_policy(
        &CleanupArgs { api_key: Some("k".into()), no_llm: true, ..cleanup_args() },
        &env,
    );
    assert_eq!(explicit.provider, "none");
    assert_eq!(explicit.credentials.openai.as_deref(), Some("k"));
    assert_eq!(explicit.credentials.custom.as_deref(), Some("k"));
    assert_eq!(Provider::Off.as_str(), "none");
    assert_eq!(DeepseekThinking::Enabled.as_str(), "enabled");
}

#[test]
fn worker_gets_chosen_model_and_switches() {
    let options = ForwardedOptions {
        whisper_model: Some("/models/ggml-base.bin".to_string()),
        language: Some("de".to_string()),
        no_llm: true,
        no_paste: true,
        keep_audio: true,
        ..ForwardedOptions::default()
    };
    assert_eq!(
        worker_args(&options),
        vec![
            "--whisper-model",
            "/models/ggml-base.bin",
            "--language",
            "de",
            "--no-llm",
            "--no-paste",
            "--keep-audio"
        ]
    );
}

#[test]
fn worker_without_options_gets_no_arguments() {
    assert!(worker_args(&ForwardedOptions::default()).is_empty());
}

#[test]
fn stdout_only_cleanup_ignores_delivery_switches() {
    let options = ForwardedOptions {
        stdout_only: true,
        no_copy: true,
        print: true,
        no_llm: true,
        ..ForwardedOptions::default()
    };
    assert_eq!(final_cleanup_args(&options), vec!["--stdout-only", "--no-llm"]);
}

#[test]
fn cleanup_is_told_which_deliveries_to_skip() {
    let options = ForwardedOptions {
        no_copy: true,
        no_paste: true,
        print: true,
        ..ForwardedOptions::default()
    };
    assert_eq!(final_cleanup_args(&options), vec!["--no-copy", "--no-paste", "--print"]);
}

#[test]
fn local_only_blocks_remote_cleanup_endpoint() {
    let args = CleanupArgs {
        local_only: true,
        provider: Provider::Openai,
        api_key: Some("test-key".into()),
        ..cleanup_args()
    };
    let err = plan_cleanup(
        &cleanup_policy(&args, &EnvMap::new()),
        &OllamaEnv::default(),
        "hello",
        CleanupKind::Full,
        FailurePolicy::Strict,
    )
    .unwrap_err();
    assert!(err.contains("local-only mode blocks remote endpoint"));
}

#[test]
fn local_only_blocks_ollama_cloud_models() {
    let args = CleanupArgs {
        local_only: true,
        provider: Provider::Ollama,
        model: Some("deepseek-r1:cloud".into()),
        ..cleanup_args()
    };
    let err = plan_cleanup(
        &cleanup_policy(&args, &EnvMap::new()),
        &OllamaEnv::default(),
        "hello",
        CleanupKind::Full,
        FailurePolicy::Strict,
    )
    .unwrap_err();
    assert!(err.contains(":cloud"));
}

#[test]
fn incremental_segment_cleanup_requires_opt_in_and_llm_cleanup() {
    // (no_llm, stdout_only, no_paste, incremental_cleanup, environment flag)
    assert!(!incremental_segment_cleanup_enabled(false, false, false, false, false));
    assert!(!incremental_segment_cleanup_enabled(false, false, false, true, false));
    assert!(incremental_segment_cleanup_enabled(false, true, false, true, false));
    assert!(incremental_segment_cleanup_enabled(false, false, true, true, false));
    assert!(!incremental_segment_cleanup_enabled(true, true, false, true, false));
}

#[test]
fn cleanup_segment_text_blocks_custom_commands_in_local_only_mode() {
    let err = segment_cleanup_args(true, "/bin/true", true, false).unwrap_err();
    assert!(err.contains("local-only mode blocks custom CLI segment cleanup commands"));
}

#[test]
fn bundled_segment_cleanup_is_asked_for_a_segment() {
    assert_eq!(
        segment_cleanup_args(false, "/usr/bin/pickscribe-cleanup", true, true).unwrap(),
        vec!["--stdout-only", "--segment", "--local-only", "--no-llm"]
    );
    assert_eq!(
        segment_cleanup_args(true, "/opt/pickscribe-cleanup", false, false).unwrap(),
        vec!["--stdout-only"]
    );
    assert_eq!(
        segment_cleanup_args(false, "/usr/bin/voice-cleanup", false, false).unwrap(),
        vec!["--stdout-only"]
    );
}

#[test]
fn segment_cleanup_output_is_taken_only_when_it_changes_safely() {
    assert_eq!(accepted_segment_cleanup("hello segment", "  \n"), None);
    assert_eq!(accepted_segment_cleanup("hello segment", " hello segment \n"), None);
    assert_eq!(
        accepted_segment_cleanup("hello segment", "Hello segment.\n").as_deref(),
        Some("Hello segment.")
    );
}

fn worker_output() -> IncrementalWorkerOutput {
    let mut session = RecordingSession::new("session-1");
    session.upsert_segment(TranscriptSegment::raw_ready(1, 0, 5_000, "hello world"));
    IncrementalWorkerOutput {
        session,
        complete: true,
        fallback_required: false,
        error: None,
        updated_unix_secs: 1,
    }
}

#[test]
fn waiting_for_the_worker_ends_with_its_text_or_gives_up() {
    let output = worker_output();
    assert_eq!(
        incremental_poll("session-1", Some(&output), false, false),
        WorkerPoll::Done("hello world".to_string())
    );
    assert_eq!(incremental_poll("session-1", Some(&output), true, false), WorkerPoll::GiveUp);
    assert_eq!(incremental_poll("session-1", None, false, false), WorkerPoll::KeepWaiting);
    assert_eq!(incremental_poll("session-1", None, false, true), WorkerPoll::GiveUp);

    let mut unfinished = worker_output();
    unfinished.complete = false;
    assert_eq!(incremental_poll("session-1", Some(&unfinished), false, false), WorkerPoll::KeepWaiting);
    let mut failed = unfinished.clone();
    failed.error = Some("stt crashed".into());
    assert_eq!(incremental_poll("session-1", Some(&failed), false, false), WorkerPoll::GiveUp);
    let mut fallback = worker_output();
    fallback.fallback_required = true;
    assert_eq!(incremental_poll("session-1", Some(&fallback), false, false), WorkerPoll::GiveUp);
    assert_eq!(incremental_poll("session-2", Some(&output), false, false), WorkerPoll::KeepWaiting);
}

#[test]
fn whisper_update_is_due_when_something_is_missing_or_behind() {
    let head = Some("abc".to_string());
    let other = Some("def".to_string());
    assert!(!whisper_update_available(true, true, true, &head, &head));
    assert!(whisper_update_available(true, true, true, &head, &other));
    assert!(!whisper_update_available(true, true, true, &None, &other));
    assert!(whisper_update_available(false, true, true, &None, &other));
    assert!(whisper_update_available(true, false, true, &head, &head));
    assert!(whisper_update_available(true, true, false, &head, &head));
}
