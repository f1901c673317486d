use pickscribe::cleanup::CleanupPolicy;
use pickscribe::config::{parse_env_file, AppConfig, EnvMap, DEFAULT_INSTRUCTIONS};

#[test]
fn read_env_file_parses_supported_shell_assignments() {
    let env_file = parse_env_file(
        r#"
            # ignored
            export DEEPSEEK_API_KEY="deepseek file"
            OPENAI_API_KEY='openai file'
            PICKSCRIBE_API_KEY= fallback
            BAD-KEY=no
            MISSING
            EMPTY_KEY=
        "#,
    );

    assert_eq!(env_file.get("DEEPSEEK_API_KEY").as_deref(), Some("deepseek file"));
    assert_eq!(env_file.get("OPENAI_API_KEY").as_deref(), Some("openai file"));
    assert_eq!(env_file.get("PICKSCRIBE_API_KEY").as_deref(), Some("fallback"));
    assert_eq!(env_file.get("EMPTY_KEY").as_deref(), Some(""));
    assert!(env_file.get("BAD-KEY").is_none());
    assert!(env_file.get("MISSING").is_none());
}

#[test]
fn later_assignments_replace_earlier_ones() {
    let env_file = parse_env_file("A=1\nA=2\r\nB='x");
    assert_eq!(env_file.get("A").as_deref(), Some("2"));
    assert_eq!(env_file.get("B").as_deref(), Some("'x"));
}

#[test]
fn resolve_api_key_prefers_process_env_then_env_file_then_config() {
    let mut env_file = EnvMap::new();
    env_file.insert("DEEPSEEK_API_KEY".into(), "file-deepseek".into());
    env_file.insert("PICKSCRIBE_API_KEY".into(), "file-generic".into());
    let mut cfg = AppConfig::default();
    cfg.cleanup.api_key = "config-key".into();

    let mut process = EnvMap::new();
    process.insert("DEEPSEEK_API_KEY".into(), "process-deepseek".into());
    assert_eq!(
        cfg.resolve_api_key_from_sources("deepseek", &env_file, &process).as_deref(),
        Some("process-deepseek")
    );
    let none = EnvMap::new();
    assert_eq!(
        cfg.resolve_api_key_from_sources("deepseek", &env_file, &none).as_deref(),
        Some("file-deepseek")
    );
    assert_eq!(
        cfg.resolve_api_key_from_sources("openai", &env_file, &none).as_deref(),
        Some("file-generic")
    );
    assert_eq!(
        cfg.resolve_api_key_from_sources("openai", &EnvMap::new(), &none).as_deref(),
        Some("config-key")
    );
}

#[test]
fn incremental_config_defaults_to_live_local_segments_only() {
    let cfg = AppConfig::default();

    assert!(cfg.incremental.enabled);
    assert!(!cfg.incremental.cleanup_segments);
    assert_eq!(cfg.incremental.target_ms, 5_000);
    assert_eq!(cfg.incremental.max_ms, 10_000);
    assert_eq!(cfg.incremental.overlap_ms, 1_500);
    assert_eq!(cfg.incremental.max_queue, 2);
    assert!(cfg.general.crash_reports);
    assert_eq!(cfg.general.theme, "system");
    assert_eq!(cfg.paste.chord, "ctrl-v");
}

#[test]
fn desktop_policy_applies_defaults_and_timeout_floor() {
    let mut cfg = AppConfig::default();
    cfg.cleanup.timeout_secs = 2;
    cfg.cleanup.instructions = "   ".into();
    cfg.general.local_only = true;
    let policy = CleanupPolicy::from_app_config(&cfg, &EnvMap::new(), &EnvMap::new());
    assert_eq!(policy.timeout_secs, 5);
    assert_eq!(policy.instructions, DEFAULT_INSTRUCTIONS);
    assert!(policy.local_only);
    assert_eq!(policy.provider, "auto");
    assert_eq!(policy.credentials.openai, None);
}
