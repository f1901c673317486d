use pickscribe::config::AppConfig;
use pickscribe::settings::{
    apply_mutation, reporting_enabled, settings_step, validate, SettingsBackend, SettingsCall,
    RecordedBackend, SettingsMutation, SettingsReply, SettingsState,
};

#[derive(Debug, Clone, Copy)]
enum MutationPath {
    FullSave,
    FloatToggle,
}

struct RecordingBackend {
    stored: AppConfig,
    fail_persist: bool,
    calls: Vec<String>,
    published: usize,
}

impl RecordingBackend {
    fn new(fail_persist: bool) -> Self {
        Self {
            stored: AppConfig::default(),
            fail_persist,
            calls: Vec::new(),
            published: 0,
        }
    }
}

impl SettingsBackend for RecordingBackend {
    fn load(&mut self) -> AppConfig {
        self.calls.push("load".into());
        self.stored.clone()
    }

    fn persist(&mut self, config: &AppConfig) -> Result<(), String> {
        self.calls.push("persist".into());
        if self.fail_persist {
            return Err("disk full".into());
        }
        self.stored = config.clone();
        Ok(())
    }

    fn set_telemetry(&mut self, enabled: bool) {
        self.calls.push(format!("telemetry:{enabled}"));
    }

    fn set_minidumps(&mut self, enabled: bool) {
        self.calls.push(format!("minidumps:{enabled}"));
    }

    fn set_float_button(&mut self, visible: bool) {
        self.calls.push(format!("float:{visible}"));
    }

    fn publish(&mut self, _config: &AppConfig) {
        self.calls.push("publish".into());
        self.published += 1;
    }
}

fn apply(backend: &mut RecordingBackend, m: SettingsMutation, allowed: bool) -> Result<AppConfig, String> {
    let mut recorded = RecordedBackend::new(std::mem::replace(backend, RecordingBackend::new(false)));
    let r = apply_mutation(&mut recorded, m, allowed);
    *backend = recorded.backend;
    r
}

fn mutation_for(path: MutationPath) -> SettingsMutation {
    match path {
        MutationPath::FullSave => {
            let mut config = AppConfig::default();
            config.general.float_button = false;
            SettingsMutation::Replace(config)
        }
        MutationPath::FloatToggle => SettingsMutation::ToggleFloatButton,
    }
}

#[test]
fn every_mutation_path_persists_before_runtime_effects_and_publication() {
    for path in [MutationPath::FullSave, MutationPath::FloatToggle] {
        let mut backend = RecordingBackend::new(false);

        let result = apply(&mut backend, mutation_for(path), true).unwrap();
        let reporting = reporting_enabled(&result);

        assert!(!result.general.float_button, "path: {path:?}");
        let expected: Vec<String> = match path {
            MutationPath::FullSave => vec![
                "persist".into(),
                format!("telemetry:{reporting}"),
                format!("minidumps:{reporting}"),
                "float:false".into(),
                "publish".into(),
            ],
            MutationPath::FloatToggle => vec![
                "load".into(),
                "persist".into(),
                format!("telemetry:{reporting}"),
                format!("minidumps:{reporting}"),
                "float:false".into(),
                "publish".into(),
            ],
        };
        assert_eq!(backend.calls, expected, "path: {path:?}");
        assert_eq!(backend.published, 1, "path: {path:?}");
    }
}

#[test]
fn persistence_failure_has_no_runtime_effect_or_publication_for_any_mutation_path() {
    for path in [MutationPath::FullSave, MutationPath::FloatToggle] {
        let mut backend = RecordingBackend::new(true);

        let error = apply(&mut backend, mutation_for(path), true).unwrap_err();

        assert_eq!(error, "disk full", "path: {path:?}");
        let expected = match path {
            MutationPath::FullSave => vec!["persist"],
            MutationPath::FloatToggle => vec!["load", "persist"],
        };
        assert_eq!(backend.calls, expected, "path: {path:?}");
        assert_eq!(backend.published, 0, "path: {path:?}");
        assert!(backend.stored.general.float_button, "path: {path:?}");
    }
}

#[test]
fn invalid_full_save_has_no_persistence_runtime_effect_or_publication() {
    let mut backend = RecordingBackend::new(false);
    let mut config = AppConfig::default();
    config.general.theme = "sepia".into();

    let error = apply(&mut backend, SettingsMutation::Replace(config), true).unwrap_err();

    assert_eq!(error, "invalid theme: sepia");
    assert!(backend.calls.is_empty());
    assert_eq!(backend.published, 0);
}

#[test]
fn float_toggle_is_not_blocked_by_unrelated_persisted_values() {
    let mut backend = RecordingBackend::new(false);
    backend.stored.general.theme = "sepia".into();

    let result = apply(&mut backend, SettingsMutation::ToggleFloatButton, true).unwrap();

    assert!(!result.general.float_button);
    assert_eq!(backend.published, 1);
}

#[test]
fn local_only_mode_disables_reporting_even_when_crash_reports_are_persisted() {
    let mut backend = RecordingBackend::new(false);
    let mut config = AppConfig::default();
    config.general.local_only = true;
    config.general.crash_reports = true;

    apply(&mut backend, SettingsMutation::Replace(config), true).unwrap();

    assert_eq!(
        backend.calls,
        vec!["persist", "telemetry:false", "minidumps:false", "float:true", "publish"]
    );
}

#[test]
fn builds_that_may_not_report_keep_reporting_off() {
    let mut backend = RecordingBackend::new(false);
    apply(&mut backend, SettingsMutation::Replace(AppConfig::default()), false).unwrap();
    assert_eq!(
        backend.calls,
        vec!["persist", "telemetry:false", "minidumps:false", "float:true", "publish"]
    );
}

#[test]
fn validation_rejects_zero_speed_and_timeout() {
    let mut config = AppConfig::default();
    assert_eq!(validate(&config), Ok(()));
    config.general.typing_wpm = 0;
    assert_eq!(
        validate(&config),
        Err("typing speed baseline must be greater than zero".to_string())
    );
    let mut config = AppConfig::default();
    config.cleanup.timeout_secs = 0;
    assert_eq!(validate(&config), Err("cleanup timeout must be greater than zero".to_string()));
}

#[test]
fn settings_steps_persist_before_applying_anything() {
    let mut cfg = AppConfig::default();
    cfg.general.float_button = false;
    let (s, call) = settings_step(SettingsState::Begin(SettingsMutation::Replace(cfg)), SettingsReply::Nothing, true);
    assert!(matches!(call, SettingsCall::Persist));
    assert!(matches!(s, SettingsState::Persisting(_)));
    let (s, call) = settings_step(s, SettingsReply::Persisted(Ok(())), true);
    assert!(matches!(call, SettingsCall::SetTelemetry(true)));
    let (s, call) = settings_step(s, SettingsReply::Nothing, true);
    assert!(matches!(call, SettingsCall::SetMinidumps(true)));
    let (s, call) = settings_step(s, SettingsReply::Nothing, true);
    assert!(matches!(call, SettingsCall::SetFloatButton(false)));
    let (s, call) = settings_step(s, SettingsReply::Nothing, true);
    assert!(matches!(call, SettingsCall::Publish));
    let (_, call) = settings_step(s, SettingsReply::Nothing, true);
    assert!(matches!(call, SettingsCall::Finish(Ok(c)) if !c.general.float_button));
}

#[test]
fn failed_persist_ends_the_change_with_its_error() {
    let (s, call) = settings_step(
        SettingsState::Begin(SettingsMutation::ToggleFloatButton),
        SettingsReply::Nothing,
        true,
    );
    assert!(matches!(call, SettingsCall::Load));
    let (s, call) = settings_step(s, SettingsReply::Loaded(AppConfig::default()), true);
    assert!(matches!(call, SettingsCall::Persist));
    assert!(matches!(&s, SettingsState::Persisting(c) if !c.general.float_button));
    let (_, call) = settings_step(s, SettingsReply::Persisted(Err("disk full".into())), true);
    assert!(matches!(call, SettingsCall::Finish(Err(e)) if e == "disk full"));
}
