use pickscribe::cleanup::{CleanupCredentials, CleanupPolicy, OllamaEnv};
use pickscribe::config::{DEFAULT_INSTRUCTIONS, DEFAULT_TEMPERATURE_BITS};
use pickscribe::doctor::{cleanup_check, doctor_checks, DoctorFacts};
use pickscribe::platform::support_for;

fn policy(provider: &str) -> CleanupPolicy {
    CleanupPolicy {
        provider: provider.into(),
        endpoint: String::new(),
        model: String::new(),
        credentials: CleanupCredentials::default(),
        temperature_bits: DEFAULT_TEMPERATURE_BITS,
        timeout_secs: 30,
        thinking: "disabled".into(),
        instructions: DEFAULT_INSTRUCTIONS.into(),
        local_only: false,
    }
}

fn facts() -> DoctorFacts {
    DoctorFacts {
        ffmpeg: Ok("/usr/bin/ffmpeg".into()),
        pw_record: true,
        whisper_cli: true,
        model_path: Some("/models/ggml-base.bin".into()),
        ydotool: true,
        ydotool_socket: false,
        clipboard_helper: true,
    }
}

#[test]
fn linux_doctor_lists_every_check() {
    let checks = doctor_checks(&support_for("linux"), &facts(), &policy("none"), &OllamaEnv::default(), true);
    let names: Vec<&str> = checks.iter().map(|c| c.name.as_str()).collect();
    assert_eq!(
        names,
        vec![
            "Release platform",
            "ffmpeg",
            "Audio recorder",
            "Whisper",
            "Whisper model",
            "Paste backend",
            "Clipboard",
            "Cleanup provider",
            "Privacy"
        ]
    );
    assert!(!checks[5].ok);
    assert_eq!(checks[5].detail, "ydotool installed, but ydotool.service socket not found");
    assert_eq!(checks[7].detail, "cleanup disabled — raw transcript is pasted");
}

#[test]
fn unsupported_platform_stops_after_its_blockers() {
    let support = support_for("macos");
    let mut f = facts();
    f.ffmpeg = Err("ffmpeg not found".into());
    let checks = doctor_checks(&support, &f, &policy("none"), &OllamaEnv::default(), false);
    assert_eq!(checks.len(), 2 + support.blockers.len());
    assert!(!checks[0].ok);
    assert_eq!(checks[1].detail, "ffmpeg not found");
    assert!(checks[2..].iter().all(|c| !c.ok));
}

#[test]
fn cleanup_check_describes_the_provider() {
    assert_eq!(cleanup_check(&policy("ollama"), &OllamaEnv::default()), (true, "ollama (local)".to_string()));
    let mut custom = policy("custom");
    custom.endpoint = "http://localhost:8080/v1/chat/completions".into();
    assert_eq!(
        cleanup_check(&custom, &OllamaEnv::default()),
        (false, "custom endpoint set — pick a model".to_string())
    );
    custom.model = "m".into();
    assert_eq!(cleanup_check(&custom, &OllamaEnv::default()), (true, "custom · m".to_string()));
}
