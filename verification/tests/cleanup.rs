use pickscribe::cleanup::{
    effective_provider, finish_cleanup, interpret_segment, is_local_endpoint, models_url,
    first_choice, plan_cleanup, prompts, resolve_policy, response_excerpt, segment_cleanup_is_safe,
    sorted_model_names, model_names_from_reply, JsonField, ModelEntry, ModelListField,
    CleanupCredentials,
    CleanupKind, CleanupPolicy, CleanupStep, FailurePolicy, OllamaEnv, ResolvedCleanup,
};
use pickscribe::config::{DEFAULT_INSTRUCTIONS, DEFAULT_TEMPERATURE_BITS};

fn policy(provider: &str) -> CleanupPolicy {
    CleanupPolicy {
        provider: provider.into(),
        endpoint: String::new(),
        model: String::new(),
        credentials: CleanupCredentials::default(),
        temperature_bits: DEFAULT_TEMPERATURE_BITS,
        timeout_secs: 30,
        thinking: "disabled".into(),
        instructions: DEFAULT_INSTRUCTIONS.into(),
        local_only: false,
    }
}

fn target() -> ResolvedCleanup {
    ResolvedCleanup {
        provider: "ollama".into(),
        endpoint: "http://127.0.0.1:11434/v1/chat/completions".into(),
        model: "qwen2.5:14b".into(),
        api_key: None,
    }
}

fn no_env() -> OllamaEnv {
    OllamaEnv::default()
}

#[test]
fn local_endpoints_are_detected() {
    assert!(is_local_endpoint("http://127.0.0.1:11434/v1/chat/completions"));
    assert!(is_local_endpoint("http://localhost:8080/v1/chat/completions"));
    assert!(is_local_endpoint("http://[::1]:11434/v1/chat/completions"));
    assert!(!is_local_endpoint("https://api.deepseek.com/v1/chat/completions"));
    assert!(!is_local_endpoint("https://openrouter.ai/api/v1/chat/completions"));
    assert!(!is_local_endpoint("http://192.168.1.10:11434/v1/chat/completions"));
}

#[test]
fn models_url_derived_from_chat_endpoint() {
    assert_eq!(
        models_url("https://api.deepseek.com/v1/chat/completions"),
        "https://api.deepseek.com/v1/models"
    );
    assert_eq!(
        models_url("http://127.0.0.1:11434/v1/chat/completions/"),
        "http://127.0.0.1:11434/v1/models"
    );
    assert_eq!(models_url("http://127.0.0.1:1234/v1"), "http://127.0.0.1:1234/v1/models");
}

#[test]
fn segment_interpretation_rejects_unchanged_unsafe_and_no_text_output() {
    let target = target();
    let raw = "hello segment";

    let unchanged = interpret_segment(&target, raw, raw);
    assert!(!unchanged.cleaned);
    assert!(unchanged.error.is_none());

    let no_text = interpret_segment(&target, raw, "  ");
    assert!(!no_text.cleaned);
    assert!(no_text.error.is_none());

    let unsafe_output = interpret_segment(&target, raw, "hello segment PickScribe");
    assert!(!unsafe_output.cleaned);
    assert!(unsafe_output.error.is_some());

    let safe = interpret_segment(&target, raw, "Hello, segment.");
    assert!(safe.cleaned);
    assert_eq!(safe.text, "Hello, segment.");
}

#[test]
fn segment_cleanup_safety_allows_conservative_edits() {
    assert!(segment_cleanup_is_safe(
        "okay so now maybe if i speak here",
        "Okay, so now maybe if I speak here."
    ));
    assert!(segment_cleanup_is_safe(
        "this is for pickforge and pickgauge",
        "This is for PickForge and PickGauge."
    ));
}

#[test]
fn segment_cleanup_safety_rejects_instruction_example_leaks() {
    let raw = "to see of how this will work";
    let cleaned = "Pickforge Studio\nPickForge\nPickScribe\nPickGauge\nPickArena\nPickLab";
    assert!(!segment_cleanup_is_safe(raw, cleaned));
}

#[test]
fn segment_cleanup_safety_rejects_boilerplate_expansions() {
    assert!(!segment_cleanup_is_safe(
        "just stop to talk",
        "Here's a cleaned and structured version of your dictated text: just stop to talk"
    ));
}

#[test]
fn segment_cleanup_safety_rejects_short_fragment_growth() {
    assert!(!segment_cleanup_is_safe("okay", "Okay PickScribe"));
    assert!(!segment_cleanup_is_safe("okay", "Okay okay okay okay"));
    assert!(!segment_cleanup_is_safe("to see of", "To see of PickScribe PickGauge PickLab"));
}

#[test]
fn segment_cleanup_safety_rejects_longer_boilerplate_suffixes() {
    assert!(!segment_cleanup_is_safe(
        "okay so now maybe if i speak here with text",
        "Okay, so now maybe if I speak here with text. Here's a cleaned and structured version."
    ));
}

#[test]
fn segment_cleanup_safety_rejects_single_instruction_token_leak() {
    assert!(!segment_cleanup_is_safe("okay so now maybe if", "Okay so now maybe PickGauge"));
}

#[test]
fn segment_cleanup_safety_rejects_duplicated_source_tokens() {
    assert!(!segment_cleanup_is_safe(
        "this segment should preserve every source token",
        "This segment segment should preserve every every source token"
    ));
}

#[test]
fn segment_cleanup_safety_rejects_common_cleaned_text_prefixes() {
    assert!(!segment_cleanup_is_safe(
        "please send this email after review",
        "Cleaned text: please send this email after review"
    ));
}

#[test]
fn segment_cleanup_safety_rejects_deleted_source_tokens() {
    assert!(!segment_cleanup_is_safe("please do not send this email", "Please do send this email"));
}

#[test]
fn segment_cleanup_safety_preserves_word_boundaries() {
    assert!(!segment_cleanup_is_safe("now here", "nowhere"));
    assert!(!segment_cleanup_is_safe("therapist", "the rapist"));
}

#[test]
fn segment_cleanup_safety_allows_dictated_boilerplate_phrases() {
    assert!(segment_cleanup_is_safe(
        "let me know if you have questions",
        "Let me know if you have questions."
    ));
}

#[test]
fn segment_cleanup_safety_preserves_meaningful_symbols() {
    assert!(!segment_cleanup_is_safe("use C++ here", "Use C here."));
    assert!(!segment_cleanup_is_safe("use C# here", "Use C here."));
    assert!(!segment_cleanup_is_safe("email foo@example.com today", "Email fooexamplecom today."));
    assert!(!segment_cleanup_is_safe(
        "open https://pickforge.dev/pickscribe",
        "Open httpspickforgedevpickscribe."
    ));
}

#[test]
fn segment_safety_is_symmetric_and_needs_tokens() {
    assert!(segment_cleanup_is_safe("Hello, world.", "hello world"));
    assert!(segment_cleanup_is_safe("hello world", "Hello, world."));
    assert!(!segment_cleanup_is_safe("", ""));
    assert!(!segment_cleanup_is_safe("... !!", "... !!"));
}

#[test]
fn auto_provider_uses_available_keys_and_local_only_prefers_ollama() {
    let mut cleanup = policy("auto");
    assert_eq!(effective_provider(&cleanup), "ollama");

    cleanup.credentials.openai = Some("openai-key".into());
    assert_eq!(effective_provider(&cleanup), "openai");

    cleanup.credentials.deepseek = Some("deepseek-key".into());
    assert_eq!(effective_provider(&cleanup), "deepseek");

    cleanup.local_only = true;
    assert_eq!(effective_provider(&cleanup), "ollama");
}

#[test]
fn local_only_blocks_remote_endpoints_and_cloud_models() {
    let mut cleanup = policy("openai");
    cleanup.local_only = true;
    cleanup.credentials.openai = Some("key".into());
    let err = resolve_policy(&cleanup, &no_env()).unwrap_err();
    assert!(err.contains("local-only mode blocks remote endpoint"));

    cleanup.provider = "ollama".into();
    cleanup.endpoint = "http://127.0.0.1:11434/v1/chat/completions".into();
    cleanup.model = "deepseek-v4-flash:cloud".into();
    let err = resolve_policy(&cleanup, &no_env()).unwrap_err();
    assert!(err.contains(":cloud"), "unexpected error: {err}");

    cleanup.model = "qwen3.5:8b".into();
    assert!(resolve_policy(&cleanup, &no_env()).is_ok());
}

#[test]
fn providers_resolve_to_their_defaults() {
    let mut deepseek = policy("deepseek");
    deepseek.credentials.deepseek = Some("k".into());
    let t = resolve_policy(&deepseek, &no_env()).unwrap();
    assert_eq!(t.endpoint, "https://api.deepseek.com/v1/chat/completions");
    assert_eq!(t.model, "deepseek-v4-flash");
    assert_eq!(t.api_key.as_deref(), Some("k"));

    let t = resolve_policy(&policy("ollama"), &no_env()).unwrap();
    assert_eq!(t.endpoint, "http://127.0.0.1:11434/v1/chat/completions");
    assert_eq!(t.model, "qwen2.5:14b");
    assert!(t.api_key.is_none());

    let env = OllamaEnv { host: Some("gpu-box:11434/".into()), model: Some("llama3".into()) };
    let t = resolve_policy(&policy("ollama"), &env).unwrap();
    assert_eq!(t.endpoint, "http://gpu-box:11434/v1/chat/completions");
    assert_eq!(t.model, "llama3");
}

#[test]
fn unresolvable_policies_name_the_reason() {
    assert_eq!(
        resolve_policy(&policy("openai"), &no_env()).unwrap_err(),
        "no API key configured for provider openai"
    );
    assert_eq!(
        resolve_policy(&policy("custom"), &no_env()).unwrap_err(),
        "custom provider needs an endpoint (full /chat/completions URL)"
    );
    assert_eq!(resolve_policy(&policy("none"), &no_env()).unwrap_err(), "cleanup disabled");
    assert_eq!(
        resolve_policy(&policy("mystery"), &no_env()).unwrap_err(),
        "unknown cleanup provider: mystery"
    );
}

#[test]
fn empty_keys_do_not_count() {
    let creds = CleanupCredentials {
        deepseek: Some(String::new()),
        openai: Some("o".into()),
        ollama: None,
        custom: Some("c".into()),
    };
    assert_eq!(creds.for_provider("deepseek"), None);
    assert_eq!(creds.for_provider("openai").as_deref(), Some("o"));
    assert_eq!(creds.for_provider("custom").as_deref(), Some("c"));
    assert_eq!(creds.for_provider("other"), None);
}

#[test]
fn clean_returns_raw_transcript_when_cleanup_is_disabled() {
    let step =
        plan_cleanup(&policy("none"), &no_env(), "raw transcript", CleanupKind::Full, FailurePolicy::Strict)
            .unwrap();
    match step {
        CleanupStep::Done(outcome) => {
            assert_eq!(outcome.text, "raw transcript");
            assert_eq!(outcome.provider, "none");
            assert!(outcome.model.is_empty());
            assert!(!outcome.cleaned);
            assert!(outcome.error.is_none());
        }
        CleanupStep::Request(_) => panic!("expected no request"),
    }
}

#[test]
fn custom_target_can_resolve_before_a_model_is_selected() {
    let mut cleanup = policy("custom");
    cleanup.endpoint = "http://127.0.0.1:1234/v1/chat/completions".into();
    let target = resolve_policy(&cleanup, &no_env()).unwrap();
    assert!(target.model.is_empty());
    let error =
        plan_cleanup(&cleanup, &no_env(), "hello", CleanupKind::Full, FailurePolicy::Strict).unwrap_err();
    assert!(error.contains("no model set for the custom provider"));
}

#[test]
fn target_failure_is_strict_or_raw_fallback_by_policy() {
    let mut cleanup = policy("custom");
    cleanup.local_only = true;
    cleanup.endpoint = "https://example.com/v1/chat/completions".into();
    cleanup.model = "remote-model".into();

    match plan_cleanup(&cleanup, &no_env(), "keep this", CleanupKind::Full, FailurePolicy::RawFallback)
        .unwrap()
    {
        CleanupStep::Done(fallback) => {
            assert_eq!(fallback.text, "keep this");
            assert_eq!(fallback.provider, "custom");
            assert_eq!(fallback.model, "remote-model");
            assert!(!fallback.cleaned);
            assert!(fallback
                .error
                .as_deref()
                .is_some_and(|error| error.contains("local-only mode blocks remote endpoint")));
        }
        CleanupStep::Request(_) => panic!("expected a fallback"),
    }
    let strict =
        plan_cleanup(&cleanup, &no_env(), "keep this", CleanupKind::Full, FailurePolicy::Strict).unwrap_err();
    assert!(strict.contains("local-only mode blocks remote endpoint"));
}

#[test]
fn prompt_policy_distinguishes_full_and_conservative_segment_cleanup() {
    let cleanup = policy("ollama");
    let (full_system, full_user) = prompts(&cleanup, "hello", CleanupKind::Full);
    assert!(full_system.contains("immediate pasting"));
    assert!(full_user.ends_with("Text:\nhello"));

    let (segment_system, segment_user) = prompts(&cleanup, "hello", CleanupKind::Segment);
    assert!(segment_system.contains("live preview"));
    assert!(segment_user.contains("Fragment:\nhello"));
    assert!(segment_user.contains("Do not add examples"));
}

#[test]
fn request_carries_prompts_and_deepseek_thinking() {
    let mut cleanup = policy("deepseek");
    cleanup.credentials.deepseek = Some("k".into());
    match plan_cleanup(&cleanup, &no_env(), "hi there", CleanupKind::Full, FailurePolicy::Strict).unwrap() {
        CleanupStep::Request(request) => {
            assert_eq!(request.target.provider, "deepseek");
            assert_eq!(request.thinking.as_deref(), Some("disabled"));
            assert!(request.user.ends_with("Text:\nhi there"));
        }
        CleanupStep::Done(_) => panic!("expected a request"),
    }
    match plan_cleanup(&policy("ollama"), &no_env(), "hi", CleanupKind::Full, FailurePolicy::Strict).unwrap() {
        CleanupStep::Request(request) => assert!(request.thinking.is_none()),
        CleanupStep::Done(_) => panic!("expected a request"),
    }
}

#[test]
fn blank_transcript_is_handed_back_without_a_request() {
    match plan_cleanup(&policy("ollama"), &no_env(), "   ", CleanupKind::Full, FailurePolicy::Strict).unwrap() {
        CleanupStep::Done(o) => {
            assert_eq!(o.text, "   ");
            assert_eq!(o.provider, "ollama");
            assert!(!o.cleaned);
        }
        CleanupStep::Request(_) => panic!("expected no request"),
    }
}

#[test]
fn replies_are_trimmed_and_empty_replies_fail() {
    let t = target();
    let o = finish_cleanup(&t, "raw", CleanupKind::Full, FailurePolicy::Strict, Ok("  Clean.  ".into()))
        .unwrap();
    assert_eq!(o.text, "Clean.");
    assert!(o.cleaned);
    assert_eq!(o.model, "qwen2.5:14b");
    let e = finish_cleanup(&t, "raw", CleanupKind::Full, FailurePolicy::Strict, Ok("  ".into()))
        .unwrap_err();
    assert_eq!(e, "LLM response contained no text");
    let o = finish_cleanup(&t, "raw", CleanupKind::Full, FailurePolicy::RawFallback, Err("timeout".into()))
        .unwrap();
    assert_eq!(o.text, "raw");
    assert_eq!(o.error.as_deref(), Some("timeout"));
    let o = finish_cleanup(&t, "hello", CleanupKind::Segment, FailurePolicy::Strict, Ok(" Hello. ".into()))
        .unwrap();
    assert!(o.cleaned);
    assert_eq!(o.text, "Hello.");
}

#[test]
fn model_names_are_sorted_and_deduplicated() {
    let names: Vec<String> = vec![
        "qwen3:8b".to_string(),
        "llama3.2".to_string(),
        "qwen3:8b".to_string(),
        "gemma3".to_string(),
        "Zeta".to_string(),
    ];
    let sorted = sorted_model_names(&names).unwrap();
    assert_eq!(sorted, vec!["Zeta", "gemma3", "llama3.2", "qwen3:8b"]);
}

#[test]
fn prefix_sorts_before_longer_name() {
    let names: Vec<String> = vec!["ab".to_string(), "a".to_string(), "é".to_string(), "b".to_string()];
    assert_eq!(sorted_model_names(&names).unwrap(), vec!["a", "ab", "b", "é"]);
}

#[test]
fn empty_model_list_is_an_error() {
    let names: Vec<String> = Vec::new();
    assert_eq!(
        sorted_model_names(&names),
        Err("provider returned an empty model list".to_string())
    );
}

#[test]
fn user_info_cannot_pose_as_a_local_host() {
    assert!(!is_local_endpoint("http://127.0.0.1:80@evil.example/v1/chat/completions"));
    assert!(!is_local_endpoint("http://localhost@evil.example/v1"));
    assert!(!is_local_endpoint("http://user@localhost:11434/v1"));
    assert!(is_local_endpoint("http://localhost:11434/v1/chat/completions"));
}

#[test]
fn response_interpretation_uses_first_choice_and_rejects_missing_choices() {
    assert_eq!(
        first_choice(vec![" cleaned ".to_string(), "second".to_string()]).unwrap(),
        " cleaned "
    );
    assert_eq!(first_choice(Vec::new()).unwrap_err(), "LLM response had no choices");
    let malformed = "x".repeat(1_000);
    let error = format!("failed to parse LLM response JSON: {}", response_excerpt(&malformed));
    assert!(error.len() < 400, "unexpected unbounded error: {}", error.len());
    assert_eq!(response_excerpt("short"), "short");
}

fn entry(id: JsonField, name: JsonField, model: JsonField) -> ModelEntry {
    ModelEntry { id, name, model }
}

fn text(s: &str) -> JsonField {
    JsonField::Text(s.to_string())
}

#[test]
fn model_list_is_read_from_data_then_models() {
    let data = ModelListField::Entries(vec![
        entry(text("qwen3:8b"), JsonField::Missing, JsonField::Missing),
        entry(JsonField::Missing, text("gemma3"), text("ignored")),
        entry(JsonField::Missing, JsonField::Missing, text("llama3.2")),
        entry(JsonField::Other, text("not used"), JsonField::Missing),
        entry(JsonField::Missing, JsonField::Missing, JsonField::Missing),
        entry(text("gemma3"), JsonField::Missing, JsonField::Missing),
    ]);
    let models = ModelListField::Entries(vec![entry(text("other"), JsonField::Missing, JsonField::Missing)]);
    assert_eq!(
        model_names_from_reply(data, models),
        Ok(vec!["gemma3".to_string(), "llama3.2".to_string(), "qwen3:8b".to_string()])
    );
    let models = ModelListField::Entries(vec![entry(JsonField::Missing, text("phi4"), JsonField::Missing)]);
    assert_eq!(model_names_from_reply(ModelListField::Missing, models), Ok(vec!["phi4".to_string()]));
}

#[test]
fn model_list_that_is_not_an_array_or_names_nothing_is_refused() {
    let models = ModelListField::Entries(vec![entry(text("phi4"), JsonField::Missing, JsonField::Missing)]);
    assert_eq!(
        model_names_from_reply(ModelListField::Other, models),
        Err("no model list in response".to_string())
    );
    assert_eq!(
        model_names_from_reply(ModelListField::Missing, ModelListField::Missing),
        Err("no model list in response".to_string())
    );
    let nameless = ModelListField::Entries(vec![entry(JsonField::Other, JsonField::Missing, JsonField::Missing)]);
    assert_eq!(
        model_names_from_reply(nameless, ModelListField::Missing),
        Err("provider returned an empty model list".to_string())
    );
}
