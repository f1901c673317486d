use pickscribe::config::PasteConfig;
use pickscribe::paste::{
    deliver_with, delivery_step, plan_delivery, DeliveryCall, DeliveryConfig, DeliveryMethod,
    DeliveryOutcome, DeliveryPlan, DeliveryProgress, DeliveryRuntime, DeliveryState, RecordedRuntime,
    PasteChord, ToolAvailability, TypeBackend,
};

#[derive(Default)]
struct FakeRuntime {
    available: Vec<TypeBackend>,
    wayland: bool,
    copy_fails: bool,
    insertion_fails: bool,
    copied: bool,
    pasted: Option<(TypeBackend, PasteChord)>,
    typed: Option<(TypeBackend, String)>,
    slept_ms: Vec<u64>,
}

impl DeliveryRuntime for FakeRuntime {
    fn command_exists(&self, program: &str) -> bool {
        self.available.iter().any(|backend| backend.command_name() == program)
    }

    fn is_wayland(&self) -> bool {
        self.wayland
    }

    fn copy_to_clipboard(&mut self, _text: &str) -> Result<(), String> {
        self.copied = true;
        if self.copy_fails {
            Err("copy failed".to_string())
        } else {
            Ok(())
        }
    }

    fn paste_with_hotkey(
        &mut self,
        backend: Option<TypeBackend>,
        chord: PasteChord,
    ) -> Result<(), String> {
        if let Some(backend) = backend {
            self.pasted = Some((backend, chord));
        }
        if self.insertion_fails {
            Err("paste failed".to_string())
        } else {
            Ok(())
        }
    }

    fn type_text(&mut self, backend: Option<TypeBackend>, text: &str) -> Result<(), String> {
        if let Some(backend) = backend {
            self.typed = Some((backend, text.into()));
        }
        if self.insertion_fails {
            Err("type failed".to_string())
        } else {
            Ok(())
        }
    }

    fn sleep(&mut self, delay_ms: u64) {
        self.slept_ms.push(delay_ms);
    }
}

fn config(method: DeliveryMethod) -> DeliveryConfig {
    DeliveryConfig {
        method,
        chord: PasteChord::CtrlV,
        delay_ms: 150,
        copy_to_clipboard: true,
        type_backend: TypeBackend::Auto,
    }
}

#[test]
fn hotkey_requires_clipboard_even_when_copy_is_disabled() {
    let mut runtime = FakeRuntime { available: vec![TypeBackend::Ydotool], ..Default::default() };
    let mut config = config(DeliveryMethod::Hotkey);
    config.copy_to_clipboard = false;

    let mut recorded = RecordedRuntime::new(runtime);
    let outcome = deliver_with(&mut recorded, &config, "hello");
    let runtime = recorded.runtime;

    assert!(outcome.into_result().is_ok());
    assert!(runtime.copied);
    assert_eq!(runtime.pasted, Some((TypeBackend::Ydotool, PasteChord::CtrlV)));
}

#[test]
fn failed_clipboard_copy_does_not_send_hotkey() {
    let mut runtime = FakeRuntime {
        available: vec![TypeBackend::Ydotool],
        copy_fails: true,
        ..Default::default()
    };
    let config = config(DeliveryMethod::Hotkey);

    let mut recorded = RecordedRuntime::new(runtime);
    let outcome = deliver_with(&mut recorded, &config, "hello");
    let runtime = recorded.runtime;

    assert_eq!(outcome.clipboard_error.unwrap().to_string(), "copy failed");
    assert!(outcome.insertion_error.is_none());
    assert!(runtime.pasted.is_none());
    assert!(runtime.slept_ms.is_empty());
}

#[test]
fn auto_falls_back_to_wayland_typing_backend_without_hotkey_backend() {
    let mut runtime =
        FakeRuntime { available: vec![TypeBackend::Wtype], wayland: true, ..Default::default() };
    let config = config(DeliveryMethod::Auto);

    let mut recorded = RecordedRuntime::new(runtime);
    let outcome = deliver_with(&mut recorded, &config, "hello");
    let runtime = recorded.runtime;

    assert!(outcome.into_result().is_ok());
    assert_eq!(runtime.typed, Some((TypeBackend::Wtype, "hello".into())));
    assert!(runtime.pasted.is_none());
}

#[test]
fn selected_type_backend_and_terminal_chord_are_preserved() {
    let mut runtime = FakeRuntime::default();
    let config = DeliveryConfig {
        method: DeliveryMethod::Hotkey,
        chord: PasteChord::CtrlShiftV,
        delay_ms: 25,
        copy_to_clipboard: false,
        type_backend: TypeBackend::Xdotool,
    };

    let mut recorded = RecordedRuntime::new(runtime);
    let outcome = deliver_with(&mut recorded, &config, "hello");
    let runtime = recorded.runtime;

    assert!(outcome.into_result().is_ok());
    assert_eq!(runtime.pasted, Some((TypeBackend::Xdotool, PasteChord::CtrlShiftV)));
    assert_eq!(runtime.slept_ms, vec![25]);
}

#[test]
fn successful_copy_and_failed_paste_are_reported_separately() {
    let mut runtime = FakeRuntime {
        available: vec![TypeBackend::Ydotool],
        insertion_fails: true,
        ..Default::default()
    };
    let config = config(DeliveryMethod::Hotkey);

    let mut recorded = RecordedRuntime::new(runtime);
    let outcome = deliver_with(&mut recorded, &config, "hello");
    let runtime = recorded.runtime;

    assert!(outcome.clipboard_error.is_none());
    assert_eq!(outcome.insertion_error.unwrap().to_string(), "paste failed");
}

#[test]
fn no_delivery_method_can_still_copy() {
    let mut runtime = FakeRuntime::default();
    let config = config(DeliveryMethod::Off);

    let mut recorded = RecordedRuntime::new(runtime);
    let outcome = deliver_with(&mut recorded, &config, "hello");
    let runtime = recorded.runtime;

    assert!(outcome.into_result().is_ok());
    assert!(runtime.copied);
    assert!(runtime.pasted.is_none());
    assert!(runtime.typed.is_none());
    assert!(runtime.slept_ms.is_empty());
}

#[test]
fn delivery_errors_are_reported_with_their_step() {
    let both = DeliveryOutcome {
        clipboard_error: Some("a".into()),
        insertion_error: Some("b".into()),
    };
    assert_eq!(
        both.into_result().unwrap_err(),
        "clipboard copy failed: a; inserting text into active window failed: b"
    );
    let copy = DeliveryOutcome { clipboard_error: Some("a".into()), insertion_error: None };
    assert_eq!(copy.into_result().unwrap_err(), "clipboard copy failed: a");
    let insert = DeliveryOutcome { clipboard_error: None, insertion_error: Some("b".into()) };
    assert_eq!(insert.into_result().unwrap_err(), "inserting text into active window failed: b");
}

#[test]
fn x11_typing_prefers_xdotool() {
    let tools = ToolAvailability { ydotool: true, wtype: true, xdotool: true, wayland: false };
    let mut cfg = config(DeliveryMethod::Type);
    let plan = plan_delivery(&cfg, &tools);
    assert_eq!(plan.backend, Some(TypeBackend::Xdotool));
    assert!(plan.copy);
    cfg.copy_to_clipboard = false;
    cfg.type_backend = TypeBackend::Off;
    let plan = plan_delivery(&cfg, &tools);
    assert_eq!(plan.backend, None);
    assert!(!plan.copy);
    let auto = plan_delivery(&config(DeliveryMethod::Auto), &tools);
    assert_eq!(auto.method, DeliveryMethod::Hotkey);
    assert_eq!(auto.backend, Some(TypeBackend::Ydotool));
}

#[test]
fn paste_config_maps_to_delivery_settings() {
    let pc = PasteConfig {
        method: "type".into(),
        chord: "ctrl-shift-v".into(),
        delay_ms: 40,
        copy_to_clipboard: false,
    };
    let d = DeliveryConfig::from(&pc);
    assert_eq!(d.method, DeliveryMethod::Type);
    assert_eq!(d.chord, PasteChord::CtrlShiftV);
    assert_eq!(d.delay_ms, 40);
    assert!(!d.copy_to_clipboard);
    assert_eq!(d.type_backend, TypeBackend::Auto);
    let unknown = PasteConfig { method: "weird".into(), ..PasteConfig::default() };
    assert_eq!(DeliveryConfig::from_paste_config(&unknown).method, DeliveryMethod::Auto);
    let none = PasteConfig { method: "none".into(), ..PasteConfig::default() };
    assert_eq!(DeliveryConfig::from_paste_config(&none).method, DeliveryMethod::Off);
}

fn plan(method: DeliveryMethod, copy: bool) -> DeliveryPlan {
    DeliveryPlan { method, copy, backend: Some(TypeBackend::Ydotool) }
}

fn begin() -> DeliveryState {
    DeliveryState { progress: DeliveryProgress::Begin, clipboard_error: None }
}

#[test]
fn hotkey_delivery_copies_waits_then_pastes() {
    let p = plan(DeliveryMethod::Hotkey, true);
    let cfg = config(DeliveryMethod::Hotkey);
    let (s, call) = delivery_step(&p, &cfg, begin(), None);
    assert!(matches!(call, DeliveryCall::Copy));
    let (s, call) = delivery_step(&p, &cfg, s, Some(Ok(())));
    assert!(matches!(call, DeliveryCall::Wait(d) if d == cfg.delay_ms));
    let (s, call) = delivery_step(&p, &cfg, s, None);
    assert!(matches!(call, DeliveryCall::Paste(Some(TypeBackend::Ydotool), c) if c == cfg.chord));
    let (_, call) = delivery_step(&p, &cfg, s, Some(Err("no focus".into())));
    match call {
        DeliveryCall::Finish(o) => {
            assert_eq!(o.clipboard_error, None);
            assert_eq!(o.insertion_error.as_deref(), Some("no focus"));
        }
        _ => panic!("expected the outcome"),
    }
}

#[test]
fn failed_copy_ends_a_hotkey_delivery_without_waiting_or_pasting() {
    let p = plan(DeliveryMethod::Hotkey, true);
    let cfg = config(DeliveryMethod::Hotkey);
    let (s, _) = delivery_step(&p, &cfg, begin(), None);
    let (_, call) = delivery_step(&p, &cfg, s, Some(Err("clipboard busy".into())));
    match call {
        DeliveryCall::Finish(o) => {
            assert_eq!(o.clipboard_error.as_deref(), Some("clipboard busy"));
            assert_eq!(o.insertion_error, None);
        }
        _ => panic!("expected the outcome"),
    }
}

#[test]
fn typing_without_copy_waits_then_types() {
    let p = plan(DeliveryMethod::Type, false);
    let cfg = config(DeliveryMethod::Type);
    let (s, call) = delivery_step(&p, &cfg, begin(), None);
    assert!(matches!(call, DeliveryCall::Wait(_)));
    let (s, call) = delivery_step(&p, &cfg, s, None);
    assert!(matches!(call, DeliveryCall::TypeText(Some(TypeBackend::Ydotool))));
    let (_, call) = delivery_step(&p, &cfg, s, Some(Ok(())));
    assert!(matches!(call, DeliveryCall::Finish(DeliveryOutcome { clipboard_error: None, insertion_error: None })));
    let off = plan(DeliveryMethod::Off, false);
    let (_, call) = delivery_step(&off, &cfg, begin(), None);
    assert!(matches!(call, DeliveryCall::Finish(_)));
}
