//! Changes to the desktop app's settings: which configurations are
//! accepted, and the order in which an accepted change takes effect.
use vstd::prelude::*;
use crate::config::{AppConfig, GeneralConfig};
use crate::text::{append_chars, chars_eq_str, chars_of, string_of};

verus! {

broadcast use vstd::string::group_string_axioms;

/// A requested change: a whole new configuration, or flipping the floating
/// button.
#[derive(Debug, Clone)]
pub enum SettingsMutation {
    Replace(AppConfig),
    ToggleFloatButton,
}

/// Where settings live and what applies them.
pub trait SettingsBackend {
    fn load(&mut self) -> AppConfig;

    fn persist(&mut self, config: &AppConfig) -> Result<(), String>;

    fn set_telemetry(&mut self, enabled: bool);

    fn set_minidumps(&mut self, enabled: bool);

    fn set_float_button(&mut self, visible: bool);

    fn publish(&mut self, config: &AppConfig);
}

/// Why a configuration is refused: an unknown theme, a zero typing speed
/// or a zero cleanup timeout; none when it is accepted.
pub open spec fn spec_validate(config: AppConfig) -> Option<Seq<char>> {
    let theme = config.general.theme@;
    if !(theme == "system"@ || theme == "dark"@ || theme == "light"@) {
        Some("invalid theme: "@ + theme)
    } else if config.general.typing_wpm == 0 {
        Some("typing speed baseline must be greater than zero"@)
    } else if config.cleanup.timeout_secs == 0 {
        Some("cleanup timeout must be greater than zero"@)
    } else {
        None
    }
}

pub fn validate(config: &AppConfig) -> (r: Result<(), String>)
    ensures
        match r {
            Ok(()) => spec_validate(*config) is None,
            Err(e) => spec_validate(*config) == Some(e@),
        },
{
    let theme = chars_of(config.general.theme.as_str());
    if !(chars_eq_str(theme.as_slice(), "system") || chars_eq_str(theme.as_slice(), "dark")
        || chars_eq_str(theme.as_slice(), "light")) {
        let mut m = chars_of("invalid theme: ");
        append_chars(&mut m, theme.as_slice());
        return Err(string_of(m.as_slice()));
    }
    if config.general.typing_wpm == 0 {
        return Err("typing speed baseline must be greater than zero".to_owned());
    }
    if config.cleanup.timeout_secs == 0 {
        return Err("cleanup timeout must be greater than zero".to_owned());
    }
    Ok(())
}

/// Crash reports are sent only when enabled and not in local-only mode.
pub fn reporting_enabled(config: &AppConfig) -> (b: bool)
    ensures
        b == (config.general.crash_reports && !config.general.local_only),
{
    config.general.crash_reports && !config.general.local_only
}

/// Where a settings change has come.
#[derive(Debug)]
pub enum SettingsState {
    /// The change asked for, nothing done yet.
    Begin(SettingsMutation),
    /// The stored configuration was asked for.
    Loading,
    /// This configuration was handed to `persist`.
    Persisting(AppConfig),
    /// Persisted; reporting is being switched to `reporting`.
    Telemetry(AppConfig, bool),
    Minidumps(AppConfig, bool),
    FloatButton(AppConfig),
    Publishing(AppConfig),
    Done,
}

/// What the backend answered to the call made last.
#[derive(Debug)]
pub enum SettingsReply {
    Nothing,
    Loaded(AppConfig),
    Persisted(Result<(), String>),
}

/// The next backend call, or the result of the change.
#[derive(Debug)]
pub enum SettingsCall {
    /// `load()`.
    Load,
    /// `persist(config)` of the configuration the state holds.
    Persist,
    /// `set_telemetry(enabled)`.
    SetTelemetry(bool),
    /// `set_minidumps(enabled)`.
    SetMinidumps(bool),
    /// `set_float_button(visible)`.
    SetFloatButton(bool),
    /// `publish(config)` of the configuration the state holds.
    Publish,
    Finish(Result<AppConfig, String>),
}

/// A call, with errors as text, as the contracts speak of it.
pub enum SettingsCallView {
    Load,
    Persist,
    SetTelemetry(bool),
    SetMinidumps(bool),
    SetFloatButton(bool),
    Publish,
    FinishOk(AppConfig),
    FinishErr(Seq<char>),
}

pub open spec fn call_view(call: SettingsCall) -> SettingsCallView {
    match call {
        SettingsCall::Load => SettingsCallView::Load,
        SettingsCall::Persist => SettingsCallView::Persist,
        SettingsCall::SetTelemetry(b) => SettingsCallView::SetTelemetry(b),
        SettingsCall::SetMinidumps(b) => SettingsCallView::SetMinidumps(b),
        SettingsCall::SetFloatButton(b) => SettingsCallView::SetFloatButton(b),
        SettingsCall::Publish => SettingsCallView::Publish,
        SettingsCall::Finish(Ok(c)) => SettingsCallView::FinishOk(c),
        SettingsCall::Finish(Err(e)) => SettingsCallView::FinishErr(e@),
    }
}

pub open spec fn flipped(c: AppConfig) -> AppConfig {
    AppConfig { general: GeneralConfig { float_button: !c.general.float_button, ..c.general }, ..c }
}

/// One step of a settings change. A replacement is validated first and a
/// refused one ends with its error before any backend call; a toggle loads
/// the stored configuration and flips its floating-button flag. The result
/// is persisted; a failed persist ends with its error and nothing else
/// happens. Only once persisted are telemetry and crash dumps switched
/// (on when reports are enabled, not local-only, and this build may report),
/// the floating button shown or hidden, and the configuration published;
/// the change then ends with it.
pub open spec fn spec_settings_step(
    state: SettingsState,
    reply: SettingsReply,
    reporting_allowed: bool,
) -> (SettingsState, SettingsCallView) {
    match state {
        SettingsState::Begin(SettingsMutation::Replace(c)) => match spec_validate(c) {
            Some(e) => (SettingsState::Done, SettingsCallView::FinishErr(e)),
            None => (SettingsState::Persisting(c), SettingsCallView::Persist),
        },
        SettingsState::Begin(SettingsMutation::ToggleFloatButton) => (
            SettingsState::Loading,
            SettingsCallView::Load,
        ),
        SettingsState::Loading => match reply {
            SettingsReply::Loaded(c) => (SettingsState::Persisting(flipped(c)), SettingsCallView::Persist),
            _ => (SettingsState::Loading, SettingsCallView::Load),
        },
        SettingsState::Persisting(c) => match reply {
            SettingsReply::Persisted(Err(e)) => (SettingsState::Done, SettingsCallView::FinishErr(e@)),
            SettingsReply::Persisted(Ok(())) => {
                let r = c.general.crash_reports && !c.general.local_only && reporting_allowed;
                (SettingsState::Telemetry(c, r), SettingsCallView::SetTelemetry(r))
            },
            _ => (SettingsState::Persisting(c), SettingsCallView::Persist),
        },
        SettingsState::Telemetry(c, r) => (SettingsState::Minidumps(c, r), SettingsCallView::SetMinidumps(r)),
        SettingsState::Minidumps(c, _) => (
            SettingsState::FloatButton(c),
            SettingsCallView::SetFloatButton(c.general.float_button),
        ),
        SettingsState::FloatButton(c) => (SettingsState::Publishing(c), SettingsCallView::Publish),
        SettingsState::Publishing(c) => (SettingsState::Done, SettingsCallView::FinishOk(c)),
        SettingsState::Done => (SettingsState::Done, SettingsCallView::FinishErr(DONE_MESSAGE@)),
    }
}

pub const DONE_MESSAGE: &'static str = "settings change already finished";

pub open spec fn settings_rank(state: SettingsState) -> int {
    match state {
        SettingsState::Begin(_) => 0,
        SettingsState::Loading => 1,
        SettingsState::Persisting(_) => 2,
        SettingsState::Telemetry(_, _) => 3,
        SettingsState::Minidumps(_, _) => 4,
        SettingsState::FloatButton(_) => 5,
        SettingsState::Publishing(_) => 6,
        SettingsState::Done => 7,
    }
}

/// The reply that the call leading into `state` gives.
pub open spec fn reply_fits(state: SettingsState, reply: SettingsReply) -> bool {
    match state {
        SettingsState::Loading => reply is Loaded,
        SettingsState::Persisting(_) => reply is Persisted,
        _ => reply is Nothing,
    }
}

pub fn settings_step(state: SettingsState, reply: SettingsReply, reporting_allowed: bool) -> (r: (
    SettingsState,
    SettingsCall,
))
    ensures
        (r.0, call_view(r.1)) == spec_settings_step(state, reply, reporting_allowed),
        reply_fits(state, reply) && !(r.1 is Finish) ==> settings_rank(r.0) > settings_rank(state)
            && settings_rank(r.0) < 7,
        r.1 is Load ==> r.0 is Loading,
        r.1 is Persist ==> r.0 is Persisting,
        r.1 is Publish ==> r.0 is Publishing,
        !(r.1 is Load) && !(r.1 is Persist) ==> !(r.0 is Loading) && !(r.0 is Persisting),
{
    match state {
        SettingsState::Begin(SettingsMutation::Replace(c)) => match validate(&c) {
            Err(e) => (SettingsState::Done, SettingsCall::Finish(Err(e))),
            Ok(()) => (SettingsState::Persisting(c), SettingsCall::Persist),
        },
        SettingsState::Begin(SettingsMutation::ToggleFloatButton) => (
            SettingsState::Loading,
            SettingsCall::Load,
        ),
        SettingsState::Loading => match reply {
            SettingsReply::Loaded(c) => {
                let mut c = c;
                c.general.float_button = !c.general.float_button;
                (SettingsState::Persisting(c), SettingsCall::Persist)
            },
            _ => (SettingsState::Loading, SettingsCall::Load),
        },
        SettingsState::Persisting(c) => match reply {
            SettingsReply::Persisted(Err(e)) => (SettingsState::Done, SettingsCall::Finish(Err(e))),
            SettingsReply::Persisted(Ok(())) => {
                let r = reporting_enabled(&c) && reporting_allowed;
                (SettingsState::Telemetry(c, r), SettingsCall::SetTelemetry(r))
            },
            _ => (SettingsState::Persisting(c), SettingsCall::Persist),
        },
        SettingsState::Telemetry(c, r) => (SettingsState::Minidumps(c, r), SettingsCall::SetMinidumps(r)),
        SettingsState::Minidumps(c, _) => {
            let visible = c.general.float_button;
            (SettingsState::FloatButton(c), SettingsCall::SetFloatButton(visible))
        },
        SettingsState::FloatButton(c) => (SettingsState::Publishing(c), SettingsCall::Publish),
        SettingsState::Publishing(c) => (SettingsState::Done, SettingsCall::Finish(Ok(c))),
        SettingsState::Done => (SettingsState::Done, SettingsCall::Finish(Err(DONE_MESSAGE.to_owned()))),
    }
}

/// A call made on a settings backend, with what it returned.
pub enum BackendCall {
    Load(AppConfig),
    Persist(AppConfig, Result<(), String>),
    SetTelemetry(bool),
    SetMinidumps(bool),
    SetFloatButton(bool),
    Publish(AppConfig),
}

/// A settings backend together with the log of the calls made on it.
pub struct RecordedBackend<B> {
    pub backend: B,
    pub calls: Ghost<Seq<BackendCall>>,
}

impl<B: SettingsBackend> RecordedBackend<B> {
    pub fn new(backend: B) -> (r: Self)
        ensures
            r.backend == backend,
            r.calls@ == Seq::<BackendCall>::empty(),
    {
        RecordedBackend { backend, calls: Ghost(Seq::empty()) }
    }

    pub fn load(&mut self) -> (c: AppConfig)
        ensures
            final(self).calls@ == old(self).calls@.push(BackendCall::Load(c)),
    {
        let c = self.backend.load();
        self.calls = Ghost(self.calls@.push(BackendCall::Load(c)));
        c
    }

    pub fn persist(&mut self, config: &AppConfig) -> (r: Result<(), String>)
        ensures
            final(self).calls@ == old(self).calls@.push(BackendCall::Persist(*config, r)),
    {
        let r = self.backend.persist(config);
        self.calls = Ghost(self.calls@.push(BackendCall::Persist(*config, r)));
        r
    }

    pub fn set_telemetry(&mut self, enabled: bool)
        ensures
            final(self).calls@ == old(self).calls@.push(BackendCall::SetTelemetry(enabled)),
    {
        self.backend.set_telemetry(enabled);
        self.calls = Ghost(self.calls@.push(BackendCall::SetTelemetry(enabled)));
    }

    pub fn set_minidumps(&mut self, enabled: bool)
        ensures
            final(self).calls@ == old(self).calls@.push(BackendCall::SetMinidumps(enabled)),
    {
        self.backend.set_minidumps(enabled);
        self.calls = Ghost(self.calls@.push(BackendCall::SetMinidumps(enabled)));
    }

    pub fn set_float_button(&mut self, visible: bool)
        ensures
            final(self).calls@ == old(self).calls@.push(BackendCall::SetFloatButton(visible)),
    {
        self.backend.set_float_button(visible);
        self.calls = Ghost(self.calls@.push(BackendCall::SetFloatButton(visible)));
    }

    pub fn publish(&mut self, config: &AppConfig)
        ensures
            final(self).calls@ == old(self).calls@.push(BackendCall::Publish(*config)),
    {
        self.backend.publish(config);
        self.calls = Ghost(self.calls@.push(BackendCall::Publish(*config)));
    }
}

/// The calls and result of applying `c` once it is the configuration to
/// keep: it is persisted once; a failed persist is returned and nothing else
/// is called; after a successful one, telemetry and crash dumps are switched
/// (on when reports are enabled, not local-only, and this build may report),
/// the floating button is shown or hidden, `c` is published and returned.
pub open spec fn applied_after_persist(
    c: AppConfig,
    reporting_allowed: bool,
    calls: Seq<BackendCall>,
    r: Result<AppConfig, String>,
) -> bool {
    calls.len() >= 1 && match calls[0] {
        BackendCall::Persist(p, pr) => p == c && match pr {
            Err(e) => calls.len() == 1 && r is Err && r->Err_0@ == e@,
            Ok(_) => {
                let rep = c.general.crash_reports && !c.general.local_only && reporting_allowed;
                &&& calls == seq![
                    BackendCall::Persist(c, pr),
                    BackendCall::SetTelemetry(rep),
                    BackendCall::SetMinidumps(rep),
                    BackendCall::SetFloatButton(c.general.float_button),
                    BackendCall::Publish(c),
                ]
                &&& r == Ok::<AppConfig, String>(c)
            },
        },
        _ => false,
    }
}

/// The calls and result of a settings change: a refused replacement calls
/// nothing and returns its error; a valid one is applied as is; a toggle
/// loads the stored configuration and applies it with the floating button
/// flipped.
pub open spec fn mutation_applied(
    m: SettingsMutation,
    reporting_allowed: bool,
    calls: Seq<BackendCall>,
    r: Result<AppConfig, String>,
) -> bool {
    match m {
        SettingsMutation::Replace(c) => match spec_validate(c) {
            Some(e) => calls.len() == 0 && r is Err && r->Err_0@ == e,
            None => applied_after_persist(c, reporting_allowed, calls, r),
        },
        SettingsMutation::ToggleFloatButton => calls.len() >= 1 && match calls[0] {
            BackendCall::Load(l) => applied_after_persist(
                flipped(l),
                reporting_allowed,
                calls.drop_first(),
                r,
            ),
            _ => false,
        },
    }
}

/// Applies a settings change through `backend` by running `settings_step`,
/// making each backend call it names and handing the reply to the next
/// step. `reporting_allowed` is whether this build may send reports at all.
pub fn apply_mutation<B: SettingsBackend>(
    backend: &mut RecordedBackend<B>,
    mutation: SettingsMutation,
    reporting_allowed: bool,
) -> (r: Result<AppConfig, String>)
    ensures
        final(backend).calls@.take(old(backend).calls@.len() as int) == old(backend).calls@,
        mutation_applied(
            mutation,
            reporting_allowed,
            final(backend).calls@.skip(old(backend).calls@.len() as int),
            r,
        ),
{
    let ghost start = backend.calls@;
    let ghost m = mutation;
    let (s, c) = settings_step(SettingsState::Begin(mutation), SettingsReply::Nothing, reporting_allowed);
    let ghost s0 = s;
    let (s, c) = match c {
        SettingsCall::Load => {
            let loaded = backend.load();
            settings_step(s, SettingsReply::Loaded(loaded), reporting_allowed)
        },
        other => (s, other),
    };
    let ghost after_load = backend.calls@;
    let (s, c) = match c {
        SettingsCall::Persist => {
            let result = match &s {
                SettingsState::Persisting(cfg) => backend.persist(cfg),
                _ => Ok(()),
            };
            settings_step(s, SettingsReply::Persisted(result), reporting_allowed)
        },
        other => (s, other),
    };
    let (s, c) = match c {
        SettingsCall::SetTelemetry(enabled) => {
            backend.set_telemetry(enabled);
            settings_step(s, SettingsReply::Nothing, reporting_allowed)
        },
        other => (s, other),
    };
    let (s, c) = match c {
        SettingsCall::SetMinidumps(enabled) => {
            backend.set_minidumps(enabled);
            settings_step(s, SettingsReply::Nothing, reporting_allowed)
        },
        other => (s, other),
    };
    let (s, c) = match c {
        SettingsCall::SetFloatButton(visible) => {
            backend.set_float_button(visible);
            settings_step(s, SettingsReply::Nothing, reporting_allowed)
        },
        other => (s, other),
    };
    let (s, c) = match c {
        SettingsCall::Publish => {
            match &s {
                SettingsState::Publishing(cfg) => backend.publish(cfg),
                _ => {},
            }
            settings_step(s, SettingsReply::Nothing, reporting_allowed)
        },
        other => (s, other),
    };
    proof {
        let calls = backend.calls@.skip(start.len() as int);
        assert(backend.calls@.take(start.len() as int) =~= start);
        if m is ToggleFloatButton {
            assert(calls.drop_first() =~= backend.calls@.skip(start.len() + 1 as int));
        }
    }
    match c {
        SettingsCall::Finish(result) => {
            proof {
                let calls = backend.calls@.skip(start.len() as int);
                match m {
                    SettingsMutation::Replace(cfg) => {
                        match spec_validate(cfg) {
                            Some(e) => {
                                assert(calls.len() == 0);
                            },
                            None => {
                                assert(s0 == SettingsState::Persisting(cfg));
                                assert(after_load == start);
                                assert(calls.len() >= 1);
                                assert(calls[0] matches BackendCall::Persist(p, _) && p == cfg);
                                if calls.len() == 5 {
                                    if let BackendCall::Persist(p, pr) = calls[0] {
                                        let rep = cfg.general.crash_reports
                                            && !cfg.general.local_only && reporting_allowed;
                                        assert(calls =~= seq![
                                            BackendCall::Persist(cfg, pr),
                                            BackendCall::SetTelemetry(rep),
                                            BackendCall::SetMinidumps(rep),
                                            BackendCall::SetFloatButton(cfg.general.float_button),
                                            BackendCall::Publish(cfg),
                                        ]);
                                    }
                                }
                            },
                        }
                    },
                    SettingsMutation::ToggleFloatButton => {
                        assert(calls.len() >= 1);
                        if let BackendCall::Load(l) = calls[0] {
                            let c = flipped(l);
                            let rest = calls.drop_first();
                            if rest.len() == 5 {
                                if let BackendCall::Persist(p, pr) = rest[0] {
                                    let rep = c.general.crash_reports && !c.general.local_only
                                        && reporting_allowed;
                                    assert(rest =~= seq![
                                        BackendCall::Persist(c, pr),
                                        BackendCall::SetTelemetry(rep),
                                        BackendCall::SetMinidumps(rep),
                                        BackendCall::SetFloatButton(c.general.float_button),
                                        BackendCall::Publish(c),
                                    ]);
                                }
                            }
                        }
                    },
                }
            }
            result
        },
        _ => {
            proof {
                assert(false);
            }
            Err(DONE_MESSAGE.to_owned())
        },
    }
}

/// A settings change takes effect only once persisted: reporting, the
/// floating button and listeners are touched only after `persist`
/// succeeded, and a failed `persist` ends the change with its error.
pub proof fn lemma_effects_follow_persistence(
    state: SettingsState,
    reply: SettingsReply,
    reporting_allowed: bool,
)
    ensures
        spec_settings_step(state, reply, reporting_allowed).1 is SetTelemetry ==> state is Persisting
            && reply matches SettingsReply::Persisted(Ok(_)),
        state matches SettingsState::Persisting(_) ==> (reply matches SettingsReply::Persisted(Err(e))
            ==> spec_settings_step(state, reply, reporting_allowed).1 == SettingsCallView::FinishErr(
            e@,
        )),
        spec_settings_step(state, reply, reporting_allowed).1 is SetMinidumps ==> state is Telemetry,
        spec_settings_step(state, reply, reporting_allowed).1 is SetFloatButton ==> state is Minidumps,
        spec_settings_step(state, reply, reporting_allowed).1 is Publish ==> state is FloatButton,
        spec_settings_step(state, reply, reporting_allowed).1 is FinishOk ==> state is Publishing,
{
}

} // verus!
