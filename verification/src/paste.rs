//! Delivering a transcript to the focused window: which method and helper
//! tool are used, whether the clipboard is filled first, and how failures are
//! reported. The helper tools themselves are run by a `DeliveryRuntime`.
use vstd::prelude::*;
use crate::segments::opt_view;
use crate::config::PasteConfig;
use crate::text::{append_str, chars_eq_str, chars_of, string_of};

verus! {

broadcast use vstd::string::group_string_axioms;

#[derive(Clone, Copy, Debug, Eq, PartialEq, Structural)]
pub enum DeliveryMethod {
    Auto,
    Hotkey,
    Type,
    Off,
}

#[derive(Clone, Copy, Debug, Eq, PartialEq, Structural)]
pub enum PasteChord {
    CtrlV,
    CtrlShiftV,
}

#[derive(Clone, Copy, Debug, Eq, PartialEq, Structural)]
pub enum TypeBackend {
    Auto,
    Ydotool,
    Wtype,
    Xdotool,
    Off,
}

#[derive(Clone, Copy, Debug, Eq, PartialEq, Structural)]
pub struct DeliveryConfig {
    pub method: DeliveryMethod,
    pub chord: PasteChord,
    pub delay_ms: u64,
    pub copy_to_clipboard: bool,
    pub type_backend: TypeBackend,
}

/// What went wrong while delivering, kept apart for the clipboard and for
/// the insertion into the window.
#[derive(Debug, Default)]
pub struct DeliveryOutcome {
    pub clipboard_error: Option<String>,
    pub insertion_error: Option<String>,
}

/// The error `into_result` reports for the two failures, if any.
pub open spec fn spec_delivery_error(copy: Option<Seq<char>>, insert: Option<Seq<char>>) -> Option<
    Seq<char>,
> {
    match (copy, insert) {
        (None, None) => None,
        (Some(c), None) => Some("clipboard copy failed: "@ + c),
        (None, Some(i)) => Some("inserting text into active window failed: "@ + i),
        (Some(c), Some(i)) => Some(
            "clipboard copy failed: "@ + c + "; inserting text into active window failed: "@ + i,
        ),
    }
}

impl DeliveryOutcome {
    pub fn into_result(self) -> (r: Result<(), String>)
        ensures
            match spec_delivery_error(opt_view(self.clipboard_error), opt_view(self.insertion_error)) {
                None => r is Ok,
                Some(m) => r is Err && r->Err_0@ == m,
            },
    {
        match (self.clipboard_error, self.insertion_error) {
            (None, None) => Ok(()),
            (Some(copy), None) => {
                let mut m = chars_of("clipboard copy failed: ");
                append_str(&mut m, copy.as_str());
                Err(string_of(m.as_slice()))
            },
            (None, Some(insert)) => {
                let mut m = chars_of("inserting text into active window failed: ");
                append_str(&mut m, insert.as_str());
                Err(string_of(m.as_slice()))
            },
            (Some(copy), Some(insert)) => {
                let mut m = chars_of("clipboard copy failed: ");
                append_str(&mut m, copy.as_str());
                append_str(&mut m, "; inserting text into active window failed: ");
                append_str(&mut m, insert.as_str());
                Err(string_of(m.as_slice()))
            },
        }
    }
}

pub open spec fn spec_command_name(b: TypeBackend) -> Seq<char> {
    match b {
        TypeBackend::Ydotool => "ydotool"@,
        TypeBackend::Wtype => "wtype"@,
        TypeBackend::Xdotool => "xdotool"@,
        TypeBackend::Auto | TypeBackend::Off => ""@,
    }
}

impl TypeBackend {
    /// The program that a backend runs; none for `Auto` and `None`.
    pub fn command_name(self) -> (r: &'static str)
        ensures
            r@ == spec_command_name(self),
    {
        match self {
            TypeBackend::Ydotool => "ydotool",
            TypeBackend::Wtype => "wtype",
            TypeBackend::Xdotool => "xdotool",
            TypeBackend::Auto | TypeBackend::Off => "",
        }
    }
}

/// What delivery needs from the machine: finding the helper programs,
/// telling Wayland apart, and running the helpers.
pub trait DeliveryRuntime {
    fn command_exists(&self, program: &str) -> bool;

    fn is_wayland(&self) -> bool;

    fn copy_to_clipboard(&mut self, text: &str) -> Result<(), String>;

    fn paste_with_hotkey(&mut self, backend: Option<TypeBackend>, chord: PasteChord) -> Result<
        (),
        String,
    >;

    fn type_text(&mut self, backend: Option<TypeBackend>, text: &str) -> Result<(), String>;

    fn sleep(&mut self, delay_ms: u64);
}

/// Which helper programs are installed, and whether the session is Wayland.
#[derive(Clone, Copy, Debug, Eq, PartialEq, Structural)]
pub struct ToolAvailability {
    pub ydotool: bool,
    pub wtype: bool,
    pub xdotool: bool,
    pub wayland: bool,
}

pub open spec fn available(tools: ToolAvailability, b: TypeBackend) -> bool {
    match b {
        TypeBackend::Ydotool => tools.ydotool,
        TypeBackend::Wtype => tools.wtype,
        TypeBackend::Xdotool => tools.xdotool,
        TypeBackend::Auto | TypeBackend::Off => false,
    }
}

/// The first installed backend among `candidates`.
pub open spec fn first_available(tools: ToolAvailability, candidates: Seq<TypeBackend>) -> Option<
    TypeBackend,
>
    decreases candidates.len(),
{
    if candidates.len() == 0 {
        None
    } else if available(tools, candidates[0]) {
        Some(candidates[0])
    } else {
        first_available(tools, candidates.drop_first())
    }
}

/// A backend that can send a paste shortcut, for choosing the automatic
/// method: a requested ydotool or xdotool, or the first of them installed.
pub open spec fn spec_auto_hotkey_backend(tools: ToolAvailability, requested: TypeBackend) -> Option<
    TypeBackend,
> {
    match requested {
        TypeBackend::Auto => first_available(tools, seq![TypeBackend::Ydotool, TypeBackend::Xdotool]),
        TypeBackend::Ydotool | TypeBackend::Xdotool => Some(requested),
        TypeBackend::Wtype | TypeBackend::Off => None,
    }
}

/// The automatic method pastes when a shortcut backend exists and types
/// otherwise; an explicit method stays.
pub open spec fn spec_effective_method(tools: ToolAvailability, config: DeliveryConfig) -> DeliveryMethod {
    match config.method {
        DeliveryMethod::Auto => if spec_auto_hotkey_backend(tools, config.type_backend) is Some {
            DeliveryMethod::Hotkey
        } else {
            DeliveryMethod::Type
        },
        m => m,
    }
}

pub open spec fn spec_hotkey_backend(tools: ToolAvailability, requested: TypeBackend) -> Option<
    TypeBackend,
> {
    match requested {
        TypeBackend::Auto => first_available(tools, seq![TypeBackend::Ydotool, TypeBackend::Xdotool]),
        TypeBackend::Off => None,
        b => Some(b),
    }
}

pub open spec fn spec_typing_backend(tools: ToolAvailability, requested: TypeBackend) -> Option<
    TypeBackend,
> {
    if requested != TypeBackend::Auto {
        if requested != TypeBackend::Off {
            Some(requested)
        } else {
            None
        }
    } else if tools.wayland {
        first_available(
            tools,
            seq![TypeBackend::Ydotool, TypeBackend::Wtype, TypeBackend::Xdotool],
        )
    } else {
        first_available(
            tools,
            seq![TypeBackend::Xdotool, TypeBackend::Ydotool, TypeBackend::Wtype],
        )
    }
}

/// How a transcript will be delivered.
#[derive(Clone, Copy, Debug, Eq, PartialEq, Structural)]
pub struct DeliveryPlan {
    pub method: DeliveryMethod,
    /// Whether the clipboard is filled first.
    pub copy: bool,
    /// The helper used for the insertion.
    pub backend: Option<TypeBackend>,
}

pub open spec fn spec_plan_delivery(config: DeliveryConfig, tools: ToolAvailability) -> DeliveryPlan {
    let method = spec_effective_method(tools, config);
    DeliveryPlan {
        method,
        copy: config.copy_to_clipboard || method == DeliveryMethod::Hotkey,
        backend: match method {
            DeliveryMethod::Hotkey => spec_hotkey_backend(tools, config.type_backend),
            DeliveryMethod::Type => spec_typing_backend(tools, config.type_backend),
            _ => None,
        },
    }
}

/// Typing with an automatic helper uses, on Wayland, the first installed of
/// ydotool, wtype and xdotool, and elsewhere the first installed of xdotool,
/// ydotool and wtype; the clipboard is filled only when asked.
pub proof fn lemma_typing_helper_order(config: DeliveryConfig, tools: ToolAvailability)
    requires
        config.method == DeliveryMethod::Type,
        config.type_backend == TypeBackend::Auto,
    ensures
        spec_plan_delivery(config, tools).method == DeliveryMethod::Type,
        spec_plan_delivery(config, tools).copy == config.copy_to_clipboard,
        tools.wayland ==> spec_plan_delivery(config, tools).backend == if tools.ydotool {
            Some(TypeBackend::Ydotool)
        } else if tools.wtype {
            Some(TypeBackend::Wtype)
        } else if tools.xdotool {
            Some(TypeBackend::Xdotool)
        } else {
            None::<TypeBackend>
        },
        !tools.wayland ==> spec_plan_delivery(config, tools).backend == if tools.xdotool {
            Some(TypeBackend::Xdotool)
        } else if tools.ydotool {
            Some(TypeBackend::Ydotool)
        } else if tools.wtype {
            Some(TypeBackend::Wtype)
        } else {
            None::<TypeBackend>
        },
        tools.wayland && (tools.ydotool || tools.wtype) ==> spec_plan_delivery(config, tools).backend
            != Some(TypeBackend::Xdotool),
{
    reveal_with_fuel(first_available, 4);
    let w = seq![TypeBackend::Ydotool, TypeBackend::Wtype, TypeBackend::Xdotool];
    let x = seq![TypeBackend::Xdotool, TypeBackend::Ydotool, TypeBackend::Wtype];
    assert(w.drop_first() =~= seq![TypeBackend::Wtype, TypeBackend::Xdotool]);
    assert(w.drop_first().drop_first() =~= seq![TypeBackend::Xdotool]);
    assert(w.drop_first().drop_first().drop_first() =~= Seq::<TypeBackend>::empty());
    assert(x.drop_first() =~= seq![TypeBackend::Ydotool, TypeBackend::Wtype]);
    assert(x.drop_first().drop_first() =~= seq![TypeBackend::Wtype]);
    assert(x.drop_first().drop_first().drop_first() =~= Seq::<TypeBackend>::empty());
}

/// Pasting with an automatic helper uses the first installed of ydotool and
/// xdotool, and always fills the clipboard first. The automatic method
/// pastes exactly when such a shortcut helper is available (installed, or
/// ydotool or xdotool named), and types otherwise; an explicit helper is
/// used as named, and none when delivery helpers are off.
pub proof fn lemma_paste_helper_and_method(config: DeliveryConfig, tools: ToolAvailability)
    ensures
        config.method == DeliveryMethod::Hotkey && config.type_backend == TypeBackend::Auto
            ==> spec_plan_delivery(config, tools).backend == if tools.ydotool {
            Some(TypeBackend::Ydotool)
        } else if tools.xdotool {
            Some(TypeBackend::Xdotool)
        } else {
            None::<TypeBackend>
        },
        spec_plan_delivery(config, tools).method == DeliveryMethod::Hotkey ==> spec_plan_delivery(
            config,
            tools,
        ).copy,
        config.method == DeliveryMethod::Auto ==> (spec_plan_delivery(config, tools).method
            == DeliveryMethod::Hotkey <==> (config.type_backend == TypeBackend::Ydotool
            || config.type_backend == TypeBackend::Xdotool || (config.type_backend
            == TypeBackend::Auto && (tools.ydotool || tools.xdotool)))),
        config.method == DeliveryMethod::Auto ==> (spec_plan_delivery(config, tools).method
            == DeliveryMethod::Hotkey || spec_plan_delivery(config, tools).method
            == DeliveryMethod::Type),
        config.method != DeliveryMethod::Auto ==> spec_plan_delivery(config, tools).method
            == config.method,
        (config.type_backend == TypeBackend::Ydotool || config.type_backend == TypeBackend::Wtype
            || config.type_backend == TypeBackend::Xdotool) && (spec_plan_delivery(
            config,
            tools,
        ).method == DeliveryMethod::Hotkey || spec_plan_delivery(config, tools).method
            == DeliveryMethod::Type) ==> spec_plan_delivery(config, tools).backend == Some(
            config.type_backend,
        ),
        config.type_backend == TypeBackend::Off ==> spec_plan_delivery(config, tools).backend
            is None,
        spec_plan_delivery(config, tools).method != DeliveryMethod::Hotkey ==> spec_plan_delivery(
            config,
            tools,
        ).copy == config.copy_to_clipboard,
        config.method == DeliveryMethod::Off ==> spec_plan_delivery(config, tools).backend is None
            && spec_plan_delivery(config, tools).copy == config.copy_to_clipboard,
{
    reveal_with_fuel(first_available, 3);
    let h = seq![TypeBackend::Ydotool, TypeBackend::Xdotool];
    assert(h.drop_first() =~= seq![TypeBackend::Xdotool]);
    assert(h.drop_first().drop_first() =~= Seq::<TypeBackend>::empty());
}

fn first_of(tools: &ToolAvailability, candidates: &[TypeBackend]) -> (r: Option<TypeBackend>)
    ensures
        r == first_available(*tools, candidates@),
{
    let n = candidates.len();
    let mut i: usize = 0;
    assert(candidates@.skip(0) =~= candidates@);
    while i < n
        invariant
            i <= n == candidates@.len(),
            first_available(*tools, candidates@) == first_available(
                *tools,
                candidates@.skip(i as int),
            ),
        decreases n - i,
    {
        let ghost rest = candidates@.skip(i as int);
        assert(rest[0] == candidates@[i as int]);
        assert(rest.drop_first() =~= candidates@.skip(i + 1));
        let b = candidates[i];
        let found = match b {
            TypeBackend::Ydotool => tools.ydotool,
            TypeBackend::Wtype => tools.wtype,
            TypeBackend::Xdotool => tools.xdotool,
            TypeBackend::Auto | TypeBackend::Off => false,
        };
        if found {
            return Some(b);
        }
        i = i + 1;
    }
    None
}

fn shortcut_candidates(tools: &ToolAvailability) -> (r: Option<TypeBackend>)
    ensures
        r == first_available(*tools, seq![TypeBackend::Ydotool, TypeBackend::Xdotool]),
{
    let c = [TypeBackend::Ydotool, TypeBackend::Xdotool];
    let r = first_of(tools, &c);
    assert(c@ =~= seq![TypeBackend::Ydotool, TypeBackend::Xdotool]);
    r
}

pub fn plan_delivery(config: &DeliveryConfig, tools: &ToolAvailability) -> (p: DeliveryPlan)
    ensures
        p == spec_plan_delivery(*config, *tools),
{
    let method = match config.method {
        DeliveryMethod::Auto => {
            let auto_backend = match config.type_backend {
                TypeBackend::Auto => shortcut_candidates(tools),
                TypeBackend::Ydotool | TypeBackend::Xdotool => Some(config.type_backend),
                TypeBackend::Wtype | TypeBackend::Off => None,
            };
            if auto_backend.is_some() {
                DeliveryMethod::Hotkey
            } else {
                DeliveryMethod::Type
            }
        },
        m => m,
    };
    let backend = match method {
        DeliveryMethod::Hotkey => match config.type_backend {
            TypeBackend::Auto => shortcut_candidates(tools),
            TypeBackend::Off => None,
            b => Some(b),
        },
        DeliveryMethod::Type => if config.type_backend != TypeBackend::Auto {
            if config.type_backend != TypeBackend::Off {
                Some(config.type_backend)
            } else {
                None
            }
        } else if tools.wayland {
            let c = [TypeBackend::Ydotool, TypeBackend::Wtype, TypeBackend::Xdotool];
            assert(c@ =~= seq![TypeBackend::Ydotool, TypeBackend::Wtype, TypeBackend::Xdotool]);
            first_of(tools, &c)
        } else {
            let c = [TypeBackend::Xdotool, TypeBackend::Ydotool, TypeBackend::Wtype];
            assert(c@ =~= seq![TypeBackend::Xdotool, TypeBackend::Ydotool, TypeBackend::Wtype]);
            first_of(tools, &c)
        },
        _ => None,
    };
    DeliveryPlan {
        method,
        copy: config.copy_to_clipboard || method == DeliveryMethod::Hotkey,
        backend,
    }
}

/// A call made on a delivery runtime, with what it returned.
pub enum RuntimeCall {
    CommandExists(Seq<char>, bool),
    IsWayland(bool),
    CopyToClipboard(Seq<char>, Result<(), String>),
    PasteWithHotkey(Option<TypeBackend>, PasteChord, Result<(), String>),
    TypeText(Option<TypeBackend>, Seq<char>, Result<(), String>),
    Sleep(u64),
}

/// A runtime together with the log of the calls made through it.
pub struct RecordedRuntime<R> {
    pub runtime: R,
    pub calls: Ghost<Seq<RuntimeCall>>,
}

impl<R: DeliveryRuntime> RecordedRuntime<R> {
    pub fn new(runtime: R) -> (r: Self)
        ensures
            r.runtime == runtime,
            r.calls@ == Seq::<RuntimeCall>::empty(),
    {
        RecordedRuntime { runtime, calls: Ghost(Seq::empty()) }
    }

    pub fn command_exists(&mut self, program: &str) -> (b: bool)
        ensures
            final(self).calls@ == old(self).calls@.push(RuntimeCall::CommandExists(program@, b)),
    {
        let b = self.runtime.command_exists(program);
        self.calls = Ghost(self.calls@.push(RuntimeCall::CommandExists(program@, b)));
        b
    }

    pub fn is_wayland(&mut self) -> (b: bool)
        ensures
            final(self).calls@ == old(self).calls@.push(RuntimeCall::IsWayland(b)),
    {
        let b = self.runtime.is_wayland();
        self.calls = Ghost(self.calls@.push(RuntimeCall::IsWayland(b)));
        b
    }

    pub fn copy_to_clipboard(&mut self, text: &str) -> (r: Result<(), String>)
        ensures
            final(self).calls@ == old(self).calls@.push(RuntimeCall::CopyToClipboard(text@, r)),
    {
        let r = self.runtime.copy_to_clipboard(text);
        self.calls = Ghost(self.calls@.push(RuntimeCall::CopyToClipboard(text@, r)));
        r
    }

    pub fn paste_with_hotkey(&mut self, backend: Option<TypeBackend>, chord: PasteChord) -> (r:
        Result<(), String>)
        ensures
            final(self).calls@ == old(self).calls@.push(
                RuntimeCall::PasteWithHotkey(backend, chord, r),
            ),
    {
        let r = self.runtime.paste_with_hotkey(backend, chord);
        self.calls = Ghost(self.calls@.push(RuntimeCall::PasteWithHotkey(backend, chord, r)));
        r
    }

    pub fn type_text(&mut self, backend: Option<TypeBackend>, text: &str) -> (r: Result<(), String>)
        ensures
            final(self).calls@ == old(self).calls@.push(RuntimeCall::TypeText(backend, text@, r)),
    {
        let r = self.runtime.type_text(backend, text);
        self.calls = Ghost(self.calls@.push(RuntimeCall::TypeText(backend, text@, r)));
        r
    }

    pub fn sleep(&mut self, delay_ms: u64)
        ensures
            final(self).calls@ == old(self).calls@.push(RuntimeCall::Sleep(delay_ms)),
    {
        self.runtime.sleep(delay_ms);
        self.calls = Ghost(self.calls@.push(RuntimeCall::Sleep(delay_ms)));
    }
}

/// The calls that find out which helpers are installed and whether the
/// session is Wayland, answered with `t`.
pub open spec fn probe_calls(t: ToolAvailability) -> Seq<RuntimeCall> {
    seq![
        RuntimeCall::CommandExists("ydotool"@, t.ydotool),
        RuntimeCall::CommandExists("wtype"@, t.wtype),
        RuntimeCall::CommandExists("xdotool"@, t.xdotool),
        RuntimeCall::IsWayland(t.wayland),
    ]
}

/// Asks the runtime which helpers are installed and whether the session is
/// Wayland.
pub fn probe_tools<R: DeliveryRuntime>(runtime: &mut RecordedRuntime<R>) -> (t: ToolAvailability)
    ensures
        final(runtime).calls@ == old(runtime).calls@ + probe_calls(t),
{
    let ydotool = runtime.command_exists("ydotool");
    let wtype = runtime.command_exists("wtype");
    let xdotool = runtime.command_exists("xdotool");
    let wayland = runtime.is_wayland();
    let t = ToolAvailability { ydotool, wtype, xdotool, wayland };
    assert(runtime.calls@ =~= old(runtime).calls@ + probe_calls(t));
    t
}

/// What holds of an outcome delivered by `plan`: nothing is copied unless
/// the plan copies, nothing is inserted without a method, and a paste
/// shortcut is never sent after the clipboard copy failed.
pub open spec fn delivered_by(plan: DeliveryPlan, o: DeliveryOutcome) -> bool {
    &&& !plan.copy ==> o.clipboard_error is None
    &&& plan.method == DeliveryMethod::Off ==> o.insertion_error is None
    &&& (plan.method == DeliveryMethod::Hotkey && o.clipboard_error is Some) ==> o.insertion_error
        is None
}

/// How far a delivery has come.
#[derive(Clone, Copy, Debug, Eq, PartialEq, Structural)]
pub enum DeliveryProgress {
    /// Nothing done yet.
    Begin,
    /// The clipboard copy was asked for.
    AfterCopy,
    /// The configured delay was waited.
    AfterWait,
    /// The paste shortcut was sent or the text typed.
    AfterInsert,
    /// The outcome was given.
    Done,
}

/// A delivery in progress: how far it came and the clipboard copy's error.
#[derive(Debug)]
pub struct DeliveryState {
    pub progress: DeliveryProgress,
    pub clipboard_error: Option<String>,
}

/// The next call a delivery makes on the runtime, or its outcome.
#[derive(Debug)]
pub enum DeliveryCall {
    /// `copy_to_clipboard(text)`.
    Copy,
    /// `sleep(delay_ms)`.
    Wait(u64),
    /// `paste_with_hotkey(backend, chord)`.
    Paste(Option<TypeBackend>, PasteChord),
    /// `type_text(backend, text)`.
    TypeText(Option<TypeBackend>),
    /// Delivery is over.
    Finish(DeliveryOutcome),
}

pub open spec fn error_view(last: Option<Result<(), String>>) -> Option<String> {
    match last {
        Some(Err(e)) => Some(e),
        _ => None,
    }
}

pub open spec fn finish_with(clipboard_error: Option<String>, insertion_error: Option<String>) -> (
    DeliveryState,
    DeliveryCall,
) {
    (
        DeliveryState { progress: DeliveryProgress::Done, clipboard_error },
        DeliveryCall::Finish(DeliveryOutcome { clipboard_error, insertion_error }),
    )
}

/// After the clipboard step: a paste shortcut is never sent over a
/// clipboard that failed to fill; pasting or typing first waits the delay;
/// with no method the delivery is over.
pub open spec fn spec_after_clipboard(plan: DeliveryPlan, delay_ms: u64, clipboard_error: Option<
    String,
>) -> (DeliveryState, DeliveryCall) {
    if plan.method == DeliveryMethod::Hotkey && clipboard_error is Some {
        finish_with(clipboard_error, None)
    } else if plan.method == DeliveryMethod::Hotkey || plan.method == DeliveryMethod::Type {
        (
            DeliveryState { progress: DeliveryProgress::AfterWait, clipboard_error },
            DeliveryCall::Wait(delay_ms),
        )
    } else {
        finish_with(clipboard_error, None)
    }
}

/// One step of delivering under `plan`: given the state and the result of
/// the call made last (none for a wait or at the start), the next state
/// and call. The clipboard is filled first when the plan copies; then, after
/// the delay, the shortcut is pasted or the text typed; each call's error
/// lands in the outcome.
pub open spec fn spec_delivery_step(
    plan: DeliveryPlan,
    config: DeliveryConfig,
    state: DeliveryState,
    last: Option<Result<(), String>>,
) -> (DeliveryState, DeliveryCall) {
    match state.progress {
        DeliveryProgress::Begin => if plan.copy {
            (
                DeliveryState { progress: DeliveryProgress::AfterCopy, clipboard_error: None },
                DeliveryCall::Copy,
            )
        } else {
            spec_after_clipboard(plan, config.delay_ms, None)
        },
        DeliveryProgress::AfterCopy => spec_after_clipboard(plan, config.delay_ms, error_view(last)),
        DeliveryProgress::AfterWait => match plan.method {
            DeliveryMethod::Hotkey => (
                DeliveryState {
                    progress: DeliveryProgress::AfterInsert,
                    clipboard_error: state.clipboard_error,
                },
                DeliveryCall::Paste(plan.backend, config.chord),
            ),
            DeliveryMethod::Type => (
                DeliveryState {
                    progress: DeliveryProgress::AfterInsert,
                    clipboard_error: state.clipboard_error,
                },
                DeliveryCall::TypeText(plan.backend),
            ),
            _ => finish_with(state.clipboard_error, None),
        },
        DeliveryProgress::AfterInsert => finish_with(state.clipboard_error, error_view(last)),
        DeliveryProgress::Done => finish_with(state.clipboard_error, None),
    }
}

pub open spec fn progress_rank(p: DeliveryProgress) -> int {
    match p {
        DeliveryProgress::Begin => 0,
        DeliveryProgress::AfterCopy => 1,
        DeliveryProgress::AfterWait => 2,
        DeliveryProgress::AfterInsert => 3,
        DeliveryProgress::Done => 4,
    }
}

/// What every state reached under `plan` satisfies: nothing was copied
/// unless the plan copies, and the insertion is reached only with a method
/// and never for a shortcut over a failed copy.
pub open spec fn delivery_state_ok(plan: DeliveryPlan, state: DeliveryState) -> bool {
    &&& !plan.copy ==> state.clipboard_error is None
    &&& state.progress == DeliveryProgress::AfterCopy ==> plan.copy
    &&& (state.progress == DeliveryProgress::AfterWait || state.progress
        == DeliveryProgress::AfterInsert) ==> {
        &&& plan.method == DeliveryMethod::Hotkey || plan.method == DeliveryMethod::Type
        &&& !(plan.method == DeliveryMethod::Hotkey && state.clipboard_error is Some)
    }
}

fn error_of(r: Option<Result<(), String>>) -> (e: Option<String>)
    ensures
        e == error_view(r),
{
    match r {
        Some(Err(e)) => Some(e),
        _ => None,
    }
}

fn after_clipboard(plan: &DeliveryPlan, delay_ms: u64, clipboard_error: Option<String>) -> (r: (
    DeliveryState,
    DeliveryCall,
))
    ensures
        r == spec_after_clipboard(*plan, delay_ms, clipboard_error),
{
    if plan.method == DeliveryMethod::Hotkey && clipboard_error.is_some() {
        return finish(clipboard_error, None);
    }
    if plan.method == DeliveryMethod::Hotkey || plan.method == DeliveryMethod::Type {
        (
            DeliveryState { progress: DeliveryProgress::AfterWait, clipboard_error },
            DeliveryCall::Wait(delay_ms),
        )
    } else {
        finish(clipboard_error, None)
    }
}

fn finish(clipboard_error: Option<String>, insertion_error: Option<String>) -> (r: (
    DeliveryState,
    DeliveryCall,
))
    ensures
        r == finish_with(clipboard_error, insertion_error),
{
    let copy = copy_opt(&clipboard_error);
    (
        DeliveryState { progress: DeliveryProgress::Done, clipboard_error: copy },
        DeliveryCall::Finish(DeliveryOutcome { clipboard_error, insertion_error }),
    )
}

fn copy_opt(o: &Option<String>) -> (r: Option<String>)
    ensures
        r == *o,
{
    match o {
        Some(s) => Some(s.clone()),
        None => None,
    }
}

pub fn delivery_step(
    plan: &DeliveryPlan,
    config: &DeliveryConfig,
    state: DeliveryState,
    last: Option<Result<(), String>>,
) -> (r: (DeliveryState, DeliveryCall))
    ensures
        r == spec_delivery_step(*plan, *config, state, last),
        delivery_state_ok(*plan, state) ==> delivery_state_ok(*plan, r.0),
        delivery_state_ok(*plan, state) ==> (r.1 matches DeliveryCall::Finish(o) ==> delivered_by(
            *plan,
            o,
        )),
        !(r.1 is Finish) ==> progress_rank(r.0.progress) > progress_rank(state.progress)
            && progress_rank(r.0.progress) < 4,
{
    match state.progress {
        DeliveryProgress::Begin => {
            if plan.copy {
                (
                    DeliveryState { progress: DeliveryProgress::AfterCopy, clipboard_error: None },
                    DeliveryCall::Copy,
                )
            } else {
                after_clipboard(plan, config.delay_ms, None)
            }
        },
        DeliveryProgress::AfterCopy => after_clipboard(plan, config.delay_ms, error_of(last)),
        DeliveryProgress::AfterWait => match plan.method {
            DeliveryMethod::Hotkey => (
                DeliveryState {
                    progress: DeliveryProgress::AfterInsert,
                    clipboard_error: state.clipboard_error,
                },
                DeliveryCall::Paste(plan.backend, config.chord),
            ),
            DeliveryMethod::Type => (
                DeliveryState {
                    progress: DeliveryProgress::AfterInsert,
                    clipboard_error: state.clipboard_error,
                },
                DeliveryCall::TypeText(plan.backend),
            ),
            _ => finish(state.clipboard_error, None),
        },
        DeliveryProgress::AfterInsert => finish(state.clipboard_error, error_of(last)),
        DeliveryProgress::Done => finish(state.clipboard_error, None),
    }
}

/// What the runtime is asked after the clipboard step, whose error is
/// `clipboard_error`, and the outcome: nothing more for a paste shortcut
/// over a failed copy or without a method; else the delay is waited, then
/// the shortcut pasted or the text typed, whose error is the insertion's.
pub open spec fn calls_after_clipboard(
    plan: DeliveryPlan,
    config: DeliveryConfig,
    text: Seq<char>,
    clipboard_error: Option<String>,
    calls: Seq<RuntimeCall>,
    o: DeliveryOutcome,
) -> bool {
    if plan.method == DeliveryMethod::Hotkey && clipboard_error is Some {
        calls.len() == 0 && o == (DeliveryOutcome { clipboard_error, insertion_error: None })
    } else if plan.method == DeliveryMethod::Hotkey {
        &&& calls.len() == 2
        &&& calls[0] == RuntimeCall::Sleep(config.delay_ms)
        &&& calls[1] matches RuntimeCall::PasteWithHotkey(b, c, r)
        &&& b == plan.backend
        &&& c == config.chord
        &&& o == (DeliveryOutcome { clipboard_error, insertion_error: error_view(Some(r)) })
    } else if plan.method == DeliveryMethod::Type {
        &&& calls.len() == 2
        &&& calls[0] == RuntimeCall::Sleep(config.delay_ms)
        &&& calls[1] matches RuntimeCall::TypeText(b, t, r)
        &&& b == plan.backend
        &&& t == text
        &&& o == (DeliveryOutcome { clipboard_error, insertion_error: error_view(Some(r)) })
    } else {
        calls.len() == 0 && o == (DeliveryOutcome { clipboard_error, insertion_error: None })
    }
}

/// The calls a delivery of `text` under `plan` makes, in order, and its
/// outcome: the clipboard is filled first, once, when the plan copies, and
/// its error is the copy's.
pub open spec fn delivered_through(
    plan: DeliveryPlan,
    config: DeliveryConfig,
    text: Seq<char>,
    calls: Seq<RuntimeCall>,
    o: DeliveryOutcome,
) -> bool {
    if plan.copy {
        &&& calls.len() >= 1
        &&& calls[0] matches RuntimeCall::CopyToClipboard(t, r)
        &&& t == text
        &&& calls_after_clipboard(plan, config, text, error_view(Some(r)), calls.drop_first(), o)
    } else {
        calls_after_clipboard(plan, config, text, None, calls, o)
    }
}

/// Delivers `text` through `runtime`: asks which helpers are installed,
/// plans the delivery, and runs `delivery_step`, making each call it names.
/// The calls made are the probe, then exactly the ones the plan prescribes,
/// in order, and each error in the outcome is the one its call returned.
pub fn deliver_with<R: DeliveryRuntime>(
    runtime: &mut RecordedRuntime<R>,
    config: &DeliveryConfig,
    text: &str,
) -> (o: DeliveryOutcome)
    ensures
        final(runtime).calls@.take(old(runtime).calls@.len() as int) == old(runtime).calls@,
        exists|t: ToolAvailability|
            {
                let calls = final(runtime).calls@.skip(old(runtime).calls@.len() as int);
                &&& calls.take(4) == #[trigger] probe_calls(t)
                &&& delivered_through(spec_plan_delivery(*config, t), *config, text@, calls.skip(4), o)
                &&& delivered_by(spec_plan_delivery(*config, t), o)
            },
{
    let ghost start = runtime.calls@;
    let tools = probe_tools(runtime);
    let ghost probed = runtime.calls@;
    let plan = plan_delivery(config, &tools);
    let begin = DeliveryState { progress: DeliveryProgress::Begin, clipboard_error: None };
    let (s1, c1) = delivery_step(&plan, config, begin, None);
    let (s2, c2) = match c1 {
        DeliveryCall::Copy => {
            let r = runtime.copy_to_clipboard(text);
            delivery_step(&plan, config, s1, Some(r))
        },
        other => (s1, other),
    };
    let (s3, c3) = match c2 {
        DeliveryCall::Wait(delay_ms) => {
            runtime.sleep(delay_ms);
            delivery_step(&plan, config, s2, None)
        },
        other => (s2, other),
    };
    let (s4, c4) = match c3 {
        DeliveryCall::Paste(backend, chord) => {
            let r = runtime.paste_with_hotkey(backend, chord);
            delivery_step(&plan, config, s3, Some(r))
        },
        DeliveryCall::TypeText(backend) => {
            let r = runtime.type_text(backend, text);
            delivery_step(&plan, config, s3, Some(r))
        },
        other => (s3, other),
    };
    let ghost tail = runtime.calls@.skip(probed.len() as int);
    proof {
        assert(runtime.calls@.skip(start.len() as int).take(4) =~= probe_calls(tools));
        assert(runtime.calls@.skip(start.len() as int).skip(4) =~= tail);
        assert(runtime.calls@.take(start.len() as int) =~= start);
        if plan.copy {
            assert(tail.drop_first() =~= runtime.calls@.skip(probed.len() + 1 as int));
        }
    }
    match c4 {
        DeliveryCall::Finish(o) => o,
        _ => {
            proof {
                assert(false);
            }
            DeliveryOutcome { clipboard_error: None, insertion_error: None }
        },
    }
}

/// The text is pasted or typed only right after the configured delay was
/// waited, and a paste shortcut never follows a failed clipboard copy.
pub proof fn lemma_insertion_follows_wait(
    plan: DeliveryPlan,
    config: DeliveryConfig,
    state: DeliveryState,
    last: Option<Result<(), String>>,
)
    ensures
        (spec_delivery_step(plan, config, state, last).1 is Paste || spec_delivery_step(
            plan,
            config,
            state,
            last,
        ).1 is TypeText) ==> state.progress == DeliveryProgress::AfterWait,
        spec_delivery_step(plan, config, state, last).1 is Wait ==> spec_delivery_step(
            plan,
            config,
            state,
            last,
        ).1 == DeliveryCall::Wait(config.delay_ms),
        state.progress == DeliveryProgress::AfterCopy && plan.method == DeliveryMethod::Hotkey ==> (
        last matches Some(Err(e)) ==> spec_delivery_step(plan, config, state, last).1
            == DeliveryCall::Finish(DeliveryOutcome { clipboard_error: Some(e), insertion_error: None })),
{
}

/// A plan never keeps the automatic method, and a paste shortcut always
/// comes with the clipboard filled first.
pub proof fn lemma_plan_is_concrete(config: DeliveryConfig, tools: ToolAvailability)
    ensures
        spec_plan_delivery(config, tools).method != DeliveryMethod::Auto,
        spec_plan_delivery(config, tools).method == DeliveryMethod::Hotkey ==> spec_plan_delivery(
            config,
            tools,
        ).copy,
        config.copy_to_clipboard ==> spec_plan_delivery(config, tools).copy,
{
}

/// The delivery settings a paste configuration names: an unknown method is
/// automatic, an unknown chord is Ctrl+V, and the backend is chosen
/// automatically.
pub open spec fn spec_delivery_config(
    method: Seq<char>,
    chord: Seq<char>,
    delay_ms: u64,
    copy_to_clipboard: bool,
) -> DeliveryConfig {
    DeliveryConfig {
        method: if method == "hotkey"@ {
            DeliveryMethod::Hotkey
        } else if method == "type"@ {
            DeliveryMethod::Type
        } else if method == "none"@ {
            DeliveryMethod::Off
        } else {
            DeliveryMethod::Auto
        },
        chord: if chord == "ctrl-shift-v"@ {
            PasteChord::CtrlShiftV
        } else {
            PasteChord::CtrlV
        },
        delay_ms,
        copy_to_clipboard,
        type_backend: TypeBackend::Auto,
    }
}

impl DeliveryConfig {
    pub fn from_paste_config(config: &PasteConfig) -> (d: Self)
        ensures
            d == spec_delivery_config(
                config.method@,
                config.chord@,
                config.delay_ms,
                config.copy_to_clipboard,
            ),
    {
        let m = chars_of(config.method.as_str());
        let method = if chars_eq_str(m.as_slice(), "hotkey") {
            DeliveryMethod::Hotkey
        } else if chars_eq_str(m.as_slice(), "type") {
            DeliveryMethod::Type
        } else if chars_eq_str(m.as_slice(), "none") {
            DeliveryMethod::Off
        } else {
            DeliveryMethod::Auto
        };
        let c = chars_of(config.chord.as_str());
        let chord = if chars_eq_str(c.as_slice(), "ctrl-shift-v") {
            PasteChord::CtrlShiftV
        } else {
            PasteChord::CtrlV
        };
        DeliveryConfig {
            method,
            chord,
            delay_ms: config.delay_ms,
            copy_to_clipboard: config.copy_to_clipboard,
            type_backend: TypeBackend::Auto,
        }
    }
}

impl<'a> From<&'a PasteConfig> for DeliveryConfig {
    fn from(config: &'a PasteConfig) -> (d: Self) {
        DeliveryConfig::from_paste_config(config)
    }
}

impl<'a> vstd::std_specs::convert::FromSpecImpl<&'a PasteConfig> for DeliveryConfig {
    open spec fn obeys_from_spec() -> bool {
        true
    }

    open spec fn from_spec(v: &'a PasteConfig) -> Self {
        spec_delivery_config(v.method@, v.chord@, v.delay_ms, v.copy_to_clipboard)
    }
}

} // verus!
