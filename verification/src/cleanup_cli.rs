//! Decisions of the `pickscribe-cleanup` helper: the cleanup policy and the
//! delivery settings its options stand for.
use vstd::prelude::*;
use crate::cleanup::{nonempty, CleanupCredentials, CleanupPolicy};
use crate::config::{EnvMap, DEFAULT_INSTRUCTIONS};
use crate::paste::{DeliveryConfig, DeliveryMethod, PasteChord, TypeBackend};
use crate::segments::opt_view;

verus! {

broadcast use vstd::string::group_string_axioms;

#[derive(Copy, Clone, Debug, Eq, PartialEq, Structural)]
pub enum Provider {
    Auto,
    Deepseek,
    Ollama,
    Openai,
    Off,
}

#[derive(Copy, Clone, Debug, Eq, PartialEq, Structural)]
pub enum PasteMethod {
    Auto,
    /// Copy to clipboard and send a paste key chord to the focused app.
    Hotkey,
    /// Simulate typing every character.
    Type,
    Off,
}

#[derive(Copy, Clone, Debug, Eq, PartialEq, Structural)]
pub enum DeepseekThinking {
    /// Do not send a thinking parameter.
    Auto,
    /// Ask DeepSeek to use thinking mode.
    Enabled,
    /// Ask DeepSeek to use non-thinking mode for faster cleanup.
    Disabled,
}

pub open spec fn provider_name(p: Provider) -> Seq<char> {
    match p {
        Provider::Auto => "auto"@,
        Provider::Deepseek => "deepseek"@,
        Provider::Ollama => "ollama"@,
        Provider::Openai => "openai"@,
        Provider::Off => "none"@,
    }
}

impl Provider {
    pub fn as_str(self) -> (r: &'static str)
        ensures
            r@ == provider_name(self),
    {
        match self {
            Provider::Auto => "auto",
            Provider::Deepseek => "deepseek",
            Provider::Ollama => "ollama",
            Provider::Openai => "openai",
            Provider::Off => "none",
        }
    }
}

pub open spec fn thinking_name(t: DeepseekThinking) -> Seq<char> {
    match t {
        DeepseekThinking::Auto => "auto"@,
        DeepseekThinking::Enabled => "enabled"@,
        DeepseekThinking::Disabled => "disabled"@,
    }
}

impl DeepseekThinking {
    pub fn as_str(self) -> (r: &'static str)
        ensures
            r@ == thinking_name(self),
    {
        match self {
            DeepseekThinking::Auto => "auto",
            DeepseekThinking::Enabled => "enabled",
            DeepseekThinking::Disabled => "disabled",
        }
    }
}

/// The helper's options, as parsed from its command line and environment.
#[derive(Debug, Clone)]
pub struct CleanupArgs {
    pub provider: Provider,
    pub model: Option<String>,
    pub deepseek_thinking: DeepseekThinking,
    pub endpoint: Option<String>,
    pub api_key: Option<String>,
    pub timeout_secs: u64,
    /// The temperature as the bit pattern of an `f32`.
    pub temperature_bits: u32,
    pub no_llm: bool,
    pub no_copy: bool,
    pub no_paste: bool,
    pub paste_method: PasteMethod,
    pub paste_chord: PasteChord,
    pub paste_delay_ms: u64,
    pub stdout_only: bool,
    pub type_backend: TypeBackend,
    pub instructions: Option<String>,
    pub local_only: bool,
}

pub open spec fn unwrap_or_empty(o: Option<String>) -> Seq<char> {
    match o {
        Some(s) => s@,
        None => Seq::empty(),
    }
}

/// A provider's key: the explicit `--api-key` when given and not empty,
/// else the provider's variable when set and not empty.
pub open spec fn spec_provider_key(
    explicit: Option<Seq<char>>,
    env: Map<Seq<char>, Seq<char>>,
    name: Seq<char>,
) -> Option<Seq<char>> {
    match explicit {
        Some(k) => Some(k),
        None => if env.contains_key(name) && env[name].len() > 0 {
            Some(env[name])
        } else {
            None
        },
    }
}

fn nonempty_copy(o: &Option<String>) -> (r: Option<String>)
    ensures
        opt_view(r) == nonempty(*o),
{
    match o {
        Some(s) => if s.as_str().is_empty() {
            None
        } else {
            Some(s.clone())
        },
        None => None,
    }
}

fn provider_key(explicit: &Option<String>, env: &EnvMap, name: &str) -> (r: Option<String>)
    requires
        env.wf(),
    ensures
        opt_view(r) == spec_provider_key(opt_view(*explicit), env@, name@),
{
    match explicit {
        Some(k) => Some(k.clone()),
        None => match env.get(name) {
            Some(v) => if v.as_str().is_empty() {
                None
            } else {
                Some(v)
            },
            None => None,
        },
    }
}

/// The cleanup policy the helper's options stand for.
pub fn cleanup_policy(args: &CleanupArgs, env: &EnvMap) -> (p: CleanupPolicy)
    requires
        env.wf(),
    ensures
        p.provider@ == if args.no_llm {
            "none"@
        } else {
            provider_name(args.provider)
        },
        p.endpoint@ == unwrap_or_empty(args.endpoint),
        p.model@ == unwrap_or_empty(args.model),
        opt_view(p.credentials.deepseek) == spec_provider_key(
            nonempty(args.api_key),
            env@,
            "DEEPSEEK_API_KEY"@,
        ),
        opt_view(p.credentials.openai) == spec_provider_key(
            nonempty(args.api_key),
            env@,
            "OPENAI_API_KEY"@,
        ),
        opt_view(p.credentials.ollama) == spec_provider_key(
            nonempty(args.api_key),
            env@,
            "OLLAMA_API_KEY"@,
        ),
        opt_view(p.credentials.custom) == nonempty(args.api_key),
        p.temperature_bits == args.temperature_bits,
        p.timeout_secs == args.timeout_secs,
        p.thinking@ == thinking_name(args.deepseek_thinking),
        p.instructions@ == match args.instructions {
            Some(i) => i@,
            None => DEFAULT_INSTRUCTIONS@,
        },
        p.local_only == args.local_only,
{
    let explicit_key = nonempty_copy(&args.api_key);
    CleanupPolicy {
        provider: if args.no_llm {
            "none".to_owned()
        } else {
            args.provider.as_str().to_owned()
        },
        endpoint: match &args.endpoint {
            Some(e) => e.clone(),
            None => String::new(),
        },
        model: match &args.model {
            Some(m) => m.clone(),
            None => String::new(),
        },
        credentials: CleanupCredentials {
            deepseek: provider_key(&explicit_key, env, "DEEPSEEK_API_KEY"),
            openai: provider_key(&explicit_key, env, "OPENAI_API_KEY"),
            ollama: provider_key(&explicit_key, env, "OLLAMA_API_KEY"),
            custom: explicit_key,
        },
        temperature_bits: args.temperature_bits,
        timeout_secs: args.timeout_secs,
        thinking: args.deepseek_thinking.as_str().to_owned(),
        instructions: match &args.instructions {
            Some(i) => i.clone(),
            None => DEFAULT_INSTRUCTIONS.to_owned(),
        },
        local_only: args.local_only,
    }
}

/// The delivery the helper's options stand for: `--stdout-only` and
/// `--no-paste` insert nothing, `--stdout-only` and `--no-copy` leave the
/// clipboard alone.
pub open spec fn spec_cli_delivery(args: CleanupArgs) -> DeliveryConfig {
    DeliveryConfig {
        method: if args.stdout_only || args.no_paste {
            DeliveryMethod::Off
        } else {
            match args.paste_method {
                PasteMethod::Auto => DeliveryMethod::Auto,
                PasteMethod::Hotkey => DeliveryMethod::Hotkey,
                PasteMethod::Type => DeliveryMethod::Type,
                PasteMethod::Off => DeliveryMethod::Off,
            }
        },
        chord: args.paste_chord,
        delay_ms: args.paste_delay_ms,
        copy_to_clipboard: !args.stdout_only && !args.no_copy,
        type_backend: args.type_backend,
    }
}

pub fn delivery_config(args: &CleanupArgs) -> (d: DeliveryConfig)
    ensures
        d == spec_cli_delivery(*args),
{
    let method = if args.stdout_only || args.no_paste {
        DeliveryMethod::Off
    } else {
        match args.paste_method {
            PasteMethod::Auto => DeliveryMethod::Auto,
            PasteMethod::Hotkey => DeliveryMethod::Hotkey,
            PasteMethod::Type => DeliveryMethod::Type,
            PasteMethod::Off => DeliveryMethod::Off,
        }
    };
    DeliveryConfig {
        method,
        chord: args.paste_chord,
        delay_ms: args.paste_delay_ms,
        copy_to_clipboard: !args.stdout_only && !args.no_copy,
        type_backend: args.type_backend,
    }
}

} // verus!
