//! Cleanup of dictated text by a language model: which provider, endpoint and
//! model a policy resolves to, what is asked of the model, and when its reply
//! is accepted. The HTTP exchange itself is made by the caller, between
//! `plan_cleanup` and `finish_cleanup`.
use vstd::prelude::*;
use crate::segments::opt_view;
use crate::text::{
    append_chars, append_str, char_lowercase, chars_eq, chars_eq_str, chars_of, ends_with,
    find_first, find_last, first_index_of, last_index_of, lowercase_char, slice_to_vec,
    split_whitespace, starts_with, string_of, trim, trim_end_char, trim_end_slashes, trimmed,
    views, words, contains_char, lex_less, lex_lt, lemma_lex_total, lemma_lex_transitive,
};

verus! {

broadcast use vstd::string::group_string_axioms;

// ---------------------------------------------------------------------------
// Types
// ---------------------------------------------------------------------------

/// What cleanup produced for one transcript.
#[derive(Debug, Clone)]
pub struct CleanupOutcome {
    pub text: String,
    pub provider: String,
    pub model: String,
    /// False when cleanup was disabled, failed, or was rejected as unsafe.
    pub cleaned: bool,
    pub error: Option<String>,
}

pub struct OutcomeView {
    pub text: Seq<char>,
    pub provider: Seq<char>,
    pub model: Seq<char>,
    pub cleaned: bool,
    pub error: Option<Seq<char>>,
}

impl View for CleanupOutcome {
    type V = OutcomeView;

    open spec fn view(&self) -> OutcomeView {
        OutcomeView {
            text: self.text@,
            provider: self.provider@,
            model: self.model@,
            cleaned: self.cleaned,
            error: opt_view(self.error),
        }
    }
}

/// API keys per provider, as resolved from the environment and the config.
#[derive(Debug, Clone, Default)]
pub struct CleanupCredentials {
    pub deepseek: Option<String>,
    pub openai: Option<String>,
    pub ollama: Option<String>,
    pub custom: Option<String>,
}

/// Everything cleanup needs to know, independent of where it was read from.
#[derive(Debug, Clone)]
pub struct CleanupPolicy {
    pub provider: String,
    pub endpoint: String,
    pub model: String,
    pub credentials: CleanupCredentials,
    /// The sampling temperature as the bit pattern of an `f32`; it is only
    /// handed on to the request.
    pub temperature_bits: u32,
    pub timeout_secs: u64,
    pub thinking: String,
    pub instructions: String,
    pub local_only: bool,
}

/// The environment values that the Ollama defaults come from
/// (`OLLAMA_HOST` and `OLLAMA_MODEL`), as read by the caller.
#[derive(Debug, Clone, Default)]
pub struct OllamaEnv {
    pub host: Option<String>,
    pub model: Option<String>,
}

#[derive(Debug, Copy, Clone, Eq, PartialEq, Structural)]
pub enum CleanupKind {
    Full,
    Segment,
}

#[derive(Debug, Copy, Clone, Eq, PartialEq, Structural)]
pub enum FailurePolicy {
    RawFallback,
    Strict,
}

/// The provider, endpoint, model and key that a policy resolved to.
#[derive(Debug)]
pub struct ResolvedCleanup {
    pub provider: String,
    pub endpoint: String,
    pub model: String,
    pub api_key: Option<String>,
}

pub struct TargetView {
    pub provider: Seq<char>,
    pub endpoint: Seq<char>,
    pub model: Seq<char>,
    pub api_key: Option<Seq<char>>,
}

impl View for ResolvedCleanup {
    type V = TargetView;

    open spec fn view(&self) -> TargetView {
        TargetView {
            provider: self.provider@,
            endpoint: self.endpoint@,
            model: self.model@,
            api_key: opt_view(self.api_key),
        }
    }
}

// ---------------------------------------------------------------------------
// Small string helpers
// ---------------------------------------------------------------------------

/// A value that counts as set: present and not empty.
pub open spec fn nonempty(o: Option<String>) -> Option<Seq<char>> {
    match o {
        Some(s) => if s@.len() > 0 {
            Some(s@)
        } else {
            None
        },
        None => None,
    }
}

fn nonempty_string(o: &Option<String>) -> (r: Option<String>)
    ensures
        opt_view(r) == nonempty(*o),
{
    match o {
        Some(s) => if s.as_str().is_empty() {
            None
        } else {
            Some(s.clone())
        },
        None => None,
    }
}

fn is_empty_string(s: &String) -> (b: bool)
    ensures
        b == (s@.len() == 0),
{
    s.as_str().is_empty()
}

/// `a` followed by `b`, as a string.
fn concat(a: &str, b: &[char]) -> (r: String)
    ensures
        r@ == a@ + b@,
{
    let mut v = chars_of(a);
    append_chars(&mut v, b);
    string_of(v.as_slice())
}

/// `a`, `b` and `c` one after the other, as a string.
fn concat3(a: &str, b: &[char], c: &str) -> (r: String)
    ensures
        r@ == a@ + b@ + c@,
{
    let mut v = chars_of(a);
    append_chars(&mut v, b);
    append_str(&mut v, c);
    string_of(v.as_slice())
}

// ---------------------------------------------------------------------------
// Credentials and provider choice
// ---------------------------------------------------------------------------

/// The key a provider uses: its own credential, when set and not empty.
pub open spec fn spec_key_for(c: CleanupCredentials, provider: Seq<char>) -> Option<Seq<char>> {
    if provider == "deepseek"@ {
        nonempty(c.deepseek)
    } else if provider == "openai"@ {
        nonempty(c.openai)
    } else if provider == "ollama"@ {
        nonempty(c.ollama)
    } else if provider == "custom"@ {
        nonempty(c.custom)
    } else {
        None
    }
}

impl CleanupCredentials {
    pub fn for_provider(&self, provider: &str) -> (r: Option<String>)
        ensures
            opt_view(r) == spec_key_for(*self, provider@),
    {
        let p = chars_of(provider);
        if chars_eq_str(p.as_slice(), "deepseek") {
            nonempty_string(&self.deepseek)
        } else if chars_eq_str(p.as_slice(), "openai") {
            nonempty_string(&self.openai)
        } else if chars_eq_str(p.as_slice(), "ollama") {
            nonempty_string(&self.ollama)
        } else if chars_eq_str(p.as_slice(), "custom") {
            nonempty_string(&self.custom)
        } else {
            None
        }
    }
}

/// The provider cleanup uses: the configured one, or for "auto" Ollama in
/// local-only mode, else the first provider with a key (DeepSeek, then
/// OpenAI), else Ollama.
pub open spec fn spec_effective_provider(p: CleanupPolicy) -> Seq<char> {
    if p.provider@ != "auto"@ {
        p.provider@
    } else if p.local_only {
        "ollama"@
    } else if p.credentials.deepseek is Some {
        "deepseek"@
    } else if p.credentials.openai is Some {
        "openai"@
    } else {
        "ollama"@
    }
}

pub fn effective_provider(policy: &CleanupPolicy) -> (r: String)
    ensures
        r@ == spec_effective_provider(*policy),
{
    let p = chars_of(policy.provider.as_str());
    if !chars_eq_str(p.as_slice(), "auto") {
        return policy.provider.clone();
    }
    if policy.local_only {
        return "ollama".to_owned();
    }
    if policy.credentials.deepseek.is_some() {
        "deepseek".to_owned()
    } else if policy.credentials.openai.is_some() {
        "openai".to_owned()
    } else {
        "ollama".to_owned()
    }
}

// ---------------------------------------------------------------------------
// Endpoints
// ---------------------------------------------------------------------------

/// `s` without a leading `http://` or `https://`.
pub open spec fn strip_scheme(s: Seq<char>) -> Seq<char> {
    if "http://"@.is_prefix_of(s) {
        s.skip("http://"@.len() as int)
    } else if "https://"@.is_prefix_of(s) {
        s.skip("https://"@.len() as int)
    } else {
        s
    }
}

/// What follows the scheme up to the path: user info, host and port.
pub open spec fn endpoint_authority(endpoint: Seq<char>) -> Seq<char> {
    let rest = strip_scheme(endpoint);
    rest.take(first_index_of(rest, '/'))
}

/// The host named by a URL: after the scheme, before the path, without the
/// port; the inside of the brackets for a bracketed IPv6 address.
pub open spec fn endpoint_host(endpoint: Seq<char>) -> Seq<char> {
    let host_port = endpoint_authority(endpoint);
    if host_port.len() > 0 && host_port[0] == '[' {
        let stripped = host_port.drop_first();
        stripped.take(first_index_of(stripped, ']'))
    } else {
        let j = last_index_of(host_port, ':');
        if j >= 0 {
            host_port.take(j)
        } else {
            host_port
        }
    }
}

/// Loopback hosts: the only ones that local-only mode lets text reach. An
/// authority carrying user info (`user@host`) is never taken as local, so
/// that text before an `@` cannot pose as the host.
pub open spec fn spec_is_local_endpoint(endpoint: Seq<char>) -> bool {
    let h = endpoint_host(endpoint);
    !endpoint_authority(endpoint).contains('@') && (h == "localhost"@ || h == "127.0.0.1"@ || h == "::1"@ || h == "0.0.0.0"@)
}

/// True when the endpoint points at this machine (loopback only).
pub fn is_local_endpoint(endpoint: &str) -> (b: bool)
    ensures
        b == spec_is_local_endpoint(endpoint@),
{
    let e = chars_of(endpoint);
    let n = e.len();
    let http = chars_of("http://");
    let https = chars_of("https://");
    let rest = if starts_with(e.as_slice(), http.as_slice()) {
        slice_to_vec(e.as_slice(), http.len(), n)
    } else if starts_with(e.as_slice(), https.as_slice()) {
        slice_to_vec(e.as_slice(), https.len(), n)
    } else {
        slice_to_vec(e.as_slice(), 0, n)
    };
    proof {
        assert(e@.subrange(0, n as int) =~= e@);
        assert(e@.subrange(http@.len() as int, n as int) =~= e@.skip(http@.len() as int));
        assert(e@.subrange(https@.len() as int, n as int) =~= e@.skip(https@.len() as int));
    }
    assert(rest@ == strip_scheme(endpoint@));
    let slash = find_first(rest.as_slice(), '/');
    let host_port = slice_to_vec(rest.as_slice(), 0, slash);
    assert(host_port@ =~= rest@.take(slash as int));
    let hn = host_port.len();
    if contains_char(host_port.as_slice(), '@') {
        return false;
    }
    let host = if hn > 0 && host_port[0] == '[' {
        let stripped = slice_to_vec(host_port.as_slice(), 1, hn);
        assert(stripped@ =~= host_port@.drop_first());
        let close = find_first(stripped.as_slice(), ']');
        let h = slice_to_vec(stripped.as_slice(), 0, close);
        assert(h@ =~= stripped@.take(close as int));
        h
    } else {
        match find_last(host_port.as_slice(), ':') {
            Some(j) => {
                let h = slice_to_vec(host_port.as_slice(), 0, j);
                assert(h@ =~= host_port@.take(j as int));
                h
            },
            None => {
                let h = slice_to_vec(host_port.as_slice(), 0, hn);
                assert(h@ =~= host_port@);
                h
            },
        }
    };
    chars_eq_str(host.as_slice(), "localhost") || chars_eq_str(host.as_slice(), "127.0.0.1")
        || chars_eq_str(host.as_slice(), "::1") || chars_eq_str(host.as_slice(), "0.0.0.0")
}

/// The provider's model list URL, derived from its chat completions URL.
pub open spec fn spec_models_url(chat_endpoint: Seq<char>) -> Seq<char> {
    let t = trim_end_char(chat_endpoint, '/');
    if "/chat/completions"@.is_suffix_of(t) {
        t.take(t.len() - "/chat/completions"@.len()) + "/models"@
    } else {
        t + "/models"@
    }
}

/// Derive the provider's /models URL from its chat completions endpoint.
pub fn models_url(chat_endpoint: &str) -> (r: String)
    ensures
        r@ == spec_models_url(chat_endpoint@),
{
    let e = chars_of(chat_endpoint);
    let t = trim_end_slashes(e.as_slice());
    let suffix = chars_of("/chat/completions");
    if ends_with(t.as_slice(), suffix.as_slice()) {
        let base = slice_to_vec(t.as_slice(), 0, t.len() - suffix.len());
        assert(base@ =~= t@.take(t@.len() - suffix@.len()));
        let mut out = base;
        append_str(&mut out, "/models");
        string_of(out.as_slice())
    } else {
        let mut out = t;
        append_str(&mut out, "/models");
        string_of(out.as_slice())
    }
}

/// The Ollama chat endpoint: `OLLAMA_HOST` when set (with `http://` added
/// when it names no scheme), else the local default, without trailing
/// slashes, followed by `/v1/chat/completions`.
pub open spec fn spec_ollama_endpoint(host: Option<Seq<char>>) -> Seq<char> {
    let h = match host {
        Some(h) => h,
        None => "http://127.0.0.1:11434"@,
    };
    let h = if "http://"@.is_prefix_of(h) || "https://"@.is_prefix_of(h) {
        h
    } else {
        "http://"@ + h
    };
    trim_end_char(h, '/') + "/v1/chat/completions"@
}

pub fn ollama_endpoint(host: &Option<String>) -> (r: String)
    ensures
        r@ == spec_ollama_endpoint(nonempty(*host)),
{
    let h = match nonempty_string(host) {
        Some(h) => chars_of(h.as_str()),
        None => chars_of("http://127.0.0.1:11434"),
    };
    let http = chars_of("http://");
    let https = chars_of("https://");
    let h = if starts_with(h.as_slice(), http.as_slice()) || starts_with(
        h.as_slice(),
        https.as_slice(),
    ) {
        h
    } else {
        let mut v = http;
        append_chars(&mut v, h.as_slice());
        v
    };
    let mut out = trim_end_slashes(h.as_slice());
    append_str(&mut out, "/v1/chat/completions");
    string_of(out.as_slice())
}

/// The Ollama model: `OLLAMA_MODEL` when set, else the default.
pub open spec fn spec_ollama_model(model: Option<Seq<char>>) -> Seq<char> {
    match model {
        Some(m) => m,
        None => "qwen2.5:14b"@,
    }
}

pub fn default_ollama_model(model: &Option<String>) -> (r: String)
    ensures
        r@ == spec_ollama_model(nonempty(*model)),
{
    match nonempty_string(model) {
        Some(m) => m,
        None => "qwen2.5:14b".to_owned(),
    }
}


// ---------------------------------------------------------------------------
// Resolving a policy
// ---------------------------------------------------------------------------

pub const NO_ENDPOINT_MESSAGE: &'static str = "custom provider needs an endpoint (full /chat/completions URL)";

pub const DISABLED_MESSAGE: &'static str = "cleanup disabled";

/// The default endpoint and model of a provider, or why there is none.
pub open spec fn spec_provider_defaults(p: CleanupPolicy, env: OllamaEnv, provider: Seq<char>) -> Result<
    (Seq<char>, Seq<char>),
    Seq<char>,
> {
    if provider == "deepseek"@ {
        Ok(("https://api.deepseek.com/v1/chat/completions"@, "deepseek-v4-flash"@))
    } else if provider == "openai"@ {
        Ok(("https://api.openai.com/v1/chat/completions"@, "gpt-4o-mini"@))
    } else if provider == "ollama"@ {
        Ok((spec_ollama_endpoint(nonempty(env.host)), spec_ollama_model(nonempty(env.model))))
    } else if provider == "custom"@ {
        if p.endpoint@.len() == 0 {
            Err(NO_ENDPOINT_MESSAGE@)
        } else {
            Ok((p.endpoint@, p.model@))
        }
    } else if provider == "none"@ {
        Err(DISABLED_MESSAGE@)
    } else {
        Err("unknown cleanup provider: "@ + provider)
    }
}

fn provider_defaults(policy: &CleanupPolicy, env: &OllamaEnv, provider: &[char]) -> (r: Result<
    (String, String),
    String,
>)
    ensures
        match r {
            Ok(d) => spec_provider_defaults(*policy, *env, provider@) == Ok::<
                (Seq<char>, Seq<char>),
                Seq<char>,
            >((d.0@, d.1@)),
            Err(e) => spec_provider_defaults(*policy, *env, provider@) == Err::<
                (Seq<char>, Seq<char>),
                Seq<char>,
            >(e@),
        },
{
    if chars_eq_str(provider, "deepseek") {
        Ok(
            (
                "https://api.deepseek.com/v1/chat/completions".to_owned(),
                "deepseek-v4-flash".to_owned(),
            ),
        )
    } else if chars_eq_str(provider, "openai") {
        Ok(("https://api.openai.com/v1/chat/completions".to_owned(), "gpt-4o-mini".to_owned()))
    } else if chars_eq_str(provider, "ollama") {
        Ok((ollama_endpoint(&env.host), default_ollama_model(&env.model)))
    } else if chars_eq_str(provider, "custom") {
        if is_empty_string(&policy.endpoint) {
            Err(NO_ENDPOINT_MESSAGE.to_owned())
        } else {
            Ok((policy.endpoint.clone(), policy.model.clone()))
        }
    } else if chars_eq_str(provider, "none") {
        Err(DISABLED_MESSAGE.to_owned())
    } else {
        Err(concat("unknown cleanup provider: ", provider))
    }
}

/// What `resolve_policy` answers: the provider's defaults, overridden by a
/// configured endpoint and model; refused in local-only mode for a remote
/// endpoint or an Ollama `:cloud` model; refused for DeepSeek and OpenAI
/// without a key.
pub open spec fn spec_resolve(p: CleanupPolicy, env: OllamaEnv) -> Result<TargetView, Seq<char>> {
    let provider = spec_effective_provider(p);
    match spec_provider_defaults(p, env, provider) {
        Err(e) => Err(e),
        Ok(d) => {
            let endpoint = if p.endpoint@.len() == 0 {
                d.0
            } else {
                p.endpoint@
            };
            let model = if p.model@.len() == 0 {
                d.1
            } else {
                p.model@
            };
            let key = spec_key_for(p.credentials, provider);
            if p.local_only && !spec_is_local_endpoint(endpoint) {
                Err(
                    "local-only mode blocks remote endpoint "@ + endpoint
                        + " — use Ollama or disable cleanup"@,
                )
            } else if p.local_only && ":cloud"@.is_suffix_of(model) {
                Err(
                    "local-only mode blocks "@ + model
                        + " — Ollama ':cloud' models run on ollama.com; pull a local model instead"@,
                )
            } else if key is None && (provider == "deepseek"@ || provider == "openai"@) {
                Err("no API key configured for provider "@ + provider)
            } else {
                Ok(TargetView { provider, endpoint, model, api_key: key })
            }
        },
    }
}

pub fn resolve_policy(policy: &CleanupPolicy, env: &OllamaEnv) -> (r: Result<ResolvedCleanup, String>)
    ensures
        match r {
            Ok(t) => spec_resolve(*policy, *env) == Ok::<TargetView, Seq<char>>(t@),
            Err(e) => spec_resolve(*policy, *env) == Err::<TargetView, Seq<char>>(e@),
        },
{
    let provider = effective_provider(policy);
    let pc = chars_of(provider.as_str());
    let (default_endpoint, default_model) = match provider_defaults(policy, env, pc.as_slice()) {
        Ok(d) => d,
        Err(e) => return Err(e),
    };
    let endpoint = if is_empty_string(&policy.endpoint) {
        default_endpoint
    } else {
        policy.endpoint.clone()
    };
    let model = if is_empty_string(&policy.model) {
        default_model
    } else {
        policy.model.clone()
    };
    if policy.local_only && !is_local_endpoint(endpoint.as_str()) {
        let ec = chars_of(endpoint.as_str());
        return Err(
            concat3(
                "local-only mode blocks remote endpoint ",
                ec.as_slice(),
                " — use Ollama or disable cleanup",
            ),
        );
    }
    let mc = chars_of(model.as_str());
    let cloud = chars_of(":cloud");
    if policy.local_only && ends_with(mc.as_slice(), cloud.as_slice()) {
        return Err(
            concat3(
                "local-only mode blocks ",
                mc.as_slice(),
                " — Ollama ':cloud' models run on ollama.com; pull a local model instead",
            ),
        );
    }
    let api_key = policy.credentials.for_provider(provider.as_str());
    if api_key.is_none() && (chars_eq_str(pc.as_slice(), "deepseek") || chars_eq_str(
        pc.as_slice(),
        "openai",
    )) {
        return Err(concat("no API key configured for provider ", pc.as_slice()));
    }
    let t = ResolvedCleanup { provider, endpoint, model, api_key };
    assert(spec_resolve(*policy, *env) == Ok::<TargetView, Seq<char>>(t@));
    Ok(t)
}

// ---------------------------------------------------------------------------
// What is asked of the model
// ---------------------------------------------------------------------------

pub const FULL_SYSTEM_PROMPT: &'static str = "You clean up dictated text for immediate pasting.";

pub const SEGMENT_SYSTEM_PROMPT: &'static str = "You clean one short dictated transcript fragment for a live preview.";

pub const SEGMENT_RULES: &'static str = "\n\nReturn only a conservative cleanup of this fragment. Do not add examples, complete unfinished thoughts, expand lists, or use words not supported by the fragment.";

/// The system and user messages for a transcript.
pub open spec fn spec_prompts(instructions: Seq<char>, transcript: Seq<char>, kind: CleanupKind) -> (
    Seq<char>,
    Seq<char>,
) {
    match kind {
        CleanupKind::Full => (FULL_SYSTEM_PROMPT@, instructions + "\n\nText:\n"@ + transcript),
        CleanupKind::Segment => (
            SEGMENT_SYSTEM_PROMPT@,
            "Cleanup instructions, spelling notes, and vocabulary:\n"@ + instructions
                + "\n\nFragment:\n"@ + transcript + SEGMENT_RULES@,
        ),
    }
}

pub fn prompts(policy: &CleanupPolicy, transcript: &str, kind: CleanupKind) -> (r: (String, String))
    ensures
        (r.0@, r.1@) == spec_prompts(policy.instructions@, transcript@, kind),
{
    match kind {
        CleanupKind::Full => {
            let mut user = chars_of(policy.instructions.as_str());
            append_str(&mut user, "\n\nText:\n");
            append_str(&mut user, transcript);
            (FULL_SYSTEM_PROMPT.to_owned(), string_of(user.as_slice()))
        },
        CleanupKind::Segment => {
            let mut user = chars_of("Cleanup instructions, spelling notes, and vocabulary:\n");
            append_str(&mut user, policy.instructions.as_str());
            append_str(&mut user, "\n\nFragment:\n");
            append_str(&mut user, transcript);
            append_str(&mut user, SEGMENT_RULES);
            (SEGMENT_SYSTEM_PROMPT.to_owned(), string_of(user.as_slice()))
        },
    }
}

/// The full-cleanup user message is the policy's instructions, a blank
/// line, `Text:` on a line of its own, and the transcript: the instructions
/// are a prefix of it and the transcript a suffix.
pub proof fn lemma_full_prompt_carries_instructions(instructions: Seq<char>, transcript: Seq<char>)
    ensures
        ({
            let (system, user) = spec_prompts(instructions, transcript, CleanupKind::Full);
            let n = instructions.len() as int;
            &&& system == FULL_SYSTEM_PROMPT@
            &&& user.len() == n + 8 + transcript.len()
            &&& user.take(n) == instructions
            &&& user.subrange(n, n + 8) == seq!['\n', '\n', 'T', 'e', 'x', 't', ':', '\n']
            &&& user.skip(n + 8) == transcript
        }),
{
    reveal_strlit("\n\nText:\n");
    let user = spec_prompts(instructions, transcript, CleanupKind::Full).1;
    let n = instructions.len() as int;
    assert(user.take(n) =~= instructions);
    assert(user.subrange(n, n + 8) =~= seq!['\n', '\n', 'T', 'e', 'x', 't', ':', '\n']);
    assert(user.skip(n + 8) =~= transcript);
}

/// The segment-cleanup user message carries the instructions after its
/// fixed header, and ends with the fragment followed by the fixed rules.
pub proof fn lemma_segment_prompt_carries_instructions(instructions: Seq<char>, transcript: Seq<char>)
    ensures
        ({
            let (system, user) = spec_prompts(instructions, transcript, CleanupKind::Segment);
            let n = instructions.len() as int;
            let m = transcript.len() as int;
            &&& system == SEGMENT_SYSTEM_PROMPT@
            &&& user.len() == 54 + n + 12 + m + 163
            &&& user.subrange(54, 54 + n) == instructions
            &&& user.subrange(54 + n + 12, 54 + n + 12 + m) == transcript
            &&& user.skip(54 + n + 12 + m) == SEGMENT_RULES@
        }),
{
    reveal_strlit("Cleanup instructions, spelling notes, and vocabulary:\n");
    reveal_strlit("\n\nFragment:\n");
    reveal_strlit("\n\nReturn only a conservative cleanup of this fragment. Do not add examples, complete unfinished thoughts, expand lists, or use words not supported by the fragment.");
    let user = spec_prompts(instructions, transcript, CleanupKind::Segment).1;
    let n = instructions.len() as int;
    let m = transcript.len() as int;
    assert(user.subrange(54, 54 + n) =~= instructions);
    assert(user.subrange(54 + n + 12, 54 + n + 12 + m) =~= transcript);
    assert(user.skip(54 + n + 12 + m) =~= SEGMENT_RULES@);
}

/// DeepSeek's thinking mode is sent only to DeepSeek, and only when the
/// policy names "enabled" or "disabled".
pub open spec fn spec_thinking(provider: Seq<char>, thinking: Seq<char>) -> Option<Seq<char>> {
    if provider == "deepseek"@ && (thinking == "enabled"@ || thinking == "disabled"@) {
        Some(thinking)
    } else {
        None
    }
}

fn thinking_mode(provider: &String, thinking: &String) -> (r: Option<String>)
    ensures
        opt_view(r) == spec_thinking(provider@, thinking@),
{
    let p = chars_of(provider.as_str());
    let t = chars_of(thinking.as_str());
    if chars_eq_str(p.as_slice(), "deepseek") && (chars_eq_str(t.as_slice(), "enabled")
        || chars_eq_str(t.as_slice(), "disabled")) {
        Some(thinking.clone())
    } else {
        None
    }
}


// ---------------------------------------------------------------------------
// Token comparison for segment cleanup
// ---------------------------------------------------------------------------

/// Punctuation that may be added or dropped at a word's edges.
pub open spec fn is_boundary(c: char) -> bool {
    c == '.' || c == ',' || c == ';' || c == ':' || c == '!' || c == '?' || c == '"' || c
        == '\'' || c == '`' || c == '(' || c == ')' || c == '[' || c == ']' || c == '{' || c
        == '}' || c == '<' || c == '>' || c == '-' || c == '—' || c == '–' || c == '“' || c
        == '”' || c == '‘' || c == '’'
}

pub fn is_boundary_punctuation(ch: char) -> (b: bool)
    ensures
        b == is_boundary(ch),
{
    matches!(
        ch,
        '.' | ',' | ';' | ':' | '!' | '?' | '"' | '\'' | '`' | '(' | ')' | '[' | ']' | '{' | '}'
            | '<' | '>' | '-' | '—' | '–' | '“' | '”' | '‘' | '’'
    )
}

/// Each character of `w` replaced by its lowercase form.
pub open spec fn lower_chars(w: Seq<char>) -> Seq<char>
    decreases w.len(),
{
    if w.len() == 0 {
        Seq::empty()
    } else {
        lower_chars(w.drop_last()) + char_lowercase(w.last())
    }
}

fn lowercase_chars(w: &[char]) -> (r: Vec<char>)
    ensures
        r@ == lower_chars(w@),
{
    let mut out: Vec<char> = Vec::new();
    for i in 0..w.len()
        invariant
            out@ == lower_chars(w@.take(i as int)),
    {
        let l = lowercase_char(w[i]);
        append_chars(&mut out, l.as_slice());
        assert(w@.take(i + 1).drop_last() =~= w@.take(i as int));
    }
    assert(w@.take(w@.len() as int) =~= w@);
    out
}

pub open spec fn strip_start_boundary(s: Seq<char>) -> Seq<char>
    decreases s.len(),
{
    if s.len() > 0 && is_boundary(s[0]) {
        strip_start_boundary(s.drop_first())
    } else {
        s
    }
}

pub open spec fn strip_end_boundary(s: Seq<char>) -> Seq<char>
    decreases s.len(),
{
    if s.len() > 0 && is_boundary(s.last()) {
        strip_end_boundary(s.drop_last())
    } else {
        s
    }
}

proof fn lemma_strip_start_boundary(s: Seq<char>, i: int)
    requires
        0 <= i <= s.len(),
        forall|k: int| 0 <= k < i ==> is_boundary(#[trigger] s[k]),
        i == s.len() || !is_boundary(s[i]),
    ensures
        strip_start_boundary(s) == s.skip(i),
    decreases i,
{
    if i == 0 {
        assert(s.skip(0) =~= s);
    } else {
        let t = s.drop_first();
        assert forall|k: int| 0 <= k < i - 1 implies is_boundary(#[trigger] t[k]) by {
            assert(t[k] == s[k + 1]);
        }
        if i < s.len() {
            assert(t[i - 1] == s[i]);
        }
        lemma_strip_start_boundary(t, i - 1);
        assert(t.skip(i - 1) =~= s.skip(i));
    }
}

proof fn lemma_strip_end_boundary(s: Seq<char>, j: int)
    requires
        0 <= j <= s.len(),
        forall|k: int| j <= k < s.len() ==> is_boundary(#[trigger] s[k]),
        j == 0 || !is_boundary(s[j - 1]),
    ensures
        strip_end_boundary(s) == s.take(j),
    decreases s.len() - j,
{
    if j == s.len() {
        assert(s.take(j) =~= s);
    } else {
        let t = s.drop_last();
        assert forall|k: int| j <= k < t.len() implies is_boundary(#[trigger] t[k]) by {
            assert(t[k] == s[k]);
        }
        if j > 0 {
            assert(t[j - 1] == s[j - 1]);
        }
        lemma_strip_end_boundary(t, j);
        assert(t.take(j) =~= s.take(j));
    }
}

fn trim_boundary(s: &[char]) -> (r: Vec<char>)
    ensures
        r@ == strip_end_boundary(strip_start_boundary(s@)),
{
    let n = s.len();
    let mut i: usize = 0;
    while i < n && is_boundary_punctuation(s[i])
        invariant
            i <= n == s@.len(),
            forall|k: int| 0 <= k < i ==> is_boundary(#[trigger] s@[k]),
        decreases n - i,
    {
        i = i + 1;
    }
    proof {
        lemma_strip_start_boundary(s@, i as int);
    }
    let mut j: usize = n;
    while j > i && is_boundary_punctuation(s[j - 1])
        invariant
            i <= j <= n == s@.len(),
            forall|k: int| j <= k < n ==> is_boundary(#[trigger] s@[k]),
        decreases j - i,
    {
        j = j - 1;
    }
    proof {
        let t = s@.skip(i as int);
        assert forall|k: int| j - i <= k < t.len() implies is_boundary(#[trigger] t[k]) by {
            assert(t[k] == s@[k + i]);
        }
        if j > i {
            assert(t[j - i - 1] == s@[j - 1]);
        }
        lemma_strip_end_boundary(t, j - i);
        assert(t.take(j - i) =~= s@.subrange(i as int, j as int));
    }
    slice_to_vec(s, i, j)
}

/// A word lowercased, with edge punctuation removed; none when nothing is
/// left.
pub open spec fn spec_normalized_token(w: Seq<char>) -> Option<Seq<char>> {
    let t = strip_end_boundary(strip_start_boundary(lower_chars(w)));
    if t.len() > 0 {
        Some(t)
    } else {
        None
    }
}

fn normalized_token(word: &[char]) -> (r: Option<Vec<char>>)
    ensures
        match r {
            Some(t) => spec_normalized_token(word@) == Some(t@),
            None => spec_normalized_token(word@) is None,
        },
{
    let lower = lowercase_chars(word);
    let t = trim_boundary(lower.as_slice());
    if t.len() > 0 {
        Some(t)
    } else {
        None
    }
}

/// The normalized tokens of a sequence of words, in order.
pub open spec fn tokens_of(ws: Seq<Seq<char>>) -> Seq<Seq<char>>
    decreases ws.len(),
{
    if ws.len() == 0 {
        Seq::empty()
    } else {
        let rest = tokens_of(ws.drop_last());
        match spec_normalized_token(ws.last()) {
            Some(t) => rest.push(t),
            None => rest,
        }
    }
}

pub open spec fn spec_normalized_tokens(text: Seq<char>) -> Seq<Seq<char>> {
    tokens_of(words(text))
}

fn normalized_tokens(text: &[char]) -> (r: Vec<Vec<char>>)
    ensures
        views(r@) == spec_normalized_tokens(text@),
{
    let ws = split_whitespace(text);
    let mut out: Vec<Vec<char>> = Vec::new();
    for i in 0..ws.len()
        invariant
            views(ws@) == words(text@),
            views(out@) == tokens_of(views(ws@).take(i as int)),
    {
        let ghost before = out@;
        assert(views(ws@).take(i + 1).drop_last() =~= views(ws@).take(i as int));
        assert(views(ws@).take(i + 1).last() == ws@[i as int]@);
        match normalized_token(ws[i].as_slice()) {
            Some(t) => {
                let ghost tv = t@;
                out.push(t);
                assert(views(out@) =~= views(before).push(tv));
            },
            None => {},
        }
    }
    assert(views(ws@).take(ws@.len() as int) =~= views(ws@));
    out
}

fn token_lists_equal(a: &Vec<Vec<char>>, b: &Vec<Vec<char>>) -> (r: bool)
    ensures
        r == (views(a@) == views(b@)),
{
    if a.len() != b.len() {
        assert(views(a@).len() != views(b@).len());
        return false;
    }
    for i in 0..a.len()
        invariant
            a@.len() == b@.len(),
            forall|k: int| 0 <= k < i ==> #[trigger] a@[k]@ == b@[k]@,
    {
        if !chars_eq(a[i].as_slice(), b[i].as_slice()) {
            assert(views(a@)[i as int] != views(b@)[i as int]);
            return false;
        }
    }
    assert(views(a@) =~= views(b@));
    true
}

/// A segment cleanup is accepted only when it keeps the fragment's words:
/// the same non-empty list of tokens, compared lowercased and without edge
/// punctuation.
pub open spec fn spec_segment_cleanup_is_safe(raw: Seq<char>, cleaned: Seq<char>) -> bool {
    spec_normalized_tokens(raw).len() > 0 && spec_normalized_tokens(raw)
        == spec_normalized_tokens(cleaned)
}

pub fn segment_cleanup_is_safe(raw: &str, cleaned: &str) -> (b: bool)
    ensures
        b == spec_segment_cleanup_is_safe(raw@, cleaned@),
{
    let rc = chars_of(raw);
    let cc = chars_of(cleaned);
    let raw_tokens = normalized_tokens(rc.as_slice());
    if raw_tokens.len() == 0 {
        return false;
    }
    let cleaned_tokens = normalized_tokens(cc.as_slice());
    token_lists_equal(&raw_tokens, &cleaned_tokens)
}

// ---------------------------------------------------------------------------
// Outcomes
// ---------------------------------------------------------------------------

/// The transcript handed back as it was.
pub open spec fn raw_view(
    transcript: Seq<char>,
    provider: Seq<char>,
    model: Seq<char>,
    error: Option<Seq<char>>,
) -> OutcomeView {
    OutcomeView { text: transcript, provider, model, cleaned: false, error }
}

/// A cleaned text from the resolved target.
pub open spec fn cleaned_view(t: TargetView, text: Seq<char>) -> OutcomeView {
    OutcomeView { text, provider: t.provider, model: t.model, cleaned: true, error: None }
}

pub fn raw_outcome(transcript: &str, provider: String, model: String, error: Option<String>) -> (o:
    CleanupOutcome)
    ensures
        o@ == raw_view(transcript@, provider@, model@, opt_view(error)),
{
    CleanupOutcome { text: transcript.to_owned(), provider, model, cleaned: false, error }
}

pub fn cleaned_outcome(target: &ResolvedCleanup, text: &str) -> (o: CleanupOutcome)
    ensures
        o@ == cleaned_view(target@, text@),
{
    CleanupOutcome {
        text: text.to_owned(),
        provider: target.provider.clone(),
        model: target.model.clone(),
        cleaned: true,
        error: None,
    }
}

pub const DIVERGED_MESSAGE: &'static str = "segment cleanup output diverged from the source fragment";

/// How a segment reply is taken: no text or no change gives the fragment
/// back without an error; a reply that keeps the fragment's tokens is used;
/// any other reply is refused with an error.
pub open spec fn spec_interpret_segment(t: TargetView, transcript: Seq<char>, cleaned: Seq<char>) -> OutcomeView {
    let c = trimmed(cleaned);
    if c.len() == 0 || c == trimmed(transcript) {
        raw_view(transcript, t.provider, t.model, None)
    } else if spec_segment_cleanup_is_safe(transcript, c) {
        cleaned_view(t, c)
    } else {
        raw_view(transcript, t.provider, t.model, Some(DIVERGED_MESSAGE@))
    }
}

pub fn interpret_segment(target: &ResolvedCleanup, transcript: &str, cleaned: &str) -> (o:
    CleanupOutcome)
    ensures
        o@ == spec_interpret_segment(target@, transcript@, cleaned@),
{
    let cc = chars_of(cleaned);
    let c = trim(cc.as_slice());
    let tc = chars_of(transcript);
    let tt = trim(tc.as_slice());
    if c.len() == 0 || chars_eq(c.as_slice(), tt.as_slice()) {
        raw_outcome(transcript, target.provider.clone(), target.model.clone(), None)
    } else {
        let cs = string_of(c.as_slice());
        if segment_cleanup_is_safe(transcript, cs.as_str()) {
            cleaned_outcome(target, cs.as_str())
        } else {
            raw_outcome(
                transcript,
                target.provider.clone(),
                target.model.clone(),
                Some(DIVERGED_MESSAGE.to_owned()),
            )
        }
    }
}

/// A failure under a failure policy: strict returns the error, raw fallback
/// returns the transcript with the error recorded.
pub open spec fn spec_failure(
    fp: FailurePolicy,
    transcript: Seq<char>,
    provider: Seq<char>,
    model: Seq<char>,
    error: Seq<char>,
) -> Result<OutcomeView, Seq<char>> {
    if fp == FailurePolicy::Strict {
        Err(error)
    } else {
        Ok(raw_view(transcript, provider, model, Some(error)))
    }
}

pub open spec fn outcome_result(r: Result<CleanupOutcome, String>) -> Result<OutcomeView, Seq<char>> {
    match r {
        Ok(o) => Ok(o@),
        Err(e) => Err(e@),
    }
}

pub fn handle_failure(
    policy: &CleanupPolicy,
    transcript: &str,
    failure_policy: FailurePolicy,
    error: String,
) -> (r: Result<CleanupOutcome, String>)
    ensures
        outcome_result(r) == spec_failure(
            failure_policy,
            transcript@,
            spec_effective_provider(*policy),
            policy.model@,
            error@,
        ),
{
    if failure_policy == FailurePolicy::Strict {
        return Err(error);
    }
    Ok(raw_outcome(transcript, effective_provider(policy), policy.model.clone(), Some(error)))
}

pub fn handle_resolved_failure(
    transcript: &str,
    failure_policy: FailurePolicy,
    target: &ResolvedCleanup,
    error: String,
) -> (r: Result<CleanupOutcome, String>)
    ensures
        outcome_result(r) == spec_failure(
            failure_policy,
            transcript@,
            target.provider@,
            target.model@,
            error@,
        ),
{
    if failure_policy == FailurePolicy::Strict {
        return Err(error);
    }
    Ok(raw_outcome(transcript, target.provider.clone(), target.model.clone(), Some(error)))
}


// ---------------------------------------------------------------------------
// One cleanup, around the request the caller sends
// ---------------------------------------------------------------------------

/// The request to send: to the resolved target, with these messages.
#[derive(Debug)]
pub struct CleanupRequest {
    pub target: ResolvedCleanup,
    pub system: String,
    pub user: String,
    /// DeepSeek's thinking mode ("enabled" or "disabled"), when one is sent.
    pub thinking: Option<String>,
}

/// The first half of a cleanup: either it is already decided, or a request
/// must be sent and its reply handed to `finish_cleanup`.
#[derive(Debug)]
pub enum CleanupStep {
    Done(CleanupOutcome),
    Request(CleanupRequest),
}

pub struct RequestView {
    pub target: TargetView,
    pub system: Seq<char>,
    pub user: Seq<char>,
    pub thinking: Option<Seq<char>>,
}

pub enum StepView {
    Done(OutcomeView),
    Request(RequestView),
}

pub open spec fn step_result(r: Result<CleanupStep, String>) -> Result<StepView, Seq<char>> {
    match r {
        Ok(CleanupStep::Done(o)) => Ok(StepView::Done(o@)),
        Ok(CleanupStep::Request(q)) => Ok(
            StepView::Request(
                RequestView {
                    target: q.target@,
                    system: q.system@,
                    user: q.user@,
                    thinking: opt_view(q.thinking),
                },
            ),
        ),
        Err(e) => Err(e@),
    }
}

pub open spec fn done_with(r: Result<OutcomeView, Seq<char>>) -> Result<StepView, Seq<char>> {
    match r {
        Ok(o) => Ok(StepView::Done(o)),
        Err(e) => Err(e),
    }
}

pub const NO_MODEL_MESSAGE: &'static str = "no model set for the custom provider — fetch or type one in Settings";

pub const NO_TEXT_MESSAGE: &'static str = "LLM response contained no text";

/// The first half of a cleanup. Disabled cleanup and blank transcripts give
/// the transcript back; a policy that does not resolve, or resolves to no
/// model, fails under the failure policy; otherwise the request is built.
pub open spec fn spec_plan(
    p: CleanupPolicy,
    env: OllamaEnv,
    transcript: Seq<char>,
    kind: CleanupKind,
    fp: FailurePolicy,
) -> Result<StepView, Seq<char>> {
    let provider = spec_effective_provider(p);
    if provider == "none"@ {
        Ok(StepView::Done(raw_view(transcript, provider, Seq::empty(), None)))
    } else if trimmed(transcript).len() == 0 {
        Ok(StepView::Done(raw_view(transcript, provider, p.model@, None)))
    } else {
        match spec_resolve(p, env) {
            Err(e) => done_with(spec_failure(fp, transcript, provider, p.model@, e)),
            Ok(t) => if t.model.len() == 0 {
                done_with(spec_failure(fp, transcript, t.provider, t.model, NO_MODEL_MESSAGE@))
            } else {
                let pr = spec_prompts(p.instructions@, transcript, kind);
                Ok(
                    StepView::Request(
                        RequestView {
                            target: t,
                            system: pr.0,
                            user: pr.1,
                            thinking: spec_thinking(t.provider, p.thinking@),
                        },
                    ),
                )
            },
        }
    }
}

/// A cleanup request sends the transcript with the policy's instructions:
/// for a full cleanup the user message starts with the instructions and
/// ends with the transcript, after `Text:`.
pub proof fn lemma_request_carries_instructions(
    p: CleanupPolicy,
    env: OllamaEnv,
    transcript: Seq<char>,
    kind: CleanupKind,
    fp: FailurePolicy,
    q: RequestView,
)
    requires
        spec_plan(p, env, transcript, kind, fp) == Ok::<StepView, Seq<char>>(StepView::Request(q)),
    ensures
        trimmed(transcript).len() > 0,
        kind == CleanupKind::Full ==> q.user.take(p.instructions@.len() as int) == p.instructions@
            && q.user.skip(p.instructions@.len() + 8int) == transcript,
        kind == CleanupKind::Segment ==> q.user.subrange(54, 54int + p.instructions@.len())
            == p.instructions@,
{
    lemma_full_prompt_carries_instructions(p.instructions@, transcript);
    lemma_segment_prompt_carries_instructions(p.instructions@, transcript);
}

pub fn plan_cleanup(
    policy: &CleanupPolicy,
    env: &OllamaEnv,
    transcript: &str,
    kind: CleanupKind,
    failure_policy: FailurePolicy,
) -> (r: Result<CleanupStep, String>)
    ensures
        step_result(r) == spec_plan(*policy, *env, transcript@, kind, failure_policy),
{
    let provider = effective_provider(policy);
    let pc = chars_of(provider.as_str());
    if chars_eq_str(pc.as_slice(), "none") {
        let o = raw_outcome(transcript, provider, String::new(), None);
        return Ok(CleanupStep::Done(o));
    }
    let tc = chars_of(transcript);
    let tt = trim(tc.as_slice());
    if tt.len() == 0 {
        let o = raw_outcome(transcript, provider, policy.model.clone(), None);
        return Ok(CleanupStep::Done(o));
    }
    let target = match resolve_policy(policy, env) {
        Ok(target) => target,
        Err(err) => {
            return match handle_failure(policy, transcript, failure_policy, err) {
                Ok(o) => Ok(CleanupStep::Done(o)),
                Err(e) => Err(e),
            };
        },
    };
    if is_empty_string(&target.model) {
        return match handle_resolved_failure(
            transcript,
            failure_policy,
            &target,
            NO_MODEL_MESSAGE.to_owned(),
        ) {
            Ok(o) => Ok(CleanupStep::Done(o)),
            Err(e) => Err(e),
        };
    }
    let (system, user) = prompts(policy, transcript, kind);
    let thinking = thinking_mode(&target.provider, &policy.thinking);
    Ok(CleanupStep::Request(CleanupRequest { target, system, user, thinking }))
}

/// The second half of a cleanup, given the model's reply or why there is
/// none. A full cleanup takes the trimmed reply unless it is empty; a segment
/// cleanup goes through `spec_interpret_segment`.
pub open spec fn spec_finish(
    t: TargetView,
    transcript: Seq<char>,
    kind: CleanupKind,
    fp: FailurePolicy,
    reply: Result<Seq<char>, Seq<char>>,
) -> Result<OutcomeView, Seq<char>> {
    match reply {
        Err(e) => spec_failure(fp, transcript, t.provider, t.model, e),
        Ok(c) => {
            let c = trimmed(c);
            match kind {
                CleanupKind::Full => if c.len() == 0 {
                    spec_failure(fp, transcript, t.provider, t.model, NO_TEXT_MESSAGE@)
                } else {
                    Ok(cleaned_view(t, c))
                },
                CleanupKind::Segment => Ok(spec_interpret_segment(t, transcript, c)),
            }
        },
    }
}

pub open spec fn reply_view(r: Result<String, String>) -> Result<Seq<char>, Seq<char>> {
    match r {
        Ok(s) => Ok(s@),
        Err(e) => Err(e@),
    }
}

pub fn finish_cleanup(
    target: &ResolvedCleanup,
    transcript: &str,
    kind: CleanupKind,
    failure_policy: FailurePolicy,
    reply: Result<String, String>,
) -> (r: Result<CleanupOutcome, String>)
    ensures
        outcome_result(r) == spec_finish(
            target@,
            transcript@,
            kind,
            failure_policy,
            reply_view(reply),
        ),
{
    let cleaned = match reply {
        Ok(c) => c,
        Err(e) => return handle_resolved_failure(transcript, failure_policy, target, e),
    };
    let cc = chars_of(cleaned.as_str());
    let c = trim(cc.as_slice());
    match kind {
        CleanupKind::Full => if c.len() == 0 {
            handle_resolved_failure(transcript, failure_policy, target, NO_TEXT_MESSAGE.to_owned())
        } else {
            let cs = string_of(c.as_slice());
            Ok(cleaned_outcome(target, cs.as_str()))
        },
        CleanupKind::Segment => {
            let cs = string_of(c.as_slice());
            Ok(interpret_segment(target, transcript, cs.as_str()))
        },
    }
}

// ---------------------------------------------------------------------------
// Laws
// ---------------------------------------------------------------------------

/// In local-only mode a policy resolves only to a loopback endpoint, and
/// never to an Ollama `:cloud` model.
pub proof fn lemma_local_only_stays_local(p: CleanupPolicy, env: OllamaEnv)
    requires
        p.local_only,
        spec_resolve(p, env) is Ok,
    ensures
        spec_is_local_endpoint(spec_resolve(p, env)->Ok_0.endpoint),
        !":cloud"@.is_suffix_of(spec_resolve(p, env)->Ok_0.model),
{
}

/// Under the raw-fallback policy cleanup never fails, and whenever the text
/// was not cleaned it is the transcript as it came.
pub proof fn lemma_raw_fallback_keeps_transcript(
    p: CleanupPolicy,
    env: OllamaEnv,
    transcript: Seq<char>,
    kind: CleanupKind,
    t: TargetView,
    reply: Result<Seq<char>, Seq<char>>,
)
    ensures
        spec_plan(p, env, transcript, kind, FailurePolicy::RawFallback) is Ok,
        spec_finish(t, transcript, kind, FailurePolicy::RawFallback, reply) is Ok,
        !spec_finish(t, transcript, kind, FailurePolicy::RawFallback, reply)->Ok_0.cleaned
            ==> spec_finish(t, transcript, kind, FailurePolicy::RawFallback, reply)->Ok_0.text
            == transcript,
        spec_plan(p, env, transcript, kind, FailurePolicy::RawFallback)->Ok_0 matches StepView::Done(o)
            ==> o.text == transcript && !o.cleaned,
{
}

/// A cleaned segment always keeps the fragment's tokens.
pub proof fn lemma_cleaned_segment_is_safe(t: TargetView, transcript: Seq<char>, cleaned: Seq<char>)
    ensures
        spec_interpret_segment(t, transcript, cleaned).cleaned ==> spec_segment_cleanup_is_safe(
            transcript,
            spec_interpret_segment(t, transcript, cleaned).text,
        ),
{
}

/// Token safety does not depend on which side is the source.
pub proof fn lemma_segment_safety_symmetric(a: Seq<char>, b: Seq<char>)
    ensures
        spec_segment_cleanup_is_safe(a, b) == spec_segment_cleanup_is_safe(b, a),
{
}

/// Some character of `s` is not edge punctuation.
pub open spec fn has_inner(s: Seq<char>) -> bool {
    exists|k: int| 0 <= k < s.len() && !is_boundary(#[trigger] s[k])
}

proof fn lemma_strip_end_nonempty(s: Seq<char>)
    ensures
        strip_end_boundary(s).len() > 0 <==> has_inner(s),
    decreases s.len(),
{
    if s.len() > 0 && is_boundary(s.last()) {
        let t = s.drop_last();
        lemma_strip_end_nonempty(t);
        if has_inner(s) {
            let k = choose|k: int| 0 <= k < s.len() && !is_boundary(#[trigger] s[k]);
            assert(k < t.len());
            assert(t[k] == s[k]);
        }
        if has_inner(t) {
            let k = choose|k: int| 0 <= k < t.len() && !is_boundary(#[trigger] t[k]);
            assert(s[k] == t[k]);
        }
    } else if s.len() > 0 {
        assert(!is_boundary(s[s.len() - 1]));
    }
}

proof fn lemma_strip_start_inner(s: Seq<char>)
    ensures
        has_inner(strip_start_boundary(s)) <==> has_inner(s),
    decreases s.len(),
{
    if s.len() > 0 && is_boundary(s[0]) {
        let t = s.drop_first();
        lemma_strip_start_inner(t);
        if has_inner(s) {
            let k = choose|k: int| 0 <= k < s.len() && !is_boundary(#[trigger] s[k]);
            assert(k > 0);
            assert(t[k - 1] == s[k]);
        }
        if has_inner(t) {
            let k = choose|k: int| 0 <= k < t.len() && !is_boundary(#[trigger] t[k]);
            assert(s[k + 1] == t[k]);
        }
    }
}

proof fn lemma_tokens_nonempty(ws: Seq<Seq<char>>)
    ensures
        tokens_of(ws).len() > 0 <==> exists|i: int|
            0 <= i < ws.len() && has_inner(lower_chars(#[trigger] ws[i])),
    decreases ws.len(),
{
    if ws.len() > 0 {
        let rest = ws.drop_last();
        lemma_tokens_nonempty(rest);
        lemma_strip_start_inner(lower_chars(ws.last()));
        lemma_strip_end_nonempty(strip_start_boundary(lower_chars(ws.last())));
        if exists|i: int| 0 <= i < ws.len() && has_inner(lower_chars(#[trigger] ws[i])) {
            let i = choose|i: int| 0 <= i < ws.len() && has_inner(lower_chars(#[trigger] ws[i]));
            if i < rest.len() {
                assert(rest[i] == ws[i]);
            }
        }
        if exists|i: int| 0 <= i < rest.len() && has_inner(lower_chars(#[trigger] rest[i])) {
            let i = choose|i: int| 0 <= i < rest.len() && has_inner(lower_chars(#[trigger] rest[i]));
            assert(ws[i] == rest[i]);
        }
        if has_inner(lower_chars(ws.last())) {
            assert(ws[ws.len() - 1] == ws.last());
        }
    }
}

/// A fragment is a safe cleanup of itself exactly when it has a token left
/// after normalization, that is, when one of its words, lowercased, has a
/// character that is not edge punctuation.
pub proof fn lemma_segment_safety_reflexive(a: Seq<char>)
    ensures
        spec_segment_cleanup_is_safe(a, a) == (spec_normalized_tokens(a).len() > 0),
        spec_segment_cleanup_is_safe(a, a) <==> exists|i: int|
            0 <= i < words(a).len() && has_inner(lower_chars(#[trigger] words(a)[i])),
{
    lemma_tokens_nonempty(words(a));
}

// ---------------------------------------------------------------------------
// The provider's reply
// ---------------------------------------------------------------------------

pub const NO_CHOICES_MESSAGE: &'static str = "LLM response had no choices";

/// At most the first 300 characters of a reply, quoted in errors so that a
/// huge or malformed body cannot flood them.
pub fn response_excerpt(body: &str) -> (r: String)
    ensures
        r@ == body@.take(if body@.len() < 300 { body@.len() as int } else { 300 }),
{
    let bc = chars_of(body);
    let n = if bc.len() < 300 { bc.len() } else { 300 };
    let v = slice_to_vec(bc.as_slice(), 0, n);
    assert(v@ =~= body@.take(n as int));
    string_of(v.as_slice())
}

/// The cleaned text is the first choice's content; a reply without choices
/// is refused.
pub fn first_choice(contents: Vec<String>) -> (r: Result<String, String>)
    ensures
        contents@.len() > 0 ==> r == Ok::<String, String>(contents@[0]),
        contents@.len() == 0 ==> r is Err && r->Err_0@ == NO_CHOICES_MESSAGE@,
{
    let mut contents = contents;
    if contents.len() == 0 {
        return Err(NO_CHOICES_MESSAGE.to_owned());
    }
    Ok(contents.swap_remove(0))
}

// ---------------------------------------------------------------------------
// The model list a provider reports
// ---------------------------------------------------------------------------

proof fn lemma_push_contains(s: Seq<Seq<char>>, x: Seq<char>, y: Seq<char>)
    ensures
        s.push(x).contains(y) <==> s.contains(y) || y == x,
{
    if s.push(x).contains(y) {
        let k = choose|k: int| 0 <= k < s.push(x).len() && s.push(x)[k] == y;
        if k < s.len() {
            assert(s[k] == y);
        }
    }
    if s.contains(y) {
        let k = choose|k: int| 0 <= k < s.len() && s[k] == y;
        assert(s.push(x)[k] == y);
    }
    if y == x {
        assert(s.push(x)[s.len() as int] == y);
    }
}

pub open spec fn strictly_sorted(s: Seq<Seq<char>>) -> bool {
    forall|i: int, j: int| 0 <= i < j < s.len() ==> lex_lt(#[trigger] s[i], #[trigger] s[j])
}

pub open spec fn name_views(v: Seq<String>) -> Seq<Seq<char>> {
    v.map_values(|s: String| s@)
}

pub const EMPTY_MODEL_LIST_MESSAGE: &'static str = "provider returned an empty model list";

/// The model names a provider reported, sorted and without duplicates; an
/// error when there are none.
pub fn sorted_model_names(names: &[String]) -> (r: Result<Vec<String>, String>)
    ensures
        names@.len() == 0 <==> r is Err,
        r is Err ==> r->Err_0@ == EMPTY_MODEL_LIST_MESSAGE@,
        r is Ok ==> strictly_sorted(name_views(r->Ok_0@)),
        r is Ok ==> forall|x: Seq<char>|
            name_views(r->Ok_0@).contains(x) <==> name_views(names@).contains(x),
{
    let mut out: Vec<String> = Vec::new();
    let n = names.len();
    let mut i: usize = 0;
    while i < n
        invariant
            i <= n == names@.len(),
            strictly_sorted(name_views(out@)),
            forall|x: Seq<char>|
                name_views(out@).contains(x) <==> name_views(names@).take(i as int).contains(x),
            i > 0 ==> out@.len() > 0,
            i == 0 ==> out@.len() == 0,
        decreases n - i,
    {
        let ghost before = name_views(out@);
        let x = chars_of(names[i].as_str());
        assert(name_views(names@)[i as int] == x@);
        let len = out.len();
        let mut p: usize = 0;
        while p < len && lex_less(chars_of(out[p].as_str()).as_slice(), x.as_slice())
            invariant
                p <= len == out@.len(),
                i < n == names@.len(),
                before == name_views(out@),
                x@ == names@[i as int]@,
                forall|k: int| 0 <= k < p ==> lex_lt(#[trigger] before[k], x@),
            decreases len - p,
        {
            p = p + 1;
        }
        let dup = p < len && chars_eq(chars_of(out[p].as_str()).as_slice(), x.as_slice());
        proof {
            assert(name_views(names@).take(i + 1) =~= name_views(names@).take(i as int).push(
                x@,
            ));
        }
        if !dup {
            let ghost old_out = out@;
            out.insert(p, names[i].clone());
            proof {
                let after = name_views(out@);
                assert(after =~= before.insert(p as int, x@));
                if p < len {
                    assert(before[p as int] != x@);
                    assert(!lex_lt(before[p as int], x@));
                    lemma_lex_total(before[p as int], x@);
                }
                assert forall|a: int, b: int| 0 <= a < b < after.len() implies lex_lt(
                    #[trigger] after[a],
                    #[trigger] after[b],
                ) by {
                    if b < p {
                        assert(after[a] == before[a] && after[b] == before[b]);
                    } else if b == p {
                        assert(after[a] == before[a]);
                    } else if a == p {
                        assert(after[b] == before[b - 1]);
                        if b - 1 > p {
                            assert(lex_lt(before[p as int], before[b - 1]));
                            lemma_lex_transitive(x@, before[p as int], before[b - 1]);
                        }
                    } else if a < p {
                        assert(after[a] == before[a] && after[b] == before[b - 1]);
                        lemma_lex_transitive(before[a], x@, before[p as int]);
                        if b - 1 > p {
                            lemma_lex_transitive(before[a], before[p as int], before[b - 1]);
                        }
                    } else {
                        assert(after[a] == before[a - 1] && after[b] == before[b - 1]);
                    }
                }
                assert forall|y: Seq<char>| after.contains(y) <==> before.contains(y) || y == x@ by {
                    if after.contains(y) {
                        let k = choose|k: int| 0 <= k < after.len() && after[k] == y;
                        if k < p {
                            assert(before[k] == y);
                        } else if k > p {
                            assert(before[k - 1] == y);
                        }
                    }
                    if before.contains(y) {
                        let k = choose|k: int| 0 <= k < before.len() && before[k] == y;
                        if k < p {
                            assert(after[k] == y);
                        } else {
                            assert(after[k + 1] == y);
                        }
                    }
                    if y == x@ {
                        assert(after[p as int] == y);
                    }
                }
            }
        } else {
            proof {
                assert(before[p as int] == x@);
                assert(before.contains(x@));
            }
        }
        proof {
            let seen = name_views(names@).take(i as int);
            assert forall|y: Seq<char>|
                name_views(out@).contains(y) <==> name_views(names@).take(i + 1).contains(y) by {
                lemma_push_contains(seen, x@, y);
            }
        }
        i = i + 1;
    }
    assert(name_views(names@).take(n as int) =~= name_views(names@));
    if out.len() == 0 {
        return Err(EMPTY_MODEL_LIST_MESSAGE.to_owned());
    }
    Ok(out)
}


/// One field of a model entry in a provider's reply, as far as the model list
/// reads it: absent, a string, or a value of another kind.
#[derive(Debug, Clone)]
pub enum JsonField {
    Missing,
    Text(String),
    Other,
}

/// The fields of one entry of a provider's model list that name the model.
#[derive(Debug, Clone)]
pub struct ModelEntry {
    pub id: JsonField,
    pub name: JsonField,
    pub model: JsonField,
}

/// A top-level field of a provider's reply that may hold the model list.
#[derive(Debug, Clone)]
pub enum ModelListField {
    Missing,
    Entries(Vec<ModelEntry>),
    Other,
}

pub const NO_MODEL_LIST_MESSAGE: &'static str = "no model list in response";

/// The name an entry gives: the first of `id`, `name` and `model` that is
/// present, when it is a string.
pub open spec fn entry_name(e: ModelEntry) -> Option<Seq<char>> {
    let f = if !(e.id is Missing) {
        e.id
    } else if !(e.name is Missing) {
        e.name
    } else {
        e.model
    };
    match f {
        JsonField::Text(s) => Some(s@),
        _ => None,
    }
}

/// The names the entries give, in order, leaving out entries that give none.
pub open spec fn reported_names(entries: Seq<ModelEntry>) -> Seq<Seq<char>>
    decreases entries.len(),
{
    if entries.len() == 0 {
        Seq::empty()
    } else {
        let rest = reported_names(entries.drop_last());
        match entry_name(entries.last()) {
            Some(n) => rest.push(n),
            None => rest,
        }
    }
}

/// The list a reply offers: `data` when present, else `models`.
pub open spec fn chosen_list(data: ModelListField, models: ModelListField) -> ModelListField {
    if !(data is Missing) {
        data
    } else {
        models
    }
}

fn model_entry_name(e: &ModelEntry) -> (r: Option<String>)
    ensures
        opt_view(r) == entry_name(*e),
{
    let f = if !matches!(e.id, JsonField::Missing) {
        &e.id
    } else if !matches!(e.name, JsonField::Missing) {
        &e.name
    } else {
        &e.model
    };
    match f {
        JsonField::Text(s) => Some(s.clone()),
        _ => None,
    }
}

/// The model names of a provider's reply, sorted and without duplicates. The
/// list is `data` when that field is present and `models` otherwise; a list
/// that is not an array is refused, and so is one that names no model.
pub fn model_names_from_reply(data: ModelListField, models: ModelListField) -> (r: Result<
    Vec<String>,
    String,
>)
    ensures
        !(chosen_list(data, models) is Entries) ==> r is Err && r->Err_0@
            == NO_MODEL_LIST_MESSAGE@,
        chosen_list(data, models) is Entries ==> {
            let names = reported_names(chosen_list(data, models)->Entries_0@);
            &&& (r is Err <==> names.len() == 0)
            &&& r is Err ==> r->Err_0@ == EMPTY_MODEL_LIST_MESSAGE@
            &&& r is Ok ==> strictly_sorted(name_views(r->Ok_0@))
            &&& r is Ok ==> forall|x: Seq<char>|
                name_views(r->Ok_0@).contains(x) <==> names.contains(x)
        },
{
    let list = match data {
        ModelListField::Missing => models,
        other => other,
    };
    let entries = match list {
        ModelListField::Entries(v) => v,
        _ => {
            return Err(NO_MODEL_LIST_MESSAGE.to_owned());
        },
    };
    let mut names: Vec<String> = Vec::new();
    let mut i: usize = 0;
    while i < entries.len()
        invariant
            i <= entries@.len(),
            name_views(names@) == reported_names(entries@.take(i as int)),
        decreases entries@.len() - i,
    {
        let got = model_entry_name(&entries[i]);
        proof {
            assert(entries@.take(i + 1).drop_last() =~= entries@.take(i as int));
            assert(entries@.take(i + 1).last() == entries@[i as int]);
        }
        match got {
            Some(n) => {
                names.push(n);
                proof {
                    assert(name_views(names@) =~= reported_names(entries@.take(i as int)).push(
                        names@.last()@,
                    ));
                }
            },
            None => {},
        }
        i = i + 1;
    }
    proof {
        assert(entries@.take(entries@.len() as int) =~= entries@);
    }
    sorted_model_names(&names)
}

} // verus!
