//! Settings, their defaults, the shell-style `env` file that carries API
//! keys, and the order in which a key is looked up.
use vstd::prelude::*;
use crate::cleanup::{nonempty, CleanupCredentials, CleanupPolicy};
use crate::segments::opt_view;
use crate::text::{
    chars_eq, chars_of, find_first, first_index_of, lemma_split_lines_nonempty, slice_to_vec,
    split_lines, starts_with, string_of, trim, trimmed,
};

verus! {

broadcast use vstd::string::group_string_axioms;

pub const DEFAULT_INSTRUCTIONS: &'static str = "Rewrite this dictated text so it is clean, natural, and ready to paste.\nKeep the original language. If the text is Portuguese, use natural Brazilian Portuguese.\nFix punctuation, grammar, casing, and obvious speech-to-text mistakes.\nDo not add explanations.\nReturn only the final text.";

/// The bit pattern of the `f32` 0.2, the default cleanup temperature.
pub const DEFAULT_TEMPERATURE_BITS: u32 = 0x3e4c_cccd;

#[derive(Debug, Clone)]
pub struct GeneralConfig {
    pub sounds: bool,
    pub float_button: bool,
    pub typing_wpm: u32,
    pub keep_audio: bool,
    pub crash_reports: bool,
    /// When true, no text ever leaves this machine: only loopback cleanup
    /// endpoints are allowed, everything else is skipped.
    pub local_only: bool,
    /// "system", "dark", or "light".
    pub theme: String,
}

impl Default for GeneralConfig {
    fn default() -> (r: Self)
        ensures
            r.sounds && r.float_button && r.typing_wpm == 40 && !r.keep_audio && r.crash_reports
                && !r.local_only && r.theme@ == "system"@,
    {
        GeneralConfig {
            sounds: true,
            float_button: true,
            typing_wpm: 40,
            keep_audio: false,
            crash_reports: true,
            local_only: false,
            theme: "system".to_owned(),
        }
    }
}

#[derive(Debug, Clone)]
pub struct SttConfig {
    /// Path to a ggml model file; empty means auto-detect.
    pub model_path: String,
    /// "auto", "en", "pt", ...
    pub language: String,
    /// Optional PipeWire target node for pw-record.
    pub audio_target: String,
    /// Recorder command, default pw-record.
    pub recorder: String,
}

impl Default for SttConfig {
    fn default() -> (r: Self)
        ensures
            r.model_path@.len() == 0 && r.language@ == "auto"@ && r.audio_target@.len() == 0
                && r.recorder@ == "pw-record"@,
    {
        SttConfig {
            model_path: String::new(),
            language: "auto".to_owned(),
            audio_target: String::new(),
            recorder: "pw-record".to_owned(),
        }
    }
}

#[derive(Debug, Clone, Copy, PartialEq, Eq, Structural)]
pub struct IncrementalConfig {
    pub enabled: bool,
    pub cleanup_segments: bool,
    pub target_ms: u64,
    pub max_ms: u64,
    pub overlap_ms: u64,
    pub max_queue: usize,
}

impl Default for IncrementalConfig {
    fn default() -> (r: Self)
        ensures
            r == (IncrementalConfig {
                enabled: true,
                cleanup_segments: false,
                target_ms: 5_000,
                max_ms: 10_000,
                overlap_ms: 1_500,
                max_queue: 2,
            }),
    {
        IncrementalConfig {
            enabled: true,
            cleanup_segments: false,
            target_ms: 5_000,
            max_ms: 10_000,
            overlap_ms: 1_500,
            max_queue: 2,
        }
    }
}

#[derive(Debug, Clone)]
pub struct CleanupConfig {
    /// "auto", "deepseek", "openai", "ollama", "none"
    pub provider: String,
    pub model: String,
    pub endpoint: String,
    /// Stored key; env vars and ~/.config/pickscribe/env take precedence.
    pub api_key: String,
    /// The sampling temperature as the bit pattern of an `f32`.
    pub temperature_bits: u32,
    pub timeout_secs: u64,
    /// "auto", "enabled", "disabled" (DeepSeek thinking mode)
    pub thinking: String,
    /// Empty means built-in default instructions.
    pub instructions: String,
}

impl Default for CleanupConfig {
    fn default() -> (r: Self)
        ensures
            r.provider@ == "auto"@ && r.model@.len() == 0 && r.endpoint@.len() == 0
                && r.api_key@.len() == 0 && r.temperature_bits == DEFAULT_TEMPERATURE_BITS
                && r.timeout_secs == 30 && r.thinking@ == "disabled"@ && r.instructions@.len()
                == 0,
    {
        CleanupConfig {
            provider: "auto".to_owned(),
            model: String::new(),
            endpoint: String::new(),
            api_key: String::new(),
            temperature_bits: DEFAULT_TEMPERATURE_BITS,
            timeout_secs: 30,
            thinking: "disabled".to_owned(),
            instructions: String::new(),
        }
    }
}

#[derive(Debug, Clone)]
pub struct PasteConfig {
    /// "auto", "hotkey", "type", "none"
    pub method: String,
    /// "ctrl-v" or "ctrl-shift-v"
    pub chord: String,
    pub delay_ms: u64,
    pub copy_to_clipboard: bool,
}

impl Default for PasteConfig {
    fn default() -> (r: Self)
        ensures
            r.method@ == "auto"@ && r.chord@ == "ctrl-v"@ && r.delay_ms == 150
                && r.copy_to_clipboard,
    {
        PasteConfig {
            method: "auto".to_owned(),
            chord: "ctrl-v".to_owned(),
            delay_ms: 150,
            copy_to_clipboard: true,
        }
    }
}

#[derive(Debug, Clone)]
pub struct AppConfig {
    pub general: GeneralConfig,
    pub stt: SttConfig,
    pub incremental: IncrementalConfig,
    pub cleanup: CleanupConfig,
    pub paste: PasteConfig,
}

impl Default for AppConfig {
    fn default() -> (r: Self)
        ensures
            r.general.sounds && r.general.crash_reports && !r.general.local_only,
            r.stt.language@ == "auto"@ && r.stt.recorder@ == "pw-record"@,
            r.incremental.enabled && !r.incremental.cleanup_segments,
            r.incremental.target_ms == 5_000 && r.incremental.max_ms == 10_000,
            r.incremental.overlap_ms == 1_500 && r.incremental.max_queue == 2,
            r.cleanup.provider@ == "auto"@ && r.cleanup.api_key@.len() == 0,
            r.cleanup.timeout_secs == 30 && r.cleanup.instructions@.len() == 0,
            r.paste.method@ == "auto"@ && r.paste.delay_ms == 150,
    {
        AppConfig {
            general: GeneralConfig::default(),
            stt: SttConfig::default(),
            incremental: IncrementalConfig::default(),
            cleanup: CleanupConfig::default(),
            paste: PasteConfig::default(),
        }
    }
}

// ---------------------------------------------------------------------------
// A map of variable names to values
// ---------------------------------------------------------------------------

/// Variables and their values, each name at most once.
#[derive(Debug, Clone)]
pub struct EnvMap {
    entries: Vec<(String, String)>,
}

pub open spec fn entry_views(e: Seq<(String, String)>) -> Seq<(Seq<char>, Seq<char>)> {
    e.map_values(|p: (String, String)| (p.0@, p.1@))
}

pub open spec fn keys_distinct(e: Seq<(Seq<char>, Seq<char>)>) -> bool {
    forall|i: int, j: int| 0 <= i < j < e.len() ==> #[trigger] e[i].0 != #[trigger] e[j].0
}

/// The map that an association list with distinct names stands for.
pub open spec fn map_of(e: Seq<(Seq<char>, Seq<char>)>) -> Map<Seq<char>, Seq<char>>
    decreases e.len(),
{
    if e.len() == 0 {
        Map::empty()
    } else {
        map_of(e.drop_last()).insert(e.last().0, e.last().1)
    }
}

proof fn lemma_map_of_dom(e: Seq<(Seq<char>, Seq<char>)>, k: Seq<char>)
    ensures
        map_of(e).contains_key(k) <==> exists|i: int| 0 <= i < e.len() && #[trigger] e[i].0 == k,
    decreases e.len(),
{
    if e.len() > 0 {
        lemma_map_of_dom(e.drop_last(), k);
        if map_of(e.drop_last()).contains_key(k) {
            let i = choose|i: int| 0 <= i < e.drop_last().len() && #[trigger] e.drop_last()[i].0 == k;
            assert(e[i].0 == k);
        }
        if exists|i: int| 0 <= i < e.len() && #[trigger] e[i].0 == k {
            let i = choose|i: int| 0 <= i < e.len() && #[trigger] e[i].0 == k;
            if i < e.len() - 1 {
                assert(e.drop_last()[i].0 == k);
            }
        }
    }
}

proof fn lemma_map_of_at(e: Seq<(Seq<char>, Seq<char>)>, i: int)
    requires
        keys_distinct(e),
        0 <= i < e.len(),
    ensures
        map_of(e).contains_key(e[i].0),
        map_of(e)[e[i].0] == e[i].1,
    decreases e.len(),
{
    if i < e.len() - 1 {
        let d = e.drop_last();
        assert forall|a: int, b: int| 0 <= a < b < d.len() implies #[trigger] d[a].0 != #[trigger] d[b].0 by {
            assert(d[a] == e[a] && d[b] == e[b]);
        }
        assert(d[i] == e[i]);
        lemma_map_of_at(d, i);
        assert(e[i].0 != e[e.len() - 1].0);
    }
}

proof fn lemma_map_of_update(e: Seq<(Seq<char>, Seq<char>)>, i: int, v: Seq<char>)
    requires
        keys_distinct(e),
        0 <= i < e.len(),
    ensures
        map_of(e.update(i, (e[i].0, v))) == map_of(e).insert(e[i].0, v),
        keys_distinct(e.update(i, (e[i].0, v))),
    decreases e.len(),
{
    let u = e.update(i, (e[i].0, v));
    assert forall|a: int, b: int| 0 <= a < b < u.len() implies #[trigger] u[a].0 != #[trigger] u[b].0 by {
        assert(u[a].0 == e[a].0 && u[b].0 == e[b].0);
    }
    if i == e.len() - 1 {
        assert(u.drop_last() =~= e.drop_last());
        assert(map_of(u) =~= map_of(e).insert(e[i].0, v));
    } else {
        let d = e.drop_last();
        assert forall|a: int, b: int| 0 <= a < b < d.len() implies #[trigger] d[a].0 != #[trigger] d[b].0 by {
            assert(d[a] == e[a] && d[b] == e[b]);
        }
        assert(d[i] == e[i]);
        lemma_map_of_update(d, i, v);
        assert(u.drop_last() =~= d.update(i, (d[i].0, v)));
        assert(e[i].0 != e.last().0);
        assert(map_of(u) =~= map_of(e).insert(e[i].0, v));
    }
}

impl View for EnvMap {
    type V = Map<Seq<char>, Seq<char>>;

    closed spec fn view(&self) -> Map<Seq<char>, Seq<char>> {
        map_of(entry_views(self.entries@))
    }
}

impl EnvMap {
    /// Names occur at most once.
    pub closed spec fn wf(&self) -> bool {
        keys_distinct(entry_views(self.entries@))
    }

    pub fn new() -> (m: Self)
        ensures
            m.wf(),
            m@ == Map::<Seq<char>, Seq<char>>::empty(),
    {
        let m = EnvMap { entries: Vec::new() };
        assert(entry_views(m.entries@) =~= Seq::empty());
        m
    }

    fn position(&self, name: &[char]) -> (r: Option<usize>)
        ensures
            match r {
                Some(i) => i < self.entries@.len() && entry_views(self.entries@)[i as int].0
                    == name@,
                None => forall|i: int|
                    0 <= i < self.entries@.len() ==> #[trigger] entry_views(self.entries@)[i].0
                        != name@,
            },
    {
        let n = self.entries.len();
        for i in 0..n
            invariant
                n == self.entries@.len(),
                forall|k: int|
                    0 <= k < i ==> #[trigger] entry_views(self.entries@)[k].0 != name@,
        {
            let k = chars_of(self.entries[i].0.as_str());
            if chars_eq(k.as_slice(), name) {
                return Some(i);
            }
        }
        None
    }

    /// Sets `name` to `value`, replacing an earlier value.
    pub fn insert(&mut self, name: String, value: String)
        requires
            old(self).wf(),
        ensures
            final(self).wf(),
            final(self)@ == old(self)@.insert(name@, value@),
    {
        let nc = chars_of(name.as_str());
        let ghost e = entry_views(self.entries@);
        match self.position(nc.as_slice()) {
            Some(i) => {
                proof {
                    lemma_map_of_update(e, i as int, value@);
                }
                let ghost v = value@;
                self.entries.set(i, (name, value));
                assert(entry_views(self.entries@) =~= e.update(i as int, (e[i as int].0, v)));
            },
            None => {
                let ghost kv = (name@, value@);
                self.entries.push((name, value));
                assert(entry_views(self.entries@) =~= e.push(kv));
                assert(entry_views(self.entries@).drop_last() =~= e);
            },
        }
    }

    /// The value of `name`, if it is set.
    pub fn get(&self, name: &str) -> (r: Option<String>)
        requires
            self.wf(),
        ensures
            opt_view(r) == self@.get(name@),
    {
        let nc = chars_of(name);
        let ghost e = entry_views(self.entries@);
        match self.position(nc.as_slice()) {
            Some(i) => {
                proof {
                    lemma_map_of_at(e, i as int);
                }
                Some(self.entries[i].1.clone())
            },
            None => {
                proof {
                    lemma_map_of_dom(e, name@);
                }
                None
            },
        }
    }
}

// ---------------------------------------------------------------------------
// The `env` file
// ---------------------------------------------------------------------------

pub open spec fn is_name_char(c: char) -> bool {
    ('0' <= c && c <= '9') || ('a' <= c && c <= 'z') || ('A' <= c && c <= 'Z') || c == '_'
}

/// A non-empty name of ASCII letters, digits and `_`.
pub open spec fn valid_key(key: Seq<char>) -> bool {
    key.len() > 0 && forall|k: int| 0 <= k < key.len() ==> is_name_char(#[trigger] key[k])
}

/// A value without one pair of matching surrounding quotes.
pub open spec fn unquote(v: Seq<char>) -> Seq<char> {
    if v.len() >= 2 && ((v[0] == '"' && v.last() == '"') || (v[0] == '\'' && v.last() == '\'')) {
        v.subrange(1, v.len() - 1)
    } else {
        v
    }
}

/// The assignment on one line of the file: `KEY=value` or
/// `export KEY=value`, the key made of ASCII letters, digits and `_`, the
/// value trimmed and unquoted. Blank lines and comments assign nothing.
pub open spec fn parse_env_line(line: Seq<char>) -> Option<(Seq<char>, Seq<char>)> {
    let l = trimmed(line);
    if l.len() == 0 || l[0] == '#' {
        None
    } else {
        let l = if "export "@.is_prefix_of(l) {
            l.skip("export "@.len() as int)
        } else {
            l
        };
        let eq = first_index_of(l, '=');
        if eq == l.len() {
            None
        } else {
            let key = trimmed(l.take(eq));
            if !valid_key(key) {
                None
            } else {
                Some((key, unquote(trimmed(l.skip(eq + 1)))))
            }
        }
    }
}

/// The assignments of a sequence of lines, a later one replacing an
/// earlier one of the same key.
pub open spec fn env_of_lines(lines: Seq<Seq<char>>) -> Map<Seq<char>, Seq<char>>
    decreases lines.len(),
{
    if lines.len() == 0 {
        Map::empty()
    } else {
        let m = env_of_lines(lines.drop_last());
        match parse_env_line(lines.last()) {
            Some(kv) => m.insert(kv.0, kv.1),
            None => m,
        }
    }
}

pub open spec fn spec_parse_env_file(raw: Seq<char>) -> Map<Seq<char>, Seq<char>> {
    env_of_lines(split_lines(raw))
}

fn is_valid_key(key: &[char]) -> (b: bool)
    ensures
        b == valid_key(key@),
{
    if key.len() == 0 {
        return false;
    }
    for i in 0..key.len()
        invariant
            forall|j: int| 0 <= j < i ==> is_name_char(#[trigger] key@[j]),
    {
        let c = key[i];
        if !(('0' <= c && c <= '9') || ('a' <= c && c <= 'z') || ('A' <= c && c <= 'Z') || c
            == '_') {
            assert(!is_name_char(key@[i as int]));
            return false;
        }
    }
    true
}

fn parse_line(line: &[char]) -> (r: Option<(String, String)>)
    ensures
        match r {
            Some(kv) => parse_env_line(line@) == Some((kv.0@, kv.1@)),
            None => parse_env_line(line@) is None,
        },
{
    let l = trim(line);
    if l.len() == 0 || l[0] == '#' {
        return None;
    }
    let export = chars_of("export ");
    let l = if starts_with(l.as_slice(), export.as_slice()) {
        let rest = slice_to_vec(l.as_slice(), export.len(), l.len());
        assert(rest@ =~= l@.skip(export@.len() as int));
        rest
    } else {
        l
    };
    let eq = find_first(l.as_slice(), '=');
    if eq == l.len() {
        return None;
    }
    let k = slice_to_vec(l.as_slice(), 0, eq);
    assert(k@ =~= l@.take(eq as int));
    let key = trim(k.as_slice());
    if !is_valid_key(key.as_slice()) {
        return None;
    }
    let v = slice_to_vec(l.as_slice(), eq + 1, l.len());
    assert(v@ =~= l@.skip(eq + 1));
    let value = trim(v.as_slice());
    let n = value.len();
    let value = if n >= 2 && ((value[0] == '"' && value[n - 1] == '"') || (value[0] == '\''
        && value[n - 1] == '\'')) {
        slice_to_vec(value.as_slice(), 1, n - 1)
    } else {
        value
    };
    Some((string_of(key.as_slice()), string_of(value.as_slice())))
}

/// Parse `export KEY="value"` / `KEY=value` lines of the `env` file (the
/// file sourced by the CLI wrappers) so the GUI shares credentials.
pub fn parse_env_file(raw: &str) -> (m: EnvMap)
    ensures
        m.wf(),
        m@ == spec_parse_env_file(raw@),
{
    let cs = chars_of(raw);
    let n = cs.len();
    let mut map = EnvMap::new();
    let mut cur: Vec<char> = Vec::new();
    for i in 0..n
        invariant
            n == cs@.len(),
            cs@ == raw@,
            map.wf(),
            map@ == env_of_lines(split_lines(cs@.take(i as int)).drop_last()),
            cur@ == split_lines(cs@.take(i as int)).last(),
    {
        let ghost t = cs@.take(i + 1);
        let ghost prev = split_lines(cs@.take(i as int));
        assert(t.drop_last() =~= cs@.take(i as int));
        proof {
            lemma_split_lines_nonempty(cs@.take(i as int));
        }
        if cs[i] == '\n' {
            assert(split_lines(t).drop_last() =~= prev);
            assert(prev.drop_last().push(prev.last()) =~= prev);
            match parse_line(cur.as_slice()) {
                Some((k, v)) => map.insert(k, v),
                None => {},
            }
            cur = Vec::new();
        } else {
            assert(split_lines(t).drop_last() =~= prev.drop_last());
            cur.push(cs[i]);
        }
    }
    proof {
        assert(cs@.take(n as int) =~= cs@);
        lemma_split_lines_nonempty(cs@);
        let l = split_lines(cs@);
        assert(l.drop_last().push(l.last()) =~= l);
    }
    match parse_line(cur.as_slice()) {
        Some((k, v)) => map.insert(k, v),
        None => {},
    }
    map
}

// ---------------------------------------------------------------------------
// API keys
// ---------------------------------------------------------------------------

/// A variable's value: the process environment's when set and not empty,
/// else the `env` file's.
pub open spec fn spec_lookup(
    env_file: Map<Seq<char>, Seq<char>>,
    process_env: Map<Seq<char>, Seq<char>>,
    name: Seq<char>,
) -> Option<Seq<char>> {
    if process_env.contains_key(name) && process_env[name].len() > 0 {
        Some(process_env[name])
    } else if env_file.contains_key(name) {
        Some(env_file[name])
    } else {
        None
    }
}

pub open spec fn or_else(a: Option<Seq<char>>, b: Option<Seq<char>>) -> Option<Seq<char>> {
    match a {
        Some(x) => Some(x),
        None => b,
    }
}

/// The key for a provider: its own variable, then `PICKSCRIBE_API_KEY`,
/// then the key stored in the config.
pub open spec fn spec_resolve_api_key(
    stored: Seq<char>,
    provider: Seq<char>,
    env_file: Map<Seq<char>, Seq<char>>,
    process_env: Map<Seq<char>, Seq<char>>,
) -> Option<Seq<char>> {
    let generic = spec_lookup(env_file, process_env, "PICKSCRIBE_API_KEY"@);
    let key = if provider == "deepseek"@ {
        or_else(spec_lookup(env_file, process_env, "DEEPSEEK_API_KEY"@), generic)
    } else if provider == "openai"@ {
        or_else(spec_lookup(env_file, process_env, "OPENAI_API_KEY"@), generic)
    } else if provider == "ollama"@ {
        or_else(spec_lookup(env_file, process_env, "OLLAMA_API_KEY"@), generic)
    } else {
        generic
    };
    or_else(
        key,
        if stored.len() == 0 {
            None
        } else {
            Some(stored)
        },
    )
}

fn lookup(env_file: &EnvMap, process_env: &EnvMap, name: &str) -> (r: Option<String>)
    requires
        env_file.wf(),
        process_env.wf(),
    ensures
        opt_view(r) == spec_lookup(env_file@, process_env@, name@),
{
    match process_env.get(name) {
        Some(v) => if !v.as_str().is_empty() {
            return Some(v);
        },
        None => {},
    }
    env_file.get(name)
}

fn first_set(a: Option<String>, b: Option<String>) -> (r: Option<String>)
    ensures
        opt_view(r) == or_else(opt_view(a), opt_view(b)),
{
    match a {
        Some(x) => Some(x),
        None => b,
    }
}

impl AppConfig {
    /// Resolve the effective API key for a provider:
    /// process env > `env` file > config.toml.
    pub fn resolve_api_key_from_sources(
        &self,
        provider: &str,
        env_file: &EnvMap,
        process_env: &EnvMap,
    ) -> (r: Option<String>)
        requires
            env_file.wf(),
            process_env.wf(),
        ensures
            opt_view(r) == spec_resolve_api_key(
                self.cleanup.api_key@,
                provider@,
                env_file@,
                process_env@,
            ),
    {
        let p = chars_of(provider);
        let own = if crate::text::chars_eq_str(p.as_slice(), "deepseek") {
            lookup(env_file, process_env, "DEEPSEEK_API_KEY")
        } else if crate::text::chars_eq_str(p.as_slice(), "openai") {
            lookup(env_file, process_env, "OPENAI_API_KEY")
        } else if crate::text::chars_eq_str(p.as_slice(), "ollama") {
            lookup(env_file, process_env, "OLLAMA_API_KEY")
        } else {
            None
        };
        let key = first_set(own, lookup(env_file, process_env, "PICKSCRIBE_API_KEY"));
        let stored = if self.cleanup.api_key.as_str().is_empty() {
            None
        } else {
            Some(self.cleanup.api_key.clone())
        };
        first_set(key, stored)
    }
}

/// The cleanup timeout the desktop app uses: the configured one, at least
/// five seconds.
pub open spec fn spec_desktop_timeout(secs: u64) -> u64 {
    if secs < 5 {
        5
    } else {
        secs
    }
}

impl CleanupPolicy {
    /// The policy the desktop app uses, with keys resolved from the `env`
    /// file and the process environment.
    pub fn from_app_config(cfg: &AppConfig, env_file: &EnvMap, process_env: &EnvMap) -> (p: Self)
        requires
            env_file.wf(),
            process_env.wf(),
        ensures
            p.provider@ == cfg.cleanup.provider@,
            p.endpoint@ == cfg.cleanup.endpoint@,
            p.model@ == cfg.cleanup.model@,
            opt_view(p.credentials.deepseek) == spec_resolve_api_key(
                cfg.cleanup.api_key@,
                "deepseek"@,
                env_file@,
                process_env@,
            ),
            opt_view(p.credentials.openai) == spec_resolve_api_key(
                cfg.cleanup.api_key@,
                "openai"@,
                env_file@,
                process_env@,
            ),
            opt_view(p.credentials.ollama) == spec_resolve_api_key(
                cfg.cleanup.api_key@,
                "ollama"@,
                env_file@,
                process_env@,
            ),
            opt_view(p.credentials.custom) == spec_resolve_api_key(
                cfg.cleanup.api_key@,
                "custom"@,
                env_file@,
                process_env@,
            ),
            p.temperature_bits == cfg.cleanup.temperature_bits,
            p.timeout_secs == spec_desktop_timeout(cfg.cleanup.timeout_secs),
            p.thinking@ == cfg.cleanup.thinking@,
            p.instructions@ == if trimmed(cfg.cleanup.instructions@).len() == 0 {
                DEFAULT_INSTRUCTIONS@
            } else {
                cfg.cleanup.instructions@
            },
            p.local_only == cfg.general.local_only,
    {
        let ic = chars_of(cfg.cleanup.instructions.as_str());
        let it = trim(ic.as_slice());
        CleanupPolicy {
            provider: cfg.cleanup.provider.clone(),
            endpoint: cfg.cleanup.endpoint.clone(),
            model: cfg.cleanup.model.clone(),
            credentials: CleanupCredentials {
                deepseek: cfg.resolve_api_key_from_sources("deepseek", env_file, process_env),
                openai: cfg.resolve_api_key_from_sources("openai", env_file, process_env),
                ollama: cfg.resolve_api_key_from_sources("ollama", env_file, process_env),
                custom: cfg.resolve_api_key_from_sources("custom", env_file, process_env),
            },
            temperature_bits: cfg.cleanup.temperature_bits,
            timeout_secs: if cfg.cleanup.timeout_secs < 5 {
                5
            } else {
                cfg.cleanup.timeout_secs
            },
            thinking: cfg.cleanup.thinking.clone(),
            instructions: if it.len() == 0 {
                DEFAULT_INSTRUCTIONS.to_owned()
            } else {
                cfg.cleanup.instructions.clone()
            },
            local_only: cfg.general.local_only,
        }
    }
}

} // verus!
