//! The inference source: which provider serves the assistant, how the
//! stored configuration is completed, and the boot plan derived from it.

use vstd::prelude::*;
use crate::models;
use crate::text;
use crate::text::owned;

verus! {

/// The default Groq model.
pub const GROQ_MODEL: &'static str = "openai/gpt-oss-120b";

/// Default OpenAI-compatible engine key for a custom endpoint (LM Studio).
pub const CUSTOM_FALLBACK_ENGINE: &'static str = "lmstudio";

/// Where inference runs.
#[derive(Clone, Copy, Debug, PartialEq, Eq, Structural)]
pub enum SourceKind {
    Groq,
    OpenAi,
    Anthropic,
    Gemini,
    Ollama,
    Custom,
}

impl Default for SourceKind {
    fn default() -> (k: Self)
        ensures
            k == SourceKind::Groq,
    {
        SourceKind::Groq
    }
}

/// The persisted inference-source choice.
#[derive(Clone, Debug)]
pub struct InferenceConfig {
    pub kind: SourceKind,
    pub model: Option<String>,
    /// Bare base URL (no trailing `/v1`), custom endpoints only.
    pub host: Option<String>,
    /// OpenAI-compatible engine key (e.g. "lmstudio"), custom endpoints only.
    pub engine: Option<String>,
}

/// The inference source as plain values.
#[verifier::ext_equal]
pub struct ConfigView {
    pub kind: SourceKind,
    pub model: Option<Seq<char>>,
    pub host: Option<Seq<char>>,
    pub engine: Option<Seq<char>>,
}

impl View for InferenceConfig {
    type V = ConfigView;

    open spec fn view(&self) -> ConfigView {
        ConfigView {
            kind: self.kind,
            model: text::opt_text(self.model),
            host: text::opt_text(self.host),
            engine: text::opt_text(self.engine),
        }
    }
}

impl Default for InferenceConfig {
    fn default() -> (c: Self)
        ensures
            c@ == (ConfigView { kind: SourceKind::Groq, model: None, host: None, engine: None }),
    {
        InferenceConfig { kind: SourceKind::Groq, model: None, host: None, engine: None }
    }
}

impl InferenceConfig {
    /// A copy of this configuration.
    pub fn duplicate(&self) -> (c: InferenceConfig)
        ensures
            c@ == self@,
    {
        InferenceConfig {
            kind: self.kind,
            model: copy_opt(&self.model),
            host: copy_opt(&self.host),
            engine: copy_opt(&self.engine),
        }
    }
}

/// A copy of an optional string.
pub fn copy_opt(o: &Option<String>) -> (r: Option<String>)
    ensures
        text::opt_text(r) == text::opt_text(*o),
{
    match o {
        Some(s) => Some(s.clone()),
        None => None,
    }
}

/// What to launch, pull and serve.
#[derive(Clone, Debug)]
pub struct BootPlan {
    /// Whether to start and wait for the bundled Ollama.
    pub launch_ollama: bool,
    /// The preferred Ollama model (None for other sources).
    pub model_to_pull: Option<String>,
    /// `(engine_key, bare_host)` to write into config.toml for a custom endpoint.
    pub engine_host: Option<(String, String)>,
    /// Arguments appended after `jarvis serve --port <port>`.
    pub serve_args: Vec<String>,
}

/// A boot plan as plain values.
#[verifier::ext_equal]
pub struct BootPlanView {
    pub launch_ollama: bool,
    pub model_to_pull: Option<Seq<char>>,
    pub engine_host: Option<(Seq<char>, Seq<char>)>,
    pub serve_args: Seq<Seq<char>>,
}

impl View for BootPlan {
    type V = BootPlanView;

    open spec fn view(&self) -> BootPlanView {
        BootPlanView {
            launch_ollama: self.launch_ollama,
            model_to_pull: text::opt_text(self.model_to_pull),
            engine_host: match self.engine_host {
                Some(p) => Some((p.0@, p.1@)),
                None => None,
            },
            serve_args: text::texts(self.serve_args@),
        }
    }
}

/// `o.unwrap_or(d)` on texts.
pub open spec fn or_text(o: Option<Seq<char>>, d: Seq<char>) -> Seq<char> {
    match o {
        Some(t) => t,
        None => d,
    }
}

/// `--engine <engine> --model <model> --agent <agent>`.
pub open spec fn serve_args_spec(engine: Seq<char>, model: Seq<char>, agent: Seq<char>) -> Seq<Seq<char>> {
    seq!["--engine"@, engine, "--model"@, model, "--agent"@, agent]
}

/// The engine key a custom endpoint is served through.
pub open spec fn custom_engine(cfg: ConfigView) -> Seq<char> {
    or_text(cfg.engine, CUSTOM_FALLBACK_ENGINE@)
}

/// The boot plan for a configuration on a machine with `ram_kib` KiB of RAM.
pub open spec fn boot_plan_spec(cfg: ConfigView, ram_kib: nat) -> BootPlanView {
    match cfg.kind {
        SourceKind::Groq => BootPlanView {
            launch_ollama: false,
            model_to_pull: None,
            engine_host: None,
            serve_args: serve_args_spec("groq"@, or_text(cfg.model, GROQ_MODEL@), "native_react"@),
        },
        SourceKind::OpenAi | SourceKind::Anthropic | SourceKind::Gemini => BootPlanView {
            launch_ollama: false,
            model_to_pull: None,
            engine_host: None,
            serve_args: serve_args_spec("cloud"@, or_text(cfg.model, Seq::empty()), "native_react"@),
        },
        SourceKind::Ollama => {
            let m = or_text(cfg.model, models::default_local_model_spec(ram_kib));
            BootPlanView {
                launch_ollama: true,
                model_to_pull: Some(m),
                engine_host: None,
                serve_args: serve_args_spec("ollama"@, m, "simple"@),
            }
        },
        SourceKind::Custom => BootPlanView {
            launch_ollama: false,
            model_to_pull: None,
            engine_host: match cfg.host {
                Some(h) => if h.len() > 0 {
                    Some((custom_engine(cfg), h))
                } else {
                    None
                },
                None => None,
            },
            serve_args: serve_args_spec(custom_engine(cfg), or_text(cfg.model, Seq::empty()), "simple"@),
        },
    }
}

fn or_owned(o: &Option<String>, d: &str) -> (r: String)
    ensures
        r@ == or_text(text::opt_text(*o), d@),
{
    match o {
        Some(t) => t.clone(),
        None => owned(d),
    }
}

fn or_empty(o: &Option<String>) -> (r: String)
    ensures
        r@ == or_text(text::opt_text(*o), Seq::empty()),
{
    match o {
        Some(t) => t.clone(),
        None => String::new(),
    }
}

fn serve_args(engine: String, model: String, agent: &str) -> (v: Vec<String>)
    ensures
        text::texts(v@) == serve_args_spec(engine@, model@, agent@),
{
    let mut v: Vec<String> = Vec::new();
    v.push(owned("--engine"));
    v.push(engine);
    v.push(owned("--model"));
    v.push(model);
    v.push(owned("--agent"));
    v.push(owned(agent));
    assert(text::texts(v@) =~= serve_args_spec(v@[1]@, v@[3]@, agent@));
    v
}

/// Decide what to launch, pull and serve from the configuration and the
/// machine's RAM (in KiB).
pub fn boot_plan(cfg: &InferenceConfig, ram_kib: u64) -> (p: BootPlan)
    ensures
        p@ == boot_plan_spec(cfg@, ram_kib as nat),
{
    match cfg.kind {
        SourceKind::Groq => {
            let m = or_owned(&cfg.model, GROQ_MODEL);
            let p = BootPlan {
                launch_ollama: false,
                model_to_pull: None,
                engine_host: None,
                serve_args: serve_args(owned("groq"), m, "native_react"),
            };
            assert(p@ =~= boot_plan_spec(cfg@, ram_kib as nat));
            p
        },
        SourceKind::OpenAi | SourceKind::Anthropic | SourceKind::Gemini => {
            let m = or_empty(&cfg.model);
            let p = BootPlan {
                launch_ollama: false,
                model_to_pull: None,
                engine_host: None,
                serve_args: serve_args(owned("cloud"), m, "native_react"),
            };
            assert(p@ =~= boot_plan_spec(cfg@, ram_kib as nat));
            p
        },
        SourceKind::Ollama => {
            let m = match &cfg.model {
                Some(t) => t.clone(),
                None => models::default_local_model(ram_kib),
            };
            let p = BootPlan {
                launch_ollama: true,
                model_to_pull: Some(m.clone()),
                engine_host: None,
                serve_args: serve_args(owned("ollama"), m, "simple"),
            };
            assert(p@ =~= boot_plan_spec(cfg@, ram_kib as nat));
            p
        },
        SourceKind::Custom => {
            let engine = or_owned(&cfg.engine, CUSTOM_FALLBACK_ENGINE);
            let engine_host = match &cfg.host {
                Some(h) => if !text::text_is_empty(h.as_str()) {
                    Some((engine.clone(), h.clone()))
                } else {
                    None
                },
                None => None,
            };
            let m = or_empty(&cfg.model);
            let p = BootPlan {
                launch_ollama: false,
                model_to_pull: None,
                engine_host,
                serve_args: serve_args(engine, m, "simple"),
            };
            assert(p@ =~= boot_plan_spec(cfg@, ram_kib as nat));
            p
        },
    }
}

/// The provider a user-facing name selects, case-insensitively.
pub open spec fn provider_kind_spec(provider: Seq<char>) -> Result<SourceKind, Seq<char>> {
    let n = text::lower(text::trim(provider));
    if n == "groq"@ {
        Ok(SourceKind::Groq)
    } else if n == "openai"@ {
        Ok(SourceKind::OpenAi)
    } else if n == "anthropic"@ {
        Ok(SourceKind::Anthropic)
    } else if n == "gemini"@ || n == "google"@ {
        Ok(SourceKind::Gemini)
    } else {
        Err("Unknown provider: "@ + n)
    }
}

/// The secure-storage key name of a cloud provider's API key.
pub open spec fn provider_key_name_spec(kind: SourceKind) -> Option<Seq<char>> {
    match kind {
        SourceKind::Groq => Some("GROQ_API_KEY"@),
        SourceKind::OpenAi => Some("OPENAI_API_KEY"@),
        SourceKind::Anthropic => Some("ANTHROPIC_API_KEY"@),
        SourceKind::Gemini => Some("GEMINI_API_KEY"@),
        SourceKind::Ollama | SourceKind::Custom => None,
    }
}

/// The lower-case name of a source.
pub open spec fn provider_name_spec(kind: SourceKind) -> Seq<char> {
    match kind {
        SourceKind::Groq => "groq"@,
        SourceKind::OpenAi => "openai"@,
        SourceKind::Anthropic => "anthropic"@,
        SourceKind::Gemini => "gemini"@,
        SourceKind::Ollama => "ollama"@,
        SourceKind::Custom => "custom"@,
    }
}

/// A user-entered server URL as a bare base host: trimmed, without a
/// trailing `/v1` segment and without trailing slashes.
pub open spec fn normalize_host_spec(raw: Seq<char>) -> Seq<char> {
    let s = text::trim_end_char(text::trim(raw), '/');
    let s2 = match text::strip_suffix(s, "/v1"@) {
        Some(t) => t,
        None => s,
    };
    text::trim_end_char(s2, '/')
}

/// A resolved model is persisted only when none was configured.
pub open spec fn should_persist_spec(cfg: ConfigView) -> bool {
    match cfg.model {
        Some(m) => text::trim(m).len() == 0,
        None => true,
    }
}

/// The configuration read from `text`, given what the JSON parser made of it:
/// the default when it could not parse it, and the default Groq model for a
/// legacy file that names a `kind` but no `provider` and no model.
pub open spec fn complete_config_spec(parsed: Option<ConfigView>, raw: Seq<char>) -> ConfigView {
    let cfg = match parsed {
        Some(c) => c,
        None => ConfigView { kind: SourceKind::Groq, model: None, host: None, engine: None },
    };
    if cfg.model is None && text::contains(raw, "\"kind\""@) && !text::contains(raw, "\"provider\""@) {
        ConfigView { model: Some(GROQ_MODEL@), ..cfg }
    } else {
        cfg
    }
}

/// The source a user-facing name selects.
pub fn provider_kind(provider: &str) -> (r: Result<SourceKind, String>)
    ensures
        match r {
            Ok(k) => provider_kind_spec(provider@) == Ok::<SourceKind, Seq<char>>(k),
            Err(e) => provider_kind_spec(provider@) == Err::<SourceKind, Seq<char>>(e@),
        },
{
    let t = text::trimmed(provider);
    let n = text::text_lower(t.as_str());
    if text::text_eq(n.as_str(), "groq") {
        Ok(SourceKind::Groq)
    } else if text::text_eq(n.as_str(), "openai") {
        Ok(SourceKind::OpenAi)
    } else if text::text_eq(n.as_str(), "anthropic") {
        Ok(SourceKind::Anthropic)
    } else if text::text_eq(n.as_str(), "gemini") || text::text_eq(n.as_str(), "google") {
        Ok(SourceKind::Gemini)
    } else {
        let mut m = owned("Unknown provider: ");
        text::push_text(&mut m, n.as_str());
        Err(m)
    }
}

/// The secure-storage key name of a cloud provider's API key.
pub fn provider_key_name(kind: SourceKind) -> (r: Option<&'static str>)
    ensures
        match r {
            Some(k) => provider_key_name_spec(kind) == Some(k@),
            None => provider_key_name_spec(kind) is None,
        },
{
    match kind {
        SourceKind::Groq => Some("GROQ_API_KEY"),
        SourceKind::OpenAi => Some("OPENAI_API_KEY"),
        SourceKind::Anthropic => Some("ANTHROPIC_API_KEY"),
        SourceKind::Gemini => Some("GEMINI_API_KEY"),
        SourceKind::Ollama | SourceKind::Custom => None,
    }
}

/// The lower-case name of a source.
pub fn provider_name(kind: SourceKind) -> (r: &'static str)
    ensures
        r@ == provider_name_spec(kind),
{
    match kind {
        SourceKind::Groq => "groq",
        SourceKind::OpenAi => "openai",
        SourceKind::Anthropic => "anthropic",
        SourceKind::Gemini => "gemini",
        SourceKind::Ollama => "ollama",
        SourceKind::Custom => "custom",
    }
}

/// Normalize a user-entered server URL to a bare base host.
pub fn normalize_host(raw: &str) -> (r: String)
    ensures
        r@ == normalize_host_spec(raw@),
{
    let t = text::trimmed(raw);
    let s = text::text_trim_end_char(t.as_str(), '/');
    let s2 = match text::text_strip_suffix(s.as_str(), "/v1") {
        Some(x) => x,
        None => s,
    };
    text::text_trim_end_char(s2.as_str(), '/')
}

/// Whether a model resolved at startup should be written back: only when
/// the user configured none.
pub fn should_persist_resolved_model(cfg: &InferenceConfig) -> (b: bool)
    ensures
        b == should_persist_spec(cfg@),
{
    match &cfg.model {
        Some(m) => text::is_blank(m.as_str()),
        None => true,
    }
}

/// The configuration read from `raw`, given what the JSON parser made of it.
pub fn complete_inference_config(parsed: Option<InferenceConfig>, raw: &str) -> (c: InferenceConfig)
    ensures
        c@ == complete_config_spec(
            match parsed {
                Some(p) => Some(p@),
                None => None,
            },
            raw@,
        ),
{
    let mut cfg = match parsed {
        Some(c) => c,
        None => InferenceConfig::default(),
    };
    if cfg.model.is_none() && text::text_contains(raw, "\"kind\"") && !text::text_contains(raw, "\"provider\"") {
        cfg.model = Some(owned(GROQ_MODEL));
    }
    cfg
}

/// Whether a configuration file just read should be written back in the
/// current shape: it names no `provider` yet and its configuration has a model.
pub fn config_needs_rewrite(raw: &str, cfg: &InferenceConfig) -> (b: bool)
    ensures
        b == (!text::contains(raw@, "\"provider\""@) && cfg@.model is Some),
{
    !text::text_contains(raw, "\"provider\"") && cfg.model.is_some()
}

/// Only an Ollama source launches Ollama, and it pulls exactly one model,
/// the one it serves; every plan serves `--engine <e> --model <m> --agent <a>`,
/// so the model value directly follows `--model`; only a custom endpoint with
/// a host writes an engine host.
pub proof fn law_plan_shape(cfg: ConfigView, ram_kib: nat)
    ensures
        boot_plan_spec(cfg, ram_kib).launch_ollama <==> cfg.kind == SourceKind::Ollama,
        boot_plan_spec(cfg, ram_kib).model_to_pull is Some <==> cfg.kind == SourceKind::Ollama,
        boot_plan_spec(cfg, ram_kib).model_to_pull matches Some(m) ==> boot_plan_spec(cfg, ram_kib).serve_args[3] == m,
        boot_plan_spec(cfg, ram_kib).serve_args.len() == 6,
        boot_plan_spec(cfg, ram_kib).serve_args[0] == "--engine"@,
        boot_plan_spec(cfg, ram_kib).serve_args[2] == "--model"@,
        boot_plan_spec(cfg, ram_kib).engine_host is Some <==> (cfg.kind == SourceKind::Custom && (cfg.host matches Some(h) && h.len() > 0)),
        cfg.model matches Some(m) ==> boot_plan_spec(cfg, ram_kib).serve_args[3] == m,
{
}

/// A trailing `c` never survives `trim_end_char`.
pub proof fn lemma_trim_end_char_ends(s: Seq<char>, c: char)
    ensures
        text::trim_end_char(s, c).len() == 0 || text::trim_end_char(s, c).last() != c,
    decreases s.len(),
{
    if s.len() > 0 && s.last() == c {
        lemma_trim_end_char_ends(s.drop_last(), c);
    }
}

/// A normalized host never ends with a slash.
pub proof fn law_normalized_host_has_no_trailing_slash(raw: Seq<char>)
    ensures
        normalize_host_spec(raw).len() == 0 || normalize_host_spec(raw).last() != '/',
{
    let s = text::trim_end_char(text::trim(raw), '/');
    let s2 = match text::strip_suffix(s, "/v1"@) {
        Some(t) => t,
        None => s,
    };
    lemma_trim_end_char_ends(s2, '/');
}

/// A custom endpoint's host is written under the engine the plan serves
/// with: the configured engine, else LM Studio's.
pub proof fn law_custom_host_under_served_engine(cfg: ConfigView, ram_kib: nat)
    requires
        cfg.kind == SourceKind::Custom,
        cfg.host matches Some(h) && h.len() > 0,
    ensures
        boot_plan_spec(cfg, ram_kib).engine_host == Some((boot_plan_spec(cfg, ram_kib).serve_args[1], cfg.host->0)),
        cfg.engine matches Some(e) ==> boot_plan_spec(cfg, ram_kib).serve_args[1] == e,
        cfg.engine is None ==> boot_plan_spec(cfg, ram_kib).serve_args[1] == "lmstudio"@,
{
}

/// Each source is served by its own engine and agent: Groq by `groq`, the
/// other cloud providers by `cloud` (both with the `native_react` agent),
/// Ollama by `ollama` and a custom endpoint by its engine (both with the
/// `simple` agent); Groq without a model serves `openai/gpt-oss-120b`, and
/// Ollama pulls and serves the configured model when there is one.
pub proof fn law_plan_engine_and_agent(cfg: ConfigView, ram_kib: nat)
    ensures
        cfg.kind == SourceKind::Groq ==> boot_plan_spec(cfg, ram_kib).serve_args[1] == "groq"@
            && boot_plan_spec(cfg, ram_kib).serve_args[5] == "native_react"@,
        cfg.kind == SourceKind::Groq && cfg.model is None ==> boot_plan_spec(cfg, ram_kib).serve_args[3] == "openai/gpt-oss-120b"@,
        (cfg.kind == SourceKind::OpenAi || cfg.kind == SourceKind::Anthropic || cfg.kind == SourceKind::Gemini)
            ==> boot_plan_spec(cfg, ram_kib).serve_args[1] == "cloud"@ && boot_plan_spec(cfg, ram_kib).serve_args[5] == "native_react"@,
        cfg.kind == SourceKind::Ollama ==> boot_plan_spec(cfg, ram_kib).serve_args[1] == "ollama"@
            && boot_plan_spec(cfg, ram_kib).serve_args[5] == "simple"@,
        (cfg.kind == SourceKind::Ollama && cfg.model is Some) ==> boot_plan_spec(cfg, ram_kib).model_to_pull == cfg.model,
        cfg.kind == SourceKind::Custom ==> boot_plan_spec(cfg, ram_kib).serve_args[5] == "simple"@,
        (cfg.kind == SourceKind::Custom && cfg.engine is Some) ==> boot_plan_spec(cfg, ram_kib).serve_args[1] == cfg.engine->0,
{
    reveal_strlit("openai/gpt-oss-120b");
}

/// A cloud provider's name selects that provider again.
pub proof fn law_provider_names_round_trip(kind: SourceKind)
    requires
        kind == SourceKind::Groq || kind == SourceKind::OpenAi || kind == SourceKind::Anthropic || kind == SourceKind::Gemini,
    ensures
        provider_kind_spec(provider_name_spec(kind)) == Ok::<SourceKind, Seq<char>>(kind),
{
    reveal_strlit("groq");
    reveal_strlit("openai");
    reveal_strlit("anthropic");
    reveal_strlit("gemini");
    reveal_strlit("google");
    let n = provider_name_spec(kind);
    assert(text::trim(n) == n);
    assert(text::lower(n) =~= n);
}

} // verus!
