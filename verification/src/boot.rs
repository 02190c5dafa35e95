//! The backend boot sequence as a state machine: each step takes what the
//! last action produced and says what the shell does next, and what the
//! setup screen shows.

use vstd::prelude::*;
use crate::config;
use crate::config::{BootPlan, InferenceConfig, SourceKind};
use crate::diagnostics;
use crate::keys;
use crate::paths;
use crate::models;
use crate::text;
use crate::text::owned;

verus! {

/// The port of the local API server.
pub const JARVIS_PORT: u16 = 18080;

/// The port of the bundled Ollama.
pub const OLLAMA_PORT: u16 = 11434;

/// The operating system, for the platform-specific install hints.
#[derive(Clone, Copy, Debug, PartialEq, Eq, Structural)]
pub enum Platform {
    Windows,
    MacOs,
    Linux,
    Other,
}

/// What the setup screen shows.
#[derive(Clone, Debug)]
pub struct SetupStatus {
    pub phase: String,
    pub detail: String,
    pub error: Option<String>,
    pub source: String,
    pub ollama_ready: bool,
    pub model_ready: bool,
    pub server_ready: bool,
}

/// The setup screen as plain values.
#[verifier::ext_equal]
pub struct StatusView {
    pub phase: Seq<char>,
    pub detail: Seq<char>,
    pub error: Option<Seq<char>>,
    pub source: Seq<char>,
    pub ollama_ready: bool,
    pub model_ready: bool,
    pub server_ready: bool,
}

impl View for SetupStatus {
    type V = StatusView;

    open spec fn view(&self) -> StatusView {
        StatusView {
            phase: self.phase@,
            detail: self.detail@,
            error: text::opt_text(self.error),
            source: self.source@,
            ollama_ready: self.ollama_ready,
            model_ready: self.model_ready,
            server_ready: self.server_ready,
        }
    }
}

/// The status while `source` starts.
pub open spec fn starting_spec(source: Seq<char>) -> StatusView {
    StatusView {
        phase: "starting"@,
        detail: "Starting Jarvis..."@,
        error: None,
        source,
        ollama_ready: false,
        model_ready: false,
        server_ready: false,
    }
}

/// The status when `source` has no model configured yet.
pub open spec fn unconfigured_spec(source: Seq<char>) -> StatusView {
    StatusView {
        phase: "unconfigured"@,
        detail: "Choose a model in Settings to start Jarvis."@,
        error: None,
        source,
        ollama_ready: false,
        model_ready: false,
        server_ready: false,
    }
}

impl SetupStatus {
    /// The status while `source` starts.
    pub fn starting(source: &str) -> (s: SetupStatus)
        ensures
            s@ == starting_spec(source@),
    {
        SetupStatus {
            phase: owned("starting"),
            detail: owned("Starting Jarvis..."),
            error: None,
            source: owned(source),
            ollama_ready: false,
            model_ready: false,
            server_ready: false,
        }
    }

    /// The status when `source` has no model configured yet.
    pub fn unconfigured(source: &str) -> (s: SetupStatus)
        ensures
            s@ == unconfigured_spec(source@),
    {
        SetupStatus {
            phase: owned("unconfigured"),
            detail: owned("Choose a model in Settings to start Jarvis."),
            error: None,
            source: owned(source),
            ollama_ready: false,
            model_ready: false,
            server_ready: false,
        }
    }
}

/// How a wait for the API server's `/health` ended.
pub enum HealthOutcome {
    Ready,
    /// HTTP 503 with this body.
    ServiceUnavailable(String),
    /// The process exited first, with its exit code and stderr.
    EarlyExit { code: Option<i32>, stderr: String },
    Timeout,
}

/// What a server already listening on the API port answered.
pub enum ProbeAnswer {
    /// An HTTP status: its code and how it prints (e.g. `404 Not Found`).
    Status { code: u16, text: String },
    /// Nothing answered.
    NoAnswer,
}

/// How the first-launch `git clone` went.
pub enum CloneOutcome {
    Done,
    /// git exited with an error; its stderr.
    Failed(String),
    /// Waiting for git failed; the error.
    WaitFailed(String),
    /// git could not be started; the error.
    SpawnFailed(String),
}

/// How `uv sync` went.
pub enum SyncOutcome {
    Done,
    Failed { code: Option<i32>, stderr: String },
    /// `uv` could not be started; the error.
    SpawnFailed(String),
}

/// What the last action produced.
pub enum BootEvent {
    Begin,
    /// Whether the provider's key is stored and not blank.
    KeyChecked(bool),
    /// The machine's RAM in KiB.
    RamMeasured(u64),
    /// Whether Ollama answers after being started.
    OllamaStarted(bool),
    /// The models Ollama lists.
    ModelsListed(Vec<String>),
    ModelPulled(Result<(), String>),
    /// Whether the checked model is installed.
    ModelPresent(bool),
    ConfigPersisted,
    /// Whether the custom endpoint answers.
    EndpointChecked(bool),
    EngineHostWritten(Result<(), String>),
    /// The bundled Python runtime, when the app ships one: its interpreter
    /// and the directory that holds it (`Path::parent`).
    RuntimeFound(Option<(String, Option<String>)>),
    /// The data directory, and the error creating it.
    DataDirCreated { dir: String, error: Option<String> },
    Spawned(Result<(), String>),
    Health(HealthOutcome),
    SatelliteStarted,
    /// Where a binary resolved to, and whether that path exists.
    Binary { path: String, exists: bool },
    ProjectRoot(Option<String>),
    /// The clone target, whether it exists, and whether it holds a project.
    CloneTarget { path: String, exists: bool, has_project: bool },
    Cloned(CloneOutcome),
    /// Whether this app owns a running server process, and what the port answered.
    Probed { owned: bool, answer: ProbeAnswer },
    /// Whether a second health probe succeeded.
    Confirmed(bool),
    PortChecked(Result<(), String>),
    Synced(SyncOutcome),
    ExtensionChecked(Result<(), String>),
    StderrTail(String),
    /// Each managed key name with what the secure store answered for it.
    CloudKeysRead(Vec<(String, Result<Option<String>, String>)>),
}

/// What the shell does next.
pub enum BootAction {
    /// Read the provider's key from the secure store.
    ReadKey(String),
    MeasureRam,
    /// Start the bundled Ollama and wait up to 30 s for it.
    StartOllama,
    ListModels,
    PullModel(String),
    CheckModel(String),
    /// Write this configuration (its result does not matter).
    PersistConfig(InferenceConfig),
    /// Check the custom endpoint answers within 15 s.
    ProbeEndpoint(String),
    WriteEngineHost { engine: String, host: String },
    FindRuntime,
    CreateDataDir,
    /// Read every managed cloud key from the secure store.
    ReadCloudKeys,
    /// Start the bundled runtime with these arguments in `dir`, with these
    /// variables added to its environment, in order.
    SpawnRuntime { python: String, dir: String, args: Vec<String>, env: Vec<(String, String)> },
    WaitForHealth { seconds: u64 },
    StartSatellite(String),
    ResolveBinary(String),
    FindProjectRoot,
    InspectCloneTarget,
    CloneProject { git: String, target: String },
    ProbeServer,
    /// Wait 500 ms and probe `/health` again.
    ConfirmServer,
    CheckPort,
    SyncDependencies { uv: String, root: String },
    CheckExtension { uv: String, root: String },
    /// Start `uv` with these arguments in `root`, with these variables added
    /// to its environment, in order.
    SpawnServer { uv: String, root: String, args: Vec<String>, env: Vec<(String, String)> },
    ReadStderrTail,
    /// The sequence is over.
    Finish,
    /// The event did not answer the pending action; nothing changed.
    Ignore,
}

/// An action as plain values.
#[verifier::ext_equal]
pub enum ActionView {
    ReadKey(Seq<char>),
    MeasureRam,
    StartOllama,
    ListModels,
    PullModel(Seq<char>),
    CheckModel(Seq<char>),
    PersistConfig(config::ConfigView),
    ProbeEndpoint(Seq<char>),
    WriteEngineHost(Seq<char>, Seq<char>),
    FindRuntime,
    CreateDataDir,
    ReadCloudKeys,
    SpawnRuntime(Seq<char>, Seq<char>, Seq<Seq<char>>, Seq<(Seq<char>, Seq<char>)>),
    WaitForHealth(nat),
    StartSatellite(Seq<char>),
    ResolveBinary(Seq<char>),
    FindProjectRoot,
    InspectCloneTarget,
    CloneProject(Seq<char>, Seq<char>),
    ProbeServer,
    ConfirmServer,
    CheckPort,
    SyncDependencies(Seq<char>, Seq<char>),
    CheckExtension(Seq<char>, Seq<char>),
    SpawnServer(Seq<char>, Seq<char>, Seq<Seq<char>>, Seq<(Seq<char>, Seq<char>)>),
    ReadStderrTail,
    Finish,
    Ignore,
}

/// The plain values of an action.
pub open spec fn action_view(a: BootAction) -> ActionView {
    match a {
        BootAction::ReadKey(k) => ActionView::ReadKey(k@),
        BootAction::MeasureRam => ActionView::MeasureRam,
        BootAction::StartOllama => ActionView::StartOllama,
        BootAction::ListModels => ActionView::ListModels,
        BootAction::PullModel(m) => ActionView::PullModel(m@),
        BootAction::CheckModel(m) => ActionView::CheckModel(m@),
        BootAction::PersistConfig(c) => ActionView::PersistConfig(c@),
        BootAction::ProbeEndpoint(h) => ActionView::ProbeEndpoint(h@),
        BootAction::WriteEngineHost { engine, host } => ActionView::WriteEngineHost(engine@, host@),
        BootAction::FindRuntime => ActionView::FindRuntime,
        BootAction::CreateDataDir => ActionView::CreateDataDir,
        BootAction::ReadCloudKeys => ActionView::ReadCloudKeys,
        BootAction::SpawnRuntime { python, dir, args, env } => ActionView::SpawnRuntime(python@, dir@, text::texts(args@), keys::pair_texts(env@)),
        BootAction::WaitForHealth { seconds } => ActionView::WaitForHealth(seconds as nat),
        BootAction::StartSatellite(d) => ActionView::StartSatellite(d@),
        BootAction::ResolveBinary(b) => ActionView::ResolveBinary(b@),
        BootAction::FindProjectRoot => ActionView::FindProjectRoot,
        BootAction::InspectCloneTarget => ActionView::InspectCloneTarget,
        BootAction::CloneProject { git, target } => ActionView::CloneProject(git@, target@),
        BootAction::ProbeServer => ActionView::ProbeServer,
        BootAction::ConfirmServer => ActionView::ConfirmServer,
        BootAction::CheckPort => ActionView::CheckPort,
        BootAction::SyncDependencies { uv, root } => ActionView::SyncDependencies(uv@, root@),
        BootAction::CheckExtension { uv, root } => ActionView::CheckExtension(uv@, root@),
        BootAction::SpawnServer { uv, root, args, env } => ActionView::SpawnServer(uv@, root@, text::texts(args@), keys::pair_texts(env@)),
        BootAction::ReadStderrTail => ActionView::ReadStderrTail,
        BootAction::Finish => ActionView::Finish,
        BootAction::Ignore => ActionView::Ignore,
    }
}

/// The action the boot sequence is waiting on.
#[derive(Clone, Copy, Debug, PartialEq, Eq, Structural)]
pub enum Stage {
    Start,
    AwaitKey,
    AwaitRam,
    AwaitOllama,
    AwaitInstalled,
    AwaitPull,
    AwaitInstalledAfterPull,
    AwaitFallbackPresent,
    AwaitFallbackPull,
    AwaitInstalledAfterFallback,
    AwaitPersist,
    AwaitEndpoint,
    AwaitEngineHost,
    AwaitRuntime,
    AwaitDataDir,
    AwaitRuntimeKeys,
    AwaitRuntimeSpawn,
    AwaitRuntimeHealth,
    AwaitRuntimeSatellite,
    AwaitUv,
    AwaitProjectRoot,
    AwaitGit,
    AwaitCloneTarget,
    AwaitClone,
    AwaitProbe,
    AwaitConfirm,
    AwaitAttachRoot,
    AwaitAttachSatellite,
    AwaitPort,
    AwaitCargo,
    AwaitSync,
    AwaitExtension,
    AwaitServerKeys,
    AwaitServerSpawn,
    AwaitHealth,
    AwaitStderrTail,
    AwaitSatellite,
    Done,
}

/// The boot sequence of one configuration.
pub struct BootMachine {
    pub stage: Stage,
    pub cfg: InferenceConfig,
    pub platform: Platform,
    pub status: SetupStatus,
    /// The plan, once the RAM is known.
    pub plan: BootPlan,
    /// The Ollama model asked for.
    pub model: String,
    /// The Ollama model actually available, once resolved.
    pub resolved: Option<String>,
    /// Why pulling the fallback model failed.
    pub pull_error: String,
    pub uv: String,
    pub git: String,
    pub root: String,
    pub target: String,
    pub python: String,
    /// The directory that holds the bundled interpreter.
    pub runtime_root: Option<String>,
    pub dir: String,
    /// Arguments of `uv run jarvis serve`.
    pub argv: Vec<String>,
}

/// The boot sequence as plain values.
#[verifier::ext_equal]
pub struct BootView {
    pub stage: Stage,
    pub cfg: config::ConfigView,
    pub platform: Platform,
    pub status: StatusView,
    pub plan: config::BootPlanView,
    pub model: Seq<char>,
    pub resolved: Option<Seq<char>>,
    pub pull_error: Seq<char>,
    pub uv: Seq<char>,
    pub git: Seq<char>,
    pub root: Seq<char>,
    pub target: Seq<char>,
    pub python: Seq<char>,
    pub runtime_root: Option<Seq<char>>,
    pub dir: Seq<char>,
    pub argv: Seq<Seq<char>>,
}

impl View for BootMachine {
    type V = BootView;

    open spec fn view(&self) -> BootView {
        BootView {
            stage: self.stage,
            cfg: self.cfg@,
            platform: self.platform,
            status: self.status@,
            plan: self.plan@,
            model: self.model@,
            resolved: text::opt_text(self.resolved),
            pull_error: self.pull_error@,
            uv: self.uv@,
            git: self.git@,
            root: self.root@,
            target: self.target@,
            python: self.python@,
            runtime_root: text::opt_text(self.runtime_root),
            dir: self.dir@,
            argv: text::texts(self.argv@),
        }
    }
}

/// The message when `uv` is not installed, per platform.
pub open spec fn uv_missing_spec(p: Platform) -> Seq<char> {
    match p {
        Platform::Windows => UV_MISSING_WINDOWS@,
        Platform::MacOs => UV_MISSING_MACOS@,
        Platform::Linux => UV_MISSING_LINUX@,
        Platform::Other => UV_MISSING_OTHER@,
    }
}

pub const UV_MISSING_WINDOWS: &'static str = "Could not find 'uv' (Python package manager). To install on Windows, open PowerShell and run:\n\npowershell -ExecutionPolicy Bypass -c \"irm https://astral.sh/uv/install.ps1 | iex\"\n\nThen close and relaunch this app. (If the install completes but the app still can't find uv, you may need to log out and back in so PATH refreshes.)";

pub const UV_MISSING_MACOS: &'static str = "Could not find 'uv' (Python package manager). To install on macOS, open Terminal and run:\n\ncurl -LsSf https://astral.sh/uv/install.sh | sh\n\nThen relaunch this app.";

pub const UV_MISSING_LINUX: &'static str = "Could not find 'uv' (Python package manager). To install on Linux, open a terminal and run:\n\ncurl -LsSf https://astral.sh/uv/install.sh | sh\n\nThen relaunch this app.";

pub const UV_MISSING_OTHER: &'static str = "Could not find 'uv' (Python package manager). Install it from https://astral.sh/uv then relaunch.";

pub const GIT_MISSING: &'static str = "Could not find 'git'. Install it from https://git-scm.com then relaunch.";

pub const OLLAMA_MISSING: &'static str = "Could not start Ollama. Install it from https://ollama.com";

pub const CLONE_URL: &'static str = "https://github.com/open-jarvis/OpenJarvis.git";

pub const RUNTIME_TIMEOUT: &'static str = "The bundled Jarvis runtime did not become ready within three minutes.";

pub const INSTALLING_DEPENDENCIES: &'static str = "Installing dependencies (uv sync \u{2014} may take 1-2 min on first boot)...";

/// `format!("{:?}", code)` of an optional exit code.
pub open spec fn debug_code(code: Option<i32>) -> Seq<char> {
    match code {
        Some(c) => "Some("@ + text::dec_int(c as int) + ")"@,
        None => "None"@,
    }
}

/// The texts of `s` joined by single spaces.
pub open spec fn join_spaced(s: Seq<Seq<char>>) -> Seq<char>
    decreases s.len(),
{
    if s.len() == 0 {
        Seq::empty()
    } else if s.len() == 1 {
        s[0]
    } else {
        join_spaced(s.drop_last()) + " "@ + s.last()
    }
}

/// The position of the first `x` in `s`.
pub open spec fn position(s: Seq<Seq<char>>, x: Seq<char>) -> Option<nat>
    decreases s.len(),
{
    if s.len() == 0 {
        None
    } else if s[0] == x {
        Some(0)
    } else {
        match position(s.drop_first(), x) {
            Some(i) => Some(i + 1),
            None => None,
        }
    }
}

/// `jarvis serve` arguments: `run jarvis serve --port <port>`, the plan's
/// arguments, and the resolved Ollama model in place of the `--model` value.
pub open spec fn serve_argv_spec(plan_args: Seq<Seq<char>>, resolved: Option<Seq<char>>) -> Seq<Seq<char>> {
    let base = seq!["run"@, "jarvis"@, "serve"@, "--port"@, text::dec(JARVIS_PORT as nat)] + plan_args;
    match resolved {
        Some(r) => match position(base, "--model"@) {
            Some(i) => if i + 1 < base.len() {
                base.update(i as int + 1, r)
            } else {
                base
            },
            None => base,
        },
        None => base,
    }
}

/// The bundled runtime's arguments.
pub open spec fn runtime_args_spec(plan_args: Seq<Seq<char>>) -> Seq<Seq<char>> {
    seq!["-m"@, "openjarvis.desktop_entry"@, "serve"@, "--port"@, text::dec(JARVIS_PORT as nat)] + plan_args
}

/// The sequence ends with this error shown.
pub open spec fn fail(m: BootView, error: Seq<char>) -> (BootView, ActionView) {
    (BootView { stage: Stage::Done, status: StatusView { error: Some(error), ..m.status }, ..m }, ActionView::Finish)
}

/// The status with another detail line.
pub open spec fn detail(st: StatusView, d: Seq<char>) -> StatusView {
    StatusView { detail: d, ..st }
}

/// The API server is next: look for the bundled runtime.
pub open spec fn enter_server(m: BootView) -> (BootView, ActionView) {
    (
        BootView {
            stage: Stage::AwaitRuntime,
            status: StatusView { phase: "server"@, detail: "Starting API server..."@, ..m.status },
            ..m
        },
        ActionView::FindRuntime,
    )
}

/// The model is ready; go on to the server.
pub open spec fn model_ready(m: BootView) -> (BootView, ActionView) {
    enter_server(BootView { status: StatusView { model_ready: true, detail: "Model ready."@, ..m.status }, ..m })
}

/// The Ollama model to serve is `r`: record it, persist it on first run.
pub open spec fn resolve(m: BootView, r: Seq<char>) -> (BootView, ActionView) {
    let st = if r != m.model {
        detail(m.status, "Using installed model "@ + r + "."@)
    } else {
        m.status
    };
    let m1 = BootView { resolved: Some(r), status: st, ..m };
    if config::should_persist_spec(m.cfg) {
        (BootView { stage: Stage::AwaitPersist, ..m1 }, ActionView::PersistConfig(config::ConfigView { model: Some(r), ..m.cfg }))
    } else {
        model_ready(m1)
    }
}

/// The custom endpoint is configured; go on to the server.
pub open spec fn connected(m: BootView) -> (BootView, ActionView) {
    enter_server(
        BootView {
            status: StatusView { ollama_ready: true, model_ready: true, detail: "Connected to custom endpoint."@, ..m.status },
            ..m
        },
    )
}

/// The host of the custom endpoint (empty when none is configured).
pub open spec fn plan_host(plan: config::BootPlanView) -> Seq<char> {
    match plan.engine_host {
        Some(p) => p.1,
        None => Seq::empty(),
    }
}

/// The message when the custom endpoint does not answer.
pub open spec fn unreachable_spec(host: Seq<char>) -> Seq<char> {
    "Could not reach your custom inference server at "@ + (if host.len() == 0 {
        "(no URL set)"@
    } else {
        host
    }) + ". Start the server (e.g. LM Studio) and check the URL in Settings, then relaunch."@
}

/// The message when another server answers 503 on the API port.
pub open spec fn busy_port_spec() -> Seq<char> {
    "An API server is already running on port "@ + text::dec(JARVIS_PORT as nat)
        + " but its inference engine isn't ready (HTTP 503). If this is your `jarvis serve`, wait for it to finish loading and relaunch. Otherwise, stop that service or change the port."@
}

/// The message when a foreign service answers on the API port.
pub open spec fn foreign_port_spec(status: Seq<char>) -> Seq<char> {
    "Port "@ + text::dec(JARVIS_PORT as nat) + " is already in use by another service (it answered /health with HTTP "@
        + status + "). Stop that service or change the OpenJarvis port, then relaunch.\n\nTo identify it:\n  "@
        + diagnostics::port_owner_hint_spec(JARVIS_PORT)
}

/// The message when the server answers 503 after starting.
pub open spec fn engine_unavailable_spec(argv: Seq<Seq<char>>, root: Seq<char>, body: Seq<char>) -> Seq<char> {
    let extra = if argv.len() > 5 {
        " "@ + join_spaced(argv.subrange(5, argv.len() as int))
    } else {
        Seq::empty()
    };
    "Jarvis server is running but the inference engine is not available (HTTP 503). This usually means the configured model couldn't be loaded.\n\nCheck the server logs, or run 'uv run jarvis serve --port "@
        + text::dec(JARVIS_PORT as nat) + extra + "' from "@ + root + " to see the engine error.\n\nServer response:\n"@
        + text::trim(body)
}

/// The message when the server exits before it is ready.
pub open spec fn early_exit_spec(code: Option<i32>, stderr: Seq<char>, uv: Seq<char>, root: Seq<char>) -> Seq<char> {
    let c = diagnostics::exit_code_text(code);
    if stderr.len() == 0 {
        "Jarvis server exited (code "@ + c + ") before becoming ready.\n\nNo stderr output. Check that:\n1. uv is installed ("@
            + uv + ")\n2. The OpenJarvis repo is at "@ + root + "\n3. 'uv sync' completes in that directory"@
    } else {
        "Jarvis server exited (code "@ + c + ") before becoming ready.\n\nStderr:\n"@ + stderr
    }
}

/// The message when the server is not ready within ten minutes.
pub open spec fn server_timeout_spec(stderr: Seq<char>, uv: Seq<char>, root: Seq<char>) -> Seq<char> {
    if stderr.len() == 0 {
        "Jarvis server did not become ready within 10 minutes. Check that:\n1. uv is installed ("@ + uv
            + ")\n2. The OpenJarvis repo is at "@ + root + "\n3. Run 'uv sync' in that directory"@
    } else {
        "Jarvis server did not become ready within 10 minutes.\n\nStderr:\n"@ + stderr
    }
}

/// The ready status after attaching to a healthy server this app started.
pub open spec fn attached(m: BootView) -> (BootView, ActionView) {
    (
        BootView {
            stage: Stage::Done,
            status: StatusView {
                phase: "ready"@,
                detail: "Connected to existing API server on port "@ + text::dec(JARVIS_PORT as nat) + "."@,
                server_ready: true,
                model_ready: true,
                ollama_ready: true,
                ..m.status
            },
            ..m
        },
        ActionView::Finish,
    )
}

/// Whether a configuration names a model that is not blank.
pub open spec fn has_model_spec(cfg: config::ConfigView) -> bool {
    cfg.model matches Some(mm) && text::trim(mm).len() > 0
}

/// The first step: an unconfigured source stops at once; a cloud provider
/// needs its key; otherwise the RAM decides the plan.
pub open spec fn on_begin(m: BootView) -> (BootView, ActionView) {
    let src = config::provider_name_spec(m.cfg.kind);
    if !has_model_spec(m.cfg) {
        (BootView { stage: Stage::Done, status: unconfigured_spec(src), ..m }, ActionView::Finish)
    } else {
        match config::provider_key_name_spec(m.cfg.kind) {
            Some(k) => (BootView { stage: Stage::AwaitKey, ..m }, ActionView::ReadKey(k)),
            None => (BootView { stage: Stage::AwaitRam, ..m }, ActionView::MeasureRam),
        }
    }
}

/// The plan is known: start Ollama, go straight to the server for a cloud
/// provider, or check a custom endpoint.
pub open spec fn on_ram(m: BootView, ram_kib: nat) -> (BootView, ActionView) {
    let plan = config::boot_plan_spec(m.cfg, ram_kib);
    let src = config::provider_name_spec(m.cfg.kind);
    let m1 = BootView { plan, status: StatusView { source: src, ..m.status }, ..m };
    if plan.launch_ollama {
        (
            BootView {
                stage: Stage::AwaitOllama,
                status: StatusView { phase: "ollama"@, detail: "Starting inference engine..."@, ..m1.status },
                ..m1
            },
            ActionView::StartOllama,
        )
    } else if m.cfg.kind == SourceKind::Groq || m.cfg.kind == SourceKind::OpenAi || m.cfg.kind == SourceKind::Anthropic
        || m.cfg.kind == SourceKind::Gemini {
        enter_server(
            BootView {
                status: StatusView { ollama_ready: true, model_ready: true, detail: src + " configured."@, ..m1.status },
                ..m1
            },
        )
    } else {
        let host = plan_host(plan);
        let m2 = BootView {
            status: StatusView { phase: "model"@, detail: "Connecting to "@ + host + "..."@, ..m1.status },
            ..m1
        };
        if host.len() == 0 {
            fail(m2, unreachable_spec(host))
        } else {
            (BootView { stage: Stage::AwaitEndpoint, ..m2 }, ActionView::ProbeEndpoint(host))
        }
    }
}

/// The cloud keys handed to a child process: each looked-up key whose store
/// answered a non-empty value, in order (what `read_cloud_keys` returns).
pub open spec fn exported_keys(lookups: Seq<(String, Result<Option<String>, String>)>) -> Seq<(Seq<char>, Seq<char>)> {
    keys::lookups_view(lookups).filter_map(|e: (Seq<char>, Result<Option<Seq<char>>, Seq<char>>)| keys::exported_key(e))
}

/// The environment the bundled runtime gets: `PYTHONUTF8=1`, its browsers
/// under `<runtime root>/ms-playwright` when the root is known, then the
/// cloud keys.
pub open spec fn runtime_env_spec(root: Option<Seq<char>>, platform: Platform, keys: Seq<(Seq<char>, Seq<char>)>) -> Seq<(Seq<char>, Seq<char>)> {
    seq![("PYTHONUTF8"@, "1"@)] + match root {
        Some(r) => seq![("PLAYWRIGHT_BROWSERS_PATH"@, paths::join_spec(r, "ms-playwright"@, platform == Platform::Windows))],
        None => Seq::empty(),
    } + keys
}

/// The Ollama model asked for: the plan's, else the startup model.
pub open spec fn requested_model(plan: config::BootPlanView) -> Seq<char> {
    match plan.model_to_pull {
        Some(x) => x,
        None => models::STARTUP_MODEL@,
    }
}

/// One step of the boot sequence: the next state and what to do next.
/// An event that does not answer the pending action changes nothing.
pub open spec fn boot_step(m: BootView, e: BootEvent) -> (BootView, ActionView) {
    match (m.stage, e) {
        (Stage::Start, BootEvent::Begin) => on_begin(m),
        (Stage::AwaitKey, BootEvent::KeyChecked(b)) => if b {
            (BootView { stage: Stage::AwaitRam, ..m }, ActionView::MeasureRam)
        } else {
            fail(
                BootView { status: StatusView { phase: "error"@, ..m.status }, ..m },
                "Configure "@ + config::provider_name_spec(m.cfg.kind) + " in Settings before starting Jarvis."@,
            )
        },
        (Stage::AwaitRam, BootEvent::RamMeasured(k)) => on_ram(m, k as nat),
        (Stage::AwaitOllama, BootEvent::OllamaStarted(b)) => if !b {
            fail(m, OLLAMA_MISSING@)
        } else {
            let model = requested_model(m.plan);
            (
                BootView {
                    stage: Stage::AwaitInstalled,
                    model,
                    status: StatusView { ollama_ready: true, phase: "model"@, detail: "Checking for "@ + model + "..."@, ..m.status },
                    ..m
                },
                ActionView::ListModels,
            )
        },
        (Stage::AwaitInstalled, BootEvent::ModelsListed(v)) => match models::startup_model_spec(m.model, text::texts(v@)) {
            Some(r) => resolve(m, r),
            None => (
                BootView {
                    stage: Stage::AwaitPull,
                    status: detail(m.status, "Downloading "@ + m.model + "... (this may take a minute)"@),
                    ..m
                },
                ActionView::PullModel(m.model),
            ),
        },
        (Stage::AwaitPull, BootEvent::ModelPulled(r)) => match r {
            Ok(()) => resolve(m, m.model),
            Err(_) => (BootView { stage: Stage::AwaitInstalledAfterPull, ..m }, ActionView::ListModels),
        },
        (Stage::AwaitInstalledAfterPull, BootEvent::ModelsListed(v)) => match models::preferred_model_spec(text::texts(v@)) {
            Some(r) => resolve(m, r),
            None => (BootView { stage: Stage::AwaitFallbackPresent, ..m }, ActionView::CheckModel(models::FALLBACK_MODEL@)),
        },
        (Stage::AwaitFallbackPresent, BootEvent::ModelPresent(b)) => if b {
            resolve(m, models::FALLBACK_MODEL@)
        } else {
            (
                BootView {
                    stage: Stage::AwaitFallbackPull,
                    status: detail(m.status, "Downloading "@ + models::FALLBACK_MODEL@ + "..."@),
                    ..m
                },
                ActionView::PullModel(models::FALLBACK_MODEL@),
            )
        },
        (Stage::AwaitFallbackPull, BootEvent::ModelPulled(r)) => match r {
            Ok(()) => resolve(m, models::FALLBACK_MODEL@),
            Err(e) => (BootView { stage: Stage::AwaitInstalledAfterFallback, pull_error: e@, ..m }, ActionView::ListModels),
        },
        (Stage::AwaitInstalledAfterFallback, BootEvent::ModelsListed(v)) => match models::preferred_model_spec(text::texts(v@)) {
            Some(r) => resolve(m, r),
            None => fail(m, "Failed to download model: "@ + m.pull_error),
        },
        (Stage::AwaitPersist, BootEvent::ConfigPersisted) => model_ready(m),
        (Stage::AwaitEndpoint, BootEvent::EndpointChecked(b)) => if !b {
            fail(m, unreachable_spec(plan_host(m.plan)))
        } else {
            match m.plan.engine_host {
                Some(p) => (BootView { stage: Stage::AwaitEngineHost, ..m }, ActionView::WriteEngineHost(p.0, p.1)),
                None => connected(m),
            }
        },
        (Stage::AwaitEngineHost, BootEvent::EngineHostWritten(r)) => match r {
            Ok(()) => connected(m),
            Err(e) => fail(m, "Could not write engine config: "@ + e@),
        },
        (Stage::AwaitRuntime, BootEvent::RuntimeFound(o)) => match o {
            Some(rt) => (
                BootView { stage: Stage::AwaitDataDir, python: rt.0@, runtime_root: text::opt_text(rt.1), ..m },
                ActionView::CreateDataDir,
            ),
            None => (BootView { stage: Stage::AwaitUv, ..m }, ActionView::ResolveBinary("uv"@)),
        },
        (Stage::AwaitDataDir, BootEvent::DataDirCreated { dir, error }) => match error {
            Some(err) => fail(BootView { dir: dir@, ..m }, "Could not create Jarvis data directory at "@ + dir@ + ": "@ + err@),
            None => (BootView { stage: Stage::AwaitRuntimeKeys, dir: dir@, ..m }, ActionView::ReadCloudKeys),
        },
        (Stage::AwaitRuntimeKeys, BootEvent::CloudKeysRead(lookups)) => (
            BootView { stage: Stage::AwaitRuntimeSpawn, ..m },
            ActionView::SpawnRuntime(
                m.python,
                m.dir,
                runtime_args_spec(m.plan.serve_args),
                runtime_env_spec(m.runtime_root, m.platform, exported_keys(lookups@)),
            ),
        ),
        (Stage::AwaitRuntimeSpawn, BootEvent::Spawned(r)) => match r {
            Ok(()) => (BootView { stage: Stage::AwaitRuntimeHealth, ..m }, ActionView::WaitForHealth(180)),
            Err(e) => fail(m, "Could not start the bundled Jarvis runtime: "@ + e@),
        },
        (Stage::AwaitRuntimeHealth, BootEvent::Health(o)) => match o {
            HealthOutcome::Ready => (BootView { stage: Stage::AwaitRuntimeSatellite, ..m }, ActionView::StartSatellite(m.dir)),
            HealthOutcome::ServiceUnavailable(body) => fail(
                m,
                "Groq is not ready. Add a valid GROQ_API_KEY and restart Jarvis.\n\n"@ + text::trim(body@),
            ),
            HealthOutcome::EarlyExit { code, stderr } => fail(
                m,
                "The bundled Jarvis runtime stopped (code "@ + debug_code(code) + ").\n\n"@ + text::trim(stderr@),
            ),
            HealthOutcome::Timeout => fail(m, RUNTIME_TIMEOUT@),
        },
        (Stage::AwaitRuntimeSatellite, BootEvent::SatelliteStarted) => (
            BootView {
                stage: Stage::Done,
                status: StatusView { server_ready: true, phase: "ready"@, detail: "Jarvis is ready."@, ..m.status },
                ..m
            },
            ActionView::Finish,
        ),
        (Stage::AwaitUv, BootEvent::Binary { path, exists }) => if !exists && path@ == "uv"@ {
            fail(BootView { uv: path@, ..m }, uv_missing_spec(m.platform))
        } else {
            (BootView { stage: Stage::AwaitProjectRoot, uv: path@, ..m }, ActionView::FindProjectRoot)
        },
        (Stage::AwaitProjectRoot, BootEvent::ProjectRoot(o)) => match o {
            Some(r) => (BootView { stage: Stage::AwaitProbe, root: r@, ..m }, ActionView::ProbeServer),
            None => (BootView { stage: Stage::AwaitGit, ..m }, ActionView::ResolveBinary("git"@)),
        },
        (Stage::AwaitGit, BootEvent::Binary { path, exists }) => if !exists && path@ == "git"@ {
            fail(BootView { git: path@, ..m }, GIT_MISSING@)
        } else {
            (BootView { stage: Stage::AwaitCloneTarget, git: path@, ..m }, ActionView::InspectCloneTarget)
        },
        (Stage::AwaitCloneTarget, BootEvent::CloneTarget { path, exists, has_project }) => if exists && !has_project {
            fail(
                BootView { target: path@, ..m },
                path@ + " exists but is not a valid OpenJarvis project. Remove it and relaunch, or set OPENJARVIS_ROOT to the correct path."@,
            )
        } else {
            (
                BootView {
                    stage: Stage::AwaitClone,
                    target: path@,
                    status: detail(m.status, "Downloading OpenJarvis (first launch)..."@),
                    ..m
                },
                ActionView::CloneProject(m.git, path@),
            )
        },
        (Stage::AwaitClone, BootEvent::Cloned(o)) => match o {
            CloneOutcome::Done => (BootView { stage: Stage::AwaitProbe, root: m.target, ..m }, ActionView::ProbeServer),
            CloneOutcome::Failed(err) => fail(
                m,
                "Failed to download OpenJarvis: "@ + text::trim(err@) + ". Clone manually: git clone "@ + CLONE_URL@ + " "@ + m.target,
            ),
            CloneOutcome::WaitFailed(err) => fail(
                m,
                "Failed to download OpenJarvis: "@ + err@ + ". Clone manually: git clone "@ + CLONE_URL@ + " "@ + m.target,
            ),
            CloneOutcome::SpawnFailed(err) => fail(
                m,
                "Could not run git: "@ + err@ + ". Install git from https://git-scm.com then relaunch."@,
            ),
        },
        (Stage::AwaitProbe, BootEvent::Probed { owned, answer }) => match answer {
            ProbeAnswer::Status { code, text } => if owned && 200 <= code && code < 300 {
                (BootView { stage: Stage::AwaitConfirm, ..m }, ActionView::ConfirmServer)
            } else if code == 503 {
                fail(m, busy_port_spec())
            } else {
                fail(m, foreign_port_spec(text@))
            },
            ProbeAnswer::NoAnswer => (BootView { stage: Stage::AwaitPort, ..m }, ActionView::CheckPort),
        },
        (Stage::AwaitConfirm, BootEvent::Confirmed(b)) => if b {
            (BootView { stage: Stage::AwaitAttachRoot, ..m }, ActionView::FindProjectRoot)
        } else {
            (BootView { stage: Stage::AwaitPort, ..m }, ActionView::CheckPort)
        },
        (Stage::AwaitAttachRoot, BootEvent::ProjectRoot(o)) => match o {
            Some(r) => (BootView { stage: Stage::AwaitAttachSatellite, ..m }, ActionView::StartSatellite(r@)),
            None => attached(m),
        },
        (Stage::AwaitAttachSatellite, BootEvent::SatelliteStarted) => attached(m),
        (Stage::AwaitPort, BootEvent::PortChecked(r)) => match r {
            Ok(()) => (BootView { stage: Stage::AwaitCargo, ..m }, ActionView::ResolveBinary("cargo"@)),
            Err(e) => fail(m, e@),
        },
        (Stage::AwaitCargo, BootEvent::Binary { path, exists }) => if !exists && path@ == "cargo"@ {
            fail(m, "Could not find 'cargo'. "@ + diagnostics::RUST_TOOLCHAIN_HINT@)
        } else {
            (
                BootView { stage: Stage::AwaitSync, status: detail(m.status, INSTALLING_DEPENDENCIES@), ..m },
                ActionView::SyncDependencies(m.uv, m.root),
            )
        },
        (Stage::AwaitSync, BootEvent::Synced(o)) => match o {
            SyncOutcome::Done => (
                BootView {
                    stage: Stage::AwaitExtension,
                    status: detail(m.status, "Verifying Rust extension (openjarvis_rust)..."@),
                    ..m
                },
                ActionView::CheckExtension(m.uv, m.root),
            ),
            SyncOutcome::Failed { code, stderr } => fail(m, diagnostics::uv_sync_failure_spec(m.root, code, stderr@)),
            SyncOutcome::SpawnFailed(err) => fail(
                m,
                "Could not run "@ + m.uv + " in "@ + m.root + ": "@ + err@
                    + ". Check that uv is installed and that this directory is an OpenJarvis checkout."@,
            ),
        },
        (Stage::AwaitExtension, BootEvent::ExtensionChecked(r)) => match r {
            Ok(()) => {
                let argv = serve_argv_spec(m.plan.serve_args, m.resolved);
                (
                    BootView {
                        stage: Stage::AwaitServerKeys,
                        argv,
                        status: detail(m.status, "Starting API server from "@ + m.root + "..."@),
                        ..m
                    },
                    ActionView::ReadCloudKeys,
                )
            },
            Err(e) => fail(m, e@),
        },
        (Stage::AwaitServerKeys, BootEvent::CloudKeysRead(lookups)) => (
            BootView { stage: Stage::AwaitServerSpawn, ..m },
            ActionView::SpawnServer(m.uv, m.root, m.argv, exported_keys(lookups@)),
        ),
        (Stage::AwaitServerSpawn, BootEvent::Spawned(r)) => match r {
            Ok(()) => (BootView { stage: Stage::AwaitHealth, ..m }, ActionView::WaitForHealth(600)),
            Err(e) => fail(
                m,
                "Could not start jarvis server: "@ + e@
                    + ". Make sure uv is installed (https://astral.sh/uv) and the OpenJarvis repo is cloned at "@ + m.root,
            ),
        },
        (Stage::AwaitHealth, BootEvent::Health(o)) => match o {
            HealthOutcome::Ready => (BootView { stage: Stage::AwaitSatellite, ..m }, ActionView::StartSatellite(m.root)),
            HealthOutcome::ServiceUnavailable(body) => fail(m, engine_unavailable_spec(m.argv, m.root, body@)),
            HealthOutcome::EarlyExit { code, stderr } => fail(m, early_exit_spec(code, stderr@, m.uv, m.root)),
            HealthOutcome::Timeout => (BootView { stage: Stage::AwaitStderrTail, ..m }, ActionView::ReadStderrTail),
        },
        (Stage::AwaitStderrTail, BootEvent::StderrTail(t)) => fail(m, server_timeout_spec(t@, m.uv, m.root)),
        (Stage::AwaitSatellite, BootEvent::SatelliteStarted) => (
            BootView {
                stage: Stage::Done,
                status: StatusView { server_ready: true, phase: "ready"@, detail: "All systems ready."@, ..m.status },
                ..m
            },
            ActionView::Finish,
        ),
        _ => (m, ActionView::Ignore),
    }
}

fn cat2(a: &str, b: &str) -> (m: String)
    ensures
        m@ == a@ + b@,
{
    let mut m = owned(a);
    text::push_text(&mut m, b);
    m
}

fn cat3(a: &str, b: &str, c: &str) -> (m: String)
    ensures
        m@ == a@ + b@ + c@,
{
    let mut m = owned(a);
    text::push_text(&mut m, b);
    text::push_text(&mut m, c);
    m
}

fn port_text() -> (t: String)
    ensures
        t@ == text::dec(JARVIS_PORT as nat),
{
    text::u64_text(JARVIS_PORT as u64)
}

/// `format!("{:?}", code)` of an optional exit code.
pub fn debug_code_text(code: Option<i32>) -> (t: String)
    ensures
        t@ == debug_code(code),
{
    match code {
        Some(c) => {
            let n = text::i64_text(c as i64);
            cat3("Some(", n.as_str(), ")")
        },
        None => owned("None"),
    }
}

/// The texts of `v[from..]` joined by single spaces.
fn join_spaced_from(v: &Vec<String>, from: usize) -> (t: String)
    requires
        from <= v.len(),
    ensures
        t@ == join_spaced(text::texts(v@).subrange(from as int, v@.len() as int)),
{
    let ghost s = text::texts(v@);
    let mut t = String::new();
    let mut i = from;
    proof { assert(s.subrange(from as int, from as int).len() == 0); }
    while i < v.len()
        invariant
            from <= i <= v.len(),
            s == text::texts(v@),
            t@ == join_spaced(s.subrange(from as int, i as int)),
        decreases v.len() - i,
    {
        let ghost part = s.subrange(from as int, i + 1);
        proof {
            assert(part.drop_last() =~= s.subrange(from as int, i as int));
            assert(part.last() == v@[i as int]@);
        }
        if i > from {
            text::push_text(&mut t, " ");
        } else {
            assert(part.len() == 1);
            assert(t@ =~= Seq::<char>::empty());
        }
        text::push_text(&mut t, v[i].as_str());
        proof {
            if i > from {
                assert(t@ =~= join_spaced(part.drop_last()) + " "@ + part.last());
            } else {
                assert(t@ =~= part[0]);
            }
        }
        i = i + 1;
    }
    t
}

/// The position of the first `x` in `v`.
fn position_of(v: &Vec<String>, x: &str) -> (r: Option<usize>)
    ensures
        match r {
            Some(i) => position(text::texts(v@), x@) == Some(i as nat),
            None => position(text::texts(v@), x@) is None,
        },
{
    let ghost s = text::texts(v@);
    let mut i: usize = 0;
    while i < v.len()
        invariant
            i <= v.len(),
            s == text::texts(v@),
            forall|j: int| 0 <= j < i ==> #[trigger] s[j] != x@,
        decreases v.len() - i,
    {
        if text::text_eq(v[i].as_str(), x) {
            proof { lemma_position_at(s, x@, i as int); }
            return Some(i);
        }
        i = i + 1;
    }
    proof { lemma_position_none(s, x@); }
    None
}

proof fn lemma_position_at(s: Seq<Seq<char>>, x: Seq<char>, i: int)
    requires
        0 <= i < s.len(),
        s[i] == x,
        forall|j: int| 0 <= j < i ==> #[trigger] s[j] != x,
    ensures
        position(s, x) == Some(i as nat),
    decreases i,
{
    if i > 0 {
        let t = s.drop_first();
        assert forall|j: int| 0 <= j < i - 1 implies #[trigger] t[j] != x by {
            assert(t[j] == s[j + 1]);
        }
        lemma_position_at(t, x, i - 1);
    }
}

proof fn lemma_position_none(s: Seq<Seq<char>>, x: Seq<char>)
    requires
        forall|j: int| 0 <= j < s.len() ==> #[trigger] s[j] != x,
    ensures
        position(s, x) is None,
    decreases s.len(),
{
    if s.len() > 0 {
        let t = s.drop_first();
        assert forall|j: int| 0 <= j < t.len() implies #[trigger] t[j] != x by {
            assert(t[j] == s[j + 1]);
        }
        lemma_position_none(t, x);
    }
}

fn launch_prefix(first: &str, second: &str, third: &str) -> (v: Vec<String>)
    ensures
        text::texts(v@) == seq![first@, second@, third@, "--port"@, text::dec(JARVIS_PORT as nat)],
{
    let mut v: Vec<String> = Vec::new();
    v.push(owned(first));
    v.push(owned(second));
    v.push(owned(third));
    v.push(owned("--port"));
    v.push(port_text());
    assert(text::texts(v@) =~= seq![first@, second@, third@, "--port"@, text::dec(JARVIS_PORT as nat)]);
    v
}

fn append_all(v: &mut Vec<String>, extra: &Vec<String>)
    ensures
        text::texts(final(v)@) == text::texts(old(v)@) + text::texts(extra@),
{
    let ghost start = text::texts(v@);
    let mut i: usize = 0;
    while i < extra.len()
        invariant
            i <= extra.len(),
            text::texts(v@) == start + text::texts(extra@).take(i as int),
        decreases extra.len() - i,
    {
        let ghost before = text::texts(v@);
        v.push(extra[i].clone());
        assert(text::texts(v@) =~= before.push(extra@[i as int]@));
        assert(text::texts(extra@).take(i + 1) =~= text::texts(extra@).take(i as int).push(extra@[i as int]@));
        assert(text::texts(v@) =~= start + text::texts(extra@).take(i + 1));
        i = i + 1;
    }
    assert(text::texts(extra@).take(extra@.len() as int) =~= text::texts(extra@));
}

/// `jarvis serve` arguments with the resolved model in place.
pub fn serve_argv(plan_args: &Vec<String>, resolved: &Option<String>) -> (v: Vec<String>)
    ensures
        text::texts(v@) == serve_argv_spec(text::texts(plan_args@), text::opt_text(*resolved)),
{
    let mut v = launch_prefix("run", "jarvis", "serve");
    append_all(&mut v, plan_args);
    if let Some(r) = resolved {
        match position_of(&v, "--model") {
            Some(i) => if i < v.len() - 1 {
                let ghost before = text::texts(v@);
                v.set(i + 1, r.clone());
                assert(text::texts(v@) =~= before.update(i + 1, r@));
            },
            None => {},
        }
    }
    v
}

/// The bundled runtime's arguments.
pub fn runtime_args(plan_args: &Vec<String>) -> (v: Vec<String>)
    ensures
        text::texts(v@) == runtime_args_spec(text::texts(plan_args@)),
{
    let mut v = launch_prefix("-m", "openjarvis.desktop_entry", "serve");
    append_all(&mut v, plan_args);
    v
}

fn unreachable_message(host: &str) -> (m: String)
    ensures
        m@ == unreachable_spec(host@),
{
    let shown = if text::text_is_empty(host) { "(no URL set)" } else { host };
    cat3("Could not reach your custom inference server at ", shown, ". Start the server (e.g. LM Studio) and check the URL in Settings, then relaunch.")
}

fn busy_port_message() -> (m: String)
    ensures
        m@ == busy_port_spec(),
{
    let p = port_text();
    cat3("An API server is already running on port ", p.as_str(), " but its inference engine isn't ready (HTTP 503). If this is your `jarvis serve`, wait for it to finish loading and relaunch. Otherwise, stop that service or change the port.")
}

fn foreign_port_message(status: &str) -> (m: String)
    ensures
        m@ == foreign_port_spec(status@),
{
    let p = port_text();
    let mut m = cat3("Port ", p.as_str(), " is already in use by another service (it answered /health with HTTP ");
    text::push_text(&mut m, status);
    text::push_text(&mut m, "). Stop that service or change the OpenJarvis port, then relaunch.\n\nTo identify it:\n  ");
    let h = diagnostics::port_owner_hint(JARVIS_PORT);
    text::push_text(&mut m, h.as_str());
    m
}

fn engine_unavailable_message(argv: &Vec<String>, root: &str, body: &str) -> (m: String)
    ensures
        m@ == engine_unavailable_spec(text::texts(argv@), root@, body@),
{
    let p = port_text();
    let mut m = cat2("Jarvis server is running but the inference engine is not available (HTTP 503). This usually means the configured model couldn't be loaded.\n\nCheck the server logs, or run 'uv run jarvis serve --port ", p.as_str());
    if argv.len() > 5 {
        text::push_text(&mut m, " ");
        let rest = join_spaced_from(argv, 5);
        text::push_text(&mut m, rest.as_str());
    } else {
        assert(m@ + Seq::<char>::empty() =~= m@);
    }
    text::push_text(&mut m, "' from ");
    text::push_text(&mut m, root);
    text::push_text(&mut m, " to see the engine error.\n\nServer response:\n");
    let b = text::trimmed(body);
    text::push_text(&mut m, b.as_str());
    m
}

fn exit_code_string(code: Option<i32>) -> (t: String)
    ensures
        t@ == diagnostics::exit_code_text(code),
{
    match code {
        Some(c) => text::i64_text(c as i64),
        None => owned("unknown"),
    }
}

fn early_exit_message(code: Option<i32>, stderr: &str, uv: &str, root: &str) -> (m: String)
    ensures
        m@ == early_exit_spec(code, stderr@, uv@, root@),
{
    let c = exit_code_string(code);
    if text::text_is_empty(stderr) {
        let mut m = cat3("Jarvis server exited (code ", c.as_str(), ") before becoming ready.\n\nNo stderr output. Check that:\n1. uv is installed (");
        text::push_text(&mut m, uv);
        text::push_text(&mut m, ")\n2. The OpenJarvis repo is at ");
        text::push_text(&mut m, root);
        text::push_text(&mut m, "\n3. 'uv sync' completes in that directory");
        m
    } else {
        let mut m = cat3("Jarvis server exited (code ", c.as_str(), ") before becoming ready.\n\nStderr:\n");
        text::push_text(&mut m, stderr);
        m
    }
}

fn server_timeout_message(stderr: &str, uv: &str, root: &str) -> (m: String)
    ensures
        m@ == server_timeout_spec(stderr@, uv@, root@),
{
    if text::text_is_empty(stderr) {
        let mut m = cat3("Jarvis server did not become ready within 10 minutes. Check that:\n1. uv is installed (", uv, ")\n2. The OpenJarvis repo is at ");
        text::push_text(&mut m, root);
        text::push_text(&mut m, "\n3. Run 'uv sync' in that directory");
        m
    } else {
        cat2("Jarvis server did not become ready within 10 minutes.\n\nStderr:\n", stderr)
    }
}

fn uv_missing_message(p: Platform) -> (m: &'static str)
    ensures
        m@ == uv_missing_spec(p),
{
    match p {
        Platform::Windows => UV_MISSING_WINDOWS,
        Platform::MacOs => UV_MISSING_MACOS,
        Platform::Linux => UV_MISSING_LINUX,
        Platform::Other => UV_MISSING_OTHER,
    }
}

/// A plan that does nothing yet.
pub open spec fn empty_plan() -> config::BootPlanView {
    config::BootPlanView { launch_ollama: false, model_to_pull: None, engine_host: None, serve_args: Seq::empty() }
}

/// The sequence before its first step: the status says the source is starting.
pub open spec fn initial_spec(cfg: config::ConfigView, platform: Platform) -> BootView {
    BootView {
        stage: Stage::Start,
        cfg,
        platform,
        status: starting_spec(config::provider_name_spec(cfg.kind)),
        plan: empty_plan(),
        model: Seq::empty(),
        resolved: None,
        pull_error: Seq::empty(),
        uv: Seq::empty(),
        git: Seq::empty(),
        root: Seq::empty(),
        target: Seq::empty(),
        python: Seq::empty(),
        runtime_root: None,
        dir: Seq::empty(),
        argv: Seq::empty(),
    }
}

impl BootMachine {
    /// The boot sequence of `cfg` on `platform`, before its first step.
    pub fn new(cfg: InferenceConfig, platform: Platform) -> (m: BootMachine)
        ensures
            m@ == initial_spec(cfg@, platform),
    {
        let source = config::provider_name(cfg.kind);
        let m = BootMachine {
            stage: Stage::Start,
            cfg,
            platform,
            status: SetupStatus::starting(source),
            plan: BootPlan { launch_ollama: false, model_to_pull: None, engine_host: None, serve_args: Vec::new() },
            model: String::new(),
            resolved: None,
            pull_error: String::new(),
            uv: String::new(),
            git: String::new(),
            root: String::new(),
            target: String::new(),
            python: String::new(),
            runtime_root: None,
            dir: String::new(),
            argv: Vec::new(),
        };
        assert(m@.plan =~= empty_plan());
        assert(m@ =~= initial_spec(m.cfg@, platform));
        m
    }

    fn fail_with(&mut self, e: String) -> (a: BootAction)
        ensures
            (final(self)@, action_view(a)) == fail(old(self)@, e@),
    {
        self.stage = Stage::Done;
        self.status.error = Some(e);
        BootAction::Finish
    }

    fn enter_server(&mut self) -> (a: BootAction)
        ensures
            (final(self)@, action_view(a)) == enter_server(old(self)@),
    {
        self.stage = Stage::AwaitRuntime;
        self.status.phase = owned("server");
        self.status.detail = owned("Starting API server...");
        BootAction::FindRuntime
    }

    fn model_ready(&mut self) -> (a: BootAction)
        ensures
            (final(self)@, action_view(a)) == model_ready(old(self)@),
    {
        self.status.model_ready = true;
        self.status.detail = owned("Model ready.");
        self.enter_server()
    }

    fn resolve(&mut self, r: String) -> (a: BootAction)
        ensures
            (final(self)@, action_view(a)) == resolve(old(self)@, r@),
    {
        if !text::text_eq(r.as_str(), self.model.as_str()) {
            let d = cat3("Using installed model ", r.as_str(), ".");
            self.status.detail = d;
        }
        if config::should_persist_resolved_model(&self.cfg) {
            let mut c = self.cfg.duplicate();
            c.model = Some(r.clone());
            self.resolved = Some(r);
            self.stage = Stage::AwaitPersist;
            BootAction::PersistConfig(c)
        } else {
            self.resolved = Some(r);
            self.model_ready()
        }
    }

    fn connected(&mut self) -> (a: BootAction)
        ensures
            (final(self)@, action_view(a)) == connected(old(self)@),
    {
        self.status.ollama_ready = true;
        self.status.model_ready = true;
        self.status.detail = owned("Connected to custom endpoint.");
        self.enter_server()
    }

    fn attached(&mut self) -> (a: BootAction)
        ensures
            (final(self)@, action_view(a)) == attached(old(self)@),
    {
        self.stage = Stage::Done;
        self.status.phase = owned("ready");
        let p = port_text();
        self.status.detail = cat3("Connected to existing API server on port ", p.as_str(), ".");
        self.status.server_ready = true;
        self.status.model_ready = true;
        self.status.ollama_ready = true;
        BootAction::Finish
    }

    fn on_begin(&mut self) -> (a: BootAction)
        ensures
            (final(self)@, action_view(a)) == on_begin(old(self)@),
    {
        let src = config::provider_name(self.cfg.kind);
        if !crate::keys::has_model(&self.cfg) {
            self.stage = Stage::Done;
            self.status = SetupStatus::unconfigured(src);
            return BootAction::Finish;
        }
        match config::provider_key_name(self.cfg.kind) {
            Some(k) => {
                self.stage = Stage::AwaitKey;
                BootAction::ReadKey(owned(k))
            },
            None => {
                self.stage = Stage::AwaitRam;
                BootAction::MeasureRam
            },
        }
    }

    fn on_ram(&mut self, ram_kib: u64) -> (a: BootAction)
        ensures
            (final(self)@, action_view(a)) == on_ram(old(self)@, ram_kib as nat),
    {
        let plan = config::boot_plan(&self.cfg, ram_kib);
        let src = config::provider_name(self.cfg.kind);
        self.status.source = owned(src);
        let launch = plan.launch_ollama;
        let host = match &plan.engine_host {
            Some(p) => p.1.clone(),
            None => String::new(),
        };
        self.plan = plan;
        if launch {
            self.stage = Stage::AwaitOllama;
            self.status.phase = owned("ollama");
            self.status.detail = owned("Starting inference engine...");
            BootAction::StartOllama
        } else if self.cfg.kind == SourceKind::Groq || self.cfg.kind == SourceKind::OpenAi
            || self.cfg.kind == SourceKind::Anthropic || self.cfg.kind == SourceKind::Gemini {
            self.status.ollama_ready = true;
            self.status.model_ready = true;
            self.status.detail = cat2(src, " configured.");
            self.enter_server()
        } else {
            self.status.phase = owned("model");
            self.status.detail = cat3("Connecting to ", host.as_str(), "...");
            if text::text_is_empty(host.as_str()) {
                let e = unreachable_message(host.as_str());
                self.fail_with(e)
            } else {
                self.stage = Stage::AwaitEndpoint;
                BootAction::ProbeEndpoint(host)
            }
        }
    }
}

impl BootMachine {
    fn runtime_env(&self, lookups: &Vec<(String, Result<Option<String>, String>)>) -> (env: Vec<(String, String)>)
        ensures
            keys::pair_texts(env@) == runtime_env_spec(self@.runtime_root, self.platform, exported_keys(lookups@)),
    {
        let mut env: Vec<(String, String)> = Vec::new();
        env.push((owned("PYTHONUTF8"), owned("1")));
        match &self.runtime_root {
            Some(r) => {
                let b = paths::browsers_path(r.as_str(), self.platform == Platform::Windows);
                env.push((owned("PLAYWRIGHT_BROWSERS_PATH"), b));
            },
            None => {},
        }
        let ghost head = keys::pair_texts(env@);
        let found = keys::read_cloud_keys(lookups);
        append_pairs(&mut env, &found);
        proof {
            assert(head =~= seq![("PYTHONUTF8"@, "1"@)] + match self@.runtime_root {
                Some(r) => seq![("PLAYWRIGHT_BROWSERS_PATH"@, paths::join_spec(r, "ms-playwright"@, self.platform == Platform::Windows))],
                None => Seq::<(Seq<char>, Seq<char>)>::empty(),
            });
        }
        env
    }
}

fn append_pairs(v: &mut Vec<(String, String)>, extra: &Vec<(String, String)>)
    ensures
        keys::pair_texts(final(v)@) == keys::pair_texts(old(v)@) + keys::pair_texts(extra@),
{
    let ghost start = keys::pair_texts(v@);
    let mut i: usize = 0;
    while i < extra.len()
        invariant
            i <= extra.len(),
            keys::pair_texts(v@) == start + keys::pair_texts(extra@).take(i as int),
        decreases extra.len() - i,
    {
        let ghost before = keys::pair_texts(v@);
        v.push((extra[i].0.clone(), extra[i].1.clone()));
        assert(keys::pair_texts(v@) =~= before.push((extra@[i as int].0@, extra@[i as int].1@)));
        assert(keys::pair_texts(extra@).take(i + 1) =~= keys::pair_texts(extra@).take(i as int).push((extra@[i as int].0@, extra@[i as int].1@)));
        i = i + 1;
    }
    assert(keys::pair_texts(extra@).take(extra@.len() as int) =~= keys::pair_texts(extra@));
}

impl BootMachine {
    /// One step of the boot sequence: takes what the last action produced,
    /// updates the setup status, and says what to do next.
    #[verifier::spinoff_prover]
    #[verifier::rlimit(60)]
    pub fn step(&mut self, event: BootEvent) -> (a: BootAction)
        ensures
            (final(self)@, action_view(a)) == boot_step(old(self)@, event),
    {
        match (self.stage, event) {
            (Stage::Start, BootEvent::Begin) => self.on_begin(),
            (Stage::AwaitKey, BootEvent::KeyChecked(b)) => if b {
                self.stage = Stage::AwaitRam;
                BootAction::MeasureRam
            } else {
                self.status.phase = owned("error");
                let e = cat3("Configure ", config::provider_name(self.cfg.kind), " in Settings before starting Jarvis.");
                self.fail_with(e)
            },
            (Stage::AwaitRam, BootEvent::RamMeasured(k)) => self.on_ram(k),
            (Stage::AwaitOllama, BootEvent::OllamaStarted(b)) => if !b {
                self.fail_with(owned(OLLAMA_MISSING))
            } else {
                let model = match &self.plan.model_to_pull {
                    Some(x) => x.clone(),
                    None => owned(models::STARTUP_MODEL),
                };
                self.stage = Stage::AwaitInstalled;
                self.status.ollama_ready = true;
                self.status.phase = owned("model");
                self.status.detail = cat3("Checking for ", model.as_str(), "...");
                self.model = model;
                BootAction::ListModels
            },
            (Stage::AwaitInstalled, BootEvent::ModelsListed(v)) => match models::startup_installed_model(self.model.as_str(), v.as_slice()) {
                Some(r) => self.resolve(r),
                None => {
                    self.stage = Stage::AwaitPull;
                    self.status.detail = cat3("Downloading ", self.model.as_str(), "... (this may take a minute)");
                    BootAction::PullModel(self.model.clone())
                },
            },
            (Stage::AwaitPull, BootEvent::ModelPulled(r)) => match r {
                Ok(()) => {
                    let m = self.model.clone();
                    self.resolve(m)
                },
                Err(_) => {
                    self.stage = Stage::AwaitInstalledAfterPull;
                    BootAction::ListModels
                },
            },
            (Stage::AwaitInstalledAfterPull, BootEvent::ModelsListed(v)) => match models::preferred_installed_model(v.as_slice()) {
                Some(r) => self.resolve(r),
                None => {
                    self.stage = Stage::AwaitFallbackPresent;
                    BootAction::CheckModel(owned(models::FALLBACK_MODEL))
                },
            },
            (Stage::AwaitFallbackPresent, BootEvent::ModelPresent(b)) => if b {
                self.resolve(owned(models::FALLBACK_MODEL))
            } else {
                self.stage = Stage::AwaitFallbackPull;
                self.status.detail = cat3("Downloading ", models::FALLBACK_MODEL, "...");
                BootAction::PullModel(owned(models::FALLBACK_MODEL))
            },
            (Stage::AwaitFallbackPull, BootEvent::ModelPulled(r)) => match r {
                Ok(()) => self.resolve(owned(models::FALLBACK_MODEL)),
                Err(e) => {
                    self.stage = Stage::AwaitInstalledAfterFallback;
                    self.pull_error = e;
                    BootAction::ListModels
                },
            },
            (Stage::AwaitInstalledAfterFallback, BootEvent::ModelsListed(v)) => match models::preferred_installed_model(v.as_slice()) {
                Some(r) => self.resolve(r),
                None => {
                    let e = cat2("Failed to download model: ", self.pull_error.as_str());
                    self.fail_with(e)
                },
            },
            (Stage::AwaitPersist, BootEvent::ConfigPersisted) => self.model_ready(),
            (Stage::AwaitEndpoint, BootEvent::EndpointChecked(b)) => if !b {
                let host = match &self.plan.engine_host {
                    Some(p) => p.1.clone(),
                    None => String::new(),
                };
                let e = unreachable_message(host.as_str());
                self.fail_with(e)
            } else {
                match &self.plan.engine_host {
                    Some(p) => {
                        let engine = p.0.clone();
                        let host = p.1.clone();
                        self.stage = Stage::AwaitEngineHost;
                        BootAction::WriteEngineHost { engine, host }
                    },
                    None => self.connected(),
                }
            },
            (Stage::AwaitEngineHost, BootEvent::EngineHostWritten(r)) => match r {
                Ok(()) => self.connected(),
                Err(e) => {
                    let msg = cat2("Could not write engine config: ", e.as_str());
                    self.fail_with(msg)
                },
            },
            (Stage::AwaitRuntime, BootEvent::RuntimeFound(o)) => match o {
                Some((py, root)) => {
                    self.stage = Stage::AwaitDataDir;
                    self.python = py;
                    self.runtime_root = root;
                    BootAction::CreateDataDir
                },
                None => {
                    self.stage = Stage::AwaitUv;
                    BootAction::ResolveBinary(owned("uv"))
                },
            },
            (Stage::AwaitDataDir, BootEvent::DataDirCreated { dir, error }) => match error {
                Some(err) => {
                    let msg = cat3("Could not create Jarvis data directory at ", dir.as_str(), ": ");
                    let mut msg = msg;
                    text::push_text(&mut msg, err.as_str());
                    self.dir = dir;
                    self.fail_with(msg)
                },
                None => {
                    self.stage = Stage::AwaitRuntimeKeys;
                    self.dir = dir;
                    BootAction::ReadCloudKeys
                },
            },
            (Stage::AwaitRuntimeKeys, BootEvent::CloudKeysRead(lookups)) => {
                let args = runtime_args(&self.plan.serve_args);
                let env = self.runtime_env(&lookups);
                self.stage = Stage::AwaitRuntimeSpawn;
                BootAction::SpawnRuntime { python: self.python.clone(), dir: self.dir.clone(), args, env }
            },
            (Stage::AwaitRuntimeSpawn, BootEvent::Spawned(r)) => match r {
                Ok(()) => {
                    self.stage = Stage::AwaitRuntimeHealth;
                    BootAction::WaitForHealth { seconds: 180 }
                },
                Err(e) => {
                    let msg = cat2("Could not start the bundled Jarvis runtime: ", e.as_str());
                    self.fail_with(msg)
                },
            },
            (Stage::AwaitRuntimeHealth, BootEvent::Health(o)) => match o {
                HealthOutcome::Ready => {
                    self.stage = Stage::AwaitRuntimeSatellite;
                    BootAction::StartSatellite(self.dir.clone())
                },
                HealthOutcome::ServiceUnavailable(body) => {
                    let b = text::trimmed(body.as_str());
                    let msg = cat2("Groq is not ready. Add a valid GROQ_API_KEY and restart Jarvis.\n\n", b.as_str());
                    self.fail_with(msg)
                },
                HealthOutcome::EarlyExit { code, stderr } => {
                    let c = debug_code_text(code);
                    let mut msg = cat3("The bundled Jarvis runtime stopped (code ", c.as_str(), ").\n\n");
                    let t = text::trimmed(stderr.as_str());
                    text::push_text(&mut msg, t.as_str());
                    self.fail_with(msg)
                },
                HealthOutcome::Timeout => self.fail_with(owned(RUNTIME_TIMEOUT)),
            },
            (Stage::AwaitRuntimeSatellite, BootEvent::SatelliteStarted) => {
                self.stage = Stage::Done;
                self.status.server_ready = true;
                self.status.phase = owned("ready");
                self.status.detail = owned("Jarvis is ready.");
                BootAction::Finish
            },
            (Stage::AwaitUv, BootEvent::Binary { path, exists }) => {
                let missing = !exists && text::text_eq(path.as_str(), "uv");
                self.uv = path;
                if missing {
                    self.fail_with(owned(uv_missing_message(self.platform)))
                } else {
                    self.stage = Stage::AwaitProjectRoot;
                    BootAction::FindProjectRoot
                }
            },
            (Stage::AwaitProjectRoot, BootEvent::ProjectRoot(o)) => match o {
                Some(r) => {
                    self.stage = Stage::AwaitProbe;
                    self.root = r;
                    BootAction::ProbeServer
                },
                None => {
                    self.stage = Stage::AwaitGit;
                    BootAction::ResolveBinary(owned("git"))
                },
            },
            (Stage::AwaitGit, BootEvent::Binary { path, exists }) => {
                let missing = !exists && text::text_eq(path.as_str(), "git");
                self.git = path;
                if missing {
                    self.fail_with(owned(GIT_MISSING))
                } else {
                    self.stage = Stage::AwaitCloneTarget;
                    BootAction::InspectCloneTarget
                }
            },
            (Stage::AwaitCloneTarget, BootEvent::CloneTarget { path, exists, has_project }) => {
                if exists && !has_project {
                    let msg = cat2(path.as_str(), " exists but is not a valid OpenJarvis project. Remove it and relaunch, or set OPENJARVIS_ROOT to the correct path.");
                    self.target = path;
                    self.fail_with(msg)
                } else {
                    self.stage = Stage::AwaitClone;
                    self.target = path.clone();
                    self.status.detail = owned("Downloading OpenJarvis (first launch)...");
                    BootAction::CloneProject { git: self.git.clone(), target: path }
                }
            },
            (Stage::AwaitClone, BootEvent::Cloned(o)) => match o {
                CloneOutcome::Done => {
                    self.stage = Stage::AwaitProbe;
                    self.root = self.target.clone();
                    BootAction::ProbeServer
                },
                CloneOutcome::Failed(err) => {
                    let t = text::trimmed(err.as_str());
                    let mut msg = cat3("Failed to download OpenJarvis: ", t.as_str(), ". Clone manually: git clone ");
                    text::push_text(&mut msg, CLONE_URL);
                    text::push_text(&mut msg, " ");
                    text::push_text(&mut msg, self.target.as_str());
                    self.fail_with(msg)
                },
                CloneOutcome::WaitFailed(err) => {
                    let mut msg = cat3("Failed to download OpenJarvis: ", err.as_str(), ". Clone manually: git clone ");
                    text::push_text(&mut msg, CLONE_URL);
                    text::push_text(&mut msg, " ");
                    text::push_text(&mut msg, self.target.as_str());
                    self.fail_with(msg)
                },
                CloneOutcome::SpawnFailed(err) => {
                    let msg = cat3("Could not run git: ", err.as_str(), ". Install git from https://git-scm.com then relaunch.");
                    self.fail_with(msg)
                },
            },
            (Stage::AwaitProbe, BootEvent::Probed { owned: owns, answer }) => match answer {
                ProbeAnswer::Status { code, text: status_text } => if owns && 200 <= code && code < 300 {
                    self.stage = Stage::AwaitConfirm;
                    BootAction::ConfirmServer
                } else if code == 503 {
                    self.fail_with(busy_port_message())
                } else {
                    let msg = foreign_port_message(status_text.as_str());
                    self.fail_with(msg)
                },
                ProbeAnswer::NoAnswer => {
                    self.stage = Stage::AwaitPort;
                    BootAction::CheckPort
                },
            },
            (Stage::AwaitConfirm, BootEvent::Confirmed(b)) => if b {
                self.stage = Stage::AwaitAttachRoot;
                BootAction::FindProjectRoot
            } else {
                self.stage = Stage::AwaitPort;
                BootAction::CheckPort
            },
            (Stage::AwaitAttachRoot, BootEvent::ProjectRoot(o)) => match o {
                Some(r) => {
                    self.stage = Stage::AwaitAttachSatellite;
                    BootAction::StartSatellite(r)
                },
                None => self.attached(),
            },
            (Stage::AwaitAttachSatellite, BootEvent::SatelliteStarted) => self.attached(),
            (Stage::AwaitPort, BootEvent::PortChecked(r)) => match r {
                Ok(()) => {
                    self.stage = Stage::AwaitCargo;
                    BootAction::ResolveBinary(owned("cargo"))
                },
                Err(e) => self.fail_with(e),
            },
            (Stage::AwaitCargo, BootEvent::Binary { path, exists }) => {
                if !exists && text::text_eq(path.as_str(), "cargo") {
                    self.fail_with(diagnostics::format_missing_rust_toolchain())
                } else {
                    self.stage = Stage::AwaitSync;
                    self.status.detail = owned(INSTALLING_DEPENDENCIES);
                    BootAction::SyncDependencies { uv: self.uv.clone(), root: self.root.clone() }
                }
            },
            (Stage::AwaitSync, BootEvent::Synced(o)) => match o {
                SyncOutcome::Done => {
                    self.stage = Stage::AwaitExtension;
                    self.status.detail = owned("Verifying Rust extension (openjarvis_rust)...");
                    BootAction::CheckExtension { uv: self.uv.clone(), root: self.root.clone() }
                },
                SyncOutcome::Failed { code, stderr } => {
                    let msg = diagnostics::format_uv_sync_failure(self.root.as_str(), code, stderr.as_str());
                    self.fail_with(msg)
                },
                SyncOutcome::SpawnFailed(err) => {
                    let msg = diagnostics::format_uv_sync_spawn_error(self.root.as_str(), self.uv.as_str(), err.as_str());
                    self.fail_with(msg)
                },
            },
            (Stage::AwaitExtension, BootEvent::ExtensionChecked(r)) => match r {
                Ok(()) => {
                    let argv = serve_argv(&self.plan.serve_args, &self.resolved);
                    self.stage = Stage::AwaitServerKeys;
                    self.argv = argv;
                    self.status.detail = cat3("Starting API server from ", self.root.as_str(), "...");
                    BootAction::ReadCloudKeys
                },
                Err(e) => self.fail_with(e),
            },
            (Stage::AwaitServerKeys, BootEvent::CloudKeysRead(lookups)) => {
                let args = copy_texts(&self.argv);
                let env = keys::read_cloud_keys(&lookups);
                self.stage = Stage::AwaitServerSpawn;
                BootAction::SpawnServer { uv: self.uv.clone(), root: self.root.clone(), args, env }
            },
            (Stage::AwaitServerSpawn, BootEvent::Spawned(r)) => match r {
                Ok(()) => {
                    self.stage = Stage::AwaitHealth;
                    BootAction::WaitForHealth { seconds: 600 }
                },
                Err(e) => {
                    let msg = cat3("Could not start jarvis server: ", e.as_str(), ". Make sure uv is installed (https://astral.sh/uv) and the OpenJarvis repo is cloned at ");
                    let mut msg = msg;
                    text::push_text(&mut msg, self.root.as_str());
                    self.fail_with(msg)
                },
            },
            (Stage::AwaitHealth, BootEvent::Health(o)) => match o {
                HealthOutcome::Ready => {
                    self.stage = Stage::AwaitSatellite;
                    BootAction::StartSatellite(self.root.clone())
                },
                HealthOutcome::ServiceUnavailable(body) => {
                    let msg = engine_unavailable_message(&self.argv, self.root.as_str(), body.as_str());
                    self.fail_with(msg)
                },
                HealthOutcome::EarlyExit { code, stderr } => {
                    let msg = early_exit_message(code, stderr.as_str(), self.uv.as_str(), self.root.as_str());
                    self.fail_with(msg)
                },
                HealthOutcome::Timeout => {
                    self.stage = Stage::AwaitStderrTail;
                    BootAction::ReadStderrTail
                },
            },
            (Stage::AwaitStderrTail, BootEvent::StderrTail(t)) => {
                let msg = server_timeout_message(t.as_str(), self.uv.as_str(), self.root.as_str());
                self.fail_with(msg)
            },
            (Stage::AwaitSatellite, BootEvent::SatelliteStarted) => {
                self.stage = Stage::Done;
                self.status.server_ready = true;
                self.status.phase = owned("ready");
                self.status.detail = owned("All systems ready.");
                BootAction::Finish
            },
            _ => BootAction::Ignore,
        }
    }
}

/// A copy of a vector of strings.
pub fn copy_texts(v: &Vec<String>) -> (r: Vec<String>)
    ensures
        text::texts(r@) == text::texts(v@),
{
    let mut r: Vec<String> = Vec::new();
    let mut i: usize = 0;
    while i < v.len()
        invariant
            i <= v.len(),
            text::texts(r@) == text::texts(v@).take(i as int),
        decreases v.len() - i,
    {
        let ghost before = text::texts(r@);
        r.push(v[i].clone());
        assert(text::texts(r@) =~= before.push(v@[i as int]@));
        assert(text::texts(v@).take(i + 1) =~= text::texts(v@).take(i as int).push(v@[i as int]@));
        i = i + 1;
    }
    assert(text::texts(v@).take(v@.len() as int) =~= text::texts(v@));
    r
}

/// How far a stage is from the end: every step that does something moves
/// to a stage of lower rank.
pub open spec fn rank(s: Stage) -> nat {
    match s {
        Stage::Start => 42,
        Stage::AwaitKey => 41,
        Stage::AwaitRam => 40,
        Stage::AwaitOllama => 39,
        Stage::AwaitInstalled => 38,
        Stage::AwaitPull => 37,
        Stage::AwaitInstalledAfterPull => 36,
        Stage::AwaitFallbackPresent => 35,
        Stage::AwaitFallbackPull => 34,
        Stage::AwaitInstalledAfterFallback => 33,
        Stage::AwaitPersist => 32,
        Stage::AwaitEndpoint => 31,
        Stage::AwaitEngineHost => 30,
        Stage::AwaitRuntime => 29,
        Stage::AwaitDataDir => 28,
        Stage::AwaitRuntimeKeys => 27,
        Stage::AwaitRuntimeSpawn => 26,
        Stage::AwaitRuntimeHealth => 25,
        Stage::AwaitRuntimeSatellite => 24,
        Stage::AwaitUv => 23,
        Stage::AwaitProjectRoot => 22,
        Stage::AwaitGit => 21,
        Stage::AwaitCloneTarget => 20,
        Stage::AwaitClone => 19,
        Stage::AwaitProbe => 18,
        Stage::AwaitConfirm => 17,
        Stage::AwaitAttachRoot => 16,
        Stage::AwaitAttachSatellite => 15,
        Stage::AwaitPort => 14,
        Stage::AwaitCargo => 13,
        Stage::AwaitSync => 12,
        Stage::AwaitExtension => 11,
        Stage::AwaitServerKeys => 10,
        Stage::AwaitServerSpawn => 9,
        Stage::AwaitHealth => 8,
        Stage::AwaitStderrTail => 7,
        Stage::AwaitSatellite => 6,
        Stage::Done => 0,
    }
}

/// The boot sequence never loops: a step either ignores an event that does
/// not answer the pending action and changes nothing, or moves to a stage of
/// lower rank; it finishes exactly when it reaches `Done`, and a finished
/// sequence ignores every event. So at most 42 steps reach the end.
#[verifier::rlimit(50)]
pub proof fn law_boot_progresses(m: BootView, e: BootEvent)
    ensures
        boot_step(m, e).1 == ActionView::Ignore ==> boot_step(m, e).0 == m,
        boot_step(m, e).1 != ActionView::Ignore ==> rank(boot_step(m, e).0.stage) < rank(m.stage),
        (boot_step(m, e).1 == ActionView::Finish) <==> (boot_step(m, e).1 != ActionView::Ignore && boot_step(m, e).0.stage == Stage::Done),
        m.stage == Stage::Done ==> boot_step(m, e) == (m, ActionView::Ignore),
{
    match m.stage {
        Stage::Start => {},
        Stage::AwaitKey => {},
        Stage::AwaitRam => {},
        Stage::AwaitOllama => {},
        Stage::AwaitInstalled => {},
        Stage::AwaitPull => {},
        Stage::AwaitInstalledAfterPull => {},
        Stage::AwaitFallbackPresent => {},
        Stage::AwaitFallbackPull => {},
        Stage::AwaitInstalledAfterFallback => {},
        Stage::AwaitPersist => {},
        Stage::AwaitEndpoint => {},
        Stage::AwaitEngineHost => {},
        Stage::AwaitRuntime => {},
        Stage::AwaitDataDir => {},
        Stage::AwaitRuntimeKeys => {},
        Stage::AwaitRuntimeSpawn => {},
        Stage::AwaitRuntimeHealth => {},
        Stage::AwaitRuntimeSatellite => {},
        Stage::AwaitUv => {},
        Stage::AwaitProjectRoot => {},
        Stage::AwaitGit => {},
        Stage::AwaitCloneTarget => {},
        Stage::AwaitClone => {},
        Stage::AwaitProbe => {},
        Stage::AwaitConfirm => {},
        Stage::AwaitAttachRoot => {},
        Stage::AwaitAttachSatellite => {},
        Stage::AwaitPort => {},
        Stage::AwaitCargo => {},
        Stage::AwaitSync => {},
        Stage::AwaitExtension => {},
        Stage::AwaitServerKeys => {},
        Stage::AwaitServerSpawn => {},
        Stage::AwaitHealth => {},
        Stage::AwaitStderrTail => {},
        Stage::AwaitSatellite => {},
        Stage::Done => {},
    }
}

/// The configuration a boot sequence serves never changes while it runs.
pub proof fn law_boot_keeps_config(m: BootView, e: BootEvent)
    ensures
        boot_step(m, e).0.cfg == m.cfg,
        boot_step(m, e).0.platform == m.platform,
{
}

/// A status that is consistent: an error or a ready server only show once
/// the sequence is over, and never both.
pub open spec fn status_consistent(m: BootView) -> bool {
    &&& (m.status.error is Some || m.status.server_ready) ==> m.stage == Stage::Done
    &&& !(m.status.error is Some && m.status.server_ready)
}

/// A fresh boot sequence is consistent, and every step keeps it so: an error
/// ends the sequence, and a failed sequence never reports a ready server.
pub proof fn law_boot_status_consistent(cfg: config::ConfigView, platform: Platform, m: BootView, e: BootEvent)
    ensures
        status_consistent(initial_spec(cfg, platform)),
        status_consistent(m) ==> status_consistent(boot_step(m, e).0),
{
}

/// A source without a usable model stops at once, shown as unconfigured,
/// without starting anything.
pub proof fn law_unconfigured_starts_nothing(cfg: config::ConfigView, platform: Platform)
    requires
        !has_model_spec(cfg),
    ensures
        boot_step(initial_spec(cfg, platform), BootEvent::Begin).1 == ActionView::Finish,
        boot_step(initial_spec(cfg, platform), BootEvent::Begin).0.status == unconfigured_spec(config::provider_name_spec(cfg.kind)),
{
}

/// The stages that talk to Ollama.
pub open spec fn ollama_stage(s: Stage) -> bool {
    ||| s == Stage::AwaitOllama
    ||| s == Stage::AwaitInstalled
    ||| s == Stage::AwaitPull
    ||| s == Stage::AwaitInstalledAfterPull
    ||| s == Stage::AwaitFallbackPresent
    ||| s == Stage::AwaitFallbackPull
    ||| s == Stage::AwaitInstalledAfterFallback
    ||| s == Stage::AwaitPersist
}

/// The actions that start Ollama or download a model.
pub open spec fn ollama_action(a: ActionView) -> bool {
    ||| a == ActionView::StartOllama
    ||| a == ActionView::ListModels
    ||| a is PullModel
    ||| a is CheckModel
    ||| a is PersistConfig
}

/// Cloud providers and custom endpoints never start Ollama nor download a
/// model: only an Ollama source enters the Ollama stages or asks for those
/// actions, and every step keeps it so.
pub proof fn law_only_ollama_downloads(m: BootView, e: BootEvent)
    requires
        ollama_stage(m.stage) ==> m.cfg.kind == SourceKind::Ollama,
    ensures
        ollama_stage(boot_step(m, e).0.stage) ==> m.cfg.kind == SourceKind::Ollama,
        ollama_action(boot_step(m, e).1) ==> m.cfg.kind == SourceKind::Ollama,
{
}

/// A model resolved at startup is written back only when the user configured
/// none, and then exactly as the configuration with that model.
pub proof fn law_persist_only_unconfigured(m: BootView, e: BootEvent)
    ensures
        boot_step(m, e).1 is PersistConfig ==> config::should_persist_spec(m.cfg)
            && boot_step(m, e).1 == ActionView::PersistConfig(config::ConfigView { model: boot_step(m, e).0.resolved, ..m.cfg }),
{
}

/// A model whose download succeeded is the model served: after the pull of
/// the requested model succeeds, that model is resolved; after it fails,
/// nothing is resolved yet and the installed models are listed again.
pub proof fn law_pulled_model_is_served(m: BootView)
    requires
        m.stage == Stage::AwaitPull,
    ensures
        boot_step(m, BootEvent::ModelPulled(Ok(()))).0.resolved == Some(m.model),
        boot_step(m, BootEvent::ModelPulled(Ok(()))).1 != ActionView::PullModel(models::FALLBACK_MODEL@),
        forall|err: String| #[trigger] boot_step(m, BootEvent::ModelPulled(Err(err))).0.resolved == m.resolved
            && boot_step(m, BootEvent::ModelPulled(Err(err))).1 == ActionView::ListModels,
{
}

/// The tiny fallback model is only turned to after the download of the
/// requested model failed: it becomes the resolved model only while the
/// fallback is being checked or pulled, or when a listing shows it installed.
pub proof fn law_fallback_only_after_failed_pull(m: BootView, e: BootEvent)
    requires
        m.resolved is None,
        m.model != models::FALLBACK_MODEL@,
    ensures
        boot_step(m, e).0.resolved == Some(models::FALLBACK_MODEL@) ==> (
            m.stage == Stage::AwaitFallbackPresent || m.stage == Stage::AwaitFallbackPull
            || (e matches BootEvent::ModelsListed(v) && text::texts(v@).contains(models::FALLBACK_MODEL@))),
{
    match e {
        BootEvent::ModelsListed(v) => {
            let s = text::texts(v@);
            models::law_startup_uses_installed(m.model, s);
            models::lemma_find_first_sound(s, models::chat_capable());
            models::lemma_find_first_sound(s, models::non_blank());
        },
        _ => {},
    }
}

/// A cloud provider with a model first reads its own key, and boots on only
/// when that key is stored: without it the sequence stops with an error and
/// nothing is started.
pub proof fn law_cloud_boot_needs_its_key(m: BootView)
    ensures
        (m.stage == Stage::Start && has_model_spec(m.cfg) && config::provider_key_name_spec(m.cfg.kind) is Some)
            ==> boot_step(m, BootEvent::Begin).1 == ActionView::ReadKey(config::provider_key_name_spec(m.cfg.kind)->0),
        m.stage == Stage::AwaitKey ==> boot_step(m, BootEvent::KeyChecked(true)).1 == ActionView::MeasureRam,
        m.stage == Stage::AwaitKey ==> boot_step(m, BootEvent::KeyChecked(false)).1 == ActionView::Finish
            && boot_step(m, BootEvent::KeyChecked(false)).0.status.error is Some
            && boot_step(m, BootEvent::KeyChecked(false)).0.status.server_ready == m.status.server_ready,
{
}

} // verus!
