use jarvis_desktop::boot::{
    BootAction, BootEvent, BootMachine, HealthOutcome, Platform, ProbeAnswer, Stage, SyncOutcome,
};
use jarvis_desktop::config::{InferenceConfig, SourceKind};
use jarvis_desktop::models::{FALLBACK_MODEL, KIB_PER_GIB};

fn machine(kind: SourceKind, model: Option<&str>) -> BootMachine {
    BootMachine::new(
        InferenceConfig { kind, model: model.map(|m| m.to_string()), host: None, engine: None },
        Platform::Linux,
    )
}

#[test]
fn boot_without_a_model_shows_unconfigured_and_starts_nothing() {
    let mut m = machine(SourceKind::Groq, None);
    assert_eq!(m.status.phase, "starting");
    assert!(matches!(m.step(BootEvent::Begin), BootAction::Finish));
    assert_eq!(m.status.phase, "unconfigured");
    assert_eq!(m.status.source, "groq");
    assert!(m.status.error.is_none());
    assert!(matches!(m.step(BootEvent::Begin), BootAction::Ignore));

    let mut blank = machine(SourceKind::Ollama, Some("  "));
    assert!(matches!(blank.step(BootEvent::Begin), BootAction::Finish));
    assert_eq!(blank.status.phase, "unconfigured");
}

#[test]
fn boot_of_a_cloud_provider_needs_its_key() {
    let mut m = machine(SourceKind::Groq, Some("openai/gpt-oss-120b"));
    assert!(matches!(m.step(BootEvent::Begin), BootAction::ReadKey(k) if k == "GROQ_API_KEY"));
    assert!(matches!(m.step(BootEvent::KeyChecked(false)), BootAction::Finish));
    assert_eq!(m.status.phase, "error");
    assert_eq!(m.status.error.as_deref(), Some("Configure groq in Settings before starting Jarvis."));
    assert!(!m.status.server_ready);
}

#[test]
fn boot_ignores_events_that_answer_nothing_pending() {
    let mut m = machine(SourceKind::Ollama, Some("qwen3.5:4b"));
    assert!(matches!(m.step(BootEvent::ConfigPersisted), BootAction::Ignore));
    assert_eq!(m.stage, Stage::Start);
    assert!(matches!(m.step(BootEvent::Begin), BootAction::MeasureRam));
    assert!(matches!(m.step(BootEvent::SatelliteStarted), BootAction::Ignore));
    assert_eq!(m.stage, Stage::AwaitRam);
}

#[test]
fn boot_of_ollama_serves_the_installed_model_from_a_checkout() {
    let mut m = machine(SourceKind::Ollama, Some("qwen3.5:4b"));
    assert!(matches!(m.step(BootEvent::Begin), BootAction::MeasureRam));
    assert!(matches!(m.step(BootEvent::RamMeasured(16 * KIB_PER_GIB)), BootAction::StartOllama));
    assert_eq!(m.status.phase, "ollama");
    assert!(matches!(m.step(BootEvent::OllamaStarted(true)), BootAction::ListModels));
    assert!(m.status.ollama_ready);
    let installed = vec!["llama3.2:latest".to_string()];
    assert!(matches!(m.step(BootEvent::ModelsListed(installed)), BootAction::FindRuntime));
    assert_eq!(m.resolved.as_deref(), Some("llama3.2:latest"));
    assert!(m.status.model_ready);
    assert!(matches!(m.step(BootEvent::RuntimeFound(None)), BootAction::ResolveBinary(b) if b == "uv"));
    let uv = BootEvent::Binary { path: "/usr/bin/uv".to_string(), exists: true };
    assert!(matches!(m.step(uv), BootAction::FindProjectRoot));
    assert!(matches!(m.step(BootEvent::ProjectRoot(Some("/repo".to_string()))), BootAction::ProbeServer));
    let probe = BootEvent::Probed { owned: false, answer: ProbeAnswer::NoAnswer };
    assert!(matches!(m.step(probe), BootAction::CheckPort));
    assert!(matches!(m.step(BootEvent::PortChecked(Ok(()))), BootAction::ResolveBinary(b) if b == "cargo"));
    let cargo = BootEvent::Binary { path: "/usr/bin/cargo".to_string(), exists: true };
    assert!(matches!(m.step(cargo), BootAction::SyncDependencies { uv, root } if uv == "/usr/bin/uv" && root == "/repo"));
    assert!(matches!(m.step(BootEvent::Synced(SyncOutcome::Done)), BootAction::CheckExtension { .. }));
    assert!(matches!(m.step(BootEvent::ExtensionChecked(Ok(()))), BootAction::ReadCloudKeys));
    let lookups = vec![
        ("GROQ_API_KEY".to_string(), Ok(Some("g".to_string()))),
        ("OPENAI_API_KEY".to_string(), Ok(None)),
        ("TAVILY_API_KEY".to_string(), Err("locked".to_string())),
    ];
    match m.step(BootEvent::CloudKeysRead(lookups)) {
        BootAction::SpawnServer { uv, root, args, env } => {
            assert_eq!(uv, "/usr/bin/uv");
            assert_eq!(root, "/repo");
            assert_eq!(env, vec![("GROQ_API_KEY".to_string(), "g".to_string())]);
            assert_eq!(&args[..5], ["run", "jarvis", "serve", "--port", "18080"]);
            assert!(args.windows(2).any(|w| w[0] == "--model" && w[1] == "llama3.2:latest"));
            assert!(args.windows(2).any(|w| w[0] == "--engine" && w[1] == "ollama"));
        }
        _ => panic!("expected the server to be spawned"),
    }
    assert!(matches!(m.step(BootEvent::Spawned(Ok(()))), BootAction::WaitForHealth { seconds: 600 }));
    assert!(matches!(m.step(BootEvent::Health(HealthOutcome::Ready)), BootAction::StartSatellite(d) if d == "/repo"));
    assert!(matches!(m.step(BootEvent::SatelliteStarted), BootAction::Finish));
    assert!(m.status.server_ready);
    assert_eq!(m.status.phase, "ready");
    assert_eq!(m.status.detail, "All systems ready.");
    assert!(m.status.error.is_none());
    assert!(matches!(m.step(BootEvent::SatelliteStarted), BootAction::Ignore));
}

#[test]
fn boot_falls_back_and_reports_a_failed_download() {
    let mut m = machine(SourceKind::Ollama, Some("qwen3.5:9b"));
    m.step(BootEvent::Begin);
    m.step(BootEvent::RamMeasured(16 * KIB_PER_GIB));
    m.step(BootEvent::OllamaStarted(true));
    assert!(matches!(m.step(BootEvent::ModelsListed(vec![])), BootAction::PullModel(p) if p == "qwen3.5:9b"));
    assert!(matches!(m.step(BootEvent::ModelPulled(Err("offline".to_string()))), BootAction::ListModels));
    assert!(matches!(m.step(BootEvent::ModelsListed(vec![])), BootAction::CheckModel(p) if p == FALLBACK_MODEL));
    assert!(matches!(m.step(BootEvent::ModelPresent(false)), BootAction::PullModel(p) if p == FALLBACK_MODEL));
    assert!(matches!(m.step(BootEvent::ModelPulled(Err("net".to_string()))), BootAction::ListModels));
    assert!(matches!(m.step(BootEvent::ModelsListed(vec![])), BootAction::Finish));
    assert_eq!(m.status.error.as_deref(), Some("Failed to download model: net"));
    assert!(!m.status.server_ready);
}

#[test]
fn boot_of_ollama_without_ollama_stops_with_an_install_hint() {
    let mut m = machine(SourceKind::Ollama, Some("qwen3.5:4b"));
    m.step(BootEvent::Begin);
    m.step(BootEvent::RamMeasured(16 * KIB_PER_GIB));
    assert!(matches!(m.step(BootEvent::OllamaStarted(false)), BootAction::Finish));
    assert_eq!(m.status.error.as_deref(), Some("Could not start Ollama. Install it from https://ollama.com"));
}

#[test]
fn boot_of_a_custom_endpoint_without_host_cannot_connect() {
    let mut m = machine(SourceKind::Custom, Some("m"));
    assert!(matches!(m.step(BootEvent::Begin), BootAction::MeasureRam));
    assert!(matches!(m.step(BootEvent::RamMeasured(KIB_PER_GIB)), BootAction::Finish));
    let e = m.status.error.clone().unwrap();
    assert!(e.starts_with("Could not reach your custom inference server at (no URL set)."));
}

#[test]
fn boot_of_a_custom_endpoint_writes_its_host_then_serves() {
    let mut m = BootMachine::new(
        InferenceConfig {
            kind: SourceKind::Custom,
            model: Some("qwen2.5-7b".into()),
            host: Some("http://localhost:1234".into()),
            engine: None,
        },
        Platform::Windows,
    );
    m.step(BootEvent::Begin);
    assert!(matches!(m.step(BootEvent::RamMeasured(KIB_PER_GIB)), BootAction::ProbeEndpoint(h) if h == "http://localhost:1234"));
    assert!(matches!(
        m.step(BootEvent::EndpointChecked(true)),
        BootAction::WriteEngineHost { engine, host } if engine == "lmstudio" && host == "http://localhost:1234"
    ));
    assert!(matches!(m.step(BootEvent::EngineHostWritten(Ok(()))), BootAction::FindRuntime));
    assert_eq!(m.status.detail, "Starting API server...");
    assert!(m.status.model_ready && m.status.ollama_ready);
}

#[test]
fn boot_with_the_bundled_runtime_starts_it_in_the_data_directory() {
    let mut m = machine(SourceKind::Gemini, Some("gemini-2.5-flash"));
    m.step(BootEvent::Begin);
    assert!(matches!(m.step(BootEvent::KeyChecked(true)), BootAction::MeasureRam));
    assert!(matches!(m.step(BootEvent::RamMeasured(KIB_PER_GIB)), BootAction::FindRuntime));
    assert_eq!(m.status.source, "gemini");
    let runtime = ("/opt/py/bin/python3".to_string(), Some("/opt/py/bin".to_string()));
    assert!(matches!(m.step(BootEvent::RuntimeFound(Some(runtime))), BootAction::CreateDataDir));
    assert!(matches!(
        m.step(BootEvent::DataDirCreated { dir: "/data".into(), error: None }),
        BootAction::ReadCloudKeys
    ));
    let lookups = vec![
        ("GEMINI_API_KEY".to_string(), Ok(Some("k".to_string()))),
        ("GROQ_API_KEY".to_string(), Ok(Some(String::new()))),
    ];
    match m.step(BootEvent::CloudKeysRead(lookups)) {
        BootAction::SpawnRuntime { python, dir, args, env } => {
            assert_eq!(python, "/opt/py/bin/python3");
            assert_eq!(dir, "/data");
            assert_eq!(
                env,
                vec![
                    ("PYTHONUTF8".to_string(), "1".to_string()),
                    ("PLAYWRIGHT_BROWSERS_PATH".to_string(), "/opt/py/bin/ms-playwright".to_string()),
                    ("GEMINI_API_KEY".to_string(), "k".to_string()),
                ]
            );
            assert_eq!(&args[..5], ["-m", "openjarvis.desktop_entry", "serve", "--port", "18080"]);
            assert!(args.windows(2).any(|w| w[0] == "--engine" && w[1] == "cloud"));
        }
        _ => panic!("expected the runtime to be spawned"),
    }
    assert!(matches!(m.step(BootEvent::Spawned(Ok(()))), BootAction::WaitForHealth { seconds: 180 }));
    let exit = HealthOutcome::EarlyExit { code: Some(3), stderr: " trace \n".into() };
    assert!(matches!(m.step(BootEvent::Health(exit)), BootAction::Finish));
    assert_eq!(
        m.status.error.as_deref(),
        Some("The bundled Jarvis runtime stopped (code Some(3)).\n\ntrace")
    );
}

#[test]
fn boot_does_not_adopt_a_foreign_server_on_the_port() {
    let mut m = machine(SourceKind::Groq, Some("openai/gpt-oss-120b"));
    m.step(BootEvent::Begin);
    m.step(BootEvent::KeyChecked(true));
    m.step(BootEvent::RamMeasured(KIB_PER_GIB));
    m.step(BootEvent::RuntimeFound(None));
    m.step(BootEvent::Binary { path: "uv".into(), exists: true });
    m.step(BootEvent::ProjectRoot(Some("/repo".into())));
    let probe = BootEvent::Probed {
        owned: false,
        answer: ProbeAnswer::Status { code: 200, text: "200 OK".into() },
    };
    assert!(matches!(m.step(probe), BootAction::Finish));
    let e = m.status.error.clone().unwrap();
    assert!(e.starts_with("Port 18080 is already in use by another service (it answered /health with HTTP 200 OK)."));
    assert!(e.contains("lsof -nP -iTCP:18080"));
}

#[test]
fn boot_reports_a_missing_uv_with_the_platform_hint() {
    let mut m = BootMachine::new(
        InferenceConfig { kind: SourceKind::OpenAi, model: Some("gpt-4o".into()), host: None, engine: None },
        Platform::MacOs,
    );
    m.step(BootEvent::Begin);
    m.step(BootEvent::KeyChecked(true));
    m.step(BootEvent::RamMeasured(KIB_PER_GIB));
    m.step(BootEvent::RuntimeFound(None));
    assert!(matches!(m.step(BootEvent::Binary { path: "uv".into(), exists: false }), BootAction::Finish));
    assert!(m.status.error.clone().unwrap().contains("To install on macOS"));
}
