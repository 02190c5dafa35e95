use jarvis_desktop::catalog::{
    catalog_continues, catalog_http_error, catalog_request, parse_provider_models,
    sort_dedup_by_id, ProviderModel,
};
use jarvis_desktop::commands::{
    api_base, bearer, health_precondition, is_serve_command, jarvis_command_args, serve_poll,
    transcription_error, ServePoll,
};
use jarvis_desktop::config::{
    complete_inference_config, provider_kind, InferenceConfig, SourceKind, GROQ_MODEL,
};
use jarvis_desktop::diagnostics::{port_owner_hint, uv_sync_stderr_tail};
use jarvis_desktop::engine_toml::{engine_slot_taken, try_upsert_engine_host};
use jarvis_desktop::catalog::ollama_model_names_in;
use jarvis_desktop::json::{json_as_str, json_get, json_get_either, JsonValue};
use jarvis_desktop::keys::{
    check_apply_request, engine_api_key_name, legacy_file_retired, legacy_keys_to_migrate,
    managed_cloud_key_names, plan_inference_source, provider_key, read_cloud_keys,
    read_legacy_cloud_keys, secure_read_result, secure_write_result, stored_provider_key,
    validate_cloud_key_name, KeySource, KeyringRead, KeyringWrite,
};
use jarvis_desktop::models::{
    model_name_looks_embedding_only, parse_meminfo_total_kib, parse_sysctl_total_kib,
    parse_wmic_total_kib, ram_kib_or_default, DEFAULT_RAM_KIB,
};
use jarvis_desktop::paths::{browsers_path, clone_target, desktop_data_dir, engine_config_path, inference_config_path, legacy_cloud_keys_path};
use jarvis_desktop::commands::{jarvis_command_result, poll_client_error, serve_launch_error, CommandRun};
use jarvis_desktop::keys::{after_key_save, cloud_key_statuses, key_save_reads_back, key_value_to_store, KeySaveOutcome};
use jarvis_desktop::config::config_needs_rewrite;
use jarvis_desktop::keys::commit_source_change;
use jarvis_desktop::shell::{launched_hidden, tray_menu_action, TrayAction};

#[test]
fn complete_config_defaults_to_groq_when_nothing_parsed() {
    let cfg = complete_inference_config(None, "");
    assert_eq!(cfg.kind, SourceKind::Groq);
    assert!(cfg.model.is_none());
    let cfg = complete_inference_config(None, "not json");
    assert_eq!(cfg.kind, SourceKind::Groq);
}

#[test]
fn complete_config_gives_legacy_groq_file_the_default_model() {
    let parsed = InferenceConfig { kind: SourceKind::Groq, ..Default::default() };
    let cfg = complete_inference_config(Some(parsed), r#"{"kind":"groq"}"#);
    assert_eq!(cfg.model.as_deref(), Some(GROQ_MODEL));
    let parsed = InferenceConfig { kind: SourceKind::Groq, ..Default::default() };
    let cfg = complete_inference_config(Some(parsed), r#"{"provider":"groq","kind":"groq"}"#);
    assert!(cfg.model.is_none());
}

#[test]
fn complete_config_keeps_a_custom_endpoint() {
    let parsed = InferenceConfig {
        kind: SourceKind::Custom,
        model: Some("qwen2.5-7b".into()),
        host: Some("http://localhost:1234".into()),
        engine: Some("lmstudio".into()),
    };
    let cfg = complete_inference_config(Some(parsed), "{}");
    assert_eq!(cfg.kind, SourceKind::Custom);
    assert_eq!(cfg.model.as_deref(), Some("qwen2.5-7b"));
    assert_eq!(cfg.host.as_deref(), Some("http://localhost:1234"));
    assert_eq!(cfg.engine.as_deref(), Some("lmstudio"));
}

#[test]
fn ollama_listing_is_read_from_json_text() {
    let body = r#"{"models":[{"name":"llama3.2:latest"},{"name":" "},{"model":"qwen3.5:4b"}]}"#;
    assert_eq!(ollama_model_names_in(body), ["llama3.2:latest", "qwen3.5:4b"]);
    assert!(ollama_model_names_in("not json").is_empty());
    assert!(ollama_model_names_in(r#"{"models":3}"#).is_empty());
}

#[test]
fn json_members_are_found_by_name() {
    let v = JsonValue::Object(vec![
        ("detail".to_string(), JsonValue::Str("bad audio".to_string())),
        ("n".to_string(), JsonValue::Number("3".to_string())),
    ]);
    assert_eq!(json_as_str(json_get(&v, "detail")), Some("bad audio".to_string()));
    assert!(matches!(json_get(&v, "n"), Some(JsonValue::Number(n)) if n == "3"));
    assert!(json_get(&v, "missing").is_none());
    assert!(matches!(json_get_either(&v, "missing", "n"), Some(JsonValue::Number(_))));
    assert!(json_get(&JsonValue::Null, "n").is_none());
}

#[test]
fn provider_catalog_rejects_a_body_that_is_not_json() {
    assert!(parse_provider_models(SourceKind::OpenAi, "<html>").is_err());
}

#[test]
fn transcription_error_prefers_the_detail_field() {
    let m = transcription_error(422, r#"{"detail":"bad audio"}"#);
    assert_eq!(m, "Transcription failed (422): bad audio");
    let m = transcription_error(500, "oops");
    assert!(m.starts_with("Transcription failed (500): "));
    assert!(m.contains("oops"));
}

#[test]
fn engine_host_upsert_refuses_a_non_table_engine_entry() {
    assert!(try_upsert_engine_host("engine = 5\n", "lmstudio", "http://h:1").is_none());
    assert!(try_upsert_engine_host("[engine]\nlmstudio = 1\n", "lmstudio", "http://h:1").is_none());
    match try_upsert_engine_host("[engine]\nvllm = 1\n", "lmstudio", "http://h:1") {
        Some(Ok(t)) => assert!(t.contains("http://h:1")),
        _ => panic!("expected an upsert"),
    }
    match try_upsert_engine_host("[[[", "lmstudio", "http://h:1") {
        Some(Err(e)) => assert!(e.starts_with("Invalid config.toml: ")),
        _ => panic!("expected a parse error"),
    }
    assert_eq!(engine_slot_taken("x"), "Invalid config.toml: [engine.x] is not a table");
}

#[test]
fn provider_names_are_case_insensitive() {
    assert_eq!(provider_kind("  OpenAI ").unwrap(), SourceKind::OpenAi);
    assert_eq!(provider_kind("google").unwrap(), SourceKind::Gemini);
    assert_eq!(provider_kind("Mistral").unwrap_err(), "Unknown provider: mistral");
}

#[test]
fn key_names_must_be_upper_case_api_keys() {
    assert!(validate_cloud_key_name("OPENAI_API_KEY").is_ok());
    assert_eq!(
        validate_cloud_key_name("openai_api_key").unwrap_err(),
        "Invalid API key name: openai_api_key"
    );
    assert!(validate_cloud_key_name("OPENAI_TOKEN").is_err());
    assert!(validate_cloud_key_name("").is_err());
}

#[test]
fn engine_key_names_are_upper_snake_case() {
    assert_eq!(engine_api_key_name("lm-studio"), "LM_STUDIO_API_KEY");
    assert_eq!(engine_api_key_name("vllm"), "VLLM_API_KEY");
    assert_eq!(engine_api_key_name("--"), "LMSTUDIO_API_KEY");
    assert_eq!(engine_api_key_name("_x_"), "X_API_KEY");
}

#[test]
fn managed_key_names_are_sorted_and_include_the_custom_engine() {
    let groq = managed_cloud_key_names(&InferenceConfig::default());
    assert_eq!(groq.len(), 8);
    assert!(groq.windows(2).all(|w| w[0] < w[1]));
    let custom = managed_cloud_key_names(&InferenceConfig {
        kind: SourceKind::Custom,
        model: Some("m".into()),
        host: Some("http://h:1".into()),
        engine: Some("vllm".into()),
    });
    assert_eq!(custom.len(), 9);
    assert!(custom.contains(&"VLLM_API_KEY".to_string()));
    assert!(custom.windows(2).all(|w| w[0] < w[1]));
    assert!(custom.iter().all(|n| validate_cloud_key_name(n).is_ok()));
}

#[test]
fn legacy_key_file_is_read_and_migrated() {
    let keys = read_legacy_cloud_keys("# comment\nOPENAI_API_KEY = sk-1\nBAD LINE\nGROQ_API_KEY=\n");
    assert!(keys.contains(&("OPENAI_API_KEY".to_string(), "sk-1".to_string())));
    let migrate = legacy_keys_to_migrate(&keys);
    assert!(migrate.iter().all(|(_, v)| !v.trim().is_empty()));
    assert!(legacy_file_retired(1, &[true]));
    assert!(!legacy_file_retired(2, &[true, false]));
}

#[test]
fn secure_store_answers_become_results() {
    assert_eq!(
        secure_read_result("GROQ_API_KEY", KeyringRead::Found("k".into())),
        Ok(Some("k".to_string()))
    );
    assert_eq!(secure_read_result("GROQ_API_KEY", KeyringRead::NoEntry), Ok(None));
    assert_eq!(
        secure_read_result("GROQ_API_KEY", KeyringRead::OpenFailed("locked".into())),
        Err("Failed to open secure key storage for GROQ_API_KEY: locked".to_string())
    );
    assert_eq!(
        secure_read_result("GROQ_API_KEY", KeyringRead::ReadFailed("io".into())),
        Err("Failed to read GROQ_API_KEY from secure key storage: io".to_string())
    );
    assert_eq!(secure_write_result("GROQ_API_KEY", true, KeyringWrite::NoEntry), Ok(()));
    assert_eq!(
        secure_write_result("GROQ_API_KEY", false, KeyringWrite::Failed("denied".into())),
        Err("Failed to save GROQ_API_KEY in secure key storage: denied".to_string())
    );
    assert_eq!(
        secure_write_result("GROQ_API_KEY", true, KeyringWrite::Failed("denied".into())),
        Err("Failed to remove GROQ_API_KEY from secure key storage: denied".to_string())
    );
    assert_eq!(secure_write_result("GROQ_API_KEY", false, KeyringWrite::Done), Ok(()));
}

#[test]
fn only_stored_non_blank_keys_are_exported() {
    let lookups = vec![
        ("GROQ_API_KEY".to_string(), Ok(Some("g".to_string()))),
        ("OPENAI_API_KEY".to_string(), Ok(None)),
        ("GEMINI_API_KEY".to_string(), Err("locked".to_string())),
        ("TAVILY_API_KEY".to_string(), Ok(Some("  ".to_string()))),
    ];
    let keys = read_cloud_keys(&lookups);
    assert!(keys.contains(&("GROQ_API_KEY".to_string(), "g".to_string())));
    assert!(!keys.iter().any(|(k, _)| k == "OPENAI_API_KEY" || k == "GEMINI_API_KEY"));
}

#[test]
fn provider_keys_come_from_the_request_or_the_store() {
    assert!(matches!(provider_key(SourceKind::OpenAi, Some("  sk-1 ")), KeySource::Ready(Ok(k)) if k == "sk-1"));
    assert!(matches!(provider_key(SourceKind::OpenAi, Some("  ")), KeySource::Stored("OPENAI_API_KEY")));
    assert!(matches!(
        provider_key(SourceKind::Ollama, None),
        KeySource::Ready(Err(e)) if e == "Provider ollama does not use a cloud API key"
    ));
    assert_eq!(stored_provider_key(SourceKind::Gemini, Ok(Some("k".into()))), Ok("k".to_string()));
    assert_eq!(
        stored_provider_key(SourceKind::Gemini, Ok(None)),
        Err("No gemini API key is configured.".to_string())
    );
}

#[test]
fn saving_the_settings_form_checks_the_source() {
    let e = plan_inference_source("foo", None, None, None, None).err().unwrap();
    assert_eq!(e, "Unknown inference source kind: \"foo\"");
    let e = plan_inference_source("custom", Some("m".into()), Some("  ".into()), None, None).err().unwrap();
    assert_eq!(e, "A server URL is required for a custom endpoint.");
    let e = plan_inference_source("custom", None, Some("http://h:1".into()), None, None).err().unwrap();
    assert_eq!(e, "A model name is required for a custom endpoint.");

    let c = plan_inference_source(
        "custom",
        Some("m".into()),
        Some(" http://h:1/v1/ ".into()),
        None,
        Some("secret".into()),
    )
    .ok()
    .unwrap();
    assert_eq!(c.config.host.as_deref(), Some("http://h:1"));
    assert_eq!(c.store_key, Some(("LMSTUDIO_API_KEY".to_string(), "secret".to_string())));

    let c = plan_inference_source("groq", None, None, None, Some("gk".into())).ok().unwrap();
    assert_eq!(c.config.model.as_deref(), Some(GROQ_MODEL));
    assert_eq!(c.store_key, Some(("GROQ_API_KEY".to_string(), "gk".to_string())));
}

#[test]
fn apply_requests_need_a_known_provider_and_a_model() {
    assert_eq!(check_apply_request("OpenAI", " gpt-4o ").unwrap(), (SourceKind::OpenAi, "gpt-4o".to_string()));
    assert_eq!(check_apply_request("openai", "  ").unwrap_err(), "A model identifier is required.");
    assert_eq!(check_apply_request("x", "m").unwrap_err(), "Unknown provider: x");
}

#[test]
fn catalog_requests_carry_the_key_where_each_provider_wants_it() {
    let r = catalog_request(SourceKind::Anthropic, "ak", Some("p2")).ok().unwrap();
    assert_eq!(r.url, "https://api.anthropic.com/v1/models");
    assert_eq!(r.query, vec![("after_id".to_string(), "p2".to_string())]);
    assert!(r.headers.contains(&("x-api-key".to_string(), "ak".to_string())));
    assert!(r.bearer.is_none());
    let r = catalog_request(SourceKind::Gemini, "gk", None).ok().unwrap();
    assert_eq!(r.query, vec![("key".to_string(), "gk".to_string())]);
    let r = catalog_request(SourceKind::Groq, "k", None).ok().unwrap();
    assert_eq!(r.bearer.as_deref(), Some("k"));
    assert_eq!(catalog_request(SourceKind::Ollama, "k", None).err().unwrap(), "Unsupported provider ollama");
}

#[test]
fn catalog_paging_stops_on_a_repeated_token_or_the_page_limit() {
    assert!(catalog_continues(&None, &Some("a".into()), 1));
    assert!(!catalog_continues(&Some("a".into()), &Some("a".into()), 1));
    assert!(!catalog_continues(&None, &None, 1));
    assert!(!catalog_continues(&None, &Some("a".into()), 20));
    let long = "x".repeat(400);
    let m = catalog_http_error(SourceKind::OpenAi, "401 Unauthorized", &long);
    assert_eq!(m, format!("openai model catalog returned HTTP 401 Unauthorized: {}", "x".repeat(300)));
}

#[test]
fn catalog_models_are_sorted_by_id_without_duplicates() {
    let m = |id: &str| ProviderModel { id: id.to_string(), name: None };
    let out = sort_dedup_by_id(vec![m("b"), m("a"), m("b"), m("c")]);
    let ids: Vec<&str> = out.iter().map(|x| x.id.as_str()).collect();
    assert_eq!(ids, ["a", "b", "c"]);
}

#[test]
fn ram_is_read_from_each_platform_report() {
    assert_eq!(parse_meminfo_total_kib("MemFree: 1 kB\nMemTotal:       16318480 kB\n"), Some(16318480));
    assert_eq!(parse_meminfo_total_kib("nothing here"), None);
    assert_eq!(parse_wmic_total_kib("\r\n\r\nTotalVisibleMemorySize=33420012\r\n"), Some(33420012));
    assert_eq!(parse_sysctl_total_kib("17179869184\n"), Some(16777216));
    assert_eq!(ram_kib_or_default(None), DEFAULT_RAM_KIB);
    assert_eq!(ram_kib_or_default(Some(5)), 5);
}

#[test]
fn embedding_models_are_recognised_by_name() {
    assert!(model_name_looks_embedding_only("nomic-embed-text:latest"));
    assert!(!model_name_looks_embedding_only("llama3.2:latest"));
}

#[test]
fn desktop_files_live_under_the_home_directory() {
    assert_eq!(inference_config_path("/home/u", false), "/home/u/.openjarvis/inference.json");
    assert_eq!(legacy_cloud_keys_path("/home/u/", false), "/home/u/.openjarvis/cloud-keys.env");
    assert_eq!(engine_config_path("C:\\Users\\me", true), "C:\\Users\\me\\.openjarvis\\config.toml");
    assert_eq!(clone_target("/home/u", false), "/home/u/OpenJarvis");
    assert_eq!(
        inference_config_path("\\\\server\\share", true),
        "\\\\server\\share\\.openjarvis\\inference.json"
    );
    assert_eq!(clone_target("C:", true), "C:OpenJarvis");
}

#[test]
fn command_helpers_build_urls_and_arguments() {
    assert_eq!(api_base(), "http://127.0.0.1:18080");
    assert_eq!(bearer("k"), "Bearer k");
    assert_eq!(health_precondition(false).unwrap_err(), "Jarvis backend is not running.");
    assert!(health_precondition(true).is_ok());
    let args = vec!["serve".to_string(), "--port".to_string()];
    assert_eq!(jarvis_command_args(&args), ["run", "jarvis", "serve", "--port"]);
    assert!(is_serve_command(&args));
    assert!(!is_serve_command(&vec!["ask".to_string()]));
}

#[test]
fn serve_polls_report_exit_readiness_and_timeout() {
    assert!(matches!(
        serve_poll(Some(Some(1)), " boom \n", false, false),
        ServePoll::Exited(m) if m == "jarvis serve exited (code Some(1)) before becoming healthy:\nboom"
    ));
    assert!(matches!(
        serve_poll(None, "", true, false),
        ServePoll::Ready(m) if m == "jarvis serve is ready on http://127.0.0.1:18080"
    ));
    assert!(matches!(
        serve_poll(None, "", false, true),
        ServePoll::TimedOut(m) if m == "jarvis serve did not become healthy on port 18080 within 120s."
    ));
    assert!(matches!(serve_poll(None, "", false, false), ServePoll::Wait));
}

#[test]
fn port_owner_hint_names_the_port() {
    assert!(port_owner_hint(18080).contains("18080"));
}

#[test]
fn tail_of_a_blank_report_is_empty() {
    assert_eq!(uv_sync_stderr_tail("   \n  ", 10), "");
    assert_eq!(uv_sync_stderr_tail("abcdef", 0), "");
}

#[test]
fn a_source_is_recorded_only_once_its_key_is_stored() {
    let change = plan_inference_source("openai", Some("gpt-4o".into()), None, None, Some("sk".into())).ok().unwrap();
    assert_eq!(
        commit_source_change(change, Err("locked".into())).err().unwrap(),
        "Could not store the API key: locked"
    );
    let change = plan_inference_source("openai", Some("gpt-4o".into()), None, None, Some("sk".into())).ok().unwrap();
    let cfg = commit_source_change(change, Ok(())).unwrap();
    assert_eq!(cfg.kind, SourceKind::OpenAi);
    assert_eq!(cfg.model.as_deref(), Some("gpt-4o"));
    let change = plan_inference_source("ollama", None, None, None, Some("sk".into())).ok().unwrap();
    assert!(change.store_key.is_none());
    assert!(commit_source_change(change, Err("unused".into())).is_ok());
}

#[test]
fn the_tray_toggles_the_window_and_quits() {
    assert_eq!(tray_menu_action("show", Some(true)), TrayAction::HideWindow);
    assert_eq!(tray_menu_action("show", Some(false)), TrayAction::RevealWindow);
    assert_eq!(tray_menu_action("show", None), TrayAction::Nothing);
    assert_eq!(tray_menu_action("quit", Some(true)), TrayAction::Quit);
    assert_eq!(tray_menu_action("health", Some(true)), TrayAction::Nothing);
}

#[test]
fn autostart_launches_hidden() {
    assert!(launched_hidden(&vec!["jarvis".to_string(), "--hidden".to_string()]));
    assert!(!launched_hidden(&vec!["jarvis".to_string()]));
    assert!(!launched_hidden(&vec![]));
}

#[test]
fn verbatim_homes_are_joined_as_path_buf_rebuilds_them() {
    assert_eq!(
        inference_config_path("\\\\?\\C:\\Users\\me", true),
        "\\\\?\\C:\\Users\\me\\.openjarvis\\inference.json"
    );
    assert_eq!(
        engine_config_path("\\\\?\\C:\\Users\\\\me\\", true),
        "\\\\?\\C:\\Users\\me\\.openjarvis\\config.toml"
    );
    assert_eq!(clone_target("\\\\?\\C:", true), "\\\\?\\C:\\OpenJarvis");
    assert_eq!(
        clone_target("\\\\?\\UNC\\srv\\share\\u", true),
        "\\\\?\\UNC\\srv\\share\\u\\OpenJarvis"
    );
    assert_eq!(desktop_data_dir("/home/u", false), "/home/u/.openjarvis/desktop");
    assert_eq!(browsers_path("C:\\Jarvis\\runtime", true), "C:\\Jarvis\\runtime\\ms-playwright");
}

#[test]
fn short_jarvis_commands_report_stdout_or_stderr() {
    let ok = CommandRun::Finished { success: true, stdout: "out".into(), stderr: "err".into() };
    assert_eq!(jarvis_command_result(ok), Ok("out".to_string()));
    let bad = CommandRun::Finished { success: false, stdout: "out".into(), stderr: "err".into() };
    assert_eq!(jarvis_command_result(bad), Err("err".to_string()));
    assert_eq!(
        jarvis_command_result(CommandRun::LaunchFailed("not found".into())),
        Err("Failed to launch jarvis: not found".to_string())
    );
    assert_eq!(serve_launch_error("x"), "Failed to launch jarvis serve: x");
    assert_eq!(poll_client_error("x"), "Failed to build HTTP client: x");
}

#[test]
fn saving_a_key_stores_it_trimmed_and_restarts_only_the_active_provider() {
    assert_eq!(key_value_to_store("  sk-1 \n"), "sk-1");
    assert_eq!(key_value_to_store("   "), "");
    let groq = InferenceConfig { kind: SourceKind::Groq, model: Some("m".into()), host: None, engine: None };
    assert!(key_save_reads_back(&groq, "GROQ_API_KEY"));
    assert!(!key_save_reads_back(&groq, "OPENAI_API_KEY"));
    assert!(matches!(after_key_save(&groq, "OPENAI_API_KEY", None), Ok(KeySaveOutcome::Unchanged)));
    match after_key_save(&groq, "GROQ_API_KEY", Some(Ok(Some("k".into())))) {
        Ok(KeySaveOutcome::Restart(st)) => assert_eq!(st.phase, "starting"),
        _ => panic!("expected a restart"),
    }
    match after_key_save(&groq, "GROQ_API_KEY", Some(Ok(None))) {
        Ok(KeySaveOutcome::Unconfigured(st)) => assert_eq!(st.phase, "unconfigured"),
        _ => panic!("expected unconfigured"),
    }
    assert_eq!(after_key_save(&groq, "GROQ_API_KEY", Some(Err("locked".into()))).err(), Some("locked".to_string()));
    let no_model = InferenceConfig { kind: SourceKind::Groq, model: None, host: None, engine: None };
    assert!(matches!(after_key_save(&no_model, "GROQ_API_KEY", None), Ok(KeySaveOutcome::Unconfigured(_))));
}

#[test]
fn key_status_lists_names_with_whether_they_are_set() {
    let a = vec![
        ("GROQ_API_KEY".to_string(), Ok(Some("secret".to_string()))),
        ("OPENAI_API_KEY".to_string(), Ok(Some(String::new()))),
        ("GEMINI_API_KEY".to_string(), Err("locked".to_string())),
    ];
    let b = vec![
        ("GROQ_API_KEY".to_string(), Ok(Some("other".to_string()))),
        ("OPENAI_API_KEY".to_string(), Ok(None)),
        ("GEMINI_API_KEY".to_string(), Ok(None)),
    ];
    let expected = vec![
        ("GROQ_API_KEY".to_string(), true),
        ("OPENAI_API_KEY".to_string(), false),
        ("GEMINI_API_KEY".to_string(), false),
    ];
    assert_eq!(cloud_key_statuses(&a), expected);
    assert_eq!(cloud_key_statuses(&b), expected);
}

#[test]
fn legacy_files_with_a_model_are_rewritten() {
    let cfg = InferenceConfig { kind: SourceKind::Groq, model: Some("m".into()), host: None, engine: None };
    assert!(config_needs_rewrite(r#"{"kind":"groq"}"#, &cfg));
    assert!(!config_needs_rewrite(r#"{"provider":"groq"}"#, &cfg));
    assert!(!config_needs_rewrite("{}", &InferenceConfig::default()));
}
