use flashback::config::{ProviderConfig, ProviderKind};
use flashback::settings::{
    models_from, models_request, parse_models_json, resolve, resolve_loaded, validate_base_url, SystemSettings,
};
use flashback::settings_api::{
    backend_named, models_to_check, probe_key, probe_key_allowed, provider_warnings,
    startup_check, test_extraction, verify_models_at_startup, view, warning_line, RemoteBackend,
    Severity,
};
use flashback::testsupport::test_config;

fn env_cfg() -> ProviderConfig {
    let mut cfg = test_config().provider;
    cfg.kind = ProviderKind::Heuristic;
    cfg.remote.backend = "openai".into();
    cfg.remote.api_base = Some("http://127.0.0.1:11434/v1".into());
    cfg.remote.api_key = "env-key".into();
    cfg.remote.extract_model = "env-model".into();
    cfg.remote.distill_model = "env-model".into();
    cfg.remote.extract_timeout_ms = 60000;
    cfg.remote.distill_timeout_ms = 180000;
    cfg
}

#[test]
fn resolve_with_empty_settings_is_the_environment() {
    let env = env_cfg();
    let out = resolve(&env, &SystemSettings::default());
    assert_eq!(out.kind, env.kind);
    assert_eq!(out.remote.extract_model, "env-model");
    assert_eq!(out.remote.extract_timeout_ms, 60000);
}

#[test]
fn resolve_stored_fields_win_and_key_passes_through() {
    let db = SystemSettings {
        provider: Some("remote".into()),
        extract_model: Some("db-model".into()),
        extract_timeout_ms: Some(30000),
        ..Default::default()
    };
    let out = resolve(&env_cfg(), &db);
    assert_eq!(out.kind, ProviderKind::Remote);
    assert_eq!(out.remote.extract_model, "db-model");
    assert_eq!(out.remote.extract_timeout_ms, 30000);
    // Unset fields inherit; the key is never stored so always inherits.
    assert_eq!(out.remote.distill_model, "env-model");
    assert_eq!(out.remote.api_key, "env-key");
}

#[test]
fn normalised_blanks_become_none() {
    let s = SystemSettings {
        provider: Some("  ".into()),
        extract_model: Some(" gemma4:12b ".into()),
        ..Default::default()
    }
    .normalised()
    .unwrap();
    assert!(s.provider.is_none());
    assert_eq!(s.extract_model.as_deref(), Some("gemma4:12b"));
}

#[test]
fn normalised_rejects_unknown_provider_backend_and_bad_timeouts() {
    assert!(SystemSettings {
        provider: Some("embedded".into()),
        ..Default::default()
    }
    .normalised()
    .is_err());
    assert!(SystemSettings {
        remote_backend: Some("azure".into()),
        ..Default::default()
    }
    .normalised()
    .is_err());
    assert!(SystemSettings {
        extract_timeout_ms: Some(10),
        ..Default::default()
    }
    .normalised()
    .is_err());
}

#[test]
fn normalised_says_what_is_wrong() {
    let fault = |s: SystemSettings| s.normalised().unwrap_err();
    assert_eq!(
        fault(SystemSettings {
            provider: Some("embedded".into()),
            ..Default::default()
        }),
        "provider must be 'heuristic' or 'remote', got 'embedded'"
    );
    assert_eq!(
        fault(SystemSettings {
            distill_timeout_ms: Some(-5),
            ..Default::default()
        }),
        "distill_timeout_ms must be between 1000 and 600000, got -5"
    );
    assert_eq!(
        fault(SystemSettings {
            api_base: Some("nowhere".into()),
            ..Default::default()
        }),
        "must start with http:// or https://"
    );
}

#[test]
fn parse_models_json_reads_sorts_and_dedupes() {
    let body = r#"{"object":"list","data":[
            {"id":"qwen3.5:9b"},{"id":"gemma4:12b"},{"id":"gemma4:12b"}]}"#;
    assert_eq!(
        parse_models_json(body).unwrap(),
        vec!["gemma4:12b".to_string(), "qwen3.5:9b".to_string()]
    );
}

#[test]
fn parse_models_json_rejects_junk_and_empty() {
    assert!(parse_models_json("not json").is_err());
    assert!(parse_models_json(r#"{"data":[]}"#).is_err());
    assert!(parse_models_json(r#"{"models":["x"]}"#).is_err());
}

#[test]
fn parse_models_json_says_what_is_wrong() {
    assert!(parse_models_json("not json")
        .unwrap_err()
        .starts_with("model list is not JSON: expected ident"));
    assert_eq!(
        parse_models_json(r#"{"data":[{"id":3},{"name":"x"}, 7]}"#).unwrap_err(),
        "the endpoint reports no models"
    );
    assert_eq!(
        parse_models_json(r#"{"data":{}}"#).unwrap_err(),
        "model list has no 'data' array"
    );
}

#[test]
fn allows_the_local_model_servers_people_actually_run() {
    for ok in [
        "http://127.0.0.1:1234/v1",
        "http://localhost:11434/v1",
        "https://openrouter.ai/api/v1",
    ] {
        assert!(validate_base_url(ok).is_ok(), "{ok} should be allowed");
    }
}

#[test]
fn blocks_cloud_metadata_and_odd_schemes() {
    for bad in [
        "http://169.254.169.254/latest/meta-data/",
        "http://metadata.google.internal/computeMetadata/v1/",
        "file:///etc/passwd",
        "gopher://127.0.0.1:6379/_FLUSHALL",
        "not-a-url",
    ] {
        assert!(validate_base_url(bad).is_err(), "{bad} should be refused");
    }
}

#[test]
fn credentials_in_the_url_cannot_disguise_the_host() {
    assert!(validate_base_url("http://evil@169.254.169.254/").is_err());
}

#[test]
fn every_spelling_of_a_metadata_address_is_refused() {
    for bad in [
        "http://[fd00:ec2::254]/v1",
        "http://[FD00:EC2::254]:80/v1",
        "http://fd00:ec2::254/v1",
        "HTTP://x",
        "http://METADATA.google.internal:80",
        "http://a:b@169.254.1.1:8080?x",
    ] {
        assert!(validate_base_url(bad).is_err(), "{bad} should be refused");
    }
    assert_eq!(
        validate_base_url("http://[fd00:ec2::254]/v1").unwrap_err(),
        "fd00:ec2::254 is a cloud metadata address"
    );
    assert_eq!(
        validate_base_url("ftp://x").unwrap_err(),
        "scheme 'ftp' is not allowed (http/https only)"
    );
    assert_eq!(validate_base_url("http:///x").unwrap_err(), "no host in URL");
    assert!(validate_base_url("http://[::1]:8080/v1").is_ok());
}

#[test]
fn key_travels_only_to_the_effective_base() {
    assert!(probe_key_allowed(
        Some("http://127.0.0.1:11434/v1"),
        "http://127.0.0.1:11434/v1/"
    ));
    assert!(!probe_key_allowed(
        Some("http://127.0.0.1:11434/v1"),
        "https://evil.example/v1"
    ));
    assert!(!probe_key_allowed(None, "http://127.0.0.1:11434/v1"));
}

#[test]
fn the_probe_carries_the_key_home_only() {
    let env = env_cfg();
    let none = SystemSettings::default();
    assert_eq!(
        probe_key(&env, &none, "http://127.0.0.1:11434/v1").as_deref(),
        Some("env-key")
    );
    assert!(probe_key(&env, &none, "https://evil.example/v1").is_none());
    let q = models_request("http://localhost:1/v1//", Some(" ")).unwrap();
    assert_eq!(q.url, "http://localhost:1/v1/models");
    assert!(q.bearer.is_none());
    assert!(models_request("nowhere", None).is_err());
}

#[test]
fn resolving_survives_a_failed_load() {
    let env = env_cfg();
    let out = resolve_loaded(&env, &None);
    assert_eq!(out.remote.api_base, env.remote.api_base);
    let db = SystemSettings {
        provider: Some("remote".into()),
        ..Default::default()
    };
    assert_eq!(resolve_loaded(&env, &Some(db)).kind, ProviderKind::Remote);
}

#[test]
fn warnings_name_what_will_not_work() {
    let mut cfg = env_cfg();
    cfg.kind = ProviderKind::Remote;
    let w = provider_warnings(&cfg, "heuristic", &Ok(vec![]));
    assert_eq!(w.len(), 1);
    assert!(w[0].contains("fell back to heuristic"));
    let served = Ok(vec!["env-model".to_string()]);
    assert!(provider_warnings(&cfg, "remote-openai", &served).is_empty());
    cfg.remote.distill_model = "other".into();
    let w = provider_warnings(&cfg, "remote-openai", &served);
    assert_eq!(
        w,
        vec!["distill model 'other' is not served by the endpoint — every distill call will fail until it is pulled or changed"]
    );
    let w = provider_warnings(&cfg, "remote-openai", &Err("gone".to_string()));
    assert_eq!(
        w,
        vec!["saved and applied, but the endpoint's model list could not be checked (gone) — model names are unverified"]
    );
    assert!(warning_line(&vec![]).is_none());
    assert_eq!(
        warning_line(&vec!["a".to_string(), "b".to_string()]).as_deref(),
        Some("a | b")
    );
    assert!(models_to_check(&cfg, "heuristic").is_none());
    let (base, key) = models_to_check(&cfg, "remote-openai").unwrap();
    assert_eq!(base, "http://127.0.0.1:11434/v1");
    assert_eq!(key.as_deref(), Some("env-key"));
}

#[test]
fn startup_asks_a_remote_provider_with_a_base() {
    let mut cfg = env_cfg();
    assert!(startup_check(&cfg).is_none());
    cfg.kind = ProviderKind::Remote;
    let (base, key) = startup_check(&cfg).unwrap();
    assert_eq!(base, "http://127.0.0.1:11434/v1");
    assert_eq!(key.as_deref(), Some("env-key"));
    cfg.remote.api_key = String::new();
    assert!(startup_check(&cfg).unwrap().1.is_none());
    cfg.remote.api_base = None;
    assert!(startup_check(&cfg).is_none());
}

#[test]
fn drafts_are_tried_only_where_there_is_something_to_reach() {
    let env = env_cfg();
    assert!(test_extraction(&env, SystemSettings::default()).is_err());
    let (cfg, backend) = test_extraction(
        &env,
        SystemSettings {
            provider: Some(" remote ".into()),
            remote_backend: Some("anthropic".into()),
            ..Default::default()
        },
    )
    .unwrap();
    assert_eq!(cfg.kind, ProviderKind::Remote);
    assert_eq!(backend, RemoteBackend::Anthropic);
    assert_eq!(backend_named("whatever"), RemoteBackend::OpenRouter);
    assert_eq!(backend_named("openai"), RemoteBackend::OpenAI);
}

#[test]
fn startup_reports_each_role() {
    let mut cfg = env_cfg();
    cfg.remote.distill_model = "big".into();
    let out = verify_models_at_startup(
        &cfg,
        "http://h",
        &Ok(vec!["a".to_string(), "env-model".to_string()]),
    );
    assert_eq!(
        out[0],
        (
            Severity::Info,
            "extract model 'env-model' present at http://h".to_string()
        )
    );
    assert_eq!(out[1].0, Severity::Error);
    assert!(out[1].1.contains("Available: a, env-model."));
    let out = verify_models_at_startup(&cfg, "http://h", &Err("x".to_string()));
    assert_eq!(out.len(), 1);
    assert_eq!(out[0].0, Severity::Warn);
}

#[test]
fn the_settings_page_shows_what_is_in_effect() {
    let info = view(
        &env_cfg(),
        SystemSettings {
            provider: Some("remote".into()),
            ..Default::default()
        },
        "heuristic".to_string(),
        None,
        false,
    );
    assert_eq!(info.effective_provider, "remote");
    assert_eq!(info.effective_backend, "openai");
    assert!(info.env_has_key);
}

#[test]
fn model_names_come_in_order_and_once() {
    let b = || Some("b".to_string());
    assert_eq!(
        models_from(&vec![b(), None, Some("a".to_string()), b()]),
        Ok(vec!["a".to_string(), "b".to_string()])
    );
    assert_eq!(
        models_from(&vec![None]),
        Err("the endpoint reports no models".to_string())
    );
}
