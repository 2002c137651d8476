use flashback::assemble::AssembleResponse;
use flashback::config::ProviderKind;
use flashback::playground::{
    begin_turn, check_distiller, check_seeder, parse_seed_line, render_context_block,
    resolve_llm_settings, run_turn, save_settings, seed_lines, seed_memory, turn_scope, RetrievedItem, Settings,
    Turn, TurnAction, TurnEvent, TurnRequest,
};
use flashback::records::RawRecordRow;
use flashback::stream::LlmStats;
use flashback::testsupport::test_config;
use flashback::time::Timestamp;

fn request(message: &str) -> TurnRequest {
    TurnRequest {
        message: message.to_string(),
        container_id: "conv-1".to_string(),
        mode: None,
        limit: None,
        api_key: None,
        include_real: false,
    }
}

fn record(content: &str) -> RawRecordRow {
    RawRecordRow {
        id: 5,
        record_type: "conversation".to_string(),
        content: content.to_string(),
        content_hash: String::new(),
        event_time: Timestamp::new(1_785_005_546, 0).unwrap(),
        ingest_time: Timestamp::new(0, 0).unwrap(),
        source: "host".to_string(),
        source_ref: None,
        user_id: "alice".to_string(),
        project_id: Some("playground".to_string()),
        container_id: None,
        mode: None,
        importance: None,
        supersedes: None,
        payload: None,
    }
}

fn to_user_write(settings: Settings, records: Vec<RawRecordRow>) -> Turn {
    let (t, a) = begin_turn(request("hello"), "alice", "*");
    assert!(matches!(a, TurnAction::LoadSettings));
    let (t, a) = run_turn(t, TurnEvent::Settings(Some(settings)));
    match a {
        TurnAction::Assemble(r) => {
            assert_eq!(r.project_id.as_deref(), Some("playground"));
            assert_eq!(r.exclude_container_id.as_deref(), Some("conv-1"));
            assert_eq!(r.query.as_deref(), Some("hello"));
            assert_eq!(r.limit, Some(12));
        }
        _ => panic!("retrieval comes first"),
    }
    let (t, a) = run_turn(
        t,
        TurnEvent::Assembled(Ok(AssembleResponse {
            records,
            degraded: false,
            warning: None,
        })),
    );
    match a {
        TurnAction::Write(r) => {
            assert_eq!(r.record_type, "conversation");
            assert_eq!(r.content, "hello");
            assert_eq!(r.source, "playground:user");
            assert_eq!(r.project_id.as_deref(), Some("playground"));
            assert_eq!(r.payload.as_deref(), Some(r#"{"origin":"playground"}"#));
        }
        _ => panic!("the user's turn is written before the model runs"),
    }
    t
}

#[test]
fn context_block_is_verbatim_and_numbered() {
    let items = vec![RetrievedItem {
        id: 0,
        item_type: "conversation".into(),
        source: "host:helper:user".into(),
        content: "  the quarterly report is due friday  ".into(),
        event_time: "2026-07-26T12:00:00+00:00".into(),
        container_id: Some("conv-9".into()),
        sandbox: false,
    }];
    let block = render_context_block(&items);
    assert!(block.contains("[1] (conversation, host:helper:user, 2026-07-26T12:00:00+00:00)"));
    // Trimmed but not reworded — what you read is what the model gets.
    assert!(block.contains("the quarterly report is due friday"));
}

#[test]
fn empty_retrieval_still_renders_a_header() {
    assert!(render_context_block(&vec![]).starts_with("Relevant memories"));
}

#[test]
fn turn_scope_is_sandbox_only_unless_real_is_asked_for() {
    let (project, include_sandbox) = turn_scope(false);
    assert_eq!(project.as_deref(), Some("playground"));
    assert!(!include_sandbox);
    let (project, include_sandbox) = turn_scope(true);
    assert!(project.is_none());
    assert!(include_sandbox);
}

#[test]
fn seed_lines_parse_the_optional_date_prefix() {
    let (t, c) = parse_seed_line("2025-11-02 | switched the backup drive");
    assert_eq!(c, "switched the backup drive");
    assert_eq!(t.unwrap().to_rfc3339(), "2025-11-02T12:00:00+00:00");
    let (t, c) = parse_seed_line("prefers coffee at 93C");
    assert!(t.is_none());
    assert_eq!(c, "prefers coffee at 93C");
    // A pipe without a date stays content, whole.
    let (t, c) = parse_seed_line("a | b");
    assert!(t.is_none());
    assert_eq!(c, "a | b");
}

#[test]
fn seeds_are_sandbox_documents_with_their_dates() {
    let v = seed_lines("2025-11-02 | switched the backup drive\n\nprefers coffee at 93C\n");
    assert_eq!(v.len(), 2);
    assert!(v
        .iter()
        .all(|r| r.project_id.as_deref() == Some("playground") && r.record_type == "document"));
    assert_eq!(v[0].content, "switched the backup drive");
    assert_eq!(
        v[0].event_time.unwrap().to_rfc3339(),
        "2025-11-02T12:00:00+00:00"
    );
    assert!(v[1].event_time.is_none());
    assert_eq!(
        v[1].payload.as_deref(),
        Some(r#"{"origin":"playground-seed"}"#)
    );
}

#[test]
fn a_turn_without_a_model_ends_with_the_trace() {
    let t = to_user_write(Settings::default(), vec![record(" remembered ")]);
    let (t, a) = run_turn(t, TurnEvent::Written(Ok(41)));
    assert!(matches!(a, TurnAction::ResolveSystem));
    let (_, a) = run_turn(t, TurnEvent::System(test_config().provider));
    match a {
        TurnAction::Trace(trace) => {
            assert_eq!(trace.written, vec![41]);
            assert!(trace.model.is_none());
            assert!(!trace.model_inherited);
            assert!(trace
                .llm_error
                .unwrap()
                .starts_with("No model configured"));
            assert_eq!(trace.retrieved.len(), 1);
            assert!(trace.retrieved[0].sandbox);
            assert_eq!(trace.retrieved[0].event_time, "2026-07-25T18:52:26+00:00");
            assert_eq!(trace.prompt.len(), 3);
            assert_eq!(trace.prompt[0].role, "system");
            assert!(trace.prompt[1].content.ends_with(
                "[1] (conversation, host, 2026-07-25T18:52:26+00:00)\nremembered\n\n"
            ));
            assert_eq!(trace.prompt[2].content, "hello");
        }
        _ => panic!("the trace goes out"),
    }
}

#[test]
fn a_turn_with_a_model_writes_both_sides() {
    let own = Settings {
        base_url: Some("http://127.0.0.1:1234/v1".to_string()),
        model: Some("probe\"7b".to_string()),
        system_prompt: Some("  be brief ".to_string()),
        context_limit: None,
    };
    let t = to_user_write(own, vec![]);
    let (t, a) = run_turn(t, TurnEvent::Written(Ok(1)));
    match a {
        TurnAction::Trace(trace) => {
            assert_eq!(trace.model.as_deref(), Some("probe\"7b"));
            assert_eq!(trace.prompt.len(), 2);
            assert_eq!(trace.prompt[0].content, "be brief");
        }
        _ => panic!("the trace goes out"),
    }
    let stats = LlmStats {
        prompt_tokens: Some(3),
        completion_tokens: None,
        latency_ms: 9,
    };
    let (t, a) = run_turn(t, TurnEvent::Completed(Ok(("hi".to_string(), stats))));
    match a {
        TurnAction::Write(r) => {
            assert_eq!(r.content, "hi");
            assert_eq!(r.source, "playground:assistant");
            assert_eq!(
                r.payload.as_deref(),
                Some(r#"{"model":"probe\"7b","origin":"playground"}"#)
            );
        }
        _ => panic!("the model's side is written"),
    }
    let (_, a) = run_turn(t, TurnEvent::Written(Ok(2)));
    match a {
        TurnAction::Done(d) => {
            assert_eq!(d.written, vec![1, 2]);
            assert_eq!(d.stats, Some(stats));
            assert!(d.llm_error.is_none());
        }
        _ => panic!("the turn is done"),
    }
}

#[test]
fn a_dead_model_loses_nothing() {
    let own = Settings {
        base_url: Some("http://127.0.0.1:1234/v1".to_string()),
        model: Some("m".to_string()),
        ..Settings::default()
    };
    let t = to_user_write(own, vec![]);
    let (t, _) = run_turn(t, TurnEvent::Written(Ok(1)));
    let (_, a) = run_turn(t, TurnEvent::Completed(Err("refused".to_string())));
    match a {
        TurnAction::Done(d) => {
            assert_eq!(d.written, vec![1]);
            assert_eq!(d.llm_error.as_deref(), Some("refused"));
            assert!(d.stats.is_none());
        }
        _ => panic!("the turn is done"),
    }
}

#[test]
fn turns_fail_with_their_reasons() {
    let fail = |a: TurnAction| match a {
        TurnAction::Fail(m) => m,
        _ => panic!("the turn fails"),
    };
    assert_eq!(
        fail(begin_turn(request("  "), "alice", "*").1),
        "message must not be empty"
    );
    assert_eq!(
        fail(begin_turn(request("hi"), "*", "*").1),
        "playground needs a concrete user_id; sign in as a non-wildcard operator"
    );
    let (t, _) = begin_turn(request("hi"), "alice", "*");
    let (t, _) = run_turn(t, TurnEvent::Settings(None));
    assert_eq!(
        fail(run_turn(t, TurnEvent::Assembled(Err("down".to_string()))).1),
        "retrieval failed: down"
    );
    let t = to_user_write(Settings::default(), vec![]);
    assert_eq!(
        fail(run_turn(t, TurnEvent::Written(Err("down".to_string()))).1),
        "write failed: down"
    );
}

#[test]
fn the_system_provider_is_inherited() {
    let mut sys = test_config().provider;
    let none = Settings::default();
    let (cfg, inherited) = resolve_llm_settings(&none, &sys, &None);
    assert!(cfg.is_none() && !inherited);
    sys.kind = ProviderKind::Remote;
    sys.remote.api_base = Some("http://127.0.0.1:11434/v1".to_string());
    sys.remote.distill_model = "gemma4:12b".to_string();
    sys.remote.api_key = "env".to_string();
    let (cfg, inherited) = resolve_llm_settings(&none, &sys, &None);
    let cfg = cfg.unwrap();
    assert!(inherited);
    assert_eq!(cfg.model, "gemma4:12b");
    assert_eq!(cfg.base_url, "http://127.0.0.1:11434/v1");
    assert_eq!(cfg.api_key.as_deref(), Some("env"));
    let (cfg, _) = resolve_llm_settings(&none, &sys, &Some("mine".to_string()));
    assert_eq!(cfg.unwrap().api_key.as_deref(), Some("mine"));
    let own = Settings {
        base_url: Some("http://127.0.0.1:1234/v1".to_string()),
        model: Some("probe:7b".to_string()),
        ..Settings::default()
    };
    let (cfg, inherited) = resolve_llm_settings(&own, &sys, &None);
    assert!(!inherited);
    assert_eq!(cfg.unwrap().model, "probe:7b");
}

#[test]
fn saving_settings_tidies_them() {
    let s = save_settings(Settings {
        base_url: Some(" http://localhost:1/v1 ".to_string()),
        model: Some("  ".to_string()),
        system_prompt: None,
        context_limit: Some(201),
    })
    .unwrap();
    assert_eq!(s.base_url.as_deref(), Some("http://localhost:1/v1"));
    assert!(s.model.is_none());
    assert!(s.context_limit.is_none());
    assert!(save_settings(Settings {
        base_url: Some("ftp://x".to_string()),
        ..Settings::default()
    })
    .is_err());
}

#[test]
fn wildcards_neither_seed_nor_distil() {
    assert!(check_seeder("alice", "*").is_ok());
    assert!(check_seeder("*", "*").is_err());
    assert!(check_distiller("alice", "*").is_ok());
    assert!(check_distiller("*", "*").is_err());
}

#[test]
fn a_dated_line_loses_its_front() {
    assert_eq!(seed_memory(" x | y | z ", true), "y | z");
    assert_eq!(seed_memory(" x | y ", false), "x | y");
    assert_eq!(seed_memory(" x ", true), "x");
}
