use flashback::core_memory::{
    create_core, delete_core, get_core, list_core, update_core, CreateRequest, UpdateRequest,
};
use flashback::error::AppError;
use flashback::ids::new_id;
use flashback::projection::{
    build_edges, next_rand, overlap, same_thread_edges, EdgeKind, GraphInput,
};
use flashback::service::{
    graph_answer, graph_depth, health_check, timeline_answer, GraphParams, HealthInfo,
    TimelineParams,
};
use flashback::testsupport::{test_config, TestNlp};
use flashback::text::{decimal_int_text, decimal_text, lines, split, trim};
use flashback::time::{noon_of, Timestamp};

fn input(id: u128, entities: &[&str], thread: Option<&str>, supersedes: Option<u128>) -> GraphInput {
    GraphInput {
        id,
        entities: entities.iter().map(|s| s.to_string()).collect(),
        thread_id: thread.map(|t| t.to_string()),
        supersedes,
        created_at: Timestamp::new(0, 0).unwrap(),
    }
}

fn made_at(id: u128, thread: &str, secs: i64, nanos: u32) -> GraphInput {
    let mut i = input(id, &[], Some(thread), None);
    i.created_at = Timestamp::new(secs, nanos).unwrap();
    i
}

#[test]
fn health_is_degraded_without_a_database() {
    let mut h = HealthInfo {
        db_ok: true,
        dev_mode: false,
        build: r#"{"commit":"x"}"#.to_string(),
        embedder: TestNlp.embedder_model_name().to_string(),
        dimension: TestNlp.embedder_dimension(),
        provider: TestNlp.provider_name().to_string(),
        models: None,
    };
    let v: serde_json::Value = serde_json::from_str(&health_check(&h)).unwrap();
    assert_eq!(v["status"], "ok");
    assert_eq!(v["service"], "flashback");
    assert_eq!(v["db"]["ok"], true);
    assert_eq!(v["nlp"]["embedder"]["name"], "test-embedder");
    assert_eq!(v["nlp"]["embedder"]["dimension"], 384);
    assert_eq!(v["nlp"]["extractor"]["provider"], "test");
    assert!(v["nlp"]["extractor"]["extract_model"].is_null());
    assert!(v["build"].is_object());
    h.db_ok = false;
    h.models = Some(("e".to_string(), "d".to_string()));
    let v: serde_json::Value = serde_json::from_str(&health_check(&h)).unwrap();
    assert_eq!(v["status"], "degraded");
    assert_eq!(v["nlp"]["extractor"]["distill_model"], "d");
    assert!(!TestNlp.provider_can_distill());
    assert!(TestNlp.extract_entities("x").is_empty());
    assert_eq!(test_config().port, 8080);
}

#[test]
fn plain_queries() {
    let g = GraphParams {
        entity_id: "e\"".to_string(),
        depth: None,
        relation_types: None,
    };
    assert_eq!(graph_depth(&g), 2);
    assert_eq!(graph_answer(&g), r#"{"edges":[],"nodes":[],"root":"e\""}"#);
    let t = TimelineParams {
        entity_id: None,
        from: None,
        until: None,
        limit: None,
    };
    assert_eq!(timeline_answer(&t), r#"{"entity_id":null,"events":[]}"#);
}

#[test]
fn core_memory_is_trimmed_and_bounded() {
    let m = create_core(&CreateRequest {
        content: " alpha ".to_string(),
        importance: None,
    })
    .unwrap();
    assert_eq!(m.content, "alpha");
    assert_eq!(m.importance, 1.0_f32.to_bits());
    assert!(matches!(
        create_core(&CreateRequest { content: " ".to_string(), importance: None }),
        Err(AppError::BadRequest(m)) if m == "content cannot be empty"
    ));
    let u = update_core(&UpdateRequest {
        content: None,
        importance: Some(9.0_f32.to_bits()),
    });
    assert!(u.content.is_none());
    assert_eq!(u.importance, Some(1.0_f32.to_bits()));
    assert!(delete_core(1, 2).is_ok());
    assert!(matches!(
        delete_core(0, 2),
        Err(AppError::NotFound(m)) if m == "core memory 00000000-0000-0000-0000-000000000002"
    ));
    assert!(get_core(None, 2).is_err());
    assert_eq!(list_core(vec![]).count, 0);
}

#[test]
fn edges_join_what_belongs_together() {
    let items = vec![
        input(5, &["a", "b", "b"], Some("t"), None),
        input(3, &["a", "c", "b"], Some("t"), Some(5)),
        input(9, &["x"], Some("t"), None),
        input(1, &[], Some("u"), None),
    ];
    assert_eq!(overlap(&items[0].entities, &items[1].entities), (2, 3));
    let e = build_edges(&items);
    assert_eq!(e.len(), 4);
    assert_eq!((e[0].source, e[0].target, e[0].kind), (5, 3, EdgeKind::Supersede));
    assert_eq!((e[1].source, e[1].target, e[1].kind), (5, 3, EdgeKind::Entity));
    assert_eq!((e[1].part, e[1].whole), (2, 3));
    assert_eq!((e[2].source, e[2].target, e[2].kind), (5, 3, EdgeKind::Session));
    assert_eq!((e[3].source, e[3].target), (3, 9));
    assert_eq!(e[3].kind.label(), "session");
    assert!(same_thread_edges(&vec![input(1, &[], None, None)]).is_empty());
    let close = vec![
        input(1, &["a", "b", "c"], None, None),
        input(2, &["a", "b", "d", "e"], None, None),
        input(3, &["a", "x", "y", "z"], None, None),
    ];
    assert_eq!(build_edges(&close).len(), 1);
}

#[test]
fn threads_follow_time() {
    let pairs = |v: &Vec<GraphInput>| -> Vec<(u128, u128)> {
        same_thread_edges(v).iter().map(|e| (e.source, e.target)).collect()
    };
    let listed = vec![made_at(2, "t", 1, 0), made_at(1, "t", 2, 0), made_at(3, "t", 3, 0)];
    assert_eq!(pairs(&listed), vec![(2, 1), (1, 3)]);
    let mixed = vec![
        made_at(1, "t", 9, 0),
        made_at(7, "u", 5, 0),
        made_at(4, "t", 2, 5),
        made_at(5, "t", 2, 4),
        made_at(6, "u", 5, 0),
    ];
    assert_eq!(pairs(&mixed), vec![(5, 4), (4, 1), (7, 6)]);
    let e = same_thread_edges(&listed)[0];
    assert_eq!((e.part, e.whole, e.kind), (1, 2, EdgeKind::Session));
}

#[test]
fn random_numbers_repeat_for_a_seed() {
    let mut a: u64 = 1;
    let x = next_rand(&mut a);
    assert_eq!(x, 1082269761);
    assert_eq!(a, x);
    let mut b: u64 = 1;
    assert_eq!(next_rand(&mut b), x);
    assert!(next_rand(&mut b) != 0);
}

#[test]
fn texts_and_times() {
    assert_eq!(trim("\u{3000} a\u{85}"), "a");
    assert_eq!(decimal_text(u64::MAX), u64::MAX.to_string());
    assert_eq!(decimal_int_text(i64::MIN), i64::MIN.to_string());
    for s in ["", "a", "a\n", "a\r\nb\r", "\n\n", "a\rb\n"] {
        assert_eq!(lines(s), s.lines().collect::<Vec<_>>());
        assert_eq!(split(s, "\n"), s.split("\n").collect::<Vec<_>>());
    }
    assert!(Timestamp::new(59, 1_500_000_000).is_some());
    assert!(Timestamp::new(-1, 1_500_000_000).is_some());
    assert!(Timestamp::new(58, 1_500_000_000).is_none());
    assert!(Timestamp::new(59, 2_000_000_000).is_none());
    assert_eq!(
        Timestamp::new(-8_334_601_228_800, 0).unwrap().to_rfc3339(),
        "-262143-01-01T00:00:00+00:00"
    );
    assert_eq!(
        Timestamp::new(8_210_266_876_799, 0).unwrap().to_rfc3339(),
        "+262142-12-31T23:59:59+00:00"
    );
    assert!(Timestamp::new(8_210_266_876_800, 0).is_none());
    assert!(noon_of("2025-13-01").is_none());
    assert_eq!(noon_of("1970-01-01").unwrap().secs(), 43_200);
    assert!(new_id() != new_id());
}
