use flashback::error::AppError;
use flashback::memory::{
    begin_ingest, best_similarity, dedupe, default_decay_for, expires_at, find_fold,
    get_memory_by_id, given_entities, ingest_memory, inherit, keep_first, memory_lineage,
    plan_ingest, search_memory, supersede_memory, superseded_row, superseding_row, validate_type,
    Candidate, IngestRequest, MemoryAction, MemoryEvent, MemoryRow, Mode, SearchRequest,
    SupersedeRequest,
};
use flashback::time::Timestamp;

fn request() -> IngestRequest {
    IngestRequest {
        project_id: None,
        session_id: Some("s".to_string()),
        user_turn: None,
        assistant_turn: None,
        content: Some("text".to_string()),
        memory_type: None,
        importance: None,
        ttl_hours: None,
        entities_override: None,
    }
}

fn row(id: u128) -> MemoryRow {
    MemoryRow {
        id,
        memory_type: "semantic".to_string(),
        content: "c".to_string(),
        importance: 0.25_f32.to_bits(),
        decay_class: "slow".to_string(),
        user_id: "alice".to_string(),
        project_id: None,
        session_id: None,
        entities: vec!["old".to_string()],
        superseded_by: None,
        supersedes: None,
        state_key: None,
        created_at: Timestamp::new(0, 0).unwrap(),
    }
}

fn candidate(id: u128, topic: &str) -> Candidate {
    Candidate {
        id,
        entities: vec![],
        topic: Some(topic.to_string()),
    }
}

#[test]
fn validate_type_accepts_known_types() {
    for t in ["episodic", "semantic", "working", "document", "procedural"] {
        assert!(validate_type(t).is_ok(), "rejected {t}");
    }
}

#[test]
fn validate_type_rejects_state_object_with_redirect_message() {
    let err = validate_type("state_object").unwrap_err();
    assert!(matches!(
        err,
        AppError::BadRequest(m) if m == "state_object memories must be created via /state/:kind"
    ));
}

#[test]
fn validate_type_rejects_unknown_types() {
    assert!(validate_type("garbage").is_err());
    assert!(validate_type("").is_err());
    assert!(validate_type("EPISODIC").is_err()); // case-sensitive
}

#[test]
fn default_decay_for_known_types() {
    assert_eq!(default_decay_for("working"), "fast");
    assert_eq!(default_decay_for("episodic"), "medium");
    assert_eq!(default_decay_for("semantic"), "slow");
    assert_eq!(default_decay_for("procedural"), "slow");
    assert_eq!(default_decay_for("document"), "slow");
}

#[test]
fn default_decay_for_unknown_falls_back_to_medium() {
    assert_eq!(default_decay_for("state_object"), "medium");
    assert_eq!(default_decay_for(""), "medium");
    assert_eq!(default_decay_for("garbage"), "medium");
}

#[test]
fn dedupe_removes_case_insensitive_duplicates() {
    let out = dedupe(vec!["Foo".into(), "foo".into(), "FOO".into()]);
    assert_eq!(out, vec!["Foo"]); // first-seen casing preserved
}

#[test]
fn dedupe_drops_empty_and_whitespace() {
    let out = dedupe(vec!["a".into(), "".into(), "  ".into(), "b".into()]);
    assert_eq!(out, vec!["a", "b"]);
}

#[test]
fn dedupe_trims_whitespace() {
    let out = dedupe(vec!["  spaced  ".into(), "spaced".into()]);
    assert_eq!(out, vec!["spaced"]); // trimmed key matches second entry
}

#[test]
fn dedupe_preserves_order() {
    let out = dedupe(vec!["c".into(), "a".into(), "b".into(), "a".into()]);
    assert_eq!(out, vec!["c", "a", "b"]);
}

#[test]
fn dedupe_empty_input_gives_empty_output() {
    let out: Vec<String> = dedupe(vec![]);
    assert!(out.is_empty());
}

#[test]
fn dedupe_twice_is_dedupe_once() {
    let once = dedupe(vec![" Å ".into(), "å".into(), "B".into()]);
    assert_eq!(once, vec!["Å", "B"]);
    assert_eq!(dedupe(once.clone()), once);
}

#[test]
fn plans_take_the_text_or_the_turns() {
    let p = plan_ingest(request()).unwrap();
    assert_eq!((p.content.as_str(), p.extraction_text.as_str()), ("text", "text"));
    assert_eq!(p.memory_type, "working");
    assert_eq!(p.decay_class, "fast");
    assert_eq!(p.importance, 0.5_f32.to_bits());
    assert_eq!(p.ttl_hours, Some(48));
    let mut r = request();
    r.content = Some("  ".to_string());
    r.user_turn = Some(" hi ".to_string());
    r.assistant_turn = Some(" yo ".to_string());
    r.memory_type = Some("semantic".to_string());
    r.importance = Some((-2.0_f32).to_bits());
    let p = plan_ingest(r.clone()).unwrap();
    assert_eq!(p.content, "User: hi\nAssistant: yo");
    assert_eq!(p.extraction_text, "hi\nyo");
    assert_eq!(p.importance, 0.0_f32.to_bits());
    assert_eq!(p.ttl_hours, None);
    r.user_turn = None;
    assert_eq!(plan_ingest(r.clone()).unwrap().content, "Assistant: yo");
    r.assistant_turn = None;
    assert!(plan_ingest(r).is_err());
    let mut r = request();
    r.memory_type = Some("state_object".to_string());
    assert!(plan_ingest(r).is_err());
}

#[test]
fn expiry_is_hours_from_now() {
    let now = Timestamp::new(1000, 5).unwrap();
    let t = expires_at(Some(2), now).unwrap();
    assert_eq!((t.secs(), t.nanos()), (8200, 5));
    assert!(expires_at(None, now).is_none());
}

#[test]
fn the_same_topic_supersedes() {
    let plan = plan_ingest(request()).unwrap();
    let (m, a) = begin_ingest(plan);
    assert!(matches!(a, MemoryAction::Extract));
    let (m, a) = ingest_memory(
        m,
        MemoryEvent::Extracted {
            entities: vec!["e".to_string()],
            topic: Some(" The DB ".to_string()),
        },
    );
    assert!(matches!(a, MemoryAction::LoadCandidates));
    let found = vec![candidate(1, "other"), candidate(2, "the db")];
    let (_, a) = ingest_memory(m.clone(), MemoryEvent::Candidates(found));
    assert!(matches!(a, MemoryAction::Store(Some(2))));
    let others = vec![candidate(1, "x"), candidate(3, " "), candidate(2, "y")];
    let (m, a) = ingest_memory(m, MemoryEvent::Candidates(others));
    match a {
        MemoryAction::CompareTopics(v) => assert_eq!(v, vec!["The DB", "x", "y"]),
        _ => panic!("topics are compared"),
    }
    let sims = |a: f32, b: f32| MemoryEvent::Similarities(vec![a.to_bits(), b.to_bits()]);
    let (_, a) = ingest_memory(m.clone(), sims(0.9, 0.95));
    assert!(matches!(a, MemoryAction::Store(Some(2))));
    let (_, a) = ingest_memory(m.clone(), sims(0.84, -1.0));
    assert!(matches!(a, MemoryAction::CompareEntities { threshold } if f32::from_bits(threshold) == 0.3));
    let (_, a) = ingest_memory(m.clone(), MemoryEvent::Similarities(vec![]));
    assert!(matches!(a, MemoryAction::CompareEntities { threshold } if f32::from_bits(threshold) == 0.3));
    let (_, a) = ingest_memory(m, MemoryEvent::Overlap(Some(1)));
    assert!(matches!(a, MemoryAction::Store(Some(1))));
}

#[test]
fn without_a_session_nothing_is_superseded() {
    let mut r = request();
    r.session_id = None;
    r.entities_override = Some(vec!["A".to_string(), "a".to_string()]);
    let (m, a) = begin_ingest(plan_ingest(r).unwrap());
    assert_eq!(m.entities, vec!["A"]);
    assert!(matches!(a, MemoryAction::Store(None)));
}

#[test]
fn similarities_are_compared_as_numbers() {
    let bits = |v: &[f32]| v.iter().map(|x| x.to_bits()).collect::<Vec<u32>>();
    assert_eq!(best_similarity(&bits(&[0.85, 0.9, 0.9, 0.86])), Some(2));
    assert_eq!(best_similarity(&bits(&[0.8499, -0.9, f32::NAN])), None);
    assert_eq!(best_similarity(&bits(&[0.85])), Some(0));
}

#[test]
fn searches_have_bounds() {
    let mut r = SearchRequest {
        project_id: None,
        session_id: None,
        query: Some(" ".to_string()),
        mode: None,
        top_k: Some(0),
        memory_types: None,
        since: None,
        until: None,
        include_superseded: None,
    };
    let p = search_memory(&r);
    assert_eq!((p.mode.label(), p.top_k, p.reads_query), ("answer", 1, false));
    r.query = Some("q".to_string());
    r.top_k = Some(1000);
    r.mode = Some(Mode::Manager);
    let p = search_memory(&r);
    assert_eq!((p.mode.label(), p.top_k, p.reads_query), ("manager", 100, true));
    assert!(!p.include_superseded);
}

#[test]
fn superseding_has_its_refusals() {
    assert!(get_memory_by_id(Some(row(1)), "alice", 1).is_ok());
    assert!(matches!(
        get_memory_by_id(Some(row(1)), "bob", 1),
        Err(AppError::NotFound(m)) if m == "memory 00000000-0000-0000-0000-000000000001"
    ));
    assert!(matches!(
        supersede_memory(None, "alice", 1),
        Err(AppError::NotFound(_))
    ));
    let mut gone = row(1);
    gone.superseded_by = Some(2);
    assert!(matches!(
        supersede_memory(Some(gone), "alice", 1),
        Err(AppError::Conflict(m)) if m == "00000000-0000-0000-0000-000000000001 has already been superseded"
    ));
    let mut state = row(1);
    state.memory_type = "state_object".to_string();
    assert!(matches!(
        supersede_memory(Some(state), "alice", 1),
        Err(AppError::BadRequest(_))
    ));
    let old = supersede_memory(Some(row(1)), "alice", 1).unwrap();
    let (i, e) = inherit(&old, None, &vec![]);
    assert_eq!((i, e), (0.25_f32.to_bits(), vec!["old".to_string()]));
    let (i, e) = inherit(&old, Some(7.0_f32.to_bits()), &vec!["new".to_string()]);
    assert_eq!((i, e), (1.0_f32.to_bits(), vec!["new".to_string()]));
}

#[test]
fn lineages_end_where_nothing_supersedes() {
    let mut a = row(1);
    a.superseded_by = Some(2);
    let l = memory_lineage(1, vec![a, row(2)]).unwrap();
    assert_eq!((l.terminal, l.length, l.root), (Some(2), 2, 1));
    assert!(memory_lineage(1, vec![]).is_err());
}

#[test]
fn the_first_of_each_fold_is_kept() {
    let words = |v: &[&str]| -> Vec<String> { v.iter().map(|s| s.to_string()).collect() };
    let folds = words(&["rust", "", "rust", "go"]);
    assert_eq!(
        keep_first(words(&["Rust", "", "RUST", "go"]), &folds),
        words(&["Rust", "go"])
    );
    assert_eq!(find_fold(&vec![1, 2, 3, 4], &folds, "rust"), Some(1));
    assert_eq!(find_fold(&vec![1, 2, 3, 4], &folds, "go"), Some(4));
    assert_eq!(find_fold(&vec![1, 2, 3, 4], &folds, "zig"), None);
}

#[test]
fn a_new_memory_inherits_and_both_are_linked() {
    let mut old = row(1);
    old.entities = vec!["old".to_string()];
    old.project_id = Some("p".to_string());
    old.session_id = Some("s".to_string());
    old.superseded_by = None;
    old.state_key = Some("k".to_string());
    let at = Timestamp::new(77, 5).unwrap();
    let mut req = SupersedeRequest {
        content: "v2".to_string(),
        importance: None,
        entities_override: None,
    };
    let new = superseding_row(&old, &req, &vec![], 2, at);
    assert_eq!((new.id, new.supersedes, new.superseded_by), (2, Some(1), None));
    assert_eq!(new.content, "v2");
    assert_eq!(new.memory_type, old.memory_type);
    assert_eq!(new.decay_class, old.decay_class);
    assert_eq!(new.user_id, old.user_id);
    assert_eq!(new.project_id.as_deref(), Some("p"));
    assert_eq!(new.session_id.as_deref(), Some("s"));
    assert_eq!(new.importance, 0.25_f32.to_bits());
    assert_eq!(new.entities, vec!["old".to_string()]);
    assert!(new.state_key.is_none());
    assert!(new.created_at == at);
    let found = vec!["found".to_string()];
    assert_eq!(superseding_row(&old, &req, &found, 2, at).entities, found);
    req.importance = Some((-1.0_f32).to_bits());
    req.entities_override = Some(vec![" A ".to_string(), "a".to_string()]);
    assert_eq!(given_entities(&req, &found), vec!["A".to_string()]);
    let new = superseding_row(&old, &req, &found, 2, at);
    assert_eq!(new.entities, vec!["A".to_string()]);
    assert_eq!(new.importance, 0);
    req.entities_override = Some(vec![" ".to_string()]);
    assert_eq!(superseding_row(&old, &req, &found, 2, at).entities, old.entities);
    let user = old.user_id.clone();
    assert!(supersede_memory(Some(old.clone()), &user, 1).is_ok());
    let (then, answer) = superseded_row(old, 2);
    assert_eq!((answer.new_id, answer.superseded_id), (2, 1));
    assert_eq!((then.id, then.superseded_by), (1, Some(2)));
    assert_eq!(then.content, "c");
    assert!(matches!(
        supersede_memory(Some(then), &user, 1),
        Err(AppError::Conflict(_))
    ));
    assert!(supersede_memory(Some(new), &user, 2).is_ok());
}
