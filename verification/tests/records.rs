use flashback::assemble::{
    assemble_inner, begin, statement, AssembleAction, AssembleEvent, AssembleResponse, Assembly,
    ModeInfo,
};
use flashback::error::AppError;
use flashback::ingest::{
    embedding_insert_sql, group_by_embedder, ingest_record, stamp, uses_batch, ImportRecord,
    ImportRequest, ImportRun, IngestAction, IngestEvent, IngestRecordRequest,
};
use flashback::records::{
    assemble_char_budget, clamp_assembled, embedding_col_for_dim, get_record_inner, has_present_cue,
    is_cross_mode, is_present_tense, merge_warning, query_limit, sandbox_gate, validate_type, AssembleRequest,
    RawRecordRow,
};
use flashback::statements::{
    backstop_sql, by_id_sql, cross_mode_sql, insert_sql, level_sql, lineage_sql, one_record_sql,
    query_sql, rank_sql, recent_sql, references_sql, stored_sql,
};
use flashback::time::Timestamp;

fn request(query: Option<&str>) -> AssembleRequest {
    AssembleRequest {
        project_id: None,
        include_sandbox: false,
        container_id: None,
        mode: None,
        modes: None,
        query: query.map(|q| q.to_string()),
        limit: None,
        exclude_container_id: None,
    }
}

fn record(id: u128, content: &str) -> RawRecordRow {
    RawRecordRow {
        id,
        record_type: "document".to_string(),
        content: content.to_string(),
        content_hash: String::new(),
        event_time: Timestamp::new(0, 0).unwrap(),
        ingest_time: Timestamp::new(0, 0).unwrap(),
        source: "s".to_string(),
        source_ref: None,
        user_id: "alice".to_string(),
        project_id: None,
        container_id: None,
        mode: None,
        importance: None,
        supersedes: None,
        payload: None,
    }
}

fn ids(v: &[RawRecordRow]) -> Vec<u128> {
    v.iter().map(|r| r.id).collect()
}

fn answer(a: AssembleAction) -> AssembleResponse {
    match a {
        AssembleAction::Respond(r) => r,
        _ => panic!("an answer"),
    }
}

fn ingest(record_type: &str, content: &str) -> IngestRecordRequest {
    IngestRecordRequest {
        record_type: record_type.to_string(),
        content: content.to_string(),
        event_time: None,
        source: "s".to_string(),
        source_ref: None,
        project_id: None,
        container_id: None,
        mode: None,
        importance: Some(3.0_f32.to_bits()),
        supersedes: None,
        payload: None,
    }
}

#[test]
fn present_tense_detects_current_queries() {
    assert!(is_present_tense("what am I working on"));
    assert!(is_present_tense("what's on my todo list"));
    assert!(is_present_tense("current project status"));
    // Past-tense / "what happened" gets no reference boost.
    assert!(!is_present_tense("what did I eat last tuesday"));
    assert!(!is_present_tense("the meeting we had yesterday"));
}

#[test]
fn cues_are_found_in_any_case_as_whole_words() {
    assert!(is_present_tense("LATEST"));
    assert!(is_present_tense("and now?"));
    assert!(is_present_tense("¿now…"));
    assert!(!is_present_tense("did it snow last tuesday"));
    assert!(!is_present_tense("knowing"));
    assert!(!is_present_tense("énow"));
    assert!(!is_present_tense("nowé"));
    assert!(!has_present_cue("the inactive member's statuses"));
    assert!(has_present_cue("unknown, but in progress"));
    assert!(!has_present_cue(""));
}

#[test]
fn raw_types_have_a_processing_rule() {
    for t in ["conversation", "document", "state_object"] {
        assert!(validate_type(t).is_ok());
    }
    assert!(matches!(
        validate_type("working"),
        Err(AppError::BadRequest(m)) if m == "unknown type: working"
    ));
    assert_eq!(embedding_col_for_dim(768), "embedding_768");
    assert_eq!(embedding_col_for_dim(1024), "embedding_1024");
    assert_eq!(embedding_col_for_dim(384), "embedding");
    assert_eq!(sandbox_gate(true), "TRUE");
    assert_eq!(sandbox_gate(false), "FALSE");
}

#[test]
fn cross_mode_is_all_or_more_than_one() {
    let mut r = request(None);
    assert!(!is_cross_mode(&r));
    r.mode = Some("ALL".to_string());
    assert!(is_cross_mode(&r));
    r.mode = Some("a".to_string());
    r.modes = Some(vec!["a".to_string(), "a".to_string()]);
    assert!(!is_cross_mode(&r));
    r.modes = Some(vec!["a".to_string(), "b".to_string()]);
    assert!(is_cross_mode(&r));
    r.mode = None;
    r.modes = Some(vec!["all".to_string()]);
    assert!(is_cross_mode(&r));
}

#[test]
fn the_budget_clips_but_never_the_first() {
    let mut v = vec![record(1, "aaaa"), record(2, "bb"), record(3, "c")];
    assert!(clamp_assembled(&mut v, 3, 7).is_none());
    assert_eq!(
        clamp_assembled(&mut v, 3, 6).as_deref(),
        Some("content clipped to the 6-character budget: 2 of 3 ranked records returned (raise FLASHBACK_ASSEMBLE_CHAR_BUDGET to widen)")
    );
    assert_eq!(ids(&v), vec![1, 2]);
    let mut v = vec![record(1, "aaaa"), record(2, "bb")];
    assert!(clamp_assembled(&mut v, 2, 1).is_some());
    assert_eq!(ids(&v), vec![1]);
    let mut v = vec![record(1, "aaaa"), record(2, "bb")];
    assert!(clamp_assembled(&mut v, 1, 1).is_none());
    assert_eq!(ids(&v), vec![1]);
}

#[test]
fn budgets_and_limits_come_from_settings() {
    assert_eq!(assemble_char_budget(None), 60_000);
    assert_eq!(assemble_char_budget(Some("0")), 60_000);
    assert_eq!(assemble_char_budget(Some("12x")), 60_000);
    assert_eq!(assemble_char_budget(Some("")), 60_000);
    assert_eq!(assemble_char_budget(Some("+12")), 12);
    assert_eq!(
        assemble_char_budget(Some("99999999999999999999999")),
        60_000
    );
    assert_eq!(query_limit(None), 100);
    assert_eq!(query_limit(Some(-1)), 1);
    assert_eq!(query_limit(Some(5000)), 1000);
    assert_eq!(
        merge_warning(Some("a".to_string()), Some("b".to_string())).as_deref(),
        Some("a b")
    );
    assert_eq!(merge_warning(None, Some("b".to_string())).as_deref(), Some("b"));
    assert!(merge_warning(None, None).is_none());
}

#[test]
fn no_query_reads_the_newest() {
    let (a, act) = begin(&request(None), 100, "default");
    assert!(matches!(act, AssembleAction::ResolveMode(None)));
    assert_eq!(a.limit, 50);
    let (a, act) = assemble_inner(a, AssembleEvent::Mode(None));
    assert!(matches!(act, AssembleAction::ReadRecent));
    assert_eq!(a.model, "default");
    let (_, act) = assemble_inner(a, AssembleEvent::Rows(vec![record(1, "x")]));
    let r = answer(act);
    assert_eq!(ids(&r.records), vec![1]);
    assert!(!r.degraded && r.warning.is_none());
}

#[test]
fn cross_mode_answers_are_marked() {
    let mut req = request(Some("q"));
    req.mode = Some("all".to_string());
    let (a, act) = begin(&req, 1, "default");
    assert!(matches!(act, AssembleAction::ReadCrossMode));
    let (_, act) = assemble_inner(
        a,
        AssembleEvent::Rows(vec![record(1, "x"), record(2, "y")]),
    );
    let r = answer(act);
    assert!(r.degraded);
    let w = r.warning.unwrap();
    assert!(w.starts_with("cross-mode request: vector search skipped"));
    assert!(w.contains("recency. content clipped to the 1-character budget: 1 of 2"));
}

fn ranked(query: &str, limit: i64, nodes: Vec<u128>) -> (Assembly, AssembleAction) {
    let mut req = request(Some(query));
    req.limit = Some(limit);
    req.mode = Some("work".to_string());
    let (a, act) = begin(&req, 1000, "default");
    assert!(matches!(act, AssembleAction::ResolveMode(Some(m)) if m == "work"));
    let (a, act) = assemble_inner(
        a,
        AssembleEvent::Mode(Some(ModeInfo {
            name: "work".to_string(),
            embedder: "big".to_string(),
        })),
    );
    assert!(matches!(act, AssembleAction::EmbedQuery));
    assert_eq!(a.scope_mode.as_deref(), Some("work"));
    assert_eq!(a.model, "big");
    let (a, act) = assemble_inner(a, AssembleEvent::Embedded(1024));
    assert!(matches!(act, AssembleAction::RankCurated));
    assert_eq!(a.column, "embedding_1024");
    let (a, act) = assemble_inner(a, AssembleEvent::Ranked(nodes));
    assert!(matches!(act, AssembleAction::Touch));
    assemble_inner(a, AssembleEvent::Touched)
}

#[test]
fn curated_nodes_expand_within_the_limit() {
    let (a, act) = ranked("what happened", 3, vec![10, 20, 30]);
    assert!(matches!(act, AssembleAction::Expand { node: 10, cap: 3 }));
    let (a, act) = assemble_inner(a, AssembleEvent::Expanded(vec![1, 2, 1]));
    assert!(matches!(act, AssembleAction::Expand { node: 20, cap: 1 }));
    let (a, act) = assemble_inner(a, AssembleEvent::Expanded(vec![2, 4, 5]));
    assert!(matches!(act, AssembleAction::ReadRecords));
    assert_eq!(a.ordered, vec![1, 2, 4]);
    let (a, act) = assemble_inner(
        a,
        AssembleEvent::Rows(vec![record(4, "d"), record(1, "a")]),
    );
    match act {
        AssembleAction::ReadBackstop { need, exclude } => {
            assert_eq!(need, 1);
            assert_eq!(exclude, vec![1, 4]);
        }
        _ => panic!("the page is topped up"),
    }
    let (_, act) = assemble_inner(a, AssembleEvent::Rows(vec![record(9, "i")]));
    assert_eq!(ids(&answer(act).records), vec![1, 4, 9]);
}

#[test]
fn references_lead_questions_about_the_present() {
    let (a, act) = ranked("what is my current plan", 2, vec![10]);
    assert!(matches!(act, AssembleAction::Expand { node: 10, cap: 2 }));
    let (a, act) = assemble_inner(a, AssembleEvent::Expanded(vec![1]));
    assert!(matches!(act, AssembleAction::ReadRecords));
    let (a, act) = assemble_inner(a, AssembleEvent::Rows(vec![record(1, "a")]));
    assert!(matches!(act, AssembleAction::ReadReferences));
    let (_, act) = assemble_inner(
        a,
        AssembleEvent::Rows(vec![record(1, "a"), record(7, "r"), record(8, "s")]),
    );
    assert_eq!(ids(&answer(act).records), vec![7, 8]);
}

#[test]
fn without_curated_nodes_the_direct_search_fills_the_page() {
    let (a, act) = ranked("what happened", 2, vec![]);
    assert!(matches!(act, AssembleAction::ReadBackstop { need: 2, .. }));
    let (_, act) = assemble_inner(a, AssembleEvent::Rows(vec![record(3, "x")]));
    assert_eq!(ids(&answer(act).records), vec![3]);
}

#[test]
fn a_record_belongs_to_its_owner() {
    assert!(get_record_inner(Some(record(1, "x")), "alice", 1).is_ok());
    for r in [get_record_inner(Some(record(1, "x")), "bob", 1), get_record_inner(None, "bob", 1)] {
        assert!(matches!(
            r,
            Err(AppError::NotFound(m)) if m == "record 00000000-0000-0000-0000-000000000001"
        ));
    }
    let r = record(1, "x");
    assert_eq!(r.state_kind_of(r#"{"kind":"todo_list"}"#).unwrap(), "todo_list");
    assert!(matches!(
        r.state_key_of(r#"{"key":3}"#),
        Err(AppError::Internal(m)) if m == "state_object payload missing key"
    ));
    assert!(r.state_kind_of("nonsense").is_err());
}

#[test]
fn records_are_checked_before_they_are_stored() {
    let step = |r: &IngestRecordRequest, e: IngestEvent| ingest_record(r, "alice", "default", e);
    assert!(matches!(
        step(&ingest("x", "y"), IngestEvent::Arrived),
        IngestAction::Refuse(AppError::BadRequest(m)) if m == "unknown type: x"
    ));
    assert!(matches!(
        step(&ingest("document", " "), IngestEvent::Arrived),
        IngestAction::Refuse(AppError::BadRequest(m)) if m == "content must not be empty"
    ));
    let mut r = ingest("document", "y");
    assert!(matches!(
        step(&r, IngestEvent::Arrived),
        IngestAction::Classify
    ));
    r.supersedes = Some(2);
    assert!(matches!(
        step(&r, IngestEvent::Arrived),
        IngestAction::FindOwner(2)
    ));
    for owner in [None, Some("bob".to_string())] {
        assert!(matches!(
            step(&r, IngestEvent::Owner(owner)),
            IngestAction::Refuse(AppError::BadRequest(m))
                if m == "supersedes target 00000000-0000-0000-0000-000000000002 not found"
        ));
    }
    r.mode = Some("work".to_string());
    match step(&r, IngestEvent::Owner(Some("alice".to_string()))) {
        IngestAction::ResolveMode { chosen, classified } => {
            assert_eq!(chosen.as_deref(), Some("work"));
            assert!(classified.is_none());
        }
        _ => panic!("the caller's mode wins"),
    }
    match step(&r, IngestEvent::Mode(None)) {
        IngestAction::Store {
            mode,
            importance,
            embedder,
        } => {
            assert!(mode.is_none());
            assert_eq!(importance, Some(1.0_f32.to_bits()));
            assert_eq!(embedder, "default");
        }
        _ => panic!("the record is stored"),
    }
    let now = Timestamp::new(9, 0).unwrap();
    let (a, at) = stamp(None, now);
    let (b, _) = stamp(None, now);
    assert!(a != b && at == now);
}

#[test]
fn imports_skip_and_count() {
    let rec = |t: &str, c: &str| ImportRecord {
        record_type: t.to_string(),
        content: c.to_string(),
        event_time: None,
        source: "s".to_string(),
        source_ref: None,
        project_id: None,
        container_id: None,
        mode: None,
        importance: None,
        payload: None,
    };
    let mut run = ImportRun::new(ImportRequest {
        records: vec![
            rec("nope", "a"),
            rec("document", "b"),
            rec("document", "  "),
            rec("conversation", "c"),
            rec("conversation", "d"),
        ],
    });
    assert_eq!(run.next_record(), Some(1));
    run.stored(1, Some(11), "small".to_string());
    assert_eq!(run.next_record(), Some(3));
    run.stored(3, None, "small".to_string());
    assert_eq!(run.next_record(), Some(4));
    run.stored(4, Some(14), "big".to_string());
    assert_eq!(run.next_record(), None);
    let r = run.response();
    assert_eq!((r.imported, r.skipped), (2, 3));
    let mut inserted = run.inserted.clone();
    inserted.push(run.inserted[0].clone());
    let groups = group_by_embedder(&inserted);
    assert_eq!(groups.len(), 2);
    assert_eq!(groups[0].embedder, "small");
    assert_eq!(groups[0].ids, vec![11, 11]);
    assert_eq!(groups[1].contents, vec!["d"]);
    assert!(uses_batch(None, "m") && uses_batch(Some("m"), "m") && !uses_batch(Some("x"), "m"));
    assert_eq!(
        embedding_insert_sql(768),
        "INSERT INTO raw_embeddings (record_id, model, embedding_768) VALUES ($1, $2, $3) ON CONFLICT (record_id, model) DO NOTHING"
    );
}

#[test]
fn statements_keep_the_sandbox_out() {
    assert!(recent_sql(false).contains(
        "AND ($2::text IS NOT NULL OR FALSE OR project_id IS DISTINCT FROM 'playground')"
    ));
    assert!(recent_sql(true).contains("OR TRUE OR"));
    for sql in [
        cross_mode_sql(false),
        references_sql(false, 768),
        backstop_sql(false, 384),
    ] {
        assert!(sql.contains(
            "($3::text IS NOT NULL OR FALSE OR r.project_id IS DISTINCT FROM 'playground')"
        ));
        assert!(sql.starts_with("SELECT r.id, r.type, r.content,"));
    }
    assert!(cross_mode_sql(false).contains("/ 720)"));
    assert!(rank_sql(false, 1024).contains("ce.embedding_1024 <=> $6"));
    assert!(references_sql(false, 768).contains("e.embedding_768 <=> $6"));
    assert!(backstop_sql(false, 5).contains("e.embedding <=> $6"));
    assert!(query_sql().ends_with("LIMIT $8"));
    assert_eq!(
        by_id_sql(false),
        "SELECT id, type, content, content_hash, event_time, ingest_time, source, source_ref, user_id, project_id, container_id, mode, importance, supersedes, payload FROM raw_records
WHERE user_id = $1
  AND id = ANY($2)
  AND ($4::text IS NOT NULL OR FALSE OR project_id IS DISTINCT FROM 'playground')
  AND ($3::text IS NULL OR container_id IS DISTINCT FROM $3)
  AND id NOT IN (SELECT supersedes FROM raw_records WHERE supersedes IS NOT NULL AND user_id = $1)"
    );
    assert!(lineage_sql().contains("WITH RECURSIVE"));
    assert!(one_record_sql().ends_with(" FROM raw_records WHERE id = $1"));
}

#[test]
fn statements_keep_to_one_scope() {
    for sql in [
        query_sql(),
        recent_sql(true),
        cross_mode_sql(true),
        references_sql(true, 384),
        backstop_sql(true, 384),
        by_id_sql(true),
    ] {
        assert!(sql.contains("\nWHERE user_id = $1") || sql.contains("\nWHERE r.user_id = $2"));
        assert!(sql.contains("id NOT IN (SELECT supersedes FROM raw_records"));
    }
    assert!(backstop_sql(true, 384)
        .contains("AND ($10::text IS NULL OR r.container_id IS DISTINCT FROM $10)"));
    assert_eq!(
        level_sql(),
        "SELECT n.id, n.content, n.importance
FROM curated_nodes n
WHERE n.level = $1
  AND n.user_id = $2
  AND n.project_id IS NOT DISTINCT FROM $3
  AND n.mode IS NOT DISTINCT FROM $4
  AND NOT EXISTS (
      SELECT 1 FROM curated_edges s WHERE s.to_id = n.id AND s.kind = 'supersedes'
  )
ORDER BY n.created_at ASC
LIMIT $5"
    );
}

#[test]
fn pinned_nodes_do_not_decay() {
    let sql = rank_sql(false, 384);
    assert!(sql.contains(
        "+ $12 * CASE WHEN rw.decay_class = 'pinned' THEN 1.0 ELSE COALESCE(\n            exp("
    ));
    assert!(sql.contains("            1.0) END\n) DESC, n.level DESC"));
    assert!(!sql.contains("2160"));
}

#[test]
fn a_record_that_is_sent_again_is_answered_with_the_stored_one() {
    let step = |r: &IngestRecordRequest, e: IngestEvent| ingest_record(r, "alice", "default", e);
    let mut r = ingest("document", "y");
    assert!(matches!(
        step(&r, IngestEvent::Inserted(Some(7))),
        IngestAction::Answer { response, fresh: true } if response.id == 7
    ));
    assert!(matches!(
        step(&r, IngestEvent::Inserted(None)),
        IngestAction::Refuse(AppError::Internal(m)) if m == "record was not stored"
    ));
    r.source_ref = Some("s:1".to_string());
    assert!(matches!(
        step(&r, IngestEvent::Inserted(None)),
        IngestAction::FindStored { source, source_ref } if source == "s" && source_ref == "s:1"
    ));
    assert!(matches!(
        step(&r, IngestEvent::Found(Some(7))),
        IngestAction::Answer { response, fresh: false } if response.id == 7
    ));
    assert!(matches!(
        step(&r, IngestEvent::Found(None)),
        IngestAction::Refuse(AppError::Internal(_))
    ));
    assert!(insert_sql().ends_with(
        "ON CONFLICT (user_id, source, source_ref) WHERE source_ref IS NOT NULL\nDO NOTHING\nRETURNING id"
    ));
    assert_eq!(
        stored_sql(),
        "SELECT id FROM raw_records WHERE user_id = $1 AND source = $2 AND source_ref = $3"
    );
}

#[test]
fn a_second_import_adds_nothing() {
    let rec = |name: &str| ImportRecord {
        record_type: "document".to_string(),
        content: "c".to_string(),
        event_time: None,
        source: "s".to_string(),
        source_ref: Some(name.to_string()),
        project_id: None,
        container_id: None,
        mode: None,
        importance: None,
        payload: None,
    };
    let mut run = ImportRun::new(ImportRequest {
        records: vec![rec("1"), rec("2")],
    });
    while let Some(i) = run.next_record() {
        run.stored(i, None, "e".to_string());
    }
    let r = run.response();
    assert_eq!((r.imported, r.skipped), (0, 2));
}

#[test]
fn each_read_has_its_statement() {
    let of = |a: &AssembleAction| statement(a, false, 768);
    assert_eq!(of(&AssembleAction::ReadRecent), Some(recent_sql(false)));
    assert_eq!(of(&AssembleAction::ReadCrossMode), Some(cross_mode_sql(false)));
    assert_eq!(of(&AssembleAction::RankCurated), Some(rank_sql(false, 768)));
    assert_eq!(of(&AssembleAction::ReadRecords), Some(by_id_sql(false)));
    assert_eq!(of(&AssembleAction::ReadReferences), Some(references_sql(false, 768)));
    let backstop = AssembleAction::ReadBackstop {
        need: 1,
        exclude: vec![],
    };
    assert_eq!(of(&backstop), Some(backstop_sql(false, 768)));
    let expand = of(&AssembleAction::Expand { node: 1, cap: 2 }).unwrap();
    assert!(expand.starts_with("WITH RECURSIVE tree AS (\n    SELECT $1::uuid AS id"));
    assert!(expand.ends_with("ORDER BY r.event_time DESC\nLIMIT $2"));
    assert_eq!(of(&AssembleAction::Touch), None);
}
