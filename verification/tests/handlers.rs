use flashback::error::AppError;
use flashback::handlers::{
    app_err_to_admin, delete_memory_owned_by, empty_to_none, into_response, load_memory_detail,
    login_form, login_submit, login_token, map_node, node_label, preview, run_consolidate_kind,
    ConsolidateError, ConsolidateKind, Error, LoginForm, LoginOutcome, LoginQuery, MemoryQuery,
};
use flashback::memory::MemoryRow;
use flashback::projection::graph_input;
use flashback::time::Timestamp;

fn row(content: &str, entities: &[&str], state_key: Option<&str>) -> MemoryRow {
    MemoryRow {
        id: 7,
        memory_type: "episodic".to_string(),
        content: content.to_string(),
        importance: 0.5_f32.to_bits(),
        decay_class: "medium".to_string(),
        user_id: "alice".to_string(),
        project_id: None,
        session_id: None,
        entities: entities.iter().map(|e| e.to_string()).collect(),
        superseded_by: Some(9),
        supersedes: None,
        state_key: state_key.map(|k| k.to_string()),
        created_at: Timestamp::new(0, 0).unwrap(),
    }
}

#[test]
fn empty_to_none_collapses_whitespace() {
    assert_eq!(empty_to_none(&"".to_string()), None);
    assert_eq!(empty_to_none(&"   ".to_string()), None);
    assert_eq!(empty_to_none(&"abc".to_string()), Some("abc".to_string()));
    // Trim is applied.
    assert_eq!(
        empty_to_none(&"  trimmed  ".to_string()),
        Some("trimmed".to_string())
    );
}

#[test]
fn memory_query_include_super_truthy_values() {
    for v in ["1", "true", "on"] {
        let q = MemoryQuery {
            include_superseded: Some(v.to_string()),
            ..MemoryQuery::default()
        };
        assert!(q.include_super(), "{v:?} should be truthy");
    }
}

#[test]
fn memory_query_include_super_falsy_and_unset() {
    let unset = MemoryQuery::default();
    assert!(!unset.include_super());

    for v in ["", "0", "false", "anything-else"] {
        let q = MemoryQuery {
            include_superseded: Some(v.to_string()),
            ..MemoryQuery::default()
        };
        assert!(!q.include_super(), "{v:?} should be falsy");
    }
}

#[test]
fn memory_query_clean_collapses_empties() {
    let raw = MemoryQuery {
        memory_type: Some("  ".to_string()),
        project_id: Some("real-project".to_string()),
        session_id: Some("".to_string()),
        mode: None,
        include_superseded: Some("0".to_string()),
    };
    let cleaned = raw.clean();
    assert_eq!(cleaned.memory_type, None);
    assert_eq!(cleaned.project_id.as_deref(), Some("real-project"));
    assert_eq!(cleaned.session_id, None);
    // include_superseded normalized to None when falsy.
    assert_eq!(cleaned.include_superseded, None);
}

#[test]
fn memory_query_clean_preserves_truthy_include_super() {
    let raw = MemoryQuery {
        include_superseded: Some("true".to_string()),
        ..MemoryQuery::default()
    };
    let cleaned = raw.clean();
    // Normalized to canonical "1".
    assert_eq!(cleaned.include_superseded.as_deref(), Some("1"));
    assert_eq!(cleaned.clean().include_superseded.as_deref(), Some("1"));
}

#[test]
fn login_reasons_have_messages() {
    let say = |r: Option<&str>| {
        login_form(&LoginQuery {
            reason: r.map(|s| s.to_string()),
        })
    };
    assert_eq!(
        say(Some("unauth")),
        Some("Your session expired or no token was set.")
    );
    assert_eq!(
        say(Some("bad-token")),
        Some("That token is invalid or revoked.")
    );
    assert_eq!(say(Some("other")), None);
    assert_eq!(say(None), None);
}

#[test]
fn login_needs_a_known_token() {
    let token = login_token(&LoginForm {
        token: "  fb_abc ".to_string(),
    });
    assert_eq!(token.as_deref(), Some("fb_abc"));
    assert!(login_token(&LoginForm {
        token: "  ".to_string()
    })
    .is_none());
    assert!(matches!(login_submit(&None, true), LoginOutcome::Refused));
    assert!(matches!(login_submit(&token, false), LoginOutcome::Refused));
    match login_submit(&token, true) {
        LoginOutcome::Welcome { cookie } => assert_eq!(
            cookie,
            "flashback_token=fb_abc; Path=/; HttpOnly; SameSite=Lax; Max-Age=2592000"
        ),
        LoginOutcome::Refused => panic!("a known token is welcome"),
    }
}

#[test]
fn only_the_owner_may_delete() {
    assert!(delete_memory_owned_by(&Some("alice".to_string()), "alice").is_ok());
    assert!(matches!(
        delete_memory_owned_by(&Some("alice".to_string()), "bob"),
        Err(Error::NotFound)
    ));
    assert!(matches!(
        delete_memory_owned_by(&None, "bob"),
        Err(Error::NotFound)
    ));
    assert!(load_memory_detail(Some(row("x", &[], None)), "alice").is_ok());
    assert!(matches!(
        load_memory_detail(Some(row("x", &[], None)), "bob"),
        Err(Error::NotFound)
    ));
}

#[test]
fn admin_errors_are_coarse() {
    assert!(matches!(
        app_err_to_admin(AppError::Database("down".to_string())),
        Error::Db(m) if m == "down"
    ));
    for e in [
        AppError::bad_request("x"),
        AppError::not_found("x"),
        AppError::Conflict("x".to_string()),
        AppError::Internal("x".to_string()),
    ] {
        assert!(matches!(app_err_to_admin(e), Error::NotFound));
    }
    assert_eq!(into_response(&Error::NotFound), (404, "not found"));
    assert_eq!(
        into_response(&Error::Db("x".to_string())),
        (500, "internal error")
    );
}

#[test]
fn consolidation_kinds() {
    assert_eq!(run_consolidate_kind("daily"), Ok(ConsolidateKind::Daily));
    assert_eq!(run_consolidate_kind("weekly"), Ok(ConsolidateKind::Weekly));
    assert_eq!(
        run_consolidate_kind("hourly"),
        Err(ConsolidateError::UnknownKind)
    );
}

#[test]
fn labels_prefer_keys_then_phrases() {
    assert_eq!(node_label(&row("x", &["a b"], Some("today"))), "today");
    assert_eq!(node_label(&row("x", &["one", "two words"], None)), "two words");
    assert_eq!(node_label(&row("x", &["one", "two"], None)), "one");
    assert_eq!(
        node_label(&row("  first line \n\n second line that is long", &[], None)),
        "first line · second line tha…"
    );
}

#[test]
fn previews_are_one_line() {
    assert_eq!(preview(" a \r\n\n b ", 10), "a · b");
    assert_eq!(preview("abcdef", 3), "abc…");
    let n = map_node(&row("hello", &[], None));
    assert_eq!(n.content, "hello");
    assert_eq!(n.label, "hello");
    assert!(n.superseded);
    let g = graph_input(&row("hello", &["e"], None));
    assert_eq!((g.id, g.entities, g.thread_id), (7, vec!["e".to_string()], None));
}
