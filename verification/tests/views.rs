use chrono::{DateTime, Utc};
use flashback::playground::Settings;
use flashback::settings_api::view;
use flashback::settings::SystemSettings;
use flashback::testsupport::test_config;
use flashback::time::Timestamp;
use flashback::views::{
    build_query_string, catalog_view, curate_view, curated_list, dashboard, dev_mode_on, esc,
    format_when, login_page, map_view, page, payload_key_panel, playground_view, proposals_view,
    record_detail, records_list, render_chain, render_entities, set_dev_mode, settings_view,
    short_id, state_list, tokens_list, type_pill, CatalogView, CuratedNodeView, DashboardStats,
    ProposalRow, RawAdminRow, RecordsFilter, Site, StoreRow, StoreView, TokenView,
};

fn site() -> Site {
    Site::new("v1".to_string()).unwrap()
}

fn at(s: &str) -> Timestamp {
    let t = DateTime::parse_from_rfc3339(s).unwrap().with_timezone(&Utc);
    Timestamp::new(t.timestamp(), t.timestamp_subsec_nanos()).unwrap()
}

fn record(id: u128, content: &str) -> RawAdminRow {
    RawAdminRow {
        id,
        record_type: "document".to_string(),
        content: content.to_string(),
        event_time: at("2026-07-25T18:52:26Z"),
        source: "host".to_string(),
        project_id: None,
        container_id: None,
        mode: None,
        importance: None,
        state_kind: None,
        state_key: None,
        entities: vec![],
        superseded: false,
        payload: None,
    }
}

fn proposal(status: &str) -> ProposalRow {
    ProposalRow {
        id: 3,
        title: "t<".to_string(),
        kind: "k".to_string(),
        status: status.to_string(),
        body: r#"{"action":"do & go","rationale":"why","evidence":[1,"a",{}]}"#.to_string(),
        decided_by: Some("al".to_string()),
        decided_at: Some(at("2026-07-25T18:52:26Z")),
        created_at: at("2026-07-25T18:52:26Z"),
    }
}

/// A bare wall-clock string is ambiguous: the viewer reads UTC as local and
/// is wrong by their offset. The rendered timestamp must carry the instant
/// machine-readably AND label the fallback text.
#[test]
fn format_when_is_machine_readable_and_labelled() {
    let out = format_when(at("2026-07-25T18:52:26Z"));

    assert!(out.contains(r#"datetime="2026-07-25T18:52:26+00:00""#));
    assert!(out.contains("2026-07-25 18:52 UTC"));
    assert!(out.contains(r#"class="ts""#));
}

#[test]
fn page_ships_the_localiser() {
    let html = page(&site(), "records", "alice", "<p>x</p>");
    assert!(html.contains("time.ts"));
    assert!(html.contains("toLocaleString"));
}

#[test]
fn the_navigation_marks_the_page() {
    let html = page(&site(), "map", "alice", "body");
    assert!(html.contains(r#"<a href="/admin/map" class="active">Map</a>"#));
    assert!(html.contains(r#"<a href="/admin/records" class="">Records</a>"#));
    assert!(html.contains(r#"<footer class="build">v1</footer>"#));
    assert!(html.starts_with("<!doctype html>\n<html lang=\"en\">"));
    assert!(html.ends_with("</body>\n</html>"));
}

#[test]
fn development_mode_is_settled_once() {
    let mut s = site();
    assert!(!dev_mode_on(&s));
    set_dev_mode(&mut s, true);
    set_dev_mode(&mut s, false);
    assert!(dev_mode_on(&s));
    assert!(page(&s, "map", "a", "").contains("DEV MODE"));
    assert!(page(&s, "x", "u", "").contains("dev-banner"));
    assert!(!page(&site(), "x", "u", "").contains("dev-banner"));
    assert!(page(&s, "x", "u", "").contains("<footer class=\"build\">v1</footer>"));
    assert!(Site::new("a dev-banner".to_string()).is_none());
    assert!(Site::new("dev-banne".to_string()).is_some());
    assert!(login_page(&s, None).contains("DEV MODE"));
    assert!(!login_page(&site(), Some("a<b")).contains("DEV MODE"));
    assert!(login_page(&site(), Some("a<b")).contains(r#"<div class="error">a&lt;b</div>"#));
}

#[test]
fn escaped_text_is_inert() {
    assert_eq!(
        esc(r#"<a href="x">'&'</a>"#),
        "&lt;a href=&quot;x&quot;&gt;&#39;&amp;&#39;&lt;/a&gt;"
    );
    assert_eq!(esc("plain é"), "plain é");
}

#[test]
fn small_parts() {
    assert_eq!(
        type_pill("document"),
        r#"<span class="pill t-document">document</span>"#
    );
    assert_eq!(
        short_id(0xa1a2a3a4b1b2c1c2d1d2d3d4d5d6d7d8),
        "a1a2a3a4"
    );
    assert_eq!(
        render_entities(&vec!["a".to_string(), "<".to_string(), "c".to_string()], 2),
        r#"<div class="tag-list"><span class="tag">a</span><span class="tag">&lt;</span></div>"#
    );
    assert_eq!(
        render_entities(&vec![], 2),
        r#"<span class="muted">—</span>"#
    );
}

#[test]
fn the_dashboard_shows_recent_records() {
    let stats = DashboardStats {
        records_total: 12,
        records_terminal: 7,
        state_objects: 1,
        curated_nodes: 2,
        proposals_pending: 3,
        tokens_active: 4,
        provider: "test".to_string(),
        embedder_model: "m<".to_string(),
        embedder_dim: 384,
    };
    let html = dashboard(&site(), "alice", stats.clone(), &vec![]);
    assert!(html.contains("No records yet."));
    assert!(html.contains("m&lt; (384d)"));
    assert!(html.contains(r#"<div class="value">12</div>"#));
    let html = dashboard(&site(), "alice", stats, &vec![record(1, "a"), record(2, "b")]);
    let a = html
        .find("/admin/records/00000000-0000-0000-0000-000000000001")
        .unwrap();
    let b = html
        .find("/admin/records/00000000-0000-0000-0000-000000000002")
        .unwrap();
    assert!(a < b);
}

#[test]
fn the_record_list_keeps_its_filter() {
    let filter = RecordsFilter {
        record_type: Some("document".to_string()),
        mode: Some("m&".to_string()),
        include_superseded: true,
        ..Default::default()
    };
    assert_eq!(
        build_query_string(&filter),
        "type=document&mode=m&&include_superseded=1"
    );
    assert_eq!(build_query_string(&RecordsFilter::default()), "");
    let mut r = record(1, "x<y");
    r.state_key = Some("today".to_string());
    r.superseded = true;
    let html = records_list(
        &site(),
        "alice",
        &filter,
        &vec!["a".to_string(), "m&".to_string()],
        &vec![r],
        1,
        &vec![("origin".to_string(), 5)],
    );
    assert!(html.contains(r#"<option value="document" selected>document</option>"#));
    assert!(html.contains(
        "<option value=\"a\" >a</option>\n<option value=\"m&amp;\" selected>m&amp;</option>"
    ));
    assert!(html.contains("value=\"1\" checked />"));
    assert!(html.contains("<strong>today</strong> &nbsp;<div class=\"content-preview\">x&lt;y</div>"));
    assert!(html.contains("<code>?type=document&amp;mode=m&amp;&amp;include_superseded=1</code>"));
    assert!(html.contains(r#"<tr><td class="mono">origin</td><td class="muted">5</td></tr>"#));
    let html = records_list(
        &site(),
        "alice",
        &RecordsFilter::default(),
        &vec![],
        &vec![],
        0,
        &vec![],
    );
    assert!(html.contains("No records match the current filter."));
    assert_eq!(payload_key_panel(&vec![]), "");
}

#[test]
fn a_record_shows_its_chain_and_payload() {
    let mut old = record(1, "old");
    old.superseded = true;
    let mut new = record(2, "new");
    new.payload = Some(r#"{"b":[1],"a":"<"}"#.to_string());
    new.importance = Some("0.50".to_string());
    let html = record_detail(&site(), "alice", &new, &vec![old.clone(), new.clone()]);
    assert!(html.contains("Supersede chain (2 nodes)"));
    assert!(html.contains("&quot;a&quot;: &quot;&lt;&quot;"));
    assert!(html.contains(" · importance 0.50"));
    assert!(html.contains("↓ superseded by"));
    let chain = render_chain(&vec![old.clone()], None, 1);
    assert!(chain.contains("(this record)") && !chain.contains("current"));
    assert_eq!(
        render_chain(&vec![], None, 1),
        r#"<p class="muted">No supersede chain.</p>"#
    );
    assert!(record_detail(&site(), "alice", &old, &vec![old.clone()]).contains("chain (1 node)"));
}

#[test]
fn lists_of_nodes_and_states() {
    assert!(curated_list(&site(), "a", &vec![]).contains("No curated nodes yet."));
    let n = CuratedNodeView {
        kind: "semantic".to_string(),
        content: "c".to_string(),
        level: -1,
        created_at: at("2026-07-25T18:52:26Z"),
    };
    assert!(curated_list(&site(), "a", &vec![n]).contains(r#"<td class="mono">-1</td>"#));
    assert!(state_list(&site(), "a", &vec![]).contains("No state objects yet."));
    let mut r = record(9, "Todo");
    r.state_kind = Some("todo_list".to_string());
    assert!(state_list(&site(), "a", &vec![r]).contains("<code>todo_list/?</code>"));
}

#[test]
fn the_catalog_groups_its_stores() {
    let store = StoreView {
        store: StoreRow {
            name: "raw".to_string(),
            kind: "raw".to_string(),
            description: None,
            schema: Some("{\"x\":1}".to_string()),
            last_synced_at: None,
        },
        record_count: 4,
        lineage: "self".to_string(),
    };
    let html = catalog_view(
        &site(),
        "a",
        &CatalogView {
            raw: vec![store],
            curated: vec![],
            operational: vec![],
            external: vec![],
        },
    );
    assert!(html.contains("&quot;x&quot;: 1"));
    assert!(html.contains("never synced"));
    assert!(html.contains("<strong>4</strong> records"));
    assert_eq!(html.matches(r#"<p class="muted">none</p>"#).count(), 3);
}

#[test]
fn proposals_are_decided_while_they_are_proposed() {
    let html = proposals_view(&site(), "a", &vec![proposal("proposed")]);
    assert!(html.contains("/admin/proposals/00000000-0000-0000-0000-000000000003/approve"));
    assert!(html.contains("do &amp; go"));
    assert!(html.contains("3 evidence record(s)"));
    assert!(html.contains("<strong>Rationale:</strong> why"));
    let html = proposals_view(&site(), "a", &vec![proposal("denied")]);
    assert!(!html.contains("/approve"));
    assert!(html.contains("by al · <time"));
    assert!(proposals_view(&site(), "a", &vec![]).contains("No proposals."));
    let mut p = proposal("odd");
    p.body = "broken".to_string();
    let html = proposals_view(&site(), "a", &vec![p]);
    assert!(html.contains("0 evidence record(s)") && !html.contains("Rationale"));
    assert!(html.contains(r#"<span class="pill">?</span>"#));
}

#[test]
fn tokens_show_their_use() {
    let t = TokenView {
        id: 1,
        prefix: "fb_x".to_string(),
        user_id: "a".to_string(),
        name: None,
        created_at: at("2026-07-25T18:52:26Z"),
        last_used_at: None,
        revoked_at: None,
    };
    let html = tokens_list(&site(), "a", &vec![t.clone()]);
    assert!(html.contains(r#"<span class="pill">unused</span>"#) && html.contains("/revoke"));
    let mut used = t.clone();
    used.last_used_at = Some(at("2026-07-25T18:52:26Z"));
    assert!(tokens_list(&site(), "a", &vec![used.clone()]).contains("used <time"));
    used.revoked_at = Some(at("2026-07-25T18:52:26Z"));
    let html = tokens_list(&site(), "a", &vec![used]);
    assert!(html.contains("revoked</span>") && !html.contains("/revoke"));
}

#[test]
fn the_map_and_the_curation_page() {
    let html = map_view(&site(), "a", 12, 3);
    assert!(html.contains("12 records, 3 edges."));
    assert!(html.contains("map-canvas"));
    let html = curate_view(
        &site(),
        "a<",
        &vec![("semantic".to_string(), 2)],
        true,
        "p<",
    );
    assert!(html.contains("LLM-grade fact extraction is available"));
    assert!(html.contains("<code>a&lt;</code>"));
    assert!(html.contains(r#"<td class="mono">2</td>"#));
    let html = curate_view(&site(), "a", &vec![], false, "p");
    assert!(html.contains("does not implement fact distillation"));
    assert!(html.contains("No curated nodes yet."));
}

#[test]
fn the_settings_page_hands_over_safe_data() {
    let stored = SystemSettings {
        api_base: Some("http://x/</script>\"".to_string()),
        extract_timeout_ms: Some(5000),
        ..Default::default()
    };
    let info = view(
        &test_config().provider,
        stored,
        "heuristic".to_string(),
        Some(("a".to_string(), "b".to_string())),
        false,
    );
    let html = settings_view(&site(), "a", &info);
    let from = html.find(r#"type="application/json">"#).unwrap() + 24;
    let to = from + html[from..].find("</script>").unwrap();
    let data: serde_json::Value = serde_json::from_str(&html[from..to]).unwrap();
    assert_eq!(data["stored"]["api_base"], "http://x/</script>\"");
    assert_eq!(data["stored"]["extract_timeout_ms"], 5000);
    assert!(data["stored"]["provider"].is_null());
    assert_eq!(data["effective"]["provider"], "heuristic");
    assert_eq!(data["effective"]["extract_timeout_ms"], 5000);
    assert!(html[from..to].contains("\\u003c/script>"));
    assert!(html.contains("extract <code>a</code> · distill <code>b</code>"));
    assert!(html.contains("no API key in the server environment"));
}

#[test]
fn the_playground_names_its_model() {
    let html = playground_view(&site(), "alice", true, &Settings::default(), &None);
    assert!(html.contains("<strong>No model configured.</strong>"));
    assert!(html.contains("style=\"display:\""));
    let html = playground_view(
        &site(),
        "alice",
        false,
        &Settings::default(),
        &Some("gemma<".to_string()),
    );
    assert!(html.contains("<code>gemma&lt;</code>"));
    assert!(html.contains("no semantic facts yet"));
    let own = Settings {
        base_url: Some("http://h".to_string()),
        model: Some("m".to_string()),
        system_prompt: None,
        context_limit: Some(9),
    };
    let html = playground_view(&site(), "alice", true, &own, &None);
    assert!(html.contains("style=\"display:none\""));
    assert!(html.contains("id=\"pg-limit\" value=\"9\""));
    assert!(html.contains("const esc = s => String(s).replace(/[&<>\"]/g, c => ({'&':'&amp;'"));
}
