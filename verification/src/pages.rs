//! What the pages are for: that they show everything that they are given to show.
use vstd::prelude::*;

use crate::assets::{
    CATALOG, CHAIN_NODE, CURATE, CURATED, CURATE_2, CURATE_3, DASHBOARD, KEYS_HEAD,
    LOCAL_TIME_JS, MAP, MAP_JS, PAGE_HEAD, PROPOSALS, SETTINGS, SETTINGS_2, SETTINGS_3,
    SETTINGS_4, SETTINGS_5, SETTINGS_JS, STATE, TOKENS_FOOT, TOKENS_HEAD,
};
use crate::ids::id_text;
use crate::json::{quoted, text_or_null};
use crate::text::{decimal, decimal_int, has_text, joined, occurs_at, opt_text};
use crate::views::{
    actions_html, catalog_body, catalog_page, chain_end, chain_node, chain_nodes, chain_text,
    count_row, count_rows, counts_html, curate_body, curated_body, curated_page, curated_row,
    curated_rows, curated_table, dashboard_body, dashboard_page, decided_text, decision_form,
    detail_body, detail_page, dev_shown, distill_note, entities_text, esc_char, esc_or, esc_text,
    evidence_count, filter_form, importance_note, island_text, key_panel, key_row, key_rows,
    live_models_text, live_pill, map_body, mode_choice, models_view, nav_text, number_json,
    opt_html, option_text, page_text, payload_html, pill_text, project_field, proposal_card,
    proposal_cards, proposals_body, proposals_html, proposals_page, query_part, query_parts,
    rationale_html, recent_card, recent_row, recent_rows, record_row, record_rows, records_body,
    records_page, records_table, revoke_form, said, schema_html, section_text, session_field,
    settings_body, settings_json, settings_page, state_body, state_card, state_cards, state_page,
    state_section, status_pill, store_card, store_cards, stores_html, synced_text, tags,
    token_action, token_row, token_rows, token_status, tokens_body, tokens_page, type_choice,
    when_text, CatalogView, CuratedNodeView, DashboardStats, ProposalRow, RawAdminRow,
    RecordsFilter, SettingsInfo, Site, StoreView, TokenView, DEV_BANNER, KEY_ABSENT, KEY_PRESENT,
};

verus! {

// ---------------------------------------------------------------------------
// Texts made of parts
// ---------------------------------------------------------------------------
/// Whether a text holds each of the parts.
pub open spec fn holds_all(s: Seq<char>, parts: Seq<Seq<char>>) -> bool {
    forall|k: int| 0 <= k < parts.len() ==> has_text(s, #[trigger] parts[k])
}

proof fn lemma_first(a: Seq<char>)
    ensures
        holds_all(a, seq![a]),
{
    assert(a.subrange(0, a.len() as int) =~= a);
    assert(occurs_at(a, a, 0));
}

/// A text that is written on holds what it held, and what was written.
proof fn lemma_more(s: Seq<char>, parts: Seq<Seq<char>>, a: Seq<char>)
    requires
        holds_all(s, parts),
    ensures
        holds_all(s + a, parts.push(a)),
{
    let n = s.len() as int;
    assert forall|k: int| 0 <= k < parts.push(a).len() implies has_text(
        s + a,
        #[trigger] parts.push(a)[k],
    ) by {
        let t = parts.push(a)[k];
        if k < parts.len() {
            assert(has_text(s, parts[k]));
            let i = choose|i: int| #[trigger] occurs_at(s, t, i);
            assert((s + a).subrange(i, i + t.len()) =~= s.subrange(i, i + t.len()));
            assert(occurs_at(s + a, t, i));
        } else {
            assert((s + a).subrange(n, n + a.len()) =~= a);
            assert(occurs_at(s + a, a, n));
        }
    }
}

// ---------------------------------------------------------------------------
// Laws
// ---------------------------------------------------------------------------
/// A recent record is listed with its type, its link, what it says and its time.
pub proof fn law_recent_records_are_shown(r: RawAdminRow)
    ensures
        has_text(recent_row(r), pill_text(r.record_type@)),
        has_text(recent_row(r), id_text(r.id)),
        has_text(recent_row(r), esc_text(r.content@)),
        has_text(recent_row(r), when_text(r.event_time)),
{
    let s0 = "<tr><td>"@;
    let p0 = seq![s0];
    lemma_first(s0);
    let a1 = pill_text(r.record_type@);
    let s1 = s0 + a1;
    let p1 = p0.push(a1);
    lemma_more(s0, p0, a1);
    let a2 = r#"</td><td><a href="/admin/records/"#@;
    let s2 = s1 + a2;
    let p2 = p1.push(a2);
    lemma_more(s1, p1, a2);
    let a3 = id_text(r.id);
    let s3 = s2 + a3;
    let p3 = p2.push(a3);
    lemma_more(s2, p2, a3);
    let a4 = r#""><div class="content-preview">"#@;
    let s4 = s3 + a4;
    let p4 = p3.push(a4);
    lemma_more(s3, p3, a4);
    let a5 = esc_text(r.content@);
    let s5 = s4 + a5;
    let p5 = p4.push(a5);
    lemma_more(s4, p4, a5);
    let a6 = r#"</div></a></td><td class="mono muted">"#@;
    let s6 = s5 + a6;
    let p6 = p5.push(a6);
    lemma_more(s5, p5, a6);
    let a7 = when_text(r.event_time);
    let s7 = s6 + a7;
    let p7 = p6.push(a7);
    lemma_more(s6, p6, a7);
    let a8 = "</td></tr>"@;
    let s8 = s7 + a8;
    let p8 = p7.push(a8);
    lemma_more(s7, p7, a8);
    assert(s8 == recent_row(r));
    assert(p8[1] == a1);
    assert(p8[3] == a3);
    assert(p8[5] == a5);
    assert(p8[7] == a7);
}

/// A record is listed with its type, its link, its key, what it says, whether it was
/// superseded, its entities, its mode and its time.
#[verifier::rlimit(60)]
pub proof fn law_records_are_listed(r: RawAdminRow)
    ensures
        has_text(record_row(r), pill_text(r.record_type@)),
        has_text(record_row(r), id_text(r.id)),
        has_text(record_row(r), opt_html(opt_text(r.state_key), "<strong>"@, "</strong> &nbsp;"@, ""@)),
        has_text(record_row(r), esc_text(r.content@)),
        has_text(record_row(r), (if r.superseded {
        r#" <span class="pill" style="color:var(--bad)">superseded</span>"#@
    } else {
        ""@
    })),
        has_text(record_row(r), entities_text(r.entities@, 5)),
        has_text(record_row(r), opt_html(opt_text(r.mode), "<code>"@, "</code>"@, r#"<span class="muted">—</span>"#@)),
        has_text(record_row(r), when_text(r.event_time)),
{
    let s0 = "<tr><td>"@;
    let p0 = seq![s0];
    lemma_first(s0);
    let a1 = pill_text(r.record_type@);
    let s1 = s0 + a1;
    let p1 = p0.push(a1);
    lemma_more(s0, p0, a1);
    let a2 = r#"</td><td><a href="/admin/records/"#@;
    let s2 = s1 + a2;
    let p2 = p1.push(a2);
    lemma_more(s1, p1, a2);
    let a3 = id_text(r.id);
    let s3 = s2 + a3;
    let p3 = p2.push(a3);
    lemma_more(s2, p2, a3);
    let a4 = r#"">"#@;
    let s4 = s3 + a4;
    let p4 = p3.push(a4);
    lemma_more(s3, p3, a4);
    let a5 = opt_html(opt_text(r.state_key), "<strong>"@, "</strong> &nbsp;"@, ""@);
    let s5 = s4 + a5;
    let p5 = p4.push(a5);
    lemma_more(s4, p4, a5);
    let a6 = r#"<div class="content-preview">"#@;
    let s6 = s5 + a6;
    let p6 = p5.push(a6);
    lemma_more(s5, p5, a6);
    let a7 = esc_text(r.content@);
    let s7 = s6 + a7;
    let p7 = p6.push(a7);
    lemma_more(s6, p6, a7);
    let a8 = "</div></a>"@;
    let s8 = s7 + a8;
    let p8 = p7.push(a8);
    lemma_more(s7, p7, a8);
    let a9 = (if r.superseded {
        r#" <span class="pill" style="color:var(--bad)">superseded</span>"#@
    } else {
        ""@
    });
    let s9 = s8 + a9;
    let p9 = p8.push(a9);
    lemma_more(s8, p8, a9);
    let a10 = "</td><td>"@;
    let s10 = s9 + a10;
    let p10 = p9.push(a10);
    lemma_more(s9, p9, a10);
    let a11 = entities_text(r.entities@, 5);
    let s11 = s10 + a11;
    let p11 = p10.push(a11);
    lemma_more(s10, p10, a11);
    let a12 = "</td><td>"@;
    let s12 = s11 + a12;
    let p12 = p11.push(a12);
    lemma_more(s11, p11, a12);
    let a13 = opt_html(opt_text(r.mode), "<code>"@, "</code>"@, r#"<span class="muted">—</span>"#@);
    let s13 = s12 + a13;
    let p13 = p12.push(a13);
    lemma_more(s12, p12, a13);
    let a14 = r#"</td><td class="mono muted">"#@;
    let s14 = s13 + a14;
    let p14 = p13.push(a14);
    lemma_more(s13, p13, a14);
    let a15 = when_text(r.event_time);
    let s15 = s14 + a15;
    let p15 = p14.push(a15);
    lemma_more(s14, p14, a15);
    let a16 = "</td></tr>"@;
    let s16 = s15 + a16;
    let p16 = p15.push(a16);
    lemma_more(s15, p15, a16);
    assert(s16 == record_row(r));
    assert(p16[1] == a1);
    assert(p16[3] == a3);
    assert(p16[5] == a5);
    assert(p16[7] == a7);
    assert(p16[9] == a9);
    assert(p16[11] == a11);
    assert(p16[13] == a13);
    assert(p16[15] == a15);
}

/// A curated node is listed with its kind, its level, what it says and its time.
pub proof fn law_nodes_are_listed(n: CuratedNodeView)
    ensures
        has_text(curated_row(n), pill_text(n.kind@)),
        has_text(curated_row(n), decimal_int(n.level as int)),
        has_text(curated_row(n), esc_text(n.content@)),
        has_text(curated_row(n), when_text(n.created_at)),
{
    let s0 = "<tr><td>"@;
    let p0 = seq![s0];
    lemma_first(s0);
    let a1 = pill_text(n.kind@);
    let s1 = s0 + a1;
    let p1 = p0.push(a1);
    lemma_more(s0, p0, a1);
    let a2 = r#"</td><td class="mono">"#@;
    let s2 = s1 + a2;
    let p2 = p1.push(a2);
    lemma_more(s1, p1, a2);
    let a3 = decimal_int(n.level as int);
    let s3 = s2 + a3;
    let p3 = p2.push(a3);
    lemma_more(s2, p2, a3);
    let a4 = r#"</td><td><div class="content-preview">"#@;
    let s4 = s3 + a4;
    let p4 = p3.push(a4);
    lemma_more(s3, p3, a4);
    let a5 = esc_text(n.content@);
    let s5 = s4 + a5;
    let p5 = p4.push(a5);
    lemma_more(s4, p4, a5);
    let a6 = r#"</div></td><td class="mono muted">"#@;
    let s6 = s5 + a6;
    let p6 = p5.push(a6);
    lemma_more(s5, p5, a6);
    let a7 = when_text(n.created_at);
    let s7 = s6 + a7;
    let p7 = p6.push(a7);
    lemma_more(s6, p6, a7);
    let a8 = "</td></tr>"@;
    let s8 = s7 + a8;
    let p8 = p7.push(a8);
    lemma_more(s7, p7, a8);
    assert(s8 == curated_row(n));
    assert(p8[1] == a1);
    assert(p8[3] == a3);
    assert(p8[5] == a5);
    assert(p8[7] == a7);
}

/// A state object is shown with its kind, its key, its value and its time.
pub proof fn law_state_objects_are_shown(s: RawAdminRow)
    ensures
        has_text(state_card(s), id_text(s.id)),
        has_text(state_card(s), esc_or(opt_text(s.state_kind), "?"@)),
        has_text(state_card(s), esc_or(opt_text(s.state_key), "?"@)),
        has_text(state_card(s), esc_text(s.content@)),
        has_text(state_card(s), when_text(s.event_time)),
{
    let s0 = r#"<div class="card">
  <h2 style="margin-top:0"><a href="/admin/records/"#@;
    let p0 = seq![s0];
    lemma_first(s0);
    let a1 = id_text(s.id);
    let s1 = s0 + a1;
    let p1 = p0.push(a1);
    lemma_more(s0, p0, a1);
    let a2 = r#""><code>"#@;
    let s2 = s1 + a2;
    let p2 = p1.push(a2);
    lemma_more(s1, p1, a2);
    let a3 = esc_or(opt_text(s.state_kind), "?"@);
    let s3 = s2 + a3;
    let p3 = p2.push(a3);
    lemma_more(s2, p2, a3);
    let a4 = "/"@;
    let s4 = s3 + a4;
    let p4 = p3.push(a4);
    lemma_more(s3, p3, a4);
    let a5 = esc_or(opt_text(s.state_key), "?"@);
    let s5 = s4 + a5;
    let p5 = p4.push(a5);
    lemma_more(s4, p4, a5);
    let a6 = r#"</code></a></h2>
  <pre class="json">"#@;
    let s6 = s5 + a6;
    let p6 = p5.push(a6);
    lemma_more(s5, p5, a6);
    let a7 = esc_text(s.content@);
    let s7 = s6 + a7;
    let p7 = p6.push(a7);
    lemma_more(s6, p6, a7);
    let a8 = r#"</pre>
  <p class="muted" style="font-size:12px">updated "#@;
    let s8 = s7 + a8;
    let p8 = p7.push(a8);
    lemma_more(s7, p7, a8);
    let a9 = when_text(s.event_time);
    let s9 = s8 + a9;
    let p9 = p8.push(a9);
    lemma_more(s8, p8, a9);
    let a10 = r#"</p>
</div>"#@;
    let s10 = s9 + a10;
    let p10 = p9.push(a10);
    lemma_more(s9, p9, a10);
    assert(s10 == state_card(s));
    assert(p10[1] == a1);
    assert(p10[3] == a3);
    assert(p10[5] == a5);
    assert(p10[7] == a7);
    assert(p10[9] == a9);
}

/// A store is shown with all that is known of it.
#[verifier::rlimit(60)]
pub proof fn law_stores_are_shown(s: StoreView)
    ensures
        has_text(store_card(s), esc_text(s.store.name@)),
        has_text(store_card(s), esc_text(s.store.kind@)),
        has_text(store_card(s), decimal_int(s.record_count as int)),
        has_text(store_card(s), esc_text(s.lineage@)),
        has_text(store_card(s), esc_or(opt_text(s.store.description), ""@)),
        has_text(store_card(s), schema_html(opt_text(s.store.schema))),
        has_text(store_card(s), synced_text(s.store.last_synced_at)),
{
    let s0 = r#"<div class="card">
  <h3 style="margin-top:0"><code>"#@;
    let p0 = seq![s0];
    lemma_first(s0);
    let a1 = esc_text(s.store.name@);
    let s1 = s0 + a1;
    let p1 = p0.push(a1);
    lemma_more(s0, p0, a1);
    let a2 = r#"</code> <span class="pill">"#@;
    let s2 = s1 + a2;
    let p2 = p1.push(a2);
    lemma_more(s1, p1, a2);
    let a3 = esc_text(s.store.kind@);
    let s3 = s2 + a3;
    let p3 = p2.push(a3);
    lemma_more(s2, p2, a3);
    let a4 = r#"</span></h3>
  <p><strong>"#@;
    let s4 = s3 + a4;
    let p4 = p3.push(a4);
    lemma_more(s3, p3, a4);
    let a5 = decimal_int(s.record_count as int);
    let s5 = s4 + a5;
    let p5 = p4.push(a5);
    lemma_more(s4, p4, a5);
    let a6 = r#"</strong> records · <span class="muted">"#@;
    let s6 = s5 + a6;
    let p6 = p5.push(a6);
    lemma_more(s5, p5, a6);
    let a7 = esc_text(s.lineage@);
    let s7 = s6 + a7;
    let p7 = p6.push(a7);
    lemma_more(s6, p6, a7);
    let a8 = r#"</span></p>
  <p class="muted" style="font-size:12px">"#@;
    let s8 = s7 + a8;
    let p8 = p7.push(a8);
    lemma_more(s7, p7, a8);
    let a9 = esc_or(opt_text(s.store.description), ""@);
    let s9 = s8 + a9;
    let p9 = p8.push(a9);
    lemma_more(s8, p8, a9);
    let a10 = r#"</p>
  "#@;
    let s10 = s9 + a10;
    let p10 = p9.push(a10);
    lemma_more(s9, p9, a10);
    let a11 = schema_html(opt_text(s.store.schema));
    let s11 = s10 + a11;
    let p11 = p10.push(a11);
    lemma_more(s10, p10, a11);
    let a12 = r#"
  <p class="muted" style="font-size:12px">"#@;
    let s12 = s11 + a12;
    let p12 = p11.push(a12);
    lemma_more(s11, p11, a12);
    let a13 = synced_text(s.store.last_synced_at);
    let s13 = s12 + a13;
    let p13 = p12.push(a13);
    lemma_more(s12, p12, a13);
    let a14 = r#"</p>
</div>"#@;
    let s14 = s13 + a14;
    let p14 = p13.push(a14);
    lemma_more(s13, p13, a14);
    assert(s14 == store_card(s));
    assert(p14[1] == a1);
    assert(p14[3] == a3);
    assert(p14[5] == a5);
    assert(p14[7] == a7);
    assert(p14[9] == a9);
    assert(p14[11] == a11);
    assert(p14[13] == a13);
}

/// A proposal is shown with what it proposes, why, on what evidence, how it stands,
/// and what can be done about it.
#[verifier::rlimit(60)]
pub proof fn law_proposals_are_shown(p: ProposalRow)
    ensures
        has_text(proposal_card(p), esc_text(p.title@)),
        has_text(proposal_card(p), esc_text(p.kind@)),
        has_text(proposal_card(p), status_pill(p.status@)),
        has_text(proposal_card(p), esc_text(said(p.body@, "action"@))),
        has_text(proposal_card(p), rationale_html(said(p.body@, "rationale"@))),
        has_text(proposal_card(p), decimal(evidence_count(p.body@))),
        has_text(proposal_card(p), when_text(p.created_at)),
        has_text(proposal_card(p), actions_html(p)),
{
    let s0 = r#"<div class="card">
  <h2 style="margin-top:0">"#@;
    let p0 = seq![s0];
    lemma_first(s0);
    let a1 = esc_text(p.title@);
    let s1 = s0 + a1;
    let p1 = p0.push(a1);
    lemma_more(s0, p0, a1);
    let a2 = r#" <span class="pill">"#@;
    let s2 = s1 + a2;
    let p2 = p1.push(a2);
    lemma_more(s1, p1, a2);
    let a3 = esc_text(p.kind@);
    let s3 = s2 + a3;
    let p3 = p2.push(a3);
    lemma_more(s2, p2, a3);
    let a4 = "</span> "@;
    let s4 = s3 + a4;
    let p4 = p3.push(a4);
    lemma_more(s3, p3, a4);
    let a5 = status_pill(p.status@);
    let s5 = s4 + a5;
    let p5 = p4.push(a5);
    lemma_more(s4, p4, a5);
    let a6 = r#"</h2>
  <p><strong>Action:</strong> "#@;
    let s6 = s5 + a6;
    let p6 = p5.push(a6);
    lemma_more(s5, p5, a6);
    let a7 = esc_text(said(p.body@, "action"@));
    let s7 = s6 + a7;
    let p7 = p6.push(a7);
    lemma_more(s6, p6, a7);
    let a8 = r#"</p>
  "#@;
    let s8 = s7 + a8;
    let p8 = p7.push(a8);
    lemma_more(s7, p7, a8);
    let a9 = rationale_html(said(p.body@, "rationale"@));
    let s9 = s8 + a9;
    let p9 = p8.push(a9);
    lemma_more(s8, p8, a9);
    let a10 = r#"
  <p class="muted" style="font-size:12px">"#@;
    let s10 = s9 + a10;
    let p10 = p9.push(a10);
    lemma_more(s9, p9, a10);
    let a11 = decimal(evidence_count(p.body@));
    let s11 = s10 + a11;
    let p11 = p10.push(a11);
    lemma_more(s10, p10, a11);
    let a12 = " evidence record(s) · created "@;
    let s12 = s11 + a12;
    let p12 = p11.push(a12);
    lemma_more(s11, p11, a12);
    let a13 = when_text(p.created_at);
    let s13 = s12 + a13;
    let p13 = p12.push(a13);
    lemma_more(s12, p12, a13);
    let a14 = r#"</p>
  <div style="display:flex;gap:8px">"#@;
    let s14 = s13 + a14;
    let p14 = p13.push(a14);
    lemma_more(s13, p13, a14);
    let a15 = actions_html(p);
    let s15 = s14 + a15;
    let p15 = p14.push(a15);
    lemma_more(s14, p14, a15);
    let a16 = r#"</div>
</div>"#@;
    let s16 = s15 + a16;
    let p16 = p15.push(a16);
    lemma_more(s15, p15, a16);
    assert(s16 == proposal_card(p));
    assert(p16[1] == a1);
    assert(p16[3] == a3);
    assert(p16[5] == a5);
    assert(p16[7] == a7);
    assert(p16[9] == a9);
    assert(p16[11] == a11);
    assert(p16[13] == a13);
    assert(p16[15] == a15);
}

/// A token is listed with its prefix, its name, its owner, how it stands, its time,
/// and what can be done about it.
#[verifier::rlimit(60)]
pub proof fn law_tokens_are_listed(t: TokenView)
    ensures
        has_text(token_row(t), esc_text(t.prefix@)),
        has_text(token_row(t), esc_or(opt_text(t.name), ""@)),
        has_text(token_row(t), esc_text(t.user_id@)),
        has_text(token_row(t), token_status(t)),
        has_text(token_row(t), when_text(t.created_at)),
        has_text(token_row(t), token_action(t)),
{
    let s0 = r#"<tr>
  <td class="mono">"#@;
    let p0 = seq![s0];
    lemma_first(s0);
    let a1 = esc_text(t.prefix@);
    let s1 = s0 + a1;
    let p1 = p0.push(a1);
    lemma_more(s0, p0, a1);
    let a2 = r#"</td>
  <td>"#@;
    let s2 = s1 + a2;
    let p2 = p1.push(a2);
    lemma_more(s1, p1, a2);
    let a3 = esc_or(opt_text(t.name), ""@);
    let s3 = s2 + a3;
    let p3 = p2.push(a3);
    lemma_more(s2, p2, a3);
    let a4 = r#"</td>
  <td>"#@;
    let s4 = s3 + a4;
    let p4 = p3.push(a4);
    lemma_more(s3, p3, a4);
    let a5 = esc_text(t.user_id@);
    let s5 = s4 + a5;
    let p5 = p4.push(a5);
    lemma_more(s4, p4, a5);
    let a6 = r#"</td>
  <td>"#@;
    let s6 = s5 + a6;
    let p6 = p5.push(a6);
    lemma_more(s5, p5, a6);
    let a7 = token_status(t);
    let s7 = s6 + a7;
    let p7 = p6.push(a7);
    lemma_more(s6, p6, a7);
    let a8 = r#"</td>
  <td class="mono muted">"#@;
    let s8 = s7 + a8;
    let p8 = p7.push(a8);
    lemma_more(s7, p7, a8);
    let a9 = when_text(t.created_at);
    let s9 = s8 + a9;
    let p9 = p8.push(a9);
    lemma_more(s8, p8, a9);
    let a10 = r#"</td>
  <td class="right">"#@;
    let s10 = s9 + a10;
    let p10 = p9.push(a10);
    lemma_more(s9, p9, a10);
    let a11 = token_action(t);
    let s11 = s10 + a11;
    let p11 = p10.push(a11);
    lemma_more(s10, p10, a11);
    let a12 = r#"</td>
</tr>"#@;
    let s12 = s11 + a12;
    let p12 = p11.push(a12);
    lemma_more(s11, p11, a12);
    assert(s12 == token_row(t));
    assert(p12[1] == a1);
    assert(p12[3] == a3);
    assert(p12[5] == a5);
    assert(p12[7] == a7);
    assert(p12[9] == a9);
    assert(p12[11] == a11);
}

/// A key of the payloads is listed with how often it occurs.
pub proof fn law_keys_are_listed(x: (String, i64))
    ensures
        has_text(key_row(x), esc_text(x.0@)),
        has_text(key_row(x), decimal_int(x.1 as int)),
{
    let s0 = r#"<tr><td class="mono">"#@;
    let p0 = seq![s0];
    lemma_first(s0);
    let a1 = esc_text(x.0@);
    let s1 = s0 + a1;
    let p1 = p0.push(a1);
    lemma_more(s0, p0, a1);
    let a2 = r#"</td><td class="muted">"#@;
    let s2 = s1 + a2;
    let p2 = p1.push(a2);
    lemma_more(s1, p1, a2);
    let a3 = decimal_int(x.1 as int);
    let s3 = s2 + a3;
    let p3 = p2.push(a3);
    lemma_more(s2, p2, a3);
    let a4 = "</td></tr>"@;
    let s4 = s3 + a4;
    let p4 = p3.push(a4);
    lemma_more(s3, p3, a4);
    assert(s4 == key_row(x));
    assert(p4[1] == a1);
    assert(p4[3] == a3);
}

/// A kind of node is listed with how many there are.
pub proof fn law_counts_are_listed(x: (String, i64))
    ensures
        has_text(count_row(x), pill_text(x.0@)),
        has_text(count_row(x), decimal_int(x.1 as int)),
{
    let s0 = "<tr><td>"@;
    let p0 = seq![s0];
    lemma_first(s0);
    let a1 = pill_text(x.0@);
    let s1 = s0 + a1;
    let p1 = p0.push(a1);
    lemma_more(s0, p0, a1);
    let a2 = r#"</td><td class="mono">"#@;
    let s2 = s1 + a2;
    let p2 = p1.push(a2);
    lemma_more(s1, p1, a2);
    let a3 = decimal_int(x.1 as int);
    let s3 = s2 + a3;
    let p3 = p2.push(a3);
    lemma_more(s2, p2, a3);
    let a4 = "</td></tr>"@;
    let s4 = s3 + a4;
    let p4 = p3.push(a4);
    lemma_more(s3, p3, a4);
    assert(s4 == count_row(x));
    assert(p4[1] == a1);
    assert(p4[3] == a3);
}

/// A record of a chain is shown with its link, its time and what it says, marked as
/// current and as the one that is looked at exactly where it is.
pub proof fn law_chains_are_shown(r: RawAdminRow, is_terminal: bool, is_current: bool)
    ensures
        has_text(chain_node(r, is_terminal, is_current), (if is_terminal {
        "chain-node terminal"@
    } else {
        "chain-node"@
    })),
        has_text(chain_node(r, is_terminal, is_current), id_text(r.id)),
        has_text(chain_node(r, is_terminal, is_current), id_text(r.id).take(8)),
        has_text(chain_node(r, is_terminal, is_current), (if is_terminal {
        r#" <span class="pill t-semantic">current</span>"#@
    } else {
        ""@
    })),
        has_text(chain_node(r, is_terminal, is_current), when_text(r.event_time)),
        has_text(chain_node(r, is_terminal, is_current), (if is_current {
        " (this record)"@
    } else {
        ""@
    })),
        has_text(chain_node(r, is_terminal, is_current), esc_text(r.content@)),
{
    let s0 = r#"<div class=""#@;
    let p0 = seq![s0];
    lemma_first(s0);
    let a1 = (if is_terminal {
        "chain-node terminal"@
    } else {
        "chain-node"@
    });
    let s1 = s0 + a1;
    let p1 = p0.push(a1);
    lemma_more(s0, p0, a1);
    let a2 = CHAIN_NODE@;
    let s2 = s1 + a2;
    let p2 = p1.push(a2);
    lemma_more(s1, p1, a2);
    let a3 = id_text(r.id);
    let s3 = s2 + a3;
    let p3 = p2.push(a3);
    lemma_more(s2, p2, a3);
    let a4 = r#"">"#@;
    let s4 = s3 + a4;
    let p4 = p3.push(a4);
    lemma_more(s3, p3, a4);
    let a5 = id_text(r.id).take(8);
    let s5 = s4 + a5;
    let p5 = p4.push(a5);
    lemma_more(s4, p4, a5);
    let a6 = "</a></strong>"@;
    let s6 = s5 + a6;
    let p6 = p5.push(a6);
    lemma_more(s5, p5, a6);
    let a7 = (if is_terminal {
        r#" <span class="pill t-semantic">current</span>"#@
    } else {
        ""@
    });
    let s7 = s6 + a7;
    let p7 = p6.push(a7);
    lemma_more(s6, p6, a7);
    let a8 = r#" <span class="mono muted">"#@;
    let s8 = s7 + a8;
    let p8 = p7.push(a8);
    lemma_more(s7, p7, a8);
    let a9 = when_text(r.event_time);
    let s9 = s8 + a9;
    let p9 = p8.push(a9);
    lemma_more(s8, p8, a9);
    let a10 = "</span>"@;
    let s10 = s9 + a10;
    let p10 = p9.push(a10);
    lemma_more(s9, p9, a10);
    let a11 = (if is_current {
        " (this record)"@
    } else {
        ""@
    });
    let s11 = s10 + a11;
    let p11 = p10.push(a11);
    lemma_more(s10, p10, a11);
    let a12 = r#"
      <div class="content-preview" style="margin-top:6px;color:var(--fg-0)">"#@;
    let s12 = s11 + a12;
    let p12 = p11.push(a12);
    lemma_more(s11, p11, a12);
    let a13 = esc_text(r.content@);
    let s13 = s12 + a13;
    let p13 = p12.push(a13);
    lemma_more(s12, p12, a13);
    let a14 = r#"</div>
    </div>
  </div>
</div>"#@;
    let s14 = s13 + a14;
    let p14 = p13.push(a14);
    lemma_more(s13, p13, a14);
    assert(s14 == chain_node(r, is_terminal, is_current));
    assert(p14[1] == a1);
    assert(p14[3] == a3);
    assert(p14[5] == a5);
    assert(p14[7] == a7);
    assert(p14[9] == a9);
    assert(p14[11] == a11);
    assert(p14[13] == a13);
}

/// A record is shown in full: what it says, when, from where, how important, in which
/// mode, with its entities, its scope, its payload and its chain.
#[verifier::rlimit(60)]
pub proof fn law_details_are_shown(r: RawAdminRow, chain: Seq<RawAdminRow>)
    ensures
        has_text(detail_body(r, chain), pill_text(r.record_type@)),
        has_text(detail_body(r, chain), id_text(r.id)),
        has_text(detail_body(r, chain), esc_text(r.content@)),
        has_text(detail_body(r, chain), when_text(r.event_time)),
        has_text(detail_body(r, chain), esc_text(r.source@)),
        has_text(detail_body(r, chain), importance_note(opt_text(r.importance))),
        has_text(detail_body(r, chain), opt_html(opt_text(r.mode), " · mode <code>"@, "</code>"@, ""@)),
        has_text(detail_body(r, chain), (if r.superseded {
        r#" · <span class="pill" style="color:var(--bad)">superseded</span>"#@
    } else {
        ""@
    })),
        has_text(detail_body(r, chain), entities_text(r.entities@, usize::MAX as nat)),
        has_text(detail_body(r, chain), opt_html(opt_text(r.project_id), r#"<p class="muted" style="margin-top:6px">project: <code>"#@, "</code></p>"@, ""@)),
        has_text(detail_body(r, chain), opt_html(opt_text(r.container_id), r#"<p class="muted">session: <code>"#@, "</code></p>"@, ""@)),
        has_text(detail_body(r, chain), payload_html(opt_text(r.payload))),
        has_text(detail_body(r, chain), decimal(chain.len() as nat)),
        has_text(detail_body(r, chain), (if chain.len() == 1 {
        ""@
    } else {
        "s"@
    })),
        has_text(detail_body(r, chain), chain_text(chain, chain_end(chain), r.id)),
{
    let s0 = r#"<p><a href="/admin/records">← back to records</a></p>
<h1>"#@;
    let p0 = seq![s0];
    lemma_first(s0);
    let a1 = pill_text(r.record_type@);
    let s1 = s0 + a1;
    let p1 = p0.push(a1);
    lemma_more(s0, p0, a1);
    let a2 = r#" <span class="mono muted" style="font-size:14px;font-weight:normal">"#@;
    let s2 = s1 + a2;
    let p2 = p1.push(a2);
    lemma_more(s1, p1, a2);
    let a3 = id_text(r.id);
    let s3 = s2 + a3;
    let p3 = p2.push(a3);
    lemma_more(s2, p2, a3);
    let a4 = r#"</span></h1>

<div class="row">
  <div class="card">
    <h2 style="margin-top:0">Content</h2>
    <pre class="json">"#@;
    let s4 = s3 + a4;
    let p4 = p3.push(a4);
    lemma_more(s3, p3, a4);
    let a5 = esc_text(r.content@);
    let s5 = s4 + a5;
    let p5 = p4.push(a5);
    lemma_more(s4, p4, a5);
    let a6 = r#"</pre>
    <p class="muted" style="margin-top:12px;font-size:12px">
      event "#@;
    let s6 = s5 + a6;
    let p6 = p5.push(a6);
    lemma_more(s5, p5, a6);
    let a7 = when_text(r.event_time);
    let s7 = s6 + a7;
    let p7 = p6.push(a7);
    lemma_more(s6, p6, a7);
    let a8 = " · source <code>"@;
    let s8 = s7 + a8;
    let p8 = p7.push(a8);
    lemma_more(s7, p7, a8);
    let a9 = esc_text(r.source@);
    let s9 = s8 + a9;
    let p9 = p8.push(a9);
    lemma_more(s8, p8, a9);
    let a10 = "</code>"@;
    let s10 = s9 + a10;
    let p10 = p9.push(a10);
    lemma_more(s9, p9, a10);
    let a11 = importance_note(opt_text(r.importance));
    let s11 = s10 + a11;
    let p11 = p10.push(a11);
    lemma_more(s10, p10, a11);
    let a12 = opt_html(opt_text(r.mode), " · mode <code>"@, "</code>"@, ""@);
    let s12 = s11 + a12;
    let p12 = p11.push(a12);
    lemma_more(s11, p11, a12);
    let a13 = (if r.superseded {
        r#" · <span class="pill" style="color:var(--bad)">superseded</span>"#@
    } else {
        ""@
    });
    let s13 = s12 + a13;
    let p13 = p12.push(a13);
    lemma_more(s12, p12, a13);
    let a14 = r#"
    </p>
    <div style="margin-top:16px">
      <span class="muted">entities:</span> "#@;
    let s14 = s13 + a14;
    let p14 = p13.push(a14);
    lemma_more(s13, p13, a14);
    let a15 = entities_text(r.entities@, usize::MAX as nat);
    let s15 = s14 + a15;
    let p15 = p14.push(a15);
    lemma_more(s14, p14, a15);
    let a16 = r#"
    </div>
    "#@;
    let s16 = s15 + a16;
    let p16 = p15.push(a16);
    lemma_more(s15, p15, a16);
    let a17 = opt_html(opt_text(r.project_id), r#"<p class="muted" style="margin-top:6px">project: <code>"#@, "</code></p>"@, ""@);
    let s17 = s16 + a17;
    let p17 = p16.push(a17);
    lemma_more(s16, p16, a17);
    let a18 = r#"
    "#@;
    let s18 = s17 + a18;
    let p18 = p17.push(a18);
    lemma_more(s17, p17, a18);
    let a19 = opt_html(opt_text(r.container_id), r#"<p class="muted">session: <code>"#@, "</code></p>"@, ""@);
    let s19 = s18 + a19;
    let p19 = p18.push(a19);
    lemma_more(s18, p18, a19);
    let a20 = r#"
  </div>
  <div class="card">
    <h2 style="margin-top:0">Payload</h2>
    "#@;
    let s20 = s19 + a20;
    let p20 = p19.push(a20);
    lemma_more(s19, p19, a20);
    let a21 = payload_html(opt_text(r.payload));
    let s21 = s20 + a21;
    let p21 = p20.push(a21);
    lemma_more(s20, p20, a21);
    let a22 = r#"
  </div>
</div>

<div class="card">
  <h2 style="margin-top:0">Supersede chain ("#@;
    let s22 = s21 + a22;
    let p22 = p21.push(a22);
    lemma_more(s21, p21, a22);
    let a23 = decimal(chain.len() as nat);
    let s23 = s22 + a23;
    let p23 = p22.push(a23);
    lemma_more(s22, p22, a23);
    let a24 = " node"@;
    let s24 = s23 + a24;
    let p24 = p23.push(a24);
    lemma_more(s23, p23, a24);
    let a25 = (if chain.len() == 1 {
        ""@
    } else {
        "s"@
    });
    let s25 = s24 + a25;
    let p25 = p24.push(a25);
    lemma_more(s24, p24, a25);
    let a26 = r#")</h2>
  "#@;
    let s26 = s25 + a26;
    let p26 = p25.push(a26);
    lemma_more(s25, p25, a26);
    let a27 = chain_text(chain, chain_end(chain), r.id);
    let s27 = s26 + a27;
    let p27 = p26.push(a27);
    lemma_more(s26, p26, a27);
    let a28 = r#"
</div>"#@;
    let s28 = s27 + a28;
    let p28 = p27.push(a28);
    lemma_more(s27, p27, a28);
    assert(s28 == detail_body(r, chain));
    assert(p28[1] == a1);
    assert(p28[3] == a3);
    assert(p28[5] == a5);
    assert(p28[7] == a7);
    assert(p28[9] == a9);
    assert(p28[11] == a11);
    assert(p28[12] == a12);
    assert(p28[13] == a13);
    assert(p28[15] == a15);
    assert(p28[17] == a17);
    assert(p28[19] == a19);
    assert(p28[21] == a21);
    assert(p28[23] == a23);
    assert(p28[25] == a25);
    assert(p28[27] == a27);
}

/// The dashboard shows every count, what the engine runs with, and what is recent.
#[verifier::rlimit(60)]
pub proof fn law_dashboard_shows_its_counts(s: DashboardStats, recent: Seq<RawAdminRow>)
    ensures
        has_text(dashboard_body(s, recent), decimal_int(s.records_terminal as int)),
        has_text(dashboard_body(s, recent), decimal_int(s.records_total as int)),
        has_text(dashboard_body(s, recent), decimal_int(s.state_objects as int)),
        has_text(dashboard_body(s, recent), decimal_int(s.curated_nodes as int)),
        has_text(dashboard_body(s, recent), decimal_int(s.proposals_pending as int)),
        has_text(dashboard_body(s, recent), decimal_int(s.tokens_active as int)),
        has_text(dashboard_body(s, recent), esc_text(s.embedder_model@)),
        has_text(dashboard_body(s, recent), decimal(s.embedder_dim as nat)),
        has_text(dashboard_body(s, recent), esc_text(s.provider@)),
        has_text(dashboard_body(s, recent), recent_card(recent)),
{
    let s0 = r#"<h1>Dashboard</h1>
<div class="stat-grid">
  <div class="stat"><div class="label">Records (terminal)</div><div class="value">"#@;
    let p0 = seq![s0];
    lemma_first(s0);
    let a1 = decimal_int(s.records_terminal as int);
    let s1 = s0 + a1;
    let p1 = p0.push(a1);
    lemma_more(s0, p0, a1);
    let a2 = r#"</div></div>
  <div class="stat"><div class="label">Records (all)</div><div class="value">"#@;
    let s2 = s1 + a2;
    let p2 = p1.push(a2);
    lemma_more(s1, p1, a2);
    let a3 = decimal_int(s.records_total as int);
    let s3 = s2 + a3;
    let p3 = p2.push(a3);
    lemma_more(s2, p2, a3);
    let a4 = r#"</div></div>
  <div class="stat"><div class="label">State objects</div><div class="value">"#@;
    let s4 = s3 + a4;
    let p4 = p3.push(a4);
    lemma_more(s3, p3, a4);
    let a5 = decimal_int(s.state_objects as int);
    let s5 = s4 + a5;
    let p5 = p4.push(a5);
    lemma_more(s4, p4, a5);
    let a6 = r#"</div></div>
  <div class="stat"><div class="label">Curated nodes</div><div class="value">"#@;
    let s6 = s5 + a6;
    let p6 = p5.push(a6);
    lemma_more(s5, p5, a6);
    let a7 = decimal_int(s.curated_nodes as int);
    let s7 = s6 + a7;
    let p7 = p6.push(a7);
    lemma_more(s6, p6, a7);
    let a8 = r#"</div></div>
  <div class="stat"><div class="label">Proposals pending</div><div class="value">"#@;
    let s8 = s7 + a8;
    let p8 = p7.push(a8);
    lemma_more(s7, p7, a8);
    let a9 = decimal_int(s.proposals_pending as int);
    let s9 = s8 + a9;
    let p9 = p8.push(a9);
    lemma_more(s8, p8, a9);
    let a10 = r#"</div></div>
  <div class="stat"><div class="label">Active tokens</div><div class="value">"#@;
    let s10 = s9 + a10;
    let p10 = p9.push(a10);
    lemma_more(s9, p9, a10);
    let a11 = decimal_int(s.tokens_active as int);
    let s11 = s10 + a11;
    let p11 = p10.push(a11);
    lemma_more(s10, p10, a11);
    let a12 = r#"</div></div>
</div>
<div class="row">
  <div class="card">
    <h2 style="margin-top:0">Engine</h2>
    <p><span class="muted">Embedder:</span> "#@;
    let s12 = s11 + a12;
    let p12 = p11.push(a12);
    lemma_more(s11, p11, a12);
    let a13 = esc_text(s.embedder_model@);
    let s13 = s12 + a13;
    let p13 = p12.push(a13);
    lemma_more(s12, p12, a13);
    let a14 = " ("@;
    let s14 = s13 + a14;
    let p14 = p13.push(a14);
    lemma_more(s13, p13, a14);
    let a15 = decimal(s.embedder_dim as nat);
    let s15 = s14 + a15;
    let p15 = p14.push(a15);
    lemma_more(s14, p14, a15);
    let a16 = r#"d)</p>
    <p><span class="muted">Extraction provider:</span> <code>"#@;
    let s16 = s15 + a16;
    let p16 = p15.push(a16);
    lemma_more(s15, p15, a16);
    let a17 = esc_text(s.provider@);
    let s17 = s16 + a17;
    let p17 = p16.push(a17);
    lemma_more(s16, p16, a17);
    let a18 = DASHBOARD@;
    let s18 = s17 + a18;
    let p18 = p17.push(a18);
    lemma_more(s17, p17, a18);
    let a19 = recent_card(recent);
    let s19 = s18 + a19;
    let p19 = p18.push(a19);
    lemma_more(s18, p18, a19);
    assert(s19 == dashboard_body(s, recent));
    assert(p19[1] == a1);
    assert(p19[3] == a3);
    assert(p19[5] == a5);
    assert(p19[7] == a7);
    assert(p19[9] == a9);
    assert(p19[11] == a11);
    assert(p19[13] == a13);
    assert(p19[15] == a15);
    assert(p19[17] == a17);
    assert(p19[19] == a19);
}

/// The list of records shows how many match, the filter, the records and the keys.
pub proof fn law_records_page_shows_its_parts(f: RecordsFilter, names: Seq<Seq<char>>, records: Seq<RawAdminRow>, total: i64, keys: Seq<(String, i64)>)
    ensures
        has_text(records_body(f, names, records, total, keys), decimal_int(total as int)),
        has_text(records_body(f, names, records, total, keys), esc_text(joined(query_parts(f), "&"@))),
        has_text(records_body(f, names, records, total, keys), filter_form(f, names)),
        has_text(records_body(f, names, records, total, keys), records_table(records)),
        has_text(records_body(f, names, records, total, keys), key_panel(keys)),
{
    let s0 = r#"<h1>Records</h1>
<p class="muted">"#@;
    let p0 = seq![s0];
    lemma_first(s0);
    let a1 = decimal_int(total as int);
    let s1 = s0 + a1;
    let p1 = p0.push(a1);
    lemma_more(s0, p0, a1);
    let a2 = " total matching this filter. URL state: <code>?"@;
    let s2 = s1 + a2;
    let p2 = p1.push(a2);
    lemma_more(s1, p1, a2);
    let a3 = esc_text(joined(query_parts(f), "&"@));
    let s3 = s2 + a3;
    let p3 = p2.push(a3);
    lemma_more(s2, p2, a3);
    let a4 = r#"</code></p>
"#@;
    let s4 = s3 + a4;
    let p4 = p3.push(a4);
    lemma_more(s3, p3, a4);
    let a5 = filter_form(f, names);
    let s5 = s4 + a5;
    let p5 = p4.push(a5);
    lemma_more(s4, p4, a5);
    let a6 = r#"
"#@;
    let s6 = s5 + a6;
    let p6 = p5.push(a6);
    lemma_more(s5, p5, a6);
    let a7 = records_table(records);
    let s7 = s6 + a7;
    let p7 = p6.push(a7);
    lemma_more(s6, p6, a7);
    let a8 = r#"
"#@;
    let s8 = s7 + a8;
    let p8 = p7.push(a8);
    lemma_more(s7, p7, a8);
    let a9 = key_panel(keys);
    let s9 = s8 + a9;
    let p9 = p8.push(a9);
    lemma_more(s8, p8, a9);
    assert(s9 == records_body(f, names, records, total, keys));
    assert(p9[1] == a1);
    assert(p9[3] == a3);
    assert(p9[5] == a5);
    assert(p9[7] == a7);
    assert(p9[9] == a9);
}

/// The settings are handed on as they are stored and as they are in effect.
#[verifier::rlimit(60)]
pub proof fn law_settings_are_handed_on(info: SettingsInfo)
    ensures
        has_text(settings_json(info), text_or_null(opt_text(info.effective_api_base))),
        has_text(settings_json(info), quoted(info.effective_backend@)),
        has_text(settings_json(info), quoted(info.effective_distill_model@)),
        has_text(settings_json(info), decimal(info.effective_distill_timeout_ms as nat)),
        has_text(settings_json(info), quoted(info.effective_extract_model@)),
        has_text(settings_json(info), decimal(info.effective_extract_timeout_ms as nat)),
        has_text(settings_json(info), quoted(info.effective_provider@)),
        has_text(settings_json(info), text_or_null(opt_text(info.stored.api_base))),
        has_text(settings_json(info), text_or_null(opt_text(info.stored.distill_model))),
        has_text(settings_json(info), number_json(info.stored.distill_timeout_ms)),
        has_text(settings_json(info), text_or_null(opt_text(info.stored.extract_model))),
        has_text(settings_json(info), number_json(info.stored.extract_timeout_ms)),
        has_text(settings_json(info), text_or_null(opt_text(info.stored.provider))),
        has_text(settings_json(info), text_or_null(opt_text(info.stored.remote_backend))),
{
    let s0 = r#"{"effective":{"api_base":"#@;
    let p0 = seq![s0];
    lemma_first(s0);
    let a1 = text_or_null(opt_text(info.effective_api_base));
    let s1 = s0 + a1;
    let p1 = p0.push(a1);
    lemma_more(s0, p0, a1);
    let a2 = r#","backend":"#@;
    let s2 = s1 + a2;
    let p2 = p1.push(a2);
    lemma_more(s1, p1, a2);
    let a3 = quoted(info.effective_backend@);
    let s3 = s2 + a3;
    let p3 = p2.push(a3);
    lemma_more(s2, p2, a3);
    let a4 = r#","distill_model":"#@;
    let s4 = s3 + a4;
    let p4 = p3.push(a4);
    lemma_more(s3, p3, a4);
    let a5 = quoted(info.effective_distill_model@);
    let s5 = s4 + a5;
    let p5 = p4.push(a5);
    lemma_more(s4, p4, a5);
    let a6 = r#","distill_timeout_ms":"#@;
    let s6 = s5 + a6;
    let p6 = p5.push(a6);
    lemma_more(s5, p5, a6);
    let a7 = decimal(info.effective_distill_timeout_ms as nat);
    let s7 = s6 + a7;
    let p7 = p6.push(a7);
    lemma_more(s6, p6, a7);
    let a8 = r#","extract_model":"#@;
    let s8 = s7 + a8;
    let p8 = p7.push(a8);
    lemma_more(s7, p7, a8);
    let a9 = quoted(info.effective_extract_model@);
    let s9 = s8 + a9;
    let p9 = p8.push(a9);
    lemma_more(s8, p8, a9);
    let a10 = r#","extract_timeout_ms":"#@;
    let s10 = s9 + a10;
    let p10 = p9.push(a10);
    lemma_more(s9, p9, a10);
    let a11 = decimal(info.effective_extract_timeout_ms as nat);
    let s11 = s10 + a11;
    let p11 = p10.push(a11);
    lemma_more(s10, p10, a11);
    let a12 = r#","provider":"#@;
    let s12 = s11 + a12;
    let p12 = p11.push(a12);
    lemma_more(s11, p11, a12);
    let a13 = quoted(info.effective_provider@);
    let s13 = s12 + a13;
    let p13 = p12.push(a13);
    lemma_more(s12, p12, a13);
    let a14 = r#"},"stored":{"api_base":"#@;
    let s14 = s13 + a14;
    let p14 = p13.push(a14);
    lemma_more(s13, p13, a14);
    let a15 = text_or_null(opt_text(info.stored.api_base));
    let s15 = s14 + a15;
    let p15 = p14.push(a15);
    lemma_more(s14, p14, a15);
    let a16 = r#","distill_model":"#@;
    let s16 = s15 + a16;
    let p16 = p15.push(a16);
    lemma_more(s15, p15, a16);
    let a17 = text_or_null(opt_text(info.stored.distill_model));
    let s17 = s16 + a17;
    let p17 = p16.push(a17);
    lemma_more(s16, p16, a17);
    let a18 = r#","distill_timeout_ms":"#@;
    let s18 = s17 + a18;
    let p18 = p17.push(a18);
    lemma_more(s17, p17, a18);
    let a19 = number_json(info.stored.distill_timeout_ms);
    let s19 = s18 + a19;
    let p19 = p18.push(a19);
    lemma_more(s18, p18, a19);
    let a20 = r#","extract_model":"#@;
    let s20 = s19 + a20;
    let p20 = p19.push(a20);
    lemma_more(s19, p19, a20);
    let a21 = text_or_null(opt_text(info.stored.extract_model));
    let s21 = s20 + a21;
    let p21 = p20.push(a21);
    lemma_more(s20, p20, a21);
    let a22 = r#","extract_timeout_ms":"#@;
    let s22 = s21 + a22;
    let p22 = p21.push(a22);
    lemma_more(s21, p21, a22);
    let a23 = number_json(info.stored.extract_timeout_ms);
    let s23 = s22 + a23;
    let p23 = p22.push(a23);
    lemma_more(s22, p22, a23);
    let a24 = r#","provider":"#@;
    let s24 = s23 + a24;
    let p24 = p23.push(a24);
    lemma_more(s23, p23, a24);
    let a25 = text_or_null(opt_text(info.stored.provider));
    let s25 = s24 + a25;
    let p25 = p24.push(a25);
    lemma_more(s24, p24, a25);
    let a26 = r#","remote_backend":"#@;
    let s26 = s25 + a26;
    let p26 = p25.push(a26);
    lemma_more(s25, p25, a26);
    let a27 = text_or_null(opt_text(info.stored.remote_backend));
    let s27 = s26 + a27;
    let p27 = p26.push(a27);
    lemma_more(s26, p26, a27);
    let a28 = "}}"@;
    let s28 = s27 + a28;
    let p28 = p27.push(a28);
    lemma_more(s27, p27, a28);
    assert(s28 == settings_json(info));
    assert(p28[1] == a1);
    assert(p28[3] == a3);
    assert(p28[5] == a5);
    assert(p28[7] == a7);
    assert(p28[9] == a9);
    assert(p28[11] == a11);
    assert(p28[13] == a13);
    assert(p28[15] == a15);
    assert(p28[17] == a17);
    assert(p28[19] == a19);
    assert(p28[21] == a21);
    assert(p28[23] == a23);
    assert(p28[25] == a25);
    assert(p28[27] == a27);
}

proof fn lemma_recent_rows_add(a: Seq<RawAdminRow>, b: Seq<RawAdminRow>)
    ensures
        recent_rows(a + b) == recent_rows(a) + recent_rows(b),
    decreases b.len(),
{
    if b.len() == 0 {
        assert(a + b =~= a);
        assert(recent_rows(a) + recent_rows(b) =~= recent_rows(a));
    } else {
        assert((a + b).drop_last() =~= a + b.drop_last());
        lemma_recent_rows_add(a, b.drop_last());
        assert(recent_rows(a + b) =~= recent_rows(a) + recent_rows(b));
    }
}

/// Every recent record is listed, once and in the order of the list.
pub proof fn law_every_recent_record_is_listed(a: Seq<RawAdminRow>, x: RawAdminRow, b: Seq<RawAdminRow>)
    ensures
        recent_rows(Seq::empty()) == Seq::<char>::empty(),
        recent_rows(seq![x]) == recent_row(x),
        recent_rows(a + seq![x] + b) == recent_rows(a) + recent_row(x) + recent_rows(b),
{
    lemma_recent_rows_add(a + seq![x], b);
    lemma_recent_rows_add(a, seq![x]);
    assert(seq![x].drop_last() =~= Seq::empty());
    assert(recent_rows(seq![x].drop_last()) =~= Seq::empty());
    assert(recent_rows(seq![x]) =~= recent_row(x));
}

proof fn lemma_record_rows_add(a: Seq<RawAdminRow>, b: Seq<RawAdminRow>)
    ensures
        record_rows(a + b) == record_rows(a) + record_rows(b),
    decreases b.len(),
{
    if b.len() == 0 {
        assert(a + b =~= a);
        assert(record_rows(a) + record_rows(b) =~= record_rows(a));
    } else {
        assert((a + b).drop_last() =~= a + b.drop_last());
        lemma_record_rows_add(a, b.drop_last());
        assert(record_rows(a + b) =~= record_rows(a) + record_rows(b));
    }
}

/// Every record is listed, once and in the order of the list.
pub proof fn law_every_record_is_listed(a: Seq<RawAdminRow>, x: RawAdminRow, b: Seq<RawAdminRow>)
    ensures
        record_rows(Seq::empty()) == Seq::<char>::empty(),
        record_rows(seq![x]) == record_row(x),
        record_rows(a + seq![x] + b) == record_rows(a) + record_row(x) + record_rows(b),
{
    lemma_record_rows_add(a + seq![x], b);
    lemma_record_rows_add(a, seq![x]);
    assert(seq![x].drop_last() =~= Seq::empty());
    assert(record_rows(seq![x].drop_last()) =~= Seq::empty());
    assert(record_rows(seq![x]) =~= record_row(x));
}

proof fn lemma_key_rows_add(a: Seq<(String, i64)>, b: Seq<(String, i64)>)
    ensures
        key_rows(a + b) == key_rows(a) + key_rows(b),
    decreases b.len(),
{
    if b.len() == 0 {
        assert(a + b =~= a);
        assert(key_rows(a) + key_rows(b) =~= key_rows(a));
    } else {
        assert((a + b).drop_last() =~= a + b.drop_last());
        lemma_key_rows_add(a, b.drop_last());
        assert(key_rows(a + b) =~= key_rows(a) + key_rows(b));
    }
}

/// Every key is listed, once and in the order of the list.
pub proof fn law_every_key_is_listed(a: Seq<(String, i64)>, x: (String, i64), b: Seq<(String, i64)>)
    ensures
        key_rows(Seq::empty()) == Seq::<char>::empty(),
        key_rows(seq![x]) == key_row(x),
        key_rows(a + seq![x] + b) == key_rows(a) + key_row(x) + key_rows(b),
{
    lemma_key_rows_add(a + seq![x], b);
    lemma_key_rows_add(a, seq![x]);
    assert(seq![x].drop_last() =~= Seq::empty());
    assert(key_rows(seq![x].drop_last()) =~= Seq::empty());
    assert(key_rows(seq![x]) =~= key_row(x));
}

proof fn lemma_curated_rows_add(a: Seq<CuratedNodeView>, b: Seq<CuratedNodeView>)
    ensures
        curated_rows(a + b) == curated_rows(a) + curated_rows(b),
    decreases b.len(),
{
    if b.len() == 0 {
        assert(a + b =~= a);
        assert(curated_rows(a) + curated_rows(b) =~= curated_rows(a));
    } else {
        assert((a + b).drop_last() =~= a + b.drop_last());
        lemma_curated_rows_add(a, b.drop_last());
        assert(curated_rows(a + b) =~= curated_rows(a) + curated_rows(b));
    }
}

/// Every node is listed, once and in the order of the list.
pub proof fn law_every_node_is_listed(a: Seq<CuratedNodeView>, x: CuratedNodeView, b: Seq<CuratedNodeView>)
    ensures
        curated_rows(Seq::empty()) == Seq::<char>::empty(),
        curated_rows(seq![x]) == curated_row(x),
        curated_rows(a + seq![x] + b) == curated_rows(a) + curated_row(x) + curated_rows(b),
{
    lemma_curated_rows_add(a + seq![x], b);
    lemma_curated_rows_add(a, seq![x]);
    assert(seq![x].drop_last() =~= Seq::empty());
    assert(curated_rows(seq![x].drop_last()) =~= Seq::empty());
    assert(curated_rows(seq![x]) =~= curated_row(x));
}

proof fn lemma_state_cards_add(a: Seq<RawAdminRow>, b: Seq<RawAdminRow>)
    ensures
        state_cards(a + b) == state_cards(a) + state_cards(b),
    decreases b.len(),
{
    if b.len() == 0 {
        assert(a + b =~= a);
        assert(state_cards(a) + state_cards(b) =~= state_cards(a));
    } else {
        assert((a + b).drop_last() =~= a + b.drop_last());
        lemma_state_cards_add(a, b.drop_last());
        assert(state_cards(a + b) =~= state_cards(a) + state_cards(b));
    }
}

/// Every state object is listed, once and in the order of the list.
pub proof fn law_every_state_object_is_listed(a: Seq<RawAdminRow>, x: RawAdminRow, b: Seq<RawAdminRow>)
    ensures
        state_cards(Seq::empty()) == Seq::<char>::empty(),
        state_cards(seq![x]) == state_card(x),
        state_cards(a + seq![x] + b) == state_cards(a) + state_card(x) + state_cards(b),
{
    lemma_state_cards_add(a + seq![x], b);
    lemma_state_cards_add(a, seq![x]);
    assert(seq![x].drop_last() =~= Seq::empty());
    assert(state_cards(seq![x].drop_last()) =~= Seq::empty());
    assert(state_cards(seq![x]) =~= state_card(x));
}

proof fn lemma_store_cards_add(a: Seq<StoreView>, b: Seq<StoreView>)
    ensures
        store_cards(a + b) == store_cards(a) + store_cards(b),
    decreases b.len(),
{
    if b.len() == 0 {
        assert(a + b =~= a);
        assert(store_cards(a) + store_cards(b) =~= store_cards(a));
    } else {
        assert((a + b).drop_last() =~= a + b.drop_last());
        lemma_store_cards_add(a, b.drop_last());
        assert(store_cards(a + b) =~= store_cards(a) + store_cards(b));
    }
}

/// Every store is listed, once and in the order of the list.
pub proof fn law_every_store_is_listed(a: Seq<StoreView>, x: StoreView, b: Seq<StoreView>)
    ensures
        store_cards(Seq::empty()) == Seq::<char>::empty(),
        store_cards(seq![x]) == store_card(x),
        store_cards(a + seq![x] + b) == store_cards(a) + store_card(x) + store_cards(b),
{
    lemma_store_cards_add(a + seq![x], b);
    lemma_store_cards_add(a, seq![x]);
    assert(seq![x].drop_last() =~= Seq::empty());
    assert(store_cards(seq![x].drop_last()) =~= Seq::empty());
    assert(store_cards(seq![x]) =~= store_card(x));
}

proof fn lemma_proposal_cards_add(a: Seq<ProposalRow>, b: Seq<ProposalRow>)
    ensures
        proposal_cards(a + b) == proposal_cards(a) + proposal_cards(b),
    decreases b.len(),
{
    if b.len() == 0 {
        assert(a + b =~= a);
        assert(proposal_cards(a) + proposal_cards(b) =~= proposal_cards(a));
    } else {
        assert((a + b).drop_last() =~= a + b.drop_last());
        lemma_proposal_cards_add(a, b.drop_last());
        assert(proposal_cards(a + b) =~= proposal_cards(a) + proposal_cards(b));
    }
}

/// Every proposal is listed, once and in the order of the list.
pub proof fn law_every_proposal_is_listed(a: Seq<ProposalRow>, x: ProposalRow, b: Seq<ProposalRow>)
    ensures
        proposal_cards(Seq::empty()) == Seq::<char>::empty(),
        proposal_cards(seq![x]) == proposal_card(x),
        proposal_cards(a + seq![x] + b) == proposal_cards(a) + proposal_card(x) + proposal_cards(b),
{
    lemma_proposal_cards_add(a + seq![x], b);
    lemma_proposal_cards_add(a, seq![x]);
    assert(seq![x].drop_last() =~= Seq::empty());
    assert(proposal_cards(seq![x].drop_last()) =~= Seq::empty());
    assert(proposal_cards(seq![x]) =~= proposal_card(x));
}

proof fn lemma_token_rows_add(a: Seq<TokenView>, b: Seq<TokenView>)
    ensures
        token_rows(a + b) == token_rows(a) + token_rows(b),
    decreases b.len(),
{
    if b.len() == 0 {
        assert(a + b =~= a);
        assert(token_rows(a) + token_rows(b) =~= token_rows(a));
    } else {
        assert((a + b).drop_last() =~= a + b.drop_last());
        lemma_token_rows_add(a, b.drop_last());
        assert(token_rows(a + b) =~= token_rows(a) + token_rows(b));
    }
}

/// Every token is listed, once and in the order of the list.
pub proof fn law_every_token_is_listed(a: Seq<TokenView>, x: TokenView, b: Seq<TokenView>)
    ensures
        token_rows(Seq::empty()) == Seq::<char>::empty(),
        token_rows(seq![x]) == token_row(x),
        token_rows(a + seq![x] + b) == token_rows(a) + token_row(x) + token_rows(b),
{
    lemma_token_rows_add(a + seq![x], b);
    lemma_token_rows_add(a, seq![x]);
    assert(seq![x].drop_last() =~= Seq::empty());
    assert(token_rows(seq![x].drop_last()) =~= Seq::empty());
    assert(token_rows(seq![x]) =~= token_row(x));
}

proof fn lemma_count_rows_add(a: Seq<(String, i64)>, b: Seq<(String, i64)>)
    ensures
        count_rows(a + b) == count_rows(a) + count_rows(b),
    decreases b.len(),
{
    if b.len() == 0 {
        assert(a + b =~= a);
        assert(count_rows(a) + count_rows(b) =~= count_rows(a));
    } else {
        assert((a + b).drop_last() =~= a + b.drop_last());
        lemma_count_rows_add(a, b.drop_last());
        assert(count_rows(a + b) =~= count_rows(a) + count_rows(b));
    }
}

/// Every count is listed, once and in the order of the list.
pub proof fn law_every_count_is_listed(a: Seq<(String, i64)>, x: (String, i64), b: Seq<(String, i64)>)
    ensures
        count_rows(Seq::empty()) == Seq::<char>::empty(),
        count_rows(seq![x]) == count_row(x),
        count_rows(a + seq![x] + b) == count_rows(a) + count_row(x) + count_rows(b),
{
    lemma_count_rows_add(a + seq![x], b);
    lemma_count_rows_add(a, seq![x]);
    assert(seq![x].drop_last() =~= Seq::empty());
    assert(count_rows(seq![x].drop_last()) =~= Seq::empty());
    assert(count_rows(seq![x]) =~= count_row(x));
}

proof fn lemma_esc_add(a: Seq<char>, b: Seq<char>)
    ensures
        esc_text(a + b) == esc_text(a) + esc_text(b),
    decreases b.len(),
{
    if b.len() == 0 {
        assert(a + b =~= a);
        assert(esc_text(a) + esc_text(b) =~= esc_text(a));
    } else {
        assert((a + b).drop_last() =~= a + b.drop_last());
        lemma_esc_add(a, b.drop_last());
        assert(esc_text(a + b) =~= esc_text(a) + esc_text(b));
    }
}

/// Escaping keeps the text: character by character, in their order, each as itself
/// but for the five that mean something to a page, which are named.
pub proof fn law_escaping_keeps_the_text(a: Seq<char>, c: char, b: Seq<char>)
    ensures
        esc_text(Seq::empty()) == Seq::<char>::empty(),
        esc_text(a + b) == esc_text(a) + esc_text(b),
        c != '&' && c != '<' && c != '>' && c != '"' && c != '\'' ==> esc_text(seq![c]) == seq![c],
        esc_text(seq!['&']) == "&amp;"@,
        esc_text(seq!['<']) == "&lt;"@,
        esc_text(seq!['>']) == "&gt;"@,
        esc_text(seq!['"']) == "&quot;"@,
        esc_text(seq!['\'']) == "&#39;"@,
{
    lemma_esc_add(a, b);
    lemma_esc_one(c);
    lemma_esc_one('&');
    lemma_esc_one('<');
    lemma_esc_one('>');
    lemma_esc_one('"');
    lemma_esc_one('\'');
}

proof fn lemma_esc_one(c: char)
    ensures
        esc_text(seq![c]) == esc_char(c),
{
    assert(seq![c].drop_last() =~= Seq::empty());
    assert(esc_text(seq![c].drop_last()) =~= Seq::empty());
    assert(esc_text(seq![c]) =~= esc_char(c));
}

/// What can be done is offered exactly where it can be done: a proposal is decided
/// on while it is proposed, a token revoked while it is not; and how each stands is
/// told apart.
pub proof fn law_what_can_be_done_is_offered(p: ProposalRow, t: TokenView, id: u128)
    ensures
        p.status@ == "proposed"@ ==> actions_html(p) == decision_form(p.id),
        p.status@ != "proposed"@ ==> exists|tail: Seq<char>|
            actions_html(p) == #[trigger] (r#"<span class="muted" style="font-size:12px">"#@ + tail),
        t.revoked_at is None ==> token_action(t) == revoke_form(t.id),
        t.revoked_at is Some ==> token_action(t) == ""@,
        t.revoked_at is Some ==> token_status(t)
            == r#"<span class="pill" style="color:var(--bad)">revoked</span>"#@,
        t.revoked_at is None && t.last_used_at is None ==> token_status(t)
            == r#"<span class="pill">unused</span>"#@,
{
    if p.status@ != "proposed"@ {
        let a = r#"<span class="muted" style="font-size:12px">"#@;
        let b = decided_text(opt_text(p.decided_by), p.decided_at);
        assert(actions_html(p) =~= a + (b + "</span>"@));
    }
}

/// A choice is marked as chosen exactly where it is, and an optional text is shown
/// exactly where there is one.
pub proof fn law_choices_and_optional_texts(
    t: Seq<char>,
    before: Seq<char>,
    after: Seq<char>,
    otherwise: Seq<char>,
)
    ensures
        opt_html(Some(t), before, after, otherwise) == before + esc_text(t) + after,
        opt_html(None, before, after, otherwise) == otherwise,
        esc_or(Some(t), otherwise) == esc_text(t),
        esc_or(None, otherwise) == esc_text(otherwise),
        option_text(t, true) == r#"<option value=""#@ + t + r#"" "#@ + "selected"@ + ">"@ + t
            + "</option>"@,
        option_text(t, false) == r#"<option value=""#@ + t + r#"" "#@ + ""@ + ">"@ + t
            + "</option>"@,
{
}

/// A page shows its title, its navigation, what it is given to show, and what is
/// running.
#[verifier::rlimit(60)]
pub proof fn law_pages_show_their_content(site: Site, active: Seq<char>, user_id: Seq<char>, content: Seq<char>)
    ensures
        has_text(page_text(site, active, user_id, content), active),
        has_text(page_text(site, active, user_id, content), (if dev_shown(site) {
        DEV_BANNER@
    } else {
        ""@
    })),
        has_text(page_text(site, active, user_id, content), nav_text(active, user_id)),
        has_text(page_text(site, active, user_id, content), content),
        has_text(page_text(site, active, user_id, content), site.running()),
{
    let s0 = PAGE_HEAD@;
    let p0 = seq![s0];
    lemma_first(s0);
    let a1 = active;
    let s1 = s0 + a1;
    let p1 = p0.push(a1);
    lemma_more(s0, p0, a1);
    let a2 = r#"</title>
<link rel="stylesheet" href="/admin/style.css" />
</head>
<body>
"#@;
    let s2 = s1 + a2;
    let p2 = p1.push(a2);
    lemma_more(s1, p1, a2);
    let a3 = (if dev_shown(site) {
        DEV_BANNER@
    } else {
        ""@
    });
    let s3 = s2 + a3;
    let p3 = p2.push(a3);
    lemma_more(s2, p2, a3);
    let a4 = r#"
"#@;
    let s4 = s3 + a4;
    let p4 = p3.push(a4);
    lemma_more(s3, p3, a4);
    let a5 = nav_text(active, user_id);
    let s5 = s4 + a5;
    let p5 = p4.push(a5);
    lemma_more(s4, p4, a5);
    let a6 = r#"
<main class="page">
"#@;
    let s6 = s5 + a6;
    let p6 = p5.push(a6);
    lemma_more(s5, p5, a6);
    let a7 = content;
    let s7 = s6 + a7;
    let p7 = p6.push(a7);
    lemma_more(s6, p6, a7);
    let a8 = r#"
</main>
<footer class="build">"#@;
    let s8 = s7 + a8;
    let p8 = p7.push(a8);
    lemma_more(s7, p7, a8);
    let a9 = site.running();
    let s9 = s8 + a9;
    let p9 = p8.push(a9);
    lemma_more(s8, p8, a9);
    let a10 = r#"</footer>
"#@;
    let s10 = s9 + a10;
    let p10 = p9.push(a10);
    lemma_more(s9, p9, a10);
    let a11 = LOCAL_TIME_JS@;
    let s11 = s10 + a11;
    let p11 = p10.push(a11);
    lemma_more(s10, p10, a11);
    let a12 = r#"
</body>
</html>"#@;
    let s12 = s11 + a12;
    let p12 = p11.push(a12);
    lemma_more(s11, p11, a12);
    assert(s12 == page_text(site, active, user_id, content));
    assert(p12[1] == a1);
    assert(p12[3] == a3);
    assert(p12[5] == a5);
    assert(p12[7] == a7);
    assert(p12[9] == a9);
}

/// The page of tokens shows their rows.
pub proof fn law_token_page_shows_its_rows(tokens: Seq<TokenView>)
    ensures
        has_text(tokens_body(tokens), token_rows(tokens)),
{
    let s0 = TOKENS_HEAD@;
    let p0 = seq![s0];
    lemma_first(s0);
    let a1 = token_rows(tokens);
    let s1 = s0 + a1;
    let p1 = p0.push(a1);
    lemma_more(s0, p0, a1);
    let a2 = TOKENS_FOOT@;
    let s2 = s1 + a2;
    let p2 = p1.push(a2);
    lemma_more(s1, p1, a2);
    assert(s2 == tokens_body(tokens));
    assert(p2[1] == a1);
}

/// The page of nodes shows their table.
pub proof fn law_curated_page_shows_its_table(nodes: Seq<CuratedNodeView>)
    ensures
        has_text(curated_body(nodes), curated_table(nodes)),
{
    let s0 = CURATED@;
    let p0 = seq![s0];
    lemma_first(s0);
    let a1 = curated_table(nodes);
    let s1 = s0 + a1;
    let p1 = p0.push(a1);
    lemma_more(s0, p0, a1);
    assert(s1 == curated_body(nodes));
    assert(p1[1] == a1);
}

/// The page of state objects shows them.
pub proof fn law_state_page_shows_its_cards(states: Seq<RawAdminRow>)
    ensures
        has_text(state_body(states), state_section(states)),
{
    let s0 = STATE@;
    let p0 = seq![s0];
    lemma_first(s0);
    let a1 = state_section(states);
    let s1 = s0 + a1;
    let p1 = p0.push(a1);
    lemma_more(s0, p0, a1);
    assert(s1 == state_body(states));
    assert(p1[1] == a1);
}

/// The page of proposals shows them.
pub proof fn law_proposals_page_shows_its_cards(v: Seq<ProposalRow>)
    ensures
        has_text(proposals_body(v), proposals_html(v)),
{
    let s0 = PROPOSALS@;
    let p0 = seq![s0];
    lemma_first(s0);
    let a1 = proposals_html(v);
    let s1 = s0 + a1;
    let p1 = p0.push(a1);
    lemma_more(s0, p0, a1);
    assert(s1 == proposals_body(v));
    assert(p1[1] == a1);
}

/// The page of the map says how much is on it.
pub proof fn law_map_page_shows_its_counts(nodes: usize, edges: usize)
    ensures
        has_text(map_body(nodes, edges), decimal(nodes as nat)),
        has_text(map_body(nodes, edges), decimal(edges as nat)),
{
    let s0 = r#"<h1>Mind map</h1>
<p class="muted">"#@;
    let p0 = seq![s0];
    lemma_first(s0);
    let a1 = decimal(nodes as nat);
    let s1 = s0 + a1;
    let p1 = p0.push(a1);
    lemma_more(s0, p0, a1);
    let a2 = " records, "@;
    let s2 = s1 + a2;
    let p2 = p1.push(a2);
    lemma_more(s1, p1, a2);
    let a3 = decimal(edges as nat);
    let s3 = s2 + a3;
    let p3 = p2.push(a3);
    lemma_more(s2, p2, a3);
    let a4 = MAP@;
    let s4 = s3 + a4;
    let p4 = p3.push(a4);
    lemma_more(s3, p3, a4);
    let a5 = MAP_JS@;
    let s5 = s4 + a5;
    let p5 = p4.push(a5);
    lemma_more(s4, p4, a5);
    assert(s5 == map_body(nodes, edges));
    assert(p5[1] == a1);
    assert(p5[3] == a3);
}

/// The page of curation shows what it can do, for whom, and what there is.
pub proof fn law_curate_page_shows_its_counts(user_id: Seq<char>, counts: Seq<(String, i64)>, can_distill: bool, provider: Seq<char>)
    ensures
        has_text(curate_body(user_id, counts, can_distill, provider), distill_note(can_distill, provider)),
        has_text(curate_body(user_id, counts, can_distill, provider), esc_text(user_id)),
        has_text(curate_body(user_id, counts, can_distill, provider), counts_html(counts)),
{
    let s0 = CURATE@;
    let p0 = seq![s0];
    lemma_first(s0);
    let a1 = distill_note(can_distill, provider);
    let s1 = s0 + a1;
    let p1 = p0.push(a1);
    lemma_more(s0, p0, a1);
    let a2 = CURATE_2@;
    let s2 = s1 + a2;
    let p2 = p1.push(a2);
    lemma_more(s1, p1, a2);
    let a3 = esc_text(user_id);
    let s3 = s2 + a3;
    let p3 = p2.push(a3);
    lemma_more(s2, p2, a3);
    let a4 = CURATE_3@;
    let s4 = s3 + a4;
    let p4 = p3.push(a4);
    lemma_more(s3, p3, a4);
    let a5 = counts_html(counts);
    let s5 = s4 + a5;
    let p5 = p4.push(a5);
    lemma_more(s4, p4, a5);
    let a6 = r#"</tbody>
</table>"#@;
    let s6 = s5 + a6;
    let p6 = p5.push(a6);
    lemma_more(s5, p5, a6);
    assert(s6 == curate_body(user_id, counts, can_distill, provider));
    assert(p6[1] == a1);
    assert(p6[3] == a3);
    assert(p6[5] == a5);
}

/// A section shows its title, what it is about and its stores.
pub proof fn law_sections_show_their_stores(title: Seq<char>, blurb: Seq<char>, stores: Seq<StoreView>)
    ensures
        has_text(section_text(title, blurb, stores), title),
        has_text(section_text(title, blurb, stores), blurb),
        has_text(section_text(title, blurb, stores), stores_html(stores)),
{
    let s0 = r#"<section style="margin-top:24px">
  <h2>"#@;
    let p0 = seq![s0];
    lemma_first(s0);
    let a1 = title;
    let s1 = s0 + a1;
    let p1 = p0.push(a1);
    lemma_more(s0, p0, a1);
    let a2 = r#"</h2>
  <p class="muted">"#@;
    let s2 = s1 + a2;
    let p2 = p1.push(a2);
    lemma_more(s1, p1, a2);
    let a3 = blurb;
    let s3 = s2 + a3;
    let p3 = p2.push(a3);
    lemma_more(s2, p2, a3);
    let a4 = r#"</p>
  "#@;
    let s4 = s3 + a4;
    let p4 = p3.push(a4);
    lemma_more(s3, p3, a4);
    let a5 = stores_html(stores);
    let s5 = s4 + a5;
    let p5 = p4.push(a5);
    lemma_more(s4, p4, a5);
    let a6 = r#"
</section>"#@;
    let s6 = s5 + a6;
    let p6 = p5.push(a6);
    lemma_more(s5, p5, a6);
    assert(s6 == section_text(title, blurb, stores));
    assert(p6[1] == a1);
    assert(p6[3] == a3);
    assert(p6[5] == a5);
}

/// The catalog shows every section.
pub proof fn law_catalog_shows_every_section(c: CatalogView)
    ensures
        has_text(catalog_body(c), section_text("Raw"@, "The immutable source of truth."@, c.raw@)),
        has_text(catalog_body(c), section_text("Curated"@, "Derived from raw and rebuildable from it."@, c.curated@)),
        has_text(catalog_body(c), section_text("Operational"@, "Live systems that publish slices into the lake."@, c.operational@)),
        has_text(catalog_body(c), section_text("External"@, "Outside sources the lake ingests from."@, c.external@)),
{
    let s0 = CATALOG@;
    let p0 = seq![s0];
    lemma_first(s0);
    let a1 = section_text("Raw"@, "The immutable source of truth."@, c.raw@);
    let s1 = s0 + a1;
    let p1 = p0.push(a1);
    lemma_more(s0, p0, a1);
    let a2 = r#"
"#@;
    let s2 = s1 + a2;
    let p2 = p1.push(a2);
    lemma_more(s1, p1, a2);
    let a3 = section_text("Curated"@, "Derived from raw and rebuildable from it."@, c.curated@);
    let s3 = s2 + a3;
    let p3 = p2.push(a3);
    lemma_more(s2, p2, a3);
    let a4 = r#"
"#@;
    let s4 = s3 + a4;
    let p4 = p3.push(a4);
    lemma_more(s3, p3, a4);
    let a5 = section_text("Operational"@, "Live systems that publish slices into the lake."@, c.operational@);
    let s5 = s4 + a5;
    let p5 = p4.push(a5);
    lemma_more(s4, p4, a5);
    let a6 = r#"
"#@;
    let s6 = s5 + a6;
    let p6 = p5.push(a6);
    lemma_more(s5, p5, a6);
    let a7 = section_text("External"@, "Outside sources the lake ingests from."@, c.external@);
    let s7 = s6 + a7;
    let p7 = p6.push(a7);
    lemma_more(s6, p6, a7);
    assert(s7 == catalog_body(c));
    assert(p7[1] == a1);
    assert(p7[3] == a3);
    assert(p7[5] == a5);
    assert(p7[7] == a7);
}

/// The filter shows each of its fields.
pub proof fn law_filters_show_what_they_filter(f: RecordsFilter, names: Seq<Seq<char>>)
    ensures
        has_text(filter_form(f, names), type_choice(f)),
        has_text(filter_form(f, names), project_field(f)),
        has_text(filter_form(f, names), session_field(f)),
        has_text(filter_form(f, names), mode_choice(f, names)),
        has_text(filter_form(f, names), (if f.include_superseded {
        "checked"@
    } else {
        ""@
    })),
{
    let s0 = r#"<form method="get" action="/admin/records" class="card" style="display:flex;flex-wrap:wrap;gap:12px;align-items:flex-end">"#@;
    let p0 = seq![s0];
    lemma_first(s0);
    let a1 = type_choice(f);
    let s1 = s0 + a1;
    let p1 = p0.push(a1);
    lemma_more(s0, p0, a1);
    let a2 = project_field(f);
    let s2 = s1 + a2;
    let p2 = p1.push(a2);
    lemma_more(s1, p1, a2);
    let a3 = session_field(f);
    let s3 = s2 + a3;
    let p3 = p2.push(a3);
    lemma_more(s2, p2, a3);
    let a4 = mode_choice(f, names);
    let s4 = s3 + a4;
    let p4 = p3.push(a4);
    lemma_more(s3, p3, a4);
    let a5 = r#"<div><label><input type="checkbox" name="include_superseded" value="1" "#@;
    let s5 = s4 + a5;
    let p5 = p4.push(a5);
    lemma_more(s4, p4, a5);
    let a6 = (if f.include_superseded {
        "checked"@
    } else {
        ""@
    });
    let s6 = s5 + a6;
    let p6 = p5.push(a6);
    lemma_more(s5, p5, a6);
    let a7 = " /> include superseded</label></div>"@;
    let s7 = s6 + a7;
    let p7 = p6.push(a7);
    lemma_more(s6, p6, a7);
    let a8 = r#"<div><button type="submit">Apply</button></div>"#@;
    let s8 = s7 + a8;
    let p8 = p7.push(a8);
    lemma_more(s7, p7, a8);
    let a9 = "</form>"@;
    let s9 = s8 + a9;
    let p9 = p8.push(a9);
    lemma_more(s8, p8, a9);
    assert(s9 == filter_form(f, names));
    assert(p9[1] == a1);
    assert(p9[2] == a2);
    assert(p9[3] == a3);
    assert(p9[4] == a4);
    assert(p9[6] == a6);
}

/// The settings show what runs, what is in effect, and what is stored.
pub proof fn law_settings_page_shows_what_runs(info: SettingsInfo)
    ensures
        has_text(settings_body(info), live_pill(info)),
        has_text(settings_body(info), live_models_text(models_view(info.live_models))),
        has_text(settings_body(info), esc_text(info.effective_provider@)),
        has_text(settings_body(info), esc_text(info.effective_backend@)),
        has_text(settings_body(info), (if info.env_has_key {
        KEY_PRESENT@
    } else {
        KEY_ABSENT@
    })),
        has_text(settings_body(info), island_text(settings_json(info))),
{
    let s0 = r#"<div style="display:flex;align-items:baseline;gap:12px;flex-wrap:wrap">
  <h1 style="margin-bottom:4px">Settings</h1>
  "#@;
    let p0 = seq![s0];
    lemma_first(s0);
    let a1 = live_pill(info);
    let s1 = s0 + a1;
    let p1 = p0.push(a1);
    lemma_more(s0, p0, a1);
    let a2 = SETTINGS@;
    let s2 = s1 + a2;
    let p2 = p1.push(a2);
    lemma_more(s1, p1, a2);
    let a3 = live_models_text(models_view(info.live_models));
    let s3 = s2 + a3;
    let p3 = p2.push(a3);
    lemma_more(s2, p2, a3);
    let a4 = SETTINGS_2@;
    let s4 = s3 + a4;
    let p4 = p3.push(a4);
    lemma_more(s3, p3, a4);
    let a5 = esc_text(info.effective_provider@);
    let s5 = s4 + a5;
    let p5 = p4.push(a5);
    lemma_more(s4, p4, a5);
    let a6 = SETTINGS_3@;
    let s6 = s5 + a6;
    let p6 = p5.push(a6);
    lemma_more(s5, p5, a6);
    let a7 = esc_text(info.effective_backend@);
    let s7 = s6 + a7;
    let p7 = p6.push(a7);
    lemma_more(s6, p6, a7);
    let a8 = SETTINGS_4@;
    let s8 = s7 + a8;
    let p8 = p7.push(a8);
    lemma_more(s7, p7, a8);
    let a9 = (if info.env_has_key {
        KEY_PRESENT@
    } else {
        KEY_ABSENT@
    });
    let s9 = s8 + a9;
    let p9 = p8.push(a9);
    lemma_more(s8, p8, a9);
    let a10 = SETTINGS_5@;
    let s10 = s9 + a10;
    let p10 = p9.push(a10);
    lemma_more(s9, p9, a10);
    let a11 = island_text(settings_json(info));
    let s11 = s10 + a11;
    let p11 = p10.push(a11);
    lemma_more(s10, p10, a11);
    let a12 = r#"</script>
"#@;
    let s12 = s11 + a12;
    let p12 = p11.push(a12);
    lemma_more(s11, p11, a12);
    let a13 = SETTINGS_JS@;
    let s13 = s12 + a13;
    let p13 = p12.push(a13);
    lemma_more(s12, p12, a13);
    assert(s13 == settings_body(info));
    assert(p13[1] == a1);
    assert(p13[3] == a3);
    assert(p13[5] == a5);
    assert(p13[7] == a7);
    assert(p13[9] == a9);
    assert(p13[11] == a11);
}

/// Recent records are shown where there are any.
pub proof fn law_recent_card_shows_its_rows(recent: Seq<RawAdminRow>)
    requires
        recent.len() > 0,
    ensures
        has_text(recent_card(recent), recent_rows(recent)),
{
    let s0 = r#"<div class="card"><h2 style="margin-top:0">Recent records</h2>"#@;
    let p0 = seq![s0];
    lemma_first(s0);
    let a1 = "<table><thead><tr><th>type</th><th>content</th><th>event</th></tr></thead><tbody>"@;
    let s1 = s0 + a1;
    let p1 = p0.push(a1);
    lemma_more(s0, p0, a1);
    let a2 = recent_rows(recent);
    let s2 = s1 + a2;
    let p2 = p1.push(a2);
    lemma_more(s1, p1, a2);
    let a3 = "</tbody></table>"@;
    let s3 = s2 + a3;
    let p3 = p2.push(a3);
    lemma_more(s2, p2, a3);
    let a4 = "</div>"@;
    let s4 = s3 + a4;
    let p4 = p3.push(a4);
    lemma_more(s3, p3, a4);
    assert(s4 == recent_card(recent));
    assert(p4[2] == a2);
}

/// A table of records shows its rows where there are any.
pub proof fn law_table_shows_its_records(records: Seq<RawAdminRow>)
    requires
        records.len() > 0,
    ensures
        has_text(records_table(records), record_rows(records)),
{
    let s0 = r#"<table>
<thead><tr>
  <th>type</th>
  <th>content</th>
  <th>entities</th>
  <th>mode</th>
  <th>event</th>
</tr></thead>
<tbody>"#@;
    let p0 = seq![s0];
    lemma_first(s0);
    let a1 = record_rows(records);
    let s1 = s0 + a1;
    let p1 = p0.push(a1);
    lemma_more(s0, p0, a1);
    let a2 = "</tbody></table>"@;
    let s2 = s1 + a2;
    let p2 = p1.push(a2);
    lemma_more(s1, p1, a2);
    assert(s2 == records_table(records));
    assert(p2[1] == a1);
}

/// A table of nodes shows its rows where there are any.
pub proof fn law_table_shows_its_nodes(v: Seq<CuratedNodeView>)
    requires
        v.len() > 0,
    ensures
        has_text(curated_table(v), curated_rows(v)),
{
    let s0 = "<table><thead><tr><th>kind</th><th>level</th><th>content</th><th>created</th></tr></thead><tbody>"@;
    let p0 = seq![s0];
    lemma_first(s0);
    let a1 = curated_rows(v);
    let s1 = s0 + a1;
    let p1 = p0.push(a1);
    lemma_more(s0, p0, a1);
    let a2 = "</tbody></table>"@;
    let s2 = s1 + a2;
    let p2 = p1.push(a2);
    lemma_more(s1, p1, a2);
    assert(s2 == curated_table(v));
    assert(p2[1] == a1);
}

/// The panel of keys shows its rows where there are any.
pub proof fn law_panel_shows_its_keys(keys: Seq<(String, i64)>)
    requires
        keys.len() > 0,
    ensures
        has_text(key_panel(keys), key_rows(keys)),
{
    let s0 = KEYS_HEAD@;
    let p0 = seq![s0];
    lemma_first(s0);
    let a1 = key_rows(keys);
    let s1 = s0 + a1;
    let p1 = p0.push(a1);
    lemma_more(s0, p0, a1);
    let a2 = r#"</tbody></table>
</div>"#@;
    let s2 = s1 + a2;
    let p2 = p1.push(a2);
    lemma_more(s1, p1, a2);
    assert(s2 == key_panel(keys));
    assert(p2[1] == a1);
}

/// Lists of which nothing is said but that they are empty show everything where
/// they are not.
pub proof fn law_lists_show_everything(
    states: Seq<RawAdminRow>,
    proposals: Seq<ProposalRow>,
    counts: Seq<(String, i64)>,
    stores: Seq<StoreView>,
)
    ensures
        states.len() > 0 ==> state_section(states) == state_cards(states),
        proposals.len() > 0 ==> proposals_html(proposals) == proposal_cards(proposals),
        counts.len() > 0 ==> counts_html(counts) == count_rows(counts),
        stores.len() > 0 ==> stores_html(stores) == store_cards(stores),
{
}

/// The end of a chain is its first record that was not superseded.
pub proof fn law_chain_ends_at_what_is_current(chain: Seq<RawAdminRow>)
    ensures
        match chain_end(chain) {
            Some(id) => exists|i: int|
                0 <= i < chain.len() && (#[trigger] chain[i]).id == id && !chain[i].superseded
                    && forall|j: int| 0 <= j < i ==> (#[trigger] chain[j]).superseded,
            None => forall|j: int| 0 <= j < chain.len() ==> (#[trigger] chain[j]).superseded,
        },
    decreases chain.len(),
{
    if chain.len() > 0 {
        if !chain[0].superseded {
            assert(chain[0].id == chain[0].id);
        } else {
            let rest = chain.drop_first();
            law_chain_ends_at_what_is_current(rest);
            match chain_end(rest) {
                Some(id) => {
                    let i = choose|i: int|
                        0 <= i < rest.len() && (#[trigger] rest[i]).id == id && !rest[i].superseded
                            && forall|j: int| 0 <= j < i ==> (#[trigger] rest[j]).superseded;
                    assert(chain[i + 1] == rest[i]);
                    assert forall|j: int| 0 <= j < i + 1 implies (#[trigger] chain[j]).superseded by {
                        if j > 0 {
                            assert(chain[j] == rest[j - 1]);
                        }
                    }
                },
                None => {
                    assert forall|j: int| 0 <= j < chain.len() implies (
                    #[trigger] chain[j]).superseded by {
                        if j > 0 {
                            assert(chain[j] == rest[j - 1]);
                        }
                    }
                },
            }
        }
    }
}

proof fn lemma_still_holds(s: Seq<char>, t: Seq<char>, a: Seq<char>)
    requires
        has_text(s, t),
    ensures
        has_text(s + a, t),
{
    assert(holds_all(s, seq![t])) by {
        assert(seq![t][0] == t);
    }
    lemma_more(s, seq![t], a);
    assert(seq![t].push(a)[0] == t);
}

proof fn lemma_holds_end(s: Seq<char>, t: Seq<char>)
    ensures
        has_text(s + t, t),
{
    lemma_more(s, Seq::empty(), t);
    assert(Seq::<Seq<char>>::empty().push(t)[0] == t);
}

/// Every record of a chain is shown, marked as current exactly where it is the end
/// of the chain, and as the one that is looked at exactly where it is.
pub proof fn law_every_record_of_a_chain_is_shown(
    chain: Seq<RawAdminRow>,
    terminal: Option<u128>,
    current: u128,
    k: int,
)
    requires
        0 <= k < chain.len(),
    ensures
        has_text(
            chain_text(chain, terminal, current),
            chain_node(chain[k], terminal == Some(chain[k].id), current == chain[k].id),
        ),
{
    let node = chain_node(chain[k], terminal == Some(chain[k].id), current == chain[k].id);
    let nodes = chain_nodes(chain, chain.len() as int, terminal, current);
    lemma_chain_node(chain, chain.len() as int, terminal, current, k);
    let open = r#"<div class="chain">"#@;
    lemma_holds_after(open, nodes, node);
    lemma_still_holds(open + nodes, node, "</div>"@);
}

proof fn lemma_holds_after(a: Seq<char>, s: Seq<char>, t: Seq<char>)
    requires
        has_text(s, t),
    ensures
        has_text(a + s, t),
{
    let i = choose|i: int| #[trigger] occurs_at(s, t, i);
    let n = a.len() as int;
    assert((a + s).subrange(n + i, n + i + t.len()) =~= s.subrange(i, i + t.len()));
    assert(occurs_at(a + s, t, n + i));
}

proof fn lemma_chain_node(
    chain: Seq<RawAdminRow>,
    n: int,
    terminal: Option<u128>,
    current: u128,
    k: int,
)
    requires
        0 <= k < n <= chain.len(),
    ensures
        has_text(
            chain_nodes(chain, n, terminal, current),
            chain_node(chain[k], terminal == Some(chain[k].id), current == chain[k].id),
        ),
    decreases n,
{
    let node = chain_node(chain[k], terminal == Some(chain[k].id), current == chain[k].id);
    let front = chain_nodes(chain, n - 1, terminal, current);
    let r = chain[n - 1];
    let last = chain_node(r, terminal == Some(r.id), current == r.id);
    let arrow = if n < chain.len() {
        r#"<div class="chain-arrow">↓ superseded by</div>"#@
    } else {
        ""@
    };
    if k < n - 1 {
        lemma_chain_node(chain, n - 1, terminal, current, k);
        lemma_still_holds(front, node, last);
    } else {
        lemma_holds_end(front, last);
    }
    lemma_still_holds(front + last, node, arrow);
}

/// Entities are shown in their order, each as a tag, as many as there is room for.
pub proof fn law_entities_are_tags(v: Seq<String>, e: String, take: nat)
    ensures
        tags(Seq::empty()) == Seq::<char>::empty(),
        tags(v.push(e)) == tags(v) + (r#"<span class="tag">"#@ + esc_text(e@) + "</span>"@),
        0 < v.len() <= take ==> entities_text(v, take) == r#"<div class="tag-list">"#@ + tags(v)
            + "</div>"@,
        v.len() > take ==> entities_text(v, take) == r#"<div class="tag-list">"#@ + tags(
            v.take(take as int),
        ) + "</div>"@,
{
    assert(v.push(e).drop_last() =~= v);
    assert(tags(v.push(e)) =~= tags(v) + (r#"<span class="tag">"#@ + esc_text(e@) + "</span>"@));
    if v.len() > take && v.len() == 0 {
        assert(false);
    }
}

/// A filter is written into the address, each of its parts by its name where it is
/// set, and nothing else.
pub proof fn law_address_names_the_filter(f: RecordsFilter)
    ensures
        f.record_type matches Some(t) ==> query_parts(f).contains("type="@ + t@),
        f.project_id matches Some(t) ==> query_parts(f).contains("project_id="@ + t@),
        f.container_id matches Some(t) ==> query_parts(f).contains("container_id="@ + t@),
        f.mode matches Some(t) ==> query_parts(f).contains("mode="@ + t@),
        f.include_superseded ==> query_parts(f).contains("include_superseded=1"@),
        query_parts(f).len() == (if f.record_type is Some {
            1int
        } else {
            0
        }) + (if f.project_id is Some {
            1int
        } else {
            0
        }) + (if f.container_id is Some {
            1int
        } else {
            0
        }) + (if f.mode is Some {
            1int
        } else {
            0
        }) + (if f.include_superseded {
            1int
        } else {
            0
        }),
{
    let a = query_part("type="@, opt_text(f.record_type));
    let b = a + query_part("project_id="@, opt_text(f.project_id));
    let c = b + query_part("container_id="@, opt_text(f.container_id));
    let d = c + query_part("mode="@, opt_text(f.mode));
    let all = query_parts(f);
    if let Some(t) = f.record_type {
        assert(all[0] == "type="@ + t@);
    }
    if let Some(t) = f.project_id {
        assert(all[a.len() as int] == "project_id="@ + t@);
    }
    if let Some(t) = f.container_id {
        assert(all[b.len() as int] == "container_id="@ + t@);
    }
    if let Some(t) = f.mode {
        assert(all[c.len() as int] == "mode="@ + t@);
    }
    if f.include_superseded {
        assert(all[d.len() as int] == "include_superseded=1"@);
    }
}

/// Each page shows its own body.
pub proof fn law_each_page_shows_its_body(
    site: Site,
    user_id: Seq<char>,
    stats: DashboardStats,
    rows: Seq<RawAdminRow>,
    filter: RecordsFilter,
    names: Seq<Seq<char>>,
    total: i64,
    pairs: Seq<(String, i64)>,
    row: RawAdminRow,
    nodes: Seq<CuratedNodeView>,
    catalog: CatalogView,
    proposals: Seq<ProposalRow>,
    tokens: Seq<TokenView>,
    info: SettingsInfo,
)
    ensures
        has_text(dashboard_page(site, user_id, stats, rows), dashboard_body(stats, rows)),
        has_text(
            records_page(site, user_id, filter, names, rows, total, pairs),
            records_body(filter, names, rows, total, pairs),
        ),
        has_text(detail_page(site, user_id, row, rows), detail_body(row, rows)),
        has_text(curated_page(site, user_id, nodes), curated_body(nodes)),
        has_text(state_page(site, user_id, rows), state_body(rows)),
        has_text(catalog_page(site, user_id, catalog), catalog_body(catalog)),
        has_text(proposals_page(site, user_id, proposals), proposals_body(proposals)),
        has_text(tokens_page(site, user_id, tokens), tokens_body(tokens)),
        has_text(settings_page(site, user_id, info), settings_body(info)),
{
    law_pages_show_their_content(site, "dashboard"@, user_id, dashboard_body(stats, rows));
    law_pages_show_their_content(
        site,
        "records"@,
        user_id,
        records_body(filter, names, rows, total, pairs),
    );
    law_pages_show_their_content(site, "records"@, user_id, detail_body(row, rows));
    law_pages_show_their_content(site, "curated"@, user_id, curated_body(nodes));
    law_pages_show_their_content(site, "state"@, user_id, state_body(rows));
    law_pages_show_their_content(site, "catalog"@, user_id, catalog_body(catalog));
    law_pages_show_their_content(site, "proposals"@, user_id, proposals_body(proposals));
    law_pages_show_their_content(site, "tokens"@, user_id, tokens_body(tokens));
    law_pages_show_their_content(site, "settings"@, user_id, settings_body(info));
}

} // verus!
