//! What the service says of itself, and the parameters of its plain queries.
use vstd::prelude::*;
use vstd::string::*;

use crate::json::{quote, quote_opt, quoted, text_or_null};
use crate::text::{decimal, decimal_text, lemma_assoc, opt_text};

verus! {

/// What the service runs with.
#[derive(Debug, Clone)]
pub struct HealthInfo {
    pub db_ok: bool,
    pub dev_mode: bool,
    /// What is deployed, as the text of a document.
    pub build: String,
    pub embedder: String,
    pub dimension: usize,
    pub provider: String,
    /// The models of the live provider, for extraction and for distillation.
    pub models: Option<(String, String)>,
}

/// A truth value as JSON.
pub open spec fn bool_json(b: bool) -> Seq<char> {
    if b {
        "true"@
    } else {
        "false"@
    }
}

/// The status of the service: it is degraded while the database does not answer.
pub open spec fn status_of(db_ok: bool) -> Seq<char> {
    if db_ok {
        "ok"@
    } else {
        "degraded"@
    }
}

/// The model for extraction.
pub open spec fn extract_model(models: Option<(String, String)>) -> Option<Seq<char>> {
    match models {
        Some((e, _)) => Some(e@),
        None => None,
    }
}

/// The model for distillation.
pub open spec fn distill_model(models: Option<(String, String)>) -> Option<Seq<char>> {
    match models {
        Some((_, d)) => Some(d@),
        None => None,
    }
}

/// The health of the service, as JSON.
pub open spec fn health_json(h: HealthInfo) -> Seq<char> {
    r#"{"build":"#@ + h.build@ + r#","db":{"ok":"#@ + bool_json(h.db_ok) + r#"},"dev_mode":"#@
        + bool_json(h.dev_mode) + r#","nlp":{"embedder":{"dimension":"#@ + decimal(
        h.dimension as nat,
    ) + r#","loaded":true,"name":"#@ + quoted(h.embedder@)
        + r#"},"extractor":{"distill_model":"#@ + text_or_null(distill_model(h.models))
        + r#","extract_model":"#@ + text_or_null(extract_model(h.models)) + r#","provider":"#@
        + quoted(h.provider@) + r#"}},"service":"flashback","status":"#@ + quoted(
        status_of(h.db_ok),
    ) + "}"@
}

fn bool_text(b: bool) -> (r: &'static str)
    ensures
        r@ == bool_json(b),
{
    if b {
        "true"
    } else {
        "false"
    }
}

/// The status of the service.
pub fn status(db_ok: bool) -> (r: &'static str)
    ensures
        r@ == status_of(db_ok),
{
    if db_ok {
        "ok"
    } else {
        "degraded"
    }
}

/// Reports the health of the service.
pub fn health_check(h: &HealthInfo) -> (r: String)
    ensures
        r@ == health_json(*h),
{
    let (extract, distill) = match &h.models {
        Some((e, d)) => (quote(e.as_str()), quote(d.as_str())),
        None => (String::from_str("null"), String::from_str("null")),
    };
    let mut out = String::from_str(r#"{"build":"#);
    out.append(h.build.as_str());
    out.append(r#","db":{"ok":"#);
    out.append(bool_text(h.db_ok));
    out.append(r#"},"dev_mode":"#);
    out.append(bool_text(h.dev_mode));
    out.append(r#","nlp":{"embedder":{"dimension":"#);
    out.append(decimal_text(h.dimension as u64).as_str());
    out.append(r#","loaded":true,"name":"#);
    out.append(quote(h.embedder.as_str()).as_str());
    out.append(r#"},"extractor":{"distill_model":"#);
    out.append(distill.as_str());
    out.append(r#","extract_model":"#);
    out.append(extract.as_str());
    out.append(r#","provider":"#);
    out.append(quote(h.provider.as_str()).as_str());
    out.append(r#"}},"service":"flashback","status":"#);
    out.append(quote(status(h.db_ok)).as_str());
    out.append("}");
    out
}

// ---------------------------------------------------------------------------
// Plain queries
// ---------------------------------------------------------------------------
/// A query for a timeline.
#[derive(Debug, Clone)]
pub struct TimelineParams {
    pub entity_id: Option<String>,
    pub from: Option<String>,
    pub until: Option<String>,
    pub limit: Option<usize>,
}

/// A query for a graph.
#[derive(Debug, Clone)]
pub struct GraphParams {
    pub entity_id: String,
    pub depth: Option<usize>,
    pub relation_types: Option<String>,
}

/// How deep a graph is followed: two steps, unless it says otherwise.
pub fn graph_depth(params: &GraphParams) -> (r: usize)
    ensures
        r == (match params.depth {
            Some(d) => d,
            None => 2,
        }),
{
    match params.depth {
        Some(d) => d,
        None => 2,
    }
}

/// The answer to a query for a graph.
pub fn graph_answer(params: &GraphParams) -> (r: String)
    ensures
        r@ == r#"{"edges":[],"nodes":[],"root":"#@ + quoted(params.entity_id@) + "}"@,
{
    let mut out = String::from_str(r#"{"edges":[],"nodes":[],"root":"#);
    out.append(quote(params.entity_id.as_str()).as_str());
    out.append("}");
    out
}

/// The answer to a query for a timeline.
pub fn timeline_answer(params: &TimelineParams) -> (r: String)
    ensures
        r@ == r#"{"entity_id":"#@ + text_or_null(opt_text(params.entity_id)) + r#","events":[]}"#@,
{
    let mut out = String::from_str(r#"{"entity_id":"#);
    out.append(quote_opt(&params.entity_id).as_str());
    out.append(r#","events":[]}"#);
    out
}

/// The answer on the service's health closes with how it is: well exactly where
/// the database is.
pub proof fn law_health_says_how_it_is(h: HealthInfo)
    ensures
        h.db_ok ==> exists|head: Seq<char>|
            health_json(h) == #[trigger] (head + (quoted("ok"@) + "}"@)),
        !h.db_ok ==> exists|head: Seq<char>|
            health_json(h) == #[trigger] (head + (quoted("degraded"@) + "}"@)),
        bool_json(true) == "true"@ && bool_json(false) == "false"@,
{
    let head = r#"{"build":"#@ + h.build@ + r#","db":{"ok":"#@ + bool_json(h.db_ok)
        + r#"},"dev_mode":"#@ + bool_json(h.dev_mode) + r#","nlp":{"embedder":{"dimension":"#@
        + decimal(h.dimension as nat) + r#","loaded":true,"name":"#@ + quoted(h.embedder@)
        + r#"},"extractor":{"distill_model":"#@ + text_or_null(distill_model(h.models))
        + r#","extract_model":"#@ + text_or_null(extract_model(h.models)) + r#","provider":"#@
        + quoted(h.provider@) + r#"}},"service":"flashback","status":"#@;
    assert(health_json(h) == head + quoted(status_of(h.db_ok)) + "}"@);
    lemma_assoc(head, quoted(status_of(h.db_ok)), "}"@);
}

/// Of the models that a provider has, the first extracts and the second distils.
pub proof fn law_models_by_their_roles(extracts: String, distils: String)
    ensures
        extract_model(Some((extracts, distils))) == Some(extracts@),
        distill_model(Some((extracts, distils))) == Some(distils@),
        extract_model(None) is None && distill_model(None) is None,
{
}

} // verus!
