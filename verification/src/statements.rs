//! The statements that read records: their text, as far as it depends on the
//! request. Every value of a request is bound, never written into the text.
use vstd::prelude::*;
use vstd::string::*;

use crate::assemble::SANDBOX_PROJECT;
use crate::records::{embedding_col_for_dim, embedding_column, sandbox_gate};
use crate::text::{has_text, join, joined, occurs_at, texts};

verus! {

/// The columns of a record.
pub const COLS: &'static str =
    "id, type, content, content_hash, event_time, ingest_time, source, source_ref, user_id, project_id, container_id, mode, importance, supersedes, payload";

/// The columns of a record, by the name of its table.
pub const COLS_R: &'static str =
    "r.id, r.type, r.content, r.content_hash, r.event_time, r.ingest_time, r.source, r.source_ref, r.user_id, r.project_id, r.container_id, r.mode, r.importance, r.supersedes, r.payload";

/// The hours after which a record's recency has fallen to a fraction.
pub const RECENCY_HOURS: &'static str = "720";

/// Whether a read that names no project takes in the sandbox.
pub open spec fn gate(include_sandbox: bool) -> Seq<char> {
    if include_sandbox {
        "TRUE"@
    } else {
        "FALSE"@
    }
}

/// The condition that keeps the sandbox out of a read: where the request names
/// no project and does not ask for the sandbox, a record of it is not read.
pub open spec fn sandbox_clause(
    project: Seq<char>,
    column: Seq<char>,
    include_sandbox: bool,
) -> Seq<char> {
    "("@ + project + "::text IS NOT NULL OR "@ + gate(include_sandbox) + " OR "@ + column
        + " IS DISTINCT FROM '"@ + SANDBOX_PROJECT@ + "')"@
}

fn write_sandbox_clause(project: &str, column: &str, include_sandbox: bool) -> (r: String)
    ensures
        r@ == sandbox_clause(project@, column@, include_sandbox),
{
    let mut out = String::from_str("(");
    out.append(project);
    out.append("::text IS NOT NULL OR ");
    out.append(sandbox_gate(include_sandbox));
    out.append(" OR ");
    out.append(column);
    out.append(" IS DISTINCT FROM '");
    out.append(SANDBOX_PROJECT);
    out.append("')");
    out
}

/// What stands between the conditions of a statement.
pub const AND: &'static str = "\n  AND ";

/// What stands before the conditions of a statement.
pub const WHERE: &'static str = "WHERE ";

/// The part of a statement that lets through only what meets all of the
/// conditions.
pub open spec fn where_all(conditions: Seq<Seq<char>>) -> Seq<char> {
    WHERE@ + joined(conditions, AND@)
}

/// The condition that keeps to what one user owns.
pub open spec fn owner_clause(column: Seq<char>, user: Seq<char>) -> Seq<char> {
    column + " = "@ + user
}

fn write_owner_clause(column: &str, user: &str) -> (r: String)
    ensures
        r@ == owner_clause(column@, user@),
{
    let mut out = String::from_str(column);
    out.append(" = ");
    out.append(user);
    out
}

/// The condition that keeps to what is current: no record of the user has taken
/// its place.
pub open spec fn current_clause(column: Seq<char>, user: Seq<char>) -> Seq<char> {
    column
        + " NOT IN (SELECT supersedes FROM raw_records WHERE supersedes IS NOT NULL AND user_id = "@
        + user + ")"@
}

fn write_current_clause(column: &str, user: &str) -> (r: String)
    ensures
        r@ == current_clause(column@, user@),
{
    let mut out = String::from_str(column);
    out.append(
        " NOT IN (SELECT supersedes FROM raw_records WHERE supersedes IS NOT NULL AND user_id = ",
    );
    out.append(user);
    out.append(")");
    out
}

/// The condition that keeps out the container that a request leaves out, where
/// it leaves one out.
pub open spec fn excluded_clause(container: Seq<char>, column: Seq<char>) -> Seq<char> {
    "("@ + container + "::text IS NULL OR "@ + column + " IS DISTINCT FROM "@ + container + ")"@
}

fn write_excluded_clause(container: &str, column: &str) -> (r: String)
    ensures
        r@ == excluded_clause(container@, column@),
{
    let mut out = String::from_str("(");
    out.append(container);
    out.append("::text IS NULL OR ");
    out.append(column);
    out.append(" IS DISTINCT FROM ");
    out.append(container);
    out.append(")");
    out
}

/// What [`query_text`] reads.
pub open spec fn query_head() -> Seq<char> {
    "SELECT "@
        + COLS@
        + r#" FROM raw_records
"#@
}

/// The conditions of [`query_text`].
pub open spec fn query_conditions() -> Seq<Seq<char>> {
    seq![
        owner_clause("user_id"@, "$1"@),
        "($2::text IS NULL OR project_id = $2)"@,
        "($3::text IS NULL OR container_id = $3)"@,
        "($4::text IS NULL OR mode = $4)"@,
        "($5::text IS NULL OR type = $5)"@,
        "($6::timestamptz IS NULL OR event_time >= $6)"@,
        "($7::timestamptz IS NULL OR event_time <= $7)"@,
        current_clause("id"@, "$1"@),
    ]
}

/// The order of [`query_text`], and its limit.
pub open spec fn query_order() -> Seq<char> {
    r#"
ORDER BY event_time DESC
LIMIT $8"#@
}

/// A structured read: what is not superseded, newest first.
pub open spec fn query_text() -> Seq<char> {
    query_head() + where_all(query_conditions()) + query_order()
}

/// A structured read: what is not superseded, newest first.
pub fn query_sql() -> (sql: String)
    ensures
        sql@ == query_text(),
{
    let mut conditions: Vec<String> = Vec::new();
    conditions.push(write_owner_clause("user_id", "$1"));
    conditions.push(String::from_str("($2::text IS NULL OR project_id = $2)"));
    conditions.push(String::from_str("($3::text IS NULL OR container_id = $3)"));
    conditions.push(String::from_str("($4::text IS NULL OR mode = $4)"));
    conditions.push(String::from_str("($5::text IS NULL OR type = $5)"));
    conditions.push(String::from_str("($6::timestamptz IS NULL OR event_time >= $6)"));
    conditions.push(String::from_str("($7::timestamptz IS NULL OR event_time <= $7)"));
    conditions.push(write_current_clause("id", "$1"));
    assert(texts(conditions@) =~= query_conditions());
    let mut out = String::from_str("SELECT ");
    out.append(COLS);
    out.append(r#" FROM raw_records
"#);
    out.append(WHERE);
    out.append(join(&conditions, AND).as_str());
    out.append(r#"
ORDER BY event_time DESC
LIMIT $8"#);
    assert(out@ =~= query_text());
    out
}

/// What [`recent_text`] reads.
pub open spec fn recent_head() -> Seq<char> {
    "SELECT "@
        + COLS@
        + r#" FROM raw_records
"#@
}

/// The conditions of [`recent_text`].
pub open spec fn recent_conditions(include_sandbox: bool) -> Seq<Seq<char>> {
    seq![
        owner_clause("user_id"@, "$1"@),
        "($2::text IS NULL OR project_id = $2)"@,
        sandbox_clause("$2"@, "project_id"@, include_sandbox),
        "($3::text IS NULL OR container_id = $3)"@,
        "($4::text IS NULL OR mode = $4)"@,
        excluded_clause("$6"@, "container_id"@),
        current_clause("id"@, "$1"@),
    ]
}

/// The order of [`recent_text`], and its limit.
pub open spec fn recent_order() -> Seq<char> {
    r#"
ORDER BY event_time DESC
LIMIT $5"#@
}

/// The newest records of a scope.
pub open spec fn recent_text(include_sandbox: bool) -> Seq<char> {
    recent_head() + where_all(recent_conditions(include_sandbox)) + recent_order()
}

/// The newest records of a scope.
pub fn recent_sql(include_sandbox: bool) -> (sql: String)
    ensures
        sql@ == recent_text(include_sandbox),
{
    let mut conditions: Vec<String> = Vec::new();
    conditions.push(write_owner_clause("user_id", "$1"));
    conditions.push(String::from_str("($2::text IS NULL OR project_id = $2)"));
    conditions.push(write_sandbox_clause("$2", "project_id", include_sandbox));
    conditions.push(String::from_str("($3::text IS NULL OR container_id = $3)"));
    conditions.push(String::from_str("($4::text IS NULL OR mode = $4)"));
    conditions.push(write_excluded_clause("$6", "container_id"));
    conditions.push(write_current_clause("id", "$1"));
    assert(texts(conditions@) =~= recent_conditions(include_sandbox));
    let mut out = String::from_str("SELECT ");
    out.append(COLS);
    out.append(r#" FROM raw_records
"#);
    out.append(WHERE);
    out.append(join(&conditions, AND).as_str());
    out.append(r#"
ORDER BY event_time DESC
LIMIT $5"#);
    assert(out@ =~= recent_text(include_sandbox));
    out
}

/// What [`rank_text`] reads.
pub open spec fn rank_head() -> Seq<char> {
    r#"SELECT n.id, n.level
FROM curated_nodes n
LEFT JOIN curated_embeddings ce ON ce.node_id = n.id AND ce.model = $1
LEFT JOIN ref_weights rw ON rw.ref_id = n.id
"#@
}

/// The condition that keeps to nodes that are current.
pub const NODE_IS_CURRENT: &'static str = r#"NOT EXISTS (
      SELECT 1 FROM curated_edges s WHERE s.to_id = n.id AND s.kind = 'supersedes'
  )"#;

/// The weight that a pinned node has however long it lies idle.
pub const PINNED_WEIGHT: &'static str = "CASE WHEN rw.decay_class = 'pinned' THEN 1.0 ELSE ";

/// How much is left of a node's weight: all of it where it is pinned, else what
/// the time since it was last read leaves.
pub open spec fn decay_term() -> Seq<char> {
    PINNED_WEIGHT@ + decay_rest()
}

/// What the time since a node was last read leaves of its weight.
pub open spec fn decay_rest() -> Seq<char> {
    r#"COALESCE(
            exp(- GREATEST(EXTRACT(EPOCH FROM (NOW() - rw.last_access)) / 3600.0, 0)
                  / COALESCE(rw.s_hours,
                      CASE rw.decay_class
                          WHEN 'ephemeral' THEN 48.0
                          ELSE 336.0
                      END)),
            1.0) END"#@
}

fn write_decay_term() -> (r: String)
    ensures
        r@ == decay_term(),
{
    let mut out = String::from_str(PINNED_WEIGHT);
    out.append(r#"COALESCE(
            exp(- GREATEST(EXTRACT(EPOCH FROM (NOW() - rw.last_access)) / 3600.0, 0)
                  / COALESCE(rw.s_hours,
                      CASE rw.decay_class
                          WHEN 'ephemeral' THEN 48.0
                          ELSE 336.0
                      END)),
            1.0) END"#);
    out
}

/// The conditions of [`rank_text`].
pub open spec fn rank_conditions(include_sandbox: bool) -> Seq<Seq<char>> {
    seq![
        owner_clause("n.user_id"@, "$2"@),
        "($3::text IS NULL OR n.project_id = $3)"@,
        sandbox_clause("$3"@, "n.project_id"@, include_sandbox),
        "n.mode IS NOT DISTINCT FROM $4"@,
        NODE_IS_CURRENT@,
        excluded_clause("$14"@, "n.meta->>'container_id'"@),
    ]
}

/// What the ranking adds up before a node's decay.
pub open spec fn rank_blend(dim: usize) -> Seq<char> {
    r#"
ORDER BY (
      $5 * COALESCE(NULLIF(1 - (ce."#@
        + embedding_column(dim as int)
        + r#" <=> $6), 'NaN'::float8), 0)
    + $7 * ts_rank(to_tsvector('english', n.content), plainto_tsquery('english', $8))
    + $9  * exp(- GREATEST(EXTRACT(EPOCH FROM (NOW() - COALESCE(n.event_time, n.created_at))) / 3600.0, 0) / $10)
    + $11 * COALESCE(n.importance, 0)
    + $12 * "#@
}

/// What stands behind a node's decay.
pub const RANK_FOOT: &'static str = r#"
) DESC, n.level DESC, n.created_at DESC
LIMIT $13"#;

/// The order of [`rank_text`], and its limit.
pub open spec fn rank_order(dim: usize) -> Seq<char> {
    rank_blend(dim) + decay_term() + RANK_FOOT@
}

/// The curated nodes of a scope, best first. A pinned node does not decay.
pub open spec fn rank_text(include_sandbox: bool, dim: usize) -> Seq<char> {
    rank_head() + where_all(rank_conditions(include_sandbox)) + rank_order(dim)
}

/// The curated nodes of a scope, best first. A pinned node does not decay.
pub fn rank_sql(include_sandbox: bool, dim: usize) -> (sql: String)
    ensures
        sql@ == rank_text(include_sandbox, dim),
{
    let mut conditions: Vec<String> = Vec::new();
    conditions.push(write_owner_clause("n.user_id", "$2"));
    conditions.push(String::from_str("($3::text IS NULL OR n.project_id = $3)"));
    conditions.push(write_sandbox_clause("$3", "n.project_id", include_sandbox));
    conditions.push(String::from_str("n.mode IS NOT DISTINCT FROM $4"));
    conditions.push(String::from_str(NODE_IS_CURRENT));
    conditions.push(write_excluded_clause("$14", "n.meta->>'container_id'"));
    assert(texts(conditions@) =~= rank_conditions(include_sandbox));
    let mut out = String::from_str(r#"SELECT n.id, n.level
FROM curated_nodes n
LEFT JOIN curated_embeddings ce ON ce.node_id = n.id AND ce.model = $1
LEFT JOIN ref_weights rw ON rw.ref_id = n.id
"#);
    out.append(WHERE);
    out.append(join(&conditions, AND).as_str());
    out.append(r#"
ORDER BY (
      $5 * COALESCE(NULLIF(1 - (ce."#);
    out.append(embedding_col_for_dim(dim));
    out.append(r#" <=> $6), 'NaN'::float8), 0)
    + $7 * ts_rank(to_tsvector('english', n.content), plainto_tsquery('english', $8))
    + $9  * exp(- GREATEST(EXTRACT(EPOCH FROM (NOW() - COALESCE(n.event_time, n.created_at))) / 3600.0, 0) / $10)
    + $11 * COALESCE(n.importance, 0)
    + $12 * "#);
    out.append(write_decay_term().as_str());
    out.append(RANK_FOOT);
    assert(out@ =~= rank_text(include_sandbox, dim));
    out
}

/// What [`cross_mode_text`] reads.
pub open spec fn cross_mode_head() -> Seq<char> {
    "SELECT "@
        + COLS_R@
        + r#" FROM raw_records r
LEFT JOIN (
    SELECT record_id, COUNT(*) AS hits
    FROM entity_index
    WHERE user_id = $2 AND entity = ANY($5)
    GROUP BY record_id
) ent ON ent.record_id = r.id
"#@
}

/// The conditions of [`cross_mode_text`].
pub open spec fn cross_mode_conditions(include_sandbox: bool) -> Seq<Seq<char>> {
    seq![
        owner_clause("r.user_id"@, "$2"@),
        "($3::text IS NULL OR r.project_id = $3)"@,
        sandbox_clause("$3"@, "r.project_id"@, include_sandbox),
        "($4::text IS NULL OR r.container_id = $4)"@,
        excluded_clause("$7"@, "r.container_id"@),
        current_clause("r.id"@, "$2"@),
    ]
}

/// The order of [`cross_mode_text`], and its limit.
pub open spec fn cross_mode_order() -> Seq<char> {
    r#"
ORDER BY (
    0.5 * ts_rank(r.content_tsv, plainto_tsquery('english', $1))
  + 0.3 * LEAST(COALESCE(ent.hits, 0) / 3.0, 1.0)
  + 0.2 * exp(- GREATEST(EXTRACT(EPOCH FROM (NOW() - r.event_time)) / 3600.0, 0) / "#@
        + RECENCY_HOURS@
        + r#")
) DESC, r.event_time DESC
LIMIT $6"#@
}

/// The records of all modes, by keyword, entities and recency.
pub open spec fn cross_mode_text(include_sandbox: bool) -> Seq<char> {
    cross_mode_head() + where_all(cross_mode_conditions(include_sandbox)) + cross_mode_order()
}

/// The records of all modes, by keyword, entities and recency.
pub fn cross_mode_sql(include_sandbox: bool) -> (sql: String)
    ensures
        sql@ == cross_mode_text(include_sandbox),
{
    let mut conditions: Vec<String> = Vec::new();
    conditions.push(write_owner_clause("r.user_id", "$2"));
    conditions.push(String::from_str("($3::text IS NULL OR r.project_id = $3)"));
    conditions.push(write_sandbox_clause("$3", "r.project_id", include_sandbox));
    conditions.push(String::from_str("($4::text IS NULL OR r.container_id = $4)"));
    conditions.push(write_excluded_clause("$7", "r.container_id"));
    conditions.push(write_current_clause("r.id", "$2"));
    assert(texts(conditions@) =~= cross_mode_conditions(include_sandbox));
    let mut out = String::from_str("SELECT ");
    out.append(COLS_R);
    out.append(r#" FROM raw_records r
LEFT JOIN (
    SELECT record_id, COUNT(*) AS hits
    FROM entity_index
    WHERE user_id = $2 AND entity = ANY($5)
    GROUP BY record_id
) ent ON ent.record_id = r.id
"#);
    out.append(WHERE);
    out.append(join(&conditions, AND).as_str());
    out.append(r#"
ORDER BY (
    0.5 * ts_rank(r.content_tsv, plainto_tsquery('english', $1))
  + 0.3 * LEAST(COALESCE(ent.hits, 0) / 3.0, 1.0)
  + 0.2 * exp(- GREATEST(EXTRACT(EPOCH FROM (NOW() - r.event_time)) / 3600.0, 0) / "#);
    out.append(RECENCY_HOURS);
    out.append(r#")
) DESC, r.event_time DESC
LIMIT $6"#);
    assert(out@ =~= cross_mode_text(include_sandbox));
    out
}

/// What [`references_text`] reads.
pub open spec fn references_head() -> Seq<char> {
    "SELECT "@
        + COLS_R@
        + r#" FROM raw_records r
LEFT JOIN raw_embeddings e ON e.record_id = r.id AND e.model = $1
"#@
}

/// The conditions of [`references_text`].
pub open spec fn references_conditions(include_sandbox: bool) -> Seq<Seq<char>> {
    seq![
        owner_clause("r.user_id"@, "$2"@),
        "r.type = 'state_object'"@,
        "($3::text IS NULL OR r.project_id = $3)"@,
        sandbox_clause("$3"@, "r.project_id"@, include_sandbox),
        "($4::text IS NULL OR r.container_id = $4)"@,
        excluded_clause("$10"@, "r.container_id"@),
        "r.mode IS NOT DISTINCT FROM $5"@,
        current_clause("r.id"@, "$2"@),
    ]
}

/// The order of [`references_text`], and its limit.
pub open spec fn references_order(dim: usize) -> Seq<char> {
    r#"
ORDER BY (
    $9
    + 0.7 * COALESCE(NULLIF(1 - (e."#@
        + embedding_column(dim as int)
        + r#" <=> $6), 'NaN'::float8), 0)
    + 0.3 * ts_rank(r.content_tsv, plainto_tsquery('english', $7))
) DESC, r.event_time DESC
LIMIT $8"#@
}

/// The current references of a scope, best first.
pub open spec fn references_text(include_sandbox: bool, dim: usize) -> Seq<char> {
    references_head() + where_all(references_conditions(include_sandbox)) + references_order(dim)
}

/// The current references of a scope, best first.
pub fn references_sql(include_sandbox: bool, dim: usize) -> (sql: String)
    ensures
        sql@ == references_text(include_sandbox, dim),
{
    let mut conditions: Vec<String> = Vec::new();
    conditions.push(write_owner_clause("r.user_id", "$2"));
    conditions.push(String::from_str("r.type = 'state_object'"));
    conditions.push(String::from_str("($3::text IS NULL OR r.project_id = $3)"));
    conditions.push(write_sandbox_clause("$3", "r.project_id", include_sandbox));
    conditions.push(String::from_str("($4::text IS NULL OR r.container_id = $4)"));
    conditions.push(write_excluded_clause("$10", "r.container_id"));
    conditions.push(String::from_str("r.mode IS NOT DISTINCT FROM $5"));
    conditions.push(write_current_clause("r.id", "$2"));
    assert(texts(conditions@) =~= references_conditions(include_sandbox));
    let mut out = String::from_str("SELECT ");
    out.append(COLS_R);
    out.append(r#" FROM raw_records r
LEFT JOIN raw_embeddings e ON e.record_id = r.id AND e.model = $1
"#);
    out.append(WHERE);
    out.append(join(&conditions, AND).as_str());
    out.append(r#"
ORDER BY (
    $9
    + 0.7 * COALESCE(NULLIF(1 - (e."#);
    out.append(embedding_col_for_dim(dim));
    out.append(r#" <=> $6), 'NaN'::float8), 0)
    + 0.3 * ts_rank(r.content_tsv, plainto_tsquery('english', $7))
) DESC, r.event_time DESC
LIMIT $8"#);
    assert(out@ =~= references_text(include_sandbox, dim));
    out
}

/// What [`by_id_text`] reads.
pub open spec fn by_id_head() -> Seq<char> {
    "SELECT "@
        + COLS@
        + r#" FROM raw_records
"#@
}

/// The conditions of [`by_id_text`].
pub open spec fn by_id_conditions(include_sandbox: bool) -> Seq<Seq<char>> {
    seq![
        owner_clause("user_id"@, "$1"@),
        "id = ANY($2)"@,
        sandbox_clause("$4"@, "project_id"@, include_sandbox),
        excluded_clause("$3"@, "container_id"@),
        current_clause("id"@, "$1"@),
    ]
}

/// The records of some ids, as far as they are current and in scope.
pub open spec fn by_id_text(include_sandbox: bool) -> Seq<char> {
    by_id_head() + where_all(by_id_conditions(include_sandbox))
}

/// The records of some ids, as far as they are current and in scope.
pub fn by_id_sql(include_sandbox: bool) -> (sql: String)
    ensures
        sql@ == by_id_text(include_sandbox),
{
    let mut conditions: Vec<String> = Vec::new();
    conditions.push(write_owner_clause("user_id", "$1"));
    conditions.push(String::from_str("id = ANY($2)"));
    conditions.push(write_sandbox_clause("$4", "project_id", include_sandbox));
    conditions.push(write_excluded_clause("$3", "container_id"));
    conditions.push(write_current_clause("id", "$1"));
    assert(texts(conditions@) =~= by_id_conditions(include_sandbox));
    let mut out = String::from_str("SELECT ");
    out.append(COLS);
    out.append(r#" FROM raw_records
"#);
    out.append(WHERE);
    out.append(join(&conditions, AND).as_str());
    assert(out@ =~= by_id_text(include_sandbox));
    out
}

/// What [`backstop_text`] reads.
pub open spec fn backstop_head() -> Seq<char> {
    "SELECT "@
        + COLS_R@
        + r#" FROM raw_records r
LEFT JOIN raw_embeddings e ON e.record_id = r.id AND e.model = $1
"#@
}

/// The conditions of [`backstop_text`].
pub open spec fn backstop_conditions(include_sandbox: bool) -> Seq<Seq<char>> {
    seq![
        owner_clause("r.user_id"@, "$2"@),
        "($3::text IS NULL OR r.project_id = $3)"@,
        sandbox_clause("$3"@, "r.project_id"@, include_sandbox),
        "($4::text IS NULL OR r.container_id = $4)"@,
        excluded_clause("$10"@, "r.container_id"@),
        "r.mode IS NOT DISTINCT FROM $5"@,
        current_clause("r.id"@, "$2"@),
        "NOT (r.id = ANY($9))"@,
    ]
}

/// The order of [`backstop_text`], and its limit.
pub open spec fn backstop_order(dim: usize) -> Seq<char> {
    r#"
ORDER BY (
    0.7 * COALESCE(NULLIF(1 - (e."#@
        + embedding_column(dim as int)
        + r#" <=> $6), 'NaN'::float8), 0)
    + 0.3 * ts_rank(r.content_tsv, plainto_tsquery('english', $7))
) DESC, r.event_time DESC
LIMIT $8"#@
}

/// The records of a scope by direct search, without those already found.
pub open spec fn backstop_text(include_sandbox: bool, dim: usize) -> Seq<char> {
    backstop_head() + where_all(backstop_conditions(include_sandbox)) + backstop_order(dim)
}

/// The records of a scope by direct search, without those already found.
pub fn backstop_sql(include_sandbox: bool, dim: usize) -> (sql: String)
    ensures
        sql@ == backstop_text(include_sandbox, dim),
{
    let mut conditions: Vec<String> = Vec::new();
    conditions.push(write_owner_clause("r.user_id", "$2"));
    conditions.push(String::from_str("($3::text IS NULL OR r.project_id = $3)"));
    conditions.push(write_sandbox_clause("$3", "r.project_id", include_sandbox));
    conditions.push(String::from_str("($4::text IS NULL OR r.container_id = $4)"));
    conditions.push(write_excluded_clause("$10", "r.container_id"));
    conditions.push(String::from_str("r.mode IS NOT DISTINCT FROM $5"));
    conditions.push(write_current_clause("r.id", "$2"));
    conditions.push(String::from_str("NOT (r.id = ANY($9))"));
    assert(texts(conditions@) =~= backstop_conditions(include_sandbox));
    let mut out = String::from_str("SELECT ");
    out.append(COLS_R);
    out.append(r#" FROM raw_records r
LEFT JOIN raw_embeddings e ON e.record_id = r.id AND e.model = $1
"#);
    out.append(WHERE);
    out.append(join(&conditions, AND).as_str());
    out.append(r#"
ORDER BY (
    0.7 * COALESCE(NULLIF(1 - (e."#);
    out.append(embedding_col_for_dim(dim));
    out.append(r#" <=> $6), 'NaN'::float8), 0)
    + 0.3 * ts_rank(r.content_tsv, plainto_tsquery('english', $7))
) DESC, r.event_time DESC
LIMIT $8"#);
    assert(out@ =~= backstop_text(include_sandbox, dim));
    out
}

/// What [`level_text`] reads.
pub open spec fn level_head() -> Seq<char> {
    r#"SELECT n.id, n.content, n.importance
FROM curated_nodes n
"#@
}

/// The conditions of [`level_text`].
pub open spec fn level_conditions() -> Seq<Seq<char>> {
    seq![
        "n.level = $1"@,
        owner_clause("n.user_id"@, "$2"@),
        "n.project_id IS NOT DISTINCT FROM $3"@,
        "n.mode IS NOT DISTINCT FROM $4"@,
        NODE_IS_CURRENT@,
    ]
}

/// The order of [`level_text`], and its limit.
pub open spec fn level_order() -> Seq<char> {
    r#"
ORDER BY n.created_at ASC
LIMIT $5"#@
}

/// The nodes of one level of a scope that are current, oldest first. A scope is one
/// user, one project and one mode; one without a project or a mode takes in only
/// nodes without it.
pub open spec fn level_text() -> Seq<char> {
    level_head() + where_all(level_conditions()) + level_order()
}

/// The nodes of one level of a scope that are current, oldest first. A scope is one
/// user, one project and one mode; one without a project or a mode takes in only
/// nodes without it.
pub fn level_sql() -> (sql: String)
    ensures
        sql@ == level_text(),
{
    let mut conditions: Vec<String> = Vec::new();
    conditions.push(String::from_str("n.level = $1"));
    conditions.push(write_owner_clause("n.user_id", "$2"));
    conditions.push(String::from_str("n.project_id IS NOT DISTINCT FROM $3"));
    conditions.push(String::from_str("n.mode IS NOT DISTINCT FROM $4"));
    conditions.push(String::from_str(NODE_IS_CURRENT));
    assert(texts(conditions@) =~= level_conditions());
    let mut out = String::from_str(r#"SELECT n.id, n.content, n.importance
FROM curated_nodes n
"#);
    out.append(WHERE);
    out.append(join(&conditions, AND).as_str());
    out.append(r#"
ORDER BY n.created_at ASC
LIMIT $5"#);
    assert(out@ =~= level_text());
    out
}

/// The raw ids under a curated node, through every level below it, the newest
/// records first.
pub open spec fn expand_text() -> Seq<char> {
    r#"WITH RECURSIVE tree AS (
    SELECT $1::uuid AS id
    UNION
    SELECT e.to_id
    FROM curated_edges e
    JOIN tree t ON e.from_id = t.id AND e.kind = 'summarizes'
)
SELECT src.to_id
FROM (
    SELECT DISTINCT df.to_id
    FROM tree t
    JOIN curated_edges df ON df.from_id = t.id AND df.kind = 'derived_from'
) src
JOIN raw_records r ON r.id = src.to_id
ORDER BY r.event_time DESC
LIMIT $2"#@
}

/// The raw ids under a curated node.
pub fn expand_sql() -> (sql: String)
    ensures
        sql@ == expand_text(),
{
    String::from_str(r#"WITH RECURSIVE tree AS (
    SELECT $1::uuid AS id
    UNION
    SELECT e.to_id
    FROM curated_edges e
    JOIN tree t ON e.from_id = t.id AND e.kind = 'summarizes'
)
SELECT src.to_id
FROM (
    SELECT DISTINCT df.to_id
    FROM tree t
    JOIN curated_edges df ON df.from_id = t.id AND df.kind = 'derived_from'
) src
JOIN raw_records r ON r.id = src.to_id
ORDER BY r.event_time DESC
LIMIT $2"#)
}

/// A record with everything before and after it in its chain.
pub open spec fn lineage_text() -> Seq<char> {
    r#"WITH RECURSIVE
back AS (
    SELECT "#@
        + COLS@
        + r#" FROM raw_records WHERE id = $1
    UNION ALL
    SELECT "#@
        + COLS_R@
        + r#" FROM raw_records r JOIN back b ON r.id = b.supersedes AND r.user_id = $2
),
fwd AS (
    SELECT "#@
        + COLS@
        + r#" FROM raw_records WHERE id = $1
    UNION ALL
    SELECT "#@
        + COLS_R@
        + r#" FROM raw_records r JOIN fwd f ON r.supersedes = f.id AND r.user_id = $2
)
SELECT "#@
        + COLS@
        + r#" FROM (
    SELECT "#@
        + COLS@
        + " FROM back UNION SELECT "@
        + COLS@
        + r#" FROM fwd
) u
ORDER BY ingest_time ASC"#@
}

/// A record with everything before and after it in its chain.
pub fn lineage_sql() -> (sql: String)
    ensures
        sql@ == lineage_text(),
{
    let mut out = String::from_str(r#"WITH RECURSIVE
back AS (
    SELECT "#);
    out.append(COLS);
    out.append(r#" FROM raw_records WHERE id = $1
    UNION ALL
    SELECT "#);
    out.append(COLS_R);
    out.append(r#" FROM raw_records r JOIN back b ON r.id = b.supersedes AND r.user_id = $2
),
fwd AS (
    SELECT "#);
    out.append(COLS);
    out.append(r#" FROM raw_records WHERE id = $1
    UNION ALL
    SELECT "#);
    out.append(COLS_R);
    out.append(r#" FROM raw_records r JOIN fwd f ON r.supersedes = f.id AND r.user_id = $2
)
SELECT "#);
    out.append(COLS);
    out.append(r#" FROM (
    SELECT "#);
    out.append(COLS);
    out.append(" FROM back UNION SELECT ");
    out.append(COLS);
    out.append(r#" FROM fwd
) u
ORDER BY ingest_time ASC"#);
    out
}

/// One record.
pub open spec fn one_record_text() -> Seq<char> {
    "SELECT "@ + COLS@ + " FROM raw_records WHERE id = $1"@
}

/// One record.
pub fn one_record_sql() -> (r: String)
    ensures
        r@ == one_record_text(),
{
    let mut out = String::from_str("SELECT ");
    out.append(COLS);
    out.append(" FROM raw_records WHERE id = $1");
    out
}

// ---------------------------------------------------------------------------
// Storing records
// ---------------------------------------------------------------------------
/// A record that its source has sent before stays as it is stored, and nothing
/// is given back for it; a new one gives back its id.
pub const KEEP_STORED: &'static str = r#"ON CONFLICT (user_id, source, source_ref) WHERE source_ref IS NOT NULL
DO NOTHING
RETURNING id"#;

/// The front of the statement that stores a record.
pub open spec fn insert_head() -> Seq<char> {
    r#"INSERT INTO raw_records
    (id, type, content, event_time, source, source_ref,
     user_id, project_id, container_id, mode, importance, payload, supersedes)
VALUES ($1,$2,$3,$4,$5,$6,$7,$8,$9,$10,$11,$12,$13)
"#@
}

/// Stores a record unless its source has sent it before.
pub open spec fn insert_text() -> Seq<char> {
    insert_head() + KEEP_STORED@
}

/// Stores a record unless its source has sent it before.
pub fn insert_sql() -> (sql: String)
    ensures
        sql@ == insert_text(),
{
    let mut out = String::from_str(r#"INSERT INTO raw_records
    (id, type, content, event_time, source, source_ref,
     user_id, project_id, container_id, mode, importance, payload, supersedes)
VALUES ($1,$2,$3,$4,$5,$6,$7,$8,$9,$10,$11,$12,$13)
"#);
    out.append(KEEP_STORED);
    out
}

/// The id of the record that a source has sent before.
pub open spec fn stored_text() -> Seq<char> {
    "SELECT id FROM raw_records WHERE user_id = $1 AND source = $2 AND source_ref = $3"@
}

/// The id of the record that a source has sent before.
pub fn stored_sql() -> (sql: String)
    ensures
        sql@ == stored_text(),
{
    String::from_str(
        "SELECT id FROM raw_records WHERE user_id = $1 AND source = $2 AND source_ref = $3",
    )
}

// ---------------------------------------------------------------------------
// Laws
// ---------------------------------------------------------------------------
/// Whether a statement lets through only what meets all of the conditions.
pub open spec fn reads_where(text: Seq<char>, conditions: Seq<Seq<char>>) -> bool {
    exists|head: Seq<char>, tail: Seq<char>|
        text == #[trigger] (head + where_all(conditions) + tail)
}

/// Whether a statement keeps to what a user owns, to what is current, out of the
/// container that is left out, and out of the sandbox unless that was asked for:
/// each is one of its conditions.
pub open spec fn keeps_to_scope(
    text: Seq<char>,
    conditions: Seq<Seq<char>>,
    owner: Seq<char>,
    current: Seq<char>,
    excluded: Seq<char>,
    sandbox: Seq<char>,
) -> bool {
    &&& reads_where(text, conditions)
    &&& conditions.contains(owner)
    &&& conditions.contains(current)
    &&& conditions.contains(excluded)
    &&& conditions.contains(sandbox)
}

proof fn lemma_reads_where(
    head: Seq<char>,
    tail: Seq<char>,
    text: Seq<char>,
    conditions: Seq<Seq<char>>,
)
    requires
        text == head + where_all(conditions) + tail,
    ensures
        reads_where(text, conditions),
{
}

/// Every statement that reads records for an assembly keeps to its scope: to
/// what the caller owns, to what is current, out of the container that is left
/// out, and out of the sandbox unless that was asked for.
pub proof fn law_assembly_reads_keep_to_their_scope(include_sandbox: bool, dim: usize)
    ensures
        keeps_to_scope(
            recent_text(include_sandbox),
            recent_conditions(include_sandbox),
            owner_clause("user_id"@, "$1"@),
            current_clause("id"@, "$1"@),
            excluded_clause("$6"@, "container_id"@),
            sandbox_clause("$2"@, "project_id"@, include_sandbox),
        ),
        keeps_to_scope(
            cross_mode_text(include_sandbox),
            cross_mode_conditions(include_sandbox),
            owner_clause("r.user_id"@, "$2"@),
            current_clause("r.id"@, "$2"@),
            excluded_clause("$7"@, "r.container_id"@),
            sandbox_clause("$3"@, "r.project_id"@, include_sandbox),
        ),
        keeps_to_scope(
            references_text(include_sandbox, dim),
            references_conditions(include_sandbox),
            owner_clause("r.user_id"@, "$2"@),
            current_clause("r.id"@, "$2"@),
            excluded_clause("$10"@, "r.container_id"@),
            sandbox_clause("$3"@, "r.project_id"@, include_sandbox),
        ),
        keeps_to_scope(
            by_id_text(include_sandbox),
            by_id_conditions(include_sandbox),
            owner_clause("user_id"@, "$1"@),
            current_clause("id"@, "$1"@),
            excluded_clause("$3"@, "container_id"@),
            sandbox_clause("$4"@, "project_id"@, include_sandbox),
        ),
        keeps_to_scope(
            backstop_text(include_sandbox, dim),
            backstop_conditions(include_sandbox),
            owner_clause("r.user_id"@, "$2"@),
            current_clause("r.id"@, "$2"@),
            excluded_clause("$10"@, "r.container_id"@),
            sandbox_clause("$3"@, "r.project_id"@, include_sandbox),
        ),
{
    let recent = recent_conditions(include_sandbox);
    lemma_reads_where(recent_head(), recent_order(), recent_text(include_sandbox), recent);
    assert(recent[0] == owner_clause("user_id"@, "$1"@));
    assert(recent[2] == sandbox_clause("$2"@, "project_id"@, include_sandbox));
    assert(recent[5] == excluded_clause("$6"@, "container_id"@));
    assert(recent[6] == current_clause("id"@, "$1"@));
    let cross_mode = cross_mode_conditions(include_sandbox);
    lemma_reads_where(
        cross_mode_head(),
        cross_mode_order(),
        cross_mode_text(include_sandbox),
        cross_mode,
    );
    assert(cross_mode[0] == owner_clause("r.user_id"@, "$2"@));
    assert(cross_mode[2] == sandbox_clause("$3"@, "r.project_id"@, include_sandbox));
    assert(cross_mode[4] == excluded_clause("$7"@, "r.container_id"@));
    assert(cross_mode[5] == current_clause("r.id"@, "$2"@));
    let references = references_conditions(include_sandbox);
    lemma_reads_where(
        references_head(),
        references_order(dim),
        references_text(include_sandbox, dim),
        references,
    );
    assert(references[0] == owner_clause("r.user_id"@, "$2"@));
    assert(references[3] == sandbox_clause("$3"@, "r.project_id"@, include_sandbox));
    assert(references[5] == excluded_clause("$10"@, "r.container_id"@));
    assert(references[7] == current_clause("r.id"@, "$2"@));
    let by_id = by_id_conditions(include_sandbox);
    assert(by_id_text(include_sandbox) =~= by_id_head() + where_all(by_id) + Seq::empty());
    lemma_reads_where(by_id_head(), Seq::empty(), by_id_text(include_sandbox), by_id);
    assert(by_id[0] == owner_clause("user_id"@, "$1"@));
    assert(by_id[2] == sandbox_clause("$4"@, "project_id"@, include_sandbox));
    assert(by_id[3] == excluded_clause("$3"@, "container_id"@));
    assert(by_id[4] == current_clause("id"@, "$1"@));
    let backstop = backstop_conditions(include_sandbox);
    lemma_reads_where(
        backstop_head(),
        backstop_order(dim),
        backstop_text(include_sandbox, dim),
        backstop,
    );
    assert(backstop[0] == owner_clause("r.user_id"@, "$2"@));
    assert(backstop[2] == sandbox_clause("$3"@, "r.project_id"@, include_sandbox));
    assert(backstop[4] == excluded_clause("$10"@, "r.container_id"@));
    assert(backstop[6] == current_clause("r.id"@, "$2"@));
}

/// Whether a statement is a query: it begins with the word for one, or with a
/// recursive table to query.
pub open spec fn is_query(text: Seq<char>) -> bool {
    starts_with(text, "SELECT "@) || starts_with(text, "WITH RECURSIVE "@)
}

/// Whether a text begins with another.
pub open spec fn starts_with(s: Seq<char>, t: Seq<char>) -> bool {
    occurs_at(s, t, 0)
}

proof fn lemma_starts_with(t: Seq<char>, rest: Seq<char>)
    ensures
        starts_with(t + rest, t),
{
    assert((t + rest).subrange(0, t.len() as int) =~= t);
}

proof fn lemma_still_starts_with(s: Seq<char>, t: Seq<char>, rest: Seq<char>)
    requires
        starts_with(s, t),
    ensures
        starts_with(s + rest, t),
{
    assert((s + rest).subrange(0, t.len() as int) =~= s.subrange(0, t.len() as int));
}

/// A query stays one whatever is written behind its front.
proof fn lemma_query(head: Seq<char>, rest: Seq<char>)
    requires
        is_query(head),
    ensures
        is_query(head + rest),
{
    if starts_with(head, "SELECT "@) {
        lemma_still_starts_with(head, "SELECT "@, rest);
    } else {
        lemma_still_starts_with(head, "WITH RECURSIVE "@, rest);
    }
}

/// Each statement of an assembly is a query.
pub proof fn lemma_assembly_statements_are_queries(include_sandbox: bool, dim: usize)
    ensures
        is_query(recent_text(include_sandbox)),
        is_query(cross_mode_text(include_sandbox)),
        is_query(rank_text(include_sandbox, dim)),
        is_query(references_text(include_sandbox, dim)),
        is_query(by_id_text(include_sandbox)),
        is_query(backstop_text(include_sandbox, dim)),
        is_query(expand_text()),
{
    let select = "SELECT "@;
    lemma_starts_with(select, COLS@);
    lemma_starts_with(select, COLS_R@);
    reveal_strlit("SELECT ");
    reveal_strlit("WITH RECURSIVE ");
    reveal_strlit(r#"SELECT n.id, n.level
FROM curated_nodes n
LEFT JOIN curated_embeddings ce ON ce.node_id = n.id AND ce.model = $1
LEFT JOIN ref_weights rw ON rw.ref_id = n.id
"#);
    assert(rank_head().subrange(0, select.len() as int) =~= select);
    reveal_strlit(r#"WITH RECURSIVE tree AS (
    SELECT $1::uuid AS id
    UNION
    SELECT e.to_id
    FROM curated_edges e
    JOIN tree t ON e.from_id = t.id AND e.kind = 'summarizes'
)
SELECT src.to_id
FROM (
    SELECT DISTINCT df.to_id
    FROM tree t
    JOIN curated_edges df ON df.from_id = t.id AND df.kind = 'derived_from'
) src
JOIN raw_records r ON r.id = src.to_id
ORDER BY r.event_time DESC
LIMIT $2"#);
    let with = "WITH RECURSIVE "@;
    assert(expand_text().subrange(0, with.len() as int) =~= with);
    lemma_query(select + COLS@, r#" FROM raw_records
"#@);
    lemma_query(recent_head(), where_all(recent_conditions(include_sandbox)));
    lemma_query(
        recent_head() + where_all(recent_conditions(include_sandbox)),
        recent_order(),
    );
    lemma_query(select + COLS_R@, r#" FROM raw_records r
LEFT JOIN (
    SELECT record_id, COUNT(*) AS hits
    FROM entity_index
    WHERE user_id = $2 AND entity = ANY($5)
    GROUP BY record_id
) ent ON ent.record_id = r.id
"#@);
    lemma_query(cross_mode_head(), where_all(cross_mode_conditions(include_sandbox)));
    lemma_query(
        cross_mode_head() + where_all(cross_mode_conditions(include_sandbox)),
        cross_mode_order(),
    );
    lemma_query(select + COLS_R@, r#" FROM raw_records r
LEFT JOIN raw_embeddings e ON e.record_id = r.id AND e.model = $1
"#@);
    lemma_query(references_head(), where_all(references_conditions(include_sandbox)));
    lemma_query(
        references_head() + where_all(references_conditions(include_sandbox)),
        references_order(dim),
    );
    lemma_query(select + COLS@, r#" FROM raw_records
"#@);
    lemma_query(by_id_head(), where_all(by_id_conditions(include_sandbox)));
    lemma_query(select + COLS_R@, r#" FROM raw_records r
LEFT JOIN raw_embeddings e ON e.record_id = r.id AND e.model = $1
"#@);
    lemma_query(backstop_head(), where_all(backstop_conditions(include_sandbox)));
    lemma_query(
        backstop_head() + where_all(backstop_conditions(include_sandbox)),
        backstop_order(dim),
    );
    lemma_query(rank_head(), where_all(rank_conditions(include_sandbox)));
    lemma_query(rank_head() + where_all(rank_conditions(include_sandbox)), rank_order(dim));
}

/// A structured read keeps to what the caller owns and to what is current.
pub proof fn law_structured_reads_keep_to_their_owner()
    ensures
        reads_where(query_text(), query_conditions()),
        query_conditions().contains(owner_clause("user_id"@, "$1"@)),
        query_conditions().contains(current_clause("id"@, "$1"@)),
{
    let conditions = query_conditions();
    lemma_reads_where(query_head(), query_order(), query_text(), conditions);
    assert(conditions[0] == owner_clause("user_id"@, "$1"@));
    assert(conditions[7] == current_clause("id"@, "$1"@));
}

/// The statement that ranks curated nodes keeps to its scope in the same way; a
/// node is current unless an edge says that another has taken its place.
pub proof fn law_node_reads_keep_to_their_scope(include_sandbox: bool, dim: usize)
    ensures
        keeps_to_scope(
            rank_text(include_sandbox, dim),
            rank_conditions(include_sandbox),
            owner_clause("n.user_id"@, "$2"@),
            NODE_IS_CURRENT@,
            excluded_clause("$14"@, "n.meta->>'container_id'"@),
            sandbox_clause("$3"@, "n.project_id"@, include_sandbox),
        ),
{
    let rank = rank_conditions(include_sandbox);
    lemma_reads_where(rank_head(), rank_order(dim), rank_text(include_sandbox, dim), rank);
    assert(rank[0] == owner_clause("n.user_id"@, "$2"@));
    assert(rank[2] == sandbox_clause("$3"@, "n.project_id"@, include_sandbox));
    assert(rank[4] == NODE_IS_CURRENT@);
    assert(rank[5] == excluded_clause("$14"@, "n.meta->>'container_id'"@));
}

/// A summary never mixes users, projects or modes: the nodes of a level are read
/// for one of each.
pub proof fn law_levels_are_of_one_scope()
    ensures
        reads_where(level_text(), level_conditions()),
        level_conditions().contains(owner_clause("n.user_id"@, "$2"@)),
        level_conditions().contains("n.project_id IS NOT DISTINCT FROM $3"@),
        level_conditions().contains("n.mode IS NOT DISTINCT FROM $4"@),
        level_conditions().contains(NODE_IS_CURRENT@),
{
    let conditions = level_conditions();
    lemma_reads_where(level_head(), level_order(), level_text(), conditions);
    assert(conditions[1] == owner_clause("n.user_id"@, "$2"@));
    assert(conditions[2] == "n.project_id IS NOT DISTINCT FROM $3"@);
    assert(conditions[3] == "n.mode IS NOT DISTINCT FROM $4"@);
    assert(conditions[4] == NODE_IS_CURRENT@);
}

/// A pinned node does not decay: before anything else, the decay that the
/// ranking counts is one for it, whenever it was last read.
pub proof fn law_pinned_nodes_do_not_decay(include_sandbox: bool, dim: usize)
    ensures
        exists|head: Seq<char>, tail: Seq<char>|
            rank_text(include_sandbox, dim) == #[trigger] (head + PINNED_WEIGHT@ + tail),
{
    let head = rank_head() + where_all(rank_conditions(include_sandbox)) + rank_blend(dim);
    let tail = decay_rest() + RANK_FOOT@;
    assert(rank_text(include_sandbox, dim) =~= head + PINNED_WEIGHT@ + tail);
}

/// The signals of the ranking, each as it is added to the score. Likeness is one
/// less the distance between a node's vector and the query's.
pub const LIKENESS: &'static str = "ORDER BY (\n      $5 * COALESCE(NULLIF(1 - (ce.";

pub const LIKENESS_TO_QUERY: &'static str = " <=> $6), 'NaN'::float8), 0)";

pub const KEYWORDS: &'static str =
    "\n    + $7 * ts_rank(to_tsvector('english', n.content), plainto_tsquery('english', $8))";

pub const NEWNESS: &'static str =
    "\n    + $9  * exp(- GREATEST(EXTRACT(EPOCH FROM (NOW() - COALESCE(n.event_time, n.created_at))) / 3600.0, 0) / $10)";

pub const IMPORTANCE: &'static str = "\n    + $11 * COALESCE(n.importance, 0)";

pub const DECAY: &'static str = "\n    + $12 * ";

pub const BEST_NODES_FIRST: &'static str =
    "\n) DESC, n.level DESC, n.created_at DESC\nLIMIT $13";

/// What is left of a node that is not pinned falls with the hours since it was
/// last read, the faster the shorter its own span; one that was never read has
/// lost nothing.
pub const IDLE_HOURS: &'static str =
    "exp(- GREATEST(EXTRACT(EPOCH FROM (NOW() - rw.last_access)) / 3600.0, 0)";

/// What a curated node is ranked by: its likeness to the query, the words in
/// common, its newness, its importance and what decay has left of it, each by
/// its weight and all of them for it, the best first. Of two nodes that differ
/// in one of these alone, the nearer, fitter, newer, weightier or fresher one
/// comes first.
pub proof fn law_ranking_adds_up_its_signals(include_sandbox: bool, dim: usize)
    ensures
        rank_text(include_sandbox, dim) == rank_head() + where_all(rank_conditions(include_sandbox))
            + "\n"@ + LIKENESS@ + embedding_column(dim as int) + LIKENESS_TO_QUERY@ + KEYWORDS@
            + NEWNESS@ + IMPORTANCE@ + DECAY@ + decay_term() + BEST_NODES_FIRST@,
        decay_term() == PINNED_WEIGHT@ + "COALESCE(\n            "@ + IDLE_HOURS@ + "\n                  / COALESCE(rw.s_hours,\n                      CASE rw.decay_class\n                          WHEN 'ephemeral' THEN 48.0\n                          ELSE 336.0\n                      END)),\n            1.0) END"@,
{
    reveal_strlit(
        r#"
ORDER BY (
      $5 * COALESCE(NULLIF(1 - (ce."#,
    );
    reveal_strlit(
        r#" <=> $6), 'NaN'::float8), 0)
    + $7 * ts_rank(to_tsvector('english', n.content), plainto_tsquery('english', $8))
    + $9  * exp(- GREATEST(EXTRACT(EPOCH FROM (NOW() - COALESCE(n.event_time, n.created_at))) / 3600.0, 0) / $10)
    + $11 * COALESCE(n.importance, 0)
    + $12 * "#,
    );
    reveal_strlit(
        r#"
) DESC, n.level DESC, n.created_at DESC
LIMIT $13"#,
    );
    reveal_strlit(
        r#"COALESCE(
            exp(- GREATEST(EXTRACT(EPOCH FROM (NOW() - rw.last_access)) / 3600.0, 0)
                  / COALESCE(rw.s_hours,
                      CASE rw.decay_class
                          WHEN 'ephemeral' THEN 48.0
                          ELSE 336.0
                      END)),
            1.0) END"#,
    );
    reveal_strlit(
        "\n",
    );
    reveal_strlit(
        "ORDER BY (\n      $5 * COALESCE(NULLIF(1 - (ce.",
    );
    reveal_strlit(
        " <=> $6), 'NaN'::float8), 0)",
    );
    reveal_strlit(
        "\n    + $7 * ts_rank(to_tsvector('english', n.content), plainto_tsquery('english', $8))",
    );
    reveal_strlit(
        "\n    + $9  * exp(- GREATEST(EXTRACT(EPOCH FROM (NOW() - COALESCE(n.event_time, n.created_at))) / 3600.0, 0) / $10)",
    );
    reveal_strlit(
        "\n    + $11 * COALESCE(n.importance, 0)",
    );
    reveal_strlit(
        "\n    + $12 * ",
    );
    reveal_strlit(
        "\n) DESC, n.level DESC, n.created_at DESC\nLIMIT $13",
    );
    reveal_strlit(
        "COALESCE(\n            ",
    );
    reveal_strlit(
        "exp(- GREATEST(EXTRACT(EPOCH FROM (NOW() - rw.last_access)) / 3600.0, 0)",
    );
    reveal_strlit(
        "\n                  / COALESCE(rw.s_hours,\n                      CASE rw.decay_class\n                          WHEN 'ephemeral' THEN 48.0\n                          ELSE 336.0\n                      END)),\n            1.0) END",
    );
    let col = embedding_column(dim as int);
    let head = rank_head() + where_all(rank_conditions(include_sandbox));
    assert(rank_blend(dim) =~= "\n"@ + LIKENESS@ + col + LIKENESS_TO_QUERY@ + KEYWORDS@ + NEWNESS@
        + IMPORTANCE@ + DECAY@);
    assert(RANK_FOOT@ =~= BEST_NODES_FIRST@);
    assert(decay_rest() =~= "COALESCE(\n            "@ + IDLE_HOURS@ + "\n                  / COALESCE(rw.s_hours,\n                      CASE rw.decay_class\n                          WHEN 'ephemeral' THEN 48.0\n                          ELSE 336.0\n                      END)),\n            1.0) END"@);
    assert(decay_term() =~= PINNED_WEIGHT@ + "COALESCE(\n            "@ + IDLE_HOURS@ + "\n                  / COALESCE(rw.s_hours,\n                      CASE rw.decay_class\n                          WHEN 'ephemeral' THEN 48.0\n                          ELSE 336.0\n                      END)),\n            1.0) END"@);
    assert(rank_text(include_sandbox, dim) =~= head + "\n"@ + LIKENESS@ + col + LIKENESS_TO_QUERY@
        + KEYWORDS@ + NEWNESS@ + IMPORTANCE@ + DECAY@ + decay_term() + BEST_NODES_FIRST@);
}

/// How a record is found by direct search: seven tenths by its likeness to the
/// query, three tenths by the words in common, the best first. A reference has
/// its bias besides.
pub const NEARNESS: &'static str = "0.7 * COALESCE(NULLIF(1 - (e.";

pub const WORDS: &'static str =
    "\n    + 0.3 * ts_rank(r.content_tsv, plainto_tsquery('english', $7))";

pub const BEST_RECORDS_FIRST: &'static str = "\n) DESC, r.event_time DESC\nLIMIT $8";

/// Direct search and the search for references rank by likeness and words.
pub proof fn law_direct_search_ranks_by_likeness_and_words(include_sandbox: bool, dim: usize)
    ensures
        backstop_text(include_sandbox, dim) == backstop_head() + where_all(
            backstop_conditions(include_sandbox),
        ) + "\nORDER BY (\n    "@ + NEARNESS@ + embedding_column(dim as int) + LIKENESS_TO_QUERY@ + WORDS@
            + BEST_RECORDS_FIRST@,
        references_text(include_sandbox, dim) == references_head() + where_all(
            references_conditions(include_sandbox),
        ) + "\nORDER BY (\n    $9\n    + "@ + NEARNESS@ + embedding_column(dim as int) + LIKENESS_TO_QUERY@ + WORDS@
            + BEST_RECORDS_FIRST@,
{
    reveal_strlit(
        r#"
ORDER BY (
    $9
    + 0.7 * COALESCE(NULLIF(1 - (e."#,
    );
    reveal_strlit(
        r#" <=> $6), 'NaN'::float8), 0)
    + 0.3 * ts_rank(r.content_tsv, plainto_tsquery('english', $7))
) DESC, r.event_time DESC
LIMIT $8"#,
    );
    reveal_strlit(
        r#"
ORDER BY (
    0.7 * COALESCE(NULLIF(1 - (e."#,
    );
    reveal_strlit(
        "\nORDER BY (\n    $9\n    + ",
    );
    reveal_strlit(
        "\nORDER BY (\n    ",
    );
    reveal_strlit(
        "0.7 * COALESCE(NULLIF(1 - (e.",
    );
    reveal_strlit(
        " <=> $6), 'NaN'::float8), 0)",
    );
    reveal_strlit(
        "\n    + 0.3 * ts_rank(r.content_tsv, plainto_tsquery('english', $7))",
    );
    reveal_strlit(
        "\n) DESC, r.event_time DESC\nLIMIT $8",
    );
    let col = embedding_column(dim as int);
    assert(backstop_text(include_sandbox, dim) =~= backstop_head() + where_all(
        backstop_conditions(include_sandbox),
    ) + "\nORDER BY (\n    "@ + NEARNESS@ + col + LIKENESS_TO_QUERY@ + WORDS@ + BEST_RECORDS_FIRST@);
    assert(references_text(include_sandbox, dim) =~= references_head() + where_all(
        references_conditions(include_sandbox),
    ) + "\nORDER BY (\n    $9\n    + "@ + NEARNESS@ + col + LIKENESS_TO_QUERY@ + WORDS@ + BEST_RECORDS_FIRST@);
}

/// Across modes, records rank by the words in common, then by the entities, then
/// by their newness, the best first and then the newest.
pub proof fn law_cross_mode_ranks_without_vectors(include_sandbox: bool)
    ensures
        cross_mode_text(include_sandbox) == cross_mode_head() + where_all(
            cross_mode_conditions(include_sandbox),
        ) + "\nORDER BY (\n    0.5 * ts_rank(r.content_tsv, plainto_tsquery('english', $1))"@ + "\n  + 0.3 * LEAST(COALESCE(ent.hits, 0) / 3.0, 1.0)"@ + "\n  + 0.2 * exp(- GREATEST(EXTRACT(EPOCH FROM (NOW() - r.event_time)) / 3600.0, 0) / "@ + "720"@ + ")\n) DESC, r.event_time DESC\nLIMIT $6"@,
{
    reveal_strlit(
        r#"
ORDER BY (
    0.5 * ts_rank(r.content_tsv, plainto_tsquery('english', $1))
  + 0.3 * LEAST(COALESCE(ent.hits, 0) / 3.0, 1.0)
  + 0.2 * exp(- GREATEST(EXTRACT(EPOCH FROM (NOW() - r.event_time)) / 3600.0, 0) / "#,
    );
    reveal_strlit(
        r#")
) DESC, r.event_time DESC
LIMIT $6"#,
    );
    reveal_strlit(
        "\nORDER BY (\n    0.5 * ts_rank(r.content_tsv, plainto_tsquery('english', $1))",
    );
    reveal_strlit(
        "\n  + 0.3 * LEAST(COALESCE(ent.hits, 0) / 3.0, 1.0)",
    );
    reveal_strlit(
        "\n  + 0.2 * exp(- GREATEST(EXTRACT(EPOCH FROM (NOW() - r.event_time)) / 3600.0, 0) / ",
    );
    reveal_strlit(
        ")\n) DESC, r.event_time DESC\nLIMIT $6",
    );
    assert(cross_mode_text(include_sandbox) =~= cross_mode_head() + where_all(
        cross_mode_conditions(include_sandbox),
    ) + "\nORDER BY (\n    0.5 * ts_rank(r.content_tsv, plainto_tsquery('english', $1))"@ + "\n  + 0.3 * LEAST(COALESCE(ent.hits, 0) / 3.0, 1.0)"@ + "\n  + 0.2 * exp(- GREATEST(EXTRACT(EPOCH FROM (NOW() - r.event_time)) / 3600.0, 0) / "@ + "720"@ + ")\n) DESC, r.event_time DESC\nLIMIT $6"@);
}

/// Whether a text ends with another.
pub open spec fn closes_with(s: Seq<char>, t: Seq<char>) -> bool {
    t.len() <= s.len() && s.skip(s.len() - t.len()) == t
}

proof fn lemma_closes_with(s: Seq<char>, t: Seq<char>)
    ensures
        closes_with(s + t, t),
{
    assert((s + t).skip(s.len() as int) =~= t);
}

/// Reads without a query give the newest first and keep to their limit; the
/// nodes of a level come oldest first, and so does a chain.
pub proof fn law_reads_without_a_query_follow_time(include_sandbox: bool)
    ensures
        closes_with(query_text(), "\nORDER BY event_time DESC\nLIMIT $8"@),
        closes_with(recent_text(include_sandbox), "\nORDER BY event_time DESC\nLIMIT $5"@),
        closes_with(level_text(), "\nORDER BY n.created_at ASC\nLIMIT $5"@),
        closes_with(lineage_text(), "\nORDER BY ingest_time ASC"@),
        closes_with(expand_text(), "\nORDER BY r.event_time DESC\nLIMIT $2"@),
{
    reveal_strlit(
        r#"
ORDER BY event_time DESC
LIMIT $8"#,
    );
    reveal_strlit(
        r#"
ORDER BY event_time DESC
LIMIT $5"#,
    );
    reveal_strlit(
        r#"
ORDER BY n.created_at ASC
LIMIT $5"#,
    );
    reveal_strlit(
        r#" FROM fwd
) u
ORDER BY ingest_time ASC"#,
    );
    reveal_strlit(
        r#"WITH RECURSIVE tree AS (
    SELECT $1::uuid AS id
    UNION
    SELECT e.to_id
    FROM curated_edges e
    JOIN tree t ON e.from_id = t.id AND e.kind = 'summarizes'
)
SELECT src.to_id
FROM (
    SELECT DISTINCT df.to_id
    FROM tree t
    JOIN curated_edges df ON df.from_id = t.id AND df.kind = 'derived_from'
) src
JOIN raw_records r ON r.id = src.to_id
ORDER BY r.event_time DESC
LIMIT $2"#,
    );
    reveal_strlit("\nORDER BY event_time DESC\nLIMIT $8");
    reveal_strlit("\nORDER BY event_time DESC\nLIMIT $5");
    reveal_strlit("\nORDER BY n.created_at ASC\nLIMIT $5");
    reveal_strlit("\nORDER BY ingest_time ASC");
    reveal_strlit("\nORDER BY r.event_time DESC\nLIMIT $2");
    assert(query_order() =~= "\nORDER BY event_time DESC\nLIMIT $8"@);
    assert(recent_order() =~= "\nORDER BY event_time DESC\nLIMIT $5"@);
    assert(level_order() =~= "\nORDER BY n.created_at ASC\nLIMIT $5"@);
    lemma_closes_with(query_head() + where_all(query_conditions()), query_order());
    lemma_closes_with(
        recent_head() + where_all(recent_conditions(include_sandbox)),
        recent_order(),
    );
    lemma_closes_with(level_head() + where_all(level_conditions()), level_order());
    let chain = "\nORDER BY ingest_time ASC"@;
    let whole = lineage_text();
    assert(whole.skip(whole.len() - chain.len()) =~= chain);
    let below = "\nORDER BY r.event_time DESC\nLIMIT $2"@;
    assert(expand_text().skip(expand_text().len() - below.len()) =~= below);
}

/// What a request asks for binds every read: its project, its container, its
/// register, and for a structured read its type and its span of time.
pub proof fn law_reads_keep_to_what_was_asked(include_sandbox: bool)
    ensures
        query_conditions().contains("($2::text IS NULL OR project_id = $2)"@),
        query_conditions().contains("($3::text IS NULL OR container_id = $3)"@),
        query_conditions().contains("($4::text IS NULL OR mode = $4)"@),
        query_conditions().contains("($5::text IS NULL OR type = $5)"@),
        query_conditions().contains("($6::timestamptz IS NULL OR event_time >= $6)"@),
        query_conditions().contains("($7::timestamptz IS NULL OR event_time <= $7)"@),
        query_conditions().len() == 8,
        recent_conditions(include_sandbox).contains("($2::text IS NULL OR project_id = $2)"@),
        recent_conditions(include_sandbox).contains("($3::text IS NULL OR container_id = $3)"@),
        recent_conditions(include_sandbox).contains("($4::text IS NULL OR mode = $4)"@),
        recent_conditions(include_sandbox).len() == 7,
        cross_mode_conditions(include_sandbox).contains("($3::text IS NULL OR r.project_id = $3)"@),
        cross_mode_conditions(include_sandbox).contains("($4::text IS NULL OR r.container_id = $4)"@),
        cross_mode_conditions(include_sandbox).len() == 6,
        references_conditions(include_sandbox).contains("r.type = 'state_object'"@),
        references_conditions(include_sandbox).contains("($3::text IS NULL OR r.project_id = $3)"@),
        references_conditions(include_sandbox).contains("($4::text IS NULL OR r.container_id = $4)"@),
        references_conditions(include_sandbox).contains("r.mode IS NOT DISTINCT FROM $5"@),
        references_conditions(include_sandbox).len() == 8,
        backstop_conditions(include_sandbox).contains("($3::text IS NULL OR r.project_id = $3)"@),
        backstop_conditions(include_sandbox).contains("($4::text IS NULL OR r.container_id = $4)"@),
        backstop_conditions(include_sandbox).contains("r.mode IS NOT DISTINCT FROM $5"@),
        backstop_conditions(include_sandbox).contains("NOT (r.id = ANY($9))"@),
        backstop_conditions(include_sandbox).len() == 8,
        rank_conditions(include_sandbox).contains("($3::text IS NULL OR n.project_id = $3)"@),
        rank_conditions(include_sandbox).contains("n.mode IS NOT DISTINCT FROM $4"@),
        rank_conditions(include_sandbox).len() == 6,
        by_id_conditions(include_sandbox).contains("id = ANY($2)"@),
        by_id_conditions(include_sandbox).len() == 5,
        level_conditions().contains("n.level = $1"@),
        level_conditions().contains("n.project_id IS NOT DISTINCT FROM $3"@),
        level_conditions().contains("n.mode IS NOT DISTINCT FROM $4"@),
        level_conditions().len() == 5,
{
    let query = query_conditions();
    assert(query[1] == "($2::text IS NULL OR project_id = $2)"@);
    assert(query[2] == "($3::text IS NULL OR container_id = $3)"@);
    assert(query[3] == "($4::text IS NULL OR mode = $4)"@);
    assert(query[4] == "($5::text IS NULL OR type = $5)"@);
    assert(query[5] == "($6::timestamptz IS NULL OR event_time >= $6)"@);
    assert(query[6] == "($7::timestamptz IS NULL OR event_time <= $7)"@);
    let recent = recent_conditions(include_sandbox);
    assert(recent[1] == "($2::text IS NULL OR project_id = $2)"@);
    assert(recent[3] == "($3::text IS NULL OR container_id = $3)"@);
    assert(recent[4] == "($4::text IS NULL OR mode = $4)"@);
    let cross_mode = cross_mode_conditions(include_sandbox);
    assert(cross_mode[1] == "($3::text IS NULL OR r.project_id = $3)"@);
    assert(cross_mode[3] == "($4::text IS NULL OR r.container_id = $4)"@);
    let references = references_conditions(include_sandbox);
    assert(references[1] == "r.type = 'state_object'"@);
    assert(references[2] == "($3::text IS NULL OR r.project_id = $3)"@);
    assert(references[4] == "($4::text IS NULL OR r.container_id = $4)"@);
    assert(references[6] == "r.mode IS NOT DISTINCT FROM $5"@);
    let backstop = backstop_conditions(include_sandbox);
    assert(backstop[1] == "($3::text IS NULL OR r.project_id = $3)"@);
    assert(backstop[3] == "($4::text IS NULL OR r.container_id = $4)"@);
    assert(backstop[5] == "r.mode IS NOT DISTINCT FROM $5"@);
    assert(backstop[7] == "NOT (r.id = ANY($9))"@);
    let rank = rank_conditions(include_sandbox);
    assert(rank[1] == "($3::text IS NULL OR n.project_id = $3)"@);
    assert(rank[3] == "n.mode IS NOT DISTINCT FROM $4"@);
    let by_id = by_id_conditions(include_sandbox);
    assert(by_id[1] == "id = ANY($2)"@);
    let level = level_conditions();
    assert(level[0] == "n.level = $1"@);
    assert(level[2] == "n.project_id IS NOT DISTINCT FROM $3"@);
    assert(level[3] == "n.mode IS NOT DISTINCT FROM $4"@);
}

/// The conditions that guard a read say what they are for: the owner is the
/// caller, nothing of the caller's takes the record's place, the container is
/// another one, and the sandbox is left out where neither a project nor the
/// sandbox was asked for.
pub proof fn law_guards_say_what_they_are_for(
    column: Seq<char>,
    bound: Seq<char>,
    include_sandbox: bool,
)
    ensures
        owner_clause(column, bound) == column + seq![' ', '=', ' '] + bound,
        current_clause(column, bound) == column + " NOT IN (SELECT supersedes"@
            + " FROM raw_records WHERE supersedes IS NOT NULL"@ + " AND user_id = "@ + bound + ")"@,
        excluded_clause(bound, column) == "("@ + bound + "::text IS NULL"@ + " OR "@ + column
            + " IS DISTINCT FROM "@ + bound + ")"@,
        sandbox_clause(bound, column, include_sandbox) == "("@ + bound + "::text IS NOT NULL"@ + (
        if include_sandbox {
            " OR TRUE OR "@
        } else {
            " OR FALSE OR "@
        }) + column + " IS DISTINCT FROM 'playground'"@ + ")"@,
{
    reveal_strlit(" = ");
    reveal_strlit(
        " NOT IN (SELECT supersedes FROM raw_records WHERE supersedes IS NOT NULL AND user_id = ",
    );
    reveal_strlit(" NOT IN (SELECT supersedes");
    reveal_strlit(" FROM raw_records WHERE supersedes IS NOT NULL");
    reveal_strlit(" AND user_id = ");
    reveal_strlit("::text IS NULL OR ");
    reveal_strlit("::text IS NULL");
    reveal_strlit(" OR ");
    reveal_strlit("::text IS NOT NULL OR ");
    reveal_strlit("::text IS NOT NULL");
    reveal_strlit("TRUE");
    reveal_strlit("FALSE");
    reveal_strlit(" OR TRUE OR ");
    reveal_strlit(" OR FALSE OR ");
    reveal_strlit(" IS DISTINCT FROM '");
    reveal_strlit("playground");
    reveal_strlit("')");
    reveal_strlit(")");
    reveal_strlit(" IS DISTINCT FROM 'playground'");
    assert(owner_clause(column, bound) =~= column + seq![' ', '=', ' '] + bound);
    assert(current_clause(column, bound) =~= column + " NOT IN (SELECT supersedes"@
        + " FROM raw_records WHERE supersedes IS NOT NULL"@ + " AND user_id = "@ + bound + ")"@);
    assert(excluded_clause(bound, column) =~= "("@ + bound + "::text IS NULL"@ + " OR "@ + column
        + " IS DISTINCT FROM "@ + bound + ")"@);
    assert(sandbox_clause(bound, column, include_sandbox) =~= "("@ + bound + "::text IS NOT NULL"@
        + (if include_sandbox {
        " OR TRUE OR "@
    } else {
        " OR FALSE OR "@
    }) + column + " IS DISTINCT FROM 'playground'"@ + ")"@);
}

/// Where a statement reads from more than one table, each row is joined with what
/// is its own: a node with its vector by the model in use and with its weight, a
/// record with its vector, its entities with itself; and a record is stored value
/// by value, each in its column.
pub proof fn law_rows_are_joined_with_their_own()
    ensures
        has_text(rank_head(), "FROM curated_nodes n"@),
        has_text(rank_head(), "LEFT JOIN curated_embeddings ce ON ce.node_id = n.id AND ce.model = $1"@),
        has_text(rank_head(), "LEFT JOIN ref_weights rw ON rw.ref_id = n.id"@),
        has_text(references_head(), "FROM raw_records r"@),
        has_text(references_head(), "LEFT JOIN raw_embeddings e ON e.record_id = r.id AND e.model = $1"@),
        has_text(backstop_head(), "FROM raw_records r"@),
        has_text(backstop_head(), "LEFT JOIN raw_embeddings e ON e.record_id = r.id AND e.model = $1"@),
        has_text(cross_mode_head(), "FROM raw_records r"@),
        has_text(cross_mode_head(), "WHERE user_id = $2 AND entity = ANY($5)"@),
        has_text(cross_mode_head(), "ent ON ent.record_id = r.id"@),
        has_text(level_head(), "SELECT n.id, n.content, n.importance"@),
        has_text(level_head(), "FROM curated_nodes n"@),
        has_text(insert_head(), "(id, type, content, event_time, source, source_ref,\n     user_id, project_id, container_id, mode, importance, payload, supersedes)"@),
        has_text(insert_head(), "VALUES ($1,$2,$3,$4,$5,$6,$7,$8,$9,$10,$11,$12,$13)"@),
        has_text(expand_text(), "JOIN tree t ON e.from_id = t.id AND e.kind = 'summarizes'"@),
        has_text(expand_text(), "JOIN curated_edges df ON df.from_id = t.id AND df.kind = 'derived_from'"@),
        has_text(expand_text(), "JOIN raw_records r ON r.id = src.to_id"@),
{
    reveal_strlit(
        r#"SELECT n.id, n.level
FROM curated_nodes n
LEFT JOIN curated_embeddings ce ON ce.node_id = n.id AND ce.model = $1
LEFT JOIN ref_weights rw ON rw.ref_id = n.id
"#,
    );
    reveal_strlit(
        "FROM curated_nodes n",
    );
    reveal_strlit(
        "LEFT JOIN curated_embeddings ce ON ce.node_id = n.id AND ce.model = $1",
    );
    reveal_strlit(
        "LEFT JOIN ref_weights rw ON rw.ref_id = n.id",
    );
    reveal_strlit(
        r#" FROM raw_records r
LEFT JOIN raw_embeddings e ON e.record_id = r.id AND e.model = $1
"#,
    );
    reveal_strlit(
        "FROM raw_records r",
    );
    reveal_strlit(
        "LEFT JOIN raw_embeddings e ON e.record_id = r.id AND e.model = $1",
    );
    reveal_strlit(
        r#" FROM raw_records r
LEFT JOIN (
    SELECT record_id, COUNT(*) AS hits
    FROM entity_index
    WHERE user_id = $2 AND entity = ANY($5)
    GROUP BY record_id
) ent ON ent.record_id = r.id
"#,
    );
    reveal_strlit(
        "WHERE user_id = $2 AND entity = ANY($5)",
    );
    reveal_strlit(
        "ent ON ent.record_id = r.id",
    );
    reveal_strlit(
        r#"SELECT n.id, n.content, n.importance
FROM curated_nodes n
"#,
    );
    reveal_strlit(
        "SELECT n.id, n.content, n.importance",
    );
    reveal_strlit(
        r#"INSERT INTO raw_records
    (id, type, content, event_time, source, source_ref,
     user_id, project_id, container_id, mode, importance, payload, supersedes)
VALUES ($1,$2,$3,$4,$5,$6,$7,$8,$9,$10,$11,$12,$13)
"#,
    );
    reveal_strlit(
        "(id, type, content, event_time, source, source_ref,\n     user_id, project_id, container_id, mode, importance, payload, supersedes)",
    );
    reveal_strlit(
        "VALUES ($1,$2,$3,$4,$5,$6,$7,$8,$9,$10,$11,$12,$13)",
    );
    reveal_strlit(
        r#"WITH RECURSIVE tree AS (
    SELECT $1::uuid AS id
    UNION
    SELECT e.to_id
    FROM curated_edges e
    JOIN tree t ON e.from_id = t.id AND e.kind = 'summarizes'
)
SELECT src.to_id
FROM (
    SELECT DISTINCT df.to_id
    FROM tree t
    JOIN curated_edges df ON df.from_id = t.id AND df.kind = 'derived_from'
) src
JOIN raw_records r ON r.id = src.to_id
ORDER BY r.event_time DESC
LIMIT $2"#,
    );
    reveal_strlit(
        "JOIN tree t ON e.from_id = t.id AND e.kind = 'summarizes'",
    );
    reveal_strlit(
        "JOIN curated_edges df ON df.from_id = t.id AND df.kind = 'derived_from'",
    );
    reveal_strlit(
        "JOIN raw_records r ON r.id = src.to_id",
    );
    lemma_stands_in(Seq::empty(), rank_head(), "FROM curated_nodes n"@, 21);
    assert(Seq::<char>::empty() + rank_head() =~= rank_head());
    lemma_stands_in(Seq::empty(), rank_head(), "LEFT JOIN curated_embeddings ce ON ce.node_id = n.id AND ce.model = $1"@, 42);
    assert(Seq::<char>::empty() + rank_head() =~= rank_head());
    lemma_stands_in(Seq::empty(), rank_head(), "LEFT JOIN ref_weights rw ON rw.ref_id = n.id"@, 113);
    assert(Seq::<char>::empty() + rank_head() =~= rank_head());
    lemma_stands_in("SELECT "@ + COLS_R@, r#" FROM raw_records r
LEFT JOIN raw_embeddings e ON e.record_id = r.id AND e.model = $1
"#@, "FROM raw_records r"@, 1);
    lemma_stands_in("SELECT "@ + COLS_R@, r#" FROM raw_records r
LEFT JOIN raw_embeddings e ON e.record_id = r.id AND e.model = $1
"#@, "LEFT JOIN raw_embeddings e ON e.record_id = r.id AND e.model = $1"@, 20);
    lemma_stands_in("SELECT "@ + COLS_R@, r#" FROM raw_records r
LEFT JOIN raw_embeddings e ON e.record_id = r.id AND e.model = $1
"#@, "FROM raw_records r"@, 1);
    lemma_stands_in("SELECT "@ + COLS_R@, r#" FROM raw_records r
LEFT JOIN raw_embeddings e ON e.record_id = r.id AND e.model = $1
"#@, "LEFT JOIN raw_embeddings e ON e.record_id = r.id AND e.model = $1"@, 20);
    lemma_stands_in("SELECT "@ + COLS_R@, r#" FROM raw_records r
LEFT JOIN (
    SELECT record_id, COUNT(*) AS hits
    FROM entity_index
    WHERE user_id = $2 AND entity = ANY($5)
    GROUP BY record_id
) ent ON ent.record_id = r.id
"#@, "FROM raw_records r"@, 1);
    lemma_stands_in("SELECT "@ + COLS_R@, r#" FROM raw_records r
LEFT JOIN (
    SELECT record_id, COUNT(*) AS hits
    FROM entity_index
    WHERE user_id = $2 AND entity = ANY($5)
    GROUP BY record_id
) ent ON ent.record_id = r.id
"#@, "WHERE user_id = $2 AND entity = ANY($5)"@, 97);
    lemma_stands_in("SELECT "@ + COLS_R@, r#" FROM raw_records r
LEFT JOIN (
    SELECT record_id, COUNT(*) AS hits
    FROM entity_index
    WHERE user_id = $2 AND entity = ANY($5)
    GROUP BY record_id
) ent ON ent.record_id = r.id
"#@, "ent ON ent.record_id = r.id"@, 162);
    lemma_stands_in(Seq::empty(), level_head(), "SELECT n.id, n.content, n.importance"@, 0);
    assert(Seq::<char>::empty() + level_head() =~= level_head());
    lemma_stands_in(Seq::empty(), level_head(), "FROM curated_nodes n"@, 37);
    assert(Seq::<char>::empty() + level_head() =~= level_head());
    lemma_stands_in(Seq::empty(), insert_head(), "(id, type, content, event_time, source, source_ref,\n     user_id, project_id, container_id, mode, importance, payload, supersedes)"@, 28);
    assert(Seq::<char>::empty() + insert_head() =~= insert_head());
    lemma_stands_in(Seq::empty(), insert_head(), "VALUES ($1,$2,$3,$4,$5,$6,$7,$8,$9,$10,$11,$12,$13)"@, 159);
    assert(Seq::<char>::empty() + insert_head() =~= insert_head());
    lemma_stands_in(Seq::empty(), expand_text(), "JOIN tree t ON e.from_id = t.id AND e.kind = 'summarizes'"@, 109);
    assert(Seq::<char>::empty() + expand_text() =~= expand_text());
    lemma_stands_in(Seq::empty(), expand_text(), "JOIN curated_edges df ON df.from_id = t.id AND df.kind = 'derived_from'"@, 242);
    assert(Seq::<char>::empty() + expand_text() =~= expand_text());
    lemma_stands_in(Seq::empty(), expand_text(), "JOIN raw_records r ON r.id = src.to_id"@, 320);
    assert(Seq::<char>::empty() + expand_text() =~= expand_text());
}

proof fn lemma_stands_in(head: Seq<char>, s: Seq<char>, t: Seq<char>, k: int)
    requires
        0 <= k && k + t.len() <= s.len(),
        forall|i: int| 0 <= i < t.len() ==> s[k + i] == #[trigger] t[i],
    ensures
        has_text(head + s, t),
{
    let n = head.len() + k;
    assert((head + s).subrange(n, n + t.len()) =~= t);
    assert(occurs_at(head + s, t, n));
}

} // verus!
