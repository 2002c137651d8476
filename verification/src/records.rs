//! The raw-records door: typed records, immutable and append-only, and the
//! assembly of context from them.
use vstd::prelude::*;
use vstd::string::*;

use crate::error::{AppError, ErrorView};
use crate::ids::{id_text, write_id};
use crate::json::{get_text, member_text};
use crate::text::{
    ascii_lower, char_count, contains_words, decimal, decimal_text, has_words, lowercase,
    number_of, opt_text, parse_number, same_ignoring_ascii_case, same_text, stands_alone, texts,
    to_chars, to_lowercase,
};
use crate::time::Timestamp;

verus! {

/// One stored record. `importance` holds the bits of the stored number and
/// `payload` the text of the stored document.
#[derive(Debug, Clone)]
pub struct RawRecordRow {
    pub id: u128,
    pub record_type: String,
    pub content: String,
    pub content_hash: String,
    pub event_time: Timestamp,
    pub ingest_time: Timestamp,
    pub source: String,
    pub source_ref: Option<String>,
    pub user_id: String,
    pub project_id: Option<String>,
    pub container_id: Option<String>,
    pub mode: Option<String>,
    pub importance: Option<u32>,
    pub supersedes: Option<u128>,
    pub payload: Option<String>,
}

/// The types that a record can have.
pub open spec fn is_record_type(t: Seq<char>) -> bool {
    t == "conversation"@ || t == "document"@ || t == "state_object"@
}

/// Accepts the types that have a processing rule.
pub fn validate_type(t: &str) -> (r: Result<(), AppError>)
    ensures
        match r {
            Ok(_) => is_record_type(t@),
            Err(e) => !is_record_type(t@) && e@ == ErrorView::BadRequest("unknown type: "@ + t@),
        },
{
    if same_text(t, "conversation") || same_text(t, "document") || same_text(t, "state_object") {
        Ok(())
    } else {
        let mut message = String::from_str("unknown type: ");
        message.append(t);
        Err(AppError::BadRequest(message))
    }
}

/// The column of a vector dimension; the default one where there is none of
/// its own.
pub open spec fn embedding_column(dim: int) -> Seq<char> {
    if dim == 768 {
        "embedding_768"@
    } else if dim == 1024 {
        "embedding_1024"@
    } else {
        "embedding"@
    }
}

/// The column that holds vectors of this dimension.
pub fn embedding_col_for_dim(dim: usize) -> (r: &'static str)
    ensures
        r@ == embedding_column(dim as int),
{
    if dim == 768 {
        "embedding_768"
    } else if dim == 1024 {
        "embedding_1024"
    } else {
        "embedding"
    }
}

// ---------------------------------------------------------------------------
// Context assembly: the request
// ---------------------------------------------------------------------------
/// A request for context.
#[derive(Debug, Clone)]
pub struct AssembleRequest {
    pub project_id: Option<String>,
    pub include_sandbox: bool,
    pub container_id: Option<String>,
    pub mode: Option<String>,
    pub modes: Option<Vec<String>>,
    pub query: Option<String>,
    pub limit: Option<i64>,
    pub exclude_container_id: Option<String>,
}

/// An [`AssembleRequest`] over character sequences.
#[verifier::ext_equal]
pub struct AssembleRequestView {
    pub project_id: Option<Seq<char>>,
    pub include_sandbox: bool,
    pub container_id: Option<Seq<char>>,
    pub mode: Option<Seq<char>>,
    pub modes: Option<Seq<Seq<char>>>,
    pub query: Option<Seq<char>>,
    pub limit: Option<i64>,
    pub exclude_container_id: Option<Seq<char>>,
}

impl View for AssembleRequest {
    type V = AssembleRequestView;

    open spec fn view(&self) -> AssembleRequestView {
        AssembleRequestView {
            project_id: opt_text(self.project_id),
            include_sandbox: self.include_sandbox,
            container_id: opt_text(self.container_id),
            mode: opt_text(self.mode),
            modes: match self.modes {
                Some(ms) => Some(texts(ms@)),
                None => None,
            },
            query: opt_text(self.query),
            limit: self.limit,
            exclude_container_id: opt_text(self.exclude_container_id),
        }
    }
}

/// The modes that a request names: the single one, and those of the list.
pub open spec fn modes_named(req: AssembleRequestView) -> Seq<Seq<char>> {
    (match req.mode {
        Some(m) => seq![m],
        None => Seq::empty(),
    }) + (match req.modes {
        Some(ms) => ms,
        None => Seq::empty(),
    })
}

/// Some name is `all`, in whatever case, or two names differ.
pub open spec fn spans_modes(names: Seq<Seq<char>>) -> bool {
    ||| exists|i: int|
        0 <= i < names.len() && ascii_lower(#[trigger] names[i]) == ascii_lower("all"@)
    ||| exists|i: int, j: int|
        0 <= i < j < names.len() && #[trigger] names[i] != #[trigger] names[j]
}

/// Whether the request spans modes: it asks for `all` or names more than one.
pub fn is_cross_mode(req: &AssembleRequest) -> (r: bool)
    ensures
        r == spans_modes(modes_named(req@)),
{
    let ghost named = modes_named(req@);
    let mut names: Vec<&str> = Vec::new();
    if let Some(m) = &req.mode {
        names.push(m.as_str());
    }
    if let Some(ms) = &req.modes {
        let ghost first = names@.map_values(|s: &str| s@);
        let mut k: usize = 0;
        while k < ms.len()
            invariant
                k <= ms@.len(),
                first.len() <= 1,
                names@.len() == first.len() + k,
                forall|j: int| 0 <= j < first.len() ==> (#[trigger] names@[j])@ == first[j],
                forall|j: int| 0 <= j < k ==> names@[first.len() + j]@ == (#[trigger] ms@[j])@,
            decreases ms@.len() - k,
        {
            names.push(ms[k].as_str());
            k += 1;
        }
        assert(names@.map_values(|s: &str| s@) =~= named) by {
            assert forall|j: int| 0 <= j < named.len() implies (#[trigger] names@[j])@ == named[j] by {
                if j >= first.len() {
                    assert(ms@[j - first.len()]@ == named[j]);
                }
            }
        }
    }
    assert(names@.map_values(|s: &str| s@) =~= named);
    assert(forall|j: int| 0 <= j < names@.len() ==> (#[trigger] names@[j])@ == named[j]);
    let mut i: usize = 0;
    while i < names.len()
        invariant
            i <= names@.len() == named.len(),
            named == modes_named(req@),
            forall|j: int| 0 <= j < names@.len() ==> (#[trigger] names@[j])@ == named[j],
            forall|j: int|
                0 <= j < i ==> ascii_lower(#[trigger] named[j]) != ascii_lower("all"@),
            forall|j: int| 0 <= j < i ==> #[trigger] named[j] == named[0],
        decreases names@.len() - i,
    {
        if same_ignoring_ascii_case(names[i], "all") {
            assert(ascii_lower(named[i as int]) == ascii_lower("all"@));
            return true;
        }
        if i > 0 && !same_text(names[0], names[i]) {
            assert(named[0] != named[i as int]);
            return true;
        }
        i += 1;
    }
    false
}

/// The words that mark a question about the present.
pub open spec fn present_cues() -> Seq<Seq<char>> {
    seq![
        "current"@,
        "currently"@,
        "right now"@,
        "now"@,
        "working on"@,
        "what am i"@,
        "what's on"@,
        "whats on"@,
        "what is on"@,
        "todo"@,
        "to-do"@,
        "to do"@,
        "status"@,
        "state of"@,
        "active"@,
        "in progress"@,
        "latest"@,
    ]
}

/// A lower-case text holds one of the cues, as whole words.
pub open spec fn holds_cue(lowered: Seq<char>) -> bool {
    exists|k: int, at: int|
        0 <= k < present_cues().len() && #[trigger] stands_alone(lowered, present_cues()[k], at)
}

/// The query, in lower case, holds one of the cues.
pub open spec fn asks_about_now(query: Seq<char>) -> bool {
    holds_cue(lowercase(query))
}

/// Whether a lower-case text holds one of the cues, as whole words: a cue that
/// is only a part of another word does not count.
pub fn has_present_cue(lowered: &str) -> (r: bool)
    ensures
        r == holds_cue(lowered@),
{
    let chars = to_chars(lowered);
    let cues: [&str; 17] = [
        "current",
        "currently",
        "right now",
        "now",
        "working on",
        "what am i",
        "what's on",
        "whats on",
        "what is on",
        "todo",
        "to-do",
        "to do",
        "status",
        "state of",
        "active",
        "in progress",
        "latest",
    ];
    let ghost all = present_cues();
    assert(cues@.map_values(|s: &str| s@) =~= all);
    assert(forall|j: int| 0 <= j < 17 ==> (#[trigger] cues@[j])@ == all[j]);
    let mut k: usize = 0;
    while k < 17
        invariant
            k <= 17,
            all == present_cues(),
            all.len() == 17,
            chars@ == lowered@,
            forall|j: int| 0 <= j < 17 ==> (#[trigger] cues@[j])@ == all[j],
            forall|j: int, at: int|
                0 <= j < k ==> !#[trigger] stands_alone(lowered@, all[j], at),
        decreases 17 - k,
    {
        if contains_words(&chars, cues[k]) {
            let ghost at = choose|at: int| #[trigger] stands_alone(lowered@, all[k as int], at);
            assert(stands_alone(lowered@, all[k as int], at));
            return true;
        }
        assert forall|j: int, at: int| 0 <= j < k + 1 implies !#[trigger] stands_alone(
            lowered@,
            all[j],
            at,
        ) by {
            if j == k {
                assert(!has_words(lowered@, all[k as int]));
            }
        }
        k += 1;
    }
    false
}

/// Whether a query asks about the present state of things.
pub fn is_present_tense(query: &str) -> (r: bool)
    ensures
        r == asks_about_now(query@),
{
    let lowered = to_lowercase(query);
    has_present_cue(lowered.as_str())
}

// ---------------------------------------------------------------------------
// Context assembly: the limits on an answer
// ---------------------------------------------------------------------------
/// How many characters the records hold together.
pub open spec fn total_chars(rows: Seq<RawRecordRow>) -> nat
    decreases rows.len(),
{
    if rows.len() == 0 {
        0
    } else {
        total_chars(rows.drop_last()) + rows.last().content@.len()
    }
}

/// The records up to and with place `i` are too long together.
pub open spec fn over_budget(rows: Seq<RawRecordRow>, i: int, budget: usize) -> bool {
    budget < usize::MAX && total_chars(rows.take(i + 1)) > budget
}

/// The first place from `i` on, but for the very first, at which the budget is
/// exceeded; the length where there is none.
pub open spec fn kept_from(rows: Seq<RawRecordRow>, budget: usize, i: int) -> int
    decreases rows.len() - i,
{
    if i >= rows.len() {
        rows.len() as int
    } else if i > 0 && over_budget(rows, i, budget) {
        i
    } else {
        kept_from(rows, budget, i + 1)
    }
}

/// How many of the ranked records a budget lets through.
pub open spec fn kept(rows: Seq<RawRecordRow>, budget: usize) -> int {
    kept_from(rows, budget, 0)
}

/// At most `limit` of the records.
pub open spec fn at_most(rows: Seq<RawRecordRow>, limit: int) -> Seq<RawRecordRow> {
    if rows.len() <= limit {
        rows
    } else {
        rows.take(limit)
    }
}

/// The records of an answer: at most `limit`, and of those what the budget
/// lets through.
pub open spec fn clamped(rows: Seq<RawRecordRow>, limit: int, budget: usize) -> Seq<RawRecordRow> {
    let page = at_most(rows, limit);
    page.take(kept(page, budget))
}

/// The sentence that says how much the budget cut off.
pub open spec fn clip_text(keep: int, before: int, budget: int) -> Seq<char> {
    "content clipped to the "@ + decimal(budget as nat) + "-character budget: "@ + decimal(
        keep as nat,
    ) + " of "@ + decimal(before as nat)
        + " ranked records returned (raise FLASHBACK_ASSEMBLE_CHAR_BUDGET to widen)"@
}

/// The warning that goes with [`clamped`].
pub open spec fn clip_warning(rows: Seq<RawRecordRow>, limit: int, budget: usize) -> Option<
    Seq<char>,
> {
    let page = at_most(rows, limit);
    if kept(page, budget) < page.len() {
        Some(clip_text(kept(page, budget), page.len() as int, budget as int))
    } else {
        None
    }
}

/// The first record always survives, and what is kept is in bounds.
pub proof fn lemma_kept(rows: Seq<RawRecordRow>, budget: usize, i: int)
    requires
        0 <= i,
    ensures
        i <= rows.len() ==> i <= kept_from(rows, budget, i) <= rows.len(),
        rows.len() > 0 ==> kept_from(rows, budget, i) >= 1,
        kept_from(rows, budget, i) < rows.len() ==> over_budget(
            rows,
            kept_from(rows, budget, i),
            budget,
        ),
        forall|j: int|
            i <= j < kept_from(rows, budget, i) && 0 < j ==> !#[trigger] over_budget(
                rows,
                j,
                budget,
            ),
    decreases rows.len() - i,
{
    if i < rows.len() && !(i > 0 && over_budget(rows, i, budget)) {
        lemma_kept(rows, budget, i + 1);
    }
}

fn clip_sentence(keep: usize, before: usize, budget: usize) -> (r: String)
    ensures
        r@ == clip_text(keep as int, before as int, budget as int),
{
    let mut out = String::from_str("content clipped to the ");
    out.append(decimal_text(budget as u64).as_str());
    out.append("-character budget: ");
    out.append(decimal_text(keep as u64).as_str());
    out.append(" of ");
    out.append(decimal_text(before as u64).as_str());
    out.append(" ranked records returned (raise FLASHBACK_ASSEMBLE_CHAR_BUDGET to widen)");
    out
}

/// Enforces the record limit and the character budget on a final set, in rank
/// order. Returns a sentence where the budget cut records off.
pub fn clamp_assembled(records: &mut Vec<RawRecordRow>, limit: usize, budget: usize) -> (r: Option<
    String,
>)
    ensures
        final(records)@ == clamped(old(records)@, limit as int, budget),
        opt_text(r) == clip_warning(old(records)@, limit as int, budget),
{
    records.truncate(limit);
    let ghost page = records@;
    assert(page =~= at_most(old(records)@, limit as int));
    let before: usize = records.len();
    let mut used: usize = 0;
    let mut keep: usize = before;
    let mut i: usize = 0;
    let ghost total: nat = 0;
    assert(page.take(0) =~= Seq::empty());
    while i < before
        invariant_except_break
            keep == before,
            kept(page, budget) == kept_from(page, budget, i as int),
            total == total_chars(page.take(i as int)),
            used == if total > usize::MAX { usize::MAX as nat } else { total },
        invariant
            i <= before == page.len(),
            records@ == page,
        ensures
            keep == kept(page, budget),
        decreases before - i,
    {
        let count: usize = char_count(records[i].content.as_str());
        proof {
            assert(page.take(i + 1).drop_last() =~= page.take(i as int));
            total = total + count as nat;
        }
        used = used.saturating_add(count);
        if used > budget && i > 0 {
            keep = i;
            break;
        }
        i += 1;
    }
    proof {
        lemma_kept(page, budget, 0);
    }
    if keep < before {
        records.truncate(keep);
        Some(clip_sentence(keep, before, budget))
    } else {
        assert(page.take(page.len() as int) =~= page);
        None
    }
}

/// Both warnings on one line, or the one there is.
pub open spec fn merged(a: Option<Seq<char>>, b: Option<Seq<char>>) -> Option<Seq<char>> {
    match (a, b) {
        (Some(x), Some(y)) => Some(x + " "@ + y),
        (Some(x), None) => Some(x),
        (None, y) => y,
    }
}

/// Merges a clip warning into a warning line.
pub fn merge_warning(existing: Option<String>, clip: Option<String>) -> (r: Option<String>)
    ensures
        opt_text(r) == merged(opt_text(existing), opt_text(clip)),
{
    match existing {
        Some(a) => match clip {
            Some(b) => {
                let mut line = a;
                line.append(" ");
                line.append(b.as_str());
                Some(line)
            },
            None => Some(a),
        },
        None => clip,
    }
}

/// The characters that an answer may hold where nothing else is set.
pub const DEFAULT_CHAR_BUDGET: usize = 60_000;

/// The budget that a setting asks for: a positive number, or the default.
pub open spec fn budget_of(setting: Option<Seq<char>>) -> usize {
    match setting {
        Some(s) => match number_of(s) {
            Some(n) => if 0 < n <= usize::MAX {
                n as usize
            } else {
                DEFAULT_CHAR_BUDGET
            },
            None => DEFAULT_CHAR_BUDGET,
        },
        None => DEFAULT_CHAR_BUDGET,
    }
}

/// The ceiling on the characters of an answer, from a setting.
pub fn assemble_char_budget(setting: Option<&str>) -> (r: usize)
    ensures
        r == budget_of(
            match setting {
                Some(s) => Some(s@),
                None => None,
            },
        ),
        r > 0,
{
    match setting {
        Some(s) => match parse_number(s) {
            Some(n) => if n > 0 {
                n
            } else {
                DEFAULT_CHAR_BUDGET
            },
            None => DEFAULT_CHAR_BUDGET,
        },
        None => DEFAULT_CHAR_BUDGET,
    }
}

// ---------------------------------------------------------------------------
// Structured reads
// ---------------------------------------------------------------------------
/// How many rows a structured read gives: a hundred, or as many as asked for
/// between one and a thousand.
pub open spec fn rows_wanted(asked: Option<i64>) -> i64 {
    match asked {
        Some(n) => if n < 1 {
            1
        } else if n > 1000 {
            1000
        } else {
            n
        },
        None => 100,
    }
}

/// How many rows a structured read gives.
pub fn query_limit(asked: Option<i64>) -> (r: i64)
    ensures
        r == rows_wanted(asked),
        1 <= r <= 1000,
{
    match asked {
        Some(n) => if n < 1 {
            1
        } else if n > 1000 {
            1000
        } else {
            n
        },
        None => 100,
    }
}

fn no_record(id: u128) -> (r: AppError)
    ensures
        r@ == ErrorView::NotFound("record "@ + id_text(id)),
{
    let mut message = String::from_str("record ");
    message.append(write_id(id).as_str());
    AppError::NotFound(message)
}

/// What a user is shown of a record: all of it or nothing.
pub open spec fn record_shown_to(row: Option<RawRecordRow>, user_id: Seq<char>) -> Option<
    RawRecordRow,
> {
    match row {
        Some(r) => if r.user_id@ == user_id {
            Some(r)
        } else {
            None
        },
        None => None,
    }
}

/// The record of an id, for its owner. To anyone else it does not exist.
pub fn get_record_inner(row: Option<RawRecordRow>, user_id: &str, id: u128) -> (r: Result<
    RawRecordRow,
    AppError,
>)
    ensures
        match r {
            Ok(x) => row == Some(x) && x.user_id@ == user_id@,
            Err(e) => (row is None || row->Some_0.user_id@ != user_id@) && e@
                == ErrorView::NotFound("record "@ + id_text(id)),
        },
        match r {
            Ok(x) => record_shown_to(row, user_id@) == Some(x),
            Err(_) => record_shown_to(row, user_id@) is None,
        },
{
    match row {
        Some(x) => if same_text(x.user_id.as_str(), user_id) {
            Ok(x)
        } else {
            Err(no_record(id))
        },
        None => Err(no_record(id)),
    }
}

/// The text under a name in a document, or the answer for a document without
/// it.
pub open spec fn payload_text(payload: Seq<char>, name: Seq<char>, fault: Seq<char>) -> Result<
    Seq<char>,
    ErrorView,
> {
    match member_text(payload, name) {
        Some(s) => Ok(s),
        None => Err(ErrorView::Internal(fault)),
    }
}

/// A text or an error, by their views.
pub open spec fn text_result(r: Result<String, AppError>) -> Result<Seq<char>, ErrorView> {
    match r {
        Ok(s) => Ok(s@),
        Err(e) => Err(e@),
    }
}

impl RawRecordRow {
    /// The reference kind of a state object, from its payload.
    pub fn state_kind_of(&self, payload: &str) -> (r: Result<String, AppError>)
        ensures
            text_result(r) == payload_text(
                payload@,
                "kind"@,
                "state_object payload missing kind"@,
            ),
    {
        match get_text(payload, "kind") {
            Some(s) => Ok(s),
            None => Err(AppError::Internal("state_object payload missing kind".to_owned())),
        }
    }

    /// The reference key of a state object, from its payload.
    pub fn state_key_of(&self, payload: &str) -> (r: Result<String, AppError>)
        ensures
            text_result(r) == payload_text(payload@, "key"@, "state_object payload missing key"@),
    {
        match get_text(payload, "key") {
            Some(s) => Ok(s),
            None => Err(AppError::Internal("state_object payload missing key".to_owned())),
        }
    }
}

/// The filter of a list of summaries.
#[derive(Debug, Clone)]
pub struct SummariesQuery {
    pub level: Option<i32>,
    pub project: Option<String>,
    pub mode: Option<String>,
}

/// What a rebuild of the curated layer came to.
#[derive(Debug, Clone, Copy, PartialEq, Eq, Structural)]
pub struct RebuildResponse {
    pub promoted: i64,
    pub distilled: i64,
    pub clusters_seen: i64,
    pub distill_skipped: bool,
    pub summarized: i64,
    pub max_level: i32,
}

/// Whether a read takes in the sandbox, as the statement's text has it.
pub fn sandbox_gate(include_sandbox: bool) -> (r: &'static str)
    ensures
        r@ == (if include_sandbox {
            "TRUE"@
        } else {
            "FALSE"@
        }),
{
    if include_sandbox {
        "TRUE"
    } else {
        "FALSE"
    }
}

// ---------------------------------------------------------------------------
// Laws
// ---------------------------------------------------------------------------
/// What records hold together is the sum of what each of them holds.
pub proof fn law_characters_add_up(a: Seq<RawRecordRow>, r: RawRecordRow, b: Seq<RawRecordRow>)
    ensures
        total_chars(Seq::empty()) == 0,
        total_chars(seq![r]) == r.content@.len(),
        total_chars(a + b) == total_chars(a) + total_chars(b),
    decreases b.len(),
{
    assert(seq![r].drop_last() =~= Seq::empty());
    assert(total_chars(seq![r].drop_last()) == 0);
    if b.len() == 0 {
        assert(a + b =~= a);
    } else {
        assert((a + b).drop_last() =~= a + b.drop_last());
        law_characters_add_up(a, r, b.drop_last());
    }
}

proof fn lemma_front_is_no_longer(rows: Seq<RawRecordRow>, n: int)
    requires
        0 <= n <= rows.len(),
    ensures
        total_chars(rows.take(n)) <= total_chars(rows),
    decreases rows.len(),
{
    if n == rows.len() {
        assert(rows.take(n) =~= rows);
    } else {
        lemma_front_is_no_longer(rows.drop_last(), n);
        assert(rows.drop_last().take(n) =~= rows.take(n));
    }
}

/// Whether `out` is what fits of the rows: a front part of them, within the limit
/// and the budget but for its first, and the longest one.
pub open spec fn longest_that_fits(
    out: Seq<RawRecordRow>,
    rows: Seq<RawRecordRow>,
    limit: int,
    budget: usize,
) -> bool {
    let n = out.len() as int;
    &&& n <= rows.len() && n <= limit
    &&& out == rows.take(n)
    &&& rows.len() > 0 ==> n > 0
    &&& n > 1 && budget < usize::MAX ==> total_chars(out) <= budget
    &&& n < rows.len() && n < limit ==> budget < usize::MAX && total_chars(rows.take(n + 1))
        > budget
}

/// An answer leaves out no record that it has room for: all of them are there
/// where they keep to the limit and their characters to the budget, and else the
/// longest front part that does. A warning is given exactly where the budget, and
/// not the limit alone, has left something out; it names the budget, how many
/// records are left and how many there were.
pub proof fn law_nothing_that_fits_is_left_out(
    rows: Seq<RawRecordRow>,
    limit: int,
    budget: usize,
)
    requires
        limit >= 1,
    ensures
        longest_that_fits(clamped(rows, limit, budget), rows, limit, budget),
        rows.len() <= limit && (total_chars(rows) <= budget || budget == usize::MAX) ==> clamped(
            rows,
            limit,
            budget,
        ) == rows && clip_warning(rows, limit, budget) is None,
        clip_warning(rows, limit, budget) is Some <==> clamped(rows, limit, budget).len()
            < rows.len() && clamped(rows, limit, budget).len() < limit,
        clip_warning(rows, limit, budget) matches Some(w) ==> w
            == "content clipped to the "@ + decimal(budget as nat) + "-character budget: "@
            + decimal(clamped(rows, limit, budget).len()) + " of "@ + decimal(
            if rows.len() <= limit {
                rows.len()
            } else {
                limit as nat
            },
        ) + " ranked records returned (raise FLASHBACK_ASSEMBLE_CHAR_BUDGET to widen)"@,
{
    let page = at_most(rows, limit);
    let n = kept(page, budget);
    lemma_kept(page, budget, 0);
    let out = clamped(rows, limit, budget);
    assert(out =~= rows.take(n));
    assert(page.take(n) =~= out);
    if n > 1 && budget < usize::MAX {
        assert(!over_budget(page, n - 1, budget));
        assert(page.take(n - 1 + 1) =~= out);
    }
    if n < page.len() {
        assert(over_budget(page, n, budget));
        assert(page.take(n + 1) =~= rows.take(n + 1));
        lemma_front_is_no_longer(rows, n + 1);
    } else if rows.len() <= limit {
        assert(rows.take(n) =~= rows);
    }
}

/// Of two warnings both are given, the first one first.
pub proof fn law_no_warning_is_lost(a: Seq<char>, b: Seq<char>)
    ensures
        merged(None, None) is None,
        merged(Some(a), None) == Some(a),
        merged(None, Some(b)) == Some(b),
        merged(Some(a), Some(b)) == Some(a + seq![' '] + b),
{
    reveal_strlit(" ");
    assert(" "@ =~= seq![' ']);
}

/// A budget that is set is used, if it is a number above zero; else sixty thousand
/// characters are the budget.
pub proof fn law_budget_is_the_one_set(setting: Seq<char>)
    ensures
        budget_of(None) == 60 * 1000,
        number_of(setting) matches Some(n) && 0 < n <= usize::MAX ==> budget_of(Some(setting))
            == number_of(setting)->Some_0,
        number_of(setting) is None || number_of(setting) == Some(0nat) || number_of(setting)->Some_0
            > usize::MAX ==> budget_of(Some(setting)) == budget_of(None),
{
}

/// A structured read gives as many rows as were asked for, between one and a
/// thousand, a hundred where nothing was asked.
pub proof fn law_rows_as_asked(n: i64)
    ensures
        rows_wanted(None) == 100,
        1 <= n <= 1000 ==> rows_wanted(Some(n)) == n,
        n < 1 ==> rows_wanted(Some(n)) == 1,
        n > 1000 ==> rows_wanted(Some(n)) == 1000,
{
}

/// Vectors of different lengths stand in different columns; a length without one
/// of its own has the first.
pub proof fn law_each_length_has_its_column(dim: int)
    ensures
        embedding_column(384) == "embedding"@,
        embedding_column(768) == "embedding_768"@,
        embedding_column(1024) == "embedding_1024"@,
        dim != 768 && dim != 1024 ==> embedding_column(dim) == embedding_column(384),
{
}

/// A request spans modes where it names all of them, in any case, or two that
/// differ; naming none, or one however often, does not.
pub proof fn law_one_mode_spans_nothing(req: AssembleRequestView, names: Seq<Seq<char>>, m: Seq<char>)
    requires
        ascii_lower(m) != ascii_lower("all"@),
        forall|i: int| 0 <= i < names.len() ==> (#[trigger] names[i]) == m,
    ensures
        !spans_modes(names),
        !spans_modes(Seq::empty()),
        spans_modes(names.push("all"@)) && spans_modes(names.push("ALL"@)),
        forall|other: Seq<char>|
            names.len() > 0 && other != m ==> spans_modes(#[trigger] names.push(other)),
        req.mode == Some(m) && req.modes is None ==> modes_named(req) == seq![m],
        req.mode is None && req.modes == Some(names) ==> modes_named(req) == names,
        req.mode == Some(m) && req.modes == Some(names) ==> modes_named(req) == seq![m] + names,
        req.mode is None && req.modes is None ==> modes_named(req) == Seq::<Seq<char>>::empty(),
{
    reveal_strlit("all");
    reveal_strlit("ALL");
    let n = names.len() as int;
    assert(names.push("all"@)[n] == "all"@);
    assert(ascii_lower("ALL"@) =~= ascii_lower("all"@));
    assert(names.push("ALL"@)[n] == "ALL"@);
    assert forall|other: Seq<char>| names.len() > 0 && other != m implies spans_modes(
        #[trigger] names.push(other),
    ) by {
        assert(names.push(other)[0] == m && names.push(other)[n] == other);
    }
    assert(seq![m] + Seq::<Seq<char>>::empty() =~= seq![m]);
    assert(Seq::<Seq<char>>::empty() + names =~= names);
    assert(Seq::<Seq<char>>::empty() + Seq::<Seq<char>>::empty() =~= Seq::empty());
}

/// A question holds a cue wherever one stands by itself in it, between the ends of
/// the text or characters that are in no word.
pub proof fn law_cues_count_wherever_they_stand_alone(
    before: Seq<char>,
    behind: Seq<char>,
)
    requires
        before.len() == 0 || !crate::text::in_word(before.last()),
        behind.len() == 0 || !crate::text::in_word(behind[0]),
    ensures
        holds_cue(before + "current"@ + behind),
        holds_cue(before + "currently"@ + behind),
        holds_cue(before + "right now"@ + behind),
        holds_cue(before + "now"@ + behind),
        holds_cue(before + "working on"@ + behind),
        holds_cue(before + "what am i"@ + behind),
        holds_cue(before + "what's on"@ + behind),
        holds_cue(before + "whats on"@ + behind),
        holds_cue(before + "what is on"@ + behind),
        holds_cue(before + "todo"@ + behind),
        holds_cue(before + "to-do"@ + behind),
        holds_cue(before + "to do"@ + behind),
        holds_cue(before + "status"@ + behind),
        holds_cue(before + "state of"@ + behind),
        holds_cue(before + "active"@ + behind),
        holds_cue(before + "in progress"@ + behind),
        holds_cue(before + "latest"@ + behind),
{
    lemma_stands_alone(before, "current"@, behind);
    assert(present_cues()[0] == "current"@);
    lemma_stands_alone(before, "currently"@, behind);
    assert(present_cues()[1] == "currently"@);
    lemma_stands_alone(before, "right now"@, behind);
    assert(present_cues()[2] == "right now"@);
    lemma_stands_alone(before, "now"@, behind);
    assert(present_cues()[3] == "now"@);
    lemma_stands_alone(before, "working on"@, behind);
    assert(present_cues()[4] == "working on"@);
    lemma_stands_alone(before, "what am i"@, behind);
    assert(present_cues()[5] == "what am i"@);
    lemma_stands_alone(before, "what's on"@, behind);
    assert(present_cues()[6] == "what's on"@);
    lemma_stands_alone(before, "whats on"@, behind);
    assert(present_cues()[7] == "whats on"@);
    lemma_stands_alone(before, "what is on"@, behind);
    assert(present_cues()[8] == "what is on"@);
    lemma_stands_alone(before, "todo"@, behind);
    assert(present_cues()[9] == "todo"@);
    lemma_stands_alone(before, "to-do"@, behind);
    assert(present_cues()[10] == "to-do"@);
    lemma_stands_alone(before, "to do"@, behind);
    assert(present_cues()[11] == "to do"@);
    lemma_stands_alone(before, "status"@, behind);
    assert(present_cues()[12] == "status"@);
    lemma_stands_alone(before, "state of"@, behind);
    assert(present_cues()[13] == "state of"@);
    lemma_stands_alone(before, "active"@, behind);
    assert(present_cues()[14] == "active"@);
    lemma_stands_alone(before, "in progress"@, behind);
    assert(present_cues()[15] == "in progress"@);
    lemma_stands_alone(before, "latest"@, behind);
    assert(present_cues()[16] == "latest"@);
}

proof fn lemma_stands_alone(before: Seq<char>, cue: Seq<char>, behind: Seq<char>)
    requires
        before.len() == 0 || !crate::text::in_word(before.last()),
        behind.len() == 0 || !crate::text::in_word(behind[0]),
    ensures
        stands_alone(before + cue + behind, cue, before.len() as int),
{
    let s = before + cue + behind;
    let at = before.len() as int;
    assert(s.subrange(at, at + cue.len()) =~= cue);
    if at > 0 {
        assert(s[at - 1] == before.last());
    }
    if at + cue.len() < s.len() {
        assert(s[at + cue.len()] == behind[0]);
    }
}

/// A text that holds a cue holds at least three characters.
pub proof fn law_short_texts_hold_no_cue(lowered: Seq<char>)
    requires
        lowered.len() < 3,
    ensures
        !holds_cue(lowered),
{
    reveal_strlit("current");
    reveal_strlit("currently");
    reveal_strlit("right now");
    reveal_strlit("now");
    reveal_strlit("working on");
    reveal_strlit("what am i");
    reveal_strlit("what's on");
    reveal_strlit("whats on");
    reveal_strlit("what is on");
    reveal_strlit("todo");
    reveal_strlit("to-do");
    reveal_strlit("to do");
    reveal_strlit("status");
    reveal_strlit("state of");
    reveal_strlit("active");
    reveal_strlit("in progress");
    reveal_strlit("latest");
    assert forall|k: int, at: int| 0 <= k < present_cues().len() implies !#[trigger] stands_alone(
        lowered,
        present_cues()[k],
        at,
    ) by {
        assert(present_cues()[k].len() >= 3);
    }
}

/// A record is shown to its owner as it is, and to nobody else.
pub proof fn law_only_owners_are_shown_records(r: RawRecordRow, user_id: Seq<char>)
    ensures
        record_shown_to(None, user_id) is None,
        record_shown_to(Some(r), r.user_id@) == Some(r),
        user_id != r.user_id@ ==> record_shown_to(Some(r), user_id) is None,
{
}

} // verus!
