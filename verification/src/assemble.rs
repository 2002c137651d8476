//! Context assembly as a machine: each step takes what the last read gave and
//! says what to read next, until the answer is there.
use vstd::prelude::*;
use vstd::string::*;

use crate::records::{
    asks_about_now, at_most, clamp_assembled, clamped, clip_warning, embedding_col_for_dim,
    embedding_column, is_cross_mode, is_present_tense, kept, law_nothing_that_fits_is_left_out,
    lemma_kept, longest_that_fits, merge_warning, merged, modes_named, spans_modes, total_chars,
    AssembleRequest, AssembleRequestView, RawRecordRow,
};
use crate::statements::{
    backstop_sql, backstop_text, by_id_sql, by_id_text, cross_mode_sql, cross_mode_text,
    expand_sql, expand_text, is_query, lemma_assembly_statements_are_queries, rank_sql, rank_text,
    recent_sql, recent_text, references_sql, references_text,
};
use crate::text::{blank, is_blank, opt_text};

verus! {

/// The project that playground writes land in.
pub const SANDBOX_PROJECT: &'static str = "playground";

/// The warning of an answer that could not use vectors.
pub const CROSS_MODE_WARNING: &'static str =
    "cross-mode request: vector search skipped (modes live in different embedding spaces); ranked by keyword, entity overlap, and recency.";

/// A cognitive register: its name and the embedder that it pins.
#[derive(Debug, Clone)]
pub struct ModeInfo {
    pub name: String,
    pub embedder: String,
}

/// A [`ModeInfo`] over character sequences.
pub struct ModeView {
    pub name: Seq<char>,
    pub embedder: Seq<char>,
}

impl View for ModeInfo {
    type V = ModeView;

    open spec fn view(&self) -> ModeView {
        ModeView { name: self.name@, embedder: self.embedder@ }
    }
}

/// The answer to a request for context.
#[derive(Debug, Clone)]
pub struct AssembleResponse {
    pub records: Vec<RawRecordRow>,
    pub degraded: bool,
    pub warning: Option<String>,
}

/// An [`AssembleResponse`] by its contents.
pub struct ResponseView {
    pub records: Seq<RawRecordRow>,
    pub degraded: bool,
    pub warning: Option<Seq<char>>,
}

impl View for AssembleResponse {
    type V = ResponseView;

    open spec fn view(&self) -> ResponseView {
        ResponseView {
            records: self.records@,
            degraded: self.degraded,
            warning: opt_text(self.warning),
        }
    }
}

/// What the machine waits for.
#[derive(Debug, Clone, Copy, PartialEq, Eq, Structural)]
pub enum Phase {
    Mode,
    Recent,
    CrossMode,
    Embedding,
    Ranking,
    Touch,
    Expansion,
    Records,
    References,
    Backstop,
    Done,
}

/// An assembly under way.
#[derive(Debug, Clone)]
pub struct Assembly {
    pub phase: Phase,
    /// At most this many records are answered.
    pub limit: usize,
    /// At most this many characters are answered, but for the first record.
    pub budget: usize,
    pub query: String,
    /// The mode that the search is confined to.
    pub scope_mode: Option<String>,
    /// The embedder of the search.
    pub model: String,
    /// The column that holds the embedder's vectors.
    pub column: &'static str,
    /// The curated nodes, best first, and how many of them have been expanded.
    pub nodes: Vec<u128>,
    pub next: usize,
    /// The raw ids found under the nodes, in their order.
    pub ordered: Vec<u128>,
    pub records: Vec<RawRecordRow>,
}

/// An [`Assembly`] by its contents.
#[verifier::ext_equal]
pub struct AssemblyView {
    pub phase: Phase,
    pub limit: nat,
    pub budget: usize,
    pub query: Seq<char>,
    pub scope_mode: Option<Seq<char>>,
    pub model: Seq<char>,
    pub column: Seq<char>,
    pub nodes: Seq<u128>,
    pub next: nat,
    pub ordered: Seq<u128>,
    pub records: Seq<RawRecordRow>,
}

impl View for Assembly {
    type V = AssemblyView;

    open spec fn view(&self) -> AssemblyView {
        AssemblyView {
            phase: self.phase,
            limit: self.limit as nat,
            budget: self.budget,
            query: self.query@,
            scope_mode: opt_text(self.scope_mode),
            model: self.model@,
            column: self.column@,
            nodes: self.nodes@,
            next: self.next as nat,
            ordered: self.ordered@,
            records: self.records@,
        }
    }
}

/// What came back from the last action.
#[derive(Debug, Clone)]
pub enum AssembleEvent {
    /// The mode that the request resolves to, where one could be resolved.
    Mode(Option<ModeInfo>),
    /// The records that were read.
    Rows(Vec<RawRecordRow>),
    /// The query was embedded, in this many dimensions.
    Embedded(usize),
    /// The curated nodes, best first.
    Ranked(Vec<u128>),
    /// The decay clocks were reset.
    Touched,
    /// The raw ids under a node.
    Expanded(Vec<u128>),
}

/// An [`AssembleEvent`] by its contents.
pub enum EventView {
    Mode(Option<ModeView>),
    Rows(Seq<RawRecordRow>),
    Embedded(usize),
    Ranked(Seq<u128>),
    Touched,
    Expanded(Seq<u128>),
}

impl View for AssembleEvent {
    type V = EventView;

    open spec fn view(&self) -> EventView {
        match self {
            AssembleEvent::Mode(m) => EventView::Mode(
                match m {
                    Some(x) => Some(x@),
                    None => None,
                },
            ),
            AssembleEvent::Rows(rows) => EventView::Rows(rows@),
            AssembleEvent::Embedded(dim) => EventView::Embedded(*dim),
            AssembleEvent::Ranked(nodes) => EventView::Ranked(nodes@),
            AssembleEvent::Touched => EventView::Touched,
            AssembleEvent::Expanded(ids) => EventView::Expanded(ids@),
        }
    }
}

/// What to do next. What an action needs beyond its own fields stands in the
/// [`Assembly`].
#[derive(Debug, Clone)]
pub enum AssembleAction {
    /// Resolve a mode by name, or the default one.
    ResolveMode(Option<String>),
    /// Read the newest records of the scope.
    ReadRecent,
    /// Read across all modes, by keyword, entity overlap and recency.
    ReadCrossMode,
    /// Embed the query with the model.
    EmbedQuery,
    /// Rank the curated nodes.
    RankCurated,
    /// Reset the decay clocks of the nodes.
    Touch,
    /// Read at most `cap` raw ids under a node.
    Expand { node: u128, cap: usize },
    /// Read the records of the ordered ids.
    ReadRecords,
    /// Read the references that match the query.
    ReadReferences,
    /// Read `need` more records by direct search, none of `exclude`.
    ReadBackstop { need: usize, exclude: Vec<u128> },
    /// Answer.
    Respond(AssembleResponse),
}

/// An [`AssembleAction`] by its contents.
pub enum ActionView {
    ResolveMode(Option<Seq<char>>),
    ReadRecent,
    ReadCrossMode,
    EmbedQuery,
    RankCurated,
    Touch,
    Expand { node: u128, cap: nat },
    ReadRecords,
    ReadReferences,
    ReadBackstop { need: nat, exclude: Seq<u128> },
    Respond(ResponseView),
}

impl View for AssembleAction {
    type V = ActionView;

    open spec fn view(&self) -> ActionView {
        match self {
            AssembleAction::ResolveMode(m) => ActionView::ResolveMode(opt_text(*m)),
            AssembleAction::ReadRecent => ActionView::ReadRecent,
            AssembleAction::ReadCrossMode => ActionView::ReadCrossMode,
            AssembleAction::EmbedQuery => ActionView::EmbedQuery,
            AssembleAction::RankCurated => ActionView::RankCurated,
            AssembleAction::Touch => ActionView::Touch,
            AssembleAction::Expand { node, cap } => ActionView::Expand {
                node: *node,
                cap: *cap as nat,
            },
            AssembleAction::ReadRecords => ActionView::ReadRecords,
            AssembleAction::ReadReferences => ActionView::ReadReferences,
            AssembleAction::ReadBackstop { need, exclude } => ActionView::ReadBackstop {
                need: *need as nat,
                exclude: exclude@,
            },
            AssembleAction::Respond(r) => ActionView::Respond(r@),
        }
    }
}

// ---------------------------------------------------------------------------
// What each step means
// ---------------------------------------------------------------------------
/// A limit as asked for, within the bounds of a page.
pub open spec fn page_limit(asked: Option<i64>) -> nat {
    match asked {
        Some(n) => if n < 1 {
            1
        } else if n > 200 {
            200
        } else {
            n as nat
        },
        None => 50,
    }
}

/// The mode to resolve: the single one named, else the first of the list.
pub open spec fn mode_wanted(req: AssembleRequestView) -> Option<Seq<char>> {
    match req.mode {
        Some(m) => Some(m),
        None => match req.modes {
            Some(ms) => if ms.len() > 0 {
                Some(ms[0])
            } else {
                None
            },
            None => None,
        },
    }
}

/// The query of a request, empty where there is none.
pub open spec fn query_of(req: AssembleRequestView) -> Seq<char> {
    match req.query {
        Some(q) => q,
        None => Seq::empty(),
    }
}

/// The first step: which read to begin with.
pub open spec fn begun(req: AssembleRequestView, budget: usize, default_embedder: Seq<char>) -> (
    AssemblyView,
    ActionView,
) {
    let a = AssemblyView {
        phase: Phase::Mode,
        limit: page_limit(req.limit),
        budget,
        query: query_of(req),
        scope_mode: None,
        model: default_embedder,
        column: "embedding"@,
        nodes: Seq::empty(),
        next: 0,
        ordered: Seq::empty(),
        records: Seq::empty(),
    };
    if !spans_modes(modes_named(req)) {
        (a, ActionView::ResolveMode(mode_wanted(req)))
    } else if blank(a.query) {
        (AssemblyView { phase: Phase::Recent, ..a }, ActionView::ReadRecent)
    } else {
        (AssemblyView { phase: Phase::CrossMode, ..a }, ActionView::ReadCrossMode)
    }
}

/// `ordered` with the new ones of `ids` behind it, up to the limit.
pub open spec fn absorbed(ordered: Seq<u128>, ids: Seq<u128>, limit: nat) -> Seq<u128>
    decreases ids.len(),
{
    if ids.len() == 0 {
        ordered
    } else {
        let front = absorbed(ordered, ids.drop_last(), limit);
        if !front.contains(ids.last()) && front.len() < limit {
            front.push(ids.last())
        } else {
            front
        }
    }
}

/// The rows of an id, in their order.
pub open spec fn rows_of(rows: Seq<RawRecordRow>, id: u128) -> Seq<RawRecordRow> {
    rows.filter(|r: RawRecordRow| r.id == id)
}

/// The rows whose id is none of `ids`.
pub open spec fn rows_beside(rows: Seq<RawRecordRow>, ids: Seq<u128>) -> Seq<RawRecordRow> {
    rows.filter(|r: RawRecordRow| !ids.contains(r.id))
}

/// The rows of each id in turn.
pub open spec fn rows_by_id(rows: Seq<RawRecordRow>, ids: Seq<u128>) -> Seq<RawRecordRow>
    decreases ids.len(),
{
    if ids.len() == 0 {
        Seq::empty()
    } else {
        rows_by_id(rows, ids.drop_last()) + rows_of(rows, ids.last())
    }
}

/// The rows in the order of `ids`; those of no such id come last.
pub open spec fn in_rank_order(rows: Seq<RawRecordRow>, ids: Seq<u128>) -> Seq<RawRecordRow> {
    rows_by_id(rows, ids) + rows_beside(rows, ids)
}

/// The ids of the rows.
pub open spec fn row_ids(rows: Seq<RawRecordRow>) -> Seq<u128> {
    rows.map_values(|r: RawRecordRow| r.id)
}

/// The references that are not among the records yet, in front of them.
pub open spec fn with_references(
    records: Seq<RawRecordRow>,
    refs: Seq<RawRecordRow>,
    limit: nat,
) -> Seq<RawRecordRow> {
    at_most(rows_beside(refs, row_ids(records)) + records, limit as int)
}

/// The answer made of these records.
pub open spec fn answer(
    records: Seq<RawRecordRow>,
    limit: nat,
    budget: usize,
    degraded: bool,
) -> ActionView {
    let clip = clip_warning(records, limit as int, budget);
    ActionView::Respond(
        ResponseView {
            records: clamped(records, limit as int, budget),
            degraded,
            warning: if degraded {
                merged(Some(CROSS_MODE_WARNING@), clip)
            } else {
                clip
            },
        },
    )
}

/// Nothing is left to read.
pub open spec fn finished(
    a: AssemblyView,
    records: Seq<RawRecordRow>,
    degraded: bool,
) -> (AssemblyView, ActionView) {
    (
        AssemblyView { phase: Phase::Done, records: Seq::empty(), ..a },
        answer(records, a.limit, a.budget, degraded),
    )
}

/// A page that is not full is topped up by direct search.
pub open spec fn topped_up(a: AssemblyView) -> (AssemblyView, ActionView) {
    if a.records.len() < a.limit {
        (
            AssemblyView { phase: Phase::Backstop, ..a },
            ActionView::ReadBackstop {
                need: (a.limit - a.records.len()) as nat,
                exclude: row_ids(a.records),
            },
        )
    } else {
        finished(a, a.records, false)
    }
}

/// The curated records are there; a question about the present asks for
/// references as well.
pub open spec fn fetched(a: AssemblyView, rows: Seq<RawRecordRow>) -> (AssemblyView, ActionView) {
    let b = AssemblyView { records: in_rank_order(rows, a.ordered), ..a };
    if asks_about_now(a.query) {
        (AssemblyView { phase: Phase::References, ..b }, ActionView::ReadReferences)
    } else {
        topped_up(b)
    }
}

/// Expands the next node, while there is one and room is left; then reads the
/// records that were found.
pub open spec fn expanding(a: AssemblyView) -> (AssemblyView, ActionView) {
    if a.next < a.nodes.len() && a.ordered.len() < a.limit {
        (
            AssemblyView { phase: Phase::Expansion, next: a.next + 1, ..a },
            ActionView::Expand {
                node: a.nodes[a.next as int],
                cap: (a.limit - a.ordered.len()) as nat,
            },
        )
    } else if a.ordered.len() == 0 {
        fetched(a, Seq::empty())
    } else {
        (AssemblyView { phase: Phase::Records, ..a }, ActionView::ReadRecords)
    }
}

/// The step from a state and what came back to the next state and action.
pub open spec fn advanced(a: AssemblyView, event: EventView) -> (AssemblyView, ActionView) {
    match event {
        EventView::Mode(mode) => {
            let b = match mode {
                Some(m) => AssemblyView { scope_mode: Some(m.name), model: m.embedder, ..a },
                None => a,
            };
            if blank(a.query) {
                (AssemblyView { phase: Phase::Recent, ..b }, ActionView::ReadRecent)
            } else {
                (AssemblyView { phase: Phase::Embedding, ..b }, ActionView::EmbedQuery)
            }
        },
        EventView::Embedded(dim) => (
            AssemblyView { phase: Phase::Ranking, column: embedding_column(dim as int), ..a },
            ActionView::RankCurated,
        ),
        EventView::Ranked(nodes) => (
            AssemblyView { phase: Phase::Touch, nodes, ..a },
            ActionView::Touch,
        ),
        EventView::Touched => expanding(a),
        EventView::Expanded(ids) => expanding(
            AssemblyView { ordered: absorbed(a.ordered, ids, a.limit), ..a },
        ),
        EventView::Rows(rows) => match a.phase {
            Phase::Records => fetched(a, rows),
            Phase::References => topped_up(
                AssemblyView { records: with_references(a.records, rows, a.limit), ..a },
            ),
            Phase::Backstop => finished(a, a.records + rows, false),
            Phase::CrossMode => finished(a, rows, true),
            _ => finished(a, rows, false),
        },
    }
}

/// Whether this is what the machine waits for.
pub open spec fn awaits(a: AssemblyView, event: EventView) -> bool {
    match event {
        EventView::Mode(_) => a.phase == Phase::Mode,
        EventView::Embedded(_) => a.phase == Phase::Embedding,
        EventView::Ranked(_) => a.phase == Phase::Ranking,
        EventView::Touched => a.phase == Phase::Touch,
        EventView::Expanded(_) => a.phase == Phase::Expansion,
        EventView::Rows(_) => a.phase == Phase::Recent || a.phase == Phase::CrossMode || a.phase
            == Phase::Records || a.phase == Phase::References || a.phase == Phase::Backstop,
    }
}

/// What holds of every assembly under way.
pub open spec fn well_formed(a: AssemblyView) -> bool {
    &&& 1 <= a.limit <= 200
    &&& a.next <= a.nodes.len()
    &&& a.ordered.len() <= a.limit
    &&& a.ordered.no_duplicates()
    &&& (a.phase == Phase::Mode || a.phase == Phase::Embedding || a.phase == Phase::Ranking
        || a.phase == Phase::Touch ==> a.next == 0 && a.ordered.len() == 0)
}

// ---------------------------------------------------------------------------
// The steps
// ---------------------------------------------------------------------------
/// The bounds of a page, applied to a limit.
pub fn clamp_limit(asked: Option<i64>) -> (r: usize)
    ensures
        r == page_limit(asked),
        1 <= r <= 200,
{
    match asked {
        Some(n) => if n < 1 {
            1
        } else if n > 200 {
            200
        } else {
            n as usize
        },
        None => 50,
    }
}

/// Begins an assembly. `default_embedder` is the embedder of a request whose
/// mode cannot be resolved.
pub fn begin(req: &AssembleRequest, budget: usize, default_embedder: &str) -> (r: (
    Assembly,
    AssembleAction,
))
    ensures
        (r.0@, r.1@) == begun(req@, budget, default_embedder@),
        well_formed(r.0@),
{
    let query = match &req.query {
        Some(q) => q.clone(),
        None => String::new(),
    };
    let blank_query = is_blank(query.as_str());
    let mut a = Assembly {
        phase: Phase::Mode,
        limit: clamp_limit(req.limit),
        budget,
        query,
        scope_mode: None,
        model: default_embedder.to_owned(),
        column: "embedding",
        nodes: Vec::new(),
        next: 0,
        ordered: Vec::new(),
        records: Vec::new(),
    };
    if !is_cross_mode(req) {
        let wanted = match &req.mode {
            Some(m) => Some(m.clone()),
            None => match &req.modes {
                Some(ms) => if ms.len() > 0 {
                    Some(ms[0].clone())
                } else {
                    None
                },
                None => None,
            },
        };
        (a, AssembleAction::ResolveMode(wanted))
    } else if blank_query {
        a.phase = Phase::Recent;
        (a, AssembleAction::ReadRecent)
    } else {
        a.phase = Phase::CrossMode;
        (a, AssembleAction::ReadCrossMode)
    }
}

/// Whether an id is in a list.
pub fn has_id(ids: &Vec<u128>, id: u128) -> (r: bool)
    ensures
        r == ids@.contains(id),
{
    let mut i: usize = 0;
    while i < ids.len()
        invariant
            i <= ids@.len(),
            forall|j: int| 0 <= j < i ==> ids@[j] != id,
        decreases ids@.len() - i,
    {
        if ids[i] == id {
            return true;
        }
        i += 1;
    }
    false
}

/// Takes up the raw ids found under a node: those not seen yet, while there is
/// room.
pub fn absorb(ordered: &mut Vec<u128>, ids: &Vec<u128>, limit: usize)
    requires
        old(ordered)@.no_duplicates(),
        old(ordered)@.len() <= limit,
    ensures
        final(ordered)@ == absorbed(old(ordered)@, ids@, limit as nat),
        final(ordered)@.no_duplicates(),
        final(ordered)@.len() <= limit,
{
    let ghost before = ordered@;
    let mut i: usize = 0;
    assert(ids@.take(0) =~= Seq::empty());
    while i < ids.len()
        invariant
            i <= ids@.len(),
            ordered@ == absorbed(before, ids@.take(i as int), limit as nat),
            ordered@.no_duplicates(),
            ordered@.len() <= limit,
        decreases ids@.len() - i,
    {
        assert(ids@.take(i + 1).drop_last() =~= ids@.take(i as int));
        if !has_id(ordered, ids[i]) && ordered.len() < limit {
            ordered.push(ids[i]);
        }
        i += 1;
    }
    assert(ids@.take(i as int) =~= ids@);
}

/// Parts the rows by whether they have an id.
fn part_by_id(rows: Vec<RawRecordRow>, id: u128) -> (r: (Vec<RawRecordRow>, Vec<RawRecordRow>))
    ensures
        r.0@ == rows_of(rows@, id),
        r.1@ == rows@.filter(|r: RawRecordRow| r.id != id),
{
    let ghost all = rows@;
    let ghost hit = |r: RawRecordRow| r.id == id;
    let ghost miss = |r: RawRecordRow| r.id != id;
    let mut hits: Vec<RawRecordRow> = Vec::new();
    let mut others: Vec<RawRecordRow> = Vec::new();
    proof {
        reveal(Seq::filter);
        assert(hits@ =~= all.take(0).filter(hit));
        assert(others@ =~= all.take(0).filter(miss));
    }
    for row in it: rows
        invariant
            it.seq() == all,
            hits@ == all.take(it.index()).filter(hit),
            others@ == all.take(it.index()).filter(miss),
            hit == (|r: RawRecordRow| r.id == id),
            miss == (|r: RawRecordRow| r.id != id),
    {
        proof {
            let k = it.index();
            assert(all.take(k + 1).drop_last() =~= all.take(k));
            assert(all.take(k + 1).last() == row);
            reveal(Seq::filter);
        }
        if row.id == id {
            hits.push(row);
        } else {
            others.push(row);
        }
    }
    assert(all.take(all.len() as int) =~= all);
    (hits, others)
}

/// Filtering twice keeps what both keep.
proof fn lemma_filter_twice(
    rows: Seq<RawRecordRow>,
    f: spec_fn(RawRecordRow) -> bool,
    g: spec_fn(RawRecordRow) -> bool,
    h: spec_fn(RawRecordRow) -> bool,
)
    requires
        forall|r: RawRecordRow| (#[trigger] h(r)) == (f(r) && g(r)),
    ensures
        rows.filter(f).filter(g) == rows.filter(h),
    decreases rows.len(),
{
    reveal(Seq::filter);
    if rows.len() > 0 {
        let front = rows.drop_last();
        lemma_filter_twice(front, f, g, h);
        assert(h(rows.last()) == (f(rows.last()) && g(rows.last())));
        if f(rows.last()) {
            assert(front.filter(f).push(rows.last()).drop_last() =~= front.filter(f));
        }
    }
}

/// Filtering by what always holds changes nothing.
proof fn lemma_filter_all(rows: Seq<RawRecordRow>, f: spec_fn(RawRecordRow) -> bool)
    requires
        forall|r: RawRecordRow| #[trigger] f(r),
    ensures
        rows.filter(f) == rows,
    decreases rows.len(),
{
    reveal(Seq::filter);
    if rows.len() > 0 {
        lemma_filter_all(rows.drop_last(), f);
        assert(f(rows.last()));
        assert(rows.drop_last().push(rows.last()) =~= rows);
    }
}

/// Puts the rows in the order of the ids that they were asked for by.
pub fn order_by_rank(rows: Vec<RawRecordRow>, ids: &Vec<u128>) -> (r: Vec<RawRecordRow>)
    requires
        ids@.no_duplicates(),
    ensures
        r@ == in_rank_order(rows@, ids@),
{
    let ghost all = rows@;
    let mut rest = rows;
    let mut out: Vec<RawRecordRow> = Vec::new();
    let mut k: usize = 0;
    proof {
        let none = ids@.take(0);
        lemma_filter_all(all, |r: RawRecordRow| !none.contains(r.id));
        assert(out@ =~= rows_by_id(all, none));
    }
    while k < ids.len()
        invariant
            k <= ids@.len(),
            ids@.no_duplicates(),
            out@ == rows_by_id(all, ids@.take(k as int)),
            rest@ == rows_beside(all, ids@.take(k as int)),
        decreases ids@.len() - k,
    {
        let id = ids[k];
        let (mut hits, others) = part_by_id(rest, id);
        proof {
            let now = ids@.take(k as int);
            let then = ids@.take(k + 1);
            assert(then.drop_last() =~= now);
            assert(!now.contains(id));
            lemma_filter_twice(
                all,
                |r: RawRecordRow| !now.contains(r.id),
                |r: RawRecordRow| r.id == id,
                |r: RawRecordRow| r.id == id,
            );
            assert forall|r: RawRecordRow| #[trigger] then.contains(r.id) == (now.contains(r.id)
                || r.id == id) by {
                if now.contains(r.id) {
                    let j = choose|j: int| 0 <= j < now.len() && now[j] == r.id;
                    assert(then[j] == r.id);
                }
                if r.id == id {
                    assert(then[k as int] == r.id);
                }
                if then.contains(r.id) {
                    let j = choose|j: int| 0 <= j < then.len() && then[j] == r.id;
                    if j < k {
                        assert(now[j] == r.id);
                    }
                }
            }
            lemma_filter_twice(
                all,
                |r: RawRecordRow| !now.contains(r.id),
                |r: RawRecordRow| r.id != id,
                |r: RawRecordRow| !then.contains(r.id),
            );
        }
        out.append(&mut hits);
        rest = others;
        k += 1;
    }
    assert(ids@.take(k as int) =~= ids@);
    out.append(&mut rest);
    out
}

/// The ids of some rows.
pub fn ids_of(rows: &Vec<RawRecordRow>) -> (r: Vec<u128>)
    ensures
        r@ == row_ids(rows@),
{
    let mut r: Vec<u128> = Vec::new();
    let mut i: usize = 0;
    while i < rows.len()
        invariant
            i <= rows@.len(),
            r@ == row_ids(rows@.take(i as int)),
        decreases rows@.len() - i,
    {
        r.push(rows[i].id);
        i += 1;
        assert(r@ =~= row_ids(rows@.take(i as int)));
    }
    assert(rows@.take(i as int) =~= rows@);
    r
}

/// The rows whose id is none of `ids`.
fn drop_known(rows: Vec<RawRecordRow>, ids: &Vec<u128>) -> (r: Vec<RawRecordRow>)
    ensures
        r@ == rows_beside(rows@, ids@),
{
    let ghost all = rows@;
    let ghost keep = |r: RawRecordRow| !ids@.contains(r.id);
    let mut out: Vec<RawRecordRow> = Vec::new();
    assert(out@ =~= all.take(0).filter(keep)) by {
        reveal(Seq::filter);
    }
    for row in it: rows
        invariant
            it.seq() == all,
            out@ == all.take(it.index()).filter(keep),
            keep == (|r: RawRecordRow| !ids@.contains(r.id)),
    {
        proof {
            let k = it.index();
            assert(all.take(k + 1).drop_last() =~= all.take(k));
            assert(all.take(k + 1).last() == row);
            reveal(Seq::filter);
        }
        if !has_id(ids, row.id) {
            out.push(row);
        }
    }
    assert(all.take(all.len() as int) =~= all);
    out
}

fn finish(a: Assembly, records: Vec<RawRecordRow>, degraded: bool) -> (r: (
    Assembly,
    AssembleAction,
))
    ensures
        (r.0@, r.1@) == finished(a@, records@, degraded),
{
    let mut a = a;
    let mut records = records;
    let clip = clamp_assembled(&mut records, a.limit, a.budget);
    let warning = if degraded {
        merge_warning(Some(CROSS_MODE_WARNING.to_owned()), clip)
    } else {
        clip
    };
    a.phase = Phase::Done;
    a.records = Vec::new();
    (a, AssembleAction::Respond(AssembleResponse { records, degraded, warning }))
}

fn top_up(a: Assembly) -> (r: (Assembly, AssembleAction))
    ensures
        (r.0@, r.1@) == topped_up(a@),
{
    let mut a = a;
    if a.records.len() < a.limit {
        let need: usize = a.limit - a.records.len();
        let exclude = ids_of(&a.records);
        a.phase = Phase::Backstop;
        (a, AssembleAction::ReadBackstop { need, exclude })
    } else {
        let records = a.records;
        a.records = Vec::new();
        finish(a, records, false)
    }
}

fn fetch_done(a: Assembly, rows: Vec<RawRecordRow>) -> (r: (Assembly, AssembleAction))
    requires
        a.ordered@.no_duplicates(),
    ensures
        (r.0@, r.1@) == fetched(a@, rows@),
{
    let mut a = a;
    a.records = order_by_rank(rows, &a.ordered);
    if is_present_tense(a.query.as_str()) {
        a.phase = Phase::References;
        (a, AssembleAction::ReadReferences)
    } else {
        top_up(a)
    }
}

fn expand_next(a: Assembly) -> (r: (Assembly, AssembleAction))
    requires
        a.next <= a.nodes@.len(),
        a.ordered@.no_duplicates(),
    ensures
        (r.0@, r.1@) == expanding(a@),
{
    let mut a = a;
    if a.next < a.nodes.len() && a.ordered.len() < a.limit {
        let node = a.nodes[a.next];
        let cap: usize = a.limit - a.ordered.len();
        a.next = a.next + 1;
        a.phase = Phase::Expansion;
        (a, AssembleAction::Expand { node, cap })
    } else if a.ordered.len() == 0 {
        fetch_done(a, Vec::new())
    } else {
        a.phase = Phase::Records;
        (a, AssembleAction::ReadRecords)
    }
}

fn receive_rows(a: Assembly, rows: Vec<RawRecordRow>) -> (r: (Assembly, AssembleAction))
    requires
        a.ordered@.no_duplicates(),
    ensures
        (r.0@, r.1@) == advanced(a@, EventView::Rows(rows@)),
{
    match a.phase {
        Phase::Records => fetch_done(a, rows),
        Phase::References => {
            let ghost goal = AssemblyView {
                records: with_references(a.records@, rows@, a.limit as nat),
                ..a@
            };
            let mut a = a;
            let known = ids_of(&a.records);
            let mut biased = drop_known(rows, &known);
            biased.append(&mut a.records);
            biased.truncate(a.limit);
            a.records = biased;
            assert(a@ =~= goal);
            top_up(a)
        },
        Phase::Backstop => {
            let mut a = a;
            let mut rows = rows;
            let mut records = a.records;
            records.append(&mut rows);
            a.records = Vec::new();
            finish(a, records, false)
        },
        Phase::CrossMode => finish(a, rows, true),
        _ => finish(a, rows, false),
    }
}

/// Takes what came back from the last action and says what to do next.
pub fn assemble_inner(a: Assembly, event: AssembleEvent) -> (r: (Assembly, AssembleAction))
    requires
        well_formed(a@),
        awaits(a@, event@),
    ensures
        (r.0@, r.1@) == advanced(a@, event@),
        well_formed(r.0@),
{
    proof {
        law_stays_well_formed(a@, event@);
    }
    match event {
        AssembleEvent::Mode(mode) => {
            let mut a = a;
            if let Some(m) = mode {
                a.scope_mode = Some(m.name);
                a.model = m.embedder;
            }
            if is_blank(a.query.as_str()) {
                a.phase = Phase::Recent;
                (a, AssembleAction::ReadRecent)
            } else {
                a.phase = Phase::Embedding;
                (a, AssembleAction::EmbedQuery)
            }
        },
        AssembleEvent::Embedded(dim) => {
            let mut a = a;
            a.column = embedding_col_for_dim(dim);
            a.phase = Phase::Ranking;
            (a, AssembleAction::RankCurated)
        },
        AssembleEvent::Ranked(nodes) => {
            let mut a = a;
            a.nodes = nodes;
            a.phase = Phase::Touch;
            (a, AssembleAction::Touch)
        },
        AssembleEvent::Touched => expand_next(a),
        AssembleEvent::Expanded(ids) => {
            let mut a = a;
            absorb(&mut a.ordered, &ids, a.limit);
            expand_next(a)
        },
        AssembleEvent::Rows(rows) => receive_rows(a, rows),
    }
}

// ---------------------------------------------------------------------------
// Laws
// ---------------------------------------------------------------------------
/// What is taken up stays within the limit and holds nothing twice.
proof fn lemma_absorbed(ordered: Seq<u128>, ids: Seq<u128>, limit: nat)
    requires
        ordered.no_duplicates(),
        ordered.len() <= limit,
    ensures
        absorbed(ordered, ids, limit).no_duplicates(),
        absorbed(ordered, ids, limit).len() <= limit,
    decreases ids.len(),
{
    if ids.len() > 0 {
        lemma_absorbed(ordered, ids.drop_last(), limit);
    }
}

/// Every step keeps an assembly well formed: the limit stays within a page, the
/// ids that were found stay within the limit, and none of them occurs twice.
pub proof fn law_stays_well_formed(a: AssemblyView, event: EventView)
    requires
        well_formed(a),
        awaits(a, event),
    ensures
        well_formed(advanced(a, event).0),
{
    if let EventView::Expanded(ids) = event {
        lemma_absorbed(a.ordered, ids, a.limit);
    }
}

/// The limit binds while nodes are expanded: a node is never asked for more
/// ids than there is room for, and is only asked when there is room.
pub proof fn law_expansion_is_capped(a: AssemblyView, event: EventView)
    requires
        well_formed(a),
        awaits(a, event),
    ensures
        advanced(a, event).1 matches ActionView::Expand { node, cap } ==> {
            let b = advanced(a, event).0;
            1 <= cap && b.ordered.len() + cap == b.limit && a.nodes.contains(node)
        },
{
    if let EventView::Expanded(ids) = event {
        lemma_absorbed(a.ordered, ids, a.limit);
    }
}

/// An answer never holds more records than the limit, and it is marked as
/// degraded exactly when the request spanned modes.
pub proof fn law_answer_within_limit(a: AssemblyView, event: EventView)
    requires
        well_formed(a),
        awaits(a, event),
    ensures
        advanced(a, event).1 matches ActionView::Respond(r) ==> r.records.len() <= a.limit
            && r.degraded == (a.phase == Phase::CrossMode),
{
    if let EventView::Expanded(ids) = event {
        lemma_absorbed(a.ordered, ids, a.limit);
    }
    assert forall|rows: Seq<RawRecordRow>, limit: int, budget: usize| limit >= 0 implies (
    #[trigger] clamped(rows, limit, budget)).len() <= limit by {
        lemma_kept(at_most(rows, limit), budget, 0);
    }
}

/// Whatever the budget, an answer over some records holds the first of them,
/// and it holds a front part of them in their order.
pub proof fn law_first_record_survives(rows: Seq<RawRecordRow>, limit: nat, budget: usize)
    requires
        limit >= 1,
    ensures
        ({
            let out = clamped(rows, limit as int, budget);
            &&& out.len() <= rows.len()
            &&& out == rows.take(out.len() as int)
            &&& rows.len() > 0 ==> out.len() > 0
        }),
{
    let page = at_most(rows, limit as int);
    lemma_kept(page, budget, 0);
    let out = clamped(rows, limit as int, budget);
    assert(out =~= rows.take(out.len() as int));
}

/// Beyond its first record an answer keeps to the character budget.
pub proof fn law_answer_within_budget(rows: Seq<RawRecordRow>, limit: nat, budget: usize)
    requires
        limit >= 1,
        budget < usize::MAX,
    ensures
        ({
            let out = clamped(rows, limit as int, budget);
            out.len() > 1 ==> crate::records::total_chars(out) <= budget
        }),
{
    let page = at_most(rows, limit as int);
    lemma_kept(page, budget, 0);
    let n = kept(page, budget);
    if n > 1 {
        assert(!crate::records::over_budget(page, n - 1, budget));
    }
}

/// How far an assembly is from its end.
pub open spec fn steps_left(a: AssemblyView) -> nat {
    match a.phase {
        Phase::Done => 0,
        Phase::Recent => 1,
        Phase::CrossMode => 1,
        Phase::Backstop => 1,
        Phase::References => 2,
        Phase::Records => 3,
        Phase::Expansion => (4 + a.nodes.len() - a.next) as nat,
        Phase::Touch => (5 + a.nodes.len() - a.next) as nat,
        _ => 0,
    }
}

/// Once the curated nodes are ranked, every step brings the end nearer; before
/// that there are at most three.
pub proof fn law_assembly_ends(a: AssemblyView, event: EventView)
    requires
        well_formed(a),
        awaits(a, event),
    ensures
        match a.phase {
            Phase::Mode => advanced(a, event).0.phase == Phase::Recent || advanced(a, event).0.phase
                == Phase::Embedding,
            Phase::Embedding => advanced(a, event).0.phase == Phase::Ranking,
            Phase::Ranking => advanced(a, event).0.phase == Phase::Touch,
            _ => steps_left(advanced(a, event).0) < steps_left(a),
        },
        advanced(a, event).0.phase == Phase::Done <==> advanced(a, event).1 is Respond,
{
    if let EventView::Expanded(ids) = event {
        lemma_absorbed(a.ordered, ids, a.limit);
    }
}

/// No two rows have the same id.
pub open spec fn distinct(rows: Seq<RawRecordRow>) -> bool {
    row_ids(rows).no_duplicates()
}

/// No row of one has the id of a row of the other.
pub open spec fn apart(xs: Seq<RawRecordRow>, ys: Seq<RawRecordRow>) -> bool {
    forall|i: int, j: int|
        0 <= i < xs.len() && 0 <= j < ys.len() ==> (#[trigger] xs[i]).id != (#[trigger] ys[j]).id
}

proof fn lemma_distinct_index(rows: Seq<RawRecordRow>)
    ensures
        distinct(rows) <==> forall|i: int, j: int|
            0 <= i < j < rows.len() ==> (#[trigger] rows[i]).id != (#[trigger] rows[j]).id,
{
    let ids = row_ids(rows);
    if distinct(rows) {
        assert forall|i: int, j: int| 0 <= i < j < rows.len() implies (#[trigger] rows[i]).id != (
        #[trigger] rows[j]).id by {
            assert(ids[i] != ids[j]);
        }
    }
    if forall|i: int, j: int|
        0 <= i < j < rows.len() ==> (#[trigger] rows[i]).id != (#[trigger] rows[j]).id {
        assert forall|i: int, j: int| 0 <= i < ids.len() && 0 <= j < ids.len() && i
            != j implies ids[i] != ids[j] by {
            assert(ids[i] == rows[i].id && ids[j] == rows[j].id);
        }
    }
}

proof fn lemma_distinct_add(xs: Seq<RawRecordRow>, ys: Seq<RawRecordRow>)
    requires
        distinct(xs),
        distinct(ys),
        apart(xs, ys),
    ensures
        distinct(xs + ys),
{
    lemma_distinct_index(xs);
    lemma_distinct_index(ys);
    lemma_distinct_index(xs + ys);
    let all = xs + ys;
    assert forall|i: int, j: int| 0 <= i < j < all.len() implies (#[trigger] all[i]).id != (
    #[trigger] all[j]).id by {
        if j < xs.len() {
            assert(all[i] == xs[i] && all[j] == xs[j]);
        } else if i >= xs.len() {
            assert(all[i] == ys[i - xs.len()] && all[j] == ys[j - xs.len()]);
        } else {
            assert(all[i] == xs[i] && all[j] == ys[j - xs.len()]);
        }
    }
}

proof fn lemma_distinct_take(rows: Seq<RawRecordRow>, n: int)
    requires
        distinct(rows),
        0 <= n <= rows.len(),
    ensures
        distinct(rows.take(n)),
{
    lemma_distinct_index(rows);
    lemma_distinct_index(rows.take(n));
}

/// A filter keeps distinct rows distinct, and keeps only rows that pass.
proof fn lemma_distinct_filter(rows: Seq<RawRecordRow>, f: spec_fn(RawRecordRow) -> bool)
    requires
        distinct(rows),
    ensures
        distinct(rows.filter(f)),
        forall|i: int| 0 <= i < rows.filter(f).len() ==> f(#[trigger] rows.filter(f)[i]),
        forall|i: int|
            0 <= i < rows.filter(f).len() ==> rows.contains(#[trigger] rows.filter(f)[i]),
    decreases rows.len(),
{
    reveal(Seq::filter);
    if rows.len() > 0 {
        let front = rows.drop_last();
        assert(front =~= rows.take(rows.len() - 1));
        lemma_distinct_take(rows, rows.len() - 1);
        lemma_distinct_filter(front, f);
        lemma_distinct_index(rows);
        let kept = front.filter(f);
        assert forall|i: int| 0 <= i < kept.len() implies rows.contains(#[trigger] kept[i])
            && kept[i].id != rows.last().id by {
            assert(front.contains(kept[i]));
            let j = choose|j: int| 0 <= j < front.len() && front[j] == kept[i];
            assert(rows[j] == kept[i]);
            assert(rows[j].id != rows[rows.len() - 1].id);
        }
        if f(rows.last()) {
            lemma_distinct_index(kept);
            lemma_distinct_index(rows.filter(f));
            assert(rows.contains(rows.last()));
        }
    }
}

/// Each id has at most one of some distinct rows.
proof fn lemma_rows_by_id(rows: Seq<RawRecordRow>, ids: Seq<u128>)
    requires
        distinct(rows),
        ids.no_duplicates(),
    ensures
        distinct(rows_by_id(rows, ids)),
        forall|i: int|
            0 <= i < rows_by_id(rows, ids).len() ==> ids.contains(
                (#[trigger] rows_by_id(rows, ids)[i]).id,
            ),
    decreases ids.len(),
{
    if ids.len() > 0 {
        let front = ids.drop_last();
        assert(front.no_duplicates());
        lemma_rows_by_id(rows, front);
        let xs = rows_by_id(rows, front);
        let ys = rows_of(rows, ids.last());
        lemma_distinct_filter(rows, |r: RawRecordRow| r.id == ids.last());
        assert forall|i: int, j: int| 0 <= i < xs.len() && 0 <= j < ys.len() implies (
        #[trigger] xs[i]).id != (#[trigger] ys[j]).id by {
            assert(front.contains(xs[i].id));
            let k = choose|k: int| 0 <= k < front.len() && front[k] == xs[i].id;
            assert(ids[k] == front[k]);
            assert(ids[k] != ids[ids.len() - 1]);
        }
        lemma_distinct_add(xs, ys);
        assert forall|i: int| 0 <= i < (xs + ys).len() implies ids.contains(
            (#[trigger] (xs + ys)[i]).id,
        ) by {
            if i < xs.len() {
                assert(front.contains(xs[i].id));
                let k = choose|k: int| 0 <= k < front.len() && front[k] == xs[i].id;
                assert(ids[k] == xs[i].id);
            } else {
                assert(ys[i - xs.len()].id == ids[ids.len() - 1]);
            }
        }
    } else {
        lemma_distinct_index(rows_by_id(rows, ids));
    }
}

proof fn lemma_rank_order_distinct(rows: Seq<RawRecordRow>, ids: Seq<u128>)
    requires
        distinct(rows),
        ids.no_duplicates(),
    ensures
        distinct(in_rank_order(rows, ids)),
{
    lemma_rows_by_id(rows, ids);
    lemma_distinct_filter(rows, |r: RawRecordRow| !ids.contains(r.id));
    lemma_distinct_add(rows_by_id(rows, ids), rows_beside(rows, ids));
}

proof fn lemma_references_distinct(
    records: Seq<RawRecordRow>,
    refs: Seq<RawRecordRow>,
    limit: nat,
)
    requires
        distinct(records),
        distinct(refs),
    ensures
        distinct(with_references(records, refs, limit)),
{
    let ids = row_ids(records);
    let new = rows_beside(refs, ids);
    lemma_distinct_filter(refs, |r: RawRecordRow| !ids.contains(r.id));
    assert forall|i: int, j: int| 0 <= i < new.len() && 0 <= j < records.len() implies (
    #[trigger] new[i]).id != (#[trigger] records[j]).id by {
        assert(ids[j] == records[j].id);
        assert(!ids.contains(new[i].id));
    }
    lemma_distinct_add(new, records);
    if (new + records).len() > limit {
        lemma_distinct_take(new + records, limit as int);
    }
}

/// What passes a filter and what does not are together what there was.
proof fn lemma_filter_parts(
    rows: Seq<RawRecordRow>,
    f: spec_fn(RawRecordRow) -> bool,
    g: spec_fn(RawRecordRow) -> bool,
)
    requires
        forall|r: RawRecordRow| (#[trigger] f(r)) != g(r),
    ensures
        rows.filter(f).to_multiset().add(rows.filter(g).to_multiset()) == rows.to_multiset(),
    decreases rows.len(),
{
    broadcast use vstd::seq_lib::group_to_multiset_ensures;

    reveal(Seq::filter);
    if rows.len() > 0 {
        let front = rows.drop_last();
        let x = rows.last();
        lemma_filter_parts(front, f, g);
        assert(f(x) != g(x));
        assert(rows =~= front.push(x));
        assert(rows.to_multiset() =~= front.to_multiset().insert(x));
        assert(rows.filter(f).to_multiset().add(rows.filter(g).to_multiset()) =~= front.filter(
            f,
        ).to_multiset().add(front.filter(g).to_multiset()).insert(x));
    } else {
        assert(rows.filter(f) =~= rows);
        assert(rows.filter(g) =~= rows);
        assert(rows.to_multiset().add(rows.to_multiset()) =~= rows.to_multiset()) by {
            assert(rows.to_multiset() =~= vstd::multiset::Multiset::<RawRecordRow>::empty());
        }
    }
}

/// Putting rows in the order of the ids that they were asked for by loses none
/// of them and adds none.
pub proof fn law_rank_order_loses_nothing(rows: Seq<RawRecordRow>, ids: Seq<u128>)
    requires
        ids.no_duplicates(),
    ensures
        in_rank_order(rows, ids).to_multiset() == rows.to_multiset(),
    decreases ids.len(),
{
    broadcast use vstd::seq_lib::group_to_multiset_ensures;

    if ids.len() == 0 {
        lemma_filter_all(rows, |r: RawRecordRow| !ids.contains(r.id));
        assert(in_rank_order(rows, ids) =~= rows);
    } else {
        let front = ids.drop_last();
        let id = ids.last();
        assert(front.no_duplicates());
        law_rank_order_loses_nothing(rows, front);
        let rest = rows_beside(rows, front);
        assert(!front.contains(id)) by {
            if front.contains(id) {
                let k = choose|k: int| 0 <= k < front.len() && front[k] == id;
                assert(ids[k] == ids[ids.len() - 1]);
            }
        }
        lemma_filter_twice(
            rows,
            |r: RawRecordRow| !front.contains(r.id),
            |r: RawRecordRow| r.id == id,
            |r: RawRecordRow| r.id == id,
        );
        assert forall|r: RawRecordRow| #[trigger] ids.contains(r.id) == (front.contains(r.id)
            || r.id == id) by {
            if front.contains(r.id) {
                let k = choose|k: int| 0 <= k < front.len() && front[k] == r.id;
                assert(ids[k] == r.id);
            }
            if r.id == id {
                assert(ids[ids.len() - 1] == r.id);
            }
            if ids.contains(r.id) {
                let k = choose|k: int| 0 <= k < ids.len() && ids[k] == r.id;
                if k < front.len() {
                    assert(front[k] == r.id);
                }
            }
        }
        lemma_filter_twice(
            rows,
            |r: RawRecordRow| !front.contains(r.id),
            |r: RawRecordRow| r.id != id,
            |r: RawRecordRow| !ids.contains(r.id),
        );
        lemma_filter_parts(rest, |r: RawRecordRow| r.id == id, |r: RawRecordRow| r.id != id);
        let a = rows_by_id(rows, front);
        let b = rows_of(rows, id);
        let c = rows_beside(rows, ids);
        vstd::seq_lib::lemma_multiset_commutative(a, rest);
        vstd::seq_lib::lemma_multiset_commutative(a, b);
        vstd::seq_lib::lemma_multiset_commutative(a + b, c);
        assert(in_rank_order(rows, ids).to_multiset() =~= rows.to_multiset());
    }
}

/// Whether every row of one sequence is a row of one of two others.
pub open spec fn drawn_from(
    out: Seq<RawRecordRow>,
    a: Seq<RawRecordRow>,
    b: Seq<RawRecordRow>,
) -> bool {
    forall|i: int|
        0 <= i < out.len() ==> a.contains(#[trigger] out[i]) || b.contains(out[i])
}

proof fn lemma_filter_drawn(rows: Seq<RawRecordRow>, f: spec_fn(RawRecordRow) -> bool, i: int)
    requires
        0 <= i < rows.filter(f).len(),
    ensures
        rows.contains(rows.filter(f)[i]),
    decreases rows.len(),
{
    reveal(Seq::filter);
    if rows.len() > 0 {
        let front = rows.drop_last();
        if i < front.filter(f).len() {
            lemma_filter_drawn(front, f, i);
            let j = choose|j: int| 0 <= j < front.len() && front[j] == front.filter(f)[i];
            assert(rows[j] == rows.filter(f)[i]);
        } else {
            assert(rows[rows.len() - 1] == rows.filter(f)[i]);
        }
    }
}

/// An answer is made of what was read and of nothing else: every record that is
/// held or answered after a step was held before it or has just been read.
pub proof fn law_answers_are_made_of_what_was_read(a: AssemblyView, event: EventView)
    requires
        well_formed(a),
        awaits(a, event),
    ensures
        ({
            let read = match event {
                EventView::Rows(rows) => rows,
                _ => Seq::empty(),
            };
            &&& drawn_from(advanced(a, event).0.records, a.records, read)
            &&& advanced(a, event).1 matches ActionView::Respond(r) ==> drawn_from(
                r.records,
                a.records,
                read,
            )
        }),
{
    broadcast use vstd::seq_lib::group_to_multiset_ensures;

    let read = match event {
        EventView::Rows(rows) => rows,
        _ => Seq::empty(),
    };
    assert forall|rows: Seq<RawRecordRow>| drawn_from(rows, a.records, read) implies drawn_from(
        #[trigger] clamped(rows, a.limit as int, a.budget),
        a.records,
        read,
    ) by {
        law_first_record_survives(rows, a.limit, a.budget);
        let out = clamped(rows, a.limit as int, a.budget);
        assert forall|i: int| 0 <= i < out.len() implies a.records.contains(#[trigger] out[i])
            || read.contains(out[i]) by {
            assert(out[i] == rows[i]);
        }
    }
    assert(drawn_from(a.records, a.records, read));
    assert(drawn_from(read, a.records, read));
    match event {
        EventView::Expanded(ids) => {
            lemma_absorbed(a.ordered, ids, a.limit);
            law_rank_order_loses_nothing(read, absorbed(a.ordered, ids, a.limit));
            lemma_same_rows(read, in_rank_order(read, absorbed(a.ordered, ids, a.limit)));
        },
        EventView::Touched => {
            law_rank_order_loses_nothing(read, a.ordered);
            lemma_same_rows(read, in_rank_order(read, a.ordered));
        },
        EventView::Rows(rows) => {
            if a.phase == Phase::Records {
                law_rank_order_loses_nothing(rows, a.ordered);
                lemma_same_rows(rows, in_rank_order(rows, a.ordered));
            } else if a.phase == Phase::References {
                let ids = row_ids(a.records);
                let new = rows_beside(rows, ids);
                assert forall|i: int| 0 <= i < new.len() implies rows.contains(
                    #[trigger] new[i],
                ) by {
                    lemma_filter_drawn(rows, |r: RawRecordRow| !ids.contains(r.id), i);
                }
                let out = with_references(a.records, rows, a.limit);
                assert forall|i: int| 0 <= i < out.len() implies a.records.contains(
                    #[trigger] out[i],
                ) || read.contains(out[i]) by {
                    assert(out[i] == (new + a.records)[i]);
                    if i < new.len() {
                        assert(out[i] == new[i]);
                    } else {
                        assert(out[i] == a.records[i - new.len()]);
                    }
                }
            } else if a.phase == Phase::Backstop {
                let out = a.records + rows;
                assert forall|i: int| 0 <= i < out.len() implies a.records.contains(
                    #[trigger] out[i],
                ) || read.contains(out[i]) by {
                    if i < a.records.len() {
                        assert(out[i] == a.records[i]);
                    } else {
                        assert(out[i] == rows[i - a.records.len()]);
                    }
                }
            }
        },
        _ => {},
    }
}

/// Rows that are the same but for their order hold the same rows.
proof fn lemma_same_rows(a: Seq<RawRecordRow>, b: Seq<RawRecordRow>)
    requires
        b.to_multiset() == a.to_multiset(),
    ensures
        forall|i: int| 0 <= i < b.len() ==> a.contains(#[trigger] b[i]),
{
    broadcast use vstd::seq_lib::group_to_multiset_ensures;

    assert forall|i: int| 0 <= i < b.len() implies a.contains(#[trigger] b[i]) by {
        assert(b.contains(b[i]));
        assert(b.to_multiset().contains(b[i]));
        assert(a.to_multiset().contains(b[i]));
    }
}

/// No record is answered twice: where each read gives distinct records, and
/// the direct search none of those it was told to leave out, the records held
/// and the records answered are distinct.
pub proof fn law_no_record_twice(a: AssemblyView, event: EventView)
    requires
        well_formed(a),
        awaits(a, event),
        distinct(a.records),
        event matches EventView::Rows(rows) ==> distinct(rows) && (a.phase == Phase::Backstop
            ==> apart(a.records, rows)),
    ensures
        distinct(advanced(a, event).0.records),
        advanced(a, event).1 matches ActionView::Respond(r) ==> distinct(r.records),
{
    assert forall|rows: Seq<RawRecordRow>| distinct(rows) implies distinct(
        #[trigger] clamped(rows, a.limit as int, a.budget),
    ) by {
        let page = at_most(rows, a.limit as int);
        if rows.len() > a.limit {
            lemma_distinct_take(rows, a.limit as int);
        }
        lemma_kept(page, a.budget, 0);
        lemma_distinct_take(page, kept(page, a.budget));
    }
    lemma_distinct_index(Seq::empty());
    match event {
        EventView::Expanded(ids) => {
            lemma_absorbed(a.ordered, ids, a.limit);
            lemma_rank_order_distinct(Seq::empty(), absorbed(a.ordered, ids, a.limit));
        },
        EventView::Touched => {
            lemma_rank_order_distinct(Seq::empty(), a.ordered);
        },
        EventView::Rows(rows) => {
            if a.phase == Phase::Records {
                lemma_rank_order_distinct(rows, a.ordered);
            } else if a.phase == Phase::References {
                lemma_references_distinct(a.records, rows, a.limit);
            } else if a.phase == Phase::Backstop {
                lemma_distinct_add(a.records, rows);
            }
        },
        _ => {},
    }
}

/// Whether all rows meet a condition.
pub open spec fn all_rows(rows: Seq<RawRecordRow>, p: spec_fn(RawRecordRow) -> bool) -> bool {
    forall|i: int| 0 <= i < rows.len() ==> p(#[trigger] rows[i])
}

/// Only rows that were handed in are ever answered: whatever holds of the rows
/// that are held and of those that were just read holds of the rows that are
/// held next and of those that are answered.
pub proof fn law_answer_holds_only_rows_handed_in(
    a: AssemblyView,
    event: EventView,
    p: spec_fn(RawRecordRow) -> bool,
)
    requires
        well_formed(a),
        awaits(a, event),
        all_rows(a.records, p),
        event matches EventView::Rows(rows) ==> all_rows(rows, p),
    ensures
        all_rows(advanced(a, event).0.records, p),
        advanced(a, event).1 matches ActionView::Respond(r) ==> all_rows(r.records, p),
{
    law_answers_are_made_of_what_was_read(a, event);
    let read = match event {
        EventView::Rows(rows) => rows,
        _ => Seq::empty(),
    };
    assert forall|out: Seq<RawRecordRow>| #[trigger] drawn_from(out, a.records, read) implies all_rows(
        out,
        p,
    ) by {
        assert forall|i: int| 0 <= i < out.len() implies p(#[trigger] out[i]) by {
            if a.records.contains(out[i]) {
                let k = choose|k: int| 0 <= k < a.records.len() && a.records[k] == out[i];
                assert(p(a.records[k]));
            } else {
                let k = choose|k: int| 0 <= k < read.len() && read[k] == out[i];
                assert(p(read[k]));
            }
        }
    }
}

/// What a read may give back: rows that all meet the condition, none of them
/// twice, and in direct search none of those that it was told to leave out.
pub open spec fn reads_well(
    a: AssemblyView,
    event: EventView,
    p: spec_fn(RawRecordRow) -> bool,
) -> bool {
    event matches EventView::Rows(rows) ==> all_rows(rows, p) && distinct(rows) && (a.phase
        == Phase::Backstop ==> apart(a.records, rows))
}

/// Whether each of the events is what the machine waits for when it comes, and
/// each read gives back what it may.
pub open spec fn runs_well(
    a: AssemblyView,
    events: Seq<EventView>,
    p: spec_fn(RawRecordRow) -> bool,
) -> bool
    decreases events.len(),
{
    events.len() == 0 || {
        &&& awaits(a, events[0])
        &&& reads_well(a, events[0], p)
        &&& runs_well(advanced(a, events[0]).0, events.drop_first(), p)
    }
}

/// Where the events lead from a state and the action that it began with.
pub open spec fn run(at: (AssemblyView, ActionView), events: Seq<EventView>) -> (
    AssemblyView,
    ActionView,
)
    decreases events.len(),
{
    if events.len() == 0 {
        at
    } else {
        run(advanced(at.0, events[0]), events.drop_first())
    }
}

proof fn lemma_run(
    at: (AssemblyView, ActionView),
    events: Seq<EventView>,
    p: spec_fn(RawRecordRow) -> bool,
)
    requires
        well_formed(at.0),
        all_rows(at.0.records, p),
        distinct(at.0.records),
        at.1 matches ActionView::Respond(r) ==> all_rows(r.records, p) && distinct(r.records),
        runs_well(at.0, events, p),
    ensures
        run(at, events).1 matches ActionView::Respond(r) ==> all_rows(r.records, p) && distinct(
            r.records,
        ),
    decreases events.len(),
{
    if events.len() > 0 {
        let a = at.0;
        law_stays_well_formed(a, events[0]);
        law_answer_holds_only_rows_handed_in(a, events[0], p);
        law_no_record_twice(a, events[0]);
        lemma_run(advanced(a, events[0]), events.drop_first(), p);
    }
}

/// Whether a record of the store may be answered to a user's request. Each part
/// is what one condition of the statements means: the record is the user's, no
/// other record of the user has taken its place, it is not in the container that
/// the request leaves out, and it is of the sandbox only where the request names
/// a project or asks for the sandbox.
pub open spec fn in_scope(
    store: Seq<RawRecordRow>,
    req: AssembleRequestView,
    user_id: Seq<char>,
) -> spec_fn(RawRecordRow) -> bool {
    |r: RawRecordRow|
        {
            &&& store.contains(r)
            &&& r.user_id@ == user_id
            &&& forall|k: int|
                0 <= k < store.len() && (#[trigger] store[k]).user_id@ == user_id
                    ==> store[k].supersedes != Some(r.id)
            &&& req.exclude_container_id is Some ==> opt_text(r.container_id)
                != req.exclude_container_id
            &&& req.project_id is None && !req.include_sandbox ==> opt_text(r.project_id) != Some(
                SANDBOX_PROJECT@,
            )
        }
}

/// What the statement of an action may select from the store: records in scope,
/// none of them twice, and none that the action leaves out.
pub open spec fn selection(
    store: Seq<RawRecordRow>,
    req: AssembleRequestView,
    user_id: Seq<char>,
    action: ActionView,
    rows: Seq<RawRecordRow>,
) -> bool {
    &&& all_rows(rows, in_scope(store, req, user_id))
    &&& rows.no_duplicates()
    &&& action matches ActionView::ReadBackstop { exclude, .. } ==> forall|i: int|
        0 <= i < rows.len() ==> !exclude.contains((#[trigger] rows[i]).id)
}

/// Whether each event is what came of the action before it, with the records
/// read from a store by the statements.
pub open spec fn carried_out(
    at: (AssemblyView, ActionView),
    events: Seq<EventView>,
    store: Seq<RawRecordRow>,
    req: AssembleRequestView,
    user_id: Seq<char>,
) -> bool
    decreases events.len(),
{
    events.len() == 0 || {
        &&& awaits(at.0, events[0])
        &&& events[0] matches EventView::Rows(rows) ==> selection(store, req, user_id, at.1, rows)
        &&& carried_out(advanced(at.0, events[0]), events.drop_first(), store, req, user_id)
    }
}

/// Direct search is told to leave out exactly the records that are held.
spec fn leaves_out_held(at: (AssemblyView, ActionView)) -> bool {
    at.0.phase == Phase::Backstop ==> (at.1 matches ActionView::ReadBackstop { exclude, .. }
        && exclude == row_ids(at.0.records))
}

/// Records that the statements select are records that a read may give back.
proof fn lemma_carried_out(
    at: (AssemblyView, ActionView),
    events: Seq<EventView>,
    store: Seq<RawRecordRow>,
    req: AssembleRequestView,
    user_id: Seq<char>,
)
    requires
        distinct(store),
        well_formed(at.0),
        leaves_out_held(at),
        carried_out(at, events, store, req, user_id),
    ensures
        runs_well(at.0, events, in_scope(store, req, user_id)),
    decreases events.len(),
{
    let p = in_scope(store, req, user_id);
    if events.len() > 0 {
        if let EventView::Rows(rows) = events[0] {
            assert(distinct(rows)) by {
                assert forall|i: int, j: int| 0 <= i < rows.len() && 0 <= j < rows.len() && i
                    != j implies row_ids(rows)[i] != row_ids(rows)[j] by {
                    assert(p(rows[i]) && p(rows[j]));
                    let a = choose|a: int| 0 <= a < store.len() && store[a] == rows[i];
                    let b = choose|b: int| 0 <= b < store.len() && store[b] == rows[j];
                    assert(row_ids(store)[a] == rows[i].id && row_ids(store)[b] == rows[j].id);
                }
            }
            if at.0.phase == Phase::Backstop {
                let held = at.0.records;
                assert(apart(held, rows)) by {
                    assert forall|i: int, j: int| 0 <= i < held.len() && 0 <= j
                        < rows.len() implies (#[trigger] held[i]).id != (#[trigger] rows[j]).id by {
                        assert(row_ids(held)[i] == held[i].id);
                        assert(!row_ids(held).contains(rows[j].id));
                    }
                }
            }
        }
        law_stays_well_formed(at.0, events[0]);
        lemma_carried_out(advanced(at.0, events[0]), events.drop_first(), store, req, user_id);
    }
}

/// An assembly keeps to its scope from its beginning to its answer. Whatever the
/// store holds, and whatever the statements select from it, every record that is
/// answered is one of the store's, the caller's own, current, not in the
/// container that was left out, and not of the sandbox unless that was asked
/// for; and none is answered twice.
pub proof fn law_answer_keeps_to_its_scope(
    store: Seq<RawRecordRow>,
    req: AssembleRequestView,
    user_id: Seq<char>,
    budget: usize,
    default_embedder: Seq<char>,
    events: Seq<EventView>,
)
    requires
        distinct(store),
        carried_out(begun(req, budget, default_embedder), events, store, req, user_id),
    ensures
        run(begun(req, budget, default_embedder), events).1 matches ActionView::Respond(r) ==> {
            &&& distinct(r.records)
            &&& forall|i: int|
                0 <= i < r.records.len() ==> in_scope(store, req, user_id)(#[trigger] r.records[i])
        },
{
    let first = begun(req, budget, default_embedder);
    lemma_carried_out(first, events, store, req, user_id);
    lemma_run(first, events, in_scope(store, req, user_id));
}

// ---------------------------------------------------------------------------
// The statements of the reads
// ---------------------------------------------------------------------------
/// The statement that carries out an action, where it is one that reads records,
/// nodes or ids.
pub open spec fn statement_of(action: ActionView, include_sandbox: bool, dim: usize) -> Option<
    Seq<char>,
> {
    match action {
        ActionView::ReadRecent => Some(recent_text(include_sandbox)),
        ActionView::ReadCrossMode => Some(cross_mode_text(include_sandbox)),
        ActionView::RankCurated => Some(rank_text(include_sandbox, dim)),
        ActionView::Expand { .. } => Some(expand_text()),
        ActionView::ReadRecords => Some(by_id_text(include_sandbox)),
        ActionView::ReadReferences => Some(references_text(include_sandbox, dim)),
        ActionView::ReadBackstop { .. } => Some(backstop_text(include_sandbox, dim)),
        _ => None,
    }
}

/// The statement that carries out an action, where it is one that reads records,
/// nodes or ids; `dim` is the length of the query's vector.
pub fn statement(action: &AssembleAction, include_sandbox: bool, dim: usize) -> (r: Option<String>)
    ensures
        opt_text(r) == statement_of(action@, include_sandbox, dim),
{
    match action {
        AssembleAction::ReadRecent => Some(recent_sql(include_sandbox)),
        AssembleAction::ReadCrossMode => Some(cross_mode_sql(include_sandbox)),
        AssembleAction::RankCurated => Some(rank_sql(include_sandbox, dim)),
        AssembleAction::Expand { .. } => Some(expand_sql()),
        AssembleAction::ReadRecords => Some(by_id_sql(include_sandbox)),
        AssembleAction::ReadReferences => Some(references_sql(include_sandbox, dim)),
        AssembleAction::ReadBackstop { .. } => Some(backstop_sql(include_sandbox, dim)),
        _ => None,
    }
}

/// An assembly changes no record: each of its statements is a query.
pub proof fn law_assembly_only_reads(action: ActionView, include_sandbox: bool, dim: usize)
    ensures
        statement_of(action, include_sandbox, dim) matches Some(text) ==> is_query(text),
{
    lemma_assembly_statements_are_queries(include_sandbox, dim);
}

// ---------------------------------------------------------------------------
// What an answer is made of
// ---------------------------------------------------------------------------
/// What is answered is all that was found, as far as it fits. A read of the newest
/// records, or across modes, is answered with the rows that were read; direct
/// search with the records held, then the rows read: all of them where they are no
/// more than the limit and their characters keep to the budget, without a warning
/// unless modes were spanned, and else the longest front part that does.
pub proof fn law_answer_leaves_nothing_out(a: AssemblyView, rows: Seq<RawRecordRow>)
    requires
        well_formed(a),
        a.phase == Phase::Recent || a.phase == Phase::CrossMode || a.phase == Phase::Backstop,
    ensures
        ({
            let found = if a.phase == Phase::Backstop {
                a.records + rows
            } else {
                rows
            };
            &&& advanced(a, EventView::Rows(rows)).1 matches ActionView::Respond(r) && {
                &&& longest_that_fits(r.records, found, a.limit as int, a.budget)
                &&& found.len() <= a.limit && (total_chars(found) <= a.budget || a.budget
                    == usize::MAX) ==> r.records == found
                &&& r.degraded == (a.phase == Phase::CrossMode)
                &&& !r.degraded && found.len() <= a.limit && total_chars(found) <= a.budget
                    ==> r.warning is None
                &&& r.degraded ==> r.warning is Some
                &&& r.records.len() < found.len() && r.records.len() < a.limit ==> r.warning is Some
            }
        }),
{
    let found = if a.phase == Phase::Backstop {
        a.records + rows
    } else {
        rows
    };
    law_nothing_that_fits_is_left_out(found, a.limit as int, a.budget);
}

/// A page that is full is answered as it stands, whatever filled it: the records
/// of the nodes in the order of their rank, or those with references before them.
/// One that is not full is topped up, for exactly what is missing and with nothing
/// that is there already; what is there stays.
pub proof fn law_pages_are_filled(a: AssemblyView, rows: Seq<RawRecordRow>)
    requires
        well_formed(a),
        a.phase == Phase::Records || a.phase == Phase::References,
    ensures
        ({
            let next = advanced(a, EventView::Rows(rows));
            let page = if a.phase == Phase::Records {
                in_rank_order(rows, a.ordered)
            } else {
                with_references(a.records, rows, a.limit)
            };
            if a.phase == Phase::Records && asks_about_now(a.query) {
                next.1 == ActionView::ReadReferences && next.0.records == page
            } else if page.len() < a.limit {
                &&& next.0.records == page
                &&& next.1 matches ActionView::ReadBackstop { need, exclude } && need + page.len()
                    == a.limit && exclude.len() == page.len() && forall|i: int|
                    0 <= i < page.len() ==> exclude[i] == (#[trigger] page[i]).id
            } else {
                next.1 matches ActionView::Respond(r) && longest_that_fits(
                    r.records,
                    page,
                    a.limit as int,
                    a.budget,
                ) && !r.degraded
            }
        }),
{
    let page = if a.phase == Phase::Records {
        in_rank_order(rows, a.ordered)
    } else {
        with_references(a.records, rows, a.limit)
    };
    law_nothing_that_fits_is_left_out(page, a.limit as int, a.budget);
}

proof fn lemma_rows_by_id_have(rows: Seq<RawRecordRow>, ids: Seq<u128>, i: int)
    requires
        0 <= i < rows_by_id(rows, ids).len(),
    ensures
        ids.contains(rows_by_id(rows, ids)[i].id),
    decreases ids.len(),
{
    let front = rows_by_id(rows, ids.drop_last());
    if i < front.len() {
        lemma_rows_by_id_have(rows, ids.drop_last(), i);
        let k = choose|k: int| 0 <= k < ids.drop_last().len() && ids.drop_last()[k] == front[i].id;
        assert(ids[k] == rows_by_id(rows, ids)[i].id);
    } else {
        rows.lemma_filter_pred(|r: RawRecordRow| r.id == ids.last(), i - front.len());
        assert(ids[ids.len() - 1] == rows_by_id(rows, ids)[i].id);
    }
}

/// Records follow the rank of the nodes that they were found under: of two whose
/// ids are ranked, the one whose id is ranked higher comes first, and those of no
/// ranked id come last.
pub proof fn law_records_follow_their_rank(
    rows: Seq<RawRecordRow>,
    ids: Seq<u128>,
    i: int,
    j: int,
    p: int,
    q: int,
)
    requires
        ids.no_duplicates(),
        0 <= i < in_rank_order(rows, ids).len(),
        0 <= j < in_rank_order(rows, ids).len(),
        0 <= p < ids.len(),
        in_rank_order(rows, ids)[i].id == ids[p],
        p < q,
        (q < ids.len() && in_rank_order(rows, ids)[j].id == ids[q]) || !ids.contains(
            in_rank_order(rows, ids)[j].id,
        ),
    ensures
        i < j,
{
    let out = in_rank_order(rows, ids);
    let ranked = rows_by_id(rows, ids);
    let f = |r: RawRecordRow| !ids.contains(r.id);
    if i >= ranked.len() {
        rows.lemma_filter_pred(f, i - ranked.len());
        assert(ids.contains(out[i].id));
    }
    if j < ranked.len() {
        lemma_rows_by_id_have(rows, ids, j);
        lemma_by_rank(rows, ids, i, j, p, q);
    }
}

proof fn lemma_by_rank(
    rows: Seq<RawRecordRow>,
    ids: Seq<u128>,
    i: int,
    j: int,
    p: int,
    q: int,
)
    requires
        ids.no_duplicates(),
        0 <= i < rows_by_id(rows, ids).len(),
        0 <= j < rows_by_id(rows, ids).len(),
        0 <= p < q < ids.len(),
        rows_by_id(rows, ids)[i].id == ids[p],
        rows_by_id(rows, ids)[j].id == ids[q],
    ensures
        i < j,
    decreases ids.len(),
{
    let less = ids.drop_last();
    let front = rows_by_id(rows, less);
    let last = ids.len() - 1;
    if i >= front.len() {
        rows.lemma_filter_pred(|r: RawRecordRow| r.id == ids.last(), i - front.len());
        assert(ids[p] == ids[last]);
    }
    if j < front.len() {
        lemma_rows_by_id_have(rows, less, j);
        let k = choose|k: int| 0 <= k < less.len() && less[k] == front[j].id;
        assert(ids[k] == ids[q]);
        assert(q == k);
        lemma_by_rank(rows, less, i, j, p, q);
    }
}

/// References lead: those that are not among the records stand before them, in
/// their order, and all of the records stay where there is room; a reference that
/// is a record already is not repeated.
pub proof fn law_references_lead(
    records: Seq<RawRecordRow>,
    refs: Seq<RawRecordRow>,
    limit: nat,
)
    ensures
        (forall|i: int|
            0 <= i < refs.len() ==> !row_ids(records).contains((#[trigger] refs[i]).id))
            && refs.len() + records.len() <= limit ==> with_references(records, refs, limit) == refs
            + records,
        (forall|i: int| 0 <= i < refs.len() ==> row_ids(records).contains((#[trigger] refs[i]).id))
            && records.len() <= limit ==> with_references(records, refs, limit) == records,
        with_references(records, refs, limit).len() <= limit,
{
    let f = |r: RawRecordRow| !row_ids(records).contains(r.id);
    if forall|i: int| 0 <= i < refs.len() ==> !row_ids(records).contains((#[trigger] refs[i]).id) {
        lemma_filter_keeps_all(refs, f);
    }
    if forall|i: int| 0 <= i < refs.len() ==> row_ids(records).contains((#[trigger] refs[i]).id) {
        lemma_filter_keeps_none(refs, f);
        assert(Seq::<RawRecordRow>::empty() + records =~= records);
    }
}

proof fn lemma_filter_keeps_all(v: Seq<RawRecordRow>, f: spec_fn(RawRecordRow) -> bool)
    requires
        forall|i: int| 0 <= i < v.len() ==> f(#[trigger] v[i]),
    ensures
        v.filter(f) == v,
    decreases v.len(),
{
    reveal(Seq::filter);
    if v.len() > 0 {
        assert(f(v[v.len() - 1]));
        lemma_filter_keeps_all(v.drop_last(), f);
        assert(v.drop_last().push(v.last()) =~= v);
    } else {
        assert(v.filter(f) =~= v);
    }
}

proof fn lemma_filter_keeps_none(v: Seq<RawRecordRow>, f: spec_fn(RawRecordRow) -> bool)
    requires
        forall|i: int| 0 <= i < v.len() ==> !f(#[trigger] v[i]),
    ensures
        v.filter(f) == Seq::<RawRecordRow>::empty(),
    decreases v.len(),
{
    reveal(Seq::filter);
    if v.len() > 0 {
        assert(!f(v[v.len() - 1]));
        lemma_filter_keeps_none(v.drop_last(), f);
    } else {
        assert(v.filter(f) =~= Seq::empty());
    }
}

/// Ids are taken in the order that they are found in, behind those that are there,
/// each once, and as long as there is room.
pub proof fn law_ids_are_taken_in_order(
    ordered: Seq<u128>,
    ids: Seq<u128>,
    id: u128,
    limit: nat,
)
    ensures
        absorbed(ordered, Seq::empty(), limit) == ordered,
        ({
            let before = absorbed(ordered, ids, limit);
            let after = absorbed(ordered, ids.push(id), limit);
            &&& !before.contains(id) && before.len() < limit ==> after == before.push(id)
            &&& before.contains(id) || before.len() >= limit ==> after == before
        }),
{
    assert(ids.push(id).drop_last() =~= ids);
    assert(ids.push(id).last() == id);
}

/// An assembly asks for as many records as it was asked for, between one and two
/// hundred, fifty where nothing was asked. Across modes it reads by words where
/// there are any, and the newest records where there are none; within one mode it
/// first finds out which: the one that is named, else the first that is listed,
/// else the default.
pub proof fn law_assembly_begins_as_asked(
    req: AssembleRequestView,
    budget: usize,
    default_embedder: Seq<char>,
    n: i64,
)
    ensures
        page_limit(None) == 50,
        1 <= n <= 200 ==> page_limit(Some(n)) == n,
        n < 1 ==> page_limit(Some(n)) == 1,
        n > 200 ==> page_limit(Some(n)) == 200,
        ({
            let (a, action) = begun(req, budget, default_embedder);
            &&& a.limit == page_limit(req.limit)
            &&& a.budget == budget
            &&& a.model == default_embedder
            &&& a.scope_mode is None
            &&& a.records.len() == 0 && a.ordered.len() == 0 && a.nodes.len() == 0
            &&& req.query matches Some(q) ==> a.query == q
            &&& req.query is None ==> a.query.len() == 0
            &&& spans_modes(modes_named(req)) && blank(a.query) ==> action == ActionView::ReadRecent
                && a.phase == Phase::Recent
            &&& spans_modes(modes_named(req)) && !blank(a.query) ==> action
                == ActionView::ReadCrossMode && a.phase == Phase::CrossMode
            &&& !spans_modes(modes_named(req)) ==> (action matches ActionView::ResolveMode(m) && {
                &&& req.mode is Some ==> m == req.mode
                &&& req.mode is None && req.modes is Some && req.modes->Some_0.len() > 0 ==> m == Some(
                    req.modes->Some_0[0],
                )
                &&& req.mode is None && (req.modes is None || req.modes->Some_0.len() == 0) ==> m
                    is None
            })
        }),
{
}

/// A query in one mode goes through the curated layer step by step: it is embedded
/// with the mode's embedder, the nodes are ranked, their clocks are reset, and they
/// are expanded in their order until the page is full; then their records are
/// read. Without a query the newest records are read at once.
pub proof fn law_query_goes_through_the_curated_layer(
    a: AssemblyView,
    mode: Option<ModeView>,
    dim: usize,
    nodes: Seq<u128>,
)
    requires
        well_formed(a),
    ensures
        a.phase == Phase::Mode ==> {
            let next = advanced(a, EventView::Mode(mode));
            &&& blank(a.query) ==> next.1 == ActionView::ReadRecent && next.0.phase == Phase::Recent
            &&& !blank(a.query) ==> next.1 == ActionView::EmbedQuery
            &&& mode matches Some(m) ==> next.0.model == m.embedder && next.0.scope_mode == Some(
                m.name,
            )
            &&& mode is None ==> next.0.model == a.model && next.0.scope_mode == a.scope_mode
            &&& next.0.limit == a.limit && next.0.query == a.query
        },
        a.phase == Phase::Embedding ==> {
            let next = advanced(a, EventView::Embedded(dim));
            next.1 == ActionView::RankCurated && next.0.column == embedding_column(dim as int)
        },
        a.phase == Phase::Ranking ==> {
            let next = advanced(a, EventView::Ranked(nodes));
            next.1 == ActionView::Touch && next.0.nodes == nodes
        },
        a.phase == Phase::Touch && a.nodes.len() > 0 ==> (advanced(a, EventView::Touched).1
            matches ActionView::Expand { node, cap } && node == a.nodes[0] && cap == a.limit),
        a.phase == Phase::Expansion && a.next < a.nodes.len() && absorbed(
            a.ordered,
            nodes,
            a.limit,
        ).len() < a.limit ==> (advanced(a, EventView::Expanded(nodes)).1 matches ActionView::Expand {
            node,
            cap,
        } && node == a.nodes[a.next as int] && advanced(a, EventView::Expanded(nodes)).0.next
            == a.next + 1),
        a.phase == Phase::Expansion && absorbed(a.ordered, nodes, a.limit).len() > 0 && (a.next
            == a.nodes.len() || absorbed(a.ordered, nodes, a.limit).len() >= a.limit) ==> advanced(
            a,
            EventView::Expanded(nodes),
        ).1 == ActionView::ReadRecords && advanced(a, EventView::Expanded(nodes)).0.ordered
            == absorbed(a.ordered, nodes, a.limit),
{
}

} // verus!
