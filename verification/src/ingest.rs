//! Taking records in, one by one and in bulk: what is refused, what is asked
//! before a record is stored, and what is stored.
use vstd::prelude::*;
use vstd::string::*;

use crate::assemble::{ModeInfo, ModeView};
use crate::bits::{clamp_unit_opt, unit_opt};
use crate::error::{AppError, ErrorView};
use crate::ids::{id_text, is_random_id, random_id, write_id};
use crate::records::{is_record_type, validate_type};
use crate::statements::{insert_head, insert_text, KEEP_STORED};
use crate::text::{blank, clone_text, is_blank, opt_text, same_text};
use crate::time::Timestamp;

verus! {

/// A record to be taken in. `importance` holds the bits of a number and
/// `payload` the text of a document, both as the source gave them.
#[derive(Debug, Clone)]
pub struct IngestRecordRequest {
    pub record_type: String,
    pub content: String,
    pub event_time: Option<Timestamp>,
    pub source: String,
    pub source_ref: Option<String>,
    pub project_id: Option<String>,
    pub container_id: Option<String>,
    pub mode: Option<String>,
    pub importance: Option<u32>,
    pub supersedes: Option<u128>,
    pub payload: Option<String>,
}

/// An [`IngestRecordRequest`] over character sequences.
#[verifier::ext_equal]
pub struct IngestView {
    pub record_type: Seq<char>,
    pub content: Seq<char>,
    pub event_time: Option<Timestamp>,
    pub source: Seq<char>,
    pub source_ref: Option<Seq<char>>,
    pub project_id: Option<Seq<char>>,
    pub container_id: Option<Seq<char>>,
    pub mode: Option<Seq<char>>,
    pub importance: Option<u32>,
    pub supersedes: Option<u128>,
    pub payload: Option<Seq<char>>,
}

impl View for IngestRecordRequest {
    type V = IngestView;

    open spec fn view(&self) -> IngestView {
        IngestView {
            record_type: self.record_type@,
            content: self.content@,
            event_time: self.event_time,
            source: self.source@,
            source_ref: opt_text(self.source_ref),
            project_id: opt_text(self.project_id),
            container_id: opt_text(self.container_id),
            mode: opt_text(self.mode),
            importance: self.importance,
            supersedes: self.supersedes,
            payload: opt_text(self.payload),
        }
    }
}

/// The answer to a record that was taken in.
#[derive(Debug, Clone, Copy, PartialEq, Eq, Structural)]
pub struct IngestRecordResponse {
    pub id: u128,
}

/// What came back from the last action.
#[derive(Debug, Clone)]
pub enum IngestEvent {
    /// The request has arrived.
    Arrived,
    /// Whose record the superseded one is, if it exists.
    Owner(Option<String>),
    /// The mode that the provider's classifier gives, if any.
    Classified(Option<String>),
    /// The mode that the record lands in, where one could be resolved.
    Mode(Option<ModeInfo>),
    /// The id under which the record was stored; none where its source had sent
    /// it before.
    Inserted(Option<u128>),
    /// The id of the record that the source had sent before.
    Found(Option<u128>),
}

/// An [`IngestEvent`] over character sequences.
pub enum IngestEventView {
    Arrived,
    Owner(Option<Seq<char>>),
    Classified(Option<Seq<char>>),
    Mode(Option<ModeView>),
    Inserted(Option<u128>),
    Found(Option<u128>),
}

/// A mode that may be missing, by its view.
pub open spec fn opt_mode(m: Option<ModeInfo>) -> Option<ModeView> {
    match m {
        Some(x) => Some(x@),
        None => None,
    }
}

impl View for IngestEvent {
    type V = IngestEventView;

    open spec fn view(&self) -> IngestEventView {
        match self {
            IngestEvent::Arrived => IngestEventView::Arrived,
            IngestEvent::Owner(u) => IngestEventView::Owner(opt_text(*u)),
            IngestEvent::Classified(m) => IngestEventView::Classified(opt_text(*m)),
            IngestEvent::Mode(m) => IngestEventView::Mode(opt_mode(*m)),
            IngestEvent::Inserted(id) => IngestEventView::Inserted(*id),
            IngestEvent::Found(id) => IngestEventView::Found(*id),
        }
    }
}

/// What to do next.
#[derive(Debug, Clone)]
pub enum IngestAction {
    Refuse(AppError),
    /// Find whose record this is.
    FindOwner(u128),
    /// Ask the provider's classifier for a mode.
    Classify,
    /// Resolve the mode: by the caller's choice, else by the classifier's.
    ResolveMode { chosen: Option<String>, classified: Option<String> },
    /// Store the record in this mode and with this importance, unless its source
    /// has sent it before. One that is new is embedded with this embedder.
    Store { mode: Option<String>, importance: Option<u32>, embedder: String },
    /// Find the record that the source has sent before.
    FindStored { source: String, source_ref: String },
    /// Answer, and embed the record if it is new.
    Answer { response: IngestRecordResponse, fresh: bool },
}

/// An [`IngestAction`] over character sequences.
pub enum IngestActionView {
    Refuse(ErrorView),
    FindOwner(u128),
    Classify,
    ResolveMode { chosen: Option<Seq<char>>, classified: Option<Seq<char>> },
    Store { mode: Option<Seq<char>>, importance: Option<u32>, embedder: Seq<char> },
    FindStored { source: Seq<char>, source_ref: Seq<char> },
    Answer { response: IngestRecordResponse, fresh: bool },
}

impl View for IngestAction {
    type V = IngestActionView;

    open spec fn view(&self) -> IngestActionView {
        match self {
            IngestAction::Refuse(e) => IngestActionView::Refuse(e@),
            IngestAction::FindOwner(id) => IngestActionView::FindOwner(*id),
            IngestAction::Classify => IngestActionView::Classify,
            IngestAction::ResolveMode { chosen, classified } => IngestActionView::ResolveMode {
                chosen: opt_text(*chosen),
                classified: opt_text(*classified),
            },
            IngestAction::Store { mode, importance, embedder } => IngestActionView::Store {
                mode: opt_text(*mode),
                importance: *importance,
                embedder: embedder@,
            },
            IngestAction::FindStored { source, source_ref } => IngestActionView::FindStored {
                source: source@,
                source_ref: source_ref@,
            },
            IngestAction::Answer { response, fresh } => IngestActionView::Answer {
                response: *response,
                fresh: *fresh,
            },
        }
    }
}

/// What is wrong with a record on its face.
pub open spec fn record_fault(record_type: Seq<char>, content: Seq<char>) -> Option<ErrorView> {
    if !is_record_type(record_type) {
        Some(ErrorView::BadRequest("unknown type: "@ + record_type))
    } else if blank(content) {
        Some(ErrorView::BadRequest("content must not be empty"@))
    } else {
        None
    }
}

/// The classifier is asked only where the caller chose no mode.
pub open spec fn mode_step(chosen: Option<Seq<char>>) -> IngestActionView {
    if chosen is Some {
        IngestActionView::ResolveMode { chosen, classified: None }
    } else {
        IngestActionView::Classify
    }
}

/// The embedder that a mode pins, or the default one.
pub open spec fn embedder_of(mode: Option<ModeView>, default_embedder: Seq<char>) -> Seq<char> {
    match mode {
        Some(m) => m.embedder,
        None => default_embedder,
    }
}

/// The answer where a record is neither stored anew nor found among the stored
/// ones.
pub open spec fn not_stored() -> IngestActionView {
    IngestActionView::Refuse(ErrorView::Internal("record was not stored"@))
}

/// The step from what came back to what is done next.
pub open spec fn ingest_step(
    req: IngestView,
    user_id: Seq<char>,
    default_embedder: Seq<char>,
    event: IngestEventView,
) -> IngestActionView {
    match event {
        IngestEventView::Arrived => match record_fault(req.record_type, req.content) {
            Some(e) => IngestActionView::Refuse(e),
            None => match req.supersedes {
                Some(id) => IngestActionView::FindOwner(id),
                None => mode_step(req.mode),
            },
        },
        IngestEventView::Owner(owner) => match req.supersedes {
            Some(id) => if owner == Some(user_id) {
                mode_step(req.mode)
            } else {
                IngestActionView::Refuse(
                    ErrorView::BadRequest("supersedes target "@ + id_text(id) + " not found"@),
                )
            },
            None => mode_step(req.mode),
        },
        IngestEventView::Classified(m) => IngestActionView::ResolveMode {
            chosen: req.mode,
            classified: m,
        },
        IngestEventView::Mode(mode) => IngestActionView::Store {
            mode: match mode {
                Some(m) => Some(m.name),
                None => None,
            },
            importance: unit_opt(req.importance),
            embedder: embedder_of(mode, default_embedder),
        },
        IngestEventView::Inserted(new_id) => match (new_id, req.source_ref) {
            (Some(id), _) => IngestActionView::Answer {
                response: IngestRecordResponse { id },
                fresh: true,
            },
            (None, Some(source_ref)) => IngestActionView::FindStored {
                source: req.source,
                source_ref,
            },
            (None, None) => not_stored(),
        },
        IngestEventView::Found(id) => match id {
            Some(id) => IngestActionView::Answer {
                response: IngestRecordResponse { id },
                fresh: false,
            },
            None => not_stored(),
        },
    }
}

/// Refuses a record of an unknown type or without content.
pub fn check_record(record_type: &str, content: &str) -> (r: Result<(), AppError>)
    ensures
        match r {
            Ok(_) => record_fault(record_type@, content@) is None,
            Err(e) => record_fault(record_type@, content@) == Some(e@),
        },
{
    match validate_type(record_type) {
        Ok(_) => {},
        Err(e) => {
            return Err(e);
        },
    }
    if is_blank(content) {
        return Err(AppError::bad_request("content must not be empty"));
    }
    Ok(())
}

/// Which mode question comes first.
pub fn resolve_ingest_mode(chosen: &Option<String>) -> (r: IngestAction)
    ensures
        r@ == mode_step(opt_text(*chosen)),
{
    if chosen.is_some() {
        IngestAction::ResolveMode { chosen: clone_text(chosen), classified: None }
    } else {
        IngestAction::Classify
    }
}

/// The embedder that a mode pins, or the default one.
pub fn embedder_for(mode: &Option<ModeInfo>, default_embedder: &str) -> (r: String)
    ensures
        r@ == embedder_of(opt_mode(*mode), default_embedder@),
{
    match mode {
        Some(m) => m.embedder.clone(),
        None => default_embedder.to_owned(),
    }
}

/// Takes a record in, step by step: checks it, makes sure that what it
/// supersedes is the caller's own, settles its mode, stores it, and answers with
/// its id, or with that of the stored one where its source had sent it before.
pub fn ingest_record(
    req: &IngestRecordRequest,
    user_id: &str,
    default_embedder: &str,
    event: IngestEvent,
) -> (r: IngestAction)
    ensures
        r@ == ingest_step(req@, user_id@, default_embedder@, event@),
{
    match event {
        IngestEvent::Arrived => {
            match check_record(req.record_type.as_str(), req.content.as_str()) {
                Ok(_) => {},
                Err(e) => {
                    return IngestAction::Refuse(e);
                },
            }
            match req.supersedes {
                Some(id) => IngestAction::FindOwner(id),
                None => resolve_ingest_mode(&req.mode),
            }
        },
        IngestEvent::Owner(owner) => match req.supersedes {
            Some(id) => {
                let own = match &owner {
                    Some(u) => same_text(u.as_str(), user_id),
                    None => false,
                };
                if own {
                    resolve_ingest_mode(&req.mode)
                } else {
                    let mut message = String::from_str("supersedes target ");
                    message.append(write_id(id).as_str());
                    message.append(" not found");
                    IngestAction::Refuse(AppError::BadRequest(message))
                }
            },
            None => resolve_ingest_mode(&req.mode),
        },
        IngestEvent::Classified(m) => IngestAction::ResolveMode {
            chosen: clone_text(&req.mode),
            classified: m,
        },
        IngestEvent::Mode(mode) => {
            let embedder = embedder_for(&mode, default_embedder);
            let name = match mode {
                Some(m) => Some(m.name),
                None => None,
            };
            IngestAction::Store { mode: name, importance: clamp_unit_opt(req.importance), embedder }
        },
        IngestEvent::Inserted(new_id) => match new_id {
            Some(id) => IngestAction::Answer { response: IngestRecordResponse { id }, fresh: true },
            None => match &req.source_ref {
                Some(source_ref) => IngestAction::FindStored {
                    source: req.source.clone(),
                    source_ref: source_ref.clone(),
                },
                None => IngestAction::Refuse(
                    AppError::Internal("record was not stored".to_owned()),
                ),
            },
        },
        IngestEvent::Found(id) => match id {
            Some(id) => IngestAction::Answer {
                response: IngestRecordResponse { id },
                fresh: false,
            },
            None => IngestAction::Refuse(AppError::Internal("record was not stored".to_owned())),
        },
    }
}

/// When a record happened: when its source says, or else now.
pub open spec fn time_of(event_time: Option<Timestamp>, now: Timestamp) -> Timestamp {
    match event_time {
        Some(t) => t,
        None => now,
    }
}

/// A record's id and the time that it is stored with: a new id, and the
/// present where the source gave no time.
pub fn stamp(event_time: Option<Timestamp>, now: Timestamp) -> (r: (u128, Timestamp))
    ensures
        is_random_id(r.0),
        r.1 == (match event_time {
            Some(t) => t,
            None => now,
        }),
        r.1 == time_of(event_time, now),
{
    let id = random_id();
    let at = match event_time {
        Some(t) => t,
        None => now,
    };
    (id, at)
}

/// A record is never stored before everything that could refuse it has been
/// settled: a fault refuses it at once, and one that supersedes another goes on
/// only where that one is the caller's.
pub proof fn law_foreign_supersede_is_refused(
    req: IngestView,
    user_id: Seq<char>,
    default_embedder: Seq<char>,
    owner: Option<Seq<char>>,
)
    requires
        req.supersedes is Some,
        owner != Some(user_id),
    ensures
        !(ingest_step(req, user_id, default_embedder, IngestEventView::Arrived) is Store),
        !(ingest_step(req, user_id, default_embedder, IngestEventView::Arrived) is ResolveMode),
        !(ingest_step(req, user_id, default_embedder, IngestEventView::Arrived) is Classify),
        ingest_step(req, user_id, default_embedder, IngestEventView::Owner(owner)) is Refuse,
{
}

/// What a source calls its record: the source and its own name for the record.
pub type SourceKey = (Seq<char>, Seq<char>);

/// What a record is known by, where its source has a name for it.
pub open spec fn source_key(source: Seq<char>, source_ref: Option<Seq<char>>) -> Option<SourceKey> {
    match source_ref {
        Some(r) => Some((source, r)),
        None => None,
    }
}

/// What storing a record comes to under [`KEEP_STORED`], where `stored` holds
/// what a user's records are known by: whether it is new, and what is stored
/// then.
pub open spec fn keep_stored(stored: Set<SourceKey>, key: Option<SourceKey>) -> (
    bool,
    Set<SourceKey>,
) {
    match key {
        Some(k) => (!stored.contains(k), stored.insert(k)),
        None => (true, stored),
    }
}

/// A record that its source names can be sent again: the statement that stores
/// it keeps what is stored, so the second time nothing is added, and the answer
/// is the record that is there; it is not embedded again.
pub proof fn law_resending_changes_nothing(
    req: IngestView,
    user_id: Seq<char>,
    default_embedder: Seq<char>,
    stored: Set<SourceKey>,
    id: u128,
)
    requires
        req.source_ref is Some,
    ensures
        insert_text() == insert_head() + KEEP_STORED@,
        ({
            let key = source_key(req.source, req.source_ref);
            let first = keep_stored(stored, key).1;
            keep_stored(first, key) == (false, first)
        }),
        ingest_step(req, user_id, default_embedder, IngestEventView::Inserted(None))
            == (IngestActionView::FindStored {
            source: req.source,
            source_ref: req.source_ref->Some_0,
        }),
        ingest_step(req, user_id, default_embedder, IngestEventView::Found(Some(id)))
            == (IngestActionView::Answer { response: IngestRecordResponse { id }, fresh: false }),
{
    let key = source_key(req.source, req.source_ref);
    let first = keep_stored(stored, key).1;
    assert(keep_stored(first, key).1 =~= first);
}

// ---------------------------------------------------------------------------
// Bulk import
// ---------------------------------------------------------------------------
/// One record of an import.
#[derive(Debug, Clone)]
pub struct ImportRecord {
    pub record_type: String,
    pub content: String,
    pub event_time: Option<Timestamp>,
    pub source: String,
    pub source_ref: Option<String>,
    pub project_id: Option<String>,
    pub container_id: Option<String>,
    pub mode: Option<String>,
    pub importance: Option<u32>,
    pub payload: Option<String>,
}

/// A bulk import.
#[derive(Debug, Clone)]
pub struct ImportRequest {
    pub records: Vec<ImportRecord>,
}

/// How many records of an import were taken in and how many were not.
#[derive(Debug, Clone, Copy, PartialEq, Eq, Structural)]
pub struct ImportResponse {
    pub imported: usize,
    pub skipped: usize,
}

/// A record that was stored and is still to be embedded.
#[derive(Debug, Clone)]
pub struct Inserted {
    pub id: u128,
    pub content: String,
    pub embedder: String,
}

/// An [`Inserted`] over character sequences.
pub struct InsertedView {
    pub id: u128,
    pub content: Seq<char>,
    pub embedder: Seq<char>,
}

impl View for Inserted {
    type V = InsertedView;

    open spec fn view(&self) -> InsertedView {
        InsertedView { id: self.id, content: self.content@, embedder: self.embedder@ }
    }
}

/// The stored records, by their views.
pub open spec fn inserted_view(v: Seq<Inserted>) -> Seq<InsertedView> {
    v.map_values(|x: Inserted| x@)
}

/// Whether a record of an import is worth storing.
pub open spec fn importable(r: ImportRecord) -> bool {
    record_fault(r.record_type@, r.content@) is None
}

/// The first importable record from place `i` on; the length where there is
/// none.
pub open spec fn next_importable(records: Seq<ImportRecord>, i: int) -> int
    decreases records.len() - i,
{
    if i >= records.len() {
        records.len() as int
    } else if importable(records[i]) {
        i
    } else {
        next_importable(records, i + 1)
    }
}

/// An import under way: the records, the next one to look at, and those that
/// were stored.
#[derive(Debug, Clone)]
pub struct ImportRun {
    pub records: Vec<ImportRecord>,
    pub next: usize,
    pub inserted: Vec<Inserted>,
}

impl ImportRun {
    /// No more was stored than was looked at.
    pub open spec fn well_formed(&self) -> bool {
        self.inserted@.len() <= self.next <= self.records@.len()
    }

    /// Begins an import.
    pub fn new(req: ImportRequest) -> (r: ImportRun)
        ensures
            r.well_formed(),
            r.records@ == req.records@,
            r.next == 0,
            r.inserted@.len() == 0,
    {
        ImportRun { records: req.records, next: 0, inserted: Vec::new() }
    }

    /// The next record to store. Records of an unknown type or without content
    /// are passed over.
    pub fn next_record(&mut self) -> (r: Option<usize>)
        requires
            old(self).well_formed(),
        ensures
            final(self).well_formed(),
            final(self).records == old(self).records,
            final(self).inserted == old(self).inserted,
            ({
                let p = next_importable(old(self).records@, old(self).next as int);
                match r {
                    Some(i) => i == p && p < final(self).records@.len() && importable(
                        final(self).records@[i as int],
                    ) && final(self).next == p + 1 && final(self).inserted@.len()
                        < final(self).next,
                    None => p == final(self).records@.len() && final(self).next == p,
                }
            }),
    {
        let ghost start = self.next as int;
        while self.next < self.records.len()
            invariant
                self.well_formed(),
                self.records == old(self).records,
                self.inserted == old(self).inserted,
                next_importable(self.records@, start) == next_importable(
                    self.records@,
                    self.next as int,
                ),
                start == old(self).next,
            decreases self.records@.len() - self.next,
        {
            let i: usize = self.next;
            self.next = i + 1;
            let r = &self.records[i];
            if check_record(r.record_type.as_str(), r.content.as_str()).is_ok() {
                return Some(i);
            }
        }
        None
    }

    /// Notes what became of record `i`: `new_id` is `None` where the store had
    /// it already.
    pub fn stored(&mut self, i: usize, new_id: Option<u128>, embedder: String)
        requires
            old(self).well_formed(),
            old(self).inserted@.len() < old(self).next,
            i < old(self).records@.len(),
        ensures
            final(self).well_formed(),
            final(self).records == old(self).records,
            final(self).next == old(self).next,
            inserted_view(final(self).inserted@) == (match new_id {
                Some(id) => inserted_view(old(self).inserted@).push(
                    InsertedView {
                        id,
                        content: old(self).records@[i as int].content@,
                        embedder: embedder@,
                    },
                ),
                None => inserted_view(old(self).inserted@),
            }),
    {
        if let Some(id) = new_id {
            let content = self.records[i].content.clone();
            self.inserted.push(Inserted { id, content, embedder });
            assert(inserted_view(self.inserted@) =~= inserted_view(old(self).inserted@).push(
                InsertedView {
                    id,
                    content: old(self).records@[i as int].content@,
                    embedder: embedder@,
                },
            ));
        }
    }

    /// The tally: what was stored, and everything else.
    pub fn response(&self) -> (r: ImportResponse)
        requires
            self.well_formed(),
        ensures
            r.imported == self.inserted@.len(),
            r.imported + r.skipped == self.records@.len(),
    {
        ImportResponse {
            imported: self.inserted.len(),
            skipped: self.records.len() - self.inserted.len(),
        }
    }
}

/// What a record of an import is known by.
pub open spec fn import_key(r: ImportRecord) -> Option<SourceKey> {
    source_key(r.source@, opt_text(r.source_ref))
}

/// How many records an import stores from place `i` on, and what is stored then:
/// the importable ones, one after the other, each under [`KEEP_STORED`].
pub open spec fn import_from(records: Seq<ImportRecord>, i: int, stored: Set<SourceKey>) -> (
    nat,
    Set<SourceKey>,
)
    decreases records.len() - i,
{
    let p = next_importable(records, i);
    if !(i <= p < records.len()) {
        (0, stored)
    } else {
        let (new, then) = keep_stored(stored, import_key(records[p]));
        let (rest, end) = import_from(records, p + 1, then);
        (
            if new {
                rest + 1
            } else {
                rest
            },
            end,
        )
    }
}

proof fn lemma_next_importable(records: Seq<ImportRecord>, i: int)
    requires
        0 <= i <= records.len(),
    ensures
        i <= next_importable(records, i) <= records.len(),
        forall|j: int|
            i <= j < next_importable(records, i) ==> !importable(#[trigger] records[j]),
        next_importable(records, i) < records.len() ==> importable(
            records[next_importable(records, i)],
        ),
    decreases records.len() - i,
{
    if i < records.len() && !importable(records[i]) {
        lemma_next_importable(records, i + 1);
    }
}

/// After an import everything is stored that was stored before and everything
/// importable that has a name.
proof fn lemma_import_stores(records: Seq<ImportRecord>, i: int, stored: Set<SourceKey>)
    requires
        0 <= i <= records.len(),
    ensures
        stored.subset_of(import_from(records, i, stored).1),
        forall|j: int|
            i <= j < records.len() && importable(#[trigger] records[j]) && import_key(
                records[j],
            ) is Some ==> import_from(records, i, stored).1.contains(
                import_key(records[j])->Some_0,
            ),
    decreases records.len() - i,
{
    lemma_next_importable(records, i);
    let p = next_importable(records, i);
    if p < records.len() {
        let then = keep_stored(stored, import_key(records[p])).1;
        lemma_import_stores(records, p + 1, then);
    }
}

proof fn lemma_import_adds_nothing(records: Seq<ImportRecord>, i: int, stored: Set<SourceKey>)
    requires
        0 <= i <= records.len(),
        forall|j: int|
            i <= j < records.len() && importable(#[trigger] records[j]) ==> import_key(
                records[j],
            ) is Some && stored.contains(import_key(records[j])->Some_0),
    ensures
        import_from(records, i, stored) == (0nat, stored),
    decreases records.len() - i,
{
    lemma_next_importable(records, i);
    let p = next_importable(records, i);
    if p < records.len() {
        assert(importable(records[p]));
        let then = keep_stored(stored, import_key(records[p])).1;
        assert(then =~= stored);
        lemma_import_adds_nothing(records, p + 1, stored);
    }
}

/// Importing records again under the names that their sources have for them adds
/// nothing, whatever has become of their contents, as long as nothing has become
/// importable that was not.
pub proof fn law_reimport_adds_nothing(
    first: Seq<ImportRecord>,
    again: Seq<ImportRecord>,
    stored: Set<SourceKey>,
)
    requires
        first.len() == again.len(),
        forall|i: int|
            0 <= i < again.len() ==> import_key(#[trigger] again[i]) is Some && import_key(
                again[i],
            ) == import_key(first[i]) && (importable(again[i]) ==> importable(first[i])),
    ensures
        ({
            let then = import_from(first, 0, stored).1;
            import_from(again, 0, then) == (0nat, then)
        }),
{
    let then = import_from(first, 0, stored).1;
    lemma_import_stores(first, 0, stored);
    assert forall|j: int| 0 <= j < again.len() && importable(#[trigger] again[j]) implies import_key(
        again[j],
    ) is Some && then.contains(import_key(again[j])->Some_0) by {
        assert(importable(first[j]) && import_key(first[j]) is Some);
    }
    lemma_import_adds_nothing(again, 0, then);
}

/// One round of an import: the next importable record is offered to the store,
/// and noted as stored where it is new.
pub open spec fn import_round(
    before: (ImportRun, Set<SourceKey>),
    after: (ImportRun, Set<SourceKey>),
) -> bool {
    let p = next_importable(before.0.records@, before.0.next as int);
    &&& p < before.0.records@.len()
    &&& after.0.records == before.0.records
    &&& after.0.next == p + 1
    &&& after.1 == keep_stored(before.1, import_key(before.0.records@[p])).1
    &&& after.0.inserted@.len() == before.0.inserted@.len() + if keep_stored(
        before.1,
        import_key(before.0.records@[p]),
    ).0 {
        1int
    } else {
        0
    }
}

/// An import that has come to its end has stored as many records as were new to
/// the store, and the store holds what it held and they.
pub proof fn law_import_follows_the_store(rounds: Seq<(ImportRun, Set<SourceKey>)>)
    requires
        rounds.len() > 0,
        rounds[0].0.well_formed(),
        forall|k: int| 1 <= k < rounds.len() ==> import_round(rounds[k - 1], #[trigger] rounds[k]),
        next_importable(rounds.last().0.records@, rounds.last().0.next as int)
            == rounds.last().0.records@.len(),
    ensures
        ({
            let first = rounds[0];
            let (new, stored) = import_from(first.0.records@, first.0.next as int, first.1);
            &&& rounds.last().0.inserted@.len() == first.0.inserted@.len() + new
            &&& rounds.last().0.records == first.0.records
            &&& rounds.last().1 == stored
        }),
    decreases rounds.len(),
{
    let first = rounds[0];
    lemma_next_importable(first.0.records@, first.0.next as int);
    if rounds.len() > 1 {
        let rest = rounds.drop_first();
        assert(import_round(rounds[0], rounds[1]));
        assert forall|k: int| 1 <= k < rest.len() implies import_round(
            rest[k - 1],
            #[trigger] rest[k],
        ) by {
            assert(rest[k] == rounds[k + 1]);
        }
        assert(rest.last() == rounds.last());
        lemma_rounds_stay_well_formed(first, rounds[1]);
        law_import_follows_the_store(rest);
    }
}

proof fn lemma_rounds_stay_well_formed(
    before: (ImportRun, Set<SourceKey>),
    after: (ImportRun, Set<SourceKey>),
)
    requires
        before.0.well_formed(),
        import_round(before, after),
    ensures
        after.0.well_formed(),
{
    lemma_next_importable(before.0.records@, before.0.next as int);
}

/// A step of an import that finds its record stored already.
pub open spec fn found_stored(before: ImportRun, after: ImportRun) -> bool {
    &&& after.well_formed()
    &&& after.records == before.records
    &&& inserted_view(after.inserted@) == inserted_view(before.inserted@)
}

/// An import that finds every record stored already has imported nothing and
/// skipped everything.
pub proof fn law_nothing_new_is_all_skipped(
    req: ImportRequest,
    runs: Seq<ImportRun>,
    r: ImportResponse,
)
    requires
        runs.len() > 0,
        runs[0].records@ == req.records@,
        runs[0].inserted@.len() == 0,
        forall|k: int| 1 <= k < runs.len() ==> found_stored(runs[k - 1], #[trigger] runs[k]),
        r.imported == runs.last().inserted@.len(),
        r.imported + r.skipped == runs.last().records@.len(),
    ensures
        r.imported == 0,
        r.skipped == req.records@.len(),
    decreases runs.len(),
{
    if runs.len() > 1 {
        let less = runs.drop_last();
        let n = runs.len() - 1;
        assert(found_stored(runs[n - 1], runs[n]));
        assert(inserted_view(runs[n].inserted@).len() == inserted_view(
            runs[n - 1].inserted@,
        ).len());
        assert forall|k: int| 1 <= k < less.len() implies found_stored(
            less[k - 1],
            #[trigger] less[k],
        ) by {
            assert(less[k] == runs[k]);
        }
        law_nothing_new_is_all_skipped(req, less, r);
    }
}

/// The records that one embedder is to embed.
#[derive(Debug, Clone)]
pub struct EmbedGroup {
    pub embedder: String,
    pub ids: Vec<u128>,
    pub contents: Vec<String>,
}

/// The stored records of an embedder, in their order.
pub open spec fn of_embedder(v: Seq<InsertedView>, embedder: Seq<char>) -> Seq<InsertedView> {
    v.filter(|x: InsertedView| x.embedder == embedder)
}

/// Whether a group holds exactly these records.
pub open spec fn group_holds(g: EmbedGroup, v: Seq<InsertedView>) -> bool {
    &&& g.ids@.len() == v.len()
    &&& g.contents@.len() == v.len()
    &&& forall|i: int|
        0 <= i < v.len() ==> g.ids@[i] == (#[trigger] v[i]).id && g.contents@[i]@ == v[i].content
}

/// The embedders of the groups.
pub open spec fn group_keys(v: Seq<EmbedGroup>) -> Seq<Seq<char>> {
    v.map_values(|g: EmbedGroup| g.embedder@)
}

/// One group for each embedder, with all of its records and no others.
pub open spec fn grouped(groups: Seq<EmbedGroup>, v: Seq<InsertedView>) -> bool {
    &&& group_keys(groups).no_duplicates()
    &&& forall|i: int|
        0 <= i < groups.len() ==> group_holds(
            #[trigger] groups[i],
            of_embedder(v, groups[i].embedder@),
        ) && groups[i].ids@.len() > 0
    &&& forall|i: int|
        0 <= i < v.len() ==> group_keys(groups).contains((#[trigger] v[i]).embedder)
}

fn find_group(groups: &Vec<EmbedGroup>, embedder: &str) -> (r: Option<usize>)
    ensures
        match r {
            Some(i) => i < groups@.len() && groups@[i as int].embedder@ == embedder@,
            None => !group_keys(groups@).contains(embedder@),
        },
{
    let mut i: usize = 0;
    while i < groups.len()
        invariant
            i <= groups@.len(),
            forall|j: int| 0 <= j < i ==> group_keys(groups@)[j] != embedder@,
        decreases groups@.len() - i,
    {
        if same_text(groups[i].embedder.as_str(), embedder) {
            return Some(i);
        }
        i += 1;
    }
    None
}

/// The stored records by embedder, so that each embedder is asked once.
pub fn group_by_embedder(inserted: &Vec<Inserted>) -> (r: Vec<EmbedGroup>)
    ensures
        grouped(r@, inserted_view(inserted@)),
{
    let ghost all = inserted_view(inserted@);
    let mut groups: Vec<EmbedGroup> = Vec::new();
    let mut k: usize = 0;
    while k < inserted.len()
        invariant
            k <= inserted@.len(),
            all == inserted_view(inserted@),
            grouped(groups@, all.take(k as int)),
        decreases inserted@.len() - k,
    {
        let x = &inserted[k];
        let ghost now = all.take(k as int);
        let ghost next = all.take(k + 1);
        let ghost before = groups@;
        proof {
            assert(next.drop_last() =~= now);
            assert(next.last() == x@);
            reveal(Seq::filter);
            assert forall|e: Seq<char>| #[trigger] of_embedder(next, e) == (if x@.embedder == e {
                of_embedder(now, e).push(x@)
            } else {
                of_embedder(now, e)
            }) by {}
        }
        match find_group(&groups, x.embedder.as_str()) {
            Some(i) => {
                let content = x.content.clone();
                let g = &mut groups[i];
                g.ids.push(x.id);
                g.contents.push(content);
                proof {
                    assert(group_keys(groups@) =~= group_keys(before));
                    assert forall|j: int| 0 <= j < groups@.len() implies group_holds(
                        #[trigger] groups@[j],
                        of_embedder(next, groups@[j].embedder@),
                    ) && groups@[j].ids@.len() > 0 by {
                        assert(group_holds(before[j], of_embedder(now, before[j].embedder@)));
                        if j != i {
                            assert(group_keys(before)[j] != group_keys(before)[i as int]);
                        }
                    }
                    assert(group_keys(groups@)[i as int] == x@.embedder);
                }
            },
            None => {
                let mut ids: Vec<u128> = Vec::new();
                ids.push(x.id);
                let mut contents: Vec<String> = Vec::new();
                contents.push(x.content.clone());
                groups.push(EmbedGroup { embedder: x.embedder.clone(), ids, contents });
                proof {
                    assert(of_embedder(now, x@.embedder) =~= Seq::empty()) by {
                        broadcast use vstd::seq_lib::group_filter_ensures;

                        if of_embedder(now, x@.embedder).len() > 0 {
                            lemma_of_embedder(now, x@.embedder, 0);
                        }
                    }
                    assert(group_keys(groups@) =~= group_keys(before).push(x@.embedder));
                    assert forall|j: int| 0 <= j < groups@.len() implies group_holds(
                        #[trigger] groups@[j],
                        of_embedder(next, groups@[j].embedder@),
                    ) && groups@[j].ids@.len() > 0 by {
                        if j < before.len() {
                            assert(group_holds(before[j], of_embedder(now, before[j].embedder@)));
                            assert(group_keys(before)[j] == groups@[j].embedder@);
                            assert(group_keys(before).contains(group_keys(before)[j]));
                        }
                    }
                    assert(group_keys(groups@)[before.len() as int] == x@.embedder);
                    assert forall|e: Seq<char>| group_keys(before).contains(e) implies group_keys(
                        groups@,
                    ).contains(e) by {
                        let j = choose|j: int|
                            0 <= j < before.len() && group_keys(before)[j] == e;
                        assert(group_keys(groups@)[j] == e);
                    }
                }
            },
        }
        proof {
            assert forall|j: int| 0 <= j < next.len() implies group_keys(groups@).contains(
                (#[trigger] next[j]).embedder,
            ) by {
                if j < k {
                    assert(now[j] == next[j]);
                    assert(group_keys(before).contains(now[j].embedder));
                }
            }
        }
        k += 1;
    }
    assert(all.take(k as int) =~= all);
    groups
}

/// A record of an embedder is one of the stored ones.
proof fn lemma_of_embedder(v: Seq<InsertedView>, embedder: Seq<char>, i: int)
    requires
        0 <= i < of_embedder(v, embedder).len(),
    ensures
        exists|j: int| 0 <= j < v.len() && (#[trigger] v[j]).embedder == embedder,
    decreases v.len(),
{
    reveal(Seq::filter);
    if v.len() > 0 {
        if v.last().embedder == embedder {
            assert(v[v.len() - 1].embedder == embedder);
        } else {
            let front = v.drop_last();
            lemma_of_embedder(front, embedder, i);
            let j = choose|j: int| 0 <= j < front.len() && (#[trigger] front[j]).embedder == embedder;
            assert(v[j].embedder == embedder);
        }
    }
}

/// Whether an embedder is the default one, which embeds in batches: its model
/// is the default model, or its key is unknown.
pub fn uses_batch(model: Option<&str>, default_model: &str) -> (r: bool)
    ensures
        r == (match model {
            Some(m) => m@ == default_model@,
            None => true,
        }),
{
    match model {
        Some(m) => same_text(m, default_model),
        None => true,
    }
}

/// The statement that writes a vector of this dimension.
pub fn embedding_insert_sql(dim: usize) -> (r: String)
    ensures
        r@ == "INSERT INTO raw_embeddings (record_id, model, "@
            + crate::records::embedding_column(dim as int)
            + ") VALUES ($1, $2, $3) ON CONFLICT (record_id, model) DO NOTHING"@,
{
    let mut sql = String::from_str("INSERT INTO raw_embeddings (record_id, model, ");
    sql.append(crate::records::embedding_col_for_dim(dim));
    sql.append(") VALUES ($1, $2, $3) ON CONFLICT (record_id, model) DO NOTHING");
    sql
}

// ---------------------------------------------------------------------------
// What taking a record in is for
// ---------------------------------------------------------------------------
/// A record is refused exactly where its type is none of three or it says nothing.
pub proof fn law_records_that_are_taken(record_type: Seq<char>, content: Seq<char>)
    ensures
        record_fault(record_type, content) is None <==> !blank(content) && (record_type
            == "conversation"@ || record_type == "document"@ || record_type == "state_object"@),
        record_fault(record_type, content) matches Some(e) ==> e is BadRequest,
{
}

/// Each step of taking a record in goes on as the last one came out: a fault
/// refuses it; what it supersedes is looked up first and must be the caller's; the
/// caller's mode is resolved without asking the classifier, which is asked where
/// there is none, and whose word then counts only beside none of the caller's; the
/// record is stored in the mode that was found, with its importance confined to
/// the unit, for the embedder of that mode or the default one.
pub proof fn law_record_is_taken_step_by_step(
    req: IngestView,
    user_id: Seq<char>,
    default_embedder: Seq<char>,
    classified: Option<Seq<char>>,
    mode: Option<ModeView>,
    id: u128,
)
    requires
        record_fault(req.record_type, req.content) is None,
    ensures
        ({
            let step = |e: IngestEventView| ingest_step(req, user_id, default_embedder, e);
            let settle = if req.mode is Some {
                IngestActionView::ResolveMode { chosen: req.mode, classified: None }
            } else {
                IngestActionView::Classify
            };
            &&& req.supersedes matches Some(old) ==> step(IngestEventView::Arrived)
                == IngestActionView::FindOwner(old) && step(IngestEventView::Owner(Some(user_id)))
                == settle
            &&& req.supersedes is None ==> step(IngestEventView::Arrived) == settle
            &&& step(IngestEventView::Classified(classified)) == (IngestActionView::ResolveMode {
                chosen: req.mode,
                classified,
            })
            &&& step(IngestEventView::Mode(mode)) matches IngestActionView::Store {
                mode: name,
                importance,
                embedder,
            } && {
                &&& mode matches Some(m) ==> name == Some(m.name) && embedder == m.embedder
                &&& mode is None ==> name is None && embedder == default_embedder
                &&& req.importance matches Some(i) ==> importance == Some(crate::bits::unit(i))
                &&& req.importance is None ==> importance is None
            }
            &&& step(IngestEventView::Inserted(Some(id))) == (IngestActionView::Answer {
                response: IngestRecordResponse { id },
                fresh: true,
            })
        }),
{
}

/// A store that keeps what it has counts a record as new exactly where its source
/// has no name for it or it has not got that name; afterwards it has it, and
/// everything that it had.
pub proof fn law_store_keeps_what_it_has(
    stored: Set<SourceKey>,
    source: Seq<char>,
    name: Seq<char>,
    other: SourceKey,
)
    ensures
        keep_stored(stored, source_key(source, None)) == (true, stored),
        keep_stored(stored, source_key(source, Some(name))).0 <==> !stored.contains((source, name)),
        keep_stored(stored, source_key(source, Some(name))).1.contains((source, name)),
        other != (source, name) ==> (keep_stored(
            stored,
            source_key(source, Some(name)),
        ).1.contains(other) <==> stored.contains(other)),
{
}

/// An import looks at every record in turn and passes over none that can be
/// stored.
pub proof fn law_import_passes_over_nothing_good(records: Seq<ImportRecord>, i: int)
    requires
        0 <= i <= records.len(),
    ensures
        i <= next_importable(records, i) <= records.len(),
        next_importable(records, i) < records.len() ==> importable(
            records[next_importable(records, i)],
        ),
        forall|j: int|
            i <= j < next_importable(records, i) ==> !importable(#[trigger] records[j]),
{
    lemma_next_importable(records, i);
}

/// Records that are to be embedded are each in the group of their embedder, once
/// and in their order, and a group holds nothing else.
pub proof fn law_groups_hold_their_records(
    groups: Seq<EmbedGroup>,
    v: Seq<InsertedView>,
    g: int,
    k: int,
)
    requires
        grouped(groups, v),
        0 <= g < groups.len(),
        0 <= k < v.len(),
    ensures
        forall|i: int|
            0 <= i < groups[g].ids@.len() ==> exists|j: int|
                0 <= j < v.len() && (#[trigger] v[j]).id == (#[trigger] groups[g].ids@[i])
                    && v[j].embedder == groups[g].embedder@ && v[j].content
                    == groups[g].contents@[i]@,
        v[k].embedder == groups[g].embedder@ ==> groups[g].ids@.contains(v[k].id),
        exists|h: int| 0 <= h < groups.len() && (#[trigger] groups[h]).embedder@ == v[k].embedder,
{
    let f = |x: InsertedView| x.embedder == groups[g].embedder@;
    let mine = of_embedder(v, groups[g].embedder@);
    assert(group_holds(groups[g], mine));
    assert forall|i: int| 0 <= i < groups[g].ids@.len() implies exists|j: int|
        0 <= j < v.len() && (#[trigger] v[j]).id == (#[trigger] groups[g].ids@[i])
            && v[j].embedder == groups[g].embedder@ && v[j].content == groups[g].contents@[i]@ by {
        v.lemma_filter_pred(f, i);
        assert(mine.contains(mine[i]));
        v.lemma_filter_contains_rev(f, mine[i]);
        let j = choose|j: int| 0 <= j < v.len() && v[j] == mine[i];
        assert(v[j].id == groups[g].ids@[i]);
    }
    if v[k].embedder == groups[g].embedder@ {
        v.lemma_filter_contains(f, k);
        let i = choose|i: int| 0 <= i < mine.len() && mine[i] == v[k];
        assert(groups[g].ids@[i] == mine[i].id);
    }
    assert(group_keys(groups).contains(v[k].embedder));
    let h = choose|h: int| 0 <= h < groups.len() && group_keys(groups)[h] == v[k].embedder;
    assert(groups[h].embedder@ == v[k].embedder);
}

/// A record happened when its source says, whatever the time is now.
pub proof fn law_records_keep_their_time(t: Timestamp, now: Timestamp)
    ensures
        time_of(Some(t), now) == t,
        time_of(None, now) == now,
{
}

} // verus!
