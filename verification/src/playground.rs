//! The playground: one turn of the memory loop at a time, in a sandbox.
use vstd::prelude::*;
use vstd::string::*;

use crate::assemble::{AssembleResponse, ResponseView, SANDBOX_PROJECT};
use crate::config::{ProviderConfig, ProviderKind, ProviderView};
use crate::error::{AppError, ErrorView};
use crate::ingest::{IngestRecordRequest, IngestView};
use crate::json::{quote, quoted};
use crate::records::{AssembleRequest, AssembleRequestView, RawRecordRow};
use crate::settings::{norm, tidy, url_fault, validate_base_url};
use crate::stream::{messages_view, LlmSettings, LlmStats, LlmView, MessageView, PromptMessage};
use crate::text::{
    blank, char_from, clone_text, decimal, decimal_text, find_char, from_range, is_blank,
    lemma_blank_trims_to_nothing, lemma_char_from, lines, lines_of, opt_text, same_text, texts,
    to_chars, trim, trimmed,
};
use crate::time::{day_read, noon, noon_of, Timestamp};

verus! {

/// The source of a user's turn.
pub const SOURCE_USER: &'static str = "playground:user";

/// The source of a model's turn.
pub const SOURCE_ASSISTANT: &'static str = "playground:assistant";

/// How many memories a turn retrieves where nothing else is set.
pub const DEFAULT_LIMIT: i64 = 12;

/// The framing of a prompt where nothing else is set.
pub const DEFAULT_SYSTEM_PROMPT: &'static str =
    "You are a helpful assistant with persistent memory. Answer in a few sentences unless asked for detail — most of the wait a user experiences is output length.";

/// What a trace says where no model will run.
pub const NO_MODEL: &'static str =
    "No model configured — set a base URL and model in the playground settings, or configure the system provider on the Settings page (the playground inherits it). Retrieval still ran; the trace is complete up to the point a model would have been called.";

/// One turn of a conversation.
#[derive(Debug, Clone)]
pub struct TurnRequest {
    pub message: String,
    pub container_id: String,
    pub mode: Option<String>,
    pub limit: Option<i64>,
    pub api_key: Option<String>,
    pub include_real: bool,
}

/// A [`TurnRequest`] over character sequences.
#[verifier::ext_equal]
pub struct TurnRequestView {
    pub message: Seq<char>,
    pub container_id: Seq<char>,
    pub mode: Option<Seq<char>>,
    pub limit: Option<i64>,
    pub api_key: Option<Seq<char>>,
    pub include_real: bool,
}

impl View for TurnRequest {
    type V = TurnRequestView;

    open spec fn view(&self) -> TurnRequestView {
        TurnRequestView {
            message: self.message@,
            container_id: self.container_id@,
            mode: opt_text(self.mode),
            limit: self.limit,
            api_key: opt_text(self.api_key),
            include_real: self.include_real,
        }
    }
}

/// The scope that a turn reads: the sandbox alone, or the real store too. First
/// the project, then whether an unscoped read takes in the sandbox.
pub open spec fn scope_of(include_real: bool) -> (Option<Seq<char>>, bool) {
    if include_real {
        (None, true)
    } else {
        (Some(SANDBOX_PROJECT@), false)
    }
}

/// The scope that a turn reads.
pub fn turn_scope(include_real: bool) -> (r: (Option<String>, bool))
    ensures
        (opt_text(r.0), r.1) == scope_of(include_real),
{
    if include_real {
        (None, true)
    } else {
        (Some(SANDBOX_PROJECT.to_owned()), false)
    }
}

// ---------------------------------------------------------------------------
// Settings of the playground
// ---------------------------------------------------------------------------
/// An operator's settings.
#[derive(Debug, Clone)]
pub struct Settings {
    pub base_url: Option<String>,
    pub model: Option<String>,
    pub system_prompt: Option<String>,
    pub context_limit: Option<i32>,
}

/// A [`Settings`] over character sequences.
#[verifier::ext_equal]
pub struct PlaygroundView {
    pub base_url: Option<Seq<char>>,
    pub model: Option<Seq<char>>,
    pub system_prompt: Option<Seq<char>>,
    pub context_limit: Option<i32>,
}

impl View for Settings {
    type V = PlaygroundView;

    open spec fn view(&self) -> PlaygroundView {
        PlaygroundView {
            base_url: opt_text(self.base_url),
            model: opt_text(self.model),
            system_prompt: opt_text(self.system_prompt),
            context_limit: self.context_limit,
        }
    }
}

/// Settings that set nothing.
pub open spec fn nothing_set() -> PlaygroundView {
    PlaygroundView { base_url: None, model: None, system_prompt: None, context_limit: None }
}

impl Default for Settings {
    fn default() -> (r: Settings)
        ensures
            r@ == nothing_set(),
    {
        Settings { base_url: None, model: None, system_prompt: None, context_limit: None }
    }
}

/// Settings as they are saved: texts trimmed and blank ones dropped, and a
/// limit only where it lies on a page.
pub open spec fn saved_settings(s: PlaygroundView) -> PlaygroundView {
    PlaygroundView {
        base_url: tidy(s.base_url),
        model: tidy(s.model),
        system_prompt: tidy(s.system_prompt),
        context_limit: match s.context_limit {
            Some(n) => if 0 < n <= 200 {
                Some(n)
            } else {
                None
            },
            None => None,
        },
    }
}

/// The settings to save. A base URL that must not be called is refused.
pub fn save_settings(req: Settings) -> (r: Result<Settings, AppError>)
    ensures
        ({
            let s = saved_settings(req@);
            match r {
                Ok(x) => x@ == s && (s.base_url matches Some(u) ==> url_fault(u) is None),
                Err(e) => s.base_url matches Some(u) && url_fault(u) matches Some(fault) && e@
                    == ErrorView::BadRequest(fault),
            }
        }),
{
    let base_url = norm(req.base_url);
    if let Some(u) = &base_url {
        match validate_base_url(u.as_str()) {
            Ok(_) => {},
            Err(e) => {
                return Err(AppError::BadRequest(e));
            },
        }
    }
    let context_limit = match req.context_limit {
        Some(n) => if 0 < n && n <= 200 {
            Some(n)
        } else {
            None
        },
        None => None,
    };
    Ok(
        Settings {
            base_url,
            model: norm(req.model),
            system_prompt: norm(req.system_prompt),
            context_limit,
        },
    )
}

// ---------------------------------------------------------------------------
// The model of a turn
// ---------------------------------------------------------------------------
/// The model that an operator's own settings name, where they name one.
pub open spec fn own_model(own: PlaygroundView, key: Option<Seq<char>>) -> Option<LlmView> {
    match (own.base_url, own.model) {
        (Some(base_url), Some(model)) => Some(LlmView { base_url, model, api_key: key }),
        _ => None,
    }
}

/// The model of the system provider, where it is remote and has a base. A key
/// from the browser wins over the server's.
pub open spec fn system_model(sys: ProviderView, key: Option<Seq<char>>) -> Option<LlmView> {
    match sys.remote.api_base {
        Some(base_url) => if sys.kind == ProviderKind::Remote {
            Some(
                LlmView {
                    base_url,
                    model: sys.remote.distill_model,
                    api_key: if key is Some {
                        key
                    } else if sys.remote.api_key.len() > 0 {
                        Some(sys.remote.api_key)
                    } else {
                        None
                    },
                },
            )
        } else {
            None
        },
        None => None,
    }
}

/// The model of a turn, and whether it was inherited from the system.
pub open spec fn model_of(own: PlaygroundView, sys: ProviderView, key: Option<Seq<char>>) -> (
    Option<LlmView>,
    bool,
) {
    if own_model(own, key) is Some {
        (own_model(own, key), false)
    } else {
        (system_model(sys, key), system_model(sys, key) is Some)
    }
}

/// A model that may be missing, by its view.
pub open spec fn opt_llm(m: Option<LlmSettings>) -> Option<LlmView> {
    match m {
        Some(x) => Some(x@),
        None => None,
    }
}

fn own_llm(own: &Settings, browser_key: &Option<String>) -> (r: Option<LlmSettings>)
    ensures
        opt_llm(r) == own_model(own@, opt_text(*browser_key)),
{
    if let Some(base) = &own.base_url {
        if let Some(model) = &own.model {
            return Some(
                LlmSettings {
                    base_url: base.clone(),
                    model: model.clone(),
                    api_key: clone_text(browser_key),
                },
            );
        }
    }
    None
}

/// The model that a turn runs with: the operator's own where both of its fields
/// are set, else the system's.
pub fn resolve_llm_settings(own: &Settings, sys: &ProviderConfig, browser_key: &Option<String>) -> (r: (
    Option<LlmSettings>,
    bool,
))
    ensures
        (opt_llm(r.0), r.1) == model_of(own@, sys@, opt_text(*browser_key)),
{
    let mine = own_llm(own, browser_key);
    if mine.is_some() {
        return (mine, false);
    }
    if sys.kind == ProviderKind::Remote {
        if let Some(base) = &sys.remote.api_base {
            let api_key = match browser_key {
                Some(k) => Some(k.clone()),
                None => if sys.remote.api_key.as_str().is_empty() {
                    None
                } else {
                    Some(sys.remote.api_key.clone())
                },
            };
            return (
                Some(
                    LlmSettings {
                        base_url: base.clone(),
                        model: sys.remote.distill_model.clone(),
                        api_key,
                    },
                ),
                true,
            );
        }
    }
    (None, false)
}

// ---------------------------------------------------------------------------
// What was retrieved, and the prompt
// ---------------------------------------------------------------------------
/// A memory that a turn retrieved.
#[derive(Debug, Clone)]
pub struct RetrievedItem {
    pub id: u128,
    pub item_type: String,
    pub source: String,
    pub content: String,
    pub event_time: String,
    pub container_id: Option<String>,
    pub sandbox: bool,
}

/// A [`RetrievedItem`] over character sequences.
#[verifier::ext_equal]
pub struct RetrievedView {
    pub id: u128,
    pub item_type: Seq<char>,
    pub source: Seq<char>,
    pub content: Seq<char>,
    pub event_time: Seq<char>,
    pub container_id: Option<Seq<char>>,
    pub sandbox: bool,
}

impl View for RetrievedItem {
    type V = RetrievedView;

    open spec fn view(&self) -> RetrievedView {
        RetrievedView {
            id: self.id,
            item_type: self.item_type@,
            source: self.source@,
            content: self.content@,
            event_time: self.event_time@,
            container_id: opt_text(self.container_id),
            sandbox: self.sandbox,
        }
    }
}

/// Retrieved memories, each by its view.
pub open spec fn retrieved_view(v: Seq<RetrievedItem>) -> Seq<RetrievedView> {
    v.map_values(|i: RetrievedItem| i@)
}

/// A record as it is shown to the operator.
pub open spec fn shown(r: RawRecordRow) -> RetrievedView {
    RetrievedView {
        id: r.id,
        item_type: r.record_type@,
        source: r.source@,
        content: r.content@,
        event_time: r.event_time.rfc3339(),
        container_id: opt_text(r.container_id),
        sandbox: opt_text(r.project_id) == Some(SANDBOX_PROJECT@),
    }
}

/// A record as it is shown to the operator, marked where it lies in the
/// sandbox.
pub fn retrieved_item(r: &RawRecordRow) -> (item: RetrievedItem)
    ensures
        item@ == shown(*r),
{
    RetrievedItem {
        id: r.id,
        item_type: r.record_type.clone(),
        source: r.source.clone(),
        content: r.content.clone(),
        event_time: r.event_time.to_rfc3339(),
        container_id: clone_text(&r.container_id),
        sandbox: match &r.project_id {
            Some(p) => same_text(p.as_str(), SANDBOX_PROJECT),
            None => false,
        },
    }
}

/// The records as they are shown.
pub open spec fn all_shown(rows: Seq<RawRecordRow>) -> Seq<RetrievedView> {
    rows.map_values(|r: RawRecordRow| shown(r))
}

fn retrieved_items(rows: &Vec<RawRecordRow>) -> (r: Vec<RetrievedItem>)
    ensures
        retrieved_view(r@) == all_shown(rows@),
{
    let mut out: Vec<RetrievedItem> = Vec::new();
    let mut i: usize = 0;
    while i < rows.len()
        invariant
            i <= rows@.len(),
            out@.len() == i,
            forall|j: int| 0 <= j < i ==> (#[trigger] out@[j])@ == shown(rows@[j]),
        decreases rows@.len() - i,
    {
        out.push(retrieved_item(&rows[i]));
        i += 1;
    }
    assert(retrieved_view(out@) =~= all_shown(rows@));
    out
}

/// The memories, numbered, each with its origin and its trimmed text.
pub open spec fn numbered(items: Seq<RetrievedView>) -> Seq<char>
    decreases items.len(),
{
    if items.len() == 0 {
        Seq::empty()
    } else {
        let it = items.last();
        numbered(items.drop_last()) + "["@ + decimal(items.len()) + "] ("@ + it.item_type + ", "@
            + it.source + ", "@ + it.event_time + ")\n"@ + trimmed(it.content) + "\n\n"@
    }
}

/// The context block of a prompt.
pub open spec fn context_block(items: Seq<RetrievedView>) -> Seq<char> {
    "Relevant memories retrieved for this turn. Use them only if they bear on what was asked; say so plainly if they don't.\n\n"@
        + numbered(items)
}

/// Renders retrieved memories as the context block of a prompt.
pub fn render_context_block(items: &Vec<RetrievedItem>) -> (r: String)
    ensures
        r@ == context_block(retrieved_view(items@)),
{
    let ghost all = retrieved_view(items@);
    let mut s = String::from_str(
        "Relevant memories retrieved for this turn. Use them only if they bear on what was asked; say so plainly if they don't.\n\n",
    );
    let ghost head = s@;
    let mut i: usize = 0;
    assert(head + numbered(all.take(0)) =~= head);
    while i < items.len()
        invariant
            i <= items@.len(),
            all == retrieved_view(items@),
            s@ == head + numbered(all.take(i as int)),
        decreases items@.len() - i,
    {
        let it = &items[i];
        let ghost was = s@;
        s.append("[");
        s.append(decimal_text(i as u64 + 1).as_str());
        s.append("] (");
        s.append(it.item_type.as_str());
        s.append(", ");
        s.append(it.source.as_str());
        s.append(", ");
        s.append(it.event_time.as_str());
        s.append(")\n");
        s.append(trim(it.content.as_str()).as_str());
        s.append("\n\n");
        proof {
            let next = all.take(i + 1);
            assert(next.drop_last() =~= all.take(i as int));
            assert(next.last() == it@);
            assert(s@ =~= head + numbered(next));
        }
        i += 1;
    }
    assert(all.take(i as int) =~= all);
    s
}

/// The framing of a prompt: the operator's own, unless it is blank.
pub open spec fn framing(s: PlaygroundView) -> Seq<char> {
    match tidy(s.system_prompt) {
        Some(p) => p,
        None => DEFAULT_SYSTEM_PROMPT@,
    }
}

/// The prompt of a turn: the framing, the memories where there are any, and the
/// message itself.
pub open spec fn prompt_of(
    s: PlaygroundView,
    retrieved: Seq<RetrievedView>,
    message: Seq<char>,
) -> Seq<MessageView> {
    let first = seq![MessageView { role: "system"@, content: framing(s) }];
    let last = seq![MessageView { role: "user"@, content: message }];
    if retrieved.len() == 0 {
        first + last
    } else {
        first + seq![MessageView { role: "system"@, content: context_block(retrieved) }] + last
    }
}

/// The prompt of a turn.
pub fn build_prompt(settings: &Settings, retrieved: &Vec<RetrievedItem>, message: &str) -> (r: Vec<
    PromptMessage,
>)
    ensures
        messages_view(r@) == prompt_of(settings@, retrieved_view(retrieved@), message@),
{
    let frame = match norm(clone_text(&settings.system_prompt)) {
        Some(p) => p,
        None => DEFAULT_SYSTEM_PROMPT.to_owned(),
    };
    let mut prompt: Vec<PromptMessage> = Vec::new();
    prompt.push(PromptMessage { role: "system".to_owned(), content: frame });
    if retrieved.len() > 0 {
        prompt.push(
            PromptMessage { role: "system".to_owned(), content: render_context_block(retrieved) },
        );
    }
    prompt.push(PromptMessage { role: "user".to_owned(), content: message.to_owned() });
    assert(messages_view(prompt@) =~= prompt_of(
        settings@,
        retrieved_view(retrieved@),
        message@,
    ));
    prompt
}

fn clone_messages(v: &Vec<PromptMessage>) -> (r: Vec<PromptMessage>)
    ensures
        messages_view(r@) == messages_view(v@),
{
    let mut out: Vec<PromptMessage> = Vec::new();
    let mut i: usize = 0;
    while i < v.len()
        invariant
            i <= v@.len(),
            out@.len() == i,
            forall|j: int| 0 <= j < i ==> (#[trigger] out@[j])@ == v@[j]@,
        decreases v@.len() - i,
    {
        let m = &v[i];
        out.push(PromptMessage { role: m.role.clone(), content: m.content.clone() });
        i += 1;
    }
    assert(messages_view(out@) =~= messages_view(v@));
    out
}

fn clone_ids(v: &Vec<u128>) -> (r: Vec<u128>)
    ensures
        r@ == v@,
{
    let mut out: Vec<u128> = Vec::new();
    let mut i: usize = 0;
    while i < v.len()
        invariant
            i <= v@.len(),
            out@ == v@.take(i as int),
        decreases v@.len() - i,
    {
        out.push(v[i]);
        i += 1;
    }
    assert(v@.take(i as int) =~= v@);
    out
}

// ---------------------------------------------------------------------------
// What a turn reads and writes
// ---------------------------------------------------------------------------
/// How many memories a turn retrieves.
pub open spec fn limit_of(asked: Option<i64>, set: Option<i32>) -> i64 {
    match asked {
        Some(n) => n,
        None => match set {
            Some(n) => n as i64,
            None => DEFAULT_LIMIT,
        },
    }
}

/// The retrieval of a turn: its message, in its scope, without the conversation
/// that it is part of.
pub open spec fn retrieval_of(req: TurnRequestView, s: PlaygroundView) -> AssembleRequestView {
    AssembleRequestView {
        project_id: scope_of(req.include_real).0,
        include_sandbox: scope_of(req.include_real).1,
        container_id: None,
        mode: req.mode,
        modes: None,
        query: Some(req.message),
        limit: Some(limit_of(req.limit, s.context_limit)),
        exclude_container_id: Some(req.container_id),
    }
}

fn retrieval_request(req: &TurnRequest, s: &Settings) -> (r: AssembleRequest)
    ensures
        r@ == retrieval_of(req@, s@),
{
    let (project_id, include_sandbox) = turn_scope(req.include_real);
    let limit = match req.limit {
        Some(n) => n,
        None => match s.context_limit {
            Some(n) => n as i64,
            None => DEFAULT_LIMIT,
        },
    };
    AssembleRequest {
        project_id,
        include_sandbox,
        container_id: None,
        mode: clone_text(&req.mode),
        modes: None,
        query: Some(req.message.clone()),
        limit: Some(limit),
        exclude_container_id: Some(req.container_id.clone()),
    }
}

/// The record of one side of a turn.
pub open spec fn turn_record(
    req: TurnRequestView,
    content: Seq<char>,
    source: Seq<char>,
    payload: Seq<char>,
) -> IngestView {
    IngestView {
        record_type: "conversation"@,
        content,
        event_time: None,
        source,
        source_ref: None,
        project_id: Some(SANDBOX_PROJECT@),
        container_id: Some(req.container_id),
        mode: req.mode,
        importance: None,
        supersedes: None,
        payload: Some(payload),
    }
}

/// The record of the user's side.
pub open spec fn user_record(req: TurnRequestView) -> IngestView {
    turn_record(req, req.message, SOURCE_USER@, "{\"origin\":\"playground\"}"@)
}

/// The record of the model's side.
pub open spec fn assistant_record(
    req: TurnRequestView,
    text: Seq<char>,
    model: Seq<char>,
) -> IngestView {
    turn_record(
        req,
        text,
        SOURCE_ASSISTANT@,
        "{\"model\":"@ + quoted(model) + ",\"origin\":\"playground\"}"@,
    )
}

fn write_request(req: &TurnRequest, content: String, source: &str, payload: String) -> (r:
    IngestRecordRequest)
    ensures
        r@ == turn_record(req@, content@, source@, payload@),
{
    IngestRecordRequest {
        record_type: "conversation".to_owned(),
        content,
        event_time: None,
        source: source.to_owned(),
        source_ref: None,
        project_id: Some(SANDBOX_PROJECT.to_owned()),
        container_id: Some(req.container_id.clone()),
        mode: clone_text(&req.mode),
        importance: None,
        supersedes: None,
        payload: Some(payload),
    }
}

// ---------------------------------------------------------------------------
// A turn as a machine
// ---------------------------------------------------------------------------
/// Everything that is known before the model runs.
#[derive(Debug, Clone)]
pub struct TraceEvent {
    pub retrieved: Vec<RetrievedItem>,
    pub prompt: Vec<PromptMessage>,
    pub written: Vec<u128>,
    pub degraded: bool,
    pub warning: Option<String>,
    pub model: Option<String>,
    pub model_inherited: bool,
    pub llm_error: Option<String>,
}

/// A [`TraceEvent`] over character sequences.
pub struct TraceView {
    pub retrieved: Seq<RetrievedView>,
    pub prompt: Seq<MessageView>,
    pub written: Seq<u128>,
    pub degraded: bool,
    pub warning: Option<Seq<char>>,
    pub model: Option<Seq<char>>,
    pub model_inherited: bool,
    pub llm_error: Option<Seq<char>>,
}

impl View for TraceEvent {
    type V = TraceView;

    open spec fn view(&self) -> TraceView {
        TraceView {
            retrieved: retrieved_view(self.retrieved@),
            prompt: messages_view(self.prompt@),
            written: self.written@,
            degraded: self.degraded,
            warning: opt_text(self.warning),
            model: opt_text(self.model),
            model_inherited: self.model_inherited,
            llm_error: opt_text(self.llm_error),
        }
    }
}

/// The end of a turn.
#[derive(Debug, Clone)]
pub struct DoneEvent {
    pub stats: Option<LlmStats>,
    pub llm_error: Option<String>,
    pub written: Vec<u128>,
}

/// A [`DoneEvent`] over character sequences.
pub struct DoneView {
    pub stats: Option<LlmStats>,
    pub llm_error: Option<Seq<char>>,
    pub written: Seq<u128>,
}

impl View for DoneEvent {
    type V = DoneView;

    open spec fn view(&self) -> DoneView {
        DoneView {
            stats: self.stats,
            llm_error: opt_text(self.llm_error),
            written: self.written@,
        }
    }
}

/// What a turn waits for.
#[derive(Debug, Clone, Copy, PartialEq, Eq, Structural)]
pub enum TurnPhase {
    Settings,
    Retrieval,
    UserWrite,
    System,
    Model,
    AssistantWrite,
    Ended,
}

/// A turn under way.
#[derive(Debug, Clone)]
pub struct Turn {
    pub phase: TurnPhase,
    pub req: TurnRequest,
    pub settings: Settings,
    pub retrieved: Vec<RetrievedItem>,
    pub degraded: bool,
    pub warning: Option<String>,
    pub prompt: Vec<PromptMessage>,
    pub written: Vec<u128>,
    pub llm: Option<LlmSettings>,
    pub stats: Option<LlmStats>,
}

/// A [`Turn`] by its contents.
#[verifier::ext_equal]
pub struct TurnView {
    pub phase: TurnPhase,
    pub req: TurnRequestView,
    pub settings: PlaygroundView,
    pub retrieved: Seq<RetrievedView>,
    pub degraded: bool,
    pub warning: Option<Seq<char>>,
    pub prompt: Seq<MessageView>,
    pub written: Seq<u128>,
    pub llm: Option<LlmView>,
    pub stats: Option<LlmStats>,
}

impl View for Turn {
    type V = TurnView;

    open spec fn view(&self) -> TurnView {
        TurnView {
            phase: self.phase,
            req: self.req@,
            settings: self.settings@,
            retrieved: retrieved_view(self.retrieved@),
            degraded: self.degraded,
            warning: opt_text(self.warning),
            prompt: messages_view(self.prompt@),
            written: self.written@,
            llm: opt_llm(self.llm),
            stats: self.stats,
        }
    }
}

/// What came back from the last action.
#[derive(Debug)]
pub enum TurnEvent {
    /// The operator's settings, where they could be read.
    Settings(Option<Settings>),
    /// The retrieval's answer, or what it failed with.
    Assembled(Result<AssembleResponse, String>),
    /// The id of the record that was written, or what the write failed with.
    Written(Result<u128, String>),
    /// The system provider in effect.
    System(ProviderConfig),
    /// The model's text and report, or what the call failed with.
    Completed(Result<(String, LlmStats), String>),
}

/// A [`TurnEvent`] by its contents.
pub enum TurnEventView {
    Settings(Option<PlaygroundView>),
    Assembled(Result<ResponseView, Seq<char>>),
    Written(Result<u128, Seq<char>>),
    System(ProviderView),
    Completed(Result<(Seq<char>, LlmStats), Seq<char>>),
}

impl View for TurnEvent {
    type V = TurnEventView;

    open spec fn view(&self) -> TurnEventView {
        match self {
            TurnEvent::Settings(s) => TurnEventView::Settings(
                match s {
                    Some(x) => Some(x@),
                    None => None,
                },
            ),
            TurnEvent::Assembled(a) => TurnEventView::Assembled(
                match a {
                    Ok(x) => Ok(x@),
                    Err(e) => Err(e@),
                },
            ),
            TurnEvent::Written(w) => TurnEventView::Written(
                match w {
                    Ok(id) => Ok(*id),
                    Err(e) => Err(e@),
                },
            ),
            TurnEvent::System(p) => TurnEventView::System(p@),
            TurnEvent::Completed(c) => TurnEventView::Completed(
                match c {
                    Ok((text, stats)) => Ok((text@, *stats)),
                    Err(e) => Err(e@),
                },
            ),
        }
    }
}

/// What to do next.
#[derive(Debug, Clone)]
pub enum TurnAction {
    /// Report an error and stop.
    Fail(String),
    /// Read the operator's settings.
    LoadSettings,
    /// Retrieve.
    Assemble(AssembleRequest),
    /// Write a record.
    Write(IngestRecordRequest),
    /// Find the system provider in effect.
    ResolveSystem,
    /// Report the trace; then call the model of the turn with its prompt, where
    /// there is one, else stop.
    Trace(TraceEvent),
    /// Report the end and stop.
    Done(DoneEvent),
}

/// A [`TurnAction`] by its contents.
pub enum TurnActionView {
    Fail(Seq<char>),
    LoadSettings,
    Assemble(AssembleRequestView),
    Write(IngestView),
    ResolveSystem,
    Trace(TraceView),
    Done(DoneView),
}

impl View for TurnAction {
    type V = TurnActionView;

    open spec fn view(&self) -> TurnActionView {
        match self {
            TurnAction::Fail(m) => TurnActionView::Fail(m@),
            TurnAction::LoadSettings => TurnActionView::LoadSettings,
            TurnAction::Assemble(r) => TurnActionView::Assemble(r@),
            TurnAction::Write(r) => TurnActionView::Write(r@),
            TurnAction::ResolveSystem => TurnActionView::ResolveSystem,
            TurnAction::Trace(t) => TurnActionView::Trace(t@),
            TurnAction::Done(d) => TurnActionView::Done(d@),
        }
    }
}

/// A turn that has just begun.
pub open spec fn fresh_turn(req: TurnRequestView) -> TurnView {
    TurnView {
        phase: TurnPhase::Settings,
        req,
        settings: nothing_set(),
        retrieved: Seq::empty(),
        degraded: false,
        warning: None,
        prompt: Seq::empty(),
        written: Seq::empty(),
        llm: None,
        stats: None,
    }
}

/// The first step: a blank message is refused, and so is a user who stands for
/// all users, since a write has to land somewhere real.
pub open spec fn turn_begun(req: TurnRequestView, user_id: Seq<char>, all_users: Seq<char>) -> (
    TurnView,
    TurnActionView,
) {
    let t = fresh_turn(req);
    if blank(req.message) {
        (
            TurnView { phase: TurnPhase::Ended, ..t },
            TurnActionView::Fail("message must not be empty"@),
        )
    } else if user_id == all_users {
        (
            TurnView { phase: TurnPhase::Ended, ..t },
            TurnActionView::Fail(
                "playground needs a concrete user_id; sign in as a non-wildcard operator"@,
            ),
        )
    } else {
        (t, TurnActionView::LoadSettings)
    }
}

/// The turn has its model, or none: the trace goes out.
pub open spec fn traced(t: TurnView, llm: Option<LlmView>, inherited: bool) -> (
    TurnView,
    TurnActionView,
) {
    (
        TurnView {
            phase: if llm is Some {
                TurnPhase::Model
            } else {
                TurnPhase::Ended
            },
            retrieved: Seq::empty(),
            warning: None,
            llm,
            ..t
        },
        TurnActionView::Trace(
            TraceView {
                retrieved: t.retrieved,
                prompt: t.prompt,
                written: t.written,
                degraded: t.degraded,
                warning: t.warning,
                model: match llm {
                    Some(m) => Some(m.model),
                    None => None,
                },
                model_inherited: inherited,
                llm_error: if llm is Some {
                    None
                } else {
                    Some(NO_MODEL@)
                },
            },
        ),
    )
}

/// The turn is over.
pub open spec fn turn_done(
    t: TurnView,
    stats: Option<LlmStats>,
    llm_error: Option<Seq<char>>,
    written: Seq<u128>,
) -> (TurnView, TurnActionView) {
    (
        TurnView { phase: TurnPhase::Ended, stats, written: Seq::empty(), ..t },
        TurnActionView::Done(DoneView { stats, llm_error, written }),
    )
}

/// The step from a state and what came back to the next state and action.
pub open spec fn turn_step(t: TurnView, event: TurnEventView) -> (TurnView, TurnActionView) {
    match event {
        TurnEventView::Settings(s) => {
            let settings = match s {
                Some(x) => x,
                None => nothing_set(),
            };
            (
                TurnView { phase: TurnPhase::Retrieval, settings, ..t },
                TurnActionView::Assemble(retrieval_of(t.req, settings)),
            )
        },
        TurnEventView::Assembled(Ok(a)) => (
            TurnView {
                phase: TurnPhase::UserWrite,
                retrieved: all_shown(a.records),
                degraded: a.degraded,
                warning: a.warning,
                prompt: prompt_of(t.settings, all_shown(a.records), t.req.message),
                ..t
            },
            TurnActionView::Write(user_record(t.req)),
        ),
        TurnEventView::Assembled(Err(e)) => (
            TurnView { phase: TurnPhase::Ended, ..t },
            TurnActionView::Fail("retrieval failed: "@ + e),
        ),
        TurnEventView::Written(w) => if t.phase == TurnPhase::AssistantWrite {
            turn_done(
                t,
                t.stats,
                None,
                match w {
                    Ok(id) => t.written.push(id),
                    Err(_) => t.written,
                },
            )
        } else {
            match w {
                Ok(id) => {
                    let u = TurnView { written: t.written.push(id), ..t };
                    let own = own_model(t.settings, t.req.api_key);
                    if own is Some {
                        traced(u, own, false)
                    } else {
                        (
                            TurnView { phase: TurnPhase::System, ..u },
                            TurnActionView::ResolveSystem,
                        )
                    }
                },
                Err(e) => (
                    TurnView { phase: TurnPhase::Ended, ..t },
                    TurnActionView::Fail("write failed: "@ + e),
                ),
            }
        },
        TurnEventView::System(sys) => {
            let m = model_of(t.settings, sys, t.req.api_key);
            traced(t, m.0, m.1)
        },
        TurnEventView::Completed(Ok((text, stats))) => match t.llm {
            Some(m) => (
                TurnView { phase: TurnPhase::AssistantWrite, stats: Some(stats), ..t },
                TurnActionView::Write(assistant_record(t.req, text, m.model)),
            ),
            None => turn_done(t, Some(stats), None, t.written),
        },
        TurnEventView::Completed(Err(e)) => turn_done(t, None, Some(e), t.written),
    }
}

/// Whether this is what the turn waits for.
pub open spec fn turn_awaits(t: TurnView, event: TurnEventView) -> bool {
    match event {
        TurnEventView::Settings(_) => t.phase == TurnPhase::Settings,
        TurnEventView::Assembled(_) => t.phase == TurnPhase::Retrieval,
        TurnEventView::Written(_) => t.phase == TurnPhase::UserWrite || t.phase
            == TurnPhase::AssistantWrite,
        TurnEventView::System(_) => t.phase == TurnPhase::System,
        TurnEventView::Completed(_) => t.phase == TurnPhase::Model,
    }
}

/// What holds of every turn under way: the user's record is there before a
/// model is looked for or called, and a model is called only where there is
/// one.
pub open spec fn turn_well_formed(t: TurnView) -> bool {
    match t.phase {
        TurnPhase::Settings => t.written.len() == 0,
        TurnPhase::Retrieval => t.written.len() == 0,
        TurnPhase::UserWrite => t.written.len() == 0,
        TurnPhase::System => t.written.len() == 1,
        TurnPhase::Model => t.written.len() == 1 && t.llm is Some,
        TurnPhase::AssistantWrite => t.written.len() == 1 && t.llm is Some && t.stats is Some,
        TurnPhase::Ended => true,
    }
}

/// Begins a turn. `all_users` is the user that stands for all users.
pub fn begin_turn(req: TurnRequest, user_id: &str, all_users: &str) -> (r: (Turn, TurnAction))
    ensures
        (r.0@, r.1@) == turn_begun(req@, user_id@, all_users@),
        turn_well_formed(r.0@),
{
    let blank_message = is_blank(req.message.as_str());
    let mut t = Turn {
        phase: TurnPhase::Settings,
        req,
        settings: Settings::default(),
        retrieved: Vec::new(),
        degraded: false,
        warning: None,
        prompt: Vec::new(),
        written: Vec::new(),
        llm: None,
        stats: None,
    };
    assert(t@ =~= fresh_turn(req@));
    if blank_message {
        t.phase = TurnPhase::Ended;
        return (t, TurnAction::Fail("message must not be empty".to_owned()));
    }
    if same_text(user_id, all_users) {
        t.phase = TurnPhase::Ended;
        return (
            t,
            TurnAction::Fail(
                "playground needs a concrete user_id; sign in as a non-wildcard operator".to_owned(),
            ),
        );
    }
    (t, TurnAction::LoadSettings)
}

fn send_trace(t: Turn, llm: Option<LlmSettings>, inherited: bool) -> (r: (Turn, TurnAction))
    ensures
        (r.0@, r.1@) == traced(t@, opt_llm(llm), inherited),
{
    let ghost before = t@;
    let mut t = t;
    let (model, llm_error) = match &llm {
        Some(m) => (Some(m.model.clone()), None),
        None => (None, Some(NO_MODEL.to_owned())),
    };
    let prompt = clone_messages(&t.prompt);
    let written = clone_ids(&t.written);
    let retrieved = t.retrieved;
    t.retrieved = Vec::new();
    let warning = t.warning;
    t.warning = None;
    t.phase = if llm.is_some() {
        TurnPhase::Model
    } else {
        TurnPhase::Ended
    };
    t.llm = llm;
    assert(t@ =~= traced(before, opt_llm(llm), inherited).0);
    let trace = TraceEvent {
        retrieved,
        prompt,
        written,
        degraded: t.degraded,
        warning,
        model,
        model_inherited: inherited,
        llm_error,
    };
    (t, TurnAction::Trace(trace))
}

fn end_turn(t: Turn, stats: Option<LlmStats>, llm_error: Option<String>) -> (r: (Turn, TurnAction))
    ensures
        (r.0@, r.1@) == turn_done(t@, stats, opt_text(llm_error), t.written@),
{
    let mut t = t;
    let written = t.written;
    t.written = Vec::new();
    t.stats = stats;
    t.phase = TurnPhase::Ended;
    assert(t@.written =~= Seq::empty());
    (t, TurnAction::Done(DoneEvent { stats, llm_error, written }))
}

fn fail_turn(t: Turn, what: &str, e: &str) -> (r: (Turn, TurnAction))
    ensures
        r.0@ == (TurnView { phase: TurnPhase::Ended, ..t@ }),
        r.1@ == TurnActionView::Fail(what@ + e@),
{
    let mut t = t;
    t.phase = TurnPhase::Ended;
    let mut message = String::from_str(what);
    message.append(e);
    (t, TurnAction::Fail(message))
}

fn after_write(t: Turn, w: Result<u128, String>) -> (r: (Turn, TurnAction))
    ensures
        (r.0@, r.1@) == turn_step(
            t@,
            TurnEventView::Written(
                match w {
                    Ok(id) => Ok(id),
                    Err(e) => Err(e@),
                },
            ),
        ),
{
    let mut t = t;
    if t.phase == TurnPhase::AssistantWrite {
        if let Ok(id) = w {
            t.written.push(id);
        }
        let stats = t.stats;
        return end_turn(t, stats, None);
    }
    match w {
        Ok(id) => {
            t.written.push(id);
            let own = own_llm(&t.settings, &t.req.api_key);
            if own.is_some() {
                send_trace(t, own, false)
            } else {
                t.phase = TurnPhase::System;
                (t, TurnAction::ResolveSystem)
            }
        },
        Err(e) => fail_turn(t, "write failed: ", e.as_str()),
    }
}

fn after_completion(t: Turn, c: Result<(String, LlmStats), String>) -> (r: (Turn, TurnAction))
    ensures
        (r.0@, r.1@) == turn_step(
            t@,
            TurnEventView::Completed(
                match c {
                    Ok((text, stats)) => Ok((text@, stats)),
                    Err(e) => Err(e@),
                },
            ),
        ),
{
    match c {
        Ok((text, stats)) => {
            let payload = match &t.llm {
                Some(m) => {
                    let mut p = String::from_str("{\"model\":");
                    p.append(quote(m.model.as_str()).as_str());
                    p.append(",\"origin\":\"playground\"}");
                    p
                },
                None => {
                    return end_turn(t, Some(stats), None);
                },
            };
            let mut t = t;
            let record = write_request(&t.req, text, SOURCE_ASSISTANT, payload);
            t.stats = Some(stats);
            t.phase = TurnPhase::AssistantWrite;
            (t, TurnAction::Write(record))
        },
        Err(e) => end_turn(t, None, Some(e)),
    }
}

/// Takes what came back from the last action and says what to do next.
pub fn run_turn(t: Turn, event: TurnEvent) -> (r: (Turn, TurnAction))
    requires
        turn_well_formed(t@),
        turn_awaits(t@, event@),
    ensures
        (r.0@, r.1@) == turn_step(t@, event@),
        turn_well_formed(r.0@),
{
    match event {
        TurnEvent::Settings(s) => {
            let mut t = t;
            t.settings =
            match s {
                Some(x) => x,
                None => Settings::default(),
            };
            t.phase = TurnPhase::Retrieval;
            let ask = retrieval_request(&t.req, &t.settings);
            (t, TurnAction::Assemble(ask))
        },
        TurnEvent::Assembled(a) => match a {
            Ok(a) => {
                let mut t = t;
                t.retrieved = retrieved_items(&a.records);
                t.degraded = a.degraded;
                t.warning = a.warning;
                t.prompt = build_prompt(&t.settings, &t.retrieved, t.req.message.as_str());
                t.phase = TurnPhase::UserWrite;
                let content = t.req.message.clone();
                let record = write_request(
                    &t.req,
                    content,
                    SOURCE_USER,
                    "{\"origin\":\"playground\"}".to_owned(),
                );
                (t, TurnAction::Write(record))
            },
            Err(e) => fail_turn(t, "retrieval failed: ", e.as_str()),
        },
        TurnEvent::Written(w) => after_write(t, w),
        TurnEvent::System(sys) => {
            let (llm, inherited) = resolve_llm_settings(&t.settings, &sys, &t.req.api_key);
            send_trace(t, llm, inherited)
        },
        TurnEvent::Completed(c) => after_completion(t, c),
    }
}

// ---------------------------------------------------------------------------
// Seeding
// ---------------------------------------------------------------------------
/// Memories to fill the sandbox with, one to a line.
#[derive(Debug, Clone)]
pub struct SeedRequest {
    pub text: String,
}

/// A conversation to distil.
#[derive(Debug, Clone)]
pub struct DistillNowRequest {
    pub container_id: String,
}

/// The refusal of a user who stands for all users.
fn concrete_user(user_id: &str, all_users: &str, refusal: &str) -> (r: Result<(), AppError>)
    ensures
        match r {
            Ok(_) => user_id@ != all_users@,
            Err(e) => user_id@ == all_users@ && e@ == ErrorView::BadRequest(refusal@),
        },
{
    if same_text(user_id, all_users) {
        Err(AppError::bad_request(refusal))
    } else {
        Ok(())
    }
}

/// Seeds go to a concrete user.
pub fn check_seeder(user_id: &str, all_users: &str) -> (r: Result<(), AppError>)
    ensures
        match r {
            Ok(_) => user_id@ != all_users@,
            Err(e) => user_id@ == all_users@ && e@ == ErrorView::BadRequest(
                "seeding needs a concrete user_id; sign in as a non-wildcard operator"@,
            ),
        },
{
    concrete_user(
        user_id,
        all_users,
        "seeding needs a concrete user_id; sign in as a non-wildcard operator",
    )
}

/// Distillation is for a concrete user.
pub fn check_distiller(user_id: &str, all_users: &str) -> (r: Result<(), AppError>)
    ensures
        match r {
            Ok(_) => user_id@ != all_users@,
            Err(e) => user_id@ == all_users@ && e@ == ErrorView::BadRequest(
                "distillation needs a concrete user_id; sign in as a non-wildcard operator"@,
            ),
        },
{
    concrete_user(
        user_id,
        all_users,
        "distillation needs a concrete user_id; sign in as a non-wildcard operator",
    )
}

/// The second that a line is dated with: noon of the date before its first bar,
/// where that is one.
pub open spec fn seed_second(line: Seq<char>) -> Option<int> {
    match char_from(line, '|', 0) {
        Some(p) => match day_read(trimmed(line.take(p)), "%Y-%m-%d"@) {
            Some(d) => Some(noon(d as int)),
            None => None,
        },
        None => None,
    }
}

/// The memory in a line: what stands behind the first bar where the line is
/// dated, or all of it.
pub open spec fn memory_in(line: Seq<char>, dated: bool) -> Seq<char> {
    match char_from(line, '|', 0) {
        Some(p) => if dated {
            trimmed(line.skip(p + 1))
        } else {
            trimmed(line)
        },
        None => trimmed(line),
    }
}

/// The memory in a line: what stands behind the date, or all of it.
pub open spec fn seed_content(line: Seq<char>) -> Seq<char> {
    memory_in(line, seed_second(line) is Some)
}

/// The memory in a line that is dated or not.
pub fn seed_memory(line: &str, dated: bool) -> (r: String)
    ensures
        r@ == memory_in(line@, dated),
{
    let chars = to_chars(line);
    if dated {
        if let Some(p) = find_char(&chars, '|', 0) {
            assert(p < chars.len());
            let rest = from_range(&chars, p + 1, chars.len());
            assert(rest@ =~= line@.skip(p + 1));
            return trim(rest.as_str());
        }
    }
    trim(line)
}

/// A time that is this second, or none for none.
pub open spec fn is_second(t: Option<Timestamp>, second: Option<int>) -> bool {
    match (t, second) {
        (Some(x), Some(s)) => x.seconds() == s && x.nanoseconds() == 0,
        (None, None) => true,
        _ => false,
    }
}

/// Reads a line, `YYYY-MM-DD | memory` or just `memory`.
pub fn parse_seed_line(line: &str) -> (r: (Option<Timestamp>, String))
    ensures
        is_second(r.0, seed_second(line@)),
        r.1@ == seed_content(line@),
{
    let chars = to_chars(line);
    if let Some(p) = find_char(&chars, '|', 0) {
        let date = from_range(&chars, 0, p);
        assert(date@ =~= line@.take(p as int));
        if let Some(t) = noon_of(trim(date.as_str()).as_str()) {
            return (Some(t), seed_memory(line, true));
        }
    }
    (None, seed_memory(line, false))
}

/// The record of a seeded memory.
pub open spec fn seed_record(r: IngestView, line: Seq<char>) -> bool {
    &&& is_second(r.event_time, seed_second(line))
    &&& r == (IngestView {
        record_type: "document"@,
        content: seed_content(line),
        event_time: r.event_time,
        source: "playground:seed"@,
        source_ref: None,
        project_id: Some(SANDBOX_PROJECT@),
        container_id: None,
        mode: None,
        importance: None,
        supersedes: None,
        payload: Some("{\"origin\":\"playground-seed\"}"@),
    })
}

/// The lines that hold a memory.
pub open spec fn seed_list(v: Seq<Seq<char>>) -> Seq<Seq<char>> {
    v.filter(|line: Seq<char>| seed_content(line).len() > 0)
}

/// The records to take in for a text of memories; lines that hold none are
/// passed over.
pub fn seed_lines(text: &str) -> (r: Vec<IngestRecordRequest>)
    ensures
        r@.len() == seed_list(lines_of(text@)).len(),
        forall|i: int|
            0 <= i < r@.len() ==> seed_record(
                (#[trigger] r@[i])@,
                seed_list(lines_of(text@))[i],
            ),
{
    let all = lines(text);
    let ghost whole = lines_of(text@);
    let ghost keep = |line: Seq<char>| seed_content(line).len() > 0;
    let mut out: Vec<IngestRecordRequest> = Vec::new();
    let mut k: usize = 0;
    assert(whole.take(0).filter(keep) =~= Seq::empty()) by {
        reveal(Seq::filter);
    }
    while k < all.len()
        invariant
            k <= all@.len(),
            texts(all@) == whole,
            keep == (|line: Seq<char>| seed_content(line).len() > 0),
            out@.len() == whole.take(k as int).filter(keep).len(),
            forall|i: int|
                0 <= i < out@.len() ==> seed_record(
                    (#[trigger] out@[i])@,
                    whole.take(k as int).filter(keep)[i],
                ),
        decreases all@.len() - k,
    {
        proof {
            assert(whole.take(k + 1).drop_last() =~= whole.take(k as int));
            assert(whole.take(k + 1).last() == all@[k as int]@);
            reveal(Seq::filter);
        }
        let (event_time, content) = parse_seed_line(all[k].as_str());
        if !content.as_str().is_empty() {
            let r = IngestRecordRequest {
                record_type: "document".to_owned(),
                content,
                event_time,
                source: "playground:seed".to_owned(),
                source_ref: None,
                project_id: Some(SANDBOX_PROJECT.to_owned()),
                container_id: None,
                mode: None,
                importance: None,
                supersedes: None,
                payload: Some("{\"origin\":\"playground-seed\"}".to_owned()),
            };
            assert(seed_record(r@, all@[k as int]@));
            out.push(r);
        }
        k += 1;
    }
    assert(whole.take(k as int) =~= whole);
    out
}

// ---------------------------------------------------------------------------
// Laws
// ---------------------------------------------------------------------------
/// Whatever a turn writes lands in the sandbox, whatever it reads.
pub proof fn law_turn_writes_stay_in_the_sandbox(t: TurnView, event: TurnEventView)
    ensures
        turn_step(t, event).1 matches TurnActionView::Write(r) ==> r.project_id == Some(
            SANDBOX_PROJECT@,
        ) && r.container_id == Some(t.req.container_id),
{
}

/// A turn reads the real store only where that was asked for, and never the
/// conversation that it is part of.
pub proof fn law_turn_reads_the_sandbox(t: TurnView, event: TurnEventView)
    ensures
        turn_step(t, event).1 matches TurnActionView::Assemble(r) ==> {
            &&& !t.req.include_real ==> r.project_id == Some(SANDBOX_PROJECT@)
            &&& r.exclude_container_id == Some(t.req.container_id)
            &&& r.query == Some(t.req.message)
        },
{
}

/// A dead model never loses what was said: before the trace goes out, and so
/// before the model is called, the user's message has been written; and the
/// trace names that record.
pub proof fn law_user_turn_is_written_first(t: TurnView, event: TurnEventView)
    requires
        turn_well_formed(t),
        turn_awaits(t, event),
    ensures
        turn_well_formed(turn_step(t, event).0),
        turn_step(t, event).1 matches TurnActionView::Trace(trace) ==> trace.written.len() == 1,
        turn_step(t, event).0.phase == TurnPhase::Model <==> (turn_step(t, event).1 matches
            TurnActionView::Trace(trace) && trace.model is Some),
        turn_step(t, event).1 matches TurnActionView::Done(d) ==> d.written.len() >= 1,
{
}

/// The place of a turn's phase on its way.
pub open spec fn turn_rank(t: TurnView) -> nat {
    match t.phase {
        TurnPhase::Settings => 6,
        TurnPhase::Retrieval => 5,
        TurnPhase::UserWrite => 4,
        TurnPhase::System => 3,
        TurnPhase::Model => 2,
        TurnPhase::AssistantWrite => 1,
        TurnPhase::Ended => 0,
    }
}

/// A turn ends: every step moves it on, and it has ended exactly when it
/// failed, was done, or had no model to call.
pub proof fn law_turn_ends(t: TurnView, event: TurnEventView)
    requires
        turn_well_formed(t),
        turn_awaits(t, event),
    ensures
        turn_rank(turn_step(t, event).0) < turn_rank(t),
        turn_step(t, event).0.phase == TurnPhase::Ended <==> match turn_step(t, event).1 {
            TurnActionView::Fail(_) => true,
            TurnActionView::Done(_) => true,
            TurnActionView::Trace(trace) => trace.model is None,
            _ => false,
        },
{
}

/// A line that holds no memory seeds none: a blank line is passed over.
pub proof fn law_blank_lines_are_not_seeded(line: Seq<char>)
    requires
        blank(line),
    ensures
        seed_content(line).len() == 0,
{
    lemma_blank_trims_to_nothing(line);
    lemma_char_from(line, '|', 0);
}

/// Saving settings that were saved changes nothing.
pub proof fn law_save_twice(s: PlaygroundView)
    ensures
        saved_settings(saved_settings(s)) == saved_settings(s),
{
    assert forall|t: Option<Seq<char>>| tidy(#[trigger] tidy(t)) == tidy(t) by {
        if let Some(x) = t {
            crate::text::lemma_trim_idempotent(x);
        }
    }
    assert(saved_settings(saved_settings(s)) =~= saved_settings(s));
}

// ---------------------------------------------------------------------------
// What a turn is for
// ---------------------------------------------------------------------------
/// Every memory that was retrieved is in the block, in its rank, under its number,
/// with its type, its source and its time before what it says.
pub proof fn law_every_memory_is_in_the_block(items: Seq<RetrievedView>, it: RetrievedView)
    ensures
        numbered(Seq::empty()) == Seq::<char>::empty(),
        numbered(items.push(it)) == numbered(items) + (seq!['['] + decimal(items.len() + 1) + seq![
            ']',
            ' ',
            '(',
        ] + it.item_type + seq![',', ' '] + it.source + seq![',', ' '] + it.event_time + seq![
            ')',
            '\n',
        ] + trimmed(it.content) + seq!['\n', '\n']),
        context_block(items)
            == "Relevant memories retrieved for this turn. Use them only if they bear on what was asked; say so plainly if they don't.\n\n"@
            + numbered(items),
{
    reveal_strlit("[");
    reveal_strlit("] (");
    reveal_strlit(", ");
    reveal_strlit(")\n");
    reveal_strlit("\n\n");
    assert(items.push(it).drop_last() =~= items);
    assert(numbered(items.push(it)) =~= numbered(items) + (seq!['['] + decimal(items.len() + 1)
        + seq![']', ' ', '('] + it.item_type + seq![',', ' '] + it.source + seq![',', ' ']
        + it.event_time + seq![')', '\n'] + trimmed(it.content) + seq!['\n', '\n']));
}

/// A prompt opens with how to answer and closes with what was said, as it was
/// said; in between stands what was retrieved, where anything was.
pub proof fn law_prompt_closes_with_what_was_said(
    s: PlaygroundView,
    retrieved: Seq<RetrievedView>,
    message: Seq<char>,
)
    ensures
        ({
            let p = prompt_of(s, retrieved, message);
            &&& p.last().role == "user"@ && p.last().content == message
            &&& p[0].role == "system"@
            &&& tidy(s.system_prompt) is None ==> p[0].content == DEFAULT_SYSTEM_PROMPT@
            &&& tidy(s.system_prompt) matches Some(own) ==> p[0].content == own
            &&& retrieved.len() == 0 ==> p.len() == 2
            &&& retrieved.len() > 0 ==> p.len() == 3 && p[1].role == "system"@ && p[1].content
                == context_block(retrieved)
        }),
{
}

/// A record is shown as it is, and as of the sandbox exactly where it is.
pub proof fn law_records_are_shown_as_they_are(rows: Seq<RawRecordRow>, i: int)
    requires
        0 <= i < rows.len(),
    ensures
        all_shown(rows).len() == rows.len(),
        ({
            let x = all_shown(rows)[i];
            &&& x.id == rows[i].id
            &&& x.content == rows[i].content@
            &&& x.item_type == rows[i].record_type@
            &&& x.source == rows[i].source@
            &&& x.container_id == opt_text(rows[i].container_id)
            &&& x.sandbox <==> opt_text(rows[i].project_id) == Some("playground"@)
        }),
{
}

/// A turn looks for as many memories as it asks for, else as many as are set, else
/// twelve; in the sandbox alone, or there and in the real store.
pub proof fn law_turn_asks_as_it_was_told(
    req: TurnRequestView,
    s: PlaygroundView,
    n: i64,
    set: i32,
)
    ensures
        limit_of(Some(n), s.context_limit) == n,
        limit_of(None, Some(set)) == set,
        limit_of(None, None) == 12,
        scope_of(true) == (None::<Seq<char>>, true),
        scope_of(false) == (Some("playground"@), false),
        retrieval_of(req, s).mode == req.mode,
        retrieval_of(req, s).limit == Some(limit_of(req.limit, s.context_limit)),
        req.include_real ==> retrieval_of(req, s).project_id is None && retrieval_of(
            req,
            s,
        ).include_sandbox,
        retrieval_of(req, s).container_id is None && retrieval_of(req, s).modes is None,
{
}

/// The model of a turn is the operator's own where both its base and its name are
/// set, with the key of the browser; else it is that of the system, where that is
/// remote and has a base: the distilling one, with the browser's key or else the
/// server's. Only then is it inherited.
pub proof fn law_own_model_wins(own: PlaygroundView, sys: ProviderView, key: Option<Seq<char>>)
    ensures
        own.base_url is Some && own.model is Some ==> (model_of(own, sys, key).0 matches Some(m) && {
            &&& Some(m.base_url) == own.base_url
            &&& Some(m.model) == own.model
            &&& m.api_key == key
            &&& !model_of(own, sys, key).1
        }),
        own.base_url is None || own.model is None ==> {
            let usable = sys.kind == ProviderKind::Remote && sys.remote.api_base is Some;
            &&& model_of(own, sys, key).0 is Some <==> usable
            &&& model_of(own, sys, key).1 <==> usable
            &&& model_of(own, sys, key).0 matches Some(m) ==> {
                &&& Some(m.base_url) == sys.remote.api_base
                &&& m.model == sys.remote.distill_model
                &&& key is Some ==> m.api_key == key
                &&& key is None && sys.remote.api_key.len() > 0 ==> m.api_key == Some(
                    sys.remote.api_key,
                )
                &&& key is None && sys.remote.api_key.len() == 0 ==> m.api_key is None
            }
        },
{
}

/// What is written of a turn is what was said, by whom it was said: the user's
/// message and the model's answer, word for word, as turns of the conversation,
/// without a claim to importance and superseding nothing.
pub proof fn law_turns_are_written_word_for_word(
    req: TurnRequestView,
    text: Seq<char>,
    model: Seq<char>,
)
    ensures
        user_record(req).content == req.message,
        user_record(req).source == "playground:user"@,
        assistant_record(req, text, model).content == text,
        assistant_record(req, text, model).source == "playground:assistant"@,
        ({
            let u = user_record(req);
            let a = assistant_record(req, text, model);
            &&& u.record_type == "conversation"@ && a.record_type == "conversation"@
            &&& u.mode == req.mode && a.mode == req.mode
            &&& u.importance is None && a.importance is None
            &&& u.supersedes is None && a.supersedes is None
            &&& u.source_ref is None && a.source_ref is None
            &&& u.event_time is None && a.event_time is None
        }),
{
}

/// A turn goes on as its last step came out. What was retrieved becomes the prompt,
/// and the user's message is written; then the trace shows what was retrieved, the
/// prompt and what was written. An answer is written and then the turn is done with
/// both records; a model that fails ends the turn with the fault and the record
/// that there is.
pub proof fn law_turn_goes_on(
    t: TurnView,
    a: crate::assemble::ResponseView,
    fault: Seq<char>,
    id: u128,
    text: Seq<char>,
    stats: LlmStats,
)
    requires
        turn_well_formed(t),
    ensures
        t.phase == TurnPhase::Retrieval ==> {
            let next = turn_step(t, TurnEventView::Assembled(Ok(a)));
            &&& next.1 == TurnActionView::Write(user_record(t.req))
            &&& next.0.retrieved == all_shown(a.records)
            &&& next.0.prompt == prompt_of(t.settings, all_shown(a.records), t.req.message)
            &&& next.0.degraded == a.degraded && next.0.warning == a.warning
            &&& turn_step(t, TurnEventView::Assembled(Err(fault))).1 is Fail
        },
        t.phase == TurnPhase::UserWrite ==> {
            let next = turn_step(t, TurnEventView::Written(Ok(id)));
            &&& own_model(t.settings, t.req.api_key) is None ==> next.1
                == TurnActionView::ResolveSystem && next.0.written == t.written.push(id)
            &&& own_model(t.settings, t.req.api_key) matches Some(m) ==> (next.1 matches
                TurnActionView::Trace(trace) && trace.retrieved == t.retrieved && trace.prompt
                == t.prompt && trace.written == t.written.push(id) && trace.model == Some(m.model)
                && !trace.model_inherited && trace.llm_error is None && trace.degraded == t.degraded
                && trace.warning == t.warning)
            &&& turn_step(t, TurnEventView::Written(Err(fault))).1 is Fail
        },
        t.phase == TurnPhase::Model ==> {
            let next = turn_step(t, TurnEventView::Completed(Ok((text, stats))));
            &&& next.1 == TurnActionView::Write(
                assistant_record(t.req, text, t.llm->Some_0.model),
            )
            &&& next.0.stats == Some(stats)
            &&& turn_step(t, TurnEventView::Completed(Err(fault))).1 matches TurnActionView::Done(d)
                && d.llm_error == Some(fault) && d.stats is None && d.written == t.written
        },
        t.phase == TurnPhase::AssistantWrite ==> (turn_step(t, TurnEventView::Written(Ok(id))).1
            matches TurnActionView::Done(d) && d.written == t.written.push(id) && d.stats == t.stats
            && d.llm_error is None),
{
}

/// A turn without words, or for a user who stands for all, is refused before
/// anything is read or written.
pub proof fn law_turn_needs_words_and_a_user(
    req: TurnRequestView,
    user_id: Seq<char>,
    all_users: Seq<char>,
)
    ensures
        turn_begun(req, user_id, all_users).1 is Fail <==> blank(req.message) || user_id == all_users,
        !blank(req.message) && user_id != all_users ==> turn_begun(req, user_id, all_users).1
            == TurnActionView::LoadSettings,
        turn_begun(req, user_id, all_users).0.req == req,
{
}

/// A line that is dated holds what stands behind its first bar, one that is not
/// holds all of it, bar and all, each without space around it.
pub proof fn law_seeds_hold_what_was_written(before: Seq<char>, behind: Seq<char>)
    requires
        !before.contains('|'),
    ensures
        memory_in(before + seq!['|'] + behind, true) == trimmed(behind),
        memory_in(before + seq!['|'] + behind, false) == trimmed(before + seq!['|'] + behind),
        memory_in(before, true) == trimmed(before),
        memory_in(before, false) == trimmed(before),
{
    let line = before + seq!['|'] + behind;
    let p = before.len() as int;
    lemma_char_from(line, '|', 0);
    lemma_char_from(before, '|', 0);
    assert(line[p] == '|');
    if let Some(q) = char_from(line, '|', 0) {
        if q < p {
            assert(before[q] == '|');
        }
    }
    if let Some(q) = char_from(before, '|', 0) {
        assert(before[q] == '|');
    }
    assert(line.skip(p + 1) =~= behind);
}

/// A seed is a document of the sandbox, made at noon of its date.
pub proof fn law_seeds_are_documents_of_the_sandbox(r: IngestView, line: Seq<char>)
    requires
        seed_record(r, line),
    ensures
        r.content == seed_content(line),
        r.record_type == "document"@,
        r.project_id == Some("playground"@),
        r.event_time is Some <==> seed_second(line) is Some,
        r.event_time matches Some(t) ==> t.seconds() == seed_second(line)->Some_0
            && t.nanoseconds() == 0,
        r.container_id is None && r.supersedes is None && r.source_ref is None,
{
}

/// What is saved keeps its words without space around them, and a limit only
/// between one and two hundred.
pub proof fn law_what_is_saved(s: PlaygroundView)
    ensures
        ({
            let r = saved_settings(s);
            &&& r.base_url == tidy(s.base_url)
            &&& r.model == tidy(s.model)
            &&& r.system_prompt == tidy(s.system_prompt)
            &&& s.context_limit matches Some(n) ==> 1 <= n <= 200 ==> r.context_limit == Some(n)
            &&& s.context_limit matches Some(n) ==> n < 1 || n > 200 ==> r.context_limit is None
            &&& s.context_limit is None ==> r.context_limit is None
        }),
{
}

/// What is written of a turn says where it came from, and an answer which model
/// gave it.
pub proof fn law_turns_say_where_they_came_from(
    req: TurnRequestView,
    text: Seq<char>,
    model: Seq<char>,
)
    ensures
        user_record(req).payload == Some("{\"origin\":\"playground\"}"@),
        assistant_record(req, text, model).payload == Some(
            "{\"model\":"@ + quoted(model) + ",\"origin\":\"playground\"}"@,
        ),
{
}

} // verus!
