//! The completion stream of an OpenAI-compatible endpoint: the request, the
//! frames of the answer, and what they add up to.
use vstd::prelude::*;
use vstd::string::*;

use crate::json::{
    as_number, as_text, first_item, get_first, get_member, json_of, member, number_value, parse_json,
    quote, quoted, text_value, Json, JsonView,
};
use crate::settings::{bearer, endpoint, key_to_send, url_fault, validate_base_url};
use crate::text::{
    find, find_from, first_chars, from_range, front, lines, lines_of, occurs_at, opt_text,
    same_text, strip_end, text_at, texts, to_chars, trim, trim_end_char, trimmed,
};

verus! {

/// What `String::from_utf8_lossy` makes of some bytes.
pub uninterp spec fn lossy_text(bytes: Seq<u8>) -> Seq<char>;

/// `String::from_utf8_lossy`. The result is named by [`lossy_text`].
#[verifier::external_body]
fn decode_lossy(bytes: &[u8]) -> (r: String)
    ensures
        r@ == lossy_text(bytes@),
{
    String::from_utf8_lossy(bytes).into_owned()
}

/// The endpoint and model that a turn talks to.
#[derive(Debug, Clone)]
pub struct LlmSettings {
    pub base_url: String,
    pub model: String,
    pub api_key: Option<String>,
}

/// An [`LlmSettings`] over character sequences.
#[verifier::ext_equal]
pub struct LlmView {
    pub base_url: Seq<char>,
    pub model: Seq<char>,
    pub api_key: Option<Seq<char>>,
}

impl View for LlmSettings {
    type V = LlmView;

    open spec fn view(&self) -> LlmView {
        LlmView {
            base_url: self.base_url@,
            model: self.model@,
            api_key: opt_text(self.api_key),
        }
    }
}

/// One message of a prompt.
#[derive(Debug, Clone)]
pub struct PromptMessage {
    pub role: String,
    pub content: String,
}

/// A [`PromptMessage`] over character sequences.
#[verifier::ext_equal]
pub struct MessageView {
    pub role: Seq<char>,
    pub content: Seq<char>,
}

impl View for PromptMessage {
    type V = MessageView;

    open spec fn view(&self) -> MessageView {
        MessageView { role: self.role@, content: self.content@ }
    }
}

/// The messages of a prompt, each by its view.
pub open spec fn messages_view(v: Seq<PromptMessage>) -> Seq<MessageView> {
    v.map_values(|m: PromptMessage| m@)
}

/// What the model reported about its call.
#[derive(Debug, Clone, Copy, PartialEq, Eq, Structural)]
pub struct LlmStats {
    pub prompt_tokens: Option<u64>,
    pub completion_tokens: Option<u64>,
    pub latency_ms: u64,
}

// ---------------------------------------------------------------------------
// The request
// ---------------------------------------------------------------------------
/// The messages as JSON, with commas between them.
pub open spec fn messages_json(v: Seq<MessageView>) -> Seq<char>
    decreases v.len(),
{
    if v.len() == 0 {
        Seq::empty()
    } else {
        messages_json(v.drop_last()) + (if v.len() > 1 {
            ","@
        } else {
            ""@
        }) + "{\"content\":"@ + quoted(v.last().content) + ",\"role\":"@ + quoted(v.last().role)
            + "}"@
    }
}

/// The body of a request for a streamed completion.
pub open spec fn chat_json(model: Seq<char>, messages: Seq<MessageView>) -> Seq<char> {
    "{\"messages\":["@ + messages_json(messages) + "],\"model\":"@ + quoted(model)
        + ",\"stream\":true,\"stream_options\":{\"include_usage\":true}}"@
}

/// A request for a streamed completion.
#[derive(Debug, Clone)]
pub struct ChatRequest {
    pub url: String,
    pub bearer: Option<String>,
    pub body: String,
}

fn write_messages(messages: &Vec<PromptMessage>) -> (r: String)
    ensures
        r@ == messages_json(messages_view(messages@)),
{
    let ghost all = messages_view(messages@);
    let mut out = String::new();
    let mut i: usize = 0;
    while i < messages.len()
        invariant
            i <= messages@.len(),
            all == messages_view(messages@),
            out@ == messages_json(all.take(i as int)),
        decreases messages@.len() - i,
    {
        let m = &messages[i];
        out.append(if i > 0 { "," } else { "" });
        out.append("{\"content\":");
        out.append(quote(m.content.as_str()).as_str());
        out.append(",\"role\":");
        out.append(quote(m.role.as_str()).as_str());
        out.append("}");
        proof {
            assert(all.take(i + 1).drop_last() =~= all.take(i as int));
            assert(all.take(i + 1).last() == m@);
        }
        i += 1;
    }
    assert(all.take(i as int) =~= all);
    out
}

/// The request that a prompt is sent with; none to an endpoint that must not
/// be called.
pub fn chat_request(cfg: &LlmSettings, messages: &Vec<PromptMessage>) -> (r: Result<
    ChatRequest,
    String,
>)
    ensures
        match r {
            Ok(q) => {
                &&& url_fault(cfg@.base_url) is None
                &&& q.url@ == strip_end(cfg@.base_url, '/') + "/chat/completions"@
                &&& opt_text(q.bearer) == key_to_send(cfg@.api_key)
                &&& q.body@ == chat_json(cfg@.model, messages_view(messages@))
            },
            Err(e) => url_fault(cfg@.base_url) == Some(e@),
        },
        r matches Ok(q) ==> q.url@ == endpoint(cfg@.base_url, "/chat/completions"@),
{
    match validate_base_url(cfg.base_url.as_str()) {
        Ok(_) => {},
        Err(e) => {
            return Err(e);
        },
    }
    let mut url = trim_end_char(cfg.base_url.as_str(), '/');
    url.append("/chat/completions");
    let mut body = String::from_str("{\"messages\":[");
    body.append(write_messages(messages).as_str());
    body.append("],\"model\":");
    body.append(quote(cfg.model.as_str()).as_str());
    body.append(",\"stream\":true,\"stream_options\":{\"include_usage\":true}}");
    let key = match &cfg.api_key {
        Some(k) => Some(k.as_str()),
        None => None,
    };
    Ok(ChatRequest { url, bearer: bearer(key), body })
}

/// What a stream came to when it ended: its text with the counts, or that there
/// was none.
pub open spec fn outcome_of(c: CompletionView) -> Result<
    (Seq<char>, Option<u64>, Option<u64>),
    Seq<char>,
> {
    if c.text.len() == 0 {
        Err("stream ended with no content"@)
    } else {
        Ok((c.text, c.prompt_tokens, c.completion_tokens))
    }
}

/// What is said of an answer that reports a failure: its status and the front
/// of its body.
pub fn failed_call(status: &str, body: &str) -> (r: String)
    ensures
        r@ == status@ + ": "@ + front(body@, 400),
{
    let mut out = String::from_str(status);
    out.append(": ");
    out.append(first_chars(body, 400).as_str());
    out
}

// ---------------------------------------------------------------------------
// The answer
// ---------------------------------------------------------------------------
/// What has been read of an answer: the bytes of an unfinished frame, the text
/// so far, and the usage that was reported.
#[derive(Debug, Clone)]
pub struct Completion {
    pub pending: String,
    pub text: String,
    pub prompt_tokens: Option<u64>,
    pub completion_tokens: Option<u64>,
}

/// A [`Completion`] over character sequences.
#[verifier::ext_equal]
pub struct CompletionView {
    pub pending: Seq<char>,
    pub text: Seq<char>,
    pub prompt_tokens: Option<u64>,
    pub completion_tokens: Option<u64>,
}

impl View for Completion {
    type V = CompletionView;

    open spec fn view(&self) -> CompletionView {
        CompletionView {
            pending: self.pending@,
            text: self.text@,
            prompt_tokens: self.prompt_tokens,
            completion_tokens: self.completion_tokens,
        }
    }
}

/// The document that a data line holds as `choices[0].delta.content`.
pub open spec fn content_of(data: Seq<char>) -> Option<Seq<char>> {
    match member(data, "choices"@) {
        Some(choices) => match first_item(choices) {
            Some(choice) => match member(choice, "delta"@) {
                Some(delta) => member(delta, "content"@),
                None => None,
            },
            None => None,
        },
        None => None,
    }
}

/// The piece of text that a data line brings, unless it is empty.
pub open spec fn delta_of(data: Seq<char>) -> Option<Seq<char>> {
    match content_of(data) {
        Some(content) => match text_value(content) {
            Some(t) => if t.len() > 0 {
                Some(t)
            } else {
                None
            },
            None => None,
        },
        None => None,
    }
}

/// The usage that a data line reports.
pub open spec fn usage_of(data: Seq<char>) -> Option<Seq<char>> {
    match member(data, "usage"@) {
        Some(u) => if json_of(u) == Ok::<JsonView, Seq<char>>(JsonView::Null) {
            None
        } else {
            Some(u)
        },
        None => None,
    }
}

/// A count in a usage report.
pub open spec fn count_of(usage: Seq<char>, name: Seq<char>) -> Option<u64> {
    match member(usage, name) {
        Some(n) => number_value(n),
        None => None,
    }
}

/// The data of a line of the stream: what stands behind `data: `, unless it is
/// the end mark or no JSON.
pub open spec fn data_of(line: Seq<char>) -> Option<Seq<char>> {
    if occurs_at(line, "data: "@, 0) && trimmed(line.skip(6)) != "[DONE]"@ && json_of(
        line.skip(6),
    ) is Ok {
        Some(line.skip(6))
    } else {
        None
    }
}

/// The counts that a data line reports: for the prompt and for the completion.
pub open spec fn counts_of(data: Seq<char>) -> Option<(Option<u64>, Option<u64>)> {
    match usage_of(data) {
        Some(u) => Some((count_of(u, "prompt_tokens"@), count_of(u, "completion_tokens"@))),
        None => None,
    }
}

/// What has been read, and the pieces handed on, after one more piece of text
/// and one more report.
pub open spec fn data_taken(
    st: (CompletionView, Seq<Seq<char>>),
    delta: Option<Seq<char>>,
    usage: Option<(Option<u64>, Option<u64>)>,
) -> (CompletionView, Seq<Seq<char>>) {
    let c = st.0;
    (
        CompletionView {
            text: match delta {
                Some(t) => c.text + t,
                None => c.text,
            },
            prompt_tokens: match usage {
                Some(u) => u.0,
                None => c.prompt_tokens,
            },
            completion_tokens: match usage {
                Some(u) => u.1,
                None => c.completion_tokens,
            },
            ..c
        },
        match delta {
            Some(t) => st.1.push(t),
            None => st.1,
        },
    )
}

/// What has been read, and the pieces handed on, after one more line.
pub open spec fn line_read(st: (CompletionView, Seq<Seq<char>>), line: Seq<char>) -> (
    CompletionView,
    Seq<Seq<char>>,
) {
    match data_of(line) {
        None => st,
        Some(data) => data_taken(st, delta_of(data), counts_of(data)),
    }
}

/// The same after several lines.
pub open spec fn lines_read(st: (CompletionView, Seq<Seq<char>>), v: Seq<Seq<char>>) -> (
    CompletionView,
    Seq<Seq<char>>,
)
    decreases v.len(),
{
    if v.len() == 0 {
        st
    } else {
        line_read(lines_read(st, v.drop_last()), v.last())
    }
}

/// The same after all the frames that are complete in what is pending.
pub open spec fn frames_read(st: (CompletionView, Seq<Seq<char>>)) -> (
    CompletionView,
    Seq<Seq<char>>,
)
    decreases st.0.pending.len(),
{
    match find_from(st.0.pending, "\n\n"@, 0) {
        Some(p) => if 0 <= p && p + 2 <= st.0.pending.len() {
            let frame = st.0.pending.take(p);
            let rest = CompletionView { pending: st.0.pending.skip(p + 2), ..st.0 };
            let next = lines_read((rest, st.1), lines_of(frame));
            if next.0.pending.len() < st.0.pending.len() {
                frames_read(next)
            } else {
                next
            }
        } else {
            st
        },
        None => st,
    }
}

/// What has been read after more text has come.
pub open spec fn fed(c: CompletionView, more: Seq<char>) -> (CompletionView, Seq<Seq<char>>) {
    frames_read((CompletionView { pending: c.pending + more, ..c }, Seq::empty()))
}

/// Lines change nothing of what is pending.
proof fn lemma_lines_keep_pending(st: (CompletionView, Seq<Seq<char>>), v: Seq<Seq<char>>)
    ensures
        lines_read(st, v).0.pending == st.0.pending,
    decreases v.len(),
{
    if v.len() > 0 {
        lemma_lines_keep_pending(st, v.drop_last());
    }
}

fn read_content(data: &str) -> (r: Option<String>)
    ensures
        opt_text(r) == content_of(data@),
{
    match get_member(data, "choices") {
        Some(choices) => match get_first(choices.as_str()) {
            Some(choice) => match get_member(choice.as_str(), "delta") {
                Some(delta) => get_member(delta.as_str(), "content"),
                None => None,
            },
            None => None,
        },
        None => None,
    }
}

fn read_delta(data: &str) -> (r: Option<String>)
    ensures
        opt_text(r) == delta_of(data@),
{
    match read_content(data) {
        Some(content) => match as_text(content.as_str()) {
            Some(t) => if t.as_str().is_empty() {
                None
            } else {
                Some(t)
            },
            None => None,
        },
        None => None,
    }
}

fn read_usage(data: &str) -> (r: Option<String>)
    ensures
        opt_text(r) == usage_of(data@),
{
    match get_member(data, "usage") {
        Some(u) => match parse_json(u.as_str()) {
            Ok(Json::Null) => None,
            _ => Some(u),
        },
        None => None,
    }
}

fn read_count(usage: &str, name: &str) -> (r: Option<u64>)
    ensures
        r == count_of(usage@, name@),
{
    match get_member(usage, name) {
        Some(n) => as_number(n.as_str()),
        None => None,
    }
}

impl Completion {
    /// Nothing read yet.
    pub fn new() -> (r: Completion)
        ensures
            r@ == (CompletionView {
                pending: Seq::empty(),
                text: Seq::empty(),
                prompt_tokens: None,
                completion_tokens: None,
            }),
    {
        Completion {
            pending: String::new(),
            text: String::new(),
            prompt_tokens: None,
            completion_tokens: None,
        }
    }

    fn read_line(&mut self, line: &str, deltas: &mut Vec<String>)
        ensures
            (final(self)@, texts(final(deltas)@)) == line_read(
                (old(self)@, texts(old(deltas)@)),
                line@,
            ),
    {
        let chars = to_chars(line);
        let mark = to_chars("data: ");
        proof {
            reveal_strlit("data: ");
        }
        if !text_at(&chars, &mark, 0) {
            return ;
        }
        let data = from_range(&chars, 6, chars.len());
        assert(data@ =~= line@.skip(6));
        if same_text(trim(data.as_str()).as_str(), "[DONE]") {
            return ;
        }
        if parse_json(data.as_str()).is_err() {
            return ;
        }
        let delta = read_delta(data.as_str());
        let usage = match read_usage(data.as_str()) {
            Some(u) => Some(
                (
                    read_count(u.as_str(), "prompt_tokens"),
                    read_count(u.as_str(), "completion_tokens"),
                ),
            ),
            None => None,
        };
        self.take_data(delta, usage, deltas);
    }

    /// Takes a piece of text and a report.
    pub fn take_data(
        &mut self,
        delta: Option<String>,
        usage: Option<(Option<u64>, Option<u64>)>,
        deltas: &mut Vec<String>,
    )
        ensures
            (final(self)@, texts(final(deltas)@)) == data_taken(
                (old(self)@, texts(old(deltas)@)),
                opt_text(delta),
                usage,
            ),
    {
        let ghost before = texts(deltas@);
        if let Some(t) = delta {
            self.text.append(t.as_str());
            deltas.push(t);
            assert(texts(deltas@) =~= before.push(t@));
        }
        if let Some((prompt, completion)) = usage {
            self.prompt_tokens = prompt;
            self.completion_tokens = completion;
        }
    }

    fn read_frame(&mut self, frame: &str, deltas: &mut Vec<String>)
        ensures
            (final(self)@, texts(final(deltas)@)) == lines_read(
                (old(self)@, texts(old(deltas)@)),
                lines_of(frame@),
            ),
    {
        let ghost st = (self@, texts(deltas@));
        let all = lines(frame);
        let mut i: usize = 0;
        while i < all.len()
            invariant
                i <= all@.len(),
                texts(all@) == lines_of(frame@),
                (self@, texts(deltas@)) == lines_read(st, lines_of(frame@).take(i as int)),
            decreases all@.len() - i,
        {
            proof {
                let v = lines_of(frame@);
                assert(v.take(i + 1).drop_last() =~= v.take(i as int));
                assert(v.take(i + 1).last() == all@[i as int]@);
            }
            self.read_line(all[i].as_str(), deltas);
            i += 1;
        }
        assert(lines_of(frame@).take(i as int) =~= lines_of(frame@));
    }

    /// Takes more of the answer, and returns the pieces of text that it
    /// completes.
    pub fn feed_text(&mut self, more: &str) -> (r: Vec<String>)
        ensures
            (final(self)@, texts(r@)) == fed(old(self)@, more@),
    {
        let mut deltas: Vec<String> = Vec::new();
        self.pending.append(more);
        let ghost goal = frames_read((self@, Seq::empty()));
        assert(texts(deltas@) =~= Seq::empty());
        let gap = to_chars("\n\n");
        proof {
            reveal_strlit("\n\n");
        }
        loop
            invariant
                gap@ == "\n\n"@,
                gap@.len() == 2,
                frames_read((self@, texts(deltas@))) == goal,
            ensures
                (self@, texts(deltas@)) == goal,
            decreases self@.pending.len(),
        {
            let chars = to_chars(self.pending.as_str());
            let ghost st = (self@, texts(deltas@));
            match find(&chars, &gap, 0) {
                None => {
                    break ;
                },
                Some(p) => {
                    assert(p + 2 <= chars.len());
                    let frame = from_range(&chars, 0, p);
                    self.pending = from_range(&chars, p + 2, chars.len());
                    proof {
                        assert(frame@ =~= st.0.pending.take(p as int));
                        assert(self@.pending =~= st.0.pending.skip(p + 2));
                        assert(self@ =~= CompletionView {
                            pending: st.0.pending.skip(p + 2),
                            ..st.0
                        });
                        lemma_lines_keep_pending((self@, st.1), lines_of(frame@));
                    }
                    self.read_frame(frame.as_str(), &mut deltas);
                },
            }
        }
        deltas
    }

    /// Takes more bytes of the answer.
    pub fn feed(&mut self, chunk: &[u8]) -> (r: Vec<String>)
        ensures
            (final(self)@, texts(r@)) == fed(old(self)@, lossy_text(chunk@)),
    {
        let more = decode_lossy(chunk);
        self.feed_text(more.as_str())
    }

    /// What the answer came to, once the stream has ended.
    pub fn finish(self, latency_ms: u64) -> (r: Result<(String, LlmStats), String>)
        ensures
            match r {
                Ok((text, stats)) => {
                    &&& self@.text.len() > 0
                    &&& text@ == self@.text
                    &&& stats.prompt_tokens == self@.prompt_tokens
                    &&& stats.completion_tokens == self@.completion_tokens
                    &&& stats.latency_ms == latency_ms
                },
                Err(e) => self@.text.len() == 0 && e@ == "stream ended with no content"@,
            },
            match r {
                Ok((text, stats)) => outcome_of(self@) == Ok::<
                    (Seq<char>, Option<u64>, Option<u64>),
                    Seq<char>,
                >((text@, stats.prompt_tokens, stats.completion_tokens)),
                Err(e) => outcome_of(self@) == Err::<
                    (Seq<char>, Option<u64>, Option<u64>),
                    Seq<char>,
                >(e@),
            },
    {
        if self.text.as_str().is_empty() {
            return Err("stream ended with no content".to_owned());
        }
        let stats = LlmStats {
            prompt_tokens: self.prompt_tokens,
            completion_tokens: self.completion_tokens,
            latency_ms,
        };
        Ok((self.text, stats))
    }
}

/// A piece of text as it is handed on to the page.
pub fn delta_json(delta: &str) -> (r: String)
    ensures
        r@ == "{\"t\":"@ + quoted(delta@) + "}"@,
{
    let mut out = String::from_str("{\"t\":");
    out.append(quote(delta).as_str());
    out.append("}");
    out
}

// ---------------------------------------------------------------------------
// Laws
// ---------------------------------------------------------------------------
/// What is found in a text is found at the same place in a longer one.
proof fn lemma_find_in_longer(x: Seq<char>, b: Seq<char>, t: Seq<char>, i: int)
    requires
        0 <= i,
        find_from(x, t, i) is Some,
    ensures
        find_from(x + b, t, i) == find_from(x, t, i),
        find_from(x, t, i) matches Some(p) ==> i <= p && p + t.len() <= x.len(),
    decreases x.len() - i + 1,
{
    if i <= x.len() {
        if occurs_at(x, t, i) {
            assert((x + b).subrange(i, i + t.len()) =~= x.subrange(i, i + t.len()));
        } else {
            lemma_find_in_longer(x, b, t, i + 1);
            let p = find_from(x, t, i + 1)->Some_0;
            if occurs_at(x + b, t, i) {
                assert(i + t.len() <= x.len());
                assert((x + b).subrange(i, i + t.len()) =~= x.subrange(i, i + t.len()));
            }
        }
    }
}

/// What lines add does not depend on what is pending.
proof fn lemma_lines_beside_pending(
    st: (CompletionView, Seq<Seq<char>>),
    pending: Seq<char>,
    v: Seq<Seq<char>>,
)
    ensures
        lines_read((CompletionView { pending, ..st.0 }, st.1), v) == (
            CompletionView { pending, ..lines_read(st, v).0 },
            lines_read(st, v).1,
        ),
    decreases v.len(),
{
    if v.len() > 0 {
        lemma_lines_beside_pending(st, pending, v.drop_last());
    }
}

/// `st` with more text pending.
spec fn with_more(st: (CompletionView, Seq<Seq<char>>), b: Seq<char>) -> (
    CompletionView,
    Seq<Seq<char>>,
) {
    (CompletionView { pending: st.0.pending + b, ..st.0 }, st.1)
}

/// Reading the frames that are complete before more text comes changes nothing
/// of the outcome.
proof fn lemma_read_early(st: (CompletionView, Seq<Seq<char>>), b: Seq<char>)
    ensures
        frames_read(with_more(st, b)) == frames_read(with_more(frames_read(st), b)),
    decreases st.0.pending.len(),
{
    let x = st.0.pending;
    reveal_strlit("\n\n");
    if let Some(p) = find_from(x, "\n\n"@, 0) {
        lemma_find_in_longer(x, b, "\n\n"@, 0);
        let frame = x.take(p);
        let rest = x.skip(p + 2);
        assert((x + b).take(p) =~= frame);
        assert((x + b).skip(p + 2) =~= rest + b);
        let here = (CompletionView { pending: rest, ..st.0 }, st.1);
        let next = lines_read(here, lines_of(frame));
        lemma_lines_keep_pending(here, lines_of(frame));
        lemma_lines_beside_pending(here, rest + b, lines_of(frame));
        assert(frames_read(st) == frames_read(next));
        assert(frames_read(with_more(st, b)) == frames_read(with_more(next, b)));
        lemma_read_early(next, b);
    }
}

/// What is handed on comes behind what was handed on before.
proof fn lemma_lines_append(c: CompletionView, d: Seq<Seq<char>>, v: Seq<Seq<char>>)
    ensures
        lines_read((c, d), v).0 == lines_read((c, Seq::empty()), v).0,
        lines_read((c, d), v).1 == d + lines_read((c, Seq::empty()), v).1,
    decreases v.len(),
{
    if v.len() == 0 {
        assert(d + Seq::<Seq<char>>::empty() =~= d);
    } else {
        lemma_lines_append(c, d, v.drop_last());
        let less = lines_read((c, Seq::empty()), v.drop_last());
        if let Some(data) = data_of(v.last()) {
            if let Some(t) = delta_of(data) {
                assert((d + less.1).push(t) =~= d + less.1.push(t));
            }
        }
    }
}

proof fn lemma_frames_append(c: CompletionView, d: Seq<Seq<char>>)
    ensures
        frames_read((c, d)).0 == frames_read((c, Seq::empty())).0,
        frames_read((c, d)).1 == d + frames_read((c, Seq::empty())).1,
    decreases c.pending.len(),
{
    match find_from(c.pending, "\n\n"@, 0) {
        Some(p) => {
            if 0 <= p && p + 2 <= c.pending.len() {
                let frame = c.pending.take(p);
                let rest = CompletionView { pending: c.pending.skip(p + 2), ..c };
                let plain = lines_read((rest, Seq::empty()), lines_of(frame));
                lemma_lines_append(rest, d, lines_of(frame));
                lemma_lines_keep_pending((rest, d), lines_of(frame));
                lemma_lines_keep_pending((rest, Seq::empty()), lines_of(frame));
                lemma_frames_append(plain.0, d + plain.1);
                lemma_frames_append(plain.0, plain.1);
                assert((d + plain.1) + frames_read((plain.0, Seq::empty())).1 =~= d + (plain.1
                    + frames_read((plain.0, Seq::empty())).1));
            } else {
                assert(d + Seq::<Seq<char>>::empty() =~= d);
            }
        },
        None => {
            assert(d + Seq::<Seq<char>>::empty() =~= d);
        },
    }
}

/// Where the answer is cut into chunks makes no difference: two chunks of text
/// come to what they come to as one.
pub proof fn law_chunks_do_not_matter(c: CompletionView, a: Seq<char>, b: Seq<char>)
    ensures
        ({
            let first = fed(c, a);
            let second = fed(first.0, b);
            fed(c, a + b) == (second.0, first.1 + second.1)
        }),
{
    let st = (CompletionView { pending: c.pending + a, ..c }, Seq::<Seq<char>>::empty());
    let first = frames_read(st);
    assert((c.pending + a) + b =~= c.pending + (a + b));
    lemma_read_early(st, b);
    lemma_frames_append(with_more(first, b).0, first.1);
}

/// Pieces one behind the other.
pub open spec fn together(v: Seq<Seq<char>>) -> Seq<char>
    decreases v.len(),
{
    if v.len() == 0 {
        Seq::empty()
    } else {
        together(v.drop_last()) + v.last()
    }
}

proof fn lemma_together_add(a: Seq<Seq<char>>, b: Seq<Seq<char>>)
    ensures
        together(a + b) == together(a) + together(b),
    decreases b.len(),
{
    if b.len() == 0 {
        assert(a + b =~= a);
        assert(together(a) + together(b) =~= together(a));
    } else {
        assert((a + b).drop_last() =~= a + b.drop_last());
        lemma_together_add(a, b.drop_last());
        assert(together(a + b) =~= together(a) + together(b));
    }
}

proof fn lemma_lines_make_text(c: CompletionView, v: Seq<Seq<char>>)
    ensures
        lines_read((c, Seq::empty()), v).0.text == c.text + together(
            lines_read((c, Seq::empty()), v).1,
        ),
    decreases v.len(),
{
    if v.len() == 0 {
        assert(c.text + together(Seq::empty()) =~= c.text);
    } else {
        lemma_lines_make_text(c, v.drop_last());
        let less = lines_read((c, Seq::empty()), v.drop_last());
        if let Some(data) = data_of(v.last()) {
            if let Some(t) = delta_of(data) {
                assert(less.1.push(t).drop_last() =~= less.1);
                assert(c.text + together(less.1) + t =~= c.text + together(less.1.push(t)));
            }
        }
    }
}

proof fn lemma_frames_make_text(c: CompletionView)
    ensures
        frames_read((c, Seq::empty())).0.text == c.text + together(
            frames_read((c, Seq::empty())).1,
        ),
    decreases c.pending.len(),
{
    let none = Seq::<Seq<char>>::empty();
    assert(c.text + together(none) =~= c.text);
    if let Some(p) = find_from(c.pending, "\n\n"@, 0) {
        if 0 <= p && p + 2 <= c.pending.len() {
            let frame = c.pending.take(p);
            let rest = CompletionView { pending: c.pending.skip(p + 2), ..c };
            let next = lines_read((rest, none), lines_of(frame));
            lemma_lines_make_text(rest, lines_of(frame));
            lemma_lines_keep_pending((rest, none), lines_of(frame));
            lemma_frames_make_text(next.0);
            lemma_frames_append(next.0, next.1);
            let later = frames_read((next.0, none)).1;
            lemma_together_add(next.1, later);
            assert(c.text + together(next.1) + together(later) =~= c.text + together(
                next.1 + later,
            ));
        }
    }
}

/// What is handed on piece by piece is what the answer comes to: the text grows by
/// exactly the pieces, in their order.
pub proof fn law_pieces_make_the_text(c: CompletionView, more: Seq<char>)
    ensures
        fed(c, more).0.text == c.text + together(fed(c, more).1),
        together(Seq::empty()) == Seq::<char>::empty(),
{
    lemma_frames_make_text(CompletionView { pending: c.pending + more, ..c });
}

/// A frame that is not finished waits: nothing of it is read.
pub proof fn law_unfinished_frames_wait(c: CompletionView, more: Seq<char>)
    requires
        find_from(c.pending + more, "\n\n"@, 0) is None,
    ensures
        fed(c, more).1.len() == 0,
        fed(c, more).0 == (CompletionView { pending: c.pending + more, ..c }),
{
}

/// A line of data adds its piece to the text and hands it on, and its report takes
/// the place of the one before; without a piece or a report, what there was stays.
/// A line that is not data, or that says that the stream is done, adds nothing.
pub proof fn law_lines_add_what_they_hold(
    c: CompletionView,
    pieces: Seq<Seq<char>>,
    line: Seq<char>,
    data: Seq<char>,
    piece: Seq<char>,
    counts: (Option<u64>, Option<u64>),
)
    ensures
        !occurs_at(line, "data: "@, 0) ==> line_read((c, pieces), line) == (c, pieces),
        trimmed(data) == "[DONE]"@ ==> line_read((c, pieces), "data: "@ + data) == (c, pieces),
        json_of(data) is Err ==> line_read((c, pieces), "data: "@ + data) == (c, pieces),
        json_of(data) is Ok && trimmed(data) != "[DONE]"@ ==> line_read(
            (c, pieces),
            "data: "@ + data,
        ) == data_taken((c, pieces), delta_of(data), counts_of(data)),
        ({
            let took = data_taken((c, pieces), Some(piece), Some(counts));
            &&& took.0.text == c.text + piece
            &&& took.1 == pieces.push(piece)
            &&& took.0.prompt_tokens == counts.0
            &&& took.0.completion_tokens == counts.1
            &&& took.0.pending == c.pending
        }),
        data_taken((c, pieces), None, None) == (c, pieces),
        data_taken((c, pieces), Some(piece), None).0.prompt_tokens == c.prompt_tokens,
        data_taken((c, pieces), Some(piece), None).0.completion_tokens == c.completion_tokens,
        data_taken((c, pieces), None, Some(counts)).1 == pieces,
        data_taken((c, pieces), None, Some(counts)).0.text == c.text,
{
    reveal_strlit("data: ");
    let whole = "data: "@ + data;
    assert(whole.subrange(0, 6) =~= "data: "@);
    assert(whole.skip(6) =~= data);
}

/// The request to the model holds every message of the prompt, in its order, each
/// with its role.
pub proof fn law_every_message_is_sent(v: Seq<MessageView>, m: MessageView, model: Seq<char>)
    ensures
        messages_json(Seq::empty()) == Seq::<char>::empty(),
        messages_json(v.push(m)) == messages_json(v) + (if v.len() == 0 {
            Seq::empty()
        } else {
            seq![',']
        }) + ("{\"content\":"@ + quoted(m.content) + ",\"role\":"@ + quoted(m.role) + "}"@),
        chat_json(model, v) == "{\"messages\":["@ + messages_json(v) + "],\"model\":"@ + quoted(model)
            + ",\"stream\":true,\"stream_options\":{\"include_usage\":true}}"@,
{
    reveal_strlit(",");
    reveal_strlit("");
    assert(","@ =~= seq![',']);
    assert(""@ =~= Seq::empty());
    assert(v.push(m).drop_last() =~= v);
    assert(messages_json(v.push(m)) =~= messages_json(v) + (if v.len() == 0 {
        Seq::empty()
    } else {
        seq![',']
    }) + ("{\"content\":"@ + quoted(m.content) + ",\"role\":"@ + quoted(m.role) + "}"@));
}

/// A stream that brought any text has come to that text, whole, with the counts
/// that were reported last; one that brought none has failed.
pub proof fn law_stream_comes_to_its_text(c: CompletionView)
    ensures
        outcome_of(c) is Err <==> c.text.len() == 0,
        outcome_of(c) matches Ok(o) ==> o.0 == c.text && o.1 == c.prompt_tokens && o.2
            == c.completion_tokens,
{
}

} // verus!
