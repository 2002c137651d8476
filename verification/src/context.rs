//! The layers of a prompt: each rendered from what was read, cut to its budget,
//! and measured.
use vstd::prelude::*;
use vstd::string::*;

use crate::memory::Mode;
use crate::text::{
    clone_text, join, joined, law_split_join, lemma_joined_parts, opt_text, pieces, split, texts,
    trim_end, trim_end_text,
};

verus! {

/// A request for the layers.
#[derive(Debug, Clone)]
pub struct AssembleRequest {
    pub project_id: Option<String>,
    pub session_id: Option<String>,
    pub query: Option<String>,
    pub token_budget: Option<usize>,
    pub recent_turns_floor: Option<usize>,
}

/// The five layers.
#[derive(Debug, Clone)]
pub struct Layers {
    pub procedural: String,
    pub project_context: String,
    pub memories: String,
    pub document_chunks: String,
    pub recent_conversation: String,
}

/// How long each layer is.
#[derive(Debug, Clone, Copy, PartialEq, Eq, Structural)]
pub struct TokenCounts {
    pub procedural: usize,
    pub project_context: usize,
    pub memories: usize,
    pub document_chunks: usize,
    pub recent_conversation: usize,
}

/// The answer: the layers, their lengths, and the mode they were made in.
#[derive(Debug, Clone)]
pub struct AssembleResponse {
    pub layers: Layers,
    pub token_counts: TokenCounts,
    pub total_tokens: usize,
    pub mode: &'static str,
}

/// The budget of each layer.
pub const BUDGET_PROCEDURAL: usize = 300;

pub const BUDGET_PROJECT: usize = 600;

pub const BUDGET_MEMORIES: usize = 1200;

pub const BUDGET_DOCUMENTS: usize = 800;

pub const BUDGET_CONVERSATION: usize = 1500;

/// How many of the last turns stay whatever the budget.
pub const DEFAULT_TURN_FLOOR: usize = 3;

// ---------------------------------------------------------------------------
// Measuring
// ---------------------------------------------------------------------------
/// Whether a measure takes every text, and gives one text one length.
pub open spec fn is_measure<F: Fn(&str) -> usize>(f: F) -> bool {
    &&& forall|s: &str| #[trigger] call_requires(f, (s,))
    &&& forall|s: &str, t: &str, m: usize, n: usize|
        s@ == t@ && #[trigger] call_ensures(f, (s,), m) && #[trigger] call_ensures(f, (t,), n)
            ==> m == n
}

/// Whether a measure can give a text this length.
pub open spec fn measures<F: Fn(&str) -> usize>(f: F, text: Seq<char>, n: usize) -> bool {
    exists|s: &str| s@ == text && #[trigger] call_ensures(f, (s,), n)
}

/// The length that a measure gives a text.
pub open spec fn size_by<F: Fn(&str) -> usize>(f: F, text: Seq<char>) -> usize {
    choose|n: usize| measures(f, text, n)
}

/// Measures a text.
fn size<F: Fn(&str) -> usize>(f: &F, s: &str) -> (r: usize)
    requires
        is_measure(*f),
    ensures
        r == size_by(*f, s@),
        measures(*f, s@, r),
{
    let r = f(s);
    proof {
        assert(measures(*f, s@, r));
        let n = size_by(*f, s@);
        assert(measures(*f, s@, n));
        let t = choose|t: &str| t@ == s@ && #[trigger] call_ensures(*f, (t,), n);
        assert(call_ensures(*f, (t,), n));
    }
    r
}

// ---------------------------------------------------------------------------
// Cutting a layer to its budget
// ---------------------------------------------------------------------------
/// What stands between two blocks.
pub open spec fn gap() -> Seq<char> {
    "\n\n"@
}

/// The blocks of a text.
pub open spec fn blocks_of(s: Seq<char>) -> Seq<Seq<char>> {
    pieces(s, gap())
}

/// As many of the first blocks as are together within the budget.
pub open spec fn shrunk<F: Fn(&str) -> usize>(f: F, blocks: Seq<Seq<char>>, budget: usize) -> Seq<
    Seq<char>,
>
    decreases blocks.len(),
{
    if blocks.len() == 0 || size_by(f, joined(blocks, gap())) <= budget {
        blocks
    } else {
        shrunk(f, blocks.drop_last(), budget)
    }
}

/// A text cut to a budget, block by block from its end.
pub open spec fn cut<F: Fn(&str) -> usize>(f: F, s: Seq<char>, budget: usize) -> Seq<char> {
    if size_by(f, s) <= budget {
        s
    } else {
        joined(shrunk(f, blocks_of(s), budget), gap())
    }
}

/// Cuts a text to a budget by dropping blocks from its end.
pub fn truncate_to_budget<F: Fn(&str) -> usize>(s: String, budget: usize, approx_tokens: &F) -> (r:
    String)
    requires
        is_measure(*approx_tokens),
    ensures
        r@ == cut(*approx_tokens, s@, budget),
{
    if size(approx_tokens, s.as_str()) <= budget {
        return s;
    }
    proof {
        reveal_strlit("\n\n");
    }
    let mut blocks = split(s.as_str(), "\n\n");
    let ghost goal = shrunk(*approx_tokens, blocks_of(s@), budget);
    let mut out = join(&blocks, "\n\n");
    while blocks.len() > 0 && size(approx_tokens, out.as_str()) > budget
        invariant
            is_measure(*approx_tokens),
            out@ == joined(texts(blocks@), gap()),
            goal == shrunk(*approx_tokens, texts(blocks@), budget),
        decreases blocks@.len(),
    {
        let ghost before = texts(blocks@);
        blocks.pop();
        assert(texts(blocks@) =~= before.drop_last());
        out = join(&blocks, "\n\n");
    }
    assert(goal == texts(blocks@));
    out
}

/// The last `floor` of the blocks.
pub open spec fn last_blocks(blocks: Seq<Seq<char>>, floor: nat) -> Seq<Seq<char>> {
    if floor >= blocks.len() {
        blocks
    } else {
        blocks.skip(blocks.len() - floor)
    }
}

/// `working` with blocks before place `i` put in front of it, the nearest first,
/// while it stays within the budget.
pub open spec fn grown<F: Fn(&str) -> usize>(
    f: F,
    blocks: Seq<Seq<char>>,
    i: int,
    working: Seq<char>,
    budget: usize,
) -> Seq<char>
    decreases i,
{
    if i <= 0 {
        working
    } else {
        let candidate = blocks[i - 1] + gap() + working;
        if size_by(f, candidate) > budget {
            working
        } else {
            grown(f, blocks, i - 1, candidate, budget)
        }
    }
}

/// A text cut to a budget from its start, with its last blocks kept whatever
/// they measure.
pub open spec fn cut_front<F: Fn(&str) -> usize>(
    f: F,
    s: Seq<char>,
    budget: usize,
    floor: nat,
) -> Seq<char> {
    if size_by(f, s) <= budget {
        s
    } else {
        let blocks = blocks_of(s);
        let kept = last_blocks(blocks, floor);
        let working = joined(kept, gap());
        if size_by(f, working) >= budget {
            working
        } else {
            grown(f, blocks, blocks.len() - kept.len(), working, budget)
        }
    }
}

/// Cuts a text to a budget by dropping blocks from its start; the last `floor`
/// blocks always stay.
pub fn truncate_protecting_floor<F: Fn(&str) -> usize>(
    s: String,
    budget: usize,
    floor: usize,
    approx_tokens: &F,
) -> (r: String)
    requires
        is_measure(*approx_tokens),
    ensures
        r@ == cut_front(*approx_tokens, s@, budget, floor as nat),
{
    if size(approx_tokens, s.as_str()) <= budget {
        return s;
    }
    proof {
        reveal_strlit("\n\n");
        law_split_join(s@, gap());
    }
    let blocks = split(s.as_str(), "\n\n");
    let ghost all = texts(blocks@);
    let n: usize = blocks.len();
    let start: usize = if floor >= n {
        0
    } else {
        n - floor
    };
    let mut kept: Vec<String> = Vec::new();
    let mut k: usize = start;
    while k < n
        invariant
            start <= k <= n == blocks@.len(),
            all == texts(blocks@),
            texts(kept@) == all.subrange(start as int, k as int),
        decreases n - k,
    {
        let ghost before = texts(kept@);
        kept.push(blocks[k].clone());
        assert(texts(kept@) =~= before.push(all[k as int]));
        k += 1;
        assert(texts(kept@) =~= all.subrange(start as int, k as int));
    }
    assert(texts(kept@) =~= last_blocks(all, floor as nat));
    let mut working = join(&kept, "\n\n");
    if size(approx_tokens, working.as_str()) >= budget {
        return working;
    }
    let ghost goal = grown(*approx_tokens, all, start as int, working@, budget);
    let mut i: usize = start;
    while i > 0
        invariant
            is_measure(*approx_tokens),
            i <= blocks@.len(),
            all == texts(blocks@),
            goal == grown(*approx_tokens, all, i as int, working@, budget),
        ensures
            goal == working@,
        decreases i,
    {
        let mut candidate = blocks[i - 1].clone();
        candidate.append("\n\n");
        candidate.append(working.as_str());
        assert(candidate@ == all[i - 1] + gap() + working@);
        if size(approx_tokens, candidate.as_str()) > budget {
            break ;
        }
        working = candidate;
        i -= 1;
    }
    working
}

// ---------------------------------------------------------------------------
// Rendering the layers
// ---------------------------------------------------------------------------
/// One line for each text, behind a dash.
pub open spec fn bullets(v: Seq<Seq<char>>) -> Seq<char>
    decreases v.len(),
{
    if v.len() == 0 {
        Seq::empty()
    } else {
        bullets(v.drop_last()) + "- "@ + v.last() + "\n"@
    }
}

/// Each text with an empty line behind it.
pub open spec fn paragraphs(v: Seq<Seq<char>>) -> Seq<char>
    decreases v.len(),
{
    if v.len() == 0 {
        Seq::empty()
    } else {
        paragraphs(v.drop_last()) + v.last() + gap()
    }
}

fn append_bullets(out: &mut String, v: &Vec<String>)
    ensures
        final(out)@ == old(out)@ + bullets(texts(v@)),
{
    let ghost head = out@;
    let ghost all = texts(v@);
    let mut i: usize = 0;
    assert(head + bullets(all.take(0)) =~= head);
    while i < v.len()
        invariant
            i <= v@.len(),
            all == texts(v@),
            out@ == head + bullets(all.take(i as int)),
        decreases v@.len() - i,
    {
        out.append("- ");
        out.append(v[i].as_str());
        out.append("\n");
        proof {
            assert(all.take(i + 1).drop_last() =~= all.take(i as int));
            assert(out@ =~= head + bullets(all.take(i + 1)));
        }
        i += 1;
    }
    assert(all.take(i as int) =~= all);
}

fn append_paragraphs(out: &mut String, v: &Vec<String>)
    ensures
        final(out)@ == old(out)@ + paragraphs(texts(v@)),
{
    let ghost head = out@;
    let ghost all = texts(v@);
    let mut i: usize = 0;
    assert(head + paragraphs(all.take(0)) =~= head);
    while i < v.len()
        invariant
            i <= v@.len(),
            all == texts(v@),
            out@ == head + paragraphs(all.take(i as int)),
        decreases v@.len() - i,
    {
        out.append(v[i].as_str());
        out.append("\n\n");
        proof {
            assert(all.take(i + 1).drop_last() =~= all.take(i as int));
            assert(out@ =~= head + paragraphs(all.take(i + 1)));
        }
        i += 1;
    }
    assert(all.take(i as int) =~= all);
}

/// The first layer: the procedural memories.
pub open spec fn procedural_text(v: Seq<Seq<char>>) -> Seq<char> {
    if v.len() == 0 {
        Seq::empty()
    } else {
        "# Procedural patterns\n"@ + bullets(v)
    }
}

/// Renders the procedural memories.
pub fn render_procedural(contents: &Vec<String>) -> (r: String)
    ensures
        r@ == procedural_text(texts(contents@)),
{
    if contents.len() == 0 {
        return String::new();
    }
    let mut out = String::from_str("# Procedural patterns\n");
    append_bullets(&mut out, contents);
    out
}

/// `head` and, behind an empty line where there is one already, a section.
pub open spec fn with_section(head: Seq<char>, title: Seq<char>, body: Seq<char>) -> Seq<char> {
    if head.len() == 0 {
        head + title + body
    } else {
        head.push('\n') + title + body
    }
}

/// The second layer: core memory, active state and, for a project, its facts.
pub open spec fn project_text(
    core: Seq<Seq<char>>,
    states: Seq<Seq<char>>,
    facts: Seq<Seq<char>>,
) -> Seq<char> {
    let a = if core.len() == 0 {
        Seq::empty()
    } else {
        "# Core memory\n"@ + bullets(core)
    };
    let b = if states.len() == 0 {
        a
    } else {
        with_section(a, "# Active state\n"@, paragraphs(states))
    };
    let c = if facts.len() == 0 {
        b
    } else {
        with_section(b, "# Project facts\n"@, bullets(facts))
    };
    trim_end(c)
}

/// Renders core memory, active state and a project's facts; `facts` is empty
/// where there is no project.
pub fn render_project_context(core: &Vec<String>, states: &Vec<String>, facts: &Vec<String>) -> (r:
    String)
    ensures
        r@ == project_text(texts(core@), texts(states@), texts(facts@)),
{
    let mut out = String::new();
    if core.len() > 0 {
        out.append("# Core memory\n");
        assert(out@ =~= "# Core memory\n"@);
        append_bullets(&mut out, core);
    }
    if states.len() > 0 {
        if !out.as_str().is_empty() {
            out.push('\n');
        }
        out.append("# Active state\n");
        append_paragraphs(&mut out, states);
    }
    if facts.len() > 0 {
        if !out.as_str().is_empty() {
            out.push('\n');
        }
        out.append("# Project facts\n");
        append_bullets(&mut out, facts);
    }
    trim_end_text(out.as_str())
}

/// A memory that a search found: its score as text, and what it says.
#[derive(Debug, Clone)]
pub struct ScoredMemory {
    pub score: String,
    pub content: String,
}

/// One line for each memory, with its score.
pub open spec fn scored_lines(v: Seq<ScoredMemory>) -> Seq<char>
    decreases v.len(),
{
    if v.len() == 0 {
        Seq::empty()
    } else {
        scored_lines(v.drop_last()) + "- ("@ + v.last().score@ + ") "@ + v.last().content@ + "\n"@
    }
}

/// The third layer: the memories that a search found.
pub open spec fn memories_text(v: Seq<ScoredMemory>) -> Seq<char> {
    if v.len() == 0 {
        Seq::empty()
    } else {
        "# Retrieved memories\n"@ + scored_lines(v)
    }
}

/// Renders the memories that a search found.
pub fn render_top_memories(scored: &Vec<ScoredMemory>) -> (r: String)
    ensures
        r@ == memories_text(scored@),
{
    if scored.len() == 0 {
        return String::new();
    }
    let mut out = String::from_str("# Retrieved memories\n");
    let ghost head = out@;
    let mut i: usize = 0;
    assert(head + scored_lines(scored@.take(0)) =~= head);
    while i < scored.len()
        invariant
            i <= scored@.len(),
            out@ == head + scored_lines(scored@.take(i as int)),
        decreases scored@.len() - i,
    {
        out.append("- (");
        out.append(scored[i].score.as_str());
        out.append(") ");
        out.append(scored[i].content.as_str());
        out.append("\n");
        proof {
            assert(scored@.take(i + 1).drop_last() =~= scored@.take(i as int));
            assert(out@ =~= head + scored_lines(scored@.take(i + 1)));
        }
        i += 1;
    }
    assert(scored@.take(i as int) =~= scored@);
    out
}

/// A part of a document and where it came from.
#[derive(Debug, Clone)]
pub struct DocumentChunk {
    pub source_path: Option<String>,
    pub content: String,
}

/// A heading and a paragraph for each part.
pub open spec fn chunk_text(v: Seq<DocumentChunk>) -> Seq<char>
    decreases v.len(),
{
    if v.len() == 0 {
        Seq::empty()
    } else {
        chunk_text(v.drop_last()) + "## "@ + (match v.last().source_path {
            Some(p) => p@,
            None => "doc"@,
        }) + "\n"@ + v.last().content@ + gap()
    }
}

/// The fourth layer: the parts of documents that a search found.
pub open spec fn documents_text(v: Seq<DocumentChunk>) -> Seq<char> {
    if v.len() == 0 {
        Seq::empty()
    } else {
        trim_end("# Document chunks\n"@ + chunk_text(v))
    }
}

/// Renders the parts of documents that a search found.
pub fn render_documents(chunks: &Vec<DocumentChunk>) -> (r: String)
    ensures
        r@ == documents_text(chunks@),
{
    if chunks.len() == 0 {
        return String::new();
    }
    let mut out = String::from_str("# Document chunks\n");
    let ghost head = out@;
    let mut i: usize = 0;
    assert(head + chunk_text(chunks@.take(0)) =~= head);
    while i < chunks.len()
        invariant
            i <= chunks@.len(),
            out@ == head + chunk_text(chunks@.take(i as int)),
        decreases chunks@.len() - i,
    {
        out.append("## ");
        match &chunks[i].source_path {
            Some(p) => out.append(p.as_str()),
            None => out.append("doc"),
        }
        out.append("\n");
        out.append(chunks[i].content.as_str());
        out.append("\n\n");
        proof {
            assert(chunks@.take(i + 1).drop_last() =~= chunks@.take(i as int));
            assert(out@ =~= head + chunk_text(chunks@.take(i + 1)));
        }
        i += 1;
    }
    assert(chunks@.take(i as int) =~= chunks@);
    trim_end_text(out.as_str())
}

/// The fifth layer: the turns of a conversation, oldest first.
pub open spec fn conversation_text(newest_first: Seq<Seq<char>>) -> Seq<char> {
    if newest_first.len() == 0 {
        Seq::empty()
    } else {
        trim_end("# Recent conversation\n"@ + paragraphs(newest_first.reverse()))
    }
}

/// Renders the turns of a conversation, which come newest first, oldest first.
pub fn render_recent_conversation(newest_first: &Vec<String>) -> (r: String)
    ensures
        r@ == conversation_text(texts(newest_first@)),
{
    if newest_first.len() == 0 {
        return String::new();
    }
    let ghost all = texts(newest_first@).reverse();
    let mut out = String::from_str("# Recent conversation\n");
    let ghost head = out@;
    let n: usize = newest_first.len();
    let mut i: usize = 0;
    assert(head + paragraphs(all.take(0)) =~= head);
    while i < n
        invariant
            i <= n == newest_first@.len() == all.len(),
            all == texts(newest_first@).reverse(),
            out@ == head + paragraphs(all.take(i as int)),
        decreases n - i,
    {
        out.append(newest_first[n - 1 - i].as_str());
        out.append("\n\n");
        proof {
            assert(all.take(i + 1).drop_last() =~= all.take(i as int));
            assert(all.take(i + 1).last() == newest_first@[n - 1 - i]@);
            assert(out@ =~= head + paragraphs(all.take(i + 1)));
        }
        i += 1;
    }
    assert(all.take(i as int) =~= all);
    trim_end_text(out.as_str())
}

// ---------------------------------------------------------------------------
// Assembly
// ---------------------------------------------------------------------------
/// The mode of a request: one with a query asks for an answer.
pub open spec fn mode_of(query: Option<Seq<char>>) -> Mode {
    if query is Some {
        Mode::Answer
    } else {
        Mode::Manager
    }
}

/// The mode of a request.
pub fn request_mode(req: &AssembleRequest) -> (r: Mode)
    ensures
        r == mode_of(opt_text(req.query)),
{
    if req.query.is_some() {
        Mode::Answer
    } else {
        Mode::Manager
    }
}

/// What a layer searches for: memories of these types, of one session where it
/// is given, and at most so many of them.
#[derive(Debug, Clone)]
pub struct LayerSearch {
    pub memory_types: Vec<String>,
    pub session_id: Option<String>,
    pub mode: Mode,
    pub top_k: usize,
    /// Whether the search goes by the entities of the query as well.
    pub by_entities: bool,
}

/// The search for the memories layer: what was lived through, learned and is
/// being worked on, in the session of the request.
pub fn memories_search(req: &AssembleRequest) -> (r: LayerSearch)
    ensures
        texts(r.memory_types@) == seq!["episodic"@, "semantic"@, "working"@],
        opt_text(r.session_id) == opt_text(req.session_id),
        r.mode == mode_of(opt_text(req.query)),
        r.top_k == 10,
        r.by_entities,
{
    let mut memory_types: Vec<String> = Vec::new();
    memory_types.push("episodic".to_owned());
    memory_types.push("semantic".to_owned());
    memory_types.push("working".to_owned());
    assert(texts(memory_types@) =~= seq!["episodic"@, "semantic"@, "working"@]);
    LayerSearch {
        memory_types,
        session_id: clone_text(&req.session_id),
        mode: request_mode(req),
        top_k: 10,
        by_entities: true,
    }
}

/// The search for the documents layer: documents of any session, for an answer.
pub fn documents_search() -> (r: LayerSearch)
    ensures
        texts(r.memory_types@) == seq!["document"@],
        r.session_id is None,
        r.mode == Mode::Answer,
        r.top_k == 6,
        !r.by_entities,
{
    let mut memory_types: Vec<String> = Vec::new();
    memory_types.push("document".to_owned());
    assert(texts(memory_types@) =~= seq!["document"@]);
    LayerSearch {
        memory_types,
        session_id: None,
        mode: Mode::Answer,
        top_k: 6,
        by_entities: false,
    }
}

/// How many of the last turns a request keeps.
pub open spec fn floor_of(req: AssembleRequest) -> usize {
    match req.recent_turns_floor {
        Some(n) => n,
        None => DEFAULT_TURN_FLOOR,
    }
}

/// A measure that stays far from the largest number, so that five lengths add
/// up.
pub open spec fn is_modest<F: Fn(&str) -> usize>(f: F) -> bool {
    forall|s: &str, n: usize| #[trigger] call_ensures(f, (s,), n) ==> n <= usize::MAX / 5
}

/// Whether an answer is what the rendered layers come to: each cut to its own
/// budget, and each measured.
pub open spec fn layers_made<F: Fn(&str) -> usize>(
    f: F,
    req: AssembleRequest,
    rendered: Layers,
    r: AssembleResponse,
) -> bool {
    &&& r.layers.procedural@ == cut(f, rendered.procedural@, BUDGET_PROCEDURAL)
    &&& r.layers.project_context@ == cut(f, rendered.project_context@, BUDGET_PROJECT)
    &&& r.layers.memories@ == cut(f, rendered.memories@, BUDGET_MEMORIES)
    &&& r.layers.document_chunks@ == cut(f, rendered.document_chunks@, BUDGET_DOCUMENTS)
    &&& r.layers.recent_conversation@ == cut_front(
        f,
        rendered.recent_conversation@,
        BUDGET_CONVERSATION,
        floor_of(req) as nat,
    )
    &&& r.token_counts.procedural == size_by(f, r.layers.procedural@)
    &&& r.token_counts.project_context == size_by(f, r.layers.project_context@)
    &&& r.token_counts.memories == size_by(f, r.layers.memories@)
    &&& r.token_counts.document_chunks == size_by(f, r.layers.document_chunks@)
    &&& r.token_counts.recent_conversation == size_by(f, r.layers.recent_conversation@)
    &&& r.total_tokens == r.token_counts.procedural + r.token_counts.project_context
        + r.token_counts.memories + r.token_counts.document_chunks
        + r.token_counts.recent_conversation
    &&& r.mode@ == mode_of(opt_text(req.query)).name()
}

/// Cuts the rendered layers to their budgets and measures them.
pub fn assemble<F: Fn(&str) -> usize>(
    req: &AssembleRequest,
    rendered: Layers,
    approx_tokens: &F,
) -> (r: AssembleResponse)
    requires
        is_measure(*approx_tokens),
        is_modest(*approx_tokens),
    ensures
        ({
            let f = *approx_tokens;
            &&& r.layers.procedural@ == cut(f, rendered.procedural@, BUDGET_PROCEDURAL)
            &&& r.layers.project_context@ == cut(f, rendered.project_context@, BUDGET_PROJECT)
            &&& r.layers.memories@ == cut(f, rendered.memories@, BUDGET_MEMORIES)
            &&& r.layers.document_chunks@ == cut(f, rendered.document_chunks@, BUDGET_DOCUMENTS)
            &&& r.layers.recent_conversation@ == cut_front(
                f,
                rendered.recent_conversation@,
                BUDGET_CONVERSATION,
                floor_of(*req) as nat,
            )
            &&& r.token_counts.procedural == size_by(f, r.layers.procedural@)
            &&& r.token_counts.project_context == size_by(f, r.layers.project_context@)
            &&& r.token_counts.memories == size_by(f, r.layers.memories@)
            &&& r.token_counts.document_chunks == size_by(f, r.layers.document_chunks@)
            &&& r.token_counts.recent_conversation == size_by(f, r.layers.recent_conversation@)
            &&& r.total_tokens == r.token_counts.procedural + r.token_counts.project_context
                + r.token_counts.memories + r.token_counts.document_chunks
                + r.token_counts.recent_conversation
            &&& r.mode@ == mode_of(opt_text(req.query)).name()
        }),
        layers_made(*approx_tokens, *req, rendered, r),
{
    let floor: usize = match req.recent_turns_floor {
        Some(n) => n,
        None => DEFAULT_TURN_FLOOR,
    };
    let procedural = truncate_to_budget(rendered.procedural, BUDGET_PROCEDURAL, approx_tokens);
    let project_context = truncate_to_budget(
        rendered.project_context,
        BUDGET_PROJECT,
        approx_tokens,
    );
    let memories = truncate_to_budget(rendered.memories, BUDGET_MEMORIES, approx_tokens);
    let document_chunks = truncate_to_budget(
        rendered.document_chunks,
        BUDGET_DOCUMENTS,
        approx_tokens,
    );
    let recent_conversation = truncate_protecting_floor(
        rendered.recent_conversation,
        BUDGET_CONVERSATION,
        floor,
        approx_tokens,
    );
    let token_counts = TokenCounts {
        procedural: size(approx_tokens, procedural.as_str()),
        project_context: size(approx_tokens, project_context.as_str()),
        memories: size(approx_tokens, memories.as_str()),
        document_chunks: size(approx_tokens, document_chunks.as_str()),
        recent_conversation: size(approx_tokens, recent_conversation.as_str()),
    };
    let total_tokens: usize = token_counts.procedural + token_counts.project_context
        + token_counts.memories + token_counts.document_chunks + token_counts.recent_conversation;
    let mode = request_mode(req).label();
    AssembleResponse {
        layers: Layers {
            procedural,
            project_context,
            memories,
            document_chunks,
            recent_conversation,
        },
        token_counts,
        total_tokens,
        mode,
    }
}

// ---------------------------------------------------------------------------
// Laws
// ---------------------------------------------------------------------------
proof fn lemma_shrunk<F: Fn(&str) -> usize>(f: F, blocks: Seq<Seq<char>>, budget: usize)
    ensures
        shrunk(f, blocks, budget).len() <= blocks.len(),
        shrunk(f, blocks, budget) == blocks.take(shrunk(f, blocks, budget).len() as int),
        shrunk(f, blocks, budget).len() > 0 ==> size_by(
            f,
            joined(shrunk(f, blocks, budget), gap()),
        ) <= budget,
    decreases blocks.len(),
{
    if blocks.len() == 0 || size_by(f, joined(blocks, gap())) <= budget {
        assert(blocks.take(blocks.len() as int) =~= blocks);
    } else {
        lemma_shrunk(f, blocks.drop_last(), budget);
        let n = shrunk(f, blocks, budget).len() as int;
        assert(blocks.drop_last().take(n) =~= blocks.take(n));
    }
}

/// A layer that is cut is a front part of what it was, and within its budget
/// unless nothing of it is left.
pub proof fn law_cut_is_a_front_part<F: Fn(&str) -> usize>(f: F, s: Seq<char>, budget: usize)
    ensures
        cut(f, s, budget).len() <= s.len(),
        cut(f, s, budget) == s.take(cut(f, s, budget).len() as int),
        cut(f, s, budget).len() > 0 ==> size_by(f, cut(f, s, budget)) <= budget,
{
    reveal_strlit("\n\n");
    let blocks = blocks_of(s);
    law_split_join(s, gap());
    if size_by(f, s) <= budget {
        assert(s.take(s.len() as int) =~= s);
    } else {
        let kept = shrunk(f, blocks, budget);
        lemma_shrunk(f, blocks, budget);
        let n = kept.len() as int;
        if n == blocks.len() {
            assert(blocks.take(n) =~= blocks);
        } else if n > 0 {
            lemma_joined_parts(blocks, gap(), n);
        }
        assert(cut(f, s, budget) =~= s.take(cut(f, s, budget).len() as int));
    }
}

/// Whether a text ends with another.
pub open spec fn ends_with(s: Seq<char>, t: Seq<char>) -> bool {
    t.len() <= s.len() && s.skip(s.len() - t.len()) == t
}

proof fn lemma_grown<F: Fn(&str) -> usize>(
    f: F,
    blocks: Seq<Seq<char>>,
    i: int,
    working: Seq<char>,
    budget: usize,
)
    ensures
        ends_with(grown(f, blocks, i, working, budget), working),
        grown(f, blocks, i, working, budget) == working || size_by(
            f,
            grown(f, blocks, i, working, budget),
        ) <= budget,
    decreases i,
{
    if i <= 0 {
        assert(working.skip(0) =~= working);
    } else {
        let candidate = blocks[i - 1] + gap() + working;
        if size_by(f, candidate) > budget {
            assert(working.skip(0) =~= working);
        } else {
            lemma_grown(f, blocks, i - 1, candidate, budget);
            let g = grown(f, blocks, i - 1, candidate, budget);
            assert(g.skip(g.len() - working.len()) =~= working) by {
                assert forall|k: int| 0 <= k < working.len() implies g.skip(
                    g.len() - working.len(),
                )[k] == working[k] by {
                    assert(g.skip(g.len() - candidate.len())[k + candidate.len() - working.len()]
                        == candidate[k + candidate.len() - working.len()]);
                }
            }
        }
    }
}

/// Whatever the budget, the last `floor` turns of a conversation are there, at
/// its end; what goes beyond them keeps to the budget.
pub proof fn law_floor_survives<F: Fn(&str) -> usize>(
    f: F,
    s: Seq<char>,
    budget: usize,
    floor: nat,
)
    ensures
        ({
            let kept = joined(last_blocks(blocks_of(s), floor), gap());
            let out = cut_front(f, s, budget, floor);
            &&& ends_with(out, kept)
            &&& out == kept || size_by(f, out) <= budget
        }),
{
    reveal_strlit("\n\n");
    let blocks = blocks_of(s);
    law_split_join(s, gap());
    let last = last_blocks(blocks, floor);
    let kept = joined(last, gap());
    if size_by(f, s) <= budget {
        if floor >= blocks.len() {
            assert(s.skip(0) =~= s);
        } else if floor == 0 {
            assert(last =~= Seq::empty());
            assert(s.skip(s.len() as int) =~= kept);
        } else {
            lemma_joined_parts(blocks, gap(), blocks.len() - floor);
            assert(s.skip(s.len() - kept.len()) =~= kept);
        }
    } else if size_by(f, kept) >= budget {
        assert(kept.skip(0) =~= kept);
    } else {
        lemma_grown(f, blocks, blocks.len() - last.len(), kept, budget);
    }
}

proof fn lemma_bullets_add(a: Seq<Seq<char>>, b: Seq<Seq<char>>)
    ensures
        bullets(a + b) == bullets(a) + bullets(b),
    decreases b.len(),
{
    if b.len() == 0 {
        assert(a + b =~= a);
        assert(bullets(a) + bullets(b) =~= bullets(a));
    } else {
        assert((a + b).drop_last() =~= a + b.drop_last());
        lemma_bullets_add(a, b.drop_last());
        assert(bullets(a + b) =~= bullets(a) + bullets(b));
    }
}

proof fn lemma_paragraphs_add(a: Seq<Seq<char>>, b: Seq<Seq<char>>)
    ensures
        paragraphs(a + b) == paragraphs(a) + paragraphs(b),
    decreases b.len(),
{
    if b.len() == 0 {
        assert(a + b =~= a);
        assert(paragraphs(a) + paragraphs(b) =~= paragraphs(a));
    } else {
        assert((a + b).drop_last() =~= a + b.drop_last());
        lemma_paragraphs_add(a, b.drop_last());
        assert(paragraphs(a + b) =~= paragraphs(a) + paragraphs(b));
    }
}

proof fn lemma_scored_add(a: Seq<ScoredMemory>, b: Seq<ScoredMemory>)
    ensures
        scored_lines(a + b) == scored_lines(a) + scored_lines(b),
    decreases b.len(),
{
    if b.len() == 0 {
        assert(a + b =~= a);
        assert(scored_lines(a) + scored_lines(b) =~= scored_lines(a));
    } else {
        assert((a + b).drop_last() =~= a + b.drop_last());
        lemma_scored_add(a, b.drop_last());
        assert(scored_lines(a + b) =~= scored_lines(a) + scored_lines(b));
    }
}

proof fn lemma_chunks_add(a: Seq<DocumentChunk>, b: Seq<DocumentChunk>)
    ensures
        chunk_text(a + b) == chunk_text(a) + chunk_text(b),
    decreases b.len(),
{
    if b.len() == 0 {
        assert(a + b =~= a);
        assert(chunk_text(a) + chunk_text(b) =~= chunk_text(a));
    } else {
        assert((a + b).drop_last() =~= a + b.drop_last());
        lemma_chunks_add(a, b.drop_last());
        assert(chunk_text(a + b) =~= chunk_text(a) + chunk_text(b));
    }
}

/// The rules of a session all stand in the first layer, in their order, each on
/// a line of its own behind a dash; without rules there is no layer.
pub proof fn law_every_rule_has_its_line(a: Seq<Seq<char>>, rule: Seq<char>, b: Seq<Seq<char>>)
    ensures
        procedural_text(Seq::empty()) == Seq::<char>::empty(),
        procedural_text(a + seq![rule] + b) == "# Procedural patterns\n"@ + bullets(a) + (seq![
            '-',
            ' ',
        ] + rule + seq!['\n']) + bullets(b),
        bullets(Seq::empty()) == Seq::<char>::empty(),
{
    lemma_bullets_add(a + seq![rule], b);
    lemma_bullets_add(a, seq![rule]);
    lemma_one_bullet(rule);
    assert(procedural_text(a + seq![rule] + b) =~= "# Procedural patterns\n"@ + bullets(a) + (seq![
        '-',
        ' ',
    ] + rule + seq!['\n']) + bullets(b));
}

proof fn lemma_one_bullet(t: Seq<char>)
    ensures
        bullets(seq![t]) == seq!['-', ' '] + t + seq!['\n'],
{
    reveal_strlit("- ");
    reveal_strlit("\n");
    assert(seq![t].drop_last() =~= Seq::empty());
    assert(bullets(seq![t].drop_last()) =~= Seq::empty());
    assert(bullets(seq![t]) =~= seq!['-', ' '] + t + seq!['\n']);
}

proof fn lemma_one_paragraph(t: Seq<char>)
    ensures
        paragraphs(seq![t]) == t + seq!['\n', '\n'],
{
    reveal_strlit("\n\n");
    assert(seq![t].drop_last() =~= Seq::empty());
    assert(paragraphs(seq![t].drop_last()) =~= Seq::empty());
    assert(paragraphs(seq![t]) =~= t + seq!['\n', '\n']);
}

/// Every memory that was found has its line in the layer, in the order of the
/// search, with its score before what it says: the lines of two lists, one behind
/// the other, are those of the first and then those of the second. Nothing found
/// is no layer.
pub proof fn law_every_memory_found_has_its_line(
    a: Seq<ScoredMemory>,
    m: ScoredMemory,
    b: Seq<ScoredMemory>,
)
    ensures
        memories_text(Seq::empty()) == Seq::<char>::empty(),
        scored_lines(Seq::empty()) == Seq::<char>::empty(),
        scored_lines(a + b) == scored_lines(a) + scored_lines(b),
        scored_lines(seq![m]) == seq!['-', ' ', '('] + m.score@ + seq![')', ' '] + m.content@
            + seq!['\n'],
        memories_text(a + seq![m] + b) == "# Retrieved memories\n"@ + scored_lines(a) + (seq![
            '-',
            ' ',
            '(',
        ] + m.score@ + seq![')', ' '] + m.content@ + seq!['\n']) + scored_lines(b),
{
    reveal_strlit("- (");
    reveal_strlit(") ");
    reveal_strlit("\n");
    lemma_scored_add(a, b);
    lemma_scored_add(a + seq![m], b);
    lemma_scored_add(a, seq![m]);
    assert(seq![m].drop_last() =~= Seq::empty());
    assert(scored_lines(seq![m].drop_last()) =~= Seq::empty());
    let line = seq!['-', ' ', '('] + m.score@ + seq![')', ' '] + m.content@ + seq!['\n'];
    assert(scored_lines(seq![m]) =~= line);
    assert(memories_text(a + seq![m] + b) =~= "# Retrieved memories\n"@ + scored_lines(a) + line
        + scored_lines(b));
}

/// Every part of a document that was found stands in the layer, in the order of
/// the search, under the path it came from or under a common name, and whole;
/// only space at the end of the layer is lost.
pub proof fn law_every_document_part_is_there(
    a: Seq<DocumentChunk>,
    d: DocumentChunk,
    b: Seq<DocumentChunk>,
)
    ensures
        documents_text(Seq::empty()) == Seq::<char>::empty(),
        chunk_text(Seq::empty()) == Seq::<char>::empty(),
        chunk_text(a + b) == chunk_text(a) + chunk_text(b),
        d.source_path matches Some(path) ==> chunk_text(seq![d]) == seq!['#', '#', ' '] + path@
            + seq!['\n'] + d.content@ + seq!['\n', '\n'],
        d.source_path is None ==> chunk_text(seq![d]) == seq!['#', '#', ' ', 'd', 'o', 'c', '\n']
            + d.content@ + seq!['\n', '\n'],
        documents_text(a + seq![d] + b) == trim_end(
            "# Document chunks\n"@ + chunk_text(a) + chunk_text(seq![d]) + chunk_text(b),
        ),
{
    reveal_strlit("## ");
    reveal_strlit("doc");
    reveal_strlit("\n");
    reveal_strlit("\n\n");
    lemma_chunks_add(a, b);
    lemma_chunks_add(a + seq![d], b);
    lemma_chunks_add(a, seq![d]);
    assert(seq![d].drop_last() =~= Seq::empty());
    assert(chunk_text(seq![d].drop_last()) =~= Seq::empty());
    match d.source_path {
        Some(path) => {
            assert(chunk_text(seq![d]) =~= seq!['#', '#', ' '] + path@ + seq!['\n'] + d.content@
                + seq!['\n', '\n']);
        },
        None => {
            assert(chunk_text(seq![d]) =~= seq!['#', '#', ' ', 'd', 'o', 'c', '\n'] + d.content@
                + seq!['\n', '\n']);
        },
    }
    assert("# Document chunks\n"@ + chunk_text(a + seq![d] + b) =~= "# Document chunks\n"@
        + chunk_text(a) + chunk_text(seq![d]) + chunk_text(b));
}

/// A conversation reads from its oldest turn to its newest, with all of them
/// there: what is newer stands behind what is older, each turn with an empty line
/// behind it.
pub proof fn law_conversation_reads_forward(
    newer: Seq<Seq<char>>,
    turn: Seq<char>,
    older: Seq<Seq<char>>,
)
    ensures
        conversation_text(Seq::empty()) == Seq::<char>::empty(),
        conversation_text(newer + seq![turn] + older) == trim_end(
            "# Recent conversation\n"@ + paragraphs(older.reverse()) + (turn + seq!['\n', '\n'])
                + paragraphs(newer.reverse()),
        ),
        paragraphs(Seq::empty()) == Seq::<char>::empty(),
        paragraphs(seq![turn]) == turn + seq!['\n', '\n'],
        paragraphs(newer + older) == paragraphs(newer) + paragraphs(older),
{
    let all = newer + seq![turn] + older;
    assert(all.reverse() =~= older.reverse() + seq![turn] + newer.reverse());
    lemma_paragraphs_add(older.reverse() + seq![turn], newer.reverse());
    lemma_paragraphs_add(older.reverse(), seq![turn]);
    lemma_paragraphs_add(newer, older);
    lemma_one_paragraph(turn);
    assert("# Recent conversation\n"@ + paragraphs(all.reverse()) =~= "# Recent conversation\n"@
        + paragraphs(older.reverse()) + (turn + seq!['\n', '\n']) + paragraphs(newer.reverse()));
}

/// The project layer holds core memory, active state and facts in that order,
/// each under its heading and only where there is any, all but space at its end:
/// what is pinned is there whatever else is.
pub proof fn law_project_layer_holds_its_sections(
    core: Seq<Seq<char>>,
    states: Seq<Seq<char>>,
    facts: Seq<Seq<char>>,
)
    ensures
        project_text(Seq::empty(), Seq::empty(), Seq::empty()) == Seq::<char>::empty(),
        core.len() > 0 && states.len() > 0 && facts.len() > 0 ==> project_text(core, states, facts)
            == trim_end(
            "# Core memory\n"@ + bullets(core) + "\n# Active state\n"@ + paragraphs(states)
                + "\n# Project facts\n"@ + bullets(facts),
        ),
        core.len() > 0 ==> project_text(core, Seq::empty(), Seq::empty()) == trim_end(
            "# Core memory\n"@ + bullets(core),
        ),
        states.len() > 0 ==> project_text(Seq::empty(), states, Seq::empty()) == trim_end(
            "# Active state\n"@ + paragraphs(states),
        ),
        facts.len() > 0 ==> project_text(Seq::empty(), Seq::empty(), facts) == trim_end(
            "# Project facts\n"@ + bullets(facts),
        ),
{
    reveal_strlit("# Core memory\n");
    reveal_strlit("# Active state\n");
    reveal_strlit("\n# Active state\n");
    reveal_strlit("# Project facts\n");
    reveal_strlit("\n# Project facts\n");
    let a = "# Core memory\n"@ + bullets(core);
    let b = a.push('\n') + "# Active state\n"@ + paragraphs(states);
    assert(b =~= a + "\n# Active state\n"@ + paragraphs(states));
    assert(b.push('\n') + "# Project facts\n"@ + bullets(facts) =~= a + "\n# Active state\n"@
        + paragraphs(states) + "\n# Project facts\n"@ + bullets(facts));
    let none = Seq::<char>::empty();
    assert(none + "# Active state\n"@ + paragraphs(states) =~= "# Active state\n"@ + paragraphs(
        states,
    ));
    assert(none + "# Project facts\n"@ + bullets(facts) =~= "# Project facts\n"@ + bullets(facts));
}

proof fn lemma_shrunk_no_more<F: Fn(&str) -> usize>(
    f: F,
    blocks: Seq<Seq<char>>,
    budget: usize,
    n: int,
)
    requires
        shrunk(f, blocks, budget).len() < n <= blocks.len(),
    ensures
        size_by(f, joined(blocks.take(n), gap())) > budget,
    decreases blocks.len(),
{
    if blocks.len() == n {
        assert(blocks.take(n) =~= blocks);
    } else {
        lemma_shrunk_no_more(f, blocks.drop_last(), budget, n);
        assert(blocks.drop_last().take(n) =~= blocks.take(n));
    }
}

/// A layer loses no more than it must: one that keeps to its budget stays whole,
/// and from one that does not as many of its first blocks stay as keep to it, so
/// that one more would be too many.
pub proof fn law_cut_loses_no_more_than_it_must<F: Fn(&str) -> usize>(
    f: F,
    s: Seq<char>,
    budget: usize,
    n: int,
)
    ensures
        size_by(f, s) <= budget ==> cut(f, s, budget) == s,
        size_by(f, s) > budget ==> exists|k: int|
            0 <= k <= blocks_of(s).len() && cut(f, s, budget) == joined(
                #[trigger] blocks_of(s).take(k),
                gap(),
            ) && (k < n <= blocks_of(s).len() ==> size_by(f, joined(blocks_of(s).take(n), gap()))
                > budget),
{
    if size_by(f, s) > budget {
        let blocks = blocks_of(s);
        let k = shrunk(f, blocks, budget).len() as int;
        lemma_shrunk(f, blocks, budget);
        assert(cut(f, s, budget) == joined(blocks.take(k), gap()));
        if k < n <= blocks.len() {
            lemma_shrunk_no_more(f, blocks, budget, n);
        }
    }
}

/// A conversation that keeps to its budget stays whole.
pub proof fn law_fitting_conversation_stays<F: Fn(&str) -> usize>(
    f: F,
    s: Seq<char>,
    budget: usize,
    floor: nat,
)
    ensures
        size_by(f, s) <= budget ==> cut_front(f, s, budget, floor) == s,
        floor >= blocks_of(s).len() && size_by(f, s) > budget ==> cut_front(f, s, budget, floor)
            == joined(blocks_of(s), gap()),
{
}

/// The layers of a prompt keep to their budgets, and lose nothing where they keep
/// to them by themselves; what is said of their lengths is so, and they add up. A
/// conversation keeps its last turns, three unless told otherwise. A request with
/// a query is for an answer, one without for an overview.
pub proof fn law_layers_keep_to_their_budgets<F: Fn(&str) -> usize>(
    f: F,
    req: AssembleRequest,
    rendered: Layers,
    r: AssembleResponse,
)
    requires
        layers_made(f, req, rendered, r),
    ensures
        r.layers.procedural@.len() > 0 ==> r.token_counts.procedural <= 300,
        r.layers.project_context@.len() > 0 ==> r.token_counts.project_context <= 600,
        r.layers.memories@.len() > 0 ==> r.token_counts.memories <= 1200,
        r.layers.document_chunks@.len() > 0 ==> r.token_counts.document_chunks <= 800,
        size_by(f, rendered.procedural@) <= 300 ==> r.layers.procedural@ == rendered.procedural@,
        size_by(f, rendered.project_context@) <= 600 ==> r.layers.project_context@
            == rendered.project_context@,
        size_by(f, rendered.memories@) <= 1200 ==> r.layers.memories@ == rendered.memories@,
        size_by(f, rendered.document_chunks@) <= 800 ==> r.layers.document_chunks@
            == rendered.document_chunks@,
        size_by(f, rendered.recent_conversation@) <= 1500 ==> r.layers.recent_conversation@
            == rendered.recent_conversation@,
        ({
            let floor = match req.recent_turns_floor {
                Some(n) => n as nat,
                None => 3,
            };
            let last = joined(last_blocks(blocks_of(rendered.recent_conversation@), floor), gap());
            &&& ends_with(r.layers.recent_conversation@, last)
            &&& r.layers.recent_conversation@ == last || r.token_counts.recent_conversation <= 1500
        }),
        r.token_counts.recent_conversation == size_by(f, r.layers.recent_conversation@),
        r.total_tokens == r.token_counts.procedural + r.token_counts.project_context
            + r.token_counts.memories + r.token_counts.document_chunks
            + r.token_counts.recent_conversation,
        req.query is Some ==> r.mode@ == "answer"@,
        req.query is None ==> r.mode@ == "manager"@,
{
    law_cut_is_a_front_part(f, rendered.procedural@, BUDGET_PROCEDURAL);
    law_cut_is_a_front_part(f, rendered.project_context@, BUDGET_PROJECT);
    law_cut_is_a_front_part(f, rendered.memories@, BUDGET_MEMORIES);
    law_cut_is_a_front_part(f, rendered.document_chunks@, BUDGET_DOCUMENTS);
    law_floor_survives(
        f,
        rendered.recent_conversation@,
        BUDGET_CONVERSATION,
        floor_of(req) as nat,
    );
}

} // verus!
