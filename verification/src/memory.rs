//! Memories: taking them in, finding what they supersede, searching, and
//! walking their lineage.
use vstd::prelude::*;
use vstd::string::*;

use crate::bits::{clamp_unit, unit, HALF, INFINITE, SIMILAR, THREE_TENTHS};
use crate::error::{AppError, ErrorView};
use crate::ids::{id_text, write_id};
use crate::text::{
    blank, clone_text, clone_texts, is_blank, lemma_trim_idempotent, lowercase, opt_text, same_text,
    texts, to_lowercase, trim, trimmed,
};
use crate::time::Timestamp;

verus! {

// ---------------------------------------------------------------------------
// Types and decay
// ---------------------------------------------------------------------------
/// The types that a memory can be given.
pub open spec fn is_memory_type(t: Seq<char>) -> bool {
    t == "episodic"@ || t == "semantic"@ || t == "working"@ || t == "document"@ || t
        == "procedural"@
}

/// What is wrong with a type.
pub open spec fn type_fault(t: Seq<char>) -> Option<ErrorView> {
    if is_memory_type(t) {
        None
    } else if t == "state_object"@ {
        Some(ErrorView::BadRequest("state_object memories must be created via /state/:kind"@))
    } else {
        Some(ErrorView::BadRequest("unknown type: "@ + t))
    }
}

/// Accepts the types that a memory can be given.
pub fn validate_type(t: &str) -> (r: Result<(), AppError>)
    ensures
        match r {
            Ok(_) => type_fault(t@) is None,
            Err(e) => type_fault(t@) == Some(e@),
        },
{
    if same_text(t, "episodic") || same_text(t, "semantic") || same_text(t, "working")
        || same_text(t, "document") || same_text(t, "procedural") {
        Ok(())
    } else if same_text(t, "state_object") {
        Err(AppError::bad_request("state_object memories must be created via /state/:kind"))
    } else {
        let mut message = String::from_str("unknown type: ");
        message.append(t);
        Err(AppError::BadRequest(message))
    }
}

/// How fast a memory of a type decays.
pub open spec fn decay_of(t: Seq<char>) -> Seq<char> {
    if t == "working"@ {
        "fast"@
    } else if t == "semantic"@ || t == "procedural"@ || t == "document"@ {
        "slow"@
    } else {
        "medium"@
    }
}

/// How fast a memory of a type decays.
pub fn default_decay_for(t: &str) -> (r: &'static str)
    ensures
        r@ == decay_of(t@),
{
    if same_text(t, "working") {
        "fast"
    } else if same_text(t, "episodic") {
        proof {
            reveal_strlit("episodic");
            reveal_strlit("working");
            reveal_strlit("semantic");
            reveal_strlit("procedural");
            reveal_strlit("document");
            assert("episodic"@[0] == 'e');
            assert("working"@[0] == 'w');
            assert("semantic"@[0] == 's');
            assert("procedural"@[0] == 'p');
            assert("document"@[0] == 'd');
        }
        "medium"
    } else if same_text(t, "semantic") || same_text(t, "procedural") || same_text(t, "document") {
        "slow"
    } else {
        "medium"
    }
}

// ---------------------------------------------------------------------------
// Entities, each once
// ---------------------------------------------------------------------------
/// Whether some text of the list is the same but for case.
pub open spec fn has_folded(v: Seq<Seq<char>>, t: Seq<char>) -> bool {
    exists|i: int| 0 <= i < v.len() && lowercase(#[trigger] v[i]) == lowercase(t)
}

/// The items, trimmed, without blank ones, and each once: of items that differ
/// only in case the first stays.
pub open spec fn deduped(items: Seq<Seq<char>>) -> Seq<Seq<char>>
    decreases items.len(),
{
    if items.len() == 0 {
        Seq::empty()
    } else {
        let front = deduped(items.drop_last());
        let key = trimmed(items.last());
        if key.len() == 0 || has_folded(front, key) {
            front
        } else {
            front.push(key)
        }
    }
}

fn has_text_in(v: &Vec<String>, t: &str) -> (r: bool)
    ensures
        r == texts(v@).contains(t@),
{
    let mut i: usize = 0;
    while i < v.len()
        invariant
            i <= v@.len(),
            forall|j: int| 0 <= j < i ==> texts(v@)[j] != t@,
        decreases v@.len() - i,
    {
        if same_text(v[i].as_str(), t) {
            assert(texts(v@)[i as int] == t@);
            return true;
        }
        i += 1;
    }
    false
}

/// The first of each: the keys that are not empty and whose fold no key that is
/// kept before them has, each with its fold.
pub open spec fn first_of_each(v: Seq<(Seq<char>, Seq<char>)>) -> Seq<(Seq<char>, Seq<char>)>
    decreases v.len(),
{
    if v.len() == 0 {
        Seq::empty()
    } else {
        let front = first_of_each(v.drop_last());
        let last = v.last();
        if last.0.len() == 0 || (exists|i: int|
            0 <= i < front.len() && (#[trigger] front[i]).1 == last.1) {
            front
        } else {
            front.push(last)
        }
    }
}

/// Keys with their folds.
pub open spec fn folded_keys(keys: Seq<String>, folds: Seq<String>) -> Seq<
    (Seq<char>, Seq<char>),
> {
    Seq::new(keys.len(), |i: int| (keys[i]@, folds[i]@))
}

/// The first keys of each: of keys that fold alike the first one stays.
pub fn keep_first(keys: Vec<String>, folds: &Vec<String>) -> (r: Vec<String>)
    requires
        keys@.len() == folds@.len(),
    ensures
        texts(r@) == first_of_each(folded_keys(keys@, folds@)).map_values(
            |p: (Seq<char>, Seq<char>)| p.0,
        ),
{
    let ghost all = folded_keys(keys@, folds@);
    let ghost pick = |p: (Seq<char>, Seq<char>)| p.0;
    let mut seen: Vec<String> = Vec::new();
    let mut out: Vec<String> = Vec::with_capacity(keys.len());
    let mut i: usize = 0;
    assert(texts(out@) =~= first_of_each(all.take(0)).map_values(pick));
    while i < keys.len()
        invariant
            i <= keys@.len() == folds@.len(),
            all == folded_keys(keys@, folds@),
            pick == (|p: (Seq<char>, Seq<char>)| p.0),
            texts(out@) == first_of_each(all.take(i as int)).map_values(pick),
            seen@.len() == first_of_each(all.take(i as int)).len(),
            forall|j: int|
                0 <= j < seen@.len() ==> (#[trigger] seen@[j])@ == first_of_each(
                    all.take(i as int),
                )[j].1,
        decreases keys@.len() - i,
    {
        let ghost front = first_of_each(all.take(i as int));
        let ghost before = texts(out@);
        proof {
            assert(all.take(i + 1).drop_last() =~= all.take(i as int));
            assert(all.take(i + 1).last() == (keys@[i as int]@, folds@[i as int]@));
        }
        if !keys[i].as_str().is_empty() {
            let known = has_text_in(&seen, folds[i].as_str());
            proof {
                if known {
                    let j = choose|j: int|
                        0 <= j < texts(seen@).len() && texts(seen@)[j] == folds@[i as int]@;
                    assert(seen@[j]@ == front[j].1);
                } else {
                    assert forall|j: int| 0 <= j < front.len() implies (#[trigger] front[j]).1
                        != folds@[i as int]@ by {
                        assert(seen@[j]@ == front[j].1);
                        assert(texts(seen@)[j] == seen@[j]@);
                    }
                }
            }
            if !known {
                seen.push(folds[i].clone());
                out.push(keys[i].clone());
                proof {
                    let next = front.push((keys@[i as int]@, folds@[i as int]@));
                    assert(first_of_each(all.take(i + 1)) == next);
                    assert(texts(out@) =~= before.push(keys@[i as int]@));
                    assert(next.map_values(pick) =~= front.map_values(pick).push(
                        keys@[i as int]@,
                    ));
                }
            }
        }
        i += 1;
    }
    assert(all.take(i as int) =~= all);
    out
}

/// The items trimmed, each with its lower case.
pub open spec fn trimmed_keys(items: Seq<Seq<char>>) -> Seq<(Seq<char>, Seq<char>)> {
    items.map_values(|t: Seq<char>| (trimmed(t), lowercase(trimmed(t))))
}

/// Keeping the first of the trimmed items by their lower case is deduplicating.
proof fn lemma_deduped(items: Seq<Seq<char>>)
    ensures
        ({
            let v = first_of_each(trimmed_keys(items));
            &&& v.len() == deduped(items).len()
            &&& forall|i: int|
                0 <= i < v.len() ==> (#[trigger] v[i]).0 == deduped(items)[i] && v[i].1
                    == lowercase(deduped(items)[i])
        }),
    decreases items.len(),
{
    if items.len() > 0 {
        let less = items.drop_last();
        lemma_deduped(less);
        let front = first_of_each(trimmed_keys(less));
        let kept = deduped(less);
        let key = trimmed(items.last());
        assert(trimmed_keys(items).drop_last() =~= trimmed_keys(less));
        assert(trimmed_keys(items).last() == (key, lowercase(key)));
        if exists|i: int| 0 <= i < front.len() && (#[trigger] front[i]).1 == lowercase(key) {
            let i = choose|i: int| 0 <= i < front.len() && (#[trigger] front[i]).1 == lowercase(key);
            assert(lowercase(kept[i]) == lowercase(key));
        }
        if has_folded(kept, key) {
            let i = choose|i: int|
                0 <= i < kept.len() && lowercase(#[trigger] kept[i]) == lowercase(key);
            assert(front[i].1 == lowercase(key));
        }
    }
}

/// Trims the items and drops blank and repeated ones, whatever their case.
pub fn dedupe(items: Vec<String>) -> (r: Vec<String>)
    ensures
        texts(r@) == deduped(texts(items@)),
{
    let mut keys: Vec<String> = Vec::new();
    let mut folds: Vec<String> = Vec::new();
    let mut i: usize = 0;
    while i < items.len()
        invariant
            i <= items@.len(),
            keys@.len() == i,
            folds@.len() == i,
            forall|j: int| 0 <= j < i ==> (#[trigger] keys@[j])@ == trimmed(items@[j]@),
            forall|j: int|
                0 <= j < i ==> (#[trigger] folds@[j])@ == lowercase(trimmed(items@[j]@)),
        decreases items@.len() - i,
    {
        let key = trim(items[i].as_str());
        folds.push(to_lowercase(key.as_str()));
        keys.push(key);
        i += 1;
    }
    proof {
        let all = texts(items@);
        assert(folded_keys(keys@, folds@) =~= trimmed_keys(all));
        lemma_deduped(all);
        assert(first_of_each(trimmed_keys(all)).map_values(|p: (Seq<char>, Seq<char>)| p.0)
            =~= deduped(all));
    }
    keep_first(keys, &folds)
}

/// What is kept is trimmed, not empty, and no two of it are the same but for
/// case.
pub proof fn law_deduped_is_distinct(items: Seq<Seq<char>>)
    ensures
        forall|i: int| #![trigger deduped(items)[i]]
            0 <= i < deduped(items).len() ==> deduped(items)[i].len() > 0 && trimmed(
                deduped(items)[i],
            ) == deduped(items)[i],
        forall|i: int, j: int|
            0 <= i < j < deduped(items).len() ==> lowercase(#[trigger] deduped(items)[i])
                != lowercase(#[trigger] deduped(items)[j]),
    decreases items.len(),
{
    if items.len() > 0 {
        law_deduped_is_distinct(items.drop_last());
        let front = deduped(items.drop_last());
        let key = trimmed(items.last());
        lemma_trim_idempotent(items.last());
        let all = deduped(items);
        assert forall|i: int, j: int| 0 <= i < j < all.len() implies lowercase(#[trigger] all[i])
            != lowercase(#[trigger] all[j]) by {
            assert(all[i] == front[i]);
            if j < front.len() {
                assert(all[j] == front[j]);
            }
        }
    }
}

/// Nothing is lost but blanks and repeats: every item that is not blank has one
/// among what is kept that is the same but for case.
pub proof fn law_deduped_covers(items: Seq<Seq<char>>, k: int)
    requires
        0 <= k < items.len(),
        trimmed(items[k]).len() > 0,
    ensures
        has_folded(deduped(items), trimmed(items[k])),
    decreases items.len(),
{
    let front = deduped(items.drop_last());
    let all = deduped(items);
    if k < items.len() - 1 {
        law_deduped_covers(items.drop_last(), k);
        let i = choose|i: int|
            0 <= i < front.len() && lowercase(#[trigger] front[i]) == lowercase(trimmed(items[k]));
        assert(all[i] == front[i]);
    } else {
        let key = trimmed(items.last());
        if !has_folded(front, key) {
            assert(all[front.len() as int] == key);
        }
    }
}

/// A list that is trimmed, without blanks and without repeats stays as it is.
proof fn lemma_distinct_stays(v: Seq<Seq<char>>)
    requires
        forall|i: int| 0 <= i < v.len() ==> (#[trigger] v[i]).len() > 0 && trimmed(v[i]) == v[i],
        forall|i: int, j: int|
            0 <= i < j < v.len() ==> lowercase(#[trigger] v[i]) != lowercase(#[trigger] v[j]),
    ensures
        deduped(v) == v,
    decreases v.len(),
{
    if v.len() > 0 {
        let front = v.drop_last();
        lemma_distinct_stays(front);
        if has_folded(front, v.last()) {
            let i = choose|i: int|
                0 <= i < front.len() && lowercase(#[trigger] front[i]) == lowercase(v.last());
            assert(lowercase(v[i]) != lowercase(v[v.len() - 1]));
        }
        assert(trimmed(v[v.len() - 1]) == v.last());
        assert(v[v.len() - 1].len() > 0);
        assert(front.push(v.last()) =~= v);
    } else {
        assert(deduped(v) =~= v);
    }
}

/// Deduplicating twice is deduplicating once.
pub proof fn law_dedupe_twice(items: Seq<Seq<char>>)
    ensures
        deduped(deduped(items)) == deduped(items),
{
    law_deduped_is_distinct(items);
    let v = deduped(items);
    assert forall|i: int| 0 <= i < v.len() implies (#[trigger] v[i]).len() > 0 && trimmed(v[i])
        == v[i] by {
        assert(deduped(items)[i].len() > 0);
    }
    assert forall|i: int, j: int| 0 <= i < j < v.len() implies lowercase(#[trigger] v[i])
        != lowercase(#[trigger] v[j]) by {
        assert(lowercase(deduped(items)[i]) != lowercase(deduped(items)[j]));
    }
    lemma_distinct_stays(v);
}

// ---------------------------------------------------------------------------
// Taking a memory in
// ---------------------------------------------------------------------------
/// A memory to be taken in: a text, or one or both sides of an exchange.
/// `importance` holds the bits of a number.
#[derive(Debug, Clone)]
pub struct IngestRequest {
    pub project_id: Option<String>,
    pub session_id: Option<String>,
    pub user_turn: Option<String>,
    pub assistant_turn: Option<String>,
    pub content: Option<String>,
    pub memory_type: Option<String>,
    pub importance: Option<u32>,
    pub ttl_hours: Option<i64>,
    pub entities_override: Option<Vec<String>>,
}

/// What is stored of a memory, and what is read for entities: the first keeps
/// the speakers' labels, the second leaves them out.
pub open spec fn contents_of(
    content: Option<Seq<char>>,
    user: Option<Seq<char>>,
    assistant: Option<Seq<char>>,
) -> Option<(Seq<char>, Seq<char>)> {
    if content is Some && !blank(content->Some_0) {
        Some((content->Some_0, content->Some_0))
    } else {
        match (user, assistant) {
            (Some(u), Some(a)) => Some(
                (
                    "User: "@ + trimmed(u) + "\nAssistant: "@ + trimmed(a),
                    trimmed(u) + "\n"@ + trimmed(a),
                ),
            ),
            (Some(u), None) => Some(("User: "@ + trimmed(u), trimmed(u))),
            (None, Some(a)) => Some(("Assistant: "@ + trimmed(a), trimmed(a))),
            (None, None) => None,
        }
    }
}

/// The hours that a memory lives: working memory two days, unless it says
/// otherwise; the rest for ever, unless it says otherwise.
pub open spec fn hours_to_live(t: Seq<char>, asked: Option<i64>) -> Option<i64> {
    match asked {
        Some(h) => Some(h),
        None => if t == "working"@ {
            Some(48i64)
        } else {
            None
        },
    }
}

/// Entities that a caller may have given.
pub open spec fn opt_texts(v: Option<Vec<String>>) -> Option<Seq<Seq<char>>> {
    match v {
        Some(x) => Some(texts(x@)),
        None => None,
    }
}

/// What is settled about a memory before anything is asked or stored.
#[derive(Debug, Clone)]
pub struct IngestPlan {
    pub content: String,
    pub extraction_text: String,
    pub memory_type: String,
    pub decay_class: &'static str,
    pub importance: u32,
    pub ttl_hours: Option<i64>,
    pub project_id: Option<String>,
    pub session_id: Option<String>,
    /// The caller's entities, where it gave some; nothing is extracted then.
    pub entities: Option<Vec<String>>,
}

/// An [`IngestPlan`] over character sequences.
#[verifier::ext_equal]
pub struct PlanView {
    pub content: Seq<char>,
    pub extraction_text: Seq<char>,
    pub memory_type: Seq<char>,
    pub decay_class: Seq<char>,
    pub importance: u32,
    pub ttl_hours: Option<i64>,
    pub project_id: Option<Seq<char>>,
    pub session_id: Option<Seq<char>>,
    pub entities: Option<Seq<Seq<char>>>,
}

impl View for IngestPlan {
    type V = PlanView;

    open spec fn view(&self) -> PlanView {
        PlanView {
            content: self.content@,
            extraction_text: self.extraction_text@,
            memory_type: self.memory_type@,
            decay_class: self.decay_class@,
            importance: self.importance,
            ttl_hours: self.ttl_hours,
            project_id: opt_text(self.project_id),
            session_id: opt_text(self.session_id),
            entities: opt_texts(self.entities),
        }
    }
}

/// The type of a memory: working memory, unless it says otherwise.
pub open spec fn type_of(asked: Option<Seq<char>>) -> Seq<char> {
    match asked {
        Some(t) => t,
        None => "working"@,
    }
}

/// What is settled about a memory, or why it is refused.
pub open spec fn planned(req: IngestRequest) -> Result<PlanView, ErrorView> {
    let t = type_of(opt_text(req.memory_type));
    match contents_of(
        opt_text(req.content),
        opt_text(req.user_turn),
        opt_text(req.assistant_turn),
    ) {
        None => Err(
            ErrorView::BadRequest(
                "ingest requires either `content` or `user_turn`/`assistant_turn`"@,
            ),
        ),
        Some(c) => match type_fault(t) {
            Some(e) => Err(e),
            None => Ok(
                PlanView {
                    content: c.0,
                    extraction_text: c.1,
                    memory_type: t,
                    decay_class: decay_of(t),
                    importance: unit(
                        match req.importance {
                            Some(i) => i,
                            None => HALF,
                        },
                    ),
                    ttl_hours: hours_to_live(t, req.ttl_hours),
                    project_id: opt_text(req.project_id),
                    session_id: opt_text(req.session_id),
                    entities: match req.entities_override {
                        Some(e) => Some(deduped(texts(e@))),
                        None => None,
                    },
                },
            ),
        },
    }
}

/// A pair of texts that may be missing.
pub open spec fn opt_pair(p: Option<(String, String)>) -> Option<(Seq<char>, Seq<char>)> {
    match p {
        Some((a, b)) => Some((a@, b@)),
        None => None,
    }
}

fn choose_contents(
    content: &Option<String>,
    user_turn: &Option<String>,
    assistant_turn: &Option<String>,
) -> (r: Option<(String, String)>)
    ensures
        opt_pair(r) == contents_of(
            opt_text(*content),
            opt_text(*user_turn),
            opt_text(*assistant_turn),
        ),
{
    if let Some(c) = content {
        if !is_blank(c.as_str()) {
            return Some((c.clone(), c.clone()));
        }
    }
    match user_turn {
        Some(u) => {
            let u = trim(u.as_str());
            let mut labelled = String::from_str("User: ");
            labelled.append(u.as_str());
            match assistant_turn {
                Some(a) => {
                    let a = trim(a.as_str());
                    labelled.append("\nAssistant: ");
                    labelled.append(a.as_str());
                    let mut plain = u;
                    plain.append("\n");
                    plain.append(a.as_str());
                    Some((labelled, plain))
                },
                None => Some((labelled, u)),
            }
        },
        None => match assistant_turn {
            Some(a) => {
                let a = trim(a.as_str());
                let mut labelled = String::from_str("Assistant: ");
                labelled.append(a.as_str());
                Some((labelled, a))
            },
            None => None,
        },
    }
}

/// Settles what can be settled about a memory from the request alone.
pub fn plan_ingest(req: IngestRequest) -> (r: Result<IngestPlan, AppError>)
    ensures
        match r {
            Ok(p) => planned(req) == Ok::<PlanView, ErrorView>(p@),
            Err(e) => planned(req) == Err::<PlanView, ErrorView>(e@),
        },
{
    let contents = choose_contents(&req.content, &req.user_turn, &req.assistant_turn);
    let (content, extraction_text) = match contents {
        Some(c) => c,
        None => {
            return Err(
                AppError::bad_request(
                    "ingest requires either `content` or `user_turn`/`assistant_turn`",
                ),
            );
        },
    };
    let memory_type = match req.memory_type {
        Some(t) => t,
        None => "working".to_owned(),
    };
    match validate_type(memory_type.as_str()) {
        Ok(_) => {},
        Err(e) => {
            return Err(e);
        },
    }
    let decay_class = default_decay_for(memory_type.as_str());
    let importance = clamp_unit(
        match req.importance {
            Some(i) => i,
            None => HALF,
        },
    );
    let ttl_hours = match req.ttl_hours {
        Some(h) => Some(h),
        None => if same_text(memory_type.as_str(), "working") {
            Some(48i64)
        } else {
            None
        },
    };
    let entities = match req.entities_override {
        Some(e) => Some(dedupe(e)),
        None => None,
    };
    Ok(
        IngestPlan {
            content,
            extraction_text,
            memory_type,
            decay_class,
            importance,
            ttl_hours,
            project_id: req.project_id,
            session_id: req.session_id,
            entities,
        },
    )
}

/// The second at which a memory that lives for some hours expires.
pub open spec fn last_second(now: int, hours: int) -> int {
    now + hours * 3600
}

/// The moment some hours after another, where the calendar has it.
pub fn expires_at(ttl_hours: Option<i64>, now: Timestamp) -> (r: Option<Timestamp>)
    requires
        now.nanoseconds() < 1_000_000_000,
        ttl_hours matches Some(h) ==> crate::time::FIRST_SECOND <= now.seconds() + h * 3600
            <= crate::time::LAST_SECOND,
    ensures
        match ttl_hours {
            Some(h) => r matches Some(t) && t.seconds() == last_second(now.seconds() as int, h as int)
                && t.seconds() == now.seconds() + h * 3600 && t.nanoseconds() == now.nanoseconds(),
            None => r is None,
        },
{
    match ttl_hours {
        Some(h) => {
            let secs: i128 = now.secs() as i128 + h as i128 * 3600;
            Timestamp::new(secs as i64, now.nanos())
        },
        None => None,
    }
}

// ---------------------------------------------------------------------------
// What a memory supersedes
// ---------------------------------------------------------------------------
/// A recent memory of the same session that might be superseded.
#[derive(Debug, Clone)]
pub struct Candidate {
    pub id: u128,
    pub entities: Vec<String>,
    pub topic: Option<String>,
}

/// A [`Candidate`] over character sequences.
pub struct CandidateView {
    pub id: u128,
    pub entities: Seq<Seq<char>>,
    pub topic: Option<Seq<char>>,
}

impl View for Candidate {
    type V = CandidateView;

    open spec fn view(&self) -> CandidateView {
        CandidateView {
            id: self.id,
            entities: texts(self.entities@),
            topic: opt_text(self.topic),
        }
    }
}

/// The candidates, each by its view.
pub open spec fn candidates_view(v: Seq<Candidate>) -> Seq<CandidateView> {
    v.map_values(|c: Candidate| c@)
}

/// A topic, trimmed; a blank one is as good as none.
pub open spec fn topic_of(t: Option<Seq<char>>) -> Option<Seq<char>> {
    crate::settings::tidy(t)
}

/// A memory with its topic.
pub struct TopicView {
    pub id: u128,
    pub topic: Seq<char>,
}

/// The candidates that have a topic.
pub open spec fn with_topics(v: Seq<CandidateView>) -> Seq<TopicView>
    decreases v.len(),
{
    if v.len() == 0 {
        Seq::empty()
    } else {
        let front = with_topics(v.drop_last());
        match topic_of(v.last().topic) {
            Some(topic) => front.push(TopicView { id: v.last().id, topic }),
            None => front,
        }
    }
}

/// The first memory with this topic, whatever its case.
pub open spec fn same_topic(v: Seq<TopicView>, topic: Seq<char>) -> Option<u128>
    decreases v.len(),
{
    if v.len() == 0 {
        None
    } else if lowercase(v[0].topic) == lowercase(topic) {
        Some(v[0].id)
    } else {
        same_topic(v.drop_first(), topic)
    }
}

/// The texts to be compared: the new topic, then those of the candidates.
pub open spec fn topics_to_embed(topic: Seq<char>, v: Seq<TopicView>) -> Seq<Seq<char>> {
    seq![topic] + v.map_values(|t: TopicView| t.topic)
}

/// Bits of a similarity that counts: a number from seventeen twentieths on.
pub open spec fn similar(bits: u32) -> bool {
    SIMILAR <= bits <= INFINITE
}

/// The place of the greatest similarity that counts, the last of equals.
pub open spec fn most_similar(sims: Seq<u32>) -> Option<int>
    decreases sims.len(),
{
    if sims.len() == 0 {
        None
    } else {
        let front = most_similar(sims.drop_last());
        if similar(sims.last()) && (front is None || sims[front->Some_0] <= sims.last()) {
            Some(sims.len() - 1)
        } else {
            front
        }
    }
}

/// What the topics alone decide.
pub enum TopicStep {
    /// Nothing.
    Unknown,
    /// This memory has the same topic.
    Found(u128),
    /// These texts are to be compared by meaning.
    Compare(Seq<Seq<char>>),
}

/// What the topics alone decide.
pub open spec fn topic_step(v: Seq<CandidateView>, new_topic: Option<Seq<char>>) -> TopicStep {
    match topic_of(new_topic) {
        None => TopicStep::Unknown,
        Some(topic) => {
            let rest = with_topics(v);
            if rest.len() == 0 {
                TopicStep::Unknown
            } else {
                match same_topic(rest, topic) {
                    Some(id) => TopicStep::Found(id),
                    None => TopicStep::Compare(topics_to_embed(topic, rest)),
                }
            }
        },
    }
}

/// The memory whose topic is most similar to the new one. `sims` holds the bits
/// of the similarities to the candidates' topics, in their order; another
/// number of them decides nothing.
pub open spec fn by_similarity(v: Seq<TopicView>, sims: Seq<u32>) -> Option<u128> {
    if sims.len() != v.len() {
        None
    } else {
        match most_similar(sims) {
            Some(i) => Some(v[i].id),
            None => None,
        }
    }
}

/// What came back from the last action.
#[derive(Debug, Clone)]
pub enum MemoryEvent {
    /// What was extracted from the text.
    Extracted { entities: Vec<String>, topic: Option<String> },
    /// Recent memories of the same session.
    Candidates(Vec<Candidate>),
    /// The similarities of the topics, by their bits.
    Similarities(Vec<u32>),
    /// What the overlap of entities decided.
    Overlap(Option<u128>),
}

/// A [`MemoryEvent`] by its contents.
pub enum MemoryEventView {
    Extracted { entities: Seq<Seq<char>>, topic: Option<Seq<char>> },
    Candidates(Seq<CandidateView>),
    Similarities(Seq<u32>),
    Overlap(Option<u128>),
}

impl View for MemoryEvent {
    type V = MemoryEventView;

    open spec fn view(&self) -> MemoryEventView {
        match self {
            MemoryEvent::Extracted { entities, topic } => MemoryEventView::Extracted {
                entities: texts(entities@),
                topic: opt_text(*topic),
            },
            MemoryEvent::Candidates(v) => MemoryEventView::Candidates(candidates_view(v@)),
            MemoryEvent::Similarities(v) => MemoryEventView::Similarities(v@),
            MemoryEvent::Overlap(id) => MemoryEventView::Overlap(*id),
        }
    }
}

/// What to do next.
#[derive(Debug, Clone)]
pub enum MemoryAction {
    /// Extract entities and a topic from the plan's text.
    Extract,
    /// Read recent memories of the same session.
    LoadCandidates,
    /// Compare the first of these texts with each of the others.
    CompareTopics(Vec<String>),
    /// Look for a candidate with enough of the same entities: `threshold` holds
    /// the bits of the overlap from which they are enough.
    CompareEntities { threshold: u32 },
    /// Store the memory; it supersedes this one, if any.
    Store(Option<u128>),
}

/// A [`MemoryAction`] by its contents.
pub enum MemoryActionView {
    Extract,
    LoadCandidates,
    CompareTopics(Seq<Seq<char>>),
    CompareEntities { threshold: u32 },
    Store(Option<u128>),
}

impl View for MemoryAction {
    type V = MemoryActionView;

    open spec fn view(&self) -> MemoryActionView {
        match self {
            MemoryAction::Extract => MemoryActionView::Extract,
            MemoryAction::LoadCandidates => MemoryActionView::LoadCandidates,
            MemoryAction::CompareTopics(v) => MemoryActionView::CompareTopics(texts(v@)),
            MemoryAction::CompareEntities { threshold } => MemoryActionView::CompareEntities {
                threshold: *threshold,
            },
            MemoryAction::Store(id) => MemoryActionView::Store(*id),
        }
    }
}

/// A memory being taken in.
#[derive(Debug, Clone)]
pub struct MemoryIngest {
    pub plan: IngestPlan,
    pub entities: Vec<String>,
    pub topic: Option<String>,
    pub candidates: Vec<Candidate>,
}

/// A [`MemoryIngest`] by its contents.
#[verifier::ext_equal]
pub struct MemoryIngestView {
    pub plan: PlanView,
    pub entities: Seq<Seq<char>>,
    pub topic: Option<Seq<char>>,
    pub candidates: Seq<CandidateView>,
}

impl View for MemoryIngest {
    type V = MemoryIngestView;

    open spec fn view(&self) -> MemoryIngestView {
        MemoryIngestView {
            plan: self.plan@,
            entities: texts(self.entities@),
            topic: opt_text(self.topic),
            candidates: candidates_view(self.candidates@),
        }
    }
}

/// Only a memory of a session can supersede another.
pub open spec fn after_extraction(m: MemoryIngestView) -> MemoryActionView {
    if m.plan.session_id is Some {
        MemoryActionView::LoadCandidates
    } else {
        MemoryActionView::Store(None)
    }
}

/// The fallback: the overlap of entities, where there are any.
pub open spec fn after_topics(m: MemoryIngestView) -> MemoryActionView {
    if m.entities.len() == 0 {
        MemoryActionView::Store(None)
    } else {
        MemoryActionView::CompareEntities { threshold: THREE_TENTHS }
    }
}

/// The first step: the caller's entities stand in for an extraction.
pub open spec fn memory_begun(plan: PlanView) -> (MemoryIngestView, MemoryActionView) {
    match plan.entities {
        Some(entities) => {
            let m = MemoryIngestView { plan, entities, topic: None, candidates: Seq::empty() };
            (m, after_extraction(m))
        },
        None => (
            MemoryIngestView {
                plan,
                entities: Seq::empty(),
                topic: None,
                candidates: Seq::empty(),
            },
            MemoryActionView::Extract,
        ),
    }
}

/// The step from a state and what came back to the next state and action.
pub open spec fn memory_step(m: MemoryIngestView, event: MemoryEventView) -> (
    MemoryIngestView,
    MemoryActionView,
) {
    match event {
        MemoryEventView::Extracted { entities, topic } => {
            let n = MemoryIngestView { entities, topic, ..m };
            (n, after_extraction(n))
        },
        MemoryEventView::Candidates(candidates) => {
            let n = MemoryIngestView { candidates, ..m };
            if candidates.len() == 0 {
                (n, MemoryActionView::Store(None))
            } else {
                (
                    n,
                    match topic_step(candidates, m.topic) {
                        TopicStep::Unknown => after_topics(n),
                        TopicStep::Found(id) => MemoryActionView::Store(Some(id)),
                        TopicStep::Compare(v) => MemoryActionView::CompareTopics(v),
                    },
                )
            }
        },
        MemoryEventView::Similarities(sims) => (
            m,
            match by_similarity(with_topics(m.candidates), sims) {
                Some(id) => MemoryActionView::Store(Some(id)),
                None => after_topics(m),
            },
        ),
        MemoryEventView::Overlap(id) => (m, MemoryActionView::Store(id)),
    }
}

/// Begins to take a memory in.
pub fn begin_ingest(plan: IngestPlan) -> (r: (MemoryIngest, MemoryAction))
    ensures
        (r.0@, r.1@) == memory_begun(plan@),
{
    match &plan.entities {
        Some(e) => {
            let entities = clone_texts(e);
            let session = plan.session_id.is_some();
            let m = MemoryIngest { plan, entities, topic: None, candidates: Vec::new() };
            assert(m@ =~= memory_begun(plan@).0);
            let action = if session {
                MemoryAction::LoadCandidates
            } else {
                MemoryAction::Store(None)
            };
            (m, action)
        },
        None => {
            let m = MemoryIngest {
                plan,
                entities: Vec::new(),
                topic: None,
                candidates: Vec::new(),
            };
            assert(m@ =~= memory_begun(plan@).0);
            (m, MemoryAction::Extract)
        },
    }
}

/// A topic, trimmed; a blank one is as good as none.
fn tidy_topic(t: &Option<String>) -> (r: Option<String>)
    ensures
        opt_text(r) == topic_of(opt_text(*t)),
{
    crate::settings::norm(clone_text(t))
}

/// The ids and the topics of the candidates that have one.
fn list_topics(v: &Vec<Candidate>) -> (r: (Vec<u128>, Vec<String>))
    ensures
        r.0@.len() == r.1@.len() == with_topics(candidates_view(v@)).len(),
        forall|i: int|
            0 <= i < r.0@.len() ==> {
                let t = #[trigger] with_topics(candidates_view(v@))[i];
                r.0@[i] == t.id && r.1@[i]@ == t.topic
            },
{
    let ghost all = candidates_view(v@);
    let mut ids: Vec<u128> = Vec::new();
    let mut topics: Vec<String> = Vec::new();
    let mut k: usize = 0;
    while k < v.len()
        invariant
            k <= v@.len(),
            all == candidates_view(v@),
            ids@.len() == topics@.len() == with_topics(all.take(k as int)).len(),
            forall|i: int|
                0 <= i < ids@.len() ==> {
                    let t = #[trigger] with_topics(all.take(k as int))[i];
                    ids@[i] == t.id && topics@[i]@ == t.topic
                },
        decreases v@.len() - k,
    {
        let ghost now = with_topics(all.take(k as int));
        let ghost next = with_topics(all.take(k + 1));
        let ghost old_ids = ids@;
        let ghost old_topics = topics@;
        proof {
            assert(all.take(k + 1).drop_last() =~= all.take(k as int));
            assert(all.take(k + 1).last() == v@[k as int]@);
        }
        if let Some(t) = tidy_topic(&v[k].topic) {
            ids.push(v[k].id);
            topics.push(t);
        }
        proof {
            assert forall|i: int| 0 <= i < ids@.len() implies {
                let t = #[trigger] next[i];
                ids@[i] == t.id && topics@[i]@ == t.topic
            } by {
                if i < now.len() {
                    assert(now[i] == next[i]);
                    assert(ids@[i] == old_ids[i] && topics@[i] == old_topics[i]);
                }
            }
        }
        k += 1;
    }
    assert(all.take(k as int) =~= all);
    (ids, topics)
}

/// The place of the greatest similarity that counts, the last of equals.
pub fn best_similarity(sims: &Vec<u32>) -> (r: Option<usize>)
    ensures
        match r {
            Some(i) => most_similar(sims@) == Some(i as int) && i < sims@.len(),
            None => most_similar(sims@) is None,
        },
{
    let mut best: Option<usize> = None;
    let mut k: usize = 0;
    while k < sims.len()
        invariant
            k <= sims@.len(),
            match best {
                Some(i) => most_similar(sims@.take(k as int)) == Some(i as int) && i < k,
                None => most_similar(sims@.take(k as int)) is None,
            },
        decreases sims@.len() - k,
    {
        assert(sims@.take(k + 1).drop_last() =~= sims@.take(k as int));
        let s: u32 = sims[k];
        if SIMILAR <= s && s <= INFINITE {
            let take = match best {
                Some(i) => sims[i] <= s,
                None => true,
            };
            if take {
                best = Some(k);
            }
        }
        k += 1;
    }
    assert(sims@.take(k as int) =~= sims@);
    best
}

/// The id whose fold is the first to be this one.
pub open spec fn fold_match(ids: Seq<u128>, folds: Seq<Seq<char>>, fold: Seq<char>) -> Option<u128>
    decreases folds.len(),
{
    if folds.len() == 0 {
        None
    } else if folds[0] == fold {
        Some(ids[0])
    } else {
        fold_match(ids.drop_first(), folds.drop_first(), fold)
    }
}

/// The id whose fold is the first to be this one.
pub fn find_fold(ids: &Vec<u128>, folds: &Vec<String>, fold: &str) -> (r: Option<u128>)
    requires
        ids@.len() == folds@.len(),
    ensures
        r == fold_match(ids@, texts(folds@), fold@),
{
    let ghost all = texts(folds@);
    let mut k: usize = 0;
    assert(all.skip(0) =~= all);
    assert(ids@.skip(0) =~= ids@);
    while k < ids.len()
        invariant
            k <= ids@.len() == folds@.len(),
            all == texts(folds@),
            fold_match(ids@, all, fold@) == fold_match(
                ids@.skip(k as int),
                all.skip(k as int),
                fold@,
            ),
        decreases ids@.len() - k,
    {
        assert(all.skip(k as int).drop_first() =~= all.skip(k + 1));
        assert(ids@.skip(k as int).drop_first() =~= ids@.skip(k + 1));
        assert(all.skip(k as int)[0] == folds@[k as int]@);
        if same_text(folds[k].as_str(), fold) {
            return Some(ids[k]);
        }
        k += 1;
    }
    None
}

proof fn lemma_find_fold(
    v: Seq<TopicView>,
    ids: Seq<u128>,
    folds: Seq<Seq<char>>,
    topic: Seq<char>,
)
    requires
        ids.len() == v.len(),
        folds.len() == v.len(),
        forall|i: int|
            0 <= i < v.len() ==> ids[i] == (#[trigger] v[i]).id && folds[i] == lowercase(
                v[i].topic,
            ),
    ensures
        fold_match(ids, folds, lowercase(topic)) == same_topic(v, topic),
    decreases v.len(),
{
    if v.len() > 0 {
        assert(ids[0] == v[0].id && folds[0] == lowercase(v[0].topic));
        let rest = v.drop_first();
        assert forall|i: int| 0 <= i < rest.len() implies ids.drop_first()[i] == (
        #[trigger] rest[i]).id && folds.drop_first()[i] == lowercase(rest[i].topic) by {
            assert(rest[i] == v[i + 1]);
        }
        lemma_find_fold(rest, ids.drop_first(), folds.drop_first(), topic);
    }
}

/// What the topics alone decide: the memory with the same topic, or the texts
/// to be compared, or nothing.
pub fn match_by_topic(candidates: &Vec<Candidate>, new_topic: &Option<String>) -> (r: (
    Option<u128>,
    Option<Vec<String>>,
))
    ensures
        match topic_step(candidates_view(candidates@), opt_text(*new_topic)) {
            TopicStep::Unknown => r.0 is None && r.1 is None,
            TopicStep::Found(id) => r.0 == Some(id) && r.1 is None,
            TopicStep::Compare(v) => r.0 is None && opt_texts(r.1) == Some(v),
        },
{
    let topic = match tidy_topic(new_topic) {
        Some(t) => t,
        None => {
            return (None, None);
        },
    };
    let (ids, topics) = list_topics(candidates);
    let ghost rest = with_topics(candidates_view(candidates@));
    if ids.len() == 0 {
        return (None, None);
    }
    let folded = to_lowercase(topic.as_str());
    let mut folds: Vec<String> = Vec::new();
    let mut k: usize = 0;
    while k < topics.len()
        invariant
            k <= topics@.len(),
            folds@.len() == k,
            forall|i: int| 0 <= i < k ==> (#[trigger] folds@[i])@ == lowercase(topics@[i]@),
        decreases topics@.len() - k,
    {
        folds.push(to_lowercase(topics[k].as_str()));
        k += 1;
    }
    let found = find_fold(&ids, &folds, folded.as_str());
    proof {
        lemma_find_fold(rest, ids@, texts(folds@), topic@);
    }
    if found.is_some() {
        return (found, None);
    }
    let mut out: Vec<String> = Vec::new();
    out.push(topic);
    let mut j: usize = 0;
    while j < topics.len()
        invariant
            j <= topics@.len(),
            out@.len() == j + 1,
            out@[0]@ == topic@,
            forall|i: int| 0 <= i < j ==> out@[i + 1]@ == (#[trigger] topics@[i])@,
        decreases topics@.len() - j,
    {
        out.push(topics[j].clone());
        j += 1;
    }
    proof {
        let want = topics_to_embed(topic@, rest);
        assert forall|i: int| 0 <= i < want.len() implies texts(out@)[i] == want[i] by {
            if i > 0 {
                assert(topics@[i - 1]@ == rest[i - 1].topic);
                assert(out@[(i - 1) + 1]@ == topics@[i - 1]@);
            }
        }
        assert(texts(out@) =~= want);
    }
    (None, Some(out))
}

fn fall_back(entities: &Vec<String>) -> (r: MemoryAction)
    ensures
        r@ == (if entities@.len() == 0 {
            MemoryActionView::Store(None)
        } else {
            MemoryActionView::CompareEntities { threshold: THREE_TENTHS }
        }),
{
    if entities.len() == 0 {
        MemoryAction::Store(None)
    } else {
        MemoryAction::CompareEntities { threshold: THREE_TENTHS }
    }
}

/// Takes a memory in, step by step: extraction, then the search for what it
/// supersedes, first by topic and then by entities.
pub fn ingest_memory(m: MemoryIngest, event: MemoryEvent) -> (r: (MemoryIngest, MemoryAction))
    ensures
        (r.0@, r.1@) == memory_step(m@, event@),
{
    let mut m = m;
    match event {
        MemoryEvent::Extracted { entities, topic } => {
            m.entities = entities;
            m.topic = topic;
            let action = if m.plan.session_id.is_some() {
                MemoryAction::LoadCandidates
            } else {
                MemoryAction::Store(None)
            };
            (m, action)
        },
        MemoryEvent::Candidates(candidates) => {
            m.candidates = candidates;
            if m.candidates.len() == 0 {
                return (m, MemoryAction::Store(None));
            }
            let (found, compare) = match_by_topic(&m.candidates, &m.topic);
            let action = match found {
                Some(id) => MemoryAction::Store(Some(id)),
                None => match compare {
                    Some(v) => MemoryAction::CompareTopics(v),
                    None => fall_back(&m.entities),
                },
            };
            (m, action)
        },
        MemoryEvent::Similarities(sims) => {
            let (ids, _) = list_topics(&m.candidates);
            if sims.len() == ids.len() {
                if let Some(i) = best_similarity(&sims) {
                    return (m, MemoryAction::Store(Some(ids[i])));
                }
            }
            let action = fall_back(&m.entities);
            (m, action)
        },
        MemoryEvent::Overlap(id) => (m, MemoryAction::Store(id)),
    }
}

/// A memory without a session supersedes nothing, whatever was extracted.
pub proof fn law_no_session_supersedes_nothing(
    plan: PlanView,
    entities: Seq<Seq<char>>,
    topic: Option<Seq<char>>,
)
    requires
        plan.session_id is None,
    ensures
        plan.entities is Some ==> memory_begun(plan).1 == MemoryActionView::Store(None),
        memory_step(
            memory_begun(plan).0,
            MemoryEventView::Extracted { entities, topic },
        ).1 == MemoryActionView::Store(None),
{
}

/// The greatest similarity that counts: no other that counts is greater, and
/// none behind it is as great.
pub proof fn law_most_similar(sims: Seq<u32>)
    ensures
        match most_similar(sims) {
            Some(i) => {
                &&& 0 <= i < sims.len()
                &&& similar(sims[i])
                &&& forall|j: int|
                    0 <= j < sims.len() && similar(#[trigger] sims[j]) ==> sims[j] <= sims[i]
                &&& forall|j: int|
                    i < j < sims.len() && similar(#[trigger] sims[j]) ==> sims[j] < sims[i]
            },
            None => forall|j: int| 0 <= j < sims.len() ==> !similar(#[trigger] sims[j]),
        },
    decreases sims.len(),
{
    if sims.len() > 0 {
        let front = sims.drop_last();
        law_most_similar(front);
        assert forall|j: int| 0 <= j < front.len() implies front[j] == sims[j] by {}
        match most_similar(sims) {
            Some(i) => {
                assert forall|j: int| 0 <= j < sims.len() && similar(#[trigger] sims[j]) implies
                    sims[j] <= sims[i] by {
                    if j < front.len() {
                        assert(front[j] == sims[j]);
                    }
                }
                assert forall|j: int| i < j < sims.len() && similar(#[trigger] sims[j]) implies
                    sims[j] < sims[i] by {
                    if j < front.len() {
                        assert(front[j] == sims[j]);
                    }
                }
            },
            None => {
                assert forall|j: int| 0 <= j < sims.len() implies !similar(#[trigger] sims[j]) by {
                    if j < front.len() {
                        assert(front[j] == sims[j]);
                    }
                }
            },
        }
    }
}

/// A memory supersedes one that was among the candidates, unless the overlap of
/// entities named another.
pub proof fn law_superseded_is_a_candidate(m: MemoryIngestView, event: MemoryEventView)
    requires
        !(event is Overlap),
    ensures
        memory_step(m, event).1 matches MemoryActionView::Store(Some(id)) ==> exists|i: int|
            0 <= i < memory_step(m, event).0.candidates.len() && (
            #[trigger] memory_step(m, event).0.candidates[i]).id == id,
{
    let v = memory_step(m, event).0.candidates;
    lemma_topics_come_from(v);
    if let MemoryActionView::Store(Some(id)) = memory_step(m, event).1 {
        let rest = with_topics(v);
        if let MemoryEventView::Similarities(sims) = event {
            law_most_similar(sims);
            let i = most_similar(sims)->Some_0;
            assert(rest[i].id == id);
        } else {
            lemma_same_topic(rest, topic_of(m.topic)->Some_0);
            let i = choose|i: int| 0 <= i < rest.len() && (#[trigger] rest[i]).id == id;
            assert(rest[i].id == id);
        }
    }
}

proof fn lemma_topics_come_from(v: Seq<CandidateView>)
    ensures
        forall|k: int|
            0 <= k < with_topics(v).len() ==> exists|i: int|
                0 <= i < v.len() && (#[trigger] v[i]).id == (#[trigger] with_topics(v)[k]).id,
    decreases v.len(),
{
    if v.len() > 0 {
        let front = v.drop_last();
        lemma_topics_come_from(front);
        assert forall|k: int| 0 <= k < with_topics(v).len() implies exists|i: int|
            0 <= i < v.len() && (#[trigger] v[i]).id == (#[trigger] with_topics(v)[k]).id by {
            if k < with_topics(front).len() {
                assert(with_topics(front)[k] == with_topics(v)[k]);
                let i = choose|i: int|
                    0 <= i < front.len() && (#[trigger] front[i]).id == with_topics(front)[k].id;
                assert(v[i] == front[i]);
            } else {
                assert(v[v.len() - 1].id == with_topics(v)[k].id);
            }
        }
    }
}

proof fn lemma_same_topic(v: Seq<TopicView>, topic: Seq<char>)
    ensures
        same_topic(v, topic) matches Some(id) ==> exists|i: int|
            0 <= i < v.len() && (#[trigger] v[i]).id == id,
    decreases v.len(),
{
    if v.len() > 0 {
        if lowercase(v[0].topic) == lowercase(topic) {
            assert(v[0].id == v[0].id);
        } else {
            let rest = v.drop_first();
            lemma_same_topic(rest, topic);
            if let Some(id) = same_topic(rest, topic) {
                let i = choose|i: int| 0 <= i < rest.len() && (#[trigger] rest[i]).id == id;
                assert(v[i + 1] == rest[i]);
            }
        }
    }
}

// ---------------------------------------------------------------------------
// Search
// ---------------------------------------------------------------------------
/// How a search ranks: for a question, or to reconstruct what is going on.
#[derive(Debug, Clone, Copy, PartialEq, Eq, Structural)]
pub enum Mode {
    Answer,
    Manager,
}

impl Default for Mode {
    fn default() -> (r: Mode)
        ensures
            r == Mode::Answer,
    {
        Mode::Answer
    }
}

impl Mode {
    /// The name of a mode, as characters.
    pub open spec fn name(self) -> Seq<char> {
        match self {
            Mode::Answer => "answer"@,
            Mode::Manager => "manager"@,
        }
    }

    /// The name of the mode.
    pub fn label(&self) -> (r: &'static str)
        ensures
            r@ == self.name(),
    {
        match self {
            Mode::Answer => "answer",
            Mode::Manager => "manager",
        }
    }
}

/// A search.
#[derive(Debug, Clone)]
pub struct SearchRequest {
    pub project_id: Option<String>,
    pub session_id: Option<String>,
    pub query: Option<String>,
    pub mode: Option<Mode>,
    pub top_k: Option<usize>,
    pub memory_types: Option<Vec<String>>,
    pub since: Option<Timestamp>,
    pub until: Option<Timestamp>,
    pub include_superseded: Option<bool>,
}

/// What a search is carried out with.
#[derive(Debug, Clone, Copy, PartialEq, Eq, Structural)]
pub struct SearchPlan {
    pub mode: Mode,
    pub top_k: usize,
    /// Whether the query is embedded and read for entities.
    pub reads_query: bool,
    pub include_superseded: bool,
}

/// What a search is carried out with.
pub open spec fn search_plan(req: SearchRequest) -> SearchPlan {
    SearchPlan {
        mode: match req.mode {
            Some(m) => m,
            None => Mode::Answer,
        },
        top_k: match req.top_k {
            Some(k) => if k < 1 {
                1
            } else if k > 100 {
                100
            } else {
                k
            },
            None => 10,
        },
        reads_query: req.query is Some && !blank(req.query->Some_0@),
        include_superseded: req.include_superseded == Some(true),
    }
}

/// Settles what a search is carried out with.
pub fn search_memory(req: &SearchRequest) -> (r: SearchPlan)
    ensures
        r == search_plan(*req),
        1 <= r.top_k <= 100,
{
    let mode = match req.mode {
        Some(m) => m,
        None => Mode::default(),
    };
    let top_k: usize = match req.top_k {
        Some(k) => if k < 1 {
            1
        } else if k > 100 {
            100
        } else {
            k
        },
        None => 10,
    };
    let reads_query = match &req.query {
        Some(q) => !is_blank(q.as_str()),
        None => false,
    };
    let include_superseded = match req.include_superseded {
        Some(b) => b,
        None => false,
    };
    SearchPlan { mode, top_k, reads_query, include_superseded }
}

// ---------------------------------------------------------------------------
// Stored memories
// ---------------------------------------------------------------------------
/// A stored memory. `importance` holds the bits of a number.
#[derive(Debug, Clone)]
pub struct MemoryRow {
    pub id: u128,
    pub memory_type: String,
    pub content: String,
    pub importance: u32,
    pub decay_class: String,
    pub user_id: String,
    pub project_id: Option<String>,
    pub session_id: Option<String>,
    pub entities: Vec<String>,
    pub superseded_by: Option<u128>,
    pub supersedes: Option<u128>,
    pub state_key: Option<String>,
    pub created_at: Timestamp,
}

/// The answer for a memory that is not there.
pub open spec fn no_memory(id: u128) -> ErrorView {
    ErrorView::NotFound("memory "@ + id_text(id))
}

fn missing_memory(id: u128) -> (r: AppError)
    ensures
        r@ == no_memory(id),
{
    let mut message = String::from_str("memory ");
    message.append(write_id(id).as_str());
    AppError::NotFound(message)
}

/// What a user is shown of a row: all of it or nothing.
pub open spec fn shown_to(row: Option<MemoryRow>, user_id: Seq<char>) -> Option<MemoryRow> {
    match row {
        Some(m) => if m.user_id@ == user_id {
            Some(m)
        } else {
            None
        },
        None => None,
    }
}

/// The memory of an id, for its owner. To anyone else it does not exist.
pub fn get_memory_by_id(row: Option<MemoryRow>, user_id: &str, id: u128) -> (r: Result<
    MemoryRow,
    AppError,
>)
    ensures
        match r {
            Ok(x) => row == Some(x) && x.user_id@ == user_id@,
            Err(e) => (row is None || row->Some_0.user_id@ != user_id@) && e@ == no_memory(id),
        },
        match r {
            Ok(x) => shown_to(row, user_id@) == Some(x),
            Err(_) => shown_to(row, user_id@) is None,
        },
{
    match row {
        Some(x) => if same_text(x.user_id.as_str(), user_id) {
            Ok(x)
        } else {
            Err(missing_memory(id))
        },
        None => Err(missing_memory(id)),
    }
}

/// A memory that takes the place of another.
#[derive(Debug, Clone)]
pub struct SupersedeRequest {
    pub content: String,
    pub importance: Option<u32>,
    pub entities_override: Option<Vec<String>>,
}

/// The answer to a supersession.
#[derive(Debug, Clone, Copy, PartialEq, Eq, Structural)]
pub struct SupersedeResponse {
    pub new_id: u128,
    pub superseded_id: u128,
}

/// Why a memory cannot be superseded by a user.
pub open spec fn supersede_fault(old: Option<MemoryRow>, user_id: Seq<char>, id: u128) -> Option<
    ErrorView,
> {
    match old {
        None => Some(no_memory(id)),
        Some(m) => if m.user_id@ != user_id {
            Some(no_memory(id))
        } else if m.superseded_by is Some {
            Some(ErrorView::Conflict(id_text(id) + " has already been superseded"@))
        } else if m.memory_type@ == "state_object"@ {
            Some(
                ErrorView::BadRequest(
                    "state_object memories supersede via /state/:kind/:key PATCH ops"@,
                ),
            )
        } else {
            None
        },
    }
}

/// The memory to be superseded, where the user may supersede it.
pub fn supersede_memory(old: Option<MemoryRow>, user_id: &str, old_id: u128) -> (r: Result<
    MemoryRow,
    AppError,
>)
    ensures
        match r {
            Ok(m) => old == Some(m) && supersede_fault(old, user_id@, old_id) is None,
            Err(e) => supersede_fault(old, user_id@, old_id) == Some(e@),
        },
{
    match get_memory_by_id(old, user_id, old_id) {
        Ok(m) => {
            if m.superseded_by.is_some() {
                let mut message = write_id(old_id);
                message.append(" has already been superseded");
                return Err(AppError::Conflict(message));
            }
            if same_text(m.memory_type.as_str(), "state_object") {
                return Err(
                    AppError::bad_request(
                        "state_object memories supersede via /state/:kind/:key PATCH ops",
                    ),
                );
            }
            Ok(m)
        },
        Err(e) => Err(e),
    }
}

/// What the new memory takes over: its importance unless given, and the old
/// entities where none were found in the new text.
pub fn inherit(old: &MemoryRow, importance: Option<u32>, extracted: &Vec<String>) -> (r: (
    u32,
    Vec<String>,
))
    ensures
        r.0 == unit(
            match importance {
                Some(i) => i,
                None => old.importance,
            },
        ),
        texts(r.1@) == (if extracted@.len() == 0 {
            texts(old.entities@)
        } else {
            texts(extracted@)
        }),
{
    let i = clamp_unit(
        match importance {
            Some(i) => i,
            None => old.importance,
        },
    );
    let entities = if extracted.len() == 0 {
        clone_texts(&old.entities)
    } else {
        clone_texts(extracted)
    };
    (i, entities)
}

/// The entities that the new text is taken to have: those that the request
/// gives, each once, or else those that were found in it.
pub open spec fn entities_given(req: SupersedeRequest, found: Seq<Seq<char>>) -> Seq<Seq<char>> {
    match req.entities_override {
        Some(given) => deduped(texts(given@)),
        None => found,
    }
}

/// The entities that the new text is taken to have.
pub fn given_entities(req: &SupersedeRequest, found: &Vec<String>) -> (r: Vec<String>)
    ensures
        texts(r@) == entities_given(*req, texts(found@)),
{
    match &req.entities_override {
        Some(given) => dedupe(clone_texts(given)),
        None => clone_texts(found),
    }
}

/// The memory that takes the place of another: the new text with what is given
/// for it, and in everything else the old one's heir. `found` holds the entities
/// that were found in the text.
pub open spec fn succeeds(
    old: MemoryRow,
    req: SupersedeRequest,
    found: Seq<Seq<char>>,
    new_id: u128,
    at: Timestamp,
    new: MemoryRow,
) -> bool {
    let given = entities_given(req, found);
    &&& new.id == new_id
    &&& new.memory_type@ == old.memory_type@
    &&& new.content@ == req.content@
    &&& new.importance == unit(
        match req.importance {
            Some(i) => i,
            None => old.importance,
        },
    )
    &&& new.decay_class@ == old.decay_class@
    &&& new.user_id@ == old.user_id@
    &&& opt_text(new.project_id) == opt_text(old.project_id)
    &&& opt_text(new.session_id) == opt_text(old.session_id)
    &&& texts(new.entities@) == (if given.len() == 0 {
        texts(old.entities@)
    } else {
        given
    })
    &&& new.superseded_by is None
    &&& new.supersedes == Some(old.id)
    &&& new.state_key is None
    &&& new.created_at == at
}

/// The memory that takes the place of another, to be stored under `new_id` at
/// this time.
pub fn superseding_row(
    old: &MemoryRow,
    req: &SupersedeRequest,
    found: &Vec<String>,
    new_id: u128,
    at: Timestamp,
) -> (r: MemoryRow)
    ensures
        succeeds(*old, *req, texts(found@), new_id, at, r),
{
    let given = given_entities(req, found);
    let (importance, entities) = inherit(old, req.importance, &given);
    MemoryRow {
        id: new_id,
        memory_type: old.memory_type.clone(),
        content: req.content.clone(),
        importance,
        decay_class: old.decay_class.clone(),
        user_id: old.user_id.clone(),
        project_id: clone_text(&old.project_id),
        session_id: clone_text(&old.session_id),
        entities,
        superseded_by: None,
        supersedes: Some(old.id),
        state_key: None,
        created_at: at,
    }
}

/// Whether a memory is what it was, but for its having been superseded.
pub open spec fn marked(old: MemoryRow, new_id: u128, r: MemoryRow) -> bool {
    r == MemoryRow { superseded_by: Some(new_id), ..old }
}

/// The old memory once another has taken its place, and the answer.
pub fn superseded_row(old: MemoryRow, new_id: u128) -> (r: (MemoryRow, SupersedeResponse))
    ensures
        marked(old, new_id, r.0),
        r.1 == (SupersedeResponse { new_id, superseded_id: old.id }),
{
    let superseded_id: u128 = old.id;
    let mut row = old;
    row.superseded_by = Some(new_id);
    (row, SupersedeResponse { new_id, superseded_id })
}

/// A memory is superseded once: the two memories then point at each other, the
/// old one can be superseded by nobody any more, its owner is told of the
/// conflict, and the new one, which is its owner's and of its type, can be.
pub proof fn law_superseded_once(
    old: MemoryRow,
    req: SupersedeRequest,
    found: Seq<Seq<char>>,
    new_id: u128,
    at: Timestamp,
    user_id: Seq<char>,
    new: MemoryRow,
    then: MemoryRow,
)
    requires
        supersede_fault(Some(old), user_id, old.id) is None,
        succeeds(old, req, found, new_id, at, new),
        marked(old, new_id, then),
    ensures
        then.superseded_by == Some(new.id),
        new.supersedes == Some(then.id),
        supersede_fault(Some(then), user_id, old.id) == Some(
            ErrorView::Conflict(id_text(old.id) + " has already been superseded"@),
        ),
        supersede_fault(Some(new), user_id, new_id) is None,
        forall|other: Seq<char>| (#[trigger] supersede_fault(Some(then), other, old.id)) is Some,
        terminal_of(seq![then, new]) == Some(new_id),
{
    assert(seq![then, new].drop_first() =~= seq![new]);
    assert(seq![then, new][0] == then);
    assert(seq![new][0] == new);
    assert(terminal_of(seq![new]) == Some(new_id));
}

/// The first of the memories, oldest first, that is not superseded.
pub open spec fn terminal_of(v: Seq<MemoryRow>) -> Option<u128>
    decreases v.len(),
{
    if v.len() == 0 {
        None
    } else if v[0].superseded_by is None {
        Some(v[0].id)
    } else {
        terminal_of(v.drop_first())
    }
}

/// The first of the memories that is not superseded.
pub fn terminal(v: &Vec<MemoryRow>) -> (r: Option<u128>)
    ensures
        r == terminal_of(v@),
{
    let mut i: usize = 0;
    assert(v@.skip(0) =~= v@);
    while i < v.len()
        invariant
            i <= v@.len(),
            terminal_of(v@) == terminal_of(v@.skip(i as int)),
        decreases v@.len() - i,
    {
        assert(v@.skip(i as int).drop_first() =~= v@.skip(i + 1));
        if v[i].superseded_by.is_none() {
            return Some(v[i].id);
        }
        i += 1;
    }
    None
}

/// What changes is what is current: once every memory of a chain has been
/// superseded, the one that is added behind them is the end of the chain.
pub proof fn law_newest_is_terminal(chain: Seq<MemoryRow>, newest: MemoryRow)
    requires
        forall|i: int| 0 <= i < chain.len() ==> (#[trigger] chain[i]).superseded_by is Some,
        newest.superseded_by is None,
    ensures
        terminal_of(chain) is None,
        terminal_of(chain.push(newest)) == Some(newest.id),
    decreases chain.len(),
{
    if chain.len() > 0 {
        let rest = chain.drop_first();
        assert(chain[0].superseded_by is Some);
        assert(chain.push(newest).drop_first() =~= rest.push(newest));
        law_newest_is_terminal(rest, newest);
    }
}

/// A memory's lineage: the chain, oldest first, and its end.
#[derive(Debug, Clone)]
pub struct Lineage {
    pub root: u128,
    pub terminal: Option<u128>,
    pub length: usize,
    pub chain: Vec<MemoryRow>,
}

/// The lineage of a memory that the user was shown to own.
pub fn memory_lineage(id: u128, rows: Vec<MemoryRow>) -> (r: Result<Lineage, AppError>)
    ensures
        match r {
            Ok(l) => {
                &&& rows@.len() > 0
                &&& l.root == id
                &&& l.terminal == terminal_of(rows@)
                &&& l.length == rows@.len()
                &&& l.chain@ == rows@
            },
            Err(e) => rows@.len() == 0 && e@ == no_memory(id),
        },
{
    if rows.len() == 0 {
        return Err(missing_memory(id));
    }
    Ok(Lineage { root: id, terminal: terminal(&rows), length: rows.len(), chain: rows })
}

/// What one user owns does not exist for another: neither to be read nor to be
/// superseded, and the answer is that for a memory that was never there.
pub proof fn law_foreign_memories_do_not_exist(m: MemoryRow, user_id: Seq<char>, id: u128)
    requires
        m.user_id@ != user_id,
    ensures
        supersede_fault(Some(m), user_id, id) == supersede_fault(None, user_id, id),
        supersede_fault(Some(m), user_id, id) == Some(no_memory(id)),
{
}

// ---------------------------------------------------------------------------
// What is settled about a memory
// ---------------------------------------------------------------------------
/// Whether a text begins with another.
pub open spec fn opens_with(s: Seq<char>, t: Seq<char>) -> bool {
    t.len() <= s.len() && s.take(t.len() as int) == t
}

/// The stored text names the speaker of each turn. A text of its own is stored as
/// it is. Without one, a memory with a user's turn opens with the user's label and
/// that turn, whether or not an answer follows, and has the assistant's label only
/// where an answer was given; what is read for entities has the words without the
/// labels. The same words are stored differently for the two speakers. Without
/// any words there is nothing to store.
pub proof fn law_stored_text_names_its_speakers(
    own: Seq<char>,
    user: Seq<char>,
    answer: Seq<char>,
    any_user: Option<Seq<char>>,
    any_answer: Option<Seq<char>>,
)
    ensures
        !blank(own) ==> contents_of(Some(own), any_user, any_answer) == Some((own, own)),
        blank(own) ==> contents_of(Some(own), any_user, any_answer) == contents_of(
            None,
            any_user,
            any_answer,
        ),
        contents_of(None, None, None) is None,
        contents_of(None, Some(user), any_answer) matches Some(c) && opens_with(
            c.0,
            seq!['U', 's', 'e', 'r', ':', ' '] + trimmed(user),
        ),
        contents_of(None, Some(user), None) == Some(
            (seq!['U', 's', 'e', 'r', ':', ' '] + trimmed(user), trimmed(user)),
        ),
        contents_of(None, None, Some(answer)) == Some(
            (
                seq!['A', 's', 's', 'i', 's', 't', 'a', 'n', 't', ':', ' '] + trimmed(answer),
                trimmed(answer),
            ),
        ),
        contents_of(None, Some(user), Some(answer)) == Some(
            (
                contents_of(None, Some(user), None)->Some_0.0 + seq!['\n'] + contents_of(
                    None,
                    None,
                    Some(answer),
                )->Some_0.0,
                trimmed(user) + seq!['\n'] + trimmed(answer),
            ),
        ),
        contents_of(None, Some(user), None)->Some_0.0 != contents_of(
            None,
            None,
            Some(user),
        )->Some_0.0,
{
    reveal_strlit("User: ");
    reveal_strlit("Assistant: ");
    reveal_strlit("\nAssistant: ");
    reveal_strlit("\n");
    let u = seq!['U', 's', 'e', 'r', ':', ' '];
    let a = seq!['A', 's', 's', 'i', 's', 't', 'a', 'n', 't', ':', ' '];
    assert("User: "@ =~= u);
    assert("Assistant: "@ =~= a);
    assert("\nAssistant: "@ =~= seq!['\n'] + a);
    assert("\n"@ =~= seq!['\n']);
    assert(u + trimmed(user) + (seq!['\n'] + a) + trimmed(answer) =~= u + trimmed(user) + seq!['\n']
        + (a + trimmed(answer)));
    let c = contents_of(None, Some(user), any_answer)->Some_0.0;
    assert(c.take((u + trimmed(user)).len() as int) =~= u + trimmed(user));
    assert((u + trimmed(user))[0] == 'U');
    assert((a + trimmed(user))[0] == 'A');
}

/// Which types a memory can have, and how fast each is forgotten: working memory
/// fast, what was learned, written down or made a rule slowly, episodes in
/// between. A state object is made elsewhere.
pub proof fn law_types_and_their_decay(t: Seq<char>)
    ensures
        type_fault(t) is None <==> (t == "working"@ || t == "episodic"@ || t == "semantic"@ || t
            == "procedural"@ || t == "document"@),
        type_fault(t) matches Some(e) ==> e is BadRequest,
        decay_of("working"@) == "fast"@,
        decay_of("episodic"@) == "medium"@,
        t != "working"@ ==> decay_of(t) != "fast"@,
        decay_of(t) == "slow"@ <==> (t == "semantic"@ || t == "procedural"@ || t == "document"@),
        decay_of(t) == "medium"@ <==> !(t == "working"@ || t == "semantic"@ || t == "procedural"@
            || t == "document"@),
{
    reveal_strlit("working");
    reveal_strlit("episodic");
    reveal_strlit("semantic");
    reveal_strlit("procedural");
    reveal_strlit("document");
    reveal_strlit("fast");
    reveal_strlit("medium");
    reveal_strlit("slow");
    assert("fast"@[0] == 'f' && "medium"@[0] == 'm' && "slow"@[0] == 's');
    assert("working"@[0] == 'w' && "episodic"@[0] == 'e' && "semantic"@[0] == 's');
    assert("procedural"@[0] == 'p' && "document"@[0] == 'd');
}

/// How long a memory lives is what it says; where it says nothing, working memory
/// lives two days and everything else for ever. An hour has sixty minutes of sixty
/// seconds, and a longer life ends later.
pub proof fn law_lifetimes(t: Seq<char>, asked: i64, now: int, hours: int)
    ensures
        hours_to_live(t, Some(asked)) == Some(asked),
        hours_to_live(t, None) == (if t == "working"@ {
            Some((2 * 24) as i64)
        } else {
            None
        }),
        last_second(now, 0) == now,
        last_second(now, hours + 1) == last_second(now, hours) + 60 * 60,
        last_second(now + 1, hours) == last_second(now, hours) + 1,
{
    assert((hours + 1) * 3600 == hours * 3600 + 3600) by (nonlinear_arith);
}

/// What is planned for a memory is what was asked for: it is refused exactly where
/// there are no words or the type is unknown, and else keeps its words, its type,
/// working memory by default, its project and its session; it weighs a half unless
/// it says otherwise, and what it says is confined to the unit; entities that are
/// given are taken in place of any that could be found.
pub proof fn law_plan_follows_the_request(req: IngestRequest)
    ensures
        ({
            let words = contents_of(
                opt_text(req.content),
                opt_text(req.user_turn),
                opt_text(req.assistant_turn),
            );
            let t = if req.memory_type is Some {
                req.memory_type->Some_0@
            } else {
                "working"@
            };
            match planned(req) {
                Ok(p) => {
                    &&& words == Some((p.content, p.extraction_text))
                    &&& type_fault(t) is None
                    &&& p.memory_type == t
                    &&& p.decay_class == decay_of(t)
                    &&& p.ttl_hours == hours_to_live(t, req.ttl_hours)
                    &&& p.project_id == opt_text(req.project_id)
                    &&& p.session_id == opt_text(req.session_id)
                    &&& req.importance is None ==> p.importance == HALF
                    &&& req.importance matches Some(i) ==> p.importance == unit(i)
                    &&& p.entities is Some <==> req.entities_override is Some
                    &&& p.entities matches Some(e) ==> e == deduped(
                        texts(req.entities_override->Some_0@),
                    )
                },
                Err(e) => e is BadRequest && (words is None || type_fault(t) is Some),
            }
        }),
        HALF == 0x3f00_0000u32,
{
}

/// Of items that are the same but for their case the first spelling stays, and
/// what is kept keeps its order: an item that is new is kept behind those before
/// it, one that is not, or is blank, changes nothing.
pub proof fn law_first_spelling_stays(items: Seq<Seq<char>>, next: Seq<char>)
    ensures
        trimmed(next).len() > 0 && !has_folded(deduped(items), trimmed(next)) ==> deduped(
            items.push(next),
        ) == deduped(items).push(trimmed(next)),
        trimmed(next).len() == 0 || has_folded(deduped(items), trimmed(next)) ==> deduped(
            items.push(next),
        ) == deduped(items),
        deduped(Seq::empty()) == Seq::<Seq<char>>::empty(),
{
    assert(items.push(next).drop_last() =~= items);
    assert(items.push(next).last() == next);
}

// ---------------------------------------------------------------------------
// What a memory supersedes
// ---------------------------------------------------------------------------
/// A memory on the topic of a candidate, whatever its case, takes the place of
/// the first such candidate, without anything being compared; and where there is
/// nothing to compare or nothing is alike, entities decide.
pub proof fn law_same_topic_is_superseded(m: MemoryIngestView, candidates: Seq<CandidateView>)
    ensures
        candidates.len() == 0 ==> memory_step(m, MemoryEventView::Candidates(candidates)).1
            == MemoryActionView::Store(None),
        candidates.len() > 0 ==> match topic_of(m.topic) {
            Some(topic) => {
                let known = with_topics(candidates);
                match memory_step(m, MemoryEventView::Candidates(candidates)).1 {
                    MemoryActionView::Store(Some(id)) => exists|i: int|
                        0 <= i < known.len() && (#[trigger] known[i]).id == id && lowercase(
                            known[i].topic,
                        ) == lowercase(topic) && forall|j: int|
                            0 <= j < i ==> lowercase((#[trigger] known[j]).topic) != lowercase(
                                topic,
                            ),
                    MemoryActionView::CompareTopics(v) => {
                        &&& v.len() == known.len() + 1
                        &&& v[0] == topic
                        &&& forall|i: int| 0 <= i < known.len() ==> v[i + 1] == (#[trigger] known[i]).topic
                        &&& forall|i: int|
                            0 <= i < known.len() ==> lowercase((#[trigger] known[i]).topic)
                                != lowercase(topic)
                    },
                    other => known.len() == 0 && (other is CompareEntities || (other
                        == MemoryActionView::Store(None) && m.entities.len() == 0)),
                }
            },
            None => memory_step(m, MemoryEventView::Candidates(candidates)).1 == (if m.entities.len()
                == 0 {
                MemoryActionView::Store(None)
            } else {
                MemoryActionView::CompareEntities { threshold: THREE_TENTHS }
            }),
        },
        THREE_TENTHS == 0x3e99_999au32,
{
    if let Some(topic) = topic_of(m.topic) {
        lemma_first_with_topic(with_topics(candidates), topic);
    }
}

proof fn lemma_first_with_topic(v: Seq<TopicView>, topic: Seq<char>)
    ensures
        match same_topic(v, topic) {
            Some(id) => exists|i: int|
                0 <= i < v.len() && (#[trigger] v[i]).id == id && lowercase(v[i].topic) == lowercase(
                    topic,
                ) && forall|j: int|
                    0 <= j < i ==> lowercase((#[trigger] v[j]).topic) != lowercase(topic),
            None => forall|i: int|
                0 <= i < v.len() ==> lowercase((#[trigger] v[i]).topic) != lowercase(topic),
        },
    decreases v.len(),
{
    if v.len() > 0 {
        if lowercase(v[0].topic) == lowercase(topic) {
            assert(v[0].id == v[0].id);
        } else {
            let rest = v.drop_first();
            lemma_first_with_topic(rest, topic);
            match same_topic(rest, topic) {
                Some(id) => {
                    let i = choose|i: int|
                        0 <= i < rest.len() && (#[trigger] rest[i]).id == id && lowercase(
                            rest[i].topic,
                        ) == lowercase(topic) && forall|j: int|
                            0 <= j < i ==> lowercase((#[trigger] rest[j]).topic) != lowercase(
                                topic,
                            );
                    assert(v[i + 1] == rest[i]);
                    assert forall|j: int| 0 <= j < i + 1 implies lowercase((#[trigger] v[j]).topic)
                        != lowercase(topic) by {
                        if j > 0 {
                            assert(v[j] == rest[j - 1]);
                        }
                    }
                },
                None => {
                    assert forall|j: int| 0 <= j < v.len() implies lowercase((#[trigger] v[j]).topic)
                        != lowercase(topic) by {
                        if j > 0 {
                            assert(v[j] == rest[j - 1]);
                        }
                    }
                },
            }
        }
    }
}

/// Candidates keep their order and their topics, trimmed; those without one are
/// left out.
pub proof fn law_topics_are_the_candidates_own(v: Seq<CandidateView>, c: CandidateView)
    ensures
        with_topics(Seq::empty()) == Seq::<TopicView>::empty(),
        topic_of(c.topic) is None ==> with_topics(v.push(c)) == with_topics(v),
        topic_of(c.topic) matches Some(t) ==> with_topics(v.push(c)) == with_topics(v).push(
            TopicView { id: c.id, topic: t },
        ) && t == trimmed(c.topic->Some_0) && t.len() > 0,
{
    assert(v.push(c).drop_last() =~= v);
    assert(v.push(c).last() == c);
}

/// Of topics that are compared the most alike one is superseded, if it is alike
/// enough; likeness below the mark, or an answer of another length, supersedes
/// nothing by topic.
pub proof fn law_likeness_decides(m: MemoryIngestView, sims: Seq<u32>)
    ensures
        ({
            let known = with_topics(m.candidates);
            match memory_step(m, MemoryEventView::Similarities(sims)).1 {
                MemoryActionView::Store(Some(id)) => exists|i: int|
                    0 <= i < sims.len() && sims.len() == known.len() && id == known[i].id
                        && 0x3f59_999a <= #[trigger] sims[i] <= INFINITE && forall|j: int|
                        0 <= j < sims.len() && (#[trigger] sims[j]) <= INFINITE ==> sims[j]
                            <= sims[i],
                other => {
                    &&& other == MemoryActionView::Store(None) || other is CompareEntities
                    &&& sims.len() == known.len() ==> forall|j: int|
                        0 <= j < sims.len() ==> !(0x3f59_999a <= #[trigger] sims[j] <= INFINITE)
                },
            }
        }),
{
    law_most_similar(sims);
    let known = with_topics(m.candidates);
    if sims.len() == known.len() {
        match most_similar(sims) {
            Some(i) => {
                assert(similar(sims[i]));
                assert forall|j: int| 0 <= j < sims.len() && (#[trigger] sims[j]) <= INFINITE implies sims[j]
                    <= sims[i] by {
                    if similar(sims[j]) {
                    }
                }
            },
            None => {
                assert forall|j: int| 0 <= j < sims.len() implies !(0x3f59_999a <= #[trigger] sims[j]
                    <= INFINITE) by {
                    assert(!similar(sims[j]));
                }
            },
        }
    }
}

/// Entities that were found are carried along, and what they overlap is stored as
/// superseded; a memory is looked for only in its own session.
pub proof fn law_what_was_found_is_carried_along(
    plan: PlanView,
    m: MemoryIngestView,
    entities: Seq<Seq<char>>,
    topic: Option<Seq<char>>,
    id: Option<u128>,
)
    ensures
        plan.entities is None ==> memory_begun(plan).1 == MemoryActionView::Extract,
        plan.entities matches Some(e) ==> memory_begun(plan).0.entities == e && memory_begun(plan).1
            == (if plan.session_id is Some {
            MemoryActionView::LoadCandidates
        } else {
            MemoryActionView::Store(None)
        }),
        memory_begun(plan).0.plan == plan,
        ({
            let next = memory_step(m, MemoryEventView::Extracted { entities, topic });
            &&& next.0.entities == entities
            &&& next.0.topic == topic
            &&& next.0.plan == m.plan
            &&& next.1 == (if m.plan.session_id is Some {
                MemoryActionView::LoadCandidates
            } else {
                MemoryActionView::Store(None)
            })
        }),
        memory_step(m, MemoryEventView::Overlap(id)).1 == MemoryActionView::Store(id),
{
}

// ---------------------------------------------------------------------------
// Searching and superseding
// ---------------------------------------------------------------------------
/// A search gives as many results as were asked for, between one and a hundred,
/// ten where nothing was asked; it answers unless another mode was asked for,
/// reads its query only where there is one, and leaves out what was superseded
/// unless that was asked for.
pub proof fn law_search_does_as_asked(req: SearchRequest)
    ensures
        req.top_k is None ==> search_plan(req).top_k == 10,
        req.top_k matches Some(k) ==> {
            &&& 1 <= k <= 100 ==> search_plan(req).top_k == k
            &&& k < 1 ==> search_plan(req).top_k == 1
            &&& k > 100 ==> search_plan(req).top_k == 100
        },
        req.mode is None ==> search_plan(req).mode == Mode::Answer,
        req.mode matches Some(m) ==> search_plan(req).mode == m,
        search_plan(req).reads_query <==> (req.query matches Some(q) && !blank(q@)),
        search_plan(req).include_superseded <==> req.include_superseded == Some(true),
{
}

/// A memory that takes another's place says what is new and keeps the rest: the
/// new words under the new id, for the same owner, in the same project and
/// session, of the same type and decay; as important as it says, or as before;
/// with the entities that were given, or found, or else the old ones; current, and
/// pointing back at the old one.
pub proof fn law_successor_keeps_its_place(
    old: MemoryRow,
    req: SupersedeRequest,
    found: Seq<Seq<char>>,
    new_id: u128,
    at: Timestamp,
    new: MemoryRow,
)
    requires
        succeeds(old, req, found, new_id, at, new),
    ensures
        new.id == new_id && new.supersedes == Some(old.id) && new.superseded_by is None,
        new.content@ == req.content@,
        new.user_id@ == old.user_id@,
        opt_text(new.project_id) == opt_text(old.project_id),
        opt_text(new.session_id) == opt_text(old.session_id),
        new.memory_type@ == old.memory_type@ && new.decay_class@ == old.decay_class@,
        req.importance matches Some(i) ==> new.importance == unit(i),
        req.importance is None ==> new.importance == unit(old.importance),
        req.entities_override is None && found.len() > 0 ==> texts(new.entities@) == found,
        req.entities_override is None && found.len() == 0 ==> texts(new.entities@) == texts(
            old.entities@,
        ),
        req.entities_override matches Some(e) && deduped(texts(e@)).len() > 0 ==> texts(new.entities@)
            == deduped(texts(req.entities_override->Some_0@)),
        req.entities_override matches Some(e) && deduped(texts(e@)).len() == 0 ==> texts(
            new.entities@,
        ) == texts(old.entities@),
        new.created_at == at,
{
}

/// The end of a chain is its first memory that is current; a chain without one has
/// no end.
pub proof fn law_terminal_is_the_first_current(v: Seq<MemoryRow>)
    ensures
        match terminal_of(v) {
            Some(id) => exists|i: int|
                0 <= i < v.len() && (#[trigger] v[i]).id == id && v[i].superseded_by is None
                    && forall|j: int| 0 <= j < i ==> (#[trigger] v[j]).superseded_by is Some,
            None => forall|j: int| 0 <= j < v.len() ==> (#[trigger] v[j]).superseded_by is Some,
        },
    decreases v.len(),
{
    if v.len() > 0 {
        if v[0].superseded_by is None {
            assert(v[0].id == v[0].id);
        } else {
            let rest = v.drop_first();
            law_terminal_is_the_first_current(rest);
            match terminal_of(rest) {
                Some(id) => {
                    let i = choose|i: int|
                        0 <= i < rest.len() && (#[trigger] rest[i]).id == id
                            && rest[i].superseded_by is None && forall|j: int|
                            0 <= j < i ==> (#[trigger] rest[j]).superseded_by is Some;
                    assert(v[i + 1] == rest[i]);
                    assert forall|j: int| 0 <= j < i + 1 implies (#[trigger] v[j]).superseded_by
                        is Some by {
                        if j > 0 {
                            assert(v[j] == rest[j - 1]);
                        }
                    }
                },
                None => {
                    assert forall|j: int| 0 <= j < v.len() implies (#[trigger] v[j]).superseded_by
                        is Some by {
                        if j > 0 {
                            assert(v[j] == rest[j - 1]);
                        }
                    }
                },
            }
        }
    }
}

/// A memory is shown to its owner as it is, and to nobody else.
pub proof fn law_only_owners_are_shown(m: MemoryRow, user_id: Seq<char>)
    ensures
        shown_to(None, user_id) is None,
        shown_to(Some(m), m.user_id@) == Some(m),
        user_id != m.user_id@ ==> shown_to(Some(m), user_id) is None,
{
}

/// The two modes of a search have the names that callers know them by, and a memory
/// that is not there is named as such.
pub proof fn law_names_of_modes_and_of_what_is_missing(id: u128)
    ensures
        Mode::Answer.name() == "answer"@,
        Mode::Manager.name() == "manager"@,
        no_memory(id) == ErrorView::NotFound("memory "@ + id_text(id)),
{
}

} // verus!
