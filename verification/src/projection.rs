//! The edges of the mind map, and the random numbers of its layout.
use vstd::prelude::*;
use vstd::string::*;

use crate::memory::MemoryRow;
use crate::text::{clone_text, opt_text, same_text, texts};
use crate::time::Timestamp;

verus! {

/// A memory as it stands in the map.
#[derive(Debug, Clone)]
pub struct GraphInput {
    pub id: u128,
    pub entities: Vec<String>,
    pub thread_id: Option<String>,
    pub supersedes: Option<u128>,
    pub created_at: Timestamp,
}

/// A [`GraphInput`] over character sequences.
pub struct InputView {
    pub id: u128,
    pub entities: Seq<Seq<char>>,
    pub thread_id: Option<Seq<char>>,
    pub supersedes: Option<u128>,
    pub created_at: Timestamp,
}

impl View for GraphInput {
    type V = InputView;

    open spec fn view(&self) -> InputView {
        InputView {
            id: self.id,
            entities: texts(self.entities@),
            thread_id: opt_text(self.thread_id),
            supersedes: self.supersedes,
            created_at: self.created_at,
        }
    }
}

/// The memories, each by its view.
pub open spec fn inputs_view(v: Seq<GraphInput>) -> Seq<InputView> {
    v.map_values(|i: GraphInput| i@)
}

/// Why two memories are joined.
#[derive(Debug, Clone, Copy, PartialEq, Eq, Structural)]
pub enum EdgeKind {
    Supersede,
    Entity,
    Session,
}

impl EdgeKind {
    /// The name of a kind, as characters.
    pub open spec fn name(self) -> Seq<char> {
        match self {
            EdgeKind::Supersede => "supersede"@,
            EdgeKind::Entity => "entity"@,
            EdgeKind::Session => "session"@,
        }
    }

    /// The name of the kind.
    pub fn label(&self) -> (r: &'static str)
        ensures
            r@ == self.name(),
    {
        match self {
            EdgeKind::Supersede => "supersede",
            EdgeKind::Entity => "entity",
            EdgeKind::Session => "session",
        }
    }
}

/// Two memories that are joined, and how strongly: `part` of `whole`.
#[derive(Debug, Clone, Copy, PartialEq, Eq, Structural)]
pub struct GraphEdge {
    pub source: u128,
    pub target: u128,
    pub kind: EdgeKind,
    pub part: usize,
    pub whole: usize,
}

// ---------------------------------------------------------------------------
// Supersession
// ---------------------------------------------------------------------------
/// An edge from each memory that was superseded to the one that did it.
pub open spec fn chain_edges(v: Seq<InputView>) -> Seq<GraphEdge>
    decreases v.len(),
{
    if v.len() == 0 {
        Seq::empty()
    } else {
        let front = chain_edges(v.drop_last());
        match v.last().supersedes {
            Some(prev) => front.push(
                GraphEdge {
                    source: prev,
                    target: v.last().id,
                    kind: EdgeKind::Supersede,
                    part: 1,
                    whole: 1,
                },
            ),
            None => front,
        }
    }
}

/// Joins each memory with the one that it supersedes.
pub fn supersede_edges(items: &Vec<GraphInput>) -> (r: Vec<GraphEdge>)
    ensures
        r@ == chain_edges(inputs_view(items@)),
{
    let ghost all = inputs_view(items@);
    let mut out: Vec<GraphEdge> = Vec::new();
    let mut i: usize = 0;
    while i < items.len()
        invariant
            i <= items@.len(),
            all == inputs_view(items@),
            out@ == chain_edges(all.take(i as int)),
        decreases items@.len() - i,
    {
        assert(all.take(i + 1).drop_last() =~= all.take(i as int));
        assert(all.take(i + 1).last() == items@[i as int]@);
        if let Some(prev) = items[i].supersedes {
            out.push(
                GraphEdge {
                    source: prev,
                    target: items[i].id,
                    kind: EdgeKind::Supersede,
                    part: 1,
                    whole: 1,
                },
            );
        }
        i += 1;
    }
    assert(all.take(i as int) =~= all);
    out
}

// ---------------------------------------------------------------------------
// Common entities
// ---------------------------------------------------------------------------
/// How many entities two lists have in common, each counted once.
pub open spec fn in_common(a: Seq<Seq<char>>, b: Seq<Seq<char>>) -> nat {
    a.to_set().intersect(b.to_set()).len()
}

/// How many entities two lists have together, each counted once.
pub open spec fn in_all(a: Seq<Seq<char>>, b: Seq<Seq<char>>) -> nat {
    a.to_set().union(b.to_set()).len()
}

fn has_entity(v: &Vec<String>, upto: usize, t: &str) -> (r: bool)
    requires
        upto <= v@.len(),
    ensures
        r == texts(v@).take(upto as int).contains(t@),
{
    let mut i: usize = 0;
    while i < upto
        invariant
            i <= upto <= v@.len(),
            forall|j: int| 0 <= j < i ==> texts(v@).take(upto as int)[j] != t@,
        decreases upto - i,
    {
        if same_text(v[i].as_str(), t) {
            assert(texts(v@).take(upto as int)[i as int] == t@);
            return true;
        }
        i += 1;
    }
    false
}

/// What adding one more entity does to the sets.
proof fn lemma_one_more(a: Seq<Seq<char>>, k: int, b: Set<Seq<char>>)
    requires
        0 <= k < a.len(),
        b.finite(),
    ensures
        ({
            let now = a.take(k).to_set();
            let next = a.take(k + 1).to_set();
            let x = a[k];
            &&& now.finite()
            &&& next == now.insert(x)
            &&& now.contains(x) <==> a.take(k).contains(x)
            &&& next.len() == now.len() + (if now.contains(x) {
                0int
            } else {
                1
            })
            &&& next.intersect(b).len() == now.intersect(b).len() + (if now.contains(x)
                || !b.contains(x) {
                0int
            } else {
                1
            })
        }),
{
    broadcast use vstd::seq_lib::seq_to_set_is_finite;

    let now = a.take(k).to_set();
    let next = a.take(k + 1).to_set();
    let x = a[k];
    assert forall|t: Seq<char>| next.contains(t) <==> now.insert(x).contains(t) by {
        if a.take(k).contains(t) {
            let j = choose|j: int| 0 <= j < k && a.take(k)[j] == t;
            assert(a.take(k + 1)[j] == t);
        }
        assert(a.take(k + 1)[k] == x);
        if a.take(k + 1).contains(t) {
            let then = a.take(k + 1);
            let j = choose|j: int| 0 <= j < then.len() && then[j] == t;
            if j < k {
                assert(a.take(k)[j] == t);
            }
        }
    }
    assert(next =~= now.insert(x));
    if b.contains(x) {
        assert(next.intersect(b) =~= now.intersect(b).insert(x));
    } else {
        assert(next.intersect(b) =~= now.intersect(b));
    }
}

/// How many entities two lists have in common and together, each counted once.
pub fn overlap(a: &Vec<String>, b: &Vec<String>) -> (r: (usize, usize))
    requires
        a@.len() + b@.len() <= usize::MAX,
    ensures
        r.0 == in_common(texts(a@), texts(b@)),
        r.1 == in_all(texts(a@), texts(b@)),
{
    broadcast use vstd::seq_lib::seq_to_set_is_finite;

    let ghost x = texts(a@);
    let ghost y = texts(b@);
    let mut common: usize = 0;
    let mut distinct: usize = 0;
    let mut i: usize = 0;
    proof {
        assert(x.take(0).to_set() =~= Set::empty());
        assert(x.take(0).to_set().intersect(y.to_set()) =~= Set::empty());
        assert(y.take(y.len() as int) =~= y);
    }
    while i < a.len()
        invariant
            i <= a@.len(),
            x == texts(a@),
            y == texts(b@),
            y.take(y.len() as int) == y,
            common <= distinct <= i,
            distinct == x.take(i as int).to_set().len(),
            common == x.take(i as int).to_set().intersect(y.to_set()).len(),
        decreases a@.len() - i,
    {
        proof {
            lemma_one_more(x, i as int, y.to_set());
        }
        if !has_entity(a, i, a[i].as_str()) {
            distinct += 1;
            if has_entity(b, b.len(), a[i].as_str()) {
                common += 1;
            }
        }
        i += 1;
    }
    let mut others: usize = 0;
    let mut j: usize = 0;
    proof {
        assert(x.take(i as int) =~= x);
        assert(y.take(0).to_set() =~= Set::empty());
    }
    while j < b.len()
        invariant
            j <= b@.len(),
            y == texts(b@),
            others <= j,
            others == y.take(j as int).to_set().len(),
        decreases b@.len() - j,
    {
        proof {
            lemma_one_more(y, j as int, Set::empty());
        }
        if !has_entity(b, j, b[j].as_str()) {
            others += 1;
        }
        j += 1;
    }
    proof {
        assert(y.take(j as int) =~= y);
        vstd::set_lib::lemma_set_intersect_union_lens(x.to_set(), y.to_set());
    }
    (common, distinct + others - common)
}

/// Whether two memories have enough entities in common: two fifths of what they
/// have together.
pub open spec fn overlaps(a: Seq<Seq<char>>, b: Seq<Seq<char>>) -> bool {
    a.len() > 0 && b.len() > 0 && 5 * in_common(a, b) >= 2 * in_all(a, b)
}

/// The edge between two memories for their entities, if any.
pub open spec fn overlap_edge(a: InputView, b: InputView) -> Seq<GraphEdge> {
    if overlaps(a.entities, b.entities) {
        seq![
            GraphEdge {
                source: a.id,
                target: b.id,
                kind: EdgeKind::Entity,
                part: in_common(a.entities, b.entities) as usize,
                whole: in_all(a.entities, b.entities) as usize,
            },
        ]
    } else {
        Seq::empty()
    }
}

/// The edges from memory `i` to those from `i + 1` up to `upto`.
pub open spec fn overlap_row(v: Seq<InputView>, i: int, upto: int) -> Seq<GraphEdge>
    decreases upto - i,
{
    if upto <= i + 1 {
        Seq::empty()
    } else {
        overlap_row(v, i, upto - 1) + overlap_edge(v[i], v[upto - 1])
    }
}

/// The edges of the first `n` memories, each with all that come after it.
pub open spec fn overlap_rows(v: Seq<InputView>, n: int) -> Seq<GraphEdge>
    decreases n,
{
    if n <= 0 {
        Seq::empty()
    } else {
        overlap_rows(v, n - 1) + overlap_row(v, n - 1, v.len() as int)
    }
}

/// The lists are short enough to be counted together.
pub open spec fn countable(v: Seq<GraphInput>) -> bool {
    forall|i: int| 0 <= i < v.len() ==> (#[trigger] v[i]).entities@.len() <= usize::MAX / 2
}

/// Joins the memories that have enough entities in common.
pub fn entity_overlap_edges(items: &Vec<GraphInput>) -> (r: Vec<GraphEdge>)
    requires
        countable(items@),
    ensures
        r@ == overlap_rows(inputs_view(items@), items@.len() as int),
{
    let ghost all = inputs_view(items@);
    let n: usize = items.len();
    let mut out: Vec<GraphEdge> = Vec::new();
    let mut i: usize = 0;
    while i < n
        invariant
            i <= n == items@.len(),
            countable(items@),
            all == inputs_view(items@),
            out@ == overlap_rows(all, i as int),
        decreases n - i,
    {
        let ghost before = out@;
        let mut j: usize = i + 1;
        assert(before + overlap_row(all, i as int, i + 1) =~= before);
        while j < n
            invariant
                i < j <= n == items@.len(),
                countable(items@),
                all == inputs_view(items@),
                out@ == before + overlap_row(all, i as int, j as int),
            decreases n - j,
        {
            let a = &items[i];
            let b = &items[j];
            let ghost was = out@;
            if a.entities.len() > 0 && b.entities.len() > 0 {
                assert(items@[i as int].entities@.len() <= usize::MAX / 2);
                assert(items@[j as int].entities@.len() <= usize::MAX / 2);
                let (part, whole) = overlap(&a.entities, &b.entities);
                if 5 * part as u128 >= 2 * whole as u128 {
                    out.push(
                        GraphEdge {
                            source: a.id,
                            target: b.id,
                            kind: EdgeKind::Entity,
                            part,
                            whole,
                        },
                    );
                }
            }
            proof {
                assert(all[i as int] == a@ && all[j as int] == b@);
                assert(out@ =~= was + overlap_edge(all[i as int], all[j as int]));
                assert(out@ =~= before + overlap_row(all, i as int, j + 1));
            }
            j += 1;
        }
        i += 1;
    }
    out
}

// ---------------------------------------------------------------------------
// Threads
// ---------------------------------------------------------------------------
/// The threads of the memories, each once, in the order they first occur.
pub open spec fn threads(v: Seq<InputView>) -> Seq<Seq<char>>
    decreases v.len(),
{
    if v.len() == 0 {
        Seq::empty()
    } else {
        let front = threads(v.drop_last());
        match v.last().thread_id {
            Some(t) => if front.contains(t) {
                front
            } else {
                front.push(t)
            },
            None => front,
        }
    }
}

/// A memory of a thread: its id and the time it was made.
pub type Stop = (u128, Timestamp);

/// A memory in its place among others in the order of time, behind those of the
/// same time.
pub open spec fn stop_placed(v: Seq<Stop>, stop: Stop) -> Seq<Stop>
    decreases v.len(),
{
    if v.len() == 0 || v.last().1.up_to(stop.1) {
        v.push(stop)
    } else {
        stop_placed(v.drop_last(), stop).push(v.last())
    }
}

/// The memories of a thread in the order of time; those of the same time in the
/// order that they are listed in.
pub open spec fn thread_stops(v: Seq<InputView>, t: Seq<char>) -> Seq<Stop>
    decreases v.len(),
{
    if v.len() == 0 {
        Seq::empty()
    } else {
        let front = thread_stops(v.drop_last(), t);
        if v.last().thread_id == Some(t) {
            stop_placed(front, (v.last().id, v.last().created_at))
        } else {
            front
        }
    }
}

/// Two memories that follow each other in a thread, joined.
pub open spec fn neighbour_edge(source: u128, target: u128) -> GraphEdge {
    GraphEdge { source, target, kind: EdgeKind::Session, part: 1, whole: 2 }
}

/// Each of the memories joined with the next one.
pub open spec fn neighbours(stops: Seq<Stop>) -> Seq<GraphEdge>
    decreases stops.len(),
{
    if stops.len() < 2 {
        Seq::empty()
    } else {
        neighbours(stops.drop_last()).push(
            neighbour_edge(stops[stops.len() - 2].0, stops.last().0),
        )
    }
}

/// The neighbours of each thread in turn.
pub open spec fn thread_edges(v: Seq<InputView>, ts: Seq<Seq<char>>) -> Seq<GraphEdge>
    decreases ts.len(),
{
    if ts.len() == 0 {
        Seq::empty()
    } else {
        thread_edges(v, ts.drop_last()) + neighbours(thread_stops(v, ts.last()))
    }
}

fn list_threads(items: &Vec<GraphInput>) -> (r: Vec<String>)
    ensures
        texts(r@) == threads(inputs_view(items@)),
{
    let ghost all = inputs_view(items@);
    let mut out: Vec<String> = Vec::new();
    let mut i: usize = 0;
    assert(texts(out@) =~= threads(all.take(0)));
    while i < items.len()
        invariant
            i <= items@.len(),
            all == inputs_view(items@),
            texts(out@) == threads(all.take(i as int)),
        decreases items@.len() - i,
    {
        let ghost before = texts(out@);
        assert(all.take(i + 1).drop_last() =~= all.take(i as int));
        assert(all.take(i + 1).last() == items@[i as int]@);
        if let Some(t) = &items[i].thread_id {
            assert(texts(out@).take(out@.len() as int) =~= before);
            if !has_entity(&out, out.len(), t.as_str()) {
                out.push(t.clone());
                assert(texts(out@) =~= before.push(t@));
            }
        }
        i += 1;
    }
    assert(all.take(i as int) =~= all);
    out
}

proof fn lemma_stop_placed(v: Seq<Stop>, stop: Stop, p: int)
    requires
        0 <= p <= v.len(),
        p > 0 ==> v[p - 1].1.up_to(stop.1),
        forall|j: int| p <= j < v.len() ==> !(#[trigger] v[j]).1.up_to(stop.1),
    ensures
        stop_placed(v, stop) == v.insert(p, stop),
    decreases v.len(),
{
    if p == v.len() {
        assert(v.insert(p, stop) =~= v.push(stop));
    } else {
        assert(!v[v.len() - 1].1.up_to(stop.1));
        lemma_stop_placed(v.drop_last(), stop, p);
        assert(v.drop_last().insert(p, stop).push(v.last()) =~= v.insert(p, stop));
    }
}

fn list_thread_stops(items: &Vec<GraphInput>, t: &str) -> (r: Vec<Stop>)
    ensures
        r@ == thread_stops(inputs_view(items@), t@),
{
    let ghost all = inputs_view(items@);
    let mut out: Vec<Stop> = Vec::new();
    let mut i: usize = 0;
    while i < items.len()
        invariant
            i <= items@.len(),
            all == inputs_view(items@),
            out@ == thread_stops(all.take(i as int), t@),
        decreases items@.len() - i,
    {
        assert(all.take(i + 1).drop_last() =~= all.take(i as int));
        assert(all.take(i + 1).last() == items@[i as int]@);
        let mine = match &items[i].thread_id {
            Some(x) => same_text(x.as_str(), t),
            None => false,
        };
        if mine {
            let stop: Stop = (items[i].id, items[i].created_at);
            let mut p: usize = out.len();
            while p > 0 && !out[p - 1].1.is_up_to(&stop.1)
                invariant
                    p <= out@.len(),
                    forall|j: int| p <= j < out@.len() ==> !(#[trigger] out@[j]).1.up_to(stop.1),
                decreases p,
            {
                p -= 1;
            }
            proof {
                lemma_stop_placed(out@, stop, p as int);
            }
            out.insert(p, stop);
        }
        i += 1;
    }
    assert(all.take(i as int) =~= all);
    out
}

fn append_neighbours(out: &mut Vec<GraphEdge>, stops: &Vec<Stop>)
    ensures
        final(out)@ == old(out)@ + neighbours(stops@),
{
    let ghost head = out@;
    if stops.len() < 2 {
        assert(head + neighbours(stops@) =~= head);
        return ;
    }
    let mut i: usize = 1;
    assert(head + neighbours(stops@.take(1)) =~= head);
    while i < stops.len()
        invariant
            1 <= i <= stops@.len(),
            out@ == head + neighbours(stops@.take(i as int)),
        decreases stops@.len() - i,
    {
        out.push(
            GraphEdge {
                source: stops[i - 1].0,
                target: stops[i].0,
                kind: EdgeKind::Session,
                part: 1,
                whole: 2,
            },
        );
        assert(stops@.take(i + 1).drop_last() =~= stops@.take(i as int));
        assert(out@ =~= head + neighbours(stops@.take(i + 1)));
        i += 1;
    }
    assert(stops@.take(i as int) =~= stops@);
}

/// Joins the memories of each thread, each with the next one in time.
pub fn same_thread_edges(items: &Vec<GraphInput>) -> (r: Vec<GraphEdge>)
    ensures
        r@ == thread_edges(inputs_view(items@), threads(inputs_view(items@))),
{
    let ghost all = inputs_view(items@);
    let ts = list_threads(items);
    let ghost keys = threads(all);
    let mut out: Vec<GraphEdge> = Vec::new();
    let mut i: usize = 0;
    while i < ts.len()
        invariant
            i <= ts@.len(),
            all == inputs_view(items@),
            keys == texts(ts@),
            out@ == thread_edges(all, keys.take(i as int)),
        decreases ts@.len() - i,
    {
        assert(keys.take(i + 1).drop_last() =~= keys.take(i as int));
        assert(keys.take(i + 1).last() == ts@[i as int]@);
        let stops = list_thread_stops(items, ts[i].as_str());
        append_neighbours(&mut out, &stops);
        i += 1;
    }
    assert(keys.take(i as int) =~= keys);
    out
}

/// Memories in the order of time.
pub open spec fn in_time_order(v: Seq<Stop>) -> bool {
    forall|i: int, j: int| 0 <= i < j < v.len() ==> (#[trigger] v[i]).1.up_to((#[trigger] v[j]).1)
}

proof fn lemma_stop_placed_keeps(v: Seq<Stop>, stop: Stop)
    requires
        in_time_order(v),
    ensures
        in_time_order(stop_placed(v, stop)),
        stop_placed(v, stop).to_multiset() == v.to_multiset().insert(stop),
        forall|i: int|
            0 <= i < stop_placed(v, stop).len() ==> #[trigger] stop_placed(v, stop)[i] == stop
                || v.contains(stop_placed(v, stop)[i]),
    decreases v.len(),
{
    broadcast use vstd::seq_lib::group_to_multiset_ensures;

    let out = stop_placed(v, stop);
    if v.len() == 0 || v.last().1.up_to(stop.1) {
        assert forall|i: int, j: int| 0 <= i < j < out.len() implies (#[trigger] out[i]).1.up_to(
            (#[trigger] out[j]).1,
        ) by {
            assert(out[i] == v[i]);
            if j < v.len() {
                assert(out[j] == v[j]);
            } else if i < v.len() - 1 {
                assert(v[i].1.up_to(v[v.len() - 1].1));
            }
        }
        assert forall|i: int| 0 <= i < out.len() implies #[trigger] out[i] == stop || v.contains(
            out[i],
        ) by {
            if i < v.len() {
                assert(out[i] == v[i]);
            }
        }
    } else {
        let front = v.drop_last();
        lemma_stop_placed_keeps(front, stop);
        let p = stop_placed(front, stop);
        assert forall|i: int, j: int| 0 <= i < j < out.len() implies (#[trigger] out[i]).1.up_to(
            (#[trigger] out[j]).1,
        ) by {
            assert(out[i] == p[i]);
            if j < p.len() {
                assert(out[j] == p[j]);
            } else if p[i] != stop {
                assert(front.contains(p[i]));
                let k = choose|k: int| 0 <= k < front.len() && front[k] == p[i];
                assert(v[k].1.up_to(v[v.len() - 1].1));
            }
        }
        assert(v =~= front.push(v.last()));
        assert(out.to_multiset() =~= v.to_multiset().insert(stop));
        assert forall|i: int| 0 <= i < out.len() implies #[trigger] out[i] == stop || v.contains(
            out[i],
        ) by {
            if i < p.len() {
                assert(out[i] == p[i]);
                if p[i] != stop {
                    let k = choose|k: int| 0 <= k < front.len() && front[k] == p[i];
                    assert(v[k] == p[i]);
                }
            } else {
                assert(v[v.len() - 1] == out[i]);
            }
        }
    }
}

/// The memories of a thread that are listed, in the order of the list.
pub open spec fn listed_stops(v: Seq<InputView>, t: Seq<char>) -> Seq<Stop>
    decreases v.len(),
{
    if v.len() == 0 {
        Seq::empty()
    } else {
        let front = listed_stops(v.drop_last(), t);
        if v.last().thread_id == Some(t) {
            front.push((v.last().id, v.last().created_at))
        } else {
            front
        }
    }
}

/// A thread is walked in the order of time, through each of its memories once.
pub proof fn law_threads_are_walked_in_time(v: Seq<InputView>, t: Seq<char>)
    ensures
        in_time_order(thread_stops(v, t)),
        thread_stops(v, t).to_multiset() == listed_stops(v, t).to_multiset(),
    decreases v.len(),
{
    broadcast use vstd::seq_lib::group_to_multiset_ensures;

    if v.len() > 0 {
        let less = v.drop_last();
        law_threads_are_walked_in_time(less, t);
        if v.last().thread_id == Some(t) {
            lemma_stop_placed_keeps(
                thread_stops(less, t),
                (v.last().id, v.last().created_at),
            );
        }
    }
}

proof fn lemma_listed_in_time(v: Seq<InputView>, t: Seq<char>)
    requires
        forall|i: int| 0 <= i < v.len() ==> (#[trigger] v[i]).thread_id == Some(t),
        forall|i: int|
            1 <= i < v.len() ==> v[i - 1].created_at.up_to((#[trigger] v[i]).created_at),
    ensures
        thread_stops(v, t) == Seq::new(v.len(), |i: int| (v[i].id, v[i].created_at)),
        threads(v) == (if v.len() == 0 {
            Seq::empty()
        } else {
            seq![t]
        }),
    decreases v.len(),
{
    let all = Seq::new(v.len(), |i: int| (v[i].id, v[i].created_at));
    if v.len() > 0 {
        let less = v.drop_last();
        assert forall|i: int| 0 <= i < less.len() implies (#[trigger] less[i]).thread_id == Some(
            t,
        ) by {
            assert(less[i] == v[i]);
        }
        assert forall|i: int| 1 <= i < less.len() implies less[i - 1].created_at.up_to(
            (#[trigger] less[i]).created_at,
        ) by {
            assert(less[i] == v[i]);
        }
        lemma_listed_in_time(less, t);
        let n = v.len() - 1;
        assert(v.last() == v[n]);
        assert(v[n].thread_id == Some(t));
        let front = Seq::new(less.len(), |i: int| (less[i].id, less[i].created_at));
        if n > 0 {
            assert(v[n - 1].created_at.up_to(v[n].created_at));
            assert(threads(less)[0] == t);
            assert(threads(less).contains(t));
        } else {
            assert(threads(v) =~= seq![t]);
        }
        assert(front.push((v.last().id, v.last().created_at)) =~= all);
    } else {
        assert(all =~= Seq::empty());
    }
}

proof fn lemma_neighbours(stops: Seq<Stop>)
    ensures
        neighbours(stops) == Seq::new(
            (if stops.len() < 2 {
                0
            } else {
                (stops.len() - 1) as nat
            }),
            |i: int| neighbour_edge(stops[i].0, stops[i + 1].0),
        ),
    decreases stops.len(),
{
    if stops.len() >= 2 {
        lemma_neighbours(stops.drop_last());
    }
    assert(neighbours(stops) =~= Seq::new(
        (if stops.len() < 2 {
            0
        } else {
            (stops.len() - 1) as nat
        }),
        |i: int| neighbour_edge(stops[i].0, stops[i + 1].0),
    ));
}

/// Only neighbours in time are joined: where the memories of one thread are
/// listed in the order of time, the edges lead from each to the next one, and
/// there are no others.
pub proof fn law_neighbours_in_time_are_joined(v: Seq<InputView>, t: Seq<char>)
    requires
        v.len() >= 1,
        forall|i: int| 0 <= i < v.len() ==> (#[trigger] v[i]).thread_id == Some(t),
        forall|i: int|
            1 <= i < v.len() ==> v[i - 1].created_at.up_to((#[trigger] v[i]).created_at),
    ensures
        thread_edges(v, threads(v)) == Seq::new(
            (v.len() - 1) as nat,
            |i: int| neighbour_edge(v[i].id, v[i + 1].id),
        ),
{
    lemma_listed_in_time(v, t);
    lemma_neighbours(thread_stops(v, t));
    let ts = seq![t];
    assert(ts.drop_last() =~= Seq::empty());
    assert(thread_edges(v, ts.drop_last()) =~= Seq::empty());
    assert(thread_edges(v, ts) =~= neighbours(thread_stops(v, t)));
    assert(thread_edges(v, threads(v)) =~= Seq::new(
        (v.len() - 1) as nat,
        |i: int| neighbour_edge(v[i].id, v[i + 1].id),
    ));
}

/// All the edges of the map.
pub open spec fn all_edges(v: Seq<InputView>) -> Seq<GraphEdge> {
    chain_edges(v) + overlap_rows(v, v.len() as int) + thread_edges(v, threads(v))
}

/// The edges of the map: supersessions, common entities, threads.
pub fn build_edges(items: &Vec<GraphInput>) -> (r: Vec<GraphEdge>)
    requires
        countable(items@),
    ensures
        r@ == all_edges(inputs_view(items@)),
{
    let mut edges = supersede_edges(items);
    let mut more = entity_overlap_edges(items);
    edges.append(&mut more);
    let mut rest = same_thread_edges(items);
    edges.append(&mut rest);
    edges
}

// ---------------------------------------------------------------------------
// Random numbers
// ---------------------------------------------------------------------------
/// One step of the generator.
pub open spec fn shifted(x: u64) -> u64 {
    let a = x ^ (x << 13u64);
    let b = a ^ (a >> 7u64);
    b ^ (b << 17u64)
}

/// The next number; the same seed gives the same numbers.
pub fn next_rand(state: &mut u64) -> (r: u64)
    ensures
        r == shifted(*old(state)),
        *final(state) == r,
{
    let mut x: u64 = *state;
    x = x ^ (x << 13u64);
    x = x ^ (x >> 7u64);
    x = x ^ (x << 17u64);
    *state = x;
    x
}

/// The generator never falls to zero, from which it could not rise.
pub proof fn law_generator_stays_alive(x: u64)
    requires
        x != 0,
    ensures
        shifted(x) != 0,
{
    assert({
        let a = x ^ (x << 13u64);
        let b = a ^ (a >> 7u64);
        (b ^ (b << 17u64)) != 0
    }) by (bit_vector)
        requires
            x != 0,
    ;
}

/// Joined memories belong to the same map: an edge for common entities joins
/// two of the memories, the earlier one first.
pub proof fn law_overlap_joins_inputs(v: Seq<InputView>, n: int, k: int)
    requires
        0 <= n <= v.len(),
        0 <= k < overlap_rows(v, n).len(),
    ensures
        exists|i: int, j: int|
            0 <= i < j < v.len() && overlap_rows(v, n)[k].source == (#[trigger] v[i]).id
                && overlap_rows(v, n)[k].target == (#[trigger] v[j]).id && overlaps(
                v[i].entities,
                v[j].entities,
            ),
    decreases n,
{
    let front = overlap_rows(v, n - 1);
    if k < front.len() {
        law_overlap_joins_inputs(v, n - 1, k);
    } else {
        lemma_row_joins(v, n - 1, v.len() as int, k - front.len());
    }
}

proof fn lemma_row_joins(v: Seq<InputView>, i: int, upto: int, k: int)
    requires
        0 <= i < v.len(),
        upto <= v.len(),
        0 <= k < overlap_row(v, i, upto).len(),
    ensures
        exists|j: int|
            i < j < v.len() && overlap_row(v, i, upto)[k].source == v[i].id && overlap_row(
                v,
                i,
                upto,
            )[k].target == (#[trigger] v[j]).id && overlaps(v[i].entities, v[j].entities),
    decreases upto - i,
{
    let front = overlap_row(v, i, upto - 1);
    if k < front.len() {
        lemma_row_joins(v, i, upto - 1, k);
    } else {
        assert(overlap_row(v, i, upto)[k] == overlap_edge(v[i], v[upto - 1])[k - front.len()]);
        assert(v[upto - 1].id == v[upto - 1].id);
    }
}

/// A memory as it stands in the map.
pub fn graph_input(r: &MemoryRow) -> (g: GraphInput)
    ensures
        g@.id == r.id,
        g@.entities == texts(r.entities@),
        g@.thread_id == opt_text(r.session_id),
        g@.supersedes == r.supersedes,
        g@.created_at == r.created_at,
{
    GraphInput {
        id: r.id,
        entities: crate::text::clone_texts(&r.entities),
        thread_id: clone_text(&r.session_id),
        supersedes: r.supersedes,
        created_at: r.created_at,
    }
}

// ---------------------------------------------------------------------------
// What the edges are for
// ---------------------------------------------------------------------------
/// Every memory that took another's place is joined with it, from the old one to
/// the new one, as strongly as can be; one that did not adds no such edge.
pub proof fn law_every_supersession_is_an_edge(v: Seq<InputView>, m: InputView)
    ensures
        chain_edges(Seq::empty()) == Seq::<GraphEdge>::empty(),
        m.supersedes is None ==> chain_edges(v.push(m)) == chain_edges(v),
        m.supersedes matches Some(old) ==> {
            let e = chain_edges(v.push(m)).last();
            &&& chain_edges(v.push(m)).drop_last() == chain_edges(v)
            &&& chain_edges(v.push(m)).len() == chain_edges(v).len() + 1
            &&& e.source == old && e.target == m.id
            &&& e.kind == EdgeKind::Supersede
            &&& e.part == e.whole && e.whole > 0
        },
{
    assert(v.push(m).drop_last() =~= v);
    assert(v.push(m).last() == m);
    if m.supersedes is Some {
        assert(chain_edges(v.push(m)).drop_last() =~= chain_edges(v));
    }
}

/// Two memories are joined by what they have in common exactly where that is two
/// fifths or more of all that they name, and as strongly as that share; whichever
/// comes first makes no difference to that, and one that names nothing is joined
/// with none.
pub proof fn law_common_entities_join(a: InputView, b: InputView)
    ensures
        overlaps(a.entities, b.entities) == overlaps(b.entities, a.entities),
        overlaps(a.entities, b.entities) <==> a.entities.len() > 0 && b.entities.len() > 0 && 10
            * a.entities.to_set().intersect(b.entities.to_set()).len() >= 4
            * a.entities.to_set().union(b.entities.to_set()).len(),
        overlap_edge(a, b).len() == (if overlaps(a.entities, b.entities) {
            1nat
        } else {
            0
        }),
        overlaps(a.entities, b.entities) ==> {
            let e = overlap_edge(a, b)[0];
            &&& e.source == a.id && e.target == b.id
            &&& e.kind == EdgeKind::Entity
            &&& in_common(a.entities, b.entities) <= usize::MAX ==> e.part == in_common(
                a.entities,
                b.entities,
            )
            &&& in_all(a.entities, b.entities) <= usize::MAX ==> e.whole == in_all(
                a.entities,
                b.entities,
            )
        },
{
    let x = a.entities.to_set();
    let y = b.entities.to_set();
    assert(x.intersect(y) =~= y.intersect(x));
    assert(x.union(y) =~= y.union(x));
}

/// No pair of memories with enough in common is left out.
pub proof fn law_every_overlap_is_an_edge(v: Seq<InputView>, n: int, i: int, j: int)
    requires
        0 <= i < n <= v.len(),
        i < j < v.len(),
        overlaps(v[i].entities, v[j].entities),
    ensures
        overlap_rows(v, n).contains(overlap_edge(v[i], v[j])[0]),
    decreases n,
{
    let e = overlap_edge(v[i], v[j])[0];
    let front = overlap_rows(v, n - 1);
    let row = overlap_row(v, n - 1, v.len() as int);
    if i < n - 1 {
        law_every_overlap_is_an_edge(v, n - 1, i, j);
        let k = choose|k: int| 0 <= k < front.len() && front[k] == e;
        assert(overlap_rows(v, n)[k] == e);
    } else {
        lemma_row_has(v, i, v.len() as int, j);
        let k = choose|k: int| 0 <= k < row.len() && row[k] == e;
        assert(overlap_rows(v, n)[front.len() + k] == e);
    }
}

proof fn lemma_row_has(v: Seq<InputView>, i: int, upto: int, j: int)
    requires
        0 <= i < j < upto <= v.len(),
        overlaps(v[i].entities, v[j].entities),
    ensures
        overlap_row(v, i, upto).contains(overlap_edge(v[i], v[j])[0]),
    decreases upto - i,
{
    let e = overlap_edge(v[i], v[j])[0];
    let front = overlap_row(v, i, upto - 1);
    if j == upto - 1 {
        assert(overlap_row(v, i, upto)[front.len() as int] == e);
    } else {
        lemma_row_has(v, i, upto - 1, j);
        let k = choose|k: int| 0 <= k < front.len() && front[k] == e;
        assert(overlap_row(v, i, upto)[k] == e);
    }
}

/// The map shows supersessions, overlaps and threads, all of them. Each thread is
/// looked at once, none is left out, and an edge of a thread is half as strong as
/// one of a supersession.
pub proof fn law_map_shows_every_kind_of_edge(v: Seq<InputView>, i: int)
    ensures
        all_edges(v) == chain_edges(v) + overlap_rows(v, v.len() as int) + thread_edges(
            v,
            threads(v),
        ),
        0 <= i < v.len() && v[i].thread_id is Some ==> threads(v).contains(
            v[i].thread_id->Some_0,
        ),
        threads(v).no_duplicates(),
        forall|a: u128, b: u128|
            ({
                let e = #[trigger] neighbour_edge(a, b);
                e.source == a && e.target == b && e.kind == EdgeKind::Session && 2 * e.part == e.whole
            }),
    decreases v.len(),
{
    if v.len() > 0 {
        let less = v.drop_last();
        law_map_shows_every_kind_of_edge(less, i);
        if 0 <= i < v.len() && v[i].thread_id is Some {
            let t = v[i].thread_id->Some_0;
            if i < less.len() {
                assert(less[i] == v[i]);
                let k = choose|k: int| 0 <= k < threads(less).len() && threads(less)[k] == t;
                assert(threads(v)[k] == t);
            } else if !threads(less).contains(t) {
                assert(threads(v)[threads(less).len() as int] == t);
            }
        }
    }
}

} // verus!
