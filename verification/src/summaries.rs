//! Summaries over the curated layer: which level is built next, what a summary
//! says, and how it is cut.
use vstd::prelude::*;
use vstd::string::*;
use vstd::utf8::*;

use crate::bits::{greater, is_nan, is_number, max_bits, rank, rank_of, TWO_FIFTHS};
use crate::text::{
    blank, from_range, is_blank, join, joined, lemma_trim_end, same_text, texts, to_chars, trim,
    trim_end, trim_end_text, trimmed,
};

verus! {

/// How many bytes an extractive summary may have.
pub const EXTRACTIVE_BUDGET: usize = 600;

/// How a tree of summaries is built.
#[derive(Debug, Clone, Copy, PartialEq, Eq, Structural)]
pub struct SummaryConfig {
    /// A level with at most this many nodes is the top.
    pub fanout_stop: usize,
    /// At most this many levels are built.
    pub max_levels: i32,
    /// The bits of the overlap from which two nodes belong together.
    pub cluster_jaccard: u32,
}

impl Default for SummaryConfig {
    fn default() -> (r: SummaryConfig)
        ensures
            r == (SummaryConfig { fanout_stop: 5, max_levels: 5, cluster_jaccard: TWO_FIFTHS }),
    {
        SummaryConfig { fanout_stop: 5, max_levels: 5, cluster_jaccard: TWO_FIFTHS }
    }
}

/// What was built.
#[derive(Debug, Clone, Copy, PartialEq, Eq, Structural)]
pub struct SummaryStats {
    pub summaries: i64,
    pub max_level: i32,
}

impl Default for SummaryStats {
    fn default() -> (r: SummaryStats)
        ensures
            r == (SummaryStats { summaries: 0, max_level: 0 }),
    {
        SummaryStats { summaries: 0, max_level: 0 }
    }
}

/// A node to be summarised. `importance` holds the bits of a number.
#[derive(Debug, Clone)]
pub struct LevelNode {
    pub id: u128,
    pub content: String,
    pub importance: Option<u32>,
    pub entities: Vec<String>,
}

// ---------------------------------------------------------------------------
// Building the levels
// ---------------------------------------------------------------------------
/// A build under way: the level that is looked at, and what was built so far.
#[derive(Debug, Clone, Copy, PartialEq, Eq, Structural)]
pub struct SummaryBuild {
    pub cfg: SummaryConfig,
    pub level: i32,
    pub stats: SummaryStats,
}

/// What came back from the last action.
#[derive(Debug, Clone)]
pub enum SummaryEvent {
    /// The level has this many nodes.
    Loaded(usize),
    /// The nodes that belong together, by their places.
    Clustered(Vec<Vec<usize>>),
    /// The summaries of that many clusters were written.
    Built(usize),
}

/// What to do next.
#[derive(Debug, Clone)]
pub enum SummaryAction {
    /// Read the nodes of a level.
    Load(i32),
    /// Find the nodes that belong together.
    Cluster,
    /// Write a summary at `level` for each of the clusters.
    Build { level: i32, clusters: Vec<Vec<usize>> },
    /// Nothing is left to build.
    Stop(SummaryStats),
}

/// Clusters, as sequences.
pub open spec fn clusters_view(v: Seq<Vec<usize>>) -> Seq<Seq<usize>> {
    v.map_values(|c: Vec<usize>| c@)
}

/// The clusters that are worth a summary: those of two nodes or more.
pub open spec fn worth_building(v: Seq<Seq<usize>>) -> Seq<Seq<usize>> {
    v.filter(|c: Seq<usize>| c.len() >= 2)
}

/// A level is read while the depth allows it.
pub open spec fn load_or_stop(b: SummaryBuild, action: SummaryAction) -> bool {
    if b.level >= b.cfg.max_levels {
        action == SummaryAction::Stop(b.stats)
    } else {
        action == SummaryAction::Load(b.level)
    }
}

/// The step from a state and what came back to the next state and action.
pub open spec fn summary_step(
    b: SummaryBuild,
    event: SummaryEvent,
    next: SummaryBuild,
    action: SummaryAction,
) -> bool {
    match event {
        SummaryEvent::Loaded(n) => next == b && if n <= b.cfg.fanout_stop {
            action == SummaryAction::Stop(b.stats)
        } else {
            action == SummaryAction::Cluster
        },
        SummaryEvent::Clustered(clusters) => {
            let worth = worth_building(clusters_view(clusters@));
            next == b && if worth.len() == 0 {
                action == SummaryAction::Stop(b.stats)
            } else {
                action matches SummaryAction::Build { level, clusters: c } && level == b.level + 1
                    && clusters_view(c@) == worth
            }
        },
        SummaryEvent::Built(count) => if count == 0 {
            next == b && action == SummaryAction::Stop(b.stats)
        } else {
            &&& next.cfg == b.cfg
            &&& next.level == b.level + 1
            &&& next.stats.summaries == b.stats.summaries + count
            &&& next.stats.max_level == b.level + 1
            &&& load_or_stop(next, action)
        },
    }
}

/// What must hold for a step: the depth is not reached, and the tally has room.
pub open spec fn can_step(b: SummaryBuild, event: SummaryEvent) -> bool {
    &&& b.level < b.cfg.max_levels
    &&& event matches SummaryEvent::Built(count) ==> b.stats.summaries + count <= i64::MAX
}

/// Begins a build at the lowest level.
pub fn build_summaries_with(cfg: SummaryConfig) -> (r: (SummaryBuild, SummaryAction))
    ensures
        r.0.cfg == cfg,
        r.0.level == 0,
        r.0.stats == (SummaryStats { summaries: 0, max_level: 0 }),
        load_or_stop(r.0, r.1),
{
    let b = SummaryBuild { cfg, level: 0, stats: SummaryStats::default() };
    if b.level >= cfg.max_levels {
        (b, SummaryAction::Stop(b.stats))
    } else {
        (b, SummaryAction::Load(b.level))
    }
}

/// Begins a build as it is done by default.
pub fn build_summaries() -> (r: (SummaryBuild, SummaryAction))
    ensures
        r.0.cfg == (SummaryConfig { fanout_stop: 5, max_levels: 5, cluster_jaccard: TWO_FIFTHS }),
        r.0.level == 0,
        r.0.stats == (SummaryStats { summaries: 0, max_level: 0 }),
        r.1 == SummaryAction::Load(0),
{
    build_summaries_with(SummaryConfig::default())
}

/// The users whose trees a build is for, each built by itself: the one that is
/// named, or all that are known where it stands for all.
pub fn tree_users(user_id: &str, all_users: &str, known: Vec<String>) -> (r: Vec<String>)
    ensures
        texts(r@) == (if user_id@ == all_users@ {
            texts(known@)
        } else {
            seq![user_id@]
        }),
{
    if same_text(user_id, all_users) {
        return known;
    }
    let mut one: Vec<String> = Vec::new();
    one.push(user_id.to_owned());
    assert(texts(one@) =~= seq![user_id@]);
    one
}

/// What two builds come to together; the count stops at the greatest that it can
/// hold.
pub fn together(a: SummaryStats, b: SummaryStats) -> (r: SummaryStats)
    requires
        a.summaries >= 0,
        b.summaries >= 0,
    ensures
        r.summaries == (if a.summaries + b.summaries > i64::MAX {
            i64::MAX as int
        } else {
            a.summaries + b.summaries
        }),
        r.max_level == (if a.max_level < b.max_level {
            b.max_level
        } else {
            a.max_level
        }),
{
    let summaries: i64 = if a.summaries > i64::MAX - b.summaries {
        i64::MAX
    } else {
        a.summaries + b.summaries
    };
    let max_level: i32 = if a.max_level < b.max_level {
        b.max_level
    } else {
        a.max_level
    };
    SummaryStats { summaries, max_level }
}

fn clusters_worth(v: Vec<Vec<usize>>) -> (r: Vec<Vec<usize>>)
    ensures
        clusters_view(r@) == worth_building(clusters_view(v@)),
{
    let ghost all = clusters_view(v@);
    let ghost keep = |c: Seq<usize>| c.len() >= 2;
    let mut out: Vec<Vec<usize>> = Vec::new();
    assert(clusters_view(out@) =~= all.take(0).filter(keep)) by {
        reveal(Seq::filter);
    }
    for c in it: v
        invariant
            clusters_view(it.seq()) == all,
            keep == (|c: Seq<usize>| c.len() >= 2),
            clusters_view(out@) == all.take(it.index()).filter(keep),
    {
        let ghost before = clusters_view(out@);
        proof {
            let k = it.index();
            assert(all[k] == c@);
            assert(all.take(k + 1).drop_last() =~= all.take(k));
            reveal(Seq::filter);
        }
        if c.len() >= 2 {
            out.push(c);
            assert(clusters_view(out@) =~= before.push(c@));
        }
    }
    assert(all.take(all.len() as int) =~= all);
    out
}

/// Takes what came back from the last action and says what to do next.
pub fn step_summaries(b: SummaryBuild, event: SummaryEvent) -> (r: (SummaryBuild, SummaryAction))
    requires
        can_step(b, event),
    ensures
        summary_step(b, event, r.0, r.1),
{
    match event {
        SummaryEvent::Loaded(n) => if n <= b.cfg.fanout_stop {
            (b, SummaryAction::Stop(b.stats))
        } else {
            (b, SummaryAction::Cluster)
        },
        SummaryEvent::Clustered(clusters) => {
            let worth = clusters_worth(clusters);
            if worth.len() == 0 {
                (b, SummaryAction::Stop(b.stats))
            } else {
                (b, SummaryAction::Build { level: b.level + 1, clusters: worth })
            }
        },
        SummaryEvent::Built(count) => {
            if count == 0 {
                return (b, SummaryAction::Stop(b.stats));
            }
            let level: i32 = b.level + 1;
            let total: i128 = b.stats.summaries as i128 + count as i128;
            let summaries: i64 = total as i64;
            let next = SummaryBuild {
                cfg: b.cfg,
                level,
                stats: SummaryStats { summaries, max_level: level },
            };
            if level >= b.cfg.max_levels {
                (next, SummaryAction::Stop(next.stats))
            } else {
                (next, SummaryAction::Load(level))
            }
        },
    }
}

/// A tree never grows beyond its depth, its highest level is the last one that
/// was built, and a step that goes on after building is one level nearer to the
/// end.
pub proof fn law_depth_is_bounded(
    b: SummaryBuild,
    event: SummaryEvent,
    next: SummaryBuild,
    action: SummaryAction,
)
    requires
        can_step(b, event),
        b.stats.max_level <= b.level,
        summary_step(b, event, next, action),
    ensures
        next.level <= next.cfg.max_levels,
        next.stats.max_level <= next.level,
        action matches SummaryAction::Build { level, .. } ==> level <= b.cfg.max_levels,
        action matches SummaryAction::Load(level) ==> level == next.level && level
            < next.cfg.max_levels && b.cfg.max_levels - next.level < b.cfg.max_levels - b.level,
        action matches SummaryAction::Stop(stats) ==> stats == next.stats,
{
}

/// The tally and the height agree at every step: there is no height without a
/// summary and no summary without a height, and both only grow.
pub proof fn law_tally_and_height_agree(
    b: SummaryBuild,
    event: SummaryEvent,
    next: SummaryBuild,
    action: SummaryAction,
)
    requires
        can_step(b, event),
        b.level >= 0,
        b.stats.summaries >= 0,
        0 <= b.stats.max_level <= b.level,
        b.stats.summaries == 0 <==> b.stats.max_level == 0,
        summary_step(b, event, next, action),
    ensures
        next.level >= b.level,
        next.stats.summaries >= b.stats.summaries,
        b.stats.max_level <= next.stats.max_level <= next.level,
        next.stats.summaries == 0 <==> next.stats.max_level == 0,
{
}

/// A summary is only ever written over two nodes or more of the level below it.
pub proof fn law_summaries_cover_several_nodes(
    b: SummaryBuild,
    event: SummaryEvent,
    next: SummaryBuild,
    action: SummaryAction,
    k: int,
)
    requires
        can_step(b, event),
        summary_step(b, event, next, action),
        action matches SummaryAction::Build { clusters, .. } && 0 <= k < clusters@.len(),
    ensures
        action matches SummaryAction::Build { level, clusters } && level == b.level + 1
            && clusters@[k]@.len() >= 2,
        event matches SummaryEvent::Clustered(all) && clusters_view(all@).contains(
            action->Build_clusters@[k]@,
        ),
{
    if let SummaryEvent::Clustered(all) = event {
        let v = clusters_view(all@);
        let keep = |c: Seq<usize>| c.len() >= 2;
        assert(clusters_view(action->Build_clusters@)[k] == v.filter(keep)[k]);
        v.lemma_filter_pred(keep, k);
        v.lemma_filter_contains_rev(keep, v.filter(keep)[k]);
    }
}

// ---------------------------------------------------------------------------
// What a summary says
// ---------------------------------------------------------------------------
/// How many bytes a text has.
pub open spec fn byte_len(s: Seq<char>) -> nat {
    encode_utf8(s).len()
}

/// The longest front part of a text with at most this many bytes.
pub open spec fn fitting(s: Seq<char>, max: nat) -> Seq<char>
    decreases s.len(),
{
    if s.len() == 0 || byte_len(s) <= max {
        s
    } else {
        fitting(s.drop_last(), max)
    }
}

/// A text cut to a number of bytes. One that is cut ends with an ellipsis.
pub open spec fn truncated(s: Seq<char>, max: nat) -> Seq<char> {
    if byte_len(s) <= max {
        s
    } else {
        trim_end(fitting(s, max)).push('…')
    }
}

/// How many bytes a character has.
pub open spec fn char_width(c: char) -> nat {
    encode_scalar(c as u32).len()
}

proof fn lemma_byte_len_push(s: Seq<char>, c: char)
    ensures
        byte_len(s.push(c)) == byte_len(s) + char_width(c),
    decreases s.len(),
{
    let all = s.push(c);
    if s.len() == 0 {
        assert(all.drop_first() =~= Seq::empty());
        assert(encode_utf8(all.drop_first()).len() == 0);
    } else {
        assert(all.drop_first() =~= s.drop_first().push(c));
        lemma_byte_len_push(s.drop_first(), c);
    }
}

proof fn lemma_byte_len_take(s: Seq<char>, n: int)
    requires
        0 <= n <= s.len(),
    ensures
        byte_len(s.take(n)) <= byte_len(s),
    decreases s.len() - n,
{
    if n == s.len() {
        assert(s.take(n) =~= s);
    } else {
        lemma_byte_len_take(s, n + 1);
        lemma_byte_len_push(s.take(n), s[n]);
        assert(s.take(n).push(s[n]) =~= s.take(n + 1));
    }
}

/// The longest front part is found at the first character that does not fit.
proof fn lemma_fitting(s: Seq<char>, max: nat, n: int)
    requires
        0 <= n <= s.len(),
        byte_len(s.take(n)) <= max,
        n < s.len() ==> byte_len(s.take(n + 1)) > max,
    ensures
        fitting(s, max) == s.take(n),
    decreases s.len(),
{
    if n == s.len() {
        assert(s.take(n) =~= s);
    } else {
        lemma_byte_len_take(s, n + 1);
        let front = s.drop_last();
        assert(front.take(n) =~= s.take(n));
        if n < front.len() {
            assert(front.take(n + 1) =~= s.take(n + 1));
        }
        lemma_fitting(front, max, n);
    }
}

fn width(c: char) -> (r: usize)
    ensures
        r == char_width(c),
        1 <= r <= 4,
{
    broadcast use char_is_scalar;

    let n: u32 = c as u32;
    if n <= 0x7f {
        1
    } else if n <= 0x7ff {
        2
    } else if n <= 0xffff {
        3
    } else {
        4
    }
}

/// Cuts a text to at most `max` bytes without splitting a character.
pub fn truncate_on_boundary(s: &str, max: usize) -> (r: String)
    ensures
        r@ == truncated(s@, max as nat),
{
    let bytes: usize = s.as_bytes().len();
    if bytes <= max {
        return s.to_owned();
    }
    let chars = to_chars(s);
    let mut n: usize = 0;
    let mut used: usize = 0;
    assert(s@.take(0) =~= Seq::empty());
    while n < chars.len()
        invariant
            chars@ == s@,
            n <= chars@.len(),
            used <= max < byte_len(s@) <= usize::MAX,
            used == byte_len(s@.take(n as int)),
        ensures
            n <= chars@.len(),
            byte_len(s@.take(n as int)) <= max,
            n < s@.len() ==> byte_len(s@.take(n + 1)) > max,
        decreases chars@.len() - n,
    {
        let w = width(chars[n]);
        proof {
            lemma_byte_len_push(s@.take(n as int), s@[n as int]);
            assert(s@.take(n as int).push(s@[n as int]) =~= s@.take(n + 1));
        }
        if w > max - used {
            break ;
        }
        used += w;
        n += 1;
    }
    proof {
        lemma_fitting(s@, max as nat, n as int);
    }
    let front = from_range(&chars, 0, n);
    assert(front@ =~= s@.take(n as int));
    let mut out = trim_end_text(front.as_str());
    out.push('…');
    out
}

/// Nothing is made up in cutting: what is left is a front part of the text, and
/// an ellipsis where something is missing; and it keeps to the budget, but for
/// the ellipsis.
pub proof fn law_truncation_keeps_to_the_text(s: Seq<char>, max: nat)
    ensures
        byte_len(s) <= max ==> truncated(s, max) == s,
        byte_len(s) > max ==> {
            let front = truncated(s, max).drop_last();
            &&& truncated(s, max).last() == '…'
            &&& front.len() <= s.len()
            &&& front == s.take(front.len() as int)
            &&& byte_len(front) <= max
        },
        byte_len(truncated(s, max)) <= max + 3,
    decreases s.len(),
{
    if byte_len(s) > max {
        lemma_fitting_is_front(s, max);
        let fit = fitting(s, max);
        let front = trim_end(fit);
        lemma_trim_end(fit);
        lemma_byte_len_take(fit, front.len() as int);
        assert(front =~= s.take(front.len() as int));
        assert(truncated(s, max).drop_last() =~= front);
        lemma_byte_len_push(front, '…');
        assert('…' as u32 == 0x2026);
    }
}

proof fn lemma_fitting_is_front(s: Seq<char>, max: nat)
    ensures
        fitting(s, max).len() <= s.len(),
        fitting(s, max) == s.take(fitting(s, max).len() as int),
        byte_len(fitting(s, max)) <= max,
    decreases s.len(),
{
    if s.len() == 0 || byte_len(s) <= max {
        assert(s.take(s.len() as int) =~= s);
        if s.len() == 0 {
            assert(byte_len(s) == 0);
        }
    } else {
        lemma_fitting_is_front(s.drop_last(), max);
        let n = fitting(s, max).len() as int;
        assert(s.drop_last().take(n) =~= s.take(n));
    }
}

/// The importance by which a node is ranked: its own, or zero.
pub open spec fn weight(n: LevelNode) -> u32 {
    match n.importance {
        Some(i) => i,
        None => 0,
    }
}

/// Whether a node is more important than another. What is not a number is
/// neither more nor less important than anything.
pub open spec fn outranks(a: LevelNode, b: LevelNode) -> bool {
    !is_nan(weight(a)) && !is_nan(weight(b)) && rank(weight(a)) > rank(weight(b))
}

/// `n` in its place in a ranked list: behind the last node that it does not
/// outrank.
pub open spec fn placed(v: Seq<LevelNode>, n: LevelNode) -> Seq<LevelNode>
    decreases v.len(),
{
    if v.len() == 0 || !outranks(n, v.last()) {
        v.push(n)
    } else {
        placed(v.drop_last(), n).push(v.last())
    }
}

/// The nodes, the most important first; those of equal importance in the order
/// that they came in.
pub open spec fn ranked(v: Seq<LevelNode>) -> Seq<LevelNode>
    decreases v.len(),
{
    if v.len() == 0 {
        Seq::empty()
    } else {
        placed(ranked(v.drop_last()), v.last())
    }
}

/// What the nodes say, trimmed, without those that say nothing.
pub open spec fn sayings(v: Seq<LevelNode>) -> Seq<Seq<char>>
    decreases v.len(),
{
    if v.len() == 0 {
        Seq::empty()
    } else {
        let front = sayings(v.drop_last());
        let t = trimmed(v.last().content@);
        if t.len() == 0 {
            front
        } else {
            front.push(t)
        }
    }
}

/// A summary in the nodes' own words.
pub open spec fn extractive(v: Seq<LevelNode>) -> Seq<char> {
    truncated(joined(sayings(ranked(v)), " | "@), EXTRACTIVE_BUDGET as nat)
}

fn comes_first(a: &LevelNode, b: &LevelNode) -> (r: bool)
    ensures
        r == outranks(*a, *b),
{
    let x: u32 = match a.importance {
        Some(i) => i,
        None => 0,
    };
    let y: u32 = match b.importance {
        Some(i) => i,
        None => 0,
    };
    is_number(x) && is_number(y) && rank_of(x) > rank_of(y)
}

/// The place of a new node in a ranked list.
proof fn lemma_placed(v: Seq<LevelNode>, n: LevelNode, p: int)
    requires
        0 <= p <= v.len(),
        p > 0 ==> !outranks(n, v[p - 1]),
        forall|j: int| p <= j < v.len() ==> outranks(n, #[trigger] v[j]),
    ensures
        placed(v, n) == v.insert(p, n),
    decreases v.len(),
{
    if p == v.len() {
        assert(v.insert(p, n) =~= v.push(n));
    } else {
        assert(outranks(n, v[v.len() - 1]));
        lemma_placed(v.drop_last(), n, p);
        assert(v.drop_last().insert(p, n).push(v.last()) =~= v.insert(p, n));
    }
}

/// The places of the nodes, the most important first.
fn rank_places(children: &Vec<LevelNode>) -> (r: Vec<usize>)
    ensures
        r@.len() == children@.len(),
        forall|i: int| 0 <= i < r@.len() ==> (#[trigger] r@[i]) < children@.len(),
        ranked(children@) == r@.map_values(|k: usize| children@[k as int]),
{
    let mut out: Vec<usize> = Vec::new();
    let mut k: usize = 0;
    let ghost pick = |k: usize| children@[k as int];
    assert(out@.map_values(pick) =~= ranked(children@.take(0)));
    while k < children.len()
        invariant
            k <= children@.len(),
            out@.len() == k,
            pick == (|k: usize| children@[k as int]),
            forall|i: int| 0 <= i < out@.len() ==> (#[trigger] out@[i]) < children@.len(),
            out@.map_values(pick) == ranked(children@.take(k as int)),
        decreases children@.len() - k,
    {
        let ghost before = out@.map_values(pick);
        let mut p: usize = out.len();
        while p > 0 && comes_first(&children[k], &children[out[p - 1]])
            invariant
                p <= out@.len(),
                k < children@.len(),
                pick == (|k: usize| children@[k as int]),
                before == out@.map_values(pick),
                forall|i: int| 0 <= i < out@.len() ==> (#[trigger] out@[i]) < children@.len(),
                forall|j: int|
                    p <= j < before.len() ==> outranks(children@[k as int], #[trigger] before[j]),
            decreases p,
        {
            assert(before[p - 1] == children@[out@[p - 1] as int]);
            p -= 1;
        }
        proof {
            if p > 0 {
                assert(before[p - 1] == children@[out@[p - 1] as int]);
            }
            lemma_placed(before, children@[k as int], p as int);
            assert(children@.take(k + 1).drop_last() =~= children@.take(k as int));
        }
        let ghost old_out = out@;
        out.insert(p, k);
        proof {
            assert(out@.map_values(pick) =~= before.insert(p as int, children@[k as int]));
            assert forall|i: int| 0 <= i < out@.len() implies (#[trigger] out@[i])
                < children@.len() by {
                if i < p {
                    assert(out@[i] == old_out[i]);
                } else if i > p {
                    assert(out@[i] == old_out[i - 1]);
                }
            }
        }
        k += 1;
    }
    assert(children@.take(k as int) =~= children@);
    out
}

/// A summary in the nodes' own words: the most important first, cut to the
/// budget.
pub fn extractive_summary(children: &Vec<LevelNode>) -> (r: String)
    ensures
        r@ == extractive(children@),
{
    let places = rank_places(children);
    let ghost order = ranked(children@);
    let mut parts: Vec<String> = Vec::new();
    let mut i: usize = 0;
    assert(texts(parts@) =~= sayings(order.take(0)));
    while i < places.len()
        invariant
            i <= places@.len(),
            forall|j: int| 0 <= j < places@.len() ==> (#[trigger] places@[j]) < children@.len(),
            order == places@.map_values(|k: usize| children@[k as int]),
            texts(parts@) == sayings(order.take(i as int)),
        decreases places@.len() - i,
    {
        let ghost before = texts(parts@);
        let t = trim(children[places[i]].content.as_str());
        proof {
            assert(order.take(i + 1).drop_last() =~= order.take(i as int));
            assert(order.take(i + 1).last() == children@[places@[i as int] as int]);
        }
        if !t.as_str().is_empty() {
            parts.push(t);
            assert(texts(parts@) =~= before.push(t@));
        }
        i += 1;
    }
    assert(order.take(i as int) =~= order);
    truncate_on_boundary(join(&parts, " | ").as_str(), EXTRACTIVE_BUDGET)
}

/// The first of the texts that is not blank.
pub open spec fn first_said(v: Seq<Seq<char>>) -> Option<Seq<char>>
    decreases v.len(),
{
    if v.len() == 0 {
        None
    } else if !blank(v[0]) {
        Some(v[0])
    } else {
        first_said(v.drop_first())
    }
}

/// What a cluster comes to.
pub open spec fn cluster_text(facts: Option<Seq<Seq<char>>>, children: Seq<LevelNode>) -> Seq<char> {
    match facts {
        Some(v) => match first_said(v) {
            Some(t) => t,
            None => extractive(children),
        },
        None => extractive(children),
    }
}

/// What a cluster comes to: the first distilled fact that says something, else
/// its nodes' own words. `facts` is `None` where nothing could be distilled.
pub fn summarize_cluster(facts: &Option<Vec<String>>, children: &Vec<LevelNode>) -> (r: String)
    ensures
        r@ == (match facts {
            Some(v) => match first_said(texts(v@)) {
                Some(t) => t,
                None => extractive(children@),
            },
            None => extractive(children@),
        }),
        r@ == cluster_text(
            match facts {
                Some(v) => Some(texts(v@)),
                None => None,
            },
            children@,
        ),
{
    if let Some(v) = facts {
        let ghost all = texts(v@);
        let mut i: usize = 0;
        assert(all.skip(0) =~= all);
        while i < v.len()
            invariant
                i <= v@.len(),
                all == texts(v@),
                *facts == Some(*v),
                first_said(all) == first_said(all.skip(i as int)),
            decreases v@.len() - i,
        {
            assert(all.skip(i as int).drop_first() =~= all.skip(i + 1));
            assert(all.skip(i as int)[0] == v@[i as int]@);
            if !is_blank(v[i].as_str()) {
                return v[i].clone();
            }
            i += 1;
        }
    }
    extractive_summary(children)
}

/// The greatest importance among the nodes that have one.
pub open spec fn top_importance(v: Seq<LevelNode>) -> Option<u32>
    decreases v.len(),
{
    if v.len() == 0 {
        None
    } else {
        match (top_importance(v.drop_last()), v.last().importance) {
            (Some(a), Some(b)) => Some(greater(a, b)),
            (Some(a), None) => Some(a),
            (None, b) => b,
        }
    }
}

/// The importance that a summary carries: the greatest of its nodes'.
pub fn summary_importance(children: &Vec<LevelNode>) -> (r: Option<u32>)
    ensures
        r == top_importance(children@),
{
    let mut top: Option<u32> = None;
    let mut i: usize = 0;
    while i < children.len()
        invariant
            i <= children@.len(),
            top == top_importance(children@.take(i as int)),
        decreases children@.len() - i,
    {
        assert(children@.take(i + 1).drop_last() =~= children@.take(i as int));
        if let Some(b) = children[i].importance {
            top =
            match top {
                Some(a) => Some(max_bits(a, b)),
                None => Some(b),
            };
        }
        i += 1;
    }
    assert(children@.take(i as int) =~= children@);
    top
}

// ---------------------------------------------------------------------------
// Laws of the ranking
// ---------------------------------------------------------------------------
/// The most important first.
pub open spec fn descending(v: Seq<LevelNode>) -> bool {
    forall|i: int, j: int| 0 <= i < j < v.len() ==> !outranks(#[trigger] v[j], #[trigger] v[i])
}

/// Every importance is a number.
pub open spec fn numbered(v: Seq<LevelNode>) -> bool {
    forall|i: int| 0 <= i < v.len() ==> !is_nan(weight(#[trigger] v[i]))
}

proof fn lemma_placed_holds(v: Seq<LevelNode>, n: LevelNode)
    ensures
        placed(v, n).to_multiset() == v.to_multiset().insert(n),
        placed(v, n).len() == v.len() + 1,
        forall|i: int|
            0 <= i < placed(v, n).len() ==> #[trigger] placed(v, n)[i] == n || v.contains(
                placed(v, n)[i],
            ),
    decreases v.len(),
{
    broadcast use vstd::seq_lib::group_to_multiset_ensures;

    let out = placed(v, n);
    if v.len() == 0 || !outranks(n, v.last()) {
        assert forall|i: int| 0 <= i < out.len() implies #[trigger] out[i] == n || v.contains(
            out[i],
        ) by {
            if i < v.len() {
                assert(out[i] == v[i]);
            }
        }
    } else {
        let front = v.drop_last();
        lemma_placed_holds(front, n);
        let p = placed(front, n);
        assert(v =~= front.push(v.last()));
        assert(out.to_multiset() =~= v.to_multiset().insert(n));
        assert forall|i: int| 0 <= i < out.len() implies #[trigger] out[i] == n || v.contains(
            out[i],
        ) by {
            if i < p.len() {
                assert(out[i] == p[i]);
                if p[i] != n {
                    let k = choose|k: int| 0 <= k < front.len() && front[k] == p[i];
                    assert(v[k] == p[i]);
                }
            } else {
                assert(v[v.len() - 1] == out[i]);
            }
        }
    }
}

proof fn lemma_placed_descends(v: Seq<LevelNode>, n: LevelNode)
    requires
        descending(v),
        numbered(v),
        !is_nan(weight(n)),
    ensures
        descending(placed(v, n)),
        numbered(placed(v, n)),
    decreases v.len(),
{
    let out = placed(v, n);
    lemma_placed_holds(v, n);
    if v.len() == 0 || !outranks(n, v.last()) {
        assert forall|i: int, j: int| 0 <= i < j < out.len() implies !outranks(
            #[trigger] out[j],
            #[trigger] out[i],
        ) by {
            assert(out[i] == v[i]);
            if j < v.len() {
                assert(out[j] == v[j]);
            } else if i < v.len() - 1 {
                assert(!outranks(v[v.len() - 1], v[i]));
            }
        }
    } else {
        let front = v.drop_last();
        lemma_placed_holds(front, n);
        lemma_placed_descends(front, n);
        let p = placed(front, n);
        assert forall|i: int, j: int| 0 <= i < j < out.len() implies !outranks(
            #[trigger] out[j],
            #[trigger] out[i],
        ) by {
            assert(out[i] == p[i]);
            if j < p.len() {
                assert(out[j] == p[j]);
            } else if p[i] != n {
                assert(front.contains(p[i]));
                let k = choose|k: int| 0 <= k < front.len() && front[k] == p[i];
                assert(!outranks(v[v.len() - 1], v[k]));
            }
        }
    }
    assert forall|i: int| 0 <= i < out.len() implies !is_nan(weight(#[trigger] out[i])) by {
        if out[i] != n {
            let k = choose|k: int| 0 <= k < v.len() && v[k] == out[i];
            assert(!is_nan(weight(v[k])));
        }
    }
}

/// Ranking loses nothing and adds nothing, and where every importance is a
/// number it puts the most important first.
pub proof fn law_ranking_is_a_sorted_permutation(v: Seq<LevelNode>)
    ensures
        numbered(v) ==> descending(ranked(v)) && numbered(ranked(v)),
        ranked(v).to_multiset() == v.to_multiset(),
        ranked(v).len() == v.len(),
    decreases v.len(),
{
    broadcast use vstd::seq_lib::group_to_multiset_ensures;

    if v.len() > 0 {
        let less = v.drop_last();
        law_ranking_is_a_sorted_permutation(less);
        lemma_placed_holds(ranked(less), v.last());
        if numbered(v) {
            assert forall|i: int| 0 <= i < less.len() implies !is_nan(
                weight(#[trigger] less[i]),
            ) by {
                assert(less[i] == v[i]);
            }
            assert(!is_nan(weight(v[v.len() - 1])));
            lemma_placed_descends(ranked(less), v.last());
        }
        assert(v =~= less.push(v.last()));
    } else {
        assert(v =~= Seq::empty());
    }
}

/// Nothing is made up in an extractive summary: every part of it is what one of
/// the nodes says.
pub proof fn law_sayings_are_the_nodes_own(v: Seq<LevelNode>, k: int)
    requires
        0 <= k < sayings(ranked(v)).len(),
    ensures
        exists|i: int|
            0 <= i < v.len() && trimmed((#[trigger] v[i]).content@) == sayings(ranked(v))[k],
{
    broadcast use vstd::seq_lib::group_to_multiset_ensures;

    let order = ranked(v);
    law_ranking_is_a_sorted_permutation(v);
    lemma_saying_has_a_node(order, k);
    let j = choose|j: int|
        0 <= j < order.len() && trimmed((#[trigger] order[j]).content@) == sayings(order)[k];
    assert(order.contains(order[j]));
    assert(order.to_multiset().contains(order[j]));
    assert(v.to_multiset().contains(order[j]));
    assert(v.contains(order[j]));
    let i = choose|i: int| 0 <= i < v.len() && v[i] == order[j];
    assert(trimmed(v[i].content@) == sayings(order)[k]);
}

proof fn lemma_saying_has_a_node(v: Seq<LevelNode>, k: int)
    requires
        0 <= k < sayings(v).len(),
    ensures
        exists|i: int| 0 <= i < v.len() && trimmed((#[trigger] v[i]).content@) == sayings(v)[k],
    decreases v.len(),
{
    let front = v.drop_last();
    if k < sayings(front).len() {
        lemma_saying_has_a_node(front, k);
        let i = choose|i: int|
            0 <= i < front.len() && trimmed((#[trigger] front[i]).content@) == sayings(front)[k];
        assert(v[i] == front[i]);
    } else {
        assert(trimmed(v[v.len() - 1].content@) == sayings(v)[k]);
    }
}

// ---------------------------------------------------------------------------
// What a summary is for
// ---------------------------------------------------------------------------
/// A summary is as important as the most important of its nodes: none is more
/// important, one is as important, and without any importance it has none.
pub proof fn law_summary_weighs_as_its_weightiest(v: Seq<LevelNode>)
    requires
        forall|i: int|
            0 <= i < v.len() ==> ((#[trigger] v[i]).importance matches Some(x) ==> !is_nan(x)),
    ensures
        match top_importance(v) {
            Some(top) => {
                &&& !is_nan(top)
                &&& exists|i: int| 0 <= i < v.len() && (#[trigger] v[i]).importance == Some(top)
                &&& forall|i: int|
                    0 <= i < v.len() ==> ((#[trigger] v[i]).importance matches Some(x) ==> rank(x)
                        <= rank(top))
            },
            None => forall|i: int| 0 <= i < v.len() ==> (#[trigger] v[i]).importance is None,
        },
    decreases v.len(),
{
    if v.len() > 0 {
        let front = v.drop_last();
        let n = v.len() - 1;
        assert forall|i: int| 0 <= i < front.len() implies ((#[trigger] front[i]).importance
            matches Some(x) ==> !is_nan(x)) by {
            assert(front[i] == v[i]);
        }
        law_summary_weighs_as_its_weightiest(front);
        assert(v[n].importance == v.last().importance);
        match top_importance(v) {
            Some(top) => {
                if v[n].importance != Some(top) {
                    let i = choose|i: int|
                        0 <= i < front.len() && (#[trigger] front[i]).importance == Some(top);
                    assert(v[i].importance == Some(top));
                }
                assert forall|i: int| 0 <= i < v.len() implies ((#[trigger] v[i]).importance
                    matches Some(x) ==> rank(x) <= rank(top)) by {
                    if i < n {
                        assert(front[i] == v[i]);
                    }
                }
            },
            None => {
                assert forall|i: int| 0 <= i < v.len() implies (#[trigger] v[i]).importance
                    is None by {
                    if i < n {
                        assert(front[i] == v[i]);
                    }
                }
            },
        }
    }
}

/// A distilled fact is preferred: the first one that says something, as it is.
pub proof fn law_first_fact_that_says_something(v: Seq<Seq<char>>)
    ensures
        match first_said(v) {
            Some(t) => exists|i: int|
                0 <= i < v.len() && #[trigger] v[i] == t && !blank(t) && forall|j: int|
                    0 <= j < i ==> blank(#[trigger] v[j]),
            None => forall|j: int| 0 <= j < v.len() ==> blank(#[trigger] v[j]),
        },
    decreases v.len(),
{
    if v.len() > 0 {
        if !blank(v[0]) {
            assert(v[0] == v[0]);
        } else {
            let rest = v.drop_first();
            law_first_fact_that_says_something(rest);
            match first_said(rest) {
                Some(t) => {
                    let i = choose|i: int|
                        0 <= i < rest.len() && #[trigger] rest[i] == t && !blank(t) && forall|j: int|
                            0 <= j < i ==> blank(#[trigger] rest[j]);
                    assert(v[i + 1] == t);
                    assert forall|j: int| 0 <= j < i + 1 implies blank(#[trigger] v[j]) by {
                        if j > 0 {
                            assert(v[j] == rest[j - 1]);
                        }
                    }
                },
                None => {
                    assert forall|j: int| 0 <= j < v.len() implies blank(#[trigger] v[j]) by {
                        if j > 0 {
                            assert(v[j] == rest[j - 1]);
                        }
                    }
                },
            }
        }
    }
}

proof fn lemma_sayings_add(a: Seq<LevelNode>, b: Seq<LevelNode>)
    ensures
        sayings(a + b) == sayings(a) + sayings(b),
    decreases b.len(),
{
    if b.len() == 0 {
        assert(a + b =~= a);
        assert(sayings(a) + sayings(b) =~= sayings(a));
    } else {
        assert((a + b).drop_last() =~= a + b.drop_last());
        lemma_sayings_add(a, b.drop_last());
        assert(sayings(a + b) =~= sayings(a) + sayings(b));
    }
}

/// A summary in the nodes' own words leaves none of them out that says something,
/// in their rank, between bars, all of it where it keeps to six hundred bytes.
pub proof fn law_every_node_has_its_say(a: Seq<LevelNode>, n: LevelNode, b: Seq<LevelNode>)
    ensures
        sayings(Seq::empty()) == Seq::<Seq<char>>::empty(),
        sayings(a + b) == sayings(a) + sayings(b),
        trimmed(n.content@).len() > 0 ==> sayings(seq![n]) == seq![trimmed(n.content@)],
        trimmed(n.content@).len() == 0 ==> sayings(seq![n]) == Seq::<Seq<char>>::empty(),
        byte_len(joined(sayings(ranked(a)), " | "@)) <= 600 ==> extractive(a) == joined(
            sayings(ranked(a)),
            " | "@,
        ),
{
    lemma_sayings_add(a, b);
    assert(seq![n].drop_last() =~= Seq::empty());
    assert(sayings(seq![n].drop_last()) =~= Seq::empty());
    assert(Seq::<Seq<char>>::empty().push(trimmed(n.content@)) =~= seq![trimmed(n.content@)]);
}

/// A level with no more nodes than are wanted at the top is the top; a larger one
/// is clustered, and built over where anything belongs together. Building goes on
/// a level higher until the depth is reached, and every summary is counted.
pub proof fn law_levels_are_built_while_they_are_wide(
    b: SummaryBuild,
    n: usize,
    count: usize,
    next: SummaryBuild,
    action: SummaryAction,
)
    requires
        b.level < b.cfg.max_levels,
        b.stats.summaries + count <= i64::MAX,
    ensures
        summary_step(b, SummaryEvent::Loaded(n), next, action) ==> next == b && (if n
            > b.cfg.fanout_stop {
            action == SummaryAction::Cluster
        } else {
            action == SummaryAction::Stop(b.stats)
        }),
        count > 0 && summary_step(b, SummaryEvent::Built(count), next, action) ==> {
            &&& next.stats.summaries - b.stats.summaries == count
            &&& next.stats.max_level == next.level && next.level == b.level + 1
            &&& next.cfg == b.cfg
            &&& next.level < b.cfg.max_levels ==> action == SummaryAction::Load(next.level)
            &&& next.level >= b.cfg.max_levels ==> action == SummaryAction::Stop(next.stats)
        },
{
}

/// Every cluster of several nodes is built over, in the order that they come in.
pub proof fn law_no_cluster_is_left_out(
    b: SummaryBuild,
    clusters: Vec<Vec<usize>>,
    next: SummaryBuild,
    action: SummaryAction,
    k: int,
)
    requires
        summary_step(b, SummaryEvent::Clustered(clusters), next, action),
        0 <= k < clusters@.len(),
        clusters@[k]@.len() >= 2,
    ensures
        action matches SummaryAction::Build { clusters: built, .. } && clusters_view(
            built@,
        ).contains(clusters@[k]@),
{
    let v = clusters_view(clusters@);
    let keep = |c: Seq<usize>| c.len() >= 2;
    assert(v[k] == clusters@[k]@);
    v.lemma_filter_contains(keep, k);
    assert(worth_building(v).contains(v[k]));
}

/// A cluster comes to its first fact that says something; where there is none, or
/// nothing could be distilled, its nodes speak for themselves.
pub proof fn law_facts_come_before_the_nodes_own_words(
    before: Seq<Seq<char>>,
    fact: Seq<char>,
    after: Seq<Seq<char>>,
    children: Seq<LevelNode>,
)
    requires
        forall|i: int| 0 <= i < before.len() ==> blank(#[trigger] before[i]),
    ensures
        !blank(fact) ==> cluster_text(Some(before + seq![fact] + after), children) == fact,
        cluster_text(Some(before), children) == extractive(children),
        cluster_text(None, children) == extractive(children),
{
    let all = before + seq![fact] + after;
    let n = before.len() as int;
    law_first_fact_that_says_something(before);
    law_first_fact_that_says_something(all);
    if first_said(before) is Some {
        let i = choose|i: int|
            0 <= i < before.len() && #[trigger] before[i] == first_said(before)->Some_0 && !blank(
                first_said(before)->Some_0,
            );
        assert(blank(before[i]));
    }
    if !blank(fact) {
        assert(all[n] == fact);
        match first_said(all) {
            Some(t) => {
                let i = choose|i: int|
                    0 <= i < all.len() && #[trigger] all[i] == t && !blank(t) && forall|j: int|
                        0 <= j < i ==> blank(#[trigger] all[j]);
                if i < n {
                    assert(all[i] == before[i]);
                }
                if i > n {
                    assert(blank(all[n]));
                }
            },
            None => {
                assert(blank(all[n]));
            },
        }
    }
}

/// A text that is cut keeps as much as fits: no front part that fits is longer than
/// the one that is kept, but for space at its end.
pub proof fn law_cut_texts_keep_what_fits(s: Seq<char>, max: nat, n: int)
    requires
        0 <= n <= s.len(),
        byte_len(s.take(n)) <= max,
    ensures
        n <= fitting(s, max).len(),
        byte_len(s) > max ==> truncated(s, max) == trim_end(fitting(s, max)).push('…'),
        byte_len(s) <= max ==> truncated(s, max) == s,
    decreases s.len(),
{
    if s.len() > 0 && byte_len(s) > max {
        if n == s.len() {
            assert(s.take(n) =~= s);
        } else {
            assert(s.drop_last().take(n) =~= s.take(n));
            law_cut_texts_keep_what_fits(s.drop_last(), max, n);
        }
    }
}

} // verus!
