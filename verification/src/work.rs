//! The work done so far: counters for each type of node, and the number of steps.

use crate::graph::lemma_at_index;
use crate::graph::lemma_index_round_trip;
use crate::graph::Node;
use crate::graph::NodeType;
use crate::graph::NODE_TYPE_COUNT;
use crate::summary::step_counts;
use crate::summary::Counts;
use crate::summary::ProgressSummary;
use crate::summary::StepStats;
use crate::summary::MAX_COUNT;
use std::collections::HashMap;
use vstd::prelude::*;

verus! {

broadcast use vstd::std_specs::hash::group_hash_axioms;

/// The model of the work done: the counters of each type that was met,
/// and the number of steps.
pub struct WorkView {
    pub by_type: Map<NodeType, Counts>,
    pub total_progress: nat,
}

impl WorkView {
    /// No step yet.
    pub open spec fn empty() -> WorkView {
        WorkView { by_type: Map::empty(), total_progress: 0 }
    }

    /// The counters of type `t`; all zero where no step of that type was recorded.
    pub open spec fn counts_of(self, t: NodeType) -> Counts {
        if self.by_type.contains_key(t) {
            self.by_type[t]
        } else {
            Counts::zero()
        }
    }

    /// The counters of the first `n` types added up.
    pub open spec fn sum_below(self, n: nat) -> Counts
        decreases n,
    {
        if n == 0 {
            Counts::zero()
        } else {
            self.sum_below((n - 1) as nat).plus(self.counts_of(NodeType::at(n - 1)))
        }
    }

    /// The counters of all types added up.
    pub open spec fn total(self) -> Counts {
        self.sum_below(NODE_TYPE_COUNT as nat)
    }

    /// The work after one more step, at a node of type `t` and with the statistics `ss`.
    pub open spec fn record(self, t: NodeType, ss: Option<StepStats>) -> WorkView {
        WorkView {
            by_type: self.by_type.insert(t, self.counts_of(t).plus(step_counts(ss))),
            total_progress: self.total_progress + 1,
        }
    }

    /// The steps counted are the steps of all types, and no total is above the limit.
    pub open spec fn wf(self) -> bool {
        &&& self.total_progress == self.total().walked
        &&& self.total().within(MAX_COUNT as nat)
    }

    /// One more step with the statistics `ss` keeps every total within the limit.
    pub open spec fn has_room(self, ss: Option<StepStats>) -> bool {
        self.total().plus(step_counts(ss)).within(MAX_COUNT as nat)
    }
}

/// A step adds its counts to every sum that reaches its type, and to no other.
pub proof fn lemma_record_sum(w: WorkView, t: NodeType, ss: Option<StepStats>, n: nat)
    requires
        n <= NODE_TYPE_COUNT,
    ensures
        w.record(t, ss).sum_below(n) == if t.spec_index() < n {
            w.sum_below(n).plus(step_counts(ss))
        } else {
            w.sum_below(n)
        },
    decreases n,
{
    if n > 0 {
        lemma_record_sum(w, t, ss, (n - 1) as nat);
        lemma_index_round_trip(t);
        lemma_at_index(n - 1);
        let k = NodeType::at(n - 1);
        if k == t {
            assert(w.record(t, ss).counts_of(k) == w.counts_of(t).plus(step_counts(ss)));
        } else {
            assert(w.record(t, ss).counts_of(k) == w.counts_of(k));
        }
    }
}

/// A step adds its counts to the totals.
pub proof fn lemma_record_total(w: WorkView, t: NodeType, ss: Option<StepStats>)
    ensures
        w.record(t, ss).total() == w.total().plus(step_counts(ss)),
        w.wf() && w.has_room(ss) ==> w.record(t, ss).wf(),
{
    lemma_record_sum(w, t, ss, NODE_TYPE_COUNT as nat);
    lemma_index_round_trip(t);
}

/// The counters of one type are no more than the sum that reaches it.
pub proof fn lemma_counts_le_sum(w: WorkView, t: NodeType, n: nat)
    requires
        t.spec_index() < n <= NODE_TYPE_COUNT,
    ensures
        w.counts_of(t).le(w.sum_below(n)),
    decreases n,
{
    lemma_index_round_trip(t);
    if t.spec_index() < n - 1 {
        lemma_counts_le_sum(w, t, (n - 1) as nat);
    }
}

/// The counters of one type are no more than the totals.
pub proof fn lemma_counts_le_total(w: WorkView, t: NodeType)
    ensures
        w.counts_of(t).le(w.total()),
{
    lemma_index_round_trip(t);
    lemma_counts_le_sum(w, t, NODE_TYPE_COUNT as nat);
}

/// Sums grow with the number of types they reach.
pub proof fn lemma_sum_monotone(w: WorkView, m: nat, n: nat)
    requires
        m <= n,
    ensures
        w.sum_below(m).le(w.sum_below(n)),
    decreases n,
{
    if m < n {
        lemma_sum_monotone(w, m, (n - 1) as nat);
    }
}

/// One step of a walk, as far as it is recorded: the type of its node,
/// and its statistics where the walker gave any.
pub struct Step {
    pub node_type: NodeType,
    pub stats: Option<StepStats>,
}

/// What a run of steps adds to the totals.
pub open spec fn steps_counts(steps: Seq<Step>) -> Counts
    decreases steps.len(),
{
    if steps.len() == 0 {
        Counts::zero()
    } else {
        steps_counts(steps.drop_last()).plus(step_counts(steps.last().stats))
    }
}

/// What those steps of a run that are at nodes of type `t` add to the
/// counters of that type.
pub open spec fn steps_counts_of(steps: Seq<Step>, t: NodeType) -> Counts
    decreases steps.len(),
{
    if steps.len() == 0 {
        Counts::zero()
    } else if steps.last().node_type == t {
        steps_counts_of(steps.drop_last(), t).plus(step_counts(steps.last().stats))
    } else {
        steps_counts_of(steps.drop_last(), t)
    }
}

impl WorkView {
    /// The work after the steps of `steps`, one after the other.
    pub open spec fn record_all(self, steps: Seq<Step>) -> WorkView
        decreases steps.len(),
    {
        if steps.len() == 0 {
            self
        } else {
            self.record_all(steps.drop_last()).record(steps.last().node_type, steps.last().stats)
        }
    }

    /// The steps of `steps` together keep every total within the limit.
    pub open spec fn has_room_all(self, steps: Seq<Step>) -> bool {
        self.total().plus(steps_counts(steps)).within(MAX_COUNT as nat)
    }
}

/// A run of steps adds to the totals what its steps add up to, and to
/// the counters of each type what its steps of that type add up to.
pub proof fn lemma_record_all(w: WorkView, steps: Seq<Step>)
    ensures
        w.record_all(steps).total() == w.total().plus(steps_counts(steps)),
        w.record_all(steps).total_progress == w.total_progress + steps.len(),
        forall|t: NodeType| #[trigger]
            w.record_all(steps).counts_of(t) == w.counts_of(t).plus(steps_counts_of(steps, t)),
        w.wf() && w.has_room_all(steps) ==> w.record_all(steps).wf(),
    decreases steps.len(),
{
    if steps.len() > 0 {
        let before = w.record_all(steps.drop_last());
        lemma_record_all(w, steps.drop_last());
        lemma_record_total(before, steps.last().node_type, steps.last().stats);
        assert forall|t: NodeType| #[trigger]
            w.record_all(steps).counts_of(t) == w.counts_of(t).plus(
                steps_counts_of(steps, t),
            ) by {
            assert(before.counts_of(t) == w.counts_of(t).plus(
                steps_counts_of(steps.drop_last(), t),
            ));
        }
    }
}

/// Where there is room for a run of steps, there is room for each of
/// them when its turn comes.
pub proof fn lemma_room_for_each(w: WorkView, steps: Seq<Step>, i: int)
    requires
        w.has_room_all(steps),
        0 <= i < steps.len(),
    ensures
        w.has_room_all(steps.take(i)),
        w.record_all(steps.take(i)).has_room(steps[i].stats),
        w.has_room_all(steps.take(i + 1)),
    decreases steps.len(),
{
    lemma_steps_counts_prefix(steps, i);
    lemma_steps_counts_prefix(steps, i + 1);
    lemma_record_all(w, steps.take(i));
    assert(steps.take(i + 1).drop_last() =~= steps.take(i));
}

/// A prefix of a run adds no more than the whole run.
pub proof fn lemma_steps_counts_prefix(steps: Seq<Step>, i: int)
    requires
        0 <= i <= steps.len(),
    ensures
        steps_counts(steps.take(i)).le(steps_counts(steps)),
    decreases steps.len(),
{
    if i == steps.len() {
        assert(steps.take(i) =~= steps);
    } else {
        lemma_steps_counts_prefix(steps.drop_last(), i);
        assert(steps.drop_last().take(i) =~= steps.take(i));
    }
}

/// The statistics that `opt` refers to.
pub open spec fn stats_of(opt: Option<&StepStats>) -> Option<StepStats> {
    match opt {
        Some(s) => Some(*s),
        None => None,
    }
}

/// What one entry of the table stands for.
pub open spec fn entry_counts(entry: (u64, StepStats)) -> Counts {
    Counts { walked: entry.0 as nat, ..entry.1.counts() }
}

/// The work done so far. For each type of node that was met: the number
/// of steps at nodes of that type, and the sum of their statistics.
pub struct ProgressStateWorkByType {
    stats_by_type: HashMap<u64, (u64, StepStats)>,
    total_progress: u64,
}

impl View for ProgressStateWorkByType {
    type V = WorkView;

    closed spec fn view(&self) -> WorkView {
        WorkView {
            by_type: Map::new(
                |t: NodeType| self.stats_by_type@.contains_key(t.spec_index()),
                |t: NodeType| entry_counts(self.stats_by_type@[t.spec_index()]),
            ),
            total_progress: self.total_progress as nat,
        }
    }
}

impl ProgressStateWorkByType {
    /// The work is as `new` makes it or as `record_step` leaves it.
    pub open spec fn wf(&self) -> bool {
        self@.wf()
    }

    /// No work yet.
    pub fn new() -> (w: ProgressStateWorkByType)
        ensures
            w.wf(),
            w@ == WorkView::empty(),
    {
        let w = ProgressStateWorkByType { stats_by_type: HashMap::new(), total_progress: 0 };
        proof {
            assert(w@.by_type =~= Map::<NodeType, Counts>::empty());
            lemma_empty_sum(NODE_TYPE_COUNT as nat);
        }
        w
    }

    /// The number of steps recorded.
    pub fn total_progress(&self) -> (n: u64)
        ensures
            n == self@.total_progress,
    {
        self.total_progress
    }

    /// The counters of type `t`, where a step of that type was recorded.
    pub fn summary_of(&self, t: NodeType) -> (s: Option<ProgressSummary>)
        ensures
            s is Some <==> self@.by_type.contains_key(t),
            s matches Some(c) ==> c@ == self@.by_type[t],
    {
        let k = t.index();
        match self.stats_by_type.get(&k) {
            Some(entry) => Some(ProgressSummary::of_steps(entry.0, &entry.1)),
            None => None,
        }
    }

    /// The counters of all types added up.
    pub fn total(&self) -> (sum: ProgressSummary)
        requires
            self.wf(),
        ensures
            sum@ == self@.total(),
    {
        let mut sum = ProgressSummary::default();
        let mut i: u64 = 0;
        while i < NODE_TYPE_COUNT
            invariant
                i <= NODE_TYPE_COUNT,
                self.wf(),
                sum@ == self@.sum_below(i as nat),
            decreases NODE_TYPE_COUNT - i,
        {
            proof {
                lemma_sum_monotone(self@, (i + 1) as nat, NODE_TYPE_COUNT as nat);
            }
            match NodeType::from_index(i) {
                Some(t) => {
                    match self.summary_of(t) {
                        Some(c) => {
                            sum = sum + c;
                        },
                        None => {},
                    }
                },
                None => {},
            }
            i = i + 1;
        }
        sum
    }

    /// Whether there is room for one more step with the statistics `opt`.
    pub fn can_record(&self, opt: Option<&StepStats>) -> (r: bool)
        requires
            self.wf(),
        ensures
            r == self@.has_room(stats_of(opt)),
    {
        let total = self.total();
        match opt {
            Some(ss) => {
                total.walked < MAX_COUNT && ss.visited_of_type <= MAX_COUNT - total.checked
                    && ss.num_expanded_new <= MAX_COUNT - total.queued && ss.error_count
                    <= MAX_COUNT - total.errors
            },
            None => total.walked < MAX_COUNT,
        }
    }

    /// Records one step at the node `n`, with the statistics `opt` where the
    /// walker gave any.
    pub fn record_step(&mut self, n: &Node, opt: Option<&StepStats>)
        requires
            old(self).wf(),
            old(self)@.has_room(stats_of(opt)),
        ensures
            final(self).wf(),
            final(self)@ == old(self)@.record(n.node_type, stats_of(opt)),
    {
        let t = n.get_type();
        let k = t.index();
        proof {
            lemma_counts_le_total(self@, t);
            lemma_record_total(self@, t, stats_of(opt));
        }
        self.total_progress += 1;
        let entry = match self.stats_by_type.get(&k) {
            Some(e) => *e,
            None => (0, StepStats::default()),
        };
        let stat = match opt {
            Some(ss) => entry.1 + *ss,
            None => entry.1,
        };
        self.stats_by_type.insert(k, (entry.0 + 1, stat));
        proof {
            let after = self@;
            let expected = old(self)@.record(t, stats_of(opt));
            assert forall|u: NodeType| after.by_type.contains_key(u) implies after.by_type[u]
                == expected.by_type[u] by {
                lemma_index_round_trip(u);
                lemma_index_round_trip(t);
            }
            assert(after.by_type =~= expected.by_type) by {
                assert forall|u: NodeType|
                    after.by_type.contains_key(u) <==> expected.by_type.contains_key(u) by {
                    lemma_index_round_trip(u);
                    lemma_index_round_trip(t);
                }
            }
        }
    }
}

/// Where no step was recorded every sum is zero.
pub proof fn lemma_empty_sum(n: nat)
    ensures
        WorkView::empty().sum_below(n) == Counts::zero(),
    decreases n,
{
    if n > 0 {
        lemma_empty_sum((n - 1) as nat);
    }
}

} // verus!
