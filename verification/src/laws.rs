//! What holds of every run: how counters follow the steps, what two
//! consecutive reports say, and how often the throttle lets a report pass.

use crate::graph::NodeType;
use crate::graph::NODE_TYPE_COUNT;
use crate::order::lemma_sorted_types_unique;
use crate::order::strictly_sorted_by_name;
use crate::progress::ProgressView;
use crate::report::detail;
use crate::summary::Counts;
use crate::time::millis_of;
use crate::time::since;
use crate::work::lemma_empty_sum;
use crate::work::lemma_record_all;
use crate::work::steps_counts;
use crate::work::steps_counts_of;
use crate::work::Step;
use crate::work::WorkView;
use vstd::prelude::*;

verus! {

/// Whether a step is at a node of type `t`.
pub open spec fn step_has_type(t: NodeType) -> spec_fn(Step) -> bool {
    |step: Step| step.node_type == t
}

/// The steps of a run that are at nodes of one type count as many
/// walked nodes as there are such steps.
pub proof fn lemma_walked_is_number_of_steps(steps: Seq<Step>, t: NodeType)
    ensures
        steps_counts(steps).walked == steps.len(),
        steps_counts_of(steps, t).walked == steps.filter(step_has_type(t)).len(),
    decreases steps.len(),
{
    reveal(Seq::filter);
    if steps.len() > 0 {
        lemma_walked_is_number_of_steps(steps.drop_last(), t);
    }
}

/// From the start of a run on, the number of steps counted is the
/// number of steps recorded, and the steps counted for each type are the
/// steps recorded at nodes of that type.
pub proof fn law_counts_follow_steps(steps: Seq<Step>, t: NodeType)
    ensures
        WorkView::empty().record_all(steps).total_progress == steps.len(),
        WorkView::empty().record_all(steps).total().walked == steps.len(),
        WorkView::empty().record_all(steps).counts_of(t).walked == steps.filter(
            step_has_type(t),
        ).len(),
{
    let start = WorkView::empty();
    lemma_record_all(start, steps);
    lemma_walked_is_number_of_steps(steps, t);
    lemma_empty_sum(NODE_TYPE_COUNT as nat);
    assert(start.record_all(steps).counts_of(t) == start.counts_of(t).plus(
        steps_counts_of(steps, t),
    ));
}

/// Every delta that a report lists for a type is the delta of that
/// type, and the type is one that was met.
pub proof fn lemma_type_deltas_entries(s: ProgressView, n: nat, i: int)
    requires
        n <= NODE_TYPE_COUNT,
        0 <= i < s.type_deltas_below(n).len(),
    ensures
        s.type_deltas_below(n)[i].1 == s.delta_of(s.type_deltas_below(n)[i].0),
        s.work.by_type.contains_key(s.type_deltas_below(n)[i].0),
    decreases n,
{
    if n > 0 {
        let before = s.type_deltas_below((n - 1) as nat);
        if i < before.len() {
            lemma_type_deltas_entries(s, (n - 1) as nat, i);
        }
    }
}

/// Between two consecutive reports nothing is counted twice and nothing
/// is lost: the second report's deltas, for all types together and for
/// each type, are what the steps recorded since the first report add up to.
pub proof fn law_deltas_between_reports(
    first: ProgressView,
    steps: Seq<Step>,
    second: ProgressView,
    delta_time: Option<nat>,
)
    requires
        second.work == first.after_report().work.record_all(steps),
        second.reporting.last_by_type == first.after_report().reporting.last_by_type,
        second.reporting.last_summary == first.after_report().reporting.last_summary,
    ensures
        second.report(delta_time).delta == steps_counts(steps),
        forall|t: NodeType| #[trigger] second.delta_of(t) == steps_counts_of(steps, t),
        forall|i: int|
            0 <= i < second.report(delta_time).type_deltas.len() ==> (#[trigger] second.report(
                delta_time,
            ).type_deltas[i]).1 == steps_counts_of(
                steps,
                second.report(delta_time).type_deltas[i].0,
            ),
{
    lemma_record_all(first.work, steps);
    assert forall|t: NodeType| #[trigger] second.delta_of(t) == steps_counts_of(steps, t) by {
        assert(second.work.counts_of(t) == first.work.counts_of(t).plus(
            steps_counts_of(steps, t),
        ));
        assert(second.reporting.last_of(t) == first.work.counts_of(t));
    }
    let deltas = second.report(delta_time).type_deltas;
    assert forall|i: int| 0 <= i < deltas.len() implies (#[trigger] deltas[i]).1
        == steps_counts_of(steps, deltas[i].0) by {
        lemma_type_deltas_entries(second, NODE_TYPE_COUNT as nat, i);
    }
}

/// A report right after a report tells of no growth, and leaves the
/// state as the first one left it.
pub proof fn law_report_again(s: ProgressView, delta_time: Option<nat>)
    ensures
        s.after_report().report(delta_time).delta == Counts::zero(),
        forall|t: NodeType| #[trigger] s.after_report().delta_of(t) == Counts::zero(),
        s.after_report().after_report() == s.after_report(),
{
    law_deltas_between_reports(s, Seq::empty(), s.after_report(), delta_time);
}

/// The throttle lets a report pass only at a number of steps that is a
/// multiple of the sample rate, and only when the interval has passed
/// since the report before. So however many steps are recorded in
/// between, and whatever their number, two reports that pass are at
/// least one interval apart.
pub proof fn law_throttle_once_per_interval(
    s: ProgressView,
    first_at: nat,
    later: ProgressView,
    second_at: nat,
)
    requires
        s.fires(first_at),
        later.params == s.params,
        later.reporting.last_update == s.throttled(first_at).reporting.last_update,
        later.fires(second_at),
    ensures
        s.work.total_progress % s.params.sample_rate == 0,
        later.work.total_progress % s.params.sample_rate == 0,
        since(first_at, s.reporting.last_update) >= s.params.interval,
        since(second_at, first_at) >= s.params.interval,
{
}

/// Where the throttle finds no report due, it changes nothing.
pub proof fn law_throttle_silent(s: ProgressView, now: nat)
    requires
        !s.fires(now),
    ensures
        s.throttled(now) == s,
        s.throttled_report(now) is None,
        s.after_throttled_report(now) == s,
{
}

/// A report over no time, or without a time, tells a rate of zero.
pub proof fn law_rate_zero_without_time(s: ProgressView, delta_time: Option<nat>)
    requires
        delta_time matches Some(d) ==> millis_of(d) == 0,
    ensures
        s.report(delta_time).delta_rate == Counts::zero(),
        s.reporting.last_update < crate::time::NANOS_PER_MILLI ==> s.report(delta_time).total_rate
            == Counts::zero(),
{
}

/// The breakdown of a report is in the order of the types' names, and
/// does not depend on the order in which the types were given: two
/// valid states with the same types and the same work have the same breakdown.
pub proof fn law_breakdown_order(a: ProgressView, b: ProgressView)
    requires
        a.wf(),
        b.wf(),
        a.params.types.to_set() == b.params.types.to_set(),
        a.work == b.work,
    ensures
        strictly_sorted_by_name(a.params.types),
        a.params.types == b.params.types,
        detail(a.params.types, a.work) == detail(b.params.types, b.work),
{
    lemma_sorted_types_unique(a.params.types, b.params.types);
}

} // verus!
