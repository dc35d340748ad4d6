//! The walker's output, item by item: each step is recorded and may
//! bring a throttled report, and a run ends with a last report.

use crate::graph::AsNode;
use crate::graph::Node;
use crate::progress::report_view;
use crate::progress::ProgressRecorderUnprotected;
use crate::progress::ProgressReporterUnprotected;
use crate::progress::ProgressStateCountByType;
use crate::progress::ProgressView;
use crate::report::ProgressReport;
use crate::report::ReportView;
use crate::summary::step_counts;
use crate::summary::Counts;
use crate::summary::StepStats;
use crate::summary::MAX_COUNT;
use crate::text::decimal;
use crate::text::push_decimal;
use crate::time::Duration;
use crate::work::lemma_room_for_each;
use crate::work::lemma_steps_counts_prefix;
use crate::work::steps_counts;
use crate::work::Step;
use anyhow::Error;
use vstd::prelude::*;
use vstd::string::StringExecFns;

verus! {

/// `anyhow::Error`, the failure that an item of the walker's output may
/// be. Nothing of what it holds is known here: it is handed on as it came.
#[verifier::external_type_specification]
#[verifier::external_body]
pub struct ExError(Error);

/// The step that an item of the walker's output records: none for a failure.
pub open spec fn item_step<K: AsNode, P>(
    item: Result<(K, P, Option<StepStats>), Error>,
) -> Option<Step> {
    match item {
        Ok((key, _, ss)) => Some(Step { node_type: key.node().node_type, stats: ss }),
        Err(_) => None,
    }
}

/// The steps that a run of items records, in their order.
pub open spec fn steps_of<K: AsNode, P>(
    items: Seq<Result<(K, P, Option<StepStats>), Error>>,
) -> Seq<Step>
    decreases items.len(),
{
    if items.len() == 0 {
        Seq::empty()
    } else {
        match item_step(items.last()) {
            Some(step) => steps_of(items.drop_last()).push(step),
            None => steps_of(items.drop_last()),
        }
    }
}

/// There is room for the step of `item`, where it has one.
pub open spec fn has_room_for_item<K: AsNode, P>(
    state: ProgressView,
    item: Result<(K, P, Option<StepStats>), Error>,
) -> bool {
    match item_step(item) {
        Some(step) => state.work.has_room(step.stats),
        None => true,
    }
}

/// Whether there is room for the step of `item`, where it has one.
pub fn can_observe_item<K: AsNode, P>(
    progress_state: &ProgressStateCountByType,
    item: &Result<(K, P, Option<StepStats>), Error>,
) -> (room: bool)
    requires
        progress_state.wf(),
    ensures
        room == has_room_for_item(progress_state@, *item),
{
    match item {
        Ok((_key, _payload, stats_opt)) => progress_state.can_record(stats_opt.as_ref()),
        Err(_) => true,
    }
}

/// Sees one item of the walker's output at the time `now` since the
/// start of the run. The step of a successful item is recorded, and
/// unless `quiet` a throttled report is made where one is due. A failure
/// changes nothing. The item itself is left as it is.
pub fn progress_stream_item_at<K: AsNode, P>(
    quiet: bool,
    progress_state: &mut ProgressStateCountByType,
    item: &Result<(K, P, Option<StepStats>), Error>,
    now: Duration,
) -> (report: Option<ProgressReport>)
    requires
        old(progress_state).wf(),
        has_room_for_item(old(progress_state)@, *item),
    ensures
        final(progress_state).wf(),
        final(progress_state)@ == old(progress_state)@.observed(quiet, item_step(*item), now@),
        report_view(report) == old(progress_state)@.observed_report(
            quiet,
            item_step(*item),
            now@,
        ),
{
    match item {
        Ok((key, _payload, stats_opt)) => {
            progress_state.record_step(key.as_node(), stats_opt.as_ref());
            if !quiet {
                progress_state.report_throttled_at(now)
            } else {
                None
            }
        },
        Err(_) => None,
    }
}

/// Sees one item of the walker's output at the time that the clock shows.
pub fn progress_stream_item<K: AsNode, P>(
    quiet: bool,
    progress_state: &mut ProgressStateCountByType,
    item: &Result<(K, P, Option<StepStats>), Error>,
) -> (report: Option<ProgressReport>)
    requires
        old(progress_state).wf(),
        has_room_for_item(old(progress_state)@, *item),
    ensures
        final(progress_state).wf(),
        exists|now: nat|
            {
                &&& final(progress_state)@ == #[trigger] old(progress_state)@.observed(
                    quiet,
                    item_step(*item),
                    now,
                )
                &&& report_view(report) == old(progress_state)@.observed_report(
                    quiet,
                    item_step(*item),
                    now,
                )
            },
{
    match item {
        Ok((key, _payload, stats_opt)) => {
            progress_state.record_step(key.as_node(), stats_opt.as_ref());
            if !quiet {
                let ghost recorded = progress_state@;
                let report = progress_state.report_throttled();
                proof {
                    let now = choose|now: nat|
                        {
                            &&& progress_state@ == #[trigger] recorded.after_throttled_report(now)
                            &&& report_view(report) == recorded.throttled_report(now)
                        };
                    assert(progress_state@ == old(progress_state)@.observed(
                        quiet,
                        item_step(*item),
                        now,
                    ));
                }
                report
            } else {
                proof {
                    assert(progress_state@ == old(progress_state)@.observed(
                        quiet,
                        item_step(*item),
                        0,
                    ));
                }
                None
            }
        },
        Err(_) => {
            proof {
                assert(progress_state@ == old(progress_state)@.observed(
                    quiet,
                    item_step(*item),
                    0,
                ));
            }
            None
        },
    }
}

/// Whether there is room for the steps of a run of items together.
pub fn can_observe_all<K: AsNode, P>(
    progress_state: &ProgressStateCountByType,
    s: &Vec<Result<(K, P, Option<StepStats>), Error>>,
) -> (room: bool)
    requires
        progress_state.wf(),
    ensures
        room == progress_state@.work.has_room_all(steps_of(s@)),
{
    let total = progress_state.work_stats().total();
    let mut walked: u64 = MAX_COUNT - total.walked;
    let mut checked: u64 = MAX_COUNT - total.checked;
    let mut queued: u64 = MAX_COUNT - total.queued;
    let mut errors: u64 = MAX_COUNT - total.errors;
    let mut i: usize = 0;
    let ghost start = progress_state@.work.total();
    proof {
        assert(s@.take(0) =~= Seq::empty());
    }
    while i < s.len()
        invariant
            i <= s.len(),
            start == progress_state@.work.total(),
            walked <= MAX_COUNT,
            checked <= MAX_COUNT,
            queued <= MAX_COUNT,
            errors <= MAX_COUNT,
            start.plus(steps_counts(steps_of(s@.take(i as int)))) == (Counts {
                walked: (MAX_COUNT - walked) as nat,
                checked: (MAX_COUNT - checked) as nat,
                queued: (MAX_COUNT - queued) as nat,
                errors: (MAX_COUNT - errors) as nat,
            }),
        decreases s.len() - i,
    {
        proof {
            assert(s@.take(i + 1).drop_last() =~= s@.take(i as int));
            assert(s@.take(i + 1).last() == s@[i as int]);
            lemma_steps_of_prefix(s@, i + 1);
            let steps = steps_of(s@);
            let k = steps_of(s@.take(i + 1)).len() as int;
            lemma_steps_counts_prefix(steps, k);
            let seen = steps_of(s@.take(i as int));
            match item_step(s@[i as int]) {
                Some(step) => {
                    assert(steps_of(s@.take(i + 1)) == seen.push(step));
                    assert(seen.push(step).drop_last() =~= seen);
                    assert(steps_counts(seen.push(step)) == steps_counts(seen).plus(
                        step_counts(step.stats),
                    ));
                },
                None => {
                    assert(steps_of(s@.take(i + 1)) == seen);
                },
            }
        }
        match &s[i] {
            Ok((_key, _payload, stats_opt)) => {
                if walked == 0 {
                    return false;
                }
                walked = walked - 1;
                match stats_opt {
                    Some(stats) => {
                        if stats.visited_of_type > checked || stats.num_expanded_new > queued
                            || stats.error_count > errors {
                            return false;
                        }
                        checked = checked - stats.visited_of_type;
                        queued = queued - stats.num_expanded_new;
                        errors = errors - stats.error_count;
                    },
                    None => {},
                }
            },
            Err(_) => {},
        }
        i = i + 1;
    }
    proof {
        assert(s@.take(s.len() as int) =~= s@);
    }
    true
}

/// For each item of a run the step that it records, or none.
pub open spec fn item_steps<K: AsNode, P>(
    items: Seq<Result<(K, P, Option<StepStats>), Error>>,
) -> Seq<Option<Step>> {
    Seq::new(items.len(), |i: int| item_step(items[i]))
}

/// What a list of reports stands for.
pub open spec fn reports_view(reports: Seq<ProgressReport>) -> Seq<ReportView> {
    Seq::new(reports.len(), |i: int| reports[i]@)
}

/// Sees a run of the walker's output, item by item, each at the time
/// that the clock shows when its turn comes. The items are left as they
/// are; the reports that were due come back in their order.
pub fn progress_stream<K: AsNode, P>(
    quiet: bool,
    progress_state: &mut ProgressStateCountByType,
    s: &Vec<Result<(K, P, Option<StepStats>), Error>>,
) -> (reports: Vec<ProgressReport>)
    requires
        old(progress_state).wf(),
        old(progress_state)@.work.has_room_all(steps_of(s@)),
    ensures
        final(progress_state).wf(),
        exists|times: Seq<nat>|
            {
                &&& times.len() == s@.len()
                &&& final(progress_state)@ == #[trigger] old(progress_state)@.observed_all(
                    quiet,
                    item_steps(s@),
                    times,
                )
                &&& reports_view(reports@) == old(progress_state)@.reports_all(
                    quiet,
                    item_steps(s@),
                    times,
                )
            },
        final(progress_state)@.params == old(progress_state)@.params,
        final(progress_state)@.work == old(progress_state)@.work.record_all(steps_of(s@)),
        quiet ==> reports@.len() == 0 && final(progress_state)@.reporting == old(
            progress_state,
        )@.reporting,
        reports@.len() <= steps_of(s@).len(),
{
    let mut reports: Vec<ProgressReport> = Vec::new();
    let mut i: usize = 0;
    let ghost start = progress_state@;
    let ghost mut times: Seq<nat> = Seq::empty();
    proof {
        assert(s@.take(0) =~= Seq::empty());
        assert(item_steps(s@).take(0) =~= Seq::empty());
        assert(reports_view(reports@) =~= Seq::empty());
    }
    while i < s.len()
        invariant
            i <= s.len(),
            progress_state.wf(),
            start.work.has_room_all(steps_of(s@)),
            times.len() == i,
            progress_state@ == start.observed_all(quiet, item_steps(s@).take(i as int), times),
            reports_view(reports@) == start.reports_all(
                quiet,
                item_steps(s@).take(i as int),
                times,
            ),
            progress_state@.params == start.params,
            progress_state@.work == start.work.record_all(steps_of(s@.take(i as int))),
            quiet ==> reports@.len() == 0 && progress_state@.reporting == start.reporting,
            reports@.len() <= steps_of(s@.take(i as int)).len(),
        decreases s.len() - i,
    {
        let ghost before = progress_state@;
        let ghost reports_before = reports@;
        proof {
            assert(s@.take(i + 1).drop_last() =~= s@.take(i as int));
            assert(s@.take(i + 1).last() == s@[i as int]);
            lemma_steps_of_prefix(s@, i + 1);
            if item_step(s@[i as int]) is Some {
                let steps = steps_of(s@);
                let k = steps_of(s@.take(i as int)).len() as int;
                assert(steps.take(k + 1) =~= steps_of(s@.take(i + 1)));
                assert(steps.take(k + 1).drop_last() =~= steps.take(k));
                assert(steps.take(k) =~= steps_of(s@.take(i as int)));
                lemma_room_for_each(start.work, steps, k);
            }
        }
        let report = progress_stream_item(quiet, progress_state, &s[i]);
        proof {
            let now = choose|now: nat|
                {
                    &&& progress_state@ == #[trigger] before.observed(
                        quiet,
                        item_step(s@[i as int]),
                        now,
                    )
                    &&& report_view(report) == before.observed_report(
                        quiet,
                        item_step(s@[i as int]),
                        now,
                    )
                };
            let steps_next = item_steps(s@).take(i + 1);
            let times_next = times.push(now);
            assert(steps_next.drop_last() =~= item_steps(s@).take(i as int));
            assert(times_next.drop_last() =~= times);
            assert(steps_next.last() == item_step(s@[i as int]));
            assert(times_next.last() == now);
            times = times_next;
        }
        match report {
            Some(r) => {
                reports.push(r);
                proof {
                    assert(reports_view(reports@) =~= reports_view(reports_before).push(r@));
                }
            },
            None => {},
        }
        i = i + 1;
    }
    proof {
        assert(s@.take(s.len() as int) =~= s@);
        assert(item_steps(s@).take(s.len() as int) =~= item_steps(s@));
    }
    reports
}

/// The steps of a prefix of a run are a prefix of the steps of the run.
pub proof fn lemma_steps_of_prefix<K: AsNode, P>(
    items: Seq<Result<(K, P, Option<StepStats>), Error>>,
    k: int,
)
    requires
        0 <= k <= items.len(),
    ensures
        steps_of(items.take(k)).len() <= steps_of(items).len(),
        steps_of(items.take(k)) == steps_of(items).take(steps_of(items.take(k)).len() as int),
    decreases items.len(),
{
    if k == items.len() {
        assert(items.take(k) =~= items);
        assert(steps_of(items) =~= steps_of(items).take(steps_of(items).len() as int));
    } else {
        assert(items.drop_last().take(k) =~= items.take(k));
        lemma_steps_of_prefix(items.drop_last(), k);
        let n = steps_of(items.take(k)).len() as int;
        assert(steps_of(items.drop_last()).take(n) =~= steps_of(items).take(n));
    }
}

/// The first failure among `items`, where there is one.
pub open spec fn first_error<T>(items: Seq<Result<T, Error>>) -> Option<Error>
    decreases items.len(),
{
    if items.len() == 0 {
        None
    } else {
        match first_error(items.drop_last()) {
            Some(e) => Some(e),
            None => match items.last() {
                Err(e) => Some(e),
                Ok(_) => None,
            },
        }
    }
}

/// How many of `items` carry data.
pub open spec fn count_loaded<ND>(
    items: Seq<Result<(Node, Option<ND>, Option<StepStats>), Error>>,
) -> nat
    decreases items.len(),
{
    if items.len() == 0 {
        0
    } else {
        let before = count_loaded(items.drop_last());
        match items.last() {
            Ok((_, Some(_), _)) => before + 1,
            _ => before,
        }
    }
}

/// How many items a drained run had, and how many of them carried data.
#[derive(Clone, Copy, Debug, PartialEq, Eq, Structural)]
pub struct FinalCount {
    pub seen: usize,
    pub loaded: usize,
}

/// The line that tells the count at the end of a run.
pub open spec fn final_count_line(seen: nat, loaded: nat) -> Seq<char> {
    "Final count: ("@ + decimal(seen) + ", "@ + decimal(loaded) + ")"@
}

impl FinalCount {
    /// No item yet.
    pub fn new() -> (c: FinalCount)
        ensures
            c.seen == 0,
            c.loaded == 0,
    {
        FinalCount { seen: 0, loaded: 0 }
    }

    /// The count after one more item, which carries `data` or nothing.
    pub fn observe<ND>(self, data: &Option<ND>) -> (c: FinalCount)
        requires
            self.loaded <= self.seen < usize::MAX,
        ensures
            c.seen == self.seen + 1,
            c.loaded == self.loaded + if data is Some { 1int } else { 0int },
    {
        let data_count: usize = match data {
            None => 0,
            _ => 1,
        };
        FinalCount { seen: self.seen + 1, loaded: self.loaded + data_count }
    }

    /// The line for the log.
    pub fn line(&self) -> (line: String)
        ensures
            line@ == final_count_line(self.seen as nat, self.loaded as nat),
    {
        let mut out = String::from_str("Final count: (");
        push_decimal(&mut out, self.seen as u128);
        out.append(", ");
        push_decimal(&mut out, self.loaded as u128);
        out.append(")");
        out
    }
}

/// What the end of a run tells: the count of its items, and the last report.
pub struct FinalReport {
    pub count: FinalCount,
    pub count_line: String,
    pub report: ProgressReport,
}

/// Drains the output of a walk and makes the last report. The items are
/// counted, and those that carry data. A failure among them ends the run
/// at once: it is handed back, and no report is made.
pub fn report_state<ND>(
    progress_state: &mut ProgressStateCountByType,
    s: Vec<Result<(Node, Option<ND>, Option<StepStats>), Error>>,
) -> (done: Result<FinalReport, Error>)
    requires
        old(progress_state).wf(),
    ensures
        final(progress_state).wf(),
        match first_error(s@) {
            Some(e) => done == Err::<FinalReport, Error>(e) && final(progress_state)@ == old(
                progress_state,
            )@,
            None => {
                &&& done matches Ok(f)
                &&& f.count.seen == s@.len()
                &&& f.count.loaded == count_loaded(s@)
                &&& f.count_line@ == final_count_line(s@.len(), count_loaded(s@))
                &&& f.report@ == old(progress_state)@.report(None)
                &&& final(progress_state)@ == old(progress_state)@.after_report()
            },
        },
{
    let mut count = FinalCount::new();
    let ghost items = s@;
    proof {
        assert(items.len() == s.len());
    }
    for item in it: s
        invariant
            items == it.seq(),
            items.len() <= usize::MAX,
            first_error(items.take(it.index() as int)) is None,
            count.seen == it.index(),
            count.loaded == count_loaded(items.take(it.index() as int)),
            count.loaded <= count.seen,
            progress_state@ == old(progress_state)@,
            progress_state.wf(),
    {
        let ghost i = it.index() as int;
        proof {
            assert(i < items.len());
            assert(items.take(i + 1).drop_last() =~= items.take(i));
            assert(items.take(i + 1).last() == items[i]);
        }
        match item {
            Ok((_n, nd, _ss)) => {
                count = count.observe(&nd);
            },
            Err(e) => {
                proof {
                    lemma_first_error_prefix(items, i + 1);
                }
                return Err(e);
            },
        }
    }
    proof {
        assert(items.take(items.len() as int) =~= items);
    }
    let count_line = count.line();
    let report = progress_state.report_progress();
    Ok(FinalReport { count, count_line, report })
}

/// The first failure of a prefix that has one is the first failure of the whole.
pub proof fn lemma_first_error_prefix<T>(items: Seq<Result<T, Error>>, k: int)
    requires
        0 <= k <= items.len(),
        first_error(items.take(k)) is Some,
    ensures
        first_error(items) == first_error(items.take(k)),
    decreases items.len(),
{
    if k == items.len() {
        assert(items.take(k) =~= items);
    } else {
        assert(items.drop_last().take(k) =~= items.take(k));
        lemma_first_error_prefix(items.drop_last(), k);
    }
}

} // verus!
