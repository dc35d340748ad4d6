//! The state of a run: what was configured, the work done, and what the
//! last report said. Steps are recorded into it and reports are made from it.

use crate::graph::lemma_at_index;
use crate::graph::lemma_index_round_trip;
use crate::graph::Node;
use crate::graph::NodeType;
use crate::graph::NODE_TYPE_COUNT;
use crate::order::dedup_sorted;
use crate::order::sort_by_string;
use crate::order::strictly_sorted_by_name;
use crate::report::detail;
use crate::report::detail_line;
use crate::report::format_line;
use crate::report::log_line;
use crate::report::report_samples;
use crate::report::type_sample_pair;
use crate::report::type_deltas_view;
use crate::report::type_samples;
use crate::report::Counter;
use crate::report::CounterSample;
use crate::report::ProgressReport;
use crate::report::ReportView;
use crate::report::TypeDelta;
use crate::summary::Counts;
use crate::summary::ProgressSummary;
use crate::summary::StepStats;
use crate::summary::MAX_COUNT;
use crate::time::clock_elapsed;
use crate::time::clock_now;
use crate::time::millis_of;
use crate::time::secs_of;
use crate::time::since;
use crate::time::Duration;
use crate::work::lemma_counts_le_total;
use crate::work::lemma_record_total;
use crate::work::stats_of;
use crate::work::ProgressStateWorkByType;
use crate::work::Step;
use crate::work::WorkView;
use std::collections::HashMap;
use std::time::Instant;
use vstd::prelude::*;

verus! {

broadcast use vstd::std_specs::hash::group_hash_axioms;

/// Why a run could not be configured.
#[derive(Clone, Copy, Debug, PartialEq, Eq, Structural)]
pub enum ProgressError {
    /// The sample rate is zero: no step count is a multiple of it.
    ZeroSampleRate,
}

/// How often to report.
#[derive(Clone, Copy, Debug)]
pub struct ProgressOptions {
    /// A report is considered at every step count that is a multiple of this.
    pub sample_rate: u64,
    /// The least time between two reports.
    pub interval: Duration,
}

/// What a run was configured with.
pub struct ProgressStateByTypeParams {
    subcommand_stats_key: &'static str,
    repo_stats_key: String,
    types_sorted_by_name: Vec<NodeType>,
    options: ProgressOptions,
}

/// The model of the configuration.
pub struct ParamsView {
    pub subcommand: Seq<char>,
    pub repo: Seq<char>,
    pub types: Seq<NodeType>,
    pub sample_rate: nat,
    pub interval: nat,
}

impl View for ProgressStateByTypeParams {
    type V = ParamsView;

    closed spec fn view(&self) -> ParamsView {
        ParamsView {
            subcommand: self.subcommand_stats_key@,
            repo: self.repo_stats_key@,
            types: self.types_sorted_by_name@,
            sample_rate: self.options.sample_rate as nat,
            interval: self.options.interval@,
        }
    }
}

impl ProgressStateByTypeParams {
    /// The label of the subcommand, for the metrics sink.
    pub fn subcommand_stats_key(&self) -> (key: &'static str)
        ensures
            key@ == self@.subcommand,
    {
        self.subcommand_stats_key
    }

    /// The label of the repository, for the metrics sink.
    pub fn repo_stats_key(&self) -> (key: &String)
        ensures
            key@ == self@.repo,
    {
        &self.repo_stats_key
    }

    /// The types of the breakdown, in the order of their names.
    pub fn types_sorted_by_name(&self) -> (types: &Vec<NodeType>)
        ensures
            types@ == self@.types,
    {
        &self.types_sorted_by_name
    }

    /// How often to report.
    pub fn options(&self) -> (options: ProgressOptions)
        ensures
            options.sample_rate == self@.sample_rate,
            options.interval@ == self@.interval,
    {
        self.options
    }
}

/// What the last report said, and when the last throttled report was made.
pub struct ProgressStateReporting {
    start_time: Instant,
    last_summary_by_type: HashMap<u64, ProgressSummary>,
    last_summary: ProgressSummary,
    last_update: Duration,
}

/// The model of the reporting state. Times are in nanoseconds since the
/// start of the run.
pub struct ReportingView {
    pub last_by_type: Map<NodeType, Counts>,
    pub last_summary: Counts,
    pub last_update: nat,
}

impl ReportingView {
    /// Nothing reported yet, at the start of the run.
    pub open spec fn initial() -> ReportingView {
        ReportingView { last_by_type: Map::empty(), last_summary: Counts::zero(), last_update: 0 }
    }

    /// What the last report said of type `t`; all zero where it said nothing.
    pub open spec fn last_of(self, t: NodeType) -> Counts {
        if self.last_by_type.contains_key(t) {
            self.last_by_type[t]
        } else {
            Counts::zero()
        }
    }
}

impl View for ProgressStateReporting {
    type V = ReportingView;

    closed spec fn view(&self) -> ReportingView {
        ReportingView {
            last_by_type: Map::new(
                |t: NodeType| self.last_summary_by_type@.contains_key(t.spec_index()),
                |t: NodeType| self.last_summary_by_type@[t.spec_index()]@,
            ),
            last_summary: self.last_summary@,
            last_update: self.last_update@,
        }
    }
}

impl ProgressStateReporting {
    /// What the last report said of type `t`, where it said anything.
    pub fn last_summary_of(&self, t: NodeType) -> (s: Option<ProgressSummary>)
        ensures
            s is Some <==> self@.last_by_type.contains_key(t),
            s matches Some(c) ==> c@ == self@.last_by_type[t],
    {
        let k = t.index();
        match self.last_summary_by_type.get(&k) {
            Some(s) => Some(*s),
            None => None,
        }
    }

    /// The totals of the last report.
    pub fn last_summary(&self) -> (s: ProgressSummary)
        ensures
            s@ == self@.last_summary,
    {
        self.last_summary
    }

    /// When the last throttled report was made, since the start of the run.
    pub fn last_update(&self) -> (at: Duration)
        ensures
            at@ == self@.last_update,
    {
        self.last_update
    }
}

/// The model of a run's state.
pub struct ProgressView {
    pub params: ParamsView,
    pub work: WorkView,
    pub reporting: ReportingView,
}

impl ProgressView {
    /// The sample rate is not zero, the types of the breakdown are in the
    /// order of their names, and the last report said no more than the
    /// work that is done.
    pub open spec fn wf(self) -> bool {
        &&& self.params.sample_rate > 0
        &&& strictly_sorted_by_name(self.params.types)
        &&& self.work.wf()
        &&& forall|t: NodeType| #[trigger]
            self.reporting.last_of(t).le(self.work.counts_of(t))
        &&& self.reporting.last_summary.le(self.work.total())
    }

    /// The state after one more step, at a node of type `t` with the statistics `ss`.
    pub open spec fn record(self, t: NodeType, ss: Option<StepStats>) -> ProgressView {
        ProgressView { work: self.work.record(t, ss), ..self }
    }

    /// The time from the last throttled report to `now`.
    pub open spec fn elapsed(self, now: nat) -> nat {
        since(now, self.reporting.last_update)
    }

    /// Whether a throttled report is due at `now`: the number of steps is a
    /// multiple of the sample rate, and the interval has passed since the last one.
    pub open spec fn fires(self, now: nat) -> bool {
        &&& self.work.total_progress % self.params.sample_rate == 0
        &&& self.elapsed(now) >= self.params.interval
    }

    /// The state after the throttle was asked at `now`.
    pub open spec fn throttled(self, now: nat) -> ProgressView {
        if self.fires(now) {
            ProgressView { reporting: ReportingView { last_update: now, ..self.reporting }, ..self }
        } else {
            self
        }
    }

    /// By how much the counters of type `t` grew since the last report.
    pub open spec fn delta_of(self, t: NodeType) -> Counts {
        self.work.counts_of(t).minus(self.reporting.last_of(t))
    }

    /// By how much the totals grew since the last report.
    pub open spec fn delta(self) -> Counts {
        self.work.total().minus(self.reporting.last_summary)
    }

    /// The deltas of those of the first `n` types that were met, in the
    /// order in which the types are declared.
    pub open spec fn type_deltas_below(self, n: nat) -> Seq<(NodeType, Counts)>
        decreases n,
    {
        if n == 0 {
            Seq::empty()
        } else {
            let t = NodeType::at(n - 1);
            let before = self.type_deltas_below((n - 1) as nat);
            if self.work.by_type.contains_key(t) {
                before.push((t, self.delta_of(t)))
            } else {
                before
            }
        }
    }

    /// The deltas of all types that were met.
    pub open spec fn type_deltas(self) -> Seq<(NodeType, Counts)> {
        self.type_deltas_below(NODE_TYPE_COUNT as nat)
    }

    /// The rate per second since the last report, where `delta_time` says
    /// how long ago that was: zero where it does not say, and over less
    /// than a millisecond.
    pub open spec fn delta_rate(self, delta_time: Option<nat>) -> Counts {
        match delta_time {
            Some(d) => self.delta().per_second(millis_of(d)),
            None => Counts::zero(),
        }
    }

    /// The rate per second of the run up to the last throttled report.
    pub open spec fn total_rate(self) -> Counts {
        self.work.total().per_second(millis_of(self.reporting.last_update))
    }

    /// The report that is made in this state.
    pub open spec fn report(self, delta_time: Option<nat>) -> ReportView {
        let delta_secs = match delta_time {
            Some(d) => secs_of(d),
            None => 0,
        };
        let total_secs = secs_of(self.reporting.last_update);
        ReportView {
            line: log_line(
                self.delta_rate(delta_time),
                self.delta(),
                delta_secs,
                self.total_rate(),
                self.work.total(),
                total_secs,
                detail(self.params.types, self.work),
            ),
            samples: report_samples(self.type_deltas(), self.delta()),
            type_deltas: self.type_deltas(),
            delta: self.delta(),
            total: self.work.total(),
            delta_rate: self.delta_rate(delta_time),
            total_rate: self.total_rate(),
            delta_secs,
            total_secs,
        }
    }

    /// The state after a report: it remembers the work as it is now.
    pub open spec fn after_report(self) -> ProgressView {
        ProgressView {
            reporting: ReportingView {
                last_by_type: self.work.by_type,
                last_summary: self.work.total(),
                ..self.reporting
            },
            ..self
        }
    }

    /// The report that a throttled report at `now` makes, if it is due.
    pub open spec fn throttled_report(self, now: nat) -> Option<ReportView> {
        if self.fires(now) {
            Some(self.throttled(now).report(Some(self.elapsed(now))))
        } else {
            None
        }
    }

    /// The state after a throttled report at `now`.
    pub open spec fn after_throttled_report(self, now: nat) -> ProgressView {
        if self.fires(now) {
            self.throttled(now).after_report()
        } else {
            self
        }
    }

    /// The state after an item of the walker's output was seen at `now`:
    /// its step is recorded, where it is no failure, and unless `quiet`
    /// the throttle is asked and a report made where one is due.
    pub open spec fn observed(self, quiet: bool, step: Option<Step>, now: nat) -> ProgressView {
        match step {
            Some(step) => {
                let recorded = self.record(step.node_type, step.stats);
                if quiet {
                    recorded
                } else {
                    recorded.after_throttled_report(now)
                }
            },
            None => self,
        }
    }

    /// The state after a run of items was seen, the item at place `i` at the
    /// time `times[i]`.
    pub open spec fn observed_all(
        self,
        quiet: bool,
        steps: Seq<Option<Step>>,
        times: Seq<nat>,
    ) -> ProgressView
        decreases steps.len(),
    {
        if steps.len() == 0 || times.len() != steps.len() {
            self
        } else {
            self.observed_all(quiet, steps.drop_last(), times.drop_last()).observed(
                quiet,
                steps.last(),
                times.last(),
            )
        }
    }

    /// The reports that seeing a run of items brings, in their order.
    pub open spec fn reports_all(
        self,
        quiet: bool,
        steps: Seq<Option<Step>>,
        times: Seq<nat>,
    ) -> Seq<ReportView>
        decreases steps.len(),
    {
        if steps.len() == 0 || times.len() != steps.len() {
            Seq::empty()
        } else {
            let before = self.observed_all(quiet, steps.drop_last(), times.drop_last());
            let reports = self.reports_all(quiet, steps.drop_last(), times.drop_last());
            match before.observed_report(quiet, steps.last(), times.last()) {
                Some(report) => reports.push(report),
                None => reports,
            }
        }
    }

    /// The report that seeing an item at `now` brings, if any.
    pub open spec fn observed_report(self, quiet: bool, step: Option<Step>, now: nat) -> Option<
        ReportView,
    > {
        match step {
            Some(step) => {
                if quiet {
                    None
                } else {
                    self.record(step.node_type, step.stats).throttled_report(now)
                }
            },
            None => None,
        }
    }
}

/// The state of one run of the walk.
pub struct ProgressStateCountByType {
    params: ProgressStateByTypeParams,
    work_stats: ProgressStateWorkByType,
    reporting_stats: ProgressStateReporting,
}

impl View for ProgressStateCountByType {
    type V = ProgressView;

    closed spec fn view(&self) -> ProgressView {
        ProgressView {
            params: self.params@,
            work: self.work_stats@,
            reporting: self.reporting_stats@,
        }
    }
}

/// What `report` stands for, where there is one.
pub open spec fn report_view(report: Option<ProgressReport>) -> Option<ReportView> {
    match report {
        Some(r) => Some(r@),
        None => None,
    }
}

impl ProgressStateCountByType {
    /// The state is one that `new` makes or that the operations below leave.
    pub open spec fn wf(&self) -> bool {
        self@.wf()
    }

    /// The state at the start of a run. The types of the breakdown are
    /// `included_types`, each once. A sample rate of zero is refused.
    pub fn new(
        subcommand_stats_key: &'static str,
        repo_stats_key: String,
        included_types: Vec<NodeType>,
        options: ProgressOptions,
    ) -> (state: Result<ProgressStateCountByType, ProgressError>)
        ensures
            options.sample_rate == 0 ==> state == Err::<ProgressStateCountByType, ProgressError>(
                ProgressError::ZeroSampleRate,
            ),
            options.sample_rate > 0 ==> state is Ok,
            state matches Ok(s) ==> {
                &&& s.wf()
                &&& s@.params.subcommand == subcommand_stats_key@
                &&& s@.params.repo == repo_stats_key@
                &&& s@.params.sample_rate == options.sample_rate
                &&& s@.params.interval == options.interval@
                &&& strictly_sorted_by_name(s@.params.types)
                &&& s@.params.types.to_set() == included_types@.to_set()
                &&& s@.work == WorkView::empty()
                &&& s@.reporting == ReportingView::initial()
            },
    {
        if options.sample_rate == 0 {
            return Err(ProgressError::ZeroSampleRate);
        }
        let ghost included = included_types@;
        let sorted = sort_by_string(included_types);
        proof {
            sorted@.to_multiset_ensures();
            included.to_multiset_ensures();
            assert(sorted@.to_set() =~= included.to_set()) by {
                assert forall|t: NodeType|
                    sorted@.to_set().contains(t) <==> included.to_set().contains(t) by {
                    assert(sorted@.contains(t) <==> sorted@.to_multiset().count(t) > 0);
                    assert(included.contains(t) <==> included.to_multiset().count(t) > 0);
                }
            }
        }
        let types_by_name = dedup_sorted(sorted);
        let now = clock_now();
        let state = ProgressStateCountByType {
            params: ProgressStateByTypeParams {
                subcommand_stats_key,
                repo_stats_key,
                types_sorted_by_name: types_by_name,
                options,
            },
            work_stats: ProgressStateWorkByType::new(),
            reporting_stats: ProgressStateReporting {
                start_time: now,
                last_summary_by_type: HashMap::new(),
                last_summary: ProgressSummary::default(),
                last_update: Duration::from_nanos(0),
            },
        };
        proof {
            assert(state@.reporting.last_by_type =~= Map::<NodeType, Counts>::empty());
        }
        Ok(state)
    }

    /// What the run was configured with.
    pub fn params(&self) -> (params: &ProgressStateByTypeParams)
        ensures
            params@ == self@.params,
    {
        &self.params
    }

    /// The work done so far.
    pub fn work_stats(&self) -> (work: &ProgressStateWorkByType)
        ensures
            work@ == self@.work,
    {
        &self.work_stats
    }

    /// What the last report said.
    pub fn reporting_stats(&self) -> (reporting: &ProgressStateReporting)
        ensures
            reporting@ == self@.reporting,
    {
        &self.reporting_stats
    }

    /// Asks the throttle at the time `now` since the start of the run. A
    /// report is due where the number of steps is a multiple of the
    /// sample rate and the interval has passed since the last throttled
    /// report. Then the time since that report is returned, and `now` is
    /// remembered as the time of the last one.
    pub fn should_log_throttled_at(&mut self, now: Duration) -> (fired: Option<Duration>)
        requires
            old(self).wf(),
        ensures
            final(self).wf(),
            final(self)@ == old(self)@.throttled(now@),
            fired is Some <==> old(self)@.fires(now@),
            fired matches Some(d) ==> d@ == old(self)@.elapsed(now@),
    {
        if self.work_stats.total_progress() % self.params.options.sample_rate == 0 {
            let delta_time = now.saturating_sub(&self.reporting_stats.last_update);
            if delta_time.nanos >= self.params.options.interval.nanos {
                self.reporting_stats.last_update = now;
                proof {
                    assert forall|t: NodeType| #[trigger]
                        self@.reporting.last_of(t).le(self@.work.counts_of(t)) by {
                        assert(old(self)@.reporting.last_of(t).le(old(self)@.work.counts_of(t)));
                    }
                }
                return Some(delta_time);
            }
        }
        None
    }

    /// Asks the throttle at the time that the clock shows.
    pub fn should_log_throttled(&mut self) -> (fired: Option<Duration>)
        requires
            old(self).wf(),
        ensures
            final(self).wf(),
            exists|now: nat|
                {
                    &&& final(self)@ == #[trigger] old(self)@.throttled(now)
                    &&& fired is Some <==> old(self)@.fires(now)
                    &&& fired matches Some(d) ==> d@ == old(self)@.elapsed(now)
                },
    {
        let now = Duration::from_nanos(clock_elapsed(&self.reporting_stats.start_time));
        self.should_log_throttled_at(now)
    }

    /// The two samples of one type for the metrics sink.
    fn report_stats(node_type: &NodeType, delta: &ProgressSummary, samples: &mut Vec<CounterSample>)
        requires
            delta@.within(MAX_COUNT as nat),
        ensures
            final(samples)@ == old(samples)@ + type_sample_pair(*node_type, delta@),
    {
        samples.push(
            CounterSample {
                counter: Counter::Walked,
                node_type: Some(*node_type),
                value: delta.walked as i64,
            },
        );
        samples.push(
            CounterSample {
                counter: Counter::Errors,
                node_type: Some(*node_type),
                value: delta.errors as i64,
            },
        );
        proof {
            assert(samples@ =~= old(samples)@ + type_sample_pair(*node_type, delta@));
        }
    }

    /// Makes a report: by how much the counters grew since the last
    /// report, at what rate, and the totals of the run. `delta_time` is
    /// the time since the last report, where the caller knows it. The
    /// state then remembers the work as it is now.
    pub fn report_progress_log(&mut self, delta_time: Option<Duration>) -> (report: ProgressReport)
        requires
            old(self).wf(),
        ensures
            final(self).wf(),
            final(self)@ == old(self)@.after_report(),
            report@ == old(self)@.report(duration_view(delta_time)),
    {
        let ghost view = self@;
        let mut summary_by_type: HashMap<u64, ProgressSummary> = HashMap::new();
        let mut type_deltas: Vec<TypeDelta> = Vec::new();
        let mut samples: Vec<CounterSample> = Vec::new();
        let mut i: u64 = 0;
        while i < NODE_TYPE_COUNT
            invariant
                i <= NODE_TYPE_COUNT,
                self@ == view,
                view.wf(),
                forall|k: u64| #[trigger] summary_by_type@.contains_key(k) ==> k < i,
                forall|t: NodeType|
                    t.spec_index() < i ==> (#[trigger] summary_by_type@.contains_key(
                        t.spec_index(),
                    ) <==> view.work.by_type.contains_key(t)),
                forall|t: NodeType|
                    t.spec_index() < i && view.work.by_type.contains_key(t)
                        ==> #[trigger] summary_by_type@[t.spec_index()]@ == view.work.by_type[t],
                type_deltas_view(type_deltas@) == view.type_deltas_below(i as nat),
                samples@ == type_samples(view.type_deltas_below(i as nat)),
            decreases NODE_TYPE_COUNT - i,
        {
            let ghost deltas_before = type_deltas@;
            match NodeType::from_index(i) {
                Some(t) => {
                    proof {
                        lemma_at_index(i as int);
                        assert(NodeType::at(i as int) == t);
                    }
                    match self.work_stats.summary_of(t) {
                        Some(s) => {
                            let last = match self.reporting_stats.last_summary_of(t) {
                                Some(l) => l,
                                None => ProgressSummary::default(),
                            };
                            proof {
                                assert(view.reporting.last_of(t).le(view.work.counts_of(t)));
                                lemma_counts_le_total(view.work, t);
                            }
                            let delta = s - last;
                            Self::report_stats(&t, &delta, &mut samples);
                            type_deltas.push(TypeDelta { node_type: t, delta });
                            summary_by_type.insert(i, s);
                            proof {
                                assert(delta@ == view.delta_of(t));
                                assert(type_deltas_view(type_deltas@) =~= type_deltas_view(
                                    deltas_before,
                                ).push((t, delta@)));
                                let next = view.type_deltas_below((i + 1) as nat);
                                assert(next.drop_last() =~= view.type_deltas_below(i as nat));
                                assert forall|u: NodeType|
                                    u.spec_index() < i + 1 implies (
                                    #[trigger] summary_by_type@.contains_key(u.spec_index())
                                        <==> view.work.by_type.contains_key(u)) by {
                                    lemma_index_round_trip(u);
                                    lemma_index_round_trip(t);
                                }
                                assert forall|u: NodeType|
                                    u.spec_index() < i + 1 && view.work.by_type.contains_key(
                                        u,
                                    ) implies #[trigger] summary_by_type@[u.spec_index()]@
                                    == view.work.by_type[u] by {
                                    lemma_index_round_trip(u);
                                    lemma_index_round_trip(t);
                                }
                            }
                        },
                        None => {
                            proof {
                                assert forall|u: NodeType|
                                    u.spec_index() < i + 1 implies (
                                    #[trigger] summary_by_type@.contains_key(u.spec_index())
                                        <==> view.work.by_type.contains_key(u)) by {
                                    lemma_index_round_trip(u);
                                    lemma_index_round_trip(t);
                                }
                            }
                        },
                    }
                },
                None => {},
            }
            i = i + 1;
        }
        let new_summary = self.work_stats.total();
        let delta_summary = new_summary - self.reporting_stats.last_summary;
        let detail = detail_line(&self.params.types_sorted_by_name, &self.work_stats);
        let (delta_secs, delta_rate) = match delta_time {
            Some(d) => (d.as_secs(), delta_summary.per_second(d.as_millis())),
            None => (0, ProgressSummary::default()),
        };
        let total_time = self.reporting_stats.last_update;
        let total_rate = new_summary.per_second(total_time.as_millis());
        let total_secs = total_time.as_secs();
        let line = format_line(
            &delta_rate,
            &delta_summary,
            delta_secs,
            &total_rate,
            &new_summary,
            total_secs,
            detail.as_str(),
        );
        samples.push(
            CounterSample {
                counter: Counter::Walked,
                node_type: None,
                value: delta_summary.walked as i64,
            },
        );
        samples.push(
            CounterSample {
                counter: Counter::Queued,
                node_type: None,
                value: delta_summary.queued as i64,
            },
        );
        samples.push(
            CounterSample {
                counter: Counter::Errors,
                node_type: None,
                value: delta_summary.errors as i64,
            },
        );
        self.reporting_stats.last_summary_by_type = summary_by_type;
        self.reporting_stats.last_summary = new_summary;
        let report = ProgressReport {
            line,
            samples,
            type_deltas,
            delta: delta_summary,
            total: new_summary,
            delta_rate,
            total_rate,
            delta_secs,
            total_secs,
        };
        proof {
            assert(report@.samples =~= report_samples(view.type_deltas(), view.delta()));
            assert(self@.reporting.last_by_type =~= view.work.by_type) by {
                assert forall|u: NodeType|
                    self@.reporting.last_by_type.contains_key(u)
                        <==> view.work.by_type.contains_key(u) by {
                    lemma_index_round_trip(u);
                }
                assert forall|u: NodeType|
                    view.work.by_type.contains_key(u) implies self@.reporting.last_by_type[u]
                    == view.work.by_type[u] by {
                    lemma_index_round_trip(u);
                }
            }
            assert(self@ == view.after_report());
            assert(report@ == view.report(duration_view(delta_time)));
        }
        report
    }

    /// Makes a throttled report at the time `now` since the start of the
    /// run: a report where one is due, and none otherwise.
    pub fn report_throttled_at(&mut self, now: Duration) -> (report: Option<ProgressReport>)
        requires
            old(self).wf(),
        ensures
            final(self).wf(),
            final(self)@ == old(self)@.after_throttled_report(now@),
            report_view(report) == old(self)@.throttled_report(now@),
    {
        match self.should_log_throttled_at(now) {
            Some(delta_time) => Some(self.report_progress_log(Some(delta_time))),
            None => None,
        }
    }
}

/// What records the steps of a walk, for one caller at a time.
pub trait ProgressRecorderUnprotected<SS> {
    /// The recorder is in a state that its own operations leave it in.
    spec fn recorder_valid(&self) -> bool;

    /// There is room for one more step with the statistics `ss`.
    spec fn has_room(&self, ss: Option<&SS>) -> bool;

    /// Whether there is room for one more step with the statistics `ss`.
    fn can_record(&self, ss: Option<&SS>) -> (room: bool)
        requires
            self.recorder_valid(),
        ensures
            room == self.has_room(ss),
    ;

    /// Records one step at the node `n`.
    fn record_step(&mut self, n: &Node, ss: Option<&SS>)
        requires
            old(self).recorder_valid(),
            old(self).has_room(ss),
        ensures
            final(self).recorder_valid(),
    ;

    /// Hands the recorder a builder of samples, for a recorder that sends
    /// samples of its own.
    fn set_sample_builder<S>(&mut self, s: S)
        requires
            old(self).recorder_valid(),
        ensures
            final(self).recorder_valid(),
    ;
}

/// What reports the progress of a walk, for one caller at a time.
pub trait ProgressReporterUnprotected {
    /// The reporter is in a state that its own operations leave it in.
    spec fn reporter_valid(&self) -> bool;

    /// Reports in any case, as at the end of a run.
    fn report_progress(&mut self) -> (report: ProgressReport)
        requires
            old(self).reporter_valid(),
        ensures
            final(self).reporter_valid(),
    ;

    /// Reports where the throttle finds a report due, and not otherwise.
    fn report_throttled(&mut self) -> (report: Option<ProgressReport>)
        requires
            old(self).reporter_valid(),
        ensures
            final(self).reporter_valid(),
    ;
}

impl ProgressRecorderUnprotected<StepStats> for ProgressStateCountByType {
    open spec fn recorder_valid(&self) -> bool {
        self.wf()
    }

    open spec fn has_room(&self, ss: Option<&StepStats>) -> bool {
        self@.work.has_room(stats_of(ss))
    }

    fn can_record(&self, ss: Option<&StepStats>) -> (room: bool) {
        self.work_stats.can_record(ss)
    }

    /// The step is added to the work done; what the last report said stays.
    fn record_step(&mut self, n: &Node, ss: Option<&StepStats>)
        ensures
            final(self)@ == old(self)@.record(n.node_type, stats_of(ss)),
    {
        proof {
            lemma_record_preserves_wf(self@, n.node_type, stats_of(ss));
        }
        self.work_stats.record_step(n, ss);
    }

    /// This recorder sends no samples of its own: the builder is let go.
    fn set_sample_builder<S>(&mut self, _s: S)
        ensures
            final(self)@ == old(self)@,
    {
    }
}

impl ProgressReporterUnprotected for ProgressStateCountByType {
    open spec fn reporter_valid(&self) -> bool {
        self.wf()
    }

    /// The report says nothing of the time since the last one.
    fn report_progress(&mut self) -> (report: ProgressReport)
        ensures
            final(self)@ == old(self)@.after_report(),
            report@ == old(self)@.report(None),
    {
        self.report_progress_log(None)
    }

    /// The throttle is asked at the time that the clock shows.
    fn report_throttled(&mut self) -> (report: Option<ProgressReport>)
        ensures
            exists|now: nat|
                {
                    &&& final(self)@ == #[trigger] old(self)@.after_throttled_report(now)
                    &&& report_view(report) == old(self)@.throttled_report(now)
                },
    {
        let now = Duration::from_nanos(clock_elapsed(&self.reporting_stats.start_time));
        self.report_throttled_at(now)
    }
}

/// A step leaves a valid state valid: the last report still says no more
/// than the work that is done.
pub proof fn lemma_record_preserves_wf(s: ProgressView, t: NodeType, ss: Option<StepStats>)
    requires
        s.wf(),
        s.work.has_room(ss),
    ensures
        s.record(t, ss).wf(),
{
    let after = s.record(t, ss);
    lemma_record_total(s.work, t, ss);
    assert forall|u: NodeType| #[trigger]
        after.reporting.last_of(u).le(after.work.counts_of(u)) by {
        assert(s.reporting.last_of(u).le(s.work.counts_of(u)));
    }
}

/// The nanoseconds of `d`, where there is one.
pub open spec fn duration_view(d: Option<Duration>) -> Option<nat> {
    match d {
        Some(d) => Some(d@),
        None => None,
    }
}

} // verus!
