use walker_progress::Counter;
use walker_progress::CounterSample;
use walker_progress::Duration;
use walker_progress::Node;
use walker_progress::NodeType;
use walker_progress::ProgressError;
use walker_progress::ProgressOptions;
use walker_progress::ProgressRecorderUnprotected;
use walker_progress::ProgressReporterUnprotected;
use walker_progress::ProgressStateCountByType;
use walker_progress::ProgressSummary;
use walker_progress::StepStats;
use walker_progress::TypeDelta;

const TYPE_A: NodeType = NodeType::HgChangeset;
const TYPE_B: NodeType = NodeType::FileContent;

fn state(sample_rate: u64, interval_millis: u64, types: Vec<NodeType>) -> ProgressStateCountByType {
    let options = ProgressOptions { sample_rate, interval: Duration::from_millis(interval_millis) };
    ProgressStateCountByType::new("scrub", String::from("repo"), types, options).unwrap()
}

fn record(state: &mut ProgressStateCountByType, t: NodeType, stats: Option<StepStats>, times: u64) {
    for id in 0..times {
        assert!(state.can_record(stats.as_ref()));
        state.record_step(&Node::new(t, id), stats.as_ref());
    }
}

fn record_five_steps(state: &mut ProgressStateCountByType) {
    record(state, TYPE_A, Some(StepStats::new(0, 2, 1)), 3);
    record(state, TYPE_B, Some(StepStats::new(0, 1, 0)), 2);
}

#[test]
fn new_refuses_a_sample_rate_of_zero() {
    let options = ProgressOptions { sample_rate: 0, interval: Duration::from_millis(10) };
    let refused =
        ProgressStateCountByType::new("scrub", String::from("repo"), vec![TYPE_A], options);
    assert!(matches!(refused, Err(ProgressError::ZeroSampleRate)));
}

#[test]
fn new_starts_with_nothing_recorded() {
    let s = state(7, 250, vec![TYPE_A, TYPE_B, TYPE_A]);
    assert_eq!(s.params().subcommand_stats_key(), "scrub");
    assert_eq!(s.params().repo_stats_key(), "repo");
    assert_eq!(s.params().options().sample_rate, 7);
    assert_eq!(s.params().options().interval, Duration::from_millis(250));
    assert_eq!(s.params().types_sorted_by_name(), &vec![TYPE_B, TYPE_A]);
    assert_eq!(s.work_stats().total_progress(), 0);
    assert_eq!(s.work_stats().total(), ProgressSummary::default());
    assert_eq!(s.work_stats().summary_of(TYPE_A), None);
    assert_eq!(s.reporting_stats().last_summary(), ProgressSummary::default());
    assert_eq!(s.reporting_stats().last_summary_of(TYPE_A), None);
    assert_eq!(s.reporting_stats().last_update(), Duration::from_nanos(0));
}

#[test]
fn record_step_counts_steps_by_type() {
    let mut s = state(1, 0, vec![TYPE_A, TYPE_B]);
    record(&mut s, TYPE_A, None, 4);
    record(&mut s, TYPE_B, Some(StepStats::new(1, 2, 3)), 2);
    record(&mut s, TYPE_A, Some(StepStats::new(0, 5, 1)), 1);
    assert_eq!(s.work_stats().total_progress(), 7);
    assert_eq!(s.work_stats().summary_of(TYPE_A), Some(ProgressSummary::new(5, 1, 5, 0)));
    assert_eq!(s.work_stats().summary_of(TYPE_B), Some(ProgressSummary::new(2, 6, 4, 2)));
    assert_eq!(s.work_stats().summary_of(NodeType::Bookmark), None);
    assert_eq!(s.work_stats().total(), ProgressSummary::new(7, 7, 9, 2));
}

#[test]
fn record_step_leaves_the_last_report_alone() {
    let mut s = state(1, 0, vec![TYPE_A]);
    record(&mut s, TYPE_A, None, 2);
    s.report_progress();
    record(&mut s, TYPE_A, None, 3);
    assert_eq!(s.reporting_stats().last_summary(), ProgressSummary::new(2, 0, 0, 0));
    assert_eq!(s.reporting_stats().last_summary_of(TYPE_A), Some(ProgressSummary::new(2, 0, 0, 0)));
}

#[test]
fn can_record_up_to_the_limit() {
    let limit = walker_progress::summary::MAX_COUNT;
    let mut s = state(1, 0, vec![TYPE_A]);
    assert!(s.can_record(None));
    assert!(s.can_record(Some(&StepStats::new(limit, limit, limit))));
    assert!(!s.can_record(Some(&StepStats::new(limit + 1, 0, 0))));
    assert!(!s.can_record(Some(&StepStats::new(0, limit + 1, 0))));
    assert!(!s.can_record(Some(&StepStats::new(0, 0, u64::MAX))));
    s.record_step(&Node::new(TYPE_A, 1), Some(&StepStats::new(limit, 0, 0)));
    assert!(s.can_record(None));
    assert!(!s.can_record(Some(&StepStats::new(1, 0, 0))));
    assert!(s.can_record(Some(&StepStats::new(0, 1, 1))));
}

#[test]
fn report_after_five_steps_of_two_types() {
    let mut s = state(1, 0, vec![TYPE_A, TYPE_B]);
    record_five_steps(&mut s);
    let report = s.report_progress_log(None);
    assert_eq!(report.delta, ProgressSummary::new(5, 3, 8, 0));
    assert_eq!(report.total, ProgressSummary::new(5, 3, 8, 0));
    assert_eq!(
        report.type_deltas,
        vec![
            TypeDelta { node_type: TYPE_A, delta: ProgressSummary::new(3, 3, 6, 0) },
            TypeDelta { node_type: TYPE_B, delta: ProgressSummary::new(2, 0, 2, 0) },
        ]
    );
    assert_eq!(s.work_stats().summary_of(TYPE_A), Some(ProgressSummary::new(3, 3, 6, 0)));
    assert_eq!(s.work_stats().summary_of(TYPE_B), Some(ProgressSummary::new(2, 0, 2, 0)));
}

#[test]
fn report_line_after_five_steps() {
    let mut s = state(1, 0, vec![TYPE_A, TYPE_B]);
    record_five_steps(&mut s);
    let report = s.report_progress_log(None);
    assert_eq!(
        report.line,
        "Walked/s,Children/s,Walked,Errors,Children,Time; \
         Delta 000000/s,000000/s,5,0,8,0s; \
         Run 000000/s,000000/s,5,0,8,0s; \
         Type:Walked,Checks,Children FileContent:2,0,2 HgChangeset:3,3,6"
    );
}

#[test]
fn report_samples_after_five_steps() {
    let mut s = state(1, 0, vec![TYPE_A, TYPE_B]);
    record(&mut s, TYPE_A, Some(StepStats::new(1, 2, 1)), 3);
    record(&mut s, TYPE_B, Some(StepStats::new(0, 1, 0)), 2);
    let report = s.report_progress_log(None);
    let sample = |counter, node_type, value| CounterSample { counter, node_type, value };
    assert_eq!(
        report.samples,
        vec![
            sample(Counter::Walked, Some(TYPE_A), 3),
            sample(Counter::Errors, Some(TYPE_A), 3),
            sample(Counter::Walked, Some(TYPE_B), 2),
            sample(Counter::Errors, Some(TYPE_B), 0),
            sample(Counter::Walked, None, 5),
            sample(Counter::Queued, None, 8),
            sample(Counter::Errors, None, 3),
        ]
    );
}

#[test]
fn two_reports_two_seconds_apart() {
    let mut s = state(1, 0, vec![TYPE_A]);
    record(&mut s, TYPE_A, None, 4);
    s.report_progress_log(None);
    record(&mut s, TYPE_A, Some(StepStats::new(0, 3, 0)), 10);
    let report = s.report_progress_log(Some(Duration::from_millis(2000)));
    assert_eq!(report.delta.walked, 10);
    assert_eq!(report.delta_rate.walked, 5);
    assert_eq!(report.delta_rate.queued, 15);
    assert_eq!(report.delta_secs, 2);
    assert_eq!(report.total.walked, 14);
    assert!(report.line.contains("; Delta 000005/s,000015/s,10,0,30,2s; "));
}

#[test]
fn report_deltas_are_what_was_recorded_since_the_last_report() {
    let mut s = state(1, 0, vec![TYPE_A, TYPE_B]);
    record_five_steps(&mut s);
    s.report_progress();
    record(&mut s, TYPE_B, Some(StepStats::new(2, 7, 1)), 4);
    let report = s.report_progress();
    assert_eq!(report.delta, ProgressSummary::new(4, 4, 28, 8));
    assert_eq!(report.total, ProgressSummary::new(9, 7, 36, 8));
    assert_eq!(
        report.type_deltas,
        vec![
            TypeDelta { node_type: TYPE_A, delta: ProgressSummary::default() },
            TypeDelta { node_type: TYPE_B, delta: ProgressSummary::new(4, 4, 28, 8) },
        ]
    );
    let again = s.report_progress();
    assert_eq!(again.delta, ProgressSummary::default());
    assert_eq!(again.total, ProgressSummary::new(9, 7, 36, 8));
}

#[test]
fn report_remembers_the_work() {
    let mut s = state(1, 0, vec![TYPE_A, TYPE_B]);
    record_five_steps(&mut s);
    s.report_progress();
    assert_eq!(s.reporting_stats().last_summary(), ProgressSummary::new(5, 3, 8, 0));
    assert_eq!(s.reporting_stats().last_summary_of(TYPE_A), Some(ProgressSummary::new(3, 3, 6, 0)));
    assert_eq!(s.reporting_stats().last_summary_of(TYPE_B), Some(ProgressSummary::new(2, 0, 2, 0)));
    assert_eq!(s.reporting_stats().last_summary_of(NodeType::Bookmark), None);
    assert_eq!(s.work_stats().total_progress(), 5);
}

#[test]
fn report_without_steps() {
    let mut s = state(3, 10, Vec::new());
    let report = s.report_progress();
    assert_eq!(report.delta, ProgressSummary::default());
    assert!(report.type_deltas.is_empty());
    assert_eq!(report.samples.len(), 3);
    assert_eq!(
        report.line,
        "Walked/s,Children/s,Walked,Errors,Children,Time; \
         Delta 000000/s,000000/s,0,0,0,0s; \
         Run 000000/s,000000/s,0,0,0,0s; \
         Type:Walked,Checks,Children "
    );
}

#[test]
fn report_over_no_time_has_a_rate_of_zero() {
    let mut s = state(1, 0, vec![TYPE_A]);
    record(&mut s, TYPE_A, Some(StepStats::new(1, 1, 1)), 10);
    let report = s.report_progress_log(Some(Duration::from_nanos(0)));
    assert_eq!(report.delta_rate, ProgressSummary::default());
    assert_eq!(report.delta, ProgressSummary::new(10, 10, 10, 10));
    let mut s = state(1, 0, vec![TYPE_A]);
    record(&mut s, TYPE_A, None, 10);
    let report = s.report_progress_log(Some(Duration::from_nanos(999_999)));
    assert_eq!(report.delta_rate, ProgressSummary::default());
    assert_eq!(report.delta_secs, 0);
}

#[test]
fn report_breakdown_lists_types_that_were_not_met() {
    let mut s = state(1, 0, vec![NodeType::HgManifest, NodeType::Bookmark]);
    record(&mut s, TYPE_A, None, 2);
    let report = s.report_progress();
    assert!(report.line.ends_with("Type:Walked,Checks,Children Bookmark:0,0,0 HgManifest:0,0,0"));
    assert_eq!(
        report.type_deltas,
        vec![TypeDelta { node_type: TYPE_A, delta: ProgressSummary::new(2, 0, 0, 0) }]
    );
}

#[test]
fn report_breakdown_does_not_depend_on_the_order_of_types() {
    let types = vec![NodeType::HgManifest, NodeType::Bookmark, TYPE_A, TYPE_B];
    let mut reversed = types.clone();
    reversed.reverse();
    let mut one = state(1, 0, types);
    let mut other = state(1, 0, reversed);
    record(&mut one, TYPE_A, None, 2);
    record(&mut one, TYPE_B, None, 1);
    record(&mut other, TYPE_B, None, 1);
    record(&mut other, TYPE_A, None, 2);
    let line = one.report_progress().line;
    assert_eq!(other.report_progress().line, line);
    assert!(line.ends_with(" Bookmark:0,0,0 FileContent:1,0,0 HgChangeset:2,0,0 HgManifest:0,0,0"));
}

#[test]
fn report_run_rate_counts_from_the_start_to_the_last_throttled_report() {
    let mut s = state(10, 0, vec![TYPE_A]);
    record(&mut s, TYPE_A, Some(StepStats::new(0, 2, 0)), 10);
    let report = s.report_throttled_at(Duration::from_millis(4000)).unwrap();
    assert_eq!(report.delta_secs, 4);
    assert_eq!(report.total_secs, 4);
    assert_eq!(report.delta_rate.walked, 2);
    assert_eq!(report.total_rate.walked, 2);
    assert_eq!(report.total_rate.queued, 5);
    assert!(report.line.contains("; Run 000002/s,000005/s,10,0,20,4s; "));
    record(&mut s, TYPE_A, None, 10);
    let report = s.report_throttled_at(Duration::from_millis(5000)).unwrap();
    assert_eq!(report.delta_secs, 1);
    assert_eq!(report.total_secs, 5);
    assert_eq!(report.delta_rate.walked, 10);
    assert_eq!(report.total_rate.walked, 4);
}

#[test]
fn throttle_fires_only_at_multiples_of_the_sample_rate() {
    let mut s = state(3, 0, vec![TYPE_A]);
    let mut fired = Vec::new();
    for step in 1..=9u64 {
        record(&mut s, TYPE_A, None, 1);
        if s.should_log_throttled_at(Duration::from_millis(step)).is_some() {
            fired.push(step);
        }
    }
    assert_eq!(fired, vec![3, 6, 9]);
}

#[test]
fn throttle_fires_only_after_the_interval() {
    let mut s = state(1, 100, vec![TYPE_A]);
    assert_eq!(s.should_log_throttled_at(Duration::from_millis(99)), None);
    assert_eq!(s.reporting_stats().last_update(), Duration::from_nanos(0));
    assert_eq!(
        s.should_log_throttled_at(Duration::from_millis(100)),
        Some(Duration::from_millis(100))
    );
    assert_eq!(s.reporting_stats().last_update(), Duration::from_millis(100));
    assert_eq!(s.should_log_throttled_at(Duration::from_millis(199)), None);
    assert_eq!(
        s.should_log_throttled_at(Duration::from_millis(250)),
        Some(Duration::from_millis(150))
    );
    assert_eq!(s.reporting_stats().last_update(), Duration::from_millis(250));
}

#[test]
fn throttle_fires_once_per_interval_whatever_the_steps() {
    let mut s = state(1, 1000, vec![TYPE_A]);
    let mut fired = Vec::new();
    for step in 1..=50u64 {
        record(&mut s, TYPE_A, None, 1);
        let now = step * 100;
        if s.should_log_throttled_at(Duration::from_millis(now)).is_some() {
            fired.push(now);
        }
    }
    assert_eq!(fired, vec![1000, 2000, 3000, 4000, 5000]);
}

#[test]
fn throttle_takes_a_clock_that_went_back_as_no_time() {
    let mut s = state(1, 0, vec![TYPE_A]);
    assert!(s.should_log_throttled_at(Duration::from_millis(500)).is_some());
    assert_eq!(
        s.should_log_throttled_at(Duration::from_millis(400)),
        Some(Duration::from_nanos(0))
    );
    assert_eq!(s.reporting_stats().last_update(), Duration::from_millis(400));
    let mut s = state(1, 1, vec![TYPE_A]);
    assert!(s.should_log_throttled_at(Duration::from_millis(500)).is_some());
    assert_eq!(s.should_log_throttled_at(Duration::from_millis(400)), None);
    assert_eq!(s.reporting_stats().last_update(), Duration::from_millis(500));
}

#[test]
fn throttle_with_the_clock() {
    let mut never = state(1, u64::MAX, vec![TYPE_A]);
    assert_eq!(never.should_log_throttled(), None);
    assert!(never.report_throttled().is_none());
    let mut always = state(1, 0, vec![TYPE_A]);
    assert!(always.should_log_throttled().is_some());
    record(&mut always, TYPE_A, None, 1);
    let report = always.report_throttled().unwrap();
    assert_eq!(report.delta.walked, 1);
    let mut sampled = state(2, 0, vec![TYPE_A]);
    record(&mut sampled, TYPE_A, None, 1);
    assert!(sampled.report_throttled().is_none());
    record(&mut sampled, TYPE_A, None, 1);
    assert_eq!(sampled.report_throttled().unwrap().delta.walked, 2);
}

#[test]
fn throttled_report_is_made_only_when_due() {
    let mut s = state(2, 10, vec![TYPE_A]);
    record(&mut s, TYPE_A, None, 1);
    assert!(s.report_throttled_at(Duration::from_millis(50)).is_none());
    assert_eq!(s.reporting_stats().last_summary(), ProgressSummary::default());
    record(&mut s, TYPE_A, None, 1);
    assert!(s.report_throttled_at(Duration::from_millis(9)).is_none());
    let report = s.report_throttled_at(Duration::from_millis(50)).unwrap();
    assert_eq!(report.delta.walked, 2);
    assert_eq!(s.reporting_stats().last_summary(), ProgressSummary::new(2, 0, 0, 0));
}

#[test]
fn stats_keys_name_subcommand_repository_type_and_counter() {
    let key = |counter, node_type| {
        let sample = CounterSample { counter, node_type, value: 1 };
        walker_progress::report::stats_key("scrub", "repo", &sample)
    };
    assert_eq!(key(Counter::Walked, None), "mononoke.walker.scrub.progress.repo.walked");
    assert_eq!(key(Counter::Queued, None), "mononoke.walker.scrub.progress.repo.queued");
    assert_eq!(key(Counter::Errors, None), "mononoke.walker.scrub.progress.repo.errors");
    assert_eq!(
        key(Counter::Walked, Some(TYPE_A)),
        "mononoke.walker.scrub.progress.repo.HgChangeset.walked"
    );
    assert_eq!(
        key(Counter::Errors, Some(TYPE_B)),
        "mononoke.walker.scrub.progress.repo.FileContent.errors"
    );
}

#[test]
fn sample_builder_is_let_go() {
    let mut s = state(1, 0, vec![TYPE_A]);
    record(&mut s, TYPE_A, None, 2);
    s.set_sample_builder(String::from("sample"));
    assert_eq!(s.work_stats().total_progress(), 2);
    assert_eq!(s.reporting_stats().last_summary(), ProgressSummary::default());
}
