use anyhow::Error;
use walker_progress::progress_stream;
use walker_progress::report_state;
use walker_progress::stream::can_observe_all;
use walker_progress::stream::can_observe_item;
use walker_progress::stream::progress_stream_item;
use walker_progress::stream::progress_stream_item_at;
use walker_progress::stream::FinalCount;
use walker_progress::Duration;
use walker_progress::Node;
use walker_progress::NodeType;
use walker_progress::ProgressOptions;
use walker_progress::ProgressStateCountByType;
use walker_progress::ProgressSummary;
use walker_progress::StepStats;

type Item = Result<(Node, Option<u32>, Option<StepStats>), Error>;

fn state(sample_rate: u64, interval_millis: u64) -> ProgressStateCountByType {
    let options = ProgressOptions { sample_rate, interval: Duration::from_millis(interval_millis) };
    let types = vec![NodeType::Changeset, NodeType::FileContent];
    ProgressStateCountByType::new("walk", String::from("repo"), types, options).unwrap()
}

fn ok(t: NodeType, id: u64, data: Option<u32>) -> Item {
    Ok((Node::new(t, id), data, Some(StepStats::new(0, 1, 1))))
}

fn failure(message: &'static str) -> Item {
    Err(Error::msg(message))
}

fn four_items() -> Vec<Item> {
    vec![
        ok(NodeType::Changeset, 1, Some(10)),
        ok(NodeType::FileContent, 2, None),
        ok(NodeType::FileContent, 3, Some(30)),
        ok(NodeType::Changeset, 4, None),
    ]
}

#[test]
fn item_is_recorded_and_reported() {
    let mut s = state(1, 0);
    let item = ok(NodeType::Changeset, 1, None);
    let report =
        progress_stream_item_at(false, &mut s, &item, Duration::from_millis(1000)).unwrap();
    assert_eq!(report.delta, ProgressSummary::new(1, 1, 1, 0));
    assert_eq!(report.delta_secs, 1);
    assert_eq!(s.work_stats().total_progress(), 1);
    assert!(item.is_ok());
}

#[test]
fn quiet_item_is_recorded_and_not_reported() {
    let mut s = state(1, 0);
    let item = ok(NodeType::Changeset, 1, None);
    assert!(progress_stream_item_at(true, &mut s, &item, Duration::from_millis(1000)).is_none());
    assert!(progress_stream_item(true, &mut s, &item).is_none());
    assert_eq!(s.work_stats().total_progress(), 2);
    assert_eq!(s.reporting_stats().last_update(), Duration::from_nanos(0));
    assert_eq!(s.reporting_stats().last_summary(), ProgressSummary::default());
}

#[test]
fn failed_item_is_not_recorded() {
    let mut s = state(1, 0);
    let item = failure("lost");
    assert!(progress_stream_item_at(false, &mut s, &item, Duration::from_millis(1000)).is_none());
    assert!(progress_stream_item(false, &mut s, &item).is_none());
    assert_eq!(s.work_stats().total_progress(), 0);
    assert_eq!(s.reporting_stats().last_update(), Duration::from_nanos(0));
    assert_eq!(item.unwrap_err().to_string(), "lost");
}

#[test]
fn item_with_the_clock_reports_when_due() {
    let mut s = state(2, 0);
    let item = ok(NodeType::Changeset, 1, None);
    assert!(progress_stream_item(false, &mut s, &item).is_none());
    let report = progress_stream_item(false, &mut s, &item).unwrap();
    assert_eq!(report.delta.walked, 2);
}

#[test]
fn stream_records_every_successful_item() {
    let mut s = state(2, 0);
    let mut items = four_items();
    items.insert(1, failure("lost"));
    let reports = progress_stream(false, &mut s, &items);
    assert_eq!(s.work_stats().total_progress(), 4);
    assert_eq!(s.work_stats().total(), ProgressSummary::new(4, 4, 4, 0));
    assert_eq!(reports.len(), 2);
    assert_eq!(reports[0].total.walked, 2);
    assert_eq!(reports[1].total.walked, 4);
    assert_eq!(reports[1].delta.walked, 2);
    assert_eq!(items.len(), 5);
    assert!(items[0].is_ok());
    assert!(items[1].is_err());
}

#[test]
fn quiet_stream_makes_no_report() {
    let mut s = state(1, 0);
    let items = four_items();
    let reports = progress_stream(true, &mut s, &items);
    assert!(reports.is_empty());
    assert_eq!(s.work_stats().total_progress(), 4);
    assert_eq!(s.reporting_stats().last_summary(), ProgressSummary::default());
}

#[test]
fn stream_of_nothing() {
    let mut s = state(1, 0);
    let items: Vec<Item> = Vec::new();
    assert!(progress_stream(false, &mut s, &items).is_empty());
    assert_eq!(s.work_stats().total_progress(), 0);
}

#[test]
fn drain_counts_items_and_makes_the_last_report() {
    let mut s = state(1000, 1_000_000);
    let items = four_items();
    assert!(progress_stream(false, &mut s, &items).is_empty());
    let done = report_state(&mut s, items).unwrap();
    assert_eq!(done.count, FinalCount { seen: 4, loaded: 2 });
    assert_eq!(done.count_line, "Final count: (4, 2)");
    assert_eq!(done.report.delta, ProgressSummary::new(4, 4, 4, 0));
    assert_eq!(done.report.delta_rate, ProgressSummary::default());
    assert_eq!(s.reporting_stats().last_summary(), ProgressSummary::new(4, 4, 4, 0));
}

#[test]
fn drain_of_nothing_still_reports() {
    let mut s = state(1, 0);
    let items: Vec<Item> = Vec::new();
    let done = report_state(&mut s, items).unwrap();
    assert_eq!(done.count, FinalCount { seen: 0, loaded: 0 });
    assert_eq!(done.count_line, "Final count: (0, 0)");
    assert_eq!(done.report.total, ProgressSummary::default());
}

#[test]
fn drain_that_fails_after_four_items() {
    let mut s = state(1, 0);
    let mut items = four_items();
    items.push(failure("the walk broke"));
    let reports = progress_stream(false, &mut s, &items);
    assert_eq!(reports.len(), 4);
    assert_eq!(reports[3].total.walked, 4);
    let reported = s.reporting_stats().last_summary();
    assert_eq!(reported, ProgressSummary::new(4, 4, 4, 0));
    let unreported = ok(NodeType::Changeset, 5, None);
    assert!(progress_stream_item(true, &mut s, &unreported).is_none());
    items.push(ok(NodeType::Changeset, 6, None));
    items.push(failure("again"));
    let failed = report_state(&mut s, items);
    assert_eq!(failed.err().unwrap().to_string(), "the walk broke");
    assert_eq!(s.reporting_stats().last_summary(), reported);
    assert_eq!(s.work_stats().total_progress(), 5);
}

#[test]
fn final_count_counts_items_with_data() {
    let count = FinalCount::new();
    assert_eq!(count, FinalCount { seen: 0, loaded: 0 });
    let count = count.observe(&Some(1u8)).observe::<u8>(&None).observe(&Some(2u8));
    assert_eq!(count, FinalCount { seen: 3, loaded: 2 });
    assert_eq!(count.line(), "Final count: (3, 2)");
    assert_eq!(count.line(), format!("Final count: {:?}", (count.seen, count.loaded)));
}

#[test]
fn room_for_items_is_room_for_their_steps() {
    let limit = walker_progress::summary::MAX_COUNT;
    let s = state(1, 0);
    let big: Item =
        Ok((Node::new(NodeType::Changeset, 1), None, Some(StepStats::new(0, 0, limit))));
    let one: Item = Ok((Node::new(NodeType::Changeset, 2), None, Some(StepStats::new(0, 0, 1))));
    let none: Item = Ok((Node::new(NodeType::Changeset, 3), None, None));
    assert!(can_observe_item(&s, &big));
    assert!(can_observe_item(&s, &failure("lost")));
    assert!(can_observe_all(&s, &four_items()));
    assert!(can_observe_all(&s, &Vec::<Item>::new()));
    assert!(can_observe_all(&s, &vec![big, failure("lost"), none]));
    let big: Item =
        Ok((Node::new(NodeType::Changeset, 1), None, Some(StepStats::new(0, 0, limit))));
    assert!(!can_observe_all(&s, &vec![big, one]));
    let too_big: Item =
        Ok((Node::new(NodeType::Changeset, 1), None, Some(StepStats::new(limit + 1, 0, 0))));
    assert!(!can_observe_item(&s, &too_big));
    assert!(!can_observe_all(&s, &vec![too_big]));
}
