//! What a report holds: the log line, and the samples for the metrics sink.

use crate::graph::NodeType;
use crate::summary::Counts;
use crate::summary::ProgressSummary;
use crate::text::decimal;
use crate::text::push_decimal;
use crate::text::push_zero_padded;
use crate::text::zero_padded;
use crate::work::ProgressStateWorkByType;
use crate::work::WorkView;
use vstd::prelude::*;
use vstd::string::StringExecFns;

verus! {

/// The width to which the rates of a log line are filled with zeros.
pub const RATE_WIDTH: usize = 6;

/// Which counter a sample belongs to.
#[derive(Clone, Copy, Debug, PartialEq, Eq, Structural)]
pub enum Counter {
    Walked,
    Queued,
    Errors,
}

/// One value for the metrics sink: by how much a counter grew since the
/// last report, for one type of node or for all of them.
#[derive(Clone, Copy, Debug, PartialEq, Eq, Structural)]
pub struct CounterSample {
    pub counter: Counter,
    pub node_type: Option<NodeType>,
    pub value: i64,
}

/// By how much the counters of one type grew since the last report.
#[derive(Clone, Copy, Debug, PartialEq, Eq, Structural)]
pub struct TypeDelta {
    pub node_type: NodeType,
    pub delta: ProgressSummary,
}

/// One report of progress.
pub struct ProgressReport {
    /// The line for the log.
    pub line: String,
    /// The samples for the metrics sink: two for each type that was met, then three for all types.
    pub samples: Vec<CounterSample>,
    /// For each type that was met, by how much its counters grew since the last report.
    pub type_deltas: Vec<TypeDelta>,
    /// By how much the totals grew since the last report.
    pub delta: ProgressSummary,
    /// The totals of the run.
    pub total: ProgressSummary,
    /// The rate per second since the last report.
    pub delta_rate: ProgressSummary,
    /// The rate per second of the run.
    pub total_rate: ProgressSummary,
    /// The whole seconds since the last report.
    pub delta_secs: u128,
    /// The whole seconds of the run.
    pub total_secs: u128,
}

/// The model of a report.
pub struct ReportView {
    pub line: Seq<char>,
    pub samples: Seq<CounterSample>,
    pub type_deltas: Seq<(NodeType, Counts)>,
    pub delta: Counts,
    pub total: Counts,
    pub delta_rate: Counts,
    pub total_rate: Counts,
    pub delta_secs: nat,
    pub total_secs: nat,
}

/// What a list of type deltas stands for.
pub open spec fn type_deltas_view(deltas: Seq<TypeDelta>) -> Seq<(NodeType, Counts)> {
    Seq::new(deltas.len(), |i: int| (deltas[i].node_type, deltas[i].delta@))
}

impl View for ProgressReport {
    type V = ReportView;

    open spec fn view(&self) -> ReportView {
        ReportView {
            line: self.line@,
            samples: self.samples@,
            type_deltas: type_deltas_view(self.type_deltas@),
            delta: self.delta@,
            total: self.total@,
            delta_rate: self.delta_rate@,
            total_rate: self.total_rate@,
            delta_secs: self.delta_secs as nat,
            total_secs: self.total_secs as nat,
        }
    }
}

/// The two samples of one type: nodes walked and errors.
pub open spec fn type_sample_pair(t: NodeType, delta: Counts) -> Seq<CounterSample> {
    seq![
        CounterSample { counter: Counter::Walked, node_type: Some(t), value: delta.walked as i64 },
        CounterSample { counter: Counter::Errors, node_type: Some(t), value: delta.errors as i64 },
    ]
}

/// The samples of the types of `deltas`, in the order of `deltas`.
pub open spec fn type_samples(deltas: Seq<(NodeType, Counts)>) -> Seq<CounterSample>
    decreases deltas.len(),
{
    if deltas.len() == 0 {
        Seq::empty()
    } else {
        type_samples(deltas.drop_last()) + type_sample_pair(deltas.last().0, deltas.last().1)
    }
}

/// The three samples for all types: nodes walked, children queued and errors.
pub open spec fn global_samples(delta: Counts) -> Seq<CounterSample> {
    seq![
        CounterSample { counter: Counter::Walked, node_type: None, value: delta.walked as i64 },
        CounterSample { counter: Counter::Queued, node_type: None, value: delta.queued as i64 },
        CounterSample { counter: Counter::Errors, node_type: None, value: delta.errors as i64 },
    ]
}

/// All samples of a report.
pub open spec fn report_samples(deltas: Seq<(NodeType, Counts)>, delta: Counts) -> Seq<
    CounterSample,
> {
    type_samples(deltas) + global_samples(delta)
}

/// One type in the breakdown of a log line: its name, then nodes walked,
/// nodes checked and children queued.
pub open spec fn type_entry(t: NodeType, c: Counts) -> Seq<char> {
    t.spec_name() + ":"@ + decimal(c.walked) + ","@ + decimal(c.checked) + ","@ + decimal(
        c.queued,
    )
}

/// The breakdown of a log line: one entry for each of `types`, in their
/// order, with a space between two entries.
pub open spec fn detail(types: Seq<NodeType>, work: WorkView) -> Seq<char>
    decreases types.len(),
{
    if types.len() == 0 {
        Seq::empty()
    } else if types.len() == 1 {
        type_entry(types[0], work.counts_of(types[0]))
    } else {
        detail(types.drop_last(), work) + " "@ + type_entry(
            types.last(),
            work.counts_of(types.last()),
        )
    }
}

/// The log line of a report.
pub open spec fn log_line(
    delta_rate: Counts,
    delta: Counts,
    delta_secs: nat,
    total_rate: Counts,
    total: Counts,
    total_secs: nat,
    detail: Seq<char>,
) -> Seq<char> {
    "Walked/s,Children/s,Walked,Errors,Children,Time; Delta "@ + zero_padded(
        delta_rate.walked,
        RATE_WIDTH as nat,
    ) + "/s,"@ + zero_padded(delta_rate.queued, RATE_WIDTH as nat) + "/s,"@ + decimal(
        delta.walked,
    ) + ","@ + decimal(delta.errors) + ","@ + decimal(delta.queued) + ","@ + decimal(delta_secs)
        + "s; Run "@ + zero_padded(total_rate.walked, RATE_WIDTH as nat) + "/s,"@ + zero_padded(
        total_rate.queued,
        RATE_WIDTH as nat,
    ) + "/s,"@ + decimal(total.walked) + ","@ + decimal(total.errors) + ","@ + decimal(
        total.queued,
    ) + ","@ + decimal(total_secs) + "s; Type:Walked,Checks,Children "@ + detail
}

/// The name of a counter in the keys of the metrics sink.
pub open spec fn counter_name(counter: Counter) -> Seq<char> {
    match counter {
        Counter::Walked => "walked"@,
        Counter::Queued => "queued"@,
        Counter::Errors => "errors"@,
    }
}

/// The key under which a sample goes to the metrics sink: the
/// subcommand, the repository, for a sample of one type the name of the
/// type, and the counter.
pub open spec fn stats_key_of(subcommand: Seq<char>, repo: Seq<char>, sample: CounterSample) -> Seq<
    char,
> {
    let head = "mononoke.walker."@ + subcommand + ".progress."@ + repo + "."@;
    match sample.node_type {
        Some(t) => head + t.spec_name() + "."@ + counter_name(sample.counter),
        None => head + counter_name(sample.counter),
    }
}

/// The key under which `sample` goes to the metrics sink.
pub fn stats_key(subcommand: &str, repo: &str, sample: &CounterSample) -> (key: String)
    ensures
        key@ == stats_key_of(subcommand@, repo@, *sample),
{
    let mut out = String::from_str("mononoke.walker.");
    out.append(subcommand);
    out.append(".progress.");
    out.append(repo);
    out.append(".");
    match sample.node_type {
        Some(t) => {
            out.append(t.name());
            out.append(".");
        },
        None => {},
    }
    let name = match sample.counter {
        Counter::Walked => "walked",
        Counter::Queued => "queued",
        Counter::Errors => "errors",
    };
    out.append(name);
    out
}

/// Writes the entry of one type at the end of `out`.
fn push_type_entry(out: &mut String, t: NodeType, c: &ProgressSummary)
    ensures
        final(out)@ == old(out)@ + type_entry(t, c@),
{
    out.append(t.name());
    out.append(":");
    push_decimal(out, c.walked as u128);
    out.append(",");
    push_decimal(out, c.checked as u128);
    out.append(",");
    push_decimal(out, c.queued as u128);
    proof {
        assert(out@ =~= old(out)@ + type_entry(t, c@));
    }
}

/// The breakdown by type of a log line.
pub fn detail_line(types: &Vec<NodeType>, work: &ProgressStateWorkByType) -> (s: String)
    ensures
        s@ == detail(types@, work@),
{
    let mut out = String::new();
    let mut i: usize = 0;
    proof {
        assert(types@.take(0) =~= Seq::<NodeType>::empty());
    }
    while i < types.len()
        invariant
            i <= types.len(),
            out@ == detail(types@.take(i as int), work@),
        decreases types.len() - i,
    {
        let t = types[i];
        let c = match work.summary_of(t) {
            Some(c) => c,
            None => ProgressSummary::default(),
        };
        let ghost before = out@;
        if i > 0 {
            out.append(" ");
        }
        push_type_entry(&mut out, t, &c);
        proof {
            let next = types@.take(i + 1);
            assert(next.drop_last() =~= types@.take(i as int));
            assert(next.last() == t);
            assert(c@ == work@.counts_of(t));
            if i == 0 {
                assert(before =~= Seq::<char>::empty());
                assert(out@ =~= type_entry(t, c@));
                assert(next[0] == t);
            } else {
                assert(out@ =~= before + " "@ + type_entry(t, c@));
            }
        }
        i = i + 1;
    }
    proof {
        assert(types@.take(types.len() as int) =~= types@);
    }
    out
}

/// The log line of a report with these values.
pub fn format_line(
    delta_rate: &ProgressSummary,
    delta: &ProgressSummary,
    delta_secs: u128,
    total_rate: &ProgressSummary,
    total: &ProgressSummary,
    total_secs: u128,
    detail: &str,
) -> (line: String)
    ensures
        line@ == log_line(
            delta_rate@,
            delta@,
            delta_secs as nat,
            total_rate@,
            total@,
            total_secs as nat,
            detail@,
        ),
{
    let mut out = String::from_str("Walked/s,Children/s,Walked,Errors,Children,Time; Delta ");
    push_zero_padded(&mut out, delta_rate.walked as u128, RATE_WIDTH);
    out.append("/s,");
    push_zero_padded(&mut out, delta_rate.queued as u128, RATE_WIDTH);
    out.append("/s,");
    push_decimal(&mut out, delta.walked as u128);
    out.append(",");
    push_decimal(&mut out, delta.errors as u128);
    out.append(",");
    push_decimal(&mut out, delta.queued as u128);
    out.append(",");
    push_decimal(&mut out, delta_secs);
    out.append("s; Run ");
    push_zero_padded(&mut out, total_rate.walked as u128, RATE_WIDTH);
    out.append("/s,");
    push_zero_padded(&mut out, total_rate.queued as u128, RATE_WIDTH);
    out.append("/s,");
    push_decimal(&mut out, total.walked as u128);
    out.append(",");
    push_decimal(&mut out, total.errors as u128);
    out.append(",");
    push_decimal(&mut out, total.queued as u128);
    out.append(",");
    push_decimal(&mut out, total_secs);
    out.append("s; Type:Walked,Checks,Children ");
    out.append(detail);
    out
}

} // verus!
