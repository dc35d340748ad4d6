//! Progress tracking and throttled reporting for a walk of a repository
//! graph.
//!
//! The walker tells each step it takes. The steps are counted for each
//! type of node, and from time to time a report says by how much the
//! counters grew, at what rate, and what the totals are. A report holds
//! a line for the log and samples for the metrics sink; sending them is
//! left to the caller.

pub mod graph;
pub mod laws;
pub mod order;
pub mod progress;
pub mod report;
pub mod stream;
pub mod summary;
pub mod text;
pub mod time;
pub mod work;

pub use crate::graph::AsNode;
pub use crate::graph::Node;
pub use crate::graph::NodeType;
pub use crate::order::sort_by_string;
pub use crate::progress::ProgressError;
pub use crate::progress::ProgressOptions;
pub use crate::progress::ProgressRecorderUnprotected;
pub use crate::progress::ProgressReporterUnprotected;
pub use crate::progress::ProgressStateByTypeParams;
pub use crate::progress::ProgressStateCountByType;
pub use crate::progress::ProgressStateReporting;
pub use crate::report::Counter;
pub use crate::report::CounterSample;
pub use crate::report::ProgressReport;
pub use crate::report::TypeDelta;
pub use crate::stream::progress_stream;
pub use crate::stream::report_state;
pub use crate::summary::ProgressSummary;
pub use crate::summary::StepStats;
pub use crate::time::Duration;
pub use crate::work::ProgressStateWorkByType;
