//! CPU-time and RSS accounting for a Unix process group.
//!
//! The library holds the accounting itself: the per-pid CPU latch and the
//! peak-RSS tracker ([`Monitor`]), the conversion of kernel process records
//! into group members, the sample-then-reap polling discipline and the
//! kill-on-drop rule of a job's lifetime.

pub mod acc;
pub mod duration;
pub mod job;
pub mod options;
pub mod sys;

pub use acc::{Acc, Member, Monitor, Sample};
pub use job::{JobState, Phase, PollLoop, Progress};
pub use options::JobOptions;
pub use duration::{Duration, MAX_NANOS, NANOS_PER_SEC};
