//! Random-trial simulation: a trial of uniform four-way draws, the running
//! maximum over many trials, and the throttle for progress lines.

pub mod progress;
pub mod tally;
pub mod trial;

pub use progress::{is_sample_point, ReportThrottle, REPORT_INTERVAL_NANOS, SAMPLING_STRIDE};
pub use tally::{raise_max, Tally, TOTAL_TRIALS};
pub use trial::{run_trial, RollSimulator, CATEGORIES, N_DRAWS};
