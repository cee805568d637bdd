//! Cycle-counter time units, a per-site timer state machine and the windowed
//! statistics an observer keeps over the measurements it receives.

pub mod discovery;
pub mod messages;
pub mod stats;
pub mod text;
pub mod throughput;
pub mod time;
pub mod time_ops;
pub mod time_text;
pub mod timekeeper;
pub mod timer;
pub mod timing_data;
pub mod trusted;
pub mod utils;

pub use throughput::throughput;
pub use timekeeper::TimeKeeper;
pub use timer::Timer;
