//! A call-cost profiler for code that runs under a per-tick resource budget.

pub mod persistence;
pub mod profiler;
pub mod sentinel;
pub mod table;

pub use persistence::RawMemoryProfiler;
pub use profiler::{create_sentinel, Profiler};
pub use sentinel::{new_sentinel, ProfileSentinel};
pub use table::{Entry, ProfileId, ProfileRow, ProfileTable, RawTable};
