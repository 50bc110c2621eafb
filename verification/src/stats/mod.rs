//! Input statistics collected while the monitor runs.

pub mod app_tracker;
pub mod counters;
pub mod lang_tracker;
pub mod table;
