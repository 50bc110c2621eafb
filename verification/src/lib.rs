//! Key input statistics: counters, per-application and per-language trackers,
//! flush planning and text rendering of the collected statistics.

pub mod cli;
pub mod text;
pub mod stats;
pub mod hooks;
pub mod state;
pub mod db;
