//! Live operational dashboard: the logic behind each data source, the
//! snapshot that holds the latest result of every source, and the
//! per-source polling schedule.

pub mod containers;
pub mod error;
pub mod health;
pub mod issues;
pub mod json;
pub mod playback;
pub mod ports;
pub mod schedule;
pub mod snapshot;
pub mod text;
pub mod tickets;
pub mod usage;
