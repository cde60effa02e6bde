//! Core of an uptime-monitoring worker: probe classification, status
//! tracking, result recording, sweep processing, alert composition, and
//! the scheduler's decision table, verified with Verus.

pub mod alert;
pub mod check;
pub mod external;
pub mod migrate;
pub mod scheduler;
pub mod status;
pub mod store;
pub mod sweep;
