//! Garbage-collector bookkeeping: object headers, collection phases,
//! write barriers, pause-time statistics, counters, promotion thresholds,
//! step budgets, notifications and the parallel-marking work queue.

pub mod barrier;
pub mod budget;
pub mod event;
pub mod header;
pub mod incremental;
pub mod pause;
pub mod phase;
pub mod promotion;
pub mod stats;
pub mod work_stealing;
pub mod young;
