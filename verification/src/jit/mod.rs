//! Just-in-time compilation: events, statuses, statistics and the choice
//! of an optimization level.

pub mod compiler;
pub mod optimizer;
