//! Building blocks of a concurrent endpoint health checker.

pub mod cli;
pub mod collector;
pub mod json;
pub mod pool;
pub mod probe;
pub mod queue;
pub mod report;
pub mod status;
pub mod text;
