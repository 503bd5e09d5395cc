//! Verified core of the mudu storage kernel: page and extent layout,
//! the quad-state page bitmap, page blocks, log entries, free lists,
//! lock queues and the small pieces of transaction bookkeeping.
pub mod collection;
pub mod common;
pub mod storage;
pub mod tx;
pub mod x_log;
pub mod wal;
pub mod server;
pub mod meta;
pub mod contract;
pub mod x_engine;

