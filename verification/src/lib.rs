//! A write-ahead journaling engine in the JBD2 on-disk format.
//!
//! The engine sits between a filesystem client and a block device and
//! provides atomic, crash-consistent updates to filesystem blocks through a
//! circular on-disk journal of transactions.  A transaction groups a set of
//! modified blocks; the engine writes descriptor, data, revoke and commit
//! records into the log, then lazily checkpoints the data blocks to their
//! home locations.  On mount, the engine scans the log and replays any
//! committed-but-not-checkpointed transactions.

pub mod consts;
pub mod defs;
pub mod codec;
pub mod device;
pub mod transaction;
pub mod journal;
pub mod jbd;
