//! Tails a key-value table's change log, resolves each change against the
//! table's current state, and broadcasts the resulting events, with periodic
//! heartbeats, to every live subscriber.
//!
//! `registry` holds the subscribers and their delivery rules, `poll` the
//! per-shard cursors of the poll cycle, `envelope` and `item` the decoding of
//! change records and the encoding of items, and `error` the failures.

pub mod channel;
pub mod envelope;
pub mod error;
pub mod event;
pub mod item;
pub mod poll;
pub mod registry;
