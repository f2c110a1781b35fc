//! An append-only, cryptographically authenticated event store ("the chain")
//! with a transactional in-memory view (the DIO).
//!
//! A chain owns a redo log of events and in-memory indexes rebuilt from that
//! log. Every event carries typed metadata (primary key, tombstone,
//! authorization, tree links, signatures, timestamps); a pipeline of linters,
//! transformers, validators and sinks runs over each event on write and on
//! replay. A DIO stages inserts, updates and tombstones against one chain and
//! commits them as a single ordered batch.

pub mod chain;
pub mod codec;
pub mod connect;
pub mod crypto;
pub mod dio;
pub mod errors;
pub mod event;
pub mod header;
pub mod kmap;
pub mod laws;
pub mod login;
pub mod meta;
pub mod pipeline;
pub mod session;
pub mod stream;
pub mod time;
