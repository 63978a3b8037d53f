//! The write pipeline: job types, their canonical codec, the producer
//! client, the index-writer worker, and the deferred-deletion worker.

pub mod async_delete;
pub mod client;
pub mod index_writer;
pub mod job;
pub mod op;
