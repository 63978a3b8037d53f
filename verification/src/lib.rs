//! Verified core of a serverless full-text search service.
//!
//! Documents are indexed under named indexes, queried with a text query
//! language, and paged through an opaque pagination token.  The write path
//! is serialized per index by a FIFO queue; the query path fans out over
//! segment partitions and merges ranked hits.  The logic of both paths
//! lives here, verified; platform adapters stay outside the library, and
//! the index engine sits behind the trusted boundary in [`engine`].
//!
//! The laws this library proves about itself:
//!
//! - the canonical JSON codec round trip
//!   ([`json_laws::lemma_parse_of_serialized`]), and with it the pagination
//!   token round trip ([`pagination::lemma_token_round_trip`]) and the write
//!   job codec round trip ([`worker::job::lemma_job_round_trip`]);
//! - the write-path laws over the live-document model: indexing is
//!   idempotent and overwrites by id, deleting is idempotent, and an indexed
//!   document is visible by its id ([`index_model`]);
//! - round-robin segment assignment partitions the segment indices
//!   ([`pagination::lemma_round_robin_coverage`]);
//! - the merge step is a stable descending sort that keeps the hits it was
//!   given ([`ranking::lemma_sort_desc`]);
//! - the manifest filter pins a snapshot byte-for-byte
//!   ([`directory_core::lemma_manifest_filter_pins`]);
//! - a FIFO queue delivers each group's messages in enqueue order
//!   ([`message::lemma_fifo_per_group_order`]).

pub mod service;
pub mod text;
pub mod util;
pub mod json_data;
pub mod json_codec;
pub mod json_parse;
pub mod json_laws;
pub mod json_exec;
pub mod compress;
pub mod pagination;
pub mod schema;
pub mod search_doc;
pub mod store;
pub mod index_model;
pub mod engine;
pub mod worker;
pub mod ranking;
pub mod executor;
pub mod coordinator;
pub mod message;
pub mod service_index;
pub mod directory_core;
pub mod blob;
pub mod ingest;
