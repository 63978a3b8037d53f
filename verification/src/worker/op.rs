//! Inline-payload op batches: an earlier wire form of the write batch where
//! each index op carries the serialized document itself instead of a store
//! reference.

use vstd::prelude::*;

use crate::json_data::JsonValue;
use crate::json_codec::ser_value;
use crate::json_data::jv_of;

verus! {

/// One write operation with an inline payload.
#[derive(Debug)]
pub enum IndexWriterOp {
    /// Index this document, serialized as canonical JSON text.
    IndexDoc { document: String },
    /// Tombstone the document with this id.
    DeleteDoc { doc_id: String },
}

/// A batch of inline-payload operations against one index.
#[derive(Debug)]
pub struct OpBatch {
    pub index_id: String,
    pub ops: Vec<IndexWriterOp>,
}

impl OpBatch {
    /// An empty batch for an index.
    pub fn create(index_id: &str) -> (r: OpBatch)
        ensures
            r.index_id@ == index_id@,
            r.ops@.len() == 0,
    {
        OpBatch { index_id: index_id.to_owned(), ops: Vec::new() }
    }

    /// Appends an index op carrying the document as canonical JSON bytes;
    /// fails only when those bytes are not UTF-8, which the canonical form
    /// of a document never is.
    pub fn index_doc(&mut self, document: &JsonValue) -> (r: bool)
        ensures
            final(self).index_id == old(self).index_id,
            r ==> final(self).ops@.len() == old(self).ops@.len() + 1
                && (final(self).ops@.last() matches IndexWriterOp::IndexDoc { document: d }
                && vstd::utf8::encode_utf8(d@) == ser_value(jv_of(*document))),
            !r ==> final(self).ops@ == old(self).ops@,
    {
        let bytes = crate::json_codec::to_bytes(document);
        match crate::text::string_from_utf8(bytes) {
            Some(s) => {
                self.ops.push(IndexWriterOp::IndexDoc { document: s });
                true
            },
            None => false,
        }
    }

    /// Appends a delete op for a document id.
    pub fn delete_doc(&mut self, doc_id: &str)
        ensures
            final(self).index_id == old(self).index_id,
            final(self).ops@.len() == old(self).ops@.len() + 1,
            final(self).ops@.last() matches IndexWriterOp::DeleteDoc { doc_id: d } && d@
                == doc_id@,
    {
        self.ops.push(IndexWriterOp::DeleteDoc { doc_id: doc_id.to_owned() });
    }
}

} // verus!
