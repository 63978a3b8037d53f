//! Single-document ingress responses: what the thin HTTP handlers return
//! for one added or deleted document.

use vstd::prelude::*;

verus! {

/// Why a single-document ingress was rejected.
#[derive(Debug, PartialEq, Eq, Structural)]
pub enum IndexError {
    /// No field of the payload matched the schema.
    EmptyObject,
    /// The payload was not a JSON object.
    NotJsonObject,
    /// A payload member held a value kind the ingress cannot index.
    UnsupportedJsonValue,
}

impl IndexError {
    /// The user-visible message for this rejection.
    pub fn message(&self) -> (r: String)
        ensures
            r@ == self.spec_message(),
    {
        match self {
            IndexError::EmptyObject => "Cannot index empty object".to_owned(),
            IndexError::NotJsonObject => "Expected a JSON object".to_owned(),
            IndexError::UnsupportedJsonValue => "Unsupported JSON value in object".to_owned(),
        }
    }

    pub open spec fn spec_message(&self) -> Seq<char> {
        match self {
            IndexError::EmptyObject => "Cannot index empty object"@,
            IndexError::NotJsonObject => "Expected a JSON object"@,
            IndexError::UnsupportedJsonValue => "Unsupported JSON value in object"@,
        }
    }
}

/// Response to adding one document through the single-document route: its
/// id and when it was accepted.
#[derive(Debug)]
pub struct PostIndexResponse {
    pub doc_id: String,
    pub updated_at: String,
}

impl PostIndexResponse {
    /// A response for a document id, stamped now.
    pub fn new(doc_id: &str) -> (r: PostIndexResponse)
        ensures
            r.doc_id@ == doc_id@,
            r.updated_at@.len() > 0,
    {
        PostIndexResponse { doc_id: doc_id.to_owned(), updated_at: crate::util::timestamp() }
    }
}

/// Response to deleting one document: its id and when the delete was
/// accepted.
#[derive(Debug)]
pub struct DeleteIndexResponse {
    pub doc_id: String,
    pub deleted_at: String,
}

impl DeleteIndexResponse {
    /// A response for a document id, stamped now.
    pub fn new(doc_id: &str) -> (r: DeleteIndexResponse)
        ensures
            r.doc_id@ == doc_id@,
            r.deleted_at@.len() > 0,
    {
        DeleteIndexResponse { doc_id: doc_id.to_owned(), deleted_at: crate::util::timestamp() }
    }
}

} // verus!
