//! Producer side of the write pipeline.
//!
//! Submission stages the serialized job and enqueues a reference with the
//! message group id set to the index id, so the FIFO queue serializes jobs
//! per index.  The queue and blob calls are platform adapters; everything
//! they send is built and specified here.

use vstd::prelude::*;

use crate::json_codec::ser_value;
use crate::text::str_concat;
use crate::worker::job::Job;

verus! {

/// Errors of the producer client.
#[derive(Debug)]
pub enum IndexWriterClientError {
    /// The staged batch could not be written or enqueued.
    SubmitFailed,
}

/// What the producer hands the platform to submit one job: where to stage
/// the payload, the payload itself, and the FIFO group that orders it.
pub struct QueuedJob {
    /// Staging key for the serialized job, under `writer_batches/`.
    pub staging_key: String,
    /// The serialized job: canonical JSON bytes of the job's model.
    pub payload: Vec<u8>,
    /// The FIFO message group id: the job's index id, so that jobs for one
    /// index are delivered in enqueue order, one in flight at a time.
    pub group_id: String,
}

/// Builds the submission for one job: the payload is exactly the job's
/// canonical serialization (so the worker parses it back to the same job,
/// by the codec round trip), the group id is exactly the index id, and the
/// staging key is `writer_batches/{batch_id}`.
pub fn build_queued_job(job: &Job, batch_id: &str) -> (r: QueuedJob)
    ensures
        r.payload@ == ser_value(job@),
        r.group_id@ == job.index_id@,
        r.staging_key@ == "writer_batches/"@ + batch_id@,
{
    let json = job.to_json();
    let payload = crate::json_codec::to_bytes(&json);
    let staging_key = str_concat("writer_batches/", batch_id);
    let group_id = crate::text::clone_string(&job.index_id);
    QueuedJob { staging_key, payload, group_id }
}

/// Submits write jobs for application: the producer's view of the write
/// pipeline.  Production clients stage the payload and enqueue its
/// reference; the in-memory service applies the job inline.
pub trait IndexWriterClient {
    /// Submits one job and yields its job id.
    fn submit_job(&mut self, job: Job) -> (r: Result<String, crate::service::ServiceError>);
}

} // verus!
