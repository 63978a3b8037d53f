//! Deferred file deletion.
//!
//! A directory never unlinks synchronously: superseded segment files may
//! still be mapped by long-lived readers.  Deleting emits a job naming the
//! absolute path; a background worker unlinks it later.

use vstd::prelude::*;

use crate::directory_core::FileStore;
use crate::directory_core::fs_first;
use crate::text::str_concat;

verus! {

/// A deferred deletion job.
#[derive(Debug)]
pub enum AsyncDeleteJob {
    /// Unlink this absolute path.
    FSDelete(String),
}

impl AsyncDeleteJob {
    /// A deletion job for a path.
    pub fn fs_delete(path: String) -> (r: AsyncDeleteJob)
        ensures
            r matches AsyncDeleteJob::FSDelete(p) && p@ == path@,
    {
        AsyncDeleteJob::FSDelete(path)
    }

    /// The path this job deletes.
    pub fn path(&self) -> (r: &str)
        ensures
            self matches AsyncDeleteJob::FSDelete(p) && r@ == p@,
    {
        match self {
            AsyncDeleteJob::FSDelete(p) => p.as_str(),
        }
    }
}

/// The deletion job a directory emits for a file: the directory path and
/// the file name joined with a slash.  The engine deletes every file of a
/// superseded segment, whose names it prefixes with the segment id, so a
/// reader holding the old manifest can still open them until the job runs.
pub fn deferred_delete_job(directory_path: &str, file_name: &str) -> (r: AsyncDeleteJob)
    ensures
        r matches AsyncDeleteJob::FSDelete(p) && p@ == directory_path@ + "/"@ + file_name@,
{
    let p = str_concat(directory_path, "/");
    let p = str_concat(p.as_str(), file_name);
    AsyncDeleteJob::FSDelete(p)
}

/// Accepts deferred deletion jobs for the background worker.  Production
/// clients enqueue them; the in-memory sink records them, in order.
pub trait AsyncDeleteClient {
    /// Submits one deletion job and yields its message id.
    fn submit_job(&mut self, job: AsyncDeleteJob) -> (r: Result<String, crate::service::ServiceError>);
}

/// In-memory deletion sink: every submitted job is recorded in order.
pub struct MemAsyncDeleteQueue {
    pub jobs: Vec<AsyncDeleteJob>,
}

impl MemAsyncDeleteQueue {
    pub fn new() -> (r: MemAsyncDeleteQueue)
        ensures
            r.jobs@.len() == 0,
    {
        MemAsyncDeleteQueue { jobs: Vec::new() }
    }
}

impl AsyncDeleteClient for MemAsyncDeleteQueue {
    fn submit_job(&mut self, job: AsyncDeleteJob) -> (r: Result<
        String,
        crate::service::ServiceError,
    >)
        ensures
            final(self).jobs@.len() == old(self).jobs@.len() + 1,
            final(self).jobs@.last() == job,
            forall|k: int| 0 <= k < old(self).jobs@.len() ==> final(self).jobs@[k] == #[trigger] old(
                self,
            ).jobs@[k],
            r matches Ok(id) ==> id@.len() == 36,
    {
        self.jobs.push(job);
        Ok(crate::util::generate_id())
    }
}

/// Applies one deferred deletion job to a file store: removes exactly the
/// entry of the job's path, leaving every other entry as it was — the
/// background deletion worker's whole step.
pub fn apply_delete_job<S: FileStore>(store: &mut S, job: &AsyncDeleteJob)
    ensures
        ({
            let pre = old(store).files_model();
            let post = final(store).files_model();
            let p = match job {
                AsyncDeleteJob::FSDelete(path) => path@,
            };
            let i = fs_first(pre, p);
            &&& i < pre.len() ==> post == pre.remove(i)
            &&& i >= pre.len() ==> post == pre
        }),
{
    match job {
        AsyncDeleteJob::FSDelete(path) => {
            store.delete(path.as_str());
        },
    }
}

} // verus!
