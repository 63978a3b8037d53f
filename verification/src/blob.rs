//! Blob store and queue surfaces, with in-memory implementations.
//!
//! The write pipeline stages serialized batches in a blob store and
//! enqueues their references; production implementations are platform
//! adapters, and the in-memory ones here carry the read-after-write
//! contract the pipeline relies on.

use vstd::prelude::*;

use crate::text::clone_string;
use crate::text::str_eq;

verus! {

/// A reference to a staged object: its bucket and key.
#[derive(Debug)]
pub struct S3Ref {
    pub bucket: String,
    pub key: String,
}

impl S3Ref {
    /// Copy naming the same object.
    pub fn duplicate(&self) -> (r: S3Ref)
        ensures
            r.bucket@ == self.bucket@,
            r.key@ == self.key@,
    {
        S3Ref { bucket: clone_string(&self.bucket), key: clone_string(&self.key) }
    }
}

/// An object store keyed by object key.
pub trait S3Bucket {
    /// Stores bytes under a key and yields the reference.
    fn write_object(&mut self, key: &str, body: Vec<u8>) -> Option<S3Ref>;

    /// Reads the bytes a reference names.
    fn read_object(&self, r: &S3Ref) -> Option<Vec<u8>>;

    /// Removes the object a reference names.
    fn delete_object(&mut self, r: &S3Ref);
}

/// A FIFO queue of bodies with message group ids.
pub trait SQSQueue {
    /// Enqueues a body under a group id.
    fn send_message(&mut self, group_id: &str, body: Vec<u8>);
}

impl SQSQueue for crate::message::MemFifoQueue {
    fn send_message(&mut self, group_id: &str, body: Vec<u8>) {
        crate::message::MemFifoQueue::send_message(self, group_id, body);
    }
}

/// In-memory bucket: last write per key wins, reads see writes.
pub struct MemS3Bucket {
    pub name: String,
    pub objects: Vec<(String, Vec<u8>)>,
}

impl MemS3Bucket {
    pub fn create(name: &str) -> (r: MemS3Bucket)
        ensures
            r.name@ == name@,
            r.objects@.len() == 0,
    {
        MemS3Bucket { name: name.to_owned(), objects: Vec::new() }
    }

    fn find(&self, key: &str) -> (r: Option<usize>)
        ensures
            r matches Some(i) ==> i < self.objects@.len() && self.objects@[i as int].0@ == key@,
    {
        let mut i: usize = 0;
        while i < self.objects.len()
            invariant
                i <= self.objects@.len(),
            decreases self.objects@.len() - i,
        {
            if str_eq(self.objects[i].0.as_str(), key) {
                return Some(i);
            }
            i = i + 1;
        }
        None
    }
}

impl S3Bucket for MemS3Bucket {
    fn write_object(&mut self, key: &str, body: Vec<u8>) -> Option<S3Ref> {
        match self.find(key) {
            Some(i) => {
                self.objects.set(i, (key.to_owned(), body));
            },
            None => {
                self.objects.push((key.to_owned(), body));
            },
        }
        Some(S3Ref { bucket: clone_string(&self.name), key: key.to_owned() })
    }

    fn read_object(&self, r: &S3Ref) -> Option<Vec<u8>> {
        match self.find(r.key.as_str()) {
            Some(i) => {
                let mut out: Vec<u8> = Vec::new();
                let mut j: usize = 0;
                while j < self.objects[i].1.len()
                    invariant
                        i < self.objects@.len(),
                        j <= self.objects@[i as int].1@.len(),
                    decreases self.objects@[i as int].1@.len() - j,
                {
                    let b = self.objects[i].1[j];
                    out.push(b);
                    j = j + 1;
                }
                Some(out)
            },
            None => None,
        }
    }

    fn delete_object(&mut self, r: &S3Ref) {
        match self.find(r.key.as_str()) {
            Some(i) => {
                self.objects.remove(i);
            },
            None => {},
        }
    }
}

} // verus!
