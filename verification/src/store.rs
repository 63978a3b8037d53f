//! Document store: durable storage of raw documents keyed by id.
//!
//! The query path hydrates hits from here and the write path materializes
//! payloads from references.  The in-memory implementation is verified;
//! KV-backed implementations live with the platform adapters and follow the
//! same contract.

use vstd::prelude::*;

use crate::json_data::JsonValue;
use crate::json_data::Jv;
use crate::json_data::jv_of_members;
use crate::json_data::clone_value;
use crate::search_doc::SearchDoc;
use crate::search_doc::SearchDocId;
use crate::text::clone_string;

verus! {

/// A lightweight handle to a stored document: its id.
#[derive(Debug)]
pub struct SearchDocRef(pub SearchDocId);

impl SearchDocRef {
    /// Copy with the same id.
    pub fn duplicate(&self) -> (r: SearchDocRef)
        ensures
            r.0.0@ == self.0.0@,
    {
        SearchDocRef(self.0.duplicate())
    }
}

impl SearchDoc {
    /// Deep copy with the same id and content model.
    pub fn duplicate(&self) -> (r: SearchDoc)
        ensures
            r.id.0@ == self.id.0@,
            jv_of_members(r.content@) == jv_of_members(self.content@),
    {
        let mut content: Vec<(String, JsonValue)> = Vec::new();
        let mut i: usize = 0;
        while i < self.content.len()
            invariant
                i <= self.content.len(),
                content@.len() == i,
                forall|k: int| 0 <= k < i ==> (#[trigger] content@[k]).0@ == self.content@[k].0@
                    && crate::json_data::jv_of(content@[k].1) == crate::json_data::jv_of(
                    self.content@[k].1,
                ),
            decreases self.content.len() - i,
        {
            let ks = clone_string(&self.content[i].0);
            let v = clone_value(&self.content[i].1);
            content.push((ks, v));
            i = i + 1;
        }
        proof {
            crate::json_data::lemma_jv_of_members(content@);
            crate::json_data::lemma_jv_of_members(self.content@);
            assert(jv_of_members(content@) =~= jv_of_members(self.content@));
        }
        SearchDoc { id: self.id.duplicate(), content }
    }
}

/// In-memory document store: a map from id to document content, with
/// read-after-write visibility.  Saving a batch persists every document and
/// returns their references in input order.
pub struct MemDocumentStore {
    pub docs: Vec<SearchDoc>,
}

impl MemDocumentStore {
    /// The stored content for an id, by most recent save.
    pub open spec fn spec_get(&self, id: Seq<char>) -> Option<Seq<(Seq<char>, Jv)>> {
        let found = Seq::new(self.docs@.len(), |i: int| self.docs@[i]).filter(
            |d: SearchDoc| d.id.0@ == id,
        );
        if found.len() > 0 {
            Some(jv_of_members(found.last().content@))
        } else {
            None
        }
    }

    pub fn new() -> (r: MemDocumentStore)
        ensures
            r.docs@.len() == 0,
    {
        MemDocumentStore { docs: Vec::new() }
    }

    /// Persists every supplied document and returns refs in input order.
    pub fn save_documents(&mut self, documents: Vec<SearchDoc>) -> (r: Vec<SearchDocRef>)
        ensures
            final(self).docs@ == old(self).docs@ + documents@,
            r@.len() == documents@.len(),
            forall|i: int| 0 <= i < documents@.len() ==> (#[trigger] r@[i]).0.0@
                == documents@[i].id.0@,
    {
        let mut refs: Vec<SearchDocRef> = Vec::new();
        let mut i: usize = 0;
        while i < documents.len()
            invariant
                i <= documents.len(),
                refs@.len() == i,
                forall|k: int| 0 <= k < i ==> (#[trigger] refs@[k]).0.0@ == documents@[k].id.0@,
            decreases documents.len() - i,
        {
            refs.push(SearchDocRef(documents[i].id.duplicate()));
            i = i + 1;
        }
        let mut documents = documents;
        self.docs.append(&mut documents);
        refs
    }

    /// Fetches documents by reference, in input order; fails when any
    /// reference has no stored document.
    pub fn get_documents(&self, refs: &Vec<SearchDocRef>) -> (r: Option<Vec<SearchDoc>>)
        ensures
            r matches Some(ds) ==> ds@.len() == refs@.len() && forall|i: int|
                0 <= i < refs@.len() ==> (#[trigger] ds@[i]).id.0@ == refs@[i].0.0@
                    && self.spec_get(refs@[i].0.0@) == Some(jv_of_members(ds@[i].content@)),
            r is None ==> exists|i: int|
                0 <= i < refs@.len() && self.spec_get((#[trigger] refs@[i]).0.0@) is None,
    {
        let mut out: Vec<SearchDoc> = Vec::new();
        let mut i: usize = 0;
        while i < refs.len()
            invariant
                i <= refs@.len(),
                out@.len() == i,
                forall|k: int| 0 <= k < i ==> (#[trigger] out@[k]).id.0@ == refs@[k].0.0@
                    && self.spec_get(refs@[k].0.0@) == Some(jv_of_members(out@[k].content@)),
            decreases refs.len() - i,
        {
            match self.get_latest(&refs[i].0) {
                Some(d) => {
                    out.push(d);
                },
                None => {
                    return None;
                },
            }
            i = i + 1;
        }
        Some(out)
    }

    /// The most recently saved document with the given id.
    #[verifier::loop_isolation(false)]
    pub fn get_latest(&self, id: &SearchDocId) -> (r: Option<SearchDoc>)
        ensures
            r matches Some(d) ==> d.id.0@ == id.0@ && self.spec_get(id.0@) == Some(
                jv_of_members(d.content@),
            ),
            r is None ==> self.spec_get(id.0@) is None,
    {
        let ghost all = Seq::new(self.docs@.len(), |i: int| self.docs@[i]);
        let ghost pred = |d: SearchDoc| d.id.0@ == id.0@;
        let mut i: usize = self.docs.len();
        proof {
            assert(all =~= all.subrange(0, i as int));
        }
        while i > 0
            invariant
                i <= self.docs@.len(),
                all.subrange(0, i as int).filter(pred).len() == all.filter(pred).len() ==> true,
                // no match at or after i
                forall|k: int| i <= k < self.docs@.len() ==> (#[trigger] self.docs@[k]).id.0@
                    != id.0@,
            decreases i,
        {
            i = i - 1;
            if crate::text::str_eq(self.docs[i].id.0.as_str(), id.0.as_str()) {
                let d = self.docs[i].duplicate();
                proof {
                    lemma_filter_last(all, pred, i as int);
                }
                return Some(d);
            }
        }
        proof {
            lemma_filter_none(all, pred);
        }
        None
    }
}

/// When index `i` satisfies the predicate and nothing after it does, it is
/// the last filtered element, and the filtered sequence is non-empty.
proof fn lemma_filter_last(s: Seq<SearchDoc>, pred: spec_fn(SearchDoc) -> bool, i: int)
    requires
        0 <= i < s.len(),
        pred(s[i]),
        forall|k: int| i < k < s.len() ==> !pred(#[trigger] s[k]),
    ensures
        s.filter(pred).len() > 0,
        s.filter(pred).last() == s[i],
    decreases s.len(),
{
    reveal(Seq::filter);
    if s.len() - 1 > i {
        lemma_filter_last(s.drop_last(), pred, i);
    } else {
        if s.len() - 1 == i {
            assert(s.filter(pred) == s.drop_last().filter(pred).push(s[i]));
        }
    }
}

/// When nothing satisfies the predicate the filtered sequence is empty.
proof fn lemma_filter_none(s: Seq<SearchDoc>, pred: spec_fn(SearchDoc) -> bool)
    requires
        forall|k: int| 0 <= k < s.len() ==> !pred(#[trigger] s[k]),
    ensures
        s.filter(pred).len() == 0,
    decreases s.len(),
{
    reveal(Seq::filter);
    if s.len() > 0 {
        lemma_filter_none(s.drop_last(), pred);
    }
}

} // verus!
