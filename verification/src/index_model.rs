//! Model of an index's observable state: the live documents by id.
//!
//! The writer worker turns each write op into engine actions — a tombstone
//! delete for the document id, then (for an index op) an add.  This module
//! fixes what those actions mean for the set of live documents, and proves
//! the write-path laws: indexing a document is idempotent and overwrites by
//! id, deleting is idempotent, and a committed document is visible by id.

use vstd::prelude::*;

use crate::json_data::Jv;

verus! {

/// One engine action the worker can issue.
pub enum ActionV {
    /// Tombstone every live document with this id.
    Delete(Seq<char>),
    /// Add a document under this id.
    Add(Seq<char>, Jv),
}

/// The live documents, in insertion order, with ids.
pub type LiveDocs = Seq<(Seq<char>, Jv)>;

/// The live documents without any document of the given id.
pub open spec fn remove_doc(m: LiveDocs, id: Seq<char>) -> LiveDocs
    decreases m.len(),
{
    if m.len() == 0 {
        Seq::empty()
    } else if m.last().0 != id {
        remove_doc(m.drop_last(), id).push(m.last())
    } else {
        remove_doc(m.drop_last(), id)
    }
}

/// Effect of one action on the live documents.
pub open spec fn apply_action(m: LiveDocs, a: ActionV) -> LiveDocs {
    match a {
        ActionV::Delete(id) => remove_doc(m, id),
        ActionV::Add(id, d) => m.push((id, d)),
    }
}

/// Effect of a sequence of actions, in order.
pub open spec fn apply_actions(m: LiveDocs, acts: Seq<ActionV>) -> LiveDocs
    decreases acts.len(),
{
    if acts.len() == 0 {
        m
    } else {
        apply_actions(apply_action(m, acts[0]), acts.drop_first())
    }
}

/// The actions the worker issues for an index op: delete before add.
pub open spec fn index_plan(id: Seq<char>, d: Jv) -> Seq<ActionV> {
    seq![ActionV::Delete(id), ActionV::Add(id, d)]
}

/// Effect of indexing a document: exactly one live copy with its id.
pub open spec fn apply_index(m: LiveDocs, id: Seq<char>, d: Jv) -> LiveDocs {
    remove_doc(m, id).push((id, d))
}

/// The live document with the given id, if any (the latest added).
pub open spec fn lookup(m: LiveDocs, id: Seq<char>) -> Option<Jv>
    decreases m.len(),
{
    if m.len() == 0 {
        None
    } else if m.last().0 == id {
        Some(m.last().1)
    } else {
        lookup(m.drop_last(), id)
    }
}

/// No document with the removed id stays live.
pub proof fn lemma_remove_doc_members(m: LiveDocs, id: Seq<char>)
    ensures
        forall|i: int| 0 <= i < remove_doc(m, id).len() ==> (#[trigger] remove_doc(m, id)[i]).0
            != id,
    decreases m.len(),
{
    if m.len() > 0 {
        lemma_remove_doc_members(m.drop_last(), id);
        let r0 = remove_doc(m.drop_last(), id);
        let r = remove_doc(m, id);
        assert forall|i: int| 0 <= i < r.len() implies (#[trigger] r[i]).0 != id by {
            if m.last().0 != id {
                if i < r0.len() {
                    assert(r[i] == r0[i]);
                } else {
                    assert(r[i] == m.last());
                }
            } else {
                assert(r[i] == r0[i]);
            }
        }
    }
}

/// Removing an id from documents that do not carry it changes nothing.
proof fn lemma_remove_doc_absent(m: LiveDocs, id: Seq<char>)
    requires
        forall|i: int| 0 <= i < m.len() ==> (#[trigger] m[i]).0 != id,
    ensures
        remove_doc(m, id) == m,
    decreases m.len(),
{
    if m.len() > 0 {
        lemma_remove_doc_absent(m.drop_last(), id);
        assert(remove_doc(m, id) =~= m);
    }
}

/// Removing an id twice is removing it once.
pub proof fn lemma_remove_twice(m: LiveDocs, id: Seq<char>)
    ensures
        remove_doc(remove_doc(m, id), id) == remove_doc(m, id),
{
    lemma_remove_doc_members(m, id);
    lemma_remove_doc_absent(remove_doc(m, id), id);
}

/// Removing distributes over push.
proof fn lemma_remove_push(m: LiveDocs, id: Seq<char>, e: (Seq<char>, Jv))
    ensures
        remove_doc(m.push(e), id) == if e.0 != id {
            remove_doc(m, id).push(e)
        } else {
            remove_doc(m, id)
        },
{
    assert(m.push(e).drop_last() =~= m);
    assert(m.push(e).last() == e);
}

/// Looking up in a pushed state reads the pushed entry first.
proof fn lemma_lookup_push(m: LiveDocs, id: Seq<char>, e: (Seq<char>, Jv))
    ensures
        lookup(m.push(e), id) == if e.0 == id {
            Some(e.1)
        } else {
            lookup(m, id)
        },
{
    assert(m.push(e).drop_last() =~= m);
    assert(m.push(e).last() == e);
}

/// An id that no live document carries looks up to nothing.
proof fn lemma_lookup_absent(m: LiveDocs, id: Seq<char>)
    requires
        forall|i: int| 0 <= i < m.len() ==> (#[trigger] m[i]).0 != id,
    ensures
        lookup(m, id) is None,
    decreases m.len(),
{
    if m.len() > 0 {
        lemma_lookup_absent(m.drop_last(), id);
    }
}

/// Removing one id leaves lookups of other ids unchanged.
proof fn lemma_remove_other(m: LiveDocs, id: Seq<char>, other: Seq<char>)
    requires
        other != id,
    ensures
        lookup(remove_doc(m, id), other) == lookup(m, other),
    decreases m.len(),
{
    if m.len() > 0 {
        lemma_remove_other(m.drop_last(), id, other);
        if m.last().0 != id {
            lemma_lookup_push(remove_doc(m.drop_last(), id), other, m.last());
        }
    }
}

/// The index plan (delete, then add) applies as [`apply_index`].
pub proof fn lemma_index_plan_effect(m: LiveDocs, id: Seq<char>, d: Jv)
    ensures
        apply_actions(m, index_plan(id, d)) == apply_index(m, id, d),
{
    let acts = index_plan(id, d);
    let acts1 = acts.drop_first();
    assert(acts1 =~= seq![ActionV::Add(id, d)]);
    assert(acts1.drop_first() =~= Seq::<ActionV>::empty());
    assert(apply_actions(m, acts) == apply_actions(remove_doc(m, id), acts1));
    assert(apply_actions(remove_doc(m, id), acts1) == apply_actions(
        remove_doc(m, id).push((id, d)),
        acts1.drop_first(),
    ));
}

/// Index idempotence: applying the index plan for a document twice leaves
/// the same live documents as applying it once.
pub proof fn lemma_index_idempotent(m: LiveDocs, id: Seq<char>, d: Jv)
    ensures
        apply_index(apply_index(m, id, d), id, d) == apply_index(m, id, d),
{
    lemma_remove_push(remove_doc(m, id), id, (id, d));
    lemma_remove_twice(m, id);
}

/// Update overwrites: indexing a second document under the same id leaves
/// exactly the second one live, whatever was indexed before.
pub proof fn lemma_index_overwrites(m: LiveDocs, id: Seq<char>, d1: Jv, d2: Jv)
    ensures
        apply_index(apply_index(m, id, d1), id, d2) == apply_index(m, id, d2),
{
    lemma_remove_push(remove_doc(m, id), id, (id, d1));
    lemma_remove_twice(m, id);
}

/// Delete idempotence: deleting an id any number of times leaves the same
/// live documents as deleting it once.
pub proof fn lemma_delete_idempotent(m: LiveDocs, id: Seq<char>)
    ensures
        remove_doc(remove_doc(m, id), id) == remove_doc(m, id),
{
    lemma_remove_twice(m, id);
}

/// Delete removes: deleting an id after indexing under it leaves the same
/// state as deleting it from the start, and the id is no longer live.
pub proof fn lemma_delete_removes(m: LiveDocs, id: Seq<char>, d: Jv)
    ensures
        remove_doc(apply_index(m, id, d), id) == remove_doc(m, id),
        lookup(remove_doc(apply_index(m, id, d), id), id) is None,
{
    lemma_remove_push(remove_doc(m, id), id, (id, d));
    lemma_remove_twice(m, id);
    lemma_remove_doc_members(m, id);
    lemma_lookup_absent(remove_doc(m, id), id);
}

/// Write-read visibility: after indexing a document, looking its id up
/// yields exactly that document, and other ids are untouched.
pub proof fn lemma_index_visible(m: LiveDocs, id: Seq<char>, d: Jv, other: Seq<char>)
    ensures
        lookup(apply_index(m, id, d), id) == Some(d),
        other != id ==> lookup(apply_index(m, id, d), other) == lookup(m, other),
{
    lemma_lookup_push(remove_doc(m, id), id, (id, d));
    if other != id {
        lemma_lookup_push(remove_doc(m, id), other, (id, d));
        lemma_remove_other(m, id, other);
    }
}

} // verus!
