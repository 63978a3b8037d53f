//! Write-queue messages and the FIFO queue model.
//!
//! Messages are enqueued with a group id; the queue delivers each group's
//! messages in enqueue order, at most one in flight.  The write pipeline
//! sets the group id to the index id, which serializes writes per index —
//! [`lemma_fifo_per_group_order`] states the ordering law on the model.

use vstd::prelude::*;

use crate::json_data::JsonValue;
use crate::json_data::jv_of;

verus! {

/// What a writer message asks for.
#[derive(Debug)]
pub enum WriterMessageDetail {
    /// Index this single document.
    IndexSingleDoc { document: JsonValue },
    /// Delete the document with this id.
    DeleteSingleDoc { doc_id: String },
}

/// A message to the single-document writer queue.
#[derive(Debug)]
pub struct WriterMessage {
    pub index_id: String,
    pub detail: WriterMessageDetail,
}

impl WriterMessage {
    /// A message indexing one document.
    pub fn index_single_doc(index_id: &str, document: JsonValue) -> (r: WriterMessage)
        ensures
            r.index_id@ == index_id@,
            r.detail matches WriterMessageDetail::IndexSingleDoc { document: d } && jv_of(d)
                == jv_of(document),
    {
        WriterMessage { index_id: index_id.to_owned(), detail: WriterMessageDetail::IndexSingleDoc { document } }
    }

    /// A message deleting one document.
    pub fn delete_doc(index_id: &str, doc_id: &str) -> (r: WriterMessage)
        ensures
            r.index_id@ == index_id@,
            r.detail matches WriterMessageDetail::DeleteSingleDoc { doc_id: d } && d@ == doc_id@,
    {
        WriterMessage {
            index_id: index_id.to_owned(),
            detail: WriterMessageDetail::DeleteSingleDoc { doc_id: doc_id.to_owned() },
        }
    }
}

/// A sink that accepts writer messages and drops them, for exercising the
/// ingress path without a queue.
pub struct TestWriterSender {
    pub sent: Vec<WriterMessage>,
}

impl TestWriterSender {
    /// Records the message instead of sending it.
    pub fn send_message(&mut self, group_id: &str, message: WriterMessage)
        ensures
            final(self).sent@.len() == old(self).sent@.len() + 1,
            final(self).sent@.last() == message,
    {
        self.sent.push(message);
    }
}

/// A fresh drop-all sender.
pub fn test_writer_sender() -> (r: TestWriterSender)
    ensures
        r.sent@.len() == 0,
{
    TestWriterSender { sent: Vec::new() }
}

/// In-memory FIFO queue: enqueued entries keep their order, and a group's
/// entries are delivered front first.
pub struct MemFifoQueue {
    pub entries: Vec<(String, Vec<u8>)>,
}

/// The bodies a group's consumer sees, in delivery order.
pub open spec fn group_msgs(entries: Seq<(Seq<char>, Seq<u8>)>, group: Seq<char>) -> Seq<Seq<u8>>
    decreases entries.len(),
{
    if entries.len() == 0 {
        Seq::empty()
    } else if entries.last().0 == group {
        group_msgs(entries.drop_last(), group).push(entries.last().1)
    } else {
        group_msgs(entries.drop_last(), group)
    }
}

/// The model of the queue's entries.
pub open spec fn entry_views(entries: Seq<(String, Vec<u8>)>) -> Seq<(Seq<char>, Seq<u8>)> {
    Seq::new(entries.len(), |i: int| (entries[i].0@, entries[i].1@))
}

impl MemFifoQueue {
    pub fn new() -> (r: MemFifoQueue)
        ensures
            r.entries@.len() == 0,
    {
        MemFifoQueue { entries: Vec::new() }
    }

    /// Enqueues a body under a group id, behind everything already queued.
    pub fn send_message(&mut self, group_id: &str, body: Vec<u8>)
        ensures
            entry_views(final(self).entries@) =~= entry_views(old(self).entries@).push(
                (group_id@, body@),
            ),
    {
        self.entries.push((group_id.to_owned(), body));
    }

    /// Removes and returns the first queued body of a group, if any: the
    /// head of [`group_msgs`].
    #[verifier::loop_isolation(false)]
    pub fn receive_for_group(&mut self, group_id: &str) -> (r: Option<Vec<u8>>)
        ensures
            ({
                let before = group_msgs(entry_views(old(self).entries@), group_id@);
                match r {
                    Some(body) => before.len() > 0 && body@ == before[0] && group_msgs(
                        entry_views(final(self).entries@),
                        group_id@,
                    ) == before.drop_first(),
                    None => before.len() == 0 && final(self).entries@ == old(self).entries@,
                }
            }),
    {
        let ghost before = group_msgs(entry_views(self.entries@), group_id@);
        let mut i: usize = 0;
        while i < self.entries.len()
            invariant
                i <= self.entries@.len(),
                self.entries@ == old(self).entries@,
                forall|k: int| 0 <= k < i ==> (#[trigger] entry_views(self.entries@)[k]).0
                    != group_id@,
            decreases self.entries@.len() - i,
        {
            if crate::text::str_eq(self.entries[i].0.as_str(), group_id) {
                let ghost pre = entry_views(self.entries@);
                let (_, body) = self.entries.remove(i);
                proof {
                    lemma_group_msgs_first(pre, group_id@, i as int);
                    assert(entry_views(self.entries@) =~= pre.remove(i as int));
                }
                return Some(body);
            }
            i = i + 1;
        }
        proof {
            lemma_group_msgs_none(entry_views(self.entries@), group_id@);
        }
        None
    }
}

/// A group with no entries has no messages.
proof fn lemma_group_msgs_none(entries: Seq<(Seq<char>, Seq<u8>)>, group: Seq<char>)
    requires
        forall|k: int| 0 <= k < entries.len() ==> (#[trigger] entries[k]).0 != group,
    ensures
        group_msgs(entries, group).len() == 0,
    decreases entries.len(),
{
    if entries.len() > 0 {
        lemma_group_msgs_none(entries.drop_last(), group);
    }
}

/// When index `i` is the first entry of a group, its body heads the
/// group's messages, and removing it drops exactly that head.
proof fn lemma_group_msgs_first(entries: Seq<(Seq<char>, Seq<u8>)>, group: Seq<char>, i: int)
    requires
        0 <= i < entries.len(),
        entries[i].0 == group,
        forall|k: int| 0 <= k < i ==> (#[trigger] entries[k]).0 != group,
    ensures
        group_msgs(entries, group).len() > 0,
        group_msgs(entries, group)[0] == entries[i].1,
        group_msgs(entries.remove(i), group) == group_msgs(entries, group).drop_first(),
    decreases entries.len(),
{
    if entries.len() - 1 == i {
        lemma_group_msgs_none(entries.drop_last(), group);
        assert(entries.remove(i) =~= entries.drop_last());
        assert(group_msgs(entries, group) =~= group_msgs(entries.drop_last(), group).push(
            entries[i].1,
        ));
        assert(group_msgs(entries, group).drop_first() =~= Seq::<Seq<u8>>::empty());
    } else {
        lemma_group_msgs_first(entries.drop_last(), group, i);
        assert(entries.remove(i).drop_last() =~= entries.drop_last().remove(i));
        assert(entries.remove(i).last() == entries.last());
        if entries.last().0 == group {
            assert(group_msgs(entries.remove(i), group) =~= group_msgs(
                entries.drop_last().remove(i),
                group,
            ).push(entries.last().1));
            assert(group_msgs(entries, group).drop_first() =~= group_msgs(
                entries.drop_last(),
                group,
            ).drop_first().push(entries.last().1));
        }
    }
}

/// Group messages across concatenation: what was enqueued earlier is
/// delivered earlier.
proof fn lemma_group_msgs_concat(
    a: Seq<(Seq<char>, Seq<u8>)>,
    b: Seq<(Seq<char>, Seq<u8>)>,
    group: Seq<char>,
)
    ensures
        group_msgs(a + b, group) == group_msgs(a, group) + group_msgs(b, group),
    decreases b.len(),
{
    if b.len() == 0 {
        assert(a + b =~= a);
        assert(group_msgs(a, group) + group_msgs(b, group) =~= group_msgs(a, group));
    } else {
        lemma_group_msgs_concat(a, b.drop_last(), group);
        assert((a + b).drop_last() =~= a + b.drop_last());
        assert((a + b).last() == b.last());
        if b.last().0 == group {
            assert(group_msgs(a, group) + group_msgs(b, group) =~= (group_msgs(a, group)
                + group_msgs(b.drop_last(), group)).push(b.last().1));
        }
    }
}

/// FIFO per-group ordering: when two entries of one group stand at `i`
/// before `j` in the queue, their bodies appear in the group's delivery
/// sequence in that same order — a consumer draining the group sees the
/// first strictly before the second.
pub proof fn lemma_fifo_per_group_order(
    entries: Seq<(Seq<char>, Seq<u8>)>,
    group: Seq<char>,
    i: int,
    j: int,
)
    requires
        0 <= i < j < entries.len(),
        entries[i].0 == group,
        entries[j].0 == group,
    ensures
        exists|pi: int, pj: int|
            0 <= pi < pj < group_msgs(entries, group).len() && #[trigger] group_msgs(
                entries,
                group,
            )[pi] == entries[i].1 && #[trigger] group_msgs(entries, group)[pj] == entries[j].1,
{
    let a = entries.subrange(0, i + 1);
    let b = entries.subrange(i + 1, j + 1);
    let c = entries.subrange(j + 1, entries.len() as int);
    assert(entries =~= a + b + c);
    lemma_group_msgs_concat(a + b, c, group);
    lemma_group_msgs_concat(a, b, group);
    assert(a.last() == entries[i]);
    assert(b.last() == entries[j]);
    let ga = group_msgs(a, group);
    let gb = group_msgs(b, group);
    assert(ga.len() > 0 && ga.last() == entries[i].1) by {
        assert(group_msgs(a, group) == group_msgs(a.drop_last(), group).push(entries[i].1));
    }
    assert(gb.len() > 0 && gb.last() == entries[j].1) by {
        assert(group_msgs(b, group) == group_msgs(b.drop_last(), group).push(entries[j].1));
    }
    let pi = ga.len() - 1;
    let pj = ga.len() + gb.len() - 1;
    assert(group_msgs(entries, group) == ga + gb + group_msgs(c, group));
    assert(group_msgs(entries, group)[pi] == entries[i].1) by {
        assert((ga + gb + group_msgs(c, group))[pi] == ga[pi]);
    }
    assert(group_msgs(entries, group)[pj] == entries[j].1) by {
        assert((ga + gb + group_msgs(c, group))[pj] == gb[gb.len() - 1]);
    }
}

} // verus!
