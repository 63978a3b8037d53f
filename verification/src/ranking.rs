//! Ranked-hit merging: the coordinator's stable sort and truncation.
//!
//! Scores arrive as the bit patterns of the engine's non-negative floats,
//! which order exactly as the scores do; merging sorts descending, stably,
//! and keeps the top of the list.

use vstd::prelude::*;

use crate::store::SearchDocRef;

verus! {

/// One hit from a partition sub-query.
#[derive(Debug)]
pub struct PartitionSearchHit {
    /// Reference to the stored document.
    pub doc_ref: SearchDocRef,
    /// Bit pattern of the engine's non-negative score; bit order is score
    /// order.
    pub score_bits: u32,
    /// The partition this hit came from.
    pub partition_n: usize,
}

/// Model of a hit.
pub struct HitV {
    pub id: Seq<char>,
    pub score: u32,
    pub partition: int,
}

impl View for PartitionSearchHit {
    type V = HitV;

    open spec fn view(&self) -> HitV {
        HitV { id: self.doc_ref.0.0@, score: self.score_bits, partition: self.partition_n as int }
    }
}

/// The models of a sequence of hits, in order.
pub open spec fn hit_views(hits: Seq<PartitionSearchHit>) -> Seq<HitV> {
    Seq::new(hits.len(), |i: int| hits[i]@)
}

/// Inserts a hit into a descending list, after every hit that scores at
/// least as high — so hits of equal score keep their arrival order.
pub open spec fn insert_desc(s: Seq<HitV>, x: HitV) -> Seq<HitV>
    decreases s.len(),
{
    if s.len() == 0 {
        seq![x]
    } else if s.last().score >= x.score {
        s.push(x)
    } else {
        insert_desc(s.drop_last(), x).push(s.last())
    }
}

/// Stable descending sort by score: each hit inserted in arrival order.
pub open spec fn sort_desc(s: Seq<HitV>) -> Seq<HitV>
    decreases s.len(),
{
    if s.len() == 0 {
        Seq::empty()
    } else {
        insert_desc(sort_desc(s.drop_last()), s.last())
    }
}

/// Whether a hit list is sorted by descending score.
pub open spec fn sorted_desc(s: Seq<HitV>) -> bool {
    forall|i: int, j: int| 0 <= i < j < s.len() ==> (#[trigger] s[i]).score >= (
    #[trigger] s[j]).score
}

/// Inserting preserves sortedness and adds exactly the new hit.
proof fn lemma_insert_desc(s: Seq<HitV>, x: HitV)
    requires
        sorted_desc(s),
    ensures
        sorted_desc(insert_desc(s, x)),
        insert_desc(s, x).len() == s.len() + 1,
        insert_desc(s, x).to_multiset() == s.to_multiset().insert(x),
    decreases s.len(),
{
    broadcast use vstd::seq_lib::group_to_multiset_ensures;

    let r = insert_desc(s, x);
    if s.len() == 0 {
        assert(Seq::<HitV>::empty().push(x) =~= seq![x]);
        assert(seq![x].to_multiset() == Seq::<HitV>::empty().to_multiset().insert(x));
    } else if s.last().score >= x.score {
        assert forall|i: int, j: int| 0 <= i < j < r.len() implies (#[trigger] r[i]).score >= (
        #[trigger] r[j]).score by {
            if j < s.len() {
                assert(r[i] == s[i] && r[j] == s[j]);
            } else {
                assert(r[j] == x);
                if i < s.len() - 1 {
                    assert(s[i].score >= s[s.len() - 1].score);
                }
            }
        }
    } else {
        assert(sorted_desc(s.drop_last())) by {
            assert forall|i: int, j: int| 0 <= i < j < s.drop_last().len() implies (
            #[trigger] s.drop_last()[i]).score >= (#[trigger] s.drop_last()[j]).score by {
                assert(s[i].score >= s[j].score);
            }
        }
        lemma_insert_desc(s.drop_last(), x);
        let r0 = insert_desc(s.drop_last(), x);
        assert forall|i: int, j: int| 0 <= i < j < r.len() implies (#[trigger] r[i]).score >= (
        #[trigger] r[j]).score by {
            if j < r0.len() {
                assert(r[i] == r0[i] && r[j] == r0[j]);
            } else {
                assert(r[j] == s.last());
                assert(r[i] == r0[i]);
                // every element of r0 is from s.drop_last() or is x; both
                // score above s.last()
                assert(r0.to_multiset().count(r0[i]) > 0);
                if s.drop_last().to_multiset().count(r0[i]) > 0 {
                    let w = choose|w: int|
                        0 <= w < s.drop_last().len() && s.drop_last()[w] == r0[i];
                    assert(s[w].score >= s[s.len() - 1].score);
                } else {
                    assert(r0[i] == x);
                }
            }
        }
        assert(r.to_multiset() =~= s.to_multiset().insert(x)) by {
            assert(s.drop_last().push(s.last()) =~= s);
            assert(s.drop_last().to_multiset().insert(s.last()) =~= s.to_multiset());
        }
    }
}

/// The sorted list: same hits (as a multiset), same length, descending.
pub proof fn lemma_sort_desc(s: Seq<HitV>)
    ensures
        sorted_desc(sort_desc(s)),
        sort_desc(s).len() == s.len(),
        sort_desc(s).to_multiset() == s.to_multiset(),
    decreases s.len(),
{
    broadcast use vstd::seq_lib::group_to_multiset_ensures;

    if s.len() > 0 {
        lemma_sort_desc(s.drop_last());
        lemma_insert_desc(sort_desc(s.drop_last()), s.last());
        assert(s.drop_last().push(s.last()) =~= s);
        assert(s.drop_last().to_multiset().insert(s.last()) =~= s.to_multiset());
    }
}

/// Inserts a hit into a descending vector, stably.
fn insert_hit(v: &mut Vec<PartitionSearchHit>, x: PartitionSearchHit)
    ensures
        hit_views(final(v)@) == insert_desc(hit_views(old(v)@), x@),
    decreases old(v)@.len(),
{
    let ghost pre = hit_views(v@);
    if v.len() == 0 {
        v.push(x);
        proof {
            assert(hit_views(v@) =~= insert_desc(pre, x@));
        }
    } else if v[v.len() - 1].score_bits >= x.score_bits {
        v.push(x);
        proof {
            assert(pre.last() == v@[v@.len() - 2]@);
            assert(hit_views(v@) =~= pre.push(x@));
        }
    } else {
        match v.pop() {
            Some(t) => {
                proof {
                    assert(hit_views(v@) =~= pre.drop_last());
                    assert(t@ == pre.last());
                }
                insert_hit(v, x);
                v.push(t);
                proof {
                    assert(hit_views(v@) =~= insert_desc(pre.drop_last(), x@).push(pre.last()));
                }
            },
            None => {
                proof {
                    assert(false);
                }
            },
        }
    }
}

/// Sorts hits by descending score, stably, and keeps at most `k`: the
/// merge-and-truncate step of the coordinator.
pub fn merge_hits(hits: Vec<PartitionSearchHit>, k: usize) -> (r: Vec<PartitionSearchHit>)
    ensures
        hit_views(r@) == sort_desc(hit_views(hits@)).take(
            if k as int <= hits@.len() {
                k as int
            } else {
                hits@.len() as int
            },
        ),
        sorted_desc(hit_views(r@)),
        r@.len() <= k,
        forall|i: int| 0 <= i < r@.len() ==> hit_views(hits@).contains(#[trigger] hit_views(r@)[i]),
{
    let ghost all = hit_views(hits@);
    let mut hits = hits;
    let mut sorted: Vec<PartitionSearchHit> = Vec::new();
    let mut i: usize = 0;
    let n = hits.len();
    while i < n
        invariant
            i <= n,
            n == hits@.len(),
            hit_views(hits@) == all,
            hit_views(sorted@) == sort_desc(all.take(i as int)),
        decreases n - i,
    {
        let h = hits[i].doc_ref.duplicate();
        let x = PartitionSearchHit {
            doc_ref: h,
            score_bits: hits[i].score_bits,
            partition_n: hits[i].partition_n,
        };
        proof {
            assert(x@ == all[i as int]);
            assert(all.take(i + 1 as int).drop_last() =~= all.take(i as int));
            assert(all.take(i + 1 as int).last() == all[i as int]);
        }
        insert_hit(&mut sorted, x);
        i = i + 1;
    }
    proof {
        assert(all.take(n as int) =~= all);
        lemma_sort_desc(all);
    }
    sorted.truncate(k);
    proof {
        broadcast use vstd::seq_lib::group_to_multiset_ensures;

        if k as int <= all.len() {
            assert(hit_views(sorted@) =~= sort_desc(all).take(k as int));
        } else {
            assert(hit_views(sorted@) =~= sort_desc(all).take(all.len() as int));
        }
        lemma_sorted_take(sort_desc(all), hit_views(sorted@));
        assert forall|i: int| 0 <= i < sorted@.len() implies all.contains(
            #[trigger] hit_views(sorted@)[i],
        ) by {
            let x = hit_views(sorted@)[i];
            assert(sort_desc(all)[i] == x);
            assert(sort_desc(all).contains(x));
            assert(sort_desc(all).to_multiset().count(x) > 0);
            assert(all.to_multiset().count(x) > 0);
        }
    }
    sorted
}

/// A prefix of a descending list is descending.
proof fn lemma_sorted_take(s: Seq<HitV>, p: Seq<HitV>)
    requires
        sorted_desc(s),
        exists|n: int| 0 <= n <= s.len() && p == s.take(n),
    ensures
        sorted_desc(p),
{
    let n = choose|n: int| 0 <= n <= s.len() && p == s.take(n);
    assert forall|i: int, j: int| 0 <= i < j < p.len() implies (#[trigger] p[i]).score >= (
    #[trigger] p[j]).score by {
        assert(p[i] == s[i] && p[j] == s[j]);
    }
}

} // verus!
