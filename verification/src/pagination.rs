//! Pagination token: the stateless cursor of the query pipeline.
//!
//! A token carries the query text, a pinned snapshot of the segment
//! manifest, and one result offset per partition.  Its wire form is the
//! canonical JSON of its model, compressed with zstd and encoded in
//! standard base64; parsing inverts every step, which is proved in
//! [`lemma_token_round_trip`].

use vstd::prelude::*;

use crate::json_data::Jv;
use crate::json_data::JsonValue;
use crate::json_data::jv_of;
use crate::json_data::jv_of_members;
use crate::json_data::clone_value;
use crate::text::clone_string;

verus! {

/// Metadata of one segment, as pinned inside a token: the segment id plus
/// whatever extra fields the engine stored in the manifest, kept verbatim.
pub struct SegmentMeta {
    pub segment_id: String,
    pub extra: Vec<(String, JsonValue)>,
}

impl View for SegmentMeta {
    type V = Jv;

    open spec fn view(&self) -> Jv {
        Jv::Obj(
            seq![("segment_id"@, Jv::Str(self.segment_id@))] + jv_of_members(self.extra@),
        )
    }
}

impl SegmentMeta {
    /// Deep copy with the same model.
    pub fn duplicate(&self) -> (r: SegmentMeta)
        ensures
            r@ == self@,
    {
        let mut extra: Vec<(String, JsonValue)> = Vec::new();
        let mut i: usize = 0;
        while i < self.extra.len()
            invariant
                i <= self.extra.len(),
                extra@.len() == i,
                forall|k: int| 0 <= k < i ==> (#[trigger] extra@[k]).0@ == self.extra@[k].0@
                    && jv_of(extra@[k].1) == jv_of(self.extra@[k].1),
            decreases self.extra.len() - i,
        {
            let ks = clone_string(&self.extra[i].0);
            let v = clone_value(&self.extra[i].1);
            extra.push((ks, v));
            i = i + 1;
        }
        proof {
            crate::json_data::lemma_jv_of_members(extra@);
            crate::json_data::lemma_jv_of_members(self.extra@);
            assert(jv_of_members(extra@) =~= jv_of_members(self.extra@));
        }
        SegmentMeta { segment_id: clone_string(&self.segment_id), extra }
    }
}

/// The models of a sequence of segment metas, in order.
pub open spec fn seg_views(segs: Seq<SegmentMeta>) -> Seq<Jv> {
    Seq::new(segs.len(), |i: int| segs[i]@)
}

/// The models of the per-partition offsets, in order.
pub open spec fn offset_views(ps: Seq<u64>) -> Seq<Jv> {
    Seq::new(ps.len(), |i: int| Jv::Int(ps[i] as i64))
}

/// Stateless paging cursor: query text, pinned segment snapshot, and one
/// offset per partition.
pub struct PaginationToken {
    pub query: String,
    pub segments: Vec<SegmentMeta>,
    pub partition_state: Vec<u64>,
}

impl View for PaginationToken {
    type V = Jv;

    open spec fn view(&self) -> Jv {
        Jv::Obj(
            seq![
                ("query"@, Jv::Str(self.query@)),
                ("segments"@, Jv::Arr(seg_views(self.segments@))),
                ("partition_state"@, Jv::Arr(offset_views(self.partition_state@))),
            ],
        )
    }
}

/// Indices in `[0, count)` that round-robin assignment hands to partition
/// `n` out of `p`: exactly those congruent to `n` modulo `p`, ascending.
pub open spec fn assigned_idx(count: int, p: int, n: int) -> Seq<int>
    decreases count,
{
    if count <= 0 {
        Seq::empty()
    } else if (count - 1) % p == n {
        assigned_idx(count - 1, p, n).push(count - 1)
    } else {
        assigned_idx(count - 1, p, n)
    }
}

/// Round-robin partition coverage: with `p` partitions, the assigned index
/// lists are ascending, every listed index lies in `[0, count)` and belongs
/// to its partition, every index in `[0, count)` appears in the list of its
/// own partition `i % p`, and in no other.  The `p` assigned sets are thus
/// disjoint and their union is `{0, ..., count - 1}`.
pub proof fn lemma_round_robin_coverage(count: int, p: int)
    requires
        p >= 1,
        count >= 0,
    ensures
        forall|n: int, k: int|
            0 <= n < p && 0 <= k < assigned_idx(count, p, n).len() ==> {
                &&& 0 <= #[trigger] assigned_idx(count, p, n)[k] < count
                &&& assigned_idx(count, p, n)[k] % p == n
            },
        forall|n: int, k1: int, k2: int|
            0 <= n < p && 0 <= k1 < k2 < assigned_idx(count, p, n).len() ==> #[trigger] assigned_idx(
                count,
                p,
                n,
            )[k1] < #[trigger] assigned_idx(count, p, n)[k2],
        forall|i: int| 0 <= i < count ==> #[trigger] assigned_idx(count, p, i % p).contains(i),
        forall|n: int, i: int|
            0 <= n < p && #[trigger] assigned_idx(count, p, n).contains(i) ==> 0 <= i < count && i
                % p == n,
    decreases count,
{
    if count > 0 {
        lemma_round_robin_coverage(count - 1, p);
        assert forall|n: int, k: int|
            0 <= n < p && 0 <= k < assigned_idx(count, p, n).len() implies {
                &&& 0 <= #[trigger] assigned_idx(count, p, n)[k] < count
                &&& assigned_idx(count, p, n)[k] % p == n
            } by {
            let s = assigned_idx(count, p, n);
            let s0 = assigned_idx(count - 1, p, n);
            if (count - 1) % p == n {
                if k < s0.len() {
                    assert(s[k] == s0[k]);
                } else {
                    assert(s[k] == count - 1);
                }
            } else {
                assert(s[k] == s0[k]);
            }
        }
        assert forall|n: int, k1: int, k2: int|
            0 <= n < p && 0 <= k1 < k2 < assigned_idx(count, p, n).len() implies #[trigger] assigned_idx(
                count,
                p,
                n,
            )[k1] < #[trigger] assigned_idx(count, p, n)[k2] by {
            let s = assigned_idx(count, p, n);
            let s0 = assigned_idx(count - 1, p, n);
            if (count - 1) % p == n {
                if k2 < s0.len() {
                    assert(s[k1] == s0[k1] && s[k2] == s0[k2]);
                } else {
                    assert(s[k1] == s0[k1]);
                    assert(s[k2] == count - 1);
                    assert(0 <= s0[k1] < count - 1);
                }
            } else {
                assert(s[k1] == s0[k1] && s[k2] == s0[k2]);
            }
        }
        assert forall|i: int| 0 <= i < count implies #[trigger] assigned_idx(
            count,
            p,
            i % p,
        ).contains(i) by {
            if i < count - 1 {
                assert(assigned_idx(count - 1, p, i % p).contains(i));
                let k = choose|k: int|
                    0 <= k < assigned_idx(count - 1, p, i % p).len() && #[trigger] assigned_idx(
                        count - 1,
                        p,
                        i % p,
                    )[k] == i;
                assert(assigned_idx(count, p, i % p)[k] == i);
            } else {
                let s = assigned_idx(count, p, i % p);
                assert(s[s.len() - 1] == i);
            }
        }
        assert forall|n: int, i: int|
            0 <= n < p && #[trigger] assigned_idx(count, p, n).contains(i) implies 0 <= i < count
            && i % p == n by {
            let s = assigned_idx(count, p, n);
            let k = choose|k: int| 0 <= k < s.len() && #[trigger] s[k] == i;
            if (count - 1) % p == n && k == s.len() - 1 {
            } else {
                assert(assigned_idx(count - 1, p, n).contains(i)) by {
                    assert(assigned_idx(count - 1, p, n)[k] == i);
                }
            }
        }
    }
}

impl PaginationToken {
    /// Offsets small enough to survive the integer JSON encoding.
    pub open spec fn wf(&self) -> bool {
        forall|i: int|
            0 <= i < self.partition_state@.len() ==> (#[trigger] self.partition_state@[i] as int)
                <= 0x7fffffffffffffff
    }

    /// A fresh token for `query` over `total_partitions` partitions: no
    /// pinned segments yet, every offset zero.
    pub fn new(query: &str, total_partitions: usize) -> (r: PaginationToken)
        ensures
            r.query@ == query@,
            r.segments@.len() == 0,
            r.partition_state@.len() == total_partitions,
            forall|i: int| 0 <= i < total_partitions ==> #[trigger] r.partition_state@[i] == 0u64,
            r.wf(),
    {
        let mut partition_state: Vec<u64> = Vec::new();
        let mut i: usize = 0;
        while i < total_partitions
            invariant
                i <= total_partitions,
                partition_state@.len() == i,
                forall|k: int| 0 <= k < i ==> #[trigger] partition_state@[k] == 0u64,
            decreases total_partitions - i,
        {
            partition_state.push(0);
            i = i + 1;
        }
        PaginationToken { query: query.to_owned(), segments: Vec::new(), partition_state }
    }

    /// Pins a segment snapshot into the token.
    pub fn import_segments(&mut self, segments: Vec<SegmentMeta>)
        ensures
            final(self).query == old(self).query,
            final(self).partition_state == old(self).partition_state,
            final(self).segments == segments,
    {
        self.segments = segments;
    }

    /// The query text carried by the token.
    pub fn get_query(&self) -> (r: String)
        ensures
            r@ == self.query@,
    {
        clone_string(&self.query)
    }

    /// The offset recorded for partition `n`.
    pub fn get_offset(&self, n: usize) -> (r: u64)
        requires
            n < self.partition_state@.len(),
        ensures
            r == self.partition_state@[n as int],
    {
        self.partition_state[n]
    }

    /// Advances the offset of partition `n` by one (stopping at the JSON
    /// integer bound, which no realistic offset reaches).
    pub fn inc_offset(&mut self, n: usize)
        requires
            n < old(self).partition_state@.len(),
        ensures
            final(self).query == old(self).query,
            final(self).segments == old(self).segments,
            final(self).partition_state@.len() == old(self).partition_state@.len(),
            final(self).partition_state@[n as int] as int == if old(self).partition_state@[n as int]
                as int <= 0x7ffffffffffffffe {
                old(self).partition_state@[n as int] + 1
            } else {
                old(self).partition_state@[n as int] as int
            },
            forall|k: int|
                0 <= k < old(self).partition_state@.len() && k != n
                    ==> final(self).partition_state@[k] == #[trigger] old(self).partition_state@[k],
            old(self).wf() ==> final(self).wf(),
    {
        let v = self.partition_state[n];
        if v <= 0x7ffffffffffffffeu64 {
            self.partition_state.set(n, v + 1);
        } else {
            self.partition_state.set(n, v);
        }
    }

    /// The number of partitions this token pages over.
    pub fn partitions(&self) -> (r: usize)
        ensures
            r == self.partition_state@.len(),
    {
        self.partition_state.len()
    }

    /// The pinned segments that round-robin assignment hands to partition
    /// `n`: exactly those whose index is congruent to `n` modulo the
    /// partition count, in order.
    pub fn segments_for_partition(&self, n: usize) -> (r: Vec<SegmentMeta>)
        requires
            self.partition_state@.len() >= 1,
        ensures
            ({
                let idx = assigned_idx(
                    self.segments@.len() as int,
                    self.partition_state@.len() as int,
                    n as int,
                );
                &&& r@.len() == idx.len()
                &&& forall|k: int| 0 <= k < idx.len() ==> (#[trigger] r@[k])@ == self.segments@[idx[k]]@
            }),
    {
        let p = self.partition_state.len();
        let mut out: Vec<SegmentMeta> = Vec::new();
        let mut i: usize = 0;
        while i < self.segments.len()
            invariant
                i <= self.segments.len(),
                p == self.partition_state@.len(),
                p >= 1,
                ({
                    let idx = assigned_idx(i as int, p as int, n as int);
                    &&& out@.len() == idx.len()
                    &&& forall|k: int|
                        0 <= k < idx.len() ==> (#[trigger] out@[k])@ == self.segments@[idx[k]]@
                }),
            decreases self.segments.len() - i,
        {
            if i % p == n {
                let m = self.segments[i].duplicate();
                out.push(m);
            }
            i = i + 1;
        }
        out
    }
}

/// Shape of a segment-meta object: a `segment_id` string first, then
/// whatever extra members.
pub open spec fn is_sm_jv(j: Jv) -> bool {
    &&& j matches Jv::Obj(ms)
    &&& ms.len() >= 1
    &&& ms[0].0 == "segment_id"@
    &&& ms[0].1 is Str
}

/// Shape of a pagination-token object: the three fields in canonical order,
/// with well-shaped segments and non-negative offsets.
pub open spec fn is_token_jv(j: Jv) -> bool {
    &&& j matches Jv::Obj(ms)
    &&& ms.len() == 3
    &&& ms[0].0 == "query"@
    &&& ms[0].1 is Str
    &&& ms[1].0 == "segments"@
    &&& ms[1].1 matches Jv::Arr(ss) && (forall|i: int| 0 <= i < ss.len() ==> is_sm_jv(#[trigger] ss[i]))
    &&& ms[2].0 == "partition_state"@
    &&& ms[2].1 matches Jv::Arr(ps) && (forall|i: int|
        0 <= i < ps.len() ==> ((#[trigger] ps[i]) matches Jv::Int(n) && n >= 0))
}

/// Encodes one segment meta as its model object.
#[verifier::loop_isolation(false)]
pub fn sm_to_json(m: &SegmentMeta) -> (r: JsonValue)
    ensures
        jv_of(r) == m@,
{
    let mut members: Vec<(String, JsonValue)> = Vec::new();
    members.push(("segment_id".to_owned(), JsonValue::Str(clone_string(&m.segment_id))));
    let mut i: usize = 0;
    while i < m.extra.len()
        invariant
            i <= m.extra.len(),
            members@.len() == i + 1,
            (members@[0]).0@ == "segment_id"@,
            (members@[0]).1 matches JsonValue::Str(s) && s@ == m.segment_id@,
            forall|k: int| 1 <= k < i + 1 ==> (#[trigger] members@[k]).0@ == m.extra@[k - 1].0@
                && jv_of(members@[k].1) == jv_of(m.extra@[k - 1].1),
        decreases m.extra.len() - i,
    {
        let ks = clone_string(&m.extra[i].0);
        let v = clone_value(&m.extra[i].1);
        members.push((ks, v));
        i = i + 1;
    }
    proof {
        crate::json_data::lemma_jv_of_members(members@);
        crate::json_data::lemma_jv_of_members(m.extra@);
        assert(jv_of_members(members@) =~= seq![("segment_id"@, Jv::Str(m.segment_id@))]
            + jv_of_members(m.extra@));
    }
    JsonValue::Obj(members)
}

/// Decodes a segment meta from its model object; accepts exactly the
/// well-shaped objects.
#[verifier::loop_isolation(false)]
pub fn sm_from_json(v: &JsonValue) -> (r: Option<SegmentMeta>)
    ensures
        r matches Some(m) ==> m@ == jv_of(*v),
        r is Some <==> is_sm_jv(jv_of(*v)),
{
    proof {
        if let JsonValue::Obj(ms) = v {
            crate::json_data::lemma_jv_of_members(ms@);
        }
    }
    match v {
        JsonValue::Obj(ms) => {
            if ms.len() == 0 {
                return None;
            }
            if !crate::text::str_eq(ms[0].0.as_str(), "segment_id") {
                return None;
            }
            match &ms[0].1 {
                JsonValue::Str(id) => {
                    let segment_id = clone_string(id);
                    let mut extra: Vec<(String, JsonValue)> = Vec::new();
                    let mut i: usize = 1;
                    while i < ms.len()
                        invariant
                            1 <= i <= ms.len(),
                            extra@.len() == i - 1,
                            forall|k: int| 0 <= k < i - 1 ==> (#[trigger] extra@[k]).0@
                                == ms@[k + 1].0@ && jv_of(extra@[k].1) == jv_of(ms@[k + 1].1),
                        decreases ms.len() - i,
                    {
                        let ks = clone_string(&ms[i].0);
                        let vv = clone_value(&ms[i].1);
                        extra.push((ks, vv));
                        i = i + 1;
                    }
                    let m = SegmentMeta { segment_id, extra };
                    proof {
                        crate::json_data::lemma_jv_of_members(extra@);
                        crate::json_data::lemma_jv_of_members(ms@);
                        assert(seq![("segment_id"@, Jv::Str(m.segment_id@))]
                            + jv_of_members(extra@) =~= jv_of_members(ms@));
                    }
                    Some(m)
                },
                _ => None,
            }
        },
        _ => None,
    }
}

/// Decodes a pagination token from its model object; accepts exactly the
/// well-shaped objects, and the result is well formed.
#[verifier::loop_isolation(false)]
pub fn token_from_json(v: &JsonValue) -> (r: Option<PaginationToken>)
    ensures
        r matches Some(t) ==> t@ == jv_of(*v) && t.wf(),
        r is Some <==> is_token_jv(jv_of(*v)),
{
    proof {
        if let JsonValue::Obj(ms) = v {
            crate::json_data::lemma_jv_of_members(ms@);
        }
    }
    match v {
        JsonValue::Obj(ms) => {
            if ms.len() != 3 {
                return None;
            }
            if !crate::text::str_eq(ms[0].0.as_str(), "query") {
                return None;
            }
            if !crate::text::str_eq(ms[1].0.as_str(), "segments") {
                return None;
            }
            if !crate::text::str_eq(ms[2].0.as_str(), "partition_state") {
                return None;
            }
            let query: String;
            match &ms[0].1 {
                JsonValue::Str(q) => {
                    query = clone_string(q);
                },
                _ => {
                    return None;
                },
            }
            let mut segments: Vec<SegmentMeta> = Vec::new();
            match &ms[1].1 {
                JsonValue::Arr(ss) => {
                    proof {
                        crate::json_data::lemma_jv_of_items(ss@);
                    }
                    let mut i: usize = 0;
                    while i < ss.len()
                        invariant
                            i <= ss.len(),
                            segments@.len() == i,
                            forall|k: int| 0 <= k < ss@.len() ==> crate::json_data::jv_of_items(
                                ss@,
                            )[k] == jv_of(#[trigger] ss@[k]),
                            crate::json_data::jv_of_items(ss@).len() == ss@.len(),
                            forall|k: int| 0 <= k < i ==> (#[trigger] segments@[k])@ == jv_of(
                                ss@[k],
                            ),
                            forall|k: int| 0 <= k < i ==> is_sm_jv(jv_of(#[trigger] ss@[k])),
                        decreases ss.len() - i,
                    {
                        match sm_from_json(&ss[i]) {
                            Some(m) => {
                                segments.push(m);
                            },
                            None => {
                                proof {
                                    assert(!is_sm_jv(jv_of(ss@[i as int])));
                                    assert(jv_of_members(ms@)[1].1 == jv_of(ms@[1].1));
                                    assert(jv_of(ms@[1].1)->Arr_0[i as int] == jv_of(
                                        ss@[i as int],
                                    ));
                                    assert(!is_token_jv(jv_of(*v)));
                                }
                                return None;
                            },
                        }
                        i = i + 1;
                    }
                },
                _ => {
                    return None;
                },
            }
            let mut partition_state: Vec<u64> = Vec::new();
            match &ms[2].1 {
                JsonValue::Arr(ps) => {
                    proof {
                        crate::json_data::lemma_jv_of_items(ps@);
                    }
                    let mut i: usize = 0;
                    while i < ps.len()
                        invariant
                            i <= ps.len(),
                            partition_state@.len() == i,
                            forall|k: int| 0 <= k < ps@.len() ==> crate::json_data::jv_of_items(
                                ps@,
                            )[k] == jv_of(#[trigger] ps@[k]),
                            crate::json_data::jv_of_items(ps@).len() == ps@.len(),
                            forall|k: int| 0 <= k < i ==> jv_of(#[trigger] ps@[k]) == Jv::Int(
                                partition_state@[k] as i64,
                            ),
                            forall|k: int| 0 <= k < i ==> (partition_state@[k] as int)
                                <= 0x7fffffffffffffff,
                            forall|k: int| 0 <= k < i ==> (jv_of(#[trigger] ps@[k]) matches Jv::Int(
                                n,
                            ) && n >= 0),
                        decreases ps.len() - i,
                    {
                        match &ps[i] {
                            JsonValue::Int(n) => {
                                if *n >= 0 {
                                    partition_state.push(*n as u64);
                                } else {
                                    proof {
                                        assert(jv_of_members(ms@)[2].1 == jv_of(ms@[2].1));
                                        assert(jv_of(ms@[2].1)->Arr_0[i as int] == jv_of(
                                            ps@[i as int],
                                        ));
                                        assert(!is_token_jv(jv_of(*v)));
                                    }
                                    return None;
                                }
                            },
                            _ => {
                                proof {
                                    assert(jv_of_members(ms@)[2].1 == jv_of(ms@[2].1));
                                    assert(jv_of(ms@[2].1)->Arr_0[i as int] == jv_of(
                                        ps@[i as int],
                                    ));
                                    assert(!(jv_of(ps@[i as int]) is Int));
                                    assert(!is_token_jv(jv_of(*v)));
                                }
                                return None;
                            },
                        }
                        i = i + 1;
                    }
                },
                _ => {
                    return None;
                },
            }
            let t = PaginationToken { query, segments, partition_state };
            proof {
                if let JsonValue::Arr(ss) = &v->Obj_0@[1].1 {
                }
                assert(seg_views(t.segments@) =~= crate::json_data::jv_of_items(
                    ms@[1].1->Arr_0@,
                ));
                assert(offset_views(t.partition_state@) =~= crate::json_data::jv_of_items(
                    ms@[2].1->Arr_0@,
                ));
                assert(jv_of_members(ms@) =~= seq![
                    ("query"@, Jv::Str(t.query@)),
                    ("segments"@, Jv::Arr(seg_views(t.segments@))),
                    ("partition_state"@, Jv::Arr(offset_views(t.partition_state@))),
                ]);
            }
            Some(t)
        },
        _ => None,
    }
}

impl PaginationToken {
    /// Encodes the token as its model object.
    #[verifier::loop_isolation(false)]
    pub fn to_json(&self) -> (r: JsonValue)
        ensures
            jv_of(r) == self@,
    {
        let mut segs: Vec<JsonValue> = Vec::new();
        let mut i: usize = 0;
        while i < self.segments.len()
            invariant
                i <= self.segments.len(),
                segs@.len() == i,
                forall|k: int| 0 <= k < i ==> jv_of(#[trigger] segs@[k]) == self.segments@[k]@,
            decreases self.segments.len() - i,
        {
            let m = sm_to_json(&self.segments[i]);
            segs.push(m);
            i = i + 1;
        }
        let mut ps: Vec<JsonValue> = Vec::new();
        let mut j: usize = 0;
        while j < self.partition_state.len()
            invariant
                j <= self.partition_state.len(),
                ps@.len() == j,
                forall|k: int| 0 <= k < j ==> jv_of(#[trigger] ps@[k]) == Jv::Int(
                    self.partition_state@[k] as i64,
                ),
            decreases self.partition_state.len() - j,
        {
            let n = self.partition_state[j];
            ps.push(JsonValue::Int(n as i64));
            j = j + 1;
        }
        let mut members: Vec<(String, JsonValue)> = Vec::new();
        members.push(("query".to_owned(), JsonValue::Str(clone_string(&self.query))));
        members.push(("segments".to_owned(), JsonValue::Arr(segs)));
        members.push(("partition_state".to_owned(), JsonValue::Arr(ps)));
        let r = JsonValue::Obj(members);
        proof {
            crate::json_data::lemma_jv_of_members(members@);
            crate::json_data::lemma_jv_of_items(members@[1].1->Arr_0@);
            crate::json_data::lemma_jv_of_items(members@[2].1->Arr_0@);
            assert(crate::json_data::jv_of_items(members@[1].1->Arr_0@) =~= seg_views(
                self.segments@,
            ));
            assert(crate::json_data::jv_of_items(members@[2].1->Arr_0@) =~= offset_views(
                self.partition_state@,
            ));
            assert(jv_of_members(members@) =~= seq![
                ("query"@, Jv::Str(self.query@)),
                ("segments"@, Jv::Arr(seg_views(self.segments@))),
                ("partition_state"@, Jv::Arr(offset_views(self.partition_state@))),
            ]);
        }
        r
    }
}

/// A well-formed token's model has the token shape.
pub proof fn lemma_wf_token_shape(t: &PaginationToken)
    requires
        t.wf(),
    ensures
        is_token_jv(t@),
{
    let ms = t@->Obj_0;
    let ss = seg_views(t.segments@);
    assert forall|i: int| 0 <= i < ss.len() implies is_sm_jv(#[trigger] ss[i]) by {
        assert(ss[i] == t.segments@[i]@);
        assert(t.segments@[i]@->Obj_0[0] == ("segment_id"@, Jv::Str(t.segments@[i].segment_id@)));
    }
    let ps = offset_views(t.partition_state@);
    assert forall|i: int| 0 <= i < ps.len() implies ((#[trigger] ps[i]) matches Jv::Int(n) && n
        >= 0) by {
        assert(ps[i] == Jv::Int(t.partition_state@[i] as i64));
    }
}

/// What parsing a wire-form token string means: base64 decode, zstd
/// decompress, JSON parse, shape check.  Oversized payloads are rejected.
pub open spec fn token_parse_spec(s: Seq<char>) -> Option<Jv> {
    match crate::compress::unbase64_of(s) {
        Some(c) => match crate::compress::unzstd_of(c) {
            Some(b) => if b.len() < usize::MAX {
                match crate::json_parse::p_doc(b) {
                    Some(j) => if is_token_jv(j) {
                        Some(j)
                    } else {
                        None
                    },
                    None => None,
                }
            } else {
                None
            },
            None => None,
        },
        None => None,
    }
}

/// Pagination-token round trip: the canonical bytes of a well-formed token
/// parse back to exactly its model, and that model has the token shape.
/// With the codec wrappers' contracts this gives `parse(serialize(t)) == t`:
/// `serialize` promises a string whose decode chain ends in these bytes, and
/// `parse` returns whatever the chain yields.
pub proof fn lemma_token_round_trip(t: &PaginationToken)
    requires
        t.wf(),
    ensures
        crate::json_parse::p_doc(crate::json_codec::ser_value(t@)) == Some(t@),
        is_token_jv(t@),
{
    crate::json_laws::lemma_parse_of_serialized(t@);
    lemma_wf_token_shape(t);
}

impl PaginationToken {
    /// Serializes the token to its wire form: canonical JSON, zstd, base64.
    /// The encoding is deterministic — tokens with equal models yield
    /// byte-equal strings — and parses back to the token's model.  Fails
    /// only when the compressor does (it writes to memory, so in practice
    /// never).
    pub fn serialize(&self) -> (r: Option<String>)
        requires
            self.wf(),
        ensures
            r matches Some(s) ==> s@ == crate::compress::base64_of(
                crate::compress::zstd_of(crate::json_codec::ser_value(self@)),
            ) && token_parse_spec(s@) == Some(self@),
    {
        let jv = self.to_json();
        let bytes = crate::json_codec::to_bytes(&jv);
        if bytes.len() == usize::MAX {
            return None;
        }
        match crate::compress::zstd_compress(&bytes) {
            Some(c) => {
                let s = crate::compress::base64_encode(&c);
                proof {
                    lemma_token_round_trip(self);
                }
                Some(s)
            },
            None => None,
        }
    }

    /// Parses a wire-form token string, accepting exactly what
    /// [`token_parse_spec`] accepts.
    pub fn parse(s: &str) -> (r: Option<PaginationToken>)
        ensures
            r matches Some(t) ==> token_parse_spec(s@) == Some(t@) && t.wf(),
            r is None ==> token_parse_spec(s@) is None,
    {
        match crate::compress::base64_decode(s) {
            Some(c) => match crate::compress::zstd_decompress(&c) {
                Some(b) => {
                    if b.len() < usize::MAX {
                        match crate::json_exec::parse_json(&b) {
                            Some(v) => token_from_json(&v),
                            None => None,
                        }
                    } else {
                        None
                    }
                },
                None => None,
            },
            None => None,
        }
    }
}

} // verus!
