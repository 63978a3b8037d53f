//! Partition executor: one ranked sub-query over a partition's segments.
//!
//! The caller hands the executor the segments round-robin assignment gave
//! this partition, and an index whose view must present exactly those
//! segments — in production the directory narrows the manifest to the
//! slice ([`crate::directory_core::apply_manifest_filter`]); the in-memory
//! registry serves one whole view, so its coordinator runs exactly one
//! owning sub-query against it.  A partition that owns no segments has no
//! documents and is answered without touching the engine.

use vstd::prelude::*;

use crate::pagination::SegmentMeta;
use crate::ranking::PartitionSearchHit;
use crate::ranking::hit_views;
use crate::ranking::sorted_desc;
use crate::search_doc::SearchDocId;
use crate::service::ServiceError;
use crate::store::SearchDocRef;
use crate::worker::index_writer::EngineIndex;

verus! {

/// A sub-query for one partition, as it travels to a partition worker.
pub struct QueryRequest {
    pub index_id: String,
    pub query: String,
    pub offset: u64,
    pub partition_n: usize,
    /// The pinned segments assigned to this partition.
    pub segments: Vec<SegmentMeta>,
}

/// A partition's ranked answer.
#[derive(Debug)]
pub struct PartitionQueryResponse {
    pub matches: Vec<PartitionSearchHit>,
}

/// Executes one partition sub-query: at most `limit` hits ranked by the
/// engine in descending score order, skipping `offset`, each carrying its
/// stored id and tagged with the partition it came from.  A partition with
/// no assigned segments yields the empty page; an empty result is an empty
/// list, not an error; a query the engine cannot parse is an invalid
/// request.
pub fn execute_partition(
    index: &EngineIndex,
    query: &str,
    offset: u64,
    partition_n: usize,
    segments: &Vec<SegmentMeta>,
    limit: usize,
) -> (r: Result<PartitionQueryResponse, ServiceError>)
    ensures
        r matches Ok(resp) ==> {
            &&& resp.matches@.len() <= limit
            &&& sorted_desc(hit_views(resp.matches@))
            &&& (forall|i: int|
                0 <= i < resp.matches@.len() ==> (#[trigger] resp.matches@[i]).partition_n
                    == partition_n)
        },
        segments@.len() == 0 ==> (r matches Ok(resp) && resp.matches@.len() == 0),
        r matches Err(e) ==> (e is InvalidRequest && segments@.len() > 0),
{
    if segments.len() == 0 || limit == 0 {
        return Ok(PartitionQueryResponse { matches: Vec::new() });
    }
    let off: usize = if offset <= 0x7fffffffffffffffu64 && offset <= usize::MAX as u64 {
        offset as usize
    } else {
        return Ok(PartitionQueryResponse { matches: Vec::new() });
    };
    let fields = crate::engine::default_query_fields(&index.index);
    match crate::engine::search_addresses(&index.index, query, fields, limit, off) {
        Ok(raw) => {
            let mut raw = raw;
            let mut matches: Vec<PartitionSearchHit> = Vec::new();
            while raw.len() > 0
                invariant
                    matches@.len() + raw@.len() <= limit,
                    sorted_desc(hit_views(matches@)),
                    forall|i: int, j: int|
                        0 <= i < j < raw@.len() ==> (#[trigger] raw@[i]).0 >= (
                        #[trigger] raw@[j]).0,
                    forall|k: int, t: int|
                        0 <= k < matches@.len() && 0 <= t < raw@.len() ==> (
                        #[trigger] matches@[k]).score_bits >= (#[trigger] raw@[t]).0,
                    forall|k: int| 0 <= k < matches@.len() ==> (
                    #[trigger] matches@[k]).partition_n == partition_n,
                decreases raw@.len(),
            {
                let ghost raw0 = raw@;
                let (score_bits, addr) = raw.remove(0);
                proof {
                    assert(raw@ =~= raw0.subrange(1, raw0.len() as int));
                }
                match crate::engine::stored_field_text(
                    &index.index,
                    addr,
                    crate::engine::field_copy(&index.id_field),
                ) {
                    Some(id) => {
                        let ghost pre = matches@;
                        matches.push(
                            PartitionSearchHit {
                                doc_ref: SearchDocRef(SearchDocId(id)),
                                score_bits,
                                partition_n,
                            },
                        );
                        proof {
                            assert forall|k: int, t: int|
                                0 <= k < matches@.len() && 0 <= t < raw@.len() implies (
                            #[trigger] matches@[k]).score_bits >= (#[trigger] raw@[t]).0 by {
                                assert(raw@[t] == raw0[t + 1]);
                                if k < pre.len() {
                                    assert(matches@[k] == pre[k]);
                                } else {
                                    assert(matches@[k].score_bits == raw0[0].0);
                                }
                            }
                            assert forall|a: int, b: int|
                                0 <= a < b < hit_views(matches@).len() implies (
                            #[trigger] hit_views(matches@)[a]).score >= (#[trigger] hit_views(
                                matches@,
                            )[b]).score by {
                                if b < pre.len() {
                                    assert(matches@[a] == pre[a] && matches@[b] == pre[b]);
                                    assert(hit_views(pre)[a].score >= hit_views(pre)[b].score);
                                } else {
                                    assert(matches@[a] == pre[a]);
                                    assert(matches@[b].score_bits == raw0[0].0);
                                    assert(pre[a].score_bits >= raw0[0].0);
                                }
                            }
                        }
                    },
                    None => {},
                }
            }
            Ok(PartitionQueryResponse { matches })
        },
        Err(msg) => Err(ServiceError::invalid_request(msg.as_str())),
    }
}

} // verus!
