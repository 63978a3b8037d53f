//! Query coordinator: partitions, fan-out, merge, hydrate, snippets, token.
//!
//! A query estimates the partition count from the live document count,
//! derives a pagination token (a fresh one pins the current segment
//! snapshot; a supplied one keeps its own), runs one sub-query per
//! partition, merges the ranked hits, advances the offset of each partition
//! whose hit was kept, hydrates the kept documents, and highlights their
//! text fields.

use vstd::prelude::*;

use crate::json_data::JsonValue;
use crate::pagination::PaginationToken;
use crate::pagination::SegmentMeta;
use crate::pagination::sm_from_json;
use crate::ranking::PartitionSearchHit;
use crate::ranking::hit_views;
use crate::ranking::HitV;
use crate::ranking::sort_desc;
use crate::ranking::merge_hits;
use crate::ranking::sorted_desc;
use crate::schema::FieldKind;
use crate::search_doc::SearchDoc;
use crate::service::ServiceError;
use crate::store::MemDocumentStore;
use crate::store::SearchDocRef;
use crate::worker::index_writer::EngineIndex;

verus! {

/// A query request: the query text and, when paging, the previous token.
#[derive(Debug)]
pub struct QueryRequest {
    pub query: String,
    pub pagination_token: Option<String>,
}

/// One answered hit: the stored document, its highlighted text fields, and
/// the score's bit pattern.
#[derive(Debug)]
pub struct SearchHit {
    pub doc: Vec<(String, JsonValue)>,
    pub snippets: Vec<(String, String)>,
    pub score_bits: u32,
}

/// A query answer: at most one page of hits, and the token to continue
/// with exactly when the page is non-empty.
#[derive(Debug)]
pub struct QueryResponse {
    pub matches: Vec<SearchHit>,
    pub pagination_token: Option<String>,
}

/// Documents per partition: the budget that fixes the partition count.
pub const PARTITION_DOC_BUDGET: u64 = 60000;

/// Hits per page.
pub const PAGE_SIZE: usize = 10;

/// The partition count for a live-document count: the ceiling of
/// `num_docs` over the per-partition budget.
pub open spec fn spec_total_partitions(num_docs: int) -> int {
    if num_docs <= 0 {
        0
    } else {
        (num_docs - 1) / (PARTITION_DOC_BUDGET as int) + 1
    }
}

/// Computes the partition count.
pub fn total_partitions(num_docs: u64) -> (r: u64)
    ensures
        r as int == spec_total_partitions(num_docs as int),
{
    if num_docs == 0 {
        0
    } else {
        (num_docs - 1) / PARTITION_DOC_BUDGET + 1
    }
}

/// Decodes a segment-meta array, as the engine manifest serializes it:
/// each decoded meta's model is exactly the corresponding element's model.
pub fn segments_from_json(v: &JsonValue) -> (r: Option<Vec<SegmentMeta>>)
    ensures
        r matches Some(segs) ==> v matches JsonValue::Arr(items) && segs@.len() == items@.len()
            && (forall|k: int|
            0 <= k < items@.len() ==> (#[trigger] segs@[k])@ == crate::json_data::jv_of(
                items@[k],
            ) && crate::pagination::is_sm_jv(crate::json_data::jv_of(items@[k]))),
{
    match v {
        JsonValue::Arr(items) => {
            let mut segs: Vec<SegmentMeta> = Vec::new();
            let mut i: usize = 0;
            while i < items.len()
                invariant
                    i <= items@.len(),
                    segs@.len() == i,
                    forall|k: int|
                        0 <= k < i ==> (#[trigger] segs@[k])@ == crate::json_data::jv_of(
                            items@[k],
                        ) && crate::pagination::is_sm_jv(crate::json_data::jv_of(items@[k])),
                decreases items.len() - i,
            {
                match sm_from_json(&items[i]) {
                    Some(m) => {
                        segs.push(m);
                    },
                    None => {
                        return None;
                    },
                }
                i = i + 1;
            }
            Some(segs)
        },
        _ => None,
    }
}

/// The current segment snapshot of an index, decoded from the engine's
/// manifest through the verified JSON parser: on success, exactly the
/// parsed manifest array, element for element.
pub fn current_segments(index: &EngineIndex) -> (r: Option<Vec<SegmentMeta>>)
    ensures
        r matches Some(segs) ==> forall|k: int|
            0 <= k < segs@.len() ==> crate::pagination::is_sm_jv((#[trigger] segs@[k])@),
{
    match crate::engine::index_segments_json(&index.index) {
        Some(json_text) => {
            let mut bytes: Vec<u8> = Vec::new();
            crate::text::push_str_bytes(&mut bytes, json_text.as_str());
            if bytes.len() == usize::MAX {
                return None;
            }
            match crate::json_exec::parse_json(&bytes) {
                Some(v) => segments_from_json(&v),
                None => None,
            }
        },
        None => None,
    }
}

/// The fresh token a query without one starts from: the request's query,
/// one zero offset per partition, and the current segment snapshot pinned
/// (later commits must not shift a paging client's view).
pub fn fresh_token(index: &EngineIndex, query: &str, total: u64) -> (r: Result<
    PaginationToken,
    ServiceError,
>)
    ensures
        r matches Ok(t) ==> {
            &&& t.wf()
            &&& t.query@ == query@
            &&& t.partition_state@.len() == total
            &&& (forall|i: int| 0 <= i < t.partition_state@.len() ==> #[trigger] t.partition_state@[i] == 0u64)
        },
        r matches Err(e) ==> e is InternalError,
{
    let parts: usize = if total <= usize::MAX as u64 {
        total as usize
    } else {
        return Err(ServiceError::internal_error("partition count out of range"));
    };
    let mut t = PaginationToken::new(query, parts);
    match current_segments(index) {
        Some(segs) => {
            t.import_segments(segs);
            Ok(t)
        },
        None => Err(ServiceError::internal_error("the segment manifest could not be read")),
    }
}

/// Whether a name names a text-kind schema field.
pub open spec fn is_text_field(schema: Seq<crate::schema::FieldV>, name: Seq<char>) -> bool {
    let fi = crate::schema::field_idx(schema, name);
    fi < schema.len() && schema[fi].kind is Text
}

/// Highlights the text fields of one hydrated document: an ephemeral
/// one-document index answers the same query, and every text-kind member
/// with a string value and a non-empty fragment contributes a snippet.
/// Members of other kinds never do, and a failure to highlight one field
/// only omits its snippet.
#[verifier::loop_isolation(false)]
pub fn snippets_for_doc(index: &EngineIndex, query: &str, doc: &SearchDoc) -> (r: Vec<
    (String, String),
>)
    ensures
        forall|k: int|
            0 <= k < r@.len() ==> exists|j: int|
                0 <= j < doc.content@.len() && (#[trigger] r@[k]).0@ == (
                #[trigger] doc.content@[j]).0@ && doc.content@[j].1 is Str && is_text_field(
                    index.schema@,
                    doc.content@[j].0@,
                ),
{
    let mut out: Vec<(String, String)> = Vec::new();
    let eph = match EngineIndex::open_in_ram(index.schema.duplicate()) {
        Some(e) => e,
        None => {
            return out;
        },
    };
    let mut writer = match eph.writer() {
        Some(w) => w,
        None => {
            return out;
        },
    };
    let (indexed, _) = crate::worker::index_writer::index_doc(&writer, doc);
    if !indexed {
        return out;
    }
    if !writer.commit() {
        return out;
    }
    let fields = crate::engine::default_query_fields(&eph.index);
    let mut i: usize = 0;
    while i < doc.content.len()
        invariant
            forall|k: int|
                0 <= k < out@.len() ==> exists|j: int|
                    0 <= j < doc.content@.len() && (#[trigger] out@[k]).0@ == (
                    #[trigger] doc.content@[j]).0@ && doc.content@[j].1 is Str && is_text_field(
                        index.schema@,
                        doc.content@[j].0@,
                    ),
        decreases doc.content.len() - i,
    {
        let name = doc.content[i].0.as_str();
        match eph.schema.find_field(name) {
            Some(fi) => {
                if matches!(eph.schema.fields[fi].kind, FieldKind::Text) {
                    match &doc.content[i].1 {
                        JsonValue::Str(text) => {
                            match crate::engine::make_snippet_generator(
                                &eph.index,
                                query,
                                copy_fields(&fields),
                                name,
                            ) {
                                Some(generator) => {
                                    let html = crate::engine::snippet_to_html(
                                        &generator,
                                        text.as_str(),
                                    );
                                    if !html.as_str().is_empty() {
                                        out.push((crate::text::clone_string(&doc.content[i].0), html));
                                        proof {
                                            assert((out@[out@.len() - 1]).0@ == doc.content@[
                                                i as int].0@ && doc.content@[i as int].1 is Str
                                                && is_text_field(
                                                index.schema@,
                                                doc.content@[i as int].0@,
                                            ));
                                        }
                                    }
                                },
                                None => {},
                            }
                        },
                        _ => {},
                    }
                }
            },
            None => {},
        }
        i = i + 1;
    }
    out
}

/// Copies a list of field handles.
fn copy_fields(fields: &Vec<tantivy::schema::Field>) -> (r: Vec<tantivy::schema::Field>) {
    let mut out: Vec<tantivy::schema::Field> = Vec::new();
    let mut i: usize = 0;
    while i < fields.len()
        decreases fields.len() - i,
    {
        let f = crate::engine::field_copy(&fields[i]);
        out.push(f);
        i = i + 1;
    }
    out
}

/// Answers one query against an index: the paging token is derived (a
/// supplied one is parsed and keeps its pinned snapshot; otherwise a fresh
/// one pins the current snapshot), each partition's round-robin slice of
/// the snapshot drives its sub-query, the gathered hits are merged by a
/// stable descending sort truncated to one page, the offset of each kept
/// hit's partition advances by one, the kept documents are hydrated in
/// rank order with snippets, and the continuation token is present exactly
/// when the page is non-empty.
///
/// The returned ghost pair records the gathered hits and the kept page:
/// the page is exactly the stable top of the gathered hits, and the
/// response's scores align with it.
///
/// This in-memory composition holds one whole view of the index — the
/// union of every partition's slice — so exactly one sub-query scans it:
/// the first partition that owns segments.  Production adapters open one
/// manifest-narrowed view per partition and run every sub-query.
#[verifier::loop_isolation(false)]
pub fn query_index(
    index: &EngineIndex,
    store: &MemDocumentStore,
    request: &QueryRequest,
) -> (r: (Result<QueryResponse, ServiceError>, Ghost<(Seq<HitV>, Seq<HitV>)>))
    ensures
        r.0 matches Ok(resp) ==> {
            &&& resp.matches@.len() <= PAGE_SIZE
            &&& (resp.matches@.len() == 0 <==> resp.pagination_token is None)
            &&& r.1@.1 == sort_desc(r.1@.0).take(
                if PAGE_SIZE as int <= r.1@.0.len() {
                    PAGE_SIZE as int
                } else {
                    r.1@.0.len() as int
                },
            )
            &&& resp.matches@.len() == r.1@.1.len()
            &&& (forall|i: int|
                0 <= i < resp.matches@.len() ==> (#[trigger] resp.matches@[i]).score_bits
                    == r.1@.1[i].score)
            &&& (forall|i: int, j: int|
                0 <= i < j < resp.matches@.len() ==> (#[trigger] resp.matches@[i]).score_bits >= (
                #[trigger] resp.matches@[j]).score_bits)
        },
        (request.pagination_token matches Some(s) && crate::pagination::token_parse_spec(s@)
            is None) ==> (r.0 matches Err(e) && e is InvalidRequest),
{
    let ghost no_hits: (Seq<HitV>, Seq<HitV>) = (Seq::empty(), Seq::empty());
    let mut token = match &request.pagination_token {
        Some(s) => match PaginationToken::parse(s.as_str()) {
            Some(t) => t,
            None => {
                return (
                    (Err(ServiceError::invalid_request("invalid pagination token"))),
                    Ghost(no_hits),
                );
            },
        },
        None => {
            let num_docs = match crate::engine::reader_num_docs(&index.index) {
                Some(n) => n,
                None => {
                    return (
                        Err(ServiceError::internal_error("the index reader could not be opened")),
                        Ghost(no_hits),
                    );
                },
            };
            let total = total_partitions(num_docs);
            if total == 0 {
                return (
                    Ok(QueryResponse { matches: Vec::new(), pagination_token: None }),
                    Ghost(no_hits),
                );
            }
            match fresh_token(index, request.query.as_str(), total) {
                Ok(t) => t,
                Err(e) => {
                    return (Err(e), Ghost(no_hits));
                },
            }
        },
    };
    let query = token.get_query();
    let parts = token.partitions();
    if parts == 0 {
        return (
            Ok(QueryResponse { matches: Vec::new(), pagination_token: None }),
            Ghost(no_hits),
        );
    }
    let mut all_hits: Vec<PartitionSearchHit> = Vec::new();
    let mut executed: bool = false;
    let mut n: usize = 0;
    while n < parts
        invariant
            parts == token.partition_state@.len(),
            parts >= 1,
            forall|k: int| 0 <= k < all_hits@.len() ==> (#[trigger] all_hits@[k]).partition_n
                < parts,
        decreases parts - n,
    {
        let assigned = token.segments_for_partition(n);
        if !executed && assigned.len() > 0 {
            executed = true;
            let offset = token.get_offset(n);
            match crate::executor::execute_partition(
                index,
                query.as_str(),
                offset,
                n,
                &assigned,
                PAGE_SIZE,
            ) {
                Ok(resp) => {
                    let mut m = resp.matches;
                    while m.len() > 0
                        invariant
                            forall|k: int| 0 <= k < all_hits@.len() ==> (
                            #[trigger] all_hits@[k]).partition_n < parts,
                            forall|k: int| 0 <= k < m@.len() ==> (#[trigger] m@[k]).partition_n
                                == n && n < parts,
                        decreases m@.len(),
                    {
                        let h = m.remove(0);
                        all_hits.push(h);
                    }
                },
                Err(e) => {
                    return (Err(e), Ghost(no_hits));
                },
            }
        }
        n = n + 1;
    }
    let ghost gathered = hit_views(all_hits@);
    let merged = merge_hits(all_hits, PAGE_SIZE);
    let ghost page = hit_views(merged@);
    proof {
        assert forall|t: int| 0 <= t < merged@.len() implies (#[trigger] merged@[t]).partition_n
            < parts by {
            let x = hit_views(merged@)[t];
            assert(gathered.contains(x));
            let j = choose|j: int| 0 <= j < gathered.len() && gathered[j] == x;
            assert(x.partition == merged@[t].partition_n as int);
        }
    }
    if merged.len() == 0 {
        proof {
            assert(page =~= sort_desc(gathered).take(
                if PAGE_SIZE as int <= gathered.len() {
                    PAGE_SIZE as int
                } else {
                    gathered.len() as int
                },
            ));
        }
        return (
            Ok(QueryResponse { matches: Vec::new(), pagination_token: None }),
            Ghost((gathered, page)),
        );
    }
    // advance the cursor of each partition whose hit was kept
    let mut k: usize = 0;
    while k < merged.len()
        invariant
            token.partition_state@.len() == parts,
            token.wf(),
            sorted_desc(hit_views(merged@)),
            forall|t: int| 0 <= t < merged@.len() ==> (#[trigger] merged@[t]).partition_n < parts,
        decreases merged.len() - k,
    {
        token.inc_offset(merged[k].partition_n);
        k = k + 1;
    }
    // hydrate the kept hits in rank order
    let mut refs: Vec<SearchDocRef> = Vec::new();
    let mut k2: usize = 0;
    while k2 < merged.len()
        invariant
            refs@.len() == k2,
            k2 <= merged@.len(),
        decreases merged.len() - k2,
    {
        refs.push(merged[k2].doc_ref.duplicate());
        k2 = k2 + 1;
    }
    let docs = match store.get_documents(&refs) {
        Some(d) => d,
        None => {
            return (Err(ServiceError::rate_limit()), Ghost(no_hits));
        },
    };
    let mut matches: Vec<SearchHit> = Vec::new();
    let mut k3: usize = 0;
    let mut docs = docs;
    while k3 < merged.len() && docs.len() > 0
        invariant
            matches@.len() == k3,
            k3 + docs@.len() >= merged@.len() || k3 >= merged@.len(),
            k3 <= merged@.len(),
            sorted_desc(hit_views(merged@)),
            forall|a: int| 0 <= a < matches@.len() ==> (#[trigger] matches@[a]).score_bits
                == merged@[a].score_bits,
        decreases merged.len() - k3,
    {
        let doc = docs.remove(0);
        let snippets = snippets_for_doc(index, query.as_str(), &doc);
        matches.push(
            SearchHit { doc: doc.content, snippets, score_bits: merged[k3].score_bits },
        );
        k3 = k3 + 1;
    }
    let token_text = match token.serialize() {
        Some(s) => s,
        None => {
            return (
                Err(ServiceError::internal_error("the pagination token did not serialize")),
                Ghost(no_hits),
            );
        },
    };
    proof {
        assert forall|a: int, b: int| 0 <= a < b < matches@.len() implies (
        #[trigger] matches@[a]).score_bits >= (#[trigger] matches@[b]).score_bits by {
            assert(hit_views(merged@)[a].score == merged@[a].score_bits);
            assert(hit_views(merged@)[b].score == merged@[b].score_bits);
        }
        assert forall|a: int| 0 <= a < matches@.len() implies (
        #[trigger] matches@[a]).score_bits == page[a].score by {
            assert(hit_views(merged@)[a].score == merged@[a].score_bits);
        }
    }
    if matches.len() == 0 {
        return (
            Ok(QueryResponse { matches: Vec::new(), pagination_token: None }),
            Ghost((gathered, Seq::empty())),
        );
    }
    (
        Ok(QueryResponse { matches, pagination_token: Some(token_text) }),
        Ghost((gathered, page)),
    )
}

} // verus!
