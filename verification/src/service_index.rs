//! The index services: add, batch, delete, query.
//!
//! [`SearchService`] is the in-memory composition of the pipeline: schema
//! registry, document store, open indexes, and a writer applied inline (the
//! production composition splits the same parts across platform adapters
//! and the FIFO queue).  The service-level error mapping follows the
//! validation outcomes of [`crate::search_doc::validate_spec`].

use vstd::prelude::*;

use crate::coordinator::QueryRequest;
use crate::coordinator::QueryResponse;
use crate::json_data::JsonValue;
use crate::json_data::jv_of;
use crate::schema::IndexConfig;
use crate::schema::FieldV;
use crate::schema::SchemaProvider;
use crate::schema::best_match;
use crate::schema::field_of_config;
use crate::schema::id_field_v;
use crate::search_doc::SearchDoc;
use crate::search_doc::SearchDocId;
use crate::search_doc::ValidationV;
use crate::search_doc::validate_spec;
use crate::service::ServiceError;
use crate::store::MemDocumentStore;
use crate::text::str_concat;
use crate::worker::client::IndexWriterClient;
use crate::index_model::ActionV;
use crate::json_data::jv_of_members;
use crate::search_doc::int_chars;
use crate::worker::index_writer::MemIndexRegistry;
use crate::worker::index_writer::handle_event;
use crate::worker::index_writer::job_trace_ok;
use crate::worker::job::Job;
use crate::worker::job::op_views;

verus! {

use vstd::string::StringSliceAdditionalSpecFns;

/// Response to adding one document.
#[derive(Debug)]
pub struct PostIndexResponse {
    pub job_id: String,
    pub updated_at: String,
}

/// Response to adding a batch.
#[derive(Debug)]
pub struct BatchIndexResponse {
    pub job_id: String,
}

/// Response to deleting a document.
#[derive(Debug)]
pub struct DeleteDocResponse {
    pub job_id: String,
}

/// The path parameters of the delete route.
#[derive(Debug)]
pub struct PathParams {
    pub index_id: String,
    pub doc_id: String,
}

/// The schema a provider resolves for the configuration at `best`: its
/// fields in order, then the mandatory `__id` field.
pub open spec fn loaded_views(cfgs: Seq<IndexConfig>, best: int) -> Seq<FieldV> {
    let cf = cfgs[best].fields@;
    Seq::new(
        cf.len() + 1,
        |i: int|
            if i < cf.len() {
                field_of_config(cf[i])
            } else {
                id_field_v()
            },
    )
}

/// The message a rejected document surfaces, by validation outcome.
pub open spec fn doc_error_message(v: ValidationV) -> Option<Seq<char>> {
    match v {
        ValidationV::NotObj => Some("json value is not an object"@),
        ValidationV::BadId => Some("invalid type for __id, expected string"@),
        ValidationV::BadField(m) => Some(m),
        ValidationV::Empty => Some("cannot index empty document"@),
        ValidationV::Accepted { .. } => None,
    }
}

/// The message rejecting a batch at position `i`: the position, then the
/// document's own validation message.
pub open spec fn batch_error_message(i: int, msg: Seq<char>) -> Seq<char> {
    "Error parsing document (path: ["@ + int_chars(i) + "]): "@ + msg
}

/// A job holding one delete op traces to exactly that tombstone.
proof fn lemma_single_delete_trace(
    store: MemDocumentStore,
    ops: Seq<crate::worker::job::OpV>,
    doc_id: Seq<char>,
    t: Seq<ActionV>,
)
    requires
        ops.len() == 1,
        ops[0] == crate::worker::job::OpV::DeleteDoc(doc_id),
        job_trace_ok(store, ops, t),
    ensures
        t == seq![ActionV::Delete(doc_id)],
{
    let dts = choose|dts: Seq<Seq<ActionV>>|
        #![trigger crate::worker::index_writer::concat_all(dts)]
        {
            let ids = crate::worker::index_writer::index_ref_ids(ops);
            &&& dts.len() == ids.len()
            &&& t == crate::worker::index_writer::delete_trace(ops) + crate::worker::index_writer::concat_all(dts)
            &&& (forall|i: int|
                0 <= i < ids.len() ==> (store.spec_get(#[trigger] ids[i]) matches Some(m) && (
                dts[i] == crate::index_model::index_plan(ids[i], crate::json_data::Jv::Obj(m))
                    || dts[i] == seq![ActionV::Delete(ids[i])] || dts[i] == Seq::<
                    ActionV,
                >::empty())))
        };
    assert(ops.drop_last() =~= Seq::<crate::worker::job::OpV>::empty());
    assert(ops.last() == crate::worker::job::OpV::DeleteDoc(doc_id));
    assert(crate::worker::index_writer::index_ref_ids(ops.drop_last()) == Seq::<
        Seq<char>,
    >::empty());
    assert(crate::worker::index_writer::index_ref_ids(ops) =~= Seq::<Seq<char>>::empty());
    assert(dts =~= Seq::<Seq<ActionV>>::empty());
    assert(crate::worker::index_writer::delete_trace(ops.drop_last()) == Seq::<
        ActionV,
    >::empty());
    assert(crate::worker::index_writer::delete_trace(ops) =~= seq![ActionV::Delete(doc_id)]);
    assert(crate::worker::index_writer::concat_all(dts) == Seq::<ActionV>::empty());
    assert(t =~= seq![ActionV::Delete(doc_id)]);
}

/// The in-memory composition of the whole pipeline.
pub struct SearchService {
    pub provider: SchemaProvider,
    pub store: MemDocumentStore,
    pub registry: MemIndexRegistry,
}

impl SearchService {
    /// A service over a schema configuration.
    pub fn create(provider: SchemaProvider) -> (r: SearchService) {
        SearchService {
            provider,
            store: MemDocumentStore::new(),
            registry: MemIndexRegistry::new(),
        }
    }

    /// Applies one job inline, as the queue consumer would, and commits.
    /// On success the returned trace records the engine actions applied
    /// for the job, satisfying [`job_trace_ok`] over the store.
    fn apply_job(&mut self, job: Job) -> (r: (Result<String, ServiceError>, Ghost<Seq<ActionV>>))
        ensures
            r.0 matches Ok(id) ==> id@.len() == 36 && job_trace_ok(
                old(self).store,
                op_views(job.ops@),
                r.1@,
            ),
            r.0 matches Err(e) ==> e is NotFound || e is InternalError,
            final(self).store == old(self).store,
            final(self).provider == old(self).provider,
    {
        let ghost opsv = op_views(job.ops@);
        let mut jobs: Vec<Job> = Vec::new();
        jobs.push(job);
        let (res, traces) = handle_event(&mut self.registry, &self.provider, &self.store, &jobs);
        match res {
            Ok(_) => {
                proof {
                    assert(traces@[0].1 == traces@.first().1);
                }
                (Ok(crate::util::generate_id()), Ghost(traces@.first().1))
            },
            Err(e) => (Err(e), Ghost(Seq::empty())),
        }
    }

    /// Adds one document: validates it against the index's schema, stores
    /// it, and applies an index op for it.  An unconfigured index is not
    /// found; a document the schema rejects is an invalid request carrying
    /// the validation message.
    #[verifier::loop_isolation(false)]
    pub fn post_index(&mut self, index_id: &str, body: JsonValue) -> (r: Result<
        PostIndexResponse,
        ServiceError,
    >)
        ensures
            ({
                let best = best_match(old(self).provider.config.indexes@, index_id.spec_bytes());
                &&& best < 0 ==> (r matches Err(e) && e is NotFound)
                &&& r matches Err(ServiceError::InvalidRequest(m)) ==> best >= 0 && (exists|
                    g: Seq<char>,
                |
                    g.len() == 36 && doc_error_message(
                        #[trigger] validate_spec(
                            loaded_views(old(self).provider.config.indexes@, best),
                            jv_of(body),
                            g,
                        ),
                    ) == Some(m@))
                &&& r matches Ok(resp) ==> best >= 0 && resp.job_id@.len() == 36
                    && resp.updated_at@.len() > 0 && final(self).store.docs@.len() == old(self).store.docs@.len() + 1 && (exists|g: Seq<char>|
                    g.len() == 36 && (#[trigger] validate_spec(
                        loaded_views(old(self).provider.config.indexes@, best),
                        jv_of(body),
                        g,
                    ) matches ValidationV::Accepted { id, content } && final(self).store.docs@.last().id.0@ == id && jv_of_members(
                        final(self).store.docs@.last().content@,
                    ) == content))
                &&& (r matches Err(e) && e is InvalidRequest) ==> final(self).store.docs@ == old(self).store.docs@
            }),
    {
        let ghost cfgs = self.provider.config.indexes@;
        let schema = match self.provider.load_schema(index_id) {
            Ok(s) => s,
            Err(e) => {
                return Err(e);
            },
        };
        proof {
            assert(schema@ =~= loaded_views(cfgs, best_match(cfgs, index_id.spec_bytes())));
        }
        let vres = SearchDoc::from_json(&schema, body);
        let ghost g = choose|g: Seq<char>|
            g.len() == 36 && #[trigger] crate::search_doc::result_matches(
                vres,
                validate_spec(schema@, jv_of(body), g),
            );
        let ghost outcome = validate_spec(schema@, jv_of(body), g);
        let document = match vres {
            Ok(d) => {
                proof {
                    assert(outcome is Accepted);
                }
                d
            },
            Err(e) => {
                proof {
                    assert(doc_error_message(outcome) == Some(e.spec_message()));
                }
                let m = e.message();
                return Err(ServiceError::InvalidRequest(m));
            },
        };
        let mut docs: Vec<SearchDoc> = Vec::new();
        docs.push(document);
        let refs = self.store.save_documents(docs);
        proof {
            if let ValidationV::Accepted { id, content } = outcome {
                assert(self.store.docs@.last().id.0@ == id);
                assert(jv_of_members(self.store.docs@.last().content@) == content);
            }
        }
        let mut job = Job::create(index_id);
        let mut refs = refs;
        while refs.len() > 0
            decreases refs@.len(),
        {
            match refs.pop() {
                Some(doc_ref) => {
                    job.index_doc(doc_ref);
                },
                None => {},
            }
        }
        let (res, _) = self.apply_job(job);
        let job_id = match res {
            Ok(id) => id,
            Err(e) => {
                return Err(e);
            },
        };
        Ok(PostIndexResponse { job_id, updated_at: crate::util::timestamp() })
    }

    /// Adds a batch of documents: every one must validate, and the first
    /// that does not rejects the whole batch, naming its position; nothing
    /// is stored then.  When all validate, the store is extended by
    /// exactly the batch's documents, in input order, and one job indexes
    /// them all.
    #[verifier::loop_isolation(false)]
    pub fn batch_index(&mut self, index_id: &str, bodies: Vec<JsonValue>) -> (r: Result<
        BatchIndexResponse,
        ServiceError,
    >)
        ensures
            ({
                let best = best_match(old(self).provider.config.indexes@, index_id.spec_bytes());
                &&& best < 0 ==> (r matches Err(e) && e is NotFound)
                &&& r matches Ok(resp) ==> resp.job_id@.len() == 36 && final(self).store.docs@.len() == old(self).store.docs@.len() + bodies@.len()
                &&& r matches Err(ServiceError::InvalidRequest(m)) ==> best >= 0 && final(self).store.docs@ == old(self).store.docs@ && (exists|i: int, g: Seq<char>|
                    {
                        &&& 0 <= i < bodies@.len()
                        &&& g.len() == 36
                        &&& (doc_error_message(
                            #[trigger] validate_spec(
                                loaded_views(
                                    old(self).provider.config.indexes@,
                                    best_match(
                                        old(self).provider.config.indexes@,
                                        index_id.spec_bytes(),
                                    ),
                                ),
                                jv_of(bodies@[i]),
                                g,
                            ),
                        ) matches Some(msg) && (i <= 0x7fffffffffffffff ==> m@
                            == batch_error_message(i, msg)))
                    })
            }),
    {
        let ghost cfgs = self.provider.config.indexes@;
        let ghost bodies0 = bodies@;
        let schema = match self.provider.load_schema(index_id) {
            Ok(s) => s,
            Err(e) => {
                return Err(e);
            },
        };
        proof {
            assert(schema@ =~= loaded_views(cfgs, best_match(cfgs, index_id.spec_bytes())));
        }
        let mut documents: Vec<SearchDoc> = Vec::new();
        let mut bodies = bodies;
        let total_bodies = bodies.len();
        let mut idx: usize = 0;
        while bodies.len() > 0
            invariant
                bodies0.len() == total_bodies,
                idx + bodies@.len() == bodies0.len(),
                bodies@ == bodies0.subrange(idx as int, bodies0.len() as int),
                documents@.len() == idx,
            decreases bodies@.len(),
        {
            let body = bodies.remove(0);
            proof {
                assert(body == bodies0[idx as int]);
                assert(bodies@ =~= bodies0.subrange(idx + 1 as int, bodies0.len() as int));
            }
            let vres = SearchDoc::from_json(&schema, body);
            let ghost g = choose|g: Seq<char>|
                g.len() == 36 && #[trigger] crate::search_doc::result_matches(
                    vres,
                    validate_spec(schema@, jv_of(body), g),
                );
            let ghost outcome = validate_spec(schema@, jv_of(body), g);
            proof {
                assert(idx < bodies0.len());
            }
            match vres {
                Ok(d) => {
                    documents.push(d);
                },
                Err(e) => {
                    proof {
                        assert(doc_error_message(outcome) == Some(e.spec_message()));
                    }
                    let m = str_concat(
                        "Error parsing document (path: [",
                        crate::search_doc::int_string(
                            if idx as u64 <= 0x7fffffffffffffffu64 {
                                idx as i64
                            } else {
                                0
                            },
                        ).as_str(),
                    );
                    let m = str_concat(m.as_str(), "]): ");
                    let msg = e.message();
                    let m = str_concat(m.as_str(), msg.as_str());
                    proof {
                        if idx as int <= 0x7fffffffffffffff {
                            assert(m@ =~= batch_error_message(
                                idx as int,
                                e.spec_message(),
                            ));
                        }
                    }
                    return Err(ServiceError::InvalidRequest(m));
                },
            }
            idx = idx + 1;
        }
        let refs = self.store.save_documents(documents);
        let mut job = Job::create(index_id);
        let mut refs = refs;
        while refs.len() > 0
            decreases refs@.len(),
        {
            match refs.remove(0) {
                doc_ref => {
                    job.index_doc(doc_ref);
                },
            }
        }
        let (res, _) = self.apply_job(job);
        let job_id = match res {
            Ok(id) => id,
            Err(e) => {
                return Err(e);
            },
        };
        Ok(BatchIndexResponse { job_id })
    }

    /// Deletes one document by id: one tombstone op, applied and
    /// committed.  On success the returned trace is exactly the one delete
    /// action, which the laws of [`crate::index_model`] prove idempotent —
    /// repeating this call leaves the index unchanged.
    pub fn delete_doc(&mut self, index_id: &str, doc_id: &str) -> (r: (Result<
        DeleteDocResponse,
        ServiceError,
    >, Ghost<Seq<ActionV>>))
        ensures
            r.0 matches Ok(resp) ==> resp.job_id@.len() == 36 && r.1@ == seq![
                ActionV::Delete(doc_id@),
            ],
    {
        let mut job = Job::create(index_id);
        job.delete_doc(SearchDocId::parse(doc_id));
        let ghost opsv = op_views(job.ops@);
        let (res, tr) = self.apply_job(job);
        match res {
            Ok(job_id) => {
                proof {
                    lemma_single_delete_trace(old(self).store, opsv, doc_id@, tr@);
                }
                (Ok(DeleteDocResponse { job_id }), tr)
            },
            Err(e) => (Err(e), Ghost(Seq::empty())),
        }
    }

    /// Answers one query: the coordinator's page over the index.  The
    /// ghost pair records the gathered sub-query hits and the kept page,
    /// which is their stable descending top; the page is empty exactly
    /// when the token is absent.
    pub fn query_index(&mut self, index_id: &str, request: &QueryRequest) -> (r: (Result<
        QueryResponse,
        ServiceError,
    >, Ghost<(Seq<crate::ranking::HitV>, Seq<crate::ranking::HitV>)>))
        ensures
            r.0 matches Ok(resp) ==> {
                &&& resp.matches@.len() <= crate::coordinator::PAGE_SIZE
                &&& (resp.matches@.len() == 0 <==> resp.pagination_token is None)
                &&& r.1@.1 == crate::ranking::sort_desc(r.1@.0).take(
                    if crate::coordinator::PAGE_SIZE as int <= r.1@.0.len() {
                        crate::coordinator::PAGE_SIZE as int
                    } else {
                        r.1@.0.len() as int
                    },
                )
                &&& resp.matches@.len() == r.1@.1.len()
                &&& (forall|i: int|
                    0 <= i < resp.matches@.len() ==> (#[trigger] resp.matches@[i]).score_bits
                        == r.1@.1[i].score)
                &&& (forall|i: int, j: int|
                    0 <= i < j < resp.matches@.len() ==> (
                    #[trigger] resp.matches@[i]).score_bits >= (
                    #[trigger] resp.matches@[j]).score_bits)
            },
            (request.pagination_token matches Some(s) && crate::pagination::token_parse_spec(s@)
                is None) ==> r.0 is Err,
    {
        let index = match self.registry.load_index(&self.provider, index_id) {
            Ok(e) => e,
            Err(e) => {
                return (Err(e), Ghost((Seq::empty(), Seq::empty())));
            },
        };
        crate::coordinator::query_index(&index, &self.store, request)
    }
}

impl IndexWriterClient for SearchService {
    /// Applies the job inline and reports a fresh job id, as the queue
    /// consumer would after commit.
    fn submit_job(&mut self, job: Job) -> (r: Result<String, ServiceError>) {
        let (res, _) = self.apply_job(job);
        res
    }
}

} // verus!
