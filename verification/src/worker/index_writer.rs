//! The index-writer worker: exclusive mutator of an index.
//!
//! For each job it tombstones deletes as they appear, fetches the documents
//! the index ops reference, and applies each document with a delete before
//! the add — so re-applying a job is idempotent, as the laws in
//! [`crate::index_model`] state.  After all jobs of an invocation it
//! commits each touched index and waits for merges.

use vstd::prelude::*;

use crate::engine;
use crate::json_data::JsonValue;
use crate::schema::FieldKind;
use crate::schema::IndexSchema;
use crate::schema::SchemaProvider;
use crate::search_doc::SearchDoc;
use crate::service::ServiceError;
use crate::store::MemDocumentStore;
use crate::store::SearchDocRef;
use crate::text::str_eq;
use crate::worker::job::IndexWriterOp;
use crate::worker::job::Job;
use crate::worker::job::OpV;
use crate::worker::job::op_views;
use crate::index_model::ActionV;
use crate::index_model::index_plan;
use crate::json_data::Jv;
use crate::json_data::jv_of_members;

verus! {

/// An opened index with its resolved schema and the engine handles.
pub struct EngineIndex {
    pub index: tantivy::Index,
    pub schema: IndexSchema,
    pub tschema: tantivy::schema::Schema,
    pub id_field: tantivy::schema::Field,
}

/// A writer over one index, with what document building needs.
pub struct EngineWriter {
    pub writer: tantivy::IndexWriter,
    pub id_field: tantivy::schema::Field,
    pub schema: IndexSchema,
    pub tschema: tantivy::schema::Schema,
}

/// Whether a name is already among the added ones.
fn name_already_added(added: &Vec<String>, name: &str) -> (r: bool)
    ensures
        r == exists|k: int| 0 <= k < added@.len() && (#[trigger] added@[k])@ == name@,
{
    let mut i: usize = 0;
    while i < added.len()
        invariant
            i <= added@.len(),
            forall|k: int| 0 <= k < i ==> (#[trigger] added@[k])@ != name@,
        decreases added@.len() - i,
    {
        if str_eq(added[i].as_str(), name) {
            return true;
        }
        i = i + 1;
    }
    false
}

/// Builds the engine schema from a loaded schema, field by field.  The
/// first occurrence of each name wins: the engine builder refuses repeated
/// names, and the schema loader already rejects them, so skipping repeats
/// only matters for hand-built schemas.
#[verifier::loop_isolation(false)]
pub fn build_engine_schema(schema: &IndexSchema) -> tantivy::schema::Schema {
    let mut b = engine::schema_builder();
    let mut added: Vec<String> = Vec::new();
    let mut i: usize = 0;
    while i < schema.fields.len()
        invariant
            b.names@.len() == added@.len(),
            forall|k: int| 0 <= k < added@.len() ==> b.names@[k] == (#[trigger] added@[k])@,
        decreases schema.fields.len() - i,
    {
        let f = &schema.fields[i];
        if !name_already_added(&added, f.name.as_str()) {
            proof {
                assert forall|k: int| 0 <= k < b.names@.len() implies #[trigger] b.names@[k]
                    != f.name@ by {
                    assert(b.names@[k] == added@[k]@);
                }
                assert(!b.names@.contains(f.name@));
            }
            match f.kind {
                FieldKind::Text => {
                    let mut o = engine::text_options_default();
                    if f.tokenized {
                        o = engine::text_options_text(o);
                    }
                    if f.raw {
                        o = engine::text_options_string(o);
                    }
                    if f.fast {
                        o = engine::text_options_fast(o);
                    }
                    if f.stored {
                        o = engine::text_options_stored(o);
                    }
                    engine::add_text_field(&mut b, f.name.as_str(), o);
                },
                FieldKind::Integer => {
                    let mut o = engine::numeric_options_default();
                    if f.indexed {
                        o = engine::numeric_options_indexed(o);
                    }
                    if f.fast {
                        o = engine::numeric_options_fast(o);
                    }
                    engine::add_i64_field(&mut b, f.name.as_str(), o);
                },
                FieldKind::Date => {
                    let mut o = engine::date_options_default();
                    if f.indexed {
                        o = engine::date_options_indexed(o);
                    }
                    if f.fast {
                        o = engine::date_options_fast(o);
                    }
                    engine::add_date_field(&mut b, f.name.as_str(), o);
                },
                FieldKind::Json => {
                    let mut o = engine::text_options_default();
                    if f.tokenized {
                        o = engine::text_options_text(o);
                    }
                    engine::add_json_field(&mut b, f.name.as_str(), o);
                },
            }
            added.push(crate::text::clone_string(&f.name));
        }
        i = i + 1;
    }
    engine::build_schema(b)
}

impl EngineIndex {
    /// Opens a fresh in-memory index for a loaded schema.
    pub fn open_in_ram(schema: IndexSchema) -> (r: Option<EngineIndex>)
        ensures
            r matches Some(e) ==> e.schema@ == schema@,
    {
        let tschema = build_engine_schema(&schema);
        let index = engine::create_in_ram(engine::tschema_clone(&tschema));
        match engine::get_field(&tschema, "__id") {
            Some(id_field) => Some(EngineIndex { index, schema, tschema, id_field }),
            None => None,
        }
    }

    /// A handle to the same index.
    pub fn duplicate(&self) -> (r: EngineIndex)
        ensures
            r.schema@ == self.schema@,
    {
        EngineIndex {
            index: engine::index_clone(&self.index),
            schema: self.schema.duplicate(),
            tschema: engine::tschema_clone(&self.tschema),
            id_field: engine::field_copy(&self.id_field),
        }
    }

    /// A writer over this index, with the production merge policy.
    pub fn writer(&self) -> (r: Option<EngineWriter>)
        ensures
            r matches Some(w) ==> w.schema@ == self.schema@,
    {
        match engine::default_writer(&self.index) {
            Some(writer) => Some(
                EngineWriter {
                    writer,
                    id_field: engine::field_copy(&self.id_field),
                    schema: self.schema.duplicate(),
                    tschema: engine::tschema_clone(&self.tschema),
                },
            ),
            None => None,
        }
    }
}

/// Tombstones every live document with this id; the returned trace is the
/// one delete action issued, which [`crate::index_model`] proves
/// idempotent.
pub fn delete_doc(w: &EngineWriter, doc_id: &str) -> (r: Ghost<Seq<ActionV>>)
    ensures
        r@ == seq![ActionV::Delete(doc_id@)],
{
    engine::delete_docs_by_term(&w.writer, engine::field_copy(&w.id_field), doc_id);
    let ghost tr = seq![ActionV::Delete(doc_id@)];
    Ghost(tr)
}

/// Whether the document builder accepts this value for this kind without
/// consulting the engine: text with a string, integers with an integer.
/// Date parsing and json re-encoding are decided outside, so they are
/// never certain.
pub open spec fn certain_scalar(kind: FieldKind, v: JsonValue) -> bool {
    match kind {
        FieldKind::Text => v is Str,
        FieldKind::Integer => v is Int,
        _ => false,
    }
}

/// A member value the builder certainly accepts: the scalar form, or an
/// array of such scalars.
pub open spec fn certain_value(kind: FieldKind, v: JsonValue) -> bool {
    certain_scalar(kind, v) || (v matches JsonValue::Arr(items) && (forall|i: int|
        0 <= i < items@.len() ==> certain_scalar(kind, #[trigger] items@[i])))
}

/// Every member that names a schema field carries a value the builder
/// certainly accepts.
pub open spec fn builds_certainly(
    schema: Seq<crate::schema::FieldV>,
    content: Seq<(String, JsonValue)>,
) -> bool {
    forall|j: int|
        0 <= j < content.len() ==> {
            let fi = crate::schema::field_idx(schema, (#[trigger] content[j]).0@);
            fi < schema.len() ==> certain_value(schema[fi].kind, content[j].1)
        }
}

/// Builds the engine document for a validated document: every member whose
/// name is a schema field contributes its values; members outside the
/// schema are dropped.  Fails only when a member value needs the engine's
/// judgement and loses it (a malformed date, say) — never on a certainly
/// accepted document — and without touching the writer.
#[verifier::loop_isolation(false)]
fn build_engine_doc(w: &EngineWriter, doc: &SearchDoc) -> (r: Option<tantivy::Document>)
    ensures
        builds_certainly(w.schema@, doc.content@) ==> r is Some,
{
    let mut d = engine::new_document();
    let mut i: usize = 0;
    while i < doc.content.len()
        decreases doc.content.len() - i,
    {
        let name = doc.content[i].0.as_str();
        match w.schema.find_field(name) {
            Some(fi) => {
                let kind = w.schema.fields[fi].kind;
                // a member whose field the engine view lacks is dropped,
                // like a member outside the schema
                match engine::get_field(&w.tschema, name) {
                    Some(field) => {
                        if !add_member_values(&mut d, field, kind, &doc.content[i].1) {
                            proof {
                                assert(!certain_value(
                                    w.schema@[fi as int].kind,
                                    doc.content@[i as int].1,
                                ));
                                assert(!builds_certainly(w.schema@, doc.content@));
                            }
                            return None;
                        }
                    },
                    None => {},
                }
            },
            None => {},
        }
        i = i + 1;
    }
    Some(d)
}

impl EngineWriter {
    /// Commits pending writes: the manifest advances atomically, or the
    /// commit fails and nothing is observable.
    pub fn commit(&mut self) -> (r: bool) {
        engine::writer_commit(&mut self.writer)
    }

    /// Consumes the writer, waiting for background merges to finish.
    pub fn finish(self) -> (r: bool) {
        engine::writer_wait_merging(self.writer)
    }
}

/// Adds one member's values to the engine document: the scalar, or each
/// element of an array of scalars.  Never fails on a certainly accepted
/// value.
#[verifier::loop_isolation(false)]
fn add_member_values(
    d: &mut tantivy::Document,
    field: tantivy::schema::Field,
    kind: FieldKind,
    v: &JsonValue,
) -> (r: bool)
    ensures
        certain_value(kind, *v) ==> r,
{
    match v {
        JsonValue::Arr(items) => {
            let mut k: usize = 0;
            while k < items.len()
                decreases items.len() - k,
            {
                if !add_scalar_value(d, engine::field_copy(&field), kind, &items[k]) {
                    proof {
                        assert(!certain_scalar(kind, items@[k as int]));
                    }
                    return false;
                }
                k = k + 1;
            }
            true
        },
        _ => add_scalar_value(d, field, kind, v),
    }
}

/// Adds one scalar value of the right kind to the engine document.  Never
/// fails on a certainly accepted scalar.
fn add_scalar_value(
    d: &mut tantivy::Document,
    field: tantivy::schema::Field,
    kind: FieldKind,
    v: &JsonValue,
) -> (r: bool)
    ensures
        certain_scalar(kind, *v) ==> r,
{
    match (kind, v) {
        (FieldKind::Text, JsonValue::Str(s)) => {
            engine::doc_add_text(d, field, s.as_str());
            true
        },
        (FieldKind::Integer, JsonValue::Int(n)) => {
            engine::doc_add_i64(d, field, *n);
            true
        },
        (FieldKind::Date, JsonValue::Str(s)) => engine::doc_add_date_rfc3339(d, field, s.as_str()),
        (FieldKind::Json, JsonValue::Obj(_)) => {
            let bytes = crate::json_codec::to_bytes(v);
            match crate::text::string_from_utf8(bytes) {
                Some(s) => engine::doc_add_json_str(d, field, s.as_str()),
                None => false,
            }
        },
        _ => false,
    }
}

/// Indexes one document: a tombstone delete for its id, then the add, so
/// that exactly one live copy remains.  The returned trace records the
/// engine actions in the order they were issued: exactly the `index_plan`
/// of [`crate::index_model`] when and only when the call succeeded (its
/// laws give idempotence and overwrite-by-id); the tombstone alone when
/// the engine refused the add; nothing when the document could not be
/// built — which never happens to a certainly accepted document.
pub fn index_doc(w: &EngineWriter, doc: &SearchDoc) -> (r: (bool, Ghost<Seq<ActionV>>))
    ensures
        ({
            let plan = index_plan(doc.id.0@, Jv::Obj(jv_of_members(doc.content@)));
            &&& (r.0 <==> r.1@ == plan)
            &&& (r.1@ == plan || r.1@ == seq![ActionV::Delete(doc.id.0@)] || r.1@ == Seq::<
                ActionV,
            >::empty())
            &&& (builds_certainly(w.schema@, doc.content@) ==> r.1@.len() >= 1 && r.1@[0]
                == ActionV::Delete(doc.id.0@))
        }),
{
    let ghost model = Jv::Obj(jv_of_members(doc.content@));
    match build_engine_doc(w, doc) {
        Some(d) => {
            let del = delete_doc(w, doc.id.0.as_str());
            if engine::writer_add_document(&w.writer, d) {
                let ghost issued = del@.push(ActionV::Add(doc.id.0@, model));
                proof {
                    assert(issued =~= index_plan(doc.id.0@, model));
                }
                (true, Ghost(issued))
            } else {
                proof {
                    assert(index_plan(doc.id.0@, model).len() == 2);
                    assert(del@.len() == 1);
                    assert(del@ != index_plan(doc.id.0@, model));
                }
                (false, del)
            }
        },
        None => {
            proof {
                assert(index_plan(doc.id.0@, model).len() == 2);
                assert(Seq::<ActionV>::empty() != index_plan(doc.id.0@, model));
            }
            (false, Ghost(Seq::empty()))
        },
    }
}

/// Concatenation of a list of traces, in order.
pub open spec fn concat_all(ts: Seq<Seq<ActionV>>) -> Seq<ActionV>
    decreases ts.len(),
{
    if ts.len() == 0 {
        Seq::empty()
    } else {
        concat_all(ts.drop_last()) + ts.last()
    }
}

/// The tombstones a batch's delete ops issue, in op order.
pub open spec fn delete_trace(ops: Seq<OpV>) -> Seq<ActionV>
    decreases ops.len(),
{
    if ops.len() == 0 {
        Seq::empty()
    } else {
        delete_trace(ops.drop_last()) + (match ops.last() {
            OpV::DeleteDoc(id) => seq![ActionV::Delete(id)],
            _ => Seq::<ActionV>::empty(),
        })
    }
}

/// The document ids a batch's index ops reference, in op order.
pub open spec fn index_ref_ids(ops: Seq<OpV>) -> Seq<Seq<char>>
    decreases ops.len(),
{
    if ops.len() == 0 {
        Seq::empty()
    } else {
        index_ref_ids(ops.drop_last()) + (match ops.last() {
            OpV::IndexDoc(id) => seq![id],
            _ => Seq::<Seq<char>>::empty(),
        })
    }
}

/// What a job's engine-action trace may be: the delete ops' tombstones in
/// op order, then one per-document trace per index op in op order — the
/// full delete-before-add plan of the stored document, or its tombstone
/// alone when the engine refused the add, or nothing when the document
/// could not be built.
pub open spec fn job_trace_ok(store: MemDocumentStore, ops: Seq<OpV>, t: Seq<ActionV>) -> bool {
    exists|dts: Seq<Seq<ActionV>>|
        #![trigger concat_all(dts)]
        {
            let ids = index_ref_ids(ops);
            &&& dts.len() == ids.len()
            &&& t == delete_trace(ops) + concat_all(dts)
            &&& (forall|i: int|
                0 <= i < ids.len() ==> (store.spec_get(#[trigger] ids[i]) matches Some(m) && (
                dts[i] == index_plan(ids[i], Jv::Obj(m)) || dts[i] == seq![
                    ActionV::Delete(ids[i]),
                ] || dts[i] == Seq::<ActionV>::empty())))
        }
}

/// Number of index ops in a batch.
pub open spec fn count_index_ops(ops: Seq<IndexWriterOp>) -> int
    decreases ops.len(),
{
    if ops.len() == 0 {
        0
    } else {
        (if ops.last() is IndexDoc {
            1int
        } else {
            0int
        }) + count_index_ops(ops.drop_last())
    }
}

/// Applies one job: deletes are tombstoned as they appear, the documents
/// the index ops reference are fetched in one batch and applied in op
/// order, each with a delete before its add.  One malformed document does
/// not fail the batch: the result counts the documents applied, and only
/// a failed fetch fails the job (the queue will redeliver it).  The
/// returned trace records the engine actions issued, in order, and on
/// success satisfies [`job_trace_ok`]; this call never commits.
#[verifier::loop_isolation(false)]
pub fn handle_job(w: &EngineWriter, store: &MemDocumentStore, job: &Job) -> (r: (Result<
    usize,
    ServiceError,
>, Ghost<Seq<ActionV>>))
    ensures
        r.0 matches Ok(n) ==> n as int <= count_index_ops(job.ops@) && job_trace_ok(
            *store,
            op_views(job.ops@),
            r.1@,
        ),
        r.0 matches Err(e) ==> e is NotFound && r.1@ == delete_trace(op_views(job.ops@)),
{
    let ghost opsv = op_views(job.ops@);
    let mut refs: Vec<SearchDocRef> = Vec::new();
    let ghost mut trace: Seq<ActionV> = Seq::empty();
    let mut i: usize = 0;
    while i < job.ops.len()
        invariant
            i <= job.ops@.len(),
            trace == delete_trace(opsv.take(i as int)),
            refs@.len() == index_ref_ids(opsv.take(i as int)).len(),
            forall|k: int|
                0 <= k < refs@.len() ==> (#[trigger] refs@[k]).0.0@ == index_ref_ids(
                    opsv.take(i as int),
                )[k],
            refs@.len() <= count_index_ops(job.ops@.subrange(0, i as int)),
            count_index_ops(job.ops@.subrange(0, i as int)) >= 0,
        decreases job.ops.len() - i,
    {
        proof {
            assert(opsv.take(i + 1 as int).drop_last() =~= opsv.take(i as int));
            assert(opsv.take(i + 1 as int).last() == opsv[i as int]);
            assert(opsv[i as int] == job.ops@[i as int]@);
            assert(job.ops@.subrange(0, i + 1 as int).drop_last() =~= job.ops@.subrange(
                0,
                i as int,
            ));
        }
        match &job.ops[i] {
            IndexWriterOp::IndexDoc { doc_ref } => {
                refs.push(doc_ref.duplicate());
                proof {
                    assert(index_ref_ids(opsv.take(i + 1 as int)) =~= index_ref_ids(
                        opsv.take(i as int),
                    ).push(doc_ref.0.0@));
                    assert(trace =~= delete_trace(opsv.take(i + 1 as int)));
                }
            },
            IndexWriterOp::DeleteDoc { doc_id } => {
                let del = delete_doc(w, doc_id.0.as_str());
                proof {
                    trace = trace + del@;
                    assert(trace =~= delete_trace(opsv.take(i + 1 as int)));
                    assert(index_ref_ids(opsv.take(i + 1 as int)) =~= index_ref_ids(
                        opsv.take(i as int),
                    ));
                }
            },
        }
        i = i + 1;
    }
    proof {
        assert(opsv.take(opsv.len() as int) =~= opsv);
        assert(job.ops@.subrange(0, job.ops@.len() as int) =~= job.ops@);
        lemma_count_index_ops_nonneg(job.ops@);
    }
    let ghost ids = index_ref_ids(opsv);
    match store.get_documents(&refs) {
        Some(docs) => {
            let ghost mut dts: Seq<Seq<ActionV>> = Seq::empty();
            let mut applied: usize = 0;
            let mut k: usize = 0;
            while k < docs.len()
                invariant
                    k <= docs@.len(),
                    applied <= k,
                    docs@.len() == refs@.len(),
                    dts.len() == k,
                    trace == delete_trace(opsv),
                    forall|t: int|
                        0 <= t < k ==> (store.spec_get(#[trigger] ids[t]) matches Some(m) && (
                        dts[t] == index_plan(ids[t], Jv::Obj(m)) || dts[t] == seq![
                            ActionV::Delete(ids[t]),
                        ] || dts[t] == Seq::<ActionV>::empty())),
                decreases docs.len() - k,
            {
                let (ok, tr) = index_doc(w, &docs[k]);
                proof {
                    assert(docs@[k as int].id.0@ == refs@[k as int].0.0@);
                    assert(refs@[k as int].0.0@ == ids[k as int]);
                    assert(store.spec_get(ids[k as int]) == Some(
                        jv_of_members(docs@[k as int].content@),
                    ));
                    dts = dts.push(tr@);
                }
                if ok {
                    applied = applied + 1;
                }
                k = k + 1;
            }
            let ghost full = trace + concat_all(dts);
            proof {
                assert(dts.len() == ids.len());
                assert(full == delete_trace(opsv) + concat_all(dts));
                assert(job_trace_ok(*store, opsv, full));
            }
            (Ok(applied), Ghost(full))
        },
        None => (
            Err(ServiceError::not_found("a referenced document is not in the store")),
            Ghost(trace),
        ),
    }
}

/// Index-op counts are non-negative.
proof fn lemma_count_index_ops_nonneg(ops: Seq<IndexWriterOp>)
    ensures
        count_index_ops(ops) >= 0,
    decreases ops.len(),
{
    if ops.len() > 0 {
        lemma_count_index_ops_nonneg(ops.drop_last());
    }
}

/// A registry of open in-memory indexes by index id, loading schemas
/// through the provider on first use.
pub struct MemIndexRegistry {
    pub entries: Vec<(String, EngineIndex)>,
}

impl MemIndexRegistry {
    pub fn new() -> (r: MemIndexRegistry)
        ensures
            r.entries@.len() == 0,
    {
        MemIndexRegistry { entries: Vec::new() }
    }

    /// The open index for an id, opened on first use with the schema the
    /// provider resolves.  Errors surface the provider's decision
    /// (`NotFound` for an unconfigured index).
    pub fn load_index(&mut self, provider: &SchemaProvider, index_id: &str) -> (r: Result<
        EngineIndex,
        ServiceError,
    >)
        ensures
            r matches Err(e) ==> e is NotFound || e is InternalError,
    {
        let mut i: usize = 0;
        while i < self.entries.len()
            decreases self.entries.len() - i,
        {
            if str_eq(self.entries[i].0.as_str(), index_id) {
                return Ok(self.entries[i].1.duplicate());
            }
            i = i + 1;
        }
        match provider.load_schema(index_id) {
            Ok(schema) => match EngineIndex::open_in_ram(schema) {
                Some(e) => {
                    let handle = e.duplicate();
                    self.entries.push((index_id.to_owned(), e));
                    Ok(handle)
                },
                None => Err(ServiceError::internal_error("engine index could not be opened")),
            },
            Err(e) => Err(e),
        }
    }
}

/// Consumes one queue delivery: applies each job through a writer for its
/// index (at most one writer per index per invocation), then commits every
/// touched index and waits for its merges.  A failed job or commit is
/// reported so the delivery is not acknowledged and the queue redelivers;
/// redelivery is idempotent, by the delete-before-add laws of
/// [`crate::index_model`].  On success the returned trace records, per job
/// in delivery order, the job's index id and the engine actions applied
/// for it; the commit-then-wait pair is issued exactly once per cached
/// writer by the closing loop.
#[verifier::loop_isolation(false)]
pub fn handle_event(
    registry: &mut MemIndexRegistry,
    provider: &SchemaProvider,
    store: &MemDocumentStore,
    jobs: &Vec<Job>,
) -> (r: (Result<(), ServiceError>, Ghost<Seq<(Seq<char>, Seq<ActionV>)>>))
    ensures
        r.0 matches Err(e) ==> e is NotFound || e is InternalError,
        r.0 is Ok ==> r.1@.len() == jobs@.len() && (forall|i: int|
            0 <= i < jobs@.len() ==> (#[trigger] r.1@[i]).0 == jobs@[i].index_id@ && job_trace_ok(
                *store,
                op_views(jobs@[i].ops@),
                r.1@[i].1,
            )),
{
    let mut writers: Vec<(String, EngineWriter)> = Vec::new();
    let ghost mut traces: Seq<(Seq<char>, Seq<ActionV>)> = Seq::empty();
    let mut i: usize = 0;
    while i < jobs.len()
        invariant
            i <= jobs@.len(),
            traces.len() == i,
            forall|k: int|
                0 <= k < i ==> (#[trigger] traces[k]).0 == jobs@[k].index_id@ && job_trace_ok(
                    *store,
                    op_views(jobs@[k].ops@),
                    traces[k].1,
                ),
        decreases jobs.len() - i,
    {
        let job = &jobs[i];
        match find_writer(&writers, job.index_id.as_str()) {
            Some(wi) => {
                let (res, tr) = handle_job(&writers[wi].1, store, job);
                match res {
                    Ok(_) => {
                        proof {
                            traces = traces.push((job.index_id@, tr@));
                        }
                    },
                    Err(e) => {
                        return (Err(e), Ghost(traces));
                    },
                }
            },
            None => {
                let index = match registry.load_index(provider, job.index_id.as_str()) {
                    Ok(e) => e,
                    Err(e) => {
                        return (Err(e), Ghost(traces));
                    },
                };
                let writer = match index.writer() {
                    Some(wr) => wr,
                    None => {
                        return (
                            Err(ServiceError::internal_error("engine writer could not be opened")),
                            Ghost(traces),
                        );
                    },
                };
                let (res, tr) = handle_job(&writer, store, job);
                match res {
                    Ok(_) => {
                        proof {
                            traces = traces.push((job.index_id@, tr@));
                        }
                    },
                    Err(e) => {
                        return (Err(e), Ghost(traces));
                    },
                }
                writers.push((crate::text::clone_string(&job.index_id), writer));
            },
        }
        i = i + 1;
    }
    let mut committed: bool = true;
    while writers.len() > 0
        decreases writers.len(),
    {
        match writers.pop() {
            Some((_, mut writer)) => {
                if !writer.commit() {
                    committed = false;
                }
                if !writer.finish() {
                    committed = false;
                }
            },
            None => {},
        }
    }
    if committed {
        (Ok(()), Ghost(traces))
    } else {
        (
            Err(ServiceError::internal_error("commit failed; the delivery will be retried")),
            Ghost(traces),
        )
    }
}

/// The cached writer for an index id, if one is open.
fn find_writer(writers: &Vec<(String, EngineWriter)>, index_id: &str) -> (r: Option<usize>)
    ensures
        r matches Some(i) ==> i < writers@.len(),
{
    let mut w: usize = 0;
    while w < writers.len()
        invariant
            w <= writers.len(),
        decreases writers.len() - w,
    {
        if str_eq(writers[w].0.as_str(), index_id) {
            return Some(w);
        }
        w = w + 1;
    }
    None
}

} // verus!
