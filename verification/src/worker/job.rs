//! Write jobs: a batch of index/delete ops with a canonical serialization.
//!
//! A job travels the queue as the canonical JSON of its model:
//! `{"index_id": ..., "ops": [{"IndexDoc": {"doc_ref": id}} |
//! {"DeleteDoc": {"doc_id": id}}, ...]}`.  Decoding accepts exactly that
//! shape, and [`lemma_job_round_trip`] proves the codec loss-free.

use vstd::prelude::*;

use crate::json_data::Jv;
use crate::json_data::JsonValue;
use crate::json_data::jv_of;
use crate::search_doc::SearchDocId;
use crate::store::SearchDocRef;
use crate::text::clone_string;
use crate::text::str_eq;

verus! {

/// One write operation.
#[derive(Debug)]
pub enum IndexWriterOp {
    /// Index the stored document this reference names.
    IndexDoc { doc_ref: SearchDocRef },
    /// Tombstone the document with this id.
    DeleteDoc { doc_id: SearchDocId },
}

/// A batch of write operations against one index, applied in order and
/// committed together.
#[derive(Debug)]
pub struct Job {
    pub index_id: String,
    pub ops: Vec<IndexWriterOp>,
}

/// Model of one op: which kind, and the document id it names.
pub enum OpV {
    IndexDoc(Seq<char>),
    DeleteDoc(Seq<char>),
}

impl View for IndexWriterOp {
    type V = OpV;

    open spec fn view(&self) -> OpV {
        match self {
            IndexWriterOp::IndexDoc { doc_ref } => OpV::IndexDoc(doc_ref.0.0@),
            IndexWriterOp::DeleteDoc { doc_id } => OpV::DeleteDoc(doc_id.0@),
        }
    }
}

/// The models of a sequence of ops, in order.
pub open spec fn op_views(ops: Seq<IndexWriterOp>) -> Seq<OpV> {
    Seq::new(ops.len(), |i: int| ops[i]@)
}

/// The canonical JSON model of one op.
pub open spec fn op_jv(op: OpV) -> Jv {
    match op {
        OpV::IndexDoc(id) => Jv::Obj(
            seq![("IndexDoc"@, Jv::Obj(seq![("doc_ref"@, Jv::Str(id))]))],
        ),
        OpV::DeleteDoc(id) => Jv::Obj(
            seq![("DeleteDoc"@, Jv::Obj(seq![("doc_id"@, Jv::Str(id))]))],
        ),
    }
}

/// The canonical JSON model of a job.
pub open spec fn job_jv(index_id: Seq<char>, ops: Seq<OpV>) -> Jv {
    Jv::Obj(
        seq![
            ("index_id"@, Jv::Str(index_id)),
            ("ops"@, Jv::Arr(Seq::new(ops.len(), |i: int| op_jv(ops[i])))),
        ],
    )
}

impl View for Job {
    type V = Jv;

    open spec fn view(&self) -> Jv {
        job_jv(self.index_id@, op_views(self.ops@))
    }
}

impl Job {
    /// An empty job for an index.
    pub fn create(index_id: &str) -> (r: Job)
        ensures
            r.index_id@ == index_id@,
            r.ops@.len() == 0,
    {
        Job { index_id: index_id.to_owned(), ops: Vec::new() }
    }

    /// Appends an index op for a stored document.
    pub fn index_doc(&mut self, doc_ref: SearchDocRef)
        ensures
            final(self).index_id == old(self).index_id,
            final(self).ops@.len() == old(self).ops@.len() + 1,
            final(self).ops@ =~= old(self).ops@.push(IndexWriterOp::IndexDoc { doc_ref }),
    {
        self.ops.push(IndexWriterOp::IndexDoc { doc_ref });
    }

    /// Appends a delete op for a document id.
    pub fn delete_doc(&mut self, doc_id: SearchDocId)
        ensures
            final(self).index_id == old(self).index_id,
            final(self).ops@.len() == old(self).ops@.len() + 1,
            final(self).ops@ =~= old(self).ops@.push(IndexWriterOp::DeleteDoc { doc_id }),
    {
        self.ops.push(IndexWriterOp::DeleteDoc { doc_id });
    }

    /// Encodes the job as its canonical JSON model.
    #[verifier::loop_isolation(false)]
    pub fn to_json(&self) -> (r: JsonValue)
        ensures
            jv_of(r) == self@,
    {
        let mut ops: Vec<JsonValue> = Vec::new();
        let mut i: usize = 0;
        while i < self.ops.len()
            invariant
                i <= self.ops.len(),
                ops@.len() == i,
                forall|k: int| 0 <= k < i ==> jv_of(#[trigger] ops@[k]) == op_jv(self.ops@[k]@),
            decreases self.ops.len() - i,
        {
            let o = &self.ops[i];
            let encoded: JsonValue;
            match o {
                IndexWriterOp::IndexDoc { doc_ref } => {
                    let mut inner: Vec<(String, JsonValue)> = Vec::new();
                    inner.push(
                        ("doc_ref".to_owned(), JsonValue::Str(clone_string(&doc_ref.0.0))),
                    );
                    let mut outer: Vec<(String, JsonValue)> = Vec::new();
                    outer.push(("IndexDoc".to_owned(), JsonValue::Obj(inner)));
                    encoded = JsonValue::Obj(outer);
                    proof {
                        crate::json_data::lemma_jv_of_members(
                            encoded->Obj_0@,
                        );
                        crate::json_data::lemma_jv_of_members(
                            encoded->Obj_0@[0].1->Obj_0@,
                        );
                        assert(crate::json_data::jv_of_members(encoded->Obj_0@[0].1->Obj_0@)
                            =~= seq![("doc_ref"@, Jv::Str(doc_ref.0.0@))]);
                        assert(crate::json_data::jv_of_members(encoded->Obj_0@) =~= seq![
                            ("IndexDoc"@, Jv::Obj(seq![("doc_ref"@, Jv::Str(doc_ref.0.0@))])),
                        ]);
                    }
                },
                IndexWriterOp::DeleteDoc { doc_id } => {
                    let mut inner: Vec<(String, JsonValue)> = Vec::new();
                    inner.push(("doc_id".to_owned(), JsonValue::Str(clone_string(&doc_id.0))));
                    let mut outer: Vec<(String, JsonValue)> = Vec::new();
                    outer.push(("DeleteDoc".to_owned(), JsonValue::Obj(inner)));
                    encoded = JsonValue::Obj(outer);
                    proof {
                        crate::json_data::lemma_jv_of_members(
                            encoded->Obj_0@,
                        );
                        crate::json_data::lemma_jv_of_members(
                            encoded->Obj_0@[0].1->Obj_0@,
                        );
                        assert(crate::json_data::jv_of_members(encoded->Obj_0@[0].1->Obj_0@)
                            =~= seq![("doc_id"@, Jv::Str(doc_id.0@))]);
                        assert(crate::json_data::jv_of_members(encoded->Obj_0@) =~= seq![
                            ("DeleteDoc"@, Jv::Obj(seq![("doc_id"@, Jv::Str(doc_id.0@))])),
                        ]);
                    }
                },
            }
            ops.push(encoded);
            i = i + 1;
        }
        let mut members: Vec<(String, JsonValue)> = Vec::new();
        members.push(("index_id".to_owned(), JsonValue::Str(clone_string(&self.index_id))));
        members.push(("ops".to_owned(), JsonValue::Arr(ops)));
        let r = JsonValue::Obj(members);
        proof {
            crate::json_data::lemma_jv_of_members(members@);
            crate::json_data::lemma_jv_of_items(members@[1].1->Arr_0@);
            assert(crate::json_data::jv_of_items(members@[1].1->Arr_0@) =~= Seq::new(
                op_views(self.ops@).len(),
                |i: int| op_jv(op_views(self.ops@)[i]),
            ));
            assert(crate::json_data::jv_of_members(members@) =~= self@->Obj_0);
        }
        r
    }
}

/// Shape of an op object: one member, `IndexDoc` or `DeleteDoc`, holding
/// an object with the one matching id member.
pub open spec fn is_op_jv(j: Jv) -> bool {
    &&& j matches Jv::Obj(ms)
    &&& ms.len() == 1
    &&& (ms[0].0 == "IndexDoc"@ || ms[0].0 == "DeleteDoc"@)
    &&& ms[0].1 matches Jv::Obj(inner) && inner.len() == 1 && inner[0].1 is Str && (if ms[0].0
        == "IndexDoc"@ {
        inner[0].0 == "doc_ref"@
    } else {
        inner[0].0 == "doc_id"@
    })
}

/// The op a well-shaped op object denotes.
pub open spec fn op_of_jv(j: Jv) -> OpV
    recommends
        is_op_jv(j),
{
    let ms = j->Obj_0;
    if ms[0].0 == "IndexDoc"@ {
        OpV::IndexDoc(ms[0].1->Obj_0[0].1->Str_0)
    } else {
        OpV::DeleteDoc(ms[0].1->Obj_0[0].1->Str_0)
    }
}

/// Shape of a job object: `index_id` string, then the op array.
pub open spec fn is_job_jv(j: Jv) -> bool {
    &&& j matches Jv::Obj(ms)
    &&& ms.len() == 2
    &&& ms[0].0 == "index_id"@
    &&& ms[0].1 is Str
    &&& ms[1].0 == "ops"@
    &&& ms[1].1 matches Jv::Arr(ops) && (forall|i: int|
        0 <= i < ops.len() ==> is_op_jv(#[trigger] ops[i]))
}

/// Decodes one op from a model object; accepts exactly the well-shaped.
#[verifier::loop_isolation(false)]
fn op_from_json(v: &JsonValue) -> (r: Option<IndexWriterOp>)
    ensures
        r matches Some(op) ==> is_op_jv(jv_of(*v)) && op@ == op_of_jv(jv_of(*v)),
        r is Some <==> is_op_jv(jv_of(*v)),
{
    proof {
        if let JsonValue::Obj(ms) = v {
            crate::json_data::lemma_jv_of_members(ms@);
            if ms@.len() == 1 {
                if let JsonValue::Obj(inner) = &ms@[0].1 {
                    crate::json_data::lemma_jv_of_members(inner@);
                }
            }
        }
    }
    match v {
        JsonValue::Obj(ms) => {
            if ms.len() != 1 {
                return None;
            }
            let is_index = str_eq(ms[0].0.as_str(), "IndexDoc");
            let is_delete = str_eq(ms[0].0.as_str(), "DeleteDoc");
            if !is_index && !is_delete {
                return None;
            }
            match &ms[0].1 {
                JsonValue::Obj(inner) => {
                    proof {
                        crate::json_data::lemma_jv_of_members(inner@);
                    }
                    if inner.len() != 1 {
                        return None;
                    }
                    match &inner[0].1 {
                        JsonValue::Str(id) => {
                            if is_index {
                                if str_eq(inner[0].0.as_str(), "doc_ref") {
                                    Some(
                                        IndexWriterOp::IndexDoc {
                                            doc_ref: SearchDocRef(SearchDocId(clone_string(id))),
                                        },
                                    )
                                } else {
                                    None
                                }
                            } else {
                                if str_eq(inner[0].0.as_str(), "doc_id") {
                                    Some(
                                        IndexWriterOp::DeleteDoc {
                                            doc_id: SearchDocId(clone_string(id)),
                                        },
                                    )
                                } else {
                                    None
                                }
                            }
                        },
                        _ => None,
                    }
                },
                _ => None,
            }
        },
        _ => None,
    }
}

/// Decodes a job from a model object; accepts exactly the well-shaped.
#[verifier::loop_isolation(false)]
pub fn job_from_json(v: &JsonValue) -> (r: Option<Job>)
    ensures
        r matches Some(job) ==> job@ == jv_of(*v),
        r is Some <==> is_job_jv(jv_of(*v)),
{
    proof {
        if let JsonValue::Obj(ms) = v {
            crate::json_data::lemma_jv_of_members(ms@);
        }
    }
    match v {
        JsonValue::Obj(ms) => {
            if ms.len() != 2 {
                return None;
            }
            if !str_eq(ms[0].0.as_str(), "index_id") {
                return None;
            }
            if !str_eq(ms[1].0.as_str(), "ops") {
                return None;
            }
            let index_id: String;
            match &ms[0].1 {
                JsonValue::Str(s) => {
                    index_id = clone_string(s);
                },
                _ => {
                    return None;
                },
            }
            match &ms[1].1 {
                JsonValue::Arr(ops_json) => {
                    proof {
                        crate::json_data::lemma_jv_of_items(ops_json@);
                    }
                    let mut ops: Vec<IndexWriterOp> = Vec::new();
                    let mut i: usize = 0;
                    while i < ops_json.len()
                        invariant
                            i <= ops_json.len(),
                            ops@.len() == i,
                            forall|k: int| 0 <= k < i ==> is_op_jv(jv_of(#[trigger] ops_json@[k]))
                                && (#[trigger] ops@[k])@ == op_of_jv(jv_of(ops_json@[k])),
                        decreases ops_json.len() - i,
                    {
                        match op_from_json(&ops_json[i]) {
                            Some(op) => {
                                ops.push(op);
                            },
                            None => {
                                proof {
                                    assert(jv_of(ms@[1].1)->Arr_0[i as int] == jv_of(
                                        ops_json@[i as int],
                                    ));
                                    assert(!is_job_jv(jv_of(*v)));
                                }
                                return None;
                            },
                        }
                        i = i + 1;
                    }
                    let job = Job { index_id, ops };
                    proof {
                        assert forall|k: int| 0 <= k < op_views(job.ops@).len() implies op_jv(
                            #[trigger] op_views(job.ops@)[k],
                        ) == crate::json_data::jv_of_items(ops_json@)[k] by {
                            assert(op_views(job.ops@)[k] == job.ops@[k]@);
                            assert(job.ops@[k]@ == op_of_jv(jv_of(ops_json@[k])));
                            assert(is_op_jv(jv_of(ops_json@[k])));
                            lemma_op_jv_inverse(jv_of(ops_json@[k]));
                        }
                        assert(Seq::new(
                            op_views(job.ops@).len(),
                            |i: int| op_jv(op_views(job.ops@)[i]),
                        ) =~= crate::json_data::jv_of_items(ops_json@));
                        assert(job@->Obj_0 =~= jv_of(*v)->Obj_0);
                    }
                    Some(job)
                },
                _ => None,
            }
        },
        _ => None,
    }
}

/// Re-encoding a well-shaped op object gives it back.
proof fn lemma_op_jv_inverse(j: Jv)
    requires
        is_op_jv(j),
    ensures
        op_jv(op_of_jv(j)) == j,
{
    let ms = j->Obj_0;
    let inner = ms[0].1->Obj_0;
    let id = inner[0].1->Str_0;
    assert(inner[0].1 == Jv::Str(id));
    if ms[0].0 == "IndexDoc"@ {
        assert(inner =~= seq![("doc_ref"@, Jv::Str(id))]);
        assert(ms[0].1 =~~= Jv::Obj(seq![("doc_ref"@, Jv::Str(id))]));
        assert(ms =~~= seq![("IndexDoc"@, Jv::Obj(seq![("doc_ref"@, Jv::Str(id))]))]);
        assert(j =~~= op_jv(op_of_jv(j)));
    } else {
        assert(inner =~= seq![("doc_id"@, Jv::Str(id))]);
        assert(ms[0].1 =~~= Jv::Obj(seq![("doc_id"@, Jv::Str(id))]));
        assert(ms =~~= seq![("DeleteDoc"@, Jv::Obj(seq![("doc_id"@, Jv::Str(id))]))]);
        assert(j =~~= op_jv(op_of_jv(j)));
    }
}

/// A job's model always has the job shape, and decoding inverts encoding:
/// the canonical JSON of any job decodes to a job with the same model.
pub proof fn lemma_job_round_trip(job: &Job)
    ensures
        is_job_jv(job@),
        crate::json_parse::p_doc(crate::json_codec::ser_value(job@)) == Some(job@),
{
    let ops = op_views(job.ops@);
    let encoded = Seq::new(ops.len(), |i: int| op_jv(ops[i]));
    assert forall|i: int| 0 <= i < encoded.len() implies is_op_jv(#[trigger] encoded[i]) by {
        assert(encoded[i] == op_jv(ops[i]));
        match ops[i] {
            OpV::IndexDoc(id) => {
                let e = op_jv(ops[i]);
                assert(e is Obj);
                assert(e->Obj_0.len() == 1);
                assert(e->Obj_0[0].0 == "IndexDoc"@);
                assert(e->Obj_0[0].1 is Obj);
                assert(e->Obj_0[0].1->Obj_0.len() == 1);
                assert(e->Obj_0[0].1->Obj_0[0].0 == "doc_ref"@);
                assert(e->Obj_0[0].1->Obj_0[0].1 is Str);
                assert(is_op_jv(e));
            },
            OpV::DeleteDoc(id) => {
                let e = op_jv(ops[i]);
                assert(e is Obj);
                assert(e->Obj_0.len() == 1);
                assert(e->Obj_0[0].0 == "DeleteDoc"@);
                assert(e->Obj_0[0].1 is Obj);
                assert(e->Obj_0[0].1->Obj_0.len() == 1);
                assert(e->Obj_0[0].1->Obj_0[0].0 == "doc_id"@);
                assert(e->Obj_0[0].1->Obj_0[0].1 is Str);
                reveal_strlit("IndexDoc");
                reveal_strlit("DeleteDoc");
                assert(e->Obj_0[0].0 != "IndexDoc"@);
                assert(is_op_jv(e));
            },
        }
    }
    crate::json_laws::lemma_parse_of_serialized(job@);
}

} // verus!
