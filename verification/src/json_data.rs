//! JSON value model.
//!
//! Documents, pagination tokens and the segment manifest all travel as JSON.
//! `JsonValue` is the executable form; `Jv` is its mathematical model.
//! Object members keep insertion order, which makes the canonical
//! serialization of a value unique.
//!
//! Numbers are modelled as signed 64-bit integers: every number this service
//! writes is one, and the body parser rejects fractions and exponents.

use vstd::prelude::*;

verus! {

/// Mathematical model of a JSON value.
#[verifier::ext_equal]
pub enum Jv {
    Null,
    Bool(bool),
    Int(i64),
    Str(Seq<char>),
    Arr(Seq<Jv>),
    Obj(Seq<(Seq<char>, Jv)>),
}

/// Executable JSON value with ordered object members.
#[derive(Debug)]
pub enum JsonValue {
    Null,
    Bool(bool),
    Int(i64),
    Str(String),
    Arr(Vec<JsonValue>),
    Obj(Vec<(String, JsonValue)>),
}

/// The model of an executable JSON value.
pub open spec fn jv_of(v: JsonValue) -> Jv
    decreases v, 1int,
{
    match v {
        JsonValue::Null => Jv::Null,
        JsonValue::Bool(b) => Jv::Bool(b),
        JsonValue::Int(i) => Jv::Int(i),
        JsonValue::Str(s) => Jv::Str(s@),
        JsonValue::Arr(items) => Jv::Arr(jv_of_items(items@)),
        JsonValue::Obj(members) => Jv::Obj(jv_of_members(members@)),
    }
}

/// The models of a sequence of values, in order.
pub open spec fn jv_of_items(items: Seq<JsonValue>) -> Seq<Jv>
    decreases items, 0int,
{
    if items.len() == 0 {
        Seq::empty()
    } else {
        jv_of_items(items.subrange(0, items.len() - 1)).push(jv_of(items[items.len() - 1]))
    }
}

/// The models of a sequence of object members, in order.
pub open spec fn jv_of_members(members: Seq<(String, JsonValue)>) -> Seq<(Seq<char>, Jv)>
    decreases members, 0int,
{
    if members.len() == 0 {
        Seq::empty()
    } else {
        jv_of_members(members.subrange(0, members.len() - 1)).push(
            (members[members.len() - 1].0@, jv_of(members[members.len() - 1].1)),
        )
    }
}

impl View for JsonValue {
    type V = Jv;

    open spec fn view(&self) -> Jv {
        jv_of(*self)
    }
}

/// Pointwise reading of [`jv_of_items`].
pub proof fn lemma_jv_of_items(items: Seq<JsonValue>)
    ensures
        jv_of_items(items).len() == items.len(),
        forall|i: int| 0 <= i < items.len() ==> jv_of_items(items)[i] == jv_of(items[i]),
    decreases items.len(),
{
    if items.len() > 0 {
        lemma_jv_of_items(items.subrange(0, items.len() - 1));
        assert forall|i: int| 0 <= i < items.len() implies jv_of_items(items)[i] == jv_of(
            items[i],
        ) by {
            if i < items.len() - 1 {
                assert(items.subrange(0, items.len() - 1)[i] == items[i]);
            }
        }
    }
}

/// Pointwise reading of [`jv_of_members`].
pub proof fn lemma_jv_of_members(members: Seq<(String, JsonValue)>)
    ensures
        jv_of_members(members).len() == members.len(),
        forall|i: int|
            0 <= i < members.len() ==> jv_of_members(members)[i] == (
                members[i].0@,
                jv_of(members[i].1),
            ),
    decreases members.len(),
{
    if members.len() > 0 {
        lemma_jv_of_members(members.subrange(0, members.len() - 1));
        assert forall|i: int| 0 <= i < members.len() implies jv_of_members(members)[i] == (
            members[i].0@,
            jv_of(members[i].1),
        ) by {
            if i < members.len() - 1 {
                assert(members.subrange(0, members.len() - 1)[i] == members[i]);
            }
        }
    }
}

/// Deep copy with a known model: the copy's model equals the source's.
#[verifier::loop_isolation(false)]
pub fn clone_value(v: &JsonValue) -> (r: JsonValue)
    ensures
        jv_of(r) == jv_of(*v),
    decreases v,
{
    match v {
        JsonValue::Null => JsonValue::Null,
        JsonValue::Bool(b) => JsonValue::Bool(*b),
        JsonValue::Int(i) => JsonValue::Int(*i),
        JsonValue::Str(s) => JsonValue::Str(crate::text::clone_string(s)),
        JsonValue::Arr(items) => {
            let mut out: Vec<JsonValue> = Vec::new();
            let mut i: usize = 0;
            while i < items.len()
                invariant
                    i <= items.len(),
                    out@.len() == i,
                    forall|k: int| 0 <= k < i ==> jv_of(#[trigger] out@[k]) == jv_of(items@[k]),
                decreases items.len() - i,
            {
                let c = clone_value(&items[i]);
                out.push(c);
                i = i + 1;
            }
            proof {
                lemma_jv_of_items(out@);
                lemma_jv_of_items(items@);
                assert(jv_of_items(out@) =~= jv_of_items(items@));
            }
            JsonValue::Arr(out)
        },
        JsonValue::Obj(members) => {
            let mut out: Vec<(String, JsonValue)> = Vec::new();
            let mut i: usize = 0;
            while i < members.len()
                invariant
                    i <= members.len(),
                    out@.len() == i,
                    forall|k: int| 0 <= k < i ==> (#[trigger] out@[k]).0@ == members@[k].0@
                        && jv_of(out@[k].1) == jv_of(members@[k].1),
                decreases members.len() - i,
            {
                let ks = crate::text::clone_string(&members[i].0);
                let c = clone_value(&members[i].1);
                out.push((ks, c));
                i = i + 1;
            }
            proof {
                lemma_jv_of_members(out@);
                lemma_jv_of_members(members@);
                assert(jv_of_members(out@) =~= jv_of_members(members@));
            }
            JsonValue::Obj(out)
        },
    }
}

} // verus!
