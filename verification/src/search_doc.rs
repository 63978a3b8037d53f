//! Documents and their validation against a schema.
//!
//! A document arrives as a JSON value.  It must be an object; its `__id`,
//! when present, must be a string (one is generated otherwise); every member
//! naming a schema field must carry a value of the field's kind; and after
//! dropping members outside the schema at least one field besides `__id`
//! must remain, else the document is empty.  [`validate_spec`] fixes the
//! whole decision, error messages included.

use vstd::prelude::*;

use crate::json_data::Jv;
use crate::json_data::JsonValue;
use crate::json_data::jv_of;
use crate::json_data::jv_of_members;
use crate::json_data::lemma_jv_of_members;
use crate::schema::SchemaField;
use crate::schema::FieldKind;
use crate::schema::FieldV;
use crate::schema::IndexSchema;
use crate::schema::field_idx;
use crate::text::clone_string;
use crate::text::str_concat;
use crate::text::str_eq;

verus! {

/// Why a document was rejected.
#[derive(Debug)]
pub enum SearchDocError {
    /// The payload was not a JSON object.
    NotAnObject,
    /// `__id` was present but not a string.
    InvalidIdType,
    /// A member value did not fit its schema field; the message names the
    /// field.
    SchemaValidationError(String),
    /// No member besides `__id` matched the schema.
    EmptyDocument,
}

impl SearchDocError {
    pub open spec fn spec_message(&self) -> Seq<char> {
        match self {
            SearchDocError::NotAnObject => "json value is not an object"@,
            SearchDocError::InvalidIdType => "invalid type for __id, expected string"@,
            SearchDocError::SchemaValidationError(m) => m@,
            SearchDocError::EmptyDocument => "cannot index empty document"@,
        }
    }

    /// The user-visible message for this rejection.
    pub fn message(self) -> (r: String)
        ensures
            r@ == self.spec_message(),
    {
        match self {
            SearchDocError::NotAnObject => "json value is not an object".to_owned(),
            SearchDocError::InvalidIdType => "invalid type for __id, expected string".to_owned(),
            SearchDocError::SchemaValidationError(m) => m,
            SearchDocError::EmptyDocument => "cannot index empty document".to_owned(),
        }
    }
}

impl PartialEq for SearchDocError {
    fn eq(&self, other: &SearchDocError) -> (r: bool) {
        match (self, other) {
            (SearchDocError::NotAnObject, SearchDocError::NotAnObject) => true,
            (SearchDocError::InvalidIdType, SearchDocError::InvalidIdType) => true,
            (
                SearchDocError::SchemaValidationError(a),
                SearchDocError::SchemaValidationError(b),
            ) => a.eq(b),
            (SearchDocError::EmptyDocument, SearchDocError::EmptyDocument) => true,
            _ => false,
        }
    }
}

impl vstd::std_specs::cmp::PartialEqSpecImpl for SearchDocError {
    open spec fn obeys_eq_spec() -> bool {
        true
    }

    open spec fn eq_spec(&self, other: &SearchDocError) -> bool {
        match (self, other) {
            (SearchDocError::NotAnObject, SearchDocError::NotAnObject) => true,
            (SearchDocError::InvalidIdType, SearchDocError::InvalidIdType) => true,
            (
                SearchDocError::SchemaValidationError(a),
                SearchDocError::SchemaValidationError(b),
            ) => a@ == b@,
            (SearchDocError::EmptyDocument, SearchDocError::EmptyDocument) => true,
            _ => false,
        }
    }
}

/// A document id: the value of the `__id` field.
#[derive(Debug)]
pub struct SearchDocId(pub String);

impl SearchDocId {
    /// Wraps a raw id string.
    pub fn parse(id: &str) -> (r: SearchDocId)
        ensures
            r.0@ == id@,
    {
        SearchDocId(id.to_owned())
    }

    /// The raw id string.
    pub fn id(&self) -> (r: &str)
        ensures
            r@ == self.0@,
    {
        self.0.as_str()
    }

    /// Copy with the same id.
    pub fn duplicate(&self) -> (r: SearchDocId)
        ensures
            r.0@ == self.0@,
    {
        SearchDocId(clone_string(&self.0))
    }
}

/// The composite key a document is stored under: `pk == sk ==
/// "document|{id}"`.
#[derive(Debug)]
pub struct DDBKey {
    pub pk: String,
    pub sk: String,
}

impl DDBKey {
    /// The key for a document id.
    pub fn for_doc(id: &SearchDocId) -> (r: DDBKey)
        ensures
            r.pk@ == "document|"@ + id.0@,
            r.sk@ == r.pk@,
    {
        let pk = str_concat("document|", id.0.as_str());
        let sk = clone_string(&pk);
        DDBKey { pk, sk }
    }
}

/// Digit character of `n < 10`.
pub open spec fn digit_char(n: int) -> char {
    if n == 0 {
        '0'
    } else if n == 1 {
        '1'
    } else if n == 2 {
        '2'
    } else if n == 3 {
        '3'
    } else if n == 4 {
        '4'
    } else if n == 5 {
        '5'
    } else if n == 6 {
        '6'
    } else if n == 7 {
        '7'
    } else if n == 8 {
        '8'
    } else {
        '9'
    }
}

/// Decimal characters of a non-negative integer.
pub open spec fn nat_chars(n: int) -> Seq<char>
    decreases n,
{
    if n < 10 {
        seq![digit_char(if n >= 0 { n } else { 0 })]
    } else {
        nat_chars(n / 10) + seq![digit_char(n % 10)]
    }
}

/// Decimal characters of an integer.
pub open spec fn int_chars(n: int) -> Seq<char> {
    if n < 0 {
        seq!['-'] + nat_chars(-n)
    } else {
        nat_chars(n)
    }
}

fn digit_string(d: u64) -> (r: String)
    requires
        d < 10,
    ensures
        r@ == seq![digit_char(d as int)],
{
    let s: String = if d == 0 {
        "0".to_owned()
    } else if d == 1 {
        "1".to_owned()
    } else if d == 2 {
        "2".to_owned()
    } else if d == 3 {
        "3".to_owned()
    } else if d == 4 {
        "4".to_owned()
    } else if d == 5 {
        "5".to_owned()
    } else if d == 6 {
        "6".to_owned()
    } else if d == 7 {
        "7".to_owned()
    } else if d == 8 {
        "8".to_owned()
    } else {
        "9".to_owned()
    };
    proof {
        reveal_strlit("0");
        reveal_strlit("1");
        reveal_strlit("2");
        reveal_strlit("3");
        reveal_strlit("4");
        reveal_strlit("5");
        reveal_strlit("6");
        reveal_strlit("7");
        reveal_strlit("8");
        reveal_strlit("9");
        assert(s@ =~= seq![digit_char(d as int)]);
    }
    s
}

fn nat_string(n: u64) -> (r: String)
    ensures
        r@ == nat_chars(n as int),
    decreases n,
{
    if n < 10 {
        digit_string(n)
    } else {
        let hi = nat_string(n / 10);
        let lo = digit_string(n % 10);
        let r = str_concat(hi.as_str(), lo.as_str());
        proof {
            assert(r@ =~= nat_chars(n as int));
        }
        r
    }
}

/// Renders an integer in decimal.
pub fn int_string(n: i64) -> (r: String)
    ensures
        r@ == int_chars(n as int),
{
    if n >= 0 {
        nat_string(n as u64)
    } else {
        let mag: u64 = if n == i64::MIN {
            9223372036854775808u64
        } else {
            (-n) as u64
        };
        proof {
            assert(mag as int == -(n as int));
        }
        let digits = nat_string(mag);
        let r = str_concat("-", digits.as_str());
        proof {
            reveal_strlit("-");
            assert(r@ =~= int_chars(n as int));
        }
        r
    }
}

/// Debug-style rendering of a JSON value inside a validation message.
pub open spec fn debug_jv(j: Jv) -> Seq<char> {
    match j {
        Jv::Null => "Null"@,
        Jv::Bool(b) => if b {
            "Bool(true)"@
        } else {
            "Bool(false)"@
        },
        Jv::Int(n) => "Number("@ + int_chars(n as int) + ")"@,
        Jv::Str(s) => "String(\""@ + s + "\")"@,
        Jv::Arr(_) => "Array"@,
        Jv::Obj(_) => "Object"@,
    }
}

fn render_debug(v: &JsonValue) -> (r: String)
    ensures
        r@ == debug_jv(jv_of(*v)),
{
    match v {
        JsonValue::Null => "Null".to_owned(),
        JsonValue::Bool(b) => if *b {
            "Bool(true)".to_owned()
        } else {
            "Bool(false)".to_owned()
        },
        JsonValue::Int(n) => {
            let digits = int_string(*n);
            let r = str_concat("Number(", digits.as_str());
            let r = str_concat(r.as_str(), ")");
            proof {
                assert(r@ =~= debug_jv(jv_of(*v)));
            }
            r
        },
        JsonValue::Str(s) => {
            let r = str_concat("String(\"", s.as_str());
            let r = str_concat(r.as_str(), "\")");
            proof {
                assert(r@ =~= debug_jv(jv_of(*v)));
            }
            r
        },
        JsonValue::Arr(_) => "Array".to_owned(),
        JsonValue::Obj(_) => "Object".to_owned(),
    }
}

/// What kind of value a field expects, as worded in messages.
pub open spec fn expected_of(kind: FieldKind) -> Seq<char> {
    match kind {
        FieldKind::Text => "a string"@,
        FieldKind::Date => "a date"@,
        FieldKind::Integer => "an integer"@,
        FieldKind::Json => "an object"@,
    }
}

fn expected_string(kind: FieldKind) -> (r: String)
    ensures
        r@ == expected_of(kind),
{
    match kind {
        FieldKind::Text => "a string".to_owned(),
        FieldKind::Date => "a date".to_owned(),
        FieldKind::Integer => "an integer".to_owned(),
        FieldKind::Json => "an object".to_owned(),
    }
}

/// The message of a field-type mismatch, naming the field.
pub open spec fn validation_message(name: Seq<char>, kind: FieldKind, j: Jv) -> Seq<char> {
    "The field '\""@ + name + "\"' could not be parsed: TypeError { expected: \""@ + expected_of(
        kind,
    ) + "\", json: "@ + debug_jv(j) + " }"@
}

fn build_validation_message(name: &str, kind: FieldKind, v: &JsonValue) -> (r: String)
    ensures
        r@ == validation_message(name@, kind, jv_of(*v)),
{
    let r = str_concat("The field '\"", name);
    let r = str_concat(r.as_str(), "\"' could not be parsed: TypeError { expected: \"");
    let e = expected_string(kind);
    let r = str_concat(r.as_str(), e.as_str());
    let r = str_concat(r.as_str(), "\", json: ");
    let d = render_debug(v);
    let r = str_concat(r.as_str(), d.as_str());
    let r = str_concat(r.as_str(), " }");
    proof {
        assert(r@ =~= validation_message(name@, kind, jv_of(*v)));
    }
    r
}

/// Whether a single (non-array) value fits a field kind.
pub open spec fn accepts_scalar(kind: FieldKind, j: Jv) -> bool {
    match kind {
        FieldKind::Text => j is Str,
        FieldKind::Date => j is Str,
        FieldKind::Integer => j is Int,
        FieldKind::Json => j is Obj,
    }
}

/// Whether a member value fits a field kind: the scalar form, or an array
/// of scalars.
pub open spec fn accepts_value(kind: FieldKind, j: Jv) -> bool {
    accepts_scalar(kind, j) || (j matches Jv::Arr(items) && (forall|i: int|
        0 <= i < items.len() ==> accepts_scalar(kind, #[trigger] items[i])))
}

/// How many field values a member contributes: array length, else one.
pub open spec fn value_count(j: Jv) -> int {
    match j {
        Jv::Arr(items) => items.len() as int,
        _ => 1,
    }
}

/// First member index at or after `i` with the given key.
pub open spec fn member_idx_from(ms: Seq<(Seq<char>, Jv)>, key: Seq<char>, i: int) -> int
    decreases ms.len() - i,
{
    if i < 0 || i >= ms.len() {
        ms.len() as int
    } else if ms[i].0 == key {
        i
    } else {
        member_idx_from(ms, key, i + 1)
    }
}

/// SchemaField values contributed by members `ms[i..]` that hit a schema field.
pub open spec fn counted_from(schema: Seq<FieldV>, ms: Seq<(Seq<char>, Jv)>, i: int) -> int
    decreases ms.len() - i,
{
    if i < 0 || i >= ms.len() {
        0
    } else {
        (if field_idx(schema, ms[i].0) < schema.len() {
            value_count(ms[i].1)
        } else {
            0
        }) + counted_from(schema, ms, i + 1)
    }
}

/// Outcome of validating a document.
pub enum ValidationV {
    NotObj,
    BadId,
    BadField(Seq<char>),
    Empty,
    Accepted { id: Seq<char>, content: Seq<(Seq<char>, Jv)> },
}

/// First schema mismatch among members `ms[i..]`, else the final
/// empty-or-accepted decision.
pub open spec fn check_fields(
    schema: Seq<FieldV>,
    ms: Seq<(Seq<char>, Jv)>,
    i: int,
    id: Seq<char>,
) -> ValidationV
    decreases ms.len() - i,
{
    if i < 0 || i >= ms.len() {
        if counted_from(schema, ms, 0) <= 1 {
            ValidationV::Empty
        } else {
            ValidationV::Accepted { id, content: ms }
        }
    } else {
        let f = field_idx(schema, ms[i].0);
        if f < schema.len() && !accepts_value(schema[f].kind, ms[i].1) {
            ValidationV::BadField(validation_message(ms[i].0, schema[f].kind, ms[i].1))
        } else {
            check_fields(schema, ms, i + 1, id)
        }
    }
}

/// The whole validation decision on a JSON value, with `gen_id` standing
/// for the id generated when the document carries none.
pub open spec fn validate_spec(schema: Seq<FieldV>, j: Jv, gen_id: Seq<char>) -> ValidationV {
    match j {
        Jv::Obj(ms) => {
            let idp = member_idx_from(ms, "__id"@, 0);
            if idp < ms.len() && !(ms[idp].1 is Str) {
                ValidationV::BadId
            } else if idp < ms.len() {
                check_fields(schema, ms, 0, ms[idp].1->Str_0)
            } else {
                check_fields(schema, ms.push(("__id"@, Jv::Str(gen_id))), 0, gen_id)
            }
        },
        _ => ValidationV::NotObj,
    }
}

/// A validated document: its id and its full JSON object, `__id` included.
#[derive(Debug)]
pub struct SearchDoc {
    pub id: SearchDocId,
    pub content: Vec<(String, JsonValue)>,
}

/// How an executable validation result realizes a spec outcome.
pub open spec fn result_matches(r: Result<SearchDoc, SearchDocError>, v: ValidationV) -> bool {
    match v {
        ValidationV::NotObj => r matches Err(SearchDocError::NotAnObject),
        ValidationV::BadId => r matches Err(SearchDocError::InvalidIdType),
        ValidationV::BadField(msg) => r matches Err(SearchDocError::SchemaValidationError(m))
            && m@ == msg,
        ValidationV::Empty => r matches Err(SearchDocError::EmptyDocument),
        ValidationV::Accepted { id, content } => r matches Ok(doc) && doc.id.0@ == id
            && jv_of_members(doc.content@) == content,
    }
}

fn accepts_scalar_exec(kind: FieldKind, v: &JsonValue) -> (r: bool)
    ensures
        r == accepts_scalar(kind, jv_of(*v)),
{
    match kind {
        FieldKind::Text => matches!(v, JsonValue::Str(_)),
        FieldKind::Date => matches!(v, JsonValue::Str(_)),
        FieldKind::Integer => matches!(v, JsonValue::Int(_)),
        FieldKind::Json => matches!(v, JsonValue::Obj(_)),
    }
}

#[verifier::loop_isolation(false)]
fn accepts_value_exec(kind: FieldKind, v: &JsonValue) -> (r: bool)
    ensures
        r == accepts_value(kind, jv_of(*v)),
{
    if accepts_scalar_exec(kind, v) {
        return true;
    }
    match v {
        JsonValue::Arr(items) => {
            proof {
                crate::json_data::lemma_jv_of_items(items@);
            }
            let mut i: usize = 0;
            while i < items.len()
                invariant
                    i <= items.len(),
                    forall|k: int| 0 <= k < i ==> accepts_scalar(
                        kind,
                        jv_of(#[trigger] items@[k]),
                    ),
                decreases items.len() - i,
            {
                if !accepts_scalar_exec(kind, &items[i]) {
                    proof {
                        assert(!accepts_scalar(kind, jv_of(*v)->Arr_0[i as int]));
                    }
                    return false;
                }
                i = i + 1;
            }
            proof {
                assert forall|k: int| 0 <= k < jv_of(*v)->Arr_0.len() implies accepts_scalar(
                    kind,
                    #[trigger] jv_of(*v)->Arr_0[k],
                ) by {
                    assert(jv_of(*v)->Arr_0[k] == jv_of(items@[k]));
                }
            }
            true
        },
        _ => false,
    }
}

/// First member with the given key, as an index.
#[verifier::loop_isolation(false)]
fn find_member(ms: &Vec<(String, JsonValue)>, key: &str) -> (r: usize)
    ensures
        r <= ms@.len(),
        r as int == member_idx_from(jv_of_members(ms@), key@, 0),
{
    proof {
        lemma_jv_of_members(ms@);
    }
    let mut i: usize = 0;
    while i < ms.len()
        invariant
            i <= ms@.len(),
            member_idx_from(jv_of_members(ms@), key@, 0) == member_idx_from(
                jv_of_members(ms@),
                key@,
                i as int,
            ),
        decreases ms@.len() - i,
    {
        if str_eq(ms[i].0.as_str(), key) {
            return i;
        }
        i = i + 1;
    }
    i
}

impl SearchDoc {
    /// Validates a JSON value against a schema, generating an id when the
    /// document carries none.  The outcome, error messages included, is
    /// exactly [`validate_spec`] for some generated 36-character id.
    #[verifier::loop_isolation(false)]
    pub fn from_json(schema: &IndexSchema, value: JsonValue) -> (r: Result<SearchDoc, SearchDocError>)
        ensures
            exists|g: Seq<char>|
                g.len() == 36 && #[trigger] result_matches(r, validate_spec(
                    schema@,
                    jv_of(value),
                    g,
                )),
    {
        let gen = crate::util::generate_id();
        let ghost g = gen@;
        let ghost outcome = validate_spec(schema@, jv_of(value), g);
        match value {
            JsonValue::Obj(mut ms) => {
                let ghost ms0 = jv_of_members(ms@);
                proof {
                    lemma_jv_of_members(ms@);
                    assert(jv_of(value) == Jv::Obj(ms0));
                }
                let idp = find_member(&ms, "__id");
                let id: SearchDocId;
                let ghost spec_id: Seq<char>;
                if idp < ms.len() {
                    match &ms[idp].1 {
                        JsonValue::Str(sv) => {
                            id = SearchDocId(clone_string(sv));
                            proof {
                                spec_id = ms0[idp as int].1->Str_0;
                                assert(outcome == check_fields(schema@, ms0, 0, spec_id));
                            }
                        },
                        _ => {
                            proof {
                                assert(!(ms0[idp as int].1 is Str));
                                assert(outcome == ValidationV::BadId);
                                assert(result_matches(
                                    Err::<SearchDoc, SearchDocError>(
                                        SearchDocError::InvalidIdType,
                                    ),
                                    outcome,
                                ));
                            }
                            return Err(SearchDocError::InvalidIdType);
                        },
                    }
                } else {
                    id = SearchDocId(clone_string(&gen));
                    let ghost pre = ms@;
                    ms.push(("__id".to_owned(), JsonValue::Str(clone_string(&gen))));
                    proof {
                        spec_id = g;
                        lemma_jv_of_members(ms@);
                        assert(ms@.subrange(0, ms@.len() - 1) =~= pre);
                        assert(jv_of_members(ms@) =~= ms0.push(("__id"@, Jv::Str(g))));
                        assert(outcome == check_fields(
                            schema@,
                            ms0.push(("__id"@, Jv::Str(g))),
                            0,
                            g,
                        ));
                    }
                }
                let ghost mv = jv_of_members(ms@);
                proof {
                    lemma_jv_of_members(ms@);
                    assert(outcome == check_fields(schema@, mv, 0, spec_id));
                    assert(id.0@ == spec_id);
                }
                // first schema mismatch, in member order
                let mut i: usize = 0;
                while i < ms.len()
                    invariant
                        i <= ms@.len(),
                        mv == jv_of_members(ms@),
                        outcome == check_fields(schema@, mv, i as int, spec_id),
                    decreases ms@.len() - i,
                {
                    match schema.find_field(ms[i].0.as_str()) {
                        Some(f) => {
                            if !accepts_value_exec(schema.fields[f].kind, &ms[i].1) {
                                let msg = build_validation_message(
                                    ms[i].0.as_str(),
                                    schema.fields[f].kind,
                                    &ms[i].1,
                                );
                                proof {
                                    assert(outcome == ValidationV::BadField(validation_message(
                                        mv[i as int].0,
                                        schema@[f as int].kind,
                                        mv[i as int].1,
                                    )));
                                    assert(result_matches(
                                        Err::<SearchDoc, SearchDocError>(
                                            SearchDocError::SchemaValidationError(msg),
                                        ),
                                        outcome,
                                    ));
                                }
                                return Err(SearchDocError::SchemaValidationError(msg));
                            }
                        },
                        None => {},
                    }
                    i = i + 1;
                }
                // count matched field values, capped at two
                proof {
                    lemma_counted_nonneg(schema@, mv, 0);
                }
                let mut counted: u64 = 0;
                let mut k: usize = 0;
                while k < ms.len()
                    invariant
                        k <= ms@.len(),
                        mv == jv_of_members(ms@),
                        counted <= 2,
                        counted as int == if counted_from(schema@, mv, 0) - counted_from(
                            schema@,
                            mv,
                            k as int,
                        ) <= 2 {
                            counted_from(schema@, mv, 0) - counted_from(schema@, mv, k as int)
                        } else {
                            2int
                        },
                    decreases ms@.len() - k,
                {
                    proof {
                        lemma_counted_nonneg(schema@, mv, k as int);
                        lemma_counted_nonneg(schema@, mv, k + 1);
                    }
                    match schema.find_field(ms[k].0.as_str()) {
                        Some(_) => {
                            let add: u64;
                            match &ms[k].1 {
                                JsonValue::Arr(items) => {
                                    proof {
                                        crate::json_data::lemma_jv_of_items(items@);
                                        assert(value_count(mv[k as int].1) == items@.len());
                                    }
                                    if items.len() >= 2 {
                                        add = 2;
                                    } else {
                                        add = items.len() as u64;
                                    }
                                },
                                _ => {
                                    proof {
                                        assert(value_count(mv[k as int].1) == 1);
                                    }
                                    add = 1;
                                },
                            }
                            proof {
                                assert(add as int == if value_count(mv[k as int].1) <= 2 {
                                    value_count(mv[k as int].1)
                                } else {
                                    2int
                                });
                            }
                            if counted + add >= 2 {
                                counted = 2;
                            } else {
                                counted = counted + add;
                            }
                        },
                        None => {},
                    }
                    k = k + 1;
                }
                if counted <= 1 {
                    proof {
                        assert(outcome == ValidationV::Empty);
                        assert(result_matches(
                            Err::<SearchDoc, SearchDocError>(SearchDocError::EmptyDocument),
                            outcome,
                        ));
                    }
                    return Err(SearchDocError::EmptyDocument);
                }
                let doc = SearchDoc { id, content: ms };
                proof {
                    assert(outcome == (ValidationV::Accepted { id: spec_id, content: mv }));
                    assert(result_matches(Ok::<SearchDoc, SearchDocError>(doc), outcome));
                }
                Ok(doc)
            },
            _ => {
                proof {
                    assert(result_matches(
                        Err::<SearchDoc, SearchDocError>(SearchDocError::NotAnObject),
                        outcome,
                    ));
                }
                Err(SearchDocError::NotAnObject)
            },
        }
    }

    /// The document's id.
    pub fn id(&self) -> (r: &SearchDocId)
        ensures
            r == &self.id,
    {
        &self.id
    }
}

/// Member counts are non-negative.
proof fn lemma_counted_nonneg(schema: Seq<FieldV>, ms: Seq<(Seq<char>, Jv)>, i: int)
    ensures
        counted_from(schema, ms, i) >= 0,
    decreases ms.len() - i,
{
    if 0 <= i < ms.len() {
        lemma_counted_nonneg(schema, ms, i + 1);
    }
}

} // verus!
