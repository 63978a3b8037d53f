//! IndexSchema registry: resolves an index id to a typed field schema.
//!
//! Matching picks the configuration with the longest prefix of the index id
//! (first among equals).  The mandatory `__id` field is appended to every
//! loaded schema; a configuration with duplicate field names is rejected.

use vstd::prelude::*;

use crate::service::ServiceError;
use crate::text::clone_string;
use crate::text::str_concat;

verus! {

use vstd::string::StringSliceAdditionalSpecFns;

/// Flags a text field may carry.
#[derive(Clone, Copy, PartialEq, Eq, Structural)]
pub enum TextFieldOption {
    TEXT,
    STRING,
    FAST,
}

/// Flags an integer-backed field may carry.
#[derive(Clone, Copy, PartialEq, Eq, Structural)]
pub enum NumericFieldOption {
    INDEXED,
    FAST,
}

/// Flags a json field may carry.
#[derive(Clone, Copy, PartialEq, Eq, Structural)]
pub enum JsonFieldOption {
    TEXT,
}

/// One configured field: name, kind, and flags.
pub enum FieldConfig {
    TextFieldConfig { name: String, flags: Vec<TextFieldOption> },
    DateFieldConfig { name: String, flags: Vec<NumericFieldOption> },
    IntegerFieldConfig { name: String, flags: Vec<NumericFieldOption> },
    JsonFieldConfig { name: String, flags: Vec<JsonFieldOption> },
}

impl FieldConfig {
    /// The configured field name.
    pub open spec fn spec_name(&self) -> Seq<char> {
        match self {
            FieldConfig::TextFieldConfig { name, .. } => name@,
            FieldConfig::DateFieldConfig { name, .. } => name@,
            FieldConfig::IntegerFieldConfig { name, .. } => name@,
            FieldConfig::JsonFieldConfig { name, .. } => name@,
        }
    }

    pub fn name(&self) -> (r: &String)
        ensures
            r@ == self.spec_name(),
    {
        match self {
            FieldConfig::TextFieldConfig { name, .. } => name,
            FieldConfig::DateFieldConfig { name, .. } => name,
            FieldConfig::IntegerFieldConfig { name, .. } => name,
            FieldConfig::JsonFieldConfig { name, .. } => name,
        }
    }
}

/// One schema configuration: an index-id prefix and its fields.
pub struct IndexConfig {
    pub prefix: String,
    pub fields: Vec<FieldConfig>,
}

/// The whole schema configuration.
pub struct PatheryConfig {
    pub indexes: Vec<IndexConfig>,
}

/// Kinds a loaded schema field can have.
#[derive(Clone, Copy, PartialEq, Eq, Structural)]
pub enum FieldKind {
    Text,
    Date,
    Integer,
    Json,
}

/// One loaded schema field with its resolved flags.
pub struct SchemaField {
    pub name: String,
    pub kind: FieldKind,
    /// Tokenized text indexing (the `TEXT` flag).
    pub tokenized: bool,
    /// Raw (untokenized) text indexing (the `STRING` flag).
    pub raw: bool,
    pub fast: bool,
    /// Indexed at all: either text flag for text kinds, `INDEXED` otherwise.
    pub indexed: bool,
    pub stored: bool,
}

/// A loaded schema: the configured fields plus the mandatory `__id`.
pub struct IndexSchema {
    pub fields: Vec<SchemaField>,
}

/// Mathematical model of a loaded schema field.
pub struct FieldV {
    pub name: Seq<char>,
    pub kind: FieldKind,
    pub tokenized: bool,
    pub raw: bool,
    pub fast: bool,
    pub indexed: bool,
    pub stored: bool,
}

impl View for SchemaField {
    type V = FieldV;

    open spec fn view(&self) -> FieldV {
        FieldV {
            name: self.name@,
            kind: self.kind,
            tokenized: self.tokenized,
            raw: self.raw,
            fast: self.fast,
            indexed: self.indexed,
            stored: self.stored,
        }
    }
}

/// The resolved form of one configured field: text kinds are indexed when
/// they carry a text flag, numeric kinds when they carry `INDEXED`;
/// configured fields are never stored.
pub open spec fn field_of_config(c: FieldConfig) -> FieldV {
    match c {
        FieldConfig::TextFieldConfig { name, flags } => {
            let tokenized = flags@.contains(TextFieldOption::TEXT);
            let raw = flags@.contains(TextFieldOption::STRING);
            FieldV {
                name: name@,
                kind: FieldKind::Text,
                tokenized,
                raw,
                fast: flags@.contains(TextFieldOption::FAST),
                indexed: tokenized || raw,
                stored: false,
            }
        },
        FieldConfig::DateFieldConfig { name, flags } => FieldV {
            name: name@,
            kind: FieldKind::Date,
            tokenized: false,
            raw: false,
            fast: flags@.contains(NumericFieldOption::FAST),
            indexed: flags@.contains(NumericFieldOption::INDEXED),
            stored: false,
        },
        FieldConfig::IntegerFieldConfig { name, flags } => FieldV {
            name: name@,
            kind: FieldKind::Integer,
            tokenized: false,
            raw: false,
            fast: flags@.contains(NumericFieldOption::FAST),
            indexed: flags@.contains(NumericFieldOption::INDEXED),
            stored: false,
        },
        FieldConfig::JsonFieldConfig { name, flags } => {
            let tokenized = flags@.contains(JsonFieldOption::TEXT);
            FieldV {
                name: name@,
                kind: FieldKind::Json,
                tokenized,
                raw: false,
                fast: false,
                indexed: tokenized,
                stored: false,
            }
        },
    }
}

/// The mandatory system field: `__id`, raw text, stored.
pub open spec fn id_field_v() -> FieldV {
    FieldV {
        name: "__id"@,
        kind: FieldKind::Text,
        tokenized: false,
        raw: true,
        fast: false,
        indexed: true,
        stored: true,
    }
}

/// A configuration has a duplicate name when two fields share one or a
/// field claims the system name `__id`.
pub open spec fn has_dup_names(fields: Seq<FieldConfig>) -> bool {
    (exists|i: int, j: int|
        0 <= i < j < fields.len() && (#[trigger] fields[i]).spec_name() == (
        #[trigger] fields[j]).spec_name()) || (exists|i: int|
        0 <= i < fields.len() && (#[trigger] fields[i]).spec_name() == "__id"@)
}

/// Whether `pre` is a byte-prefix of `s`.
pub open spec fn is_prefix_of(pre: Seq<u8>, s: Seq<u8>) -> bool {
    pre.len() <= s.len() && s.subrange(0, pre.len() as int) == pre
}

/// Byte-level starts-with on strings.
pub fn starts_with(s: &str, pre: &str) -> (r: bool)
    ensures
        r == is_prefix_of(pre.spec_bytes(), s.spec_bytes()),
{
    let sb = s.as_bytes();
    let pb = pre.as_bytes();
    if pb.len() > sb.len() {
        return false;
    }
    let mut i: usize = 0;
    while i < pb.len()
        invariant
            i <= pb.len() <= sb.len(),
            sb@ == s.spec_bytes(),
            pb@ == pre.spec_bytes(),
            forall|t: int| 0 <= t < i ==> sb@[t] == pb@[t],
        decreases pb.len() - i,
    {
        if sb[i] != pb[i] {
            proof {
                assert(s.spec_bytes().subrange(0, pb@.len() as int)[i as int] != pb@[i as int]);
            }
            return false;
        }
        i = i + 1;
    }
    proof {
        assert(s.spec_bytes().subrange(0, pb@.len() as int) =~= pb@);
    }
    true
}

/// Index of the configuration with the longest prefix of `id`, first among
/// equals; negative when none matches.
pub open spec fn best_match(configs: Seq<IndexConfig>, id: Seq<u8>) -> int
    decreases configs.len(),
{
    if configs.len() == 0 {
        -1
    } else {
        let rest = best_match(configs.drop_last(), id);
        let last = configs.len() - 1;
        if is_prefix_of(vstd::utf8::encode_utf8(configs.last().prefix@), id) {
            if rest >= 0 && vstd::utf8::encode_utf8(configs[rest].prefix@).len()
                >= vstd::utf8::encode_utf8(configs.last().prefix@).len() {
                rest
            } else {
                last
            }
        } else {
            rest
        }
    }
}

/// Provider holding the parsed configuration.
pub struct SchemaProvider {
    pub config: PatheryConfig,
}

/// The models of a schema's fields, in order.
pub open spec fn schema_views(fields: Seq<SchemaField>) -> Seq<FieldV> {
    Seq::new(fields.len(), |i: int| fields[i]@)
}

impl View for IndexSchema {
    type V = Seq<FieldV>;

    open spec fn view(&self) -> Seq<FieldV> {
        schema_views(self.fields@)
    }
}

/// First index at or after `i` of the field named `name`; `fields.len()`
/// when there is none.
pub open spec fn field_idx_from(fields: Seq<FieldV>, name: Seq<char>, i: int) -> int
    decreases fields.len() - i,
{
    if i < 0 || i >= fields.len() {
        fields.len() as int
    } else if fields[i].name == name {
        i
    } else {
        field_idx_from(fields, name, i + 1)
    }
}

/// First index of the field named `name`, or the field count when absent.
pub open spec fn field_idx(fields: Seq<FieldV>, name: Seq<char>) -> int {
    field_idx_from(fields, name, 0)
}

impl IndexSchema {
    /// Looks up a field by name; yields its index.
    pub fn find_field(&self, name: &str) -> (r: Option<usize>)
        ensures
            match r {
                Some(i) => i < self.fields@.len() && field_idx(self@, name@) == i,
                None => field_idx(self@, name@) == self@.len(),
            },
    {
        let mut i: usize = 0;
        while i < self.fields.len()
            invariant
                i <= self.fields.len(),
                field_idx(self@, name@) == field_idx_from(self@, name@, i as int),
            decreases self.fields.len() - i,
        {
            if crate::text::str_eq(self.fields[i].name.as_str(), name) {
                return Some(i);
            }
            i = i + 1;
        }
        None
    }
}

fn has_text_flag(flags: &Vec<TextFieldOption>, o: TextFieldOption) -> (r: bool)
    ensures
        r == flags@.contains(o),
{
    let mut i: usize = 0;
    while i < flags.len()
        invariant
            i <= flags.len(),
            forall|k: int| 0 <= k < i ==> flags@[k] != o,
        decreases flags.len() - i,
    {
        if flags[i] == o {
            return true;
        }
        i = i + 1;
    }
    false
}

fn has_numeric_flag(flags: &Vec<NumericFieldOption>, o: NumericFieldOption) -> (r: bool)
    ensures
        r == flags@.contains(o),
{
    let mut i: usize = 0;
    while i < flags.len()
        invariant
            i <= flags.len(),
            forall|k: int| 0 <= k < i ==> flags@[k] != o,
        decreases flags.len() - i,
    {
        if flags[i] == o {
            return true;
        }
        i = i + 1;
    }
    false
}

fn has_json_flag(flags: &Vec<JsonFieldOption>, o: JsonFieldOption) -> (r: bool)
    ensures
        r == flags@.contains(o),
{
    let mut i: usize = 0;
    while i < flags.len()
        invariant
            i <= flags.len(),
            forall|k: int| 0 <= k < i ==> flags@[k] != o,
        decreases flags.len() - i,
    {
        if flags[i] == o {
            return true;
        }
        i = i + 1;
    }
    false
}

/// Resolves one configured field to its loaded form.
fn resolve_field(c: &FieldConfig) -> (r: SchemaField)
    ensures
        r@ == field_of_config(*c),
{
    match c {
        FieldConfig::TextFieldConfig { name, flags } => {
            let tokenized = has_text_flag(flags, TextFieldOption::TEXT);
            let raw = has_text_flag(flags, TextFieldOption::STRING);
            SchemaField {
                name: clone_string(name),
                kind: FieldKind::Text,
                tokenized,
                raw,
                fast: has_text_flag(flags, TextFieldOption::FAST),
                indexed: tokenized || raw,
                stored: false,
            }
        },
        FieldConfig::DateFieldConfig { name, flags } => SchemaField {
            name: clone_string(name),
            kind: FieldKind::Date,
            tokenized: false,
            raw: false,
            fast: has_numeric_flag(flags, NumericFieldOption::FAST),
            indexed: has_numeric_flag(flags, NumericFieldOption::INDEXED),
            stored: false,
        },
        FieldConfig::IntegerFieldConfig { name, flags } => SchemaField {
            name: clone_string(name),
            kind: FieldKind::Integer,
            tokenized: false,
            raw: false,
            fast: has_numeric_flag(flags, NumericFieldOption::FAST),
            indexed: has_numeric_flag(flags, NumericFieldOption::INDEXED),
            stored: false,
        },
        FieldConfig::JsonFieldConfig { name, flags } => {
            let tokenized = has_json_flag(flags, JsonFieldOption::TEXT);
            SchemaField {
                name: clone_string(name),
                kind: FieldKind::Json,
                tokenized,
                raw: false,
                fast: false,
                indexed: tokenized,
                stored: false,
            }
        },
    }
}

impl SchemaProvider {
    /// Resolves `index_id` to its schema: the fields of the configuration
    /// with the longest matching prefix, resolved in order, with the
    /// mandatory `__id` field appended.  Yields `NotFound` when no prefix
    /// matches and an internal error when the chosen configuration repeats
    /// a field name.
    #[verifier::loop_isolation(false)]
    pub fn load_schema(&self, index_id: &str) -> (r: Result<IndexSchema, ServiceError>)
        ensures
            ({
                let best = best_match(self.config.indexes@, index_id.spec_bytes());
                &&& best < 0 ==> (r matches Err(e) && e matches ServiceError::NotFound(m) && m@
                    == "Schema for index ["@ + index_id@ + "] not found"@)
                &&& best >= 0 && has_dup_names(self.config.indexes@[best].fields@) ==> (r
                    matches Err(e) && e is InternalError)
                &&& best >= 0 && !has_dup_names(self.config.indexes@[best].fields@) ==> (r
                    matches Ok(sc) && {
                    let cf = self.config.indexes@[best].fields@;
                    &&& sc@.len() == cf.len() + 1
                    &&& forall|i: int| 0 <= i < cf.len() ==> sc@[i] == field_of_config(cf[i])
                    &&& sc@[cf.len() as int] == id_field_v()
                })
            }),
    {
        let ghost all = self.config.indexes@;
        let mut best: usize = 0;
        let mut found: bool = false;
        let mut i: usize = 0;
        while i < self.config.indexes.len()
            invariant
                i <= all.len(),
                ({
                    let b = best_match(all.subrange(0, i as int), index_id.spec_bytes());
                    if found {
                        b == best && best < i
                    } else {
                        b < 0
                    }
                }),
            decreases self.config.indexes.len() - i,
        {
            proof {
                assert(all.subrange(0, i + 1 as int).drop_last() =~= all.subrange(0, i as int));
                assert(all.subrange(0, i + 1 as int).last() == all[i as int]);
            }
            if starts_with(index_id, self.config.indexes[i].prefix.as_str()) {
                if found {
                    let bl = self.config.indexes[best].prefix.as_str().as_bytes().len();
                    let cl = self.config.indexes[i].prefix.as_str().as_bytes().len();
                    if !(bl >= cl) {
                        best = i;
                    }
                } else {
                    best = i;
                    found = true;
                }
            }
            i = i + 1;
        }
        proof {
            assert(all.subrange(0, all.len() as int) =~= all);
        }
        if !found {
            let m = str_concat("Schema for index [", index_id);
            let m = str_concat(m.as_str(), "] not found");
            return Err(ServiceError::NotFound(m));
        }
        let cfg_fields = &self.config.indexes[best].fields;
        // reject duplicate names, and names claiming the system field
        let mut a: usize = 0;
        while a < cfg_fields.len()
            invariant
                a <= cfg_fields@.len(),
                forall|x: int, y: int|
                    0 <= x < y < a ==> (#[trigger] cfg_fields@[x]).spec_name() != (
                    #[trigger] cfg_fields@[y]).spec_name(),
                forall|x: int| 0 <= x < a ==> (#[trigger] cfg_fields@[x]).spec_name() != "__id"@,
            decreases cfg_fields.len() - a,
        {
            if crate::text::str_eq(cfg_fields[a].name().as_str(), "__id") {
                return Err(ServiceError::internal_error("duplicate field name in configuration"));
            }
            let mut bn: usize = 0;
            while bn < a
                invariant
                    bn <= a < cfg_fields@.len(),
                    forall|y: int| 0 <= y < bn ==> (#[trigger] cfg_fields@[y]).spec_name()
                        != cfg_fields@[a as int].spec_name(),
                decreases a - bn,
            {
                if crate::text::str_eq(cfg_fields[bn].name().as_str(), cfg_fields[a].name().as_str()) {
                    return Err(
                        ServiceError::internal_error("duplicate field name in configuration"),
                    );
                }
                bn = bn + 1;
            }
            a = a + 1;
        }
        let mut fields: Vec<SchemaField> = Vec::new();
        let mut k: usize = 0;
        while k < cfg_fields.len()
            invariant
                k <= cfg_fields@.len(),
                fields@.len() == k,
                forall|x: int| 0 <= x < k ==> (#[trigger] fields@[x])@ == field_of_config(
                    cfg_fields@[x],
                ),
            decreases cfg_fields.len() - k,
        {
            let f = resolve_field(&cfg_fields[k]);
            fields.push(f);
            k = k + 1;
        }
        fields.push(
            SchemaField {
                name: "__id".to_owned(),
                kind: FieldKind::Text,
                tokenized: false,
                raw: true,
                fast: false,
                indexed: true,
                stored: true,
            },
        );
        let sc = IndexSchema { fields };
        Ok(sc)
    }
}

impl SchemaField {
    /// Copy with the same model.
    pub fn duplicate(&self) -> (r: SchemaField)
        ensures
            r@ == self@,
    {
        SchemaField {
            name: clone_string(&self.name),
            kind: self.kind,
            tokenized: self.tokenized,
            raw: self.raw,
            fast: self.fast,
            indexed: self.indexed,
            stored: self.stored,
        }
    }
}

impl IndexSchema {
    /// Copy with the same model.
    pub fn duplicate(&self) -> (r: IndexSchema)
        ensures
            r@ == self@,
    {
        let mut fields: Vec<SchemaField> = Vec::new();
        let mut i: usize = 0;
        while i < self.fields.len()
            invariant
                i <= self.fields.len(),
                fields@.len() == i,
                forall|k: int| 0 <= k < i ==> (#[trigger] fields@[k])@ == self.fields@[k]@,
            decreases self.fields.len() - i,
        {
            let f = self.fields[i].duplicate();
            fields.push(f);
            i = i + 1;
        }
        let r = IndexSchema { fields };
        proof {
            assert(r@ =~= self@);
        }
        r
    }
}

fn text_flag_from_json(v: &crate::json_data::JsonValue) -> (r: Option<TextFieldOption>) {
    match v {
        crate::json_data::JsonValue::Str(s) => {
            if crate::text::str_eq(s.as_str(), "TEXT") {
                Some(TextFieldOption::TEXT)
            } else if crate::text::str_eq(s.as_str(), "STRING") {
                Some(TextFieldOption::STRING)
            } else if crate::text::str_eq(s.as_str(), "FAST") {
                Some(TextFieldOption::FAST)
            } else {
                None
            }
        },
        _ => None,
    }
}

fn numeric_flag_from_json(v: &crate::json_data::JsonValue) -> (r: Option<NumericFieldOption>) {
    match v {
        crate::json_data::JsonValue::Str(s) => {
            if crate::text::str_eq(s.as_str(), "INDEXED") {
                Some(NumericFieldOption::INDEXED)
            } else if crate::text::str_eq(s.as_str(), "FAST") {
                Some(NumericFieldOption::FAST)
            } else {
                None
            }
        },
        _ => None,
    }
}

fn json_flag_from_json(v: &crate::json_data::JsonValue) -> (r: Option<JsonFieldOption>) {
    match v {
        crate::json_data::JsonValue::Str(s) => {
            if crate::text::str_eq(s.as_str(), "TEXT") {
                Some(JsonFieldOption::TEXT)
            } else {
                None
            }
        },
        _ => None,
    }
}

/// A member's value by key, when the value is of the expected shapes.
fn member_value<'a>(
    ms: &'a Vec<(String, crate::json_data::JsonValue)>,
    key: &str,
) -> (r: Option<&'a crate::json_data::JsonValue>) {
    let mut i: usize = 0;
    while i < ms.len()
        decreases ms@.len() - i,
    {
        if crate::text::str_eq(ms[i].0.as_str(), key) {
            return Some(&ms[i].1);
        }
        i = i + 1;
    }
    None
}

/// Decodes one configured field from `{name, kind, flags}`.
fn field_config_from_json(v: &crate::json_data::JsonValue) -> (r: Option<FieldConfig>) {
    match v {
        crate::json_data::JsonValue::Obj(ms) => {
            let name: String;
            match member_value(ms, "name") {
                Some(crate::json_data::JsonValue::Str(s)) => {
                    name = crate::text::clone_string(s);
                },
                _ => {
                    return None;
                },
            }
            let kind: String;
            match member_value(ms, "kind") {
                Some(crate::json_data::JsonValue::Str(s)) => {
                    kind = crate::text::clone_string(s);
                },
                _ => {
                    return None;
                },
            }
            let flags_json: &Vec<crate::json_data::JsonValue>;
            match member_value(ms, "flags") {
                Some(crate::json_data::JsonValue::Arr(items)) => {
                    flags_json = items;
                },
                _ => {
                    return None;
                },
            }
            if crate::text::str_eq(kind.as_str(), "text") {
                let mut flags: Vec<TextFieldOption> = Vec::new();
                let mut i: usize = 0;
                while i < flags_json.len()
                    decreases flags_json@.len() - i,
                {
                    match text_flag_from_json(&flags_json[i]) {
                        Some(f) => {
                            flags.push(f);
                        },
                        None => {
                            return None;
                        },
                    }
                    i = i + 1;
                }
                Some(FieldConfig::TextFieldConfig { name, flags })
            } else if crate::text::str_eq(kind.as_str(), "date") || crate::text::str_eq(
                kind.as_str(),
                "i64",
            ) {
                let is_date = crate::text::str_eq(kind.as_str(), "date");
                let mut flags: Vec<NumericFieldOption> = Vec::new();
                let mut i: usize = 0;
                while i < flags_json.len()
                    decreases flags_json@.len() - i,
                {
                    match numeric_flag_from_json(&flags_json[i]) {
                        Some(f) => {
                            flags.push(f);
                        },
                        None => {
                            return None;
                        },
                    }
                    i = i + 1;
                }
                if is_date {
                    Some(FieldConfig::DateFieldConfig { name, flags })
                } else {
                    Some(FieldConfig::IntegerFieldConfig { name, flags })
                }
            } else if crate::text::str_eq(kind.as_str(), "json") {
                let mut flags: Vec<JsonFieldOption> = Vec::new();
                let mut i: usize = 0;
                while i < flags_json.len()
                    decreases flags_json@.len() - i,
                {
                    match json_flag_from_json(&flags_json[i]) {
                        Some(f) => {
                            flags.push(f);
                        },
                        None => {
                            return None;
                        },
                    }
                    i = i + 1;
                }
                Some(FieldConfig::JsonFieldConfig { name, flags })
            } else {
                None
            }
        },
        _ => None,
    }
}

/// Decodes the whole schema configuration from
/// `{"indexes": [{"prefix", "fields": [...]}, ...]}`: the form the
/// configuration file carries.
pub fn config_from_json(v: &crate::json_data::JsonValue) -> (r: Option<PatheryConfig>)
    ensures
        r matches Some(c) ==> v matches crate::json_data::JsonValue::Obj(_),
{
    match v {
        crate::json_data::JsonValue::Obj(ms) => {
            match member_value(ms, "indexes") {
                Some(crate::json_data::JsonValue::Arr(items)) => {
                    let mut indexes: Vec<IndexConfig> = Vec::new();
                    let mut i: usize = 0;
                    while i < items.len()
                        decreases items@.len() - i,
                    {
                        match &items[i] {
                            crate::json_data::JsonValue::Obj(cm) => {
                                let prefix: String;
                                match member_value(cm, "prefix") {
                                    Some(crate::json_data::JsonValue::Str(s)) => {
                                        prefix = crate::text::clone_string(s);
                                    },
                                    _ => {
                                        return None;
                                    },
                                }
                                let mut fields: Vec<FieldConfig> = Vec::new();
                                match member_value(cm, "fields") {
                                    Some(crate::json_data::JsonValue::Arr(fs)) => {
                                        let mut j: usize = 0;
                                        while j < fs.len()
                                            decreases fs@.len() - j,
                                        {
                                            match field_config_from_json(&fs[j]) {
                                                Some(f) => {
                                                    fields.push(f);
                                                },
                                                None => {
                                                    return None;
                                                },
                                            }
                                            j = j + 1;
                                        }
                                    },
                                    _ => {
                                        return None;
                                    },
                                }
                                indexes.push(IndexConfig { prefix, fields });
                            },
                            _ => {
                                return None;
                            },
                        }
                        i = i + 1;
                    }
                    Some(PatheryConfig { indexes })
                },
                _ => None,
            }
        },
        _ => None,
    }
}

} // verus!
