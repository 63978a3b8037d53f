//! Document validation tests.

use pathery::json_data::JsonValue;
use pathery::schema::{FieldKind, IndexSchema, SchemaField};
use pathery::search_doc::{SearchDoc, SearchDocError, SearchDocId, DDBKey};

fn raw_text_field(name: &str, stored: bool) -> SchemaField {
    SchemaField {
        name: name.to_string(),
        kind: FieldKind::Text,
        tokenized: false,
        raw: true,
        fast: false,
        indexed: true,
        stored,
    }
}

fn setup() -> IndexSchema {
    IndexSchema { fields: vec![raw_text_field("__id", true), raw_text_field("name", false)] }
}

fn obj(members: Vec<(&str, JsonValue)>) -> JsonValue {
    JsonValue::Obj(members.into_iter().map(|(k, v)| (k.to_string(), v)).collect())
}

#[test]
fn from_json_generates_id() {
    let schema = setup();
    let value = obj(vec![("name", JsonValue::Str("world".to_string()))]);

    let search_doc = SearchDoc::from_json(&schema, value).unwrap();

    assert!(search_doc.id.0.len() > 0);
}

#[test]
fn from_json_uses_id_when_exists() {
    let schema = setup();
    let id = pathery::util::generate_id();
    let value = obj(vec![
        ("__id", JsonValue::Str(id.clone())),
        ("name", JsonValue::Str("world".to_string())),
    ]);

    let search_doc = SearchDoc::from_json(&schema, value).unwrap();

    assert_eq!(id, search_doc.id.0);
}

#[test]
fn from_json_returns_validation_error_when_schema_does_not_match() {
    let schema = setup();
    let value = obj(vec![("name", JsonValue::Int(1234))]);

    let search_doc = SearchDoc::from_json(&schema, value).unwrap_err();

    assert_eq!(
        SearchDocError::SchemaValidationError(
            "The field '\"name\"' could not be parsed: TypeError { expected: \"a string\", \
             json: Number(1234) }"
                .into()
        ),
        search_doc,
    );
}

#[test]
fn from_json_rejects_non_objects() {
    let schema = setup();
    let err = SearchDoc::from_json(&schema, JsonValue::Arr(Vec::new())).unwrap_err();
    assert_eq!(err, SearchDocError::NotAnObject);
    let err = SearchDoc::from_json(&schema, JsonValue::Int(7)).unwrap_err();
    assert_eq!(err, SearchDocError::NotAnObject);
}

#[test]
fn from_json_rejects_non_string_ids() {
    let schema = setup();
    let value = obj(vec![
        ("__id", JsonValue::Int(9)),
        ("name", JsonValue::Str("world".to_string())),
    ]);
    let err = SearchDoc::from_json(&schema, value).unwrap_err();
    assert_eq!(err, SearchDocError::InvalidIdType);
}

#[test]
fn from_json_rejects_documents_with_no_schema_fields() {
    let schema = setup();
    let value = obj(vec![("unrelated", JsonValue::Str("x".to_string()))]);
    let err = SearchDoc::from_json(&schema, value).unwrap_err();
    assert_eq!(err, SearchDocError::EmptyDocument);
}

#[test]
fn from_json_keeps_unknown_members_in_content() {
    let schema = setup();
    let value = obj(vec![
        ("name", JsonValue::Str("world".to_string())),
        ("unrelated", JsonValue::Str("kept".to_string())),
    ]);
    let doc = SearchDoc::from_json(&schema, value).unwrap();
    assert!(doc.content.iter().any(|(k, _)| k == "unrelated"));
}

#[test]
fn document_store_keys_are_namespaced() {
    let id = SearchDocId::parse("abc-123");
    assert_eq!(id.id(), "abc-123");
    let key = DDBKey::for_doc(&id);
    assert_eq!(key.pk, "document|abc-123");
    assert_eq!(key.sk, "document|abc-123");
}
