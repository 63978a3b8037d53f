//! Service-level tests: the add, query and worker paths composed.

use pathery::coordinator::QueryRequest;
use pathery::json_data::JsonValue;
use pathery::schema::{
    FieldConfig, IndexConfig, NumericFieldOption, PatheryConfig, SchemaProvider, TextFieldOption,
};
use pathery::service::ServiceError;
use pathery::service_index::SearchService;
use pathery::schema::{FieldKind, IndexSchema, SchemaField};
use pathery::store::MemDocumentStore;
use pathery::worker::index_writer::{handle_event, index_doc, EngineIndex, MemIndexRegistry};
use pathery::worker::job::Job;

fn obj(members: Vec<(&str, JsonValue)>) -> JsonValue {
    JsonValue::Obj(members.into_iter().map(|(k, v)| (k.to_string(), v)).collect())
}

fn s(v: &str) -> JsonValue {
    JsonValue::Str(v.to_string())
}

fn test_provider() -> SchemaProvider {
    SchemaProvider {
        config: PatheryConfig {
            indexes: vec![IndexConfig {
                prefix: "test".to_string(),
                fields: vec![
                    FieldConfig::TextFieldConfig {
                        name: "title".to_string(),
                        flags: vec![TextFieldOption::TEXT],
                    },
                    FieldConfig::TextFieldConfig {
                        name: "author".to_string(),
                        flags: vec![TextFieldOption::TEXT],
                    },
                    FieldConfig::TextFieldConfig {
                        name: "isbn".to_string(),
                        flags: vec![TextFieldOption::STRING],
                    },
                    FieldConfig::DateFieldConfig {
                        name: "date_added".to_string(),
                        flags: vec![NumericFieldOption::INDEXED, NumericFieldOption::FAST],
                    },
                    FieldConfig::TextFieldConfig { name: "meta".to_string(), flags: vec![] },
                    FieldConfig::IntegerFieldConfig {
                        name: "year".to_string(),
                        flags: vec![NumericFieldOption::INDEXED],
                    },
                    FieldConfig::JsonFieldConfig {
                        name: "props".to_string(),
                        flags: vec![pathery::schema::JsonFieldOption::TEXT],
                    },
                ],
            }],
        },
    }
}

fn test_service() -> SearchService {
    SearchService::create(test_provider())
}

#[test]
fn post_index_post_index_doc_with_no_id() {
    let mut service = test_service();

    let doc = obj(vec![
        ("title", s("Zen and the Art of Motorcycle Maintenance")),
        ("author", s("Robert Pirsig")),
        ("date_added", s("2022-11-23T18:24:40Z")),
        ("isbn", s("0060589469")),
    ]);

    service.post_index("test", doc).unwrap();
}

#[test]
fn post_index_post_index_non_object() {
    let mut service = test_service();

    let doc = JsonValue::Arr(Vec::new());

    let response = service.post_index("test", doc).unwrap_err();

    assert_eq!(
        ServiceError::InvalidRequest("json value is not an object".to_string()),
        response
    );
}

#[test]
fn post_index_value_that_does_not_match_schema() {
    let mut service = test_service();

    let doc = obj(vec![("title", JsonValue::Int(1))]);

    let response = service.post_index("test", doc).unwrap_err();

    assert_eq!(
        ServiceError::InvalidRequest(
            "The field '\"title\"' could not be parsed: TypeError { expected: \"a string\", \
             json: Number(1) }"
                .to_string()
        ),
        response
    );
}

#[test]
fn post_index_post_index_field_that_does_not_exist() {
    let mut service = test_service();

    let doc = obj(vec![("foobar", s("baz"))]);

    let response = service.post_index("test", doc).unwrap_err();

    // Empty because the non-existent field does not explicitly trigger a
    // failure - it just doesn't get indexed.
    assert_eq!(
        ServiceError::InvalidRequest("cannot index empty document".to_string()),
        response,
    );
}

#[test]
fn post_index_unknown_index_is_not_found() {
    let mut service = test_service();
    let doc = obj(vec![("title", s("hello"))]);
    let response = service.post_index("absent", doc).unwrap_err();
    assert_eq!(
        ServiceError::NotFound("Schema for index [absent] not found".to_string()),
        response
    );
}

#[test]
fn index_query_document_with_un_indexed_fields() {
    let mut service = test_service();

    let doc = obj(vec![
        ("__id", s("foobar")),
        ("title", s("hello")),
        ("meta", s("world")),
    ]);
    service.post_index("test", doc).unwrap();

    let response = service
        .query_index("test", &QueryRequest { query: "hello".to_string(), pagination_token: None })
        .0
        .unwrap();

    assert_eq!(1, response.matches.len());
}

#[test]
fn main_query_document_with_un_indexed_fields() {
    let schema = IndexSchema {
        fields: vec![
            SchemaField {
                name: "title".to_string(),
                kind: FieldKind::Text,
                tokenized: false,
                raw: true,
                fast: false,
                indexed: true,
                stored: true,
            },
            SchemaField {
                name: "author".to_string(),
                kind: FieldKind::Text,
                tokenized: false,
                raw: false,
                fast: false,
                indexed: false,
                stored: true,
            },
            SchemaField {
                name: "__id".to_string(),
                kind: FieldKind::Text,
                tokenized: false,
                raw: true,
                fast: false,
                indexed: true,
                stored: true,
            },
        ],
    };
    let index = EngineIndex::open_in_ram(schema).unwrap();
    let mut writer = index.writer().unwrap();
    let doc = pathery::search_doc::SearchDoc {
        id: pathery::search_doc::SearchDocId::parse("1"),
        content: vec![
            ("__id".to_string(), s("1")),
            ("title".to_string(), s("hello")),
            ("author".to_string(), s("world")),
        ],
    };
    assert!(index_doc(&writer, &doc).0);
    assert!(writer.commit());

    let whole_view = vec![pathery::pagination::SegmentMeta {
        segment_id: "whole".to_string(),
        extra: Vec::new(),
    }];
    let results =
        pathery::executor::execute_partition(&index, "hello", 0, 0, &whole_view, 10).unwrap();

    println!("{results:?}");

    assert_eq!(1, results.matches.len());
}

#[test]
fn test_indexing() {
    let provider = test_provider();
    let mut registry = MemIndexRegistry::new();
    let mut store = MemDocumentStore::new();

    let schema = provider.load_schema("test").unwrap();

    let mut job = Job::create("test");

    let document =
        pathery::search_doc::SearchDoc::from_json(&schema, obj(vec![("year", JsonValue::Int(1989))]))
            .unwrap();

    let doc_refs = store.save_documents(vec![document]);

    for doc_ref in doc_refs {
        job.index_doc(doc_ref);
    }

    handle_event(&mut registry, &provider, &store, &vec![job]).0.unwrap();

    let index = registry.load_index(&provider, "test").unwrap();
    assert_eq!(1, pathery::engine::reader_num_docs(&index.index).unwrap());
}

#[test]
fn batch_index_names_the_failing_document() {
    let mut service = test_service();

    let bodies = vec![
        obj(vec![("title", s("fine"))]),
        obj(vec![("title", JsonValue::Int(2))]),
    ];
    let response = service.batch_index("test", bodies).unwrap_err();

    assert_eq!(
        ServiceError::InvalidRequest(
            "Error parsing document (path: [1]): The field '\"title\"' could not be parsed: \
             TypeError { expected: \"a string\", json: Number(2) }"
                .to_string()
        ),
        response
    );
}

#[test]
fn batch_index_commits_every_document() {
    let mut service = test_service();

    let bodies = vec![
        obj(vec![("__id", s("one")), ("title", s("first doc"))]),
        obj(vec![("__id", s("two")), ("title", s("second doc"))]),
    ];
    service.batch_index("test", bodies).unwrap();

    let response = service
        .query_index("test", &QueryRequest { query: "doc".to_string(), pagination_token: None })
        .0
        .unwrap();
    assert_eq!(2, response.matches.len());
}
