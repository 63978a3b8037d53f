//! End-to-end scenarios through the in-memory service.

use pathery::coordinator::QueryRequest;
use pathery::json_data::JsonValue;
use pathery::schema::{FieldConfig, IndexConfig, PatheryConfig, SchemaProvider, TextFieldOption};
use pathery::service_index::SearchService;

fn obj(members: Vec<(&str, JsonValue)>) -> JsonValue {
    JsonValue::Obj(members.into_iter().map(|(k, v)| (k.to_string(), v)).collect())
}

fn s(v: &str) -> JsonValue {
    JsonValue::Str(v.to_string())
}

fn title_author_service() -> SearchService {
    SearchService::create(SchemaProvider {
        config: PatheryConfig {
            indexes: vec![IndexConfig {
                prefix: "test".to_string(),
                fields: vec![
                    FieldConfig::TextFieldConfig {
                        name: "title".to_string(),
                        flags: vec![TextFieldOption::TEXT],
                    },
                    FieldConfig::TextFieldConfig {
                        name: "author".to_string(),
                        flags: vec![TextFieldOption::TEXT],
                    },
                ],
            }],
        },
    })
}

fn query(service: &mut SearchService, q: &str) -> pathery::coordinator::QueryResponse {
    service
        .query_index("test", &QueryRequest { query: q.to_string(), pagination_token: None })
        .0
        .unwrap()
}

#[test]
fn round_trip_index_and_query() {
    let mut service = title_author_service();

    let doc = obj(vec![("__id", s("a")), ("title", s("hello")), ("author", s("world"))]);
    service.post_index("test", doc).unwrap();

    let response = query(&mut service, "hello");

    assert_eq!(1, response.matches.len());
    let hit = &response.matches[0];
    assert_eq!(hit.score_bits, 0.28768212f32.to_bits());
    let title_snippet = hit
        .snippets
        .iter()
        .find(|(field, _)| field == "title")
        .map(|(_, html)| html.as_str());
    assert_eq!(title_snippet, Some("<b>hello</b>"));
    assert!(response.pagination_token.is_some());
}

#[test]
fn update_overwrites() {
    let mut service = title_author_service();

    let first = obj(vec![("__id", s("same")), ("title", s("before"))]);
    service.post_index("test", first).unwrap();
    let second = obj(vec![("__id", s("same")), ("title", s("after"))]);
    service.post_index("test", second).unwrap();

    assert_eq!(1, query(&mut service, "after").matches.len());
    assert_eq!(0, query(&mut service, "before").matches.len());
}

#[test]
fn index_same_doc_repeatedly_keeps_one_copy() {
    let mut service = title_author_service();

    for _ in 0..3 {
        let doc = obj(vec![("__id", s("a")), ("title", s("hello"))]);
        service.post_index("test", doc).unwrap();
    }

    assert_eq!(1, query(&mut service, "hello").matches.len());
}

#[test]
fn delete_removes() {
    let mut service = title_author_service();

    let doc = obj(vec![("__id", s("x")), ("title", s("hi"))]);
    service.post_index("test", doc).unwrap();
    assert_eq!(1, query(&mut service, "hi").matches.len());

    service.delete_doc("test", "x").0.unwrap();

    assert_eq!(0, query(&mut service, "hi").matches.len());
}

#[test]
fn delete_twice_is_idempotent() {
    let mut service = title_author_service();

    let doc = obj(vec![("__id", s("x")), ("title", s("hi"))]);
    service.post_index("test", doc).unwrap();
    service.delete_doc("test", "x").0.unwrap();
    service.delete_doc("test", "x").0.unwrap();

    assert_eq!(0, query(&mut service, "hi").matches.len());
}

#[test]
fn query_against_empty_index_yields_no_token() {
    let mut service = title_author_service();
    let response = query(&mut service, "anything");
    assert_eq!(0, response.matches.len());
    assert!(response.pagination_token.is_none());
}

#[test]
fn snippets_skip_non_text_fields() {
    let mut service = SearchService::create(SchemaProvider {
        config: PatheryConfig {
            indexes: vec![IndexConfig {
                prefix: "test".to_string(),
                fields: vec![
                    FieldConfig::TextFieldConfig {
                        name: "title".to_string(),
                        flags: vec![TextFieldOption::TEXT],
                    },
                    FieldConfig::IntegerFieldConfig {
                        name: "year".to_string(),
                        flags: vec![pathery::schema::NumericFieldOption::INDEXED],
                    },
                ],
            }],
        },
    });

    let doc = obj(vec![("__id", s("n")), ("title", s("numbers")), ("year", JsonValue::Int(5))]);
    service.post_index("test", doc).unwrap();

    let response = query(&mut service, "numbers");
    assert_eq!(1, response.matches.len());
    assert!(response.matches[0].snippets.iter().all(|(field, _)| field != "year"));
}

#[test]
fn paging_until_exhaustion_returns_distinct_ids() {
    let mut service = title_author_service();

    let total: usize = 35;
    let mut bodies = Vec::new();
    for i in 0..total {
        bodies.push(obj(vec![
            ("__id", s(&format!("{i}"))),
            ("title", s(&format!("doc {i}"))),
        ]));
    }
    service.batch_index("test", bodies).unwrap();

    let mut seen: Vec<String> = Vec::new();
    let mut token: Option<String> = None;
    let mut pages = 0;
    loop {
        let response = service
            .query_index(
                "test",
                &QueryRequest { query: "doc".to_string(), pagination_token: token.clone() },
            )
            .0
            .unwrap();
        if response.matches.is_empty() {
            assert!(response.pagination_token.is_none());
            break;
        }
        assert!(response.matches.len() <= 10);
        for hit in &response.matches {
            let id = hit
                .doc
                .iter()
                .find(|(k, _)| k == "__id")
                .and_then(|(_, v)| match v {
                    JsonValue::Str(id) => Some(id.clone()),
                    _ => None,
                })
                .expect("hit should carry its id");
            assert!(!seen.contains(&id), "duplicate id across pages: {id}");
            seen.push(id);
        }
        token = response.pagination_token;
        pages += 1;
        assert!(pages <= total, "paging did not terminate");
    }
    assert_eq!(seen.len(), total);
}

#[test]
fn pages_are_score_ordered_and_disjoint() {
    let mut service = title_author_service();

    let mut bodies = Vec::new();
    for i in 0..15 {
        bodies.push(obj(vec![
            ("__id", s(&format!("{i}"))),
            ("title", s("shared term")),
        ]));
    }
    service.batch_index("test", bodies).unwrap();

    let first = query(&mut service, "shared");
    assert_eq!(first.matches.len(), 10);
    for w in first.matches.windows(2) {
        assert!(w[0].score_bits >= w[1].score_bits);
    }
    let second = service
        .query_index(
            "test",
            &QueryRequest {
                query: "shared".to_string(),
                pagination_token: first.pagination_token.clone(),
            },
        )
        .0
        .unwrap();
    assert_eq!(second.matches.len(), 5);
}

#[test]
fn supplied_multi_partition_token_pages_without_duplicates() {
    let mut service = title_author_service();

    let total: usize = 15;
    let mut bodies = Vec::new();
    for i in 0..total {
        bodies.push(obj(vec![
            ("__id", s(&format!("{i}"))),
            ("title", s(&format!("doc {i}"))),
        ]));
    }
    service.batch_index("test", bodies).unwrap();

    // a paging session pinned to a three-partition snapshot: the single
    // shared view is the union of the slices, so one owning sub-query
    // serves it and pages stay disjoint
    let mut segments = Vec::new();
    for i in 0..3 {
        segments.push(pathery::pagination::SegmentMeta {
            segment_id: format!("seg{i}"),
            extra: Vec::new(),
        });
    }
    let first_token = pathery::pagination::PaginationToken {
        query: "doc".to_string(),
        segments,
        partition_state: vec![0, 0, 0],
    };
    let mut token = Some(first_token.serialize().expect("token should serialize"));

    let mut seen: Vec<String> = Vec::new();
    let mut pages = 0;
    loop {
        let response = service
            .query_index(
                "test",
                &QueryRequest { query: "doc".to_string(), pagination_token: token.clone() },
            )
            .0
            .unwrap();
        if response.matches.is_empty() {
            assert!(response.pagination_token.is_none());
            break;
        }
        for hit in &response.matches {
            let id = hit
                .doc
                .iter()
                .find(|(k, _)| k == "__id")
                .and_then(|(_, v)| match v {
                    JsonValue::Str(id) => Some(id.clone()),
                    _ => None,
                })
                .expect("hit should carry its id");
            assert!(!seen.contains(&id), "duplicate id across pages: {id}");
            seen.push(id);
        }
        token = response.pagination_token;
        pages += 1;
        assert!(pages <= total, "paging did not terminate");
    }
    assert_eq!(seen.len(), total);
}
