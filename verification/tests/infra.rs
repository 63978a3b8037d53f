//! Infrastructure tests: queue ordering, chunked files, manifest filter,
//! job codec, deferred deletion, errors, and configuration parsing.

use pathery::directory_core::{
    apply_manifest_filter, files_for_segment, segment_files_size, ChunkedFile, FileStore,
    MemFileStore,
};
use pathery::json_codec::to_bytes;
use pathery::json_data::JsonValue;
use pathery::json_exec::parse_json;
use pathery::message::MemFifoQueue;
use pathery::pagination::SegmentMeta;
use pathery::search_doc::SearchDocId;
use pathery::service::ServiceError;
use pathery::store::SearchDocRef;
use pathery::worker::async_delete::{deferred_delete_job, AsyncDeleteJob};
use pathery::worker::client::build_queued_job;
use pathery::worker::job::{job_from_json, Job};
use pathery::schema::{FieldKind, IndexSchema, SchemaField};

#[test]
fn fifo_queue_preserves_per_group_order() {
    let mut queue = MemFifoQueue::new();
    queue.send_message("index-a", b"j1".to_vec());
    queue.send_message("index-b", b"other".to_vec());
    queue.send_message("index-a", b"j2".to_vec());

    assert_eq!(queue.receive_for_group("index-a"), Some(b"j1".to_vec()));
    assert_eq!(queue.receive_for_group("index-a"), Some(b"j2".to_vec()));
    assert_eq!(queue.receive_for_group("index-a"), None);
    assert_eq!(queue.receive_for_group("index-b"), Some(b"other".to_vec()));
}

#[test]
fn dynamo_directory_write_and_read() {
    let part1 = "hello world".as_bytes();
    let part2 = "stuff and things".as_bytes();

    let mut file = ChunkedFile::create("hello.txt");
    file.write(part1.to_vec());
    file.write(part2.to_vec());

    let read_bytes = file.assembled();

    assert_eq!(read_bytes, [part1, part2].concat().to_vec());
    assert_eq!(file.path, "hello.txt");
    // the keys a KV-backed store would use for it
    assert_eq!(
        pathery::directory_core::file_content_pk("1234", "hello.txt"),
        "store|1234|file_content|hello.txt"
    );
    assert_eq!(pathery::directory_core::file_header_pk("1234"), "store|1234|file_header");
    assert_eq!(
        pathery::directory_core::file_header_sk("hello.txt"),
        "file_header|hello.txt"
    );
}

#[test]
fn filestore_write_and_read_file() {
    let mut store = MemFileStore::new();

    assert_eq!(false, store.has_file("hello.txt"));

    let content = "hello world!".as_bytes().to_vec();

    store.write_file("hello.txt", content.clone());

    assert_eq!(true, store.has_file("hello.txt"));

    let files = store.list_files();

    assert_eq!(vec!["hello.txt".to_string()], files);

    let read_content = store.get_content("hello.txt").unwrap();

    assert_eq!(content, read_content);

    store.delete("hello.txt");

    assert_eq!(false, store.has_file("hello.txt"));
}

#[test]
fn manifest_filter_pins_the_snapshot() {
    let meta_bytes = "{\"index_settings\":{\"docstore_blocksize\":16384},\"segments\":[{\"segment_id\":\"old\",\"max_doc\":7}],\"opstamp\":12}"
        .as_bytes()
        .to_vec();
    let meta = parse_json(&meta_bytes).expect("manifest should parse");

    let pinned = vec![SegmentMeta {
        segment_id: "pinned".to_string(),
        extra: vec![("max_doc".to_string(), JsonValue::Int(3))],
    }];
    let filtered = apply_manifest_filter(&meta, &pinned).expect("object manifest");

    let out = String::from_utf8(to_bytes(&filtered)).unwrap();
    assert_eq!(
        out,
        "{\"index_settings\":{\"docstore_blocksize\":16384},\"segments\":[{\"segment_id\":\"pinned\",\"max_doc\":3}],\"opstamp\":12}"
    );

    // a manifest without a segments member gains one
    let bare = parse_json(&"{\"opstamp\":1}".as_bytes().to_vec()).unwrap();
    let filtered = apply_manifest_filter(&bare, &pinned).unwrap();
    assert_eq!(
        String::from_utf8(to_bytes(&filtered)).unwrap(),
        "{\"opstamp\":1,\"segments\":[{\"segment_id\":\"pinned\",\"max_doc\":3}]}"
    );

    assert!(apply_manifest_filter(&JsonValue::Int(3), &pinned).is_none());
}

#[test]
fn job_codec_round_trips() {
    let mut job = Job::create("books");
    job.index_doc(SearchDocRef(SearchDocId::parse("a1")));
    job.delete_doc(SearchDocId::parse("b2"));

    let bytes = to_bytes(&job.to_json());
    assert_eq!(
        String::from_utf8(bytes.clone()).unwrap(),
        "{\"index_id\":\"books\",\"ops\":[{\"IndexDoc\":{\"doc_ref\":\"a1\"}},{\"DeleteDoc\":{\"doc_id\":\"b2\"}}]}"
    );

    let parsed = parse_json(&bytes).expect("job bytes parse");
    let restored = job_from_json(&parsed).expect("job decodes");
    assert_eq!(restored.index_id, "books");
    assert_eq!(restored.ops.len(), 2);
    assert_eq!(to_bytes(&restored.to_json()), bytes);
}

#[test]
fn queued_job_is_grouped_by_index() {
    let mut job = Job::create("books");
    job.delete_doc(SearchDocId::parse("gone"));
    let queued = build_queued_job(&job, "batch-7");
    assert_eq!(queued.group_id, "books");
    assert_eq!(queued.staging_key, "writer_batches/batch-7");
    assert_eq!(queued.payload, to_bytes(&job.to_json()));
}

#[test]
fn deferred_deletion_names_segment_files() {
    let names = vec![
        "abc123.store".to_string(),
        "abc123.idx".to_string(),
        "other.store".to_string(),
        "meta.json".to_string(),
    ];
    let doomed = files_for_segment(&names, "abc123");
    assert_eq!(doomed, vec!["abc123.store".to_string(), "abc123.idx".to_string()]);

    let job = deferred_delete_job("/mnt/data/test", "abc123.store");
    match job {
        AsyncDeleteJob::FSDelete(path) => assert_eq!(path, "/mnt/data/test/abc123.store"),
    }

    let sizes = vec![
        ("abc123.store".to_string(), 10u64),
        ("abc123.idx".to_string(), 5u64),
        ("other.store".to_string(), 100u64),
    ];
    assert_eq!(segment_files_size(&sizes, "abc123"), Some(15));
}

#[test]
fn service_errors_map_to_statuses_and_messages() {
    assert_eq!(ServiceError::invalid_request("bad").status(), 400);
    assert_eq!(ServiceError::not_found("missing").status(), 404);
    assert_eq!(ServiceError::rate_limit().status(), 429);
    let internal = ServiceError::internal_error("boom");
    assert_eq!(internal.status(), 500);
    assert!(internal.message().starts_with("Internal server error [id = "));
    assert_eq!(ServiceError::rate_limit().message(), "Too many requests");
    assert_eq!(ServiceError::invalid_request("bad").message(), "bad");
}

#[test]
fn parse_test_config() {
    let config_text = "{\"indexes\":[{\"prefix\":\"book-index-v1-\",\"fields\":[\
        {\"name\":\"title\",\"flags\":[\"TEXT\"],\"kind\":\"text\"},\
        {\"name\":\"author\",\"flags\":[\"STRING\"],\"kind\":\"text\"},\
        {\"name\":\"date_added\",\"flags\":[\"INDEXED\",\"FAST\"],\"kind\":\"date\"},\
        {\"name\":\"year\",\"flags\":[\"INDEXED\",\"FAST\"],\"kind\":\"i64\"},\
        {\"name\":\"meta\",\"flags\":[\"TEXT\"],\"kind\":\"json\"}]}]}";
    let parsed = parse_json(&config_text.as_bytes().to_vec()).expect("config json parses");
    let config = pathery::schema::config_from_json(&parsed).expect("should not throw");
    assert_eq!(config.indexes.len(), 1);
    assert_eq!(config.indexes[0].prefix, "book-index-v1-");
    assert_eq!(config.indexes[0].fields.len(), 5);
}

#[test]
fn serialize_schema() {
    let schema = IndexSchema {
        fields: vec![
            SchemaField {
                name: "title".to_string(),
                kind: FieldKind::Text,
                tokenized: true,
                raw: false,
                fast: false,
                indexed: true,
                stored: true,
            },
            SchemaField {
                name: "author".to_string(),
                kind: FieldKind::Text,
                tokenized: false,
                raw: true,
                fast: false,
                indexed: true,
                stored: true,
            },
            SchemaField {
                name: "created_date".to_string(),
                kind: FieldKind::Date,
                tokenized: false,
                raw: false,
                fast: true,
                indexed: true,
                stored: true,
            },
        ],
    };
    let built = pathery::worker::index_writer::build_engine_schema(&schema);
    println!("{built:?}");
}
