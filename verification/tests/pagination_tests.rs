//! Pagination token tests: wire round trip, offsets, partition assignment.

use pathery::json_data::JsonValue;
use pathery::pagination::{PaginationToken, SegmentMeta};

fn sample_token() -> PaginationToken {
    let mut token = PaginationToken::new("foobar", 2);
    token.import_segments(vec![SegmentMeta {
        segment_id: "abc123".to_string(),
        extra: vec![("foo".to_string(), JsonValue::Str("bar".to_string()))],
    }]);
    token
}

#[test]
fn pagination_test_round_trip() {
    let token = sample_token();
    let token_str = token.serialize().expect("should serialize");
    let parsed = PaginationToken::parse(&token_str).expect("should parse");

    assert_eq!(parsed.query, token.query);
    assert_eq!(parsed.partition_state, token.partition_state);
    assert_eq!(parsed.segments.len(), 1);
    assert_eq!(parsed.segments[0].segment_id, "abc123");
    assert_eq!(parsed.segments[0].extra.len(), 1);
    assert_eq!(parsed.segments[0].extra[0].0, "foo");
    match &parsed.segments[0].extra[0].1 {
        JsonValue::Str(v) => assert_eq!(v, "bar"),
        other => panic!("unexpected extra value: {other:?}"),
    }
}

#[test]
fn token_round_trip_twice_is_stable() {
    let token = sample_token();
    let once = token.serialize().expect("should serialize");
    let parsed = PaginationToken::parse(&once).expect("should parse");
    let twice = parsed.serialize().expect("should serialize again");
    assert_eq!(once, twice);
}

#[test]
fn parse_rejects_garbage_tokens() {
    assert!(PaginationToken::parse("not base64 !!").is_none());
    assert!(PaginationToken::parse("aGVsbG8=").is_none());
    assert!(PaginationToken::parse("").is_none());
}

#[test]
fn offsets_start_at_zero_and_advance() {
    let mut token = PaginationToken::new("q", 3);
    assert_eq!(token.partitions(), 3);
    assert_eq!(token.get_offset(0), 0);
    assert_eq!(token.get_offset(2), 0);
    token.inc_offset(1);
    token.inc_offset(1);
    token.inc_offset(2);
    assert_eq!(token.get_offset(0), 0);
    assert_eq!(token.get_offset(1), 2);
    assert_eq!(token.get_offset(2), 1);
}

#[test]
fn round_robin_assignment_partitions_segments() {
    let mut token = PaginationToken::new("q", 2);
    let mut segs = Vec::new();
    for i in 0..5 {
        segs.push(SegmentMeta { segment_id: format!("seg{i}"), extra: Vec::new() });
    }
    token.import_segments(segs);

    let p0 = token.segments_for_partition(0);
    let p1 = token.segments_for_partition(1);
    let ids0: Vec<&str> = p0.iter().map(|m| m.segment_id.as_str()).collect();
    let ids1: Vec<&str> = p1.iter().map(|m| m.segment_id.as_str()).collect();
    assert_eq!(ids0, vec!["seg0", "seg2", "seg4"]);
    assert_eq!(ids1, vec!["seg1", "seg3"]);
    assert_eq!(ids0.len() + ids1.len(), 5);
}

#[test]
fn get_query_returns_the_stored_query() {
    let token = PaginationToken::new("the query", 1);
    assert_eq!(token.get_query(), "the query");
}
