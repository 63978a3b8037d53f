//! Codec tests: canonical JSON serialization, parsing, and compression.

use pathery::compress::{zstd_compress, zstd_decompress};
use pathery::json_codec::to_bytes;
use pathery::json_data::JsonValue;
use pathery::json_exec::parse_json;

fn obj(members: Vec<(&str, JsonValue)>) -> JsonValue {
    JsonValue::Obj(members.into_iter().map(|(k, v)| (k.to_string(), v)).collect())
}

fn s(v: &str) -> JsonValue {
    JsonValue::Str(v.to_string())
}

#[test]
fn canonical_serialization_shapes() {
    let v = obj(vec![
        ("a", JsonValue::Int(-12)),
        ("b", JsonValue::Bool(true)),
        ("c", JsonValue::Null),
        ("d", JsonValue::Arr(vec![JsonValue::Int(0), s("x")])),
    ]);
    let bytes = to_bytes(&v);
    assert_eq!(
        String::from_utf8(bytes).unwrap(),
        "{\"a\":-12,\"b\":true,\"c\":null,\"d\":[0,\"x\"]}"
    );
}

#[test]
fn string_escaping_round_trip() {
    let v = obj(vec![("k", s("a\"b\\c\nd"))]);
    let bytes = to_bytes(&v);
    assert_eq!(
        String::from_utf8(bytes.clone()).unwrap(),
        "{\"k\":\"a\\\"b\\\\c\\u000ad\"}"
    );
    let parsed = parse_json(&bytes).expect("canonical bytes should parse");
    assert_eq!(to_bytes(&parsed), bytes);
}

#[test]
fn parse_inverts_serialize() {
    let v = obj(vec![
        ("query", s("hello world")),
        ("segments", JsonValue::Arr(vec![obj(vec![("segment_id", s("abc"))])])),
        ("partition_state", JsonValue::Arr(vec![JsonValue::Int(0), JsonValue::Int(3)])),
    ]);
    let bytes = to_bytes(&v);
    let parsed = parse_json(&bytes).expect("round trip should parse");
    assert_eq!(to_bytes(&parsed), bytes);
}

#[test]
fn parse_accepts_whitespace_and_common_escapes() {
    let text = " { \"a\" : [ 1 , -2 ] , \"b\" : \"x\\ty\" } ";
    let parsed = parse_json(&text.as_bytes().to_vec()).expect("should parse");
    assert_eq!(
        String::from_utf8(to_bytes(&parsed)).unwrap(),
        "{\"a\":[1,-2],\"b\":\"x\\u0009y\"}"
    );
}

#[test]
fn parse_rejects_malformed_input() {
    for bad in [
        "",
        "{",
        "[1,]",
        "{\"a\":}",
        "tru",
        "1.5",
        "1e3",
        "{\"a\":1} trailing",
        "\"unterminated",
        "9223372036854775808",
    ] {
        assert!(parse_json(&bad.as_bytes().to_vec()).is_none(), "accepted: {bad}");
    }
}

#[test]
fn parse_integer_bounds() {
    let max = parse_json(&"9223372036854775807".as_bytes().to_vec()).unwrap();
    assert_eq!(String::from_utf8(to_bytes(&max)).unwrap(), "9223372036854775807");
    let min = parse_json(&"-9223372036854775808".as_bytes().to_vec()).unwrap();
    assert_eq!(String::from_utf8(to_bytes(&min)).unwrap(), "-9223372036854775808");
}

#[test]
fn compressed_json_test_round_trip() {
    let init = obj(vec![("hello", s("world"))]);
    let bytes = to_bytes(&init);
    let compressed = zstd_compress(&bytes).expect("should compress");
    let restored = zstd_decompress(&compressed).expect("should decompress");
    assert_eq!(restored, bytes);
    let parsed = parse_json(&restored).expect("should parse");
    assert_eq!(to_bytes(&parsed), bytes);
}
