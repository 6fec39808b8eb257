use fxhub::endpoint::Endpoint;
use fxhub::exchange::call_request;
use fxhub::exchange::interpret_response;
use fxhub::json::Json;
use fxhub::wire::get_request;
use fxhub::wire::post_request;

#[test]
fn post_request_has_exact_frame() {
    let req = post_request(b"localhost", b"/cmd", b"{}");
    let expected = b"POST /cmd HTTP/1.1\r\nHost: localhost\r\nContent-Type: application/json\r\nContent-Length: 2\r\n\r\n{}";
    assert_eq!(req, expected.to_vec());
}

#[test]
fn get_request_has_exact_frame() {
    let req = get_request(b"localhost", b"/sse");
    let expected = b"GET /sse HTTP/1.1\r\nHost: localhost\r\nAccept: text/event-stream\r\n\r\n";
    assert_eq!(req, expected.to_vec());
}

#[test]
fn call_request_body_is_compact_payload() {
    let payload = Json::Obj(vec![
        (b"a".to_vec(), Json::Int(1)),
        (
            b"b".to_vec(),
            Json::Arr(vec![Json::Bool(true), Json::Null, Json::Str(b"x\"y".to_vec())]),
        ),
    ]);
    let req = call_request(b"localhost", b"emit", &payload);
    let text = String::from_utf8(req).unwrap();
    let body = "{\"a\":1,\"b\":[true,null,\"x\\\"y\"]}";
    let expected = format!(
        "POST /emit HTTP/1.1\r\nHost: localhost\r\nContent-Type: application/json\r\nContent-Length: {}\r\n\r\n{}",
        body.len(),
        body
    );
    assert_eq!(text, expected);
    let parsed: serde_json::Value = serde_json::from_str(body).unwrap();
    let mut obj = serde_json::Map::new();
    obj.insert("a".to_string(), serde_json::Value::from(1i64));
    obj.insert(
        "b".to_string(),
        serde_json::Value::Array(vec![
            serde_json::Value::Bool(true),
            serde_json::Value::Null,
            serde_json::Value::String("x\"y".to_string()),
        ]),
    );
    assert_eq!(parsed, serde_json::Value::Object(obj));
}

#[test]
fn json_escapes_match_serde() {
    let j = Json::Str(vec![0x61, 0x22, 0x5c, 0x0a, 0x01, 0x62]);
    let text = String::from_utf8(j.to_bytes()).unwrap();
    assert_eq!(text, "\"a\\\"\\\\\\n\\u0001b\"");
    let parsed: serde_json::Value = serde_json::from_str(&text).unwrap();
    assert_eq!(parsed, serde_json::Value::String("a\"\\\n\u{1}b".to_string()));
}

#[test]
fn json_numbers_and_atoms() {
    assert_eq!(Json::Int(-42).to_bytes(), b"-42".to_vec());
    assert_eq!(Json::Int(i64::MIN).to_bytes(), b"-9223372036854775808".to_vec());
    assert_eq!(Json::Int(0).to_bytes(), b"0".to_vec());
    assert_eq!(Json::Null.to_bytes(), b"null".to_vec());
    assert_eq!(Json::Bool(false).to_bytes(), b"false".to_vec());
    assert_eq!(Json::Obj(vec![]).to_bytes(), b"{}".to_vec());
    assert_eq!(Json::Arr(vec![]).to_bytes(), b"[]".to_vec());
}

#[test]
fn response_with_object_body_merges_fields() {
    let raw =
        b"HTTP/1.1 200 OK\r\nContent-Type: application/json\r\n\r\n{\"success\": true, \"value\": 42}";
    let doc = interpret_response(raw);
    assert_eq!(doc.get(b"sended"), Some(&b"true".to_vec()));
    assert_eq!(doc.get(b"success"), Some(&b"true".to_vec()));
    assert_eq!(doc.get(b"value"), Some(&b"42".to_vec()));
    assert_eq!(doc.get(b"error"), None);
}

#[test]
fn response_without_delimiter_is_bad_format() {
    let doc = interpret_response(b"HTTP/1.1 200 OK\nno blank line");
    assert_eq!(doc.get(b"success"), Some(&b"false".to_vec()));
    assert_eq!(doc.get(b"error"), Some(&b"\"Bad HTTP format\"".to_vec()));
    assert_eq!(doc.get(b"sended"), None);
}

#[test]
fn response_with_two_delimiters_is_bad_format() {
    let doc = interpret_response(b"HTTP/1.1 200 OK\r\n\r\n{\"a\":1}\r\n\r\ntrailer");
    assert_eq!(doc.get(b"success"), Some(&b"false".to_vec()));
    assert_eq!(doc.get(b"error"), Some(&b"\"Bad HTTP format\"".to_vec()));
}

#[test]
fn response_with_bad_json_body_reports_parse_failure() {
    let doc = interpret_response(b"HTTP/1.1 200 OK\r\n\r\nnot json");
    assert_eq!(doc.get(b"sended"), Some(&b"true".to_vec()));
    assert_eq!(doc.get(b"success"), Some(&b"false".to_vec()));
    assert_eq!(doc.get(b"error"), Some(&b"\"Couldn't parse JSON\"".to_vec()));
}

#[test]
fn response_with_non_object_body_only_records_sended() {
    let doc = interpret_response(b"HTTP/1.1 200 OK\r\n\r\n42");
    assert_eq!(doc.get(b"sended"), Some(&b"true".to_vec()));
    assert_eq!(doc.get(b"success"), None);
}

#[test]
fn endpoint_parse_reads_host_and_port() {
    let e = Endpoint::parse(b"localhost:10001").unwrap();
    assert_eq!(e.host, b"localhost".to_vec());
    assert_eq!(e.port, 10001);
    assert!(Endpoint::parse(b"nocolon").is_none());
    assert!(Endpoint::parse(b"a:").is_none());
    assert!(Endpoint::parse(b"a:99999").is_none());
    assert!(Endpoint::parse(b"a:7x").is_none());
    let multi = Endpoint::parse(b"a:1:2").unwrap();
    assert_eq!(multi.host, b"a".to_vec());
    assert_eq!(multi.port, 1);
}

#[test]
fn endpoint_parse_port_bounds() {
    assert_eq!(Endpoint::parse(b"h:65535").unwrap().port, 65535);
    assert!(Endpoint::parse(b"h:65536").is_none());
    assert_eq!(Endpoint::parse(b"h:0").unwrap().port, 0);
    assert_eq!(Endpoint::parse(b"h:00042").unwrap().port, 42);
}

#[test]
fn content_length_counts_body_bytes() {
    let body = b"{\"k\":\"0123456789\"}";
    let req = post_request(b"h", b"/p", body);
    let text = String::from_utf8(req).unwrap();
    assert!(text.contains(&format!("Content-Length: {}\r\n\r\n", body.len())));
    assert!(text.ends_with("{\"k\":\"0123456789\"}"));
}
