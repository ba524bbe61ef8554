use xmrigcc_proxy_monitor::json::{JsonMember, JsonValue, render_json_value};
use xmrigcc_proxy_monitor::rpc::{decode_response, decode_with_parsed, normalize_base_url, request_url};

#[test]
fn base_url_loses_trailing_slashes() {
    assert_eq!(normalize_base_url("http://h:1///"), "http://h:1");
    assert_eq!(normalize_base_url("http://h:1"), "http://h:1");
    assert_eq!(normalize_base_url("///"), "");
}

#[test]
fn request_urls_join_base_and_path() {
    assert_eq!(request_url("http://h:1", "/1/summary"), "http://h:1/1/summary");
    assert_eq!(request_url("http://h:1", "1/summary"), "http://h:1/1/summary");
    assert_eq!(request_url("http://h:1", "https://other/x"), "https://other/x");
    assert_eq!(request_url("http://h:1", "http://other/x"), "http://other/x");
    assert_eq!(request_url("http://h:1", ""), "http://h:1/");
}

#[test]
fn failed_status_is_an_error_with_the_body_text() {
    let r = decode_with_parsed(404, b"not found", None);
    assert_eq!(r.unwrap_err(), "http 404: not found");
    let r = decode_with_parsed(500, &[0x66, 0xff, 0x6f], None);
    assert_eq!(r.unwrap_err(), "http 500: f\u{fffd}o");
    let r = decode_with_parsed(199, b"", Some(JsonValue::Null));
    assert_eq!(r.unwrap_err(), "http 199: ");
    let r = decode_with_parsed(300, b"x", None);
    assert_eq!(r.unwrap_err(), "http 300: x");
}

#[test]
fn json_body_is_returned_as_parsed() {
    let parsed = JsonValue::Object(vec![JsonMember {
        key: "id".to_string(),
        value: JsonValue::Str("proxy".to_string()),
    }]);
    let r = decode_with_parsed(200, br#"{"id":"proxy"}"#, Some(parsed)).unwrap();
    assert_eq!(render_json_value(&r), r#"{"id":"proxy"}"#);
}

#[test]
fn text_body_is_wrapped() {
    let r = decode_with_parsed(299, b"plain \"text\"", None).unwrap();
    assert_eq!(render_json_value(&r), r#"{"text":"plain \"text\""}"#);
}

#[test]
fn binary_body_is_described() {
    let r = decode_with_parsed(204, &[0xff, 0x00, 0xab], None).unwrap();
    assert_eq!(
        render_json_value(&r),
        r#"{"binary":true,"bytes":3,"preview_hex":"ff00ab"}"#
    );
}

#[test]
fn binary_preview_stops_after_64_bytes() {
    let body: Vec<u8> = (0..100u8).map(|i| 0x80 | i).collect();
    let r = decode_with_parsed(200, &body, None).unwrap();
    let expected_hex: String = body.iter().take(64).map(|b| format!("{b:02x}")).collect();
    assert_eq!(
        render_json_value(&r),
        format!(r#"{{"binary":true,"bytes":100,"preview_hex":"{expected_hex}"}}"#)
    );
}

#[test]
fn base_url_normalization_is_stable() {
    for url in ["http://h:1//", "https://x", "/", ""] {
        let once = normalize_base_url(url);
        assert!(!once.ends_with('/'));
        assert!(url.starts_with(&once));
        assert_eq!(normalize_base_url(&once), once);
    }
}

#[test]
fn response_body_is_parsed_as_json() {
    let r = decode_response(200, br#"{"b": 1.50, "a": [true, null, "x\u0041"]}"#).unwrap();
    assert_eq!(render_json_value(&r), r#"{"a":[true,null,"xA"],"b":1.5}"#);
    let n = decode_response(201, b" 42 ").unwrap();
    assert_eq!(render_json_value(&n), "42");
    let s = decode_response(200, br#""quoted""#).unwrap();
    assert_eq!(render_json_value(&s), "quoted");
}

#[test]
fn response_body_that_is_not_json() {
    let r = decode_response(200, b"plain text").unwrap();
    assert_eq!(render_json_value(&r), r#"{"text":"plain text"}"#);
    let e = decode_response(200, b"").unwrap();
    assert_eq!(render_json_value(&e), r#"{"text":""}"#);
    let b = decode_response(200, &[0xff, 0x01]).unwrap();
    assert_eq!(render_json_value(&b), r#"{"binary":true,"bytes":2,"preview_hex":"ff01"}"#);
    assert_eq!(decode_response(503, br#"{"a":1}"#).unwrap_err(), r#"http 503: {"a":1}"#);
}
