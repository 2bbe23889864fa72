use wws_runner::decode::{decode_wasm_input, decode_wasm_output};
use wws_runner::encode::encode_wasm_input;
use wws_runner::error::RunnerError;
use wws_runner::kv::KvMap;
use wws_runner::message::WasmInput;
use wws_runner::runner::build_wasm_input;

fn kv_of(pairs: &[(&str, &str)]) -> KvMap {
    let mut m = KvMap::new();
    for (k, v) in pairs {
        m.insert(k.to_string(), v.to_string());
    }
    m
}

#[test]
fn encode_fixed_field_order() {
    let input = WasmInput::new(
        "http://x/y".to_string(),
        "POST".to_string(),
        KvMap::new(),
        "hello".to_string(),
        Some(kv_of(&[("a", "1")])),
    );
    let text = encode_wasm_input(&input);
    assert_eq!(
        text,
        "{\"url\":\"http://x/y\",\"method\":\"POST\",\"headers\":{},\"body\":\"hello\",\"kv\":{\"a\":\"1\"}}"
    );
}

#[test]
fn encode_missing_store_is_empty_mapping() {
    let text = build_wasm_input(
        "http://h/p".to_string(),
        "GET".to_string(),
        kv_of(&[("x-a", "b")]),
        String::new(),
        None,
    );
    assert_eq!(
        text,
        "{\"url\":\"http://h/p\",\"method\":\"GET\",\"headers\":{\"x-a\":\"b\"},\"body\":\"\",\"kv\":{}}"
    );
}

#[test]
fn encode_escapes_specials() {
    let input = WasmInput::new(
        "u".to_string(),
        "GET".to_string(),
        KvMap::new(),
        "a\"b\\c\nd\te\rf\u{8}g\u{c}h\u{1}i".to_string(),
        None,
    );
    let text = encode_wasm_input(&input);
    assert_eq!(
        text,
        "{\"url\":\"u\",\"method\":\"GET\",\"headers\":{},\"body\":\"a\\\"b\\\\c\\nd\\te\\rf\\bg\\fh\\u0001i\",\"kv\":{}}"
    );
}

#[test]
fn encoded_text_is_json_for_serde() {
    let input = WasmInput::new(
        "http://x/y?q=1".to_string(),
        "PUT".to_string(),
        kv_of(&[("h", "v\"w")]),
        "line1\nline2".to_string(),
        Some(kv_of(&[("n", "1")])),
    );
    let text = encode_wasm_input(&input);
    let v: serde_json::Value = serde_json::from_str(&text).unwrap();
    assert_eq!(v.get("url").unwrap().as_str().unwrap(), "http://x/y?q=1");
    assert_eq!(v.get("method").unwrap().as_str().unwrap(), "PUT");
    assert_eq!(v.get("body").unwrap().as_str().unwrap(), "line1\nline2");
    assert_eq!(
        v.get("headers").unwrap().get("h").unwrap().as_str().unwrap(),
        "v\"w"
    );
    assert_eq!(v.get("kv").unwrap().get("n").unwrap().as_str().unwrap(), "1");
}

#[test]
fn decode_round_trips_encode() {
    let input = WasmInput::new(
        "http://h/path?q=1".to_string(),
        "POST".to_string(),
        kv_of(&[("content-type", "text/plain"), ("x-q", "a\\b\"c")]),
        "body with \n and \u{3}".to_string(),
        Some(kv_of(&[("n", "1"), ("m", "2")])),
    );
    let text = encode_wasm_input(&input);
    let back = decode_wasm_input(&text).unwrap();
    assert_eq!(back.url, "http://h/path?q=1");
    assert_eq!(back.method, "POST");
    assert_eq!(back.body, "body with \n and \u{3}");
    assert_eq!(
        back.headers.get("content-type").map(|s| s.as_str()),
        Some("text/plain")
    );
    assert_eq!(back.headers.get("x-q").map(|s| s.as_str()), Some("a\\b\"c"));
    assert_eq!(back.kv.get("n").map(|s| s.as_str()), Some("1"));
    assert_eq!(back.kv.get("m").map(|s| s.as_str()), Some("2"));
    assert_eq!(back.kv.len(), 2);
}

#[test]
fn decode_output_canonical() {
    let o = decode_wasm_output(
        "{\"body\":\"hello\",\"headers\":{},\"status\":200,\"kv\":{\"a\":\"1\"}}",
    )
    .unwrap();
    assert_eq!(o.body, "hello");
    assert_eq!(o.headers.len(), 0);
    assert_eq!(o.status, 200);
    assert_eq!(o.kv.get("a").map(|s| s.as_str()), Some("1"));
}

#[test]
fn decode_output_any_field_order_and_whitespace() {
    let o = decode_wasm_output(
        " { \"status\" : 404 , \"kv\" : { } , \"body\" : \"x\" , \"headers\" : { \"h\" : \"v\" } } ",
    )
    .unwrap();
    assert_eq!(o.status, 404);
    assert_eq!(o.body, "x");
    assert_eq!(o.headers.get("h").map(|s| s.as_str()), Some("v"));
    assert_eq!(o.kv.len(), 0);
}

#[test]
fn decode_output_ignores_unknown_fields() {
    let o = decode_wasm_output(
        "{\"body\":\"b\",\"extra\":[1,true,null,{\"x\":[]},\"s\"],\"headers\":{},\"other\":-1.5e3,\"status\":200,\"kv\":{},\"last\":{\"a\":{\"b\":\"c\"}}}",
    )
    .unwrap();
    assert_eq!(o.body, "b");
    assert_eq!(o.status, 200);
}

#[test]
fn decode_output_unescapes_strings() {
    let o = decode_wasm_output(
        "{\"body\":\"a\\\"b\\\\c\\/d\\ne\\tf\\bg\\fh\\r\\u0041\\u00e9\\ud83d\\ude00\",\"headers\":{},\"status\":200,\"kv\":{}}",
    )
    .unwrap();
    assert_eq!(o.body, "a\"b\\c/d\ne\tf\u{8}g\u{c}h\rA\u{e9}\u{1F600}");
}

#[test]
fn decode_output_missing_field_fails() {
    let r = decode_wasm_output("{\"body\":\"b\",\"headers\":{},\"status\":200}");
    assert_eq!(r.unwrap_err(), RunnerError::ResponseDecode);
}

#[test]
fn decode_output_not_json_fails() {
    assert_eq!(
        decode_wasm_output("not json").unwrap_err(),
        RunnerError::ResponseDecode
    );
    assert_eq!(decode_wasm_output("").unwrap_err(), RunnerError::ResponseDecode);
    assert_eq!(
        decode_wasm_output("{\"body\":\"b\"").unwrap_err(),
        RunnerError::ResponseDecode
    );
}

#[test]
fn decode_output_status_range() {
    let o = decode_wasm_output("{\"body\":\"\",\"headers\":{},\"status\":65535,\"kv\":{}}")
        .unwrap();
    assert_eq!(o.status, 65535);
    let o0 = decode_wasm_output("{\"body\":\"\",\"headers\":{},\"status\":0,\"kv\":{}}").unwrap();
    assert_eq!(o0.status, 0);
    assert_eq!(
        decode_wasm_output("{\"body\":\"\",\"headers\":{},\"status\":65536,\"kv\":{}}")
            .unwrap_err(),
        RunnerError::ResponseDecode
    );
    assert_eq!(
        decode_wasm_output("{\"body\":\"\",\"headers\":{},\"status\":007,\"kv\":{}}")
            .unwrap_err(),
        RunnerError::ResponseDecode
    );
    assert_eq!(
        decode_wasm_output("{\"body\":\"\",\"headers\":{},\"status\":\"200\",\"kv\":{}}")
            .unwrap_err(),
        RunnerError::ResponseDecode
    );
}

#[test]
fn decode_output_lone_surrogate_fails() {
    assert_eq!(
        decode_wasm_output("{\"body\":\"\\ud83d\",\"headers\":{},\"status\":200,\"kv\":{}}")
            .unwrap_err(),
        RunnerError::ResponseDecode
    );
}

#[test]
fn decode_output_trailing_garbage_fails() {
    assert_eq!(
        decode_wasm_output("{\"body\":\"\",\"headers\":{},\"status\":1,\"kv\":{}}x")
            .unwrap_err(),
        RunnerError::ResponseDecode
    );
}

#[test]
fn decode_output_repeated_key_keeps_last_value() {
    let o = decode_wasm_output(
        "{\"body\":\"\",\"headers\":{\"h\":\"1\",\"h\":\"2\"},\"status\":200,\"kv\":{}}",
    )
    .unwrap();
    assert_eq!(o.headers.len(), 1);
    assert_eq!(o.headers.get("h").map(|s| s.as_str()), Some("2"));
}

#[test]
fn kv_map_insert_overwrites_in_place() {
    let mut m = KvMap::new();
    m.insert("a".to_string(), "1".to_string());
    m.insert("b".to_string(), "2".to_string());
    m.insert("a".to_string(), "3".to_string());
    assert_eq!(m.len(), 2);
    assert_eq!(m.get("a").map(|s| s.as_str()), Some("3"));
    assert_eq!(m.get("b").map(|s| s.as_str()), Some("2"));
    assert_eq!(m.get("c"), None);
    assert_eq!(m.entries[0].0, "a");
}
