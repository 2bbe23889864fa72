use wws_runner::error::RunnerError;
use wws_runner::headers::{build_headers_hash, header_value_text};

#[test]
fn header_value_text_printable_ascii_and_tab() {
    assert_eq!(
        header_value_text(&b"text/plain; charset=utf-8".to_vec()).unwrap(),
        "text/plain; charset=utf-8"
    );
    assert_eq!(header_value_text(&b"a\tb".to_vec()).unwrap(), "a\tb");
    assert_eq!(header_value_text(&Vec::new()).unwrap(), "");
}

#[test]
fn header_value_text_rejects_non_text_bytes() {
    assert_eq!(
        header_value_text(&vec![0x41, 0x00, 0x42]).unwrap_err(),
        RunnerError::HeaderDecode
    );
    assert_eq!(
        header_value_text(&vec![0xFF]).unwrap_err(),
        RunnerError::HeaderDecode
    );
    assert_eq!(
        header_value_text(&vec![b'a', 0x7F]).unwrap_err(),
        RunnerError::HeaderDecode
    );
}

#[test]
fn build_headers_hash_collapses_repeats_to_last() {
    let raw = vec![
        ("accept".to_string(), b"text/html".to_vec()),
        ("x-k".to_string(), b"one".to_vec()),
        ("x-k".to_string(), b"two".to_vec()),
    ];
    let m = build_headers_hash(&raw).unwrap();
    assert_eq!(m.len(), 2);
    assert_eq!(m.get("accept").map(|s| s.as_str()), Some("text/html"));
    assert_eq!(m.get("x-k").map(|s| s.as_str()), Some("two"));
}

#[test]
fn build_headers_hash_aborts_on_non_text_value() {
    let raw = vec![
        ("good".to_string(), b"ok".to_vec()),
        ("bad".to_string(), vec![0x80, 0x81]),
    ];
    assert_eq!(build_headers_hash(&raw).unwrap_err(), RunnerError::HeaderDecode);
}
