use wws_runner::classify::RunnerHandlerType;
use wws_runner::error::RunnerError;
use wws_runner::runner::{build_stdin, Runner};

/// A guest that writes the given bytes to stdout and returns.
fn writer_wat(payload: &str) -> String {
    let escaped = payload.replace('\\', "\\\\").replace('"', "\\\"");
    format!(
        "(module\n\
         (import \"wasi_snapshot_preview1\" \"fd_write\" (func $fdw (param i32 i32 i32 i32) (result i32)))\n\
         (memory (export \"memory\") 1)\n\
         (data (i32.const 8) \"{}\")\n\
         (func (export \"\")\n\
         (i32.store (i32.const 100) (i32.const 8))\n\
         (i32.store (i32.const 104) (i32.const {}))\n\
         (drop (call $fdw (i32.const 1) (i32.const 100) (i32.const 1) (i32.const 112)))))",
        escaped,
        payload.len()
    )
}

/// A guest that copies all of stdin to stdout.
fn cat_wat() -> String {
    "(module\n\
     (import \"wasi_snapshot_preview1\" \"fd_read\" (func $fdr (param i32 i32 i32 i32) (result i32)))\n\
     (import \"wasi_snapshot_preview1\" \"fd_write\" (func $fdw (param i32 i32 i32 i32) (result i32)))\n\
     (memory (export \"memory\") 1)\n\
     (func (export \"\")\n\
     (i32.store (i32.const 0) (i32.const 1024))\n\
     (i32.store (i32.const 4) (i32.const 60000))\n\
     (drop (call $fdr (i32.const 0) (i32.const 0) (i32.const 1) (i32.const 8)))\n\
     (i32.store (i32.const 12) (i32.const 1024))\n\
     (i32.store (i32.const 16) (i32.load (i32.const 8)))\n\
     (drop (call $fdw (i32.const 1) (i32.const 12) (i32.const 1) (i32.const 20)))))"
        .to_string()
}

const NO_ENGINE: &[u8] = b"";

#[test]
fn build_stdin_native_passes_input_through() {
    let s = build_stdin(RunnerHandlerType::Wasm, "", "{\"url\":\"u\"}");
    assert_eq!(s, "{\"url\":\"u\"}");
}

#[test]
fn build_stdin_javascript_concatenates_with_separator() {
    let s = build_stdin(RunnerHandlerType::JavaScript, "var x = 1;", "{\"a\":\"b\"}");
    assert_eq!(s, "var x = 1;[[[input]]]{\"a\":\"b\"}");
}

#[test]
fn build_stdin_source_containing_separator_is_kept_verbatim() {
    // A source holding the separator itself is mis-split by the engine: the
    // runner forwards it unchanged, so the engine would cut at the first
    // occurrence. This records the known limitation of the in-band framing.
    let s = build_stdin(RunnerHandlerType::JavaScript, "a[[[input]]]b", "{}");
    assert_eq!(s, "a[[[input]]]b[[[input]]]{}");
    assert_eq!(s.find("[[[input]]]"), Some(1));
}

#[test]
fn new_rejects_malformed_wasm_artifact() {
    let r = Runner::new("bad.wasm", b"\x01\x02\x03".to_vec(), NO_ENGINE);
    assert_eq!(r.err().unwrap(), RunnerError::ModuleCompile);
}

#[test]
fn new_rejects_malformed_js_engine() {
    let r = Runner::new("h.js", b"console.log(1)".to_vec(), b"not wasm");
    assert_eq!(r.err().unwrap(), RunnerError::ModuleCompile);
}

#[test]
fn new_rejects_empty_js_source() {
    let r = Runner::new("h.js", Vec::new(), cat_wat().as_bytes());
    assert_eq!(r.err().unwrap(), RunnerError::ArtifactRead);
}

#[test]
fn new_rejects_non_text_js_source() {
    let r = Runner::new("h.js", vec![0xFF, 0xFE], cat_wat().as_bytes());
    assert_eq!(r.err().unwrap(), RunnerError::ArtifactRead);
}

#[test]
fn run_without_entry_fails_entry_missing() {
    let runner = Runner::new("m.wasm", b"(module)".to_vec(), NO_ENGINE).unwrap();
    assert_eq!(runner.run("{}").err().unwrap(), RunnerError::EntryMissing);
}

#[test]
fn run_with_wrong_entry_signature_fails() {
    let wat = "(module (func (export \"\") (param i32)))";
    let runner = Runner::new("m.wasm", wat.as_bytes().to_vec(), NO_ENGINE).unwrap();
    assert_eq!(runner.run("{}").err().unwrap(), RunnerError::EntrySignature);
}

#[test]
fn trapping_guest_fails_and_runner_stays_usable() {
    let wat = "(module (func (export \"\") unreachable))";
    let runner = Runner::new("m.wasm", wat.as_bytes().to_vec(), NO_ENGINE).unwrap();
    assert_eq!(runner.run("{}").err().unwrap(), RunnerError::GuestTrap);
    // The runner is not poisoned: a second invocation behaves the same.
    assert_eq!(runner.run("{}").err().unwrap(), RunnerError::GuestTrap);
}

#[test]
fn guest_writing_non_json_fails_response_decode() {
    let wat = writer_wat("not json");
    let runner = Runner::new("m.wasm", wat.into_bytes(), NO_ENGINE).unwrap();
    assert_eq!(runner.run("{}").err().unwrap(), RunnerError::ResponseDecode);
}

#[test]
fn guest_writing_nothing_fails_response_decode() {
    let wat = "(module (func (export \"\")))";
    let runner = Runner::new("m.wasm", wat.as_bytes().to_vec(), NO_ENGINE).unwrap();
    assert_eq!(runner.run("{}").err().unwrap(), RunnerError::ResponseDecode);
}

#[test]
fn native_guest_output_is_decoded() {
    let wat = writer_wat("{\"body\":\"hello\",\"headers\":{\"h\":\"v\"},\"status\":201,\"kv\":{\"n\":\"2\"}}");
    let runner = Runner::new("m.wasm", wat.into_bytes(), NO_ENGINE).unwrap();
    assert_eq!(runner.runner_type, RunnerHandlerType::Wasm);
    let out = runner.run("{\"url\":\"http://x/y\"}").unwrap();
    assert_eq!(out.body, "hello");
    assert_eq!(out.status, 201);
    assert_eq!(out.headers.get("h").map(|s| s.as_str()), Some("v"));
    assert_eq!(out.kv.len(), 1);
    assert_eq!(out.kv.get("n").map(|s| s.as_str()), Some("2"));
    // Reusable: the same runner serves a second call.
    let again = runner.run("{}").unwrap();
    assert_eq!(again.status, 201);
}

#[test]
fn cloned_runner_serves_the_same_artifact() {
    let wat = writer_wat("{\"body\":\"c\",\"headers\":{},\"status\":200,\"kv\":{}}");
    let runner = Runner::new("m.wasm", wat.into_bytes(), NO_ENGINE).unwrap();
    let copy = runner.clone();
    assert_eq!(runner.run("{}").unwrap().body, "c");
    assert_eq!(copy.run("{}").unwrap().body, "c");
}

#[test]
fn javascript_stdin_is_source_separator_input() {
    // The engine here is a guest that echoes its whole stdin. The source is
    // crafted so that source + separator + input is itself a WasmOutput
    // text: decoding the echo proves what the runner fed the guest and in
    // which order.
    let source = "{\"body\":\"a\",\"headers\":{},\"status\":200,\"kv\":{},\"x\":\"";
    let runner = Runner::new(
        "handler.js",
        source.as_bytes().to_vec(),
        cat_wat().as_bytes(),
    )
    .unwrap();
    assert_eq!(runner.runner_type, RunnerHandlerType::JavaScript);
    assert_eq!(runner.source, source);
    let out = runner.run("\"}").unwrap();
    assert_eq!(out.body, "a");
    assert_eq!(out.status, 200);
    assert_eq!(out.headers.len(), 0);
    assert_eq!(out.kv.len(), 0);
}
