//! A Wasm handler runner: given an HTTP request description and an on-disk
//! artifact (a precompiled WebAssembly module or a JavaScript source file),
//! it invokes the artifact inside an isolated Wasm sandbox, feeds it a
//! structured request on stdin, and parses a structured response from the
//! sandbox's stdout.
//!
//! The JSON wire format between host and guest is normative and implemented
//! here directly, with proofs that decoding inverts encoding. The Wasm engine
//! itself (wasmtime) is reached only through a small trusted layer.

pub mod error;
pub mod classify;
pub mod decode;
pub mod encode;
pub mod headers;
pub mod host;
pub mod json_text;
pub mod message;
pub mod kv;
pub mod round_trip;
pub mod runner;
pub mod strutil;
