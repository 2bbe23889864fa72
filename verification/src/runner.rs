use vstd::prelude::*;
use vstd::utf8::{decode_utf8, valid_utf8};
use crate::classify::{spec_classify, spec_is_js, RunnerHandlerType};
use crate::decode::decode_wasm_output;
use crate::encode::encode_wasm_input;
use crate::error::RunnerError;
use crate::host;
use crate::json_text::enc_input;
use crate::kv::KvMap;
use crate::message::{WasmInput, WasmOutput};
use crate::strutil::bytes_to_string;

verus! {

/// Capacity of the in-memory pipes that capture the guest's stdout and
/// stderr.
pub const CAPTURE_CAPACITY: usize = 16777216;

/// Serializes the data for one invocation to the JSON wire text handed to
/// the guest on stdin.
pub fn build_wasm_input(
    url: String,
    method: String,
    headers: KvMap,
    body: String,
    kv: Option<KvMap>,
) -> (r: String)
    ensures
        r@ == enc_input(
            url@,
            method@,
            headers@,
            body@,
            match kv {
                Some(m) => m@,
                None => Seq::empty(),
            },
        ),
{
    let input = WasmInput::new(url, method, headers, body, kv);
    encode_wasm_input(&input)
}

/// The exact bytes handed to the guest on stdin: the input text alone for a
/// native module; for JavaScript, the source, the literal separator
/// `[[[input]]]`, and the input text. The separator is the contract with
/// the embedded engine, which splits its stdin on its first occurrence — a
/// source containing the separator itself is therefore mis-split, a known
/// limitation of the format.
pub fn build_stdin(runner_type: RunnerHandlerType, source: &str, input: &str) -> (r: String)
    ensures
        runner_type == RunnerHandlerType::Wasm ==> r@ == input@,
        runner_type == RunnerHandlerType::JavaScript ==> r@ == source@ + "[[[input]]]"@ + input@,
{
    match runner_type {
        RunnerHandlerType::Wasm => {
            let mut out = String::new();
            out.append(input);
            out
        },
        RunnerHandlerType::JavaScript => {
            let mut out = String::new();
            out.append(source);
            out.append("[[[input]]]");
            out.append(input);
            out
        },
    }
}

/// A reusable handle owning a Wasm engine and a module precompiled against
/// it: the user's artifact for a native runner, the embedded JavaScript
/// engine for a JavaScript one, which also carries the source text.
#[derive(Clone)]
pub struct Runner {
    /// The engine that runs the module.
    pub engine: wasmtime::Engine,
    /// The kind of artifact this runner drives.
    pub runner_type: RunnerHandlerType,
    /// The precompiled module.
    pub module: wasmtime::Module,
    /// JavaScript source text; empty for a native runner.
    pub source: String,
}

impl Runner {
    /// A JavaScript runner always carries a non-empty source; a native
    /// runner carries none.
    pub open spec fn wf(&self) -> bool {
        &&& self.runner_type == RunnerHandlerType::JavaScript ==> self.source@.len() > 0
        &&& self.runner_type == RunnerHandlerType::Wasm ==> self.source@.len() == 0
    }

    /// Whether the path names a JavaScript artifact.
    pub fn is_js_file(path: &str) -> (r: bool)
        ensures
            r == spec_is_js(path@),
    {
        crate::classify::is_js_file(path)
    }

    /// Creates a runner from the artifact path and the artifact's bytes.
    ///
    /// The path decides the kind. For JavaScript the embedded engine's
    /// bytes are compiled and the artifact bytes are kept as source text:
    /// non-text or empty source fails with `ArtifactRead`. For a native
    /// module the artifact bytes themselves are compiled. A module that
    /// does not compile fails with `ModuleCompile`.
    pub fn new(path: &str, artifact: Vec<u8>, js_engine: &[u8]) -> (r: Result<Runner, RunnerError>)
        ensures
            match r {
                Ok(run) => {
                    &&& run.wf()
                    &&& run.runner_type == spec_classify(path@)
                    &&& run.runner_type == RunnerHandlerType::JavaScript ==> valid_utf8(artifact@)
                        && run.source@ == decode_utf8(artifact@)
                },
                Err(e) => {
                    &&& e == RunnerError::ModuleCompile || e == RunnerError::ArtifactRead
                    &&& spec_classify(path@) == RunnerHandlerType::Wasm ==> e
                        == RunnerError::ModuleCompile
                    &&& e == RunnerError::ArtifactRead ==> !valid_utf8(artifact@) || decode_utf8(
                        artifact@,
                    ).len() == 0
                },
            },
    {
        let engine = host::new_engine();
        if Self::is_js_file(path) {
            let module = match host::compile_module(&engine, js_engine) {
                Ok(m) => m,
                Err(_) => {
                    return Err(RunnerError::ModuleCompile);
                },
            };
            let source = match bytes_to_string(artifact) {
                Some(s) => s,
                None => {
                    return Err(RunnerError::ArtifactRead);
                },
            };
            if source.unicode_len() == 0 {
                return Err(RunnerError::ArtifactRead);
            }
            Ok(
                Runner {
                    engine,
                    runner_type: RunnerHandlerType::JavaScript,
                    module,
                    source,
                },
            )
        } else {
            let module = match host::compile_module(&engine, artifact.as_slice()) {
                Ok(m) => m,
                Err(_) => {
                    return Err(RunnerError::ModuleCompile);
                },
            };
            Ok(
                Runner {
                    engine,
                    runner_type: RunnerHandlerType::Wasm,
                    module,
                    source: String::new(),
                },
            )
        }
    }

    /// Runs the module once against the given input text.
    ///
    /// A fresh sandbox is built for every call — stdin prepared by
    /// `build_stdin`, two in-memory capture pipes, inherited arguments, and
    /// nothing else — so concurrent calls on one runner share only the
    /// immutable engine and module. The guest's stdout is decoded as a
    /// `WasmOutput`; on success both of its mappings carry pairwise
    /// distinct keys. Failures name the step that failed: instantiation,
    /// entry lookup, entry signature, a guest trap, an unclaimable stdout
    /// buffer, or an undecodable response.
    pub fn run(&self, input: &str) -> (r: Result<WasmOutput, RunnerError>)
        requires
            self.wf(),
        ensures
            r matches Ok(o) ==> o.wf(),
    {
        let stdin_text = build_stdin(self.runner_type, self.source.as_str(), input);
        let stdin = host::make_stdin(stdin_text);
        let stdout = host::make_capture(CAPTURE_CAPACITY);
        let stderr = host::make_capture(CAPTURE_CAPACITY);
        let ctx = host::build_wasi_ctx(
            stdin,
            host::clone_capture(&stdout),
            host::clone_capture(&stderr),
        );
        let mut linker = host::new_linker(&self.engine);
        match host::add_wasi(&mut linker) {
            Ok(()) => {},
            Err(_) => {
                return Err(RunnerError::ModuleInstantiate);
            },
        }
        let mut store = host::new_store(&self.engine, ctx);
        match host::link_module(&mut linker, &mut store, "", &self.module) {
            Ok(()) => {},
            Err(_) => {
                return Err(RunnerError::ModuleInstantiate);
            },
        }
        if !host::has_export(&self.module, "") && !host::has_export(&self.module, "_start") {
            return Err(RunnerError::EntryMissing);
        }
        let entry = match host::get_default_entry(&linker, &mut store, "") {
            Ok(f) => f,
            Err(_) => {
                return Err(RunnerError::EntrySignature);
            },
        };
        let typed = match host::typed_entry(&entry, &store) {
            Ok(t) => t,
            Err(_) => {
                return Err(RunnerError::EntrySignature);
            },
        };
        match host::call_entry(&typed, &mut store) {
            Ok(()) => {},
            Err(_) => {
                return Err(RunnerError::GuestTrap);
            },
        }
        host::release_store(store);
        let bytes = match host::take_pipe_contents(stdout) {
            Some(b) => b,
            None => {
                return Err(RunnerError::OutputUnavailable);
            },
        };
        let text = match bytes_to_string(bytes) {
            Some(s) => s,
            None => {
                return Err(RunnerError::ResponseDecode);
            },
        };
        decode_wasm_output(text.as_str())
    }
}

} // verus!
