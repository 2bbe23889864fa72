use vstd::prelude::*;

verus! {

/// Failure kinds surfaced by the runner core.
///
/// Every error is fatal for the operation that produced it: `ArtifactRead`
/// and `ModuleCompile` end `Runner` creation, the others end a single
/// invocation. Nothing is retried at this layer.
#[derive(Clone, Copy, PartialEq, Eq, Structural, Debug)]
pub enum RunnerError {
    /// The artifact file's contents could not be used (for a JavaScript
    /// artifact: the source bytes are not text, or are empty).
    ArtifactRead,
    /// The artifact (or the embedded engine) is not a valid Wasm module.
    ModuleCompile,
    /// A request header value is not text.
    HeaderDecode,
    /// The linker cannot satisfy the module's imports.
    ModuleInstantiate,
    /// The module has no default entry point.
    EntryMissing,
    /// The default entry point is not of signature `() -> ()`.
    EntrySignature,
    /// The guest trapped during execution.
    GuestTrap,
    /// The stdout buffer could not be claimed after the run.
    OutputUnavailable,
    /// The guest's stdout is not a valid `WasmOutput` JSON text.
    ResponseDecode,
}

} // verus!
