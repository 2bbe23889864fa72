use vstd::prelude::*;
use wasmtime_wasi::p1::WasiP1Ctx;
use wasmtime_wasi::p2::pipe::{MemoryInputPipe, MemoryOutputPipe};

verus! {

// ---------------------------------------------------------------------------
// The trusted layer over the Wasm engine. Each wrapper holds one call into
// wasmtime or wasmtime-wasi; nothing here is verified, so the contracts say
// only what those crates' sources show.
// ---------------------------------------------------------------------------
#[verifier::external_type_specification]
#[verifier::external_body]
pub struct ExEngine(wasmtime::Engine);

#[verifier::external_type_specification]
#[verifier::external_body]
pub struct ExModule(wasmtime::Module);

#[verifier::external_type_specification]
#[verifier::external_body]
pub struct ExWasmtimeError(wasmtime::Error);

#[verifier::external_type_specification]
#[verifier::external_body]
pub struct ExFunc(wasmtime::Func);

#[verifier::external_type_specification]
#[verifier::external_body]
#[verifier::reject_recursive_types(T)]
pub struct ExLinker<T>(wasmtime::Linker<T>);

#[verifier::external_type_specification]
#[verifier::external_body]
#[verifier::reject_recursive_types(T)]
pub struct ExStore<T: 'static>(wasmtime::Store<T>);

#[verifier::external_type_specification]
#[verifier::external_body]
#[verifier::reject_recursive_types(Params)]
#[verifier::reject_recursive_types(Results)]
pub struct ExTypedFunc<Params, Results>(wasmtime::TypedFunc<Params, Results>);

#[verifier::external_type_specification]
#[verifier::external_body]
pub struct ExWasiP1Ctx(WasiP1Ctx);

#[verifier::external_type_specification]
#[verifier::external_body]
pub struct ExMemoryInputPipe(MemoryInputPipe);

#[verifier::external_type_specification]
#[verifier::external_body]
pub struct ExMemoryOutputPipe(MemoryOutputPipe);

/// Relies on `Engine::clone`: engines are reference-counted handles to one
/// shared engine, so cloning is cheap and both handles drive the same
/// compiled code.
pub assume_specification[ <wasmtime::Engine as Clone>::clone ](e: &wasmtime::Engine) -> wasmtime::Engine;

/// Relies on `Module::clone`: modules are reference-counted handles to one
/// compiled module.
pub assume_specification[ <wasmtime::Module as Clone>::clone ](m: &wasmtime::Module) -> wasmtime::Module;

/// Relies on `Engine::new` and `Config`: a fresh engine with default
/// configuration, except that linear-memory reservations are kept small so
/// that a host with a constrained address space can still instantiate;
/// `Engine::default` would reserve gigabytes of guard region per memory.
#[verifier::external_body]
pub(crate) fn new_engine() -> wasmtime::Engine {
    let mut config = wasmtime::Config::new();
    config.memory_reservation(1 << 26);
    config.memory_guard_size(1 << 16);
    wasmtime::Engine::new(&config).unwrap_or_default()
}

/// Relies on `Module::new`: compiles a Wasm module (binary or text format)
/// against the engine; `Err` on a malformed module.
#[verifier::external_body]
pub(crate) fn compile_module(engine: &wasmtime::Engine, bytes: &[u8]) -> Result<
    wasmtime::Module,
    wasmtime::Error,
> {
    wasmtime::Module::new(engine, bytes)
}

/// Relies on `Linker::new`: a fresh linker bound to the engine, with no
/// definitions.
#[verifier::external_body]
pub(crate) fn new_linker(engine: &wasmtime::Engine) -> wasmtime::Linker<WasiP1Ctx> {
    wasmtime::Linker::new(engine)
}

/// Relies on `wasmtime_wasi::p1::add_to_linker_sync`: registers the WASI
/// preview-1 host functions — the standard sandboxed I/O surface and
/// nothing more — in the linker.
#[verifier::external_body]
pub(crate) fn add_wasi(linker: &mut wasmtime::Linker<WasiP1Ctx>) -> Result<(), wasmtime::Error> {
    wasmtime_wasi::p1::add_to_linker_sync(linker, |t| t)
}

/// Relies on `MemoryInputPipe::new`: an in-memory stdin holding exactly the
/// given bytes.
#[verifier::external_body]
pub(crate) fn make_stdin(contents: String) -> MemoryInputPipe {
    MemoryInputPipe::new(contents)
}

/// Relies on `MemoryOutputPipe::new`: an in-memory capture pipe that accepts
/// up to `capacity` bytes.
#[verifier::external_body]
pub(crate) fn make_capture(capacity: usize) -> MemoryOutputPipe {
    MemoryOutputPipe::new(capacity)
}

/// Relies on `MemoryOutputPipe::clone`: both handles share one buffer.
#[verifier::external_body]
pub(crate) fn clone_capture(p: &MemoryOutputPipe) -> MemoryOutputPipe {
    p.clone()
}

/// Relies on `WasiCtxBuilder`: a context granting the guest exactly these
/// three standard streams and the inherited process arguments — no
/// filesystem preopens, no environment variables, no network capability.
#[verifier::external_body]
pub(crate) fn build_wasi_ctx(
    stdin: MemoryInputPipe,
    stdout: MemoryOutputPipe,
    stderr: MemoryOutputPipe,
) -> WasiP1Ctx {
    let mut b = wasmtime_wasi::WasiCtxBuilder::new();
    b.stdin(stdin);
    b.stdout(stdout);
    b.stderr(stderr);
    b.inherit_args();
    b.build_p1()
}

/// Relies on `Store::new`: a fresh store owning the context.
#[verifier::external_body]
pub(crate) fn new_store(engine: &wasmtime::Engine, ctx: WasiP1Ctx) -> wasmtime::Store<WasiP1Ctx> {
    wasmtime::Store::new(engine, ctx)
}

/// Relies on `Linker::module`: instantiates the module and defines its
/// exports under the given instance name; `Err` when the linker cannot
/// satisfy the module's imports.
#[verifier::external_body]
pub(crate) fn link_module(
    linker: &mut wasmtime::Linker<WasiP1Ctx>,
    store: &mut wasmtime::Store<WasiP1Ctx>,
    name: &str,
    module: &wasmtime::Module,
) -> Result<(), wasmtime::Error> {
    linker.module(&mut *store, name, module).map(|_| ())
}

/// Relies on `Module::get_export`: whether the module exports an item
/// under that name.
#[verifier::external_body]
pub(crate) fn has_export(module: &wasmtime::Module, name: &str) -> bool {
    module.get_export(name).is_some()
}

/// Relies on `Linker::get_default`: the named instance's default export —
/// the function exported under the empty name, or `_start`; a no-op
/// function when neither name is exported; `Err` when the export exists
/// but is not a function.
#[verifier::external_body]
pub(crate) fn get_default_entry(
    linker: &wasmtime::Linker<WasiP1Ctx>,
    store: &mut wasmtime::Store<WasiP1Ctx>,
    name: &str,
) -> Result<wasmtime::Func, wasmtime::Error> {
    linker.get_default(&mut *store, name)
}

/// Relies on `Func::typed`: `Ok` exactly when the function takes no
/// parameters and returns no results.
#[verifier::external_body]
pub(crate) fn typed_entry(f: &wasmtime::Func, store: &wasmtime::Store<WasiP1Ctx>) -> Result<
    wasmtime::TypedFunc<(), ()>,
    wasmtime::Error,
> {
    f.typed::<(), ()>(&*store)
}

/// Relies on `TypedFunc::call`: runs the guest to completion on this
/// thread; `Err` when the guest traps.
#[verifier::external_body]
pub(crate) fn call_entry(
    f: &wasmtime::TypedFunc<(), ()>,
    store: &mut wasmtime::Store<WasiP1Ctx>,
) -> Result<(), wasmtime::Error> {
    f.call(&mut *store, ())
}

/// Relies on dropping the store: releases its handles on the pipes.
#[verifier::external_body]
pub(crate) fn release_store(store: wasmtime::Store<WasiP1Ctx>) {
    drop(store);
}

/// Relies on `MemoryOutputPipe::try_into_inner`: the captured bytes, when
/// this is the last handle to the buffer; `None` otherwise.
#[verifier::external_body]
pub(crate) fn take_pipe_contents(p: MemoryOutputPipe) -> Option<Vec<u8>> {
    p.try_into_inner().map(|b| b.to_vec())
}

} // verus!
