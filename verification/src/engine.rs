//! The engine that this library drives, and what is taken on trust of it.
//!
//! Every item here belongs to the `wasmtime` crate. Its values are opaque to
//! the verifier: nothing is claimed of what they hold, only that the calls
//! return, and of a trap's text that it is not empty. What the library
//! decides around those calls is proved elsewhere.

use vstd::prelude::*;

verus! {

/// The engine's settings, `wasmtime::Config`.
#[verifier::external_type_specification]
#[verifier::external_body]
pub struct ExConfig(wasmtime::Config);

/// The compilation and validation context, `wasmtime::Engine`.
#[verifier::external_type_specification]
#[verifier::external_body]
pub struct ExEngine(wasmtime::Engine);

/// A compiled and validated module, `wasmtime::Module`.
#[verifier::external_type_specification]
#[verifier::external_body]
pub struct ExModule(wasmtime::Module);

/// A live instance of a module, `wasmtime::Instance`.
#[verifier::external_type_specification]
#[verifier::external_body]
pub struct ExInstance(wasmtime::Instance);

/// The engine's error, `wasmtime::Error`.
#[verifier::external_type_specification]
#[verifier::external_body]
pub struct ExError(wasmtime::Error);

/// The reason for a trap, `wasmtime::Trap`.
#[verifier::external_type_specification]
#[verifier::external_body]
pub struct ExTrap(wasmtime::Trap);

/// The limits placed on a store, `wasmtime::StoreLimits`.
#[verifier::external_type_specification]
#[verifier::external_body]
pub struct ExStoreLimits(wasmtime::StoreLimits);

/// The builder of store limits, `wasmtime::StoreLimitsBuilder`.
#[verifier::external_type_specification]
#[verifier::external_body]
pub struct ExStoreLimitsBuilder(wasmtime::StoreLimitsBuilder);

/// The state that instances live in, `wasmtime::Store`.
#[verifier::external_type_specification]
#[verifier::external_body]
#[verifier::reject_recursive_types(T)]
pub struct ExStore<T: 'static>(wasmtime::Store<T>);

/// `wasmtime::Config::new` returns the default settings. Nothing is claimed
/// of them.
pub assume_specification[ wasmtime::Config::new ]() -> (config: wasmtime::Config);

/// `wasmtime::Engine::new` builds an engine from settings, or fails. Nothing
/// is claimed of which.
pub assume_specification[ wasmtime::Engine::new ](config: &wasmtime::Config) -> (r: Result<
    wasmtime::Engine,
    wasmtime::Error,
>);

/// `wasmtime::StoreLimitsBuilder::new` starts a set of limits with none
/// placed on memory.
pub assume_specification[ wasmtime::StoreLimitsBuilder::new ]() -> (b:
    wasmtime::StoreLimitsBuilder);

/// `wasmtime::StoreLimitsBuilder::memory_size` sets the number of bytes that
/// a linear memory may reach.
pub assume_specification[ wasmtime::StoreLimitsBuilder::memory_size ](
    b: wasmtime::StoreLimitsBuilder,
    limit: usize,
) -> (r: wasmtime::StoreLimitsBuilder);

/// `wasmtime::StoreLimitsBuilder::build` finishes the set of limits.
pub assume_specification[ wasmtime::StoreLimitsBuilder::build ](
    b: wasmtime::StoreLimitsBuilder,
) -> (limits: wasmtime::StoreLimits);

/// `wasmtime::Store::try_new` makes a store for an engine around the given
/// data, or fails where memory cannot be had.
pub assume_specification<T>[ wasmtime::Store::<T>::try_new ](
    engine: &wasmtime::Engine,
    data: T,
) -> (r: Result<wasmtime::Store<T>, wasmtime::Error>);

/// Calls `wasmtime::Config::wasm_component_model`, which switches the
/// component model on or off in the settings.
#[verifier::external_body]
pub(crate) fn set_component_model(config: &mut wasmtime::Config, enable: bool) {
    config.wasm_component_model(enable);
}

/// Calls `wasmtime::Config::memory_reservation`, which sets the number of
/// bytes of address space that the engine reserves for a linear memory.
///
/// When it compiles a module the engine adds its guard size to this number
/// without a check, so the number is held to four gibibytes, which is what
/// the engine itself takes on hosts with 64-bit addresses.
#[verifier::external_body]
pub(crate) fn set_memory_reservation(config: &mut wasmtime::Config, bytes: u64)
    requires
        bytes <= 0x1_0000_0000,
{
    config.memory_reservation(bytes);
}

/// Calls `wasmtime::Config::consume_fuel`, which makes compiled code count
/// the instructions it runs against the fuel of its store, and trap when
/// the fuel is used up.
#[verifier::external_body]
pub(crate) fn set_fuel_metering(config: &mut wasmtime::Config, enable: bool) {
    config.consume_fuel(enable);
}

/// Calls `wasmtime::Store::limiter`, so that the store holds what it creates
/// and grows to the limits that it carries as its data.
#[verifier::external_body]
pub(crate) fn enforce_limits(store: &mut wasmtime::Store<wasmtime::StoreLimits>) {
    store.limiter(|limits| limits);
}

/// Calls `wasmtime::Module::new`, which decodes, validates and compiles a
/// binary module, or fails. Nothing is claimed of which.
#[verifier::external_body]
pub(crate) fn compile(engine: &wasmtime::Engine, bytes: &[u8]) -> (r: Result<
    wasmtime::Module,
    wasmtime::Error,
>) {
    wasmtime::Module::new(engine, bytes)
}

/// Calls `wasmtime::Store::set_fuel` and then `wasmtime::Instance::new` with
/// no imports, which instantiates the module in the store and runs its start
/// function if it declares one, or fails. Nothing is claimed of which.
///
/// The run is bounded: the store has the given fuel and no more, and where
/// the engine does not count fuel, `set_fuel` fails and nothing is run.
#[verifier::external_body]
pub(crate) fn instantiate(
    store: &mut wasmtime::Store<wasmtime::StoreLimits>,
    module: &wasmtime::Module,
    fuel: u64,
) -> (r: Result<wasmtime::Instance, wasmtime::Error>) {
    store.set_fuel(fuel)?;
    wasmtime::Instance::new(store, module, &[])
}

/// Calls `wasmtime::Error::downcast_ref` for `wasmtime::Trap`: the trap that
/// the error reports, if it reports one.
#[verifier::external_body]
pub(crate) fn trap_of(error: &wasmtime::Error) -> (r: Option<wasmtime::Trap>) {
    error.downcast_ref::<wasmtime::Trap>().copied()
}

/// Calls `to_string` on a `wasmtime::Error`: the text that the engine gives
/// for the error.
#[verifier::external_body]
pub(crate) fn error_text(error: &wasmtime::Error) -> (text: String) {
    error.to_string()
}

/// Calls `to_string` on a `wasmtime::Trap`: the text that the engine gives
/// for the trap. It begins with the words `wasm trap: `, so it is never
/// empty.
#[verifier::external_body]
pub(crate) fn trap_text(trap: &wasmtime::Trap) -> (text: String)
    ensures
        text@.len() > 0,
{
    trap.to_string()
}

} // verus!
