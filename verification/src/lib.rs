//! A small WebAssembly runtime facade: a validated configuration, an engine
//! handle, and one entry point that decodes, validates and instantiates a
//! binary module.

use vstd::prelude::*;

pub mod binary;
pub mod engine;
pub mod runtime;

pub use runtime::{Runtime, RuntimeConfig, RuntimeError};

verus! {

/// The text that `version` returns, as a sequence of characters.
pub open spec fn version_text() -> Seq<char> {
    "0.1.0"@
}

/// The build identifier of this library: a fixed, non-empty string.
pub fn version() -> (v: &'static str)
    ensures
        v@ == version_text(),
        v@.len() == 5,
{
    proof {
        reveal_strlit("0.1.0");
    }
    "0.1.0"
}

/// Makes a runtime with the default configuration.
///
/// The default configuration is valid, so it is never rejected: the result
/// is a runtime with the default settings, or an `InitializationError`
/// where the engine cannot be built.
pub fn init() -> (r: Result<Runtime, RuntimeError>)
    ensures
        match r {
            Ok(runtime) => {
                &&& runtime.settings().wasi_enabled
                &&& runtime.settings().component_model
                &&& runtime.settings().max_memory == Some(runtime::DEFAULT_MAX_MEMORY)
            },
            Err(e) => e is InitializationError,
        },
{
    Runtime::new(RuntimeConfig::default())
}

} // verus!
