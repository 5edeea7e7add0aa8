//! The runtime facade: its errors, its configuration, and the `Runtime`
//! that owns one engine and one configuration.

use vstd::prelude::*;
use vstd::string::StringExecFns;

use crate::binary::{decode, decoded, DecodeError};
use crate::engine::{
    compile, enforce_limits, error_text, instantiate, set_component_model, set_fuel_metering,
    set_memory_reservation, trap_of, trap_text,
};

verus! {

/// The size in bytes of one page of linear memory.
pub const PAGE_SIZE: usize = 65536;

/// The default ceiling on linear memory: one gibibyte.
pub const DEFAULT_MAX_MEMORY: usize = 1073741824;

/// The most address space, in bytes, that the engine is asked to reserve
/// for one linear memory: ten mebibytes. A memory that outgrows its
/// reservation is moved; its ceiling is not touched by this.
pub const MAX_RESERVATION: u64 = 10485760;

/// The fuel that one execution may use: the number of instructions, more or
/// less, that a module's start function may run before it is stopped.
pub const EXECUTION_FUEL: u64 = 100000000;

/// What can go wrong in the runtime. Each variant carries a diagnostic text.
#[derive(Debug)]
pub enum RuntimeError {
    /// The engine could not be constructed.
    InitializationError(String),
    /// A module could not be decoded, validated or instantiated, or it trapped.
    ExecutionError(String),
    /// The configuration handed to `Runtime::new` was rejected.
    ConfigurationError(String),
}

impl RuntimeError {
    /// The diagnostic text that the error carries.
    pub open spec fn detail(&self) -> Seq<char> {
        match self {
            RuntimeError::InitializationError(m) => m@,
            RuntimeError::ExecutionError(m) => m@,
            RuntimeError::ConfigurationError(m) => m@,
        }
    }

    /// The words that introduce the diagnostic text, by variant.
    pub open spec fn heading(&self) -> Seq<char> {
        match self {
            RuntimeError::InitializationError(_) => "Initialization error: "@,
            RuntimeError::ExecutionError(_) => "Execution error: "@,
            RuntimeError::ConfigurationError(_) => "Configuration error: "@,
        }
    }

    /// The full text of the error: the heading, then the diagnostic text.
    pub open spec fn text(&self) -> Seq<char> {
        self.heading() + self.detail()
    }

    /// Renders the error as a line of text for a human reader.
    pub fn message(&self) -> (s: String)
        ensures
            s@ == self.text(),
    {
        match self {
            RuntimeError::InitializationError(m) => {
                String::from_str("Initialization error: ").concat(m.as_str())
            },
            RuntimeError::ExecutionError(m) => {
                String::from_str("Execution error: ").concat(m.as_str())
            },
            RuntimeError::ConfigurationError(m) => {
                String::from_str("Configuration error: ").concat(m.as_str())
            },
        }
    }
}

/// Why a configuration is rejected.
#[derive(Debug, Clone, Copy, PartialEq, Eq, Structural)]
pub enum ConfigFault {
    /// The memory ceiling is zero.
    ZeroMemory,
    /// The memory ceiling is not a whole number of pages.
    UnalignedMemory,
}

impl ConfigFault {
    /// The diagnostic text for this fault.
    pub open spec fn text(&self) -> Seq<char> {
        match self {
            ConfigFault::ZeroMemory => "max_memory must be greater than zero"@,
            ConfigFault::UnalignedMemory => "max_memory must be a multiple of the page size"@,
        }
    }

    /// The configuration error that reports this fault.
    pub fn into_error(self) -> (e: RuntimeError)
        ensures
            e is ConfigurationError,
            e.detail() == self.text(),
    {
        match self {
            ConfigFault::ZeroMemory => RuntimeError::ConfigurationError(
                String::from_str("max_memory must be greater than zero"),
            ),
            ConfigFault::UnalignedMemory => RuntimeError::ConfigurationError(
                String::from_str("max_memory must be a multiple of the page size"),
            ),
        }
    }
}

/// The settings of a runtime, fixed when the runtime is made.
#[derive(Debug, Clone)]
pub struct RuntimeConfig {
    /// Whether the host capability surface is meant for guests. No host
    /// function is supplied to a module either way: one that imports any
    /// fails at instantiation.
    pub wasi_enabled: bool,
    /// The ceiling on each linear memory, in bytes; `None` for no ceiling.
    pub max_memory: Option<usize>,
    /// Whether the engine accepts the component model.
    pub component_model: bool,
}

impl RuntimeConfig {
    /// The fault of this configuration, if it has one: a ceiling of zero, or
    /// one that is not a whole number of pages.
    pub open spec fn fault(&self) -> Option<ConfigFault> {
        match self.max_memory {
            None => None,
            Some(n) => if n == 0 {
                Some(ConfigFault::ZeroMemory)
            } else if n % PAGE_SIZE != 0 {
                Some(ConfigFault::UnalignedMemory)
            } else {
                None
            },
        }
    }

    /// A configuration is valid when its memory ceiling is absent, or is
    /// positive and a whole number of pages.
    pub open spec fn is_valid(&self) -> bool {
        match self.max_memory {
            None => true,
            Some(n) => n > 0 && n % PAGE_SIZE == 0,
        }
    }

    /// Looks for the fault of this configuration.
    pub fn check(&self) -> (r: Option<ConfigFault>)
        ensures
            r == self.fault(),
            r is None <==> self.is_valid(),
    {
        match self.max_memory {
            None => None,
            Some(n) => {
                if n == 0 {
                    Some(ConfigFault::ZeroMemory)
                } else if n % PAGE_SIZE != 0 {
                    Some(ConfigFault::UnalignedMemory)
                } else {
                    None
                }
            },
        }
    }
}

/// The address space to reserve for a linear memory that may reach
/// `ceiling` bytes: the ceiling itself, since no memory passes it, but never
/// more than `MAX_RESERVATION`.
pub open spec fn reservation_for(ceiling: usize) -> u64 {
    if ceiling <= MAX_RESERVATION {
        ceiling as u64
    } else {
        MAX_RESERVATION
    }
}

/// The address space to reserve for a linear memory under a ceiling.
pub fn memory_reservation(ceiling: usize) -> (bytes: u64)
    ensures
        bytes == reservation_for(ceiling),
        bytes <= ceiling,
        bytes <= MAX_RESERVATION,
{
    let wide = ceiling as u64;
    if wide <= MAX_RESERVATION {
        wide
    } else {
        MAX_RESERVATION
    }
}

impl Default for RuntimeConfig {
    /// The default settings: the host surface granted, a ceiling of one
    /// gibibyte, the component model accepted.
    fn default() -> (c: Self)
        ensures
            c.wasi_enabled,
            c.max_memory == Some(DEFAULT_MAX_MEMORY),
            c.component_model,
            c.is_valid(),
    {
        RuntimeConfig {
            wasi_enabled: true,
            max_memory: Some(DEFAULT_MAX_MEMORY),
            component_model: true,
        }
    }
}

/// The step of an execution at which a module was turned down.
#[derive(Debug, Clone, Copy, PartialEq, Eq, Structural)]
pub enum Phase {
    /// The bytes do not have the framing of a binary module.
    Decode,
    /// The engine refused the module's contents.
    Validate,
    /// The module could not be instantiated.
    Instantiate,
    /// The module's start function trapped.
    Trap,
}

impl Phase {
    /// The word that names the phase in a diagnostic text.
    pub open spec fn label(&self) -> Seq<char> {
        match self {
            Phase::Decode => "decode"@,
            Phase::Validate => "validate"@,
            Phase::Instantiate => "instantiate"@,
            Phase::Trap => "trap"@,
        }
    }

    /// The word that names the phase.
    pub fn name(&self) -> (s: &'static str)
        ensures
            s@ == self.label(),
    {
        match self {
            Phase::Decode => "decode",
            Phase::Validate => "validate",
            Phase::Instantiate => "instantiate",
            Phase::Trap => "trap",
        }
    }
}

/// The diagnostic text of a failed execution: the phase's label, a colon and
/// a space, then the reason.
pub open spec fn failure_text(phase: Phase, reason: Seq<char>) -> Seq<char> {
    phase.label() + ": "@ + reason
}

/// The error that reports a failed execution: always an `ExecutionError`,
/// whose text names the phase and then gives the reason.
pub fn execution_failure(phase: Phase, reason: &str) -> (e: RuntimeError)
    ensures
        e is ExecutionError,
        e.detail() == failure_text(phase, reason@),
{
    let text = String::from_str(phase.name()).concat(": ").concat(reason);
    RuntimeError::ExecutionError(text)
}

/// The error for bytes that lack the framing of a module: an
/// `ExecutionError` in the decode phase, whose text gives the reason and the
/// offset of the fault.
pub fn decode_failure(fault: &DecodeError) -> (e: RuntimeError)
    ensures
        e is ExecutionError,
        e.detail() == failure_text(Phase::Decode, fault.text()),
{
    let text = fault.message();
    execution_failure(Phase::Decode, text.as_str())
}

/// The error for a failed instantiation, from what the engine reported: the
/// text of the trap if there was one, else the text of the engine's error.
pub fn instantiation_failure(trap: Option<&str>, error: &str) -> (e: RuntimeError)
    ensures
        e is ExecutionError,
        e.detail() == match trap {
            Some(t) => failure_text(Phase::Trap, t@),
            None => failure_text(Phase::Instantiate, error@),
        },
{
    match trap {
        Some(t) => execution_failure(Phase::Trap, t),
        None => execution_failure(Phase::Instantiate, error),
    }
}

/// A runtime: one engine and the configuration it was made with.
pub struct Runtime {
    engine: wasmtime::Engine,
    config: RuntimeConfig,
}

impl Runtime {
    #[verifier::type_invariant]
    spec fn well_formed(self) -> bool {
        self.config.is_valid()
    }

    /// The configuration that the runtime was made with.
    pub closed spec fn settings(&self) -> RuntimeConfig {
        self.config
    }

    /// Makes a runtime from a configuration.
    ///
    /// A configuration with a fault is rejected with a `ConfigurationError`
    /// that names the fault, before the engine is touched. A valid one gives
    /// a runtime that holds it unchanged, unless the engine cannot be built,
    /// which is an `InitializationError`.
    ///
    /// The engine is set to count fuel, so that every execution ends, and,
    /// where there is a ceiling, to reserve for a memory the address space
    /// that `reservation_for` gives.
    pub fn new(config: RuntimeConfig) -> (r: Result<Self, RuntimeError>)
        ensures
            match config.fault() {
                Some(fault) => r matches Err(e) && e is ConfigurationError && e.detail()
                    == fault.text(),
                None => match r {
                    Ok(runtime) => runtime.settings() == config,
                    Err(e) => e is InitializationError,
                },
            },
    {
        match config.check() {
            Some(fault) => Err(fault.into_error()),
            None => {
                let mut engine_config = wasmtime::Config::new();
                set_component_model(&mut engine_config, config.component_model);
                set_fuel_metering(&mut engine_config, true);
                if let Some(ceiling) = config.max_memory {
                    set_memory_reservation(&mut engine_config, memory_reservation(ceiling));
                }
                match wasmtime::Engine::new(&engine_config) {
                    Ok(engine) => Ok(Runtime { engine, config }),
                    Err(e) => Err(RuntimeError::InitializationError(error_text(&e))),
                }
            },
        }
    }

    /// The limits that every store of this runtime is held to: the memory
    /// ceiling of the configuration, where it has one.
    fn store_limits(&self) -> wasmtime::StoreLimits {
        let builder = wasmtime::StoreLimitsBuilder::new();
        let builder = match self.config.max_memory {
            Some(ceiling) => builder.memory_size(ceiling),
            None => builder,
        };
        builder.build()
    }

    /// Decodes, validates and instantiates a binary module, running its start
    /// function if it declares one. No imports are supplied, so a module that
    /// imports anything fails at instantiation. Nothing of the instance
    /// outlives the call, and the runtime is left as it was.
    ///
    /// The start function may use `EXECUTION_FUEL` and no more: one that
    /// runs on is stopped, which is a trap.
    ///
    /// Every failure is an `ExecutionError` whose text names the phase. Bytes
    /// without the framing of a module fail in the decode phase, with the
    /// reason and the offset of the fault, before the engine sees them; bytes
    /// with it fail, if they do, in a later phase, and a trap comes with the
    /// engine's words for it.
    pub fn execute(&self, wasm_bytes: &[u8]) -> (r: Result<(), RuntimeError>)
        ensures
            match decoded(wasm_bytes@) {
                Err(fault) => r matches Err(e) && e is ExecutionError && e.detail()
                    == failure_text(Phase::Decode, fault.text()),
                Ok(_) => r matches Err(e) ==> e is ExecutionError && exists|
                    phase: Phase,
                    reason: Seq<char>,
                |
                    {
                        &&& phase != Phase::Decode
                        &&& phase == Phase::Trap ==> reason.len() > 0
                        &&& e.detail() == #[trigger] failure_text(phase, reason)
                    },
            },
    {
        if let Err(fault) = decode(wasm_bytes) {
            return Err(decode_failure(&fault));
        }
        let mut store = match wasmtime::Store::try_new(&self.engine, self.store_limits()) {
            Ok(store) => store,
            Err(e) => {
                let text = error_text(&e);
                return Err(execution_failure(Phase::Instantiate, text.as_str()));
            },
        };
        enforce_limits(&mut store);
        let module = match compile(&self.engine, wasm_bytes) {
            Ok(module) => module,
            Err(e) => {
                let text = error_text(&e);
                return Err(execution_failure(Phase::Validate, text.as_str()));
            },
        };
        match instantiate(&mut store, &module, EXECUTION_FUEL) {
            Ok(_) => Ok(()),
            Err(e) => {
                let text = error_text(&e);
                match trap_of(&e) {
                    Some(trap) => {
                        let trap = trap_text(&trap);
                        Err(instantiation_failure(Some(trap.as_str()), text.as_str()))
                    },
                    None => Err(instantiation_failure(None, text.as_str())),
                }
            },
        }
    }

    /// The configuration that the runtime was made with. It is valid,
    /// whatever has been executed since.
    pub fn config(&self) -> (c: &RuntimeConfig)
        ensures
            *c == self.settings(),
            c.is_valid(),
    {
        proof {
            use_type_invariant(self);
        }
        &self.config
    }

    /// Whether the configuration means the host capability surface for
    /// guests.
    pub fn is_wasi_enabled(&self) -> (enabled: bool)
        ensures
            enabled == self.settings().wasi_enabled,
    {
        self.config.wasi_enabled
    }
}

} // verus!
