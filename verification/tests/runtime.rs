use wasm_sdk_core::runtime::{
    execution_failure, instantiation_failure, memory_reservation, ConfigFault, Phase,
    DEFAULT_MAX_MEMORY, EXECUTION_FUEL, MAX_RESERVATION, PAGE_SIZE,
};
use wasm_sdk_core::{Runtime, RuntimeConfig, RuntimeError};

const EMPTY_MODULE: [u8; 8] = [0x00, 0x61, 0x73, 0x6d, 0x01, 0x00, 0x00, 0x00];

fn config_with(max_memory: Option<usize>) -> RuntimeConfig {
    RuntimeConfig { wasi_enabled: true, max_memory, component_model: true }
}

fn execution_text(result: Result<(), RuntimeError>) -> String {
    match result {
        Err(RuntimeError::ExecutionError(text)) => text,
        other => panic!("expected an execution error, got {:?}", other),
    }
}

#[test]
fn test_runtime_creation() {
    let config = RuntimeConfig::default();
    let runtime = Runtime::new(config);
    assert!(runtime.is_ok());
}

#[test]
fn test_runtime_config() {
    let config = RuntimeConfig {
        wasi_enabled: true,
        max_memory: Some(512 * 1024 * 1024),
        component_model: true,
    };
    let runtime = Runtime::new(config).unwrap();
    assert!(runtime.is_wasi_enabled());
}

#[test]
fn default_config_has_the_documented_values() {
    let config = RuntimeConfig::default();
    assert!(config.wasi_enabled);
    assert!(config.component_model);
    assert_eq!(config.max_memory, Some(1_073_741_824));
    assert_eq!(DEFAULT_MAX_MEMORY, 1_073_741_824);
    assert_eq!(PAGE_SIZE, 65_536);
    assert_eq!(config.check(), None);
}

#[test]
fn valid_configs_are_accepted() {
    for max_memory in [None, Some(PAGE_SIZE), Some(3 * PAGE_SIZE), Some(512 * 1024 * 1024)] {
        for wasi_enabled in [false, true] {
            for component_model in [false, true] {
                let config = RuntimeConfig { wasi_enabled, max_memory, component_model };
                assert_eq!(config.check(), None);
                let runtime = Runtime::new(config).unwrap();
                assert_eq!(runtime.is_wasi_enabled(), wasi_enabled);
                assert_eq!(runtime.config().max_memory, max_memory);
                assert_eq!(runtime.config().component_model, component_model);
            }
        }
    }
}

#[test]
fn zero_max_memory_is_a_configuration_error() {
    let config = config_with(Some(0));
    assert_eq!(config.check(), Some(ConfigFault::ZeroMemory));
    match Runtime::new(config) {
        Err(RuntimeError::ConfigurationError(text)) => {
            assert_eq!(text, "max_memory must be greater than zero");
        }
        _ => panic!("expected a configuration error"),
    }
}

#[test]
fn unaligned_max_memory_is_a_configuration_error() {
    for bytes in [1, 1000, PAGE_SIZE - 1, PAGE_SIZE + 1, usize::MAX] {
        let config = config_with(Some(bytes));
        assert_eq!(config.check(), Some(ConfigFault::UnalignedMemory));
        match Runtime::new(config) {
            Err(RuntimeError::ConfigurationError(text)) => {
                assert_eq!(text, "max_memory must be a multiple of the page size");
            }
            _ => panic!("expected a configuration error"),
        }
    }
}

#[test]
fn config_fault_becomes_a_configuration_error() {
    match ConfigFault::ZeroMemory.into_error() {
        RuntimeError::ConfigurationError(text) => {
            assert_eq!(text, "max_memory must be greater than zero")
        }
        _ => panic!("expected a configuration error"),
    }
    match ConfigFault::UnalignedMemory.into_error() {
        RuntimeError::ConfigurationError(text) => {
            assert_eq!(text, "max_memory must be a multiple of the page size")
        }
        _ => panic!("expected a configuration error"),
    }
}

#[test]
fn error_messages_carry_their_heading() {
    assert_eq!(
        RuntimeError::InitializationError("no engine".to_string()).message(),
        "Initialization error: no engine"
    );
    assert_eq!(
        RuntimeError::ExecutionError("trap: boom".to_string()).message(),
        "Execution error: trap: boom"
    );
    assert_eq!(
        RuntimeError::ConfigurationError("bad".to_string()).message(),
        "Configuration error: bad"
    );
    assert_eq!(RuntimeError::ExecutionError(String::new()).message(), "Execution error: ");
}

#[test]
fn phases_have_their_names() {
    assert_eq!(Phase::Decode.name(), "decode");
    assert_eq!(Phase::Validate.name(), "validate");
    assert_eq!(Phase::Instantiate.name(), "instantiate");
    assert_eq!(Phase::Trap.name(), "trap");
}

#[test]
fn execution_failure_names_the_phase() {
    match execution_failure(Phase::Validate, "type mismatch") {
        RuntimeError::ExecutionError(text) => assert_eq!(text, "validate: type mismatch"),
        _ => panic!("expected an execution error"),
    }
    match execution_failure(Phase::Decode, "") {
        RuntimeError::ExecutionError(text) => assert_eq!(text, "decode: "),
        _ => panic!("expected an execution error"),
    }
}

#[test]
fn instantiation_failure_prefers_the_trap() {
    match instantiation_failure(Some("wasm trap: unreachable"), "backtrace") {
        RuntimeError::ExecutionError(text) => assert_eq!(text, "trap: wasm trap: unreachable"),
        _ => panic!("expected an execution error"),
    }
    match instantiation_failure(None, "expected 1 imports, found 0") {
        RuntimeError::ExecutionError(text) => {
            assert_eq!(text, "instantiate: expected 1 imports, found 0")
        }
        _ => panic!("expected an execution error"),
    }
}

#[test]
fn empty_module_executes() {
    let runtime = Runtime::new(RuntimeConfig::default()).unwrap();
    assert!(runtime.execute(&EMPTY_MODULE).is_ok());
    assert_eq!(wat::parse_str("(module)").unwrap(), EMPTY_MODULE.to_vec());
}

#[test]
fn module_without_a_memory_ceiling_executes() {
    let runtime = Runtime::new(config_with(None)).unwrap();
    let module = wat::parse_str("(module (func (result i32) (i32.const 7)))").unwrap();
    assert!(runtime.execute(&module).is_ok());
}

#[test]
fn invalid_function_body_fails_validation() {
    let runtime = Runtime::new(RuntimeConfig::default()).unwrap();
    // A function declared to return an i32 whose body leaves nothing.
    let module = [
        0x00, 0x61, 0x73, 0x6d, 0x01, 0x00, 0x00, 0x00, // header
        0x01, 0x05, 0x01, 0x60, 0x00, 0x01, 0x7f, // type section: () -> i32
        0x03, 0x02, 0x01, 0x00, // function section
        0x0a, 0x04, 0x01, 0x02, 0x00, 0x0b, // code section: empty body
    ];
    let text = execution_text(runtime.execute(&module));
    assert!(text.starts_with("validate: "), "{}", text);
}

#[test]
fn start_function_runs_and_its_trap_surfaces() {
    let runtime = Runtime::new(RuntimeConfig::default()).unwrap();
    let module = wat::parse_str(
        "(module
           (func $divide (export \"divide\") (drop (i32.div_s (i32.const 1) (i32.const 0))))
           (start $divide))",
    )
    .unwrap();
    let text = execution_text(runtime.execute(&module));
    assert_eq!(text, "trap: wasm trap: integer divide by zero");
}

#[test]
fn unreachable_in_start_is_a_trap() {
    let runtime = Runtime::new(RuntimeConfig::default()).unwrap();
    let module = wat::parse_str("(module (func $f unreachable) (start $f))").unwrap();
    let text = execution_text(runtime.execute(&module));
    assert!(text.starts_with("trap: "), "{}", text);
}

#[test]
fn exported_function_is_not_invoked() {
    let runtime = Runtime::new(RuntimeConfig::default()).unwrap();
    let module = wat::parse_str(
        "(module (func (export \"divide\") (drop (i32.div_s (i32.const 1) (i32.const 0)))))",
    )
    .unwrap();
    assert!(runtime.execute(&module).is_ok());
}

#[test]
fn wasi_import_fails_at_instantiation() {
    let module = wat::parse_str(
        "(module (import \"wasi_snapshot_preview1\" \"proc_exit\" (func (param i32))))",
    )
    .unwrap();
    let config = RuntimeConfig { wasi_enabled: false, max_memory: None, component_model: false };
    let runtime = Runtime::new(config).unwrap();
    let first = execution_text(runtime.execute(&module));
    assert!(first.starts_with("instantiate: "), "{}", first);
    for _ in 0..3 {
        assert_eq!(execution_text(runtime.execute(&module)), first);
    }
    let again = Runtime::new(RuntimeConfig {
        wasi_enabled: false,
        max_memory: None,
        component_model: false,
    })
    .unwrap();
    assert_eq!(execution_text(again.execute(&module)), first);
}

#[test]
fn initial_memory_over_the_ceiling_fails() {
    let module = wat::parse_str("(module (memory 2))").unwrap();
    let tight = Runtime::new(config_with(Some(PAGE_SIZE))).unwrap();
    let text = execution_text(tight.execute(&module));
    assert!(text.starts_with("instantiate: "), "{}", text);
    let roomy = Runtime::new(config_with(Some(2 * PAGE_SIZE))).unwrap();
    let result = roomy.execute(&module);
    assert!(result.is_ok(), "{:?}", result);
}

#[test]
fn growth_past_the_ceiling_is_refused() {
    // The start function traps unless growing by one page is refused.
    let expects_refusal = wat::parse_str(
        "(module (memory 1)
           (func $grow
             (if (i32.ne (memory.grow (i32.const 1)) (i32.const -1)) (then unreachable)))
           (start $grow))",
    )
    .unwrap();
    // The start function traps unless growing by one page succeeds and the
    // memory then has two pages.
    let expects_growth = wat::parse_str(
        "(module (memory 1)
           (func $grow
             (if (i32.ne (memory.grow (i32.const 1)) (i32.const 1)) (then unreachable))
             (if (i32.ne (memory.size) (i32.const 2)) (then unreachable)))
           (start $grow))",
    )
    .unwrap();
    let tight = Runtime::new(config_with(Some(PAGE_SIZE))).unwrap();
    assert!(tight.execute(&expects_refusal).is_ok());
    assert!(tight.execute(&expects_growth).is_err());
    let roomy = Runtime::new(config_with(Some(2 * PAGE_SIZE))).unwrap();
    assert!(roomy.execute(&expects_growth).is_ok());
    assert!(roomy.execute(&expects_refusal).is_err());
}

#[test]
fn runtimes_are_independent() {
    let first = Runtime::new(RuntimeConfig::default()).unwrap();
    let second = Runtime::new(RuntimeConfig::default()).unwrap();
    let trapping = wat::parse_str("(module (func $f unreachable) (start $f))").unwrap();
    assert!(second.execute(&EMPTY_MODULE).is_ok());
    assert!(first.execute(&trapping).is_err());
    assert!(second.execute(&EMPTY_MODULE).is_ok());
    assert!(first.execute(&EMPTY_MODULE).is_ok());
    assert!(first.is_wasi_enabled());
    assert_eq!(first.config().max_memory, second.config().max_memory);
}

#[test]
fn runtime_survives_a_failed_execution() {
    let runtime = Runtime::new(RuntimeConfig::default()).unwrap();
    assert!(runtime.execute(&[0x01, 0x02, 0x03]).is_err());
    assert!(runtime.execute(&EMPTY_MODULE).is_ok());
    assert_eq!(runtime.config().max_memory, Some(DEFAULT_MAX_MEMORY));
}

#[test]
fn reservation_follows_the_ceiling_up_to_its_cap() {
    assert_eq!(MAX_RESERVATION, 10 * 1024 * 1024);
    assert_eq!(memory_reservation(0), 0);
    assert_eq!(memory_reservation(PAGE_SIZE), 65_536);
    assert_eq!(memory_reservation(3 * PAGE_SIZE), 196_608);
    assert_eq!(memory_reservation(10 * 1024 * 1024), 10_485_760);
    assert_eq!(memory_reservation(10 * 1024 * 1024 + 1), 10_485_760);
    assert_eq!(memory_reservation(DEFAULT_MAX_MEMORY), 10_485_760);
    assert_eq!(memory_reservation(1 << 47), 10_485_760);
    assert_eq!(memory_reservation(usize::MAX - 65_535), 10_485_760);
    assert_eq!(memory_reservation(usize::MAX), 10_485_760);
}

#[test]
fn large_ceilings_leave_memories_usable() {
    // The start function stores to the memory and loads from it, and traps
    // unless it reads back what it wrote.
    let module = wat::parse_str(
        "(module (memory 1)
           (func $touch
             (i32.store (i32.const 8) (i32.const 42))
             (if (i32.ne (i32.load (i32.const 8)) (i32.const 42)) (then unreachable))
             (if (i32.ne (memory.grow (i32.const 1)) (i32.const 1)) (then unreachable)))
           (start $touch))",
    )
    .unwrap();
    for ceiling in [DEFAULT_MAX_MEMORY, 1 << 32, 1 << 47, usize::MAX - 65_535] {
        let runtime = Runtime::new(config_with(Some(ceiling))).unwrap();
        let result = runtime.execute(&module);
        assert!(result.is_ok(), "ceiling {}: {:?}", ceiling, result);
    }
}

#[test]
fn memory_may_outgrow_its_reservation() {
    let module = wat::parse_str("(module (memory 200))").unwrap();
    let runtime = Runtime::new(config_with(Some(1 << 47))).unwrap();
    let result = runtime.execute(&module);
    assert!(result.is_ok(), "{:?}", result);
}

#[test]
fn runaway_start_function_is_stopped() {
    let runtime = Runtime::new(RuntimeConfig::default()).unwrap();
    let module = wat::parse_str("(module (func $spin (loop (br 0))) (start $spin))").unwrap();
    let text = execution_text(runtime.execute(&module));
    assert_eq!(text, "trap: wasm trap: all fuel consumed by WebAssembly");
    assert!(runtime.execute(&EMPTY_MODULE).is_ok());
}

#[test]
fn each_execution_has_the_whole_budget() {
    assert_eq!(EXECUTION_FUEL, 100_000_000);
    // A start function that counts down from a million.
    let module = wat::parse_str(
        "(module
           (func $count (local $n i32)
             (local.set $n (i32.const 1000000))
             (loop $again
               (local.set $n (i32.sub (local.get $n) (i32.const 1)))
               (br_if $again (local.get $n))))
           (start $count))",
    )
    .unwrap();
    let runtime = Runtime::new(RuntimeConfig::default()).unwrap();
    for _ in 0..3 {
        assert!(runtime.execute(&module).is_ok());
    }
}
