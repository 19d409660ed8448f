use execution_engine::access_rights::AccessRights;
use execution_engine::engine::{finish_execution, finish_preprocessing, EngineState, Error};
use execution_engine::error::{ExecutionError, StorageError};
use execution_engine::global_state::{EffectSet, GlobalState};
use execution_engine::key::{Key, Reference};
use execution_engine::tracking_copy::TrackingCopy;
use execution_engine::transform::Transform;
use execution_engine::value::Value;
use execution_engine::wasm_prep::process;
use parity_wasm::elements::Module;

const EMPTY_MODULE: [u8; 8] = [0x00, 0x61, 0x73, 0x6d, 0x01, 0x00, 0x00, 0x00];

fn key(n: u8) -> Key {
    Key::URef([n; 32])
}

fn engine_with_balance() -> EngineState {
    let mut state = GlobalState::new();
    state.apply(key(1), Transform::Write(Value::Number(100))).unwrap();
    EngineState::new(state)
}

#[test]
fn process_accepts_the_empty_module() {
    let module = process(&EMPTY_MODULE).unwrap();
    assert_eq!(module, Module::new(vec![]));
}

#[test]
fn process_accepts_a_built_module() {
    let built = parity_wasm::builder::module().function().signature().build().body().build().build().build();
    let bytes = parity_wasm::serialize(built.clone()).unwrap();
    assert_eq!(process(&bytes), Ok(built));
}

#[test]
fn process_reports_a_wrong_magic_number() {
    let bytes = [1u8, 2, 3, 4, 1, 0, 0, 0];
    assert_eq!(process(&bytes), Err(String::from("Invalid magic number at start of file")));
}

#[test]
fn process_reports_a_wrong_version() {
    let bytes = [0x00u8, 0x61, 0x73, 0x6d, 0x02, 0x00, 0x00, 0x00];
    assert_eq!(process(&bytes), Err(String::from("Unsupported wasm version 2")));
}

#[test]
fn process_refuses_short_input() {
    assert!(process(&[]).is_err());
    assert!(process(&EMPTY_MODULE[..7]).is_err());
    assert!(process(&EMPTY_MODULE[..4]).is_err());
}

#[test]
fn process_refuses_a_truncated_section() {
    let mut bytes = EMPTY_MODULE.to_vec();
    bytes.push(1);
    bytes.push(200);
    assert!(process(&bytes).is_err());
}

#[test]
fn preprocessing_message_is_wrapped_verbatim() {
    let wrapped = finish_preprocessing(Err(String::from("no module")));
    assert_eq!(wrapped, Err(Error::PreprocessingError { error: String::from("no module") }));
    let module = Module::new(vec![]);
    assert_eq!(finish_preprocessing(Ok(module.clone())), Ok(module));
}

#[test]
fn execution_failure_is_wrapped() {
    let trap = ExecutionError::Interpreter { message: String::from("out of gas") };
    assert_eq!(finish_execution(Err(trap.clone())).err(), Some(Error::ExecError(trap)));
    let denied = ExecutionError::from(StorageError::PermissionDenied);
    assert_eq!(denied, ExecutionError::Storage(StorageError::PermissionDenied));
    assert_eq!(finish_execution(Err(denied.clone())).err(), Some(Error::ExecError(denied)));
    let mut effects = EffectSet::new();
    effects.insert(key(1), Transform::Add(1));
    let passed = finish_execution(Ok(effects)).unwrap();
    assert_eq!(passed.get(&key(1)), Some(&Transform::Add(1)));
}

#[test]
fn errors_convert_into_the_engine_error() {
    assert_eq!(Error::from(StorageError::TypeMismatch), Error::StorageError(StorageError::TypeMismatch));
    let trap = ExecutionError::Interpreter { message: String::from("trap") };
    assert_eq!(Error::from(trap.clone()), Error::ExecError(trap));
}

#[test]
fn invalid_bytecode_gives_a_preprocessing_error_and_no_new_version() {
    let engine = engine_with_balance();
    let result = engine.run_deploy(&[0xde, 0xad, 0xbe, 0xef], [0u8; 20], |_module, _address, _tc| {
        panic!("a deploy that fails validation must not run")
    });
    assert_eq!(
        result.err(),
        Some(Error::PreprocessingError { error: String::from("Invalid magic number at start of file") })
    );
    assert_eq!(engine.state().version(), 1);
    assert_eq!(engine.state().snapshot().get(&key(1)), Some(Value::Number(100)));
}

#[test]
fn read_only_reference_cannot_write() {
    let engine = engine_with_balance();
    let read_only = Reference::new(key(1), AccessRights::new(true, false, false));
    let result = engine.run_deploy(&EMPTY_MODULE, [0u8; 20], |_module, _address, mut tc: TrackingCopy| {
        tc.write(&read_only, Value::Number(0))?;
        Ok(tc.effects())
    });
    assert_eq!(
        result.err(),
        Some(Error::ExecError(ExecutionError::Storage(StorageError::PermissionDenied)))
    );
    assert_eq!(engine.state().version(), 1);
    assert_eq!(engine.state().snapshot().get(&key(1)), Some(Value::Number(100)));
}

#[test]
fn written_value_is_read_back_within_the_execution() {
    let engine = engine_with_balance();
    let handle = Reference::new(key(2), AccessRights::new(true, true, false));
    let result = engine.run_deploy(&EMPTY_MODULE, [7u8; 20], |_module, address, mut tc: TrackingCopy| {
        assert_eq!(address, [7u8; 20]);
        tc.write(&handle, Value::Number(42))?;
        assert_eq!(tc.read(&handle), Ok(Some(Value::Number(42))));
        Ok(tc.effects())
    });
    let effects = result.unwrap();
    assert_eq!(effects.len(), 1);
    assert_eq!(effects.get(&key(2)), Some(&Transform::Write(Value::Number(42))));
    assert_eq!(engine.state().version(), 1);
    assert_eq!(engine.state().snapshot().get(&key(2)), None);
}

#[test]
fn execution_starts_from_a_fresh_overlay_of_the_current_state() {
    let engine = engine_with_balance();
    let handle = Reference::new(key(1), AccessRights::all());
    let result = engine.run_deploy(&EMPTY_MODULE, [0u8; 20], |_module, _address, mut tc: TrackingCopy| {
        assert!(tc.effects().is_empty());
        assert_eq!(tc.read(&handle), Ok(Some(Value::Number(100))));
        Ok(tc.effects())
    });
    assert!(result.unwrap().is_empty());
}

#[test]
fn add_to_a_key_never_written_commits_the_delta() {
    let mut engine = engine_with_balance();
    let handle = Reference::new(key(3), AccessRights::new(false, false, true));
    let effects = engine
        .run_deploy(&EMPTY_MODULE, [0u8; 20], |_module, _address, mut tc: TrackingCopy| {
            tc.add(&handle, 5)?;
            Ok(tc.effects())
        })
        .unwrap();
    assert_eq!(effects.get(&key(3)), Some(&Transform::Add(5)));
    assert_eq!(engine.state().snapshot().get(&key(3)), None);
    assert_eq!(engine.apply_effect(key(3), Transform::Add(5)), Ok(()));
    assert_eq!(engine.state().snapshot().get(&key(3)), Some(Value::Number(5)));
    assert_eq!(engine.state().version(), 2);
}

#[test]
fn effects_of_a_deploy_commit_as_a_batch() {
    let mut engine = engine_with_balance();
    let balance = Reference::new(key(1), AccessRights::all());
    let note = Reference::new(key(2), AccessRights::all());
    let effects = engine
        .run_deploy(&EMPTY_MODULE, [0u8; 20], |_module, _address, mut tc: TrackingCopy| {
            tc.add(&balance, 1)?;
            tc.write(&note, Value::Bytes(vec![1, 2]))?;
            Ok(tc.effects())
        })
        .unwrap();
    assert_eq!(engine.commit(&effects), Ok(2));
    let snapshot = engine.state().snapshot();
    assert_eq!(snapshot.get(&key(1)), Some(Value::Number(101)));
    assert_eq!(snapshot.get(&key(2)), Some(Value::Bytes(vec![1, 2])));
}

#[test]
fn failed_commit_is_a_storage_error_and_changes_nothing() {
    let mut engine = engine_with_balance();
    engine.apply_effect(key(2), Transform::Write(Value::Bytes(vec![1]))).unwrap();
    assert_eq!(
        engine.apply_effect(key(2), Transform::Add(1)),
        Err(Error::StorageError(StorageError::TypeMismatch))
    );
    let mut effects = EffectSet::new();
    effects.insert(key(1), Transform::Add(1));
    effects.insert(key(2), Transform::Add(1));
    assert_eq!(engine.commit(&effects), Err(Error::StorageError(StorageError::TypeMismatch)));
    assert_eq!(engine.state().version(), 2);
    assert_eq!(engine.state().snapshot().get(&key(1)), Some(Value::Number(100)));
}

#[test]
fn interpreter_failure_is_local_to_the_deploy() {
    let engine = engine_with_balance();
    let handle = Reference::new(key(1), AccessRights::all());
    let result = engine.run_deploy(&EMPTY_MODULE, [0u8; 20], |_module, _address, mut tc: TrackingCopy| {
        tc.write(&handle, Value::Number(0))?;
        Err(ExecutionError::Interpreter { message: String::from("unreachable") })
    });
    assert_eq!(
        result.err(),
        Some(Error::ExecError(ExecutionError::Interpreter { message: String::from("unreachable") }))
    );
    assert_eq!(engine.state().snapshot().get(&key(1)), Some(Value::Number(100)));
}

#[test]
fn signatures_are_accepted() {
    let engine = engine_with_balance();
    assert_eq!(engine.validate_signatures(&[1, 2], &[3, 4], "ed25519"), Ok(String::from("OK")));
    assert_eq!(engine.validate_signatures(&[], &[], ""), Ok(String::from("OK")));
}
