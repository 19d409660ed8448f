use execution_engine::access_rights::AccessRights;
use execution_engine::execution_result::{ExecutionResult, Gas};
use execution_engine::genesis::{GenesisAccount, ProtocolVersion, WasmCosts};
use execution_engine::global_state::EffectSet;
use execution_engine::key::{Key, Reference};
use execution_engine::test_support::{
    create_genesis_config, decimal_text, get_account, get_compiled_wasm_paths, get_error_message,
    get_exec_costs, get_precondition_failure, get_success_result, read_wasm_file_bytes, Attempt,
    DEFAULT_CHAIN_NAME, DEFAULT_GENESIS_TIMESTAMP,
};
use execution_engine::transform::Transform;
use execution_engine::value::{Account, Value};
use std::cell::RefCell;

fn success(cost: u64) -> ExecutionResult {
    ExecutionResult::Success { effect: EffectSet::new(), cost: Gas { value: cost } }
}

fn failure(message: &str, cost: u64) -> ExecutionResult {
    ExecutionResult::Failure { error: String::from(message), effect: EffectSet::new(), cost: Gas { value: cost } }
}

#[test]
fn wasm_paths_without_the_optional_ones() {
    let paths = get_compiled_wasm_paths(None, String::from("/ws/target/wasm32-unknown-unknown/release"), String::from("/cwd/wasm"), None);
    assert_eq!(paths, vec![String::from("/ws/target/wasm32-unknown-unknown/release"), String::from("/cwd/wasm")]);
}

#[test]
fn wasm_paths_with_the_target_directory_last() {
    let paths = get_compiled_wasm_paths(None, String::from("a"), String::from("b"), Some(String::from("c")));
    assert_eq!(paths, vec![String::from("a"), String::from("b"), String::from("c")]);
}

#[test]
fn wasm_paths_with_assembly_script_first() {
    let paths = get_compiled_wasm_paths(Some(String::from("as")), String::from("a"), String::from("b"), Some(String::from("c")));
    assert_eq!(paths, vec![String::from("as"), String::from("a"), String::from("b"), String::from("c")]);
}

#[test]
fn relative_file_is_looked_for_in_each_directory_first() {
    let directories = vec![String::from("a"), String::from("b")];
    let asked: RefCell<Vec<Attempt>> = RefCell::new(vec![]);
    let result = read_wasm_file_bytes(true, &directories, |attempt| {
        asked.borrow_mut().push(attempt);
        match attempt {
            Attempt::InDirectory(1) => Ok(vec![1, 2, 3]),
            Attempt::InDirectory(i) => Err(format!("{}/x.wasm", directories[i])),
            Attempt::AsGiven => Ok(vec![9]),
        }
    });
    assert_eq!(result, Ok(vec![1, 2, 3]));
    assert_eq!(*asked.borrow(), vec![Attempt::InDirectory(0), Attempt::InDirectory(1)]);
}

#[test]
fn relative_file_is_tried_as_given_last() {
    let directories = vec![String::from("a"), String::from("b")];
    let asked: RefCell<Vec<Attempt>> = RefCell::new(vec![]);
    let result = read_wasm_file_bytes(true, &directories, |attempt| {
        asked.borrow_mut().push(attempt);
        match attempt {
            Attempt::InDirectory(i) => Err(format!("{}/x.wasm", directories[i])),
            Attempt::AsGiven => Ok(vec![9]),
        }
    });
    assert_eq!(result, Ok(vec![9]));
    assert_eq!(*asked.borrow(), vec![Attempt::InDirectory(0), Attempt::InDirectory(1), Attempt::AsGiven]);
}

#[test]
fn absolute_file_is_tried_as_given_only() {
    let directories = vec![String::from("a"), String::from("b")];
    let asked: RefCell<Vec<Attempt>> = RefCell::new(vec![]);
    let result = read_wasm_file_bytes(false, &directories, |attempt| {
        asked.borrow_mut().push(attempt);
        Err(String::from("/abs/x.wasm"))
    });
    assert_eq!(
        result,
        Err(String::from("\nFailed to open compiled Wasm file.  Tried the following locations:\n    - /abs/x.wasm\n"))
    );
    assert_eq!(*asked.borrow(), vec![Attempt::AsGiven]);
}

#[test]
fn file_found_nowhere_reports_every_location() {
    let directories = vec![String::from("a"), String::from("b")];
    let result = read_wasm_file_bytes(true, &directories, |attempt| match attempt {
        Attempt::InDirectory(i) => Err(format!("{}/x.wasm", directories[i])),
        Attempt::AsGiven => Err(String::from("x.wasm")),
    });
    assert_eq!(
        result,
        Err(String::from(
            "\nFailed to open compiled Wasm file.  Tried the following locations:\n    - a/x.wasm\n    - b/x.wasm\n    - x.wasm\n"
        ))
    );
}

#[test]
fn genesis_config_takes_the_defaults() {
    let accounts = vec![GenesisAccount { public_key: [1u8; 32], balance: 100, bonded_amount: 10 }];
    let config = create_genesis_config(accounts.clone(), vec![1], vec![2, 2], vec![3, 3, 3]);
    assert_eq!(config.name, "gerald");
    assert_eq!(config.name, DEFAULT_CHAIN_NAME);
    assert_eq!(config.timestamp, 0);
    assert_eq!(config.timestamp, DEFAULT_GENESIS_TIMESTAMP);
    assert_eq!(config.protocol_version, ProtocolVersion { major: 1, minor: 0, patch: 0 });
    assert_eq!(config.mint_installer_bytes, vec![1]);
    assert_eq!(config.proof_of_stake_installer_bytes, vec![2, 2]);
    assert_eq!(config.standard_payment_installer_bytes, vec![3, 3, 3]);
    assert_eq!(config.accounts, accounts);
    assert_eq!(
        config.wasm_costs,
        WasmCosts {
            regular: 1,
            div: 16,
            mul: 4,
            mem: 2,
            initial_mem: 4096,
            grow_mem: 8192,
            memcpy: 1,
            max_stack_height: 65536,
            opcodes_mul: 3,
            opcodes_div: 8,
        }
    );
}

#[test]
fn exec_costs_in_order() {
    let response = vec![success(3), failure("boom", 0), success(u64::MAX)];
    assert_eq!(get_exec_costs(&response), vec![Gas { value: 3 }, Gas { value: 0 }, Gas { value: u64::MAX }]);
    assert_eq!(get_exec_costs(&[]), vec![]);
}

#[test]
fn success_result_is_the_first() {
    let response = vec![success(3), success(4)];
    let first = get_success_result(&response);
    assert!(first.is_success());
    assert_eq!(first.cost(), Gas { value: 3 });
}

#[test]
fn precondition_failure_costs_nothing_and_has_no_effect() {
    let turned_down = ExecutionResult::precondition_failure(String::from("bad nonce"));
    assert!(turned_down.has_precondition_failure());
    assert!(turned_down.is_failure());
    assert_eq!(turned_down.cost(), Gas { value: 0 });
    assert!(turned_down.effect().is_empty());
    assert_eq!(turned_down.error(), Some(&String::from("bad nonce")));
    assert!(!failure("ran", 1).has_precondition_failure());
    assert!(!success(0).has_precondition_failure());
    assert_eq!(success(0).error(), None);
    let mut effect = EffectSet::new();
    effect.insert(Key::Hash([1u8; 32]), Transform::Add(1));
    let with_effect = ExecutionResult::Failure { error: String::from("late"), effect, cost: Gas { value: 0 } };
    assert!(!with_effect.has_precondition_failure());
}

#[test]
fn precondition_failure_message() {
    let response = vec![ExecutionResult::precondition_failure(String::from("bad nonce")), success(1)];
    assert_eq!(get_precondition_failure(&response), "bad nonce");
}

#[test]
fn error_message_lists_the_failures_by_position() {
    let response = vec![success(1), failure("boom", 2), success(3), failure("bang", 4)];
    assert_eq!(get_error_message(&response), "1: boom\n3: bang");
}

#[test]
fn error_message_of_one_failure_has_no_line_feed() {
    assert_eq!(get_error_message(&[failure("boom", 2)]), "0: boom");
}

#[test]
fn error_message_without_failures_is_empty() {
    assert_eq!(get_error_message(&[success(1), success(2)]), "");
    assert_eq!(get_error_message(&[]), "");
}

#[test]
fn error_message_counts_beyond_one_digit() {
    let mut response = vec![];
    let mut i = 0;
    while i < 12 {
        response.push(success(i));
        i += 1;
    }
    response.push(failure("late", 0));
    assert_eq!(get_error_message(&response), "12: late");
}

#[test]
fn numbers_in_decimal() {
    assert_eq!(decimal_text(0), "0");
    assert_eq!(decimal_text(7), "7");
    assert_eq!(decimal_text(10), "10");
    assert_eq!(decimal_text(1234567890), "1234567890");
    assert_eq!(decimal_text(usize::MAX), usize::MAX.to_string());
}

#[test]
fn account_is_found_where_one_is_written() {
    let account_key = Key::Account([1u8; 20]);
    let record = Account {
        public_key: [1u8; 32],
        nonce: 3,
        main_purse: Reference::new(Key::URef([2u8; 32]), AccessRights::all()),
    };
    let mut transforms = EffectSet::new();
    transforms.insert(account_key, Transform::Write(Value::Account(record)));
    transforms.insert(Key::Hash([1u8; 32]), Transform::Write(Value::Number(1)));
    transforms.insert(Key::URef([1u8; 32]), Transform::Add(1));
    assert_eq!(get_account(&transforms, &account_key), Some(record));
    assert_eq!(get_account(&transforms, &Key::Hash([1u8; 32])), None);
    assert_eq!(get_account(&transforms, &Key::URef([1u8; 32])), None);
    assert_eq!(get_account(&transforms, &Key::Account([9u8; 20])), None);
}
