//! Helpers for tests that drive the engine: where compiled contracts are
//! looked for, and what to read off a list of execution results.
use vstd::prelude::*;
use vstd::string::StringExecFns;
use crate::execution_result::{ExecutionResult, Gas};
use crate::genesis::{GenesisAccount, GenesisConfig, GenesisConfigView, ProtocolVersion, WasmCosts};
use crate::global_state::EffectSet;
use crate::key::Key;
use crate::transform::{Transform, TransformView};
use crate::value::{Account, Value, ValueView};

verus! {

/// The content of a list of paths.
pub open spec fn path_views(paths: Seq<String>) -> Seq<Seq<char>> {
    paths.map_values(|p: String| p@)
}

/// The content of a path that may be absent, as a list of none or one.
pub open spec fn optional_path(path: Option<String>) -> Seq<Seq<char>> {
    match path {
        Some(p) => seq![p@],
        None => Seq::empty(),
    }
}

/// The directories in which a compiled contract is looked for, in the order
/// in which they are tried: the directory of contracts compiled from
/// AssemblyScript where there is one, the workspace's own target directory,
/// the `wasm` directory of a generated test crate, and the directory under
/// an overriding target directory where one is set.
pub fn get_compiled_wasm_paths(
    assembly_script_workspace_wasm_path: Option<String>,
    rust_workspace_wasm_path: String,
    rust_tool_wasm_path: String,
    maybe_cargo_target_dir_wasm_path: Option<String>,
) -> (ret: Vec<String>)
    ensures
        path_views(ret@) == optional_path(assembly_script_workspace_wasm_path) + seq![
            rust_workspace_wasm_path@,
            rust_tool_wasm_path@,
        ] + optional_path(maybe_cargo_target_dir_wasm_path),
{
    let mut ret: Vec<String> = Vec::new();
    if let Some(assembly_script_path) = assembly_script_workspace_wasm_path {
        ret.push(assembly_script_path);
    }
    ret.push(rust_workspace_wasm_path);
    ret.push(rust_tool_wasm_path);
    if let Some(cargo_target_dir_wasm_path) = maybe_cargo_target_dir_wasm_path {
        ret.push(cargo_target_dir_wasm_path);
    }
    assert(path_views(ret@) =~= optional_path(assembly_script_workspace_wasm_path) + seq![
        rust_workspace_wasm_path@,
        rust_tool_wasm_path@,
    ] + optional_path(maybe_cargo_target_dir_wasm_path));
    ret
}

/// One place in which a compiled contract is looked for.
#[derive(Clone, Copy, Debug, PartialEq, Eq, Structural)]
pub enum Attempt {
    /// The file's path taken relative to the directory at this position in
    /// the list of directories.
    InDirectory(usize),
    /// The file's path as it was given.
    AsGiven,
}

/// The places in which a compiled contract is looked for, in the order in
/// which they are tried: a relative path in each of the directories, from
/// the first on; then, and for any other path only, the path as given.
pub open spec fn attempts(is_relative: bool, directories: nat) -> Seq<Attempt> {
    if is_relative {
        Seq::new(directories, |i: int| Attempt::InDirectory(i as usize)).push(Attempt::AsGiven)
    } else {
        seq![Attempt::AsGiven]
    }
}

/// The head of the text that reports a file that was found nowhere.
pub open spec fn failure_heading() -> Seq<char> {
    "\nFailed to open compiled Wasm file.  Tried the following locations:\n"@
}

/// The text that reports a file that was found nowhere: the heading, and a
/// line for each location that was tried.
pub open spec fn failure_report(attempted: Seq<Seq<char>>) -> Seq<char>
    decreases attempted.len(),
{
    if attempted.len() == 0 {
        failure_heading()
    } else {
        failure_report(attempted.drop_last()) + seq![' ', ' ', ' ', ' ', '-', ' '] + attempted.last()
            + seq!['\n']
    }
}

/// Whether `read` may answer that it could not read the file at `attempt`.
pub open spec fn found_nothing<R: Fn(Attempt) -> Result<Vec<u8>, String>>(
    read: R,
    attempt: Attempt,
) -> bool {
    exists|path: String| #[trigger] read.ensures((attempt,), Err(path))
}

/// Looks for the bytes of a compiled contract. `read` is asked for each
/// place of [`attempts`] in turn, and answers with the file's bytes or, if
/// it could not read the file there, with the path that it tried. The first
/// bytes that it gives are returned and it is not asked again. If it gives
/// none, the report of all the paths tried is returned as the error.
pub fn read_wasm_file_bytes<R>(is_relative: bool, wasm_paths: &[String], read: R) -> (result: Result<
    Vec<u8>,
    String,
>) where R: Fn(Attempt) -> Result<Vec<u8>, String>
    requires
        forall|attempt: Attempt| #[trigger] read.requires((attempt,)),
    ensures
        match result {
            Ok(bytes) => exists|k: int|
                0 <= k < attempts(is_relative, wasm_paths@.len()).len() && #[trigger] read.ensures(
                    (attempts(is_relative, wasm_paths@.len())[k],),
                    Ok(bytes),
                ) && forall|j: int|
                    0 <= j < k ==> #[trigger] found_nothing(
                        read,
                        attempts(is_relative, wasm_paths@.len())[j],
                    ),
            Err(report) => exists|attempted: Seq<String>|
                attempted.len() == attempts(is_relative, wasm_paths@.len()).len() && report@
                    == failure_report(path_views(attempted)) && forall|j: int|
                    0 <= j < attempted.len() ==> #[trigger] read.ensures(
                        (attempts(is_relative, wasm_paths@.len())[j],),
                        Err(attempted[j]),
                    ),
        },
{
    let mut report = String::from_str(
        "\nFailed to open compiled Wasm file.  Tried the following locations:\n",
    );
    let ghost order = attempts(is_relative, wasm_paths@.len());
    let ghost mut attempted: Seq<String> = Seq::empty();
    proof {
        reveal_strlit("    - ");
        reveal_strlit("\n");
        assert(path_views(attempted) =~= Seq::<Seq<char>>::empty());
    }
    if is_relative {
        let mut i: usize = 0;
        while i < wasm_paths.len()
            invariant
                i <= wasm_paths.len(),
                is_relative,
                order == attempts(is_relative, wasm_paths@.len()),
                forall|attempt: Attempt| #[trigger] read.requires((attempt,)),
                attempted.len() == i,
                report@ == failure_report(path_views(attempted)),
                forall|j: int| 0 <= j < i ==> #[trigger] read.ensures((order[j],), Err(attempted[j])),
                "    - "@ =~= seq![' ', ' ', ' ', ' ', '-', ' '],
                "\n"@ =~= seq!['\n'],
            decreases wasm_paths.len() - i,
        {
            match read(Attempt::InDirectory(i)) {
                Ok(wasm_bytes) => {
                    assert(order[i as int] == Attempt::InDirectory(i));
                    assert forall|j: int| 0 <= j < i implies #[trigger] found_nothing(
                        read,
                        order[j],
                    ) by {
                        assert(read.ensures((order[j],), Err(attempted[j])));
                    }
                    return Ok(wasm_bytes);
                },
                Err(filename) => {
                    assert(order[i as int] == Attempt::InDirectory(i));
                    report.append("    - ");
                    report.append(filename.as_str());
                    report.append("\n");
                    proof {
                        let before = attempted;
                        attempted = attempted.push(filename);
                        assert(path_views(attempted).drop_last() =~= path_views(before));
                        assert(path_views(attempted).last() == filename@);
                        assert(report@ =~= failure_report(path_views(attempted)));
                    }
                },
            }
            i += 1;
        }
    }
    let ghost last = attempted.len() as int;
    assert(order.len() == last + 1 && order[last] == Attempt::AsGiven);
    assert(report@ == failure_report(path_views(attempted)));
    assert("    - "@ =~= seq![' ', ' ', ' ', ' ', '-', ' ']);
    assert("\n"@ =~= seq!['\n']);
    match read(Attempt::AsGiven) {
        Ok(wasm_bytes) => {
            assert forall|j: int| 0 <= j < last implies #[trigger] found_nothing(read, order[j]) by {
                assert(read.ensures((order[j],), Err(attempted[j])));
            }
            assert(read.ensures((order[last],), Ok(wasm_bytes)));
            Ok(wasm_bytes)
        },
        Err(filename) => {
            let ghost before = attempted;
            report.append("    - ");
            report.append(filename.as_str());
            report.append("\n");
            proof {
                attempted = attempted.push(filename);
                assert(path_views(attempted).drop_last() =~= path_views(before));
                assert(path_views(attempted).last() == filename@);
                assert(report@ =~= failure_report(path_views(attempted)));
                assert forall|j: int| 0 <= j < attempted.len() implies #[trigger] read.ensures(
                    (order[j],),
                    Err(attempted[j]),
                ) by {
                    if j < last {
                        assert(attempted[j] == before[j]);
                    }
                }
            }
            Err(report)
        },
    }
}

/// The name of the chain that genesis makes by default.
pub const DEFAULT_CHAIN_NAME: &'static str = "gerald";

/// The time of birth of the chain that genesis makes by default.
pub const DEFAULT_GENESIS_TIMESTAMP: u64 = 0;

/// The protocol version that the default chain starts with.
pub open spec fn default_protocol_version() -> ProtocolVersion {
    ProtocolVersion { major: 1, minor: 0, patch: 0 }
}

/// The gas costs that the default chain meters with.
pub open spec fn default_wasm_costs() -> WasmCosts {
    WasmCosts {
        regular: 1,
        div: 16,
        mul: 4,
        mem: 2,
        initial_mem: 4096,
        grow_mem: 8192,
        memcpy: 1,
        max_stack_height: 65536,
        opcodes_mul: 3,
        opcodes_div: 8,
    }
}

/// The genesis of the default chain with the given accounts and the
/// bytecode of the three installers.
pub fn create_genesis_config(
    accounts: Vec<GenesisAccount>,
    mint_installer_bytes: Vec<u8>,
    proof_of_stake_installer_bytes: Vec<u8>,
    standard_payment_installer_bytes: Vec<u8>,
) -> (config: GenesisConfig)
    ensures
        config@ == (GenesisConfigView {
            name: DEFAULT_CHAIN_NAME@,
            timestamp: DEFAULT_GENESIS_TIMESTAMP,
            protocol_version: default_protocol_version(),
            mint_installer_bytes: mint_installer_bytes@,
            proof_of_stake_installer_bytes: proof_of_stake_installer_bytes@,
            standard_payment_installer_bytes: standard_payment_installer_bytes@,
            accounts: accounts@,
            wasm_costs: default_wasm_costs(),
        }),
{
    let name = String::from_str(DEFAULT_CHAIN_NAME);
    let timestamp = DEFAULT_GENESIS_TIMESTAMP;
    let protocol_version = ProtocolVersion { major: 1, minor: 0, patch: 0 };
    let wasm_costs = WasmCosts {
        regular: 1,
        div: 16,
        mul: 4,
        mem: 2,
        initial_mem: 4096,
        grow_mem: 8192,
        memcpy: 1,
        max_stack_height: 65536,
        opcodes_mul: 3,
        opcodes_div: 8,
    };
    GenesisConfig::new(
        name,
        timestamp,
        protocol_version,
        mint_installer_bytes,
        proof_of_stake_installer_bytes,
        standard_payment_installer_bytes,
        accounts,
        wasm_costs,
    )
}

/// The gas spent by each result, in order.
pub fn get_exec_costs(exec_response: &[ExecutionResult]) -> (costs: Vec<Gas>)
    ensures
        costs@ == exec_response@.map_values(|r: ExecutionResult| r.spec_cost()),
{
    let mut costs: Vec<Gas> = Vec::new();
    let mut i: usize = 0;
    while i < exec_response.len()
        invariant
            i <= exec_response.len(),
            costs@ == exec_response@.take(i as int).map_values(|r: ExecutionResult| r.spec_cost()),
        decreases exec_response.len() - i,
    {
        costs.push(exec_response[i].cost());
        assert(exec_response@.take(i + 1) =~= exec_response@.take(i as int).push(
            exec_response@[i as int],
        ));
        assert(costs@ =~= exec_response@.take(i + 1).map_values(
            |r: ExecutionResult| r.spec_cost(),
        ));
        i += 1;
    }
    assert(exec_response@.take(i as int) =~= exec_response@);
    costs
}

/// The first result of a response that has one.
pub fn get_success_result(response: &[ExecutionResult]) -> (result: &ExecutionResult)
    requires
        response@.len() > 0,
    ensures
        *result == response@[0],
{
    &response[0]
}

/// The message of the precondition failure that a response begins with.
pub fn get_precondition_failure(response: &[ExecutionResult]) -> (message: String)
    requires
        response@.len() > 0,
        response@[0].is_precondition_failure(),
    ensures
        Some(message@) == response@[0].spec_error(),
{
    match response[0].error() {
        Some(error) => error.clone(),
        None => String::new(),
    }
}

/// The character of one decimal digit.
pub open spec fn digit_char(d: nat) -> char {
    if d == 0 {
        '0'
    } else if d == 1 {
        '1'
    } else if d == 2 {
        '2'
    } else if d == 3 {
        '3'
    } else if d == 4 {
        '4'
    } else if d == 5 {
        '5'
    } else if d == 6 {
        '6'
    } else if d == 7 {
        '7'
    } else if d == 8 {
        '8'
    } else {
        '9'
    }
}

/// A number written in decimal, without leading zeros.
pub open spec fn decimal(n: nat) -> Seq<char>
    decreases n,
{
    if n < 10 {
        seq![digit_char(n)]
    } else {
        decimal(n / 10).push(digit_char(n % 10))
    }
}

/// The lines joined into one text, with `separator` between each two.
pub open spec fn joined(lines: Seq<Seq<char>>, separator: Seq<char>) -> Seq<char>
    decreases lines.len(),
{
    if lines.len() == 0 {
        Seq::empty()
    } else if lines.len() == 1 {
        lines[0]
    } else {
        joined(lines.drop_last(), separator) + separator + lines.last()
    }
}

/// One line for each failure among `results`, in order: the position of
/// the result in the list, a colon and a space, and the error's message.
pub open spec fn failure_lines(results: Seq<ExecutionResult>) -> Seq<Seq<char>>
    decreases results.len(),
{
    if results.len() == 0 {
        Seq::empty()
    } else {
        let before = failure_lines(results.drop_last());
        match results.last().spec_error() {
            Some(message) => before.push(decimal((results.len() - 1) as nat) + seq![':', ' '] + message),
            None => before,
        }
    }
}

fn digit_text(d: usize) -> (text: &'static str)
    requires
        d < 10,
    ensures
        text@ == seq![digit_char(d as nat)],
{
    proof {
        reveal_strlit("0");
        reveal_strlit("1");
        reveal_strlit("2");
        reveal_strlit("3");
        reveal_strlit("4");
        reveal_strlit("5");
        reveal_strlit("6");
        reveal_strlit("7");
        reveal_strlit("8");
        reveal_strlit("9");
    }
    let text = if d == 0 {
        "0"
    } else if d == 1 {
        "1"
    } else if d == 2 {
        "2"
    } else if d == 3 {
        "3"
    } else if d == 4 {
        "4"
    } else if d == 5 {
        "5"
    } else if d == 6 {
        "6"
    } else if d == 7 {
        "7"
    } else if d == 8 {
        "8"
    } else {
        "9"
    };
    assert(text@ =~= seq![digit_char(d as nat)]);
    text
}

/// Writes a number in decimal.
pub fn decimal_text(n: usize) -> (text: String)
    ensures
        text@ == decimal(n as nat),
    decreases n,
{
    if n < 10 {
        String::from_str(digit_text(n))
    } else {
        let mut text = decimal_text(n / 10);
        text.append(digit_text(n % 10));
        assert(text@ =~= decimal(n as nat));
        text
    }
}

/// One text for all the failures of a response: a line for each, made of
/// its position in the response and its message, the lines separated by
/// line feeds. Successes leave no trace; a response without a failure gives
/// the empty text.
pub fn get_error_message(execution_result: &[ExecutionResult]) -> (message: String)
    ensures
        message@ == joined(failure_lines(execution_result@), seq!['\n']),
{
    let mut message = String::new();
    let mut lines: usize = 0;
    let mut i: usize = 0;
    proof {
        reveal_strlit("\n");
        reveal_strlit(": ");
        assert(execution_result@.take(0) =~= Seq::<ExecutionResult>::empty());
    }
    while i < execution_result.len()
        invariant
            i <= execution_result.len(),
            lines <= i,
            lines == failure_lines(execution_result@.take(i as int)).len(),
            message@ == joined(failure_lines(execution_result@.take(i as int)), seq!['\n']),
            "\n"@ =~= seq!['\n'],
            ": "@ =~= seq![':', ' '],
        decreases execution_result.len() - i,
    {
        let ghost before = failure_lines(execution_result@.take(i as int));
        proof {
            assert(execution_result@.take(i + 1).drop_last() =~= execution_result@.take(i as int));
            assert(execution_result@.take(i + 1).last() == execution_result@[i as int]);
        }
        if let Some(error) = execution_result[i].error() {
            if lines > 0 {
                message.append("\n");
            }
            let position = decimal_text(i);
            message.append(position.as_str());
            message.append(": ");
            message.append(error.as_str());
            proof {
                let line = decimal(i as nat) + seq![':', ' '] + error@;
                assert(failure_lines(execution_result@.take(i + 1)) == before.push(line));
                assert(before.push(line).drop_last() =~= before);
                assert(before.push(line).last() == line);
                if lines > 0 {
                    assert(message@ =~= joined(before, seq!['\n']) + seq!['\n'] + line);
                } else {
                    assert(message@ =~= line);
                }
            }
            lines += 1;
        }
        i += 1;
    }
    assert(execution_result@.take(i as int) =~= execution_result@);
    message
}

/// The account that `transforms` writes at `account`, if the transform
/// recorded there is the write of an account record.
pub fn get_account(transforms: &EffectSet, account: &Key) -> (found: Option<Account>)
    ensures
        found == match transforms@.get(*account) {
            Some(TransformView::Write(ValueView::Account(record))) => Some(record),
            _ => None,
        },
{
    match transforms.get(account) {
        Some(Transform::Write(Value::Account(record))) => Some(*record),
        _ => None,
    }
}

} // verus!
