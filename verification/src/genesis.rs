//! What the initial store is built from.
use vstd::prelude::*;

verus! {

/// A version of the protocol.
#[derive(Clone, Copy, Debug, PartialEq, Eq, Structural)]
pub struct ProtocolVersion {
    pub major: u32,
    pub minor: u32,
    pub patch: u32,
}

/// The table of gas costs that the bytecode is metered with.
#[derive(Clone, Copy, Debug, PartialEq, Eq, Structural)]
pub struct WasmCosts {
    pub regular: u32,
    pub div: u32,
    pub mul: u32,
    pub mem: u32,
    pub initial_mem: u32,
    pub grow_mem: u32,
    pub memcpy: u32,
    pub max_stack_height: u32,
    pub opcodes_mul: u32,
    pub opcodes_div: u32,
}

/// An account that exists from the first version on.
#[derive(Clone, Copy, Debug, PartialEq, Eq)]
pub struct GenesisAccount {
    pub public_key: [u8; 32],
    pub balance: u64,
    pub bonded_amount: u64,
}

/// Everything that the initial store is built from: the chain's name and
/// birth, the protocol it starts with, the bytecode of the three system
/// contract installers, the funded accounts and the gas costs.
#[derive(Clone, Debug, PartialEq, Eq)]
pub struct GenesisConfig {
    pub name: String,
    pub timestamp: u64,
    pub protocol_version: ProtocolVersion,
    pub mint_installer_bytes: Vec<u8>,
    pub proof_of_stake_installer_bytes: Vec<u8>,
    pub standard_payment_installer_bytes: Vec<u8>,
    pub accounts: Vec<GenesisAccount>,
    pub wasm_costs: WasmCosts,
}

/// The mathematical content of a [`GenesisConfig`].
pub struct GenesisConfigView {
    pub name: Seq<char>,
    pub timestamp: u64,
    pub protocol_version: ProtocolVersion,
    pub mint_installer_bytes: Seq<u8>,
    pub proof_of_stake_installer_bytes: Seq<u8>,
    pub standard_payment_installer_bytes: Seq<u8>,
    pub accounts: Seq<GenesisAccount>,
    pub wasm_costs: WasmCosts,
}

impl View for GenesisConfig {
    type V = GenesisConfigView;

    open spec fn view(&self) -> GenesisConfigView {
        GenesisConfigView {
            name: self.name@,
            timestamp: self.timestamp,
            protocol_version: self.protocol_version,
            mint_installer_bytes: self.mint_installer_bytes@,
            proof_of_stake_installer_bytes: self.proof_of_stake_installer_bytes@,
            standard_payment_installer_bytes: self.standard_payment_installer_bytes@,
            accounts: self.accounts@,
            wasm_costs: self.wasm_costs,
        }
    }
}

impl GenesisConfig {
    pub fn new(
        name: String,
        timestamp: u64,
        protocol_version: ProtocolVersion,
        mint_installer_bytes: Vec<u8>,
        proof_of_stake_installer_bytes: Vec<u8>,
        standard_payment_installer_bytes: Vec<u8>,
        accounts: Vec<GenesisAccount>,
        wasm_costs: WasmCosts,
    ) -> (config: GenesisConfig)
        ensures
            config@ == (GenesisConfigView {
                name: name@,
                timestamp,
                protocol_version,
                mint_installer_bytes: mint_installer_bytes@,
                proof_of_stake_installer_bytes: proof_of_stake_installer_bytes@,
                standard_payment_installer_bytes: standard_payment_installer_bytes@,
                accounts: accounts@,
                wasm_costs,
            }),
    {
        GenesisConfig {
            name,
            timestamp,
            protocol_version,
            mint_installer_bytes,
            proof_of_stake_installer_bytes,
            standard_payment_installer_bytes,
            accounts,
            wasm_costs,
        }
    }
}

} // verus!
