//! Contracts that check what the host grants them.
pub mod check_system_contract_urefs_access_rights;
pub mod main_purse;
