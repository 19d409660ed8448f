//! A contract that checks that the purse it is told of is the main purse of
//! its account.
use vstd::prelude::*;
use crate::bytesrepr::{lemma_reference_bytes_injective, reference_bytes};
use crate::contract_api::{ArgError, ContractError, RuntimeContext};
use crate::key::Reference;

verus! {

/// The status with which the contract reverts when it is given no purse.
pub const MISSING_ARGUMENT: u32 = 100;

/// The status with which the contract reverts when what it is given is no
/// purse.
pub const INVALID_ARGUMENT: u32 = 101;

/// Takes the first argument as a purse and insists that it is the main
/// purse of the account.
pub fn call(context: &RuntimeContext) -> (result: Result<(), ContractError>)
    ensures
        context.args@.len() == 0 ==> result == Err::<(), ContractError>(
            ContractError::Revert(MISSING_ARGUMENT),
        ),
        context.args@.len() > 0 && (forall|r: Reference| context.args@[0]@ != reference_bytes(r))
            ==> result == Err::<(), ContractError>(ContractError::Revert(INVALID_ARGUMENT)),
        forall|r: Reference|
            context.args@.len() > 0 && context.args@[0]@ == #[trigger] reference_bytes(r) ==> result
                == (if r == context.main_purse {
                Ok::<(), ContractError>(())
            } else {
                Err::<(), ContractError>(ContractError::Trap)
            }),
{
    let known_main_purse = match context.get_arg_reference(0) {
        Ok(purse) => purse,
        Err(ArgError::Missing) => {
            return Err(ContractError::Revert(MISSING_ARGUMENT));
        },
        Err(ArgError::Invalid) => {
            return Err(ContractError::Revert(INVALID_ARGUMENT));
        },
    };
    let main_purse = context.main_purse();
    assert forall|r: Reference| context.args@[0]@ == #[trigger] reference_bytes(r) implies r
        == known_main_purse by {
        lemma_reference_bytes_injective(r, known_main_purse);
    }
    if main_purse.same(&known_main_purse) {
        Ok(())
    } else {
        Err(ContractError::Trap)
    }
}

} // verus!
