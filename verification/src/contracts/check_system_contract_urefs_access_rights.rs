//! A contract that checks the rights of the references that the system
//! binds for it.
use vstd::prelude::*;
use crate::access_rights::Operation;
use crate::contract_api::{ContractError, NamedKey, RuntimeContext};

verus! {

/// Whether the reference at position `i` is one that the storage layer
/// allocated. Only those are looked at.
pub open spec fn is_allocated(named_keys: Seq<NamedKey>, i: int) -> bool {
    named_keys[i].reference.key is URef
}

/// Whether every allocated reference among `named_keys` from position
/// `from` on agrees with `expected` on the right for `op`.
pub open spec fn all_agree(named_keys: Seq<NamedKey>, from: int, op: Operation, expected: bool) -> bool {
    forall|i: int|
        from <= i < named_keys.len() && #[trigger] is_allocated(named_keys, i)
            ==> named_keys[i].reference.access_rights.permits(op) == expected
}

/// Walks on through the allocated references from `*cursor`, as long as
/// each agrees with `expected` on the right for `op`. The walk ends behind
/// the first one that does not, or at the end of the list.
fn all_remaining(named_keys: &Vec<NamedKey>, cursor: &mut usize, op: Operation, expected: bool) -> (holds:
    bool)
    requires
        *old(cursor) <= named_keys@.len(),
    ensures
        holds == all_agree(named_keys@, *old(cursor) as int, op, expected),
        *old(cursor) <= *final(cursor) <= named_keys@.len(),
        holds ==> *final(cursor) == named_keys@.len(),
{
    while *cursor < named_keys.len()
        invariant
            *old(cursor) <= *cursor <= named_keys@.len(),
            forall|i: int|
                *old(cursor) <= i < *cursor && #[trigger] is_allocated(named_keys@, i)
                    ==> named_keys@[i].reference.access_rights.permits(op) == expected,
        decreases named_keys@.len() - *cursor,
    {
        let reference = &named_keys[*cursor].reference;
        let ghost at = *cursor as int;
        *cursor += 1;
        if reference.key.is_uref() && reference.access_rights.allows(op) != expected {
            assert(is_allocated(named_keys@, at));
            return false;
        }
    }
    true
}

/// Insists that the references that the system binds are read-only. The
/// three checks share one walk through the references: the first goes
/// through all of them and insists that each is readable, and the two that
/// follow, that none is addable and none writeable, find nothing left to
/// look at. So the contract runs to its end exactly where every allocated
/// reference is readable.
pub fn call(context: &RuntimeContext) -> (result: Result<(), ContractError>)
    ensures
        result == (if all_agree(context.named_keys@, 0, Operation::Read, true) {
            Ok::<(), ContractError>(())
        } else {
            Err::<(), ContractError>(ContractError::Trap)
        }),
{
    let named_keys = context.list_named_keys();
    let mut cursor: usize = 0;
    if !all_remaining(named_keys, &mut cursor, Operation::Read, true) {
        return Err(ContractError::Trap);
    }
    if !all_remaining(named_keys, &mut cursor, Operation::Add, false) {
        return Err(ContractError::Trap);
    }
    if !all_remaining(named_keys, &mut cursor, Operation::Write, false) {
        return Err(ContractError::Trap);
    }
    Ok(())
}

} // verus!
