//! What a running contract can ask of its host, besides storage: the
//! references bound by name, and the arguments of the deploy.
use vstd::prelude::*;
use vstd::bytes::spec_u64_to_le_bytes;
use crate::bytesrepr::{reference_bytes, reference_from_bytes, u64_from_bytes};
use crate::key::Reference;

verus! {

/// Why an argument could not be had. The two kinds stay apart, since
/// contracts branch on which of them occurred.
#[derive(Clone, Copy, Debug, PartialEq, Eq, Structural)]
pub enum ArgError {
    /// The deploy has no argument at that position.
    Missing,
    /// There is an argument at that position, of another shape.
    Invalid,
}

/// How a contract ends when it does not run to its end.
#[derive(Clone, Copy, Debug, PartialEq, Eq, Structural)]
pub enum ContractError {
    /// The contract gave up with a status of its own.
    Revert(u32),
    /// A condition that the contract insists on did not hold.
    Trap,
}

/// A reference bound to a name.
#[derive(Clone, Debug, PartialEq, Eq)]
pub struct NamedKey {
    pub name: String,
    pub reference: Reference,
}

/// What the host holds for one running contract.
#[derive(Clone, Debug, PartialEq, Eq)]
pub struct RuntimeContext {
    pub named_keys: Vec<NamedKey>,
    pub args: Vec<Vec<u8>>,
    pub main_purse: Reference,
}

impl RuntimeContext {
    pub fn new(named_keys: Vec<NamedKey>, args: Vec<Vec<u8>>, main_purse: Reference) -> (context:
        RuntimeContext)
        ensures
            context.named_keys == named_keys,
            context.args == args,
            context.main_purse == main_purse,
    {
        RuntimeContext { named_keys, args, main_purse }
    }

    /// The references currently bound, each with its name and its rights.
    pub fn list_named_keys(&self) -> (named_keys: &Vec<NamedKey>)
        ensures
            *named_keys == self.named_keys,
    {
        &self.named_keys
    }

    /// The purse of the account that the contract runs for.
    pub fn main_purse(&self) -> (purse: Reference)
        ensures
            purse == self.main_purse,
    {
        self.main_purse
    }

    /// The bytes of the argument at position `index`.
    pub fn get_arg_bytes(&self, index: u32) -> (arg: Result<&Vec<u8>, ArgError>)
        ensures
            match arg {
                Ok(bytes) => index < self.args@.len() && *bytes == self.args@[index as int],
                Err(e) => e == ArgError::Missing && index >= self.args@.len(),
            },
    {
        if (index as usize) < self.args.len() {
            Ok(&self.args[index as usize])
        } else {
            Err(ArgError::Missing)
        }
    }

    /// The argument at position `index`, read as a reference.
    pub fn get_arg_reference(&self, index: u32) -> (arg: Result<Reference, ArgError>)
        ensures
            match arg {
                Ok(r) => index < self.args@.len() && self.args@[index as int]@ == reference_bytes(r),
                Err(ArgError::Missing) => index >= self.args@.len(),
                Err(ArgError::Invalid) => index < self.args@.len() && forall|r: Reference|
                    self.args@[index as int]@ != reference_bytes(r),
            },
    {
        match self.get_arg_bytes(index) {
            Ok(bytes) => match reference_from_bytes(bytes.as_slice()) {
                Some(reference) => Ok(reference),
                None => Err(ArgError::Invalid),
            },
            Err(e) => Err(e),
        }
    }

    /// The argument at position `index`, read as a number.
    pub fn get_arg_u64(&self, index: u32) -> (arg: Result<u64, ArgError>)
        ensures
            match arg {
                Ok(n) => index < self.args@.len() && self.args@[index as int]@
                    == spec_u64_to_le_bytes(n),
                Err(ArgError::Missing) => index >= self.args@.len(),
                Err(ArgError::Invalid) => index < self.args@.len() && self.args@[index as int]@.len()
                    != 8,
            },
    {
        match self.get_arg_bytes(index) {
            Ok(bytes) => match u64_from_bytes(bytes.as_slice()) {
                Some(number) => Ok(number),
                None => Err(ArgError::Invalid),
            },
            Err(e) => Err(e),
        }
    }
}

} // verus!
