//! Storage identities and the capability handles that name them.
use vstd::prelude::*;
use crate::access_rights::{AccessRights, Operation};
use crate::error::StorageError;

verus! {

/// Compares two byte arrays of one length.
pub fn bytes_equal<const N: usize>(a: &[u8; N], b: &[u8; N]) -> (same: bool)
    ensures
        same == (*a == *b),
{
    let mut i: usize = 0;
    while i < N
        invariant
            i <= N,
            forall|j: int| 0 <= j < i ==> a[j] == b[j],
        decreases N - i,
    {
        if a[i] != b[i] {
            return false;
        }
        i += 1;
    }
    assert(*a =~= *b);
    true
}

/// Names one addressable storage slot. Keys are equal where kind and
/// identifier are, and are ordered by kind first and identifier second.
#[derive(Clone, Copy, Debug, Eq, Hash, PartialOrd, Ord)]
pub enum Key {
    /// The record of an account, by its address.
    Account([u8; 20]),
    /// A stored contract, by its hash.
    Hash([u8; 32]),
    /// A slot allocated by the storage layer, such as a purse balance.
    URef([u8; 32]),
    /// A slot private to one contract.
    Local([u8; 32]),
}

impl PartialEq for Key {
    fn eq(&self, other: &Key) -> (same: bool) {
        match (self, other) {
            (Key::Account(a), Key::Account(b)) => bytes_equal(a, b),
            (Key::Hash(a), Key::Hash(b)) => bytes_equal(a, b),
            (Key::URef(a), Key::URef(b)) => bytes_equal(a, b),
            (Key::Local(a), Key::Local(b)) => bytes_equal(a, b),
            _ => false,
        }
    }
}

impl vstd::std_specs::cmp::PartialEqSpecImpl for Key {
    open spec fn obeys_eq_spec() -> bool {
        true
    }

    open spec fn eq_spec(&self, other: &Key) -> bool {
        *self == *other
    }
}

impl Key {
    /// Whether this key names a slot that the storage layer allocated.
    pub fn is_uref(&self) -> (b: bool)
        ensures
            b == (*self is URef),
    {
        match self {
            Key::URef(_) => true,
            _ => false,
        }
    }
}

/// A capability handle: the key of a slot together with what the holder may
/// do to it. The rights belong to the handle, so two handles may name one key
/// with different rights.
#[derive(Clone, Copy, Debug, PartialEq, Eq)]
pub struct Reference {
    pub key: Key,
    pub access_rights: AccessRights,
}

impl Reference {
    pub fn new(key: Key, access_rights: AccessRights) -> (handle: Reference)
        ensures
            handle == (Reference { key, access_rights }),
    {
        Reference { key, access_rights }
    }

    pub fn key(&self) -> (key: Key)
        ensures
            key == self.key,
    {
        self.key
    }

    pub fn access_rights(&self) -> (rights: AccessRights)
        ensures
            rights == self.access_rights,
    {
        self.access_rights
    }

    /// Whether the two handles name the same key with the same rights.
    pub fn same(&self, other: &Reference) -> (b: bool)
        ensures
            b == (*self == *other),
    {
        self.key == other.key && self.access_rights == other.access_rights
    }

    /// The handle to pass across a trust boundary: the same key, with the
    /// rights that both this handle and `mask` grant.
    pub fn derive(&self, mask: &AccessRights) -> (handle: Reference)
        ensures
            handle.key == self.key,
            forall|op: Operation|
                handle.access_rights.permits(op) == (self.access_rights.permits(op) && mask.permits(
                    op,
                )),
            handle.access_rights.subset_of(self.access_rights),
    {
        Reference { key: self.key, access_rights: self.access_rights.intersection(mask) }
    }

    /// The check that stands before every storage operation made through
    /// this handle. Whether the slot holds anything plays no part in it.
    pub fn check(&self, required: Operation) -> (checked: Result<(), StorageError>)
        ensures
            checked == check_rights(*self, required),
    {
        if self.access_rights.allows(required) {
            Ok(())
        } else {
            Err(StorageError::PermissionDenied)
        }
    }
}

/// The outcome of the rights check for `required` through `handle`.
pub open spec fn check_rights(handle: Reference, required: Operation) -> Result<(), StorageError> {
    if handle.access_rights.permits(required) {
        Ok(())
    } else {
        Err(StorageError::PermissionDenied)
    }
}

} // verus!
