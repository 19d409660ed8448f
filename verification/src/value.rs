//! What a storage slot holds.
use vstd::prelude::*;
use crate::error::StorageError;
use crate::key::Reference;

verus! {

/// The record kept for an account.
#[derive(Clone, Copy, Debug, PartialEq, Eq)]
pub struct Account {
    pub public_key: [u8; 32],
    pub nonce: u64,
    pub main_purse: Reference,
}

/// The payload stored at a key. Only a number is an accumulator; everything
/// else can be replaced but not added to.
#[derive(Clone, Debug, PartialEq, Eq)]
pub enum Value {
    /// A balance or counter.
    Number(u64),
    /// Data that the engine does not interpret.
    Bytes(Vec<u8>),
    /// An account record.
    Account(Account),
    /// A stored contract: its bytecode and the protocol version it was
    /// stored under.
    Contract { bytes: Vec<u8>, protocol_version: u64 },
}

/// The mathematical content of a [`Value`].
pub enum ValueView {
    Number(u64),
    Bytes(Seq<u8>),
    Account(Account),
    Contract { bytes: Seq<u8>, protocol_version: u64 },
}

/// The accumulator's combine operation: addition modulo 2^64. It is total,
/// commutative and associative, with 0 as its unit.
pub open spec fn combine(a: u64, b: u64) -> u64 {
    if a + b > u64::MAX {
        (a + b - 0x1_0000_0000_0000_0000) as u64
    } else {
        (a + b) as u64
    }
}

/// The value that results from accumulating `delta` onto `value`.
pub open spec fn accumulated(value: ValueView, delta: u64) -> Result<ValueView, StorageError> {
    match value {
        ValueView::Number(n) => Ok(ValueView::Number(combine(n, delta))),
        _ => Err(StorageError::TypeMismatch),
    }
}

/// The content of a value that may be absent.
pub open spec fn content(value: Option<Value>) -> Option<ValueView> {
    match value {
        None => None,
        Some(v) => Some(v@),
    }
}

/// The content of a borrowed value that may be absent.
pub open spec fn view_of(value: Option<&Value>) -> Option<ValueView> {
    match value {
        None => None,
        Some(v) => Some(v@),
    }
}

impl View for Value {
    type V = ValueView;

    open spec fn view(&self) -> ValueView {
        match *self {
            Value::Number(n) => ValueView::Number(n),
            Value::Bytes(bytes) => ValueView::Bytes(bytes@),
            Value::Account(account) => ValueView::Account(account),
            Value::Contract { bytes, protocol_version } => ValueView::Contract {
                bytes: bytes@,
                protocol_version,
            },
        }
    }
}

/// Values that can be copied with their content: the copy has the same
/// view as what it was made of.
pub trait Duplicate: View + Sized {
    /// A copy with the same content.
    fn duplicate(&self) -> (copy: Self)
        ensures
            copy@ == self@,
    ;
}

impl Duplicate for Value {
    fn duplicate(&self) -> (copy: Value) {
        match self {
            Value::Number(n) => Value::Number(*n),
            Value::Bytes(bytes) => {
                let copy = bytes.clone();
                assert(copy@ =~= bytes@);
                Value::Bytes(copy)
            },
            Value::Account(account) => Value::Account(*account),
            Value::Contract { bytes, protocol_version } => {
                let copy = bytes.clone();
                assert(copy@ =~= bytes@);
                Value::Contract { bytes: copy, protocol_version: *protocol_version }
            },
        }
    }
}

impl Value {
    /// Whether a delta can be accumulated onto this value.
    pub fn is_accumulator(&self) -> (b: bool)
        ensures
            b == (self@ is Number),
            b == (forall|delta: u64| accumulated(self@, delta) is Ok),
    {
        let b = match self {
            Value::Number(_) => true,
            _ => false,
        };
        proof {
            if !b {
                assert(accumulated(self@, 0) is Err);
            }
        }
        b
    }

    /// Accumulates `delta` onto this value.
    pub fn accumulate(&self, delta: u64) -> (sum: Result<Value, StorageError>)
        ensures
            match sum {
                Ok(v) => accumulated(self@, delta) == Ok::<ValueView, StorageError>(v@),
                Err(e) => accumulated(self@, delta) == Err::<ValueView, StorageError>(e),
            },
    {
        match self {
            Value::Number(n) => Ok(Value::Number(n.wrapping_add(delta))),
            _ => Err(StorageError::TypeMismatch),
        }
    }
}

/// Accumulation does not depend on the order of the deltas.
pub proof fn lemma_combine_commutative(a: u64, b: u64)
    ensures
        combine(a, b) == combine(b, a),
{
}

/// Accumulation does not depend on how the deltas are grouped.
pub proof fn lemma_combine_associative(a: u64, b: u64, c: u64)
    ensures
        combine(combine(a, b), c) == combine(a, combine(b, c)),
{
}

/// Accumulating nothing changes nothing.
pub proof fn lemma_combine_zero(a: u64)
    ensures
        combine(a, 0) == a,
        combine(0, a) == a,
{
}

} // verus!
