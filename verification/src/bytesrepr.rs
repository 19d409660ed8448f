//! The byte form in which keys, references and numbers are handed to a
//! contract as arguments.
use vstd::prelude::*;
use vstd::bytes::{lemma_auto_spec_u64_to_from_le_bytes, spec_u64_to_le_bytes, u64_from_le_bytes, u64_to_le_bytes};
use vstd::slice::slice_subrange;
use crate::access_rights::AccessRights;
use crate::key::{Key, Reference};

verus! {

/// The byte that tells the kinds of key apart.
pub open spec fn key_tag(key: Key) -> u8 {
    match key {
        Key::Account(_) => 0,
        Key::Hash(_) => 1,
        Key::URef(_) => 2,
        Key::Local(_) => 3,
    }
}

/// The identifier that a key carries.
pub open spec fn key_id(key: Key) -> Seq<u8> {
    match key {
        Key::Account(id) => id@,
        Key::Hash(id) => id@,
        Key::URef(id) => id@,
        Key::Local(id) => id@,
    }
}

/// The byte form of a key: its tag, then its identifier.
pub open spec fn key_bytes(key: Key) -> Seq<u8> {
    seq![key_tag(key)] + key_id(key)
}

/// The byte form of a reference: its key, then its rights packed into one
/// byte.
pub open spec fn reference_bytes(reference: Reference) -> Seq<u8> {
    key_bytes(reference.key).push(reference.access_rights.spec_bits() as u8)
}

/// The `N` bytes of `bytes` from `start` on.
fn take_array<const N: usize>(bytes: &[u8], start: usize) -> (taken: [u8; N])
    requires
        start + N <= bytes@.len(),
    ensures
        taken@ == bytes@.subrange(start as int, start + N),
{
    let mut taken = [0u8;N];
    let length = bytes.len();
    let mut i: usize = 0;
    while i < N
        invariant
            i <= N,
            length == bytes@.len(),
            start + N <= length,
            forall|j: int| 0 <= j < i ==> taken@[j] == bytes@[start + j],
        decreases N - i,
    {
        taken[i] = bytes[start + i];
        i += 1;
    }
    assert(taken@ =~= bytes@.subrange(start as int, start + N));
    taken
}

fn push_all(target: &mut Vec<u8>, bytes: &[u8])
    ensures
        final(target)@ == old(target)@ + bytes@,
{
    let mut i: usize = 0;
    while i < bytes.len()
        invariant
            i <= bytes.len(),
            target@ == old(target)@ + bytes@.take(i as int),
        decreases bytes.len() - i,
    {
        target.push(bytes[i]);
        assert(bytes@.take(i + 1) =~= bytes@.take(i as int).push(bytes@[i as int]));
        assert(target@ =~= old(target)@ + bytes@.take(i + 1));
        i += 1;
    }
    assert(bytes@.take(i as int) =~= bytes@);
}

/// Writes a key in its byte form.
pub fn key_to_bytes(key: &Key) -> (bytes: Vec<u8>)
    ensures
        bytes@ == key_bytes(*key),
{
    let mut bytes: Vec<u8> = Vec::new();
    match key {
        Key::Account(id) => {
            bytes.push(0);
            push_all(&mut bytes, id.as_slice());
        },
        Key::Hash(id) => {
            bytes.push(1);
            push_all(&mut bytes, id.as_slice());
        },
        Key::URef(id) => {
            bytes.push(2);
            push_all(&mut bytes, id.as_slice());
        },
        Key::Local(id) => {
            bytes.push(3);
            push_all(&mut bytes, id.as_slice());
        },
    }
    assert(bytes@ =~= key_bytes(*key));
    bytes
}

/// Reads a key from its byte form. The bytes must be exactly the form of
/// one key: a known tag, and an identifier of the length that goes with it.
pub fn key_from_bytes(bytes: &[u8]) -> (key: Option<Key>)
    ensures
        match key {
            Some(k) => bytes@ == key_bytes(k),
            None => forall|k: Key| bytes@ != key_bytes(k),
        },
{
    if bytes.len() == 0 {
        assert forall|k: Key| bytes@ != key_bytes(k) by {
            assert(key_bytes(k).len() > 0);
        }
        return None;
    }
    let tag = bytes[0];
    let id_length: usize = if tag == 0 {
        20
    } else {
        32
    };
    if tag > 3 || bytes.len() != 1 + id_length {
        assert forall|k: Key| bytes@ != key_bytes(k) by {
            assert(key_bytes(k)[0] == key_tag(k));
            assert(key_bytes(k).len() == 1 + key_id(k).len());
        }
        return None;
    }
    let key = if tag == 0 {
        Key::Account(take_array::<20>(bytes, 1))
    } else if tag == 1 {
        Key::Hash(take_array::<32>(bytes, 1))
    } else if tag == 2 {
        Key::URef(take_array::<32>(bytes, 1))
    } else {
        Key::Local(take_array::<32>(bytes, 1))
    };
    assert(bytes@ =~= key_bytes(key));
    Some(key)
}

/// Writes a reference in its byte form.
pub fn reference_to_bytes(reference: &Reference) -> (bytes: Vec<u8>)
    ensures
        bytes@ == reference_bytes(*reference),
{
    let mut bytes = key_to_bytes(&reference.key);
    bytes.push(reference.access_rights.bits());
    bytes
}

/// Reads a reference from its byte form. The bytes must be exactly the
/// form of one reference.
pub fn reference_from_bytes(bytes: &[u8]) -> (reference: Option<Reference>)
    ensures
        match reference {
            Some(r) => bytes@ == reference_bytes(r),
            None => forall|r: Reference| bytes@ != reference_bytes(r),
        },
{
    if bytes.len() == 0 {
        assert forall|r: Reference| bytes@ != reference_bytes(r) by {
            assert(reference_bytes(r).len() > 0);
        }
        return None;
    }
    let split = bytes.len() - 1;
    let key_part = slice_subrange(bytes, 0, split);
    let rights = match AccessRights::from_bits(bytes[split]) {
        Some(rights) => rights,
        None => {
            assert forall|r: Reference| bytes@ != reference_bytes(r) by {
                assert(reference_bytes(r).last() == r.access_rights.spec_bits() as u8);
            }
            return None;
        },
    };
    match key_from_bytes(key_part) {
        Some(key) => {
            let reference = Reference { key, access_rights: rights };
            assert(bytes@ =~= reference_bytes(reference));
            Some(reference)
        },
        None => {
            assert forall|r: Reference| bytes@ != reference_bytes(r) by {
                if bytes@ == reference_bytes(r) {
                    assert(key_part@ =~= key_bytes(r.key));
                }
            }
            None
        },
    }
}

/// Writes a number in its byte form: eight bytes, the lowest first.
pub fn u64_to_bytes(number: u64) -> (bytes: Vec<u8>)
    ensures
        bytes@ == spec_u64_to_le_bytes(number),
{
    u64_to_le_bytes(number)
}

/// Reads a number from its byte form, which is exactly eight bytes long.
pub fn u64_from_bytes(bytes: &[u8]) -> (number: Option<u64>)
    ensures
        number is Some <==> bytes@.len() == 8,
        match number {
            Some(n) => bytes@ == spec_u64_to_le_bytes(n),
            None => forall|n: u64| bytes@ != spec_u64_to_le_bytes(n),
        },
{
    proof {
        lemma_auto_spec_u64_to_from_le_bytes();
    }
    if bytes.len() == 8 {
        Some(u64_from_le_bytes(bytes))
    } else {
        None
    }
}

/// No two references have the same byte form.
pub proof fn lemma_reference_bytes_injective(a: Reference, b: Reference)
    requires
        reference_bytes(a) == reference_bytes(b),
    ensures
        a == b,
{
    let ka = key_bytes(a.key);
    let kb = key_bytes(b.key);
    assert(reference_bytes(a).drop_last() =~= ka);
    assert(reference_bytes(b).drop_last() =~= kb);
    assert(reference_bytes(a).last() == a.access_rights.spec_bits() as u8);
    assert(reference_bytes(b).last() == b.access_rights.spec_bits() as u8);
    crate::access_rights::lemma_bits_injective(a.access_rights, b.access_rights);
    assert(ka[0] == key_tag(a.key) && kb[0] == key_tag(b.key));
    assert(ka.subrange(1, ka.len() as int) =~= key_id(a.key));
    assert(kb.subrange(1, kb.len() as int) =~= key_id(b.key));
    match (a.key, b.key) {
        (Key::Account(x), Key::Account(y)) => {
            assert(x =~= y);
        },
        (Key::Hash(x), Key::Hash(y)) => {
            assert(x =~= y);
        },
        (Key::URef(x), Key::URef(y)) => {
            assert(x =~= y);
        },
        (Key::Local(x), Key::Local(y)) => {
            assert(x =~= y);
        },
        _ => {},
    }
}

} // verus!
