//! The capability attached to a reference: three independent flags.
use vstd::prelude::*;

verus! {

/// A storage operation that a contract may attempt through a reference.
#[derive(Clone, Copy, Debug, PartialEq, Eq, Structural)]
pub enum Operation {
    Read,
    Write,
    Add,
}

/// Bit of the readable flag in the packed form of [`AccessRights`].
pub const READ_BIT: u8 = 1;

/// Bit of the writeable flag in the packed form of [`AccessRights`].
pub const WRITE_BIT: u8 = 2;

/// Bit of the addable flag in the packed form of [`AccessRights`].
pub const ADD_BIT: u8 = 4;

/// What a handle allows: reading, overwriting and accumulating are granted
/// independently of one another. With no flag set the handle is inert.
#[derive(Clone, Copy, Debug, PartialEq, Eq, Structural)]
pub struct AccessRights {
    pub readable: bool,
    pub writeable: bool,
    pub addable: bool,
}

impl AccessRights {
    /// Whether these rights allow `op`.
    pub open spec fn permits(self, op: Operation) -> bool {
        match op {
            Operation::Read => self.readable,
            Operation::Write => self.writeable,
            Operation::Add => self.addable,
        }
    }

    /// Whether every operation allowed here is also allowed by `other`.
    pub open spec fn subset_of(self, other: AccessRights) -> bool {
        forall|op: Operation| self.permits(op) ==> other.permits(op)
    }

    /// The packed form: one bit per flag.
    pub open spec fn spec_bits(self) -> int {
        (if self.readable { 1int } else { 0 }) + (if self.writeable { 2int } else { 0 }) + (if self.addable { 4int } else { 0 })
    }

    pub fn new(readable: bool, writeable: bool, addable: bool) -> (rights: AccessRights)
        ensures
            rights == (AccessRights { readable, writeable, addable }),
    {
        AccessRights { readable, writeable, addable }
    }

    /// The rights of an inert handle.
    pub fn none() -> (rights: AccessRights)
        ensures
            forall|op: Operation| !rights.permits(op),
            rights == (AccessRights { readable: false, writeable: false, addable: false }),
    {
        let rights = AccessRights { readable: false, writeable: false, addable: false };
        assert forall|op: Operation| !rights.permits(op) by {
            match op {
                Operation::Read => {},
                Operation::Write => {},
                Operation::Add => {},
            }
        }
        rights
    }

    /// Every right at once.
    pub fn all() -> (rights: AccessRights)
        ensures
            forall|op: Operation| rights.permits(op),
            rights == (AccessRights { readable: true, writeable: true, addable: true }),
    {
        let rights = AccessRights { readable: true, writeable: true, addable: true };
        assert forall|op: Operation| rights.permits(op) by {
            match op {
                Operation::Read => {},
                Operation::Write => {},
                Operation::Add => {},
            }
        }
        rights
    }

    pub fn is_readable(&self) -> (b: bool)
        ensures
            b == self.permits(Operation::Read),
    {
        self.readable
    }

    pub fn is_writeable(&self) -> (b: bool)
        ensures
            b == self.permits(Operation::Write),
    {
        self.writeable
    }

    pub fn is_addable(&self) -> (b: bool)
        ensures
            b == self.permits(Operation::Add),
    {
        self.addable
    }

    /// Whether no operation at all is allowed.
    pub fn is_none(&self) -> (b: bool)
        ensures
            b == (forall|op: Operation| !self.permits(op)),
    {
        let b = !self.readable && !self.writeable && !self.addable;
        proof {
            if b {
                assert forall|op: Operation| !self.permits(op) by {
                    match op {
                        Operation::Read => {},
                        Operation::Write => {},
                        Operation::Add => {},
                    }
                }
            } else if self.readable {
                assert(self.permits(Operation::Read));
            } else if self.writeable {
                assert(self.permits(Operation::Write));
            } else {
                assert(self.permits(Operation::Add));
            }
        }
        b
    }

    /// Whether `op` may be performed under these rights.
    pub fn allows(&self, op: Operation) -> (b: bool)
        ensures
            b == self.permits(op),
    {
        match op {
            Operation::Read => self.readable,
            Operation::Write => self.writeable,
            Operation::Add => self.addable,
        }
    }

    /// Whether these rights grant nothing that `other` does not grant.
    pub fn is_subset_of(&self, other: &AccessRights) -> (b: bool)
        ensures
            b == self.subset_of(*other),
    {
        let b = (!self.readable || other.readable) && (!self.writeable || other.writeable) && (
        !self.addable || other.addable);
        proof {
            if b {
                assert forall|op: Operation| self.permits(op) implies other.permits(op) by {
                    match op {
                        Operation::Read => {},
                        Operation::Write => {},
                        Operation::Add => {},
                    }
                }
            } else if self.readable && !other.readable {
                assert(self.permits(Operation::Read) && !other.permits(Operation::Read));
            } else if self.writeable && !other.writeable {
                assert(self.permits(Operation::Write) && !other.permits(Operation::Write));
            } else {
                assert(self.permits(Operation::Add) && !other.permits(Operation::Add));
            }
        }
        b
    }

    /// The rights granted by both `self` and `mask`: the largest rights that
    /// exceed neither.
    pub fn intersection(&self, mask: &AccessRights) -> (rights: AccessRights)
        ensures
            forall|op: Operation| rights.permits(op) == (self.permits(op) && mask.permits(op)),
            rights.subset_of(*self),
            rights.subset_of(*mask),
    {
        let rights = AccessRights {
            readable: self.readable && mask.readable,
            writeable: self.writeable && mask.writeable,
            addable: self.addable && mask.addable,
        };
        assert forall|op: Operation| rights.permits(op) == (self.permits(op) && mask.permits(op)) by {
            match op {
                Operation::Read => {},
                Operation::Write => {},
                Operation::Add => {},
            }
        }
        rights
    }

    /// The rights granted by `self` or by `other`.
    pub fn union(&self, other: &AccessRights) -> (rights: AccessRights)
        ensures
            forall|op: Operation| rights.permits(op) == (self.permits(op) || other.permits(op)),
            self.subset_of(rights),
            other.subset_of(rights),
    {
        let rights = AccessRights {
            readable: self.readable || other.readable,
            writeable: self.writeable || other.writeable,
            addable: self.addable || other.addable,
        };
        assert forall|op: Operation| rights.permits(op) == (self.permits(op) || other.permits(op)) by {
            match op {
                Operation::Read => {},
                Operation::Write => {},
                Operation::Add => {},
            }
        }
        rights
    }

    /// The packed form, one bit per flag.
    pub fn bits(&self) -> (bits: u8)
        ensures
            bits == self.spec_bits(),
            bits <= 7,
    {
        let r: u8 = if self.readable { READ_BIT } else { 0 };
        let w: u8 = if self.writeable { WRITE_BIT } else { 0 };
        let a: u8 = if self.addable { ADD_BIT } else { 0 };
        r + w + a
    }

    /// Reads the packed form back. Bits other than the three flags are not
    /// rights, so a value that sets one of them is refused.
    pub fn from_bits(bits: u8) -> (rights: Option<AccessRights>)
        ensures
            rights is Some <==> bits <= 7,
            rights matches Some(r) ==> r.spec_bits() == bits,
    {
        if bits > 7 {
            None
        } else {
            let addable = bits >= 4;
            let low: u8 = if addable { bits - 4 } else { bits };
            let writeable = low >= 2;
            let lowest: u8 = if writeable { low - 2 } else { low };
            Some(AccessRights { readable: lowest == 1, writeable, addable })
        }
    }
}

/// The packed form loses nothing: two rights with the same bits are the same
/// rights.
pub proof fn lemma_bits_injective(a: AccessRights, b: AccessRights)
    requires
        a.spec_bits() == b.spec_bits(),
    ensures
        a == b,
{
}

/// Being a subset is a preorder on rights: a chain of derivations never
/// gains a right.
pub proof fn lemma_subset_transitive(a: AccessRights, b: AccessRights, c: AccessRights)
    requires
        a.subset_of(b),
        b.subset_of(c),
    ensures
        a.subset_of(c),
{
    assert forall|op: Operation| a.permits(op) implies c.permits(op) by {
        assert(b.permits(op));
    }
}

} // verus!
