use vstd::prelude::*;

verus! {

/// Address kind of an actor that lives in this process.
pub const LOCAL: u8 = 0;

/// An identifier naming a routing endpoint: an opaque identifier plus a
/// discriminator telling what kind of endpoint it is (local, or reachable
/// through some transport). Two addresses are equal when both parts are.
#[derive(Clone, Copy, Debug, PartialEq, Eq, Hash, Structural)]
pub struct Address {
    pub kind: u8,
    pub id: u64,
}

impl View for Address {
    type V = Address;

    open spec fn view(&self) -> Address {
        *self
    }
}

impl Address {
    /// An address of the given kind and identifier.
    pub fn new(kind: u8, id: u64) -> (r: Address)
        ensures
            r.kind == kind,
            r.id == id,
    {
        Address { kind, id }
    }

    /// An address of an actor in this process.
    pub fn local(id: u64) -> (r: Address)
        ensures
            r.kind == LOCAL,
            r.id == id,
    {
        Address { kind: LOCAL, id }
    }

    /// Whether the address names an actor in this process.
    pub fn is_local(&self) -> (r: bool)
        ensures
            r == (self.kind == LOCAL),
    {
        self.kind == LOCAL
    }
}

} // verus!
