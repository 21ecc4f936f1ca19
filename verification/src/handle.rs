//! Handles: the address-sized integers by which the host names a container.
use vstd::prelude::*;

verus! {

/// An opaque name for one native container.
///
/// The host holds a handle as a plain integer; [`Handle::from_address`] and
/// [`Handle::into_address`] are the only way between the two.
#[derive(Clone, Copy, Debug, PartialEq, Eq, Structural)]
pub struct Handle {
    address: usize,
}

impl Handle {
    /// The integer that the host holds for this handle.
    pub closed spec fn address(self) -> usize {
        self.address
    }

    /// Two handles with the same address are the same handle.
    pub proof fn lemma_address_injective(self, other: Handle)
        ensures
            self.address() == other.address() <==> self == other,
    {
    }

    /// Rebuilds the handle that the host holds as `address`.
    pub fn from_address(address: usize) -> (handle: Handle)
        ensures
            handle.address() == address,
    {
        Handle { address }
    }

    /// Gives the integer to hand to the host for this handle.
    pub fn into_address(self) -> (address: usize)
        ensures
            address == self.address(),
    {
        self.address
    }
}

/// The kinds of container that a handle can name.
#[derive(Clone, Copy, Debug, PartialEq, Eq, Structural)]
pub enum Kind {
    /// A mapping from value to value.
    HashMap,
    /// A growable sequence of values.
    Vector,
    /// A window onto a vector.
    Slice,
}

/// Where a handle stands in its life.
#[derive(Clone, Copy, Debug, PartialEq, Eq, Structural)]
pub enum HandleState {
    /// No creation call has returned this handle yet.
    Uninitialized,
    /// The handle names a container; operations are defined.
    Live,
    /// The container was destroyed; the handle names nothing any more.
    Dead,
}

} // verus!
