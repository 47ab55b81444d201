//! Peer identifiers.

use vstd::prelude::*;
use crate::bytes::array_eq;

verus! {

/// Number of bytes in a peer identifier.
pub const PEER_ID_LENGTH: usize = 32;

/// Fixed-size opaque value that names one participant of the overlay.
///
/// Two identifiers are the same peer exactly when their 32 bytes agree.
#[derive(Clone, Copy, Debug, Hash)]
pub struct PeerId(pub [u8; 32]);

impl PeerId {
    /// The identifier as the sequence of its 32 bytes.
    pub open spec fn bytes(self) -> Seq<u8> {
        self.0@
    }

    /// Builds an identifier from its raw bytes.
    pub fn from_bytes(bytes: [u8; 32]) -> (id: PeerId)
        ensures
            id.0 == bytes,
    {
        PeerId(bytes)
    }

    /// Hands out the raw bytes of the identifier.
    pub fn to_bytes(&self) -> (bytes: [u8; 32])
        ensures
            bytes == self.0,
    {
        self.0
    }
}

impl PartialEq for PeerId {
    fn eq(&self, other: &Self) -> (same: bool) {
        array_eq(&self.0, &other.0)
    }
}

impl Eq for PeerId {

}

impl vstd::std_specs::cmp::PartialEqSpecImpl for PeerId {
    open spec fn obeys_eq_spec() -> bool {
        true
    }

    open spec fn eq_spec(&self, other: &Self) -> bool {
        *self == *other
    }
}

} // verus!
