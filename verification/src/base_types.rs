//! Plain values that the chain attaches to epochs and accounts.

use vstd::prelude::*;
use crate::bytes::array_eq;

verus! {

/// Number of an epoch.
pub type EpochId = u64;

/// Amount of stake, also used for voting power.
pub type StakeUnit = u64;

/// Number of bytes in an account address.
pub const SUI_ADDRESS_LENGTH: usize = 32;

/// The lowest protocol version.
pub const MIN_PROTOCOL_VERSION: u64 = 1;

/// Account address of a validator.
#[derive(Clone, Copy, Debug, Hash)]
pub struct SuiAddress(pub [u8; 32]);

impl PartialEq for SuiAddress {
    fn eq(&self, other: &Self) -> (same: bool) {
        array_eq(&self.0, &other.0)
    }
}

impl Eq for SuiAddress {

}

impl vstd::std_specs::cmp::PartialEqSpecImpl for SuiAddress {
    open spec fn obeys_eq_spec() -> bool {
        true
    }

    open spec fn eq_spec(&self, other: &Self) -> bool {
        *self == *other
    }
}

/// Version of the protocol that an epoch runs.
#[derive(Clone, Copy, Debug, PartialEq, Eq, Hash, Structural)]
pub struct ProtocolVersion(pub u64);

impl ProtocolVersion {
    /// The version with the given number.
    pub fn new(version: u64) -> (v: ProtocolVersion)
        ensures
            v == ProtocolVersion(version),
    {
        ProtocolVersion(version)
    }

    /// The lowest version there is.
    pub fn minimum() -> (v: ProtocolVersion)
        ensures
            v == ProtocolVersion(MIN_PROTOCOL_VERSION),
    {
        ProtocolVersion(MIN_PROTOCOL_VERSION)
    }

    /// The number of the version.
    pub fn as_u64(&self) -> (version: u64)
        ensures
            version == self.0,
    {
        self.0
    }
}

} // verus!
