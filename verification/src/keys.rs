//! Keys of authorities, held by their byte encodings.
//!
//! An authority has a protocol key, whose 96 bytes also serve as the
//! authority's name, and a network key of 32 bytes, from which its peer
//! identifier is taken.

use vstd::prelude::*;
use fastcrypto::bls12381::min_sig::{BLS12381KeyPair, BLS12381PublicKey};
use fastcrypto::traits::{KeyPair, ToFromBytes};
use crate::bytes::array_eq;
use crate::peer::PeerId;

verus! {

/// Number of bytes in a protocol key and in an authority's name.
pub const PROTOCOL_KEY_LENGTH: usize = 96;

/// Number of bytes in a network key.
pub const NETWORK_KEY_LENGTH: usize = 32;

/// Protocol public key of an authority, by its 96-byte encoding.
#[derive(Clone, Copy, Debug, Hash)]
pub struct PublicKey(pub [u8; 96]);

impl PartialEq for PublicKey {
    fn eq(&self, other: &Self) -> (same: bool) {
        array_eq(&self.0, &other.0)
    }
}

impl Eq for PublicKey {

}

impl vstd::std_specs::cmp::PartialEqSpecImpl for PublicKey {
    open spec fn obeys_eq_spec() -> bool {
        true
    }

    open spec fn eq_spec(&self, other: &Self) -> bool {
        *self == *other
    }
}

/// The name of an authority: the bytes of its protocol key.
#[derive(Clone, Copy, Debug, Hash)]
pub struct AuthorityPublicKeyBytes(pub [u8; 96]);

/// The name under which an authority is listed in a committee.
pub type AuthorityName = AuthorityPublicKeyBytes;

impl PartialEq for AuthorityPublicKeyBytes {
    fn eq(&self, other: &Self) -> (same: bool) {
        array_eq(&self.0, &other.0)
    }
}

impl Eq for AuthorityPublicKeyBytes {

}

impl vstd::std_specs::cmp::PartialEqSpecImpl for AuthorityPublicKeyBytes {
    open spec fn obeys_eq_spec() -> bool {
        true
    }

    open spec fn eq_spec(&self, other: &Self) -> bool {
        *self == *other
    }
}

impl From<&PublicKey> for AuthorityPublicKeyBytes {
    /// The name of the authority that holds `key`.
    fn from(key: &PublicKey) -> (name: AuthorityPublicKeyBytes) {
        AuthorityPublicKeyBytes(key.0)
    }
}

impl vstd::std_specs::convert::FromSpecImpl<&PublicKey> for AuthorityPublicKeyBytes {
    open spec fn obeys_from_spec() -> bool {
        true
    }

    open spec fn from_spec(key: &PublicKey) -> AuthorityPublicKeyBytes {
        AuthorityPublicKeyBytes(key.0)
    }
}

/// Tells whether 32 bytes are the encoding of an Ed25519 verification key,
/// as `ed25519_consensus` decides it.
pub uninterp spec fn is_verification_key(bytes: Seq<u8>) -> bool;

/// Asks `ed25519_consensus` whether `bytes` encode a verification key.
///
/// Calls `VerificationKey::try_from` on the 32 bytes, which succeeds exactly
/// when they decompress to a point of the curve. The answer depends on the
/// bytes alone.
#[verifier::external_body]
fn decodes_as_verification_key(bytes: &[u8; 32]) -> (decodes: bool)
    ensures
        decodes == is_verification_key(bytes@),
{
    ed25519_consensus::VerificationKey::try_from(*bytes).is_ok()
}

/// Network public key of an authority, by its 32-byte encoding.
///
/// A value of this type always holds the encoding of a verification key.
#[derive(Clone, Copy, Debug, Hash)]
pub struct NetworkPublicKey {
    bytes: [u8; 32],
}

impl PartialEq for NetworkPublicKey {
    fn eq(&self, other: &Self) -> (same: bool) {
        array_eq(&self.bytes, &other.bytes)
    }
}

impl Eq for NetworkPublicKey {

}

impl vstd::std_specs::cmp::PartialEqSpecImpl for NetworkPublicKey {
    open spec fn obeys_eq_spec() -> bool {
        true
    }

    open spec fn eq_spec(&self, other: &Self) -> bool {
        *self == *other
    }
}

impl NetworkPublicKey {
    #[verifier::type_invariant]
    spec fn holds_a_key(self) -> bool {
        is_verification_key(self.bytes@)
    }

    /// The 32 bytes of the key.
    pub closed spec fn bytes(self) -> [u8; 32] {
        self.bytes
    }

    /// The key that is encoded by `bytes`, or `None` when the bytes encode
    /// no verification key.
    pub fn from_bytes(bytes: [u8; 32]) -> (key: Option<NetworkPublicKey>)
        ensures
            key is Some <==> is_verification_key(bytes@),
            key is Some ==> key.unwrap().bytes() == bytes,
    {
        if decodes_as_verification_key(&bytes) {
            Some(NetworkPublicKey { bytes })
        } else {
            None
        }
    }

    /// The key whose encoding is the identifier of a peer, if there is one.
    pub fn from_peer_id(peer_id: &PeerId) -> (key: Option<NetworkPublicKey>)
        ensures
            key is Some <==> is_verification_key(peer_id.bytes()),
            key is Some ==> key.unwrap().bytes() == peer_id.0,
    {
        NetworkPublicKey::from_bytes(peer_id.0)
    }

    /// The encoding of the key.
    pub fn to_bytes(&self) -> (bytes: [u8; 32])
        ensures
            bytes == self.bytes(),
            is_verification_key(bytes@),
    {
        proof {
            use_type_invariant(self);
        }
        self.bytes
    }

    /// The identifier of the peer that holds this key: the key's raw bytes.
    pub fn peer_id(&self) -> (id: PeerId)
        ensures
            id == PeerId(self.bytes()),
            is_verification_key(id.bytes()),
    {
        proof {
            use_type_invariant(self);
        }
        PeerId(self.bytes)
    }
}

/// Tells whether bytes are the encoding of a protocol public key, as
/// `fastcrypto` decides it.
pub uninterp spec fn is_protocol_key(bytes: Seq<u8>) -> bool;

/// Asks `fastcrypto` whether `bytes` encode a protocol public key.
///
/// Calls `BLS12381PublicKey::from_bytes`, which succeeds exactly when the
/// bytes have the length and the flags of an encoded point and decode to a
/// point of the curve; it does not look whether the point lies in the right
/// subgroup. The answer depends on the bytes alone.
#[verifier::external_body]
fn decodes_as_protocol_key(bytes: &[u8]) -> (decodes: bool)
    ensures
        decodes == is_protocol_key(bytes@),
{
    BLS12381PublicKey::from_bytes(bytes).is_ok()
}

/// Draws a fresh protocol key pair and hands out the bytes of its public key.
///
/// Calls `BLS12381KeyPair::generate` of `fastcrypto` with the thread's random
/// number generator, and `as_ref` on the pair's public key. The public key
/// is the generator of the group times the secret key, a point of the curve,
/// and `as_ref` gives its compressed encoding of 96 bytes: the first
/// coordinate below the modulus, under the flags of a compressed point.
/// `from_bytes` decodes every such encoding, since the second coordinate of
/// a point of the curve can always be recovered from the first. The key is
/// random: nothing more is promised of it, and two calls give different
/// keys.
#[verifier::external_body]
fn generate_protocol_key() -> (bytes: Vec<u8>)
    ensures
        bytes@.len() == PROTOCOL_KEY_LENGTH,
        is_protocol_key(bytes@),
{
    BLS12381KeyPair::generate(&mut rand::thread_rng()).public().as_ref().to_vec()
}

impl PublicKey {
    /// Tells whether the bytes of this value are the encoding of a key.
    pub fn decodes(&self) -> (decodes: bool)
        ensures
            decodes == is_protocol_key(self.0@),
    {
        decodes_as_protocol_key(self.0.as_slice())
    }

    /// The key with the given encoding, or `None` when the encoding has not
    /// the length of a key.
    pub fn from_slice(encoding: &[u8]) -> (key: Option<PublicKey>)
        ensures
            key is Some <==> encoding@.len() == PROTOCOL_KEY_LENGTH,
            key is Some ==> key.unwrap().0@ == encoding@,
    {
        if encoding.len() != PROTOCOL_KEY_LENGTH {
            return None;
        }
        let mut bytes = [0u8; 96];
        let mut i: usize = 0;
        while i < PROTOCOL_KEY_LENGTH
            invariant
                0 <= i <= PROTOCOL_KEY_LENGTH,
                encoding@.len() == PROTOCOL_KEY_LENGTH,
                forall|j: int| 0 <= j < i ==> bytes@[j] == encoding@[j],
            decreases PROTOCOL_KEY_LENGTH - i,
        {
            bytes[i] = encoding[i];
            i += 1;
        }
        assert(bytes@ =~= encoding@);
        Some(PublicKey(bytes))
    }
}

/// The name of a freshly drawn authority.
///
/// Every call draws a new random protocol key and returns the name that
/// belongs to it, which is the key's 96 bytes. Which name comes is not known
/// beforehand; whichever comes is the encoding of a protocol key.
pub fn get_authority_pub_key_bytes() -> (name: AuthorityPublicKeyBytes)
    ensures
        is_protocol_key(name.0@),
{
    let encoding = generate_protocol_key();
    match PublicKey::from_slice(encoding.as_slice()) {
        Some(key) => AuthorityPublicKeyBytes::from(&key),
        None => vstd::pervasive::unreached(),
    }
}

} // verus!
