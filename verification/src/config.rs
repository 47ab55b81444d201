//! How a node is told to join the overlay.

use vstd::prelude::*;
use multiaddr::Multiaddr;
use crate::address::{address_bytes, clone_address, parse_multiaddr, parsed_address};
use crate::keys::{is_verification_key, NetworkPublicKey};
use crate::peer::PeerId;

verus! {

/// Why a configuration is refused before the node starts.
#[derive(Clone, Copy, Debug, PartialEq, Eq, Structural)]
pub enum ConfigError {
    /// A text that should be a network address is none.
    MalformedAddress,
    /// An identifier that should name a peer is not the encoding of a
    /// network key.
    InvalidIdentity,
}

/// Reads a network address from its text form.
///
/// Fails with `MalformedAddress` exactly when the text denotes no address.
pub fn parse_address(text: &str) -> (read: Result<Multiaddr, ConfigError>)
    ensures
        read is Ok <==> parsed_address(text@) is Some,
        read is Ok ==> Some(address_bytes(read.unwrap())) == parsed_address(text@),
        read is Err ==> read == Err::<Multiaddr, ConfigError>(ConfigError::MalformedAddress),
{
    address_or_error(parse_multiaddr(text))
}

/// What reading an address comes to, given what the text was read as: the
/// address that was read, or `MalformedAddress` for whatever reason none was.
pub fn address_or_error(parsed: Result<Multiaddr, multiaddr::Error>) -> (read: Result<
    Multiaddr,
    ConfigError,
>)
    ensures
        read == (match parsed {
            Ok(address) => Ok::<Multiaddr, ConfigError>(address),
            Err(_) => Err::<Multiaddr, ConfigError>(ConfigError::MalformedAddress),
        }),
{
    match parsed {
        Ok(address) => Ok(address),
        Err(_) => Err(ConfigError::MalformedAddress),
    }
}

/// A bootstrap address that is dialed to join the overlay.
///
/// With an identifier, the peer that answers at the address must prove to be
/// exactly that peer. Without one, whichever peer answers is accepted.
#[derive(Debug, PartialEq, Eq)]
pub struct SeedPeer {
    pub peer_id: Option<PeerId>,
    pub address: Multiaddr,
}

impl SeedPeer {
    /// Reads a seed peer from the text of its address and, for a typed seed,
    /// the identifier of the peer that must answer there.
    ///
    /// Fails with `MalformedAddress` exactly when the text denotes no
    /// address. Fails with `InvalidIdentity` exactly when the address is read
    /// and an identifier is given that is not the encoding of a network key.
    pub fn parse(peer_id: Option<PeerId>, address: &str) -> (read: Result<SeedPeer, ConfigError>)
        ensures
            match read {
                Ok(seed) => {
                    &&& seed.peer_id == peer_id
                    &&& Some(address_bytes(seed.address)) == parsed_address(address@)
                    &&& peer_id is Some ==> is_verification_key(peer_id.unwrap().bytes())
                },
                Err(ConfigError::MalformedAddress) => parsed_address(address@) is None,
                Err(ConfigError::InvalidIdentity) => {
                    &&& parsed_address(address@) is Some
                    &&& peer_id is Some
                    &&& !is_verification_key(peer_id.unwrap().bytes())
                },
            },
    {
        let address = match parse_address(address) {
            Ok(address) => address,
            Err(e) => {
                return Err(e);
            },
        };
        match peer_id {
            Some(id) => {
                if NetworkPublicKey::from_peer_id(&id).is_none() {
                    return Err(ConfigError::InvalidIdentity);
                }
            },
            None => {},
        }
        Ok(SeedPeer { peer_id, address })
    }
}

impl Clone for SeedPeer {
    fn clone(&self) -> (copy: Self)
        ensures
            copy == *self,
    {
        SeedPeer { peer_id: self.peer_id, address: clone_address(&self.address) }
    }
}

/// What a configuration says, as a mathematical value.
pub struct P2pConfigView {
    pub seed_peers: Seq<SeedPeer>,
    pub external_address: Option<Multiaddr>,
}

/// The peer-to-peer configuration of a node.
#[derive(Debug, PartialEq, Eq)]
pub struct P2pConfig {
    /// The bootstrap peers, in the order in which they are dialed.
    pub seed_peers: Vec<SeedPeer>,
    /// The address under which other nodes reach this node, once it is known.
    pub external_address: Option<Multiaddr>,
}

impl View for P2pConfig {
    type V = P2pConfigView;

    open spec fn view(&self) -> P2pConfigView {
        P2pConfigView { seed_peers: self.seed_peers@, external_address: self.external_address }
    }
}

impl Default for P2pConfig {
    /// The configuration without seed peers and without an external address.
    fn default() -> (config: P2pConfig)
        ensures
            config@ == (P2pConfigView { seed_peers: Seq::empty(), external_address: None }),
    {
        P2pConfig { seed_peers: Vec::new(), external_address: None }
    }
}

impl Clone for P2pConfig {
    fn clone(&self) -> (copy: Self)
        ensures
            copy@ == self@,
    {
        let mut seed_peers: Vec<SeedPeer> = Vec::new();
        let mut i: usize = 0;
        while i < self.seed_peers.len()
            invariant
                0 <= i <= self.seed_peers.len(),
                seed_peers@ == self.seed_peers@.take(i as int),
            decreases self.seed_peers.len() - i,
        {
            seed_peers.push(self.seed_peers[i].clone());
            assert(seed_peers@ == self.seed_peers@.take(i + 1));
            i += 1;
        }
        assert(self.seed_peers@.take(self.seed_peers.len() as int) == self.seed_peers@);
        let external_address = match &self.external_address {
            Some(address) => Some(clone_address(address)),
            None => None,
        };
        P2pConfig { seed_peers, external_address }
    }
}

} // verus!
