//! Advertised identity of a peer.

use vstd::prelude::*;
use multiaddr::Multiaddr;
use crate::address::clone_addresses;
use crate::peer::PeerId;

verus! {

/// What a `NodeInfo` says, as a mathematical value.
pub struct NodeInfoView {
    pub peer_id: PeerId,
    pub addresses: Seq<Multiaddr>,
    pub timestamp_ms: u64,
}

/// Advertised identity, addresses and freshness timestamp of one peer.
///
/// The timestamp is the producer's clock, in unix milliseconds, at the moment
/// the record was published. Records of one peer are ranked by it.
#[derive(Debug, PartialEq, Eq)]
pub struct NodeInfo {
    pub peer_id: PeerId,
    pub addresses: Vec<Multiaddr>,
    pub timestamp_ms: u64,
}

impl View for NodeInfo {
    type V = NodeInfoView;

    open spec fn view(&self) -> NodeInfoView {
        NodeInfoView {
            peer_id: self.peer_id,
            addresses: self.addresses@,
            timestamp_ms: self.timestamp_ms,
        }
    }
}

impl Clone for NodeInfo {
    fn clone(&self) -> (copy: Self)
        ensures
            copy@ == self@,
    {
        NodeInfo {
            peer_id: self.peer_id,
            addresses: clone_addresses(&self.addresses),
            timestamp_ms: self.timestamp_ms,
        }
    }
}

impl NodeInfo {
    /// Builds a record from its three parts.
    pub fn new(peer_id: PeerId, addresses: Vec<Multiaddr>, timestamp_ms: u64) -> (info: NodeInfo)
        ensures
            info@ == (NodeInfoView { peer_id, addresses: addresses@, timestamp_ms }),
    {
        NodeInfo { peer_id, addresses, timestamp_ms }
    }
}

/// The views of a list of records, in the list's order.
pub open spec fn views(infos: Seq<NodeInfo>) -> Seq<NodeInfoView> {
    infos.map_values(|info: NodeInfo| info@)
}

} // verus!
