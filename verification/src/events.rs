//! Events by which a node tells its other subsystems which peers it can
//! reach.

use vstd::prelude::*;
use crate::peer::PeerId;

verus! {

/// A change in the set of peers to which the node holds a connection.
///
/// An event carries the bare identifier of the peer and nothing of the
/// directory: whoever wants more asks the directory.
#[derive(Clone, Copy, Debug, PartialEq, Eq)]
pub enum PeerEvent {
    /// A connection to the peer was established and its handshake completed.
    NewPeer(PeerId),
    /// The connection to the peer was lost.
    LostPeer(PeerId),
}

impl PeerEvent {
    /// The peer that the event is about.
    pub open spec fn subject(self) -> PeerId {
        match self {
            PeerEvent::NewPeer(peer_id) => peer_id,
            PeerEvent::LostPeer(peer_id) => peer_id,
        }
    }

    /// The peer that the event is about.
    pub fn peer_id(&self) -> (peer_id: PeerId)
        ensures
            peer_id == self.subject(),
    {
        match self {
            PeerEvent::NewPeer(peer_id) => *peer_id,
            PeerEvent::LostPeer(peer_id) => *peer_id,
        }
    }

    /// The newly connected peer, when the event announces one.
    pub fn new_peer(&self) -> (peer: Option<PeerId>)
        ensures
            peer == (match *self {
                PeerEvent::NewPeer(peer_id) => Some(peer_id),
                PeerEvent::LostPeer(_) => None,
            }),
    {
        match self {
            PeerEvent::NewPeer(peer_id) => Some(*peer_id),
            PeerEvent::LostPeer(_) => None,
        }
    }
}

/// The peer announced by a `NewPeer` event.
///
/// Meant for a place where only a `NewPeer` event can arrive; any other
/// event is excluded by the precondition.
pub fn unwrap_new_peer_event(event: PeerEvent) -> (peer_id: PeerId)
    requires
        event is NewPeer,
    ensures
        event == PeerEvent::NewPeer(peer_id),
{
    match event {
        PeerEvent::NewPeer(peer_id) => peer_id,
        PeerEvent::LostPeer(_) => vstd::pervasive::unreached(),
    }
}

} // verus!
