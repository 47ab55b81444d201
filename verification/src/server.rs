//! The answering side of the discovery protocol: a remote node asks which
//! peers are known, and is handed the node's own record and its table.

use vstd::prelude::*;
use crate::directory::{DirectoryView, PeerDirectory};
use crate::node_info::{views, NodeInfo, NodeInfoView};

verus! {

/// Why a request for the known peers was not answered.
#[derive(Clone, Copy, Debug, PartialEq, Eq, Structural)]
pub enum ServerError {
    /// The node has not yet learned its own record.
    NotReady,
}

/// The answer to a request for the known peers.
#[derive(Debug, PartialEq, Eq)]
pub struct GetKnownPeersResponse {
    pub own_info: NodeInfo,
    pub known_peers: Vec<NodeInfo>,
}

/// What an answer says, as a mathematical value.
pub struct ResponseView {
    pub own_info: NodeInfoView,
    pub known_peers: Seq<NodeInfoView>,
}

impl View for GetKnownPeersResponse {
    type V = ResponseView;

    open spec fn view(&self) -> ResponseView {
        ResponseView { own_info: self.own_info@, known_peers: views(self.known_peers@) }
    }
}

impl Clone for GetKnownPeersResponse {
    fn clone(&self) -> (copy: Self)
        ensures
            copy@ == self@,
    {
        let own_info = self.own_info.clone();
        let mut known_peers: Vec<NodeInfo> = Vec::new();
        let mut i: usize = 0;
        while i < self.known_peers.len()
            invariant
                0 <= i <= self.known_peers.len(),
                known_peers.len() == i,
                forall|j: int| 0 <= j < i ==> (#[trigger] known_peers[j])@ == self.known_peers[j]@,
            decreases self.known_peers.len() - i,
        {
            known_peers.push(self.known_peers[i].clone());
            i += 1;
        }
        assert(views(known_peers@) =~= views(self.known_peers@));
        GetKnownPeersResponse { own_info, known_peers }
    }
}

impl DirectoryView {
    /// The answer that a directory gives to a request for its known peers.
    pub open spec fn get_known_peers(self) -> Result<ResponseView, ServerError> {
        match self.our_info {
            Some(own_info) => Ok(ResponseView { own_info, known_peers: self.known_peers }),
            None => Err(ServerError::NotReady),
        }
    }
}

/// Answers a request for the known peers.
///
/// Fails with `NotReady` exactly when the node's own record is not set.
/// Otherwise the answer holds the node's own record and a copy of every known
/// peer, in the table's order. The directory is only read.
pub fn get_known_peers(directory: &PeerDirectory) -> (answer: Result<
    GetKnownPeersResponse,
    ServerError,
>)
    ensures
        answer is Ok <==> directory@.our_info is Some,
        match answer {
            Ok(response) => directory@.get_known_peers() == Ok::<ResponseView, ServerError>(
                response@,
            ),
            Err(e) => directory@.get_known_peers() == Err::<ResponseView, ServerError>(e),
        },
{
    let (own, known_peers) = directory.known_peers_snapshot();
    match own {
        Some(own_info) => Ok(GetKnownPeersResponse { own_info, known_peers }),
        None => Err(ServerError::NotReady),
    }
}

} // verus!
