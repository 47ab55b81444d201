//! The peer directory: a node's own advertised record and the table of peers
//! it knows, with the rules by which gossiped and authoritative records are
//! merged into the table.

use vstd::prelude::*;
use crate::node_info::{views, NodeInfo, NodeInfoView};
use crate::peer::PeerId;

verus! {

/// True when some record of `peers` names `id`.
pub open spec fn knows(peers: Seq<NodeInfoView>, id: PeerId) -> bool {
    exists|i: int| 0 <= i < peers.len() && (#[trigger] peers[i]).peer_id == id
}

/// The place of the record that names `id`; meaningful when `knows(peers, id)`.
pub open spec fn position(peers: Seq<NodeInfoView>, id: PeerId) -> int {
    choose|i: int| 0 <= i < peers.len() && (#[trigger] peers[i]).peer_id == id
}

/// The record stored for `id`, if there is one.
pub open spec fn lookup(peers: Seq<NodeInfoView>, id: PeerId) -> Option<NodeInfoView> {
    if knows(peers, id) {
        Some(peers[position(peers, id)])
    } else {
        None
    }
}

/// No two records of `peers` name the same peer.
pub open spec fn unique_peers(peers: Seq<NodeInfoView>) -> bool {
    forall|i: int, j: int|
        0 <= i < peers.len() && 0 <= j < peers.len() && i != j
            ==> (#[trigger] peers[i]).peer_id != (#[trigger] peers[j]).peer_id
}

/// The table after a gossiped record was offered to it.
///
/// An unknown peer is appended. A known peer's record is replaced in place
/// when the offered timestamp is strictly greater than the stored one; a
/// record that is not newer leaves the table as it was.
pub open spec fn merge_gossip(peers: Seq<NodeInfoView>, info: NodeInfoView) -> Seq<NodeInfoView> {
    if knows(peers, info.peer_id) {
        let at = position(peers, info.peer_id);
        if info.timestamp_ms > peers[at].timestamp_ms {
            peers.update(at, info)
        } else {
            peers
        }
    } else {
        peers.push(info)
    }
}

/// The table after an authoritative record was written to it: the record
/// takes the place of whatever was stored for its peer, or is appended.
pub open spec fn merge_trusted(peers: Seq<NodeInfoView>, info: NodeInfoView) -> Seq<NodeInfoView> {
    if knows(peers, info.peer_id) {
        peers.update(position(peers, info.peer_id), info)
    } else {
        peers.push(info)
    }
}

/// The table without the record of `id`; the other records keep their order.
pub open spec fn without(peers: Seq<NodeInfoView>, id: PeerId) -> Seq<NodeInfoView> {
    if knows(peers, id) {
        peers.remove(position(peers, id))
    } else {
        peers
    }
}

/// What a directory holds, as a mathematical value.
pub struct DirectoryView {
    /// The node's own record, once it is known.
    pub our_info: Option<NodeInfoView>,
    /// The known peers, in the order in which they were first learned.
    pub known_peers: Seq<NodeInfoView>,
}

impl DirectoryView {
    /// A directory that knows nothing, not even the node's own record.
    pub open spec fn empty() -> DirectoryView {
        DirectoryView { our_info: None, known_peers: Seq::empty() }
    }

    /// Every peer is recorded at most once.
    pub open spec fn wf(self) -> bool {
        unique_peers(self.known_peers)
    }

    /// The directory after the node's own record was set to `info`.
    pub open spec fn set_own_info(self, info: NodeInfoView) -> DirectoryView {
        DirectoryView { our_info: Some(info), ..self }
    }

    /// The directory after the gossiped record `info` was offered to it.
    pub open spec fn upsert(self, info: NodeInfoView) -> DirectoryView {
        DirectoryView { known_peers: merge_gossip(self.known_peers, info), ..self }
    }

    /// The directory after the authoritative record `info` was written to it.
    pub open spec fn upsert_trusted(self, info: NodeInfoView) -> DirectoryView {
        DirectoryView { known_peers: merge_trusted(self.known_peers, info), ..self }
    }

    /// The directory after the record of `id` was dropped.
    pub open spec fn remove(self, id: PeerId) -> DirectoryView {
        DirectoryView { known_peers: without(self.known_peers, id), ..self }
    }

    /// The record stored for `id`, if there is one.
    pub open spec fn get(self, id: PeerId) -> Option<NodeInfoView> {
        lookup(self.known_peers, id)
    }
}

/// In a table without repeated peers, a record that names `id` stands at
/// `position(peers, id)`.
pub proof fn lemma_position_is(peers: Seq<NodeInfoView>, id: PeerId, at: int)
    requires
        unique_peers(peers),
        0 <= at < peers.len(),
        peers[at].peer_id == id,
    ensures
        knows(peers, id),
        position(peers, id) == at,
        lookup(peers, id) == Some(peers[at]),
{
    assert(knows(peers, id));
    let p = position(peers, id);
    assert(0 <= p < peers.len() && peers[p].peer_id == id);
    if p != at {
        assert(peers[p].peer_id != peers[at].peer_id);
    }
}

/// The three ways of changing the table keep its peers distinct.
pub proof fn lemma_changes_keep_unique(peers: Seq<NodeInfoView>, info: NodeInfoView)
    requires
        unique_peers(peers),
    ensures
        unique_peers(merge_gossip(peers, info)),
        unique_peers(merge_trusted(peers, info)),
        unique_peers(without(peers, info.peer_id)),
{
    let id = info.peer_id;
    if knows(peers, id) {
        let at = position(peers, id);
        let replaced = peers.update(at, info);
        assert forall|i: int, j: int|
            0 <= i < replaced.len() && 0 <= j < replaced.len() && i != j implies (
        #[trigger] replaced[i]).peer_id != (#[trigger] replaced[j]).peer_id by {
            assert(replaced[i].peer_id == peers[i].peer_id);
            assert(replaced[j].peer_id == peers[j].peer_id);
        }
        let removed = peers.remove(at);
        assert forall|i: int, j: int|
            0 <= i < removed.len() && 0 <= j < removed.len() && i != j implies (
        #[trigger] removed[i]).peer_id != (#[trigger] removed[j]).peer_id by {
            let oi = if i < at { i } else { i + 1 };
            let oj = if j < at { j } else { j + 1 };
            assert(removed[i] == peers[oi]);
            assert(removed[j] == peers[oj]);
        }
    } else {
        let grown = peers.push(info);
        assert forall|i: int, j: int|
            0 <= i < grown.len() && 0 <= j < grown.len() && i != j implies (
        #[trigger] grown[i]).peer_id != (#[trigger] grown[j]).peer_id by {
            if i < peers.len() {
                assert(grown[i] == peers[i]);
            }
            if j < peers.len() {
                assert(grown[j] == peers[j]);
            }
        }
    }
}

/// What is stored for each peer after a gossiped record was offered: for the
/// record's own peer the offered record when the peer was unknown or its
/// stored record was older, else the stored record; for every other peer what
/// was stored before.
pub proof fn lemma_merge_gossip_lookup(peers: Seq<NodeInfoView>, info: NodeInfoView)
    requires
        unique_peers(peers),
    ensures
        unique_peers(merge_gossip(peers, info)),
        lookup(merge_gossip(peers, info), info.peer_id) == match lookup(peers, info.peer_id) {
            Some(stored) => if info.timestamp_ms > stored.timestamp_ms {
                Some(info)
            } else {
                Some(stored)
            },
            None => Some(info),
        },
        forall|other: PeerId|
            other != info.peer_id ==> #[trigger] lookup(merge_gossip(peers, info), other)
                == lookup(peers, other),
{
    let after = merge_gossip(peers, info);
    lemma_changes_keep_unique(peers, info);
    let at = if knows(peers, info.peer_id) {
        position(peers, info.peer_id)
    } else {
        peers.len() as int
    };
    if !knows(peers, info.peer_id) {
        assert(after[at] == info);
    }
    lemma_position_is(after, info.peer_id, at);
    assert forall|other: PeerId| other != info.peer_id implies #[trigger] lookup(after, other)
        == lookup(peers, other) by {
        lemma_others_stay(peers, after, at, other);
    }
}

/// What is stored for each peer after an authoritative record was written:
/// for the record's own peer that record, for every other peer what was
/// stored before.
pub proof fn lemma_merge_trusted_lookup(peers: Seq<NodeInfoView>, info: NodeInfoView)
    requires
        unique_peers(peers),
    ensures
        unique_peers(merge_trusted(peers, info)),
        lookup(merge_trusted(peers, info), info.peer_id) == Some(info),
        forall|other: PeerId|
            other != info.peer_id ==> #[trigger] lookup(merge_trusted(peers, info), other)
                == lookup(peers, other),
{
    let after = merge_trusted(peers, info);
    lemma_changes_keep_unique(peers, info);
    let at = if knows(peers, info.peer_id) {
        position(peers, info.peer_id)
    } else {
        peers.len() as int
    };
    assert(after[at] == info);
    lemma_position_is(after, info.peer_id, at);
    assert forall|other: PeerId| other != info.peer_id implies #[trigger] lookup(after, other)
        == lookup(peers, other) by {
        lemma_others_stay(peers, after, at, other);
    }
}

/// A table that differs from another only at the place `at`, where it may
/// also be one record longer, stores the same for every peer that is not the
/// peer of that place.
proof fn lemma_others_stay(
    peers: Seq<NodeInfoView>,
    after: Seq<NodeInfoView>,
    at: int,
    other: PeerId,
)
    requires
        unique_peers(peers),
        unique_peers(after),
        0 <= at < after.len(),
        peers.len() <= after.len() <= peers.len() + 1,
        at < peers.len() ==> after.len() == peers.len(),
        forall|i: int| 0 <= i < peers.len() && i != at ==> after[i] == peers[i],
        at < peers.len() ==> after[at].peer_id == peers[at].peer_id,
        after[at].peer_id != other,
    ensures
        lookup(after, other) == lookup(peers, other),
{
    if knows(peers, other) {
        let p = position(peers, other);
        assert(after[p] == peers[p]);
        lemma_position_is(after, other, p);
    } else if knows(after, other) {
        let p = position(after, other);
        assert(after[p] == peers[p]);
        assert(knows(peers, other));
    }
}

/// A node's local view of the overlay: its own record and its known peers.
pub struct PeerDirectory {
    our_info: Option<NodeInfo>,
    known_peers: Vec<NodeInfo>,
}

impl View for PeerDirectory {
    type V = DirectoryView;

    closed spec fn view(&self) -> DirectoryView {
        DirectoryView {
            our_info: match self.our_info {
                Some(info) => Some(info@),
                None => None,
            },
            known_peers: views(self.known_peers@),
        }
    }
}

impl PeerDirectory {
    /// The invariant of the directory: every peer is recorded at most once.
    pub open spec fn wf(&self) -> bool {
        self@.wf()
    }

    /// A directory that knows nothing.
    pub fn new() -> (directory: PeerDirectory)
        ensures
            directory.wf(),
            directory@ == DirectoryView::empty(),
    {
        let directory = PeerDirectory { our_info: None, known_peers: Vec::new() };
        assert(directory@.known_peers =~= Seq::empty());
        directory
    }

    /// Sets the node's own record, replacing an earlier one.
    pub fn set_own_info(&mut self, info: NodeInfo)
        requires
            old(self).wf(),
        ensures
            final(self).wf(),
            final(self)@ == old(self)@.set_own_info(info@),
    {
        self.our_info = Some(info);
    }

    /// The node's own record, if it has been set.
    pub fn our_info(&self) -> (own: Option<&NodeInfo>)
        ensures
            own is Some <==> self@.our_info is Some,
            own is Some ==> Some(own.unwrap()@) == self@.our_info,
    {
        self.our_info.as_ref()
    }

    /// Number of known peers.
    pub fn len(&self) -> (n: usize)
        ensures
            n == self@.known_peers.len(),
    {
        self.known_peers.len()
    }

    /// The record at place `at` of the table.
    pub fn peer_at(&self, at: usize) -> (record: &NodeInfo)
        requires
            at < self@.known_peers.len(),
        ensures
            record@ == self@.known_peers[at as int],
    {
        &self.known_peers[at]
    }

    /// Finds the place of the record that names `peer_id`.
    fn find(&self, peer_id: &PeerId) -> (found: Option<usize>)
        requires
            self.wf(),
        ensures
            found is Some <==> knows(self@.known_peers, *peer_id),
            found is Some ==> found.unwrap() == position(self@.known_peers, *peer_id)
                && found.unwrap() < self.known_peers.len(),
    {
        let ghost peers = self@.known_peers;
        let mut i: usize = 0;
        while i < self.known_peers.len()
            invariant
                0 <= i <= self.known_peers.len(),
                peers == self@.known_peers,
                peers.len() == self.known_peers.len(),
                unique_peers(peers),
                forall|j: int| 0 <= j < i ==> (#[trigger] peers[j]).peer_id != *peer_id,
            decreases self.known_peers.len() - i,
        {
            if self.known_peers[i].peer_id == *peer_id {
                proof {
                    assert(peers[i as int] == self.known_peers[i as int]@);
                    lemma_position_is(peers, *peer_id, i as int);
                }
                return Some(i);
            }
            assert(peers[i as int] == self.known_peers[i as int]@);
            i += 1;
        }
        None
    }

    /// The record stored for `peer_id`, if there is one.
    pub fn get(&self, peer_id: &PeerId) -> (found: Option<&NodeInfo>)
        requires
            self.wf(),
        ensures
            found is Some <==> self@.get(*peer_id) is Some,
            found is Some ==> Some(found.unwrap()@) == self@.get(*peer_id),
    {
        match self.find(peer_id) {
            Some(at) => Some(&self.known_peers[at]),
            None => None,
        }
    }

    /// Tells whether a record is stored for `peer_id`.
    pub fn contains(&self, peer_id: &PeerId) -> (known: bool)
        requires
            self.wf(),
        ensures
            known == knows(self@.known_peers, *peer_id),
    {
        self.find(peer_id).is_some()
    }

    /// Copies out the node's own record and every known peer, the peers in the
    /// order in which they were first learned.
    pub fn known_peers_snapshot(&self) -> (snapshot: (Option<NodeInfo>, Vec<NodeInfo>))
        ensures
            snapshot.0 is Some <==> self@.our_info is Some,
            snapshot.0 is Some ==> Some(snapshot.0.unwrap()@) == self@.our_info,
            views(snapshot.1@) == self@.known_peers,
    {
        let own = match &self.our_info {
            Some(info) => Some(info.clone()),
            None => None,
        };
        let mut peers: Vec<NodeInfo> = Vec::new();
        let mut i: usize = 0;
        while i < self.known_peers.len()
            invariant
                0 <= i <= self.known_peers.len(),
                peers.len() == i,
                forall|j: int| 0 <= j < i ==> (#[trigger] peers[j])@ == self.known_peers[j]@,
            decreases self.known_peers.len() - i,
        {
            peers.push(self.known_peers[i].clone());
            i += 1;
        }
        assert(views(peers@) =~= views(self.known_peers@));
        (own, peers)
    }

    /// Offers a gossiped record to the table and tells whether the table
    /// changed.
    ///
    /// A record of an unknown peer is added. A record of a known peer takes
    /// the place of the stored one only when its timestamp is strictly
    /// greater; a stale or repeated record is dropped and the stored one
    /// stays, also when the two timestamps are equal.
    pub fn upsert(&mut self, info: NodeInfo) -> (changed: bool)
        requires
            old(self).wf(),
        ensures
            final(self).wf(),
            final(self)@ == old(self)@.upsert(info@),
            changed <==> match old(self)@.get(info.peer_id) {
                Some(stored) => info.timestamp_ms > stored.timestamp_ms,
                None => true,
            },
    {
        proof {
            lemma_changes_keep_unique(self@.known_peers, info@);
        }
        match self.find(&info.peer_id) {
            Some(at) => {
                if info.timestamp_ms > self.known_peers[at].timestamp_ms {
                    self.known_peers[at] = info;
                    assert(final(self)@.known_peers =~= old(self)@.known_peers.update(
                        at as int,
                        info@,
                    ));
                    true
                } else {
                    false
                }
            },
            None => {
                self.known_peers.push(info);
                assert(final(self)@.known_peers =~= old(self)@.known_peers.push(info@));
                true
            },
        }
    }

    /// Writes an authoritative record to the table.
    ///
    /// The record always takes the place of the one stored for its peer,
    /// whatever the two timestamps are; for an unknown peer it is added.
    pub fn upsert_trusted(&mut self, info: NodeInfo)
        requires
            old(self).wf(),
        ensures
            final(self).wf(),
            final(self)@ == old(self)@.upsert_trusted(info@),
    {
        proof {
            lemma_changes_keep_unique(self@.known_peers, info@);
        }
        match self.find(&info.peer_id) {
            Some(at) => {
                self.known_peers[at] = info;
                assert(final(self)@.known_peers =~= old(self)@.known_peers.update(
                    at as int,
                    info@,
                ));
            },
            None => {
                self.known_peers.push(info);
                assert(final(self)@.known_peers =~= old(self)@.known_peers.push(info@));
            },
        }
    }

    /// Drops the record of `peer_id`. An unknown peer leaves the table as it
    /// was.
    pub fn remove(&mut self, peer_id: &PeerId)
        requires
            old(self).wf(),
        ensures
            final(self).wf(),
            final(self)@ == old(self)@.remove(*peer_id),
    {
        proof {
            let named = NodeInfoView {
                peer_id: *peer_id,
                addresses: Seq::empty(),
                timestamp_ms: 0,
            };
            lemma_changes_keep_unique(self@.known_peers, named);
        }
        match self.find(peer_id) {
            Some(at) => {
                self.known_peers.remove(at);
                assert(final(self)@.known_peers =~= old(self)@.known_peers.remove(at as int));
            },
            None => {},
        }
    }
}

} // verus!
