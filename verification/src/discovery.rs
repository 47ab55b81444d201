//! The decisions of the discovery event loop.
//!
//! The loop itself waits for a timer, for replies and for the transport; what
//! it does with each of these is decided here. Every handler takes the state
//! and one event, changes the state, and returns what is to be done: dials to
//! make, peers to ask, an event to publish. Nothing here waits or fails
//! because of the network.

use vstd::prelude::*;
use multiaddr::Multiaddr;
use crate::address::{clone_address, clone_addresses};
use crate::committee::{CommitteeWithNetworkMetadata, NetworkMetadata};
use crate::config::{P2pConfig, P2pConfigView};
use crate::dial::{
    dial_views, lemma_map_values_push, list_contains, peer_dials, plan_peer_dials,
    plan_seed_dials, seed_dials, DialRequest, DialView,
};
use crate::directory::{
    knows, lemma_merge_gossip_lookup, lemma_merge_trusted_lookup, lookup, merge_gossip,
    merge_trusted, unique_peers, DirectoryView, PeerDirectory,
};
use crate::events::PeerEvent;
use crate::node_info::{NodeInfo, NodeInfoView};
use crate::peer::PeerId;
use crate::server::{GetKnownPeersResponse, ResponseView};

verus! {

/// What the transport tells of one connection.
#[derive(Clone, Copy, Debug, PartialEq, Eq)]
pub enum ConnectionEvent {
    /// A connection to the peer was established and its handshake completed,
    /// whoever of the two dialed.
    Established(PeerId),
    /// The connection to the peer ended.
    Closed(PeerId),
}

/// Why a connected peer gave no answer when asked for its known peers.
#[derive(Clone, Copy, Debug, PartialEq, Eq, Structural)]
pub enum QueryError {
    /// No answer came in time.
    Timeout,
    /// The peer answered with an error, for one that it is not ready yet.
    Rpc,
    /// The connection was gone before an answer came.
    PeerGone,
}

/// Why the stream of committees handed out no committee.
#[derive(Clone, Copy, Debug, PartialEq, Eq, Structural)]
pub enum StreamError {
    /// The listener fell behind and this many committees were dropped.
    Lagged(u64),
    /// The stream has ended.
    Closed,
}

/// A condition that ends the work of the discovery subsystem.
#[derive(Clone, Copy, Debug, PartialEq, Eq, Structural)]
pub enum DiscoveryError {
    /// The stream of committees has ended: trust can no longer be updated.
    ChannelClosed,
}

/// What a failure of the committee stream means for the listener.
///
/// Committees that were dropped because the listener lagged are no loss: only
/// the newest committee matters, and it is still to come. The end of the
/// stream is fatal.
pub fn on_stream_error(error: StreamError) -> (outcome: Result<(), DiscoveryError>)
    ensures
        outcome == (match error {
            StreamError::Lagged(_) => Ok::<(), DiscoveryError>(()),
            StreamError::Closed => Err::<(), DiscoveryError>(DiscoveryError::ChannelClosed),
        }),
{
    match error {
        StreamError::Lagged(_) => Ok(()),
        StreamError::Closed => Err(DiscoveryError::ChannelClosed),
    }
}

/// The work of one tick.
#[derive(Debug, PartialEq, Eq)]
pub struct TickPlan {
    /// The dials to make, each on its own so that none waits for another.
    pub dials: Vec<DialRequest>,
    /// The connected peers to ask for their known peers.
    pub queries: Vec<PeerId>,
}

/// A record is taken from a reply when it names another peer than the node
/// itself and advertises an address.
pub open spec fn acceptable(own: PeerId) -> spec_fn(NodeInfoView) -> bool {
    |info: NodeInfoView| info.peer_id != own && info.addresses.len() > 0
}

/// The records that a reply offers: the replier's own record first, then its
/// known peers in their order.
pub open spec fn offered(reply: ResponseView) -> Seq<NodeInfoView> {
    seq![reply.own_info] + reply.known_peers
}

/// A reply is taken when it is an answer whose own record names the peer that
/// was asked.
pub open spec fn reply_is_taken(
    responder: PeerId,
    reply: Result<ResponseView, QueryError>,
) -> bool {
    reply is Ok && reply.unwrap().own_info.peer_id == responder
}

/// The table after every one of `records` was offered to it as gossip, in
/// their order.
pub open spec fn merge_all(table: Seq<NodeInfoView>, records: Seq<NodeInfoView>) -> Seq<
    NodeInfoView,
>
    decreases records.len(),
{
    if records.len() == 0 {
        table
    } else {
        merge_gossip(merge_all(table, records.drop_last()), records.last())
    }
}

/// The table after every one of `records` was written to it as authoritative,
/// in their order.
pub open spec fn trust_all(table: Seq<NodeInfoView>, records: Seq<NodeInfoView>) -> Seq<
    NodeInfoView,
>
    decreases records.len(),
{
    if records.len() == 0 {
        table
    } else {
        merge_trusted(trust_all(table, records.drop_last()), records.last())
    }
}

/// The peers for which `after` stores another record than `before`, or a
/// record where `before` stored none.
pub open spec fn changed_peers(before: Seq<NodeInfoView>, after: Seq<NodeInfoView>) -> Set<PeerId> {
    Set::new(|id: PeerId| lookup(after, id) != lookup(before, id))
}

/// The peers that `records` name.
pub open spec fn named_peers(records: Seq<NodeInfoView>) -> Set<PeerId> {
    Set::new(|id: PeerId| knows(records, id))
}

/// The authoritative record of an authority: its peer identifier is the raw
/// bytes of its network key, its one address is its peer-to-peer address, and
/// its timestamp is the time at which the committee was received.
pub open spec fn trusted_record(now_unix: u64) -> spec_fn(
    (Seq<u8>, NetworkMetadata),
) -> NodeInfoView {
    |entry: (Seq<u8>, NetworkMetadata)|
        NodeInfoView {
            peer_id: PeerId(entry.1.network_pubkey.bytes()),
            addresses: seq![entry.1.p2p_address],
            timestamp_ms: now_unix,
        }
}

/// A record names another peer than `own`.
pub open spec fn is_other(own: PeerId) -> spec_fn(NodeInfoView) -> bool {
    |info: NodeInfoView| info.peer_id != own
}

/// The authoritative records of a committee, in the order of its authorities,
/// without the record of the node itself.
pub open spec fn trusted_records(
    entries: Seq<(Seq<u8>, NetworkMetadata)>,
    own: PeerId,
    now_unix: u64,
) -> Seq<NodeInfoView> {
    entries.map_values(trusted_record(now_unix)).filter(is_other(own))
}

/// What a reply says, as a mathematical value.
pub open spec fn reply_view(reply: Result<GetKnownPeersResponse, QueryError>) -> Result<
    ResponseView,
    QueryError,
> {
    match reply {
        Ok(response) => Ok(response@),
        Err(e) => Err(e),
    }
}

/// Every peer that `before` knows is known to `after` too, with the same
/// record or with a record of a later timestamp.
pub open spec fn only_newer(before: Seq<NodeInfoView>, after: Seq<NodeInfoView>) -> bool {
    forall|id: PeerId| #[trigger]
        lookup(before, id) is Some ==> lookup(after, id) is Some && (lookup(after, id) == lookup(
            before,
            id,
        ) || lookup(after, id).unwrap().timestamp_ms > lookup(before, id).unwrap().timestamp_ms)
}

/// The list without `peer_id`.
pub open spec fn without_peer(list: Seq<PeerId>, peer_id: PeerId) -> Seq<PeerId> {
    if list.contains(peer_id) {
        list.remove(list.index_of(peer_id))
    } else {
        list
    }
}

/// The state of the discovery loop, as a mathematical value.
pub struct DiscoveryView {
    /// The identifier of the node itself.
    pub own_peer_id: PeerId,
    /// The configuration of the node.
    pub config: P2pConfigView,
    /// The peer directory.
    pub directory: DirectoryView,
    /// The peers to which a connection is held, in the order in which the
    /// connections were established.
    pub connected: Seq<PeerId>,
    /// The peers that the newest committee names.
    pub trusted: Set<PeerId>,
}

impl DiscoveryView {
    /// The invariant of the state: the directory holds each peer once and
    /// never the node itself, and no peer is listed as connected twice.
    pub open spec fn wf(self) -> bool {
        &&& self.directory.wf()
        &&& !knows(self.directory.known_peers, self.own_peer_id)
        &&& self.connected.no_duplicates()
    }

    /// The state of a node that has not started yet.
    pub open spec fn initial(own_peer_id: PeerId, config: P2pConfigView) -> DiscoveryView {
        DiscoveryView {
            own_peer_id,
            config,
            directory: DirectoryView::empty(),
            connected: Seq::empty(),
            trusted: Set::empty(),
        }
    }

    /// The record that the node advertises of itself at the time `now_unix`:
    /// its external address, if it knows one, and no address else.
    pub open spec fn own_record(self, now_unix: u64) -> NodeInfoView {
        NodeInfoView {
            peer_id: self.own_peer_id,
            addresses: match self.config.external_address {
                Some(address) => seq![address],
                None => Seq::empty(),
            },
            timestamp_ms: now_unix,
        }
    }

    /// The state after the loop was started at the time `now_unix`.
    pub open spec fn started(self, now_unix: u64) -> DiscoveryView {
        if self.directory.our_info is None {
            DiscoveryView {
                directory: self.directory.set_own_info(self.own_record(now_unix)),
                ..self
            }
        } else {
            self
        }
    }

    /// The state after the node learned its external address.
    pub open spec fn with_external_address(
        self,
        address: Multiaddr,
        now_unix: u64,
    ) -> DiscoveryView {
        let config = P2pConfigView { external_address: Some(address), ..self.config };
        let known = DiscoveryView { config, ..self };
        DiscoveryView {
            directory: self.directory.set_own_info(known.own_record(now_unix)),
            ..known
        }
    }

    /// The state after a tick at the time `now_unix`: the node's own record,
    /// if it is set, is published anew with that time.
    pub open spec fn ticked(self, now_unix: u64) -> DiscoveryView {
        match self.directory.our_info {
            Some(info) => DiscoveryView {
                directory: self.directory.set_own_info(
                    NodeInfoView { timestamp_ms: now_unix, ..info },
                ),
                ..self
            },
            None => self,
        }
    }

    /// The dials of a tick: first every seed that is due, then every trusted
    /// peer of the directory that is due.
    pub open spec fn tick_dials(self) -> Seq<DialView> {
        seed_dials(self.config.seed_peers, self.connected) + peer_dials(
            self.directory.known_peers,
            self.trusted,
            self.connected,
        )
    }

    /// The state after the transport told of a connection.
    pub open spec fn connection_changed(self, event: ConnectionEvent) -> DiscoveryView {
        match event {
            ConnectionEvent::Established(peer_id) => if self.connected.contains(peer_id) {
                self
            } else {
                DiscoveryView { connected: self.connected.push(peer_id), ..self }
            },
            ConnectionEvent::Closed(peer_id) => DiscoveryView {
                connected: without_peer(self.connected, peer_id),
                ..self
            },
        }
    }

    /// The event that is published when the transport tells of a connection:
    /// one `NewPeer` for a connection to a peer that was not connected, one
    /// `LostPeer` for the end of a connection that was held, nothing else.
    pub open spec fn published(self, event: ConnectionEvent) -> Option<PeerEvent> {
        match event {
            ConnectionEvent::Established(peer_id) => if self.connected.contains(peer_id) {
                None
            } else {
                Some(PeerEvent::NewPeer(peer_id))
            },
            ConnectionEvent::Closed(peer_id) => if self.connected.contains(peer_id) {
                Some(PeerEvent::LostPeer(peer_id))
            } else {
                None
            },
        }
    }

    /// The state after `responder` replied to a request for its known peers.
    ///
    /// A failure, and an answer whose own record does not name the
    /// responder, leave the state as it was. From any other answer every
    /// acceptable record is offered to the directory as gossip.
    pub open spec fn merged(
        self,
        responder: PeerId,
        reply: Result<ResponseView, QueryError>,
    ) -> DiscoveryView {
        if reply_is_taken(responder, reply) {
            DiscoveryView {
                directory: DirectoryView {
                    known_peers: merge_all(
                        self.directory.known_peers,
                        offered(reply.unwrap()).filter(acceptable(self.own_peer_id)),
                    ),
                    ..self.directory
                },
                ..self
            }
        } else {
            self
        }
    }

    /// The dials that follow a reply: one for every peer whose record the
    /// reply added or replaced and that is due.
    pub open spec fn reply_dials(
        self,
        responder: PeerId,
        reply: Result<ResponseView, QueryError>,
    ) -> Seq<DialView> {
        if reply_is_taken(responder, reply) {
            let after = self.merged(responder, reply).directory.known_peers;
            peer_dials(after, changed_peers(self.directory.known_peers, after), self.connected)
        } else {
            Seq::empty()
        }
    }

    /// The state after a committee was received at the time `now_unix`: the
    /// record of every authority but the node itself is written to the
    /// directory as authoritative, and the trusted peers are those that this
    /// committee names.
    pub open spec fn reconfigured(
        self,
        entries: Seq<(Seq<u8>, NetworkMetadata)>,
        now_unix: u64,
    ) -> DiscoveryView {
        let records = trusted_records(entries, self.own_peer_id, now_unix);
        DiscoveryView {
            directory: DirectoryView {
                known_peers: trust_all(self.directory.known_peers, records),
                ..self.directory
            },
            trusted: named_peers(records),
            ..self
        }
    }

    /// The dials that follow a committee: one for every trusted peer that is
    /// due.
    pub open spec fn committee_dials(
        self,
        entries: Seq<(Seq<u8>, NetworkMetadata)>,
        now_unix: u64,
    ) -> Seq<DialView> {
        let after = self.reconfigured(entries, now_unix);
        peer_dials(after.directory.known_peers, after.trusted, after.connected)
    }
}

/// The state of the discovery loop of one node.
pub struct Discovery {
    own_peer_id: PeerId,
    config: P2pConfig,
    directory: PeerDirectory,
    connected: Vec<PeerId>,
    trusted: Vec<PeerId>,
}

impl View for Discovery {
    type V = DiscoveryView;

    closed spec fn view(&self) -> DiscoveryView {
        DiscoveryView {
            own_peer_id: self.own_peer_id,
            config: self.config@,
            directory: self.directory@,
            connected: self.connected@,
            trusted: self.trusted@.to_set(),
        }
    }
}

/// The place of `peer_id` in a list without repetitions.
fn place_in(list: &Vec<PeerId>, peer_id: &PeerId) -> (place: Option<usize>)
    requires
        list@.no_duplicates(),
    ensures
        place is Some <==> list@.contains(*peer_id),
        place is Some ==> place.unwrap() < list@.len() && place.unwrap() == list@.index_of(
            *peer_id,
        ),
{
    let mut i: usize = 0;
    while i < list.len()
        invariant
            0 <= i <= list.len(),
            list@.no_duplicates(),
            forall|j: int| 0 <= j < i ==> list@[j] != *peer_id,
        decreases list.len() - i,
    {
        if list[i] == *peer_id {
            proof {
                let at = list@.index_of(*peer_id);
                assert(list@[i as int] == *peer_id);
                assert(list@.contains(*peer_id));
                assert(0 <= at < list@.len() && list@[at] == *peer_id);
                if at != i as int {
                    assert(list@[at] != list@[i as int]);
                }
            }
            return Some(i);
        }
        i += 1;
    }
    None
}

/// A list without repetitions stays one when a peer that it does not hold
/// joins it at the end.
pub proof fn lemma_joined_by_new_peer(list: Seq<PeerId>, peer_id: PeerId)
    requires
        list.no_duplicates(),
        !list.contains(peer_id),
    ensures
        list.push(peer_id).no_duplicates(),
        list.push(peer_id).contains(peer_id),
{
    let grown = list.push(peer_id);
    assert(grown[list.len() as int] == peer_id);
    assert forall|i: int, j: int|
        0 <= i < grown.len() && 0 <= j < grown.len() && i != j implies grown[i] != grown[j] by {
        if i < list.len() {
            assert(list[i] != peer_id);
        }
        if j < list.len() {
            assert(list[j] != peer_id);
        }
    }
}

/// A list without repetitions stays one when a peer leaves it.
proof fn lemma_without_peer(list: Seq<PeerId>, peer_id: PeerId)
    requires
        list.no_duplicates(),
    ensures
        without_peer(list, peer_id).no_duplicates(),
        !without_peer(list, peer_id).contains(peer_id),
{
    if list.contains(peer_id) {
        let at = list.index_of(peer_id);
        let after = list.remove(at);
        assert forall|i: int, j: int|
            0 <= i < after.len() && 0 <= j < after.len() && i != j implies after[i]
            != after[j] by {
            let oi = if i < at { i } else { i + 1 };
            let oj = if j < at { j } else { j + 1 };
            assert(after[i] == list[oi] && after[j] == list[oj]);
        }
        if after.contains(peer_id) {
            let i = choose|i: int| 0 <= i < after.len() && after[i] == peer_id;
            let oi = if i < at { i } else { i + 1 };
            assert(after[i] == list[oi]);
        }
    }
}

impl Discovery {
    /// The invariant of the state.
    pub open spec fn wf(&self) -> bool {
        self@.wf()
    }

    /// The state of a node with the given identifier and configuration that
    /// has not started yet: it knows no peer, not even its own record, holds
    /// no connection and trusts no peer.
    pub fn new(own_peer_id: PeerId, config: P2pConfig) -> (state: Discovery)
        ensures
            state.wf(),
            state@ == DiscoveryView::initial(own_peer_id, config@),
    {
        let state = Discovery {
            own_peer_id,
            config,
            directory: PeerDirectory::new(),
            connected: Vec::new(),
            trusted: Vec::new(),
        };
        assert(state@.trusted =~= Set::empty());
        state
    }

    /// The identifier of the node itself.
    pub fn own_peer_id(&self) -> (peer_id: PeerId)
        ensures
            peer_id == self@.own_peer_id,
    {
        self.own_peer_id
    }

    /// The configuration of the node.
    pub fn config(&self) -> (config: &P2pConfig)
        ensures
            config@ == self@.config,
    {
        &self.config
    }

    /// The peer directory, for reading.
    pub fn directory(&self) -> (directory: &PeerDirectory)
        ensures
            directory@ == self@.directory,
            self.wf() ==> directory.wf(),
    {
        &self.directory
    }

    /// The connected peers, in the order in which their connections were
    /// established.
    pub fn connected(&self) -> (connected: &Vec<PeerId>)
        ensures
            connected@ == self@.connected,
    {
        &self.connected
    }

    /// Tells whether a connection to `peer_id` is held.
    pub fn is_connected(&self, peer_id: &PeerId) -> (connected: bool)
        ensures
            connected == self@.connected.contains(*peer_id),
    {
        list_contains(&self.connected, peer_id)
    }

    /// Tells whether the newest committee names `peer_id`.
    pub fn is_trusted(&self, peer_id: &PeerId) -> (trusted: bool)
        ensures
            trusted == self@.trusted.contains(*peer_id),
    {
        list_contains(&self.trusted, peer_id)
    }

    /// The record that the node advertises of itself at the time `now_unix`.
    fn own_record(&self, now_unix: u64) -> (record: NodeInfo)
        ensures
            record@ == self@.own_record(now_unix),
    {
        let mut addresses: Vec<Multiaddr> = Vec::new();
        match &self.config.external_address {
            Some(address) => {
                addresses.push(clone_address(address));
                assert(addresses@ =~= seq![*address]);
            },
            None => {},
        }
        NodeInfo { peer_id: self.own_peer_id, addresses, timestamp_ms: now_unix }
    }

    /// Starts the loop at the time `now_unix`: a node that has no own record
    /// yet gets one, made of its identifier, its external address if it knows
    /// one, and the time.
    pub fn start(&mut self, now_unix: u64)
        requires
            old(self).wf(),
        ensures
            final(self).wf(),
            final(self)@ == old(self)@.started(now_unix),
    {
        if self.directory.our_info().is_none() {
            let record = self.own_record(now_unix);
            self.directory.set_own_info(record);
        }
    }

    /// Tells the node its external address at the time `now_unix`. The
    /// address becomes the one address of the node's own record, which is
    /// published anew.
    pub fn set_external_address(&mut self, address: Multiaddr, now_unix: u64)
        requires
            old(self).wf(),
        ensures
            final(self).wf(),
            final(self)@ == old(self)@.with_external_address(address, now_unix),
    {
        self.config.external_address = Some(address);
        let record = self.own_record(now_unix);
        self.directory.set_own_info(record);
    }

    /// Takes note of what the transport tells of a connection, and returns
    /// the event to publish, if there is one.
    ///
    /// Every newly established connection gives exactly one `NewPeer`: a
    /// second report of a connection that is already held gives nothing.
    pub fn handle_connection(&mut self, event: ConnectionEvent) -> (published: Option<PeerEvent>)
        requires
            old(self).wf(),
        ensures
            final(self).wf(),
            final(self)@ == old(self)@.connection_changed(event),
            published == old(self)@.published(event),
    {
        match event {
            ConnectionEvent::Established(peer_id) => {
                if list_contains(&self.connected, &peer_id) {
                    None
                } else {
                    proof {
                        lemma_joined_by_new_peer(self.connected@, peer_id);
                    }
                    self.connected.push(peer_id);
                    Some(PeerEvent::NewPeer(peer_id))
                }
            },
            ConnectionEvent::Closed(peer_id) => {
                proof {
                    lemma_without_peer(self.connected@, peer_id);
                }
                match place_in(&self.connected, &peer_id) {
                    Some(at) => {
                        self.connected.remove(at);
                        Some(PeerEvent::LostPeer(peer_id))
                    },
                    None => None,
                }
            },
        }
    }

    /// Plans the work of the tick at the time `now_unix`.
    ///
    /// The node's own record, if it is set, is published anew with that time.
    /// Every seed that is due is dialed, typed when the seed names a peer;
    /// then every trusted peer that is due. Every connected peer is asked for
    /// its known peers.
    pub fn handle_tick(&mut self, now_unix: u64) -> (plan: TickPlan)
        requires
            old(self).wf(),
        ensures
            final(self).wf(),
            final(self)@ == old(self)@.ticked(now_unix),
            dial_views(plan.dials@) == old(self)@.tick_dials(),
            plan.dials@.len() <= old(self)@.config.seed_peers.len()
                + old(self)@.directory.known_peers.len(),
            plan.queries@ == old(self)@.connected,
    {
        let refreshed = match self.directory.our_info() {
            Some(info) => Some(
                NodeInfo {
                    peer_id: info.peer_id,
                    addresses: clone_addresses(&info.addresses),
                    timestamp_ms: now_unix,
                },
            ),
            None => None,
        };
        match refreshed {
            Some(record) => {
                self.directory.set_own_info(record);
            },
            None => {},
        }
        let mut dials = plan_seed_dials(&self.config.seed_peers, &self.connected);
        let mut more = plan_peer_dials(&self.directory, &self.trusted, &self.connected);
        let ghost first = dials@;
        let ghost second = more@;
        dials.append(&mut more);
        proof {
            assert(dial_views(first + second) =~= dial_views(first) + dial_views(second));
        }
        let mut queries: Vec<PeerId> = Vec::new();
        let mut i: usize = 0;
        while i < self.connected.len()
            invariant
                0 <= i <= self.connected.len(),
                queries@ == self.connected@.take(i as int),
            decreases self.connected.len() - i,
        {
            queries.push(self.connected[i]);
            assert(queries@ == self.connected@.take(i + 1));
            i += 1;
        }
        assert(self.connected@.take(self.connected.len() as int) == self.connected@);
        TickPlan { dials, queries }
    }

    /// Offers one record of a reply to the directory, unless it names the
    /// node itself or holds no address, and notes its peer as changed when
    /// the table changed.
    fn offer(
        &mut self,
        info: &NodeInfo,
        changed: &mut Vec<PeerId>,
        Ghost(table0): Ghost<Seq<NodeInfoView>>,
        Ghost(seen): Ghost<Seq<NodeInfoView>>,
    )
        requires
            old(self).directory.wf(),
            !knows(old(self).directory@.known_peers, old(self).own_peer_id),
            only_newer(table0, old(self).directory@.known_peers),
            old(self).directory@.known_peers == merge_all(
                table0,
                seen.filter(acceptable(old(self).own_peer_id)),
            ),
            old(changed)@.to_set() =~= changed_peers(table0, old(self).directory@.known_peers),
        ensures
            final(self).own_peer_id == old(self).own_peer_id,
            final(self).connected == old(self).connected,
            final(self).trusted == old(self).trusted,
            final(self).config == old(self).config,
            final(self).directory@.our_info == old(self).directory@.our_info,
            final(self).directory.wf(),
            !knows(final(self).directory@.known_peers, final(self).own_peer_id),
            only_newer(table0, final(self).directory@.known_peers),
            final(self).directory@.known_peers == merge_all(
                table0,
                seen.push(info@).filter(acceptable(old(self).own_peer_id)),
            ),
            final(changed)@.to_set() =~= changed_peers(table0, final(self).directory@.known_peers),
    {
        let ghost current = self.directory@.known_peers;
        let ghost kept = seen.filter(acceptable(self.own_peer_id));
        proof {
            seen.lemma_filter_push(info@, acceptable(self.own_peer_id));
        }
        if info.peer_id != self.own_peer_id && info.addresses.len() > 0 {
            let did_change = self.directory.upsert(info.clone());
            proof {
                assert(kept.push(info@).drop_last() =~= kept);
                lemma_offered(table0, current, info@, changed@, did_change);
            }
            if did_change {
                changed.push(info.peer_id);
            }
        }
    }

    /// Takes the reply of `responder` to a request for its known peers.
    ///
    /// A failure changes nothing and asks for nothing: the peer is asked
    /// again at a later tick. So does an answer whose own record does not
    /// name the responder. From any other answer the responder's own record
    /// and then each of its known peers is offered to the directory as
    /// gossip, but for records that name the node itself and records without
    /// an address. A dial is asked for every peer whose record was added or
    /// replaced and that is due.
    pub fn handle_known_peers(
        &mut self,
        responder: PeerId,
        reply: Result<GetKnownPeersResponse, QueryError>,
    ) -> (dials: Vec<DialRequest>)
        requires
            old(self).wf(),
        ensures
            final(self).wf(),
            final(self)@ == old(self)@.merged(responder, reply_view(reply)),
            dial_views(dials@) == old(self)@.reply_dials(responder, reply_view(reply)),
            dials@.len() <= final(self)@.directory.known_peers.len(),
    {
        let response = match reply {
            Ok(response) => response,
            Err(_) => {
                return Vec::new();
            },
        };
        if response.own_info.peer_id != responder {
            return Vec::new();
        }
        let ghost table0 = self.directory@.known_peers;
        let ghost all = offered(response@);
        let mut changed: Vec<PeerId> = Vec::new();
        proof {
            reveal(Seq::filter);
            assert(Seq::<NodeInfoView>::empty().filter(acceptable(self.own_peer_id)) =~= Seq::<
                NodeInfoView,
            >::empty());
            assert(changed@.to_set() =~= changed_peers(table0, table0));
        }
        self.offer(&response.own_info, &mut changed, Ghost(table0), Ghost(Seq::empty()));
        let mut k: usize = 0;
        proof {
            assert(Seq::<NodeInfoView>::empty().push(response.own_info@) =~= all.take(1));
        }
        while k < response.known_peers.len()
            invariant
                0 <= k <= response.known_peers.len(),
                all == offered(response@),
                self.own_peer_id == old(self).own_peer_id,
                self.connected == old(self).connected,
                self.trusted == old(self).trusted,
                self.config == old(self).config,
                self.directory@.our_info == old(self).directory@.our_info,
                self.directory.wf(),
                !knows(self.directory@.known_peers, self.own_peer_id),
                only_newer(table0, self.directory@.known_peers),
                self.directory@.known_peers == merge_all(
                    table0,
                    all.take(k + 1).filter(acceptable(self.own_peer_id)),
                ),
                changed@.to_set() =~= changed_peers(table0, self.directory@.known_peers),
            decreases response.known_peers.len() - k,
        {
            let info = &response.known_peers[k];
            proof {
                assert(all[k + 1] == info@);
                assert(all.take(k + 2) =~= all.take(k + 1).push(info@));
            }
            self.offer(info, &mut changed, Ghost(table0), Ghost(all.take(k + 1)));
            k += 1;
        }
        proof {
            assert(all.take(response.known_peers.len() + 1) =~= all);
        }
        plan_peer_dials(&self.directory, &changed, &self.connected)
    }

    /// Takes a committee that was received at the time `now_unix`.
    ///
    /// For every authority of the committee but the node itself, in the
    /// order of the authorities' names, an authoritative record is written to
    /// the directory: its peer identifier is the raw bytes of the authority's
    /// network key, its one address the authority's peer-to-peer address, its
    /// timestamp `now_unix`. The record takes the place of whatever gossip
    /// had stored. The peers named by this committee are from now on the
    /// trusted peers; a dial is asked for each of them that is due.
    pub fn handle_committee(
        &mut self,
        committee: &CommitteeWithNetworkMetadata,
        now_unix: u64,
    ) -> (dials: Vec<DialRequest>)
        requires
            old(self).wf(),
        ensures
            final(self).wf(),
            final(self)@ == old(self)@.reconfigured(committee.network_metadata.pairs(), now_unix),
            dial_views(dials@) == old(self)@.committee_dials(
                committee.network_metadata.pairs(),
                now_unix,
            ),
            dials@.len() <= final(self)@.directory.known_peers.len(),
    {
        let ghost table0 = self.directory@.known_peers;
        let ghost own = self.own_peer_id;
        let ghost entries = committee.network_metadata.pairs();
        let mut trusted: Vec<PeerId> = Vec::new();
        let n = committee.network_metadata.len();
        let mut i: usize = 0;
        proof {
            reveal(Seq::filter);
            assert(trusted_records(entries.take(0), own, now_unix) =~= Seq::<
                NodeInfoView,
            >::empty());
            assert(trusted@.to_set() =~= named_peers(Seq::<NodeInfoView>::empty()));
        }
        while i < n
            invariant
                0 <= i <= n,
                n == entries.len(),
                entries == committee.network_metadata.pairs(),
                own == self.own_peer_id,
                self.connected == old(self).connected,
                self.config == old(self).config,
                self.directory@.our_info == old(self).directory@.our_info,
                self.directory.wf(),
                !knows(self.directory@.known_peers, own),
                self.directory@.known_peers == trust_all(
                    table0,
                    trusted_records(entries.take(i as int), own, now_unix),
                ),
                trusted@.to_set() =~= named_peers(
                    trusted_records(entries.take(i as int), own, now_unix),
                ),
            decreases n - i,
        {
            let metadata = committee.network_metadata.value_at(i);
            let peer_id = metadata.network_pubkey.peer_id();
            let ghost current = self.directory@.known_peers;
            let ghost seen = trusted_records(entries.take(i as int), own, now_unix);
            let ghost record = trusted_record(now_unix)(entries[i as int]);
            proof {
                assert(entries.take(i + 1) =~= entries.take(i as int).push(entries[i as int]));
                lemma_map_values_push(
                    entries.take(i as int),
                    entries[i as int],
                    trusted_record(now_unix),
                );
                entries.take(i as int).map_values(trusted_record(now_unix)).lemma_filter_push(
                    record,
                    is_other(own),
                );
            }
            if peer_id != self.own_peer_id {
                let mut addresses: Vec<Multiaddr> = Vec::new();
                addresses.push(clone_address(&metadata.p2p_address));
                assert(addresses@ =~= seq![metadata.p2p_address]);
                let info = NodeInfo { peer_id, addresses, timestamp_ms: now_unix };
                assert(info@ == record);
                self.directory.upsert_trusted(info);
                proof {
                    assert(seen.push(record).drop_last() =~= seen);
                    lemma_merge_trusted_lookup(current, record);
                    lemma_named_push(seen, record, trusted@);
                }
                trusted.push(peer_id);
            }
            i += 1;
        }
        proof {
            assert(entries.take(n as int) =~= entries);
        }
        self.trusted = trusted;
        plan_peer_dials(&self.directory, &self.trusted, &self.connected)
    }
}

/// What one more offered record does to the table and to the changed peers.
proof fn lemma_offered(
    table0: Seq<NodeInfoView>,
    current: Seq<NodeInfoView>,
    info: NodeInfoView,
    changed: Seq<PeerId>,
    did_change: bool,
)
    requires
        unique_peers(current),
        only_newer(table0, current),
        changed.to_set() =~= changed_peers(table0, current),
        did_change <==> match lookup(current, info.peer_id) {
            Some(stored) => info.timestamp_ms > stored.timestamp_ms,
            None => true,
        },
    ensures
        only_newer(table0, merge_gossip(current, info)),
        (if did_change {
            changed.push(info.peer_id)
        } else {
            changed
        }).to_set() =~= changed_peers(table0, merge_gossip(current, info)),
        forall|id: PeerId|
            id != info.peer_id ==> (knows(merge_gossip(current, info), id) <==> knows(current, id)),
{
    let next = merge_gossip(current, info);
    lemma_merge_gossip_lookup(current, info);
    assert forall|id: PeerId| id != info.peer_id implies (knows(next, id) <==> knows(
        current,
        id,
    )) by {
        assert(lookup(next, id) == lookup(current, id));
    }
    assert forall|id: PeerId| #[trigger] lookup(table0, id) is Some implies lookup(next, id)
        is Some && (lookup(next, id) == lookup(table0, id) || lookup(next, id).unwrap().timestamp_ms
        > lookup(table0, id).unwrap().timestamp_ms) by {
        if id != info.peer_id {
            assert(lookup(next, id) == lookup(current, id));
        }
    }
    let grown = if did_change {
        changed.push(info.peer_id)
    } else {
        changed
    };
    assert forall|id: PeerId| grown.to_set().contains(id) <==> changed_peers(
        table0,
        next,
    ).contains(id) by {
        assert(changed.to_set().contains(id) <==> changed_peers(table0, current).contains(id));
        assert(changed.to_set().contains(id) <==> changed.contains(id));
        if did_change {
            assert(grown[changed.len() as int] == info.peer_id);
            if changed.contains(id) {
                let at = choose|at: int| 0 <= at < changed.len() && changed[at] == id;
                assert(grown[at] == id);
            }
            if grown.contains(id) {
                let at = choose|at: int| 0 <= at < grown.len() && grown[at] == id;
                if at < changed.len() {
                    assert(changed[at] == id);
                }
            }
        }
        if id != info.peer_id {
            assert(lookup(next, id) == lookup(current, id));
        } else if lookup(table0, id) is Some {
            assert(lookup(current, id) is Some);
        }
    }
}

/// One more record names one more peer.
proof fn lemma_named_push(records: Seq<NodeInfoView>, record: NodeInfoView, listed: Seq<PeerId>)
    requires
        listed.to_set() =~= named_peers(records),
    ensures
        listed.push(record.peer_id).to_set() =~= named_peers(records.push(record)),
{
    let grown = listed.push(record.peer_id);
    let more = records.push(record);
    assert forall|id: PeerId| grown.to_set().contains(id) <==> named_peers(more).contains(id) by {
        assert(listed.to_set().contains(id) <==> named_peers(records).contains(id));
        assert(grown[listed.len() as int] == record.peer_id);
        assert(more[records.len() as int] == record);
        if listed.contains(id) {
            let at = choose|at: int| 0 <= at < listed.len() && listed[at] == id;
            assert(grown[at] == id);
        }
        if grown.contains(id) {
            let at = choose|at: int| 0 <= at < grown.len() && grown[at] == id;
            if at < listed.len() {
                assert(listed[at] == id);
            }
        }
        if knows(records, id) {
            let at = choose|at: int|
                0 <= at < records.len() && (#[trigger] records[at]).peer_id == id;
            assert(more[at].peer_id == id);
        }
        if knows(more, id) {
            let at = choose|at: int| 0 <= at < more.len() && (#[trigger] more[at]).peer_id == id;
            if at < records.len() {
                assert(records[at].peer_id == id);
            }
        }
    }
}

} // verus!
