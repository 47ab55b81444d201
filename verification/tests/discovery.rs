use multiaddr::Multiaddr;
use peer_discovery::base_types::ProtocolVersion;
use peer_discovery::committee::{Committee, CommitteeWithNetworkMetadata, NetworkMetadata};
use peer_discovery::config::{parse_address, ConfigError, P2pConfig, SeedPeer};
use peer_discovery::dial::DialRequest;
use peer_discovery::discovery::{
    on_stream_error, ConnectionEvent, Discovery, DiscoveryError, QueryError, StreamError,
};
use peer_discovery::events::{unwrap_new_peer_event, PeerEvent};
use peer_discovery::key_map::KeyMap;
use peer_discovery::keys::{get_authority_pub_key_bytes, NetworkPublicKey};
use peer_discovery::node_info::NodeInfo;
use peer_discovery::peer::PeerId;
use peer_discovery::server;
use peer_discovery::server::GetKnownPeersResponse;
use std::collections::HashSet;

fn now_unix() -> u64 {
    1_700_000_000_000
}

fn address(port: u16) -> Multiaddr {
    format!("/dns/localhost/udp/{}", port).parse().unwrap()
}

/// A peer identifier that is also the encoding of a network key.
fn key_peer_id(tag: u8) -> PeerId {
    let mut bytes = [tag; 32];
    for last in 0..=255u8 {
        bytes[31] = last;
        if NetworkPublicKey::from_bytes(bytes).is_some() {
            return PeerId(bytes);
        }
    }
    panic!("no key found for tag {}", tag)
}

/// One node of a network that lives in memory.
struct Node {
    state: Discovery,
    port: u16,
    events: Vec<PeerEvent>,
}

/// Stands for the transport: it makes the dials that the nodes ask for and
/// tells both ends of every connection that it is established.
struct Network {
    nodes: Vec<Node>,
}

impl Network {
    fn new() -> Network {
        Network { nodes: Vec::new() }
    }

    fn build(&mut self, tag: u8, config: P2pConfig) -> usize {
        let port = 20_000 + tag as u16;
        self.nodes.push(Node { state: Discovery::new(key_peer_id(tag), config), port, events: Vec::new() });
        self.nodes.len() - 1
    }

    fn peer_id(&self, node: usize) -> PeerId {
        self.nodes[node].state.own_peer_id()
    }

    fn local_addr(&self, node: usize) -> Multiaddr {
        address(self.nodes[node].port)
    }

    fn subscribe(&mut self, node: usize) {
        self.nodes[node].events.clear();
    }

    fn recv(&mut self, node: usize) -> Option<PeerEvent> {
        if self.nodes[node].events.is_empty() {
            None
        } else {
            Some(self.nodes[node].events.remove(0))
        }
    }

    fn report(&mut self, node: usize, event: ConnectionEvent) {
        if let Some(published) = self.nodes[node].state.handle_connection(event) {
            self.nodes[node].events.push(published);
        }
    }

    fn dial(&mut self, from: usize, request: &DialRequest) -> bool {
        for wanted in &request.addresses {
            let answering = (0..self.nodes.len()).find(|&to| &self.local_addr(to) == wanted);
            if let Some(to) = answering {
                if to == from {
                    continue;
                }
                if let Some(expected) = request.expected {
                    if expected != self.peer_id(to) {
                        continue;
                    }
                }
                let (a, b) = (self.peer_id(from), self.peer_id(to));
                self.report(from, ConnectionEvent::Established(b));
                self.report(to, ConnectionEvent::Established(a));
                return true;
            }
        }
        false
    }

    fn ask(&self, peer: &PeerId) -> Result<GetKnownPeersResponse, QueryError> {
        match (0..self.nodes.len()).find(|&n| self.peer_id(n) == *peer) {
            Some(n) => server::get_known_peers(self.nodes[n].state.directory()).map_err(|_| QueryError::Rpc),
            None => Err(QueryError::PeerGone),
        }
    }

    fn handle_tick(&mut self, node: usize, now_unix: u64) {
        let plan = self.nodes[node].state.handle_tick(now_unix);
        for request in &plan.dials {
            self.dial(node, request);
        }
        for peer in &plan.queries {
            let reply = self.ask(peer);
            let dials = self.nodes[node].state.handle_known_peers(*peer, reply);
            for request in &dials {
                self.dial(node, request);
            }
        }
    }

    fn start(&mut self, node: usize) {
        self.nodes[node].state.start(now_unix());
    }
}

#[test]
fn make_connection_to_seed_peer() {
    let mut net = Network::new();
    let config = P2pConfig::default();
    let network_1 = net.build(1, config);

    let mut config = P2pConfig::default();
    config.seed_peers.push(SeedPeer { peer_id: None, address: net.local_addr(network_1) });
    let network_2 = net.build(2, config);

    net.subscribe(network_1);
    net.subscribe(network_2);

    net.handle_tick(network_2, now_unix());

    assert_eq!(net.recv(network_2), Some(PeerEvent::NewPeer(net.peer_id(network_1))));
    assert_eq!(net.recv(network_1), Some(PeerEvent::NewPeer(net.peer_id(network_2))));
    // exactly one event each
    assert_eq!(net.recv(network_2), None);
    assert_eq!(net.recv(network_1), None);
}

#[test]
fn make_connection_to_seed_peer_with_peer_id() {
    let mut net = Network::new();
    let config = P2pConfig::default();
    let network_1 = net.build(1, config);

    let mut config = P2pConfig::default();
    config.seed_peers.push(SeedPeer {
        peer_id: Some(net.peer_id(network_1)),
        address: net.local_addr(network_1),
    });
    let network_2 = net.build(2, config);

    net.subscribe(network_1);
    net.subscribe(network_2);

    net.handle_tick(network_2, now_unix());

    assert_eq!(net.recv(network_2), Some(PeerEvent::NewPeer(net.peer_id(network_1))));
    assert_eq!(net.recv(network_1), Some(PeerEvent::NewPeer(net.peer_id(network_2))));
    assert_eq!(net.recv(network_2), None);
    assert_eq!(net.recv(network_1), None);
}

#[test]
fn three_nodes_can_connect_via_discovery() {
    // Setup the peer that will be the seed for the other two
    let mut net = Network::new();
    let config = P2pConfig::default();
    let network_1 = net.build(1, config);

    let mut config = P2pConfig::default();
    config.seed_peers.push(SeedPeer {
        peer_id: Some(net.peer_id(network_1)),
        address: net.local_addr(network_1),
    });
    let network_2 = net.build(2, config.clone());
    // Set an external_address address for node 2 so that it can share its address
    let external = net.local_addr(network_2);
    net.nodes[network_2].state.set_external_address(external, now_unix());

    let network_3 = net.build(3, config);

    net.subscribe(network_1);
    net.subscribe(network_2);
    net.subscribe(network_3);

    // Start all the event loops
    net.start(network_1);
    net.start(network_2);
    net.start(network_3);
    for round in 0..4u64 {
        net.handle_tick(network_1, now_unix() + round);
        net.handle_tick(network_2, now_unix() + round);
        net.handle_tick(network_3, now_unix() + round);
    }

    let peer_id_1 = net.peer_id(network_1);
    let peer_id_2 = net.peer_id(network_2);
    let peer_id_3 = net.peer_id(network_3);

    // Get two events from node and make sure they're all connected
    let peers_1 = [net.recv(network_1).unwrap(), net.recv(network_1).unwrap()]
        .into_iter()
        .map(unwrap_new_peer_event)
        .collect::<HashSet<_>>();
    assert!(peers_1.contains(&peer_id_2));
    assert!(peers_1.contains(&peer_id_3));

    let peers_2 = [net.recv(network_2).unwrap(), net.recv(network_2).unwrap()]
        .into_iter()
        .map(unwrap_new_peer_event)
        .collect::<HashSet<_>>();
    assert!(peers_2.contains(&peer_id_1));
    assert!(peers_2.contains(&peer_id_3));

    let peers_3 = [net.recv(network_3).unwrap(), net.recv(network_3).unwrap()]
        .into_iter()
        .map(unwrap_new_peer_event)
        .collect::<HashSet<_>>();
    assert!(peers_3.contains(&peer_id_1));
    assert!(peers_3.contains(&peer_id_2));

    // exactly two events each
    assert_eq!(net.recv(network_1), None);
    assert_eq!(net.recv(network_2), None);
    assert_eq!(net.recv(network_3), None);
}

#[test]
fn peers_are_added_from_reocnfig_channel() {
    let mut net = Network::new();
    let config = P2pConfig::default();
    let network_1 = net.build(1, config.clone());
    let network_2 = net.build(2, config.clone());

    let authority_name_2 = get_authority_pub_key_bytes();

    net.subscribe(network_1);
    net.subscribe(network_2);

    // Start all the event loops
    net.start(network_1);
    net.start(network_2);
    net.handle_tick(network_1, now_unix());
    net.handle_tick(network_2, now_unix());

    let peer_id_1 = net.peer_id(network_1);
    let peer_id_2 = net.peer_id(network_2);

    // At this moment peer 1 and peer 2 are not connected.
    assert_eq!(net.recv(network_1), None);
    assert_eq!(net.recv(network_2), None);

    net.subscribe(network_1);
    net.subscribe(network_2);

    // We send peer 1 a new committee info (peer 2) from the reconfig channel.
    let mut voting_rights = KeyMap::new();
    voting_rights.insert(authority_name_2.0, 1);
    let committee = Committee::new(1, voting_rights).unwrap();
    let peer_2_network_pubkey = NetworkPublicKey::from_peer_id(&peer_id_2).unwrap();
    let mut network_metadata = KeyMap::new();
    network_metadata.insert(
        authority_name_2.0,
        NetworkMetadata {
            network_pubkey: peer_2_network_pubkey,
            // network_address does not matter here
            network_address: net.local_addr(network_2),
            p2p_address: net.local_addr(network_2),
        },
    );
    let received = (CommitteeWithNetworkMetadata { committee, network_metadata }, ProtocolVersion::new(1));
    let dials = net.nodes[network_1].state.handle_committee(&received.0, now_unix());
    assert_eq!(
        dials,
        vec![DialRequest { expected: Some(peer_id_2), addresses: vec![net.local_addr(network_2)] }]
    );
    for request in &dials {
        assert!(net.dial(network_1, request));
    }

    // Now peer 1 and peer 2 are connected.
    let new_peer_for_1 = unwrap_new_peer_event(net.recv(network_1).unwrap());
    assert_eq!(new_peer_for_1, peer_id_2);
    let new_peer_for_2 = unwrap_new_peer_event(net.recv(network_2).unwrap());
    assert_eq!(new_peer_for_2, peer_id_1);

    assert!(net.nodes[network_1].state.is_trusted(&peer_id_2));
    assert!(!net.nodes[network_2].state.is_trusted(&peer_id_1));
    assert_eq!(
        net.nodes[network_1].state.directory().get(&peer_id_2),
        Some(&NodeInfo {
            peer_id: peer_id_2,
            addresses: vec![net.local_addr(network_2)],
            timestamp_ms: now_unix(),
        })
    );
}

fn record(tag: u8, port: u16, timestamp_ms: u64) -> NodeInfo {
    NodeInfo { peer_id: PeerId([tag; 32]), addresses: vec![address(port)], timestamp_ms }
}

fn started(own: u8, config: P2pConfig) -> Discovery {
    let mut state = Discovery::new(PeerId([own; 32]), config);
    state.start(now_unix());
    state
}

#[test]
fn a_new_node_knows_nothing() {
    let state = Discovery::new(PeerId([1; 32]), P2pConfig::default());
    assert_eq!(state.own_peer_id(), PeerId([1; 32]));
    assert_eq!(state.config(), &P2pConfig::default());
    assert!(state.connected().is_empty());
    assert_eq!(state.directory().known_peers_snapshot(), (None, Vec::new()));
    assert_eq!(server::get_known_peers(state.directory()), Err(server::ServerError::NotReady));
}

#[test]
fn start_publishes_the_own_record_once() {
    let mut state = Discovery::new(PeerId([1; 32]), P2pConfig::default());
    state.start(50);
    let own = NodeInfo { peer_id: PeerId([1; 32]), addresses: Vec::new(), timestamp_ms: 50 };
    assert_eq!(state.directory().our_info(), Some(&own));
    // a second start keeps the record
    state.start(60);
    assert_eq!(state.directory().our_info(), Some(&own));

    let config = P2pConfig { seed_peers: Vec::new(), external_address: Some(address(7)) };
    let mut state = Discovery::new(PeerId([2; 32]), config);
    state.start(70);
    assert_eq!(state.directory().our_info(), Some(&record(2, 7, 70)));
}

#[test]
fn external_address_becomes_the_address_of_the_own_record() {
    let mut state = started(1, P2pConfig::default());
    state.set_external_address(address(9), 80);
    assert_eq!(state.config().external_address, Some(address(9)));
    assert_eq!(state.directory().our_info(), Some(&record(1, 9, 80)));
}

#[test]
fn tick_republishes_the_own_record_with_the_time_of_the_tick() {
    let mut state = Discovery::new(PeerId([1; 32]), P2pConfig::default());
    // no own record yet: the tick sets none
    let plan = state.handle_tick(10);
    assert!(plan.dials.is_empty());
    assert!(plan.queries.is_empty());
    assert!(state.directory().our_info().is_none());

    state.set_external_address(address(9), 80);
    state.handle_tick(90);
    assert_eq!(state.directory().our_info(), Some(&record(1, 9, 90)));
}

#[test]
fn tick_dials_seeds_that_are_not_connected_and_asks_connected_peers() {
    let config = P2pConfig {
        seed_peers: vec![
            SeedPeer { peer_id: Some(PeerId([2; 32])), address: address(2) },
            SeedPeer { peer_id: None, address: address(3) },
            SeedPeer { peer_id: Some(PeerId([4; 32])), address: address(4) },
        ],
        external_address: None,
    };
    let mut state = started(1, config);
    let plan = state.handle_tick(now_unix());
    assert_eq!(
        plan.dials,
        vec![
            DialRequest { expected: Some(PeerId([2; 32])), addresses: vec![address(2)] },
            DialRequest { expected: None, addresses: vec![address(3)] },
            DialRequest { expected: Some(PeerId([4; 32])), addresses: vec![address(4)] },
        ]
    );
    assert!(plan.queries.is_empty());

    state.handle_connection(ConnectionEvent::Established(PeerId([4; 32])));
    state.handle_connection(ConnectionEvent::Established(PeerId([7; 32])));
    let plan = state.handle_tick(now_unix());
    assert_eq!(
        plan.dials,
        vec![
            DialRequest { expected: Some(PeerId([2; 32])), addresses: vec![address(2)] },
            DialRequest { expected: None, addresses: vec![address(3)] },
        ]
    );
    assert_eq!(plan.queries, vec![PeerId([4; 32]), PeerId([7; 32])]);
}

#[test]
fn every_new_connection_is_published_exactly_once() {
    let mut state = started(1, P2pConfig::default());
    let peer = PeerId([2; 32]);
    assert!(!state.is_connected(&peer));
    assert_eq!(state.handle_connection(ConnectionEvent::Established(peer)), Some(PeerEvent::NewPeer(peer)));
    assert!(state.is_connected(&peer));
    // the same connection reported again
    assert_eq!(state.handle_connection(ConnectionEvent::Established(peer)), None);
    assert_eq!(state.connected(), &vec![peer]);

    assert_eq!(state.handle_connection(ConnectionEvent::Closed(peer)), Some(PeerEvent::LostPeer(peer)));
    assert_eq!(state.handle_connection(ConnectionEvent::Closed(peer)), None);
    assert!(state.connected().is_empty());
    // connected anew: published anew
    assert_eq!(state.handle_connection(ConnectionEvent::Established(peer)), Some(PeerEvent::NewPeer(peer)));
}

#[test]
fn closing_one_connection_keeps_the_others_in_order() {
    let mut state = started(1, P2pConfig::default());
    for tag in [5u8, 6, 7] {
        state.handle_connection(ConnectionEvent::Established(PeerId([tag; 32])));
    }
    state.handle_connection(ConnectionEvent::Closed(PeerId([6; 32])));
    assert_eq!(state.connected(), &vec![PeerId([5; 32]), PeerId([7; 32])]);
}

#[test]
fn peer_events_name_their_peer() {
    let peer = PeerId([3; 32]);
    assert_eq!(PeerEvent::NewPeer(peer).peer_id(), peer);
    assert_eq!(PeerEvent::LostPeer(peer).peer_id(), peer);
    assert_eq!(PeerEvent::NewPeer(peer).new_peer(), Some(peer));
    assert_eq!(PeerEvent::LostPeer(peer).new_peer(), None);
    assert_eq!(unwrap_new_peer_event(PeerEvent::NewPeer(peer)), peer);
}

#[test]
fn a_reply_is_merged_and_new_peers_are_dialed() {
    let mut state = started(1, P2pConfig::default());
    let responder = PeerId([2; 32]);
    state.handle_connection(ConnectionEvent::Established(responder));
    state.handle_connection(ConnectionEvent::Established(PeerId([4; 32])));

    let reply = GetKnownPeersResponse {
        own_info: record(2, 2000, 10),
        known_peers: vec![record(3, 3000, 10), record(4, 4000, 10), record(1, 1000, 10)],
    };
    let dials = state.handle_known_peers(responder, Ok(reply));
    // 2 and 4 are connected, 1 is the node itself: only 3 is dialed
    assert_eq!(dials, vec![DialRequest { expected: Some(PeerId([3; 32])), addresses: vec![address(3000)] }]);
    assert_eq!(
        state.directory().known_peers_snapshot().1,
        vec![record(2, 2000, 10), record(3, 3000, 10), record(4, 4000, 10)]
    );

    // the same reply again: nothing changes, nothing is dialed
    let reply = GetKnownPeersResponse {
        own_info: record(2, 2000, 10),
        known_peers: vec![record(3, 3000, 10), record(4, 4000, 10)],
    };
    assert!(state.handle_known_peers(responder, Ok(reply)).is_empty());

    // a newer record of 3 with another address: replaced and dialed there
    let reply = GetKnownPeersResponse {
        own_info: record(2, 2000, 10),
        known_peers: vec![record(3, 3333, 11), record(4, 4444, 9)],
    };
    let dials = state.handle_known_peers(responder, Ok(reply));
    assert_eq!(dials, vec![DialRequest { expected: Some(PeerId([3; 32])), addresses: vec![address(3333)] }]);
    assert_eq!(
        state.directory().known_peers_snapshot().1,
        vec![record(2, 2000, 10), record(3, 3333, 11), record(4, 4000, 10)]
    );
}

#[test]
fn a_peer_that_is_offered_twice_in_one_reply_is_dialed_once_with_its_newest_record() {
    let mut state = started(1, P2pConfig::default());
    let responder = PeerId([2; 32]);
    let reply = GetKnownPeersResponse {
        own_info: record(2, 2000, 10),
        known_peers: vec![record(3, 3000, 10), record(3, 3001, 12), record(3, 3002, 11)],
    };
    let dials = state.handle_known_peers(responder, Ok(reply));
    assert_eq!(
        dials,
        vec![
            DialRequest { expected: Some(PeerId([2; 32])), addresses: vec![address(2000)] },
            DialRequest { expected: Some(PeerId([3; 32])), addresses: vec![address(3001)] },
        ]
    );
}

#[test]
fn a_failed_query_changes_nothing() {
    let mut state = started(1, P2pConfig::default());
    let responder = PeerId([2; 32]);
    state.handle_connection(ConnectionEvent::Established(responder));
    for error in [QueryError::Timeout, QueryError::Rpc, QueryError::PeerGone] {
        assert!(state.handle_known_peers(responder, Err(error)).is_empty());
        assert_eq!(state.directory().len(), 0);
        assert!(state.is_connected(&responder));
    }
}

#[test]
fn a_reply_under_a_wrong_identity_is_rejected() {
    let mut state = started(1, P2pConfig::default());
    let reply = GetKnownPeersResponse {
        own_info: record(5, 5000, 10),
        known_peers: vec![record(3, 3000, 10)],
    };
    // asked 2, but the answer claims to come from 5
    assert!(state.handle_known_peers(PeerId([2; 32]), Ok(reply)).is_empty());
    assert_eq!(state.directory().len(), 0);
}

#[test]
fn records_without_address_are_not_merged() {
    let mut state = started(1, P2pConfig::default());
    let empty = NodeInfo { peer_id: PeerId([3; 32]), addresses: Vec::new(), timestamp_ms: 10 };
    let own_empty = NodeInfo { peer_id: PeerId([2; 32]), addresses: Vec::new(), timestamp_ms: 10 };
    let reply = GetKnownPeersResponse { own_info: own_empty, known_peers: vec![empty, record(4, 4000, 10)] };
    let dials = state.handle_known_peers(PeerId([2; 32]), Ok(reply));
    assert_eq!(dials, vec![DialRequest { expected: Some(PeerId([4; 32])), addresses: vec![address(4000)] }]);
    assert_eq!(state.directory().known_peers_snapshot().1, vec![record(4, 4000, 10)]);
}

fn committee_of(members: &[(u8, PeerId, u16)]) -> CommitteeWithNetworkMetadata {
    let mut voting_rights = KeyMap::new();
    let mut network_metadata = KeyMap::new();
    for (name, peer_id, port) in members {
        voting_rights.insert([*name; 96], 1);
        network_metadata.insert(
            [*name; 96],
            NetworkMetadata {
                network_pubkey: NetworkPublicKey::from_peer_id(peer_id).unwrap(),
                network_address: address(1),
                p2p_address: address(*port),
            },
        );
    }
    CommitteeWithNetworkMetadata { committee: Committee::new(1, voting_rights).unwrap(), network_metadata }
}

#[test]
fn a_committee_overrides_gossip_and_replaces_the_trusted_peers() {
    let own = key_peer_id(1);
    let (b, c, d) = (key_peer_id(2), key_peer_id(3), key_peer_id(4));
    let mut state = Discovery::new(own, P2pConfig::default());
    state.start(now_unix());

    // gossip about b with a timestamp far in the future
    let gossiped = NodeInfo { peer_id: b, addresses: vec![address(2222)], timestamp_ms: u64::MAX };
    let reply = GetKnownPeersResponse { own_info: gossiped.clone(), known_peers: Vec::new() };
    state.handle_known_peers(b, Ok(reply));
    assert_eq!(state.directory().get(&b), Some(&gossiped));
    state.handle_connection(ConnectionEvent::Established(c));

    // authorities in the order of their names: c, the node itself, b
    let dials = state.handle_committee(&committee_of(&[(9, b, 2000), (5, own, 1000), (3, c, 3000)]), 500);
    // c is connected, the node itself is left out: only b is dialed
    assert_eq!(dials, vec![DialRequest { expected: Some(b), addresses: vec![address(2000)] }]);
    let trusted_b = NodeInfo { peer_id: b, addresses: vec![address(2000)], timestamp_ms: 500 };
    let trusted_c = NodeInfo { peer_id: c, addresses: vec![address(3000)], timestamp_ms: 500 };
    assert_eq!(state.directory().known_peers_snapshot().1, vec![trusted_b.clone(), trusted_c.clone()]);
    assert!(state.is_trusted(&b) && state.is_trusted(&c));
    assert!(!state.is_trusted(&own) && !state.is_trusted(&d));

    // trusted peers that are not connected are dialed again at every tick
    let plan = state.handle_tick(600);
    assert_eq!(plan.dials, vec![DialRequest { expected: Some(b), addresses: vec![address(2000)] }]);
    assert_eq!(plan.queries, vec![c]);

    // the next committee names d only: b and c lose their trust
    let dials = state.handle_committee(&committee_of(&[(7, d, 4000)]), 700);
    assert_eq!(dials, vec![DialRequest { expected: Some(d), addresses: vec![address(4000)] }]);
    assert!(state.is_trusted(&d));
    assert!(!state.is_trusted(&b) && !state.is_trusted(&c));
    let trusted_d = NodeInfo { peer_id: d, addresses: vec![address(4000)], timestamp_ms: 700 };
    assert_eq!(state.directory().known_peers_snapshot().1, vec![trusted_b, trusted_c, trusted_d]);
    let plan = state.handle_tick(800);
    assert_eq!(plan.dials, vec![DialRequest { expected: Some(d), addresses: vec![address(4000)] }]);
}

#[test]
fn a_lagging_listener_goes_on_and_a_closed_stream_is_fatal() {
    assert_eq!(on_stream_error(StreamError::Lagged(3)), Ok(()));
    assert_eq!(on_stream_error(StreamError::Lagged(0)), Ok(()));
    assert_eq!(on_stream_error(StreamError::Closed), Err(DiscoveryError::ChannelClosed));
}

#[test]
fn a_typed_dial_is_refused_by_another_peer() {
    let mut net = Network::new();
    let network_1 = net.build(1, P2pConfig::default());
    let mut config = P2pConfig::default();
    config.seed_peers.push(SeedPeer { peer_id: Some(key_peer_id(9)), address: net.local_addr(network_1) });
    let network_2 = net.build(2, config);
    net.handle_tick(network_2, now_unix());
    assert_eq!(net.recv(network_1), None);
    assert_eq!(net.recv(network_2), None);
}

#[test]
fn seed_peers_are_read_from_text() {
    let port = 4242;
    let text = format!("/dns/localhost/udp/{}", port);
    assert_eq!(parse_address(&text), Ok(text.parse::<Multiaddr>().unwrap()));
    assert_eq!(parse_address(&text).unwrap().to_string(), "/dns/localhost/udp/4242");
    assert_eq!(parse_address("/ip4/127.0.0.1/tcp/80").unwrap().to_string(), "/ip4/127.0.0.1/tcp/80");
    assert_eq!(parse_address("localhost:4242"), Err(ConfigError::MalformedAddress));
    assert_eq!(parse_address("/dns/localhost/udp/port"), Err(ConfigError::MalformedAddress));
    assert_eq!(parse_address("/nonsense/1"), Err(ConfigError::MalformedAddress));

    let key = key_peer_id(3);
    assert_eq!(SeedPeer::parse(None, &text), Ok(SeedPeer { peer_id: None, address: address(port) }));
    assert_eq!(
        SeedPeer::parse(Some(key), &text),
        Ok(SeedPeer { peer_id: Some(key), address: address(port) })
    );
    assert_eq!(SeedPeer::parse(Some(key), "udp/4242"), Err(ConfigError::MalformedAddress));

    // an identifier that is not the encoding of a key
    let not_a_key = (0..=255u8)
        .map(|first| {
            let mut bytes = [0u8; 32];
            bytes[0] = first;
            PeerId(bytes)
        })
        .find(|id| NetworkPublicKey::from_peer_id(id).is_none())
        .unwrap();
    assert_eq!(SeedPeer::parse(Some(not_a_key), &text), Err(ConfigError::InvalidIdentity));
    // the address is looked at first
    assert_eq!(SeedPeer::parse(Some(not_a_key), "nowhere"), Err(ConfigError::MalformedAddress));
}
