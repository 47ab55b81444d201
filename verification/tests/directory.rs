use multiaddr::Multiaddr;
use peer_discovery::directory::PeerDirectory;
use peer_discovery::node_info::NodeInfo;
use peer_discovery::peer::PeerId;
use peer_discovery::server;
use peer_discovery::server::{GetKnownPeersResponse, ServerError};

fn now_unix() -> u64 {
    1_700_000_000_000
}

fn address(port: u16) -> Multiaddr {
    format!("/dns/localhost/udp/{}", port).parse().unwrap()
}

fn info(tag: u8, port: u16, timestamp_ms: u64) -> NodeInfo {
    NodeInfo { peer_id: PeerId([tag; 32]), addresses: vec![address(port)], timestamp_ms }
}

#[test]
fn get_known_peers() {
    let mut state = PeerDirectory::new();

    // Err when own_info not set
    server::get_known_peers(&state).unwrap_err();

    // Normal response with our_info
    let our_info = NodeInfo {
        peer_id: PeerId([9; 32]),
        addresses: Vec::new(),
        timestamp_ms: now_unix(),
    };
    state.set_own_info(our_info.clone());
    let response = server::get_known_peers(&state).unwrap();
    assert_eq!(response.own_info, our_info);
    assert!(response.known_peers.is_empty());

    // Normal response with some known peers
    let other_peer = NodeInfo {
        peer_id: PeerId([13; 32]),
        addresses: Vec::new(),
        timestamp_ms: now_unix(),
    };
    state.upsert_trusted(other_peer.clone());
    let response = server::get_known_peers(&state).unwrap();
    assert_eq!(response.own_info, our_info);
    assert_eq!(response.known_peers, vec![other_peer]);
}

#[test]
fn not_ready_until_own_info_is_set() {
    let mut state = PeerDirectory::new();
    assert_eq!(server::get_known_peers(&state), Err(ServerError::NotReady));
    // peers alone do not make the node ready
    assert!(state.upsert(info(1, 1001, 5)));
    assert_eq!(server::get_known_peers(&state), Err(ServerError::NotReady));
    assert_eq!(state.len(), 1);

    let own = info(9, 9000, 7);
    state.set_own_info(own.clone());
    assert_eq!(
        server::get_known_peers(&state),
        Ok(GetKnownPeersResponse { own_info: own, known_peers: vec![info(1, 1001, 5)] })
    );
    // answering changed nothing
    assert_eq!(state.len(), 1);
}

#[test]
fn set_own_info_replaces_the_earlier_record() {
    let mut state = PeerDirectory::new();
    assert!(state.our_info().is_none());
    state.set_own_info(info(9, 9000, 7));
    state.set_own_info(info(9, 9001, 3));
    assert_eq!(state.our_info(), Some(&info(9, 9001, 3)));
    assert_eq!(state.known_peers_snapshot(), (Some(info(9, 9001, 3)), Vec::new()));
}

#[test]
fn upsert_of_unknown_peer_adds_exactly_that_record() {
    let mut state = PeerDirectory::new();
    let p = info(4, 4000, 77);
    assert!(state.upsert(p.clone()));
    assert_eq!(state.known_peers_snapshot(), (None, vec![p.clone()]));
    assert_eq!(state.get(&PeerId([4; 32])), Some(&p));
    assert!(state.contains(&PeerId([4; 32])));
    assert!(!state.contains(&PeerId([5; 32])));
    assert_eq!(state.get(&PeerId([5; 32])), None);
}

#[test]
fn snapshot_keeps_the_order_of_first_insertion() {
    let mut state = PeerDirectory::new();
    assert!(state.upsert(info(3, 3000, 10)));
    assert!(state.upsert(info(1, 1000, 10)));
    assert!(state.upsert(info(2, 2000, 10)));
    // a newer record takes the place of the old one where it stood
    assert!(state.upsert(info(1, 1111, 11)));
    let (_, peers) = state.known_peers_snapshot();
    assert_eq!(peers, vec![info(3, 3000, 10), info(1, 1111, 11), info(2, 2000, 10)]);
    assert_eq!(state.peer_at(1), &info(1, 1111, 11));
}

#[test]
fn later_timestamp_wins_in_either_order() {
    let t1 = info(6, 6001, 100);
    let t2 = info(6, 6002, 200);

    let mut newer_first = PeerDirectory::new();
    assert!(newer_first.upsert(t2.clone()));
    assert!(!newer_first.upsert(t1.clone()));
    assert_eq!(newer_first.known_peers_snapshot().1, vec![t2.clone()]);

    let mut older_first = PeerDirectory::new();
    assert!(older_first.upsert(t1.clone()));
    assert!(older_first.upsert(t2.clone()));
    assert_eq!(older_first.known_peers_snapshot().1, vec![t2.clone()]);

    // offering again changes nothing
    assert!(!older_first.upsert(t2.clone()));
    assert!(!older_first.upsert(t1));
    assert_eq!(older_first.known_peers_snapshot().1, vec![t2]);
}

#[test]
fn equal_timestamps_keep_the_stored_record() {
    let mut state = PeerDirectory::new();
    assert!(state.upsert(info(6, 6001, 100)));
    assert!(!state.upsert(info(6, 6002, 100)));
    assert_eq!(state.get(&PeerId([6; 32])), Some(&info(6, 6001, 100)));
}

#[test]
fn upsert_trusted_overwrites_whatever_the_timestamps() {
    let mut state = PeerDirectory::new();
    assert!(state.upsert(info(1, 1000, 10)));
    assert!(state.upsert(info(6, 6001, 500)));

    // older than the gossiped record
    state.upsert_trusted(info(6, 6002, 100));
    assert_eq!(state.get(&PeerId([6; 32])), Some(&info(6, 6002, 100)));
    // equal
    state.upsert_trusted(info(6, 6003, 100));
    assert_eq!(state.get(&PeerId([6; 32])), Some(&info(6, 6003, 100)));
    // newer
    state.upsert_trusted(info(6, 6004, 900));
    assert_eq!(state.get(&PeerId([6; 32])), Some(&info(6, 6004, 900)));
    // unknown peer
    state.upsert_trusted(info(7, 7000, 1));

    let (_, peers) = state.known_peers_snapshot();
    assert_eq!(peers, vec![info(1, 1000, 10), info(6, 6004, 900), info(7, 7000, 1)]);
}

#[test]
fn remove_drops_one_record_and_ignores_unknown_peers() {
    let mut state = PeerDirectory::new();
    state.set_own_info(info(9, 9000, 1));
    assert!(state.upsert(info(1, 1000, 10)));
    assert!(state.upsert(info(2, 2000, 10)));
    assert!(state.upsert(info(3, 3000, 10)));

    state.remove(&PeerId([2; 32]));
    assert_eq!(state.known_peers_snapshot().1, vec![info(1, 1000, 10), info(3, 3000, 10)]);
    state.remove(&PeerId([2; 32]));
    state.remove(&PeerId([8; 32]));
    assert_eq!(state.len(), 2);
    assert_eq!(state.our_info(), Some(&info(9, 9000, 1)));

    // a removed peer is unknown again: any record of it is accepted
    assert!(state.upsert(info(2, 2000, 1)));
    assert_eq!(state.len(), 3);
}

#[test]
fn copies_of_a_record_hold_the_same_addresses() {
    let first = NodeInfo {
        peer_id: PeerId([5; 32]),
        addresses: vec![address(1), "/ip4/10.0.0.7/udp/8080".parse().unwrap()],
        timestamp_ms: 42,
    };
    let copy = first.clone();
    assert_eq!(copy, first);
    assert_eq!(copy.addresses[1].to_string(), "/ip4/10.0.0.7/udp/8080");
    assert_eq!(NodeInfo::new(PeerId([5; 32]), first.addresses.clone(), 42), first);
}

#[test]
fn peer_ids_are_equal_by_their_bytes() {
    let mut bytes = [7u8; 32];
    assert_eq!(PeerId::from_bytes(bytes), PeerId([7; 32]));
    assert_eq!(PeerId([7; 32]).to_bytes(), bytes);
    bytes[31] = 8;
    assert_ne!(PeerId::from_bytes(bytes), PeerId([7; 32]));
    bytes[31] = 7;
    bytes[0] = 0;
    assert_ne!(PeerId::from_bytes(bytes), PeerId([7; 32]));
}
