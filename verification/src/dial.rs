//! Which peers a node tries to connect to.
//!
//! A dial is asked for, never made, here: the transport makes it, and a dial
//! that fails is simply asked for again at a later tick.

use vstd::prelude::*;
use multiaddr::Multiaddr;
use crate::address::{clone_address, clone_addresses};
use crate::config::SeedPeer;
use crate::directory::PeerDirectory;
use crate::node_info::NodeInfoView;
use crate::peer::PeerId;

verus! {

/// What a dial request says, as a mathematical value.
pub struct DialView {
    pub expected: Option<PeerId>,
    pub addresses: Seq<Multiaddr>,
}

/// A request to connect to a peer.
///
/// With an expected identifier the dial is typed: it succeeds only when the
/// peer that answers proves to be that peer. Without one, any peer that
/// answers at the address is accepted.
#[derive(Debug, PartialEq, Eq)]
pub struct DialRequest {
    pub expected: Option<PeerId>,
    pub addresses: Vec<Multiaddr>,
}

impl View for DialRequest {
    type V = DialView;

    open spec fn view(&self) -> DialView {
        DialView { expected: self.expected, addresses: self.addresses@ }
    }
}

impl Clone for DialRequest {
    fn clone(&self) -> (copy: Self)
        ensures
            copy@ == self@,
    {
        DialRequest { expected: self.expected, addresses: clone_addresses(&self.addresses) }
    }
}

/// The views of a list of dial requests, in the list's order.
pub open spec fn dial_views(dials: Seq<DialRequest>) -> Seq<DialView> {
    dials.map_values(|dial: DialRequest| dial@)
}

/// The dial of a seed peer: typed when the seed names a peer, to the seed's
/// one address.
pub open spec fn seed_dial(seed: SeedPeer) -> DialView {
    DialView { expected: seed.peer_id, addresses: seq![seed.address] }
}

/// The dial of a known peer: typed, to the addresses that the peer advertises.
pub open spec fn record_dial(record: NodeInfoView) -> DialView {
    DialView { expected: Some(record.peer_id), addresses: record.addresses }
}

/// A seed is due for a dial unless it names a peer that is connected. A seed
/// that names no peer is always due: nothing tells which connection is its.
pub open spec fn seed_is_due(connected: Seq<PeerId>) -> spec_fn(SeedPeer) -> bool {
    |seed: SeedPeer| !(seed.peer_id is Some && connected.contains(seed.peer_id.unwrap()))
}

/// A known peer is due for a dial when it is wanted, is not connected, and
/// advertises an address.
pub open spec fn peer_is_due(wanted: Set<PeerId>, connected: Seq<PeerId>) -> spec_fn(
    NodeInfoView,
) -> bool {
    |record: NodeInfoView|
        wanted.contains(record.peer_id) && !connected.contains(record.peer_id)
            && record.addresses.len() > 0
}

/// One dial for every seed that is due, in the order of the configuration.
pub open spec fn seed_dials(seeds: Seq<SeedPeer>, connected: Seq<PeerId>) -> Seq<DialView> {
    seeds.filter(seed_is_due(connected)).map_values(|seed: SeedPeer| seed_dial(seed))
}

/// One dial for every record of the table that is due, in the table's order.
pub open spec fn peer_dials(
    table: Seq<NodeInfoView>,
    wanted: Set<PeerId>,
    connected: Seq<PeerId>,
) -> Seq<DialView> {
    table.filter(peer_is_due(wanted, connected)).map_values(
        |record: NodeInfoView| record_dial(record),
    )
}

/// Mapping a list that grew by one element maps that element last.
pub proof fn lemma_map_values_push<A, B>(list: Seq<A>, last: A, f: spec_fn(A) -> B)
    ensures
        list.push(last).map_values(f) == list.map_values(f).push(f(last)),
{
    assert(list.push(last).map_values(f) =~= list.map_values(f).push(f(last)));
}

/// Tells whether `peer_id` occurs in `list`.
pub fn list_contains(list: &Vec<PeerId>, peer_id: &PeerId) -> (found: bool)
    ensures
        found == list@.contains(*peer_id),
{
    let mut i: usize = 0;
    while i < list.len()
        invariant
            0 <= i <= list.len(),
            forall|j: int| 0 <= j < i ==> list@[j] != *peer_id,
        decreases list.len() - i,
    {
        if list[i] == *peer_id {
            return true;
        }
        i += 1;
    }
    false
}

/// Plans the dials of the seed peers.
pub fn plan_seed_dials(seeds: &Vec<SeedPeer>, connected: &Vec<PeerId>) -> (dials: Vec<DialRequest>)
    ensures
        dial_views(dials@) == seed_dials(seeds@, connected@),
        dials@.len() <= seeds@.len(),
{
    let mut dials: Vec<DialRequest> = Vec::new();
    let mut i: usize = 0;
    proof {
        reveal(Seq::filter);
        assert(dial_views(dials@) =~= seed_dials(seeds@.take(0), connected@));
    }
    while i < seeds.len()
        invariant
            0 <= i <= seeds.len(),
            dial_views(dials@) == seed_dials(seeds@.take(i as int), connected@),
            dials@.len() <= i,
        decreases seeds.len() - i,
    {
        let seed = &seeds[i];
        let due = match seed.peer_id {
            Some(peer_id) => !list_contains(connected, &peer_id),
            None => true,
        };
        proof {
            assert(seeds@.take(i + 1) =~= seeds@.take(i as int).push(*seed));
            seeds@.take(i as int).lemma_filter_push(*seed, seed_is_due(connected@));
        }
        if due {
            let mut addresses: Vec<Multiaddr> = Vec::new();
            addresses.push(clone_address(&seed.address));
            assert(addresses@ =~= seq![seed.address]);
            let ghost before = dials@;
            let dial = DialRequest { expected: seed.peer_id, addresses };
            proof {
                lemma_map_values_push(before, dial, |dial: DialRequest| dial@);
                lemma_map_values_push(
                    seeds@.take(i as int).filter(seed_is_due(connected@)),
                    *seed,
                    |seed: SeedPeer| seed_dial(seed),
                );
            }
            dials.push(dial);
        }
        i += 1;
    }
    proof {
        assert(seeds@.take(seeds.len() as int) =~= seeds@);
    }
    dials
}

/// Plans the dials of the known peers that are wanted.
pub fn plan_peer_dials(
    directory: &PeerDirectory,
    wanted: &Vec<PeerId>,
    connected: &Vec<PeerId>,
) -> (dials: Vec<DialRequest>)
    ensures
        dial_views(dials@) == peer_dials(directory@.known_peers, wanted@.to_set(), connected@),
        dials@.len() <= directory@.known_peers.len(),
{
    let ghost table = directory@.known_peers;
    let mut dials: Vec<DialRequest> = Vec::new();
    let mut i: usize = 0;
    proof {
        reveal(Seq::filter);
        assert(dial_views(dials@) =~= peer_dials(table.take(0), wanted@.to_set(), connected@));
    }
    while i < directory.len()
        invariant
            0 <= i <= table.len(),
            table == directory@.known_peers,
            dial_views(dials@) == peer_dials(
                table.take(i as int),
                wanted@.to_set(),
                connected@,
            ),
            dials@.len() <= i,
        decreases table.len() - i,
    {
        let record = directory.peer_at(i);
        let due = list_contains(wanted, &record.peer_id) && !list_contains(
            connected,
            &record.peer_id,
        ) && record.addresses.len() > 0;
        proof {
            assert(table.take(i + 1) =~= table.take(i as int).push(record@));
            table.take(i as int).lemma_filter_push(
                record@,
                peer_is_due(wanted@.to_set(), connected@),
            );
        }
        if due {
            let ghost before = dials@;
            let dial = DialRequest {
                expected: Some(record.peer_id),
                addresses: clone_addresses(&record.addresses),
            };
            proof {
                lemma_map_values_push(before, dial, |dial: DialRequest| dial@);
                lemma_map_values_push(
                    table.take(i as int).filter(peer_is_due(wanted@.to_set(), connected@)),
                    record@,
                    |record: NodeInfoView| record_dial(record),
                );
            }
            dials.push(dial);
        }
        i += 1;
    }
    proof {
        assert(table.take(table.len() as int) =~= table);
    }
    dials
}

} // verus!
