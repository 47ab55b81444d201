//! Laws of the peer directory and of the discovery loop, stated over their
//! mathematical views.

use vstd::prelude::*;
use crate::directory::{
    knows, lemma_changes_keep_unique, lemma_merge_gossip_lookup, lemma_merge_trusted_lookup,
    lemma_position_is, lookup, merge_gossip, merge_trusted, position, unique_peers,
    DirectoryView,
};
use crate::peer::PeerId;
use crate::committee::NetworkMetadata;
use crate::dial::DialView;
use crate::discovery::{
    lemma_joined_by_new_peer, trust_all, trusted_records, ConnectionEvent, DiscoveryView,
    QueryError,
};
use crate::events::PeerEvent;
use crate::node_info::NodeInfoView;
use crate::server::{ResponseView, ServerError};

verus! {

/// A directory that was just made refuses a request for its known peers with
/// `NotReady`. As soon as the node's own record is set, with no peer
/// registered yet, the request is answered with that record and an empty list
/// of peers.
pub proof fn law_ready_once_own_info_is_set(own_info: NodeInfoView)
    ensures
        DirectoryView::empty().get_known_peers() == Err::<ResponseView, ServerError>(
            ServerError::NotReady,
        ),
        DirectoryView::empty().set_own_info(own_info).get_known_peers() == Ok::<
            ResponseView,
            ServerError,
        >(ResponseView { own_info, known_peers: Seq::empty() }),
{
}

/// Setting the node's own record never touches the table of known peers, and
/// a directory whose own record is set answers every request.
pub proof fn law_own_info_only_unlocks_the_answer(directory: DirectoryView, own_info: NodeInfoView)
    ensures
        directory.set_own_info(own_info).known_peers == directory.known_peers,
        directory.set_own_info(own_info).get_known_peers() is Ok,
        directory.get_known_peers() is Err <==> directory.our_info is None,
{
}

/// After a record of a previously unknown peer is offered, the table holds
/// that record exactly as it was given, once, behind the records it held
/// before. Offered to an empty table, the record is all the table holds.
pub proof fn law_unknown_peer_is_added(directory: DirectoryView, info: NodeInfoView)
    requires
        directory.wf(),
        !knows(directory.known_peers, info.peer_id),
    ensures
        directory.upsert(info).known_peers == directory.known_peers.push(info),
        directory.upsert(info).get(info.peer_id) == Some(info),
        directory.known_peers.len() == 0 ==> directory.upsert(info).known_peers == seq![info],
        directory.upsert(info).wf(),
{
    let after = directory.known_peers.push(info);
    lemma_changes_keep_unique(directory.known_peers, info);
    assert(after[directory.known_peers.len() as int] == info);
    lemma_position_is(after, info.peer_id, directory.known_peers.len() as int);
    if directory.known_peers.len() == 0 {
        assert(after =~= seq![info]);
    }
}

/// Of two records of one peer with different timestamps, the later one wins
/// in whichever order the two are offered: both orders leave the table as the
/// later record alone would have left it. Offering a record twice is the same
/// as offering it once.
pub proof fn law_later_timestamp_wins(
    directory: DirectoryView,
    earlier: NodeInfoView,
    later: NodeInfoView,
)
    requires
        directory.wf(),
        earlier.peer_id == later.peer_id,
        earlier.timestamp_ms < later.timestamp_ms,
    ensures
        directory.upsert(later).upsert(earlier) == directory.upsert(later),
        directory.upsert(earlier).upsert(later) == directory.upsert(later),
        directory.upsert(later).upsert(later) == directory.upsert(later),
        directory.upsert(earlier).upsert(earlier) == directory.upsert(earlier),
        match directory.get(later.peer_id) {
            Some(stored) => stored.timestamp_ms < later.timestamp_ms,
            None => true,
        } ==> directory.upsert(later).upsert(earlier).get(later.peer_id) == Some(later),
        directory.upsert(later).upsert(earlier).get(later.peer_id) is Some,
        directory.upsert(later).upsert(earlier).get(later.peer_id).unwrap().timestamp_ms
            >= later.timestamp_ms,
{
    let peers = directory.known_peers;
    let id = later.peer_id;
    lemma_merge_then_stale(peers, later, earlier);
    lemma_merge_then_stale(peers, later, later);
    lemma_merge_then_stale(peers, earlier, earlier);
    lemma_merge_gossip_lookup(peers, later);
    lemma_merge_gossip_lookup(peers, earlier);
    // earlier first, later second
    let first = merge_gossip(peers, earlier);
    lemma_changes_keep_unique(peers, earlier);
    if knows(peers, id) {
        let at = position(peers, id);
        if earlier.timestamp_ms > peers[at].timestamp_ms {
            assert(first[at] == earlier);
            lemma_position_is(first, id, at);
            assert(merge_gossip(first, later) =~= peers.update(at, later));
        }
    } else {
        let at = peers.len() as int;
        assert(first[at] == earlier);
        lemma_position_is(first, id, at);
        assert(merge_gossip(first, later) =~= peers.push(later));
    }
}

/// An authoritative record always takes the place of the record stored for
/// its peer, whatever the two timestamps are, and leaves the records of all
/// other peers as they were.
pub proof fn law_trusted_record_overwrites(directory: DirectoryView, info: NodeInfoView)
    requires
        directory.wf(),
    ensures
        directory.upsert_trusted(info).wf(),
        directory.upsert_trusted(info).get(info.peer_id) == Some(info),
        forall|other: PeerId|
            other != info.peer_id ==> #[trigger] directory.upsert_trusted(info).get(other)
                == directory.get(other),
        directory.upsert_trusted(info).upsert_trusted(info) == directory.upsert_trusted(info),
{
    let peers = directory.known_peers;
    let after = merge_trusted(peers, info);
    lemma_merge_trusted_lookup(peers, info);
    lemma_merge_trusted_lookup(after, info);
    assert(merge_trusted(after, info) =~= after);
}

/// Once `fresh` was offered, offering a record of the same peer that is not
/// newer changes nothing.
proof fn lemma_merge_then_stale(peers: Seq<NodeInfoView>, fresh: NodeInfoView, stale: NodeInfoView)
    requires
        unique_peers(peers),
        fresh.peer_id == stale.peer_id,
        stale.timestamp_ms <= fresh.timestamp_ms,
    ensures
        merge_gossip(merge_gossip(peers, fresh), stale) == merge_gossip(peers, fresh),
{
    lemma_merge_gossip_lookup(peers, fresh);
}

/// A connection that is newly established is published as one `NewPeer`, and
/// a further report of the same connection is published as nothing.
pub proof fn law_one_new_peer_per_connection(state: DiscoveryView, peer: PeerId)
    requires
        state.wf(),
    ensures
        !state.connected.contains(peer) ==> state.published(ConnectionEvent::Established(peer))
            == Some(PeerEvent::NewPeer(peer)),
        state.connected.contains(peer) ==> state.published(ConnectionEvent::Established(peer))
            is None,
        state.connection_changed(ConnectionEvent::Established(peer)).wf(),
        state.connection_changed(ConnectionEvent::Established(peer)).connected.contains(peer),
        state.connection_changed(ConnectionEvent::Established(peer)).published(
            ConnectionEvent::Established(peer),
        ) is None,
{
    if !state.connected.contains(peer) {
        lemma_joined_by_new_peer(state.connected, peer);
    }
}

/// A query that failed, for whatever reason, leaves the whole state as it
/// was and asks for no dial.
pub proof fn law_failed_query_changes_nothing(
    state: DiscoveryView,
    responder: PeerId,
    error: QueryError,
)
    ensures
        state.merged(responder, Err(error)) == state,
        state.reply_dials(responder, Err(error)) == Seq::<DialView>::empty(),
{
}

/// Trust outranks freshness: after a committee was taken, the directory holds
/// for each of its authorities the authoritative record, whatever gossip had
/// stored for that peer and with whatever timestamp. Where the committee
/// names one peer more than once, the last of its records stands.
pub proof fn law_committee_outranks_gossip(
    state: DiscoveryView,
    entries: Seq<(Seq<u8>, NetworkMetadata)>,
    now_unix: u64,
    i: int,
)
    requires
        state.wf(),
        0 <= i < trusted_records(entries, state.own_peer_id, now_unix).len(),
        forall|j: int|
            i < j < trusted_records(entries, state.own_peer_id, now_unix).len() ==> (
            #[trigger] trusted_records(entries, state.own_peer_id, now_unix)[j]).peer_id
                != trusted_records(entries, state.own_peer_id, now_unix)[i].peer_id,
    ensures
        state.reconfigured(entries, now_unix).directory.wf(),
        state.reconfigured(entries, now_unix).directory.get(
            trusted_records(entries, state.own_peer_id, now_unix)[i].peer_id,
        ) == Some(trusted_records(entries, state.own_peer_id, now_unix)[i]),
        state.reconfigured(entries, now_unix).trusted.contains(
            trusted_records(entries, state.own_peer_id, now_unix)[i].peer_id,
        ),
{
    let records = trusted_records(entries, state.own_peer_id, now_unix);
    lemma_last_trusted_record_stands(state.directory.known_peers, records, i);
    assert(knows(records, records[i].peer_id));
}

/// After a list of authoritative records was written, the table holds each
/// record that no later record of the same peer follows.
proof fn lemma_last_trusted_record_stands(
    table: Seq<NodeInfoView>,
    records: Seq<NodeInfoView>,
    i: int,
)
    requires
        unique_peers(table),
        0 <= i < records.len(),
        forall|j: int|
            i < j < records.len() ==> (#[trigger] records[j]).peer_id != records[i].peer_id,
    ensures
        unique_peers(trust_all(table, records)),
        lookup(trust_all(table, records), records[i].peer_id) == Some(records[i]),
    decreases records.len(),
{
    let rest = records.drop_last();
    let last = records.last();
    lemma_trust_all_unique(table, rest);
    lemma_merge_trusted_lookup(trust_all(table, rest), last);
    if i < records.len() - 1 {
        assert(rest[i] == records[i]);
        assert forall|j: int| i < j < rest.len() implies (#[trigger] rest[j]).peer_id
            != rest[i].peer_id by {
            assert(records[j].peer_id != records[i].peer_id);
        }
        lemma_last_trusted_record_stands(table, rest, i);
        assert(records[records.len() - 1].peer_id != records[i].peer_id);
    }
}

/// Writing authoritative records keeps the peers of the table distinct.
proof fn lemma_trust_all_unique(table: Seq<NodeInfoView>, records: Seq<NodeInfoView>)
    requires
        unique_peers(table),
    ensures
        unique_peers(trust_all(table, records)),
    decreases records.len(),
{
    if records.len() > 0 {
        lemma_trust_all_unique(table, records.drop_last());
        lemma_changes_keep_unique(trust_all(table, records.drop_last()), records.last());
    }
}

} // verus!
