//! What the consensus layer is told of an epoch: its authorities and their
//! workers.

use vstd::prelude::*;
use multiaddr::Multiaddr;
use std::collections::BTreeMap;
use crate::key_map::{is_rank, lemma_rank_exists, lemma_rank_is, put, rank, KeyMap};
use crate::keys::NetworkPublicKey;

verus! {

/// Voting power of an authority, as the consensus layer counts it.
pub type Stake = u64;

/// Number of an epoch, as the consensus layer counts it.
pub type Epoch = u64;

/// Number of a worker among the workers of one authority.
pub type WorkerId = u32;

/// One authority of the consensus committee.
#[derive(Debug, PartialEq, Eq)]
pub struct Authority {
    /// The voting power of the authority.
    pub stake: Stake,
    /// The address of its primary.
    pub primary_address: Multiaddr,
    /// The key under which its primary is reached.
    pub network_key: NetworkPublicKey,
}

/// The consensus committee of an epoch, keyed by the authorities' protocol
/// keys.
#[derive(Debug, PartialEq, Eq)]
pub struct NarwhalCommittee {
    pub authorities: KeyMap<Authority>,
    pub epoch: Epoch,
}

/// One worker of an authority.
#[derive(Debug, PartialEq, Eq)]
pub struct WorkerInfo {
    /// The key under which the worker is reached.
    pub name: NetworkPublicKey,
    /// The address at which the worker takes transactions.
    pub transactions: Multiaddr,
    /// The address at which other workers reach it.
    pub worker_address: Multiaddr,
}

/// The workers of one authority, by their numbers.
#[derive(Debug, PartialEq, Eq)]
pub struct WorkerIndex(pub BTreeMap<WorkerId, WorkerInfo>);

/// The workers of every authority of an epoch, keyed by the authorities'
/// protocol keys.
#[derive(Debug, PartialEq, Eq)]
pub struct WorkerCache {
    pub workers: KeyMap<WorkerIndex>,
    pub epoch: Epoch,
}

/// The entries of a worker cache with each index taken as a mathematical map.
pub open spec fn index_views(workers: Seq<(Seq<u8>, WorkerIndex)>) -> Seq<
    (Seq<u8>, Map<WorkerId, WorkerInfo>),
> {
    workers.map_values(|entry: (Seq<u8>, WorkerIndex)| (entry.0, entry.1.0@))
}

/// Storing an index and then taking the views is storing the view of the
/// index among the views.
pub proof fn lemma_index_views_put(
    workers: Seq<(Seq<u8>, WorkerIndex)>,
    key: Seq<u8>,
    index: WorkerIndex,
)
    ensures
        index_views(put(workers, key, index)) == put(index_views(workers), key, index.0@),
{
    let seen = index_views(workers);
    lemma_rank_exists(workers, key, 0);
    let at = rank(workers, key);
    assert(is_rank(seen, key, at)) by {
        assert forall|i: int| 0 <= i < at implies crate::bytes::lex_lt(
            (#[trigger] seen[i]).0,
            key,
        ) by {
            assert(seen[i].0 == workers[i].0);
        }
    }
    lemma_rank_is(seen, key, at);
    assert(index_views(put(workers, key, index)) =~= put(seen, key, index.0@));
}

} // verus!
