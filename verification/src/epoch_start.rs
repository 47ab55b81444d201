//! The state with which a validator starts an epoch, and what is derived
//! from it: the committee with its network metadata, the consensus committee,
//! the worker cache, and the peer identifier of every authority.
//!
//! Every derived table is keyed by the 96 bytes of an authority's protocol
//! key and is walked in ascending order of the keys. Where two validators
//! hold the same protocol key, the later one of the list stands in the table.

use vstd::prelude::*;
use multiaddr::Multiaddr;
use std::collections::BTreeMap;
use crate::address::clone_address;
use crate::base_types::{EpochId, StakeUnit, SuiAddress, MIN_PROTOCOL_VERSION, ProtocolVersion};
use crate::committee::{
    checked_total, Committee, CommitteeError, CommitteeWithNetworkMetadata, NetworkMetadata,
};
use crate::key_map::{as_map, ascending, has_key, lemma_put, put, KeyMap};
use crate::keys::{AuthorityName, AuthorityPublicKeyBytes, NetworkPublicKey, PublicKey};
use crate::narwhal::{
    index_views, lemma_index_views_put, Authority, NarwhalCommittee, WorkerCache, WorkerId,
    WorkerIndex, WorkerInfo,
};
use crate::peer::PeerId;

verus! {

/// What the epoch's start state says of one validator.
#[derive(Debug, PartialEq, Eq)]
pub struct EpochStartValidatorInfo {
    pub sui_address: SuiAddress,
    pub protocol_pubkey: PublicKey,
    pub narwhal_network_pubkey: NetworkPublicKey,
    pub narwhal_worker_pubkey: NetworkPublicKey,
    pub sui_net_address: Multiaddr,
    pub p2p_address: Multiaddr,
    pub narwhal_primary_address: Multiaddr,
    pub narwhal_worker_address: Multiaddr,
    pub voting_power: StakeUnit,
}

/// The least of the chain's state that a validator needs to run an epoch.
#[derive(Debug, PartialEq, Eq)]
pub struct EpochStartSystemState {
    pub epoch: EpochId,
    pub protocol_version: u64,
    pub reference_gas_price: u64,
    pub safe_mode: bool,
    pub epoch_start_timestamp_ms: u64,
    pub active_validators: Vec<EpochStartValidatorInfo>,
}

impl EpochStartValidatorInfo {
    /// The key under which the validator stands in every derived table.
    pub open spec fn key(self) -> Seq<u8> {
        self.protocol_pubkey.0@
    }

    /// The name of the validator as an authority.
    pub open spec fn name(self) -> AuthorityName {
        AuthorityPublicKeyBytes(self.protocol_pubkey.0)
    }

    /// The network metadata of the validator.
    pub open spec fn metadata(self) -> NetworkMetadata {
        NetworkMetadata {
            network_pubkey: self.narwhal_network_pubkey,
            network_address: self.sui_net_address,
            p2p_address: self.p2p_address,
        }
    }

    /// The validator as an authority of the consensus committee.
    pub open spec fn authority(self) -> Authority {
        Authority {
            stake: self.voting_power,
            primary_address: self.narwhal_primary_address,
            network_key: self.narwhal_network_pubkey,
        }
    }

    /// The one worker of the validator, which takes transactions at
    /// `transactions`.
    pub open spec fn worker(self, transactions: Multiaddr) -> WorkerInfo {
        WorkerInfo {
            name: self.narwhal_worker_pubkey,
            transactions,
            worker_address: self.narwhal_worker_address,
        }
    }

    /// The peer identifier of the validator: the raw bytes of its network key.
    pub open spec fn peer(self) -> PeerId {
        PeerId(self.narwhal_network_pubkey.bytes())
    }

    /// Name, stake and network metadata of the validator.
    pub fn to_stake_and_network_metadata(&self) -> (parts: (
        AuthorityName,
        StakeUnit,
        NetworkMetadata,
    ))
        ensures
            parts.0 == self.name(),
            parts.1 == self.voting_power,
            parts.2 == self.metadata(),
    {
        (
            AuthorityPublicKeyBytes::from(&self.protocol_pubkey),
            self.voting_power,
            NetworkMetadata {
                network_pubkey: self.narwhal_network_pubkey,
                network_address: clone_address(&self.sui_net_address),
                p2p_address: clone_address(&self.p2p_address),
            },
        )
    }

    /// The name of the validator as an authority: the bytes of its protocol
    /// key.
    pub fn authority_name(&self) -> (name: AuthorityName)
        ensures
            name == self.name(),
    {
        AuthorityPublicKeyBytes::from(&self.protocol_pubkey)
    }
}

/// The table that holds, for each protocol key among `validators`, what
/// `value` gives for the last validator with that key.
pub open spec fn collect_entries<V>(
    validators: Seq<EpochStartValidatorInfo>,
    value: spec_fn(EpochStartValidatorInfo) -> V,
) -> Seq<(Seq<u8>, V)>
    decreases validators.len(),
{
    if validators.len() == 0 {
        Seq::empty()
    } else {
        put(
            collect_entries(validators.drop_last(), value),
            validators.last().key(),
            value(validators.last()),
        )
    }
}

/// Stake by authority.
pub open spec fn stake_entries(validators: Seq<EpochStartValidatorInfo>) -> Seq<
    (Seq<u8>, StakeUnit),
> {
    collect_entries(validators, |v: EpochStartValidatorInfo| v.voting_power)
}

/// Network metadata by authority.
pub open spec fn metadata_entries(validators: Seq<EpochStartValidatorInfo>) -> Seq<
    (Seq<u8>, NetworkMetadata),
> {
    collect_entries(validators, |v: EpochStartValidatorInfo| v.metadata())
}

/// Consensus authority by protocol key.
pub open spec fn authority_entries(validators: Seq<EpochStartValidatorInfo>) -> Seq<
    (Seq<u8>, Authority),
> {
    collect_entries(validators, |v: EpochStartValidatorInfo| v.authority())
}

/// Peer identifier by authority.
pub open spec fn peer_entries(validators: Seq<EpochStartValidatorInfo>) -> Seq<(Seq<u8>, PeerId)> {
    collect_entries(validators, |v: EpochStartValidatorInfo| v.peer())
}

/// Workers by protocol key: each authority has the one worker 0.
pub open spec fn worker_entries(
    validators: Seq<EpochStartValidatorInfo>,
    transactions: Multiaddr,
) -> Seq<(Seq<u8>, Map<WorkerId, WorkerInfo>)> {
    collect_entries(
        validators,
        |v: EpochStartValidatorInfo| Map::<WorkerId, WorkerInfo>::empty().insert(
            0u32,
            v.worker(transactions),
        ),
    )
}

/// No validator behind the one at place `i` holds the same protocol key.
pub open spec fn is_last_with_its_key(validators: Seq<EpochStartValidatorInfo>, i: int) -> bool {
    forall|j: int|
        i < j < validators.len() ==> (#[trigger] validators[j]).key() != validators[i].key()
}

/// One more validator is one more value stored.
pub proof fn lemma_collect_next<V>(
    validators: Seq<EpochStartValidatorInfo>,
    value: spec_fn(EpochStartValidatorInfo) -> V,
    n: int,
)
    requires
        0 <= n < validators.len(),
    ensures
        collect_entries(validators.take(n + 1), value) == put(
            collect_entries(validators.take(n), value),
            validators[n].key(),
            value(validators[n]),
        ),
        ascending(collect_entries(validators.take(n), value)),
        ascending(collect_entries(validators.take(n + 1), value)),
{
    assert(validators.take(n + 1).drop_last() =~= validators.take(n));
    assert(validators.take(n + 1).last() == validators[n]);
    lemma_collected(validators.take(n), value);
    lemma_collected(validators.take(n + 1), value);
}

/// What a derived table holds: its keys ascend, they are the protocol keys of
/// the validators, and under each key stands the value of the last validator
/// that holds the key.
pub proof fn lemma_collected<V>(
    validators: Seq<EpochStartValidatorInfo>,
    value: spec_fn(EpochStartValidatorInfo) -> V,
)
    ensures
        ascending(collect_entries(validators, value)),
        forall|key: Seq<u8>|
            has_key(collect_entries(validators, value), key) <==> exists|i: int|
                0 <= i < validators.len() && (#[trigger] validators[i]).key() == key,
        forall|i: int|
            0 <= i < validators.len() && is_last_with_its_key(validators, i) ==> as_map(
                collect_entries(validators, value),
            )[(#[trigger] validators[i]).key()] == value(validators[i]),
    decreases validators.len(),
{
    let table = collect_entries(validators, value);
    if validators.len() > 0 {
        let rest = validators.drop_last();
        let last = validators.last();
        let before = collect_entries(rest, value);
        lemma_collected(rest, value);
        lemma_put(before, last.key(), value(last));
        let n = validators.len() - 1;
        assert forall|key: Seq<u8>| has_key(table, key) <==> exists|i: int|
            0 <= i < validators.len() && (#[trigger] validators[i]).key() == key by {
            assert(as_map(table).contains_key(key) <==> has_key(table, key));
            assert(as_map(before).contains_key(key) <==> has_key(before, key));
            if has_key(before, key) {
                let i = choose|i: int| 0 <= i < rest.len() && (#[trigger] rest[i]).key() == key;
                assert(validators[i].key() == key);
            }
            if key == last.key() {
                assert(validators[n].key() == key);
            }
            if exists|i: int| 0 <= i < validators.len() && (#[trigger] validators[i]).key() == key {
                let i = choose|i: int|
                    0 <= i < validators.len() && (#[trigger] validators[i]).key() == key;
                if i < n {
                    assert(rest[i].key() == key);
                }
            }
        }
        assert forall|i: int|
            0 <= i < validators.len() && is_last_with_its_key(validators, i) implies as_map(
            table,
        )[(#[trigger] validators[i]).key()] == value(validators[i]) by {
            if i < n {
                assert(validators[n].key() != validators[i].key());
                assert(rest[i] == validators[i]);
                assert forall|j: int| i < j < rest.len() implies (#[trigger] rest[j]).key()
                    != rest[i].key() by {
                    assert(validators[j].key() != validators[i].key());
                }
            }
        }
    }
}

impl EpochStartSystemState {
    /// A start state for tests: epoch 0 and no validators.
    pub fn new_for_testing() -> (state: EpochStartSystemState)
        ensures
            state.epoch == 0,
            state.protocol_version == MIN_PROTOCOL_VERSION,
            state.reference_gas_price == 1,
            !state.safe_mode,
            state.epoch_start_timestamp_ms == 0,
            state.active_validators@.len() == 0,
    {
        Self::new_for_testing_with_epoch(0)
    }

    /// A start state for tests: the given epoch at the lowest protocol
    /// version, a reference gas price of 1, not in safe mode, started at time
    /// 0, and no validators.
    pub fn new_for_testing_with_epoch(epoch: EpochId) -> (state: EpochStartSystemState)
        ensures
            state.epoch == epoch,
            state.protocol_version == MIN_PROTOCOL_VERSION,
            state.reference_gas_price == 1,
            !state.safe_mode,
            state.epoch_start_timestamp_ms == 0,
            state.active_validators@.len() == 0,
    {
        EpochStartSystemState {
            epoch,
            protocol_version: ProtocolVersion::minimum().as_u64(),
            reference_gas_price: 1,
            safe_mode: false,
            epoch_start_timestamp_ms: 0,
            active_validators: Vec::new(),
        }
    }

    /// The committee of the epoch with the network metadata of its
    /// authorities, or the reason why the validators make no committee.
    pub fn try_get_sui_committee(&self) -> (made: Result<
        CommitteeWithNetworkMetadata,
        CommitteeError,
    >)
        ensures
            match made {
                Ok(with_metadata) => {
                    &&& with_metadata.committee.wf()
                    &&& with_metadata.committee.spec_epoch() == self.epoch
                    &&& with_metadata.committee.rights() == stake_entries(self.active_validators@)
                    &&& checked_total(stake_entries(self.active_validators@)) == Ok::<
                        StakeUnit,
                        CommitteeError,
                    >(with_metadata.committee.spec_total_votes())
                    &&& with_metadata.network_metadata.wf()
                    &&& with_metadata.network_metadata.pairs() == metadata_entries(
                        self.active_validators@,
                    )
                },
                Err(e) => checked_total(stake_entries(self.active_validators@)) == Err::<
                    StakeUnit,
                    CommitteeError,
                >(e),
            },
    {
        let ghost validators = self.active_validators@;
        let mut voting_rights: KeyMap<StakeUnit> = KeyMap::new();
        let mut network_metadata: KeyMap<NetworkMetadata> = KeyMap::new();
        let mut i: usize = 0;
        while i < self.active_validators.len()
            invariant
                0 <= i <= self.active_validators.len(),
                validators == self.active_validators@,
                voting_rights.wf(),
                network_metadata.wf(),
                voting_rights.pairs() == stake_entries(validators.take(i as int)),
                network_metadata.pairs() == metadata_entries(validators.take(i as int)),
            decreases self.active_validators.len() - i,
        {
            let (name, voting_stake, metadata) =
                self.active_validators[i].to_stake_and_network_metadata();
            proof {
                lemma_collect_next(
                    validators,
                    |v: EpochStartValidatorInfo| v.voting_power,
                    i as int,
                );
                lemma_collect_next(validators, |v: EpochStartValidatorInfo| v.metadata(), i as int);
            }
            voting_rights.insert(name.0, voting_stake);
            network_metadata.insert(name.0, metadata);
            i += 1;
        }
        proof {
            assert(validators.take(validators.len() as int) =~= validators);
        }
        match Committee::new(self.epoch, voting_rights) {
            Ok(committee) => Ok(CommitteeWithNetworkMetadata { committee, network_metadata }),
            Err(e) => Err(e),
        }
    }

    /// The committee of the epoch with the network metadata of its
    /// authorities.
    ///
    /// The validators must make a committee: there is one, one of them has
    /// stake, and their stakes add up to less than 2^64.
    pub fn get_sui_committee(&self) -> (with_metadata: CommitteeWithNetworkMetadata)
        requires
            checked_total(stake_entries(self.active_validators@)) is Ok,
        ensures
            with_metadata.committee.wf(),
            with_metadata.committee.spec_epoch() == self.epoch,
            with_metadata.committee.rights() == stake_entries(self.active_validators@),
            checked_total(stake_entries(self.active_validators@)) == Ok::<
                StakeUnit,
                CommitteeError,
            >(with_metadata.committee.spec_total_votes()),
            with_metadata.network_metadata.wf(),
            with_metadata.network_metadata.pairs() == metadata_entries(self.active_validators@),
    {
        match self.try_get_sui_committee() {
            Ok(with_metadata) => with_metadata,
            Err(_) => vstd::pervasive::unreached(),
        }
    }

    /// The consensus committee of the epoch: for each protocol key the stake,
    /// the primary's address and the network key of its validator.
    pub fn get_narwhal_committee(&self) -> (committee: NarwhalCommittee)
        ensures
            committee.epoch == self.epoch,
            committee.authorities.wf(),
            committee.authorities.pairs() == authority_entries(self.active_validators@),
    {
        let ghost validators = self.active_validators@;
        let mut authorities: KeyMap<Authority> = KeyMap::new();
        let mut i: usize = 0;
        while i < self.active_validators.len()
            invariant
                0 <= i <= self.active_validators.len(),
                validators == self.active_validators@,
                authorities.wf(),
                authorities.pairs() == authority_entries(validators.take(i as int)),
            decreases self.active_validators.len() - i,
        {
            let validator = &self.active_validators[i];
            let authority = Authority {
                stake: validator.voting_power,
                primary_address: clone_address(&validator.narwhal_primary_address),
                network_key: validator.narwhal_network_pubkey,
            };
            proof {
                lemma_collect_next(
                    validators,
                    |v: EpochStartValidatorInfo| v.authority(),
                    i as int,
                );
            }
            authorities.insert(validator.protocol_pubkey.0, authority);
            i += 1;
        }
        proof {
            assert(validators.take(validators.len() as int) =~= validators);
        }
        NarwhalCommittee { authorities, epoch: self.epoch }
    }

    /// The worker cache of the epoch: every authority has one worker, with
    /// the number 0, which is reached under the validator's worker key and
    /// worker address and takes transactions at `transactions_address`.
    pub fn get_narwhal_worker_cache(&self, transactions_address: &Multiaddr) -> (cache: WorkerCache)
        ensures
            cache.epoch == self.epoch,
            cache.workers.wf(),
            index_views(cache.workers.pairs()) == worker_entries(
                self.active_validators@,
                *transactions_address,
            ),
    {
        let ghost validators = self.active_validators@;
        let ghost transactions = *transactions_address;
        let mut workers: KeyMap<WorkerIndex> = KeyMap::new();
        let mut i: usize = 0;
        assert(index_views(workers.pairs()) =~= worker_entries(validators.take(0), transactions));
        while i < self.active_validators.len()
            invariant
                0 <= i <= self.active_validators.len(),
                validators == self.active_validators@,
                transactions == *transactions_address,
                workers.wf(),
                index_views(workers.pairs()) == worker_entries(
                    validators.take(i as int),
                    transactions,
                ),
            decreases self.active_validators.len() - i,
        {
            let validator = &self.active_validators[i];
            let mut of_validator: BTreeMap<WorkerId, WorkerInfo> = BTreeMap::new();
            of_validator.insert(
                0,
                WorkerInfo {
                    name: validator.narwhal_worker_pubkey,
                    transactions: clone_address(transactions_address),
                    worker_address: clone_address(&validator.narwhal_worker_address),
                },
            );
            let worker_index = WorkerIndex(of_validator);
            proof {
                lemma_collect_next(
                    validators,
                    |v: EpochStartValidatorInfo|
                        Map::<WorkerId, WorkerInfo>::empty().insert(0u32, v.worker(transactions)),
                    i as int,
                );
                lemma_index_views_put(workers.pairs(), validator.key(), worker_index);
            }
            workers.insert(validator.protocol_pubkey.0, worker_index);
            i += 1;
        }
        proof {
            assert(validators.take(validators.len() as int) =~= validators);
        }
        WorkerCache { workers, epoch: self.epoch }
    }

    /// The peer identifier of every authority, by the authority's name.
    pub fn get_authority_names_to_peer_ids(&self) -> (peers: KeyMap<PeerId>)
        ensures
            peers.wf(),
            peers.pairs() == peer_entries(self.active_validators@),
    {
        let ghost validators = self.active_validators@;
        let mut peers: KeyMap<PeerId> = KeyMap::new();
        let mut i: usize = 0;
        while i < self.active_validators.len()
            invariant
                0 <= i <= self.active_validators.len(),
                validators == self.active_validators@,
                peers.wf(),
                peers.pairs() == peer_entries(validators.take(i as int)),
            decreases self.active_validators.len() - i,
        {
            let validator = &self.active_validators[i];
            let name = validator.authority_name();
            let peer_id = validator.narwhal_network_pubkey.peer_id();
            proof {
                lemma_collect_next(validators, |v: EpochStartValidatorInfo| v.peer(), i as int);
            }
            peers.insert(name.0, peer_id);
            i += 1;
        }
        proof {
            assert(validators.take(validators.len() as int) =~= validators);
        }
        peers
    }
}

} // verus!
