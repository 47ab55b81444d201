//! The committee of an epoch: which authorities vote, with what stake, and
//! how each of them is reached.

use vstd::prelude::*;
use multiaddr::Multiaddr;
use crate::address::clone_address;
use crate::base_types::{EpochId, StakeUnit};
use crate::key_map::{ascending, KeyMap};
use crate::keys::NetworkPublicKey;

verus! {

/// Why a set of voting rights makes no committee.
#[derive(Clone, Copy, Debug, PartialEq, Eq, Structural)]
pub enum CommitteeError {
    /// The committee has no member.
    NoMembers,
    /// No member of the committee has any stake.
    NoStake,
    /// The stakes of the members add up to more than a stake can express.
    StakeOverflow,
}

/// The sum of the stakes of all entries.
pub open spec fn total_stake(rights: Seq<(Seq<u8>, StakeUnit)>) -> nat
    decreases rights.len(),
{
    if rights.len() == 0 {
        0
    } else {
        total_stake(rights.drop_last()) + rights.last().1 as nat
    }
}

/// Some entry has a stake other than zero.
pub open spec fn some_stake(rights: Seq<(Seq<u8>, StakeUnit)>) -> bool {
    exists|i: int| 0 <= i < rights.len() && (#[trigger] rights[i]).1 != 0
}

/// The total stake of voting rights that make a committee, or the reason why
/// they make none.
pub open spec fn checked_total(rights: Seq<(Seq<u8>, StakeUnit)>) -> Result<
    StakeUnit,
    CommitteeError,
> {
    if rights.len() == 0 {
        Err(CommitteeError::NoMembers)
    } else if !some_stake(rights) {
        Err(CommitteeError::NoStake)
    } else if total_stake(rights) > u64::MAX {
        Err(CommitteeError::StakeOverflow)
    } else {
        Ok(total_stake(rights) as u64)
    }
}

/// Where and under which key an authority is reached.
#[derive(Debug, PartialEq, Eq)]
pub struct NetworkMetadata {
    pub network_pubkey: NetworkPublicKey,
    pub network_address: Multiaddr,
    pub p2p_address: Multiaddr,
}

impl Clone for NetworkMetadata {
    fn clone(&self) -> (copy: Self)
        ensures
            copy == *self,
    {
        NetworkMetadata {
            network_pubkey: self.network_pubkey,
            network_address: clone_address(&self.network_address),
            p2p_address: clone_address(&self.p2p_address),
        }
    }
}

/// The voting rights of one epoch.
#[derive(Debug, PartialEq, Eq)]
pub struct Committee {
    epoch: EpochId,
    voting_rights: KeyMap<StakeUnit>,
    total_votes: StakeUnit,
}

impl Committee {
    /// The invariant of a committee: it has a member with stake, its members
    /// are listed in ascending order of their names, and its total is the sum
    /// of their stakes.
    pub open spec fn wf(&self) -> bool {
        &&& ascending(self.rights())
        &&& checked_total(self.rights()) == Ok::<StakeUnit, CommitteeError>(
            self.spec_total_votes(),
        )
    }

    /// The epoch for which the committee votes.
    pub closed spec fn spec_epoch(&self) -> EpochId {
        self.epoch
    }

    /// Name and stake of each member, in ascending order of the names.
    pub closed spec fn rights(&self) -> Seq<(Seq<u8>, StakeUnit)> {
        self.voting_rights.pairs()
    }

    /// The sum of the stakes of all members.
    pub closed spec fn spec_total_votes(&self) -> StakeUnit {
        self.total_votes
    }

    /// Makes the committee of `epoch` from the stake of each authority.
    ///
    /// Fails when there is no authority, when no authority has stake, and
    /// when the stakes add up to more than 2^64 - 1; in that order.
    pub fn new(epoch: EpochId, voting_rights: KeyMap<StakeUnit>) -> (made: Result<
        Committee,
        CommitteeError,
    >)
        requires
            voting_rights.wf(),
        ensures
            match made {
                Ok(committee) => {
                    &&& committee.wf()
                    &&& committee.spec_epoch() == epoch
                    &&& committee.rights() == voting_rights.pairs()
                    &&& checked_total(voting_rights.pairs()) == Ok::<StakeUnit, CommitteeError>(
                        committee.spec_total_votes(),
                    )
                },
                Err(e) => checked_total(voting_rights.pairs()) == Err::<StakeUnit, CommitteeError>(
                    e,
                ),
            },
    {
        let ghost rights = voting_rights.pairs();
        let n = voting_rights.len();
        if n == 0 {
            return Err(CommitteeError::NoMembers);
        }
        let mut total: u64 = 0;
        let mut overflow = false;
        let mut any_stake = false;
        let mut i: usize = 0;
        while i < n
            invariant
                0 <= i <= n,
                n == rights.len(),
                rights == voting_rights.pairs(),
                !overflow ==> total == total_stake(rights.take(i as int)),
                overflow ==> total_stake(rights.take(i as int)) > u64::MAX,
                any_stake == some_stake(rights.take(i as int)),
            decreases n - i,
        {
            let stake = *voting_rights.value_at(i);
            proof {
                assert(rights.take(i + 1).drop_last() =~= rights.take(i as int));
                assert(rights.take(i + 1).last() == rights[i as int]);
                if stake != 0 {
                    assert(rights.take(i + 1)[i as int].1 != 0);
                } else if some_stake(rights.take(i + 1)) {
                    let k = choose|k: int|
                        0 <= k < rights.take(i + 1).len() && (#[trigger] rights.take(i + 1)[k]).1
                            != 0;
                    assert(rights.take(i as int)[k].1 != 0);
                }
                if some_stake(rights.take(i as int)) {
                    let k = choose|k: int|
                        0 <= k < rights.take(i as int).len() && (#[trigger] rights.take(
                            i as int,
                        )[k]).1 != 0;
                    assert(rights.take(i + 1)[k].1 != 0);
                }
            }
            if stake != 0 {
                any_stake = true;
            }
            if !overflow {
                match total.checked_add(stake) {
                    Some(sum) => {
                        total = sum;
                    },
                    None => {
                        overflow = true;
                    },
                }
            }
            i += 1;
        }
        proof {
            assert(rights.take(n as int) =~= rights);
        }
        if !any_stake {
            Err(CommitteeError::NoStake)
        } else if overflow {
            Err(CommitteeError::StakeOverflow)
        } else {
            Ok(Committee { epoch, voting_rights, total_votes: total })
        }
    }

    /// The epoch for which the committee votes.
    pub fn epoch(&self) -> (epoch: EpochId)
        ensures
            epoch == self.spec_epoch(),
    {
        self.epoch
    }

    /// The sum of the stakes of all members.
    pub fn total_votes(&self) -> (total: StakeUnit)
        ensures
            total == self.spec_total_votes(),
    {
        self.total_votes
    }

    /// Name and stake of each member, in ascending order of the names.
    pub fn voting_rights(&self) -> (rights: &KeyMap<StakeUnit>)
        ensures
            rights.pairs() == self.rights(),
    {
        &self.voting_rights
    }
}

/// A committee together with the network metadata of its authorities.
#[derive(Debug, PartialEq, Eq)]
pub struct CommitteeWithNetworkMetadata {
    pub committee: Committee,
    pub network_metadata: KeyMap<NetworkMetadata>,
}

} // verus!
