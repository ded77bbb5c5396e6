use crate::sums::total;
use crate::types::{Address, Authorization, ChainOutcome, VoterRecord, VoterStatus, VotingError};
use vstd::prelude::*;

verus! {

/// The most hops a delegation chain may have when it is walked.
pub const MAX_CHAIN_HOPS: usize = 100;

/// The election as a mathematical value.
///
/// `tallies` runs parallel to `parties`; `voters` holds one record for each
/// identity that was ever registered.
pub struct ElectionState {
    pub admin: Option<Address>,
    pub parties: Seq<Seq<char>>,
    pub tallies: Seq<u32>,
    pub voters: Seq<VoterRecord>,
    pub deadline: Option<u64>,
    pub total_voters: u32,
}

/// The weight of a record that has reached the tallies.
pub open spec fn cast_weight() -> spec_fn(VoterRecord) -> int {
    |v: VoterRecord| if v.status == VoterStatus::Voted { 1 + v.delegated } else { 0 }
}

/// The weight that others have handed to a record.
pub open spec fn incoming_weight() -> spec_fn(VoterRecord) -> int {
    |v: VoterRecord| v.delegated as int
}

/// One for a record that has delegated, zero otherwise.
pub open spec fn has_delegated() -> spec_fn(VoterRecord) -> int {
    |v: VoterRecord| if v.status is Delegated { 1int } else { 0int }
}

/// One for a record that has delegated to `target`, zero otherwise.
pub open spec fn delegates_to(target: Address) -> spec_fn(VoterRecord) -> int {
    |v: VoterRecord| if v.status == VoterStatus::Delegated(target) { 1int } else { 0int }
}

/// One for a record that has voted, zero otherwise.
pub open spec fn has_voted() -> spec_fn(VoterRecord) -> int {
    |v: VoterRecord| if v.status == VoterStatus::Voted { 1int } else { 0int }
}

/// One for a record that has voted or delegated, zero otherwise.
pub open spec fn has_finished() -> spec_fn(VoterRecord) -> int {
    |v: VoterRecord| has_voted()(v) + has_delegated()(v)
}

/// The most that a record can have brought to the tallies.
pub open spec fn weight_bound() -> spec_fn(VoterRecord) -> int {
    |v: VoterRecord| has_voted()(v) + incoming_weight()(v)
}

/// Every delegation names an identity that has a record.
pub open spec fn targets_listed(voters: Seq<VoterRecord>) -> bool {
    forall|i: int|
        0 <= i < voters.len() && (#[trigger] voters[i]).status is Delegated ==> is_listed(
            voters,
            voters[i].status->Delegated_0,
        )
}

/// The identities whose numbers are `ids`.
pub open spec fn addresses_of(ids: Seq<u64>) -> Seq<Address> {
    ids.map_values(|id: u64| Address { id })
}

/// The views of a sequence of names.
pub open spec fn names_of(names: Seq<String>) -> Seq<Seq<char>> {
    names.map_values(|name: String| name@)
}

/// The tally of each name in the election `e`.
pub open spec fn tally_of(e: ElectionState) -> spec_fn(Seq<char>) -> int {
    |name: Seq<char>| e.vote_count(name)
}

/// The value of a tally as an integer.
pub open spec fn tally_value() -> spec_fn(u32) -> int {
    |t: u32| t as int
}

/// Whether `voters` holds a record of `who`.
pub open spec fn is_listed(voters: Seq<VoterRecord>, who: Address) -> bool {
    exists|i: int| 0 <= i < voters.len() && (#[trigger] voters[i]).id == who
}

/// The place of the record of `who`, where there is one.
pub open spec fn record_index(voters: Seq<VoterRecord>, who: Address) -> int {
    choose|i: int| 0 <= i < voters.len() && (#[trigger] voters[i]).id == who
}

/// No identity has two records.
pub open spec fn distinct_ids(voters: Seq<VoterRecord>) -> bool {
    forall|i: int, j: int|
        0 <= i < voters.len() && 0 <= j < voters.len() && (#[trigger] voters[i]).id == (
        #[trigger] voters[j]).id ==> i == j
}

/// The status of `who`: `NotRegistered` for an identity without a record.
pub open spec fn status_in(voters: Seq<VoterRecord>, who: Address) -> VoterStatus {
    if is_listed(voters, who) {
        voters[record_index(voters, who)].status
    } else {
        VoterStatus::NotRegistered
    }
}

/// The weight delegated to `who`: zero for an identity without a record.
pub open spec fn weight_in(voters: Seq<VoterRecord>, who: Address) -> int {
    if is_listed(voters, who) {
        voters[record_index(voters, who)].delegated as int
    } else {
        0
    }
}

/// Whether the delegation chain that starts at `from` ends within `fuel` hops
/// at an identity that has not delegated.
pub open spec fn settles(voters: Seq<VoterRecord>, from: Address, fuel: nat) -> bool
    decreases fuel,
{
    match status_in(voters, from) {
        VoterStatus::Delegated(next) => fuel > 0 && settles(voters, next, (fuel - 1) as nat),
        _ => true,
    }
}

/// Whether exactly `hops` delegations lead from `from` to `to`.
pub open spec fn leads_to(voters: Seq<VoterRecord>, from: Address, to: Address, hops: nat) -> bool
    decreases hops,
{
    if hops == 0 {
        from == to
    } else {
        match status_in(voters, from) {
            VoterStatus::Delegated(next) => leads_to(voters, next, to, (hops - 1) as nat),
            _ => false,
        }
    }
}

/// Whether the delegation chain that starts at `from` ends at all.
pub open spec fn ends(voters: Seq<VoterRecord>, from: Address) -> bool {
    exists|n: nat| #[trigger] settles(voters, from, n)
}

/// Every delegation chain ends.
pub open spec fn chains_end(voters: Seq<VoterRecord>) -> bool {
    forall|a: Address| #[trigger] ends(voters, a)
}

/// The walk that precedes a delegation, from `current` on, with the
/// identities passed so far in `visited`.
pub open spec fn chain_walk(
    voters: Seq<VoterRecord>,
    delegator: Address,
    current: Address,
    visited: Seq<Address>,
) -> ChainOutcome
    decreases MAX_CHAIN_HOPS + 1 - visited.len(),
{
    if visited.contains(current) || current == delegator {
        ChainOutcome::Circular
    } else {
        match status_in(voters, current) {
            VoterStatus::Delegated(next) => {
                if visited.len() + 1 > MAX_CHAIN_HOPS {
                    ChainOutcome::TooLong
                } else {
                    chain_walk(voters, delegator, next, visited.push(current))
                }
            },
            _ => ChainOutcome::Clear,
        }
    }
}

impl ElectionState {
    /// The state before `initialize`.
    pub open spec fn empty() -> ElectionState {
        ElectionState {
            admin: None,
            parties: Seq::empty(),
            tallies: Seq::empty(),
            voters: Seq::empty(),
            deadline: None,
            total_voters: 0,
        }
    }

    pub open spec fn has_party(self, name: Seq<char>) -> bool {
        self.parties.contains(name)
    }

    /// The tally of the party `name`, zero for a name that is no party.
    pub open spec fn vote_count(self, name: Seq<char>) -> int {
        if self.parties.contains(name) {
            self.tallies[self.parties.index_of(name)] as int
        } else {
            0
        }
    }

    pub open spec fn status_of(self, who: Address) -> VoterStatus {
        status_in(self.voters, who)
    }

    pub open spec fn delegated_weight(self, who: Address) -> int {
        weight_in(self.voters, who)
    }

    /// The number of voters whose status is `Delegated(target)`.
    pub open spec fn delegators_of(self, target: Address) -> int {
        total(self.voters, delegates_to(target))
    }

    /// The sum, over the parties in their order, of each party's tally.
    pub open spec fn votes_cast(self) -> int {
        total(self.parties, tally_of(self))
    }

    /// What holds of every election that the operations can reach.
    pub open spec fn inv(self) -> bool {
        &&& self.parties.no_duplicates()
        &&& self.tallies.len() == self.parties.len()
        &&& self.parties.len() <= u32::MAX
        &&& distinct_ids(self.voters)
        &&& targets_listed(self.voters)
        &&& self.total_voters == self.voters.len()
        &&& (self.admin is None ==> self.parties.len() == 0 && self.voters.len() == 0
            && self.deadline is None)
        &&& forall|i: int|
            0 <= i < self.voters.len() ==> (#[trigger] self.voters[i]).status
                != VoterStatus::NotRegistered
        &&& forall|i: int|
            0 <= i < self.voters.len() ==> (#[trigger] self.voters[i]).delegated
                == self.delegators_of(self.voters[i].id)
        &&& total(self.tallies, tally_value()) == total(self.voters, cast_weight())
        &&& total(self.voters, incoming_weight()) == total(self.voters, has_delegated())
        &&& chains_end(self.voters)
    }

    /// The outcome of `initialize`.
    pub open spec fn initialize_outcome(self, auth: Authorization, admin: Address) -> Result<
        (),
        VotingError,
    > {
        if auth.identity != admin {
            Err(VotingError::AuthorizationFailed)
        } else if self.admin is Some {
            Err(VotingError::AlreadyInitialized)
        } else {
            Ok(())
        }
    }

    /// What stands between the caller and an act of the administrator.
    pub open spec fn admin_refusal(self, auth: Authorization) -> Option<VotingError> {
        if self.admin is None {
            Some(VotingError::NotInitialized)
        } else if auth.identity != self.admin->0 {
            Some(VotingError::AuthorizationFailed)
        } else {
            None
        }
    }

    /// The outcome of `add_party`.
    pub open spec fn add_party_outcome(self, auth: Authorization, name: Seq<char>) -> Result<
        (),
        VotingError,
    > {
        if self.admin_refusal(auth) is Some {
            Err(self.admin_refusal(auth)->0)
        } else if self.has_party(name) {
            Err(VotingError::DuplicateParty)
        } else {
            Ok(())
        }
    }

    /// The outcome of `add_voter`.
    pub open spec fn add_voter_outcome(self, auth: Authorization, voter: Address) -> Result<
        (),
        VotingError,
    > {
        if self.admin_refusal(auth) is Some {
            Err(self.admin_refusal(auth)->0)
        } else if self.status_of(voter) != VoterStatus::NotRegistered {
            Err(VotingError::AlreadyRegistered)
        } else {
            Ok(())
        }
    }

    /// The outcome of `set_voting_deadline` at the time `now`.
    pub open spec fn set_deadline_outcome(self, auth: Authorization, deadline: u64, now: u64)
        -> Result<(), VotingError> {
        if self.admin_refusal(auth) is Some {
            Err(self.admin_refusal(auth)->0)
        } else if deadline <= now {
            Err(VotingError::InvalidDeadline)
        } else {
            Ok(())
        }
    }

    /// Whether voting is over at the time `now`.
    pub open spec fn closed_at(self, now: u64) -> bool {
        self.deadline is Some && now > self.deadline->0
    }

    /// The outcome of `vote` at the time `now`.
    pub open spec fn vote_outcome(
        self,
        auth: Authorization,
        voter: Address,
        party: Seq<char>,
        now: u64,
    ) -> Result<(), VotingError> {
        if auth.identity != voter {
            Err(VotingError::AuthorizationFailed)
        } else if self.closed_at(now) {
            Err(VotingError::VotingClosed)
        } else {
            match self.status_of(voter) {
                VoterStatus::NotRegistered => Err(VotingError::NotRegistered),
                VoterStatus::Voted => Err(VotingError::AlreadyVoted),
                VoterStatus::Delegated(_) => Err(VotingError::AlreadyDelegated),
                VoterStatus::Registered => if self.has_party(party) {
                    Ok(())
                } else {
                    Err(VotingError::UnknownParty)
                },
            }
        }
    }

    /// The outcome of walking the chain from `delegate_to` for `delegator`.
    pub open spec fn chain_outcome(self, delegator: Address, delegate_to: Address) -> ChainOutcome {
        chain_walk(self.voters, delegator, delegate_to, Seq::empty())
    }

    /// The outcome of `delegate`.
    pub open spec fn delegate_outcome(
        self,
        auth: Authorization,
        delegator: Address,
        delegate_to: Address,
    ) -> Result<(), VotingError> {
        if auth.identity != delegator {
            Err(VotingError::AuthorizationFailed)
        } else if delegator == delegate_to {
            Err(VotingError::SelfDelegation)
        } else {
            match self.chain_outcome(delegator, delegate_to) {
                ChainOutcome::Circular => Err(VotingError::CircularDelegation),
                ChainOutcome::TooLong => Err(VotingError::DelegationChainTooLong),
                ChainOutcome::Clear => match self.status_of(delegator) {
                    VoterStatus::NotRegistered => Err(VotingError::NotRegistered),
                    VoterStatus::Voted => Err(VotingError::AlreadyVoted),
                    VoterStatus::Delegated(_) => Err(VotingError::AlreadyDelegated),
                    VoterStatus::Registered => match self.status_of(delegate_to) {
                        VoterStatus::NotRegistered => Err(VotingError::NotRegistered),
                        VoterStatus::Voted => Err(VotingError::AlreadyVoted),
                        VoterStatus::Delegated(_) => Err(VotingError::AlreadyDelegated),
                        VoterStatus::Registered => Ok(()),
                    },
                },
            }
        }
    }

    /// The election after `initialize` succeeded.
    pub open spec fn initialized_by(self, admin: Address) -> ElectionState {
        ElectionState { admin: Some(admin), ..self }
    }

    /// The election after `add_party` succeeded.
    pub open spec fn with_party(self, name: Seq<char>) -> ElectionState {
        ElectionState { parties: self.parties.push(name), tallies: self.tallies.push(0), ..self }
    }

    /// The election after `add_voter` succeeded.
    pub open spec fn with_voter(self, voter: Address) -> ElectionState {
        ElectionState {
            voters: self.voters.push(
                VoterRecord { id: voter, status: VoterStatus::Registered, delegated: 0 },
            ),
            total_voters: (self.total_voters + 1) as u32,
            ..self
        }
    }

    /// The election after `set_voting_deadline` succeeded.
    pub open spec fn with_deadline(self, deadline: u64) -> ElectionState {
        ElectionState { deadline: Some(deadline), ..self }
    }

    /// The election after `vote` succeeded: the party's tally has grown by the
    /// voter's own vote and the weight delegated to the voter.
    pub open spec fn after_vote(self, voter: Address, party: Seq<char>) -> ElectionState {
        let p = self.parties.index_of(party);
        let v = record_index(self.voters, voter);
        ElectionState {
            tallies: self.tallies.update(
                p,
                (self.tallies[p] + 1 + self.voters[v].delegated) as u32,
            ),
            voters: self.voters.update(
                v,
                VoterRecord { status: VoterStatus::Voted, ..self.voters[v] },
            ),
            ..self
        }
    }

    /// The election after `delegate` succeeded: the delegate holds one unit
    /// more, and the delegator's status names the delegate.
    pub open spec fn after_delegate(self, delegator: Address, delegate_to: Address)
        -> ElectionState {
        let d = record_index(self.voters, delegator);
        let t = record_index(self.voters, delegate_to);
        ElectionState {
            voters: self.voters.update(
                t,
                VoterRecord { delegated: (self.voters[t].delegated + 1) as u32, ..self.voters[t] },
            ).update(
                d,
                VoterRecord { status: VoterStatus::Delegated(delegate_to), ..self.voters[d] },
            ),
            ..self
        }
    }
}

} // verus!
