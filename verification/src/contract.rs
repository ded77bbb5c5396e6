use crate::history::Operation;
use crate::host::{host_vec_contains, host_vec_len, host_vec_new, host_vec_push_back, items_of};
use crate::lemmas::{
    lemma_addresses_contain, lemma_record_at, lemma_total_prefix, lemma_total_take_next,
    lemma_vote_count_at,
};
use crate::model::{
    addresses_of, chain_walk, is_listed, names_of, tally_value, ElectionState, MAX_CHAIN_HOPS,
};
use crate::sums::total;
use crate::transitions::{
    lemma_after_delegate, lemma_after_vote, lemma_delegation_fits, lemma_empty_inv,
    lemma_vote_fits, lemma_votes_cast_bounded, lemma_weight_counts_delegators, lemma_with_party,
    lemma_with_voter,
};
use crate::types::{
    Address, Authorization, ChainOutcome, VoterRecord, VoterStatus, VotingError, VotingStats,
};
use vstd::prelude::*;

verus! {

/// One election: its administrator, its parties with their tallies, its
/// voters, and the time at which voting closes.
pub struct VotingContract {
    admin: Option<Address>,
    parties: Vec<String>,
    tallies: Vec<u32>,
    voters: Vec<VoterRecord>,
    deadline: Option<u64>,
    total_voters: u32,
}

impl View for VotingContract {
    type V = ElectionState;

    closed spec fn view(&self) -> ElectionState {
        ElectionState {
            admin: self.admin,
            parties: names_of(self.parties@),
            tallies: self.tallies@,
            voters: self.voters@,
            deadline: self.deadline,
            total_voters: self.total_voters,
        }
    }
}

impl VotingContract {
    /// Whether the election is in order. Every operation keeps it so.
    pub open spec fn wf(&self) -> bool {
        self@.inv()
    }

    /// An election that has not been initialized.
    pub fn new() -> (c: VotingContract)
        ensures
            c.wf(),
            c@ == ElectionState::empty(),
    {
        let c = VotingContract {
            admin: None,
            parties: Vec::new(),
            tallies: Vec::new(),
            voters: Vec::new(),
            deadline: None,
            total_voters: 0,
        };
        proof {
            lemma_empty_inv();
            assert(c@.parties =~= ElectionState::empty().parties);
            assert(c@.tallies =~= ElectionState::empty().tallies);
            assert(c@.voters =~= ElectionState::empty().voters);
        }
        c
    }

    /// The place of the party `name` among the parties, where it is one.
    fn find_party(&self, name: &String) -> (place: Option<usize>)
        ensures
            match place {
                Some(i) => i < self@.parties.len() && self@.parties[i as int] == name@,
                None => !self@.has_party(name@),
            },
    {
        let mut i: usize = 0;
        while i < self.parties.len()
            invariant
                i <= self.parties.len(),
                self@.parties.len() == self.parties.len(),
                forall|j: int| 0 <= j < i ==> self@.parties[j] != name@,
            decreases self.parties.len() - i,
        {
            if self.parties[i] == *name {
                assert(self@.parties[i as int] == self.parties[i as int]@);
                return Some(i);
            }
            assert(self@.parties[i as int] == self.parties[i as int]@);
            i += 1;
        }
        None
    }

    /// The place of the record of `who` among the voters, where there is one.
    fn find_voter(&self, who: Address) -> (place: Option<usize>)
        ensures
            match place {
                Some(i) => i < self@.voters.len() && self@.voters[i as int].id == who
                    && self@.voters[i as int] == self.voters[i as int],
                None => !is_listed(self@.voters, who),
            },
    {
        let mut i: usize = 0;
        while i < self.voters.len()
            invariant
                i <= self.voters.len(),
                forall|j: int| 0 <= j < i ==> self.voters[j].id != who,
            decreases self.voters.len() - i,
        {
            if self.voters[i].id == who {
                return Some(i);
            }
            i += 1;
        }
        None
    }

    /// Whether the caller may act as the administrator.
    fn check_admin(&self, auth: &Authorization) -> (r: Result<(), VotingError>)
        ensures
            match r {
                Ok(()) => self@.admin_refusal(*auth) is None,
                Err(e) => self@.admin_refusal(*auth) == Some(e),
            },
    {
        match self.admin {
            None => Err(VotingError::NotInitialized),
            Some(admin) => {
                if auth.proves(admin) {
                    Ok(())
                } else {
                    Err(VotingError::AuthorizationFailed)
                }
            },
        }
    }

    /// Makes `admin`, who must be the caller, the administrator of the
    /// election. An election is initialized once.
    pub fn initialize(&mut self, auth: &Authorization, admin: Address) -> (r: Result<
        (),
        VotingError,
    >)
        requires
            old(self).wf(),
        ensures
            final(self).wf(),
            r == old(self)@.initialize_outcome(*auth, admin),
            final(self)@ == old(self)@.apply((Operation::Initialize { auth: *auth, admin })),
            r is Ok ==> final(self)@ == old(self)@.initialized_by(admin),
            r is Err ==> final(self)@ == old(self)@,
    {
        if !auth.proves(admin) {
            return Err(VotingError::AuthorizationFailed);
        }
        if self.admin.is_some() {
            return Err(VotingError::AlreadyInitialized);
        }
        self.admin = Some(admin);
        Ok(())
    }

    /// Adds the party `party_name` behind the parties there are, with a tally
    /// of zero. Only the administrator may; a name is taken once.
    pub fn add_party(&mut self, auth: &Authorization, party_name: String) -> (r: Result<
        (),
        VotingError,
    >)
        requires
            old(self).wf(),
            old(self)@.parties.len() < u32::MAX,
        ensures
            final(self).wf(),
            r == old(self)@.add_party_outcome(*auth, party_name@),
            final(self)@ == old(self)@.apply(
                (Operation::AddParty { auth: *auth, name: party_name@ }),
            ),
            r is Ok ==> final(self)@ == old(self)@.with_party(party_name@),
            r is Ok ==> final(self)@.has_party(party_name@) && final(self)@.vote_count(
                party_name@,
            ) == 0,
            r is Err ==> final(self)@ == old(self)@,
    {
        if let Err(e) = self.check_admin(auth) {
            return Err(e);
        }
        if self.find_party(&party_name).is_some() {
            assert(old(self)@.parties.contains(party_name@));
            return Err(VotingError::DuplicateParty);
        }
        proof {
            lemma_with_party(self@, party_name@);
        }
        self.parties.push(party_name);
        self.tallies.push(0);
        proof {
            assert(self@.parties =~= old(self)@.parties.push(party_name@));
            assert(self@ == old(self)@.with_party(party_name@));
        }
        Ok(())
    }

    /// Registers `voter`. Only the administrator may; an identity is
    /// registered once.
    pub fn add_voter(&mut self, auth: &Authorization, voter: Address) -> (r: Result<
        (),
        VotingError,
    >)
        requires
            old(self).wf(),
            old(self)@.total_voters < u32::MAX,
        ensures
            final(self).wf(),
            r == old(self)@.add_voter_outcome(*auth, voter),
            final(self)@ == old(self)@.apply((Operation::AddVoter { auth: *auth, voter })),
            r is Ok ==> final(self)@ == old(self)@.with_voter(voter),
            r is Ok ==> final(self)@.status_of(voter) == VoterStatus::Registered,
            r is Err ==> final(self)@ == old(self)@,
    {
        if let Err(e) = self.check_admin(auth) {
            return Err(e);
        }
        match self.find_voter(voter) {
            Some(i) => {
                proof {
                    lemma_record_at(self@.voters, i as int);
                }
                return Err(VotingError::AlreadyRegistered);
            },
            None => {},
        }
        proof {
            lemma_with_voter(self@, voter);
        }
        self.voters.push(VoterRecord { id: voter, status: VoterStatus::Registered, delegated: 0 });
        self.total_voters = self.total_voters + 1;
        proof {
            assert(self@.voters =~= old(self)@.with_voter(voter).voters);
            assert(self@ == old(self)@.with_voter(voter));
        }
        Ok(())
    }

    /// Sets the time after which no vote is taken. Only the administrator
    /// may, and only to a time after `now`, the time of the call.
    pub fn set_voting_deadline(&mut self, auth: &Authorization, deadline: u64, now: u64) -> (r:
        Result<(), VotingError>)
        requires
            old(self).wf(),
        ensures
            final(self).wf(),
            r == old(self)@.set_deadline_outcome(*auth, deadline, now),
            final(self)@ == old(self)@.apply(
                (Operation::SetVotingDeadline { auth: *auth, deadline, now }),
            ),
            r is Ok ==> final(self)@ == old(self)@.with_deadline(deadline),
            r is Err ==> final(self)@ == old(self)@,
    {
        if let Err(e) = self.check_admin(auth) {
            return Err(e);
        }
        if deadline <= now {
            return Err(VotingError::InvalidDeadline);
        }
        self.deadline = Some(deadline);
        Ok(())
    }

    /// Casts the vote of `voter`, who must be the caller, for `party_name` at
    /// the time `now`: the party's tally grows by the voter's own vote and by
    /// the weight delegated to the voter, and the voter has voted.
    pub fn vote(&mut self, auth: &Authorization, voter: Address, party_name: &String, now: u64)
        -> (r: Result<(), VotingError>)
        requires
            old(self).wf(),
        ensures
            final(self).wf(),
            r == old(self)@.vote_outcome(*auth, voter, party_name@, now),
            final(self)@ == old(self)@.apply(
                (Operation::Vote { auth: *auth, voter, party: party_name@, now }),
            ),
            r is Ok ==> final(self)@ == old(self)@.after_vote(voter, party_name@),
            r is Ok ==> final(self)@.vote_count(party_name@) == old(self)@.vote_count(party_name@)
                + 1 + old(self)@.delegated_weight(voter),
            r is Ok ==> final(self)@.status_of(voter) == VoterStatus::Voted,
            r is Err ==> final(self)@ == old(self)@,
    {
        if !auth.proves(voter) {
            return Err(VotingError::AuthorizationFailed);
        }
        if let Some(deadline) = self.deadline {
            if now > deadline {
                return Err(VotingError::VotingClosed);
            }
        }
        let v = match self.find_voter(voter) {
            None => {
                return Err(VotingError::NotRegistered);
            },
            Some(v) => v,
        };
        proof {
            lemma_record_at(self@.voters, v as int);
        }
        let record = self.voters[v];
        match record.status {
            VoterStatus::NotRegistered => {
                return Err(VotingError::NotRegistered);
            },
            VoterStatus::Voted => {
                return Err(VotingError::AlreadyVoted);
            },
            VoterStatus::Delegated(_) => {
                return Err(VotingError::AlreadyDelegated);
            },
            VoterStatus::Registered => {},
        }
        let p = match self.find_party(party_name) {
            None => {
                return Err(VotingError::UnknownParty);
            },
            Some(p) => p,
        };
        proof {
            lemma_vote_count_at(self@, p as int);
            lemma_vote_fits(self@, voter, party_name@);
            lemma_after_vote(self@, voter, party_name@);
        }
        let weight: u32 = 1 + record.delegated;
        let tally: u32 = self.tallies[p] + weight;
        self.tallies.set(p, tally);
        self.voters.set(
            v,
            VoterRecord { id: record.id, status: VoterStatus::Voted, delegated: record.delegated },
        );
        proof {
            let after = old(self)@.after_vote(voter, party_name@);
            assert(self@.tallies =~= after.tallies);
            assert(self@.voters =~= after.voters);
            assert(self@ == after);
        }
        Ok(())
    }

    /// Walks the delegation chain from `delegate_to` on and says whether
    /// `delegator` may hand their vote to `delegate_to`: not where the chain
    /// meets `delegator` or an identity it has passed already, nor where it
    /// has more hops than the bound. The identities passed are kept in a
    /// vector of the host `env`.
    pub fn check_circular_delegation(
        &self,
        env: &soroban_sdk::Env,
        delegator: Address,
        delegate_to: Address,
    ) -> (r: Result<(), VotingError>)
        requires
            self.wf(),
        ensures
            r == match self@.chain_outcome(delegator, delegate_to) {
                ChainOutcome::Clear => Ok::<(), VotingError>(()),
                ChainOutcome::Circular => Err(VotingError::CircularDelegation),
                ChainOutcome::TooLong => Err(VotingError::DelegationChainTooLong),
            },
    {
        let mut current = delegate_to;
        let mut visited = host_vec_new(env);
        assert(addresses_of(items_of(visited)) =~= Seq::<Address>::empty());
        loop
            invariant
                self.wf(),
                items_of(visited).len() <= MAX_CHAIN_HOPS,
                chain_walk(self@.voters, delegator, current, addresses_of(items_of(visited)))
                    == self@.chain_outcome(delegator, delegate_to),
            decreases MAX_CHAIN_HOPS + 1 - items_of(visited).len(),
        {
            proof {
                lemma_addresses_contain(items_of(visited), current);
            }
            if host_vec_contains(&visited, current.id) || current == delegator {
                return Err(VotingError::CircularDelegation);
            }
            let ghost passed = items_of(visited);
            host_vec_push_back(&mut visited, current.id);
            assert(addresses_of(items_of(visited)) =~= addresses_of(passed).push(current));
            match self.get_voter_status(current) {
                VoterStatus::Delegated(next) => {
                    current = next;
                },
                _ => {
                    return Ok(());
                },
            }
            if host_vec_len(&visited) as usize > MAX_CHAIN_HOPS {
                return Err(VotingError::DelegationChainTooLong);
            }
        }
    }

    /// Hands the vote of `delegator`, who must be the caller, to
    /// `delegate_to`: the delegate holds one unit of weight more, and the
    /// delegator has delegated.
    pub fn delegate(
        &mut self,
        env: &soroban_sdk::Env,
        auth: &Authorization,
        delegator: Address,
        delegate_to: Address,
    ) -> (r: Result<(), VotingError>)
        requires
            old(self).wf(),
        ensures
            final(self).wf(),
            r == old(self)@.delegate_outcome(*auth, delegator, delegate_to),
            final(self)@ == old(self)@.apply(
                (Operation::Delegate { auth: *auth, delegator, delegate_to }),
            ),
            r is Ok ==> final(self)@ == old(self)@.after_delegate(delegator, delegate_to),
            r is Ok ==> final(self)@.status_of(delegator) == VoterStatus::Delegated(delegate_to),
            r is Ok ==> final(self)@.delegated_weight(delegate_to) == old(self)@.delegated_weight(
                delegate_to,
            ) + 1,
            r is Err ==> final(self)@ == old(self)@,
    {
        if !auth.proves(delegator) {
            return Err(VotingError::AuthorizationFailed);
        }
        if delegator == delegate_to {
            return Err(VotingError::SelfDelegation);
        }
        if let Err(e) = self.check_circular_delegation(env, delegator, delegate_to) {
            return Err(e);
        }
        let d = match self.find_voter(delegator) {
            None => {
                return Err(VotingError::NotRegistered);
            },
            Some(d) => d,
        };
        proof {
            lemma_record_at(self@.voters, d as int);
        }
        let giving = self.voters[d];
        match giving.status {
            VoterStatus::NotRegistered => {
                return Err(VotingError::NotRegistered);
            },
            VoterStatus::Voted => {
                return Err(VotingError::AlreadyVoted);
            },
            VoterStatus::Delegated(_) => {
                return Err(VotingError::AlreadyDelegated);
            },
            VoterStatus::Registered => {},
        }
        let t = match self.find_voter(delegate_to) {
            None => {
                return Err(VotingError::NotRegistered);
            },
            Some(t) => t,
        };
        proof {
            lemma_record_at(self@.voters, t as int);
        }
        let taking = self.voters[t];
        match taking.status {
            VoterStatus::NotRegistered => {
                return Err(VotingError::NotRegistered);
            },
            VoterStatus::Voted => {
                return Err(VotingError::AlreadyVoted);
            },
            VoterStatus::Delegated(_) => {
                return Err(VotingError::AlreadyDelegated);
            },
            VoterStatus::Registered => {},
        }
        proof {
            lemma_delegation_fits(self@, delegator, delegate_to);
            lemma_after_delegate(self@, delegator, delegate_to);
        }
        self.voters.set(
            t,
            VoterRecord { id: taking.id, status: taking.status, delegated: taking.delegated + 1 },
        );
        self.voters.set(
            d,
            VoterRecord {
                id: giving.id,
                status: VoterStatus::Delegated(delegate_to),
                delegated: giving.delegated,
            },
        );
        proof {
            let after = old(self)@.after_delegate(delegator, delegate_to);
            assert(self@.voters =~= after.voters);
            assert(self@ == after);
        }
        Ok(())
    }

    /// The tally of `party_name`: zero for a name that is no party.
    pub fn get_vote_count(&self, party_name: &String) -> (count: u32)
        requires
            self.wf(),
        ensures
            count == self@.vote_count(party_name@),
    {
        match self.find_party(party_name) {
            Some(p) => {
                proof {
                    lemma_vote_count_at(self@, p as int);
                }
                self.tallies[p]
            },
            None => 0,
        }
    }

    /// The names of the parties, in the order in which they were added.
    pub fn get_parties(&self) -> (names: Vec<String>)
        ensures
            names_of(names@) == self@.parties,
    {
        let mut names: Vec<String> = Vec::new();
        let mut i: usize = 0;
        while i < self.parties.len()
            invariant
                i <= self.parties.len(),
                names.len() == i,
                forall|j: int| 0 <= j < i ==> names[j]@ == self.parties[j]@,
            decreases self.parties.len() - i,
        {
            names.push(self.parties[i].clone());
            i += 1;
        }
        assert(names_of(names@) =~= self@.parties);
        names
    }

    /// The status of `voter`: `NotRegistered` for an identity that was never
    /// registered.
    pub fn get_voter_status(&self, voter: Address) -> (status: VoterStatus)
        requires
            self.wf(),
        ensures
            status == self@.status_of(voter),
    {
        match self.find_voter(voter) {
            Some(i) => {
                proof {
                    lemma_record_at(self@.voters, i as int);
                }
                self.voters[i].status
            },
            None => VoterStatus::NotRegistered,
        }
    }

    /// The weight that others have delegated to `voter`: the number of
    /// voters whose status names `voter` as their delegate.
    pub fn get_delegated_votes(&self, voter: Address) -> (weight: u32)
        requires
            self.wf(),
        ensures
            weight == self@.delegated_weight(voter),
            weight == self@.delegators_of(voter),
    {
        proof {
            lemma_weight_counts_delegators(self@, voter);
        }
        match self.find_voter(voter) {
            Some(i) => {
                proof {
                    lemma_record_at(self@.voters, i as int);
                }
                self.voters[i].delegated
            },
            None => 0,
        }
    }

    /// The sum of the parties' tallies, the number of parties and the number
    /// of voters that were registered.
    pub fn get_voting_stats(&self) -> (stats: VotingStats)
        requires
            self.wf(),
        ensures
            stats.total_votes == self@.votes_cast(),
            stats.total_parties == self@.parties.len(),
            stats.total_voters == self@.total_voters,
    {
        let mut total_votes: u32 = 0;
        let mut i: usize = 0;
        proof {
            lemma_votes_cast_bounded(self@);
        }
        while i < self.tallies.len()
            invariant
                self.wf(),
                i <= self.tallies.len(),
                total_votes == total(self.tallies@.take(i as int), tally_value()),
                total(self.tallies@, tally_value()) <= u32::MAX,
            decreases self.tallies.len() - i,
        {
            proof {
                lemma_total_take_next(self.tallies@, tally_value(), i as int);
                lemma_total_prefix(self.tallies@, tally_value(), i + 1);
            }
            total_votes = total_votes + self.tallies[i];
            i += 1;
        }
        assert(self.tallies@.take(i as int) =~= self.tallies@);
        VotingStats {
            total_votes,
            total_parties: self.parties.len() as u32,
            total_voters: self.total_voters,
        }
    }

    /// Each party, in the order in which they were added, with its tally.
    pub fn get_all_results(&self) -> (results: Vec<(String, u32)>)
        requires
            self.wf(),
        ensures
            results.len() == self@.parties.len(),
            forall|i: int|
                0 <= i < results.len() ==> (#[trigger] results[i]).0@ == self@.parties[i]
                    && results[i].1 == self@.vote_count(self@.parties[i]),
    {
        let mut results: Vec<(String, u32)> = Vec::new();
        let mut i: usize = 0;
        while i < self.parties.len()
            invariant
                self.wf(),
                i <= self.parties.len(),
                results.len() == i,
                forall|j: int|
                    0 <= j < i ==> (#[trigger] results[j]).0@ == self@.parties[j] && results[j].1
                        == self@.vote_count(self@.parties[j]),
            decreases self.parties.len() - i,
        {
            proof {
                lemma_vote_count_at(self@, i as int);
            }
            results.push((self.parties[i].clone(), self.tallies[i]));
            i += 1;
        }
        results
    }

    /// The time after which no vote is taken, where one was set.
    pub fn get_voting_deadline(&self) -> (deadline: Option<u64>)
        ensures
            deadline == self@.deadline,
    {
        self.deadline
    }

    /// The administrator, once the election is initialized.
    pub fn get_admin(&self) -> (admin: Option<Address>)
        ensures
            admin == self@.admin,
    {
        self.admin
    }
}

} // verus!
