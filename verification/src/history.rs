use crate::model::ElectionState;
use crate::transitions::{
    lemma_after_delegate, lemma_after_vote, lemma_empty_inv, lemma_with_party, lemma_with_voter,
};
use crate::types::{Address, Authorization, VotingError};
use vstd::prelude::*;

verus! {

/// One call of an operation that changes the election, with its arguments.
pub enum Operation {
    Initialize { auth: Authorization, admin: Address },
    AddParty { auth: Authorization, name: Seq<char> },
    AddVoter { auth: Authorization, voter: Address },
    SetVotingDeadline { auth: Authorization, deadline: u64, now: u64 },
    Vote { auth: Authorization, voter: Address, party: Seq<char>, now: u64 },
    Delegate { auth: Authorization, delegator: Address, delegate_to: Address },
}

impl ElectionState {
    /// What the call `op` returns in this election.
    pub open spec fn outcome(self, op: Operation) -> Result<(), VotingError> {
        match op {
            Operation::Initialize { auth, admin } => self.initialize_outcome(auth, admin),
            Operation::AddParty { auth, name } => self.add_party_outcome(auth, name),
            Operation::AddVoter { auth, voter } => self.add_voter_outcome(auth, voter),
            Operation::SetVotingDeadline { auth, deadline, now } => self.set_deadline_outcome(
                auth,
                deadline,
                now,
            ),
            Operation::Vote { auth, voter, party, now } => self.vote_outcome(
                auth,
                voter,
                party,
                now,
            ),
            Operation::Delegate { auth, delegator, delegate_to } => self.delegate_outcome(
                auth,
                delegator,
                delegate_to,
            ),
        }
    }

    /// Whether the counters of this election have room for the call `op`.
    pub open spec fn has_room_for(self, op: Operation) -> bool {
        match op {
            Operation::AddParty { .. } => self.parties.len() < u32::MAX,
            Operation::AddVoter { .. } => self.total_voters < u32::MAX,
            _ => true,
        }
    }

    /// The election after the call `op`: changed where the call succeeds,
    /// the same where it is refused.
    pub open spec fn apply(self, op: Operation) -> ElectionState {
        if self.outcome(op) is Err {
            self
        } else {
            match op {
                Operation::Initialize { auth, admin } => self.initialized_by(admin),
                Operation::AddParty { auth, name } => self.with_party(name),
                Operation::AddVoter { auth, voter } => self.with_voter(voter),
                Operation::SetVotingDeadline { auth, deadline, now } => self.with_deadline(
                    deadline,
                ),
                Operation::Vote { auth, voter, party, now } => self.after_vote(voter, party),
                Operation::Delegate { auth, delegator, delegate_to } => self.after_delegate(
                    delegator,
                    delegate_to,
                ),
            }
        }
    }

    /// The election after the calls `ops`, made in their order.
    pub open spec fn after_all(self, ops: Seq<Operation>) -> ElectionState
        decreases ops.len(),
    {
        if ops.len() == 0 {
            self
        } else {
            self.after_all(ops.drop_last()).apply(ops.last())
        }
    }

    /// Whether the counters have room for each of the calls `ops` when its
    /// turn comes.
    pub open spec fn has_room_for_all(self, ops: Seq<Operation>) -> bool
        decreases ops.len(),
    {
        ops.len() > 0 ==> self.has_room_for_all(ops.drop_last()) && self.after_all(
            ops.drop_last(),
        ).has_room_for(ops.last())
    }
}

/// One call, whether it succeeds or is refused, keeps the election in order.
pub proof fn lemma_apply_keeps_order(e: ElectionState, op: Operation)
    requires
        e.inv(),
        e.has_room_for(op),
    ensures
        e.apply(op).inv(),
{
    if e.outcome(op) is Ok {
        match op {
            Operation::Initialize { auth, admin } => {},
            Operation::AddParty { auth, name } => {
                lemma_with_party(e, name);
            },
            Operation::AddVoter { auth, voter } => {
                lemma_with_voter(e, voter);
            },
            Operation::SetVotingDeadline { auth, deadline, now } => {},
            Operation::Vote { auth, voter, party, now } => {
                lemma_after_vote(e, voter, party);
            },
            Operation::Delegate { auth, delegator, delegate_to } => {
                lemma_after_delegate(e, delegator, delegate_to);
            },
        }
    }
}

/// Whatever calls are made in whatever order, the election stays in order.
pub proof fn lemma_after_all_keeps_order(e: ElectionState, ops: Seq<Operation>)
    requires
        e.inv(),
        e.has_room_for_all(ops),
    ensures
        e.after_all(ops).inv(),
    decreases ops.len(),
{
    if ops.len() > 0 {
        lemma_after_all_keeps_order(e, ops.drop_last());
        lemma_apply_keeps_order(e.after_all(ops.drop_last()), ops.last());
    }
}

/// Every election that calls can make of the empty one is in order.
pub proof fn lemma_history_in_order(ops: Seq<Operation>)
    requires
        ElectionState::empty().has_room_for_all(ops),
    ensures
        ElectionState::empty().after_all(ops).inv(),
{
    lemma_empty_inv();
    lemma_after_all_keeps_order(ElectionState::empty(), ops);
}

} // verus!
