use crate::history::{lemma_after_all_keeps_order, lemma_history_in_order, Operation};
use crate::lemmas::{
    lemma_circle_never_settles, lemma_record_at, lemma_vote_count_at, lemma_walk_finds_circle,
};
use crate::model::{
    ends, leads_to, record_index, settles, tally_value, ElectionState, MAX_CHAIN_HOPS,
};
use crate::sums::lemma_total_update;
use crate::transitions::{
    lemma_after_delegate, lemma_after_vote, lemma_vote_fits, lemma_votes_cast_bounded,
    lemma_with_voter,
};
use crate::types::{Address, Authorization, ChainOutcome, VoterStatus, VotingError};
use vstd::prelude::*;

verus! {

/// Whether a status is one that a voter never leaves.
pub open spec fn is_terminal(status: VoterStatus) -> bool {
    status == VoterStatus::Voted || status is Delegated
}

/// The error that tells a voter in a terminal status why they are refused.
pub open spec fn terminal_refusal(status: VoterStatus) -> VotingError {
    if status == VoterStatus::Voted {
        VotingError::AlreadyVoted
    } else {
        VotingError::AlreadyDelegated
    }
}

/// The votes that were cast are never more than the voters that were
/// registered, so no tally and no sum of tallies leaves the range of its type.
pub proof fn law_votes_cast_bounded(e: ElectionState)
    requires
        e.inv(),
    ensures
        0 <= e.votes_cast() <= e.total_voters,
{
    lemma_votes_cast_bounded(e);
}

/// A voter who has voted or delegated is refused when they vote or delegate
/// again, whoever calls and whatever they choose. The caller being the voter
/// and voting being open, the vote is refused because of the voter's status;
/// the delegate being another and the walk along the chain ending clear, so
/// is the delegation.
pub proof fn law_terminal_voter_is_refused(
    e: ElectionState,
    auth: Authorization,
    voter: Address,
    party: Seq<char>,
    delegate_to: Address,
    now: u64,
)
    requires
        e.inv(),
        is_terminal(e.status_of(voter)),
    ensures
        e.vote_outcome(auth, voter, party, now) is Err,
        e.delegate_outcome(auth, voter, delegate_to) is Err,
        auth.identity == voter && !e.closed_at(now) ==> e.vote_outcome(auth, voter, party, now)
            == Err::<(), VotingError>(terminal_refusal(e.status_of(voter))),
        auth.identity == voter && voter != delegate_to && e.chain_outcome(voter, delegate_to)
            == ChainOutcome::Clear ==> e.delegate_outcome(auth, voter, delegate_to) == Err::<
            (),
            VotingError,
        >(terminal_refusal(e.status_of(voter))),
{
}

/// No call changes the status of a voter who has voted or delegated.
pub proof fn law_terminal_status_is_kept(e: ElectionState, voter: Address, op: Operation)
    requires
        e.inv(),
        e.has_room_for(op),
        is_terminal(e.status_of(voter)),
    ensures
        e.apply(op).status_of(voter) == e.status_of(voter),
{
    if e.outcome(op) is Ok {
        match op {
            Operation::AddVoter { auth, voter } => {
                lemma_with_voter(e, voter);
            },
            Operation::Vote { auth, voter, party, now } => {
                lemma_after_vote(e, voter, party);
            },
            Operation::Delegate { auth, delegator, delegate_to } => {
                lemma_after_delegate(e, delegator, delegate_to);
            },
            _ => {},
        }
    }
}

/// Once a voter has voted or delegated, their status is the same after any
/// further calls, in whatever order.
pub proof fn law_terminal_status_is_final(e: ElectionState, voter: Address, ops: Seq<Operation>)
    requires
        e.inv(),
        e.has_room_for_all(ops),
        is_terminal(e.status_of(voter)),
    ensures
        e.after_all(ops).status_of(voter) == e.status_of(voter),
    decreases ops.len(),
{
    if ops.len() > 0 {
        law_terminal_status_is_final(e, voter, ops.drop_last());
        lemma_after_all_keeps_order(e, ops.drop_last());
        law_terminal_status_is_kept(e.after_all(ops.drop_last()), voter, ops.last());
    }
}

/// After any calls on a new election, in whatever order, no chain of
/// delegations comes back to the voter it started from.
pub proof fn law_no_history_makes_a_circle(ops: Seq<Operation>, voter: Address, hops: nat)
    requires
        ElectionState::empty().has_room_for_all(ops),
        hops >= 1,
    ensures
        !leads_to(ElectionState::empty().after_all(ops).voters, voter, voter, hops),
{
    lemma_history_in_order(ops);
    law_no_delegation_circle(ElectionState::empty().after_all(ops), voter, hops);
}

/// In an election that is in order no chain of delegations comes back to
/// the voter it started from.
pub proof fn law_no_delegation_circle(e: ElectionState, voter: Address, hops: nat)
    requires
        e.inv(),
        hops >= 1,
    ensures
        !leads_to(e.voters, voter, voter, hops),
{
    if leads_to(e.voters, voter, voter, hops) {
        assert(ends(e.voters, voter));
        let fuel = choose|n: nat| #[trigger] settles(e.voters, voter, n);
        lemma_circle_never_settles(e.voters, voter, hops, fuel);
    }
}

/// A delegation that would close a circle is refused as circular: where the
/// delegations from `delegate_to` on lead to the delegator within the bound
/// on hops, the delegator cannot delegate to `delegate_to`.
pub proof fn law_closing_a_circle_is_refused(
    e: ElectionState,
    auth: Authorization,
    delegator: Address,
    delegate_to: Address,
    hops: nat,
)
    requires
        auth.identity == delegator,
        delegator != delegate_to,
        leads_to(e.voters, delegate_to, delegator, hops),
        hops <= MAX_CHAIN_HOPS,
    ensures
        e.delegate_outcome(auth, delegator, delegate_to) == Err::<(), VotingError>(
            VotingError::CircularDelegation,
        ),
{
    lemma_walk_finds_circle(e.voters, delegator, delegate_to, Seq::empty(), hops);
}

/// A delegation that succeeds keeps the election in order, so that it has
/// no circle afterwards either, and changes no tally: the delegator's vote
/// reaches a tally only with the delegate's.
pub proof fn law_delegation_keeps_order(
    e: ElectionState,
    auth: Authorization,
    delegator: Address,
    delegate_to: Address,
)
    requires
        e.inv(),
        e.delegate_outcome(auth, delegator, delegate_to) is Ok,
    ensures
        e.after_delegate(delegator, delegate_to).inv(),
        e.after_delegate(delegator, delegate_to).delegators_of(delegate_to) == e.delegators_of(
            delegate_to,
        ) + 1,
        forall|name: Seq<char>| #[trigger]
            e.after_delegate(delegator, delegate_to).vote_count(name) == e.vote_count(name),
{
    let after = e.after_delegate(delegator, delegate_to);
    lemma_after_delegate(e, delegator, delegate_to);
    let t = record_index(e.voters, delegate_to);
    lemma_record_at(e.voters, t);
    assert(after.status_of(delegate_to) == VoterStatus::Registered);
    let t2 = record_index(after.voters, delegate_to);
    lemma_record_at(after.voters, t2);
    assert(after.delegated_weight(delegate_to) == e.delegated_weight(delegate_to) + 1);
}

/// A vote that succeeds adds to the chosen party's tally the voter's own
/// vote and one for each voter who has delegated to the voter, and changes
/// no other tally.
pub proof fn law_weight_conservation(
    e: ElectionState,
    auth: Authorization,
    voter: Address,
    party: Seq<char>,
    now: u64,
)
    requires
        e.inv(),
        e.vote_outcome(auth, voter, party, now) is Ok,
    ensures
        e.after_vote(voter, party).vote_count(party) == e.vote_count(party) + 1 + e.delegators_of(
            voter,
        ),
        forall|other: Seq<char>|
            other != party ==> #[trigger] e.after_vote(voter, party).vote_count(other)
                == e.vote_count(other),
        e.after_vote(voter, party).votes_cast() == e.votes_cast() + 1 + e.delegators_of(voter),
{
    let after = e.after_vote(voter, party);
    lemma_vote_fits(e, voter, party);
    lemma_after_vote(e, voter, party);
    lemma_votes_cast_bounded(e);
    lemma_votes_cast_bounded(after);
    let p = e.parties.index_of(party);
    let tally = (e.tallies[p] + 1 + e.voters[record_index(e.voters, voter)].delegated) as u32;
    lemma_total_update(e.tallies, p, tally, tally_value());
    lemma_vote_count_at(e, p);
}

} // verus!
