use crate::lemmas::{
    lemma_cast_weight_bounded, lemma_chains_end_with_new_edge,
    lemma_chains_end_without_new_edges, lemma_no_delegators, lemma_push_record,
    lemma_record_at, lemma_replace_record, lemma_vote_count_at, lemma_votes_cast,
};
use crate::model::{
    cast_weight, delegates_to, ends, has_delegated, incoming_weight, is_listed, record_index,
    settles, tally_value, ElectionState,
};
use crate::sums::{
    lemma_total_at_most_len, lemma_total_bounds_term, lemma_total_push, lemma_total_update, total,
};
use crate::types::{Address, VoterRecord, VoterStatus};
use vstd::prelude::*;

verus! {

/// The election that nothing has happened to is in order.
pub proof fn lemma_empty_inv()
    ensures
        ElectionState::empty().inv(),
{
    let e = ElectionState::empty();
    assert forall|a: Address| #[trigger] ends(e.voters, a) by {
        assert(settles(e.voters, a, 0));
    }
}

/// In an election that is in order, the tallies sum to the weight that was
/// cast, which is at most the number of voters.
pub proof fn lemma_votes_cast_bounded(e: ElectionState)
    requires
        e.inv(),
    ensures
        e.votes_cast() == total(e.tallies, tally_value()),
        0 <= e.votes_cast() <= e.total_voters,
{
    lemma_votes_cast(e, e.parties.len() as int);
    assert(e.parties.take(e.parties.len() as int) =~= e.parties);
    assert(e.tallies.take(e.tallies.len() as int) =~= e.tallies);
    lemma_cast_weight_bounded(e.voters);
}

/// The weight delegated to an identity is the number of voters who have
/// delegated to it.
pub proof fn lemma_weight_counts_delegators(e: ElectionState, who: Address)
    requires
        e.inv(),
    ensures
        e.delegated_weight(who) == e.delegators_of(who),
{
    if is_listed(e.voters, who) {
        lemma_record_at(e.voters, record_index(e.voters, who));
    } else {
        assert forall|i: int| 0 <= i < e.voters.len() implies (#[trigger] e.voters[i]).status
            != VoterStatus::Delegated(who) by {
            if e.voters[i].status is Delegated {
                assert(is_listed(e.voters, e.voters[i].status->Delegated_0));
            }
        }
        lemma_no_delegators(e.voters, who);
    }
}

/// Adding a new party keeps the election in order, gives the party a tally of
/// zero and leaves the other tallies, and all voters, as they were.
pub proof fn lemma_with_party(e: ElectionState, name: Seq<char>)
    requires
        e.inv(),
        e.admin is Some,
        !e.has_party(name),
        e.parties.len() < u32::MAX,
    ensures
        e.with_party(name).inv(),
        e.with_party(name).vote_count(name) == 0,
        forall|other: Seq<char>| #[trigger]
            e.with_party(name).vote_count(other) == e.vote_count(other),
        forall|other: Seq<char>| #[trigger]
            e.with_party(name).has_party(other) == (other == name || e.has_party(other)),
{
    let n = e.with_party(name);
    lemma_total_push(e.tallies, 0u32, tally_value());
    assert forall|other: Seq<char>| #[trigger]
        n.has_party(other) == (other == name || e.has_party(other)) by {
        if e.parties.contains(other) {
            let i = e.parties.index_of(other);
            assert(n.parties[i] == other);
        }
        assert(n.parties[e.parties.len() as int] == name);
    }
    assert(n.parties.no_duplicates());
    assert forall|other: Seq<char>| #[trigger] n.vote_count(other) == e.vote_count(other) by {
        assert(n.has_party(other) == (other == name || e.has_party(other)));
        if n.parties.contains(other) {
            let i = n.parties.index_of(other);
            lemma_vote_count_at(n, i);
            if i < e.parties.len() {
                assert(e.parties[i] == other);
                lemma_vote_count_at(e, i);
            } else {
                assert(other == name);
            }
        }
    }
}

/// Registering a new voter keeps the election in order and changes the
/// status of that voter alone.
pub proof fn lemma_with_voter(e: ElectionState, voter: Address)
    requires
        e.inv(),
        e.admin is Some,
        e.status_of(voter) == VoterStatus::NotRegistered,
        e.total_voters < u32::MAX,
    ensures
        e.with_voter(voter).inv(),
        e.with_voter(voter).total_voters == e.total_voters + 1,
        forall|a: Address| #[trigger]
            e.with_voter(voter).status_of(a) == if a == voter {
                VoterStatus::Registered
            } else {
                e.status_of(a)
            },
        forall|a: Address| #[trigger]
            e.with_voter(voter).delegated_weight(a) == e.delegated_weight(a),
{
    let rec = VoterRecord { id: voter, status: VoterStatus::Registered, delegated: 0 };
    let n = e.with_voter(voter);
    if is_listed(e.voters, voter) {
        let i = record_index(e.voters, voter);
        assert(e.voters[i].status != VoterStatus::NotRegistered);
    }
    lemma_push_record(e.voters, rec);
    lemma_total_push(e.voters, rec, cast_weight());
    lemma_total_push(e.voters, rec, incoming_weight());
    lemma_total_push(e.voters, rec, has_delegated());
    assert forall|i: int| 0 <= i < e.voters.len() implies (#[trigger] e.voters[i]).status
        != VoterStatus::Delegated(voter) by {
        if e.voters[i].status is Delegated {
            assert(is_listed(e.voters, e.voters[i].status->Delegated_0));
        }
    }
    lemma_no_delegators(e.voters, voter);
    assert forall|i: int| 0 <= i < n.voters.len() implies (#[trigger] n.voters[i]).delegated
        == n.delegators_of(n.voters[i].id) by {
        lemma_total_push(e.voters, rec, delegates_to(n.voters[i].id));
        if i < e.voters.len() {
            assert(n.voters[i] == e.voters[i]);
        }
    }
    assert forall|i: int| 0 <= i < n.voters.len() && (#[trigger] n.voters[i]).status is Delegated
        implies is_listed(n.voters, n.voters[i].status->Delegated_0) by {
        assert(n.voters[i] == e.voters[i]);
        assert(is_listed(e.voters, e.voters[i].status->Delegated_0));
    }
    assert forall|i: int| 0 <= i < n.voters.len() implies (#[trigger] n.voters[i]).status
        != VoterStatus::NotRegistered by {
        if i < e.voters.len() {
            assert(n.voters[i] == e.voters[i]);
        }
    }
    lemma_chains_end_without_new_edges(e.voters, n.voters);
}

/// What a vote adds to a tally fits the tally.
pub proof fn lemma_vote_fits(e: ElectionState, voter: Address, party: Seq<char>)
    requires
        e.inv(),
        e.status_of(voter) == VoterStatus::Registered,
        e.has_party(party),
    ensures
        e.vote_count(party) + 1 + e.delegated_weight(voter) <= e.total_voters,
        e.delegated_weight(voter) == e.delegators_of(voter),
        0 <= e.delegated_weight(voter),
{
    let p = e.parties.index_of(party);
    let v = record_index(e.voters, voter);
    lemma_record_at(e.voters, v);
    let rec = VoterRecord { status: VoterStatus::Voted, ..e.voters[v] };
    let after = e.voters.update(v, rec);
    lemma_total_update(e.voters, v, rec, cast_weight());
    lemma_total_update(e.voters, v, rec, incoming_weight());
    lemma_total_update(e.voters, v, rec, has_delegated());
    lemma_cast_weight_bounded(after);
    lemma_total_bounds_term(e.tallies, tally_value(), p);
}

/// A vote keeps the election in order, adds the voter's own vote and the
/// weight delegated to the voter to the chosen party's tally, leaves every
/// other tally as it was, and changes the status of the voter alone.
pub proof fn lemma_after_vote(e: ElectionState, voter: Address, party: Seq<char>)
    requires
        e.inv(),
        e.status_of(voter) == VoterStatus::Registered,
        e.has_party(party),
    ensures
        e.after_vote(voter, party).inv(),
        e.after_vote(voter, party).vote_count(party) == e.vote_count(party) + 1
            + e.delegated_weight(voter),
        forall|other: Seq<char>|
            other != party ==> #[trigger] e.after_vote(voter, party).vote_count(other)
                == e.vote_count(other),
        forall|a: Address| #[trigger]
            e.after_vote(voter, party).status_of(a) == if a == voter {
                VoterStatus::Voted
            } else {
                e.status_of(a)
            },
        forall|a: Address| #[trigger]
            e.after_vote(voter, party).delegated_weight(a) == e.delegated_weight(a),
{
    let n = e.after_vote(voter, party);
    let p = e.parties.index_of(party);
    let v = record_index(e.voters, voter);
    lemma_vote_fits(e, voter, party);
    lemma_record_at(e.voters, v);
    let rec = VoterRecord { status: VoterStatus::Voted, ..e.voters[v] };
    let tally = (e.tallies[p] + 1 + e.voters[v].delegated) as u32;
    lemma_replace_record(e.voters, v, rec);
    lemma_total_update(e.voters, v, rec, cast_weight());
    lemma_total_update(e.voters, v, rec, incoming_weight());
    lemma_total_update(e.voters, v, rec, has_delegated());
    lemma_total_update(e.tallies, p, tally, tally_value());
    assert forall|i: int| 0 <= i < n.voters.len() implies (#[trigger] n.voters[i]).delegated
        == n.delegators_of(n.voters[i].id) by {
        lemma_total_update(e.voters, v, rec, delegates_to(n.voters[i].id));
        assert(e.voters[i].delegated == e.delegators_of(e.voters[i].id));
    }
    assert forall|i: int| 0 <= i < n.voters.len() && (#[trigger] n.voters[i]).status is Delegated
        implies is_listed(n.voters, n.voters[i].status->Delegated_0) by {
        assert(n.voters[i] == e.voters[i]);
        assert(is_listed(e.voters, e.voters[i].status->Delegated_0));
    }
    assert forall|i: int| 0 <= i < n.voters.len() implies (#[trigger] n.voters[i]).status
        != VoterStatus::NotRegistered by {
        if i != v {
            assert(n.voters[i] == e.voters[i]);
        }
    }
    lemma_chains_end_without_new_edges(e.voters, n.voters);
    lemma_vote_count_at(e, p);
    lemma_vote_count_at(n, p);
    assert forall|other: Seq<char>| other != party implies #[trigger] n.vote_count(other)
        == e.vote_count(other) by {
        if e.parties.contains(other) {
            let i = e.parties.index_of(other);
            lemma_vote_count_at(e, i);
            lemma_vote_count_at(n, i);
        }
    }
}

/// One more unit of delegated weight fits the counter of a delegate.
pub proof fn lemma_delegation_fits(e: ElectionState, delegator: Address, delegate_to: Address)
    requires
        e.inv(),
        e.status_of(delegator) == VoterStatus::Registered,
        e.status_of(delegate_to) == VoterStatus::Registered,
    ensures
        0 <= e.delegated_weight(delegate_to) < e.total_voters,
{
    let d = record_index(e.voters, delegator);
    let t = record_index(e.voters, delegate_to);
    lemma_record_at(e.voters, d);
    lemma_record_at(e.voters, t);
    let rec = VoterRecord { status: VoterStatus::Delegated(delegate_to), ..e.voters[d] };
    let after = e.voters.update(d, rec);
    lemma_total_update(e.voters, d, rec, has_delegated());
    lemma_total_at_most_len(after, has_delegated());
    lemma_total_bounds_term(e.voters, incoming_weight(), t);
}

/// A delegation keeps the election in order, adds one unit to the weight
/// delegated to the delegate, changes the status of the delegator alone, and
/// leaves every tally as it was.
pub proof fn lemma_after_delegate(e: ElectionState, delegator: Address, delegate_to: Address)
    requires
        e.inv(),
        delegator != delegate_to,
        e.status_of(delegator) == VoterStatus::Registered,
        e.status_of(delegate_to) == VoterStatus::Registered,
    ensures
        e.after_delegate(delegator, delegate_to).inv(),
        forall|a: Address| #[trigger]
            e.after_delegate(delegator, delegate_to).status_of(a) == if a == delegator {
                VoterStatus::Delegated(delegate_to)
            } else {
                e.status_of(a)
            },
        forall|a: Address| #[trigger]
            e.after_delegate(delegator, delegate_to).delegated_weight(a) == if a == delegate_to {
                e.delegated_weight(a) + 1
            } else {
                e.delegated_weight(a)
            },
        forall|name: Seq<char>| #[trigger]
            e.after_delegate(delegator, delegate_to).vote_count(name) == e.vote_count(name),
{
    let n = e.after_delegate(delegator, delegate_to);
    let d = record_index(e.voters, delegator);
    let t = record_index(e.voters, delegate_to);
    lemma_delegation_fits(e, delegator, delegate_to);
    lemma_record_at(e.voters, d);
    lemma_record_at(e.voters, t);
    let rec_t = VoterRecord { delegated: (e.voters[t].delegated + 1) as u32, ..e.voters[t] };
    let rec_d = VoterRecord { status: VoterStatus::Delegated(delegate_to), ..e.voters[d] };
    let mid = e.voters.update(t, rec_t);
    lemma_replace_record(e.voters, t, rec_t);
    lemma_replace_record(mid, d, rec_d);
    lemma_total_update(e.voters, t, rec_t, cast_weight());
    lemma_total_update(mid, d, rec_d, cast_weight());
    lemma_total_update(e.voters, t, rec_t, incoming_weight());
    lemma_total_update(mid, d, rec_d, incoming_weight());
    lemma_total_update(e.voters, t, rec_t, has_delegated());
    lemma_total_update(mid, d, rec_d, has_delegated());
    assert forall|i: int| 0 <= i < n.voters.len() implies (#[trigger] n.voters[i]).delegated
        == n.delegators_of(n.voters[i].id) by {
        let x = n.voters[i].id;
        lemma_total_update(e.voters, t, rec_t, delegates_to(x));
        lemma_total_update(mid, d, rec_d, delegates_to(x));
        assert(e.voters[i].delegated == e.delegators_of(e.voters[i].id));
        assert(e.voters[i].id == x);
        if x == delegate_to {
            assert(e.voters[i].id == e.voters[t].id);
            assert(i == t);
        } else {
            assert(i != t);
        }
    }
    assert forall|i: int| 0 <= i < n.voters.len() && (#[trigger] n.voters[i]).status is Delegated
        implies is_listed(n.voters, n.voters[i].status->Delegated_0) by {
        if i == d {
            assert(is_listed(e.voters, delegate_to));
        } else {
            assert(n.voters[i].status == e.voters[i].status);
            assert(is_listed(e.voters, e.voters[i].status->Delegated_0));
        }
    }
    assert forall|i: int| 0 <= i < n.voters.len() implies (#[trigger] n.voters[i]).status
        != VoterStatus::NotRegistered by {
        assert(n.voters[i].status == e.voters[i].status || i == d);
    }
    lemma_chains_end_with_new_edge(e.voters, n.voters, delegator, delegate_to);
}

} // verus!
