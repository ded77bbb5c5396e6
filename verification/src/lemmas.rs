use crate::model::{
    addresses_of, cast_weight, chain_walk, chains_end, delegates_to, distinct_ids, ends,
    has_delegated, has_finished, has_voted, incoming_weight, is_listed, leads_to, record_index,
    settles, status_in, tally_of, tally_value, weight_bound, weight_in, ElectionState,
    MAX_CHAIN_HOPS,
};
use crate::sums::{
    lemma_total_add, lemma_total_at_most_len, lemma_total_le, lemma_total_nonneg, total,
};
use crate::types::{Address, ChainOutcome, VoterRecord, VoterStatus};
use vstd::prelude::*;

verus! {

/// An identity is among those of `ids` exactly when its number is in `ids`.
pub proof fn lemma_addresses_contain(ids: Seq<u64>, who: Address)
    ensures
        addresses_of(ids).contains(who) == ids.contains(who.id),
{
    if ids.contains(who.id) {
        let i = choose|i: int| 0 <= i < ids.len() && ids[i] == who.id;
        assert(addresses_of(ids)[i] == who);
    }
    if addresses_of(ids).contains(who) {
        let i = choose|i: int| 0 <= i < addresses_of(ids).len() && addresses_of(ids)[i] == who;
        assert(ids[i] == who.id);
    }
}

/// A record is found at its own place.
pub proof fn lemma_record_at(voters: Seq<VoterRecord>, i: int)
    requires
        distinct_ids(voters),
        0 <= i < voters.len(),
    ensures
        is_listed(voters, voters[i].id),
        record_index(voters, voters[i].id) == i,
        status_in(voters, voters[i].id) == voters[i].status,
        weight_in(voters, voters[i].id) == voters[i].delegated,
{
    assert(voters[i].id == voters[i].id);
}

/// Replacing a record by one of the same identity changes what is known of
/// that identity and of no other: the facts for one identity `a`.
pub proof fn lemma_replace_record_at(voters: Seq<VoterRecord>, i: int, rec: VoterRecord, a: Address)
    requires
        distinct_ids(voters),
        0 <= i < voters.len(),
        rec.id == voters[i].id,
    ensures
        is_listed(voters.update(i, rec), a) == is_listed(voters, a),
        is_listed(voters, a) ==> record_index(voters.update(i, rec), a) == record_index(voters, a),
        status_in(voters.update(i, rec), a) == if a == rec.id {
            rec.status
        } else {
            status_in(voters, a)
        },
        weight_in(voters.update(i, rec), a) == if a == rec.id {
            rec.delegated as int
        } else {
            weight_in(voters, a)
        },
{
    let new = voters.update(i, rec);
    if is_listed(voters, a) {
        let j = record_index(voters, a);
        assert(new[j].id == a);
        let k = record_index(new, a);
        assert(voters[k].id == new[k].id);
        assert(voters[j].id == voters[k].id);
        assert(k == j);
        assert(voters[i].id == rec.id);
        if a == rec.id {
            assert(voters[i].id == voters[j].id);
            assert(i == j);
        }
    }
    if is_listed(new, a) {
        let k = record_index(new, a);
        assert(voters[k].id == a);
    }
}

/// Replacing a record by one of the same identity changes what is known of
/// that identity and of no other.
pub proof fn lemma_replace_record(voters: Seq<VoterRecord>, i: int, rec: VoterRecord)
    requires
        distinct_ids(voters),
        0 <= i < voters.len(),
        rec.id == voters[i].id,
    ensures
        distinct_ids(voters.update(i, rec)),
        forall|a: Address| #[trigger] is_listed(voters.update(i, rec), a) == is_listed(voters, a),
        forall|a: Address|
            is_listed(voters, a) ==> #[trigger] record_index(voters.update(i, rec), a)
                == record_index(voters, a),
        forall|a: Address|
            #[trigger] status_in(voters.update(i, rec), a) == if a == rec.id {
                rec.status
            } else {
                status_in(voters, a)
            },
        forall|a: Address|
            #[trigger] weight_in(voters.update(i, rec), a) == if a == rec.id {
                rec.delegated as int
            } else {
                weight_in(voters, a)
            },
{
    let new = voters.update(i, rec);
    assert forall|j: int, k: int|
        0 <= j < new.len() && 0 <= k < new.len() && (#[trigger] new[j]).id == (#[trigger] new[k]).id
        implies j == k by {
        assert(voters[j].id == new[j].id);
        assert(voters[k].id == new[k].id);
    }
    assert forall|a: Address| #[trigger] is_listed(new, a) == is_listed(voters, a) by {
        lemma_replace_record_at(voters, i, rec, a);
    }
    assert forall|a: Address| is_listed(voters, a) implies #[trigger] record_index(new, a)
        == record_index(voters, a) by {
        lemma_replace_record_at(voters, i, rec, a);
    }
    assert forall|a: Address|
        #[trigger] status_in(new, a) == if a == rec.id {
            rec.status
        } else {
            status_in(voters, a)
        } by {
        lemma_replace_record_at(voters, i, rec, a);
    }
    assert forall|a: Address|
        #[trigger] weight_in(new, a) == if a == rec.id {
            rec.delegated as int
        } else {
            weight_in(voters, a)
        } by {
        lemma_replace_record_at(voters, i, rec, a);
    }
}

/// Adding the record of a new identity changes what is known of that
/// identity and of no other: the facts for one identity `a`.
pub proof fn lemma_push_record_at(voters: Seq<VoterRecord>, rec: VoterRecord, a: Address)
    requires
        distinct_ids(voters),
        !is_listed(voters, rec.id),
    ensures
        is_listed(voters.push(rec), a) == (a == rec.id || is_listed(voters, a)),
        status_in(voters.push(rec), a) == if a == rec.id {
            rec.status
        } else {
            status_in(voters, a)
        },
        weight_in(voters.push(rec), a) == if a == rec.id {
            rec.delegated as int
        } else {
            weight_in(voters, a)
        },
{
    let new = voters.push(rec);
    let last = voters.len() as int;
    assert(new[last].id == rec.id);
    if is_listed(voters, a) {
        let j = record_index(voters, a);
        assert(new[j].id == a);
        let k = record_index(new, a);
        if k < voters.len() {
            assert(voters[k].id == new[k].id);
            assert(voters[j].id == voters[k].id);
        }
        assert(k == j);
    }
    if is_listed(new, a) {
        let k = record_index(new, a);
        if k < voters.len() {
            assert(voters[k].id == a);
        } else {
            assert(k == last);
        }
    }
}

/// Adding the record of a new identity changes what is known of that
/// identity and of no other.
pub proof fn lemma_push_record(voters: Seq<VoterRecord>, rec: VoterRecord)
    requires
        distinct_ids(voters),
        !is_listed(voters, rec.id),
    ensures
        distinct_ids(voters.push(rec)),
        forall|a: Address|
            #[trigger] is_listed(voters.push(rec), a) == (a == rec.id || is_listed(voters, a)),
        forall|a: Address|
            #[trigger] status_in(voters.push(rec), a) == if a == rec.id {
                rec.status
            } else {
                status_in(voters, a)
            },
        forall|a: Address|
            #[trigger] weight_in(voters.push(rec), a) == if a == rec.id {
                rec.delegated as int
            } else {
                weight_in(voters, a)
            },
{
    let new = voters.push(rec);
    assert forall|j: int, k: int|
        0 <= j < new.len() && 0 <= k < new.len() && (#[trigger] new[j]).id == (#[trigger] new[k]).id
        implies j == k by {
        if j < voters.len() {
            assert(voters[j].id == new[j].id);
        }
        if k < voters.len() {
            assert(voters[k].id == new[k].id);
        }
    }
    assert forall|a: Address|
        #[trigger] is_listed(new, a) == (a == rec.id || is_listed(voters, a)) by {
        lemma_push_record_at(voters, rec, a);
    }
    assert forall|a: Address|
        #[trigger] status_in(new, a) == if a == rec.id {
            rec.status
        } else {
            status_in(voters, a)
        } by {
        lemma_push_record_at(voters, rec, a);
    }
    assert forall|a: Address|
        #[trigger] weight_in(new, a) == if a == rec.id {
            rec.delegated as int
        } else {
            weight_in(voters, a)
        } by {
        lemma_push_record_at(voters, rec, a);
    }
}

/// A chain that ends still ends where no delegation was added.
pub proof fn lemma_settles_without_new_edges(
    before: Seq<VoterRecord>,
    after: Seq<VoterRecord>,
    a: Address,
    n: nat,
)
    requires
        forall|x: Address|
            (#[trigger] status_in(after, x)) is Delegated ==> status_in(after, x) == status_in(
                before,
                x,
            ),
        settles(before, a, n),
    ensures
        settles(after, a, n),
    decreases n,
{
    match status_in(after, a) {
        VoterStatus::Delegated(next) => {
            lemma_settles_without_new_edges(before, after, next, (n - 1) as nat);
        },
        _ => {},
    }
}

/// All chains still end where no delegation was added.
pub proof fn lemma_chains_end_without_new_edges(before: Seq<VoterRecord>, after: Seq<VoterRecord>)
    requires
        forall|x: Address|
            (#[trigger] status_in(after, x)) is Delegated ==> status_in(after, x) == status_in(
                before,
                x,
            ),
        chains_end(before),
    ensures
        chains_end(after),
{
    assert forall|a: Address| #[trigger] ends(after, a) by {
        assert(ends(before, a));
        let n = choose|n: nat| #[trigger] settles(before, a, n);
        lemma_settles_without_new_edges(before, after, a, n);
    }
}

/// A chain that ends still ends, one hop later at most, after a voter who
/// had not delegated hands their vote to another who has not.
pub proof fn lemma_settles_with_new_edge(
    before: Seq<VoterRecord>,
    after: Seq<VoterRecord>,
    d: Address,
    t: Address,
    a: Address,
    n: nat,
)
    requires
        !(status_in(before, d) is Delegated),
        !(status_in(after, t) is Delegated),
        status_in(after, d) == VoterStatus::Delegated(t),
        forall|x: Address|
            x != d && (#[trigger] status_in(after, x)) is Delegated ==> status_in(after, x)
                == status_in(before, x),
        settles(before, a, n),
    ensures
        settles(after, a, n + 1),
    decreases n,
{
    if a == d {
        assert(settles(after, t, n));
    } else {
        match status_in(after, a) {
            VoterStatus::Delegated(next) => {
                lemma_settles_with_new_edge(before, after, d, t, next, (n - 1) as nat);
            },
            _ => {},
        }
    }
}

/// All chains still end after such a delegation.
pub proof fn lemma_chains_end_with_new_edge(
    before: Seq<VoterRecord>,
    after: Seq<VoterRecord>,
    d: Address,
    t: Address,
)
    requires
        !(status_in(before, d) is Delegated),
        !(status_in(after, t) is Delegated),
        status_in(after, d) == VoterStatus::Delegated(t),
        forall|x: Address|
            x != d && (#[trigger] status_in(after, x)) is Delegated ==> status_in(after, x)
                == status_in(before, x),
        chains_end(before),
    ensures
        chains_end(after),
{
    assert forall|a: Address| #[trigger] ends(after, a) by {
        assert(ends(before, a));
        let n = choose|n: nat| #[trigger] settles(before, a, n);
        lemma_settles_with_new_edge(before, after, d, t, a, n);
        assert(settles(after, a, n + 1));
    }
}

/// The weight that has reached the tallies is at most the number of voters.
pub proof fn lemma_cast_weight_bounded(voters: Seq<VoterRecord>)
    requires
        total(voters, incoming_weight()) == total(voters, has_delegated()),
    ensures
        0 <= total(voters, cast_weight()) <= voters.len(),
{
    lemma_total_nonneg(voters, cast_weight());
    lemma_total_le(voters, cast_weight(), weight_bound());
    lemma_total_add(voters, has_voted(), incoming_weight(), weight_bound());
    lemma_total_add(voters, has_voted(), has_delegated(), has_finished());
    lemma_total_at_most_len(voters, has_finished());
}

/// Nobody has delegated to an identity that no delegation names.
pub proof fn lemma_no_delegators(voters: Seq<VoterRecord>, target: Address)
    requires
        forall|i: int|
            0 <= i < voters.len() ==> (#[trigger] voters[i]).status != VoterStatus::Delegated(
                target,
            ),
    ensures
        total(voters, delegates_to(target)) == 0,
    decreases voters.len(),
{
    if voters.len() > 0 {
        assert(voters.drop_last().len() == voters.len() - 1);
        assert forall|i: int| 0 <= i < voters.drop_last().len() implies (
        #[trigger] voters.drop_last()[i]).status != VoterStatus::Delegated(target) by {
            assert(voters.drop_last()[i] == voters[i]);
        }
        lemma_no_delegators(voters.drop_last(), target);
    }
}

/// The sum over the first `k` items is at most the sum over all, where no
/// term is negative.
pub proof fn lemma_total_prefix<T>(s: Seq<T>, f: spec_fn(T) -> int, k: int)
    requires
        forall|j: int| 0 <= j < s.len() ==> f(#[trigger] s[j]) >= 0,
        0 <= k <= s.len(),
    ensures
        0 <= total(s.take(k), f) <= total(s, f),
    decreases s.len(),
{
    if k == s.len() {
        assert(s.take(k) =~= s);
        lemma_total_nonneg(s, f);
    } else {
        assert(s.drop_last().take(k) =~= s.take(k));
        lemma_total_prefix(s.drop_last(), f, k);
    }
}

/// The sum over one item more is the sum so far and that item's term.
pub proof fn lemma_total_take_next<T>(s: Seq<T>, f: spec_fn(T) -> int, k: int)
    requires
        0 <= k < s.len(),
    ensures
        total(s.take(k + 1), f) == total(s.take(k), f) + f(s[k]),
{
    assert(s.take(k + 1).drop_last() =~= s.take(k));
}

/// A party's tally is the tally at the party's place.
pub proof fn lemma_vote_count_at(e: ElectionState, i: int)
    requires
        e.parties.no_duplicates(),
        e.tallies.len() == e.parties.len(),
        0 <= i < e.parties.len(),
    ensures
        e.parties.contains(e.parties[i]),
        e.parties.index_of(e.parties[i]) == i,
        e.vote_count(e.parties[i]) == e.tallies[i],
{
    assert(e.parties[i] == e.parties[i]);
}

/// The sum of the parties' tallies, party by party, is the sum of the tallies.
pub proof fn lemma_votes_cast(e: ElectionState, k: int)
    requires
        e.parties.no_duplicates(),
        e.tallies.len() == e.parties.len(),
        0 <= k <= e.parties.len(),
    ensures
        total(e.parties.take(k), tally_of(e)) == total(e.tallies.take(k), tally_value()),
    decreases k,
{
    let f = tally_of(e);
    if k > 0 {
        lemma_votes_cast(e, k - 1);
        lemma_total_take_next(e.parties, f, k - 1);
        lemma_total_take_next(e.tallies, tally_value(), k - 1);
        lemma_vote_count_at(e, k - 1);
    }
}

/// A walk from an identity that leads to the delegator finds the circle,
/// as long as the bound on hops lets it arrive.
pub proof fn lemma_walk_finds_circle(
    voters: Seq<VoterRecord>,
    delegator: Address,
    current: Address,
    visited: Seq<Address>,
    hops: nat,
)
    requires
        leads_to(voters, current, delegator, hops),
        visited.len() + hops <= MAX_CHAIN_HOPS,
    ensures
        chain_walk(voters, delegator, current, visited) == ChainOutcome::Circular,
    decreases hops,
{
    if !(visited.contains(current) || current == delegator) {
        match status_in(voters, current) {
            VoterStatus::Delegated(next) => {
                lemma_walk_finds_circle(
                    voters,
                    delegator,
                    next,
                    visited.push(current),
                    (hops - 1) as nat,
                );
            },
            _ => {},
        }
    }
}

/// A chain that ends within `fuel` hops and leads to `to` in `hops` hops
/// ends, from `to` on, within the hops that are left.
pub proof fn lemma_settles_along(
    voters: Seq<VoterRecord>,
    from: Address,
    to: Address,
    hops: nat,
    fuel: nat,
)
    requires
        leads_to(voters, from, to, hops),
        settles(voters, from, fuel),
    ensures
        hops <= fuel || !(status_in(voters, to) is Delegated),
        hops <= fuel ==> settles(voters, to, (fuel - hops) as nat),
    decreases hops,
{
    if hops > 0 {
        match status_in(voters, from) {
            VoterStatus::Delegated(next) => {
                lemma_settles_along(voters, next, to, (hops - 1) as nat, (fuel - 1) as nat);
            },
            _ => {},
        }
    }
}

/// A chain that comes back to its start never ends.
pub proof fn lemma_circle_never_settles(voters: Seq<VoterRecord>, a: Address, hops: nat, fuel: nat)
    requires
        hops >= 1,
        leads_to(voters, a, a, hops),
    ensures
        !settles(voters, a, fuel),
    decreases fuel,
{
    if settles(voters, a, fuel) {
        lemma_settles_along(voters, a, a, hops, fuel);
        assert(status_in(voters, a) is Delegated);
        lemma_circle_never_settles(voters, a, hops, (fuel - hops) as nat);
    }
}

} // verus!
