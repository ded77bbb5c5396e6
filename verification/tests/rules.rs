use soroban_sdk::Env;
use voting::{Address, Authorization, VoterStatus, VotingContract, VotingError, VotingStats};

fn open_election(parties: &[&str], voters: &[u64]) -> (VotingContract, Address) {
    let admin = Address::new(1_000_000);
    let mut election = VotingContract::new();
    election.initialize(&Authorization::of(admin), admin).unwrap();
    for party in parties {
        election
            .add_party(&Authorization::of(admin), String::from(*party))
            .unwrap();
    }
    for voter in voters {
        election
            .add_voter(&Authorization::of(admin), Address::new(*voter))
            .unwrap();
    }
    (election, admin)
}

fn hand_over(election: &mut VotingContract, from: u64, to: u64) -> Result<(), VotingError> {
    let from = Address::new(from);
    election.delegate(&Env::default(), &Authorization::of(from), from, Address::new(to))
}

fn cast(election: &mut VotingContract, voter: u64, party: &str) -> Result<(), VotingError> {
    let voter = Address::new(voter);
    election.vote(&Authorization::of(voter), voter, &String::from(party), 0)
}

/// A chain `first -> first + 1 -> ... -> first + hops`, built from its end.
fn chain(election: &mut VotingContract, first: u64, hops: u64) {
    for i in 0..hops {
        assert_eq!(hand_over(election, first + i, first + i + 1), Ok(()));
    }
}

#[test]
fn new_election_is_empty() {
    let election = VotingContract::new();
    assert_eq!(election.get_admin(), None);
    assert_eq!(election.get_parties().len(), 0);
    assert_eq!(election.get_voting_deadline(), None);
    assert_eq!(election.get_voter_status(Address::new(5)), VoterStatus::NotRegistered);
    assert_eq!(election.get_vote_count(&String::from("X")), 0);
    assert_eq!(
        election.get_voting_stats(),
        VotingStats { total_votes: 0, total_parties: 0, total_voters: 0 }
    );
    assert_eq!(election.get_all_results(), vec![]);
}

#[test]
fn administrator_acts_need_an_initialized_election() {
    let mut election = VotingContract::new();
    let admin = Address::new(1);
    let auth = Authorization::of(admin);
    assert_eq!(
        election.add_party(&auth, String::from("X")),
        Err(VotingError::NotInitialized)
    );
    assert_eq!(election.add_voter(&auth, Address::new(2)), Err(VotingError::NotInitialized));
    assert_eq!(
        election.set_voting_deadline(&auth, 10, 0),
        Err(VotingError::NotInitialized)
    );
    assert_eq!(election.get_parties().len(), 0);
}

#[test]
fn only_the_proven_identity_may_act() {
    let admin = Address::new(1);
    let stranger = Address::new(2);
    let mut election = VotingContract::new();
    assert_eq!(
        election.initialize(&Authorization::of(stranger), admin),
        Err(VotingError::AuthorizationFailed)
    );
    assert_eq!(election.get_admin(), None);
    election.initialize(&Authorization::of(admin), admin).unwrap();
    let other = Authorization::of(stranger);
    assert_eq!(
        election.add_party(&other, String::from("X")),
        Err(VotingError::AuthorizationFailed)
    );
    assert_eq!(
        election.add_voter(&other, Address::new(3)),
        Err(VotingError::AuthorizationFailed)
    );
    assert_eq!(
        election.set_voting_deadline(&other, 10, 0),
        Err(VotingError::AuthorizationFailed)
    );
    election.add_voter(&Authorization::of(admin), Address::new(3)).unwrap();
    election.add_voter(&Authorization::of(admin), Address::new(4)).unwrap();
    election.add_party(&Authorization::of(admin), String::from("X")).unwrap();
    assert_eq!(
        election.vote(&other, Address::new(3), &String::from("X"), 0),
        Err(VotingError::AuthorizationFailed)
    );
    assert_eq!(
        election.delegate(&Env::default(), &other, Address::new(3), Address::new(4)),
        Err(VotingError::AuthorizationFailed)
    );
    assert_eq!(election.get_voter_status(Address::new(3)), VoterStatus::Registered);
    assert!(Authorization::of(admin).proves(admin));
    assert!(!Authorization::of(admin).proves(stranger));
}

#[test]
fn duplicate_party_leaves_one_party() {
    let (mut election, admin) = open_election(&["X"], &[]);
    assert_eq!(
        election.add_party(&Authorization::of(admin), String::from("X")),
        Err(VotingError::DuplicateParty)
    );
    assert_eq!(election.get_parties(), vec![String::from("X")]);
    assert_eq!(election.get_voting_stats().total_parties, 1);
}

#[test]
fn parties_keep_their_order() {
    let (election, _) = open_election(&["Zeta", "Alpha", "Mid"], &[]);
    assert_eq!(
        election.get_parties(),
        vec![String::from("Zeta"), String::from("Alpha"), String::from("Mid")]
    );
    assert_eq!(
        election.get_all_results(),
        vec![
            (String::from("Zeta"), 0),
            (String::from("Alpha"), 0),
            (String::from("Mid"), 0)
        ]
    );
}

#[test]
fn deadline_must_lie_after_now() {
    let (mut election, admin) = open_election(&[], &[]);
    let auth = Authorization::of(admin);
    assert_eq!(election.set_voting_deadline(&auth, 50, 50), Err(VotingError::InvalidDeadline));
    assert_eq!(election.set_voting_deadline(&auth, 51, 50), Ok(()));
    assert_eq!(election.get_voting_deadline(), Some(51));
    assert_eq!(election.set_voting_deadline(&auth, 70, 60), Ok(()));
    assert_eq!(election.get_voting_deadline(), Some(70));
}

#[test]
fn vote_at_the_deadline_counts() {
    let (mut election, admin) = open_election(&["X"], &[1, 2]);
    election.set_voting_deadline(&Authorization::of(admin), 100, 0).unwrap();
    let one = Address::new(1);
    let two = Address::new(2);
    assert_eq!(election.vote(&Authorization::of(one), one, &String::from("X"), 100), Ok(()));
    assert_eq!(
        election.vote(&Authorization::of(two), two, &String::from("X"), 101),
        Err(VotingError::VotingClosed)
    );
    assert_eq!(election.get_vote_count(&String::from("X")), 1);
}

#[test]
fn closed_voting_comes_before_the_voter_status() {
    let (mut election, admin) = open_election(&["X"], &[]);
    election.set_voting_deadline(&Authorization::of(admin), 10, 0).unwrap();
    let nobody = Address::new(77);
    assert_eq!(
        election.vote(&Authorization::of(nobody), nobody, &String::from("X"), 11),
        Err(VotingError::VotingClosed)
    );
    assert_eq!(
        election.vote(&Authorization::of(nobody), nobody, &String::from("X"), 10),
        Err(VotingError::NotRegistered)
    );
}

#[test]
fn total_votes_is_the_sum_of_the_counts() {
    let (mut election, _) = open_election(&["A", "B", "C"], &[1, 2, 3, 4, 5, 6]);
    hand_over(&mut election, 1, 2).unwrap();
    hand_over(&mut election, 3, 2).unwrap();
    cast(&mut election, 2, "B").unwrap();
    cast(&mut election, 4, "A").unwrap();
    cast(&mut election, 5, "B").unwrap();
    let mut sum = 0;
    for party in election.get_parties() {
        sum += election.get_vote_count(&party);
    }
    let stats = election.get_voting_stats();
    assert_eq!(stats.total_votes, sum);
    assert_eq!(stats, VotingStats { total_votes: 5, total_parties: 3, total_voters: 6 });
    assert_eq!(election.get_vote_count(&String::from("A")), 1);
    assert_eq!(election.get_vote_count(&String::from("B")), 4);
    assert_eq!(election.get_vote_count(&String::from("C")), 0);
}

#[test]
fn terminal_status_stays() {
    let (mut election, admin) = open_election(&["A", "B"], &[1, 2, 3, 4]);
    cast(&mut election, 1, "A").unwrap();
    hand_over(&mut election, 2, 3).unwrap();
    assert_eq!(cast(&mut election, 1, "B"), Err(VotingError::AlreadyVoted));
    assert_eq!(hand_over(&mut election, 1, 4), Err(VotingError::AlreadyVoted));
    assert_eq!(cast(&mut election, 2, "B"), Err(VotingError::AlreadyDelegated));
    assert_eq!(hand_over(&mut election, 2, 4), Err(VotingError::AlreadyDelegated));
    assert_eq!(
        election.add_voter(&Authorization::of(admin), Address::new(1)),
        Err(VotingError::AlreadyRegistered)
    );
    assert_eq!(election.get_voter_status(Address::new(1)), VoterStatus::Voted);
    assert_eq!(
        election.get_voter_status(Address::new(2)),
        VoterStatus::Delegated(Address::new(3))
    );
    assert_eq!(election.get_vote_count(&String::from("A")), 1);
    assert_eq!(election.get_vote_count(&String::from("B")), 0);
    assert_eq!(election.get_delegated_votes(Address::new(4)), 0);
}

#[test]
fn voter_who_voted_and_is_delegated_to_is_refused_as_circular() {
    let (mut election, _) = open_election(&["A"], &[1, 2]);
    hand_over(&mut election, 2, 1).unwrap();
    cast(&mut election, 1, "A").unwrap();
    assert_eq!(hand_over(&mut election, 1, 2), Err(VotingError::CircularDelegation));
    assert_eq!(election.get_voter_status(Address::new(1)), VoterStatus::Voted);
    assert_eq!(election.get_vote_count(&String::from("A")), 2);
}

#[test]
fn delegate_must_be_free_to_vote() {
    let (mut election, _) = open_election(&["A"], &[1, 2, 3, 4]);
    cast(&mut election, 2, "A").unwrap();
    assert_eq!(hand_over(&mut election, 1, 2), Err(VotingError::AlreadyVoted));
    hand_over(&mut election, 3, 4).unwrap();
    assert_eq!(hand_over(&mut election, 1, 3), Err(VotingError::AlreadyDelegated));
    assert_eq!(hand_over(&mut election, 1, 9), Err(VotingError::NotRegistered));
    assert_eq!(election.get_voter_status(Address::new(1)), VoterStatus::Registered);
    assert_eq!(election.get_delegated_votes(Address::new(2)), 0);
    assert_eq!(election.get_delegated_votes(Address::new(3)), 0);
}

#[test]
fn weight_is_not_passed_on() {
    let (mut election, _) = open_election(&["A", "B"], &[1, 2, 3]);
    hand_over(&mut election, 1, 2).unwrap();
    hand_over(&mut election, 2, 3).unwrap();
    assert_eq!(election.get_delegated_votes(Address::new(2)), 1);
    assert_eq!(election.get_delegated_votes(Address::new(3)), 1);
    cast(&mut election, 3, "B").unwrap();
    assert_eq!(election.get_vote_count(&String::from("B")), 2);
    assert_eq!(election.get_vote_count(&String::from("A")), 0);
    assert_eq!(election.get_voting_stats().total_votes, 2);
}

#[test]
fn circle_check_walks_the_chain() {
    let (mut election, _) = open_election(&[], &[1, 2, 3, 4]);
    let one = Address::new(1);
    let four = Address::new(4);
    assert_eq!(election.check_circular_delegation(&Env::default(), one, four), Ok(()));
    chain(&mut election, 1, 2);
    assert_eq!(
        election.check_circular_delegation(&Env::default(), Address::new(3), one),
        Err(VotingError::CircularDelegation)
    );
    assert_eq!(election.check_circular_delegation(&Env::default(), four, one), Ok(()));
    assert_eq!(
        election.check_circular_delegation(&Env::default(), one, one),
        Err(VotingError::CircularDelegation)
    );
}

#[test]
fn chain_of_a_hundred_hops_is_walked() {
    let voters: Vec<u64> = (0..=101).collect();
    let (mut election, _) = open_election(&[], &voters);
    chain(&mut election, 0, 100);
    let last = Address::new(101);
    assert_eq!(election.check_circular_delegation(&Env::default(), last, Address::new(0)), Ok(()));
    assert_eq!(
        hand_over(&mut election, 101, 0),
        Err(VotingError::AlreadyDelegated)
    );
    assert_eq!(
        hand_over(&mut election, 100, 0),
        Err(VotingError::CircularDelegation)
    );
}

#[test]
fn chain_beyond_a_hundred_hops_is_too_long() {
    let voters: Vec<u64> = (0..=102).collect();
    let (mut election, _) = open_election(&[], &voters);
    chain(&mut election, 0, 101);
    assert_eq!(
        hand_over(&mut election, 102, 0),
        Err(VotingError::DelegationChainTooLong)
    );
    assert_eq!(
        hand_over(&mut election, 101, 0),
        Err(VotingError::DelegationChainTooLong)
    );
    assert_eq!(
        hand_over(&mut election, 101, 1),
        Err(VotingError::CircularDelegation)
    );
    assert_eq!(election.get_voter_status(Address::new(102)), VoterStatus::Registered);
    assert_eq!(election.get_delegated_votes(Address::new(0)), 0);
}
