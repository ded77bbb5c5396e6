use soroban_sdk::Env;
use voting::{Address, Authorization, VoterStatus, VotingContract, VotingError, VotingStats};

fn create_test_env() -> (VotingContract, Address, Address, Address, Address) {
    let contract = VotingContract::new();
    let admin = Address::new(1);
    let voter1 = Address::new(11);
    let voter2 = Address::new(12);
    let voter3 = Address::new(13);
    (contract, admin, voter1, voter2, voter3)
}

fn auth(who: Address) -> Authorization {
    Authorization::of(who)
}

fn name(text: &str) -> String {
    String::from(text)
}

fn count_of(results: &[(String, u32)], party: &str) -> Option<u32> {
    results.iter().find(|entry| entry.0 == party).map(|entry| entry.1)
}

#[test]
fn test_initialize() {
    let (mut client, admin, _, _, _) = create_test_env();
    assert_eq!(client.initialize(&auth(admin), admin), Ok(()));

    let parties = client.get_parties();
    assert_eq!(parties.len(), 0);
    assert_eq!(client.get_admin(), Some(admin));
}

#[test]
fn test_initialize_twice() {
    let (mut client, admin, _, _, _) = create_test_env();
    assert_eq!(client.initialize(&auth(admin), admin), Ok(()));
    assert_eq!(
        client.initialize(&auth(admin), admin),
        Err(VotingError::AlreadyInitialized)
    );
    assert_eq!(client.get_admin(), Some(admin));
}

#[test]
fn test_add_party() {
    let (mut client, admin, _, _, _) = create_test_env();
    client.initialize(&auth(admin), admin).unwrap();

    let party_a = name("PartyA");
    let party_b = name("PartyB");

    assert_eq!(client.add_party(&auth(admin), party_a.clone()), Ok(()));
    assert_eq!(client.add_party(&auth(admin), party_b.clone()), Ok(()));

    let parties = client.get_parties();
    assert_eq!(parties.len(), 2);
    assert!(parties.contains(&party_a));
    assert!(parties.contains(&party_b));
    assert_eq!(parties, vec![name("PartyA"), name("PartyB")]);

    assert_eq!(client.get_vote_count(&party_a), 0);
    assert_eq!(client.get_vote_count(&party_b), 0);
}

#[test]
fn test_add_duplicate_party() {
    let (mut client, admin, _, _, _) = create_test_env();
    client.initialize(&auth(admin), admin).unwrap();

    let party_a = name("PartyA");
    assert_eq!(client.add_party(&auth(admin), party_a.clone()), Ok(()));
    assert_eq!(
        client.add_party(&auth(admin), party_a),
        Err(VotingError::DuplicateParty)
    );
}

#[test]
fn test_add_voter() {
    let (mut client, admin, voter1, voter2, _) = create_test_env();
    client.initialize(&auth(admin), admin).unwrap();
    assert_eq!(client.add_voter(&auth(admin), voter1), Ok(()));
    assert_eq!(client.add_voter(&auth(admin), voter2), Ok(()));

    assert_eq!(client.get_voter_status(voter1), VoterStatus::Registered);
    assert_eq!(client.get_voter_status(voter2), VoterStatus::Registered);
}

#[test]
fn test_add_duplicate_voter() {
    let (mut client, admin, voter1, _, _) = create_test_env();
    client.initialize(&auth(admin), admin).unwrap();
    assert_eq!(client.add_voter(&auth(admin), voter1), Ok(()));
    assert_eq!(
        client.add_voter(&auth(admin), voter1),
        Err(VotingError::AlreadyRegistered)
    );
    assert_eq!(client.get_voting_stats().total_voters, 1);
}

#[test]
fn test_voting() {
    let (mut client, admin, voter1, voter2, _) = create_test_env();
    client.initialize(&auth(admin), admin).unwrap();

    let party_a = name("PartyA");
    let party_b = name("PartyB");

    client.add_party(&auth(admin), party_a.clone()).unwrap();
    client.add_party(&auth(admin), party_b.clone()).unwrap();
    client.add_voter(&auth(admin), voter1).unwrap();
    client.add_voter(&auth(admin), voter2).unwrap();

    assert_eq!(client.vote(&auth(voter1), voter1, &party_a, 0), Ok(()));
    assert_eq!(client.vote(&auth(voter2), voter2, &party_b, 0), Ok(()));

    assert_eq!(client.get_vote_count(&party_a), 1);
    assert_eq!(client.get_vote_count(&party_b), 1);
    assert_eq!(client.get_voter_status(voter1), VoterStatus::Voted);
    assert_eq!(client.get_voter_status(voter2), VoterStatus::Voted);
    assert_eq!(
        client.get_voting_stats(),
        VotingStats { total_votes: 2, total_parties: 2, total_voters: 2 }
    );
}

#[test]
fn test_unregistered_voter_cannot_vote() {
    let (mut client, admin, voter1, _, _) = create_test_env();
    client.initialize(&auth(admin), admin).unwrap();

    let party_a = name("PartyA");
    client.add_party(&auth(admin), party_a.clone()).unwrap();

    assert_eq!(
        client.vote(&auth(voter1), voter1, &party_a, 0),
        Err(VotingError::NotRegistered)
    );
    assert_eq!(client.get_vote_count(&party_a), 0);
}

#[test]
fn test_vote_for_nonexistent_party() {
    let (mut client, admin, voter1, _, _) = create_test_env();
    client.initialize(&auth(admin), admin).unwrap();
    client.add_voter(&auth(admin), voter1).unwrap();

    let nonexistent_party = name("NoParty");
    assert_eq!(
        client.vote(&auth(voter1), voter1, &nonexistent_party, 0),
        Err(VotingError::UnknownParty)
    );
    assert_eq!(client.get_voter_status(voter1), VoterStatus::Registered);
}

#[test]
fn test_double_voting() {
    let (mut client, admin, voter1, _, _) = create_test_env();
    client.initialize(&auth(admin), admin).unwrap();

    let party_a = name("PartyA");
    let party_b = name("PartyB");

    client.add_party(&auth(admin), party_a.clone()).unwrap();
    client.add_party(&auth(admin), party_b.clone()).unwrap();
    client.add_voter(&auth(admin), voter1).unwrap();

    assert_eq!(client.vote(&auth(voter1), voter1, &party_a, 0), Ok(()));
    assert_eq!(
        client.vote(&auth(voter1), voter1, &party_b, 0),
        Err(VotingError::AlreadyVoted)
    );
    assert_eq!(client.get_vote_count(&party_a), 1);
    assert_eq!(client.get_vote_count(&party_b), 0);
}

#[test]
fn test_delegation() {
    let (mut client, admin, voter1, voter2, voter3) = create_test_env();
    client.initialize(&auth(admin), admin).unwrap();

    let party_a = name("PartyA");
    client.add_party(&auth(admin), party_a.clone()).unwrap();
    client.add_voter(&auth(admin), voter1).unwrap();
    client.add_voter(&auth(admin), voter2).unwrap();
    client.add_voter(&auth(admin), voter3).unwrap();

    assert_eq!(client.delegate(&Env::default(), &auth(voter1), voter1, voter2), Ok(()));
    assert_eq!(client.delegate(&Env::default(), &auth(voter3), voter3, voter2), Ok(()));
    assert_eq!(client.get_delegated_votes(voter2), 2);
    assert_eq!(client.vote(&auth(voter2), voter2, &party_a, 0), Ok(()));

    assert_eq!(client.get_vote_count(&party_a), 3);
    assert_eq!(client.get_voter_status(voter1), VoterStatus::Delegated(voter2));
    assert_eq!(client.get_voter_status(voter2), VoterStatus::Voted);
    assert_eq!(client.get_voter_status(voter3), VoterStatus::Delegated(voter2));
}

#[test]
fn test_self_delegation() {
    let (mut client, admin, voter1, _, _) = create_test_env();
    client.initialize(&auth(admin), admin).unwrap();
    client.add_voter(&auth(admin), voter1).unwrap();

    assert_eq!(
        client.delegate(&Env::default(), &auth(voter1), voter1, voter1),
        Err(VotingError::SelfDelegation)
    );
    assert_eq!(client.get_voter_status(voter1), VoterStatus::Registered);
}

#[test]
fn test_unregistered_delegator() {
    let (mut client, admin, voter1, voter2, _) = create_test_env();
    client.initialize(&auth(admin), admin).unwrap();
    client.add_voter(&auth(admin), voter2).unwrap();

    assert_eq!(
        client.delegate(&Env::default(), &auth(voter1), voter1, voter2),
        Err(VotingError::NotRegistered)
    );
    assert_eq!(client.get_delegated_votes(voter2), 0);
}

#[test]
fn test_delegate_to_unregistered() {
    let (mut client, admin, voter1, voter2, _) = create_test_env();
    client.initialize(&auth(admin), admin).unwrap();
    client.add_voter(&auth(admin), voter1).unwrap();

    assert_eq!(
        client.delegate(&Env::default(), &auth(voter1), voter1, voter2),
        Err(VotingError::NotRegistered)
    );
    assert_eq!(client.get_voter_status(voter1), VoterStatus::Registered);
}

#[test]
fn test_delegated_voter_cannot_vote() {
    let (mut client, admin, voter1, voter2, _) = create_test_env();
    client.initialize(&auth(admin), admin).unwrap();

    let party_a = name("PartyA");
    client.add_party(&auth(admin), party_a.clone()).unwrap();
    client.add_voter(&auth(admin), voter1).unwrap();
    client.add_voter(&auth(admin), voter2).unwrap();

    assert_eq!(client.delegate(&Env::default(), &auth(voter1), voter1, voter2), Ok(()));
    assert_eq!(
        client.vote(&auth(voter1), voter1, &party_a, 0),
        Err(VotingError::AlreadyDelegated)
    );
    assert_eq!(client.get_vote_count(&party_a), 0);
}

#[test]
fn test_voting_stats() {
    let (mut client, admin, voter1, voter2, voter3) = create_test_env();
    client.initialize(&auth(admin), admin).unwrap();

    let party_a = name("PartyA");
    let party_b = name("PartyB");

    client.add_party(&auth(admin), party_a.clone()).unwrap();
    client.add_party(&auth(admin), party_b.clone()).unwrap();
    client.add_voter(&auth(admin), voter1).unwrap();
    client.add_voter(&auth(admin), voter2).unwrap();
    client.add_voter(&auth(admin), voter3).unwrap();

    client.vote(&auth(voter1), voter1, &party_a, 0).unwrap();
    client.vote(&auth(voter2), voter2, &party_a, 0).unwrap();
    client.vote(&auth(voter3), voter3, &party_b, 0).unwrap();

    let stats = client.get_voting_stats();
    assert_eq!(stats.total_votes, 3);
    assert_eq!(stats.total_parties, 2);
    assert_eq!(stats.total_voters, 3);
}

#[test]
fn test_get_all_results() {
    let (mut client, admin, voter1, voter2, voter3) = create_test_env();
    client.initialize(&auth(admin), admin).unwrap();

    let party_a = name("PartyA");
    let party_b = name("PartyB");
    let party_c = name("PartyC");

    client.add_party(&auth(admin), party_a.clone()).unwrap();
    client.add_party(&auth(admin), party_b.clone()).unwrap();
    client.add_party(&auth(admin), party_c.clone()).unwrap();
    client.add_voter(&auth(admin), voter1).unwrap();
    client.add_voter(&auth(admin), voter2).unwrap();
    client.add_voter(&auth(admin), voter3).unwrap();

    client.vote(&auth(voter1), voter1, &party_a, 0).unwrap();
    client.vote(&auth(voter2), voter2, &party_a, 0).unwrap();
    client.vote(&auth(voter3), voter3, &party_b, 0).unwrap();

    let results = client.get_all_results();
    assert_eq!(count_of(&results, "PartyA").unwrap(), 2);
    assert_eq!(count_of(&results, "PartyB").unwrap(), 1);
    assert_eq!(count_of(&results, "PartyC").unwrap(), 0);
    assert_eq!(
        results,
        vec![(name("PartyA"), 2), (name("PartyB"), 1), (name("PartyC"), 0)]
    );
}

#[test]
fn test_voting_deadline() {
    let (mut client, admin, voter1, _, _) = create_test_env();
    client.initialize(&auth(admin), admin).unwrap();

    let party_a = name("PartyA");
    client.add_party(&auth(admin), party_a.clone()).unwrap();
    client.add_voter(&auth(admin), voter1).unwrap();

    let now: u64 = 0;
    let future_deadline = now + 1000;
    assert_eq!(client.get_voting_deadline(), None);
    assert_eq!(
        client.set_voting_deadline(&auth(admin), future_deadline, now),
        Ok(())
    );

    assert_eq!(client.get_voting_deadline(), Some(future_deadline));

    assert_eq!(client.vote(&auth(voter1), voter1, &party_a, now), Ok(()));
    assert_eq!(client.get_vote_count(&party_a), 1);
}

#[test]
fn test_past_deadline() {
    let (mut client, admin, _, _, _) = create_test_env();
    client.initialize(&auth(admin), admin).unwrap();

    let now: u64 = 0;
    let past_deadline = now.saturating_sub(1);
    assert_eq!(
        client.set_voting_deadline(&auth(admin), past_deadline, now),
        Err(VotingError::InvalidDeadline)
    );
    assert_eq!(client.get_voting_deadline(), None);
}

#[test]
fn test_voting_after_deadline() {
    let (mut client, admin, voter1, _, _) = create_test_env();
    client.initialize(&auth(admin), admin).unwrap();

    let party_a = name("PartyA");
    client.add_party(&auth(admin), party_a.clone()).unwrap();
    client.add_voter(&auth(admin), voter1).unwrap();

    let now: u64 = 0;
    let deadline = now + 100;
    client.set_voting_deadline(&auth(admin), deadline, now).unwrap();

    assert_eq!(
        client.vote(&auth(voter1), voter1, &party_a, deadline + 1),
        Err(VotingError::VotingClosed)
    );
    assert_eq!(client.get_voter_status(voter1), VoterStatus::Registered);
    assert_eq!(client.get_vote_count(&party_a), 0);
}

#[test]
fn test_circular_delegation() {
    let (mut client, admin, voter1, voter2, voter3) = create_test_env();
    client.initialize(&auth(admin), admin).unwrap();
    client.add_voter(&auth(admin), voter1).unwrap();
    client.add_voter(&auth(admin), voter2).unwrap();
    client.add_voter(&auth(admin), voter3).unwrap();

    assert_eq!(client.delegate(&Env::default(), &auth(voter1), voter1, voter2), Ok(()));
    assert_eq!(client.delegate(&Env::default(), &auth(voter2), voter2, voter3), Ok(()));
    assert_eq!(
        client.delegate(&Env::default(), &auth(voter3), voter3, voter1),
        Err(VotingError::CircularDelegation)
    );
    assert_eq!(client.get_voter_status(voter1), VoterStatus::Delegated(voter2));
    assert_eq!(client.get_voter_status(voter2), VoterStatus::Delegated(voter3));
    assert_eq!(client.get_voter_status(voter3), VoterStatus::Registered);
    assert_eq!(client.get_delegated_votes(voter1), 0);
    assert_eq!(client.get_delegated_votes(voter2), 1);
    assert_eq!(client.get_delegated_votes(voter3), 1);
}

#[test]
fn test_total_voters_count() {
    let (mut client, admin, voter1, voter2, voter3) = create_test_env();
    client.initialize(&auth(admin), admin).unwrap();

    let stats_initial = client.get_voting_stats();
    assert_eq!(stats_initial.total_voters, 0);

    client.add_voter(&auth(admin), voter1).unwrap();
    let stats_one = client.get_voting_stats();
    assert_eq!(stats_one.total_voters, 1);

    client.add_voter(&auth(admin), voter2).unwrap();
    client.add_voter(&auth(admin), voter3).unwrap();
    let stats_three = client.get_voting_stats();
    assert_eq!(stats_three.total_voters, 3);
}
