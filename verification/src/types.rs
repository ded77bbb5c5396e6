use vstd::prelude::*;

verus! {

/// The identity of a participant: the administrator or a voter.
///
/// Two identities are the same participant exactly when their numbers are equal.
#[derive(Clone, Copy, Debug, PartialEq, Eq, Structural)]
pub struct Address {
    pub id: u64,
}

impl Address {
    /// The identity with the given number.
    pub fn new(id: u64) -> (a: Address)
        ensures
            a.id == id,
    {
        Address { id }
    }
}

/// Where a voter stands in the election. `Voted` and `Delegated` are terminal.
#[derive(Clone, Copy, Debug, PartialEq, Eq, Structural)]
pub enum VoterStatus {
    /// Never registered: the status of every identity the election does not know.
    NotRegistered,
    /// Registered, and free to vote or to delegate.
    Registered,
    /// Has cast a vote, which is counted.
    Voted,
    /// Has handed their vote to the voter named.
    Delegated(Address),
}

/// Aggregate figures of the election.
#[derive(Clone, Copy, Debug, PartialEq, Eq, Structural)]
pub struct VotingStats {
    /// The sum of the parties' tallies.
    pub total_votes: u32,
    /// The number of parties.
    pub total_parties: u32,
    /// The number of voters that were registered.
    pub total_voters: u32,
}

/// Why an operation was refused. A refused operation changes nothing.
#[derive(Clone, Copy, Debug, PartialEq, Eq, Structural)]
pub enum VotingError {
    /// The election has no administrator yet.
    NotInitialized,
    /// The election has an administrator already.
    AlreadyInitialized,
    /// A party of that name is registered.
    DuplicateParty,
    /// No party of that name is registered.
    UnknownParty,
    /// The identity was registered as a voter before.
    AlreadyRegistered,
    /// The voter is not registered; of a delegation: the delegator is not,
    /// or else the delegate is not.
    NotRegistered,
    /// The voter has cast a vote already; of a delegation: the delegator
    /// has, or else the delegate has.
    AlreadyVoted,
    /// The voter has handed their vote on already; of a delegation: the
    /// delegator has, or else the delegate has.
    AlreadyDelegated,
    /// Delegator and delegate are the same identity.
    SelfDelegation,
    /// The delegations from the delegate on lead back to the delegator.
    CircularDelegation,
    /// The delegations from the delegate on go beyond the bound on hops.
    DelegationChainTooLong,
    /// The deadline does not lie after the time of the call.
    InvalidDeadline,
    /// The deadline has passed.
    VotingClosed,
    /// The caller is not the identity that the operation is for.
    AuthorizationFailed,
}

/// Proof that the caller of an operation is the identity it names.
///
/// The surrounding program creates one only after it has established who is
/// calling; the election never takes the caller's word for it.
#[derive(Clone, Copy, Debug, PartialEq, Eq, Structural)]
pub struct Authorization {
    pub identity: Address,
}

impl Authorization {
    /// The capability of the participant `identity`.
    pub fn of(identity: Address) -> (auth: Authorization)
        ensures
            auth.identity == identity,
    {
        Authorization { identity }
    }

    /// Whether this capability speaks for `who`.
    pub fn proves(&self, who: Address) -> (yes: bool)
        ensures
            yes == (self.identity == who),
    {
        self.identity == who
    }
}

/// What the election keeps of one registered voter.
#[derive(Clone, Copy, Debug, PartialEq, Eq, Structural)]
pub struct VoterRecord {
    pub id: Address,
    pub status: VoterStatus,
    /// Weight handed to this voter by others, one unit per delegation.
    pub delegated: u32,
}

/// What walking a delegation chain found.
#[derive(Clone, Copy, Debug, PartialEq, Eq, Structural)]
pub enum ChainOutcome {
    /// The chain ends at a voter who has not delegated.
    Clear,
    /// The chain meets the delegator, or an identity it has passed already.
    Circular,
    /// The chain goes on beyond the bound on hops.
    TooLong,
}

} // verus!
