//! A single election with proxy voting.
//!
//! Parties and voters are registered by an administrator. A registered voter
//! either votes for a party or hands their vote to another registered voter,
//! who then votes with one unit of weight more. [`VotingContract`] holds the
//! election and offers the operations; `model` says what each of them does to
//! the election as a mathematical value; `laws` states what holds of every
//! election that the operations can produce.

pub mod contract;
pub mod history;
pub mod host;
pub mod laws;
pub mod lemmas;
pub mod model;
pub mod sums;
pub mod transitions;
pub mod types;

pub use crate::contract::VotingContract;
pub use crate::types::{
    Address, Authorization, ChainOutcome, VoterRecord, VoterStatus, VotingError, VotingStats,
};
