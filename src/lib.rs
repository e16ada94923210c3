//! A registry of time-boxed polls: creating polls, admitting one ballot per
//! voter and poll, and keeping per-option tallies.
pub mod ballots;
pub mod contract;
pub mod errors;
pub mod models;

pub use contract::VotingContract;
pub use errors::ContractError;
pub use models::{Poll, VoteResults};
