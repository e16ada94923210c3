use vstd::prelude::*;

verus! {

/// The ways in which an operation on the registry can be refused.
#[derive(Debug, Clone, Copy, PartialEq, Eq, Structural)]
pub enum ContractError {
    /// The caller may not perform this operation.
    Unauthorized,
    /// No poll has the given id.
    PollNotFound,
    /// The poll is closed, or its voting window has not opened yet.
    PollNotActive,
    /// The poll's voting window is over.
    PollAlreadyEnded,
    /// The poll's voting window is not over yet (no operation returns it at present).
    PollNotEnded,
    /// An option list is too short, or an option index is out of range.
    InvalidOption,
    /// The voter already has a ballot in this poll.
    AlreadyVoted,
    /// A poll's start time is not before its end time.
    InvalidTimeRange,
}

} // verus!
